//! The line classifier: at each position try, in order, a comment run, a
//! typedef, a declaration, a conditional guard, and finally an opaque line.
//! The first success wins; when nothing matches the classifier reports
//! `NoAlternativeMatched` and the driver stops.

use vstd::prelude::*;

use super::comment::{comment, spec_comment};
use super::conditional_line::{conditional_line, spec_conditional_line};
use super::declaration_line::{declaration_statement, spec_declaration_statement};
use super::non_comment_line::{non_comment_line, spec_non_comment_line};
use super::typedef_line::{spec_typedef_line, typedef_line};
use crate::errors::{BtError, ErrorKind};
use crate::types::nested::{Nested, NestedView};
use crate::util::{hspace_pred, skip_while};

verus! {

/// The tail of a comment run: each further immediately-consecutive comment
/// line contributes a line feed and its text.  A step that fails to shrink
/// the remainder ends the run, which also bounds the recursion.
pub open spec fn comment_run_more(s: Seq<char>) -> (Seq<char>, Seq<char>)
    decreases s.len(),
{
    match spec_comment(s) {
        None => (s, Seq::empty()),
        Some((r, t)) => if r.len() < s.len() {
            let (rf, more) = comment_run_more(r);
            (rf, seq!['\n'] + t + more)
        } else {
            (r, seq!['\n'] + t)
        },
    }
}

/// One classified step: a grouped comment block (consecutive `//` lines
/// joined with line feeds), a typedef tree, or a consumed-and-discarded
/// declaration, conditional or opaque line.  `NoAlternativeMatched` comes
/// exactly when no alternative applies (only empty input, with these
/// alternatives).
pub open spec fn spec_any_line(s: Seq<char>) -> Result<
    (Seq<char>, (Option<Seq<char>>, Option<NestedView>)),
    ErrorKind,
> {
    match spec_comment(s) {
        Some((r, t)) => {
            let (rf, more) = comment_run_more(r);
            Ok((rf, (Some(t + more), None)))
        },
        None => match spec_typedef_line(s) {
            Some((r, td)) => Ok((r, (None, Some(td)))),
            None => match spec_declaration_statement(s) {
                Some((r, _)) => Ok((r, (None, None))),
                None => match spec_conditional_line(s) {
                    Some((r, _)) => Ok((r, (None, None))),
                    None => match spec_non_comment_line(s) {
                        Some((r, _)) => Ok((r, (None, None))),
                        None => Err(ErrorKind::NoAlternativeMatched),
                    },
                },
            },
        },
    }
}

/// The tail of a comment run never grows the remainder.
proof fn lemma_comment_run_more_len(s: Seq<char>)
    ensures
        comment_run_more(s).0.len() <= s.len(),
    decreases s.len(),
{
    super::comment::lemma_comment_shrinks(s);
    match spec_comment(s) {
        None => {},
        Some((r, _)) => {
            if r.len() < s.len() {
                lemma_comment_run_more_len(r);
            }
        },
    }
}

/// Law (classifier progress): every successful classification consumes at
/// least one character, so the driver's work is bounded by the input length;
/// and with an opaque-line alternative that accepts any non-empty line,
/// classification fails exactly on empty input.
pub proof fn lemma_classifier_progress(s: Seq<char>)
    ensures
        spec_any_line(s) matches Ok((r, _)) ==> r.len() < s.len(),
        spec_any_line(s) is Err <==> s.len() == 0,
{
    super::comment::lemma_comment_shrinks(s);
    match spec_comment(s) {
        Some((r, _)) => {
            lemma_comment_run_more_len(r);
        },
        None => {
            super::typedef_line::lemma_typedef_line_shrinks(s);
            super::declaration_line::lemma_declaration_shrinks(s);
            super::conditional_line::lemma_conditional_shrinks(s);
            super::non_comment_line::lemma_non_comment_line_shrinks(s);
        },
    }
    if s.len() == 0 {
        assert(spec_comment(s) is None);
        assert(spec_typedef_line(s) is None) by {
            crate::util::lemma_skip_while(s, 0, crate::util::space_pred());
        }
        assert(spec_declaration_statement(s) is None) by {
            crate::util::lemma_skip_while(s, 0, crate::util::space_pred());
            crate::util::lemma_skip_while(s, 0, crate::util::word_pred());
        }
        assert(spec_conditional_line(s) is None);
        assert(spec_non_comment_line(s) is None);
    }
}

/// Law (comment classification): when the input, after optional leading
/// horizontal whitespace, starts with `//`, the classifier returns a grouped
/// comment block (and no typedef), never discarding the line as opaque.
pub proof fn lemma_classifier_takes_comment(s: Seq<char>)
    requires
        ({
            let a = skip_while(s, 0, hspace_pred());
            a + 1 < s.len() && s[a] == '/' && s[a + 1] == '/'
        }),
    ensures
        spec_any_line(s) matches Ok((r, (c, t))) ==> c is Some && t is None,
        spec_any_line(s) is Ok,
{
}

fn comment_run_more_exec<'a>(input: &'a str) -> (r: (&'a str, String))
    ensures
        r.0@ == comment_run_more(input@).0,
        r.1@ == comment_run_more(input@).1,
    decreases input@.len(),
{
    match comment(input) {
        None => {
            let empty = String::new();
            proof {
                assert(empty@ =~= comment_run_more(input@).1);
            }
            (input, empty)
        },
        Some((rest, t)) => {
            proof {
                reveal_strlit("\n");
                assert("\n"@ =~= seq!['\n']);
            }
            let mut joined = "\n".to_owned();
            joined.append(t);
            if rest.unicode_len() < input.unicode_len() {
                let (rf, more) = comment_run_more_exec(rest);
                joined.append(more.as_str());
                (rf, joined)
            } else {
                (rest, joined)
            }
        },
    }
}

/// Classify one line of input.  On a comment run the grouped block is
/// returned; on a typedef its tree; declarations, conditionals and opaque
/// lines are consumed and discarded.
pub fn any_line<'a>(input: &'a str) -> (r: Result<
    (&'a str, (Option<String>, Option<Nested>)),
    BtError<'a>,
>)
    ensures
        match r {
            Ok((rest, (c, t))) => {
                &&& spec_any_line(input@) matches Ok((srest, (sc, st)))
                &&& rest@ == srest
                &&& match c {
                    Some(x) => sc == Some(x@),
                    None => sc is None,
                }
                &&& match t {
                    Some(x) => st == Some(x@),
                    None => st is None,
                }
            },
            Err(e) => {
                &&& spec_any_line(input@) == Err::<
                    (Seq<char>, (Option<Seq<char>>, Option<NestedView>)),
                    _,
                >(e.kind)
                &&& e.input == input
            },
        },
{
    match comment(input) {
        Some((rest, t)) => {
            let mut block = t.to_owned();
            let (rf, more) = comment_run_more_exec(rest);
            block.append(more.as_str());
            Ok((rf, (Some(block), None)))
        },
        None => match typedef_line(input) {
            Some((rest, td)) => Ok((rest, (None, Some(td)))),
            None => match declaration_statement(input) {
                Some((rest, _)) => Ok((rest, (None, None))),
                None => match conditional_line(input) {
                    Some((rest, _)) => Ok((rest, (None, None))),
                    None => match non_comment_line(input) {
                        Some((rest, _)) => Ok((rest, (None, None))),
                        None => Err(BtError::new(input, ErrorKind::NoAlternativeMatched)),
                    },
                },
            },
        },
    }
}

} // verus!
