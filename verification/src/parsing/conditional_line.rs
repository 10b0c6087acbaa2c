//! The conditional-guard parser: `if (...)` or `else if (...)` headers.

use vstd::prelude::*;

use crate::shared::take_until_unbalanced::{scan_from, scan_region};
use crate::types::nested::{Nested, NestedView};
use crate::util::{has_at, skip_spaces, skip_while, space_pred, trim_spec, trim_str};

verus! {

/// The `else if` keyword text.
pub open spec fn else_if_kw() -> Seq<char> {
    seq!['e', 'l', 's', 'e', ' ', 'i', 'f']
}

/// The `if` keyword text.
pub open spec fn if_kw() -> Seq<char> {
    seq!['i', 'f']
}

/// A conditional guard: the keyword `else if` (tried first, being longer) or
/// `if` at the start of the input, optional whitespace, then a balanced
/// `(...)` region.  Yields `[keyword, condition]` — the condition is the full
/// region text, outer parentheses included — and the remainder after the
/// region, trimmed, so that it starts at the `{` of the guarded block.
pub open spec fn spec_conditional_line(s: Seq<char>) -> Option<(Seq<char>, NestedView)> {
    let kw: Seq<char> = if has_at(s, 0, else_if_kw()) {
        else_if_kw()
    } else {
        if_kw()
    };
    if has_at(s, 0, kw) {
        let a = skip_while(s, kw.len() as int, space_pred());
        if a < s.len() && s[a] == '(' && scan_from('(', ')', s, a, 0, 0) is Ok {
            let (o, b) = scan_from('(', ')', s, a, 0, 0)->Ok_0;
            Some(
                (
                    trim_spec(s.subrange(b + 1, s.len() as int)),
                    NestedView::List(
                        seq![NestedView::Text(kw), NestedView::Text(s.subrange(o, b + 1))],
                    ),
                ),
            )
        } else {
            None
        }
    } else {
        None
    }
}

/// A guard header always consumes at least its keyword and condition region.
pub proof fn lemma_conditional_shrinks(s: Seq<char>)
    ensures
        spec_conditional_line(s) matches Some((r, _)) ==> r.len() < s.len(),
{
    if spec_conditional_line(s) is Some {
        let kw: Seq<char> = if has_at(s, 0, else_if_kw()) {
            else_if_kw()
        } else {
            if_kw()
        };
        crate::util::lemma_skip_while(s, kw.len() as int, space_pred());
        let a = skip_while(s, kw.len() as int, space_pred());
        crate::shared::take_until_unbalanced::lemma_scan_from_ok('(', ')', s, a, 0, 0);
        let (o, b) = scan_from('(', ')', s, a, 0, 0)->Ok_0;
        crate::util::lemma_trim_lengths(s.subrange(b + 1, s.len() as int));
    }
}

/// Parse an `if (...)`/`else if (...)` guard header.
pub fn conditional_line<'a>(input: &'a str) -> (r: Option<(&'a str, Nested)>)
    ensures
        match r {
            Some((rest, v)) => spec_conditional_line(input@) == Some((rest@, v@)),
            None => spec_conditional_line(input@) is None,
        },
{
    let ghost s = input@;
    let len = input.unicode_len();
    proof {
        reveal_strlit("else if");
        reveal_strlit("if");
        assert("else if"@ =~= else_if_kw());
        assert("if"@ =~= if_kw());
    }
    let kw: &'static str = if crate::util::match_at(input, 0, "else if") {
        "else if"
    } else {
        "if"
    };
    let klen = kw.unicode_len();
    if !crate::util::match_at(input, 0, kw) {
        return None;
    }
    let a = skip_spaces(input, klen);
    if a < len && input.get_char(a) == '(' {
        match scan_region('(', ')', input, a) {
            Ok((o, b)) => {
                let condition = input.substring_char(o, b + 1);
                let rest = trim_str(input.substring_char(b + 1, len));
                let mut items: Vec<Nested> = Vec::new();
                items.push(Nested::Text(kw.to_owned()));
                items.push(Nested::Text(condition.to_owned()));
                proof {
                    assert(items@[0]@ == NestedView::Text(kw@));
                    assert(items@[1]@ == NestedView::Text(condition@));
                }
                let v = Nested::List(items);
                proof {
                    assert(v@->List_0 =~= spec_conditional_line(s)->Some_0.1->List_0);
                }
                Some((rest, v))
            },
            Err(_) => None,
        }
    } else {
        None
    }
}

} // verus!
