//! The opaque-line alternative of the classifier: consume one line, whatever
//! it holds.  It fails only on empty input, which is what lets the driver
//! stop.

use vstd::prelude::*;

use crate::util::{non_newline_pred, skip_to_newline, skip_while};

verus! {

/// One line: everything up to and including the next line feed (or to the
/// end of input).  Returns `(remainder, consumed line)`; fails on empty
/// input.
pub open spec fn spec_non_comment_line(s: Seq<char>) -> Option<(Seq<char>, Seq<char>)> {
    if s.len() == 0 {
        None
    } else {
        let e = skip_while(s, 0, non_newline_pred());
        let stop = if e < s.len() {
            e + 1
        } else {
            e
        };
        Some((s.subrange(stop, s.len() as int), s.subrange(0, stop)))
    }
}

/// An opaque line always consumes at least one character.
pub proof fn lemma_non_comment_line_shrinks(s: Seq<char>)
    ensures
        spec_non_comment_line(s) matches Some((r, _)) ==> r.len() < s.len(),
        spec_non_comment_line(s) is None <==> s.len() == 0,
{
    if s.len() > 0 {
        crate::util::lemma_skip_while(s, 0, non_newline_pred());
        let e = skip_while(s, 0, non_newline_pred());
        if e < s.len() {
            assert(s.subrange(e + 1, s.len() as int).len() < s.len());
        } else {
            assert(e >= 1) by {
                if e == 0 {
                    assert(s[0] == '\n');
                }
            }
        }
    }
}

pub fn non_comment_line<'a>(input: &'a str) -> (r: Option<(&'a str, &'a str)>)
    ensures
        match r {
            Some((rest, line)) => spec_non_comment_line(input@) == Some((rest@, line@)),
            None => spec_non_comment_line(input@) is None,
        },
{
    let len = input.unicode_len();
    if len == 0 {
        return None;
    }
    let e = skip_to_newline(input, 0);
    let stop = if e < len {
        e + 1
    } else {
        e
    };
    Some((input.substring_char(stop, len), input.substring_char(0, stop)))
}

} // verus!
