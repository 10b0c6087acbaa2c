//! A standalone comment-line parser: tolerates any leading whitespace
//! (line breaks included), returns the `//` tag and the trimmed comment
//! text, and leaves the line feed in the remainder.
//!
//! The classifier's comment run uses `parsing::comment` instead, which keeps
//! the text after `//` verbatim and consumes the line ending; this variant
//! stays for callers that want the tag and a trimmed text.

use vstd::prelude::*;

use crate::util::{
    non_newline_pred, skip_spaces, skip_to_newline, skip_while, space_pred, trim_spec, trim_str,
};

verus! {

/// Optional whitespace, `//`, then the text up to the next line feed,
/// trimmed.  Returns `(remainder, (tag, text))` with the line feed left in
/// the remainder.
pub open spec fn spec_comment_line(s: Seq<char>) -> Option<(Seq<char>, (Seq<char>, Seq<char>))> {
    let a = skip_while(s, 0, space_pred());
    if a + 1 < s.len() && s[a] == '/' && s[a + 1] == '/' {
        let e = skip_while(s, a + 2, non_newline_pred());
        Some(
            (
                s.subrange(e, s.len() as int),
                (seq!['/', '/'], trim_spec(s.subrange(a + 2, e))),
            ),
        )
    } else {
        None
    }
}

pub fn comment_line<'a>(input: &'a str) -> (r: Option<(&'a str, (&'a str, &'a str))>)
    ensures
        match r {
            Some((rest, (tag, text))) => spec_comment_line(input@) == Some(
                (rest@, (tag@, text@)),
            ),
            None => spec_comment_line(input@) is None,
        },
{
    let len = input.unicode_len();
    let a = skip_spaces(input, 0);
    if a < len && a + 1 < len && input.get_char(a) == '/' && input.get_char(a + 1) == '/' {
        let e = skip_to_newline(input, a + 2);
        let tag = input.substring_char(a, a + 2);
        proof {
            assert(tag@ =~= seq!['/', '/']);
        }
        let text = trim_str(input.substring_char(a + 2, e));
        Some((input.substring_char(e, len), (tag, text)))
    } else {
        None
    }
}

} // verus!
