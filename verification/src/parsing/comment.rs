//! One comment line for the classifier's comment run: optional horizontal
//! whitespace, `//`, the raw text up to the line end, the line ending
//! consumed.

use vstd::prelude::*;

use crate::util::{hspace_pred, non_newline_pred, skip_hspaces, skip_to_newline, skip_while};

verus! {

/// Optional leading spaces and tabs (a line feed is never skipped, so a
/// blank line still breaks a comment run), then `//`, then the untrimmed
/// text up to the line end.  The line ending — `\n` or `\r\n` — is consumed
/// in full and kept out of the text; a `\r` that ends the input is dropped
/// from the text too.  Returns `(remainder, text)`.
pub open spec fn spec_comment(s: Seq<char>) -> Option<(Seq<char>, Seq<char>)> {
    let a = skip_while(s, 0, hspace_pred());
    if a + 1 < s.len() && s[a] == '/' && s[a + 1] == '/' {
        let e = skip_while(s, a + 2, non_newline_pred());
        let text_end = if e > a + 2 && s[e - 1] == '\r' {
            e - 1
        } else {
            e
        };
        let rest_start = if e < s.len() {
            e + 1
        } else {
            e
        };
        Some((s.subrange(rest_start, s.len() as int), s.subrange(a + 2, text_end)))
    } else {
        None
    }
}

/// A comment line always consumes at least its two slashes.
pub proof fn lemma_comment_shrinks(s: Seq<char>)
    ensures
        spec_comment(s) matches Some((r, _)) ==> r.len() + 2 <= s.len(),
{
    crate::util::lemma_skip_while(s, 0, hspace_pred());
    let a = skip_while(s, 0, hspace_pred());
    if a + 1 < s.len() {
        crate::util::lemma_skip_while(s, a + 2, non_newline_pred());
    }
}

pub fn comment<'a>(input: &'a str) -> (r: Option<(&'a str, &'a str)>)
    ensures
        match r {
            Some((rest, text)) => spec_comment(input@) == Some((rest@, text@)),
            None => spec_comment(input@) is None,
        },
{
    let len = input.unicode_len();
    let a = skip_hspaces(input, 0);
    if a < len && a + 1 < len && input.get_char(a) == '/' && input.get_char(a + 1) == '/' {
        let e = skip_to_newline(input, a + 2);
        let text_end = if e > a + 2 && input.get_char(e - 1) == '\r' {
            e - 1
        } else {
            e
        };
        let rest_start = if e < len {
            e + 1
        } else {
            e
        };
        Some((input.substring_char(rest_start, len), input.substring_char(a + 2, text_end)))
    } else {
        None
    }
}

} // verus!
