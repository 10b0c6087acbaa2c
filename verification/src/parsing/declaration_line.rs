//! The declaration-statement parser: one `type identifier<attr>;` field
//! line.

pub mod special_attributes;

use vstd::prelude::*;

use crate::errors::ErrorKind;
use crate::shared::take_until_unbalanced::scan_from;
use crate::types::nested::{Nested, NestedView};
use crate::util::{
    alnum_pred, skip_alnum, skip_spaces, skip_while, skip_word, space_pred, trim_spec, trim_str,
    word_pred,
};

verus! {

/// A declaration statement: optional whitespace, a type token (letters,
/// digits, underscores), required whitespace, an identifier (letters and
/// digits), an optional `<...>` attribute region (balanced, its inner text
/// trimmed), and a terminating `;` directly after the identifier or the
/// region.  Yields `[type, identifier, attribute-text-or-empty]` and the
/// remainder after the `;`, trimmed.
pub open spec fn spec_declaration_statement(s: Seq<char>) -> Option<(Seq<char>, NestedView)> {
    let a = skip_while(s, 0, space_pred());
    let b = skip_while(s, a, word_pred());
    if b == a {
        None
    } else {
        let c = skip_while(s, b, space_pred());
        if c == b {
            None
        } else {
            let d = skip_while(s, c, alnum_pred());
            if d == c {
                None
            } else {
                let ty = s.subrange(a, b);
                let ident = s.subrange(c, d);
                let g = skip_while(s, d, space_pred());
                if g < s.len() && s[g] == '<' && scan_from('<', '>', s, g, 0, 0) is Ok {
                    let (o, h) = scan_from('<', '>', s, g, 0, 0)->Ok_0;
                    if h + 1 < s.len() && s[h + 1] == ';' {
                        let attr = trim_spec(s.subrange(o + 1, h));
                        Some(
                            (
                                trim_spec(s.subrange(h + 2, s.len() as int)),
                                NestedView::List(
                                    seq![
                                        NestedView::Text(ty),
                                        NestedView::Text(ident),
                                        NestedView::Text(attr),
                                    ],
                                ),
                            ),
                        )
                    } else {
                        None
                    }
                } else {
                    if d < s.len() && s[d] == ';' {
                        Some(
                            (
                                trim_spec(s.subrange(d + 1, s.len() as int)),
                                NestedView::List(
                                    seq![
                                        NestedView::Text(ty),
                                        NestedView::Text(ident),
                                        NestedView::Text(Seq::empty()),
                                    ],
                                ),
                            ),
                        )
                    } else {
                        None
                    }
                }
            }
        }
    }
}

/// A declaration statement always consumes at least through its terminator.
pub proof fn lemma_declaration_shrinks(s: Seq<char>)
    ensures
        spec_declaration_statement(s) matches Some((r, _)) ==> r.len() < s.len(),
{
    if spec_declaration_statement(s) is Some {
        crate::util::lemma_skip_while(s, 0, space_pred());
        let a = skip_while(s, 0, space_pred());
        crate::util::lemma_skip_while(s, a, word_pred());
        let b = skip_while(s, a, word_pred());
        crate::util::lemma_skip_while(s, b, space_pred());
        let c = skip_while(s, b, space_pred());
        crate::util::lemma_skip_while(s, c, alnum_pred());
        let d = skip_while(s, c, alnum_pred());
        let g = skip_while(s, d, space_pred());
        crate::util::lemma_skip_while(s, d, space_pred());
        if g < s.len() && s[g] == '<' && scan_from('<', '>', s, g, 0, 0) is Ok {
            crate::shared::take_until_unbalanced::lemma_scan_from_ok('<', '>', s, g, 0, 0);
            let (o, h) = scan_from('<', '>', s, g, 0, 0)->Ok_0;
            crate::util::lemma_trim_lengths(s.subrange(h + 2, s.len() as int));
        } else {
            crate::util::lemma_trim_lengths(s.subrange(d + 1, s.len() as int));
        }
    }
}

/// Parse one declaration statement, e.g. `int a<0x%08X>;` into
/// `["int", "a", "0x%08X"]`.
pub fn declaration_statement<'a>(input: &'a str) -> (r: Option<(&'a str, Nested)>)
    ensures
        match r {
            Some((rest, v)) => spec_declaration_statement(input@) == Some((rest@, v@)),
            None => spec_declaration_statement(input@) is None,
        },
{
    let ghost s = input@;
    let len = input.unicode_len();
    let a = skip_spaces(input, 0);
    let b = skip_word(input, a);
    if b == a {
        return None;
    }
    let c = skip_spaces(input, b);
    if c == b {
        return None;
    }
    let d = skip_alnum(input, c);
    if d == c {
        return None;
    }
    let ty = input.substring_char(a, b);
    let ident = input.substring_char(c, d);
    let g = skip_spaces(input, d);
    if g < len && input.get_char(g) == '<' {
        let scan = crate::shared::take_until_unbalanced::scan_region('<', '>', input, g);
        match scan {
            Ok((o, h)) => {
                if h + 1 < len && input.get_char(h + 1) == ';' {
                    let attr = trim_str(input.substring_char(o + 1, h));
                    let rest = trim_str(input.substring_char(h + 2, len));
                    let mut items: Vec<Nested> = Vec::new();
                    items.push(Nested::Text(ty.to_owned()));
                    items.push(Nested::Text(ident.to_owned()));
                    items.push(Nested::Text(attr.to_owned()));
                    proof {
                        assert(items@[0]@ == NestedView::Text(ty@));
                        assert(items@[1]@ == NestedView::Text(ident@));
                        assert(items@[2]@ == NestedView::Text(attr@));
                    }
                    let value = Nested::List(items);
                    proof {
                        assert(value@->List_0 =~= spec_declaration_statement(
                            s,
                        )->Some_0.1->List_0);
                    }
                    return Some((rest, value));
                } else {
                    return None;
                }
            },
            Err(_) => {
                return None;
            },
        }
    }
    if d < len && input.get_char(d) == ';' {
        let rest = trim_str(input.substring_char(d + 1, len));
        let empty_attr = input.substring_char(0, 0);
        let mut items: Vec<Nested> = Vec::new();
        items.push(Nested::Text(ty.to_owned()));
        items.push(Nested::Text(ident.to_owned()));
        items.push(Nested::Text(empty_attr.to_owned()));
        proof {
            assert(empty_attr@ =~= Seq::<char>::empty());
            assert(items@[0]@ == NestedView::Text(ty@));
            assert(items@[1]@ == NestedView::Text(ident@));
            assert(items@[2]@ == NestedView::Text(Seq::<char>::empty()));
        }
        let value = Nested::List(items);
        proof {
            assert(value@->List_0 =~= spec_declaration_statement(s)->Some_0.1->List_0);
        }
        Some((rest, value))
    } else {
        None
    }
}

} // verus!
