//! The attribute parser: one key from a fixed vocabulary (each ending in
//! `=`), then unrestricted text to the end of the line.

use vstd::prelude::*;

use crate::errors::{BtError, ErrorKind};
use crate::types::nested::{Nested, NestedView};
use crate::util::{has_at, non_newline_pred, skip_to_newline, skip_while};

verus! {

/// The attribute-key vocabulary, in trial order.  No key is a prefix of
/// another, so the order never changes the outcome.
pub open spec fn attr_keys() -> Seq<Seq<char>> {
    seq![
        seq!['f', 'o', 'r', 'm', 'a', 't', '='],
        seq!['f', 'g', 'c', 'o', 'l', 'o', 'r', '='],
        seq!['b', 'g', 'c', 'o', 'l', 'o', 'r', '='],
        seq!['s', 't', 'y', 'l', 'e', '='],
        seq!['c', 'o', 'm', 'm', 'e', 'n', 't', '='],
        seq!['n', 'a', 'm', 'e', '='],
        seq!['o', 'p', 'e', 'n', '='],
        seq!['h', 'i', 'd', 'd', 'e', 'n', '='],
        seq!['r', 'e', 'a', 'd', '='],
        seq!['w', 'r', 'i', 't', 'e', '='],
        seq!['s', 'i', 'z', 'e', '='],
        seq!['o', 'p', 't', 'i', 'm', 'i', 'z', 'e', '='],
        seq!['d', 'i', 's', 'a', 's', 'm', '='],
    ]
}

/// First vocabulary key that is a prefix of `s`, searching from index `j`.
pub open spec fn match_key_from(s: Seq<char>, j: int) -> Option<int>
    decreases attr_keys().len() - j,
{
    if j < 0 || j >= attr_keys().len() {
        None
    } else if has_at(s, 0, attr_keys()[j]) {
        Some(j)
    } else {
        match_key_from(s, j + 1)
    }
}

/// One attribute: a vocabulary key, then the raw text up to the end of the
/// line — a `\r` that directly precedes the line feed stays out of the value
/// and is left in the remainder with the rest of the line ending.  Yields
/// `(remainder, [key, value])`; a leading token outside the vocabulary is an
/// unknown attribute key.
pub open spec fn spec_special_attributes(s: Seq<char>) -> Result<
    (Seq<char>, NestedView),
    ErrorKind,
> {
    match match_key_from(s, 0) {
        None => Err(ErrorKind::UnknownAttributeKey),
        Some(j) => {
            let key = attr_keys()[j];
            let e = skip_while(s, key.len() as int, non_newline_pred());
            let ve = if e > key.len() && s[e - 1] == '\r' {
                e - 1
            } else {
                e
            };
            Ok(
                (
                    s.subrange(ve, s.len() as int),
                    NestedView::List(
                        seq![NestedView::Text(key), NestedView::Text(s.subrange(key.len() as int, ve))],
                    ),
                ),
            )
        },
    }
}

proof fn lemma_match_key_from_some(s: Seq<char>, j: int)
    ensures
        match match_key_from(s, j) {
            Some(k) => j <= k < attr_keys().len() && has_at(s, 0, attr_keys()[k]),
            None => true,
        },
    decreases attr_keys().len() - j,
{
    if 0 <= j && j < attr_keys().len() && !has_at(s, 0, attr_keys()[j]) {
        lemma_match_key_from_some(s, j + 1);
    }
}

/// The vocabulary as string literals, in the same trial order.
fn attr_key_list() -> (r: Vec<&'static str>)
    ensures
        r@.len() == attr_keys().len(),
        forall|j: int| 0 <= j < r@.len() ==> r@[j]@ == attr_keys()[j],
{
    proof {
        reveal_strlit("format=");
        reveal_strlit("fgcolor=");
        reveal_strlit("bgcolor=");
        reveal_strlit("style=");
        reveal_strlit("comment=");
        reveal_strlit("name=");
        reveal_strlit("open=");
        reveal_strlit("hidden=");
        reveal_strlit("read=");
        reveal_strlit("write=");
        reveal_strlit("size=");
        reveal_strlit("optimize=");
        reveal_strlit("disasm=");
    }
    let mut v: Vec<&'static str> = Vec::new();
    v.push("format=");
    v.push("fgcolor=");
    v.push("bgcolor=");
    v.push("style=");
    v.push("comment=");
    v.push("name=");
    v.push("open=");
    v.push("hidden=");
    v.push("read=");
    v.push("write=");
    v.push("size=");
    v.push("optimize=");
    v.push("disasm=");
    proof {
        assert(v@[0]@ =~= attr_keys()[0]);
        assert(v@[1]@ =~= attr_keys()[1]);
        assert(v@[2]@ =~= attr_keys()[2]);
        assert(v@[3]@ =~= attr_keys()[3]);
        assert(v@[4]@ =~= attr_keys()[4]);
        assert(v@[5]@ =~= attr_keys()[5]);
        assert(v@[6]@ =~= attr_keys()[6]);
        assert(v@[7]@ =~= attr_keys()[7]);
        assert(v@[8]@ =~= attr_keys()[8]);
        assert(v@[9]@ =~= attr_keys()[9]);
        assert(v@[10]@ =~= attr_keys()[10]);
        assert(v@[11]@ =~= attr_keys()[11]);
        assert(v@[12]@ =~= attr_keys()[12]);
    }
    v
}

/// Parse one `<key=value>` attribute body, e.g. `size=0x1B0` into
/// `["size=", "0x1B0"]`.
pub fn special_attributes<'a>(input: &'a str) -> (r: Result<(&'a str, Nested), BtError<'a>>)
    ensures
        match r {
            Ok((rest, v)) => spec_special_attributes(input@) == Ok::<_, ErrorKind>((rest@, v@)),
            Err(e) => {
                &&& spec_special_attributes(input@) == Err::<(Seq<char>, NestedView), _>(e.kind)
                &&& e.input == input
            },
        },
{
    let ghost s = input@;
    let keys = attr_key_list();
    let n = keys.len();
    let len = input.unicode_len();
    let mut j: usize = 0;
    let mut found: Option<usize> = None;
    while j < n
        invariant_except_break
            found is None,
        invariant
            0 <= j <= n,
            n == attr_keys().len(),
            keys@.len() == n,
            forall|m: int| 0 <= m < n ==> keys@[m]@ == attr_keys()[m],
            input@ == s,
            match_key_from(s, 0) == match_key_from(s, j as int),
        ensures
            match found {
                Some(k) => match_key_from(s, 0) == Some(k as int) && k < n,
                None => match_key_from(s, 0) is None,
            },
        decreases n - j,
    {
        if crate::util::match_at(input, 0, keys[j]) {
            found = Some(j);
            break ;
        }
        j = j + 1;
    }
    match found {
        None => Err(BtError::new(input, ErrorKind::UnknownAttributeKey)),
        Some(k) => {
            let key = keys[k];
            let klen = key.unicode_len();
            proof {
                lemma_match_key_from_some(s, 0);
            }
            let e = skip_to_newline(input, klen);
            let ve = if e > klen && input.get_char(e - 1) == '\r' {
                e - 1
            } else {
                e
            };
            let value = input.substring_char(klen, ve);
            let rest = input.substring_char(ve, len);
            let mut items: Vec<Nested> = Vec::new();
            items.push(Nested::Text(key.to_owned()));
            items.push(Nested::Text(value.to_owned()));
            proof {
                assert(items@[0]@ == NestedView::Text(key@));
                assert(items@[1]@ == NestedView::Text(value@));
            }
            let v = Nested::List(items);
            proof {
                assert(v@->List_0 =~= spec_special_attributes(s)->Ok_0.1->List_0);
            }
            Ok((rest, v))
        },
    }
}

} // verus!
