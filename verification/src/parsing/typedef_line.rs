//! The typedef parser: `typedef struct` followed by one of four
//! mutually-exclusive body shapes, tried in order — aliased (with a `<...>`
//! attribute region), named, anonymous, parameterized.

pub mod typedef_member;
pub mod typedef_members;

use vstd::prelude::*;

use crate::parsing::declaration_line::special_attributes::{
    spec_special_attributes, special_attributes,
};
use crate::shared::take_until_unbalanced::{spec_take_until_unbalanced, take_until_unbalanced};
use crate::types::nested::{Nested, NestedView};
use crate::util::{
    alnum_pred, has_at, skip_alnum, skip_spaces, skip_while, skip_word, space_pred,
    trim_start_spec, trim_start_str, word_pred,
};

verus! {

/// The aliased-body shape: an optional pre-name, a balanced `{...}` body, an
/// optional post-name, a balanced `<...>` region holding an attribute.  At
/// least one of the two names must be present; with both, the name slot is
/// the pair `[pre, post]`.  Yields `[name, body-text, attribute-pair]` and
/// the remainder after the attribute region.
pub open spec fn spec_typedef_with_alias_name(s: Seq<char>) -> Option<(Seq<char>, NestedView)> {
    let p = skip_while(s, 0, alnum_pred());
    let pre = s.subrange(0, p);
    let q = skip_while(s, p, space_pred());
    match spec_take_until_unbalanced('{', '}', s.subrange(q, s.len() as int)) {
        Err(_) => None,
        Ok((r1, body)) => {
            let p2 = skip_while(r1, 0, alnum_pred());
            let post = r1.subrange(0, p2);
            let q2 = skip_while(r1, p2, space_pred());
            match spec_take_until_unbalanced('<', '>', r1.subrange(q2, r1.len() as int)) {
                Err(_) => None,
                Ok((r2, attr_text)) => match spec_special_attributes(attr_text) {
                    Err(_) => None,
                    Ok((_, attr_pair)) => if pre.len() > 0 && post.len() > 0 {
                        Some(
                            (
                                r2,
                                NestedView::List(
                                    seq![
                                        NestedView::List(
                                            seq![NestedView::Text(pre), NestedView::Text(post)],
                                        ),
                                        NestedView::Text(body),
                                        attr_pair,
                                    ],
                                ),
                            ),
                        )
                    } else if pre.len() > 0 {
                        Some(
                            (
                                r2,
                                NestedView::List(
                                    seq![NestedView::Text(pre), NestedView::Text(body), attr_pair],
                                ),
                            ),
                        )
                    } else if post.len() > 0 {
                        Some(
                            (
                                r2,
                                NestedView::List(
                                    seq![NestedView::Text(post), NestedView::Text(body), attr_pair],
                                ),
                            ),
                        )
                    } else {
                        None
                    },
                },
            }
        },
    }
}

/// Parse the aliased-body shape, e.g. `Foo {\n} Bar <size=0x10>;`.
pub fn parse_typedef_with_alias_name<'a>(input: &'a str) -> (r: Option<(&'a str, Nested)>)
    ensures
        match r {
            Some((rest, v)) => spec_typedef_with_alias_name(input@) == Some((rest@, v@)),
            None => spec_typedef_with_alias_name(input@) is None,
        },
{
    let ghost s = input@;
    let len = input.unicode_len();
    let p = skip_alnum(input, 0);
    let pre = input.substring_char(0, p);
    let q = skip_spaces(input, p);
    match take_until_unbalanced('{', '}', input.substring_char(q, len)) {
        Err(_) => None,
        Ok((r1, body)) => {
            let r1len = r1.unicode_len();
            let p2 = skip_alnum(r1, 0);
            let post = r1.substring_char(0, p2);
            let q2 = skip_spaces(r1, p2);
            match take_until_unbalanced('<', '>', r1.substring_char(q2, r1len)) {
                Err(_) => None,
                Ok((r2, attr_text)) => match special_attributes(attr_text) {
                    Err(_) => None,
                    Ok((_, attr_pair)) => {
                        let ghost spec_attr = spec_special_attributes(attr_text@)->Ok_0.1;
                        if pre.unicode_len() > 0 && post.unicode_len() > 0 {
                            let mut name_items: Vec<Nested> = Vec::new();
                            name_items.push(Nested::Text(pre.to_owned()));
                            name_items.push(Nested::Text(post.to_owned()));
                            proof {
                                assert(name_items@[0]@ == NestedView::Text(pre@));
                                assert(name_items@[1]@ == NestedView::Text(post@));
                            }
                            let name = Nested::List(name_items);
                            proof {
                                assert(name@->List_0 =~= seq![
                                    NestedView::Text(pre@),
                                    NestedView::Text(post@),
                                ]);
                            }
                            let mut items: Vec<Nested> = Vec::new();
                            items.push(name);
                            items.push(Nested::Text(body.to_owned()));
                            items.push(attr_pair);
                            proof {
                                assert(items@[0]@ == NestedView::List(
                                    seq![NestedView::Text(pre@), NestedView::Text(post@)],
                                ));
                                assert(items@[1]@ == NestedView::Text(body@));
                                assert(items@[2]@ == spec_attr);
                            }
                            let v = Nested::List(items);
                            proof {
                                assert(v@->List_0 =~= spec_typedef_with_alias_name(
                                    s,
                                )->Some_0.1->List_0);
                            }
                            Some((r2, v))
                        } else if pre.unicode_len() > 0 {
                            let mut items: Vec<Nested> = Vec::new();
                            items.push(Nested::Text(pre.to_owned()));
                            items.push(Nested::Text(body.to_owned()));
                            items.push(attr_pair);
                            proof {
                                assert(items@[0]@ == NestedView::Text(pre@));
                                assert(items@[1]@ == NestedView::Text(body@));
                                assert(items@[2]@ == spec_attr);
                            }
                            let v = Nested::List(items);
                            proof {
                                assert(v@->List_0 =~= spec_typedef_with_alias_name(
                                    s,
                                )->Some_0.1->List_0);
                            }
                            Some((r2, v))
                        } else if post.unicode_len() > 0 {
                            let mut items: Vec<Nested> = Vec::new();
                            items.push(Nested::Text(post.to_owned()));
                            items.push(Nested::Text(body.to_owned()));
                            items.push(attr_pair);
                            proof {
                                assert(items@[0]@ == NestedView::Text(post@));
                                assert(items@[1]@ == NestedView::Text(body@));
                                assert(items@[2]@ == spec_attr);
                            }
                            let v = Nested::List(items);
                            proof {
                                assert(v@->List_0 =~= spec_typedef_with_alias_name(
                                    s,
                                )->Some_0.1->List_0);
                            }
                            Some((r2, v))
                        } else {
                            None
                        }
                    },
                },
            }
        },
    }
}

/// The named-body shape: a bare identifier with the body's `{` peeked but
/// not consumed.
pub open spec fn spec_parse_typedef_name(s: Seq<char>) -> Option<(Seq<char>, NestedView)> {
    let a = skip_while(s, 0, space_pred());
    let b = skip_while(s, a, word_pred());
    if b == a {
        None
    } else {
        let c = skip_while(s, b, space_pred());
        if c < s.len() && s[c] == '{' {
            Some((s.subrange(c, s.len() as int), NestedView::Text(s.subrange(a, b))))
        } else {
            None
        }
    }
}

/// Parse the named-body shape, e.g. `Foo {`.
pub fn parse_typedef_name<'a>(input: &'a str) -> (r: Option<(&'a str, Nested)>)
    ensures
        match r {
            Some((rest, v)) => spec_parse_typedef_name(input@) == Some((rest@, v@)),
            None => spec_parse_typedef_name(input@) is None,
        },
{
    let len = input.unicode_len();
    let a = skip_spaces(input, 0);
    let b = skip_word(input, a);
    if b == a {
        return None;
    }
    let c = skip_spaces(input, b);
    if c < len && input.get_char(c) == '{' {
        let name = input.substring_char(a, b);
        Some((input.substring_char(c, len), Nested::Text(name.to_owned())))
    } else {
        None
    }
}

/// The anonymous-body shape: no name, directly at the body's `{`.
pub open spec fn spec_parse_typedef_up_to_bracket(s: Seq<char>) -> Option<(Seq<char>, NestedView)> {
    let a = skip_while(s, 0, space_pred());
    if a < s.len() && s[a] == '{' {
        Some((s.subrange(a, s.len() as int), NestedView::Text(Seq::empty())))
    } else {
        None
    }
}

/// Parse the anonymous-body shape: the input continues at `{`.
pub fn parse_typedef_up_to_bracket<'a>(input: &'a str) -> (r: Option<(&'a str, Nested)>)
    ensures
        match r {
            Some((rest, v)) => spec_parse_typedef_up_to_bracket(input@) == Some((rest@, v@)),
            None => spec_parse_typedef_up_to_bracket(input@) is None,
        },
{
    let len = input.unicode_len();
    let a = skip_spaces(input, 0);
    if a < len && input.get_char(a) == '{' {
        let empty = input.substring_char(0, 0);
        proof {
            assert(empty@ =~= Seq::<char>::empty());
        }
        Some((input.substring_char(a, len), Nested::Text(empty.to_owned())))
    } else {
        None
    }
}

/// The pairs of the parameterized-body shape, from position `i`: each is
/// `type identifier` (both non-empty alphanumeric runs), separated by `,` and
/// closed by `)`.  Returns the index just after the `)`.
pub open spec fn args_from(s: Seq<char>, i: int) -> Option<(int, Seq<NestedView>)>
    recommends
        0 <= i <= s.len(),
    decreases s.len() - i,
{
    let p1 = skip_while(s, i, space_pred());
    let t1 = skip_while(s, p1, alnum_pred());
    if t1 == p1 {
        None
    } else {
        let p2 = skip_while(s, t1, space_pred());
        let t2 = skip_while(s, p2, alnum_pred());
        if t2 == p2 {
            None
        } else {
            let pair = NestedView::List(
                seq![NestedView::Text(s.subrange(p1, t1)), NestedView::Text(s.subrange(p2, t2))],
            );
            if t2 < s.len() && s[t2] == ')' {
                Some((t2 + 1, seq![pair]))
            } else if t2 < s.len() && s[t2] == ',' && i < t2 + 1 {
                match args_from(s, t2 + 1) {
                    None => None,
                    Some((r, ps)) => Some((r, seq![pair] + ps)),
                }
            } else {
                None
            }
        }
    }
}

/// The parameterized-body shape: `(` then one or more `type identifier`
/// pairs separated by `,`, closed by `)`.
pub open spec fn spec_parse_typedef_args(s: Seq<char>) -> Option<(Seq<char>, NestedView)> {
    let a = skip_while(s, 0, space_pred());
    if a < s.len() && s[a] == '(' {
        match args_from(s, a + 1) {
            None => None,
            Some((r, ps)) => Some((s.subrange(r, s.len() as int), NestedView::List(ps))),
        }
    } else {
        None
    }
}

fn args_from_exec<'a>(input: &'a str, i: usize) -> (r: Option<(usize, Vec<Nested>)>)
    requires
        i <= input@.len(),
    ensures
        match r {
            Some((rest, ps)) => {
                &&& args_from(input@, i as int) matches Some((srest, sps))
                &&& rest == srest
                &&& rest <= input@.len()
                &&& ps@.len() == sps.len()
                &&& forall|m: int| 0 <= m < ps@.len() ==> (#[trigger] ps@[m])@ == sps[m]
            },
            None => args_from(input@, i as int) is None,
        },
    decreases input@.len() - i,
{
    let ghost s = input@;
    let len = input.unicode_len();
    let p1 = skip_spaces(input, i);
    let t1 = skip_alnum(input, p1);
    if t1 == p1 {
        return None;
    }
    let p2 = skip_spaces(input, t1);
    let t2 = skip_alnum(input, p2);
    if t2 == p2 {
        return None;
    }
    let ty = input.substring_char(p1, t1);
    let name = input.substring_char(p2, t2);
    let mut pair_items: Vec<Nested> = Vec::new();
    pair_items.push(Nested::Text(ty.to_owned()));
    pair_items.push(Nested::Text(name.to_owned()));
    proof {
        assert(pair_items@[0]@ == NestedView::Text(ty@));
        assert(pair_items@[1]@ == NestedView::Text(name@));
    }
    let pair = Nested::List(pair_items);
    proof {
        assert(pair@->List_0 =~= seq![NestedView::Text(ty@), NestedView::Text(name@)]);
    }
    if t2 < len && input.get_char(t2) == ')' {
        let mut ps: Vec<Nested> = Vec::new();
        ps.push(pair);
        Some((t2 + 1, ps))
    } else if t2 < len && input.get_char(t2) == ',' && i < t2 + 1 {
        match args_from_exec(input, t2 + 1) {
            None => None,
            Some((r, mut tail)) => {
                let mut ps: Vec<Nested> = Vec::new();
                ps.push(pair);
                ps.append(&mut tail);
                Some((r, ps))
            },
        }
    } else {
        None
    }
}

/// Parse the parameterized-body shape, e.g. `(int size, int size2)`.
pub fn parse_typedef_args<'a>(input: &'a str) -> (r: Option<(&'a str, Nested)>)
    ensures
        match r {
            Some((rest, v)) => spec_parse_typedef_args(input@) == Some((rest@, v@)),
            None => spec_parse_typedef_args(input@) is None,
        },
{
    let ghost s = input@;
    let len = input.unicode_len();
    let a = skip_spaces(input, 0);
    if a < len && input.get_char(a) == '(' {
        match args_from_exec(input, a + 1) {
            None => None,
            Some((r, ps)) => {
                let ghost sps = args_from(s, a + 1 as int)->Some_0.1;
                let rest = input.substring_char(r, len);
                let v = Nested::List(ps);
                proof {
                    assert(v@->List_0 =~= sps);
                }
                Some((rest, v))
            },
        }
    } else {
        None
    }
}

/// The `typedef` keyword text.
pub open spec fn typedef_kw() -> Seq<char> {
    seq!['t', 'y', 'p', 'e', 'd', 'e', 'f']
}

/// The `struct` keyword text.
pub open spec fn struct_kw() -> Seq<char> {
    seq!['s', 't', 'r', 'u', 'c', 't']
}

/// The body of a typedef: the four shapes, tried in order — aliased, named,
/// anonymous, parameterized; the first success wins.
pub open spec fn spec_typedef_body(t: Seq<char>) -> Option<(Seq<char>, NestedView)> {
    match spec_typedef_with_alias_name(t) {
        Some(r) => Some(r),
        None => match spec_parse_typedef_name(t) {
            Some(r) => Some(r),
            None => match spec_parse_typedef_up_to_bracket(t) {
                Some(r) => Some(r),
                None => spec_parse_typedef_args(t),
            },
        },
    }
}

/// A typedef line: optional whitespace, `typedef`, whitespace, `struct`,
/// whitespace, then one of the four body shapes.  Yields
/// `["typedef", "struct", body]` and the remainder, its leading whitespace
/// trimmed.
pub open spec fn spec_typedef_line(s: Seq<char>) -> Option<(Seq<char>, NestedView)> {
    let a = skip_while(s, 0, space_pred());
    if has_at(s, a, typedef_kw()) {
        let w1 = skip_while(s, a + 7, space_pred());
        if w1 > a + 7 && has_at(s, w1, struct_kw()) {
            let w2 = skip_while(s, w1 + 6, space_pred());
            if w2 > w1 + 6 {
                match spec_typedef_body(s.subrange(w2, s.len() as int)) {
                    None => None,
                    Some((r, body)) => Some(
                        (
                            trim_start_spec(r),
                            NestedView::List(
                                seq![
                                    NestedView::Text(typedef_kw()),
                                    NestedView::Text(struct_kw()),
                                    body,
                                ],
                            ),
                        ),
                    ),
                }
            } else {
                None
            }
        } else {
            None
        }
    } else {
        None
    }
}

/// The remainder of each body shape stays within the shape's own input.
proof fn lemma_typedef_body_len(t: Seq<char>)
    ensures
        spec_typedef_body(t) matches Some((r, _)) ==> r.len() <= t.len(),
{
    crate::util::lemma_skip_while(t, 0, alnum_pred());
    let p = skip_while(t, 0, alnum_pred());
    crate::util::lemma_skip_while(t, p, space_pred());
    let q = skip_while(t, p, space_pred());
    if spec_typedef_with_alias_name(t) is Some {
        crate::shared::take_until_unbalanced::lemma_take_until_unbalanced_shrinks(
            '{',
            '}',
            t.subrange(q, t.len() as int),
        );
        let r1 = spec_take_until_unbalanced('{', '}', t.subrange(q, t.len() as int))->Ok_0.0;
        crate::util::lemma_skip_while(r1, 0, alnum_pred());
        let p2 = skip_while(r1, 0, alnum_pred());
        crate::util::lemma_skip_while(r1, p2, space_pred());
        let q2 = skip_while(r1, p2, space_pred());
        crate::shared::take_until_unbalanced::lemma_take_until_unbalanced_shrinks(
            '<',
            '>',
            r1.subrange(q2, r1.len() as int),
        );
    } else if spec_parse_typedef_name(t) is Some {
        crate::util::lemma_skip_while(t, 0, space_pred());
        let a = skip_while(t, 0, space_pred());
        crate::util::lemma_skip_while(t, a, word_pred());
        let b = skip_while(t, a, word_pred());
        crate::util::lemma_skip_while(t, b, space_pred());
    } else if spec_parse_typedef_up_to_bracket(t) is Some {
        crate::util::lemma_skip_while(t, 0, space_pred());
    } else if spec_parse_typedef_args(t) is Some {
        crate::util::lemma_skip_while(t, 0, space_pred());
        let a = skip_while(t, 0, space_pred());
        lemma_args_from_bounds(t, a + 1);
    }
}

/// The pair collector never steps outside its input.
proof fn lemma_args_from_bounds(s: Seq<char>, i: int)
    requires
        0 <= i <= s.len(),
    ensures
        args_from(s, i) matches Some((r, _)) ==> i <= r <= s.len(),
    decreases s.len() - i,
{
    crate::util::lemma_skip_while(s, i, space_pred());
    let p1 = skip_while(s, i, space_pred());
    crate::util::lemma_skip_while(s, p1, alnum_pred());
    let t1 = skip_while(s, p1, alnum_pred());
    if t1 != p1 {
        crate::util::lemma_skip_while(s, t1, space_pred());
        let p2 = skip_while(s, t1, space_pred());
        crate::util::lemma_skip_while(s, p2, alnum_pred());
        let t2 = skip_while(s, p2, alnum_pred());
        if t2 != p2 && t2 < s.len() && s[t2] == ',' && i < t2 + 1 {
            lemma_args_from_bounds(s, t2 + 1);
        }
    }
}

/// A typedef line always consumes at least its two keywords.
pub proof fn lemma_typedef_line_shrinks(s: Seq<char>)
    ensures
        spec_typedef_line(s) matches Some((r, _)) ==> r.len() < s.len(),
{
    if spec_typedef_line(s) is Some {
        crate::util::lemma_skip_while(s, 0, space_pred());
        let a = skip_while(s, 0, space_pred());
        crate::util::lemma_skip_while(s, a + 7, space_pred());
        let w1 = skip_while(s, a + 7, space_pred());
        crate::util::lemma_skip_while(s, w1 + 6, space_pred());
        let w2 = skip_while(s, w1 + 6, space_pred());
        let t = s.subrange(w2, s.len() as int);
        lemma_typedef_body_len(t);
        let r = spec_typedef_body(t)->Some_0.0;
        crate::util::lemma_trim_lengths(r);
    }
}

/// Parse one `typedef struct ...` line into `["typedef", "struct", body]`.
pub fn typedef_line<'a>(input: &'a str) -> (r: Option<(&'a str, Nested)>)
    ensures
        match r {
            Some((rest, v)) => spec_typedef_line(input@) == Some((rest@, v@)),
            None => spec_typedef_line(input@) is None,
        },
{
    let ghost s = input@;
    let len = input.unicode_len();
    proof {
        reveal_strlit("typedef");
        reveal_strlit("struct");
        assert("typedef"@ =~= typedef_kw());
        assert("struct"@ =~= struct_kw());
    }
    let a = skip_spaces(input, 0);
    if !crate::util::match_at(input, a, "typedef") {
        return None;
    }
    let w1 = skip_spaces(input, a + 7);
    if !(w1 > a + 7 && crate::util::match_at(input, w1, "struct")) {
        return None;
    }
    let w2 = skip_spaces(input, w1 + 6);
    if !(w2 > w1 + 6) {
        return None;
    }
    let t = input.substring_char(w2, len);
    let body = match parse_typedef_with_alias_name(t) {
        Some(r) => Some(r),
        None => match parse_typedef_name(t) {
            Some(r) => Some(r),
            None => match parse_typedef_up_to_bracket(t) {
                Some(r) => Some(r),
                None => parse_typedef_args(t),
            },
        },
    };
    match body {
        None => None,
        Some((r, b)) => {
            let ghost sbody = spec_typedef_body(t@)->Some_0.1;
            let rest = trim_start_str(r);
            let mut items: Vec<Nested> = Vec::new();
            items.push(Nested::Text("typedef".to_owned()));
            items.push(Nested::Text("struct".to_owned()));
            items.push(b);
            proof {
                assert(items@[0]@ == NestedView::Text(typedef_kw()));
                assert(items@[1]@ == NestedView::Text(struct_kw()));
                assert(items@[2]@ == sbody);
            }
            let v = Nested::List(items);
            proof {
                assert(v@->List_0 =~= spec_typedef_line(s)->Some_0.1->List_0);
            }
            Some((rest, v))
        },
    }
}

} // verus!
