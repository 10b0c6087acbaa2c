//! A run of member keywords followed by the member's name and the statement
//! terminator, e.g. `unsigned int myInt;`.

use vstd::prelude::*;

use super::typedef_member::{spec_typedef_member, typedef_member};
use crate::types::nested::{Nested, NestedView};
use crate::util::{lemma_skip_while, skip_while, trim_end_spec, trim_end_str};

verus! {

/// The longest run of member keywords at the start of `s`.  A step that
/// fails to shrink the remainder ends the run, which also bounds the
/// recursion.
pub open spec fn members_run(s: Seq<char>) -> (Seq<char>, Seq<NestedView>)
    decreases s.len(),
{
    match spec_typedef_member(s) {
        None => (s, Seq::empty()),
        Some((r, m)) => if r.len() < s.len() {
            let (rf, ms) = members_run(r);
            (rf, seq![m] + ms)
        } else {
            (r, seq![m])
        },
    }
}

/// Any character before the statement's end: neither `;` nor `{`.
pub open spec fn pre_terminator_pred() -> spec_fn(char) -> bool {
    |c: char| c != ';' && c != '{'
}

/// Zero or more member keywords, then the member's name up to a `;`, with no
/// `{` before it.  Yields `[name, [keywords...]]` and the remainder after the
/// `;`.
pub open spec fn spec_typedef_members(s: Seq<char>) -> Option<(Seq<char>, NestedView)> {
    let (r, ms) = members_run(s);
    let g = skip_while(r, 0, pre_terminator_pred());
    if 0 <= g && g < r.len() && r[g] == ';' {
        let name = trim_end_spec(r.subrange(0, g));
        Some(
            (
                r.subrange(g + 1, r.len() as int),
                NestedView::List(seq![NestedView::Text(name), NestedView::List(ms)]),
            ),
        )
    } else {
        None
    }
}

fn members_run_exec<'a>(input: &'a str) -> (r: (&'a str, Vec<Nested>))
    ensures
        r.0@ == members_run(input@).0,
        r.1@.len() == members_run(input@).1.len(),
        forall|i: int|
            0 <= i < r.1@.len() ==> (#[trigger] r.1@[i])@ == members_run(input@).1[i],
    decreases input@.len(),
{
    match typedef_member(input) {
        None => (input, Vec::new()),
        Some((rest, m)) => {
            if rest.unicode_len() < input.unicode_len() {
                let (rf, mut tail) = members_run_exec(rest);
                let mut out: Vec<Nested> = Vec::new();
                out.push(m);
                out.append(&mut tail);
                (rf, out)
            } else {
                let mut out: Vec<Nested> = Vec::new();
                out.push(m);
                (rest, out)
            }
        },
    }
}

fn skip_pre_terminator(s: &str, from: usize) -> (r: usize)
    requires
        from <= s@.len(),
    ensures
        r == skip_while(s@, from as int, pre_terminator_pred()),
        from <= r <= s@.len(),
{
    proof {
        lemma_skip_while(s@, from as int, pre_terminator_pred());
    }
    let len = s.unicode_len();
    let mut i = from;
    while i < len && s.get_char(i) != ';' && s.get_char(i) != '{'
        invariant
            from <= i <= len,
            len == s@.len(),
            skip_while(s@, from as int, pre_terminator_pred()) == skip_while(
                s@,
                i as int,
                pre_terminator_pred(),
            ),
        decreases len - i,
    {
        i = i + 1;
    }
    i
}

/// Parse a member statement, e.g. `unsigned int myInt;` into
/// `["myInt", ["unsigned", "int"]]`.
pub fn typedef_members<'a>(input: &'a str) -> (r: Option<(&'a str, Nested)>)
    ensures
        match r {
            Some((rest, v)) => spec_typedef_members(input@) == Some((rest@, v@)),
            None => spec_typedef_members(input@) is None,
        },
{
    let ghost s = input@;
    let (run_rest, members) = members_run_exec(input);
    let ghost ms = members_run(s).1;
    let len = run_rest.unicode_len();
    let g = skip_pre_terminator(run_rest, 0);
    if g < len && run_rest.get_char(g) == ';' {
        let name = trim_end_str(run_rest.substring_char(0, g));
        let rest = run_rest.substring_char(g + 1, len);
        let inner = Nested::List(members);
        proof {
            assert(inner@ == NestedView::List(ms)) by {
                assert(inner@->List_0 =~= ms);
            }
        }
        let mut items: Vec<Nested> = Vec::new();
        items.push(Nested::Text(name.to_owned()));
        items.push(inner);
        proof {
            assert(items@[0]@ == NestedView::Text(name@));
            assert(items@[1]@ == NestedView::List(ms));
        }
        let v = Nested::List(items);
        proof {
            assert(v@->List_0 =~= spec_typedef_members(s)->Some_0.1->List_0);
        }
        Some((rest, v))
    } else {
        None
    }
}

} // verus!
