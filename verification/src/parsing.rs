//! The line classifier and the top-level driver.

pub mod any_line;
pub mod comment;
pub mod comment_line;
pub mod conditional_line;
pub mod declaration_line;
pub mod non_comment_line;
pub mod parse_nested_parens;
pub mod typedef_line;

use vstd::prelude::*;

use crate::types::nested::{Nested, NestedView};
use any_line::{any_line, spec_any_line};

verus! {

/// A singleton sequence for a present value, empty for an absent one.
pub open spec fn opt_seq<A>(o: Option<A>) -> Seq<A> {
    match o {
        Some(x) => seq![x],
        None => Seq::empty(),
    }
}

/// What the driver produces on `s`: the remaining input once no further
/// progress is possible, the collected comment blocks and the collected
/// typedef trees, in input order.  A classification failure or a step that
/// consumes nothing stops the driver — the recursion being well founded on
/// the input length is the termination argument itself.
pub open spec fn spec_parse_bt(s: Seq<char>) -> (Seq<char>, Seq<Seq<char>>, Seq<NestedView>)
    decreases s.len(),
{
    match spec_any_line(s) {
        Err(_) => (s, Seq::empty(), Seq::empty()),
        Ok((r, (c, t))) => if r.len() < s.len() {
            let (rf, cs, ts) = spec_parse_bt(r);
            (rf, opt_seq(c) + cs, opt_seq(t) + ts)
        } else {
            (r, opt_seq(c), opt_seq(t))
        },
    }
}

/// Law (driver termination): on input where the classifier finds no matching
/// alternative, the driver stops where it stands — the whole input remains
/// and nothing is collected.
pub proof fn lemma_driver_stops_without_progress(s: Seq<char>)
    requires
        spec_any_line(s) is Err,
    ensures
        spec_parse_bt(s) == (s, Seq::<Seq<char>>::empty(), Seq::<NestedView>::empty()),
{
}

/// Law (full consumption): every successful classification shrinks the
/// input and, with the opaque-line alternative, classification fails only on
/// empty input — so the driver always consumes the whole input.
pub proof fn lemma_driver_consumes_everything(s: Seq<char>)
    ensures
        spec_parse_bt(s).0.len() == 0,
    decreases s.len(),
{
    any_line::lemma_classifier_progress(s);
    match spec_any_line(s) {
        Err(_) => {},
        Ok((r, _)) => {
            lemma_driver_consumes_everything(r);
        },
    }
}

/// The views of a vector of comment blocks.
pub open spec fn blocks_view(v: Seq<String>) -> Seq<Seq<char>> {
    Seq::new(
        v.len(),
        |i: int|
            if 0 <= i < v.len() {
                v[i]@
            } else {
                Seq::empty()
            },
    )
}

/// The views of a vector of trees.
pub open spec fn trees_view(v: Seq<Nested>) -> Seq<NestedView> {
    Seq::new(
        v.len(),
        |i: int|
            if 0 <= i < v.len() {
                v[i]@
            } else {
                NestedView::Text(Seq::empty())
            },
    )
}

/// Drive the classifier over the whole input, accumulating comment blocks
/// and typedefs; declarations, conditionals and opaque lines are consumed
/// and discarded.  Parsing stops when classification fails or a step makes
/// no progress; the unconsumed remainder is returned rather than treated as
/// an error.
pub fn parse_bt<'a>(input: &'a str) -> (r: (&'a str, (Vec<String>, Vec<Nested>)))
    ensures
        r.0@ == spec_parse_bt(input@).0,
        blocks_view(r.1.0@) == spec_parse_bt(input@).1,
        trees_view(r.1.1@) == spec_parse_bt(input@).2,
{
    let ghost s0 = input@;
    let mut comments: Vec<String> = Vec::new();
    let mut typedefs: Vec<Nested> = Vec::new();
    let mut cur: &'a str = input;
    loop
        invariant_except_break
            spec_parse_bt(s0).0 == spec_parse_bt(cur@).0,
            spec_parse_bt(s0).1 =~= blocks_view(comments@) + spec_parse_bt(cur@).1,
            spec_parse_bt(s0).2 =~= trees_view(typedefs@) + spec_parse_bt(cur@).2,
        ensures
            cur@ == spec_parse_bt(s0).0,
            blocks_view(comments@) =~= spec_parse_bt(s0).1,
            trees_view(typedefs@) =~= spec_parse_bt(s0).2,
        decreases cur@.len(),
    {
        let last_len = cur.unicode_len();
        match any_line(cur) {
            Err(_) => {
                break ;
            },
            Ok((rest, (c, t))) => {
                let ghost pre_comments = comments@;
                let ghost pre_typedefs = typedefs@;
                let ghost sc = spec_any_line(cur@)->Ok_0.1.0;
                let ghost st = spec_any_line(cur@)->Ok_0.1.1;
                match c {
                    Some(block) => {
                        comments.push(block);
                    },
                    None => {},
                }
                match t {
                    Some(tree) => {
                        typedefs.push(tree);
                    },
                    None => {},
                }
                proof {
                    assert(blocks_view(comments@) =~= blocks_view(pre_comments) + opt_seq(sc));
                    assert(trees_view(typedefs@) =~= trees_view(pre_typedefs) + opt_seq(st));
                }
                if rest.unicode_len() < last_len {
                    cur = rest;
                } else {
                    // The explicit no-progress guard: a step that consumed
                    // nothing would loop forever, so stop here.
                    cur = rest;
                    proof {
                        assert(blocks_view(comments@) =~= spec_parse_bt(s0).1);
                        assert(trees_view(typedefs@) =~= spec_parse_bt(s0).2);
                    }
                    break ;
                }
            },
        }
    }
    (cur, (comments, typedefs))
}

} // verus!
