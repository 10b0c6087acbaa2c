//! The structural value model: every parser produces a `Nested` tree, either
//! a single piece of text or an ordered list of subtrees.  Equality is
//! structural and the display form joins leaf texts with single spaces (a
//! lossy debugging aid, not a round-trip format).

use vstd::prelude::*;

verus! {

broadcast use vstd::std_specs::vec::axiom_vec_index_decreases;

/// A leaf/list tree of text fragments.
#[derive(Debug)]
pub enum Nested {
    Text(String),
    List(Vec<Nested>),
}

/// The mathematical shape of a `Nested` tree: the same structure over
/// `Seq<char>` leaves.
pub enum NestedView {
    Text(Seq<char>),
    List(Seq<NestedView>),
}

impl Nested {
    pub open spec fn view(self) -> NestedView
        decreases self,
    {
        match self {
            Nested::Text(s) => NestedView::Text(s@),
            Nested::List(v) => NestedView::List(
                Seq::new(
                    v.len() as nat,
                    |i: int|
                        if 0 <= i < v.len() {
                            v[i].view()
                        } else {
                            NestedView::Text(Seq::empty())
                        },
                ),
            ),
        }
    }
}

impl View for Nested {
    type V = NestedView;

    open spec fn view(&self) -> NestedView {
        Nested::view(*self)
    }
}

impl vstd::std_specs::cmp::PartialEqSpecImpl for Nested {
    open spec fn obeys_eq_spec() -> bool {
        true
    }

    open spec fn eq_spec(&self, other: &Nested) -> bool {
        self@ == other@
    }
}

impl PartialEq for Nested {
    fn eq(&self, other: &Nested) -> (r: bool)
        decreases *self,
    {
        match (self, other) {
            (Nested::Text(a), Nested::Text(b)) => {
                let r = *a == *b;
                proof {
                    assert(self@ == NestedView::Text(a@));
                    assert(other@ == NestedView::Text(b@));
                }
                r
            },
            (Nested::List(a), Nested::List(b)) => {
                if a.len() != b.len() {
                    proof {
                        assert(self@ != other@) by {
                            if self@ == other@ {
                                assert(self@->List_0.len() == a@.len());
                            }
                        }
                    }
                    return false;
                }
                let n = a.len();
                let mut i: usize = 0;
                while i < n
                    invariant
                        0 <= i <= n,
                        n == a@.len(),
                        n == b@.len(),
                        self == Nested::List(*a),
                        other == Nested::List(*b),
                        forall|j: int| 0 <= j < i ==> a@[j]@ == b@[j]@,
                    decreases n - i,
                {
                    proof {
                        assert(decreases_to!(*self => a[i as int]));
                    }
                    if !(a[i] == b[i]) {
                        proof {
                            assert(self@ != other@) by {
                                if self@ == other@ {
                                    assert(self@->List_0[i as int] == other@->List_0[i as int]);
                                }
                            }
                        }
                        return false;
                    }
                    i = i + 1;
                }
                proof {
                    assert(self@->List_0 =~= other@->List_0);
                }
                true
            },
            (Nested::Text(a), Nested::List(b)) => {
                proof {
                    assert(self@ == NestedView::Text(a@));
                    assert(other@ is List);
                }
                false
            },
            (Nested::List(a), Nested::Text(b)) => {
                proof {
                    assert(self@ is List);
                    assert(other@ == NestedView::Text(b@));
                }
                false
            },
        }
    }
}

/// The display form of a tree: a leaf is its own text; a list is the display
/// forms of its elements joined with single spaces.
pub open spec fn text_of(v: NestedView) -> Seq<char>
    decreases v, 0int,
{
    match v {
        NestedView::Text(s) => s,
        NestedView::List(l) => join_texts(l, 0),
    }
}

pub open spec fn join_texts(l: Seq<NestedView>, i: int) -> Seq<char>
    recommends
        0 <= i <= l.len(),
    decreases l, l.len() - i,
{
    if i < 0 || i >= l.len() {
        Seq::empty()
    } else if i == l.len() - 1 {
        text_of(l[i])
    } else {
        text_of(l[i]) + seq![' '] + join_texts(l, i + 1)
    }
}

impl Nested {
    /// Render the tree in its (lossy) display form.
    pub fn to_text(&self) -> (r: String)
        ensures
            r@ == text_of(self@),
        decreases *self,
    {
        match self {
            Nested::Text(s) => s.clone(),
            Nested::List(l) => {
                let mut out = String::new();
                let n = l.len();
                if n == 0 {
                    proof {
                        assert(text_of(self@) =~= Seq::<char>::empty());
                    }
                    return out;
                }
                let mut i: usize = 0;
                while i < n - 1
                    invariant
                        0 <= i <= n - 1,
                        n == l@.len(),
                        n >= 1,
                        *self == Nested::List(*l),
                        join_texts(self@->List_0, 0) == out@ + join_texts(self@->List_0, i as int),
                    decreases n - i,
                {
                    proof {
                        assert(decreases_to!(*self => l[i as int]));
                    }
                    let piece = l[i].to_text();
                    out.append(piece.as_str());
                    out.append(" ");
                    proof {
                        reveal_strlit(" ");
                        assert(" "@ =~= seq![' ']);
                        assert(self@->List_0[i as int] == l[i as int]@);
                        assert(out@ + join_texts(self@->List_0, i + 1) == join_texts(
                            self@->List_0,
                            0,
                        ));
                    }
                    i = i + 1;
                }
                proof {
                    assert(decreases_to!(*self => l[i as int]));
                }
                let piece = l[i].to_text();
                out.append(piece.as_str());
                proof {
                    assert(self@->List_0[i as int] == l[i as int]@);
                }
                out
            },
        }
    }
}

} // verus!
