//! What a condition tree means for one point: the per-element bits of each
//! node, and the reductions that combine sibling results.

use crate::bits::{and_bits, not_bits, or_bits};
use crate::types::{Condition, Filter};
use vstd::prelude::*;

verus! {

/// Match-all: the left-to-right AND of the vectors; empty for no vectors.
pub open spec fn all_of(vs: Seq<Seq<bool>>) -> Seq<bool>
    decreases vs.len(),
{
    if vs.len() == 0 {
        Seq::empty()
    } else if vs.len() == 1 {
        vs[0]
    } else {
        and_bits(all_of(vs.drop_last()), vs.last())
    }
}

/// Match-any: the left-to-right OR of the vectors; absent for no vectors.
pub open spec fn any_of(vs: Seq<Seq<bool>>) -> Option<Seq<bool>>
    decreases vs.len(),
{
    if vs.len() == 0 {
        None
    } else if vs.len() == 1 {
        Some(vs[0])
    } else {
        Some(or_bits(any_of(vs.drop_last()).unwrap(), vs.last()))
    }
}

/// Match-none: the complement of match-any; empty for no vectors.
pub open spec fn none_of(vs: Seq<Seq<bool>>) -> Seq<bool> {
    match any_of(vs) {
        Some(m) => not_bits(m),
        None => Seq::empty(),
    }
}

/// The vector of a present group, as a list of zero or one vectors.
pub open spec fn present(g: Option<Seq<bool>>) -> Seq<Seq<bool>> {
    match g {
        Some(v) => seq![v],
        None => Seq::empty(),
    }
}

/// One nesting level: the AND of the present groups, in the order must,
/// must_not, should; empty when none is present.
pub open spec fn level_bits(
    must: Option<Seq<bool>>,
    must_not: Option<Seq<bool>>,
    should: Option<Seq<bool>>,
) -> Seq<bool> {
    all_of(present(must) + present(must_not) + present(should))
}

/// The per-element bits of `c` for a point whose checks answered `ans`.
pub open spec fn condition_bits(c: Condition, ans: Seq<Seq<bool>>) -> Seq<bool>
    decreases c,
{
    match c {
        Condition::Field(f) => ans[f.check_id as int],
        Condition::IsEmpty(f) => ans[f.check_id as int],
        Condition::IsNull(f) => ans[f.check_id as int],
        Condition::HasId(_) => Seq::empty(),
        Condition::Nested(n) => level_bits(
            match n.filter.must {
                Some(v) => Some(all_of(list_bits(v@, ans))),
                None => None,
            },
            match n.filter.must_not {
                Some(v) => Some(none_of(list_bits(v@, ans))),
                None => None,
            },
            match n.filter.should {
                Some(v) => any_of(list_bits(v@, ans)),
                None => None,
            },
        ),
        Condition::Filter(_) => Seq::empty(),
    }
}

/// The per-element bits of each condition of a list, in order.
pub open spec fn list_bits(cs: Seq<Condition>, ans: Seq<Seq<bool>>) -> Seq<Seq<bool>>
    decreases cs,
{
    if cs.len() == 0 {
        Seq::empty()
    } else {
        list_bits(cs.drop_last(), ans).push(condition_bits(cs.last(), ans))
    }
}

/// Whether `c` can be evaluated on the answers `ans`: every leaf check has an
/// answer, no raw filter marker occurs in it, and no must-not list is empty
/// (match-none needs at least one operand).
pub open spec fn answerable(c: Condition, ans: Seq<Seq<bool>>) -> bool
    decreases c,
{
    match c {
        Condition::Field(f) => f.check_id < ans.len(),
        Condition::IsEmpty(f) => f.check_id < ans.len(),
        Condition::IsNull(f) => f.check_id < ans.len(),
        Condition::HasId(_) => true,
        Condition::Nested(n) => {
            &&& (match n.filter.must {
                Some(v) => list_answerable(v@, ans),
                None => true,
            })
            &&& (match n.filter.must_not {
                Some(v) => v@.len() > 0 && list_answerable(v@, ans),
                None => true,
            })
            &&& (match n.filter.should {
                Some(v) => list_answerable(v@, ans),
                None => true,
            })
        },
        Condition::Filter(_) => false,
    }
}

/// Whether each condition of a list can be evaluated on `ans`.
pub open spec fn list_answerable(cs: Seq<Condition>, ans: Seq<Seq<bool>>) -> bool
    decreases cs,
{
    if cs.len() == 0 {
        true
    } else {
        list_answerable(cs.drop_last(), ans) && answerable(cs.last(), ans)
    }
}

/// Nesting depth of a condition.
pub open spec fn height(c: Condition) -> nat
    decreases c,
{
    match c {
        Condition::Nested(n) => 1 + filter_height(n.filter),
        _ => 0,
    }
}

/// Largest depth among the clause lists of a filter.
pub open spec fn filter_height(f: Filter) -> nat
    decreases f,
{
    let a = match f.must {
        Some(v) => list_height(v@),
        None => 0,
    };
    let b = match f.must_not {
        Some(v) => list_height(v@),
        None => 0,
    };
    let c = match f.should {
        Some(v) => list_height(v@),
        None => 0,
    };
    if a >= b && a >= c {
        a
    } else if b >= c {
        b
    } else {
        c
    }
}

/// Largest depth among the conditions of a list.
pub open spec fn list_height(cs: Seq<Condition>) -> nat
    decreases cs,
{
    if cs.len() == 0 {
        0
    } else {
        let h = list_height(cs.drop_last());
        let l = height(cs.last());
        if h >= l {
            h
        } else {
            l
        }
    }
}

/// A list is answerable exactly when each of its conditions is.
pub proof fn lemma_list_answerable(cs: Seq<Condition>, ans: Seq<Seq<bool>>)
    ensures
        list_answerable(cs, ans) <==> forall|i: int|
            0 <= i < cs.len() ==> answerable(#[trigger] cs[i], ans),
    decreases cs.len(),
{
    if cs.len() > 0 {
        lemma_list_answerable(cs.drop_last(), ans);
        assert forall|i: int| 0 <= i < cs.len() - 1 implies cs.drop_last()[i] == cs[i] by {}
    }
}

/// No condition of a list is deeper than the list.
pub proof fn lemma_list_height(cs: Seq<Condition>)
    ensures
        forall|i: int| 0 <= i < cs.len() ==> height(#[trigger] cs[i]) <= list_height(cs),
    decreases cs.len(),
{
    if cs.len() > 0 {
        lemma_list_height(cs.drop_last());
        assert forall|i: int| 0 <= i < cs.len() - 1 implies cs.drop_last()[i] == cs[i] by {}
    }
}

/// The bits of a list are the bits of its conditions, one by one.
pub proof fn lemma_list_bits(cs: Seq<Condition>, ans: Seq<Seq<bool>>)
    ensures
        list_bits(cs, ans) == cs.map_values(|c: Condition| condition_bits(c, ans)),
    decreases cs.len(),
{
    if cs.len() > 0 {
        lemma_list_bits(cs.drop_last(), ans);
    }
    assert(list_bits(cs, ans) =~= cs.map_values(|c: Condition| condition_bits(c, ans)));
}

} // verus!
