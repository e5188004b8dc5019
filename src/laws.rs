//! Properties of the reductions, of nested groups and of the top-level merge.

use crate::bits::{and_bits, count_true, lemma_count_true_zero, not_bits, or_bits};
use crate::model::{
    all_of, answerable, any_of, condition_bits, lemma_list_answerable, lemma_list_bits,
    list_bits, none_of, present,
};
use crate::nested_filter::merge_verdict;
use crate::types::{Condition, HasIdCondition, NestedCondition};
use vstd::prelude::*;

verus! {

/// Whether every vector of `vs` has the length `n`.
pub open spec fn same_len(vs: Seq<Seq<bool>>, n: nat) -> bool {
    forall|k: int| 0 <= k < vs.len() ==> (#[trigger] vs[k]).len() == n
}

/// On vectors of one length, match-all is set at an element exactly when every
/// vector is.
pub proof fn lemma_all_of_pointwise(vs: Seq<Seq<bool>>, n: nat)
    requires
        vs.len() > 0,
        same_len(vs, n),
    ensures
        all_of(vs).len() == n,
        forall|i: int|
            0 <= i < n ==> (#[trigger] all_of(vs)[i] <==> forall|k: int|
                0 <= k < vs.len() ==> #[trigger] vs[k][i]),
    decreases vs.len(),
{
    if vs.len() > 1 {
        let dl = vs.drop_last();
        assert forall|k: int| 0 <= k < dl.len() implies (#[trigger] dl[k]).len() == n by {
            assert(dl[k] == vs[k]);
        }
        lemma_all_of_pointwise(dl, n);
        assert forall|i: int| 0 <= i < n implies (#[trigger] all_of(vs)[i] <==> forall|k: int|
            0 <= k < vs.len() ==> #[trigger] vs[k][i]) by {
            if all_of(vs)[i] {
                assert forall|k: int| 0 <= k < vs.len() implies #[trigger] vs[k][i] by {
                    if k < vs.len() - 1 {
                        assert(dl[k] == vs[k]);
                    }
                }
            }
            if forall|k: int| 0 <= k < vs.len() ==> #[trigger] vs[k][i] {
                assert forall|k: int| 0 <= k < dl.len() implies #[trigger] dl[k][i] by {
                    assert(dl[k] == vs[k]);
                    assert(vs[k][i]);
                }
                assert(vs[vs.len() - 1][i]);
            }
        }
    }
}

/// On vectors of one length, match-any is present and set at an element
/// exactly when some vector is.
pub proof fn lemma_any_of_pointwise(vs: Seq<Seq<bool>>, n: nat)
    requires
        vs.len() > 0,
        same_len(vs, n),
    ensures
        any_of(vs) is Some,
        any_of(vs).unwrap().len() == n,
        forall|i: int|
            0 <= i < n ==> (#[trigger] any_of(vs).unwrap()[i] <==> exists|k: int|
                0 <= k < vs.len() && #[trigger] vs[k][i]),
    decreases vs.len(),
{
    if vs.len() > 1 {
        let dl = vs.drop_last();
        assert forall|k: int| 0 <= k < dl.len() implies (#[trigger] dl[k]).len() == n by {
            assert(dl[k] == vs[k]);
        }
        lemma_any_of_pointwise(dl, n);
        assert forall|i: int| 0 <= i < n implies (#[trigger] any_of(vs).unwrap()[i] <==> exists|
            k: int,
        | 0 <= k < vs.len() && #[trigger] vs[k][i]) by {
            if any_of(dl).unwrap()[i] {
                let k = choose|k: int| 0 <= k < dl.len() && #[trigger] dl[k][i];
                assert(dl[k] == vs[k]);
                assert(vs[k][i]);
            }
            if exists|k: int| 0 <= k < vs.len() && #[trigger] vs[k][i] {
                let k = choose|k: int| 0 <= k < vs.len() && #[trigger] vs[k][i];
                if k < vs.len() - 1 {
                    assert(dl[k] == vs[k]);
                    assert(dl[k][i]);
                }
            }
        }
    } else {
        assert forall|i: int| 0 <= i < n implies (#[trigger] any_of(vs).unwrap()[i] <==> exists|
            k: int,
        | 0 <= k < vs.len() && #[trigger] vs[k][i]) by {
            if vs[0][i] {
                assert(vs[0][i]);
            }
        }
    }
}

/// Reordering sibling results of one length changes neither match-all nor
/// match-any.
pub proof fn lemma_reorder_invariant(vs: Seq<Seq<bool>>, ws: Seq<Seq<bool>>, n: nat)
    requires
        vs.to_multiset() == ws.to_multiset(),
        same_len(vs, n),
    ensures
        all_of(vs) == all_of(ws),
        any_of(vs) == any_of(ws),
{
    vs.to_multiset_ensures();
    ws.to_multiset_ensures();
    assert(vs.len() == ws.len());
    assert forall|k: int| 0 <= k < ws.len() implies (#[trigger] ws[k]).len() == n by {
        assert(ws.contains(ws[k]));
        assert(ws.to_multiset().count(ws[k]) > 0);
        assert(vs.contains(ws[k]));
    }
    if vs.len() > 0 {
        lemma_all_of_pointwise(vs, n);
        lemma_all_of_pointwise(ws, n);
        lemma_any_of_pointwise(vs, n);
        lemma_any_of_pointwise(ws, n);
        assert forall|i: int| 0 <= i < n implies all_of(vs)[i] == all_of(ws)[i] by {
            if all_of(vs)[i] {
                assert forall|k: int| 0 <= k < ws.len() implies #[trigger] ws[k][i] by {
                    assert(ws.contains(ws[k]));
                    assert(ws.to_multiset().count(ws[k]) > 0);
                    assert(vs.contains(ws[k]));
                    let j = choose|j: int| 0 <= j < vs.len() && vs[j] == ws[k];
                    assert(vs[j][i]);
                }
            }
            if all_of(ws)[i] {
                assert forall|k: int| 0 <= k < vs.len() implies #[trigger] vs[k][i] by {
                    assert(vs.contains(vs[k]));
                    assert(vs.to_multiset().count(vs[k]) > 0);
                    assert(ws.contains(vs[k]));
                    let j = choose|j: int| 0 <= j < ws.len() && ws[j] == vs[k];
                    assert(ws[j][i]);
                }
            }
        }
        assert(all_of(vs) =~= all_of(ws));
        assert forall|i: int| 0 <= i < n implies any_of(vs).unwrap()[i] == any_of(ws).unwrap()[
            i
        ] by {
            if any_of(vs).unwrap()[i] {
                let k = choose|k: int| 0 <= k < vs.len() && #[trigger] vs[k][i];
                assert(vs.contains(vs[k]));
                assert(vs.to_multiset().count(vs[k]) > 0);
                assert(ws.contains(vs[k]));
                let j = choose|j: int| 0 <= j < ws.len() && ws[j] == vs[k];
                assert(ws[j][i]);
            }
            if any_of(ws).unwrap()[i] {
                let k = choose|k: int| 0 <= k < ws.len() && #[trigger] ws[k][i];
                assert(ws.contains(ws[k]));
                assert(ws.to_multiset().count(ws[k]) > 0);
                assert(vs.contains(ws[k]));
                let j = choose|j: int| 0 <= j < vs.len() && vs[j] == ws[k];
                assert(vs[j][i]);
            }
        }
        assert(any_of(vs).unwrap() =~= any_of(ws).unwrap());
    }
}

/// Grouping sibling results of one length does not change match-all or
/// match-any: reducing two non-empty parts and combining them gives the same.
pub proof fn lemma_regroup_invariant(vs: Seq<Seq<bool>>, ws: Seq<Seq<bool>>, n: nat)
    requires
        vs.len() > 0,
        ws.len() > 0,
        same_len(vs, n),
        same_len(ws, n),
    ensures
        all_of(vs + ws) == and_bits(all_of(vs), all_of(ws)),
        any_of(vs + ws) == Some(or_bits(any_of(vs).unwrap(), any_of(ws).unwrap())),
{
    let u = vs + ws;
    assert forall|k: int| 0 <= k < u.len() implies (#[trigger] u[k]).len() == n by {
        if k < vs.len() {
            assert(u[k] == vs[k]);
        } else {
            assert(u[k] == ws[k - vs.len()]);
        }
    }
    lemma_all_of_pointwise(vs, n);
    lemma_all_of_pointwise(ws, n);
    lemma_all_of_pointwise(u, n);
    lemma_any_of_pointwise(vs, n);
    lemma_any_of_pointwise(ws, n);
    lemma_any_of_pointwise(u, n);
    assert forall|i: int| 0 <= i < n implies all_of(u)[i] == and_bits(all_of(vs), all_of(ws))[i] by {
        if all_of(vs)[i] && all_of(ws)[i] {
            assert forall|k: int| 0 <= k < u.len() implies #[trigger] u[k][i] by {
                if k < vs.len() {
                    assert(u[k] == vs[k]);
                } else {
                    assert(u[k] == ws[k - vs.len()]);
                }
            }
        }
        if all_of(u)[i] {
            assert forall|k: int| 0 <= k < vs.len() implies #[trigger] vs[k][i] by {
                assert(u[k] == vs[k]);
            }
            assert forall|k: int| 0 <= k < ws.len() implies #[trigger] ws[k][i] by {
                assert(u[k + vs.len()] == ws[k]);
            }
        }
    }
    assert(all_of(u) =~= and_bits(all_of(vs), all_of(ws)));
    assert forall|i: int| 0 <= i < n implies any_of(u).unwrap()[i] == or_bits(
        any_of(vs).unwrap(),
        any_of(ws).unwrap(),
    )[i] by {
        if any_of(u).unwrap()[i] {
            let k = choose|k: int| 0 <= k < u.len() && #[trigger] u[k][i];
            if k < vs.len() {
                assert(u[k] == vs[k]);
            } else {
                assert(u[k] == ws[k - vs.len()]);
            }
        }
        if any_of(vs).unwrap()[i] {
            let k = choose|k: int| 0 <= k < vs.len() && #[trigger] vs[k][i];
            assert(u[k] == vs[k]);
        }
        if any_of(ws).unwrap()[i] {
            let k = choose|k: int| 0 <= k < ws.len() && #[trigger] ws[k][i];
            assert(u[k + vs.len()] == ws[k]);
        }
    }
    assert(any_of(u).unwrap() =~= or_bits(any_of(vs).unwrap(), any_of(ws).unwrap()));
}

/// Match-all of no vectors is the empty vector.
pub proof fn lemma_match_all_vacuous()
    ensures
        all_of(Seq::<Seq<bool>>::empty()) == Seq::<bool>::empty(),
{
}

/// Match-all and match-any keep the length of their first operand.
pub proof fn lemma_reduce_len(vs: Seq<Seq<bool>>)
    requires
        vs.len() > 0,
    ensures
        all_of(vs).len() == vs[0].len(),
        any_of(vs) is Some,
        any_of(vs).unwrap().len() == vs[0].len(),
        none_of(vs).len() == vs[0].len(),
    decreases vs.len(),
{
    if vs.len() > 1 {
        lemma_reduce_len(vs.drop_last());
    }
}

/// Whether every check of a point answered with an empty vector, as for a
/// point whose nested array has no element.
pub open spec fn all_empty(ans: Seq<Seq<bool>>) -> bool {
    forall|c: int| 0 <= c < ans.len() ==> (#[trigger] ans[c]).len() == 0
}

/// A present group built from a list of empty vectors is empty.
proof fn lemma_group_empty(vs: Seq<Seq<bool>>)
    requires
        same_len(vs, 0),
    ensures
        all_of(vs).len() == 0,
        none_of(vs).len() == 0,
        any_of(vs) is Some ==> any_of(vs).unwrap().len() == 0,
{
    if vs.len() > 0 {
        lemma_reduce_len(vs);
    }
}

/// On a point whose checks all answered with empty vectors, every condition
/// yields the empty vector.
pub proof fn lemma_empty_array(c: Condition, ans: Seq<Seq<bool>>)
    requires
        all_empty(ans),
        answerable(c, ans),
    ensures
        condition_bits(c, ans).len() == 0,
    decreases c,
{
    match c {
        Condition::Nested(n) => {
            let must = match n.filter.must {
                Some(v) => {
                    lemma_list_empty(v@, ans);
                    lemma_group_empty(list_bits(v@, ans));
                    Some(all_of(list_bits(v@, ans)))
                },
                None => None,
            };
            let must_not = match n.filter.must_not {
                Some(v) => {
                    lemma_list_empty(v@, ans);
                    lemma_group_empty(list_bits(v@, ans));
                    Some(none_of(list_bits(v@, ans)))
                },
                None => None,
            };
            let should = match n.filter.should {
                Some(v) => {
                    lemma_list_empty(v@, ans);
                    lemma_group_empty(list_bits(v@, ans));
                    any_of(list_bits(v@, ans))
                },
                None => None,
            };
            let groups = present(must) + present(must_not) + present(should);
            assert(same_len(groups, 0));
            lemma_group_empty(groups);
        },
        _ => {},
    }
}

/// On a point whose checks all answered with empty vectors, each condition of
/// a list yields the empty vector.
pub proof fn lemma_list_empty(cs: Seq<Condition>, ans: Seq<Seq<bool>>)
    requires
        all_empty(ans),
        crate::model::list_answerable(cs, ans),
    ensures
        list_bits(cs, ans).len() == cs.len(),
        same_len(list_bits(cs, ans), 0),
    decreases cs,
{
    if cs.len() > 0 {
        lemma_list_answerable(cs, ans);
        lemma_list_answerable(cs.drop_last(), ans);
        assert forall|i: int| 0 <= i < cs.len() - 1 implies cs.drop_last()[i] == cs[i] by {}
        lemma_list_empty(cs.drop_last(), ans);
        lemma_empty_array(cs.last(), ans);
    }
}

/// The verdict in terms of elements: without negation, some element of
/// match-all is set; with negation, no element of match-none is set.
pub proof fn lemma_merge_verdict_elements(vs: Seq<Seq<bool>>)
    ensures
        merge_verdict(vs, false) <==> exists|i: int| 0 <= i < all_of(vs).len() && all_of(vs)[i],
        merge_verdict(vs, true) <==> forall|i: int|
            0 <= i < none_of(vs).len() ==> !none_of(vs)[i],
{
    lemma_count_true_zero(all_of(vs));
    lemma_count_true_zero(none_of(vs));
}

/// Whether some vector of `vs` is set at element `i`.
pub open spec fn matched_by_some(vs: Seq<Seq<bool>>, i: int) -> bool {
    exists|k: int| 0 <= k < vs.len() && #[trigger] vs[k][i]
}

/// With sibling results of one length, the negated verdict holds exactly when
/// every element is matched by at least one of them.
pub proof fn lemma_negated_verdict_covers(vs: Seq<Seq<bool>>, n: nat)
    requires
        vs.len() > 0,
        same_len(vs, n),
    ensures
        merge_verdict(vs, true) <==> forall|i: int| 0 <= i < n ==> #[trigger] matched_by_some(vs, i),
{
    lemma_merge_verdict_elements(vs);
    lemma_any_of_pointwise(vs, n);
    let m = any_of(vs).unwrap();
    assert(none_of(vs) == not_bits(m));
    if merge_verdict(vs, true) {
        assert forall|i: int| 0 <= i < n implies #[trigger] matched_by_some(vs, i) by {
            assert(!none_of(vs)[i]);
            assert(m[i]);
        }
    }
    if forall|i: int| 0 <= i < n ==> #[trigger] matched_by_some(vs, i) {
        assert forall|i: int| 0 <= i < none_of(vs).len() implies !none_of(vs)[i] by {
            assert(matched_by_some(vs, i));
            assert(m[i]);
        }
    }
}

/// For one checker with some element set: the plain verdict holds, and the
/// negated verdict holds exactly when every element is set.
pub proof fn lemma_negation_single(v: Seq<bool>)
    requires
        count_true(v) > 0,
    ensures
        merge_verdict(seq![v], false),
        merge_verdict(seq![v], true) <==> forall|i: int| 0 <= i < v.len() ==> v[i],
{
    assert(all_of(seq![v]) == v);
    assert(none_of(seq![v]) == not_bits(v));
    lemma_count_true_zero(not_bits(v));
    if forall|i: int| 0 <= i < v.len() ==> v[i] {
        assert forall|i: int| 0 <= i < v.len() implies !not_bits(v)[i] by {}
    }
    if count_true(not_bits(v)) == 0 {
        assert forall|i: int| 0 <= i < v.len() implies v[i] by {
            assert(!not_bits(v)[i]);
        }
    }
}

/// A nested filter with must `[a]`, must-not `[b]` and no should yields, at
/// each element, `a` and not `b`.
pub proof fn lemma_must_and_must_not(
    n: NestedCondition,
    a: Condition,
    b: Condition,
    ans: Seq<Seq<bool>>,
)
    requires
        n.filter.must matches Some(v) && v@ == seq![a],
        n.filter.must_not matches Some(v) && v@ == seq![b],
        n.filter.should is None,
    ensures
        condition_bits(Condition::Nested(n), ans) == and_bits(
            condition_bits(a, ans),
            not_bits(condition_bits(b, ans)),
        ),
{
    let va = n.filter.must.unwrap()@;
    let vb = n.filter.must_not.unwrap()@;
    lemma_list_bits(va, ans);
    lemma_list_bits(vb, ans);
    let x = condition_bits(a, ans);
    let y = condition_bits(b, ans);
    assert(list_bits(va, ans) =~= seq![x]);
    assert(list_bits(vb, ans) =~= seq![y]);
    assert(all_of(seq![x]) == x);
    assert(none_of(seq![y]) == not_bits(y));
    let groups = present(Some(x)) + present(Some(not_bits(y))) + present(None);
    assert(groups =~= seq![x, not_bits(y)]);
    assert(groups.drop_last() =~= seq![x]);
}

/// Match-all has no set element when one of its operands has none.
pub proof fn lemma_all_of_blocked(vs: Seq<Seq<bool>>, k: int)
    requires
        0 <= k < vs.len(),
        forall|i: int| 0 <= i < vs[k].len() ==> !vs[k][i],
    ensures
        forall|i: int| 0 <= i < all_of(vs).len() ==> !all_of(vs)[i],
    decreases vs.len(),
{
    if vs.len() > 1 {
        let dl = vs.drop_last();
        if k < vs.len() - 1 {
            assert(dl[k] == vs[k]);
            lemma_all_of_blocked(dl, k);
        }
        assert forall|i: int| 0 <= i < all_of(vs).len() implies !all_of(vs)[i] by {
            assert(all_of(vs)[i] == (all_of(dl)[i] && i < vs.last().len() && vs.last()[i]));
        }
    }
}

/// A has-id condition under a nested path yields the empty vector, whatever
/// the ids and the point.
pub proof fn lemma_has_id_empty(h: HasIdCondition, ans: Seq<Seq<bool>>)
    ensures
        condition_bits(Condition::HasId(h), ans) == Seq::<bool>::empty(),
{
}

/// A nested filter whose must list holds a has-id condition matches no
/// element, whatever the ids and the point.
pub proof fn lemma_has_id_in_must(n: NestedCondition, k: int, ans: Seq<Seq<bool>>)
    requires
        n.filter.must matches Some(v) && 0 <= k < v@.len() && v@[k] is HasId,
    ensures
        forall|i: int|
            0 <= i < condition_bits(Condition::Nested(n), ans).len() ==> !condition_bits(
                Condition::Nested(n),
                ans,
            )[i],
{
    let v = n.filter.must.unwrap()@;
    lemma_list_bits(v, ans);
    let lb = list_bits(v, ans);
    assert(lb[k] == condition_bits(v[k], ans));
    assert(lb[k].len() == 0);
    lemma_all_of_blocked(lb, k);
    let must = Some(all_of(lb));
    let must_not = match n.filter.must_not {
        Some(w) => Some(none_of(list_bits(w@, ans))),
        None => None,
    };
    let should = match n.filter.should {
        Some(w) => any_of(list_bits(w@, ans)),
        None => None,
    };
    let groups = present(must) + present(must_not) + present(should);
    assert(groups[0] == all_of(lb));
    lemma_all_of_blocked(groups, 0);
}

} // verus!
