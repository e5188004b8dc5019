//! Compiling conditions under a nested path into per-element matchers, the
//! match-all / match-any / match-none reductions over their results, and the
//! top-level merge into a verdict for a point.

use crate::bits::{count_true, Bits};
use crate::model::{
    all_of, answerable, any_of, condition_bits, height, lemma_list_answerable, lemma_list_bits,
    lemma_list_height, list_bits, list_height, none_of, present,
};
use crate::types::{Condition, NestedCondition, PayloadProvider, PointOffsetType};
use vstd::prelude::*;

verus! {

/// A compiled per-element matcher: a condition of the tree together with the
/// payload it reads. For a point it yields one bit per element of the nested
/// array the condition is compiled against.
pub struct NestedMatcher<'a> {
    pub condition: &'a Condition,
    pub payload_provider: &'a PayloadProvider,
}

/// The views of a list of bit vectors.
pub open spec fn views(vs: Seq<Bits>) -> Seq<Seq<bool>> {
    vs.map_values(|b: Bits| b@)
}

/// The view of an optional bit vector.
pub open spec fn opt_view(o: Option<Bits>) -> Option<Seq<bool>> {
    match o {
        Some(b) => Some(b@),
        None => None,
    }
}

impl<'a> NestedMatcher<'a> {
    /// Whether the matcher can run on `point_id`.
    pub open spec fn ready(&self, point_id: PointOffsetType) -> bool {
        &&& point_id < self.payload_provider@.len()
        &&& answerable(*self.condition, self.payload_provider@[point_id as int])
    }

    /// What the matcher yields for `point_id`.
    pub open spec fn bits_at(&self, point_id: PointOffsetType) -> Seq<bool> {
        condition_bits(*self.condition, self.payload_provider@[point_id as int])
    }

    /// The per-element bits of the condition for `point_id`.
    pub fn matching_indices(&self, point_id: PointOffsetType) -> (r: Bits)
        requires
            self.ready(point_id),
        ensures
            r@ == self.bits_at(point_id),
        decreases height(*self.condition), 2nat,
    {
        match self.condition {
            Condition::Field(f) => self.payload_provider.with_payload(point_id, f.check_id),
            Condition::IsEmpty(f) => self.payload_provider.with_payload(point_id, f.check_id),
            Condition::IsNull(f) => self.payload_provider.with_payload(point_id, f.check_id),
            // has_id is not supported inside nested queries: it matches no element
            Condition::HasId(_) => Bits::new(),
            Condition::Nested(nested) => {
                let mut bitvecs: Vec<Bits> = Vec::new();
                let must = check_nested_must(point_id, nested, self.payload_provider);
                let must_not = check_nested_must_not(point_id, nested, self.payload_provider);
                let should = check_nested_should(point_id, nested, self.payload_provider);
                let ghost gm = opt_view(must);
                let ghost gn = opt_view(must_not);
                let ghost gs = opt_view(should);
                if let Some(m) = must {
                    bitvecs.push(m);
                }
                assert(views(bitvecs@) =~= present(gm));
                if let Some(m) = must_not {
                    bitvecs.push(m);
                }
                assert(views(bitvecs@) =~= present(gm) + present(gn));
                if let Some(m) = should {
                    bitvecs.push(m);
                }
                assert(views(bitvecs@) =~= present(gm) + present(gn) + present(gs));
                match_all(&bitvecs)
            },
            // excluded by `ready`: a raw filter never stands under a nested path
            Condition::Filter(_) => Bits::new(),
        }
    }
}

/// The bits each matcher yields for `point_id`, in order.
pub open spec fn checker_bits(ms: Seq<NestedMatcher>, point_id: PointOffsetType) -> Seq<Seq<bool>> {
    ms.map_values(|m: NestedMatcher| m.bits_at(point_id))
}

/// Whether every matcher can run on `point_id`.
pub open spec fn all_ready(ms: Seq<NestedMatcher>, point_id: PointOffsetType) -> bool {
    forall|i: int| 0 <= i < ms.len() ==> (#[trigger] ms[i]).ready(point_id)
}

/// The conditions of the matchers, in order.
pub open spec fn conditions_of(ms: Seq<NestedMatcher>) -> Seq<Condition> {
    ms.map_values(|m: NestedMatcher| *m.condition)
}

/// Runs every matcher on `point_id`.
fn checker_results(point_id: PointOffsetType, nested_checkers: &[NestedMatcher]) -> (r: Vec<Bits>)
    requires
        all_ready(nested_checkers@, point_id),
    ensures
        views(r@) == checker_bits(nested_checkers@, point_id),
    decreases list_height(conditions_of(nested_checkers@)), 3nat,
{
    let ghost ms = nested_checkers@;
    proof {
        lemma_list_height(conditions_of(ms));
    }
    let mut r: Vec<Bits> = Vec::new();
    let mut i: usize = 0;
    while i < nested_checkers.len()
        invariant
            ms == nested_checkers@,
            all_ready(ms, point_id),
            i <= ms.len(),
            views(r@) == checker_bits(ms.subrange(0, i as int), point_id),
            forall|j: int|
                0 <= j < ms.len() ==> height(#[trigger] conditions_of(ms)[j]) <= list_height(
                    conditions_of(ms),
                ),
        decreases ms.len() - i,
    {
        assert(conditions_of(ms)[i as int] == *ms[i as int].condition);
        let b = nested_checkers[i].matching_indices(point_id);
        let ghost before = r@;
        r.push(b);
        assert(r@ == before.push(b));
        assert(views(r@) =~= views(before).push(b@));
        assert(ms.subrange(0, i + 1) =~= ms.subrange(0, i as int).push(ms[i as int]));
        i = i + 1;
        assert(views(r@) =~= checker_bits(ms.subrange(0, i as int), point_id));
    }
    assert(ms.subrange(0, ms.len() as int) =~= ms);
    r
}

/// Match-all over computed vectors.
fn match_all(vs: &Vec<Bits>) -> (r: Bits)
    ensures
        r@ == all_of(views(vs@)),
{
    let ghost v = views(vs@);
    if vs.len() == 0 {
        return Bits::new();
    }
    let mut acc = vs[0].duplicate();
    assert(v.subrange(0, 1) =~= seq![v[0]]);
    let mut i: usize = 1;
    while i < vs.len()
        invariant
            v == views(vs@),
            1 <= i <= vs@.len(),
            acc@ == all_of(v.subrange(0, i as int)),
        decreases vs@.len() - i,
    {
        acc = crate::bits::and_with(acc, &vs[i]);
        i = i + 1;
        assert(v.subrange(0, i as int).drop_last() =~= v.subrange(0, i - 1));
    }
    assert(v.subrange(0, vs@.len() as int) =~= v);
    acc
}

/// Match-any over computed vectors.
fn match_any(vs: &Vec<Bits>) -> (r: Option<Bits>)
    ensures
        opt_view(r) == any_of(views(vs@)),
{
    let ghost v = views(vs@);
    if vs.len() == 0 {
        return None;
    }
    let mut acc = vs[0].duplicate();
    assert(v.subrange(0, 1) =~= seq![v[0]]);
    let mut i: usize = 1;
    while i < vs.len()
        invariant
            v == views(vs@),
            1 <= i <= vs@.len(),
            any_of(v.subrange(0, i as int)) == Some(acc@),
        decreases vs@.len() - i,
    {
        acc = crate::bits::or_with(acc, &vs[i]);
        i = i + 1;
        assert(v.subrange(0, i as int).drop_last() =~= v.subrange(0, i - 1));
    }
    assert(v.subrange(0, vs@.len() as int) =~= v);
    Some(acc)
}

/// Applies `point_id` to the matchers and returns the elements that match all
/// of them (empty for no matchers).
pub fn find_indices_matching_all_conditions(
    point_id: PointOffsetType,
    nested_checkers: &[NestedMatcher],
) -> (r: Bits)
    requires
        all_ready(nested_checkers@, point_id),
    ensures
        r@ == all_of(checker_bits(nested_checkers@, point_id)),
    decreases list_height(conditions_of(nested_checkers@)), 4nat,
{
    let vs = checker_results(point_id, nested_checkers);
    match_all(&vs)
}

/// Applies `point_id` to the matchers and returns the elements that match none
/// of them.
pub fn find_indices_matching_none_conditions(
    point_id: PointOffsetType,
    nested_checkers: &[NestedMatcher],
) -> (r: Bits)
    requires
        nested_checkers@.len() > 0,
        all_ready(nested_checkers@, point_id),
    ensures
        r@ == none_of(checker_bits(nested_checkers@, point_id)),
    decreases list_height(conditions_of(nested_checkers@)), 5nat,
{
    let combined_mask = find_indices_matching_any_conditions(point_id, nested_checkers);
    match combined_mask {
        Some(mask) => crate::bits::complement(mask),
        None => Bits::new(),
    }
}

/// Applies `point_id` to the matchers and returns the elements that match any
/// of them, or `None` for no matchers.
pub fn find_indices_matching_any_conditions(
    point_id: PointOffsetType,
    nested_checkers: &[NestedMatcher],
) -> (r: Option<Bits>)
    requires
        all_ready(nested_checkers@, point_id),
    ensures
        opt_view(r) == any_of(checker_bits(nested_checkers@, point_id)),
    decreases list_height(conditions_of(nested_checkers@)), 4nat,
{
    let vs = checker_results(point_id, nested_checkers);
    match_any(&vs)
}

/// The verdict of a point from the bits of sibling matchers: without negation,
/// some element matches every matcher; with it, no element of match-none is set
/// (every element is matched by at least one matcher).
pub open spec fn merge_verdict(vs: Seq<Seq<bool>>, negate: bool) -> bool {
    if negate {
        count_true(none_of(vs)) == 0
    } else {
        count_true(all_of(vs)) > 0
    }
}

/// A point-level checker merged from sibling nested matchers.
pub struct ConditionChecker<'a> {
    pub nested_checkers: Vec<NestedMatcher<'a>>,
    pub nested_negate: bool,
}

impl<'a> ConditionChecker<'a> {
    /// Whether the checker can run on `point_id`: every matcher can, and a
    /// negated checker has at least one matcher.
    pub open spec fn ready(&self, point_id: PointOffsetType) -> bool {
        &&& all_ready(self.nested_checkers@, point_id)
        &&& (self.nested_negate ==> self.nested_checkers@.len() > 0)
    }

    /// The verdict for `point_id`.
    pub fn check(&self, point_id: PointOffsetType) -> (r: bool)
        requires
            self.ready(point_id),
        ensures
            r == merge_verdict(checker_bits(self.nested_checkers@, point_id), self.nested_negate),
    {
        if self.nested_negate {
            let not_matching = find_indices_matching_none_conditions(
                point_id,
                self.nested_checkers.as_slice(),
            );
            // no element fails every nested condition
            not_matching.count_ones() == 0
        } else {
            let matches = find_indices_matching_all_conditions(
                point_id,
                self.nested_checkers.as_slice(),
            );
            // some element matches every nested condition
            matches.count_ones() > 0
        }
    }
}

/// Merges sibling nested matchers into a single point-level checker.
pub fn merge_nested_matching_indices<'a>(
    nested_checkers: Vec<NestedMatcher<'a>>,
    nested_negate: bool,
) -> (r: ConditionChecker<'a>)
    ensures
        r.nested_checkers@ == nested_checkers@,
        r.nested_negate == nested_negate,
{
    ConditionChecker { nested_checkers, nested_negate }
}

/// Compiles each condition of a list into a matcher over `payload_provider`.
pub fn nested_conditions_converter<'a>(
    conditions: &'a [Condition],
    payload_provider: &'a PayloadProvider,
) -> (r: Vec<NestedMatcher<'a>>)
    requires
        forall|i: int| 0 <= i < conditions@.len() ==> !(#[trigger] conditions@[i] is Filter),
    ensures
        conditions_of(r@) == conditions@,
        forall|i: int| 0 <= i < r@.len() ==> (#[trigger] r@[i]).payload_provider == payload_provider,
{
    let mut r: Vec<NestedMatcher<'a>> = Vec::new();
    let mut i: usize = 0;
    while i < conditions.len()
        invariant
            i <= conditions@.len(),
            forall|j: int| 0 <= j < conditions@.len() ==> !(#[trigger] conditions@[j] is Filter),
            conditions_of(r@) == conditions@.subrange(0, i as int),
            forall|j: int| 0 <= j < r@.len() ==> (#[trigger] r@[j]).payload_provider == payload_provider,
        decreases conditions@.len() - i,
    {
        let m = nested_condition_converter(&conditions[i], payload_provider);
        let ghost before = r@;
        r.push(m);
        assert(r@ == before.push(m));
        assert(conditions_of(r@) =~= conditions_of(before).push(*m.condition));
        assert(conditions@.subrange(0, i + 1) =~= conditions@.subrange(0, i as int).push(
            conditions@[i as int],
        ));
        i = i + 1;
        assert(conditions_of(r@) =~= conditions@.subrange(0, i as int));
    }
    assert(conditions@.subrange(0, conditions@.len() as int) =~= conditions@);
    r
}

/// Compiles one condition into a matcher over `payload_provider`. A raw filter
/// marker is never compiled under a nested path.
pub fn nested_condition_converter<'a>(
    condition: &'a Condition,
    payload_provider: &'a PayloadProvider,
) -> (r: NestedMatcher<'a>)
    requires
        !(condition is Filter),
    ensures
        *r.condition == *condition,
        r.payload_provider == payload_provider,
{
    NestedMatcher { condition, payload_provider }
}

/// Compiles a clause list for `point_id`: every matcher is ready, and together
/// they yield the bits of the list.
fn compile_clause<'a>(
    conditions: &'a Vec<Condition>,
    payload_provider: &'a PayloadProvider,
    point_id: PointOffsetType,
) -> (r: Vec<NestedMatcher<'a>>)
    requires
        point_id < payload_provider@.len(),
        crate::model::list_answerable(conditions@, payload_provider@[point_id as int]),
    ensures
        all_ready(r@, point_id),
        checker_bits(r@, point_id) == list_bits(conditions@, payload_provider@[point_id as int]),
        list_height(conditions_of(r@)) == list_height(conditions@),
        r@.len() == conditions@.len(),
{
    let ghost ans = payload_provider@[point_id as int];
    proof {
        lemma_list_answerable(conditions@, ans);
        lemma_list_bits(conditions@, ans);
    }
    let r = nested_conditions_converter(conditions.as_slice(), payload_provider);
    assert forall|i: int| 0 <= i < r@.len() implies (#[trigger] r@[i]).ready(point_id) by {
        assert(conditions_of(r@)[i] == *r@[i].condition);
    }
    assert forall|i: int| 0 <= i < r@.len() implies #[trigger] checker_bits(r@, point_id)[i]
        == list_bits(conditions@, ans)[i] by {
        assert(conditions_of(r@)[i] == *r@[i].condition);
    }
    assert(checker_bits(r@, point_id) =~= list_bits(conditions@, ans));
    r
}

/// The must group of `nested`: the elements matching all its conditions, or
/// `None` where there is no must list.
fn check_nested_must(
    point_id: PointOffsetType,
    nested: &NestedCondition,
    payload_provider: &PayloadProvider,
) -> (r: Option<Bits>)
    requires
        point_id < payload_provider@.len(),
        answerable(Condition::Nested(*nested), payload_provider@[point_id as int]),
    ensures
        opt_view(r) == (match nested.filter.must {
            Some(v) => Some(all_of(list_bits(v@, payload_provider@[point_id as int]))),
            None => None,
        }),
    decreases height(Condition::Nested(*nested)), 1nat,
{
    match &nested.filter().must {
        None => None,
        Some(musts_conditions) => {
            let nested_checkers = compile_clause(musts_conditions, payload_provider, point_id);
            Some(find_indices_matching_all_conditions(point_id, nested_checkers.as_slice()))
        },
    }
}

/// The must-not group of `nested`: the elements matching none of its
/// conditions, or `None` where there is no must-not list.
fn check_nested_must_not(
    point_id: PointOffsetType,
    nested: &NestedCondition,
    payload_provider: &PayloadProvider,
) -> (r: Option<Bits>)
    requires
        point_id < payload_provider@.len(),
        answerable(Condition::Nested(*nested), payload_provider@[point_id as int]),
    ensures
        opt_view(r) == (match nested.filter.must_not {
            Some(v) => Some(none_of(list_bits(v@, payload_provider@[point_id as int]))),
            None => None,
        }),
    decreases height(Condition::Nested(*nested)), 1nat,
{
    match &nested.filter().must_not {
        None => None,
        Some(must_not_conditions) => {
            let nested_checkers = compile_clause(must_not_conditions, payload_provider, point_id);
            Some(find_indices_matching_none_conditions(point_id, nested_checkers.as_slice()))
        },
    }
}

/// The should group of `nested`: the elements matching any of its conditions,
/// or `None` where there is no should list or it is empty.
fn check_nested_should(
    point_id: PointOffsetType,
    nested: &NestedCondition,
    payload_provider: &PayloadProvider,
) -> (r: Option<Bits>)
    requires
        point_id < payload_provider@.len(),
        answerable(Condition::Nested(*nested), payload_provider@[point_id as int]),
    ensures
        opt_view(r) == (match nested.filter.should {
            Some(v) => any_of(list_bits(v@, payload_provider@[point_id as int])),
            None => None,
        }),
    decreases height(Condition::Nested(*nested)), 1nat,
{
    match &nested.filter().should {
        None => None,
        Some(should_conditions) => {
            let nested_checkers = compile_clause(should_conditions, payload_provider, point_id);
            find_indices_matching_any_conditions(point_id, nested_checkers.as_slice())
        },
    }
}

} // verus!
