use nested_filter::bits::{and_with, complement, or_with, Bits};
use nested_filter::nested_filter::{
    find_indices_matching_all_conditions, find_indices_matching_any_conditions,
    find_indices_matching_none_conditions, merge_nested_matching_indices,
    nested_condition_converter, nested_conditions_converter,
};
use nested_filter::types::{
    Condition, ExtendedPointId, FieldCondition, Filter, HasIdCondition, IsEmptyCondition,
    IsNullCondition, NestedCondition, PayloadProvider,
};

fn bits(v: &[u8]) -> Bits {
    let b: Vec<bool> = v.iter().map(|x| *x == 1).collect();
    Bits::from_bools(&b)
}

fn provider(answers: &[&[u8]]) -> PayloadProvider {
    PayloadProvider {
        points: vec![answers.iter().map(|a| bits(a)).collect()],
    }
}

fn field(check_id: usize) -> Condition {
    Condition::Field(FieldCondition {
        key: "x".to_string(),
        check_id,
    })
}

fn fields(n: usize) -> Vec<Condition> {
    (0..n).map(field).collect()
}

fn nested(must: Option<Vec<Condition>>, must_not: Option<Vec<Condition>>, should: Option<Vec<Condition>>) -> Condition {
    Condition::Nested(NestedCondition {
        key: "items".to_string(),
        filter: Filter {
            must,
            must_not,
            should,
        },
    })
}

#[test]
fn zero_matching_merge_nested_matching_indices() {
    let provider = provider(&[&[], &[], &[]]);
    let conditions = fields(3);
    let matching_indices_fn = nested_conditions_converter(&conditions, &provider);

    let bits = find_indices_matching_all_conditions(0, &matching_indices_fn);
    // none of the conditions are matching anything
    assert!(bits.is_empty());

    let bits = find_indices_matching_none_conditions(0, &matching_indices_fn);
    assert!(bits.is_empty());
}

#[test]
fn single_matching_merge_merge_nested_matching_indices() {
    let provider = provider(&[&[1], &[1], &[1]]);
    let conditions = fields(3);
    let matching_indices_fn = nested_conditions_converter(&conditions, &provider);

    let bits = find_indices_matching_all_conditions(0, &matching_indices_fn);
    // index 0 is matching all the conditions
    assert_eq!(bits.len(), 1);
    assert!(bits.to_bools()[0]);

    let bits = find_indices_matching_none_conditions(0, &matching_indices_fn);
    assert_eq!(bits.len(), 1);
    assert!(!bits.to_bools()[0]);
}

#[test]
fn single_non_matching_merge_nested_matching_indices() {
    let provider = provider(&[&[1, 0], &[1, 0], &[0, 1]]);
    let conditions = fields(3);
    let matching_indices_fn = nested_conditions_converter(&conditions, &provider);
    let merged = merge_nested_matching_indices(matching_indices_fn, false);
    // does not because all the checkers are not matching the same path
    let result: bool = merged.check(0);
    assert!(!result);
}

#[test]
fn many_matching_merge_nested_matching_indices() {
    let provider = provider(&[&[1, 1], &[1, 1], &[1, 0]]);
    let conditions = fields(3);
    let matching_indices_fn = nested_conditions_converter(&conditions, &provider);
    let merged = merge_nested_matching_indices(matching_indices_fn, false);
    // still matching because of the path '0' matches all conditions
    let result: bool = merged.check(0);
    assert!(result);
}

// items: [{"x":1},{"x":2},{"x":3}]; check 0 is `x == 2` on each element
#[test]
fn nested_must_single_match() {
    let provider = provider(&[&[0, 1, 0]]);
    let condition = nested(Some(vec![field(0)]), None, None);
    let matcher = nested_condition_converter(&condition, &provider);
    assert_eq!(matcher.matching_indices(0).to_bools(), vec![false, true, false]);
    let merged = merge_nested_matching_indices(vec![matcher], false);
    assert!(merged.check(0));
}

// same items; check 0 is `x == 5`
#[test]
fn nested_must_no_match() {
    let provider = provider(&[&[0, 0, 0]]);
    let condition = nested(Some(vec![field(0)]), None, None);
    let matcher = nested_condition_converter(&condition, &provider);
    assert_eq!(matcher.matching_indices(0).to_bools(), vec![false, false, false]);
    let merged = merge_nested_matching_indices(vec![matcher], false);
    assert!(!merged.check(0));
    let matcher = nested_condition_converter(&condition, &provider);
    let negated = merge_nested_matching_indices(vec![matcher], true);
    // negation is position-wise: every element would have to match some checker
    assert!(!negated.check(0));
}

// items: []
#[test]
fn nested_empty_array() {
    let provider = provider(&[&[]]);
    let condition = nested(Some(vec![field(0)]), None, None);
    let matcher = nested_condition_converter(&condition, &provider);
    assert!(matcher.matching_indices(0).is_empty());
    let merged = merge_nested_matching_indices(vec![matcher], false);
    assert!(!merged.check(0));
    let matcher = nested_condition_converter(&condition, &provider);
    let negated = merge_nested_matching_indices(vec![matcher], true);
    assert!(negated.check(0));
}

#[test]
fn sibling_nested_disjoint_elements() {
    let provider = provider(&[&[1, 0], &[0, 1]]);
    let a = nested(Some(vec![field(0)]), None, None);
    let b = nested(Some(vec![field(1)]), None, None);
    let checkers = vec![
        nested_condition_converter(&a, &provider),
        nested_condition_converter(&b, &provider),
    ];
    let merged = merge_nested_matching_indices(checkers, false);
    assert!(!merged.check(0));

    let either = nested(None, None, Some(vec![field(0), field(1)]));
    let matcher = nested_condition_converter(&either, &provider);
    assert_eq!(matcher.matching_indices(0).to_bools(), vec![true, true]);
    let merged = merge_nested_matching_indices(vec![matcher], false);
    assert!(merged.check(0));
}

#[test]
fn reordered_siblings_reduce_alike() {
    let provider = provider(&[&[1, 1, 0, 1], &[0, 1, 1, 1], &[1, 1, 1, 0]]);
    let forward = vec![field(0), field(1), field(2)];
    let backward = vec![field(2), field(0), field(1)];
    let f = nested_conditions_converter(&forward, &provider);
    let b = nested_conditions_converter(&backward, &provider);
    let all_f = find_indices_matching_all_conditions(0, &f).to_bools();
    let all_b = find_indices_matching_all_conditions(0, &b).to_bools();
    assert_eq!(all_f, vec![false, true, false, false]);
    assert_eq!(all_f, all_b);
    let any_f = find_indices_matching_any_conditions(0, &f).unwrap().to_bools();
    let any_b = find_indices_matching_any_conditions(0, &b).unwrap().to_bools();
    assert_eq!(any_f, vec![true, true, true, true]);
    assert_eq!(any_f, any_b);
}

#[test]
fn match_all_of_nothing_is_empty() {
    let provider = provider(&[&[1]]);
    let conditions: Vec<Condition> = Vec::new();
    let matchers = nested_conditions_converter(&conditions, &provider);
    assert!(find_indices_matching_all_conditions(0, &matchers).is_empty());
    assert!(find_indices_matching_any_conditions(0, &matchers).is_none());
}

#[test]
fn negation_single_checker_partial_and_full() {
    let provider = provider(&[&[1, 0, 1], &[1, 1, 1]]);
    let partial = field(0);
    let negated = merge_nested_matching_indices(vec![nested_condition_converter(&partial, &provider)], true);
    assert!(!negated.check(0));
    let plain = merge_nested_matching_indices(vec![nested_condition_converter(&partial, &provider)], false);
    assert!(plain.check(0));
    let full = field(1);
    let negated = merge_nested_matching_indices(vec![nested_condition_converter(&full, &provider)], true);
    assert!(negated.check(0));
}

#[test]
fn negated_merge_covers_every_element() {
    let provider = provider(&[&[1, 0, 0], &[0, 1, 1]]);
    let conditions = fields(2);
    let negated = merge_nested_matching_indices(nested_conditions_converter(&conditions, &provider), true);
    assert!(negated.check(0));
    let plain = merge_nested_matching_indices(nested_conditions_converter(&conditions, &provider), false);
    assert!(!plain.check(0));
}

#[test]
fn must_and_must_not_compose() {
    let provider = provider(&[&[1, 1, 0, 0], &[0, 1, 0, 1]]);
    let condition = nested(Some(vec![field(0)]), Some(vec![field(1)]), None);
    let matcher = nested_condition_converter(&condition, &provider);
    assert_eq!(matcher.matching_indices(0).to_bools(), vec![true, false, false, false]);
}

#[test]
fn must_not_of_several_conditions() {
    let provider = provider(&[&[1, 0, 0], &[0, 1, 0]]);
    let condition = nested(None, Some(vec![field(0), field(1)]), None);
    let matcher = nested_condition_converter(&condition, &provider);
    assert_eq!(matcher.matching_indices(0).to_bools(), vec![false, false, true]);
}

#[test]
fn all_three_groups_and_together() {
    let provider = provider(&[&[1, 1, 1, 0], &[0, 0, 1, 0], &[1, 0, 0, 0], &[0, 1, 0, 1]]);
    let condition = nested(
        Some(vec![field(0)]),
        Some(vec![field(1)]),
        Some(vec![field(2), field(3)]),
    );
    let matcher = nested_condition_converter(&condition, &provider);
    assert_eq!(matcher.matching_indices(0).to_bools(), vec![true, true, false, false]);
}

#[test]
fn nested_without_groups_is_empty() {
    let provider = provider(&[&[1, 1]]);
    let condition = nested(None, None, None);
    let matcher = nested_condition_converter(&condition, &provider);
    assert!(matcher.matching_indices(0).is_empty());
}

#[test]
fn doubly_nested_condition() {
    let provider = provider(&[&[1, 0, 1], &[1, 1, 0]]);
    let inner = nested(Some(vec![field(0), field(1)]), None, None);
    let outer = nested(Some(vec![inner]), None, None);
    let matcher = nested_condition_converter(&outer, &provider);
    assert_eq!(matcher.matching_indices(0).to_bools(), vec![true, false, false]);
}

#[test]
fn has_id_yields_empty_vector() {
    let provider = provider(&[&[1, 1]]);
    let condition = Condition::HasId(HasIdCondition {
        has_id: vec![ExtendedPointId::NumId(0)],
    });
    let matcher = nested_condition_converter(&condition, &provider);
    assert!(matcher.matching_indices(0).is_empty());

    let with_has_id = nested(
        Some(vec![field(0), Condition::HasId(HasIdCondition { has_id: vec![] })]),
        None,
        None,
    );
    let matcher = nested_condition_converter(&with_has_id, &provider);
    let result = matcher.matching_indices(0);
    assert_eq!(result.count_ones(), 0);
    let merged = merge_nested_matching_indices(vec![matcher], false);
    assert!(!merged.check(0));
}

#[test]
fn is_empty_and_is_null_read_their_checks() {
    let provider = provider(&[&[1, 0], &[0, 1]]);
    let e = Condition::IsEmpty(IsEmptyCondition {
        key: "y".to_string(),
        check_id: 0,
    });
    let n = Condition::IsNull(IsNullCondition {
        key: "z".to_string(),
        check_id: 1,
    });
    assert_eq!(nested_condition_converter(&e, &provider).matching_indices(0).to_bools(), vec![true, false]);
    assert_eq!(nested_condition_converter(&n, &provider).matching_indices(0).to_bools(), vec![false, true]);
}

#[test]
fn bit_operations_follow_bitvec() {
    assert_eq!(and_with(bits(&[1, 1, 0]), &bits(&[1, 0, 1])).to_bools(), vec![true, false, false]);
    assert_eq!(or_with(bits(&[1, 0, 0]), &bits(&[0, 0, 1])).to_bools(), vec![true, false, true]);
    assert_eq!(complement(bits(&[1, 0, 0])).to_bools(), vec![false, true, true]);
    // a shorter right operand is zero-extended
    assert_eq!(and_with(bits(&[1, 1, 1]), &bits(&[1])).to_bools(), vec![true, false, false]);
    assert_eq!(or_with(bits(&[0, 1, 0]), &bits(&[1])).to_bools(), vec![true, true, false]);
    assert_eq!(bits(&[1, 0, 1, 1]).count_ones(), 3);
    let b = bits(&[0, 1]);
    assert_eq!(b.duplicate().to_bools(), vec![false, true]);
    assert_eq!(b.get(1), Some(true));
    assert_eq!(b.get(2), None);
    assert!(Bits::new().is_empty());
}
