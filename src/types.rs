//! The condition tree evaluated by the nested filter, and the per-point
//! answers of the payload layer that its leaves read.

use crate::bits::Bits;
use vstd::prelude::*;

verus! {

/// Offset of a point within a segment.
pub type PointOffsetType = u32;

/// External identifier of a point: a number or a UUID.
#[derive(Clone, Copy, Debug, PartialEq, Eq, Structural)]
pub enum ExtendedPointId {
    NumId(u64),
    Uuid(u128),
}

/// Identifier of a point as the API sees it.
pub type PointIdType = ExtendedPointId;

/// A predicate on the value of `key` in each element of the nested array.
/// `check_id` names the payload check that evaluates it (see `PayloadProvider`).
#[derive(Debug)]
pub struct FieldCondition {
    pub key: String,
    pub check_id: usize,
}

/// Holds for an element whose `key` is missing or empty.
#[derive(Debug)]
pub struct IsEmptyCondition {
    pub key: String,
    pub check_id: usize,
}

/// Holds for an element whose `key` is null.
#[derive(Debug)]
pub struct IsNullCondition {
    pub key: String,
    pub check_id: usize,
}

/// Holds for the points whose id is listed.
#[derive(Debug)]
pub struct HasIdCondition {
    pub has_id: Vec<PointIdType>,
}

/// A boolean filter: each clause list is optional.
#[derive(Debug)]
pub struct Filter {
    pub must: Option<Vec<Condition>>,
    pub must_not: Option<Vec<Condition>>,
    pub should: Option<Vec<Condition>>,
}

/// Quantifies `filter` over the elements of the array under `key`.
#[derive(Debug)]
pub struct NestedCondition {
    pub key: String,
    pub filter: Filter,
}

/// A node of the condition tree.
#[derive(Debug)]
pub enum Condition {
    Field(FieldCondition),
    IsEmpty(IsEmptyCondition),
    IsNull(IsNullCondition),
    HasId(HasIdCondition),
    Nested(NestedCondition),
    Filter(Filter),
}

impl NestedCondition {
    /// The filter applied to each element.
    pub fn filter(&self) -> (r: &Filter)
        ensures
            *r == self.filter,
    {
        &self.filter
    }
}

/// Read access to the payload of each point, as the leaf checks see it: for
/// point `p` and check `c`, the per-element bits of that check over the nested
/// array it is compiled against, at `points[p][c]`.
pub struct PayloadProvider {
    pub points: Vec<Vec<Bits>>,
}

/// The bits of each check for one point.
pub open spec fn point_view(p: Vec<Bits>) -> Seq<Seq<bool>> {
    p@.map_values(|b: Bits| b@)
}

impl View for PayloadProvider {
    type V = Seq<Seq<Seq<bool>>>;

    open spec fn view(&self) -> Seq<Seq<Seq<bool>>> {
        self.points@.map_values(|p: Vec<Bits>| point_view(p))
    }
}

impl PayloadProvider {
    /// Whether point `point_id` is known and has an answer for check `check_id`.
    pub open spec fn answers(&self, point_id: PointOffsetType, check_id: usize) -> bool {
        point_id < self@.len() && check_id < self@[point_id as int].len()
    }

    /// The bits of check `check_id` for point `point_id`.
    pub fn with_payload(&self, point_id: PointOffsetType, check_id: usize) -> (r: Bits)
        requires
            self.answers(point_id, check_id),
        ensures
            r@ == self@[point_id as int][check_id as int],
    {
        let p = &self.points[point_id as usize];
        p[check_id].duplicate()
    }
}

} // verus!
