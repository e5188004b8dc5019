//! Operations on the named vectors of points.

use crate::types::{Filter, PointIdType};
use std::borrow::Cow;
use std::collections::HashSet;
use validator::ValidationError;
use vstd::prelude::*;

verus! {

#[verifier::external_type_specification]
#[verifier::external_body]
pub struct ExValidationError(ValidationError);

/// A dense vector; each component is held as the bit pattern of its `f32`
/// value (`f32::to_bits`), which this library carries and never computes on.
#[derive(Debug)]
pub struct DenseVector {
    pub components: Vec<u32>,
}

/// The vectors of a point: one unnamed vector, or vectors by name.
#[derive(Debug)]
pub enum VectorStruct {
    Single(DenseVector),
    Multi(Vec<(String, DenseVector)>),
}

/// A list of point ids.
#[derive(Debug)]
pub struct PointIdsList {
    pub points: Vec<PointIdType>,
}

/// Points chosen by a filter.
#[derive(Debug)]
pub struct FilterSelector {
    pub filter: Filter,
}

/// How the points of an operation are chosen.
#[derive(Debug)]
pub enum PointsSelector {
    PointIdsSelector(PointIdsList),
    FilterSelector(FilterSelector),
}

/// Sets vectors of one point.
#[derive(Debug)]
pub struct UpdateVectors {
    /// Point id
    pub id: PointIdType,
    /// Vectors
    pub vector: VectorStruct,
}

/// Deletes the named vectors of the selected points.
#[derive(Debug)]
pub struct DeleteVectors {
    /// Point selector
    pub point_selector: PointsSelector,
    /// Vector names
    pub vector: HashSet<String>,
}

/// An operation on vectors.
#[derive(Debug)]
pub enum VectorOperations {
    /// Update vectors
    UpdateVectors(UpdateVectors),
    /// Delete vectors if exists
    DeleteVectors(PointIdsList, Vec<String>),
    /// Delete vectors by given filter criteria
    DeleteVectorsByFilter(Filter, Vec<String>),
}

impl VectorOperations {
    /// Whether the operation writes vectors (as opposed to deleting them).
    pub fn is_write_operation(&self) -> (r: bool)
        ensures
            r == (*self is UpdateVectors),
    {
        match self {
            VectorOperations::UpdateVectors(_) => true,
            VectorOperations::DeleteVectors(..) => false,
            VectorOperations::DeleteVectorsByFilter(..) => false,
        }
    }
}

/// Relies on `validator::ValidationError::new`: an error with the given code,
/// no message and no parameters.
#[verifier::external_body]
fn validation_error(code: &'static str) -> (r: ValidationError) {
    ValidationError::new(code)
}

/// Relies on `validator::ValidationError::add_param`: records `value` under
/// `name` in the error's parameters (an integer always serializes).
#[verifier::external_body]
fn add_validation_param(err: &mut ValidationError, name: &'static str, value: i32) {
    err.add_param(Cow::from(name), &value)
}

/// Accepts a vector struct that specifies at least one vector: a single
/// vector, or a non-empty set of named ones. Otherwise the error has code
/// `length` and the parameter `min` = 1.
pub fn validate_vector_struct_not_empty(value: &VectorStruct) -> (r: Result<(), ValidationError>)
    ensures
        r is Err <==> (value matches VectorStruct::Multi(v) && v@.len() == 0),
{
    // If any vector is specified we're good
    match value {
        VectorStruct::Multi(vectors) if vectors.len() == 0 => {},
        VectorStruct::Single(_) | VectorStruct::Multi(_) => return Ok(()),
    }
    let mut err = validation_error("length");
    add_validation_param(&mut err, "min", 1);
    Err(err)
}

} // verus!
