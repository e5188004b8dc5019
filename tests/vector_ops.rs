use nested_filter::types::{ExtendedPointId, Filter};
use nested_filter::vector_ops::{
    validate_vector_struct_not_empty, DenseVector, PointIdsList, UpdateVectors, VectorOperations,
    VectorStruct,
};

fn dense(v: &[f32]) -> DenseVector {
    DenseVector {
        components: v.iter().map(|x| x.to_bits()).collect(),
    }
}

#[test]
fn update_is_write_operation() {
    let op = VectorOperations::UpdateVectors(UpdateVectors {
        id: ExtendedPointId::NumId(1),
        vector: VectorStruct::Single(dense(&[0.5, 1.0])),
    });
    assert!(op.is_write_operation());
}

#[test]
fn deletes_are_not_write_operations() {
    let op = VectorOperations::DeleteVectors(
        PointIdsList {
            points: vec![ExtendedPointId::NumId(1)],
        },
        vec!["image".to_string()],
    );
    assert!(!op.is_write_operation());
    let op = VectorOperations::DeleteVectorsByFilter(
        Filter {
            must: None,
            must_not: None,
            should: None,
        },
        vec!["image".to_string()],
    );
    assert!(!op.is_write_operation());
}

#[test]
fn empty_multi_vector_is_rejected() {
    let err = validate_vector_struct_not_empty(&VectorStruct::Multi(vec![])).unwrap_err();
    assert_eq!(err.code, "length");
    assert!(err.params.contains_key("min"));
}

#[test]
fn specified_vectors_are_accepted() {
    assert!(validate_vector_struct_not_empty(&VectorStruct::Single(dense(&[1.0]))).is_ok());
    assert!(validate_vector_struct_not_empty(&VectorStruct::Multi(vec![(
        "image".to_string(),
        dense(&[1.0, 2.0])
    )]))
    .is_ok());
}
