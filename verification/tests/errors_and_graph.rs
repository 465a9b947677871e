use onednnl::error::{error_from_status, status_is_success, DnnlError};
use onednnl::graph::{
    AttrValue, ConcatAttrs, GraphOpKind, MatMulAttrs, MatMulSpec, OpAttrKind, ReorderSpec,
    RequiredAttrs, SoftmaxSpec, StaticReshapeAttrs,
};
use onednnl::primitive::attributes::{AccumulationMode, PrimitiveAttributes};
use onednnl::primitive::{PropBackward, PropForwardInference, PropForwardTraining, PropKind};
use onednnl::set_primitive_cache_capacity;

#[test]
fn status_translation_is_exact() {
    assert_eq!(error_from_status(0), DnnlError::Success);
    assert_eq!(error_from_status(1), DnnlError::OutOfMemory);
    assert_eq!(error_from_status(2), DnnlError::InvalidArguments);
    assert_eq!(error_from_status(3), DnnlError::Unsupported);
    assert_eq!(error_from_status(4), DnnlError::LastImplReached);
    assert_eq!(error_from_status(5), DnnlError::RuntimeError);
    assert_eq!(error_from_status(6), DnnlError::NotRequired);
    assert_eq!(error_from_status(7), DnnlError::InvalidGraph);
    assert_eq!(error_from_status(8), DnnlError::InvalidGraphOp);
    assert_eq!(error_from_status(9), DnnlError::InvalidShape);
    assert_eq!(error_from_status(10), DnnlError::InvalidDataType);
    assert_eq!(error_from_status(11), DnnlError::Unknown);
    assert_eq!(error_from_status(9999), DnnlError::Unknown);
    assert!(status_is_success(0));
    assert!(!status_is_success(3));
}

#[test]
fn cache_capacity_accepts_only_nonnegative() {
    assert_eq!(set_primitive_cache_capacity(0), Ok(()));
    assert_eq!(set_primitive_cache_capacity(32), Ok(()));
    assert_eq!(
        set_primitive_cache_capacity(-1),
        Err(DnnlError::InvalidArguments)
    );
}

#[test]
fn attributes_round_trip_their_settings() {
    let mut attr = PrimitiveAttributes::new().unwrap();
    assert_eq!(attr.get_accumulation_mode(), Ok(AccumulationMode::Strict));
    assert_eq!(attr.get_deterministic(), Ok(false));
    assert_eq!(attr.set_accumulation_mode(AccumulationMode::Any), Ok(()));
    assert_eq!(attr.get_accumulation_mode(), Ok(AccumulationMode::Any));
    assert_eq!(attr.set_deterministic(true), Ok(()));
    assert_eq!(attr.get_deterministic(), Ok(true));
}

#[test]
fn prop_markers_name_their_kinds() {
    assert_eq!(PropForwardTraining.kind(), PropKind::ForwardTraining);
    assert_eq!(PropForwardInference.kind(), PropKind::ForwardInference);
    assert_eq!(PropBackward.kind(), PropKind::Backward);
}

#[test]
fn graph_specs_name_their_kinds() {
    assert_eq!(MatMulSpec.kind(), GraphOpKind::MatMul);
    assert_eq!(SoftmaxSpec.kind(), GraphOpKind::Softmax);
    assert_eq!(ReorderSpec.kind(), GraphOpKind::Reorder);
}

#[test]
fn matmul_attrs_spell_their_required_list() {
    let attrs = MatMulAttrs { transpose_a: true, transpose_b: false };
    let r = attrs.to_required_attrs();
    match r {
        RequiredAttrs::List(v) => {
            assert_eq!(v.len(), 2);
            assert_eq!(v[0].0, OpAttrKind::TransposeA);
            assert!(matches!(v[0].1, AttrValue::Bool(true)));
            assert_eq!(v[1].0, OpAttrKind::TransposeB);
            assert!(matches!(v[1].1, AttrValue::Bool(false)));
        },
        RequiredAttrs::Empty => panic!("expected a keyed list"),
    }
}

#[test]
fn concat_and_reshape_attrs_spell_their_lists() {
    let r = ConcatAttrs { axis: 2 }.to_required_attrs();
    match r {
        RequiredAttrs::List(v) => {
            assert_eq!(v.len(), 1);
            assert_eq!(v[0].0, OpAttrKind::Axis);
            match &v[0].1 {
                AttrValue::Int(x) => assert_eq!(x, &vec![2]),
                _ => panic!("expected an integer attribute"),
            }
        },
        RequiredAttrs::Empty => panic!("expected a keyed list"),
    }

    let r = StaticReshapeAttrs { shape: vec![2, 8], special_zero: true }.to_required_attrs();
    match r {
        RequiredAttrs::List(v) => {
            assert_eq!(v.len(), 2);
            assert_eq!(v[0].0, OpAttrKind::Shape);
            match &v[0].1 {
                AttrValue::Int(x) => assert_eq!(x, &vec![2, 8]),
                _ => panic!("expected an integer attribute"),
            }
            assert_eq!(v[1].0, OpAttrKind::SpecialZero);
        },
        RequiredAttrs::Empty => panic!("expected a keyed list"),
    }
}
