use onednnl::error::DnnlError;
use onednnl::memory::descriptor::{
    data_type_size, DataType, DataTypeQuery, DimsQuery, MemoryDescriptor, NDimsQuery,
};
use onednnl::memory::format_tag::FormatTag;

#[test]
fn test_smoke_memory_desc() {
    let md = MemoryDescriptor::new(vec![1, 3, 228, 228], DataType::F32, FormatTag::Abcd).unwrap();

    let ndims = md.query_ndims();
    let data_type = md.query_data_type();
    let dims = md.query_dims();

    assert_eq!(ndims, 4);
    assert_eq!(data_type, DataType::F32);
    assert_eq!(dims, vec![1, 3, 228, 228]);
}

#[test]
fn create_succeeds_and_reports_exact_dims() {
    let md = MemoryDescriptor::new(vec![2, 3], DataType::F64, FormatTag::Ab).unwrap();
    assert_eq!(md.query_dims(), vec![2, 3]);
    assert_eq!(md.query_data_type(), DataType::F64);
    assert_eq!(md.query_format_tag(), FormatTag::Ab);
    assert_eq!(md.elem_count(), 6);
    assert_eq!(md.get_size(), 6 * data_type_size(DataType::F64));

    let md_1d = MemoryDescriptor::new(vec![15], DataType::F32, FormatTag::A).unwrap();
    assert_eq!(md_1d.query_ndims(), 1);
    assert_eq!(md_1d.query_dims(), vec![15]);
}

#[test]
fn query_selectors_match_direct_queries() {
    let md = MemoryDescriptor::new(vec![4, 5], DataType::S32, FormatTag::Ab).unwrap();
    assert_eq!(NDimsQuery::execute(&md), Ok(2));
    assert_eq!(DimsQuery::execute(&md), Ok(vec![4, 5]));
    assert_eq!(DataTypeQuery::execute(&md), Ok(DataType::S32));
}

#[test]
fn create_rejects_arity_mismatch() {
    let r = MemoryDescriptor::new(vec![2, 3], DataType::F32, FormatTag::A);
    assert_eq!(r.err(), Some(DnnlError::InvalidArguments));
    let r = MemoryDescriptor::new(vec![2], DataType::F32, FormatTag::Abcd);
    assert_eq!(r.err(), Some(DnnlError::InvalidArguments));
}

#[test]
fn create_rejects_bad_dims() {
    let r = MemoryDescriptor::new(vec![], DataType::F32, FormatTag::Any);
    assert_eq!(r.err(), Some(DnnlError::InvalidArguments));
    let r = MemoryDescriptor::new(vec![2, -1], DataType::F32, FormatTag::Ab);
    assert_eq!(r.err(), Some(DnnlError::InvalidArguments));
    let thirteen = vec![1i64; 13];
    let r = MemoryDescriptor::new(thirteen, DataType::F32, FormatTag::Any);
    assert_eq!(r.err(), Some(DnnlError::InvalidArguments));
}

#[test]
fn create_rejects_oversized_tensors() {
    let r = MemoryDescriptor::new(vec![i64::MAX, i64::MAX], DataType::F32, FormatTag::Ab);
    assert_eq!(r.err(), Some(DnnlError::OutOfMemory));
}

#[test]
fn create_any_leaves_layout_open() {
    let md = MemoryDescriptor::new_any(&[15, 15], DataType::F32).unwrap();
    assert_eq!(md.query_format_tag(), FormatTag::Any);
    assert_eq!(md.query_dims(), vec![15, 15]);
}

#[test]
fn clone_compares_equal_to_original() {
    let md = MemoryDescriptor::new(vec![15], DataType::F32, FormatTag::A).unwrap();
    let md2 = md.clone_desc().unwrap();
    assert!(md.equal(&md2));
    assert!(md2.equal(&md));
}

#[test]
fn equal_distinguishes_layouts() {
    let a = MemoryDescriptor::new(vec![2, 3], DataType::F32, FormatTag::Ab).unwrap();
    let b = MemoryDescriptor::new(vec![3, 2], DataType::F32, FormatTag::Ab).unwrap();
    let c = MemoryDescriptor::new(vec![2, 3], DataType::F64, FormatTag::Ab).unwrap();
    assert!(!a.equal(&b));
    assert!(!a.equal(&c));
}

#[test]
fn blob_round_trips_exactly() {
    let md = MemoryDescriptor::new(vec![2, 3, 4], DataType::F32, FormatTag::Abc).unwrap();
    let blob = md.get_blob().unwrap();
    let back = MemoryDescriptor::new_from_blob(blob.as_slice()).unwrap();
    assert!(back.equal(&md));
    assert_eq!(back.query_dims(), vec![2, 3, 4]);
}

#[test]
fn blob_round_trips_large_extents() {
    let md = MemoryDescriptor::new(vec![1, 70000], DataType::U8, FormatTag::Ab).unwrap();
    let blob = md.get_blob().unwrap();
    let back = MemoryDescriptor::new_from_blob(blob.as_slice()).unwrap();
    assert!(back.equal(&md));
}

#[test]
fn from_blob_rejects_garbage() {
    assert_eq!(
        MemoryDescriptor::new_from_blob(&[]).err(),
        Some(DnnlError::InvalidArguments)
    );
    assert_eq!(
        MemoryDescriptor::new_from_blob(&[1, 2]).err(),
        Some(DnnlError::InvalidArguments)
    );
    assert_eq!(
        MemoryDescriptor::new_from_blob(&[9, 9, 9, 9]).err(),
        Some(DnnlError::InvalidArguments)
    );
}

#[test]
fn data_type_sizes_are_exact() {
    assert_eq!(data_type_size(DataType::F16), 2);
    assert_eq!(data_type_size(DataType::Bf16), 2);
    assert_eq!(data_type_size(DataType::F32), 4);
    assert_eq!(data_type_size(DataType::S32), 4);
    assert_eq!(data_type_size(DataType::S8), 1);
    assert_eq!(data_type_size(DataType::U8), 1);
    assert_eq!(data_type_size(DataType::F64), 8);
}
