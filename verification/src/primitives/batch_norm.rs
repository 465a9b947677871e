use crate::engine::Engine;
use crate::error::DnnlError;
use crate::memory::descriptor::MemoryDescriptor;
use crate::primitive::attributes::PrimitiveAttributes;
use crate::primitive::descriptor::PrimitiveDescriptor;
use crate::primitive::{OperationType, PropKind};
use std::sync::Arc;
use vstd::prelude::*;

verus! {

/// Configuration of a forward batch normalization.
///
/// Normalization divides by a variance root, which has no exact meaning
/// over the integer cell type, so this configuration validates but never
/// yields an executable plan. The epsilon is carried as a plain cell value.
#[derive(Debug)]
pub struct ForwardBatchNormConfig {
    pub src_desc: MemoryDescriptor,
    pub dst_desc: MemoryDescriptor,
    pub epsilon: i64,
    pub flags: u32,
    pub attr: PrimitiveAttributes,
}

/// Source and destination share one data type.
pub open spec fn spec_batch_norm_dtype_ok(c: &ForwardBatchNormConfig) -> bool {
    c.src_desc.spec_data_type() == c.dst_desc.spec_data_type()
}

/// Source and destination share one shape.
pub open spec fn spec_batch_norm_shape_ok(c: &ForwardBatchNormConfig) -> bool {
    c.src_desc.spec_dims() == c.dst_desc.spec_dims()
}

impl ForwardBatchNormConfig {
    /// Validates this configuration against an engine.
    ///
    /// The operation pairs with the two forward propagation kinds only. A
    /// mixed data type is rejected as invalid data type and a shape
    /// mismatch as invalid shape; a configuration that passes both checks
    /// is still reported as unsupported, since normalization has no exact
    /// meaning over the integer cell type.
    pub fn create_primitive_desc(self, engine: Arc<Engine>, prop: PropKind) -> (r: Result<
        PrimitiveDescriptor,
        DnnlError,
    >)
        ensures
            !crate::primitive::spec_prop_is_forward(prop) ==> r == Err::<
                PrimitiveDescriptor,
                DnnlError,
            >(DnnlError::Unsupported),
            crate::primitive::spec_prop_is_forward(prop) && !spec_batch_norm_dtype_ok(&self) ==> r
                == Err::<PrimitiveDescriptor, DnnlError>(DnnlError::InvalidDataType),
            crate::primitive::spec_prop_is_forward(prop) && spec_batch_norm_dtype_ok(&self)
                && !spec_batch_norm_shape_ok(&self) ==> r == Err::<PrimitiveDescriptor, DnnlError>(
                DnnlError::InvalidShape,
            ),
            crate::primitive::spec_prop_is_forward(prop) && spec_batch_norm_dtype_ok(&self)
                && spec_batch_norm_shape_ok(&self) ==> r == Err::<PrimitiveDescriptor, DnnlError>(
                DnnlError::Unsupported,
            ),
            r is Err,
    {
        if !matches!(prop, PropKind::ForwardTraining | PropKind::ForwardInference) {
            return Err(DnnlError::Unsupported);
        }
        if !(self.src_desc.query_data_type() == self.dst_desc.query_data_type()) {
            return Err(DnnlError::InvalidDataType);
        }
        if !self.src_desc.same_dims(&self.dst_desc) {
            return Err(DnnlError::InvalidShape);
        }
        Err(DnnlError::Unsupported)
    }
}

/// Marker for the forward batch-normalization operation.
#[derive(Debug, Clone, Copy)]
pub struct ForwardBatchNorm;

impl ForwardBatchNorm {
    /// The operation kind this marker denotes.
    pub fn op_type(&self) -> (r: OperationType)
        ensures
            r == OperationType::BatchNormalization,
    {
        OperationType::BatchNormalization
    }
}

} // verus!
