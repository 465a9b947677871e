use crate::engine::Engine;
use crate::error::DnnlError;
use crate::memory::descriptor::MemoryDescriptor;
use crate::primitive::attributes::PrimitiveAttributes;
use crate::primitive::descriptor::PrimitiveDescriptor;
use crate::primitive::{OperationType, PropKind};
use std::sync::Arc;
use vstd::prelude::*;

verus! {

/// Direction a recurrent cell walks the time axis in.
#[derive(Debug, Clone, Copy, PartialEq, Eq, Structural)]
pub enum RnnDirection {
    UnidirectionalLeftToRight,
    UnidirectionalRightToLeft,
    Bidirectional,
}

/// Configuration of a forward attention-gated recurrent unit.
///
/// The cell's gates run through saturating nonlinearities, which have no
/// exact meaning over the integer cell type, so this configuration
/// validates its tensor ranks but never yields an executable plan.
#[derive(Debug)]
pub struct ForwardAuGruConfig {
    pub direction: RnnDirection,
    pub src_layer_desc: MemoryDescriptor,
    pub src_iter_desc: MemoryDescriptor,
    pub attention_desc: MemoryDescriptor,
    pub weights_layer_desc: MemoryDescriptor,
    pub weights_iter_desc: MemoryDescriptor,
    pub bias_desc: MemoryDescriptor,
    pub dst_layer_desc: MemoryDescriptor,
    pub dst_iter_desc: MemoryDescriptor,
    pub flags: u32,
    pub attr: PrimitiveAttributes,
}

/// The tensor ranks a recurrent cell expects: three-dimensional layer data
/// and attention, four-dimensional iteration state and bias,
/// five-dimensional weights.
pub open spec fn spec_augru_rank_ok(c: &ForwardAuGruConfig) -> bool {
    &&& c.src_layer_desc.spec_dims().len() == 3
    &&& c.src_iter_desc.spec_dims().len() == 4
    &&& c.attention_desc.spec_dims().len() == 3
    &&& c.weights_layer_desc.spec_dims().len() == 5
    &&& c.weights_iter_desc.spec_dims().len() == 5
    &&& c.bias_desc.spec_dims().len() == 4
    &&& c.dst_layer_desc.spec_dims().len() == 3
    &&& c.dst_iter_desc.spec_dims().len() == 4
}

impl ForwardAuGruConfig {
    /// Validates this configuration against an engine.
    ///
    /// The operation pairs with the two forward propagation kinds only. A
    /// tensor of the wrong rank is rejected as invalid shape; a
    /// configuration of the right ranks is still reported as unsupported,
    /// since the recurrent cell has no exact meaning over the integer cell
    /// type.
    pub fn create_primitive_desc(self, engine: Arc<Engine>, prop: PropKind) -> (r: Result<
        PrimitiveDescriptor,
        DnnlError,
    >)
        ensures
            !crate::primitive::spec_prop_is_forward(prop) ==> r == Err::<
                PrimitiveDescriptor,
                DnnlError,
            >(DnnlError::Unsupported),
            crate::primitive::spec_prop_is_forward(prop) && !spec_augru_rank_ok(&self) ==> r
                == Err::<PrimitiveDescriptor, DnnlError>(DnnlError::InvalidShape),
            crate::primitive::spec_prop_is_forward(prop) && spec_augru_rank_ok(&self) ==> r
                == Err::<PrimitiveDescriptor, DnnlError>(DnnlError::Unsupported),
            r is Err,
    {
        if !matches!(prop, PropKind::ForwardTraining | PropKind::ForwardInference) {
            return Err(DnnlError::Unsupported);
        }
        let rank_ok = self.src_layer_desc.query_ndims() == 3 && self.src_iter_desc.query_ndims()
            == 4 && self.attention_desc.query_ndims() == 3 && self.weights_layer_desc.query_ndims()
            == 5 && self.weights_iter_desc.query_ndims() == 5 && self.bias_desc.query_ndims() == 4
            && self.dst_layer_desc.query_ndims() == 3 && self.dst_iter_desc.query_ndims() == 4;
        if !rank_ok {
            return Err(DnnlError::InvalidShape);
        }
        Err(DnnlError::Unsupported)
    }
}

/// Configuration of a backward attention-gated recurrent unit.
///
/// Like the forward cell, it validates its tensor ranks but never yields an
/// executable plan.
#[derive(Debug)]
pub struct BackwardAuGruConfig {
    pub direction: RnnDirection,
    pub src_layer_desc: MemoryDescriptor,
    pub src_iter_desc: MemoryDescriptor,
    pub attention_desc: MemoryDescriptor,
    pub weights_layer_desc: MemoryDescriptor,
    pub weights_iter_desc: MemoryDescriptor,
    pub bias_desc: MemoryDescriptor,
    pub dst_layer_desc: MemoryDescriptor,
    pub dst_iter_desc: MemoryDescriptor,
    pub diff_src_layer_desc: MemoryDescriptor,
    pub diff_src_iter_desc: MemoryDescriptor,
    pub diff_attention_desc: MemoryDescriptor,
    pub diff_weights_layer_desc: MemoryDescriptor,
    pub diff_weights_iter_desc: MemoryDescriptor,
    pub diff_bias_desc: MemoryDescriptor,
    pub diff_dst_layer_desc: MemoryDescriptor,
    pub diff_dst_iter_desc: MemoryDescriptor,
    pub flags: u32,
    pub attr: PrimitiveAttributes,
}

/// Each gradient tensor has the rank of the tensor it differentiates.
pub open spec fn spec_augru_bwd_rank_ok(c: &BackwardAuGruConfig) -> bool {
    &&& c.src_layer_desc.spec_dims().len() == 3
    &&& c.src_iter_desc.spec_dims().len() == 4
    &&& c.attention_desc.spec_dims().len() == 3
    &&& c.weights_layer_desc.spec_dims().len() == 5
    &&& c.weights_iter_desc.spec_dims().len() == 5
    &&& c.bias_desc.spec_dims().len() == 4
    &&& c.dst_layer_desc.spec_dims().len() == 3
    &&& c.dst_iter_desc.spec_dims().len() == 4
    &&& c.diff_src_layer_desc.spec_dims() == c.src_layer_desc.spec_dims()
    &&& c.diff_src_iter_desc.spec_dims() == c.src_iter_desc.spec_dims()
    &&& c.diff_attention_desc.spec_dims() == c.attention_desc.spec_dims()
    &&& c.diff_weights_layer_desc.spec_dims() == c.weights_layer_desc.spec_dims()
    &&& c.diff_weights_iter_desc.spec_dims() == c.weights_iter_desc.spec_dims()
    &&& c.diff_bias_desc.spec_dims() == c.bias_desc.spec_dims()
    &&& c.diff_dst_layer_desc.spec_dims() == c.dst_layer_desc.spec_dims()
    &&& c.diff_dst_iter_desc.spec_dims() == c.dst_iter_desc.spec_dims()
}

impl BackwardAuGruConfig {
    /// Validates this configuration against an engine and a forward hint.
    ///
    /// Only the backward propagation kinds pair with this operation. A
    /// tensor of the wrong rank, or a gradient tensor not shaped like the
    /// tensor it differentiates, is rejected as invalid shape; a
    /// configuration that passes is still reported as unsupported, since
    /// the recurrent cell has no exact meaning over the integer cell type
    /// and no forward plan can exist to differentiate.
    pub fn create_primitive_desc(
        self,
        engine: Arc<Engine>,
        prop: PropKind,
        hint: &PrimitiveDescriptor,
    ) -> (r: Result<PrimitiveDescriptor, DnnlError>)
        ensures
            crate::primitive::spec_prop_is_forward(prop) ==> r == Err::<
                PrimitiveDescriptor,
                DnnlError,
            >(DnnlError::Unsupported),
            !crate::primitive::spec_prop_is_forward(prop) && !spec_augru_bwd_rank_ok(&self) ==> r
                == Err::<PrimitiveDescriptor, DnnlError>(DnnlError::InvalidShape),
            !crate::primitive::spec_prop_is_forward(prop) && spec_augru_bwd_rank_ok(&self) ==> r
                == Err::<PrimitiveDescriptor, DnnlError>(DnnlError::Unsupported),
            r is Err,
    {
        if matches!(prop, PropKind::ForwardTraining | PropKind::ForwardInference) {
            return Err(DnnlError::Unsupported);
        }
        let rank_ok = self.src_layer_desc.query_ndims() == 3 && self.src_iter_desc.query_ndims()
            == 4 && self.attention_desc.query_ndims() == 3 && self.weights_layer_desc.query_ndims()
            == 5 && self.weights_iter_desc.query_ndims() == 5 && self.bias_desc.query_ndims() == 4
            && self.dst_layer_desc.query_ndims() == 3 && self.dst_iter_desc.query_ndims() == 4
            && self.diff_src_layer_desc.same_dims(&self.src_layer_desc)
            && self.diff_src_iter_desc.same_dims(&self.src_iter_desc)
            && self.diff_attention_desc.same_dims(&self.attention_desc)
            && self.diff_weights_layer_desc.same_dims(&self.weights_layer_desc)
            && self.diff_weights_iter_desc.same_dims(&self.weights_iter_desc)
            && self.diff_bias_desc.same_dims(&self.bias_desc) && self.diff_dst_layer_desc.same_dims(
            &self.dst_layer_desc,
        ) && self.diff_dst_iter_desc.same_dims(&self.dst_iter_desc);
        if !rank_ok {
            return Err(DnnlError::InvalidShape);
        }
        Err(DnnlError::Unsupported)
    }
}

/// Marker for the forward attention-gated recurrent unit.
#[derive(Debug, Clone, Copy)]
pub struct ForwardAuGru;

impl ForwardAuGru {
    /// The operation kind this marker denotes.
    pub fn op_type(&self) -> (r: OperationType)
        ensures
            r == OperationType::Augru,
    {
        OperationType::Augru
    }
}

/// Marker for the backward attention-gated recurrent unit.
#[derive(Debug, Clone, Copy)]
pub struct BackwardAuGru;

impl BackwardAuGru {
    /// The operation kind this marker denotes.
    pub fn op_type(&self) -> (r: OperationType)
        ensures
            r == OperationType::Augru,
    {
        OperationType::Augru
    }
}

} // verus!
