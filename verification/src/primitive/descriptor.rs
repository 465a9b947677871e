use crate::engine::{engine_handle_clone, Engine};
use crate::primitive::{OperationType, PropKind};
use crate::primitives::binary::{spec_binary_valid, ForwardBinaryConfig};
use crate::primitives::eltwise::{
    spec_eltwise_bwd_valid, spec_eltwise_valid, BackwardEltwiseConfig, ForwardEltwiseConfig,
};
use crate::primitives::inner_product::{
    spec_ip_bwd_data_valid, spec_ip_bwd_wts_valid, spec_ip_fwd_valid,
    BackwardDataInnerProductConfig, BackwardWeightsInnerProductConfig, ForwardInnerProductConfig,
};
use crate::primitives::matmul::{spec_matmul_valid, ForwardMatMulConfig};
use crate::primitives::prelu::{spec_prelu_valid, ForwardPreluConfig};
use crate::primitives::reduction::{spec_reduction_valid, ForwardReductionConfig};
use std::sync::Arc;
use vstd::prelude::*;

verus! {

/// A validated execution plan: one variant per operation family, each
/// owning the configuration it was built from, so the configuration's
/// descriptors stay alive as long as the plan references them.
#[derive(Debug)]
pub enum PrimitivePlan {
    Binary(ForwardBinaryConfig),
    EltwiseForward(ForwardEltwiseConfig),
    EltwiseBackward(BackwardEltwiseConfig),
    MatMul(ForwardMatMulConfig),
    InnerProductForward(ForwardInnerProductConfig),
    InnerProductBackwardData(BackwardDataInnerProductConfig),
    InnerProductBackwardWeights(BackwardWeightsInnerProductConfig),
    Reduction(ForwardReductionConfig),
    Prelu(ForwardPreluConfig),
}

/// Validity of a plan for a propagation kind: the configuration's shape,
/// data type and algorithm rules hold and the kind is one the operation
/// pairs with.
pub open spec fn spec_plan_valid(plan: &PrimitivePlan, prop: PropKind) -> bool {
    match plan {
        PrimitivePlan::Binary(c) => spec_binary_valid(c) && prop == PropKind::ForwardInference,
        PrimitivePlan::EltwiseForward(c) => spec_eltwise_valid(c)
            && crate::primitive::spec_prop_is_forward(prop),
        PrimitivePlan::EltwiseBackward(c) => spec_eltwise_bwd_valid(c) && prop
            == PropKind::Backward,
        PrimitivePlan::MatMul(c) => spec_matmul_valid(c)
            && crate::primitive::spec_prop_is_forward(prop),
        PrimitivePlan::InnerProductForward(c) => spec_ip_fwd_valid(c)
            && crate::primitive::spec_prop_is_forward(prop),
        PrimitivePlan::InnerProductBackwardData(c) => spec_ip_bwd_data_valid(c) && prop
            == PropKind::BackwardData,
        PrimitivePlan::InnerProductBackwardWeights(c) => spec_ip_bwd_wts_valid(c) && prop
            == PropKind::BackwardWeights,
        PrimitivePlan::Reduction(c) => spec_reduction_valid(c) && prop
            == PropKind::ForwardInference,
        PrimitivePlan::Prelu(c) => spec_prelu_valid(c) && crate::primitive::spec_prop_is_forward(
            prop,
        ),
    }
}

/// Operation family a plan belongs to.
pub open spec fn spec_plan_op_type(plan: &PrimitivePlan) -> OperationType {
    match plan {
        PrimitivePlan::Binary(_) => OperationType::Binary,
        PrimitivePlan::EltwiseForward(_) => OperationType::Eltwise,
        PrimitivePlan::EltwiseBackward(_) => OperationType::Eltwise,
        PrimitivePlan::MatMul(_) => OperationType::MatMul,
        PrimitivePlan::InnerProductForward(_) => OperationType::InnerProduct,
        PrimitivePlan::InnerProductBackwardData(_) => OperationType::InnerProduct,
        PrimitivePlan::InnerProductBackwardWeights(_) => OperationType::InnerProduct,
        PrimitivePlan::Reduction(_) => OperationType::Reduction,
        PrimitivePlan::Prelu(_) => OperationType::PRelu,
    }
}

/// A validated, immutable execution plan bound to the engine it was
/// validated against.
///
/// A descriptor only comes out of a configuration's validation, so every
/// descriptor that exists carries a valid plan.
#[derive(Debug)]
pub struct PrimitiveDescriptor {
    plan: PrimitivePlan,
    prop: PropKind,
    engine: Arc<Engine>,
}

impl PrimitiveDescriptor {
    /// Plan validity, carried by every descriptor.
    #[verifier::type_invariant]
    pub open spec fn wf(&self) -> bool {
        spec_plan_valid(&self.spec_plan(), self.spec_prop())
    }

    /// Spec-level plan.
    pub closed spec fn spec_plan(&self) -> PrimitivePlan {
        self.plan
    }

    /// Spec-level propagation kind.
    pub closed spec fn spec_prop(&self) -> PropKind {
        self.prop
    }

    /// Spec-level engine.
    pub closed spec fn spec_engine(&self) -> Engine {
        *self.engine
    }

    /// Packages a validated plan; only configurations call this.
    pub(crate) fn make(plan: PrimitivePlan, prop: PropKind, engine: Arc<Engine>) -> (r:
        PrimitiveDescriptor)
        requires
            spec_plan_valid(&plan, prop),
        ensures
            r.spec_plan() == plan,
            r.spec_prop() == prop,
            r.spec_engine() == *engine,
    {
        PrimitiveDescriptor { plan, prop, engine }
    }

    /// Borrows the plan; only the execution path reads it.
    pub(crate) fn plan_ref(&self) -> (r: &PrimitivePlan)
        ensures
            *r == self.spec_plan(),
    {
        &self.plan
    }

    /// The propagation kind this plan was validated for.
    pub fn prop_kind(&self) -> (r: PropKind)
        ensures
            r == self.spec_prop(),
    {
        self.prop
    }

    /// The operation family of this plan.
    pub fn op_type(&self) -> (r: OperationType)
        ensures
            r == spec_plan_op_type(&self.spec_plan()),
    {
        match &self.plan {
            PrimitivePlan::Binary(_) => OperationType::Binary,
            PrimitivePlan::EltwiseForward(_) => OperationType::Eltwise,
            PrimitivePlan::EltwiseBackward(_) => OperationType::Eltwise,
            PrimitivePlan::MatMul(_) => OperationType::MatMul,
            PrimitivePlan::InnerProductForward(_) => OperationType::InnerProduct,
            PrimitivePlan::InnerProductBackwardData(_) => OperationType::InnerProduct,
            PrimitivePlan::InnerProductBackwardWeights(_) => OperationType::InnerProduct,
            PrimitivePlan::Reduction(_) => OperationType::Reduction,
            PrimitivePlan::Prelu(_) => OperationType::PRelu,
        }
    }

    /// A new shared handle to the engine this plan was validated against.
    pub fn get_engine(&self) -> (r: Arc<Engine>)
        ensures
            *r == self.spec_engine(),
    {
        engine_handle_clone(&self.engine)
    }
}

} // verus!
