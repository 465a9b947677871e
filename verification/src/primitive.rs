pub mod attributes;
pub mod descriptor;

use crate::engine::{engine_handle_clone, Engine};
use crate::error::DnnlError;
use crate::memory::Memory;
use crate::primitive::descriptor::PrimitiveDescriptor;
use crate::stream::Stream;
use std::sync::Arc;
use vstd::prelude::*;

verus! {

/// The two directions an operation can run in.
#[derive(Debug, Clone, Copy, PartialEq, Eq, Structural)]
pub enum DirectionT {
    Forward,
    Backward,
}

/// The propagation kind of an operation instance: the finer-grained mode
/// within a direction.
#[derive(Debug, Clone, Copy, PartialEq, Eq, Structural)]
pub enum PropKind {
    ForwardTraining,
    ForwardInference,
    Backward,
    BackwardData,
    BackwardWeights,
    BackwardBias,
}

/// The direction a propagation kind belongs to: the forward kinds pair only
/// with the forward direction, every other kind only with the backward one.
pub open spec fn spec_prop_direction(p: PropKind) -> DirectionT {
    match p {
        PropKind::ForwardTraining => DirectionT::Forward,
        PropKind::ForwardInference => DirectionT::Forward,
        PropKind::Backward => DirectionT::Backward,
        PropKind::BackwardData => DirectionT::Backward,
        PropKind::BackwardWeights => DirectionT::Backward,
        PropKind::BackwardBias => DirectionT::Backward,
    }
}

/// True when a propagation kind is one of the two forward kinds.
pub open spec fn spec_prop_is_forward(p: PropKind) -> bool {
    spec_prop_direction(p) == DirectionT::Forward
}

/// Marker for the forward direction.
#[derive(Debug, Clone, Copy)]
pub struct Forward;

impl Forward {
    /// The direction this marker denotes.
    pub fn direction(&self) -> (r: DirectionT)
        ensures
            r == DirectionT::Forward,
    {
        DirectionT::Forward
    }
}

/// Marker for the backward direction.
#[derive(Debug, Clone, Copy)]
pub struct Backward;

impl Backward {
    /// The direction this marker denotes.
    pub fn direction(&self) -> (r: DirectionT)
        ensures
            r == DirectionT::Backward,
    {
        DirectionT::Backward
    }
}

/// Marker for forward propagation in training mode.
#[derive(Debug, Clone, Copy)]
pub struct PropForwardTraining;

impl PropForwardTraining {
    /// The propagation kind this marker denotes.
    pub fn kind(&self) -> (r: PropKind)
        ensures
            r == PropKind::ForwardTraining,
            spec_prop_direction(r) == DirectionT::Forward,
    {
        PropKind::ForwardTraining
    }
}

/// Marker for forward propagation in inference mode.
#[derive(Debug, Clone, Copy)]
pub struct PropForwardInference;

impl PropForwardInference {
    /// The propagation kind this marker denotes.
    pub fn kind(&self) -> (r: PropKind)
        ensures
            r == PropKind::ForwardInference,
            spec_prop_direction(r) == DirectionT::Forward,
    {
        PropKind::ForwardInference
    }
}

/// Marker for backward propagation with respect to all parameters.
#[derive(Debug, Clone, Copy)]
pub struct PropBackward;

impl PropBackward {
    /// The propagation kind this marker denotes.
    pub fn kind(&self) -> (r: PropKind)
        ensures
            r == PropKind::Backward,
            spec_prop_direction(r) == DirectionT::Backward,
    {
        PropKind::Backward
    }
}

/// Marker for backward propagation with respect to the bias.
#[derive(Debug, Clone, Copy)]
pub struct PropBackwardBias;

impl PropBackwardBias {
    /// The propagation kind this marker denotes.
    pub fn kind(&self) -> (r: PropKind)
        ensures
            r == PropKind::BackwardBias,
            spec_prop_direction(r) == DirectionT::Backward,
    {
        PropKind::BackwardBias
    }
}

/// Marker for backward propagation with respect to the weights.
#[derive(Debug, Clone, Copy)]
pub struct PropBackwardWeights;

impl PropBackwardWeights {
    /// The propagation kind this marker denotes.
    pub fn kind(&self) -> (r: PropKind)
        ensures
            r == PropKind::BackwardWeights,
            spec_prop_direction(r) == DirectionT::Backward,
    {
        PropKind::BackwardWeights
    }
}

/// Marker for backward propagation with respect to the data.
#[derive(Debug, Clone, Copy)]
pub struct PropBackwardData;

impl PropBackwardData {
    /// The propagation kind this marker denotes.
    pub fn kind(&self) -> (r: PropKind)
        ensures
            r == PropKind::BackwardData,
            spec_prop_direction(r) == DirectionT::Backward,
    {
        PropKind::BackwardData
    }
}

/// Marker for an unspecified propagation kind; named for completeness, it
/// pairs with no operation.
#[derive(Debug, Clone, Copy)]
pub struct PropAny;

/// Kinds of operations the primitive pipeline knows about.
#[derive(Debug, Clone, Copy, PartialEq, Eq, Structural)]
pub enum OperationType {
    Augru,
    BatchNormalization,
    Binary,
    Concat,
    Convolution,
    Deconvolution,
    Eltwise,
    GroupNormalization,
    Gru,
    InnerProduct,
    LayerNormalization,
    LbrAuGru,
    Lrn,
    Lstm,
    MatMul,
    PRelu,
    Reduction,
    Shuffle,
    Softmax,
    VanillaRnn,
}

/// Argument slot for the first source tensor.
pub const ARG_SRC_0: i32 = 1;

/// Argument slot for the second source tensor.
pub const ARG_SRC_1: i32 = 2;

/// Argument slot for the destination tensor.
pub const ARG_DST: i32 = 17;

/// Argument slot for the weights tensor.
pub const ARG_WEIGHTS: i32 = 33;

/// Argument slot for the bias tensor.
pub const ARG_BIAS: i32 = 41;

/// Argument slot for the gradient of the source tensor.
pub const ARG_DIFF_SRC: i32 = 129;

/// Argument slot for the gradient of the destination tensor.
pub const ARG_DIFF_DST: i32 = 145;

/// Argument slot for the gradient of the weights tensor.
pub const ARG_DIFF_WEIGHTS: i32 = 161;

/// Argument slot for the gradient of the bias tensor.
pub const ARG_DIFF_BIAS: i32 = 169;

/// One execution argument: a slot index paired with the bound memory that
/// fills it. The memory is owned for the duration of the call and handed
/// back by [`Primitive::execute`].
#[derive(Debug)]
pub struct ExecArg {
    pub index: i32,
    pub mem: Memory,
}

/// Number of arguments in the list that carry the given slot index.
pub open spec fn spec_slot_count(args: Seq<ExecArg>, idx: i32) -> int
    decreases args.len(),
{
    if args.len() == 0 {
        0
    } else {
        (if args[0].index == idx {
            1int
        } else {
            0int
        }) + spec_slot_count(args.skip(1), idx)
    }
}

/// Counting one more argument extends the count by its contribution.
pub proof fn lemma_slot_count_take_step(args: Seq<ExecArg>, idx: i32, k: int)
    requires
        0 <= k < args.len(),
    ensures
        spec_slot_count(args.take(k + 1), idx) == spec_slot_count(args.take(k), idx) + (
        if args[k].index == idx {
            1int
        } else {
            0int
        }),
    decreases k,
{
    if k == 0 {
        assert(args.take(1).skip(1) =~= Seq::<ExecArg>::empty());
        assert(args.take(0) =~= Seq::<ExecArg>::empty());
        assert(args.take(1)[0] == args[0]);
    } else {
        lemma_slot_count_take_step(args.skip(1), idx, k - 1);
        assert(args.take(k + 1).skip(1) =~= args.skip(1).take(k));
        assert(args.take(k).skip(1) =~= args.skip(1).take(k - 1));
        assert(args.take(k + 1)[0] == args[0]);
        assert(args.take(k)[0] == args[0]);
        assert(args.skip(1)[k - 1] == args[k]);
    }
}

/// A slot that appears at some position is counted at least once.
pub proof fn lemma_slot_count_at(args: Seq<ExecArg>, idx: i32, p: int)
    requires
        0 <= p < args.len(),
        args[p].index == idx,
    ensures
        spec_slot_count(args, idx) >= 1,
    decreases args.len(),
{
    lemma_slot_count_nonneg(args.skip(1), idx);
    if p > 0 {
        lemma_slot_count_at(args.skip(1), idx, p - 1);
    }
}

/// A slot count is never negative.
pub proof fn lemma_slot_count_nonneg(args: Seq<ExecArg>, idx: i32)
    ensures
        spec_slot_count(args, idx) >= 0,
    decreases args.len(),
{
    if args.len() > 0 {
        lemma_slot_count_nonneg(args.skip(1), idx);
    }
}

/// A slot that appears nowhere is counted zero times.
pub proof fn lemma_slot_count_zero(args: Seq<ExecArg>, idx: i32)
    requires
        forall|j: int| 0 <= j < args.len() ==> (#[trigger] args[j]).index != idx,
    ensures
        spec_slot_count(args, idx) == 0,
    decreases args.len(),
{
    if args.len() > 0 {
        assert(forall|j: int|
            0 <= j < args.skip(1).len() ==> (#[trigger] args.skip(1)[j]).index != idx);
        lemma_slot_count_zero(args.skip(1), idx);
    }
}

/// With a slot counted exactly once, two positions carrying it coincide.
pub proof fn lemma_slot_count_unique(args: Seq<ExecArg>, idx: i32, a: int, b: int)
    requires
        spec_slot_count(args, idx) <= 1,
        0 <= a < args.len(),
        0 <= b < args.len(),
        args[a].index == idx,
        args[b].index == idx,
    ensures
        a == b,
    decreases args.len(),
{
    if a != b {
        if a == 0 || b == 0 {
            let q = if a == 0 {
                b
            } else {
                a
            };
            lemma_slot_count_at(args.skip(1), idx, q - 1);
        } else {
            lemma_slot_count_nonneg(args.skip(1), idx);
            lemma_slot_count_unique(args.skip(1), idx, a - 1, b - 1);
        }
    }
}

/// Position of the first argument with the given slot index.
pub fn find_arg(args: &Vec<ExecArg>, idx: i32) -> (r: Option<usize>)
    ensures
        match r {
            Some(p) => p < args@.len() && args@[p as int].index == idx,
            None => forall|j: int|
                0 <= j < args@.len() ==> (#[trigger] args@[j]).index != idx,
        },
{
    let mut i: usize = 0;
    while i < args.len()
        invariant
            i <= args@.len(),
            forall|j: int| 0 <= j < i ==> (#[trigger] args@[j]).index != idx,
        decreases args.len() - i,
    {
        if args[i].index == idx {
            return Some(i);
        }
        i = i + 1;
    }
    None
}

/// A well-formed argument list for a plan.
pub open spec fn spec_plan_args_ok(plan: &descriptor::PrimitivePlan, args: Seq<ExecArg>) -> bool {
    match plan {
        descriptor::PrimitivePlan::Binary(c) => crate::primitives::binary::spec_binary_args_ok(
            c,
            args,
        ),
        descriptor::PrimitivePlan::EltwiseForward(c)
            => crate::primitives::eltwise::spec_eltwise_args_ok(c, args),
        descriptor::PrimitivePlan::EltwiseBackward(c)
            => crate::primitives::eltwise::spec_eltwise_bwd_args_ok(c, args),
        descriptor::PrimitivePlan::MatMul(c)
            => crate::primitives::matmul::spec_matmul_args_ok(c, args),
        descriptor::PrimitivePlan::InnerProductForward(c)
            => crate::primitives::inner_product::spec_ip_fwd_args_ok(c, args),
        descriptor::PrimitivePlan::InnerProductBackwardData(c)
            => crate::primitives::inner_product::spec_ip_bwd_data_args_ok(c, args),
        descriptor::PrimitivePlan::InnerProductBackwardWeights(c)
            => crate::primitives::inner_product::spec_ip_bwd_wts_args_ok(c, args),
        descriptor::PrimitivePlan::Reduction(c)
            => crate::primitives::reduction::spec_reduction_args_ok(c, args),
        descriptor::PrimitivePlan::Prelu(c)
            => crate::primitives::prelu::spec_prelu_args_ok(c, args),
    }
}

/// True when every result of running a plan over the argument list fits
/// the cell type.
pub open spec fn spec_plan_args_fits(plan: &descriptor::PrimitivePlan, args: Seq<ExecArg>) -> bool {
    match plan {
        descriptor::PrimitivePlan::Binary(c) => crate::primitives::binary::spec_binary_args_fits(
            c,
            args,
        ),
        descriptor::PrimitivePlan::EltwiseForward(c)
            => crate::primitives::eltwise::spec_eltwise_args_fits(c, args),
        descriptor::PrimitivePlan::EltwiseBackward(c)
            => crate::primitives::eltwise::spec_eltwise_bwd_args_fits(c, args),
        descriptor::PrimitivePlan::MatMul(c)
            => crate::primitives::matmul::spec_matmul_args_fits(c, args),
        descriptor::PrimitivePlan::InnerProductForward(c)
            => crate::primitives::inner_product::spec_ip_fwd_args_fits(c, args),
        descriptor::PrimitivePlan::InnerProductBackwardData(c)
            => crate::primitives::inner_product::spec_ip_bwd_data_args_fits(c, args),
        descriptor::PrimitivePlan::InnerProductBackwardWeights(c)
            => crate::primitives::inner_product::spec_ip_bwd_wts_args_fits(c, args),
        descriptor::PrimitivePlan::Reduction(c)
            => crate::primitives::reduction::spec_reduction_args_fits(c, args),
        descriptor::PrimitivePlan::Prelu(c)
            => crate::primitives::prelu::spec_prelu_args_fits(c, args),
    }
}

/// Result of running a plan over an argument list: the destination slots
/// hold the operation's result, everything else is unchanged.
pub open spec fn spec_plan_post(
    plan: &descriptor::PrimitivePlan,
    args: Seq<ExecArg>,
    out: Seq<ExecArg>,
) -> bool {
    match plan {
        descriptor::PrimitivePlan::Binary(c) => crate::primitives::binary::spec_binary_post(
            c,
            args,
            out,
        ),
        descriptor::PrimitivePlan::EltwiseForward(c)
            => crate::primitives::eltwise::spec_eltwise_post(c, args, out),
        descriptor::PrimitivePlan::EltwiseBackward(c)
            => crate::primitives::eltwise::spec_eltwise_bwd_post(c, args, out),
        descriptor::PrimitivePlan::MatMul(c)
            => crate::primitives::matmul::spec_matmul_post(c, args, out),
        descriptor::PrimitivePlan::InnerProductForward(c)
            => crate::primitives::inner_product::spec_ip_fwd_post(c, args, out),
        descriptor::PrimitivePlan::InnerProductBackwardData(c)
            => crate::primitives::inner_product::spec_ip_bwd_data_post(c, args, out),
        descriptor::PrimitivePlan::InnerProductBackwardWeights(c)
            => crate::primitives::inner_product::spec_ip_bwd_wts_post(c, args, out),
        descriptor::PrimitivePlan::Reduction(c)
            => crate::primitives::reduction::spec_reduction_post(c, args, out),
        descriptor::PrimitivePlan::Prelu(c)
            => crate::primitives::prelu::spec_prelu_post(c, args, out),
    }
}

/// An executable instance of a validated plan.
///
/// Execution is stateless across calls; the primitive shares ownership of
/// its engine, so the engine outlives it structurally.
#[derive(Debug)]
pub struct Primitive {
    pub desc: PrimitiveDescriptor,
    pub engine: Arc<Engine>,
}

impl Primitive {
    /// Wraps a validated plan into an executable instance.
    pub fn from_descriptor(desc: PrimitiveDescriptor, engine: Arc<Engine>) -> (r: Result<
        Primitive,
        DnnlError,
    >)
        ensures
            r matches Ok(p) && p.desc == desc && *p.engine == *engine,
    {
        Ok(Primitive { desc, engine })
    }

    /// Runs the plan over a set of slot-indexed arguments and a stream,
    /// handing every argument back.
    ///
    /// The call succeeds exactly when the stream belongs to this
    /// primitive's engine, the argument list carries exactly the slots the
    /// plan expects — each bound to storage under the descriptor the plan
    /// was built with — and every result fits the cell type. A slot or
    /// shape mismatch is invalid arguments; a result out of range is a
    /// runtime error. On failure the arguments are released rather than
    /// handed back.
    pub fn execute(&self, stream: &Stream, args: Vec<ExecArg>) -> (r: Result<
        Vec<ExecArg>,
        DnnlError,
    >)
        ensures
            r is Ok <==> (*stream.engine == *self.engine && spec_plan_args_ok(
                &self.desc.spec_plan(),
                args@,
            ) && spec_plan_args_fits(&self.desc.spec_plan(), args@)),
            !(*stream.engine == *self.engine && spec_plan_args_ok(&self.desc.spec_plan(), args@))
                ==> r == Err::<Vec<ExecArg>, DnnlError>(DnnlError::InvalidArguments),
            (*stream.engine == *self.engine && spec_plan_args_ok(&self.desc.spec_plan(), args@)
                && !spec_plan_args_fits(&self.desc.spec_plan(), args@)) ==> r == Err::<
                Vec<ExecArg>,
                DnnlError,
            >(DnnlError::RuntimeError),
            r matches Ok(out) ==> spec_plan_post(&self.desc.spec_plan(), args@, out@),
    {
        proof {
            use_type_invariant(&self.desc);
        }
        let stream_engine = crate::engine::engine_ref(&stream.engine);
        let own_engine = crate::engine::engine_ref(&self.engine);
        if !(stream_engine == own_engine) {
            return Err(DnnlError::InvalidArguments);
        }
        match self.desc.plan_ref() {
            descriptor::PrimitivePlan::Binary(c) => crate::primitives::binary::binary_execute(
                c,
                args,
            ),
            descriptor::PrimitivePlan::EltwiseForward(c)
                => crate::primitives::eltwise::eltwise_execute(c, args),
            descriptor::PrimitivePlan::EltwiseBackward(c)
                => crate::primitives::eltwise::eltwise_bwd_execute(c, args),
            descriptor::PrimitivePlan::MatMul(c)
                => crate::primitives::matmul::matmul_execute(c, args),
            descriptor::PrimitivePlan::InnerProductForward(c)
                => crate::primitives::inner_product::ip_fwd_execute(c, args),
            descriptor::PrimitivePlan::InnerProductBackwardData(c)
                => crate::primitives::inner_product::ip_bwd_data_execute(c, args),
            descriptor::PrimitivePlan::InnerProductBackwardWeights(c)
                => crate::primitives::inner_product::ip_bwd_weights_execute(c, args),
            descriptor::PrimitivePlan::Reduction(c)
                => crate::primitives::reduction::reduction_execute(c, args),
            descriptor::PrimitivePlan::Prelu(c)
                => crate::primitives::prelu::prelu_execute(c, args),
        }
    }

    /// A new shared handle to this primitive's engine.
    pub fn get_engine(&self) -> (r: Arc<Engine>)
        ensures
            *r == *self.engine,
    {
        engine_handle_clone(&self.engine)
    }
}

/// Number of arguments carrying the given slot index.
pub fn count_arg(args: &Vec<ExecArg>, idx: i32) -> (r: usize)
    ensures
        r == spec_slot_count(args@, idx),
{
    proof {
        assert(args@.take(0) =~= Seq::<ExecArg>::empty());
    }
    let mut count: usize = 0;
    let mut i: usize = 0;
    while i < args.len()
        invariant
            i <= args@.len(),
            count == spec_slot_count(args@.take(i as int), idx),
            count <= i,
        decreases args.len() - i,
    {
        proof {
            lemma_slot_count_take_step(args@, idx, i as int);
        }
        if args[i].index == idx {
            count = count + 1;
        }
        i = i + 1;
    }
    proof {
        assert(args@.take(args@.len() as int) =~= args@);
    }
    count
}

} // verus!
