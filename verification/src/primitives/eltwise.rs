use crate::engine::Engine;
use crate::error::DnnlError;
use crate::memory::descriptor::MemoryDescriptor;
use crate::primitive::attributes::PrimitiveAttributes;
use crate::primitive::descriptor::{PrimitiveDescriptor, PrimitivePlan};
use crate::primitive::{
    find_arg, lemma_slot_count_unique, lemma_slot_count_zero, spec_slot_count, ExecArg,
    OperationType, PropKind, ARG_DIFF_DST, ARG_DIFF_SRC, ARG_DST, ARG_SRC_0,
};
use std::sync::Arc;
use vstd::prelude::*;

verus! {

/// The elementwise unary algorithms.
#[derive(Debug, Clone, Copy, PartialEq, Eq, Structural)]
pub enum Unary {
    Abs,
    Clip,
    ClipV2,
    ClipV2UseDstForBwd,
    Elu,
    EluUseDstForBwd,
    Exp,
    ExpUseDstForBwd,
    GeluErf,
    GeluTanh,
    Hardsigmoid,
    Hardswish,
    Linear,
    Log,
    Logistic,
    LogisticUseDstForBwd,
    Mish,
    Pow,
    Relu,
    ReluUseDstForBwd,
    Round,
    SoftRelu,
    Sqrt,
    SqrtUseDstForBwd,
    Square,
    Swish,
    Tanh,
    TanhUseDstForBwd,
}

/// The unary algorithms this library executes: those whose forward and
/// backward results are exact over the integer cell type.
pub open spec fn spec_unary_alg_supported(alg: Unary) -> bool {
    alg is Abs || alg is Linear || alg is Relu || alg is Square
}

/// True when a unary algorithm is executable here.
pub fn unary_alg_supported(alg: Unary) -> (r: bool)
    ensures
        r == spec_unary_alg_supported(alg),
{
    matches!(alg, Unary::Abs | Unary::Linear | Unary::Relu | Unary::Square)
}

/// Mathematical value of one forward elementwise application.
///
/// The rectifier carries `alpha` as the slope left of zero, the linear
/// algorithm computes `alpha * x + beta`.
pub open spec fn spec_unary_val(alg: Unary, alpha: i64, beta: i64, x: i64) -> int {
    match alg {
        Unary::Relu => if x > 0 {
            x as int
        } else {
            alpha * x
        },
        Unary::Abs => if x >= 0 {
            x as int
        } else {
            -(x as int)
        },
        Unary::Linear => alpha * x + beta,
        Unary::Square => x * x,
        _ => 0,
    }
}

/// True when one forward elementwise result fits the cell type.
pub open spec fn spec_unary_val_fits(alg: Unary, alpha: i64, beta: i64, x: i64) -> bool {
    match alg {
        Unary::Linear => i64::MIN <= alpha * x <= i64::MAX && i64::MIN <= alpha * x + beta
            <= i64::MAX,
        _ => i64::MIN <= spec_unary_val(alg, alpha, beta, x) <= i64::MAX,
    }
}

/// Forward elementwise application over a whole tensor.
pub open spec fn spec_unary_seq(alg: Unary, alpha: i64, beta: i64, a: Seq<i64>) -> Seq<i64> {
    Seq::new(a.len(), |i: int| spec_unary_val(alg, alpha, beta, a[i]) as i64)
}

/// True when every forward elementwise result fits the cell type.
pub open spec fn spec_unary_seq_fits(alg: Unary, alpha: i64, beta: i64, a: Seq<i64>) -> bool {
    forall|i: int| 0 <= i < a.len() ==> spec_unary_val_fits(alg, alpha, beta, #[trigger] a[i])
}

/// Applies a unary algorithm elementwise; `None` exactly when some result
/// does not fit the cell type.
fn unary_kernel(alg: Unary, alpha: i64, beta: i64, a: &Vec<i64>) -> (r: Option<Vec<i64>>)
    requires
        spec_unary_alg_supported(alg),
    ensures
        r is Some <==> spec_unary_seq_fits(alg, alpha, beta, a@),
        r matches Some(v) ==> v@ == spec_unary_seq(alg, alpha, beta, a@),
{
    let mut out: Vec<i64> = Vec::new();
    let mut i: usize = 0;
    while i < a.len()
        invariant
            i <= a@.len(),
            spec_unary_alg_supported(alg),
            out@.len() == i,
            forall|j: int| 0 <= j < i ==> spec_unary_val_fits(alg, alpha, beta, #[trigger] a@[j]),
            forall|j: int|
                0 <= j < i ==> #[trigger] out@[j] == spec_unary_val(alg, alpha, beta, a@[j]) as i64,
        decreases a.len() - i,
    {
        let x = a[i];
        let cell: Option<i64> = match alg {
            Unary::Relu => {
                if x > 0 {
                    Some(x)
                } else {
                    alpha.checked_mul(x)
                }
            },
            Unary::Abs => {
                if x >= 0 {
                    Some(x)
                } else {
                    0i64.checked_sub(x)
                }
            },
            Unary::Linear => {
                match alpha.checked_mul(x) {
                    Some(p) => p.checked_add(beta),
                    None => None,
                }
            },
            Unary::Square => x.checked_mul(x),
            _ => {
                proof {
                    assert(false);
                }
                None
            },
        };
        match cell {
            Some(v) => {
                out.push(v);
            },
            None => {
                return None;
            },
        }
        i = i + 1;
    }
    proof {
        assert(out@ =~= spec_unary_seq(alg, alpha, beta, a@));
    }
    Some(out)
}

/// Mathematical value of one backward elementwise application: the
/// upstream gradient `dd` scaled by the algorithm's derivative at the
/// forward input `x`.
pub open spec fn spec_unary_bwd_val(alg: Unary, alpha: i64, x: i64, dd: i64) -> int {
    match alg {
        Unary::Relu => if x > 0 {
            dd as int
        } else {
            alpha * dd
        },
        Unary::Abs => if x > 0 {
            dd as int
        } else if x < 0 {
            -(dd as int)
        } else {
            0
        },
        Unary::Linear => alpha * dd,
        Unary::Square => 2 * (x * dd),
        _ => 0,
    }
}

/// True when one backward elementwise result fits the cell type.
pub open spec fn spec_unary_bwd_val_fits(alg: Unary, alpha: i64, x: i64, dd: i64) -> bool {
    match alg {
        Unary::Square => i64::MIN <= x * dd <= i64::MAX && i64::MIN <= 2 * (x * dd) <= i64::MAX,
        _ => i64::MIN <= spec_unary_bwd_val(alg, alpha, x, dd) <= i64::MAX,
    }
}

/// Backward elementwise application over whole tensors.
pub open spec fn spec_unary_bwd_seq(alg: Unary, alpha: i64, src: Seq<i64>, dd: Seq<i64>) -> Seq<
    i64,
> {
    Seq::new(src.len(), |i: int| spec_unary_bwd_val(alg, alpha, src[i], dd[i]) as i64)
}

/// True when every backward elementwise result fits the cell type.
pub open spec fn spec_unary_bwd_seq_fits(
    alg: Unary,
    alpha: i64,
    src: Seq<i64>,
    dd: Seq<i64>,
) -> bool {
    forall|i: int|
        0 <= i < src.len() ==> spec_unary_bwd_val_fits(alg, alpha, src[i], #[trigger] dd[i])
}

/// Applies a backward unary algorithm elementwise; `None` exactly when
/// some result does not fit the cell type.
fn unary_bwd_kernel(alg: Unary, alpha: i64, src: &Vec<i64>, dd: &Vec<i64>) -> (r: Option<Vec<i64>>)
    requires
        spec_unary_alg_supported(alg),
        src@.len() == dd@.len(),
    ensures
        r is Some <==> spec_unary_bwd_seq_fits(alg, alpha, src@, dd@),
        r matches Some(v) ==> v@ == spec_unary_bwd_seq(alg, alpha, src@, dd@),
{
    let mut out: Vec<i64> = Vec::new();
    let mut i: usize = 0;
    while i < src.len()
        invariant
            i <= src@.len(),
            src@.len() == dd@.len(),
            spec_unary_alg_supported(alg),
            out@.len() == i,
            forall|j: int|
                0 <= j < i ==> spec_unary_bwd_val_fits(alg, alpha, src@[j], #[trigger] dd@[j]),
            forall|j: int|
                0 <= j < i ==> #[trigger] out@[j] == spec_unary_bwd_val(
                    alg,
                    alpha,
                    src@[j],
                    dd@[j],
                ) as i64,
        decreases src.len() - i,
    {
        let x = src[i];
        let d = dd[i];
        let cell: Option<i64> = match alg {
            Unary::Relu => {
                if x > 0 {
                    Some(d)
                } else {
                    alpha.checked_mul(d)
                }
            },
            Unary::Abs => {
                if x > 0 {
                    Some(d)
                } else if x < 0 {
                    0i64.checked_sub(d)
                } else {
                    Some(0)
                }
            },
            Unary::Linear => alpha.checked_mul(d),
            Unary::Square => {
                match x.checked_mul(d) {
                    Some(p) => 2i64.checked_mul(p),
                    None => None,
                }
            },
            _ => {
                proof {
                    assert(false);
                }
                None
            },
        };
        match cell {
            Some(v) => {
                out.push(v);
            },
            None => {
                return None;
            },
        }
        i = i + 1;
    }
    proof {
        assert(out@ =~= spec_unary_bwd_seq(alg, alpha, src@, dd@));
    }
    Some(out)
}

/// Configuration of a forward elementwise unary operation.
#[derive(Debug)]
pub struct ForwardEltwiseConfig {
    pub alg_kind: Unary,
    pub src_desc: MemoryDescriptor,
    pub dst_desc: MemoryDescriptor,
    pub alpha: i64,
    pub beta: i64,
    pub attr: PrimitiveAttributes,
}

/// Source and destination share one data type.
pub open spec fn spec_eltwise_dtype_ok(c: &ForwardEltwiseConfig) -> bool {
    c.src_desc.spec_data_type() == c.dst_desc.spec_data_type()
}

/// Source and destination share one shape.
pub open spec fn spec_eltwise_shape_ok(c: &ForwardEltwiseConfig) -> bool {
    c.src_desc.spec_dims() == c.dst_desc.spec_dims()
}

/// An eltwise configuration that can become an execution plan.
pub open spec fn spec_eltwise_valid(c: &ForwardEltwiseConfig) -> bool {
    &&& spec_eltwise_dtype_ok(c)
    &&& spec_eltwise_shape_ok(c)
    &&& spec_unary_alg_supported(c.alg_kind)
}

impl ForwardEltwiseConfig {
    /// Validates this configuration against an engine and produces the
    /// execution plan.
    ///
    /// The forward eltwise operation pairs with the two forward
    /// propagation kinds only; any other kind is an unsupported
    /// combination. A mixed data type is rejected as invalid data type, a
    /// shape mismatch as invalid shape, and an algorithm without an exact
    /// integer meaning as unsupported.
    pub fn create_primitive_desc(self, engine: Arc<Engine>, prop: PropKind) -> (r: Result<
        PrimitiveDescriptor,
        DnnlError,
    >)
        ensures
            !crate::primitive::spec_prop_is_forward(prop) ==> r == Err::<
                PrimitiveDescriptor,
                DnnlError,
            >(DnnlError::Unsupported),
            crate::primitive::spec_prop_is_forward(prop) && !spec_eltwise_dtype_ok(&self) ==> r
                == Err::<PrimitiveDescriptor, DnnlError>(DnnlError::InvalidDataType),
            crate::primitive::spec_prop_is_forward(prop) && spec_eltwise_dtype_ok(&self)
                && !spec_eltwise_shape_ok(&self) ==> r == Err::<PrimitiveDescriptor, DnnlError>(
                DnnlError::InvalidShape,
            ),
            crate::primitive::spec_prop_is_forward(prop) && spec_eltwise_dtype_ok(&self)
                && spec_eltwise_shape_ok(&self) && !spec_unary_alg_supported(self.alg_kind) ==> r
                == Err::<PrimitiveDescriptor, DnnlError>(DnnlError::Unsupported),
            crate::primitive::spec_prop_is_forward(prop) && spec_eltwise_valid(&self) ==> (
            r matches Ok(pd) && pd.spec_plan() == PrimitivePlan::EltwiseForward(self)
                && pd.spec_prop() == prop && pd.spec_engine() == *engine),
    {
        if !matches!(prop, PropKind::ForwardTraining | PropKind::ForwardInference) {
            return Err(DnnlError::Unsupported);
        }
        if !(self.src_desc.query_data_type() == self.dst_desc.query_data_type()) {
            return Err(DnnlError::InvalidDataType);
        }
        if !self.src_desc.same_dims(&self.dst_desc) {
            return Err(DnnlError::InvalidShape);
        }
        if !unary_alg_supported(self.alg_kind) {
            return Err(DnnlError::Unsupported);
        }
        Ok(PrimitiveDescriptor::make(PrimitivePlan::EltwiseForward(self), prop, engine))
    }
}

/// Configuration of a backward elementwise unary operation, validated
/// against the forward plan it differentiates.
#[derive(Debug)]
pub struct BackwardEltwiseConfig {
    pub alg_kind: Unary,
    pub diff_src_desc: MemoryDescriptor,
    pub diff_dest_desc: MemoryDescriptor,
    pub data_desc: MemoryDescriptor,
    pub alpha: i64,
    pub beta: i64,
    pub attr: PrimitiveAttributes,
}

/// The three descriptors share one data type.
pub open spec fn spec_eltwise_bwd_dtype_ok(c: &BackwardEltwiseConfig) -> bool {
    &&& c.diff_src_desc.spec_data_type() == c.data_desc.spec_data_type()
    &&& c.diff_dest_desc.spec_data_type() == c.data_desc.spec_data_type()
}

/// The three descriptors share one shape.
pub open spec fn spec_eltwise_bwd_shape_ok(c: &BackwardEltwiseConfig) -> bool {
    &&& c.diff_src_desc.spec_dims() == c.data_desc.spec_dims()
    &&& c.diff_dest_desc.spec_dims() == c.data_desc.spec_dims()
}

/// The forward hint is an eltwise plan built for training, over the same
/// algorithm.
pub open spec fn spec_eltwise_hint_kind_ok(c: &BackwardEltwiseConfig, hint: &PrimitiveDescriptor) -> bool {
    &&& hint.spec_plan() matches PrimitivePlan::EltwiseForward(f) && f.alg_kind == c.alg_kind
    &&& hint.spec_prop() == PropKind::ForwardTraining
}

/// The forward hint's tensor shape matches the backward descriptors.
pub open spec fn spec_eltwise_hint_shape_ok(c: &BackwardEltwiseConfig, hint: &PrimitiveDescriptor) -> bool {
    hint.spec_plan() matches PrimitivePlan::EltwiseForward(f) && f.src_desc.spec_dims()
        == c.data_desc.spec_dims()
}

/// A backward eltwise configuration that can become an execution plan.
pub open spec fn spec_eltwise_bwd_valid(c: &BackwardEltwiseConfig) -> bool {
    &&& spec_eltwise_bwd_dtype_ok(c)
    &&& spec_eltwise_bwd_shape_ok(c)
    &&& spec_unary_alg_supported(c.alg_kind)
}

impl BackwardEltwiseConfig {
    /// Validates this configuration against an engine and the forward plan
    /// it differentiates, and produces the execution plan.
    ///
    /// Only the plain backward propagation kind pairs with this operation.
    /// A hint that is not a forward-training eltwise plan over the same
    /// algorithm is rejected as invalid arguments; a hint whose shapes do
    /// not match the backward descriptors surfaces invalid shape.
    pub fn create_primitive_desc(
        self,
        engine: Arc<Engine>,
        prop: PropKind,
        hint: &PrimitiveDescriptor,
    ) -> (r: Result<PrimitiveDescriptor, DnnlError>)
        ensures
            prop != PropKind::Backward ==> r == Err::<PrimitiveDescriptor, DnnlError>(
                DnnlError::Unsupported,
            ),
            prop == PropKind::Backward && !spec_eltwise_hint_kind_ok(&self, hint) ==> r == Err::<
                PrimitiveDescriptor,
                DnnlError,
            >(DnnlError::InvalidArguments),
            prop == PropKind::Backward && spec_eltwise_hint_kind_ok(&self, hint)
                && !spec_eltwise_bwd_dtype_ok(&self) ==> r == Err::<PrimitiveDescriptor, DnnlError>(
                DnnlError::InvalidDataType,
            ),
            prop == PropKind::Backward && spec_eltwise_hint_kind_ok(&self, hint)
                && spec_eltwise_bwd_dtype_ok(&self) && !(spec_eltwise_bwd_shape_ok(&self)
                && spec_eltwise_hint_shape_ok(&self, hint)) ==> r == Err::<
                PrimitiveDescriptor,
                DnnlError,
            >(DnnlError::InvalidShape),
            prop == PropKind::Backward && spec_eltwise_hint_kind_ok(&self, hint)
                && spec_eltwise_bwd_dtype_ok(&self) && spec_eltwise_bwd_shape_ok(&self)
                && spec_eltwise_hint_shape_ok(&self, hint) && !spec_unary_alg_supported(
                self.alg_kind,
            ) ==> r == Err::<PrimitiveDescriptor, DnnlError>(DnnlError::Unsupported),
            prop == PropKind::Backward && spec_eltwise_hint_kind_ok(&self, hint)
                && spec_eltwise_hint_shape_ok(&self, hint) && spec_eltwise_bwd_valid(&self) ==> (
            r matches Ok(pd) && pd.spec_plan() == PrimitivePlan::EltwiseBackward(self)
                && pd.spec_prop() == prop && pd.spec_engine() == *engine),
    {
        if !matches!(prop, PropKind::Backward) {
            return Err(DnnlError::Unsupported);
        }
        let hint_ok = match hint.plan_ref() {
            PrimitivePlan::EltwiseForward(f) => f.alg_kind == self.alg_kind && matches!(
                hint.prop_kind(),
                PropKind::ForwardTraining,
            ),
            _ => false,
        };
        if !hint_ok {
            return Err(DnnlError::InvalidArguments);
        }
        if !(self.diff_src_desc.query_data_type() == self.data_desc.query_data_type()
            && self.diff_dest_desc.query_data_type() == self.data_desc.query_data_type()) {
            return Err(DnnlError::InvalidDataType);
        }
        let hint_shape_ok = match hint.plan_ref() {
            PrimitivePlan::EltwiseForward(f) => f.src_desc.same_dims(&self.data_desc),
            _ => false,
        };
        if !(self.diff_src_desc.same_dims(&self.data_desc) && self.diff_dest_desc.same_dims(
            &self.data_desc,
        ) && hint_shape_ok) {
            return Err(DnnlError::InvalidShape);
        }
        if !unary_alg_supported(self.alg_kind) {
            return Err(DnnlError::Unsupported);
        }
        Ok(PrimitiveDescriptor::make(PrimitivePlan::EltwiseBackward(self), prop, engine))
    }
}

/// Marker for the forward eltwise operation.
#[derive(Debug, Clone, Copy)]
pub struct ForwardEltwise;

impl ForwardEltwise {
    /// The operation kind this marker denotes.
    pub fn op_type(&self) -> (r: OperationType)
        ensures
            r == OperationType::Eltwise,
    {
        OperationType::Eltwise
    }
}

/// Marker for the backward eltwise operation.
#[derive(Debug, Clone, Copy)]
pub struct BackwardEltwise;

impl BackwardEltwise {
    /// The operation kind this marker denotes.
    pub fn op_type(&self) -> (r: OperationType)
        ensures
            r == OperationType::Eltwise,
    {
        OperationType::Eltwise
    }
}

/// A well-formed argument list for a forward eltwise plan: the source and
/// destination slots, each once, each bound to storage under the plan's
/// descriptors.
pub open spec fn spec_eltwise_args_ok(c: &ForwardEltwiseConfig, args: Seq<ExecArg>) -> bool {
    &&& args.len() == 2
    &&& spec_slot_count(args, ARG_SRC_0) == 1
    &&& spec_slot_count(args, ARG_DST) == 1
    &&& forall|j: int|
        0 <= j < args.len() ==> {
            &&& ((#[trigger] args[j]).index == ARG_SRC_0 ==> args[j].mem.spec_desc().spec_equal(
                &c.src_desc,
            ) && args[j].mem.spec_has_storage())
            &&& (args[j].index == ARG_DST ==> args[j].mem.spec_desc().spec_equal(&c.dst_desc)
                && args[j].mem.spec_has_storage())
        }
}

/// True when every forward result over the bound source fits the cell
/// type.
pub open spec fn spec_eltwise_args_fits(c: &ForwardEltwiseConfig, args: Seq<ExecArg>) -> bool {
    forall|a: int|
        (0 <= a < args.len() && (#[trigger] args[a]).index == ARG_SRC_0) ==> spec_unary_seq_fits(
            c.alg_kind,
            c.alpha,
            c.beta,
            args[a].mem.spec_data(),
        )
}

/// Result of executing a forward eltwise plan.
pub open spec fn spec_eltwise_post(
    c: &ForwardEltwiseConfig,
    args: Seq<ExecArg>,
    out: Seq<ExecArg>,
) -> bool {
    &&& out.len() == args.len()
    &&& forall|j: int| 0 <= j < args.len() ==> (#[trigger] out[j]).index == args[j].index
    &&& forall|j: int|
        0 <= j < args.len() && (#[trigger] args[j]).index != ARG_DST ==> out[j].mem == args[j].mem
    &&& forall|j: int, a: int|
        (0 <= j < args.len() && 0 <= a < args.len() && (#[trigger] args[j]).index == ARG_DST && (
        #[trigger] args[a]).index == ARG_SRC_0) ==> (out[j].mem.spec_desc()
            == args[j].mem.spec_desc() && out[j].mem.spec_engine() == args[j].mem.spec_engine()
            && out[j].mem.spec_data() == spec_unary_seq(
            c.alg_kind,
            c.alpha,
            c.beta,
            args[a].mem.spec_data(),
        ))
}

/// Executes a forward eltwise plan over an argument list.
pub(crate) fn eltwise_execute(c: &ForwardEltwiseConfig, args: Vec<ExecArg>) -> (r: Result<
    Vec<ExecArg>,
    DnnlError,
>)
    requires
        spec_eltwise_valid(c),
    ensures
        r is Ok <==> (spec_eltwise_args_ok(c, args@) && spec_eltwise_args_fits(c, args@)),
        !spec_eltwise_args_ok(c, args@) ==> r == Err::<Vec<ExecArg>, DnnlError>(
            DnnlError::InvalidArguments,
        ),
        spec_eltwise_args_ok(c, args@) && !spec_eltwise_args_fits(c, args@) ==> r == Err::<
            Vec<ExecArg>,
            DnnlError,
        >(DnnlError::RuntimeError),
        r matches Ok(out) ==> spec_eltwise_post(c, args@, out@),
{
    let ghost gargs = args@;
    if args.len() != 2 {
        return Err(DnnlError::InvalidArguments);
    }
    let p0 = match find_arg(&args, ARG_SRC_0) {
        Some(p) => p,
        None => {
            proof {
                lemma_slot_count_zero(gargs, ARG_SRC_0);
            }
            return Err(DnnlError::InvalidArguments);
        },
    };
    let pd = match find_arg(&args, ARG_DST) {
        Some(p) => p,
        None => {
            proof {
                lemma_slot_count_zero(gargs, ARG_DST);
            }
            return Err(DnnlError::InvalidArguments);
        },
    };
    if crate::primitive::count_arg(&args, ARG_SRC_0) != 1 || crate::primitive::count_arg(
        &args,
        ARG_DST,
    ) != 1 {
        return Err(DnnlError::InvalidArguments);
    }
    if !(args[p0].mem.desc().equal(&c.src_desc) && args[p0].mem.has_storage()) {
        return Err(DnnlError::InvalidArguments);
    }
    if !(args[pd].mem.desc().equal(&c.dst_desc) && args[pd].mem.has_storage()) {
        return Err(DnnlError::InvalidArguments);
    }
    proof {
        assert forall|j: int| 0 <= j < gargs.len() implies {
            &&& ((#[trigger] gargs[j]).index == ARG_SRC_0 ==> gargs[j].mem.spec_desc().spec_equal(
                &c.src_desc,
            ) && gargs[j].mem.spec_has_storage())
            &&& (gargs[j].index == ARG_DST ==> gargs[j].mem.spec_desc().spec_equal(&c.dst_desc)
                && gargs[j].mem.spec_has_storage())
        } by {
            if gargs[j].index == ARG_SRC_0 {
                lemma_slot_count_unique(gargs, ARG_SRC_0, j, p0 as int);
            }
            if gargs[j].index == ARG_DST {
                lemma_slot_count_unique(gargs, ARG_DST, j, pd as int);
            }
        }
        assert(spec_eltwise_args_ok(c, gargs));
    }
    let a = args[p0].mem.data_vec();
    let result = match unary_kernel(c.alg_kind, c.alpha, c.beta, &a) {
        Some(v) => v,
        None => {
            return Err(DnnlError::RuntimeError);
        },
    };
    proof {
        assert forall|x: int|
            (0 <= x < gargs.len() && (#[trigger] gargs[x]).index == ARG_SRC_0) implies spec_unary_seq_fits(
            c.alg_kind,
            c.alpha,
            c.beta,
            gargs[x].mem.spec_data(),
        ) by {
            lemma_slot_count_unique(gargs, ARG_SRC_0, x, p0 as int);
        }
    }
    let mut args = args;
    let dst_arg = args.remove(pd);
    let new_mem = dst_arg.mem.with_data(&result);
    args.insert(pd, ExecArg { index: dst_arg.index, mem: new_mem });
    proof {
        assert(args@ =~= gargs.update(pd as int, args@[pd as int]));
        assert forall|j: int, x: int|
            (0 <= j < gargs.len() && 0 <= x < gargs.len() && (#[trigger] gargs[j]).index == ARG_DST
                && (#[trigger] gargs[x]).index == ARG_SRC_0) implies (args@[j].mem.spec_desc()
            == gargs[j].mem.spec_desc() && args@[j].mem.spec_engine() == gargs[j].mem.spec_engine()
            && args@[j].mem.spec_data() == spec_unary_seq(
            c.alg_kind,
            c.alpha,
            c.beta,
            gargs[x].mem.spec_data(),
        )) by {
            lemma_slot_count_unique(gargs, ARG_DST, j, pd as int);
            lemma_slot_count_unique(gargs, ARG_SRC_0, x, p0 as int);
        }
        assert(spec_eltwise_post(c, gargs, args@));
    }
    Ok(args)
}

/// A well-formed argument list for a backward eltwise plan: the forward
/// source, the upstream gradient and the source-gradient destination,
/// each once, each bound to storage under the plan's descriptors.
pub open spec fn spec_eltwise_bwd_args_ok(c: &BackwardEltwiseConfig, args: Seq<ExecArg>) -> bool {
    &&& args.len() == 3
    &&& spec_slot_count(args, ARG_SRC_0) == 1
    &&& spec_slot_count(args, ARG_DIFF_DST) == 1
    &&& spec_slot_count(args, ARG_DIFF_SRC) == 1
    &&& forall|j: int|
        0 <= j < args.len() ==> {
            &&& ((#[trigger] args[j]).index == ARG_SRC_0 ==> args[j].mem.spec_desc().spec_equal(
                &c.data_desc,
            ) && args[j].mem.spec_has_storage())
            &&& (args[j].index == ARG_DIFF_DST ==> args[j].mem.spec_desc().spec_equal(
                &c.diff_dest_desc,
            ) && args[j].mem.spec_has_storage())
            &&& (args[j].index == ARG_DIFF_SRC ==> args[j].mem.spec_desc().spec_equal(
                &c.diff_src_desc,
            ) && args[j].mem.spec_has_storage())
        }
}

/// True when every backward result over the bound tensors fits the cell
/// type.
pub open spec fn spec_eltwise_bwd_args_fits(c: &BackwardEltwiseConfig, args: Seq<ExecArg>) -> bool {
    forall|a: int, b: int|
        (0 <= a < args.len() && 0 <= b < args.len() && (#[trigger] args[a]).index == ARG_SRC_0 && (
        #[trigger] args[b]).index == ARG_DIFF_DST) ==> spec_unary_bwd_seq_fits(
            c.alg_kind,
            c.alpha,
            args[a].mem.spec_data(),
            args[b].mem.spec_data(),
        )
}

/// Result of executing a backward eltwise plan.
pub open spec fn spec_eltwise_bwd_post(
    c: &BackwardEltwiseConfig,
    args: Seq<ExecArg>,
    out: Seq<ExecArg>,
) -> bool {
    &&& out.len() == args.len()
    &&& forall|j: int| 0 <= j < args.len() ==> (#[trigger] out[j]).index == args[j].index
    &&& forall|j: int|
        0 <= j < args.len() && (#[trigger] args[j]).index != ARG_DIFF_SRC ==> out[j].mem
            == args[j].mem
    &&& forall|j: int, a: int, b: int|
        (0 <= j < args.len() && 0 <= a < args.len() && 0 <= b < args.len() && (
        #[trigger] args[j]).index == ARG_DIFF_SRC && (#[trigger] args[a]).index == ARG_SRC_0 && (
        #[trigger] args[b]).index == ARG_DIFF_DST) ==> (out[j].mem.spec_desc()
            == args[j].mem.spec_desc() && out[j].mem.spec_engine() == args[j].mem.spec_engine()
            && out[j].mem.spec_data() == spec_unary_bwd_seq(
            c.alg_kind,
            c.alpha,
            args[a].mem.spec_data(),
            args[b].mem.spec_data(),
        ))
}

/// Executes a backward eltwise plan over an argument list.
pub(crate) fn eltwise_bwd_execute(c: &BackwardEltwiseConfig, args: Vec<ExecArg>) -> (r: Result<
    Vec<ExecArg>,
    DnnlError,
>)
    requires
        spec_eltwise_bwd_valid(c),
    ensures
        r is Ok <==> (spec_eltwise_bwd_args_ok(c, args@) && spec_eltwise_bwd_args_fits(c, args@)),
        !spec_eltwise_bwd_args_ok(c, args@) ==> r == Err::<Vec<ExecArg>, DnnlError>(
            DnnlError::InvalidArguments,
        ),
        spec_eltwise_bwd_args_ok(c, args@) && !spec_eltwise_bwd_args_fits(c, args@) ==> r == Err::<
            Vec<ExecArg>,
            DnnlError,
        >(DnnlError::RuntimeError),
        r matches Ok(out) ==> spec_eltwise_bwd_post(c, args@, out@),
{
    let ghost gargs = args@;
    if args.len() != 3 {
        return Err(DnnlError::InvalidArguments);
    }
    let p0 = match find_arg(&args, ARG_SRC_0) {
        Some(p) => p,
        None => {
            proof {
                lemma_slot_count_zero(gargs, ARG_SRC_0);
            }
            return Err(DnnlError::InvalidArguments);
        },
    };
    let pb = match find_arg(&args, ARG_DIFF_DST) {
        Some(p) => p,
        None => {
            proof {
                lemma_slot_count_zero(gargs, ARG_DIFF_DST);
            }
            return Err(DnnlError::InvalidArguments);
        },
    };
    let pd = match find_arg(&args, ARG_DIFF_SRC) {
        Some(p) => p,
        None => {
            proof {
                lemma_slot_count_zero(gargs, ARG_DIFF_SRC);
            }
            return Err(DnnlError::InvalidArguments);
        },
    };
    if crate::primitive::count_arg(&args, ARG_SRC_0) != 1 || crate::primitive::count_arg(
        &args,
        ARG_DIFF_DST,
    ) != 1 || crate::primitive::count_arg(&args, ARG_DIFF_SRC) != 1 {
        return Err(DnnlError::InvalidArguments);
    }
    if !(args[p0].mem.desc().equal(&c.data_desc) && args[p0].mem.has_storage()) {
        return Err(DnnlError::InvalidArguments);
    }
    if !(args[pb].mem.desc().equal(&c.diff_dest_desc) && args[pb].mem.has_storage()) {
        return Err(DnnlError::InvalidArguments);
    }
    if !(args[pd].mem.desc().equal(&c.diff_src_desc) && args[pd].mem.has_storage()) {
        return Err(DnnlError::InvalidArguments);
    }
    proof {
        assert forall|j: int| 0 <= j < gargs.len() implies {
            &&& ((#[trigger] gargs[j]).index == ARG_SRC_0 ==> gargs[j].mem.spec_desc().spec_equal(
                &c.data_desc,
            ) && gargs[j].mem.spec_has_storage())
            &&& (gargs[j].index == ARG_DIFF_DST ==> gargs[j].mem.spec_desc().spec_equal(
                &c.diff_dest_desc,
            ) && gargs[j].mem.spec_has_storage())
            &&& (gargs[j].index == ARG_DIFF_SRC ==> gargs[j].mem.spec_desc().spec_equal(
                &c.diff_src_desc,
            ) && gargs[j].mem.spec_has_storage())
        } by {
            if gargs[j].index == ARG_SRC_0 {
                lemma_slot_count_unique(gargs, ARG_SRC_0, j, p0 as int);
            }
            if gargs[j].index == ARG_DIFF_DST {
                lemma_slot_count_unique(gargs, ARG_DIFF_DST, j, pb as int);
            }
            if gargs[j].index == ARG_DIFF_SRC {
                lemma_slot_count_unique(gargs, ARG_DIFF_SRC, j, pd as int);
            }
        }
        assert(spec_eltwise_bwd_args_ok(c, gargs));
    }
    let a = args[p0].mem.data_vec();
    let b = args[pb].mem.data_vec();
    let result = match unary_bwd_kernel(c.alg_kind, c.alpha, &a, &b) {
        Some(v) => v,
        None => {
            return Err(DnnlError::RuntimeError);
        },
    };
    proof {
        assert forall|x: int, y: int|
            (0 <= x < gargs.len() && 0 <= y < gargs.len() && (#[trigger] gargs[x]).index
                == ARG_SRC_0 && (#[trigger] gargs[y]).index == ARG_DIFF_DST) implies spec_unary_bwd_seq_fits(
            c.alg_kind,
            c.alpha,
            gargs[x].mem.spec_data(),
            gargs[y].mem.spec_data(),
        ) by {
            lemma_slot_count_unique(gargs, ARG_SRC_0, x, p0 as int);
            lemma_slot_count_unique(gargs, ARG_DIFF_DST, y, pb as int);
        }
    }
    let mut args = args;
    let dst_arg = args.remove(pd);
    let new_mem = dst_arg.mem.with_data(&result);
    args.insert(pd, ExecArg { index: dst_arg.index, mem: new_mem });
    proof {
        assert(args@ =~= gargs.update(pd as int, args@[pd as int]));
        assert forall|j: int, x: int, y: int|
            (0 <= j < gargs.len() && 0 <= x < gargs.len() && 0 <= y < gargs.len() && (
            #[trigger] gargs[j]).index == ARG_DIFF_SRC && (#[trigger] gargs[x]).index == ARG_SRC_0
                && (#[trigger] gargs[y]).index == ARG_DIFF_DST) implies (args@[j].mem.spec_desc()
            == gargs[j].mem.spec_desc() && args@[j].mem.spec_engine() == gargs[j].mem.spec_engine()
            && args@[j].mem.spec_data() == spec_unary_bwd_seq(
            c.alg_kind,
            c.alpha,
            gargs[x].mem.spec_data(),
            gargs[y].mem.spec_data(),
        )) by {
            lemma_slot_count_unique(gargs, ARG_DIFF_SRC, j, pd as int);
            lemma_slot_count_unique(gargs, ARG_SRC_0, x, p0 as int);
            lemma_slot_count_unique(gargs, ARG_DIFF_DST, y, pb as int);
        }
        assert(spec_eltwise_bwd_post(c, gargs, args@));
    }
    Ok(args)
}

} // verus!
