use crate::engine::Engine;
use crate::error::DnnlError;
use crate::memory::descriptor::{spec_prod, MemoryDescriptor};
use crate::primitive::attributes::PrimitiveAttributes;
use crate::primitive::descriptor::{PrimitiveDescriptor, PrimitivePlan};
use crate::primitive::{
    find_arg, lemma_slot_count_unique, lemma_slot_count_zero, spec_slot_count, ExecArg,
    OperationType, PropForwardInference, PropKind, ARG_DST, ARG_SRC_0,
};
use std::sync::Arc;
use vstd::prelude::*;

verus! {

/// The reduction algorithms.
#[derive(Debug, Clone, Copy, PartialEq, Eq, Structural)]
pub enum Reduction {
    Max,
    Min,
    Mul,
    Sum,
    Mean,
    NormLpMax,
    NormLpSum,
    NormLpPowerPMax,
    NormLpPowerPSum,
}

/// The reduction algorithms this library executes: the folds that are exact
/// over the integer cell type. Means and norms are not among them.
pub open spec fn spec_reduction_alg_supported(alg: Reduction) -> bool {
    alg is Max || alg is Min || alg is Mul || alg is Sum
}

/// True when a reduction algorithm is executable here.
pub fn reduction_alg_supported(alg: Reduction) -> (r: bool)
    ensures
        r == spec_reduction_alg_supported(alg),
{
    matches!(alg, Reduction::Max | Reduction::Min | Reduction::Mul | Reduction::Sum)
}

/// Value of an empty fold: the algorithm's identity. The minimum and
/// maximum have none; they are never folded over an empty tensor.
pub open spec fn spec_reduce_empty(alg: Reduction) -> int {
    match alg {
        Reduction::Sum => 0,
        Reduction::Mul => 1,
        _ => 0,
    }
}

/// Fold of the first `t` cells.
pub open spec fn spec_reduce_partial(alg: Reduction, s: Seq<i64>, t: int) -> int
    decreases t,
{
    if t <= 0 {
        spec_reduce_empty(alg)
    } else if t == 1 {
        s[0] as int
    } else {
        let prev = spec_reduce_partial(alg, s, t - 1);
        match alg {
            Reduction::Sum => prev + s[t - 1],
            Reduction::Mul => prev * s[t - 1],
            Reduction::Min => if prev <= s[t - 1] {
                prev
            } else {
                s[t - 1] as int
            },
            Reduction::Max => if prev >= s[t - 1] {
                prev
            } else {
                s[t - 1] as int
            },
            _ => 0,
        }
    }
}

/// The fold of the whole tensor.
pub open spec fn spec_reduce_result(alg: Reduction, s: Seq<i64>) -> int {
    spec_reduce_partial(alg, s, s.len() as int)
}

/// True when every partial fold fits the cell type.
pub open spec fn spec_reduce_fits(alg: Reduction, s: Seq<i64>) -> bool {
    forall|t: int|
        1 <= t <= s.len() ==> i64::MIN <= #[trigger] spec_reduce_partial(alg, s, t) <= i64::MAX
}

/// Folds a whole tensor; `None` exactly when a partial fold leaves the cell
/// type.
fn reduce_kernel(alg: Reduction, s: &Vec<i64>) -> (r: Option<i64>)
    requires
        spec_reduction_alg_supported(alg),
        alg is Min || alg is Max ==> s@.len() >= 1,
    ensures
        r is Some <==> spec_reduce_fits(alg, s@),
        r matches Some(v) ==> v == spec_reduce_result(alg, s@),
{
    if s.len() == 0 {
        let v = match alg {
            Reduction::Sum => 0i64,
            Reduction::Mul => 1i64,
            _ => {
                proof {
                    assert(false);
                }
                0i64
            },
        };
        return Some(v);
    }
    let mut acc: i64 = s[0];
    let mut t: usize = 1;
    while t < s.len()
        invariant
            1 <= t <= s@.len(),
            spec_reduction_alg_supported(alg),
            acc == spec_reduce_partial(alg, s@, t as int),
            forall|u: int|
                1 <= u <= t ==> i64::MIN <= #[trigger] spec_reduce_partial(alg, s@, u) <= i64::MAX,
        decreases s.len() - t,
    {
        let x = s[t];
        let next: Option<i64> = match alg {
            Reduction::Sum => acc.checked_add(x),
            Reduction::Mul => acc.checked_mul(x),
            Reduction::Min => Some(
                if acc <= x {
                    acc
                } else {
                    x
                },
            ),
            Reduction::Max => Some(
                if acc >= x {
                    acc
                } else {
                    x
                },
            ),
            _ => {
                proof {
                    assert(false);
                }
                None
            },
        };
        acc = match next {
            Some(a) => a,
            None => {
                proof {
                    assert(spec_reduce_partial(alg, s@, t as int + 1) == (match alg {
                        Reduction::Sum => spec_reduce_partial(alg, s@, t as int) + s@[t as int],
                        Reduction::Mul => spec_reduce_partial(alg, s@, t as int) * s@[t as int],
                        _ => spec_reduce_partial(alg, s@, t as int + 1),
                    }));
                }
                return None;
            },
        };
        t = t + 1;
    }
    Some(acc)
}

/// A dimension vector of all ones has a unit product.
pub proof fn lemma_prod_ones(dims: Seq<i64>)
    requires
        forall|i: int| 0 <= i < dims.len() ==> #[trigger] dims[i] == 1,
    ensures
        spec_prod(dims) == 1,
    decreases dims.len(),
{
    if dims.len() > 0 {
        lemma_prod_ones(dims.skip(1));
    }
}

/// Configuration of a forward reduction.
#[derive(Debug)]
pub struct ForwardReductionConfig {
    pub alg_kind: Reduction,
    pub src_desc: MemoryDescriptor,
    pub dst_desc: MemoryDescriptor,
    pub p: i64,
    pub eps: i64,
    pub attr: PrimitiveAttributes,
}

/// Source and destination share one data type.
pub open spec fn spec_reduction_dtype_ok(c: &ForwardReductionConfig) -> bool {
    c.src_desc.spec_data_type() == c.dst_desc.spec_data_type()
}

/// The destination collapses every axis of the source: same dimension
/// count, every destination extent one.
pub open spec fn spec_reduction_shape_ok(c: &ForwardReductionConfig) -> bool {
    &&& c.dst_desc.spec_dims().len() == c.src_desc.spec_dims().len()
    &&& forall|i: int|
        0 <= i < c.dst_desc.spec_dims().len() ==> #[trigger] c.dst_desc.spec_dims()[i] == 1
}

/// A reduction configuration that can become an execution plan. The
/// minimum and maximum need at least one cell to fold.
pub open spec fn spec_reduction_valid(c: &ForwardReductionConfig) -> bool {
    &&& spec_reduction_dtype_ok(c)
    &&& spec_reduction_shape_ok(c)
    &&& spec_reduction_alg_supported(c.alg_kind)
    &&& (c.alg_kind is Min || c.alg_kind is Max ==> spec_prod(c.src_desc.spec_dims()) >= 1)
}

impl ForwardReductionConfig {
    /// Validates this configuration against an engine and produces the
    /// execution plan.
    ///
    /// The reduction runs forward-inference only: any other propagation
    /// kind is an unsupported combination. A mixed data type is rejected as
    /// invalid data type and a dimension-count mismatch as invalid shape. A
    /// destination that keeps an axis, an algorithm without an exact
    /// integer meaning, and an extremum over an empty tensor are all
    /// rejected as unsupported.
    pub fn create_primitive_desc(self, engine: Arc<Engine>, prop: PropKind) -> (r: Result<
        PrimitiveDescriptor,
        DnnlError,
    >)
        ensures
            prop != PropKind::ForwardInference ==> r == Err::<PrimitiveDescriptor, DnnlError>(
                DnnlError::Unsupported,
            ),
            prop == PropKind::ForwardInference && !spec_reduction_dtype_ok(&self) ==> r == Err::<
                PrimitiveDescriptor,
                DnnlError,
            >(DnnlError::InvalidDataType),
            prop == PropKind::ForwardInference && spec_reduction_dtype_ok(&self)
                && spec_reduction_ndims_mismatch(&self) ==> r == Err::<PrimitiveDescriptor, DnnlError>(
                DnnlError::InvalidShape,
            ),
            prop == PropKind::ForwardInference && spec_reduction_dtype_ok(&self)
                && !spec_reduction_ndims_mismatch(&self) && !spec_reduction_valid(&self) ==> r == Err::<
                PrimitiveDescriptor,
                DnnlError,
            >(DnnlError::Unsupported),
            prop == PropKind::ForwardInference && spec_reduction_valid(&self) ==> (r matches Ok(pd)
                && pd.spec_plan() == PrimitivePlan::Reduction(self) && pd.spec_prop() == prop
                && pd.spec_engine() == *engine),
    {
        if !matches!(prop, PropKind::ForwardInference) {
            return Err(DnnlError::Unsupported);
        }
        if !(self.src_desc.query_data_type() == self.dst_desc.query_data_type()) {
            return Err(DnnlError::InvalidDataType);
        }
        if self.dst_desc.query_ndims() != self.src_desc.query_ndims() {
            return Err(DnnlError::InvalidShape);
        }
        let d = self.dst_desc.query_dims();
        let mut i: usize = 0;
        while i < d.len()
            invariant
                i <= d@.len(),
                d@ == self.dst_desc.spec_dims(),
                prop == PropKind::ForwardInference,
                spec_reduction_dtype_ok(&self),
                !spec_reduction_ndims_mismatch(&self),
                forall|j: int| 0 <= j < i ==> #[trigger] d@[j] == 1,
            decreases d.len() - i,
        {
            if d[i] != 1 {
                return Err(DnnlError::Unsupported);
            }
            i = i + 1;
        }
        if !reduction_alg_supported(self.alg_kind) {
            return Err(DnnlError::Unsupported);
        }
        if matches!(self.alg_kind, Reduction::Min | Reduction::Max) {
            proof {
                use_type_invariant(&self.src_desc);
                crate::memory::descriptor::lemma_prod_nonneg(self.src_desc.spec_dims());
            }
            if self.src_desc.elem_count() == 0 {
                return Err(DnnlError::Unsupported);
            }
        }
        Ok(PrimitiveDescriptor::make(PrimitivePlan::Reduction(self), prop, engine))
    }
}

/// A dimension-count mismatch between source and destination.
pub open spec fn spec_reduction_ndims_mismatch(c: &ForwardReductionConfig) -> bool {
    c.dst_desc.spec_dims().len() != c.src_desc.spec_dims().len()
}

/// Marker for the forward reduction operation.
#[derive(Debug, Clone, Copy)]
pub struct ForwardReduction {
    pub prop_type: PropForwardInference,
}

impl ForwardReduction {
    /// The operation kind this marker denotes.
    pub fn op_type(&self) -> (r: OperationType)
        ensures
            r == OperationType::Reduction,
    {
        OperationType::Reduction
    }
}

/// A well-formed argument list for a reduction plan: the source and
/// destination slots, each once, each bound to storage under the plan's
/// descriptors.
pub open spec fn spec_reduction_args_ok(c: &ForwardReductionConfig, args: Seq<ExecArg>) -> bool {
    &&& args.len() == 2
    &&& spec_slot_count(args, ARG_SRC_0) == 1
    &&& spec_slot_count(args, ARG_DST) == 1
    &&& forall|j: int|
        0 <= j < args.len() ==> {
            &&& ((#[trigger] args[j]).index == ARG_SRC_0 ==> args[j].mem.spec_desc().spec_equal(
                &c.src_desc,
            ) && args[j].mem.spec_has_storage())
            &&& (args[j].index == ARG_DST ==> args[j].mem.spec_desc().spec_equal(&c.dst_desc)
                && args[j].mem.spec_has_storage())
        }
}

/// True when every partial fold over the bound source fits the cell type.
pub open spec fn spec_reduction_args_fits(c: &ForwardReductionConfig, args: Seq<ExecArg>) -> bool {
    forall|a: int|
        (0 <= a < args.len() && (#[trigger] args[a]).index == ARG_SRC_0) ==> spec_reduce_fits(
            c.alg_kind,
            args[a].mem.spec_data(),
        )
}

/// Result of executing a reduction plan: a single destination cell holding
/// the fold.
pub open spec fn spec_reduction_post(
    c: &ForwardReductionConfig,
    args: Seq<ExecArg>,
    out: Seq<ExecArg>,
) -> bool {
    &&& out.len() == args.len()
    &&& forall|j: int| 0 <= j < args.len() ==> (#[trigger] out[j]).index == args[j].index
    &&& forall|j: int|
        0 <= j < args.len() && (#[trigger] args[j]).index != ARG_DST ==> out[j].mem == args[j].mem
    &&& forall|j: int, a: int|
        (0 <= j < args.len() && 0 <= a < args.len() && (#[trigger] args[j]).index == ARG_DST && (
        #[trigger] args[a]).index == ARG_SRC_0) ==> (out[j].mem.spec_desc()
            == args[j].mem.spec_desc() && out[j].mem.spec_engine() == args[j].mem.spec_engine()
            && out[j].mem.spec_data() == seq![
                spec_reduce_result(c.alg_kind, args[a].mem.spec_data()) as i64,
            ])
}

/// Executes a reduction plan over an argument list.
pub(crate) fn reduction_execute(c: &ForwardReductionConfig, args: Vec<ExecArg>) -> (r: Result<
    Vec<ExecArg>,
    DnnlError,
>)
    requires
        spec_reduction_valid(c),
    ensures
        r is Ok <==> (spec_reduction_args_ok(c, args@) && spec_reduction_args_fits(c, args@)),
        !spec_reduction_args_ok(c, args@) ==> r == Err::<Vec<ExecArg>, DnnlError>(
            DnnlError::InvalidArguments,
        ),
        spec_reduction_args_ok(c, args@) && !spec_reduction_args_fits(c, args@) ==> r == Err::<
            Vec<ExecArg>,
            DnnlError,
        >(DnnlError::RuntimeError),
        r matches Ok(out) ==> spec_reduction_post(c, args@, out@),
{
    let ghost gargs = args@;
    if args.len() != 2 {
        return Err(DnnlError::InvalidArguments);
    }
    let p0 = match find_arg(&args, ARG_SRC_0) {
        Some(p) => p,
        None => {
            proof {
                lemma_slot_count_zero(gargs, ARG_SRC_0);
            }
            return Err(DnnlError::InvalidArguments);
        },
    };
    let pd = match find_arg(&args, ARG_DST) {
        Some(p) => p,
        None => {
            proof {
                lemma_slot_count_zero(gargs, ARG_DST);
            }
            return Err(DnnlError::InvalidArguments);
        },
    };
    if crate::primitive::count_arg(&args, ARG_SRC_0) != 1 || crate::primitive::count_arg(
        &args,
        ARG_DST,
    ) != 1 {
        return Err(DnnlError::InvalidArguments);
    }
    if !(args[p0].mem.desc().equal(&c.src_desc) && args[p0].mem.has_storage()) {
        return Err(DnnlError::InvalidArguments);
    }
    if !(args[pd].mem.desc().equal(&c.dst_desc) && args[pd].mem.has_storage()) {
        return Err(DnnlError::InvalidArguments);
    }
    proof {
        assert forall|j: int| 0 <= j < gargs.len() implies {
            &&& ((#[trigger] gargs[j]).index == ARG_SRC_0 ==> gargs[j].mem.spec_desc().spec_equal(
                &c.src_desc,
            ) && gargs[j].mem.spec_has_storage())
            &&& (gargs[j].index == ARG_DST ==> gargs[j].mem.spec_desc().spec_equal(&c.dst_desc)
                && gargs[j].mem.spec_has_storage())
        } by {
            if gargs[j].index == ARG_SRC_0 {
                lemma_slot_count_unique(gargs, ARG_SRC_0, j, p0 as int);
            }
            if gargs[j].index == ARG_DST {
                lemma_slot_count_unique(gargs, ARG_DST, j, pd as int);
            }
        }
        assert(spec_reduction_args_ok(c, gargs));
    }
    let s = args[p0].mem.data_vec();
    let folded = match reduce_kernel(c.alg_kind, &s) {
        Some(v) => v,
        None => {
            return Err(DnnlError::RuntimeError);
        },
    };
    proof {
        assert forall|x: int|
            (0 <= x < gargs.len() && (#[trigger] gargs[x]).index == ARG_SRC_0) implies spec_reduce_fits(
            c.alg_kind,
            gargs[x].mem.spec_data(),
        ) by {
            lemma_slot_count_unique(gargs, ARG_SRC_0, x, p0 as int);
        }
    }
    let mut result: Vec<i64> = Vec::new();
    result.push(folded);
    proof {
        use_type_invariant(&c.dst_desc);
        lemma_prod_ones(c.dst_desc.spec_dims());
        assert(result@ =~= seq![folded]);
    }
    let mut args = args;
    let dst_arg = args.remove(pd);
    let new_mem = dst_arg.mem.with_data(&result);
    args.insert(pd, ExecArg { index: dst_arg.index, mem: new_mem });
    proof {
        assert(args@ =~= gargs.update(pd as int, args@[pd as int]));
        assert forall|j: int, x: int|
            (0 <= j < gargs.len() && 0 <= x < gargs.len() && (#[trigger] gargs[j]).index == ARG_DST
                && (#[trigger] gargs[x]).index == ARG_SRC_0) implies (args@[j].mem.spec_desc()
            == gargs[j].mem.spec_desc() && args@[j].mem.spec_engine() == gargs[j].mem.spec_engine()
            && args@[j].mem.spec_data() == seq![
                spec_reduce_result(c.alg_kind, gargs[x].mem.spec_data()) as i64,
            ]) by {
            lemma_slot_count_unique(gargs, ARG_DST, j, pd as int);
            lemma_slot_count_unique(gargs, ARG_SRC_0, x, p0 as int);
            assert(args@[j].mem.spec_data() =~= seq![
                spec_reduce_result(c.alg_kind, gargs[x].mem.spec_data()) as i64,
            ]);
        }
        assert(spec_reduction_post(c, gargs, args@));
    }
    Ok(args)
}

} // verus!
