use crate::engine::Engine;
use crate::error::DnnlError;
use crate::memory::descriptor::MemoryDescriptor;
use crate::primitive::attributes::PrimitiveAttributes;
use crate::primitive::descriptor::{PrimitiveDescriptor, PrimitivePlan};
use crate::primitive::{
    find_arg, lemma_slot_count_unique, lemma_slot_count_zero, spec_slot_count, ExecArg,
    OperationType, PropKind, ARG_DST, ARG_SRC_0, ARG_WEIGHTS,
};
use std::sync::Arc;
use vstd::prelude::*;

verus! {

/// Value of one parametric-rectifier application: the input where it is
/// positive, the input scaled by its weight elsewhere.
pub open spec fn spec_prelu_val(x: i64, w: i64) -> int {
    if x > 0 {
        x as int
    } else {
        w * x
    }
}

/// True when one parametric-rectifier result fits the cell type.
pub open spec fn spec_prelu_val_fits(x: i64, w: i64) -> bool {
    i64::MIN <= spec_prelu_val(x, w) <= i64::MAX
}

/// Parametric-rectifier application over whole tensors.
pub open spec fn spec_prelu_seq(a: Seq<i64>, w: Seq<i64>) -> Seq<i64> {
    Seq::new(a.len(), |i: int| spec_prelu_val(a[i], w[i]) as i64)
}

/// True when every parametric-rectifier result fits the cell type.
pub open spec fn spec_prelu_seq_fits(a: Seq<i64>, w: Seq<i64>) -> bool {
    forall|i: int| 0 <= i < a.len() ==> spec_prelu_val_fits(a[i], #[trigger] w[i])
}

/// Applies the parametric rectifier elementwise; `None` exactly when some
/// result does not fit the cell type.
fn prelu_kernel(a: &Vec<i64>, w: &Vec<i64>) -> (r: Option<Vec<i64>>)
    requires
        a@.len() == w@.len(),
    ensures
        r is Some <==> spec_prelu_seq_fits(a@, w@),
        r matches Some(v) ==> v@ == spec_prelu_seq(a@, w@),
{
    let mut out: Vec<i64> = Vec::new();
    let mut i: usize = 0;
    while i < a.len()
        invariant
            i <= a@.len(),
            a@.len() == w@.len(),
            out@.len() == i,
            forall|j: int| 0 <= j < i ==> spec_prelu_val_fits(a@[j], #[trigger] w@[j]),
            forall|j: int| 0 <= j < i ==> #[trigger] out@[j] == spec_prelu_val(a@[j], w@[j]) as i64,
        decreases a.len() - i,
    {
        let x = a[i];
        let cell: Option<i64> = if x > 0 {
            Some(x)
        } else {
            w[i].checked_mul(x)
        };
        match cell {
            Some(v) => {
                out.push(v);
            },
            None => {
                return None;
            },
        }
        i = i + 1;
    }
    proof {
        assert(out@ =~= spec_prelu_seq(a@, w@));
    }
    Some(out)
}

/// Configuration of a forward parametric rectifier.
#[derive(Debug)]
pub struct ForwardPreluConfig {
    pub src_desc: MemoryDescriptor,
    pub weights_desc: MemoryDescriptor,
    pub dst_desc: MemoryDescriptor,
    pub attr: PrimitiveAttributes,
}

/// All three descriptors share one data type.
pub open spec fn spec_prelu_dtype_ok(c: &ForwardPreluConfig) -> bool {
    &&& c.src_desc.spec_data_type() == c.dst_desc.spec_data_type()
    &&& c.weights_desc.spec_data_type() == c.dst_desc.spec_data_type()
}

/// All three descriptors share one shape: the weights are not broadcast.
pub open spec fn spec_prelu_shape_ok(c: &ForwardPreluConfig) -> bool {
    &&& c.src_desc.spec_dims() == c.dst_desc.spec_dims()
    &&& c.weights_desc.spec_dims() == c.dst_desc.spec_dims()
}

/// A parametric-rectifier configuration that can become an execution plan.
pub open spec fn spec_prelu_valid(c: &ForwardPreluConfig) -> bool {
    &&& spec_prelu_dtype_ok(c)
    &&& spec_prelu_shape_ok(c)
}

impl ForwardPreluConfig {
    /// Validates this configuration against an engine and produces the
    /// execution plan.
    ///
    /// The parametric rectifier pairs with the two forward propagation
    /// kinds only; any other kind is an unsupported combination. A mixed
    /// data type is rejected as invalid data type, and a weight tensor not
    /// shaped exactly like the data as invalid shape.
    pub fn create_primitive_desc(self, engine: Arc<Engine>, prop: PropKind) -> (r: Result<
        PrimitiveDescriptor,
        DnnlError,
    >)
        ensures
            !crate::primitive::spec_prop_is_forward(prop) ==> r == Err::<
                PrimitiveDescriptor,
                DnnlError,
            >(DnnlError::Unsupported),
            crate::primitive::spec_prop_is_forward(prop) && !spec_prelu_dtype_ok(&self) ==> r
                == Err::<PrimitiveDescriptor, DnnlError>(DnnlError::InvalidDataType),
            crate::primitive::spec_prop_is_forward(prop) && spec_prelu_dtype_ok(&self)
                && !spec_prelu_shape_ok(&self) ==> r == Err::<PrimitiveDescriptor, DnnlError>(
                DnnlError::InvalidShape,
            ),
            crate::primitive::spec_prop_is_forward(prop) && spec_prelu_valid(&self) ==> (
            r matches Ok(pd) && pd.spec_plan() == PrimitivePlan::Prelu(self) && pd.spec_prop()
                == prop && pd.spec_engine() == *engine),
    {
        if !matches!(prop, PropKind::ForwardTraining | PropKind::ForwardInference) {
            return Err(DnnlError::Unsupported);
        }
        let dt = self.dst_desc.query_data_type();
        if !(self.src_desc.query_data_type() == dt && self.weights_desc.query_data_type() == dt) {
            return Err(DnnlError::InvalidDataType);
        }
        if !(self.src_desc.same_dims(&self.dst_desc) && self.weights_desc.same_dims(
            &self.dst_desc,
        )) {
            return Err(DnnlError::InvalidShape);
        }
        Ok(PrimitiveDescriptor::make(PrimitivePlan::Prelu(self), prop, engine))
    }
}

/// Marker for the forward parametric-rectifier operation.
#[derive(Debug, Clone, Copy)]
pub struct ForwardPrelu;

impl ForwardPrelu {
    /// The operation kind this marker denotes.
    pub fn op_type(&self) -> (r: OperationType)
        ensures
            r == OperationType::PRelu,
    {
        OperationType::PRelu
    }
}

/// A well-formed argument list for a parametric-rectifier plan: source,
/// weights and destination slots, each once, each bound to storage under
/// the plan's descriptors.
pub open spec fn spec_prelu_args_ok(c: &ForwardPreluConfig, args: Seq<ExecArg>) -> bool {
    &&& args.len() == 3
    &&& spec_slot_count(args, ARG_SRC_0) == 1
    &&& spec_slot_count(args, ARG_WEIGHTS) == 1
    &&& spec_slot_count(args, ARG_DST) == 1
    &&& forall|j: int|
        0 <= j < args.len() ==> {
            &&& ((#[trigger] args[j]).index == ARG_SRC_0 ==> args[j].mem.spec_desc().spec_equal(
                &c.src_desc,
            ) && args[j].mem.spec_has_storage())
            &&& (args[j].index == ARG_WEIGHTS ==> args[j].mem.spec_desc().spec_equal(
                &c.weights_desc,
            ) && args[j].mem.spec_has_storage())
            &&& (args[j].index == ARG_DST ==> args[j].mem.spec_desc().spec_equal(&c.dst_desc)
                && args[j].mem.spec_has_storage())
        }
}

/// True when every result over the bound tensors fits the cell type.
pub open spec fn spec_prelu_args_fits(c: &ForwardPreluConfig, args: Seq<ExecArg>) -> bool {
    forall|a: int, w: int|
        (0 <= a < args.len() && 0 <= w < args.len() && (#[trigger] args[a]).index == ARG_SRC_0 && (
        #[trigger] args[w]).index == ARG_WEIGHTS) ==> spec_prelu_seq_fits(
            args[a].mem.spec_data(),
            args[w].mem.spec_data(),
        )
}

/// Result of executing a parametric-rectifier plan.
pub open spec fn spec_prelu_post(
    c: &ForwardPreluConfig,
    args: Seq<ExecArg>,
    out: Seq<ExecArg>,
) -> bool {
    &&& out.len() == args.len()
    &&& forall|j: int| 0 <= j < args.len() ==> (#[trigger] out[j]).index == args[j].index
    &&& forall|j: int|
        0 <= j < args.len() && (#[trigger] args[j]).index != ARG_DST ==> out[j].mem == args[j].mem
    &&& forall|j: int, a: int, w: int|
        (0 <= j < args.len() && 0 <= a < args.len() && 0 <= w < args.len() && (
        #[trigger] args[j]).index == ARG_DST && (#[trigger] args[a]).index == ARG_SRC_0 && (
        #[trigger] args[w]).index == ARG_WEIGHTS) ==> (out[j].mem.spec_desc()
            == args[j].mem.spec_desc() && out[j].mem.spec_engine() == args[j].mem.spec_engine()
            && out[j].mem.spec_data() == spec_prelu_seq(
            args[a].mem.spec_data(),
            args[w].mem.spec_data(),
        ))
}

/// Executes a parametric-rectifier plan over an argument list.
pub(crate) fn prelu_execute(c: &ForwardPreluConfig, args: Vec<ExecArg>) -> (r: Result<
    Vec<ExecArg>,
    DnnlError,
>)
    requires
        spec_prelu_valid(c),
    ensures
        r is Ok <==> (spec_prelu_args_ok(c, args@) && spec_prelu_args_fits(c, args@)),
        !spec_prelu_args_ok(c, args@) ==> r == Err::<Vec<ExecArg>, DnnlError>(
            DnnlError::InvalidArguments,
        ),
        spec_prelu_args_ok(c, args@) && !spec_prelu_args_fits(c, args@) ==> r == Err::<
            Vec<ExecArg>,
            DnnlError,
        >(DnnlError::RuntimeError),
        r matches Ok(out) ==> spec_prelu_post(c, args@, out@),
{
    let ghost gargs = args@;
    if args.len() != 3 {
        return Err(DnnlError::InvalidArguments);
    }
    let pa = match find_arg(&args, ARG_SRC_0) {
        Some(p) => p,
        None => {
            proof {
                lemma_slot_count_zero(gargs, ARG_SRC_0);
            }
            return Err(DnnlError::InvalidArguments);
        },
    };
    let pw = match find_arg(&args, ARG_WEIGHTS) {
        Some(p) => p,
        None => {
            proof {
                lemma_slot_count_zero(gargs, ARG_WEIGHTS);
            }
            return Err(DnnlError::InvalidArguments);
        },
    };
    let pd = match find_arg(&args, ARG_DST) {
        Some(p) => p,
        None => {
            proof {
                lemma_slot_count_zero(gargs, ARG_DST);
            }
            return Err(DnnlError::InvalidArguments);
        },
    };
    if crate::primitive::count_arg(&args, ARG_SRC_0) != 1 || crate::primitive::count_arg(
        &args,
        ARG_WEIGHTS,
    ) != 1 || crate::primitive::count_arg(&args, ARG_DST) != 1 {
        return Err(DnnlError::InvalidArguments);
    }
    if !(args[pa].mem.desc().equal(&c.src_desc) && args[pa].mem.has_storage()) {
        return Err(DnnlError::InvalidArguments);
    }
    if !(args[pw].mem.desc().equal(&c.weights_desc) && args[pw].mem.has_storage()) {
        return Err(DnnlError::InvalidArguments);
    }
    if !(args[pd].mem.desc().equal(&c.dst_desc) && args[pd].mem.has_storage()) {
        return Err(DnnlError::InvalidArguments);
    }
    proof {
        assert forall|j: int| 0 <= j < gargs.len() implies {
            &&& ((#[trigger] gargs[j]).index == ARG_SRC_0 ==> gargs[j].mem.spec_desc().spec_equal(
                &c.src_desc,
            ) && gargs[j].mem.spec_has_storage())
            &&& (gargs[j].index == ARG_WEIGHTS ==> gargs[j].mem.spec_desc().spec_equal(
                &c.weights_desc,
            ) && gargs[j].mem.spec_has_storage())
            &&& (gargs[j].index == ARG_DST ==> gargs[j].mem.spec_desc().spec_equal(&c.dst_desc)
                && gargs[j].mem.spec_has_storage())
        } by {
            if gargs[j].index == ARG_SRC_0 {
                lemma_slot_count_unique(gargs, ARG_SRC_0, j, pa as int);
            }
            if gargs[j].index == ARG_WEIGHTS {
                lemma_slot_count_unique(gargs, ARG_WEIGHTS, j, pw as int);
            }
            if gargs[j].index == ARG_DST {
                lemma_slot_count_unique(gargs, ARG_DST, j, pd as int);
            }
        }
        assert(spec_prelu_args_ok(c, gargs));
    }
    let a = args[pa].mem.data_vec();
    let w = args[pw].mem.data_vec();
    let result = match prelu_kernel(&a, &w) {
        Some(v) => v,
        None => {
            return Err(DnnlError::RuntimeError);
        },
    };
    proof {
        assert forall|x: int, y: int|
            (0 <= x < gargs.len() && 0 <= y < gargs.len() && (#[trigger] gargs[x]).index
                == ARG_SRC_0 && (#[trigger] gargs[y]).index == ARG_WEIGHTS) implies spec_prelu_seq_fits(
            gargs[x].mem.spec_data(),
            gargs[y].mem.spec_data(),
        ) by {
            lemma_slot_count_unique(gargs, ARG_SRC_0, x, pa as int);
            lemma_slot_count_unique(gargs, ARG_WEIGHTS, y, pw as int);
        }
    }
    let mut args = args;
    let dst_arg = args.remove(pd);
    let new_mem = dst_arg.mem.with_data(&result);
    args.insert(pd, ExecArg { index: dst_arg.index, mem: new_mem });
    proof {
        assert(args@ =~= gargs.update(pd as int, args@[pd as int]));
        assert forall|j: int, x: int, y: int|
            (0 <= j < gargs.len() && 0 <= x < gargs.len() && 0 <= y < gargs.len() && (
            #[trigger] gargs[j]).index == ARG_DST && (#[trigger] gargs[x]).index == ARG_SRC_0 && (
            #[trigger] gargs[y]).index == ARG_WEIGHTS) implies (args@[j].mem.spec_desc()
            == gargs[j].mem.spec_desc() && args@[j].mem.spec_engine() == gargs[j].mem.spec_engine()
            && args@[j].mem.spec_data() == spec_prelu_seq(
            gargs[x].mem.spec_data(),
            gargs[y].mem.spec_data(),
        )) by {
            lemma_slot_count_unique(gargs, ARG_DST, j, pd as int);
            lemma_slot_count_unique(gargs, ARG_SRC_0, x, pa as int);
            lemma_slot_count_unique(gargs, ARG_WEIGHTS, y, pw as int);
        }
        assert(spec_prelu_post(c, gargs, args@));
    }
    Ok(args)
}

} // verus!
