use crate::engine::Engine;
use crate::error::DnnlError;
use crate::memory::descriptor::MemoryDescriptor;
use crate::primitive::attributes::PrimitiveAttributes;
use crate::primitive::descriptor::{PrimitiveDescriptor, PrimitivePlan};
use crate::primitive::{
    find_arg, lemma_slot_count_unique, lemma_slot_count_zero, spec_slot_count, ExecArg,
    OperationType, PropForwardInference, PropKind, ARG_DST, ARG_SRC_0, ARG_SRC_1,
};
use std::sync::Arc;
use vstd::prelude::*;

verus! {

/// The elementwise binary algorithms.
#[derive(Debug, Clone, Copy, PartialEq, Eq, Structural)]
pub enum Binary {
    Add,
    Div,
    Eq,
    Ge,
    Gt,
    Le,
    Lt,
    Max,
    Min,
    Mul,
    Ne,
    Sub,
}

/// The binary algorithms this library executes: every algorithm whose
/// result is exact over the integer cell type. Division is not among them.
pub open spec fn spec_binary_alg_supported(alg: Binary) -> bool {
    !(alg is Div)
}

/// True when a binary algorithm is executable here.
pub fn binary_alg_supported(alg: Binary) -> (r: bool)
    ensures
        r == spec_binary_alg_supported(alg),
{
    !matches!(alg, Binary::Div)
}

/// Mathematical value of one elementwise application; comparisons yield one
/// or zero.
pub open spec fn spec_binary_val(alg: Binary, x: i64, y: i64) -> int {
    match alg {
        Binary::Add => x + y,
        Binary::Sub => x - y,
        Binary::Mul => x * y,
        Binary::Min => if x <= y {
            x as int
        } else {
            y as int
        },
        Binary::Max => if x >= y {
            x as int
        } else {
            y as int
        },
        Binary::Eq => if x == y {
            1
        } else {
            0
        },
        Binary::Ne => if x != y {
            1
        } else {
            0
        },
        Binary::Gt => if x > y {
            1
        } else {
            0
        },
        Binary::Ge => if x >= y {
            1
        } else {
            0
        },
        Binary::Lt => if x < y {
            1
        } else {
            0
        },
        Binary::Le => if x <= y {
            1
        } else {
            0
        },
        Binary::Div => 0,
    }
}

/// True when one elementwise result fits the cell type.
pub open spec fn spec_binary_val_fits(alg: Binary, x: i64, y: i64) -> bool {
    i64::MIN <= spec_binary_val(alg, x, y) <= i64::MAX
}

/// Elementwise application over whole tensors.
pub open spec fn spec_binary_seq(alg: Binary, a: Seq<i64>, b: Seq<i64>) -> Seq<i64> {
    Seq::new(a.len(), |i: int| spec_binary_val(alg, a[i], b[i]) as i64)
}

/// True when every elementwise result fits the cell type.
pub open spec fn spec_binary_seq_fits(alg: Binary, a: Seq<i64>, b: Seq<i64>) -> bool {
    forall|i: int| 0 <= i < a.len() ==> spec_binary_val_fits(alg, a[i], #[trigger] b[i])
}

/// Applies a binary algorithm elementwise; `None` exactly when some result
/// does not fit the cell type.
fn binary_kernel(alg: Binary, a: &Vec<i64>, b: &Vec<i64>) -> (r: Option<Vec<i64>>)
    requires
        spec_binary_alg_supported(alg),
        a@.len() == b@.len(),
    ensures
        r is Some <==> spec_binary_seq_fits(alg, a@, b@),
        r matches Some(v) ==> v@ == spec_binary_seq(alg, a@, b@),
{
    let mut out: Vec<i64> = Vec::new();
    let mut i: usize = 0;
    while i < a.len()
        invariant
            i <= a@.len(),
            a@.len() == b@.len(),
            spec_binary_alg_supported(alg),
            out@.len() == i,
            forall|j: int| 0 <= j < i ==> spec_binary_val_fits(alg, a@[j], #[trigger] b@[j]),
            forall|j: int|
                0 <= j < i ==> #[trigger] out@[j] == spec_binary_val(alg, a@[j], b@[j]) as i64,
        decreases a.len() - i,
    {
        let x = a[i];
        let y = b[i];
        let cell: Option<i64> = match alg {
            Binary::Add => x.checked_add(y),
            Binary::Sub => x.checked_sub(y),
            Binary::Mul => x.checked_mul(y),
            Binary::Min => Some(
                if x <= y {
                    x
                } else {
                    y
                },
            ),
            Binary::Max => Some(
                if x >= y {
                    x
                } else {
                    y
                },
            ),
            Binary::Eq => Some(
                if x == y {
                    1
                } else {
                    0
                },
            ),
            Binary::Ne => Some(
                if x != y {
                    1
                } else {
                    0
                },
            ),
            Binary::Gt => Some(
                if x > y {
                    1
                } else {
                    0
                },
            ),
            Binary::Ge => Some(
                if x >= y {
                    1
                } else {
                    0
                },
            ),
            Binary::Lt => Some(
                if x < y {
                    1
                } else {
                    0
                },
            ),
            Binary::Le => Some(
                if x <= y {
                    1
                } else {
                    0
                },
            ),
            Binary::Div => {
                proof {
                    assert(false);
                }
                None
            },
        };
        match cell {
            Some(v) => {
                out.push(v);
            },
            None => {
                return None;
            },
        }
        i = i + 1;
    }
    proof {
        assert(out@ =~= spec_binary_seq(alg, a@, b@));
    }
    Some(out)
}

/// Configuration of a forward elementwise binary operation.
#[derive(Debug)]
pub struct ForwardBinaryConfig {
    pub alg_kind: Binary,
    pub src0_desc: MemoryDescriptor,
    pub src1_desc: MemoryDescriptor,
    pub dst_desc: MemoryDescriptor,
    pub attr: PrimitiveAttributes,
}

/// All three descriptors share one data type.
pub open spec fn spec_binary_dtype_ok(c: &ForwardBinaryConfig) -> bool {
    &&& c.src0_desc.spec_data_type() == c.dst_desc.spec_data_type()
    &&& c.src1_desc.spec_data_type() == c.dst_desc.spec_data_type()
}

/// All three descriptors share one shape.
pub open spec fn spec_binary_shape_ok(c: &ForwardBinaryConfig) -> bool {
    &&& c.src0_desc.spec_dims() == c.dst_desc.spec_dims()
    &&& c.src1_desc.spec_dims() == c.dst_desc.spec_dims()
}

/// A binary configuration that can become an execution plan.
pub open spec fn spec_binary_valid(c: &ForwardBinaryConfig) -> bool {
    &&& spec_binary_dtype_ok(c)
    &&& spec_binary_shape_ok(c)
    &&& spec_binary_alg_supported(c.alg_kind)
}

impl ForwardBinaryConfig {
    /// Validates this configuration against an engine and produces the
    /// execution plan.
    ///
    /// The binary operation runs forward-inference only: any other
    /// propagation kind is an unsupported combination. Mixed data types are
    /// rejected as invalid data type, mismatched shapes as invalid shape,
    /// and an algorithm without an exact integer meaning as unsupported.
    pub fn create_primitive_desc(self, engine: Arc<Engine>, prop: PropKind) -> (r: Result<
        PrimitiveDescriptor,
        DnnlError,
    >)
        ensures
            prop != PropKind::ForwardInference ==> r == Err::<PrimitiveDescriptor, DnnlError>(
                DnnlError::Unsupported,
            ),
            prop == PropKind::ForwardInference && !spec_binary_dtype_ok(&self) ==> r == Err::<
                PrimitiveDescriptor,
                DnnlError,
            >(DnnlError::InvalidDataType),
            prop == PropKind::ForwardInference && spec_binary_dtype_ok(&self)
                && !spec_binary_shape_ok(&self) ==> r == Err::<PrimitiveDescriptor, DnnlError>(
                DnnlError::InvalidShape,
            ),
            prop == PropKind::ForwardInference && spec_binary_dtype_ok(&self)
                && spec_binary_shape_ok(&self) && !spec_binary_alg_supported(self.alg_kind) ==> r
                == Err::<PrimitiveDescriptor, DnnlError>(DnnlError::Unsupported),
            prop == PropKind::ForwardInference && spec_binary_valid(&self) ==> (r matches Ok(pd)
                && pd.spec_plan() == PrimitivePlan::Binary(self) && pd.spec_prop() == prop
                && pd.spec_engine() == *engine),
    {
        if !matches!(prop, PropKind::ForwardInference) {
            return Err(DnnlError::Unsupported);
        }
        let dt = self.dst_desc.query_data_type();
        if !(self.src0_desc.query_data_type() == dt && self.src1_desc.query_data_type() == dt) {
            return Err(DnnlError::InvalidDataType);
        }
        if !(self.src0_desc.same_dims(&self.dst_desc) && self.src1_desc.same_dims(&self.dst_desc)) {
            return Err(DnnlError::InvalidShape);
        }
        if !binary_alg_supported(self.alg_kind) {
            return Err(DnnlError::Unsupported);
        }
        Ok(PrimitiveDescriptor::make(PrimitivePlan::Binary(self), prop, engine))
    }
}

/// Marker for the forward binary operation.
#[derive(Debug, Clone, Copy)]
pub struct ForwardBinary {
    pub prop_type: PropForwardInference,
}

impl ForwardBinary {
    /// The operation kind this marker denotes.
    pub fn op_type(&self) -> (r: OperationType)
        ensures
            r == OperationType::Binary,
    {
        OperationType::Binary
    }
}

/// A well-formed argument list for a binary plan: exactly the two source
/// slots and the destination slot, each once, each bound to storage under
/// the descriptor the plan was built with.
pub open spec fn spec_binary_args_ok(c: &ForwardBinaryConfig, args: Seq<ExecArg>) -> bool {
    &&& args.len() == 3
    &&& spec_slot_count(args, ARG_SRC_0) == 1
    &&& spec_slot_count(args, ARG_SRC_1) == 1
    &&& spec_slot_count(args, ARG_DST) == 1
    &&& forall|j: int|
        0 <= j < args.len() ==> {
            &&& ((#[trigger] args[j]).index == ARG_SRC_0 ==> args[j].mem.spec_desc().spec_equal(
                &c.src0_desc,
            ) && args[j].mem.spec_has_storage())
            &&& (args[j].index == ARG_SRC_1 ==> args[j].mem.spec_desc().spec_equal(&c.src1_desc)
                && args[j].mem.spec_has_storage())
            &&& (args[j].index == ARG_DST ==> args[j].mem.spec_desc().spec_equal(&c.dst_desc)
                && args[j].mem.spec_has_storage())
        }
}

/// True when every elementwise result over the bound sources fits the cell
/// type.
pub open spec fn spec_binary_args_fits(c: &ForwardBinaryConfig, args: Seq<ExecArg>) -> bool {
    forall|a: int, b: int|
        (0 <= a < args.len() && 0 <= b < args.len() && (#[trigger] args[a]).index == ARG_SRC_0 && (
        #[trigger] args[b]).index == ARG_SRC_1) ==> spec_binary_seq_fits(
            c.alg_kind,
            args[a].mem.spec_data(),
            args[b].mem.spec_data(),
        )
}

/// Result of executing a binary plan: the argument list with the
/// destination's data replaced by the elementwise result and everything
/// else unchanged.
pub open spec fn spec_binary_post(
    c: &ForwardBinaryConfig,
    args: Seq<ExecArg>,
    out: Seq<ExecArg>,
) -> bool {
    &&& out.len() == args.len()
    &&& forall|j: int| 0 <= j < args.len() ==> (#[trigger] out[j]).index == args[j].index
    &&& forall|j: int|
        0 <= j < args.len() && (#[trigger] args[j]).index != ARG_DST ==> out[j].mem == args[j].mem
    &&& forall|j: int, a: int, b: int|
        (0 <= j < args.len() && 0 <= a < args.len() && 0 <= b < args.len() && (
        #[trigger] args[j]).index == ARG_DST && (#[trigger] args[a]).index == ARG_SRC_0 && (
        #[trigger] args[b]).index == ARG_SRC_1) ==> (out[j].mem.spec_desc() == args[j].mem.spec_desc()
            && out[j].mem.spec_engine() == args[j].mem.spec_engine() && out[j].mem.spec_data()
            == spec_binary_seq(c.alg_kind, args[a].mem.spec_data(), args[b].mem.spec_data()))
}

/// Executes a binary plan over an argument list.
pub(crate) fn binary_execute(c: &ForwardBinaryConfig, args: Vec<ExecArg>) -> (r: Result<
    Vec<ExecArg>,
    DnnlError,
>)
    requires
        spec_binary_valid(c),
    ensures
        r is Ok <==> (spec_binary_args_ok(c, args@) && spec_binary_args_fits(c, args@)),
        !spec_binary_args_ok(c, args@) ==> r == Err::<Vec<ExecArg>, DnnlError>(
            DnnlError::InvalidArguments,
        ),
        spec_binary_args_ok(c, args@) && !spec_binary_args_fits(c, args@) ==> r == Err::<
            Vec<ExecArg>,
            DnnlError,
        >(DnnlError::RuntimeError),
        r matches Ok(out) ==> spec_binary_post(c, args@, out@),
{
    let ghost gargs = args@;
    if args.len() != 3 {
        return Err(DnnlError::InvalidArguments);
    }
    let p0 = match find_arg(&args, ARG_SRC_0) {
        Some(p) => p,
        None => {
            proof {
                lemma_slot_count_zero(gargs, ARG_SRC_0);
            }
            return Err(DnnlError::InvalidArguments);
        },
    };
    let p1 = match find_arg(&args, ARG_SRC_1) {
        Some(p) => p,
        None => {
            proof {
                lemma_slot_count_zero(gargs, ARG_SRC_1);
            }
            return Err(DnnlError::InvalidArguments);
        },
    };
    let pd = match find_arg(&args, ARG_DST) {
        Some(p) => p,
        None => {
            proof {
                lemma_slot_count_zero(gargs, ARG_DST);
            }
            return Err(DnnlError::InvalidArguments);
        },
    };
    if crate::primitive::count_arg(&args, ARG_SRC_0) != 1 || crate::primitive::count_arg(
        &args,
        ARG_SRC_1,
    ) != 1 || crate::primitive::count_arg(&args, ARG_DST) != 1 {
        return Err(DnnlError::InvalidArguments);
    }
    if !(args[p0].mem.desc().equal(&c.src0_desc) && args[p0].mem.has_storage()) {
        return Err(DnnlError::InvalidArguments);
    }
    if !(args[p1].mem.desc().equal(&c.src1_desc) && args[p1].mem.has_storage()) {
        return Err(DnnlError::InvalidArguments);
    }
    if !(args[pd].mem.desc().equal(&c.dst_desc) && args[pd].mem.has_storage()) {
        return Err(DnnlError::InvalidArguments);
    }
    proof {
        assert forall|j: int| 0 <= j < gargs.len() implies {
            &&& ((#[trigger] gargs[j]).index == ARG_SRC_0 ==> gargs[j].mem.spec_desc().spec_equal(
                &c.src0_desc,
            ) && gargs[j].mem.spec_has_storage())
            &&& (gargs[j].index == ARG_SRC_1 ==> gargs[j].mem.spec_desc().spec_equal(&c.src1_desc)
                && gargs[j].mem.spec_has_storage())
            &&& (gargs[j].index == ARG_DST ==> gargs[j].mem.spec_desc().spec_equal(&c.dst_desc)
                && gargs[j].mem.spec_has_storage())
        } by {
            if gargs[j].index == ARG_SRC_0 {
                lemma_slot_count_unique(gargs, ARG_SRC_0, j, p0 as int);
            }
            if gargs[j].index == ARG_SRC_1 {
                lemma_slot_count_unique(gargs, ARG_SRC_1, j, p1 as int);
            }
            if gargs[j].index == ARG_DST {
                lemma_slot_count_unique(gargs, ARG_DST, j, pd as int);
            }
        }
        assert(spec_binary_args_ok(c, gargs));
    }
    let a = args[p0].mem.data_vec();
    let b = args[p1].mem.data_vec();
    let result = match binary_kernel(c.alg_kind, &a, &b) {
        Some(v) => v,
        None => {
            return Err(DnnlError::RuntimeError);
        },
    };
    proof {
        assert forall|x: int, y: int|
            (0 <= x < gargs.len() && 0 <= y < gargs.len() && (#[trigger] gargs[x]).index
                == ARG_SRC_0 && (#[trigger] gargs[y]).index == ARG_SRC_1) implies spec_binary_seq_fits(
            c.alg_kind,
            gargs[x].mem.spec_data(),
            gargs[y].mem.spec_data(),
        ) by {
            lemma_slot_count_unique(gargs, ARG_SRC_0, x, p0 as int);
            lemma_slot_count_unique(gargs, ARG_SRC_1, y, p1 as int);
        }
    }
    let mut args = args;
    let dst_arg = args.remove(pd);
    let new_mem = dst_arg.mem.with_data(&result);
    args.insert(pd, ExecArg { index: dst_arg.index, mem: new_mem });
    proof {
        assert(args@ =~= gargs.update(pd as int, args@[pd as int]));
        assert forall|j: int, x: int, y: int|
            (0 <= j < gargs.len() && 0 <= x < gargs.len() && 0 <= y < gargs.len() && (
            #[trigger] gargs[j]).index == ARG_DST && (#[trigger] gargs[x]).index == ARG_SRC_0 && (
            #[trigger] gargs[y]).index == ARG_SRC_1) implies (args@[j].mem.spec_desc()
            == gargs[j].mem.spec_desc() && args@[j].mem.spec_engine() == gargs[j].mem.spec_engine()
            && args@[j].mem.spec_data() == spec_binary_seq(
            c.alg_kind,
            gargs[x].mem.spec_data(),
            gargs[y].mem.spec_data(),
        )) by {
            lemma_slot_count_unique(gargs, ARG_DST, j, pd as int);
            lemma_slot_count_unique(gargs, ARG_SRC_0, x, p0 as int);
            lemma_slot_count_unique(gargs, ARG_SRC_1, y, p1 as int);
        }
        assert(spec_binary_post(c, gargs, args@));
    }
    Ok(args)
}

} // verus!
