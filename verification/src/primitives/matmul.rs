use crate::engine::Engine;
use crate::error::DnnlError;
use crate::memory::descriptor::MemoryDescriptor;
use crate::primitive::attributes::PrimitiveAttributes;
use crate::primitive::descriptor::{PrimitiveDescriptor, PrimitivePlan};
use crate::primitive::{
    find_arg, lemma_slot_count_unique, lemma_slot_count_zero, spec_slot_count, ExecArg,
    OperationType, PropKind, ARG_BIAS, ARG_DST, ARG_SRC_0, ARG_WEIGHTS,
};
use std::sync::Arc;
use vstd::arithmetic::div_mod::lemma_fundamental_div_mod_converse;
use vstd::prelude::*;

verus! {

/// Partial dot product of one output cell: the sum of the first `t` terms
/// of row `m` of batch `b` of the source against column `n` of the
/// weights.
pub open spec fn spec_mm_partial(
    src: Seq<i64>,
    wts: Seq<i64>,
    m_dim: int,
    k_dim: int,
    n_dim: int,
    b: int,
    m: int,
    n: int,
    t: int,
) -> int
    decreases t,
{
    if t <= 0 {
        0
    } else {
        spec_mm_partial(src, wts, m_dim, k_dim, n_dim, b, m, n, t - 1) + src[(b * m_dim + m) * k_dim
            + (t - 1)] * wts[(b * k_dim + (t - 1)) * n_dim + n]
    }
}

/// One accumulation step stays within the cell type: the product of the
/// `t`-th pair and the sum including it.
pub open spec fn spec_mm_step_ok(
    src: Seq<i64>,
    wts: Seq<i64>,
    m_dim: int,
    k_dim: int,
    n_dim: int,
    b: int,
    m: int,
    n: int,
    t: int,
) -> bool {
    &&& i64::MIN <= src[(b * m_dim + m) * k_dim + t] * wts[(b * k_dim + t) * n_dim + n]
        <= i64::MAX
    &&& i64::MIN <= spec_mm_partial(src, wts, m_dim, k_dim, n_dim, b, m, n, t + 1) <= i64::MAX
}

/// Bias contribution at a flat output index: zero when the bias is absent.
pub open spec fn spec_mm_bias_at(bias: Seq<i64>, i: int) -> int {
    if bias.len() > 0 {
        bias[i] as int
    } else {
        0
    }
}

/// Value of the output cell at flat index `i`, row-major over batch, rows
/// and columns.
pub open spec fn spec_mm_val(
    src: Seq<i64>,
    wts: Seq<i64>,
    bias: Seq<i64>,
    m_dim: int,
    k_dim: int,
    n_dim: int,
    i: int,
) -> int {
    spec_mm_partial(
        src,
        wts,
        m_dim,
        k_dim,
        n_dim,
        i / (m_dim * n_dim),
        (i / n_dim) % m_dim,
        i % n_dim,
        k_dim,
    ) + spec_mm_bias_at(bias, i)
}

/// All accumulation steps and the final bias addition of the cell at flat
/// index `i` stay within the cell type.
pub open spec fn spec_mm_idx_fits(
    src: Seq<i64>,
    wts: Seq<i64>,
    bias: Seq<i64>,
    m_dim: int,
    k_dim: int,
    n_dim: int,
    i: int,
) -> bool {
    &&& forall|t: int|
        0 <= t < k_dim ==> #[trigger] spec_mm_step_ok(
            src,
            wts,
            m_dim,
            k_dim,
            n_dim,
            i / (m_dim * n_dim),
            (i / n_dim) % m_dim,
            i % n_dim,
            t,
        )
    &&& i64::MIN <= spec_mm_val(src, wts, bias, m_dim, k_dim, n_dim, i) <= i64::MAX
}

/// The whole matrix product stays within the cell type.
pub open spec fn spec_mm_fits(
    src: Seq<i64>,
    wts: Seq<i64>,
    bias: Seq<i64>,
    b_dim: int,
    m_dim: int,
    k_dim: int,
    n_dim: int,
) -> bool {
    forall|i: int|
        0 <= i < b_dim * m_dim * n_dim ==> #[trigger] spec_mm_idx_fits(
            src,
            wts,
            bias,
            m_dim,
            k_dim,
            n_dim,
            i,
        )
}

/// The matrix product, row-major over batch, rows and columns.
pub open spec fn spec_mm_out(
    src: Seq<i64>,
    wts: Seq<i64>,
    bias: Seq<i64>,
    b_dim: int,
    m_dim: int,
    k_dim: int,
    n_dim: int,
) -> Seq<i64> {
    Seq::new(
        (b_dim * m_dim * n_dim) as nat,
        |i: int| spec_mm_val(src, wts, bias, m_dim, k_dim, n_dim, i) as i64,
    )
}

/// Accumulates one output cell; `None` exactly when a step leaves the cell
/// type.
fn mm_cell(
    src: &Vec<i64>,
    wts: &Vec<i64>,
    b_dim: usize,
    m_dim: usize,
    k_dim: usize,
    n_dim: usize,
    b: usize,
    m: usize,
    n: usize,
) -> (r: Option<i64>)
    requires
        1 <= b_dim && 1 <= m_dim && 1 <= k_dim && 1 <= n_dim,
        b < b_dim,
        m < m_dim,
        n < n_dim,
        src@.len() == b_dim * m_dim * k_dim,
        wts@.len() == b_dim * k_dim * n_dim,
    ensures
        r is Some <==> (forall|t: int|
            0 <= t < k_dim ==> #[trigger] spec_mm_step_ok(
                src@,
                wts@,
                m_dim as int,
                k_dim as int,
                n_dim as int,
                b as int,
                m as int,
                n as int,
                t,
            )),
        r matches Some(v) ==> v == spec_mm_partial(
            src@,
            wts@,
            m_dim as int,
            k_dim as int,
            n_dim as int,
            b as int,
            m as int,
            n as int,
            k_dim as int,
        ),
{
    let src_len = src.len();
    let wts_len = wts.len();
    proof {
        assert((b * m_dim + m) * k_dim + k_dim <= b_dim * m_dim * k_dim) by (nonlinear_arith)
            requires
                b + 1 <= b_dim,
                m + 1 <= m_dim,
                1 <= k_dim,
        ;
        assert(b * m_dim + m < b_dim * m_dim) by (nonlinear_arith)
            requires
                b + 1 <= b_dim,
                m + 1 <= m_dim,
        ;
        assert(b_dim * m_dim <= b_dim * m_dim * k_dim) by (nonlinear_arith)
            requires
                1 <= k_dim,
                0 <= b_dim * m_dim,
        ;
        assert((b * k_dim + k_dim - 1) * n_dim + n_dim <= b_dim * k_dim * n_dim)
            by (nonlinear_arith)
            requires
                b + 1 <= b_dim,
                1 <= k_dim,
                n + 1 <= n_dim,
        ;
    }
    let row = (b * m_dim + m) * k_dim;
    let mut acc: i64 = 0;
    let mut t: usize = 0;
    while t < k_dim
        invariant
            t <= k_dim,
            1 <= k_dim && 1 <= n_dim,
            b < b_dim,
            m < m_dim,
            n < n_dim,
            src@.len() == b_dim * m_dim * k_dim,
            wts@.len() == b_dim * k_dim * n_dim,
            src@.len() <= usize::MAX,
            wts@.len() <= usize::MAX,
            row == (b * m_dim + m) * k_dim,
            row + k_dim <= src@.len(),
            (b * k_dim + k_dim - 1) * n_dim + n_dim <= wts@.len(),
            acc == spec_mm_partial(
                src@,
                wts@,
                m_dim as int,
                k_dim as int,
                n_dim as int,
                b as int,
                m as int,
                n as int,
                t as int,
            ),
            forall|u: int|
                0 <= u < t ==> #[trigger] spec_mm_step_ok(
                    src@,
                    wts@,
                    m_dim as int,
                    k_dim as int,
                    n_dim as int,
                    b as int,
                    m as int,
                    n as int,
                    u,
                ),
        decreases k_dim - t,
    {
        proof {
            assert((b * k_dim + t) * n_dim + n < wts@.len()) by (nonlinear_arith)
                requires
                    t + 1 <= k_dim,
                    n + 1 <= n_dim,
                    1 <= n_dim,
                    (b * k_dim + k_dim - 1) * n_dim + n_dim <= wts@.len(),
            ;
            assert(b * k_dim + t < b_dim * k_dim) by (nonlinear_arith)
                requires
                    b + 1 <= b_dim,
                    t + 1 <= k_dim,
            ;
            assert(b_dim * k_dim <= b_dim * k_dim * n_dim) by (nonlinear_arith)
                requires
                    1 <= n_dim,
                    0 <= b_dim * k_dim,
            ;
        }
        let x = src[row + t];
        let widx = (b * k_dim + t) * n_dim + n;
        let y = wts[widx];
        let p = match x.checked_mul(y) {
            Some(p) => p,
            None => {
                proof {
                    assert(x == src@[(b * m_dim + m) * k_dim + t]);
                    assert(y == wts@[(b * k_dim + t) * n_dim + n]);
                    assert(!spec_mm_step_ok(
                        src@,
                        wts@,
                        m_dim as int,
                        k_dim as int,
                        n_dim as int,
                        b as int,
                        m as int,
                        n as int,
                        t as int,
                    ));
                }
                return None;
            },
        };
        acc = match acc.checked_add(p) {
            Some(a) => a,
            None => {
                proof {
                    assert(x == src@[(b * m_dim + m) * k_dim + t]);
                    assert(y == wts@[(b * k_dim + t) * n_dim + n]);
                    assert(spec_mm_partial(
                        src@,
                        wts@,
                        m_dim as int,
                        k_dim as int,
                        n_dim as int,
                        b as int,
                        m as int,
                        n as int,
                        t as int + 1,
                    ) == acc + x * y);
                    assert(!spec_mm_step_ok(
                        src@,
                        wts@,
                        m_dim as int,
                        k_dim as int,
                        n_dim as int,
                        b as int,
                        m as int,
                        n as int,
                        t as int,
                    ));
                }
                return None;
            },
        };
        proof {
            assert(spec_mm_step_ok(
                src@,
                wts@,
                m_dim as int,
                k_dim as int,
                n_dim as int,
                b as int,
                m as int,
                n as int,
                t as int,
            ));
        }
        t = t + 1;
    }
    Some(acc)
}

/// Computes the whole matrix product; `None` exactly when some cell leaves
/// the cell type.
fn matmul_kernel(
    src: &Vec<i64>,
    wts: &Vec<i64>,
    bias: Option<&Vec<i64>>,
    b_dim: usize,
    m_dim: usize,
    k_dim: usize,
    n_dim: usize,
) -> (r: Option<Vec<i64>>)
    requires
        1 <= b_dim && 1 <= m_dim && 1 <= k_dim && 1 <= n_dim,
        src@.len() == b_dim * m_dim * k_dim,
        wts@.len() == b_dim * k_dim * n_dim,
        b_dim * m_dim * n_dim <= usize::MAX,
        bias matches Some(bv) ==> bv@.len() == b_dim * m_dim * n_dim,
    ensures
        r is Some <==> spec_mm_fits(
            src@,
            wts@,
            spec_mm_opt_seq(bias),
            b_dim as int,
            m_dim as int,
            k_dim as int,
            n_dim as int,
        ),
        r matches Some(v) ==> v@ == spec_mm_out(
            src@,
            wts@,
            spec_mm_opt_seq(bias),
            b_dim as int,
            m_dim as int,
            k_dim as int,
            n_dim as int,
        ),
{
    let ghost gbias = spec_mm_opt_seq(bias);
    let ghost total = (b_dim * m_dim * n_dim) as int;
    let mut out: Vec<i64> = Vec::new();
    let mut b: usize = 0;
    while b < b_dim
        invariant
            b <= b_dim,
            1 <= b_dim && 1 <= m_dim && 1 <= k_dim && 1 <= n_dim,
            src@.len() == b_dim * m_dim * k_dim,
            wts@.len() == b_dim * k_dim * n_dim,
            b_dim * m_dim * n_dim <= usize::MAX,
            bias matches Some(bv) ==> bv@.len() == b_dim * m_dim * n_dim,
            gbias == spec_mm_opt_seq(bias),
            total == b_dim * m_dim * n_dim,
            out@.len() == b * (m_dim * n_dim),
            forall|i: int|
                0 <= i < out@.len() ==> #[trigger] spec_mm_idx_fits(
                    src@,
                    wts@,
                    gbias,
                    m_dim as int,
                    k_dim as int,
                    n_dim as int,
                    i,
                ),
            forall|i: int|
                0 <= i < out@.len() ==> #[trigger] out@[i] == spec_mm_val(
                    src@,
                    wts@,
                    gbias,
                    m_dim as int,
                    k_dim as int,
                    n_dim as int,
                    i,
                ) as i64,
        decreases b_dim - b,
    {
        let mut m: usize = 0;
        proof {
            assert(b * (m_dim * n_dim) + m_dim * n_dim <= b_dim * m_dim * n_dim)
                by (nonlinear_arith)
                requires
                    b + 1 <= b_dim,
                    1 <= m_dim && 1 <= n_dim,
            ;
        }
        while m < m_dim
            invariant
                m <= m_dim,
                b < b_dim,
                1 <= b_dim && 1 <= m_dim && 1 <= k_dim && 1 <= n_dim,
                src@.len() == b_dim * m_dim * k_dim,
                wts@.len() == b_dim * k_dim * n_dim,
                b_dim * m_dim * n_dim <= usize::MAX,
                bias matches Some(bv) ==> bv@.len() == b_dim * m_dim * n_dim,
                gbias == spec_mm_opt_seq(bias),
                total == b_dim * m_dim * n_dim,
                out@.len() == b * (m_dim * n_dim) + m * n_dim,
                b * (m_dim * n_dim) + m_dim * n_dim <= b_dim * m_dim * n_dim,
                forall|i: int|
                    0 <= i < out@.len() ==> #[trigger] spec_mm_idx_fits(
                        src@,
                        wts@,
                        gbias,
                        m_dim as int,
                        k_dim as int,
                        n_dim as int,
                        i,
                    ),
                forall|i: int|
                    0 <= i < out@.len() ==> #[trigger] out@[i] == spec_mm_val(
                        src@,
                        wts@,
                        gbias,
                        m_dim as int,
                        k_dim as int,
                        n_dim as int,
                        i,
                    ) as i64,
            decreases m_dim - m,
        {
            let mut n: usize = 0;
            proof {
                assert(m * n_dim + n_dim <= m_dim * n_dim) by (nonlinear_arith)
                    requires
                        m + 1 <= m_dim,
                        1 <= n_dim,
                ;
            }
            while n < n_dim
                invariant
                    n <= n_dim,
                    m < m_dim,
                    b < b_dim,
                    1 <= b_dim && 1 <= m_dim && 1 <= k_dim && 1 <= n_dim,
                    src@.len() == b_dim * m_dim * k_dim,
                    wts@.len() == b_dim * k_dim * n_dim,
                    b_dim * m_dim * n_dim <= usize::MAX,
                    bias matches Some(bv) ==> bv@.len() == b_dim * m_dim * n_dim,
                    gbias == spec_mm_opt_seq(bias),
                    total == b_dim * m_dim * n_dim,
                    out@.len() == b * (m_dim * n_dim) + m * n_dim + n,
                    b * (m_dim * n_dim) + m_dim * n_dim <= b_dim * m_dim * n_dim,
                    m * n_dim + n_dim <= m_dim * n_dim,
                    forall|i: int|
                        0 <= i < out@.len() ==> #[trigger] spec_mm_idx_fits(
                            src@,
                            wts@,
                            gbias,
                            m_dim as int,
                            k_dim as int,
                            n_dim as int,
                            i,
                        ),
                    forall|i: int|
                        0 <= i < out@.len() ==> #[trigger] out@[i] == spec_mm_val(
                            src@,
                            wts@,
                            gbias,
                            m_dim as int,
                            k_dim as int,
                            n_dim as int,
                            i,
                        ) as i64,
                decreases n_dim - n,
            {
                let ghost idx = out@.len() as int;
                proof {
                    assert(idx < total);
                    assert(idx == b * (m_dim * n_dim) + (m * n_dim + n));
                    assert((b * m_dim + m) * n_dim + n == b * (m_dim * n_dim) + (m * n_dim + n))
                        by (nonlinear_arith);
                    assert(0 <= m * n_dim + n < m_dim * n_dim) by (nonlinear_arith)
                        requires
                            m + 1 <= m_dim,
                            n + 1 <= n_dim,
                            1 <= n_dim,
                    ;
                    lemma_fundamental_div_mod_converse(
                        idx,
                        m_dim as int * n_dim as int,
                        b as int,
                        m * n_dim + n,
                    );
                    lemma_fundamental_div_mod_converse(
                        idx,
                        n_dim as int,
                        b as int * m_dim as int + m,
                        n as int,
                    );
                    lemma_fundamental_div_mod_converse(
                        b as int * m_dim as int + m,
                        m_dim as int,
                        b as int,
                        m as int,
                    );
                    assert(idx / (m_dim as int * n_dim as int) == b);
                    assert((idx / n_dim as int) % m_dim as int == m);
                    assert(idx % n_dim as int == n);
                }
                let cell = match mm_cell(src, wts, b_dim, m_dim, k_dim, n_dim, b, m, n) {
                    Some(v) => v,
                    None => {
                        proof {
                            assert(!spec_mm_idx_fits(
                                src@,
                                wts@,
                                gbias,
                                m_dim as int,
                                k_dim as int,
                                n_dim as int,
                                idx,
                            ));
                        }
                        return None;
                    },
                };
                let cell = match bias {
                    Some(bv) => {
                        proof {
                            assert(idx < bv@.len());
                        }
                        let bval = bv[out.len()];
                        match cell.checked_add(bval) {
                            Some(v) => v,
                            None => {
                                proof {
                                    assert(!spec_mm_idx_fits(
                                        src@,
                                        wts@,
                                        gbias,
                                        m_dim as int,
                                        k_dim as int,
                                        n_dim as int,
                                        idx,
                                    ));
                                }
                                return None;
                            },
                        }
                    },
                    None => cell,
                };
                out.push(cell);
                proof {
                    assert(spec_mm_idx_fits(
                        src@,
                        wts@,
                        gbias,
                        m_dim as int,
                        k_dim as int,
                        n_dim as int,
                        idx,
                    ));
                    assert(out@[idx] == spec_mm_val(
                        src@,
                        wts@,
                        gbias,
                        m_dim as int,
                        k_dim as int,
                        n_dim as int,
                        idx,
                    ) as i64);
                }
                n = n + 1;
            }
            m = m + 1;
            proof {
                assert((m - 1) * n_dim + n_dim == m * n_dim) by (nonlinear_arith);
                assert(out@.len() == b * (m_dim * n_dim) + m * n_dim);
            }
        }
        b = b + 1;
        proof {
            assert(out@.len() == b * (m_dim * n_dim)) by (nonlinear_arith)
                requires
                    out@.len() == (b - 1) * (m_dim * n_dim) + m_dim * n_dim,
            ;
        }
    }
    proof {
        assert(out@.len() == b_dim * (m_dim * n_dim));
        assert(b_dim * (m_dim * n_dim) == b_dim * m_dim * n_dim) by (nonlinear_arith);
        assert(out@ =~= spec_mm_out(
            src@,
            wts@,
            gbias,
            b_dim as int,
            m_dim as int,
            k_dim as int,
            n_dim as int,
        ));
    }
    Some(out)
}

/// The cells an optional bias tensor holds: empty when it is absent.
pub open spec fn spec_mm_opt_seq(bias: Option<&Vec<i64>>) -> Seq<i64> {
    match bias {
        Some(bv) => bv@,
        None => Seq::<i64>::empty(),
    }
}

/// Configuration of a forward matrix multiplication.
#[derive(Debug)]
pub struct ForwardMatMulConfig {
    pub src_desc: MemoryDescriptor,
    pub weights_desc: MemoryDescriptor,
    pub bias_desc: MemoryDescriptor,
    pub dst_desc: MemoryDescriptor,
    pub attr: PrimitiveAttributes,
}

/// All four descriptors share one data type.
pub open spec fn spec_matmul_dtype_ok(c: &ForwardMatMulConfig) -> bool {
    &&& c.src_desc.spec_data_type() == c.dst_desc.spec_data_type()
    &&& c.weights_desc.spec_data_type() == c.dst_desc.spec_data_type()
    &&& c.bias_desc.spec_data_type() == c.dst_desc.spec_data_type()
}

/// The shapes compose: a batch of `M` by `K` sources against `K` by `N`
/// weights into `M` by `N` destinations, every extent positive, and a bias
/// shaped like the destination.
pub open spec fn spec_matmul_shape_ok(c: &ForwardMatMulConfig) -> bool {
    let s = c.src_desc.spec_dims();
    let w = c.weights_desc.spec_dims();
    let d = c.dst_desc.spec_dims();
    &&& s.len() == 3 && w.len() == 3 && d.len() == 3
    &&& s[0] >= 1 && s[1] >= 1 && s[2] >= 1 && w[2] >= 1
    &&& w[0] == s[0] && w[1] == s[2]
    &&& d[0] == s[0] && d[1] == s[1] && d[2] == w[2]
    &&& c.bias_desc.spec_dims() == d
}

/// A matmul configuration that can become an execution plan.
pub open spec fn spec_matmul_valid(c: &ForwardMatMulConfig) -> bool {
    &&& spec_matmul_dtype_ok(c)
    &&& spec_matmul_shape_ok(c)
}

impl ForwardMatMulConfig {
    /// Validates this configuration against an engine and produces the
    /// execution plan.
    ///
    /// The matmul pairs with the two forward propagation kinds only; any
    /// other kind is an unsupported combination. A mixed data type is
    /// rejected as invalid data type and shapes that do not compose as
    /// invalid shape.
    pub fn create_primitive_desc(self, engine: Arc<Engine>, prop: PropKind) -> (r: Result<
        PrimitiveDescriptor,
        DnnlError,
    >)
        ensures
            !crate::primitive::spec_prop_is_forward(prop) ==> r == Err::<
                PrimitiveDescriptor,
                DnnlError,
            >(DnnlError::Unsupported),
            crate::primitive::spec_prop_is_forward(prop) && !spec_matmul_dtype_ok(&self) ==> r
                == Err::<PrimitiveDescriptor, DnnlError>(DnnlError::InvalidDataType),
            crate::primitive::spec_prop_is_forward(prop) && spec_matmul_dtype_ok(&self)
                && !spec_matmul_shape_ok(&self) ==> r == Err::<PrimitiveDescriptor, DnnlError>(
                DnnlError::InvalidShape,
            ),
            crate::primitive::spec_prop_is_forward(prop) && spec_matmul_valid(&self) ==> (
            r matches Ok(pd) && pd.spec_plan() == PrimitivePlan::MatMul(self) && pd.spec_prop()
                == prop && pd.spec_engine() == *engine),
    {
        if !matches!(prop, PropKind::ForwardTraining | PropKind::ForwardInference) {
            return Err(DnnlError::Unsupported);
        }
        let dt = self.dst_desc.query_data_type();
        if !(self.src_desc.query_data_type() == dt && self.weights_desc.query_data_type() == dt
            && self.bias_desc.query_data_type() == dt) {
            return Err(DnnlError::InvalidDataType);
        }
        let s = self.src_desc.query_dims();
        let w = self.weights_desc.query_dims();
        let d = self.dst_desc.query_dims();
        let shape_ok = s.len() == 3 && w.len() == 3 && d.len() == 3 && s[0] >= 1 && s[1] >= 1
            && s[2] >= 1 && w[2] >= 1 && w[0] == s[0] && w[1] == s[2] && d[0] == s[0] && d[1]
            == s[1] && d[2] == w[2] && self.bias_desc.same_dims(&self.dst_desc);
        if !shape_ok {
            return Err(DnnlError::InvalidShape);
        }
        Ok(PrimitiveDescriptor::make(PrimitivePlan::MatMul(self), prop, engine))
    }
}

/// Marker for the forward matmul operation.
#[derive(Debug, Clone, Copy)]
pub struct ForwardMatMul;

impl ForwardMatMul {
    /// The operation kind this marker denotes.
    pub fn op_type(&self) -> (r: OperationType)
        ensures
            r == OperationType::MatMul,
    {
        OperationType::MatMul
    }
}

/// A well-formed argument list for a matmul plan: source, weights, bias
/// and destination slots, each once, each under the plan's descriptors.
/// Source, weights and destination must carry storage; a bias bound
/// without storage stands for a disabled bias.
pub open spec fn spec_matmul_args_ok(c: &ForwardMatMulConfig, args: Seq<ExecArg>) -> bool {
    &&& args.len() == 4
    &&& spec_slot_count(args, ARG_SRC_0) == 1
    &&& spec_slot_count(args, ARG_WEIGHTS) == 1
    &&& spec_slot_count(args, ARG_BIAS) == 1
    &&& spec_slot_count(args, ARG_DST) == 1
    &&& forall|j: int|
        0 <= j < args.len() ==> {
            &&& ((#[trigger] args[j]).index == ARG_SRC_0 ==> args[j].mem.spec_desc().spec_equal(
                &c.src_desc,
            ) && args[j].mem.spec_has_storage())
            &&& (args[j].index == ARG_WEIGHTS ==> args[j].mem.spec_desc().spec_equal(
                &c.weights_desc,
            ) && args[j].mem.spec_has_storage())
            &&& (args[j].index == ARG_BIAS ==> args[j].mem.spec_desc().spec_equal(&c.bias_desc))
            &&& (args[j].index == ARG_DST ==> args[j].mem.spec_desc().spec_equal(&c.dst_desc)
                && args[j].mem.spec_has_storage())
        }
}

/// The bias cells an argument contributes: empty when it carries no
/// storage.
pub open spec fn spec_matmul_bias_data(a: &ExecArg) -> Seq<i64> {
    if a.mem.spec_has_storage() {
        a.mem.spec_data()
    } else {
        Seq::<i64>::empty()
    }
}

/// True when the whole product over the bound tensors fits the cell type.
pub open spec fn spec_matmul_args_fits(c: &ForwardMatMulConfig, args: Seq<ExecArg>) -> bool {
    forall|a: int, w: int, bi: int|
        (0 <= a < args.len() && 0 <= w < args.len() && 0 <= bi < args.len() && (
        #[trigger] args[a]).index == ARG_SRC_0 && (#[trigger] args[w]).index == ARG_WEIGHTS && (
        #[trigger] args[bi]).index == ARG_BIAS) ==> spec_mm_fits(
            args[a].mem.spec_data(),
            args[w].mem.spec_data(),
            spec_matmul_bias_data(&args[bi]),
            c.src_desc.spec_dims()[0] as int,
            c.src_desc.spec_dims()[1] as int,
            c.src_desc.spec_dims()[2] as int,
            c.weights_desc.spec_dims()[2] as int,
        )
}

/// Result of executing a matmul plan.
pub open spec fn spec_matmul_post(
    c: &ForwardMatMulConfig,
    args: Seq<ExecArg>,
    out: Seq<ExecArg>,
) -> bool {
    &&& out.len() == args.len()
    &&& forall|j: int| 0 <= j < args.len() ==> (#[trigger] out[j]).index == args[j].index
    &&& forall|j: int|
        0 <= j < args.len() && (#[trigger] args[j]).index != ARG_DST ==> out[j].mem == args[j].mem
    &&& forall|j: int, a: int, w: int, bi: int|
        (0 <= j < args.len() && 0 <= a < args.len() && 0 <= w < args.len() && 0 <= bi < args.len()
            && (#[trigger] args[j]).index == ARG_DST && (#[trigger] args[a]).index == ARG_SRC_0 && (
        #[trigger] args[w]).index == ARG_WEIGHTS && (#[trigger] args[bi]).index == ARG_BIAS) ==> (
        out[j].mem.spec_desc() == args[j].mem.spec_desc() && out[j].mem.spec_engine()
            == args[j].mem.spec_engine() && out[j].mem.spec_data() == spec_mm_out(
            args[a].mem.spec_data(),
            args[w].mem.spec_data(),
            spec_matmul_bias_data(&args[bi]),
            c.src_desc.spec_dims()[0] as int,
            c.src_desc.spec_dims()[1] as int,
            c.src_desc.spec_dims()[2] as int,
            c.weights_desc.spec_dims()[2] as int,
        ))
}

/// Executes a matmul plan over an argument list.
pub(crate) fn matmul_execute(c: &ForwardMatMulConfig, args: Vec<ExecArg>) -> (r: Result<
    Vec<ExecArg>,
    DnnlError,
>)
    requires
        spec_matmul_valid(c),
    ensures
        r is Ok <==> (spec_matmul_args_ok(c, args@) && spec_matmul_args_fits(c, args@)),
        !spec_matmul_args_ok(c, args@) ==> r == Err::<Vec<ExecArg>, DnnlError>(
            DnnlError::InvalidArguments,
        ),
        spec_matmul_args_ok(c, args@) && !spec_matmul_args_fits(c, args@) ==> r == Err::<
            Vec<ExecArg>,
            DnnlError,
        >(DnnlError::RuntimeError),
        r matches Ok(out) ==> spec_matmul_post(c, args@, out@),
{
    let ghost gargs = args@;
    if args.len() != 4 {
        return Err(DnnlError::InvalidArguments);
    }
    let pa = match find_arg(&args, ARG_SRC_0) {
        Some(p) => p,
        None => {
            proof {
                lemma_slot_count_zero(gargs, ARG_SRC_0);
            }
            return Err(DnnlError::InvalidArguments);
        },
    };
    let pw = match find_arg(&args, ARG_WEIGHTS) {
        Some(p) => p,
        None => {
            proof {
                lemma_slot_count_zero(gargs, ARG_WEIGHTS);
            }
            return Err(DnnlError::InvalidArguments);
        },
    };
    let pb = match find_arg(&args, ARG_BIAS) {
        Some(p) => p,
        None => {
            proof {
                lemma_slot_count_zero(gargs, ARG_BIAS);
            }
            return Err(DnnlError::InvalidArguments);
        },
    };
    let pd = match find_arg(&args, ARG_DST) {
        Some(p) => p,
        None => {
            proof {
                lemma_slot_count_zero(gargs, ARG_DST);
            }
            return Err(DnnlError::InvalidArguments);
        },
    };
    if crate::primitive::count_arg(&args, ARG_SRC_0) != 1 || crate::primitive::count_arg(
        &args,
        ARG_WEIGHTS,
    ) != 1 || crate::primitive::count_arg(&args, ARG_BIAS) != 1 || crate::primitive::count_arg(
        &args,
        ARG_DST,
    ) != 1 {
        return Err(DnnlError::InvalidArguments);
    }
    if !(args[pa].mem.desc().equal(&c.src_desc) && args[pa].mem.has_storage()) {
        return Err(DnnlError::InvalidArguments);
    }
    if !(args[pw].mem.desc().equal(&c.weights_desc) && args[pw].mem.has_storage()) {
        return Err(DnnlError::InvalidArguments);
    }
    if !args[pb].mem.desc().equal(&c.bias_desc) {
        return Err(DnnlError::InvalidArguments);
    }
    if !(args[pd].mem.desc().equal(&c.dst_desc) && args[pd].mem.has_storage()) {
        return Err(DnnlError::InvalidArguments);
    }
    proof {
        assert forall|j: int| 0 <= j < gargs.len() implies {
            &&& ((#[trigger] gargs[j]).index == ARG_SRC_0 ==> gargs[j].mem.spec_desc().spec_equal(
                &c.src_desc,
            ) && gargs[j].mem.spec_has_storage())
            &&& (gargs[j].index == ARG_WEIGHTS ==> gargs[j].mem.spec_desc().spec_equal(
                &c.weights_desc,
            ) && gargs[j].mem.spec_has_storage())
            &&& (gargs[j].index == ARG_BIAS ==> gargs[j].mem.spec_desc().spec_equal(&c.bias_desc))
            &&& (gargs[j].index == ARG_DST ==> gargs[j].mem.spec_desc().spec_equal(&c.dst_desc)
                && gargs[j].mem.spec_has_storage())
        } by {
            if gargs[j].index == ARG_SRC_0 {
                lemma_slot_count_unique(gargs, ARG_SRC_0, j, pa as int);
            }
            if gargs[j].index == ARG_WEIGHTS {
                lemma_slot_count_unique(gargs, ARG_WEIGHTS, j, pw as int);
            }
            if gargs[j].index == ARG_BIAS {
                lemma_slot_count_unique(gargs, ARG_BIAS, j, pb as int);
            }
            if gargs[j].index == ARG_DST {
                lemma_slot_count_unique(gargs, ARG_DST, j, pd as int);
            }
        }
        assert(spec_matmul_args_ok(c, gargs));
    }
    let dims = c.src_desc.query_dims();
    let b_dim = dims[0] as usize;
    let m_dim = dims[1] as usize;
    let k_dim = dims[2] as usize;
    let wdims = c.weights_desc.query_dims();
    let n_dim = wdims[2] as usize;
    proof {
        crate::memory::descriptor::lemma_prod3(c.src_desc.spec_dims());
        crate::memory::descriptor::lemma_prod3(c.weights_desc.spec_dims());
        crate::memory::descriptor::lemma_prod3(c.dst_desc.spec_dims());
        use_type_invariant(&c.src_desc);
        use_type_invariant(&c.weights_desc);
        use_type_invariant(&c.dst_desc);
        crate::memory::descriptor::count_bounded_by_size(
            c.src_desc.spec_dims(),
            c.src_desc.spec_data_type(),
        );
        crate::memory::descriptor::count_bounded_by_size(
            c.weights_desc.spec_dims(),
            c.weights_desc.spec_data_type(),
        );
        crate::memory::descriptor::count_bounded_by_size(
            c.dst_desc.spec_dims(),
            c.dst_desc.spec_data_type(),
        );
        crate::memory::descriptor::lemma_prod_nonneg(c.src_desc.spec_dims());
        crate::memory::descriptor::lemma_prod_nonneg(c.weights_desc.spec_dims());
        crate::memory::descriptor::lemma_prod_nonneg(c.dst_desc.spec_dims());
        assert(c.src_desc.spec_dims()[0] * c.src_desc.spec_dims()[1] * c.src_desc.spec_dims()[2]
            <= usize::MAX);
        assert(c.src_desc.spec_dims()[0] <= usize::MAX) by (nonlinear_arith)
            requires
                c.src_desc.spec_dims()[0] >= 1,
                c.src_desc.spec_dims()[1] >= 1,
                c.src_desc.spec_dims()[2] >= 1,
                c.src_desc.spec_dims()[0] * c.src_desc.spec_dims()[1] * c.src_desc.spec_dims()[2]
                    <= usize::MAX,
        ;
        assert(c.src_desc.spec_dims()[1] <= usize::MAX) by (nonlinear_arith)
            requires
                c.src_desc.spec_dims()[0] >= 1,
                c.src_desc.spec_dims()[1] >= 1,
                c.src_desc.spec_dims()[2] >= 1,
                c.src_desc.spec_dims()[0] * c.src_desc.spec_dims()[1] * c.src_desc.spec_dims()[2]
                    <= usize::MAX,
        ;
        assert(c.src_desc.spec_dims()[2] <= usize::MAX) by (nonlinear_arith)
            requires
                c.src_desc.spec_dims()[0] >= 1,
                c.src_desc.spec_dims()[1] >= 1,
                c.src_desc.spec_dims()[2] >= 1,
                c.src_desc.spec_dims()[0] * c.src_desc.spec_dims()[1] * c.src_desc.spec_dims()[2]
                    <= usize::MAX,
        ;
        assert(c.weights_desc.spec_dims()[2] <= usize::MAX) by (nonlinear_arith)
            requires
                c.weights_desc.spec_dims()[0] >= 1,
                c.weights_desc.spec_dims()[1] >= 1,
                c.weights_desc.spec_dims()[2] >= 1,
                c.weights_desc.spec_dims()[0] * c.weights_desc.spec_dims()[1]
                    * c.weights_desc.spec_dims()[2] <= usize::MAX,
        ;
    }
    let src_data = args[pa].mem.data_vec();
    let wts_data = args[pw].mem.data_vec();
    let bias_present = args[pb].mem.has_storage();
    let bias_data = if bias_present {
        args[pb].mem.data_vec()
    } else {
        Vec::new()
    };
    let bias_opt: Option<&Vec<i64>> = if bias_present {
        Some(&bias_data)
    } else {
        None
    };
    let result = match matmul_kernel(&src_data, &wts_data, bias_opt, b_dim, m_dim, k_dim, n_dim) {
        Some(v) => v,
        None => {
            proof {
                assert(!spec_matmul_args_fits(c, gargs));
            }
            return Err(DnnlError::RuntimeError);
        },
    };
    proof {
        assert forall|a: int, w: int, bi: int|
            (0 <= a < gargs.len() && 0 <= w < gargs.len() && 0 <= bi < gargs.len() && (
            #[trigger] gargs[a]).index == ARG_SRC_0 && (#[trigger] gargs[w]).index == ARG_WEIGHTS
                && (#[trigger] gargs[bi]).index == ARG_BIAS) implies spec_mm_fits(
            gargs[a].mem.spec_data(),
            gargs[w].mem.spec_data(),
            spec_matmul_bias_data(&gargs[bi]),
            c.src_desc.spec_dims()[0] as int,
            c.src_desc.spec_dims()[1] as int,
            c.src_desc.spec_dims()[2] as int,
            c.weights_desc.spec_dims()[2] as int,
        ) by {
            lemma_slot_count_unique(gargs, ARG_SRC_0, a, pa as int);
            lemma_slot_count_unique(gargs, ARG_WEIGHTS, w, pw as int);
            lemma_slot_count_unique(gargs, ARG_BIAS, bi, pb as int);
        }
    }
    let mut args = args;
    let dst_arg = args.remove(pd);
    let new_mem = dst_arg.mem.with_data(&result);
    args.insert(pd, ExecArg { index: dst_arg.index, mem: new_mem });
    proof {
        assert(args@ =~= gargs.update(pd as int, args@[pd as int]));
        assert forall|j: int, a: int, w: int, bi: int|
            (0 <= j < gargs.len() && 0 <= a < gargs.len() && 0 <= w < gargs.len() && 0 <= bi
                < gargs.len() && (#[trigger] gargs[j]).index == ARG_DST && (
            #[trigger] gargs[a]).index == ARG_SRC_0 && (#[trigger] gargs[w]).index == ARG_WEIGHTS
                && (#[trigger] gargs[bi]).index == ARG_BIAS) implies (args@[j].mem.spec_desc()
            == gargs[j].mem.spec_desc() && args@[j].mem.spec_engine() == gargs[j].mem.spec_engine()
            && args@[j].mem.spec_data() == spec_mm_out(
            gargs[a].mem.spec_data(),
            gargs[w].mem.spec_data(),
            spec_matmul_bias_data(&gargs[bi]),
            c.src_desc.spec_dims()[0] as int,
            c.src_desc.spec_dims()[1] as int,
            c.src_desc.spec_dims()[2] as int,
            c.weights_desc.spec_dims()[2] as int,
        )) by {
            lemma_slot_count_unique(gargs, ARG_DST, j, pd as int);
            lemma_slot_count_unique(gargs, ARG_SRC_0, a, pa as int);
            lemma_slot_count_unique(gargs, ARG_WEIGHTS, w, pw as int);
            lemma_slot_count_unique(gargs, ARG_BIAS, bi, pb as int);
        }
        assert(spec_matmul_post(c, gargs, args@));
    }
    Ok(args)
}

} // verus!
