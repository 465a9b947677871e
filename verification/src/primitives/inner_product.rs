use crate::engine::Engine;
use crate::error::DnnlError;
use crate::memory::descriptor::{lemma_prod_pos, spec_prod, MemoryDescriptor};
use crate::primitive::attributes::PrimitiveAttributes;
use crate::primitive::descriptor::{PrimitiveDescriptor, PrimitivePlan};
use crate::primitive::{
    find_arg, lemma_slot_count_unique, lemma_slot_count_zero, spec_slot_count, ExecArg,
    OperationType, PropKind, ARG_BIAS, ARG_DIFF_BIAS, ARG_DIFF_DST, ARG_DIFF_SRC,
    ARG_DIFF_WEIGHTS, ARG_DST, ARG_SRC_0, ARG_WEIGHTS,
};
use std::sync::Arc;
use vstd::arithmetic::div_mod::lemma_fundamental_div_mod_converse;
use vstd::prelude::*;

verus! {

/// Strided dot product: the sum of the first `t` products of `a` walked
/// from `a0` with stride `da` against `b` walked from `b0` with stride
/// `db`.
pub open spec fn spec_sdot(
    a: Seq<i64>,
    a0: int,
    da: int,
    b: Seq<i64>,
    b0: int,
    db: int,
    t: int,
) -> int
    decreases t,
{
    if t <= 0 {
        0
    } else {
        spec_sdot(a, a0, da, b, b0, db, t - 1) + a[a0 + (t - 1) * da] * b[b0 + (t - 1) * db]
    }
}

/// One strided accumulation step stays within the cell type.
pub open spec fn spec_sdot_step_ok(
    a: Seq<i64>,
    a0: int,
    da: int,
    b: Seq<i64>,
    b0: int,
    db: int,
    t: int,
) -> bool {
    &&& i64::MIN <= a[a0 + t * da] * b[b0 + t * db] <= i64::MAX
    &&& i64::MIN <= spec_sdot(a, a0, da, b, b0, db, t + 1) <= i64::MAX
}

/// Accumulates one strided dot product; `None` exactly when a step leaves
/// the cell type.
fn sdot_cell(a: &Vec<i64>, a0: usize, da: usize, b: &Vec<i64>, b0: usize, db: usize, t_len: usize) -> (r:
    Option<i64>)
    requires
        1 <= da,
        1 <= db,
        1 <= t_len,
        a0 + (t_len - 1) * da < a@.len(),
        b0 + (t_len - 1) * db < b@.len(),
    ensures
        r is Some <==> (forall|u: int|
            0 <= u < t_len ==> #[trigger] spec_sdot_step_ok(
                a@,
                a0 as int,
                da as int,
                b@,
                b0 as int,
                db as int,
                u,
            )),
        r matches Some(v) ==> v == spec_sdot(
            a@,
            a0 as int,
            da as int,
            b@,
            b0 as int,
            db as int,
            t_len as int,
        ),
{
    let a_len = a.len();
    let b_len = b.len();
    let mut acc: i64 = 0;
    let mut t: usize = 0;
    while t < t_len
        invariant
            t <= t_len,
            1 <= da && 1 <= db && 1 <= t_len,
            a@.len() == a_len && b@.len() == b_len,
            a0 + (t_len - 1) * da < a@.len(),
            b0 + (t_len - 1) * db < b@.len(),
            acc == spec_sdot(a@, a0 as int, da as int, b@, b0 as int, db as int, t as int),
            forall|u: int|
                0 <= u < t ==> #[trigger] spec_sdot_step_ok(
                    a@,
                    a0 as int,
                    da as int,
                    b@,
                    b0 as int,
                    db as int,
                    u,
                ),
        decreases t_len - t,
    {
        proof {
            assert(t * da <= (t_len - 1) * da) by (nonlinear_arith)
                requires
                    t <= t_len - 1,
                    da >= 0,
            ;
            assert(t * db <= (t_len - 1) * db) by (nonlinear_arith)
                requires
                    t <= t_len - 1,
                    db >= 0,
            ;
        }
        let x = a[a0 + t * da];
        let y = b[b0 + t * db];
        let p = match x.checked_mul(y) {
            Some(p) => p,
            None => {
                proof {
                    assert(!spec_sdot_step_ok(
                        a@,
                        a0 as int,
                        da as int,
                        b@,
                        b0 as int,
                        db as int,
                        t as int,
                    ));
                }
                return None;
            },
        };
        acc = match acc.checked_add(p) {
            Some(v) => v,
            None => {
                proof {
                    assert(spec_sdot(
                        a@,
                        a0 as int,
                        da as int,
                        b@,
                        b0 as int,
                        db as int,
                        t as int + 1,
                    ) == acc + x * y);
                    assert(!spec_sdot_step_ok(
                        a@,
                        a0 as int,
                        da as int,
                        b@,
                        b0 as int,
                        db as int,
                        t as int,
                    ));
                }
                return None;
            },
        };
        proof {
            assert(spec_sdot_step_ok(a@, a0 as int, da as int, b@, b0 as int, db as int, t as int));
        }
        t = t + 1;
    }
    Some(acc)
}

/// Strided sum: the sum of the first `t` cells of `b` walked from `b0`
/// with stride `db`.
pub open spec fn spec_ssum(b: Seq<i64>, b0: int, db: int, t: int) -> int
    decreases t,
{
    if t <= 0 {
        0
    } else {
        spec_ssum(b, b0, db, t - 1) + b[b0 + (t - 1) * db]
    }
}

/// Every partial strided sum up to `t` stays within the cell type.
pub open spec fn spec_ssum_fits_to(b: Seq<i64>, b0: int, db: int, t: int) -> bool {
    forall|u: int| 1 <= u <= t ==> i64::MIN <= #[trigger] spec_ssum(b, b0, db, u) <= i64::MAX
}

/// Accumulates one strided sum; `None` exactly when a partial sum leaves
/// the cell type.
fn ssum_cell(b: &Vec<i64>, b0: usize, db: usize, t_len: usize) -> (r: Option<i64>)
    requires
        1 <= db,
        1 <= t_len,
        b0 + (t_len - 1) * db < b@.len(),
    ensures
        r is Some <==> spec_ssum_fits_to(b@, b0 as int, db as int, t_len as int),
        r matches Some(v) ==> v == spec_ssum(b@, b0 as int, db as int, t_len as int),
{
    let b_len = b.len();
    let mut acc: i64 = 0;
    let mut t: usize = 0;
    while t < t_len
        invariant
            t <= t_len,
            1 <= db && 1 <= t_len,
            b@.len() == b_len,
            b0 + (t_len - 1) * db < b@.len(),
            acc == spec_ssum(b@, b0 as int, db as int, t as int),
            spec_ssum_fits_to(b@, b0 as int, db as int, t as int),
        decreases t_len - t,
    {
        proof {
            assert(t * db <= (t_len - 1) * db) by (nonlinear_arith)
                requires
                    t <= t_len - 1,
                    db >= 0,
            ;
        }
        let y = b[b0 + t * db];
        acc = match acc.checked_add(y) {
            Some(v) => v,
            None => {
                proof {
                    assert(spec_ssum(b@, b0 as int, db as int, t as int + 1) == acc + y);
                }
                return None;
            },
        };
        t = t + 1;
    }
    Some(acc)
}

/// Unfolded product of a two-dimensional shape.
pub proof fn lemma_prod2(dims: Seq<i64>)
    requires
        dims.len() == 2,
    ensures
        spec_prod(dims) == dims[0] * dims[1],
{
    let s1 = dims.skip(1);
    assert(s1.skip(1) =~= Seq::<i64>::empty());
    assert(s1.len() == 1);
    assert(s1[0] == dims[1]);
    assert(spec_prod(Seq::<i64>::empty()) == 1);
    assert(spec_prod(s1) == dims[1] * 1);
    assert(spec_prod(dims) == dims[0] * spec_prod(s1));
}

/// Unfolded product of a one-dimensional shape.
pub proof fn lemma_prod1(dims: Seq<i64>)
    requires
        dims.len() == 1,
    ensures
        spec_prod(dims) == dims[0],
{
    assert(dims.skip(1) =~= Seq::<i64>::empty());
    assert(spec_prod(Seq::<i64>::empty()) == 1);
    assert(spec_prod(dims) == dims[0] * 1);
}

/// The product of a shape splits at its first axis.
pub proof fn lemma_prod_head_split(dims: Seq<i64>)
    requires
        dims.len() >= 1,
    ensures
        spec_prod(dims) == dims[0] * spec_prod(dims.skip(1)),
{
}

/// Bias contribution for one output column: zero when the bias is absent.
pub open spec fn spec_ip_bias_at(bias: Seq<i64>, o: int) -> int {
    if bias.len() > 0 {
        bias[o] as int
    } else {
        0
    }
}

/// Value of the forward inner-product cell at flat index `i` over an
/// `n`-by-`oc` destination: the dot of sample `i / oc` against weight row
/// `i % oc`, each `f` cells long, plus the bias.
pub open spec fn spec_ip_fwd_val(
    src: Seq<i64>,
    wts: Seq<i64>,
    bias: Seq<i64>,
    oc: int,
    f: int,
    i: int,
) -> int {
    spec_sdot(src, (i / oc) * f, 1, wts, (i % oc) * f, 1, f) + spec_ip_bias_at(bias, i % oc)
}

/// All accumulation steps and the bias addition of the forward cell at
/// flat index `i` stay within the cell type.
pub open spec fn spec_ip_fwd_idx_fits(
    src: Seq<i64>,
    wts: Seq<i64>,
    bias: Seq<i64>,
    oc: int,
    f: int,
    i: int,
) -> bool {
    &&& forall|u: int|
        0 <= u < f ==> #[trigger] spec_sdot_step_ok(src, (i / oc) * f, 1, wts, (i % oc) * f, 1, u)
    &&& i64::MIN <= spec_ip_fwd_val(src, wts, bias, oc, f, i) <= i64::MAX
}

/// The whole forward inner product stays within the cell type.
pub open spec fn spec_ip_fwd_fits(
    src: Seq<i64>,
    wts: Seq<i64>,
    bias: Seq<i64>,
    n: int,
    oc: int,
    f: int,
) -> bool {
    forall|i: int| 0 <= i < n * oc ==> #[trigger] spec_ip_fwd_idx_fits(src, wts, bias, oc, f, i)
}

/// The forward inner product, row-major over samples and output columns.
pub open spec fn spec_ip_fwd_out(
    src: Seq<i64>,
    wts: Seq<i64>,
    bias: Seq<i64>,
    n: int,
    oc: int,
    f: int,
) -> Seq<i64> {
    Seq::new((n * oc) as nat, |i: int| spec_ip_fwd_val(src, wts, bias, oc, f, i) as i64)
}

/// Computes the forward inner product; `None` exactly when some cell
/// leaves the cell type.
fn ip_fwd_kernel(
    src: &Vec<i64>,
    wts: &Vec<i64>,
    bias: Option<&Vec<i64>>,
    n_dim: usize,
    oc_dim: usize,
    f_dim: usize,
) -> (r: Option<Vec<i64>>)
    requires
        1 <= n_dim && 1 <= oc_dim && 1 <= f_dim,
        src@.len() == n_dim * f_dim,
        wts@.len() == oc_dim * f_dim,
        n_dim * oc_dim <= usize::MAX,
        bias matches Some(bv) ==> bv@.len() == oc_dim,
    ensures
        r is Some <==> spec_ip_fwd_fits(
            src@,
            wts@,
            spec_ip_opt_seq(bias),
            n_dim as int,
            oc_dim as int,
            f_dim as int,
        ),
        r matches Some(v) ==> v@ == spec_ip_fwd_out(
            src@,
            wts@,
            spec_ip_opt_seq(bias),
            n_dim as int,
            oc_dim as int,
            f_dim as int,
        ),
{
    let ghost gbias = spec_ip_opt_seq(bias);
    let src_len = src.len();
    let wts_len = wts.len();
    let mut out: Vec<i64> = Vec::new();
    let mut ni: usize = 0;
    while ni < n_dim
        invariant
            ni <= n_dim,
            1 <= n_dim && 1 <= oc_dim && 1 <= f_dim,
            src@.len() == n_dim * f_dim,
            wts@.len() == oc_dim * f_dim,
            src@.len() <= usize::MAX,
            wts@.len() <= usize::MAX,
            n_dim * oc_dim <= usize::MAX,
            bias matches Some(bv) ==> bv@.len() == oc_dim,
            gbias == spec_ip_opt_seq(bias),
            out@.len() == ni * oc_dim,
            forall|i: int|
                0 <= i < out@.len() ==> #[trigger] spec_ip_fwd_idx_fits(
                    src@,
                    wts@,
                    gbias,
                    oc_dim as int,
                    f_dim as int,
                    i,
                ),
            forall|i: int|
                0 <= i < out@.len() ==> #[trigger] out@[i] == spec_ip_fwd_val(
                    src@,
                    wts@,
                    gbias,
                    oc_dim as int,
                    f_dim as int,
                    i,
                ) as i64,
        decreases n_dim - ni,
    {
        let mut o: usize = 0;
        proof {
            assert(ni * oc_dim + oc_dim <= n_dim * oc_dim) by (nonlinear_arith)
                requires
                    ni + 1 <= n_dim,
                    1 <= oc_dim,
            ;
            assert(ni * f_dim + f_dim <= n_dim * f_dim) by (nonlinear_arith)
                requires
                    ni + 1 <= n_dim,
                    1 <= f_dim,
            ;
        }
        while o < oc_dim
            invariant
                o <= oc_dim,
                ni < n_dim,
                1 <= n_dim && 1 <= oc_dim && 1 <= f_dim,
                src@.len() == n_dim * f_dim,
                wts@.len() == oc_dim * f_dim,
                src@.len() <= usize::MAX,
                wts@.len() <= usize::MAX,
                n_dim * oc_dim <= usize::MAX,
                bias matches Some(bv) ==> bv@.len() == oc_dim,
                gbias == spec_ip_opt_seq(bias),
                out@.len() == ni * oc_dim + o,
                ni * oc_dim + oc_dim <= n_dim * oc_dim,
                ni * f_dim + f_dim <= n_dim * f_dim,
                forall|i: int|
                    0 <= i < out@.len() ==> #[trigger] spec_ip_fwd_idx_fits(
                        src@,
                        wts@,
                        gbias,
                        oc_dim as int,
                        f_dim as int,
                        i,
                    ),
                forall|i: int|
                    0 <= i < out@.len() ==> #[trigger] out@[i] == spec_ip_fwd_val(
                        src@,
                        wts@,
                        gbias,
                        oc_dim as int,
                        f_dim as int,
                        i,
                    ) as i64,
            decreases oc_dim - o,
        {
            let ghost idx = out@.len() as int;
            proof {
                lemma_fundamental_div_mod_converse(idx, oc_dim as int, ni as int, o as int);
                assert(idx / oc_dim as int == ni);
                assert(idx % oc_dim as int == o);
                assert(o * f_dim + f_dim <= oc_dim * f_dim) by (nonlinear_arith)
                    requires
                        o + 1 <= oc_dim,
                        1 <= f_dim,
                ;
            }
            let cell = match sdot_cell(src, ni * f_dim, 1, wts, o * f_dim, 1, f_dim) {
                Some(v) => v,
                None => {
                    proof {
                        assert(!spec_ip_fwd_idx_fits(
                            src@,
                            wts@,
                            gbias,
                            oc_dim as int,
                            f_dim as int,
                            idx,
                        ));
                    }
                    return None;
                },
            };
            let cell = match bias {
                Some(bv) => {
                    match cell.checked_add(bv[o]) {
                        Some(v) => v,
                        None => {
                            proof {
                                assert(!spec_ip_fwd_idx_fits(
                                    src@,
                                    wts@,
                                    gbias,
                                    oc_dim as int,
                                    f_dim as int,
                                    idx,
                                ));
                            }
                            return None;
                        },
                    }
                },
                None => cell,
            };
            out.push(cell);
            proof {
                assert(spec_ip_fwd_idx_fits(src@, wts@, gbias, oc_dim as int, f_dim as int, idx));
                assert(out@[idx] == spec_ip_fwd_val(
                    src@,
                    wts@,
                    gbias,
                    oc_dim as int,
                    f_dim as int,
                    idx,
                ) as i64);
            }
            o = o + 1;
        }
        ni = ni + 1;
        proof {
            assert(out@.len() == ni * oc_dim) by (nonlinear_arith)
                requires
                    out@.len() == (ni - 1) * oc_dim + oc_dim,
            ;
        }
    }
    proof {
        assert(out@ =~= spec_ip_fwd_out(
            src@,
            wts@,
            gbias,
            n_dim as int,
            oc_dim as int,
            f_dim as int,
        ));
    }
    Some(out)
}

/// The cells an optional bias tensor holds: empty when it is absent.
pub open spec fn spec_ip_opt_seq(bias: Option<&Vec<i64>>) -> Seq<i64> {
    match bias {
        Some(bv) => bv@,
        None => Seq::<i64>::empty(),
    }
}

/// Value of the backward-data cell at flat index `i` over an `n`-by-`f`
/// source gradient: the dot of weight column `i % f` against gradient row
/// `i / f`, each `oc` terms long.
pub open spec fn spec_ipd_val(wts: Seq<i64>, dd: Seq<i64>, oc: int, f: int, i: int) -> int {
    spec_sdot(wts, i % f, f, dd, (i / f) * oc, 1, oc)
}

/// All accumulation steps of the backward-data cell at flat index `i` stay
/// within the cell type.
pub open spec fn spec_ipd_idx_fits(wts: Seq<i64>, dd: Seq<i64>, oc: int, f: int, i: int) -> bool {
    forall|u: int|
        0 <= u < oc ==> #[trigger] spec_sdot_step_ok(wts, i % f, f, dd, (i / f) * oc, 1, u)
}

/// The whole backward-data product stays within the cell type.
pub open spec fn spec_ipd_fits(wts: Seq<i64>, dd: Seq<i64>, n: int, oc: int, f: int) -> bool {
    forall|i: int| 0 <= i < n * f ==> #[trigger] spec_ipd_idx_fits(wts, dd, oc, f, i)
}

/// The backward-data product, row-major over samples and source cells.
pub open spec fn spec_ipd_out(wts: Seq<i64>, dd: Seq<i64>, n: int, oc: int, f: int) -> Seq<i64> {
    Seq::new((n * f) as nat, |i: int| spec_ipd_val(wts, dd, oc, f, i) as i64)
}

/// Computes the backward-data product; `None` exactly when some cell
/// leaves the cell type.
fn ip_bwd_data_kernel(
    wts: &Vec<i64>,
    dd: &Vec<i64>,
    n_dim: usize,
    oc_dim: usize,
    f_dim: usize,
) -> (r: Option<Vec<i64>>)
    requires
        1 <= n_dim && 1 <= oc_dim && 1 <= f_dim,
        wts@.len() == oc_dim * f_dim,
        dd@.len() == n_dim * oc_dim,
        n_dim * f_dim <= usize::MAX,
    ensures
        r is Some <==> spec_ipd_fits(wts@, dd@, n_dim as int, oc_dim as int, f_dim as int),
        r matches Some(v) ==> v@ == spec_ipd_out(
            wts@,
            dd@,
            n_dim as int,
            oc_dim as int,
            f_dim as int,
        ),
{
    let wts_len = wts.len();
    let dd_len = dd.len();
    let mut out: Vec<i64> = Vec::new();
    let mut ni: usize = 0;
    while ni < n_dim
        invariant
            ni <= n_dim,
            1 <= n_dim && 1 <= oc_dim && 1 <= f_dim,
            wts@.len() == oc_dim * f_dim,
            dd@.len() == n_dim * oc_dim,
            wts@.len() <= usize::MAX,
            dd@.len() <= usize::MAX,
            n_dim * f_dim <= usize::MAX,
            out@.len() == ni * f_dim,
            forall|i: int|
                0 <= i < out@.len() ==> #[trigger] spec_ipd_idx_fits(
                    wts@,
                    dd@,
                    oc_dim as int,
                    f_dim as int,
                    i,
                ),
            forall|i: int|
                0 <= i < out@.len() ==> #[trigger] out@[i] == spec_ipd_val(
                    wts@,
                    dd@,
                    oc_dim as int,
                    f_dim as int,
                    i,
                ) as i64,
        decreases n_dim - ni,
    {
        let mut j: usize = 0;
        proof {
            assert(ni * f_dim + f_dim <= n_dim * f_dim) by (nonlinear_arith)
                requires
                    ni + 1 <= n_dim,
                    1 <= f_dim,
            ;
            assert(ni * oc_dim + oc_dim <= n_dim * oc_dim) by (nonlinear_arith)
                requires
                    ni + 1 <= n_dim,
                    1 <= oc_dim,
            ;
        }
        while j < f_dim
            invariant
                j <= f_dim,
                ni < n_dim,
                1 <= n_dim && 1 <= oc_dim && 1 <= f_dim,
                wts@.len() == oc_dim * f_dim,
                dd@.len() == n_dim * oc_dim,
                wts@.len() <= usize::MAX,
                dd@.len() <= usize::MAX,
                n_dim * f_dim <= usize::MAX,
                out@.len() == ni * f_dim + j,
                ni * f_dim + f_dim <= n_dim * f_dim,
                ni * oc_dim + oc_dim <= n_dim * oc_dim,
                forall|i: int|
                    0 <= i < out@.len() ==> #[trigger] spec_ipd_idx_fits(
                        wts@,
                        dd@,
                        oc_dim as int,
                        f_dim as int,
                        i,
                    ),
                forall|i: int|
                    0 <= i < out@.len() ==> #[trigger] out@[i] == spec_ipd_val(
                        wts@,
                        dd@,
                        oc_dim as int,
                        f_dim as int,
                        i,
                    ) as i64,
            decreases f_dim - j,
        {
            let ghost idx = out@.len() as int;
            proof {
                lemma_fundamental_div_mod_converse(idx, f_dim as int, ni as int, j as int);
                assert(idx / f_dim as int == ni);
                assert(idx % f_dim as int == j);
                assert(j + (oc_dim - 1) * f_dim < oc_dim * f_dim) by (nonlinear_arith)
                    requires
                        j + 1 <= f_dim,
                        1 <= oc_dim,
                        1 <= f_dim,
                ;
            }
            let cell = match sdot_cell(wts, j, f_dim, dd, ni * oc_dim, 1, oc_dim) {
                Some(v) => v,
                None => {
                    proof {
                        assert(!spec_ipd_idx_fits(wts@, dd@, oc_dim as int, f_dim as int, idx));
                    }
                    return None;
                },
            };
            out.push(cell);
            proof {
                assert(spec_ipd_idx_fits(wts@, dd@, oc_dim as int, f_dim as int, idx));
                assert(out@[idx] == spec_ipd_val(
                    wts@,
                    dd@,
                    oc_dim as int,
                    f_dim as int,
                    idx,
                ) as i64);
            }
            j = j + 1;
        }
        ni = ni + 1;
        proof {
            assert(out@.len() == ni * f_dim) by (nonlinear_arith)
                requires
                    out@.len() == (ni - 1) * f_dim + f_dim,
            ;
        }
    }
    proof {
        assert(out@ =~= spec_ipd_out(wts@, dd@, n_dim as int, oc_dim as int, f_dim as int));
    }
    Some(out)
}

/// Value of the backward-weights cell at flat index `i` over an
/// `oc`-by-`f` weight gradient: the dot of source column `i % f` against
/// gradient column `i / f`, each `n` terms long.
pub open spec fn spec_ipw_val(src: Seq<i64>, dd: Seq<i64>, n: int, oc: int, f: int, i: int) -> int {
    spec_sdot(src, i % f, f, dd, i / f, oc, n)
}

/// All accumulation steps of the backward-weights cell at flat index `i`
/// stay within the cell type.
pub open spec fn spec_ipw_idx_fits(
    src: Seq<i64>,
    dd: Seq<i64>,
    n: int,
    oc: int,
    f: int,
    i: int,
) -> bool {
    forall|u: int| 0 <= u < n ==> #[trigger] spec_sdot_step_ok(src, i % f, f, dd, i / f, oc, u)
}

/// The whole backward-weights product and the bias gradient stay within
/// the cell type.
pub open spec fn spec_ipw_fits(src: Seq<i64>, dd: Seq<i64>, n: int, oc: int, f: int) -> bool {
    &&& forall|i: int| 0 <= i < oc * f ==> #[trigger] spec_ipw_idx_fits(src, dd, n, oc, f, i)
    &&& forall|o: int| 0 <= o < oc ==> #[trigger] spec_ssum_fits_to(dd, o, oc, n)
}

/// The backward-weights product, row-major over output columns and source
/// cells.
pub open spec fn spec_ipw_out(src: Seq<i64>, dd: Seq<i64>, n: int, oc: int, f: int) -> Seq<i64> {
    Seq::new((oc * f) as nat, |i: int| spec_ipw_val(src, dd, n, oc, f, i) as i64)
}

/// The bias gradient: one strided sum per output column.
pub open spec fn spec_ipb_out(dd: Seq<i64>, n: int, oc: int) -> Seq<i64> {
    Seq::new(oc as nat, |o: int| spec_ssum(dd, o, oc, n) as i64)
}

/// Computes the backward-weights product and the bias gradient; `None`
/// exactly when some cell or partial sum leaves the cell type.
fn ip_bwd_weights_kernel(
    src: &Vec<i64>,
    dd: &Vec<i64>,
    n_dim: usize,
    oc_dim: usize,
    f_dim: usize,
) -> (r: Option<(Vec<i64>, Vec<i64>)>)
    requires
        1 <= n_dim && 1 <= oc_dim && 1 <= f_dim,
        src@.len() == n_dim * f_dim,
        dd@.len() == n_dim * oc_dim,
        oc_dim * f_dim <= usize::MAX,
    ensures
        r is Some <==> spec_ipw_fits(src@, dd@, n_dim as int, oc_dim as int, f_dim as int),
        r matches Some(p) ==> p.0@ == spec_ipw_out(
            src@,
            dd@,
            n_dim as int,
            oc_dim as int,
            f_dim as int,
        ) && p.1@ == spec_ipb_out(dd@, n_dim as int, oc_dim as int),
{
    let src_len = src.len();
    let dd_len = dd.len();
    let mut out: Vec<i64> = Vec::new();
    let mut o: usize = 0;
    while o < oc_dim
        invariant
            o <= oc_dim,
            1 <= n_dim && 1 <= oc_dim && 1 <= f_dim,
            src@.len() == n_dim * f_dim,
            dd@.len() == n_dim * oc_dim,
            src@.len() <= usize::MAX,
            dd@.len() <= usize::MAX,
            oc_dim * f_dim <= usize::MAX,
            out@.len() == o * f_dim,
            forall|i: int|
                0 <= i < out@.len() ==> #[trigger] spec_ipw_idx_fits(
                    src@,
                    dd@,
                    n_dim as int,
                    oc_dim as int,
                    f_dim as int,
                    i,
                ),
            forall|i: int|
                0 <= i < out@.len() ==> #[trigger] out@[i] == spec_ipw_val(
                    src@,
                    dd@,
                    n_dim as int,
                    oc_dim as int,
                    f_dim as int,
                    i,
                ) as i64,
        decreases oc_dim - o,
    {
        let mut j: usize = 0;
        proof {
            assert(o * f_dim + f_dim <= oc_dim * f_dim) by (nonlinear_arith)
                requires
                    o + 1 <= oc_dim,
                    1 <= f_dim,
            ;
        }
        while j < f_dim
            invariant
                j <= f_dim,
                o < oc_dim,
                1 <= n_dim && 1 <= oc_dim && 1 <= f_dim,
                src@.len() == n_dim * f_dim,
                dd@.len() == n_dim * oc_dim,
                src@.len() <= usize::MAX,
                dd@.len() <= usize::MAX,
                oc_dim * f_dim <= usize::MAX,
                out@.len() == o * f_dim + j,
                o * f_dim + f_dim <= oc_dim * f_dim,
                forall|i: int|
                    0 <= i < out@.len() ==> #[trigger] spec_ipw_idx_fits(
                        src@,
                        dd@,
                        n_dim as int,
                        oc_dim as int,
                        f_dim as int,
                        i,
                    ),
                forall|i: int|
                    0 <= i < out@.len() ==> #[trigger] out@[i] == spec_ipw_val(
                        src@,
                        dd@,
                        n_dim as int,
                        oc_dim as int,
                        f_dim as int,
                        i,
                    ) as i64,
            decreases f_dim - j,
        {
            let ghost idx = out@.len() as int;
            proof {
                lemma_fundamental_div_mod_converse(idx, f_dim as int, o as int, j as int);
                assert(idx / f_dim as int == o);
                assert(idx % f_dim as int == j);
                assert(j + (n_dim - 1) * f_dim < n_dim * f_dim) by (nonlinear_arith)
                    requires
                        j + 1 <= f_dim,
                        1 <= n_dim,
                        1 <= f_dim,
                ;
                assert(o + (n_dim - 1) * oc_dim < n_dim * oc_dim) by (nonlinear_arith)
                    requires
                        o + 1 <= oc_dim,
                        1 <= n_dim,
                        1 <= oc_dim,
                ;
            }
            let cell = match sdot_cell(src, j, f_dim, dd, o, oc_dim, n_dim) {
                Some(v) => v,
                None => {
                    proof {
                        assert(!spec_ipw_idx_fits(
                            src@,
                            dd@,
                            n_dim as int,
                            oc_dim as int,
                            f_dim as int,
                            idx,
                        ));
                    }
                    return None;
                },
            };
            out.push(cell);
            proof {
                assert(spec_ipw_idx_fits(
                    src@,
                    dd@,
                    n_dim as int,
                    oc_dim as int,
                    f_dim as int,
                    idx,
                ));
                assert(out@[idx] == spec_ipw_val(
                    src@,
                    dd@,
                    n_dim as int,
                    oc_dim as int,
                    f_dim as int,
                    idx,
                ) as i64);
            }
            j = j + 1;
        }
        o = o + 1;
        proof {
            assert(out@.len() == o * f_dim) by (nonlinear_arith)
                requires
                    out@.len() == (o - 1) * f_dim + f_dim,
            ;
        }
    }
    let mut bias_out: Vec<i64> = Vec::new();
    let mut o: usize = 0;
    while o < oc_dim
        invariant
            o <= oc_dim,
            1 <= n_dim && 1 <= oc_dim,
            dd@.len() == n_dim * oc_dim,
            dd@.len() <= usize::MAX,
            bias_out@.len() == o,
            forall|q: int|
                0 <= q < o ==> #[trigger] spec_ssum_fits_to(dd@, q, oc_dim as int, n_dim as int),
            forall|q: int|
                0 <= q < o ==> #[trigger] bias_out@[q] == spec_ssum(
                    dd@,
                    q,
                    oc_dim as int,
                    n_dim as int,
                ) as i64,
        decreases oc_dim - o,
    {
        proof {
            assert(o + (n_dim - 1) * oc_dim < n_dim * oc_dim) by (nonlinear_arith)
                requires
                    o + 1 <= oc_dim,
                    1 <= n_dim,
                    1 <= oc_dim,
            ;
        }
        let v = match ssum_cell(dd, o, oc_dim, n_dim) {
            Some(v) => v,
            None => {
                return None;
            },
        };
        bias_out.push(v);
        o = o + 1;
    }
    proof {
        assert(out@ =~= spec_ipw_out(src@, dd@, n_dim as int, oc_dim as int, f_dim as int));
        assert(bias_out@ =~= spec_ipb_out(dd@, n_dim as int, oc_dim as int));
    }
    Some((out, bias_out))
}

/// Shape discipline shared by the inner-product family: a sample tensor of
/// at least two axes, weights with one row per output column over the same
/// tail axes, every extent positive.
pub open spec fn spec_ip_dims_ok(src_dims: Seq<i64>, wts_dims: Seq<i64>) -> bool {
    &&& src_dims.len() >= 2
    &&& wts_dims.len() == src_dims.len()
    &&& wts_dims.skip(1) == src_dims.skip(1)
    &&& forall|i: int| 0 <= i < src_dims.len() ==> #[trigger] src_dims[i] >= 1
    &&& wts_dims[0] >= 1
}

/// True exactly when two descriptors obey the inner-product shape
/// discipline.
fn ip_dims_check(src: &MemoryDescriptor, wts: &MemoryDescriptor) -> (r: bool)
    ensures
        r == spec_ip_dims_ok(src.spec_dims(), wts.spec_dims()),
{
    let s = src.query_dims();
    let w = wts.query_dims();
    if s.len() < 2 || w.len() != s.len() {
        return false;
    }
    if w[0] < 1 {
        return false;
    }
    let mut i: usize = 1;
    while i < s.len()
        invariant
            1 <= i <= s@.len(),
            s@.len() == w@.len(),
            s@ == src.spec_dims(),
            w@ == wts.spec_dims(),
            forall|j: int| 1 <= j < i ==> s@[j] == w@[j],
        decreases s.len() - i,
    {
        if s[i] != w[i] {
            proof {
                assert(wts.spec_dims().skip(1)[i - 1] != src.spec_dims().skip(1)[i - 1]);
            }
            return false;
        }
        i = i + 1;
    }
    proof {
        assert(wts.spec_dims().skip(1) =~= src.spec_dims().skip(1));
    }
    let mut i: usize = 0;
    while i < s.len()
        invariant
            i <= s@.len(),
            s@ == src.spec_dims(),
            forall|j: int| 0 <= j < i ==> #[trigger] s@[j] >= 1,
        decreases s.len() - i,
    {
        if s[i] < 1 {
            return false;
        }
        i = i + 1;
    }
    true
}

/// Configuration of a forward inner product.
#[derive(Debug)]
pub struct ForwardInnerProductConfig {
    pub src_desc: MemoryDescriptor,
    pub weights_desc: MemoryDescriptor,
    pub bias_desc: MemoryDescriptor,
    pub dst_desc: MemoryDescriptor,
    pub attr: PrimitiveAttributes,
}

/// All four descriptors share one data type.
pub open spec fn spec_ip_fwd_dtype_ok(c: &ForwardInnerProductConfig) -> bool {
    &&& c.src_desc.spec_data_type() == c.dst_desc.spec_data_type()
    &&& c.weights_desc.spec_data_type() == c.dst_desc.spec_data_type()
    &&& c.bias_desc.spec_data_type() == c.dst_desc.spec_data_type()
}

/// The shapes compose: samples against weights into a two-axis
/// destination, with a one-axis bias per output column.
pub open spec fn spec_ip_fwd_shape_ok(c: &ForwardInnerProductConfig) -> bool {
    &&& spec_ip_dims_ok(c.src_desc.spec_dims(), c.weights_desc.spec_dims())
    &&& c.dst_desc.spec_dims() == seq![
        c.src_desc.spec_dims()[0],
        c.weights_desc.spec_dims()[0],
    ]
    &&& c.bias_desc.spec_dims() == seq![c.weights_desc.spec_dims()[0]]
}

/// A forward inner-product configuration that can become an execution
/// plan.
pub open spec fn spec_ip_fwd_valid(c: &ForwardInnerProductConfig) -> bool {
    &&& spec_ip_fwd_dtype_ok(c)
    &&& spec_ip_fwd_shape_ok(c)
}

impl ForwardInnerProductConfig {
    /// Validates this configuration against an engine and produces the
    /// execution plan.
    ///
    /// The forward inner product pairs with the two forward propagation
    /// kinds only; any other kind is an unsupported combination. A mixed
    /// data type is rejected as invalid data type and shapes that do not
    /// compose as invalid shape.
    pub fn create_primitive_desc(self, engine: Arc<Engine>, prop: PropKind) -> (r: Result<
        PrimitiveDescriptor,
        DnnlError,
    >)
        ensures
            !crate::primitive::spec_prop_is_forward(prop) ==> r == Err::<
                PrimitiveDescriptor,
                DnnlError,
            >(DnnlError::Unsupported),
            crate::primitive::spec_prop_is_forward(prop) && !spec_ip_fwd_dtype_ok(&self) ==> r
                == Err::<PrimitiveDescriptor, DnnlError>(DnnlError::InvalidDataType),
            crate::primitive::spec_prop_is_forward(prop) && spec_ip_fwd_dtype_ok(&self)
                && !spec_ip_fwd_shape_ok(&self) ==> r == Err::<PrimitiveDescriptor, DnnlError>(
                DnnlError::InvalidShape,
            ),
            crate::primitive::spec_prop_is_forward(prop) && spec_ip_fwd_valid(&self) ==> (
            r matches Ok(pd) && pd.spec_plan() == PrimitivePlan::InnerProductForward(self)
                && pd.spec_prop() == prop && pd.spec_engine() == *engine),
    {
        if !matches!(prop, PropKind::ForwardTraining | PropKind::ForwardInference) {
            return Err(DnnlError::Unsupported);
        }
        let dt = self.dst_desc.query_data_type();
        if !(self.src_desc.query_data_type() == dt && self.weights_desc.query_data_type() == dt
            && self.bias_desc.query_data_type() == dt) {
            return Err(DnnlError::InvalidDataType);
        }
        if !ip_dims_check(&self.src_desc, &self.weights_desc) {
            return Err(DnnlError::InvalidShape);
        }
        let s = self.src_desc.query_dims();
        let w = self.weights_desc.query_dims();
        let d = self.dst_desc.query_dims();
        let b = self.bias_desc.query_dims();
        if !(d.len() == 2 && d[0] == s[0] && d[1] == w[0] && b.len() == 1 && b[0] == w[0]) {
            proof {
                assert(self.dst_desc.spec_dims() == seq![
                    self.src_desc.spec_dims()[0],
                    self.weights_desc.spec_dims()[0],
                ] ==> (d@.len() == 2 && d@[0] == s@[0] && d@[1] == w@[0]));
                assert(self.bias_desc.spec_dims() == seq![self.weights_desc.spec_dims()[0]] ==> (
                b@.len() == 1 && b@[0] == w@[0]));
            }
            return Err(DnnlError::InvalidShape);
        }
        proof {
            assert(self.dst_desc.spec_dims() =~= seq![
                self.src_desc.spec_dims()[0],
                self.weights_desc.spec_dims()[0],
            ]);
            assert(self.bias_desc.spec_dims() =~= seq![self.weights_desc.spec_dims()[0]]);
        }
        Ok(PrimitiveDescriptor::make(PrimitivePlan::InnerProductForward(self), prop, engine))
    }
}

/// Configuration of a backward-data inner product, validated against the
/// forward plan it differentiates.
#[derive(Debug)]
pub struct BackwardDataInnerProductConfig {
    pub diff_src_desc: MemoryDescriptor,
    pub weights_desc: MemoryDescriptor,
    pub diff_dst_desc: MemoryDescriptor,
    pub attr: PrimitiveAttributes,
}

/// All three descriptors share one data type.
pub open spec fn spec_ip_bwd_data_dtype_ok(c: &BackwardDataInnerProductConfig) -> bool {
    &&& c.diff_src_desc.spec_data_type() == c.diff_dst_desc.spec_data_type()
    &&& c.weights_desc.spec_data_type() == c.diff_dst_desc.spec_data_type()
}

/// The shapes compose exactly as in the forward pass, with the source
/// gradient standing where the source stood.
pub open spec fn spec_ip_bwd_data_shape_ok(c: &BackwardDataInnerProductConfig) -> bool {
    &&& spec_ip_dims_ok(c.diff_src_desc.spec_dims(), c.weights_desc.spec_dims())
    &&& c.diff_dst_desc.spec_dims() == seq![
        c.diff_src_desc.spec_dims()[0],
        c.weights_desc.spec_dims()[0],
    ]
}

/// A backward-data configuration that can become an execution plan.
pub open spec fn spec_ip_bwd_data_valid(c: &BackwardDataInnerProductConfig) -> bool {
    &&& spec_ip_bwd_data_dtype_ok(c)
    &&& spec_ip_bwd_data_shape_ok(c)
}

/// The forward hint is an inner-product plan built for training.
pub open spec fn spec_ip_hint_kind_ok(hint: &PrimitiveDescriptor) -> bool {
    &&& hint.spec_plan() is InnerProductForward
    &&& hint.spec_prop() == PropKind::ForwardTraining
}

/// The forward hint's tensors match the backward-data descriptors.
pub open spec fn spec_ip_bwd_data_hint_ok(
    c: &BackwardDataInnerProductConfig,
    hint: &PrimitiveDescriptor,
) -> bool {
    hint.spec_plan() matches PrimitivePlan::InnerProductForward(f) && f.src_desc.spec_dims()
        == c.diff_src_desc.spec_dims() && f.weights_desc.spec_dims()
        == c.weights_desc.spec_dims() && f.dst_desc.spec_dims() == c.diff_dst_desc.spec_dims()
}

impl BackwardDataInnerProductConfig {
    /// Validates this configuration against an engine and the forward plan
    /// it differentiates, and produces the execution plan.
    ///
    /// Only the backward-data propagation kind pairs with this operation.
    /// A hint that is not a forward-training inner-product plan is rejected
    /// as invalid arguments; a shape that does not compose, or a hint whose
    /// tensors do not match, surfaces invalid shape.
    pub fn create_primitive_desc(
        self,
        engine: Arc<Engine>,
        prop: PropKind,
        hint: &PrimitiveDescriptor,
    ) -> (r: Result<PrimitiveDescriptor, DnnlError>)
        ensures
            prop != PropKind::BackwardData ==> r == Err::<PrimitiveDescriptor, DnnlError>(
                DnnlError::Unsupported,
            ),
            prop == PropKind::BackwardData && !spec_ip_hint_kind_ok(hint) ==> r == Err::<
                PrimitiveDescriptor,
                DnnlError,
            >(DnnlError::InvalidArguments),
            prop == PropKind::BackwardData && spec_ip_hint_kind_ok(hint)
                && !spec_ip_bwd_data_dtype_ok(&self) ==> r == Err::<PrimitiveDescriptor, DnnlError>(
                DnnlError::InvalidDataType,
            ),
            prop == PropKind::BackwardData && spec_ip_hint_kind_ok(hint)
                && spec_ip_bwd_data_dtype_ok(&self) && !(spec_ip_bwd_data_shape_ok(&self)
                && spec_ip_bwd_data_hint_ok(&self, hint)) ==> r == Err::<
                PrimitiveDescriptor,
                DnnlError,
            >(DnnlError::InvalidShape),
            prop == PropKind::BackwardData && spec_ip_hint_kind_ok(hint)
                && spec_ip_bwd_data_valid(&self) && spec_ip_bwd_data_hint_ok(&self, hint) ==> (
            r matches Ok(pd) && pd.spec_plan() == PrimitivePlan::InnerProductBackwardData(self)
                && pd.spec_prop() == prop && pd.spec_engine() == *engine),
    {
        if !matches!(prop, PropKind::BackwardData) {
            return Err(DnnlError::Unsupported);
        }
        let hint_kind_ok = match hint.plan_ref() {
            PrimitivePlan::InnerProductForward(_) => matches!(
                hint.prop_kind(),
                PropKind::ForwardTraining,
            ),
            _ => false,
        };
        if !hint_kind_ok {
            return Err(DnnlError::InvalidArguments);
        }
        let dt = self.diff_dst_desc.query_data_type();
        if !(self.diff_src_desc.query_data_type() == dt && self.weights_desc.query_data_type()
            == dt) {
            return Err(DnnlError::InvalidDataType);
        }
        if !ip_dims_check(&self.diff_src_desc, &self.weights_desc) {
            return Err(DnnlError::InvalidShape);
        }
        let s = self.diff_src_desc.query_dims();
        let w = self.weights_desc.query_dims();
        let d = self.diff_dst_desc.query_dims();
        if !(d.len() == 2 && d[0] == s[0] && d[1] == w[0]) {
            proof {
                assert(self.diff_dst_desc.spec_dims() == seq![
                    self.diff_src_desc.spec_dims()[0],
                    self.weights_desc.spec_dims()[0],
                ] ==> (d@.len() == 2 && d@[0] == s@[0] && d@[1] == w@[0]));
            }
            return Err(DnnlError::InvalidShape);
        }
        proof {
            assert(self.diff_dst_desc.spec_dims() =~= seq![
                self.diff_src_desc.spec_dims()[0],
                self.weights_desc.spec_dims()[0],
            ]);
        }
        let hint_shape_ok = match hint.plan_ref() {
            PrimitivePlan::InnerProductForward(f) => f.src_desc.same_dims(&self.diff_src_desc)
                && f.weights_desc.same_dims(&self.weights_desc) && f.dst_desc.same_dims(
                &self.diff_dst_desc,
            ),
            _ => false,
        };
        if !hint_shape_ok {
            return Err(DnnlError::InvalidShape);
        }
        Ok(PrimitiveDescriptor::make(PrimitivePlan::InnerProductBackwardData(self), prop, engine))
    }
}

/// Configuration of a backward-weights inner product, validated against
/// the forward plan it differentiates.
#[derive(Debug)]
pub struct BackwardWeightsInnerProductConfig {
    pub src_desc: MemoryDescriptor,
    pub diff_weights_desc: MemoryDescriptor,
    pub diff_bias_desc: MemoryDescriptor,
    pub diff_dst_desc: MemoryDescriptor,
    pub attr: PrimitiveAttributes,
}

/// All four descriptors share one data type.
pub open spec fn spec_ip_bwd_wts_dtype_ok(c: &BackwardWeightsInnerProductConfig) -> bool {
    &&& c.src_desc.spec_data_type() == c.diff_dst_desc.spec_data_type()
    &&& c.diff_weights_desc.spec_data_type() == c.diff_dst_desc.spec_data_type()
    &&& c.diff_bias_desc.spec_data_type() == c.diff_dst_desc.spec_data_type()
}

/// The shapes compose exactly as in the forward pass, with the weight and
/// bias gradients standing where the weights and bias stood.
pub open spec fn spec_ip_bwd_wts_shape_ok(c: &BackwardWeightsInnerProductConfig) -> bool {
    &&& spec_ip_dims_ok(c.src_desc.spec_dims(), c.diff_weights_desc.spec_dims())
    &&& c.diff_dst_desc.spec_dims() == seq![
        c.src_desc.spec_dims()[0],
        c.diff_weights_desc.spec_dims()[0],
    ]
    &&& c.diff_bias_desc.spec_dims() == seq![c.diff_weights_desc.spec_dims()[0]]
}

/// A backward-weights configuration that can become an execution plan.
pub open spec fn spec_ip_bwd_wts_valid(c: &BackwardWeightsInnerProductConfig) -> bool {
    &&& spec_ip_bwd_wts_dtype_ok(c)
    &&& spec_ip_bwd_wts_shape_ok(c)
}

/// The forward hint's tensors match the backward-weights descriptors.
pub open spec fn spec_ip_bwd_wts_hint_ok(
    c: &BackwardWeightsInnerProductConfig,
    hint: &PrimitiveDescriptor,
) -> bool {
    hint.spec_plan() matches PrimitivePlan::InnerProductForward(f) && f.src_desc.spec_dims()
        == c.src_desc.spec_dims() && f.weights_desc.spec_dims()
        == c.diff_weights_desc.spec_dims() && f.dst_desc.spec_dims()
        == c.diff_dst_desc.spec_dims() && f.bias_desc.spec_dims() == c.diff_bias_desc.spec_dims()
}

impl BackwardWeightsInnerProductConfig {
    /// Validates this configuration against an engine and the forward plan
    /// it differentiates, and produces the execution plan.
    ///
    /// Only the backward-weights propagation kind pairs with this
    /// operation. A hint that is not a forward-training inner-product plan
    /// is rejected as invalid arguments; a shape that does not compose, or
    /// a hint whose tensors do not match, surfaces invalid shape.
    pub fn create_primitive_desc(
        self,
        engine: Arc<Engine>,
        prop: PropKind,
        hint: &PrimitiveDescriptor,
    ) -> (r: Result<PrimitiveDescriptor, DnnlError>)
        ensures
            prop != PropKind::BackwardWeights ==> r == Err::<PrimitiveDescriptor, DnnlError>(
                DnnlError::Unsupported,
            ),
            prop == PropKind::BackwardWeights && !spec_ip_hint_kind_ok(hint) ==> r == Err::<
                PrimitiveDescriptor,
                DnnlError,
            >(DnnlError::InvalidArguments),
            prop == PropKind::BackwardWeights && spec_ip_hint_kind_ok(hint)
                && !spec_ip_bwd_wts_dtype_ok(&self) ==> r == Err::<PrimitiveDescriptor, DnnlError>(
                DnnlError::InvalidDataType,
            ),
            prop == PropKind::BackwardWeights && spec_ip_hint_kind_ok(hint)
                && spec_ip_bwd_wts_dtype_ok(&self) && !(spec_ip_bwd_wts_shape_ok(&self)
                && spec_ip_bwd_wts_hint_ok(&self, hint)) ==> r == Err::<
                PrimitiveDescriptor,
                DnnlError,
            >(DnnlError::InvalidShape),
            prop == PropKind::BackwardWeights && spec_ip_hint_kind_ok(hint)
                && spec_ip_bwd_wts_valid(&self) && spec_ip_bwd_wts_hint_ok(&self, hint) ==> (
            r matches Ok(pd) && pd.spec_plan() == PrimitivePlan::InnerProductBackwardWeights(self)
                && pd.spec_prop() == prop && pd.spec_engine() == *engine),
    {
        if !matches!(prop, PropKind::BackwardWeights) {
            return Err(DnnlError::Unsupported);
        }
        let hint_kind_ok = match hint.plan_ref() {
            PrimitivePlan::InnerProductForward(_) => matches!(
                hint.prop_kind(),
                PropKind::ForwardTraining,
            ),
            _ => false,
        };
        if !hint_kind_ok {
            return Err(DnnlError::InvalidArguments);
        }
        let dt = self.diff_dst_desc.query_data_type();
        if !(self.src_desc.query_data_type() == dt && self.diff_weights_desc.query_data_type()
            == dt && self.diff_bias_desc.query_data_type() == dt) {
            return Err(DnnlError::InvalidDataType);
        }
        if !ip_dims_check(&self.src_desc, &self.diff_weights_desc) {
            return Err(DnnlError::InvalidShape);
        }
        let s = self.src_desc.query_dims();
        let w = self.diff_weights_desc.query_dims();
        let d = self.diff_dst_desc.query_dims();
        let b = self.diff_bias_desc.query_dims();
        if !(d.len() == 2 && d[0] == s[0] && d[1] == w[0] && b.len() == 1 && b[0] == w[0]) {
            proof {
                assert(self.diff_dst_desc.spec_dims() == seq![
                    self.src_desc.spec_dims()[0],
                    self.diff_weights_desc.spec_dims()[0],
                ] ==> (d@.len() == 2 && d@[0] == s@[0] && d@[1] == w@[0]));
                assert(self.diff_bias_desc.spec_dims() == seq![
                    self.diff_weights_desc.spec_dims()[0],
                ] ==> (b@.len() == 1 && b@[0] == w@[0]));
            }
            return Err(DnnlError::InvalidShape);
        }
        proof {
            assert(self.diff_dst_desc.spec_dims() =~= seq![
                self.src_desc.spec_dims()[0],
                self.diff_weights_desc.spec_dims()[0],
            ]);
            assert(self.diff_bias_desc.spec_dims() =~= seq![
                self.diff_weights_desc.spec_dims()[0],
            ]);
        }
        let hint_shape_ok = match hint.plan_ref() {
            PrimitivePlan::InnerProductForward(f) => f.src_desc.same_dims(&self.src_desc)
                && f.weights_desc.same_dims(&self.diff_weights_desc) && f.dst_desc.same_dims(
                &self.diff_dst_desc,
            ) && f.bias_desc.same_dims(&self.diff_bias_desc),
            _ => false,
        };
        if !hint_shape_ok {
            return Err(DnnlError::InvalidShape);
        }
        Ok(
            PrimitiveDescriptor::make(
                PrimitivePlan::InnerProductBackwardWeights(self),
                prop,
                engine,
            ),
        )
    }
}

/// Marker for the forward inner-product operation.
#[derive(Debug, Clone, Copy)]
pub struct ForwardInnerProduct;

impl ForwardInnerProduct {
    /// The operation kind this marker denotes.
    pub fn op_type(&self) -> (r: OperationType)
        ensures
            r == OperationType::InnerProduct,
    {
        OperationType::InnerProduct
    }
}

/// Marker for the backward-data inner-product operation.
#[derive(Debug, Clone, Copy)]
pub struct BackwardDataInnerProduct;

impl BackwardDataInnerProduct {
    /// The operation kind this marker denotes.
    pub fn op_type(&self) -> (r: OperationType)
        ensures
            r == OperationType::InnerProduct,
    {
        OperationType::InnerProduct
    }
}

/// Marker for the backward-weights inner-product operation.
#[derive(Debug, Clone, Copy)]
pub struct BackwardWeightsInnerProduct;

impl BackwardWeightsInnerProduct {
    /// The operation kind this marker denotes.
    pub fn op_type(&self) -> (r: OperationType)
        ensures
            r == OperationType::InnerProduct,
    {
        OperationType::InnerProduct
    }
}

/// Sample count of an inner-product configuration's source shape.
pub open spec fn spec_ip_n(src_dims: Seq<i64>) -> int {
    src_dims[0] as int
}

/// Flattened per-sample cell count of an inner-product source shape.
pub open spec fn spec_ip_f(src_dims: Seq<i64>) -> int {
    spec_prod(src_dims.skip(1))
}

/// The bias cells an argument contributes: empty when it carries no
/// storage.
pub open spec fn spec_ip_bias_data(a: &ExecArg) -> Seq<i64> {
    if a.mem.spec_has_storage() {
        a.mem.spec_data()
    } else {
        Seq::<i64>::empty()
    }
}

/// A well-formed argument list for a forward inner-product plan: source,
/// weights, bias and destination slots, each once, each under the plan's
/// descriptors. Source, weights and destination must carry storage; a bias
/// bound without storage stands for a disabled bias.
pub open spec fn spec_ip_fwd_args_ok(c: &ForwardInnerProductConfig, args: Seq<ExecArg>) -> bool {
    &&& args.len() == 4
    &&& spec_slot_count(args, ARG_SRC_0) == 1
    &&& spec_slot_count(args, ARG_WEIGHTS) == 1
    &&& spec_slot_count(args, ARG_BIAS) == 1
    &&& spec_slot_count(args, ARG_DST) == 1
    &&& forall|j: int|
        0 <= j < args.len() ==> {
            &&& ((#[trigger] args[j]).index == ARG_SRC_0 ==> args[j].mem.spec_desc().spec_equal(
                &c.src_desc,
            ) && args[j].mem.spec_has_storage())
            &&& (args[j].index == ARG_WEIGHTS ==> args[j].mem.spec_desc().spec_equal(
                &c.weights_desc,
            ) && args[j].mem.spec_has_storage())
            &&& (args[j].index == ARG_BIAS ==> args[j].mem.spec_desc().spec_equal(&c.bias_desc))
            &&& (args[j].index == ARG_DST ==> args[j].mem.spec_desc().spec_equal(&c.dst_desc)
                && args[j].mem.spec_has_storage())
        }
}

/// True when the whole forward product over the bound tensors fits the
/// cell type.
pub open spec fn spec_ip_fwd_args_fits(c: &ForwardInnerProductConfig, args: Seq<ExecArg>) -> bool {
    forall|a: int, w: int, bi: int|
        (0 <= a < args.len() && 0 <= w < args.len() && 0 <= bi < args.len() && (
        #[trigger] args[a]).index == ARG_SRC_0 && (#[trigger] args[w]).index == ARG_WEIGHTS && (
        #[trigger] args[bi]).index == ARG_BIAS) ==> spec_ip_fwd_fits(
            args[a].mem.spec_data(),
            args[w].mem.spec_data(),
            spec_ip_bias_data(&args[bi]),
            spec_ip_n(c.src_desc.spec_dims()),
            c.weights_desc.spec_dims()[0] as int,
            spec_ip_f(c.src_desc.spec_dims()),
        )
}

/// Result of executing a forward inner-product plan.
pub open spec fn spec_ip_fwd_post(
    c: &ForwardInnerProductConfig,
    args: Seq<ExecArg>,
    out: Seq<ExecArg>,
) -> bool {
    &&& out.len() == args.len()
    &&& forall|j: int| 0 <= j < args.len() ==> (#[trigger] out[j]).index == args[j].index
    &&& forall|j: int|
        0 <= j < args.len() && (#[trigger] args[j]).index != ARG_DST ==> out[j].mem == args[j].mem
    &&& forall|j: int, a: int, w: int, bi: int|
        (0 <= j < args.len() && 0 <= a < args.len() && 0 <= w < args.len() && 0 <= bi < args.len()
            && (#[trigger] args[j]).index == ARG_DST && (#[trigger] args[a]).index == ARG_SRC_0 && (
        #[trigger] args[w]).index == ARG_WEIGHTS && (#[trigger] args[bi]).index == ARG_BIAS) ==> (
        out[j].mem.spec_desc() == args[j].mem.spec_desc() && out[j].mem.spec_engine()
            == args[j].mem.spec_engine() && out[j].mem.spec_data() == spec_ip_fwd_out(
            args[a].mem.spec_data(),
            args[w].mem.spec_data(),
            spec_ip_bias_data(&args[bi]),
            spec_ip_n(c.src_desc.spec_dims()),
            c.weights_desc.spec_dims()[0] as int,
            spec_ip_f(c.src_desc.spec_dims()),
        ))
}

/// Facts a valid inner-product shape pair gives about its derived sizes.
proof fn lemma_ip_sizes(src: &MemoryDescriptor, wts: &MemoryDescriptor)
    requires
        spec_ip_dims_ok(src.spec_dims(), wts.spec_dims()),
    ensures
        spec_ip_n(src.spec_dims()) >= 1,
        spec_ip_f(src.spec_dims()) >= 1,
        wts.spec_dims()[0] >= 1,
        spec_prod(src.spec_dims()) == spec_ip_n(src.spec_dims()) * spec_ip_f(src.spec_dims()),
        spec_prod(wts.spec_dims()) == wts.spec_dims()[0] * spec_ip_f(src.spec_dims()),
{
    let s = src.spec_dims();
    let w = wts.spec_dims();
    assert forall|k: int| 0 <= k < s.skip(1).len() implies #[trigger] s.skip(1)[k] >= 1 by {
        assert(s.skip(1)[k] == s[k + 1]);
    }
    lemma_prod_pos(s.skip(1));
    lemma_prod_head_split(s);
    lemma_prod_head_split(w);
    assert(w.skip(1) == s.skip(1));
}

/// Executes a forward inner-product plan over an argument list.
pub(crate) fn ip_fwd_execute(c: &ForwardInnerProductConfig, args: Vec<ExecArg>) -> (r: Result<
    Vec<ExecArg>,
    DnnlError,
>)
    requires
        spec_ip_fwd_valid(c),
    ensures
        r is Ok <==> (spec_ip_fwd_args_ok(c, args@) && spec_ip_fwd_args_fits(c, args@)),
        !spec_ip_fwd_args_ok(c, args@) ==> r == Err::<Vec<ExecArg>, DnnlError>(
            DnnlError::InvalidArguments,
        ),
        spec_ip_fwd_args_ok(c, args@) && !spec_ip_fwd_args_fits(c, args@) ==> r == Err::<
            Vec<ExecArg>,
            DnnlError,
        >(DnnlError::RuntimeError),
        r matches Ok(out) ==> spec_ip_fwd_post(c, args@, out@),
{
    let ghost gargs = args@;
    if args.len() != 4 {
        return Err(DnnlError::InvalidArguments);
    }
    let pa = match find_arg(&args, ARG_SRC_0) {
        Some(p) => p,
        None => {
            proof {
                lemma_slot_count_zero(gargs, ARG_SRC_0);
            }
            return Err(DnnlError::InvalidArguments);
        },
    };
    let pw = match find_arg(&args, ARG_WEIGHTS) {
        Some(p) => p,
        None => {
            proof {
                lemma_slot_count_zero(gargs, ARG_WEIGHTS);
            }
            return Err(DnnlError::InvalidArguments);
        },
    };
    let pb = match find_arg(&args, ARG_BIAS) {
        Some(p) => p,
        None => {
            proof {
                lemma_slot_count_zero(gargs, ARG_BIAS);
            }
            return Err(DnnlError::InvalidArguments);
        },
    };
    let pd = match find_arg(&args, ARG_DST) {
        Some(p) => p,
        None => {
            proof {
                lemma_slot_count_zero(gargs, ARG_DST);
            }
            return Err(DnnlError::InvalidArguments);
        },
    };
    if crate::primitive::count_arg(&args, ARG_SRC_0) != 1 || crate::primitive::count_arg(
        &args,
        ARG_WEIGHTS,
    ) != 1 || crate::primitive::count_arg(&args, ARG_BIAS) != 1 || crate::primitive::count_arg(
        &args,
        ARG_DST,
    ) != 1 {
        return Err(DnnlError::InvalidArguments);
    }
    if !(args[pa].mem.desc().equal(&c.src_desc) && args[pa].mem.has_storage()) {
        return Err(DnnlError::InvalidArguments);
    }
    if !(args[pw].mem.desc().equal(&c.weights_desc) && args[pw].mem.has_storage()) {
        return Err(DnnlError::InvalidArguments);
    }
    if !args[pb].mem.desc().equal(&c.bias_desc) {
        return Err(DnnlError::InvalidArguments);
    }
    if !(args[pd].mem.desc().equal(&c.dst_desc) && args[pd].mem.has_storage()) {
        return Err(DnnlError::InvalidArguments);
    }
    proof {
        assert forall|j: int| 0 <= j < gargs.len() implies {
            &&& ((#[trigger] gargs[j]).index == ARG_SRC_0 ==> gargs[j].mem.spec_desc().spec_equal(
                &c.src_desc,
            ) && gargs[j].mem.spec_has_storage())
            &&& (gargs[j].index == ARG_WEIGHTS ==> gargs[j].mem.spec_desc().spec_equal(
                &c.weights_desc,
            ) && gargs[j].mem.spec_has_storage())
            &&& (gargs[j].index == ARG_BIAS ==> gargs[j].mem.spec_desc().spec_equal(&c.bias_desc))
            &&& (gargs[j].index == ARG_DST ==> gargs[j].mem.spec_desc().spec_equal(&c.dst_desc)
                && gargs[j].mem.spec_has_storage())
        } by {
            if gargs[j].index == ARG_SRC_0 {
                lemma_slot_count_unique(gargs, ARG_SRC_0, j, pa as int);
            }
            if gargs[j].index == ARG_WEIGHTS {
                lemma_slot_count_unique(gargs, ARG_WEIGHTS, j, pw as int);
            }
            if gargs[j].index == ARG_BIAS {
                lemma_slot_count_unique(gargs, ARG_BIAS, j, pb as int);
            }
            if gargs[j].index == ARG_DST {
                lemma_slot_count_unique(gargs, ARG_DST, j, pd as int);
            }
        }
        assert(spec_ip_fwd_args_ok(c, gargs));
    }
    proof {
        lemma_ip_sizes(&c.src_desc, &c.weights_desc);
        use_type_invariant(&c.src_desc);
        use_type_invariant(&c.weights_desc);
        use_type_invariant(&c.dst_desc);
        use_type_invariant(&c.bias_desc);
        crate::memory::descriptor::lemma_prod_nonneg(c.src_desc.spec_dims());
        crate::memory::descriptor::lemma_prod_nonneg(c.weights_desc.spec_dims());
        crate::memory::descriptor::lemma_prod_nonneg(c.dst_desc.spec_dims());
        crate::memory::descriptor::lemma_prod_nonneg(c.bias_desc.spec_dims());
        crate::memory::descriptor::count_bounded_by_size(
            c.src_desc.spec_dims(),
            c.src_desc.spec_data_type(),
        );
        crate::memory::descriptor::count_bounded_by_size(
            c.weights_desc.spec_dims(),
            c.weights_desc.spec_data_type(),
        );
        crate::memory::descriptor::count_bounded_by_size(
            c.dst_desc.spec_dims(),
            c.dst_desc.spec_data_type(),
        );
        lemma_prod2(c.dst_desc.spec_dims());
        lemma_prod1(c.bias_desc.spec_dims());
        assert(spec_ip_n(c.src_desc.spec_dims()) <= spec_prod(c.src_desc.spec_dims()))
            by (nonlinear_arith)
            requires
                spec_prod(c.src_desc.spec_dims()) == spec_ip_n(c.src_desc.spec_dims()) * spec_ip_f(
                    c.src_desc.spec_dims(),
                ),
                spec_ip_n(c.src_desc.spec_dims()) >= 1,
                spec_ip_f(c.src_desc.spec_dims()) >= 1,
        ;
        assert(spec_ip_f(c.src_desc.spec_dims()) <= spec_prod(c.src_desc.spec_dims()))
            by (nonlinear_arith)
            requires
                spec_prod(c.src_desc.spec_dims()) == spec_ip_n(c.src_desc.spec_dims()) * spec_ip_f(
                    c.src_desc.spec_dims(),
                ),
                spec_ip_n(c.src_desc.spec_dims()) >= 1,
                spec_ip_f(c.src_desc.spec_dims()) >= 1,
        ;
        assert(c.weights_desc.spec_dims()[0] <= spec_prod(c.weights_desc.spec_dims()))
            by (nonlinear_arith)
            requires
                spec_prod(c.weights_desc.spec_dims()) == c.weights_desc.spec_dims()[0] * spec_ip_f(
                    c.src_desc.spec_dims(),
                ),
                c.weights_desc.spec_dims()[0] >= 1,
                spec_ip_f(c.src_desc.spec_dims()) >= 1,
        ;
    }
    let s = c.src_desc.query_dims();
    let w = c.weights_desc.query_dims();
    let n_dim = s[0] as usize;
    let oc_dim = w[0] as usize;
    let src_count = c.src_desc.elem_count();
    let f_dim = src_count / n_dim;
    proof {
        assert(src_count as int == spec_ip_f(c.src_desc.spec_dims()) * n_dim as int + 0)
            by (nonlinear_arith)
            requires
                src_count as int == n_dim as int * spec_ip_f(c.src_desc.spec_dims()),
        ;
        lemma_fundamental_div_mod_converse(
            src_count as int,
            n_dim as int,
            spec_ip_f(c.src_desc.spec_dims()),
            0,
        );
        assert(f_dim as int == spec_ip_f(c.src_desc.spec_dims()));
    }
    let src_data = args[pa].mem.data_vec();
    let wts_data = args[pw].mem.data_vec();
    let bias_present = args[pb].mem.has_storage();
    let bias_data = if bias_present {
        args[pb].mem.data_vec()
    } else {
        Vec::new()
    };
    let bias_opt: Option<&Vec<i64>> = if bias_present {
        Some(&bias_data)
    } else {
        None
    };
    let result = match ip_fwd_kernel(&src_data, &wts_data, bias_opt, n_dim, oc_dim, f_dim) {
        Some(v) => v,
        None => {
            proof {
                assert(!spec_ip_fwd_args_fits(c, gargs));
            }
            return Err(DnnlError::RuntimeError);
        },
    };
    proof {
        assert forall|a: int, w2: int, bi: int|
            (0 <= a < gargs.len() && 0 <= w2 < gargs.len() && 0 <= bi < gargs.len() && (
            #[trigger] gargs[a]).index == ARG_SRC_0 && (#[trigger] gargs[w2]).index == ARG_WEIGHTS
                && (#[trigger] gargs[bi]).index == ARG_BIAS) implies spec_ip_fwd_fits(
            gargs[a].mem.spec_data(),
            gargs[w2].mem.spec_data(),
            spec_ip_bias_data(&gargs[bi]),
            spec_ip_n(c.src_desc.spec_dims()),
            c.weights_desc.spec_dims()[0] as int,
            spec_ip_f(c.src_desc.spec_dims()),
        ) by {
            lemma_slot_count_unique(gargs, ARG_SRC_0, a, pa as int);
            lemma_slot_count_unique(gargs, ARG_WEIGHTS, w2, pw as int);
            lemma_slot_count_unique(gargs, ARG_BIAS, bi, pb as int);
        }
    }
    let mut args = args;
    let dst_arg = args.remove(pd);
    let new_mem = dst_arg.mem.with_data(&result);
    args.insert(pd, ExecArg { index: dst_arg.index, mem: new_mem });
    proof {
        assert(args@ =~= gargs.update(pd as int, args@[pd as int]));
        assert forall|j: int, a: int, w2: int, bi: int|
            (0 <= j < gargs.len() && 0 <= a < gargs.len() && 0 <= w2 < gargs.len() && 0 <= bi
                < gargs.len() && (#[trigger] gargs[j]).index == ARG_DST && (
            #[trigger] gargs[a]).index == ARG_SRC_0 && (#[trigger] gargs[w2]).index == ARG_WEIGHTS
                && (#[trigger] gargs[bi]).index == ARG_BIAS) implies (args@[j].mem.spec_desc()
            == gargs[j].mem.spec_desc() && args@[j].mem.spec_engine() == gargs[j].mem.spec_engine()
            && args@[j].mem.spec_data() == spec_ip_fwd_out(
            gargs[a].mem.spec_data(),
            gargs[w2].mem.spec_data(),
            spec_ip_bias_data(&gargs[bi]),
            spec_ip_n(c.src_desc.spec_dims()),
            c.weights_desc.spec_dims()[0] as int,
            spec_ip_f(c.src_desc.spec_dims()),
        )) by {
            lemma_slot_count_unique(gargs, ARG_DST, j, pd as int);
            lemma_slot_count_unique(gargs, ARG_SRC_0, a, pa as int);
            lemma_slot_count_unique(gargs, ARG_WEIGHTS, w2, pw as int);
            lemma_slot_count_unique(gargs, ARG_BIAS, bi, pb as int);
        }
        assert(spec_ip_fwd_post(c, gargs, args@));
    }
    Ok(args)
}

/// A well-formed argument list for a backward-data plan: the destination
/// gradient, the weights and the source-gradient destination, each once,
/// each bound to storage under the plan's descriptors.
pub open spec fn spec_ip_bwd_data_args_ok(
    c: &BackwardDataInnerProductConfig,
    args: Seq<ExecArg>,
) -> bool {
    &&& args.len() == 3
    &&& spec_slot_count(args, ARG_DIFF_DST) == 1
    &&& spec_slot_count(args, ARG_WEIGHTS) == 1
    &&& spec_slot_count(args, ARG_DIFF_SRC) == 1
    &&& forall|j: int|
        0 <= j < args.len() ==> {
            &&& ((#[trigger] args[j]).index == ARG_DIFF_DST ==> args[j].mem.spec_desc().spec_equal(
                &c.diff_dst_desc,
            ) && args[j].mem.spec_has_storage())
            &&& (args[j].index == ARG_WEIGHTS ==> args[j].mem.spec_desc().spec_equal(
                &c.weights_desc,
            ) && args[j].mem.spec_has_storage())
            &&& (args[j].index == ARG_DIFF_SRC ==> args[j].mem.spec_desc().spec_equal(
                &c.diff_src_desc,
            ) && args[j].mem.spec_has_storage())
        }
}

/// True when the whole backward-data product over the bound tensors fits
/// the cell type.
pub open spec fn spec_ip_bwd_data_args_fits(
    c: &BackwardDataInnerProductConfig,
    args: Seq<ExecArg>,
) -> bool {
    forall|w: int, b: int|
        (0 <= w < args.len() && 0 <= b < args.len() && (#[trigger] args[w]).index == ARG_WEIGHTS
            && (#[trigger] args[b]).index == ARG_DIFF_DST) ==> spec_ipd_fits(
            args[w].mem.spec_data(),
            args[b].mem.spec_data(),
            spec_ip_n(c.diff_src_desc.spec_dims()),
            c.weights_desc.spec_dims()[0] as int,
            spec_ip_f(c.diff_src_desc.spec_dims()),
        )
}

/// Result of executing a backward-data plan.
pub open spec fn spec_ip_bwd_data_post(
    c: &BackwardDataInnerProductConfig,
    args: Seq<ExecArg>,
    out: Seq<ExecArg>,
) -> bool {
    &&& out.len() == args.len()
    &&& forall|j: int| 0 <= j < args.len() ==> (#[trigger] out[j]).index == args[j].index
    &&& forall|j: int|
        0 <= j < args.len() && (#[trigger] args[j]).index != ARG_DIFF_SRC ==> out[j].mem
            == args[j].mem
    &&& forall|j: int, w: int, b: int|
        (0 <= j < args.len() && 0 <= w < args.len() && 0 <= b < args.len() && (
        #[trigger] args[j]).index == ARG_DIFF_SRC && (#[trigger] args[w]).index == ARG_WEIGHTS && (
        #[trigger] args[b]).index == ARG_DIFF_DST) ==> (out[j].mem.spec_desc()
            == args[j].mem.spec_desc() && out[j].mem.spec_engine() == args[j].mem.spec_engine()
            && out[j].mem.spec_data() == spec_ipd_out(
            args[w].mem.spec_data(),
            args[b].mem.spec_data(),
            spec_ip_n(c.diff_src_desc.spec_dims()),
            c.weights_desc.spec_dims()[0] as int,
            spec_ip_f(c.diff_src_desc.spec_dims()),
        ))
}

/// Executes a backward-data plan over an argument list.
pub(crate) fn ip_bwd_data_execute(c: &BackwardDataInnerProductConfig, args: Vec<ExecArg>) -> (r:
    Result<Vec<ExecArg>, DnnlError>)
    requires
        spec_ip_bwd_data_valid(c),
    ensures
        r is Ok <==> (spec_ip_bwd_data_args_ok(c, args@) && spec_ip_bwd_data_args_fits(c, args@)),
        !spec_ip_bwd_data_args_ok(c, args@) ==> r == Err::<Vec<ExecArg>, DnnlError>(
            DnnlError::InvalidArguments,
        ),
        spec_ip_bwd_data_args_ok(c, args@) && !spec_ip_bwd_data_args_fits(c, args@) ==> r == Err::<
            Vec<ExecArg>,
            DnnlError,
        >(DnnlError::RuntimeError),
        r matches Ok(out) ==> spec_ip_bwd_data_post(c, args@, out@),
{
    let ghost gargs = args@;
    if args.len() != 3 {
        return Err(DnnlError::InvalidArguments);
    }
    let pb = match find_arg(&args, ARG_DIFF_DST) {
        Some(p) => p,
        None => {
            proof {
                lemma_slot_count_zero(gargs, ARG_DIFF_DST);
            }
            return Err(DnnlError::InvalidArguments);
        },
    };
    let pw = match find_arg(&args, ARG_WEIGHTS) {
        Some(p) => p,
        None => {
            proof {
                lemma_slot_count_zero(gargs, ARG_WEIGHTS);
            }
            return Err(DnnlError::InvalidArguments);
        },
    };
    let pd = match find_arg(&args, ARG_DIFF_SRC) {
        Some(p) => p,
        None => {
            proof {
                lemma_slot_count_zero(gargs, ARG_DIFF_SRC);
            }
            return Err(DnnlError::InvalidArguments);
        },
    };
    if crate::primitive::count_arg(&args, ARG_DIFF_DST) != 1 || crate::primitive::count_arg(
        &args,
        ARG_WEIGHTS,
    ) != 1 || crate::primitive::count_arg(&args, ARG_DIFF_SRC) != 1 {
        return Err(DnnlError::InvalidArguments);
    }
    if !(args[pb].mem.desc().equal(&c.diff_dst_desc) && args[pb].mem.has_storage()) {
        return Err(DnnlError::InvalidArguments);
    }
    if !(args[pw].mem.desc().equal(&c.weights_desc) && args[pw].mem.has_storage()) {
        return Err(DnnlError::InvalidArguments);
    }
    if !(args[pd].mem.desc().equal(&c.diff_src_desc) && args[pd].mem.has_storage()) {
        return Err(DnnlError::InvalidArguments);
    }
    proof {
        assert forall|j: int| 0 <= j < gargs.len() implies {
            &&& ((#[trigger] gargs[j]).index == ARG_DIFF_DST
                ==> gargs[j].mem.spec_desc().spec_equal(&c.diff_dst_desc)
                && gargs[j].mem.spec_has_storage())
            &&& (gargs[j].index == ARG_WEIGHTS ==> gargs[j].mem.spec_desc().spec_equal(
                &c.weights_desc,
            ) && gargs[j].mem.spec_has_storage())
            &&& (gargs[j].index == ARG_DIFF_SRC ==> gargs[j].mem.spec_desc().spec_equal(
                &c.diff_src_desc,
            ) && gargs[j].mem.spec_has_storage())
        } by {
            if gargs[j].index == ARG_DIFF_DST {
                lemma_slot_count_unique(gargs, ARG_DIFF_DST, j, pb as int);
            }
            if gargs[j].index == ARG_WEIGHTS {
                lemma_slot_count_unique(gargs, ARG_WEIGHTS, j, pw as int);
            }
            if gargs[j].index == ARG_DIFF_SRC {
                lemma_slot_count_unique(gargs, ARG_DIFF_SRC, j, pd as int);
            }
        }
        assert(spec_ip_bwd_data_args_ok(c, gargs));
    }
    proof {
        lemma_ip_sizes(&c.diff_src_desc, &c.weights_desc);
        use_type_invariant(&c.diff_src_desc);
        use_type_invariant(&c.weights_desc);
        use_type_invariant(&c.diff_dst_desc);
        crate::memory::descriptor::lemma_prod_nonneg(c.diff_src_desc.spec_dims());
        crate::memory::descriptor::lemma_prod_nonneg(c.weights_desc.spec_dims());
        crate::memory::descriptor::lemma_prod_nonneg(c.diff_dst_desc.spec_dims());
        crate::memory::descriptor::count_bounded_by_size(
            c.diff_src_desc.spec_dims(),
            c.diff_src_desc.spec_data_type(),
        );
        crate::memory::descriptor::count_bounded_by_size(
            c.weights_desc.spec_dims(),
            c.weights_desc.spec_data_type(),
        );
        crate::memory::descriptor::count_bounded_by_size(
            c.diff_dst_desc.spec_dims(),
            c.diff_dst_desc.spec_data_type(),
        );
        lemma_prod2(c.diff_dst_desc.spec_dims());
        assert(spec_ip_n(c.diff_src_desc.spec_dims()) <= spec_prod(c.diff_src_desc.spec_dims()))
            by (nonlinear_arith)
            requires
                spec_prod(c.diff_src_desc.spec_dims()) == spec_ip_n(c.diff_src_desc.spec_dims())
                    * spec_ip_f(c.diff_src_desc.spec_dims()),
                spec_ip_n(c.diff_src_desc.spec_dims()) >= 1,
                spec_ip_f(c.diff_src_desc.spec_dims()) >= 1,
        ;
        assert(spec_ip_f(c.diff_src_desc.spec_dims()) <= spec_prod(c.diff_src_desc.spec_dims()))
            by (nonlinear_arith)
            requires
                spec_prod(c.diff_src_desc.spec_dims()) == spec_ip_n(c.diff_src_desc.spec_dims())
                    * spec_ip_f(c.diff_src_desc.spec_dims()),
                spec_ip_n(c.diff_src_desc.spec_dims()) >= 1,
                spec_ip_f(c.diff_src_desc.spec_dims()) >= 1,
        ;
        assert(c.weights_desc.spec_dims()[0] <= spec_prod(c.weights_desc.spec_dims()))
            by (nonlinear_arith)
            requires
                spec_prod(c.weights_desc.spec_dims()) == c.weights_desc.spec_dims()[0] * spec_ip_f(
                    c.diff_src_desc.spec_dims(),
                ),
                c.weights_desc.spec_dims()[0] >= 1,
                spec_ip_f(c.diff_src_desc.spec_dims()) >= 1,
        ;
    }
    let s = c.diff_src_desc.query_dims();
    let w = c.weights_desc.query_dims();
    let n_dim = s[0] as usize;
    let oc_dim = w[0] as usize;
    let src_count = c.diff_src_desc.elem_count();
    let f_dim = src_count / n_dim;
    proof {
        assert(src_count as int == spec_ip_f(c.diff_src_desc.spec_dims()) * n_dim as int + 0)
            by (nonlinear_arith)
            requires
                src_count as int == n_dim as int * spec_ip_f(c.diff_src_desc.spec_dims()),
        ;
        lemma_fundamental_div_mod_converse(
            src_count as int,
            n_dim as int,
            spec_ip_f(c.diff_src_desc.spec_dims()),
            0,
        );
        assert(f_dim as int == spec_ip_f(c.diff_src_desc.spec_dims()));
    }
    let wts_data = args[pw].mem.data_vec();
    let dd_data = args[pb].mem.data_vec();
    let result = match ip_bwd_data_kernel(&wts_data, &dd_data, n_dim, oc_dim, f_dim) {
        Some(v) => v,
        None => {
            proof {
                assert(!spec_ip_bwd_data_args_fits(c, gargs));
            }
            return Err(DnnlError::RuntimeError);
        },
    };
    proof {
        assert forall|w2: int, b: int|
            (0 <= w2 < gargs.len() && 0 <= b < gargs.len() && (#[trigger] gargs[w2]).index
                == ARG_WEIGHTS && (#[trigger] gargs[b]).index == ARG_DIFF_DST) implies spec_ipd_fits(
            gargs[w2].mem.spec_data(),
            gargs[b].mem.spec_data(),
            spec_ip_n(c.diff_src_desc.spec_dims()),
            c.weights_desc.spec_dims()[0] as int,
            spec_ip_f(c.diff_src_desc.spec_dims()),
        ) by {
            lemma_slot_count_unique(gargs, ARG_WEIGHTS, w2, pw as int);
            lemma_slot_count_unique(gargs, ARG_DIFF_DST, b, pb as int);
        }
    }
    let mut args = args;
    let dst_arg = args.remove(pd);
    let new_mem = dst_arg.mem.with_data(&result);
    args.insert(pd, ExecArg { index: dst_arg.index, mem: new_mem });
    proof {
        assert(args@ =~= gargs.update(pd as int, args@[pd as int]));
        assert forall|j: int, w2: int, b: int|
            (0 <= j < gargs.len() && 0 <= w2 < gargs.len() && 0 <= b < gargs.len() && (
            #[trigger] gargs[j]).index == ARG_DIFF_SRC && (#[trigger] gargs[w2]).index
                == ARG_WEIGHTS && (#[trigger] gargs[b]).index == ARG_DIFF_DST) implies (
        args@[j].mem.spec_desc() == gargs[j].mem.spec_desc() && args@[j].mem.spec_engine()
            == gargs[j].mem.spec_engine() && args@[j].mem.spec_data() == spec_ipd_out(
            gargs[w2].mem.spec_data(),
            gargs[b].mem.spec_data(),
            spec_ip_n(c.diff_src_desc.spec_dims()),
            c.weights_desc.spec_dims()[0] as int,
            spec_ip_f(c.diff_src_desc.spec_dims()),
        )) by {
            lemma_slot_count_unique(gargs, ARG_DIFF_SRC, j, pd as int);
            lemma_slot_count_unique(gargs, ARG_WEIGHTS, w2, pw as int);
            lemma_slot_count_unique(gargs, ARG_DIFF_DST, b, pb as int);
        }
        assert(spec_ip_bwd_data_post(c, gargs, args@));
    }
    Ok(args)
}

/// A well-formed argument list for a backward-weights plan: the source,
/// the destination gradient, and the weight- and bias-gradient
/// destinations, each once, each bound to storage under the plan's
/// descriptors.
pub open spec fn spec_ip_bwd_wts_args_ok(
    c: &BackwardWeightsInnerProductConfig,
    args: Seq<ExecArg>,
) -> bool {
    &&& args.len() == 4
    &&& spec_slot_count(args, ARG_SRC_0) == 1
    &&& spec_slot_count(args, ARG_DIFF_DST) == 1
    &&& spec_slot_count(args, ARG_DIFF_WEIGHTS) == 1
    &&& spec_slot_count(args, ARG_DIFF_BIAS) == 1
    &&& forall|j: int|
        0 <= j < args.len() ==> {
            &&& ((#[trigger] args[j]).index == ARG_SRC_0 ==> args[j].mem.spec_desc().spec_equal(
                &c.src_desc,
            ) && args[j].mem.spec_has_storage())
            &&& (args[j].index == ARG_DIFF_DST ==> args[j].mem.spec_desc().spec_equal(
                &c.diff_dst_desc,
            ) && args[j].mem.spec_has_storage())
            &&& (args[j].index == ARG_DIFF_WEIGHTS ==> args[j].mem.spec_desc().spec_equal(
                &c.diff_weights_desc,
            ) && args[j].mem.spec_has_storage())
            &&& (args[j].index == ARG_DIFF_BIAS ==> args[j].mem.spec_desc().spec_equal(
                &c.diff_bias_desc,
            ) && args[j].mem.spec_has_storage())
        }
}

/// True when the whole backward-weights product and the bias gradient over
/// the bound tensors fit the cell type.
pub open spec fn spec_ip_bwd_wts_args_fits(
    c: &BackwardWeightsInnerProductConfig,
    args: Seq<ExecArg>,
) -> bool {
    forall|a: int, b: int|
        (0 <= a < args.len() && 0 <= b < args.len() && (#[trigger] args[a]).index == ARG_SRC_0 && (
        #[trigger] args[b]).index == ARG_DIFF_DST) ==> spec_ipw_fits(
            args[a].mem.spec_data(),
            args[b].mem.spec_data(),
            spec_ip_n(c.src_desc.spec_dims()),
            c.diff_weights_desc.spec_dims()[0] as int,
            spec_ip_f(c.src_desc.spec_dims()),
        )
}

/// Result of executing a backward-weights plan: the weight-gradient slot
/// holds the product and the bias-gradient slot the column sums.
pub open spec fn spec_ip_bwd_wts_post(
    c: &BackwardWeightsInnerProductConfig,
    args: Seq<ExecArg>,
    out: Seq<ExecArg>,
) -> bool {
    &&& out.len() == args.len()
    &&& forall|j: int| 0 <= j < args.len() ==> (#[trigger] out[j]).index == args[j].index
    &&& forall|j: int|
        0 <= j < args.len() && (#[trigger] args[j]).index != ARG_DIFF_WEIGHTS && args[j].index
            != ARG_DIFF_BIAS ==> out[j].mem == args[j].mem
    &&& forall|j: int, a: int, b: int|
        (0 <= j < args.len() && 0 <= a < args.len() && 0 <= b < args.len() && (
        #[trigger] args[j]).index == ARG_DIFF_WEIGHTS && (#[trigger] args[a]).index == ARG_SRC_0
            && (#[trigger] args[b]).index == ARG_DIFF_DST) ==> (out[j].mem.spec_desc()
            == args[j].mem.spec_desc() && out[j].mem.spec_engine() == args[j].mem.spec_engine()
            && out[j].mem.spec_data() == spec_ipw_out(
            args[a].mem.spec_data(),
            args[b].mem.spec_data(),
            spec_ip_n(c.src_desc.spec_dims()),
            c.diff_weights_desc.spec_dims()[0] as int,
            spec_ip_f(c.src_desc.spec_dims()),
        ))
    &&& forall|j: int, b: int|
        (0 <= j < args.len() && 0 <= b < args.len() && (#[trigger] args[j]).index == ARG_DIFF_BIAS
            && (#[trigger] args[b]).index == ARG_DIFF_DST) ==> (out[j].mem.spec_desc()
            == args[j].mem.spec_desc() && out[j].mem.spec_engine() == args[j].mem.spec_engine()
            && out[j].mem.spec_data() == spec_ipb_out(
            args[b].mem.spec_data(),
            spec_ip_n(c.src_desc.spec_dims()),
            c.diff_weights_desc.spec_dims()[0] as int,
        ))
}

/// Executes a backward-weights plan over an argument list.
pub(crate) fn ip_bwd_weights_execute(
    c: &BackwardWeightsInnerProductConfig,
    args: Vec<ExecArg>,
) -> (r: Result<Vec<ExecArg>, DnnlError>)
    requires
        spec_ip_bwd_wts_valid(c),
    ensures
        r is Ok <==> (spec_ip_bwd_wts_args_ok(c, args@) && spec_ip_bwd_wts_args_fits(c, args@)),
        !spec_ip_bwd_wts_args_ok(c, args@) ==> r == Err::<Vec<ExecArg>, DnnlError>(
            DnnlError::InvalidArguments,
        ),
        spec_ip_bwd_wts_args_ok(c, args@) && !spec_ip_bwd_wts_args_fits(c, args@) ==> r == Err::<
            Vec<ExecArg>,
            DnnlError,
        >(DnnlError::RuntimeError),
        r matches Ok(out) ==> spec_ip_bwd_wts_post(c, args@, out@),
{
    let ghost gargs = args@;
    if args.len() != 4 {
        return Err(DnnlError::InvalidArguments);
    }
    let pa = match find_arg(&args, ARG_SRC_0) {
        Some(p) => p,
        None => {
            proof {
                lemma_slot_count_zero(gargs, ARG_SRC_0);
            }
            return Err(DnnlError::InvalidArguments);
        },
    };
    let pb = match find_arg(&args, ARG_DIFF_DST) {
        Some(p) => p,
        None => {
            proof {
                lemma_slot_count_zero(gargs, ARG_DIFF_DST);
            }
            return Err(DnnlError::InvalidArguments);
        },
    };
    let pw = match find_arg(&args, ARG_DIFF_WEIGHTS) {
        Some(p) => p,
        None => {
            proof {
                lemma_slot_count_zero(gargs, ARG_DIFF_WEIGHTS);
            }
            return Err(DnnlError::InvalidArguments);
        },
    };
    let pq = match find_arg(&args, ARG_DIFF_BIAS) {
        Some(p) => p,
        None => {
            proof {
                lemma_slot_count_zero(gargs, ARG_DIFF_BIAS);
            }
            return Err(DnnlError::InvalidArguments);
        },
    };
    if crate::primitive::count_arg(&args, ARG_SRC_0) != 1 || crate::primitive::count_arg(
        &args,
        ARG_DIFF_DST,
    ) != 1 || crate::primitive::count_arg(&args, ARG_DIFF_WEIGHTS) != 1
        || crate::primitive::count_arg(&args, ARG_DIFF_BIAS) != 1 {
        return Err(DnnlError::InvalidArguments);
    }
    if !(args[pa].mem.desc().equal(&c.src_desc) && args[pa].mem.has_storage()) {
        return Err(DnnlError::InvalidArguments);
    }
    if !(args[pb].mem.desc().equal(&c.diff_dst_desc) && args[pb].mem.has_storage()) {
        return Err(DnnlError::InvalidArguments);
    }
    if !(args[pw].mem.desc().equal(&c.diff_weights_desc) && args[pw].mem.has_storage()) {
        return Err(DnnlError::InvalidArguments);
    }
    if !(args[pq].mem.desc().equal(&c.diff_bias_desc) && args[pq].mem.has_storage()) {
        return Err(DnnlError::InvalidArguments);
    }
    proof {
        assert forall|j: int| 0 <= j < gargs.len() implies {
            &&& ((#[trigger] gargs[j]).index == ARG_SRC_0 ==> gargs[j].mem.spec_desc().spec_equal(
                &c.src_desc,
            ) && gargs[j].mem.spec_has_storage())
            &&& (gargs[j].index == ARG_DIFF_DST ==> gargs[j].mem.spec_desc().spec_equal(
                &c.diff_dst_desc,
            ) && gargs[j].mem.spec_has_storage())
            &&& (gargs[j].index == ARG_DIFF_WEIGHTS ==> gargs[j].mem.spec_desc().spec_equal(
                &c.diff_weights_desc,
            ) && gargs[j].mem.spec_has_storage())
            &&& (gargs[j].index == ARG_DIFF_BIAS ==> gargs[j].mem.spec_desc().spec_equal(
                &c.diff_bias_desc,
            ) && gargs[j].mem.spec_has_storage())
        } by {
            if gargs[j].index == ARG_SRC_0 {
                lemma_slot_count_unique(gargs, ARG_SRC_0, j, pa as int);
            }
            if gargs[j].index == ARG_DIFF_DST {
                lemma_slot_count_unique(gargs, ARG_DIFF_DST, j, pb as int);
            }
            if gargs[j].index == ARG_DIFF_WEIGHTS {
                lemma_slot_count_unique(gargs, ARG_DIFF_WEIGHTS, j, pw as int);
            }
            if gargs[j].index == ARG_DIFF_BIAS {
                lemma_slot_count_unique(gargs, ARG_DIFF_BIAS, j, pq as int);
            }
        }
        assert(spec_ip_bwd_wts_args_ok(c, gargs));
    }
    proof {
        lemma_ip_sizes(&c.src_desc, &c.diff_weights_desc);
        use_type_invariant(&c.src_desc);
        use_type_invariant(&c.diff_weights_desc);
        use_type_invariant(&c.diff_dst_desc);
        use_type_invariant(&c.diff_bias_desc);
        crate::memory::descriptor::lemma_prod_nonneg(c.src_desc.spec_dims());
        crate::memory::descriptor::lemma_prod_nonneg(c.diff_weights_desc.spec_dims());
        crate::memory::descriptor::lemma_prod_nonneg(c.diff_dst_desc.spec_dims());
        crate::memory::descriptor::lemma_prod_nonneg(c.diff_bias_desc.spec_dims());
        crate::memory::descriptor::count_bounded_by_size(
            c.src_desc.spec_dims(),
            c.src_desc.spec_data_type(),
        );
        crate::memory::descriptor::count_bounded_by_size(
            c.diff_weights_desc.spec_dims(),
            c.diff_weights_desc.spec_data_type(),
        );
        crate::memory::descriptor::count_bounded_by_size(
            c.diff_dst_desc.spec_dims(),
            c.diff_dst_desc.spec_data_type(),
        );
        lemma_prod2(c.diff_dst_desc.spec_dims());
        lemma_prod1(c.diff_bias_desc.spec_dims());
        assert(spec_ip_n(c.src_desc.spec_dims()) <= spec_prod(c.src_desc.spec_dims()))
            by (nonlinear_arith)
            requires
                spec_prod(c.src_desc.spec_dims()) == spec_ip_n(c.src_desc.spec_dims()) * spec_ip_f(
                    c.src_desc.spec_dims(),
                ),
                spec_ip_n(c.src_desc.spec_dims()) >= 1,
                spec_ip_f(c.src_desc.spec_dims()) >= 1,
        ;
        assert(spec_ip_f(c.src_desc.spec_dims()) <= spec_prod(c.src_desc.spec_dims()))
            by (nonlinear_arith)
            requires
                spec_prod(c.src_desc.spec_dims()) == spec_ip_n(c.src_desc.spec_dims()) * spec_ip_f(
                    c.src_desc.spec_dims(),
                ),
                spec_ip_n(c.src_desc.spec_dims()) >= 1,
                spec_ip_f(c.src_desc.spec_dims()) >= 1,
        ;
        assert(c.diff_weights_desc.spec_dims()[0] <= spec_prod(c.diff_weights_desc.spec_dims()))
            by (nonlinear_arith)
            requires
                spec_prod(c.diff_weights_desc.spec_dims()) == c.diff_weights_desc.spec_dims()[0]
                    * spec_ip_f(c.src_desc.spec_dims()),
                c.diff_weights_desc.spec_dims()[0] >= 1,
                spec_ip_f(c.src_desc.spec_dims()) >= 1,
        ;
    }
    let s = c.src_desc.query_dims();
    let w = c.diff_weights_desc.query_dims();
    let n_dim = s[0] as usize;
    let oc_dim = w[0] as usize;
    let src_count = c.src_desc.elem_count();
    let f_dim = src_count / n_dim;
    proof {
        assert(src_count as int == spec_ip_f(c.src_desc.spec_dims()) * n_dim as int + 0)
            by (nonlinear_arith)
            requires
                src_count as int == n_dim as int * spec_ip_f(c.src_desc.spec_dims()),
        ;
        lemma_fundamental_div_mod_converse(
            src_count as int,
            n_dim as int,
            spec_ip_f(c.src_desc.spec_dims()),
            0,
        );
        assert(f_dim as int == spec_ip_f(c.src_desc.spec_dims()));
    }
    let src_data = args[pa].mem.data_vec();
    let dd_data = args[pb].mem.data_vec();
    let (dw, db) = match ip_bwd_weights_kernel(&src_data, &dd_data, n_dim, oc_dim, f_dim) {
        Some(p) => p,
        None => {
            proof {
                assert(!spec_ip_bwd_wts_args_fits(c, gargs));
            }
            return Err(DnnlError::RuntimeError);
        },
    };
    proof {
        assert forall|a: int, b: int|
            (0 <= a < gargs.len() && 0 <= b < gargs.len() && (#[trigger] gargs[a]).index
                == ARG_SRC_0 && (#[trigger] gargs[b]).index == ARG_DIFF_DST) implies spec_ipw_fits(
            gargs[a].mem.spec_data(),
            gargs[b].mem.spec_data(),
            spec_ip_n(c.src_desc.spec_dims()),
            c.diff_weights_desc.spec_dims()[0] as int,
            spec_ip_f(c.src_desc.spec_dims()),
        ) by {
            lemma_slot_count_unique(gargs, ARG_SRC_0, a, pa as int);
            lemma_slot_count_unique(gargs, ARG_DIFF_DST, b, pb as int);
        }
    }
    let mut args = args;
    let dw_arg = args.remove(pw);
    let new_dw_mem = dw_arg.mem.with_data(&dw);
    args.insert(pw, ExecArg { index: dw_arg.index, mem: new_dw_mem });
    let ghost mid = args@;
    proof {
        assert(mid =~= gargs.update(pw as int, mid[pw as int]));
    }
    let db_arg = args.remove(pq);
    let new_db_mem = db_arg.mem.with_data(&db);
    args.insert(pq, ExecArg { index: db_arg.index, mem: new_db_mem });
    proof {
        assert(args@ =~= mid.update(pq as int, args@[pq as int]));
        assert forall|j: int, a: int, b: int|
            (0 <= j < gargs.len() && 0 <= a < gargs.len() && 0 <= b < gargs.len() && (
            #[trigger] gargs[j]).index == ARG_DIFF_WEIGHTS && (#[trigger] gargs[a]).index
                == ARG_SRC_0 && (#[trigger] gargs[b]).index == ARG_DIFF_DST) implies (
        args@[j].mem.spec_desc() == gargs[j].mem.spec_desc() && args@[j].mem.spec_engine()
            == gargs[j].mem.spec_engine() && args@[j].mem.spec_data() == spec_ipw_out(
            gargs[a].mem.spec_data(),
            gargs[b].mem.spec_data(),
            spec_ip_n(c.src_desc.spec_dims()),
            c.diff_weights_desc.spec_dims()[0] as int,
            spec_ip_f(c.src_desc.spec_dims()),
        )) by {
            lemma_slot_count_unique(gargs, ARG_DIFF_WEIGHTS, j, pw as int);
            lemma_slot_count_unique(gargs, ARG_SRC_0, a, pa as int);
            lemma_slot_count_unique(gargs, ARG_DIFF_DST, b, pb as int);
        }
        assert forall|j: int, b: int|
            (0 <= j < gargs.len() && 0 <= b < gargs.len() && (#[trigger] gargs[j]).index
                == ARG_DIFF_BIAS && (#[trigger] gargs[b]).index == ARG_DIFF_DST) implies (
        args@[j].mem.spec_desc() == gargs[j].mem.spec_desc() && args@[j].mem.spec_engine()
            == gargs[j].mem.spec_engine() && args@[j].mem.spec_data() == spec_ipb_out(
            gargs[b].mem.spec_data(),
            spec_ip_n(c.src_desc.spec_dims()),
            c.diff_weights_desc.spec_dims()[0] as int,
        )) by {
            lemma_slot_count_unique(gargs, ARG_DIFF_BIAS, j, pq as int);
            lemma_slot_count_unique(gargs, ARG_DIFF_DST, b, pb as int);
        }
        assert(spec_ip_bwd_wts_post(c, gargs, args@));
    }
    Ok(args)
}

} // verus!
