//! Multi-head attention and the encoder and decoder layers built on it.

use vstd::prelude::*;
use vstd::string::*;
use crate::error::BellandeError;
use crate::kernels::{dot, lemma_len_fits, strided_dot};
use crate::layer::dropout::Dropout;
use crate::layer::layer_norm::LayerNorm;
use crate::layer::linear::Linear;
use crate::layer::{LayerKind, LayerSettings};
use crate::models::sequential::Sequential;
use crate::loss::cross_entropy::exp_all;
use crate::scalar::{RandomSource, Scalar, Transcendental};
use crate::shape::{
    flat4, index4, lemma_flat4_bound, lemma_flat4_injective, lemma_flat4_leading, lemma_numel_3,
    lemma_product4_positive, product4, shape2, shape4, Cursor4, checked_product4,
};
use crate::tensor::Tensor;

verus! {

/// The extents of one application of attention: `batch` samples, `heads`
/// heads of `head_dim` features, `target_len` query positions and
/// `source_len` key positions.
pub struct AttentionDims {
    pub batch: usize,
    pub heads: usize,
    pub head_dim: usize,
    pub target_len: usize,
    pub source_len: usize,
}

impl AttentionDims {
    /// The number of projected query elements, `(batch, target, heads, head_dim)`.
    pub open spec fn query_len(self) -> int {
        self.batch * self.target_len * self.heads * self.head_dim
    }

    /// The number of projected key or value elements,
    /// `(batch, source, heads, head_dim)`.
    pub open spec fn key_len(self) -> int {
        self.batch * self.source_len * self.heads * self.head_dim
    }

    /// The number of attention weights, `(batch, heads, target, source)`.
    pub open spec fn score_len(self) -> int {
        self.batch * self.heads * self.target_len * self.source_len
    }

    pub open spec fn wf(self) -> bool {
        &&& self.query_len() <= usize::MAX
        &&& self.key_len() <= usize::MAX
        &&& self.score_len() <= usize::MAX
    }

    /// Position of feature `d` of head `h` at query position `i` of sample `b`.
    pub open spec fn query_at(self, b: int, i: int, h: int, d: int) -> int {
        flat4(b, i, h, d, self.target_len as int, self.heads as int, self.head_dim as int)
    }

    /// Position of feature `d` of head `h` at key position `j` of sample `b`.
    pub open spec fn key_at(self, b: int, j: int, h: int, d: int) -> int {
        flat4(b, j, h, d, self.source_len as int, self.heads as int, self.head_dim as int)
    }

    /// Position of the weight that query position `i` gives key position
    /// `j` in head `h` of sample `b`.
    pub open spec fn score_at(self, b: int, h: int, i: int, j: int) -> int {
        flat4(b, h, i, j, self.heads as int, self.target_len as int, self.source_len as int)
    }

    /// The divisor of the scores: the root of `head_dim`.
    pub open spec fn scale<T: Scalar>(self) -> T {
        T::count_spec(self.head_dim).root_spec()
    }
}

/// The score of key position `j` for query position `i`: the dot product of
/// their projections in head `h`, over the root of `head_dim`.
pub open spec fn score_cell<T: Scalar>(
    q: Seq<T>,
    k: Seq<T>,
    dims: AttentionDims,
    b: int,
    h: int,
    i: int,
    j: int,
) -> T {
    dot(q, dims.query_at(b, i, h, 0), 1, k, dims.key_at(b, j, h, 0), 1, dims.head_dim as nat).over_spec(
        dims.scale::<T>(),
    )
}

/// Whether key position `j` is hidden from query position `i`.
pub open spec fn hidden(mask: Option<Seq<bool>>, dims: AttentionDims, i: int, j: int) -> bool {
    match mask {
        Some(m) => m[i * dims.source_len + j],
        None => false,
    }
}

/// The largest score among the first `n` key positions that are not hidden,
/// found by scanning from the lowest value.
pub open spec fn visible_max<T: Scalar>(
    scores: Seq<T>,
    mask: Option<Seq<bool>>,
    dims: AttentionDims,
    b: int,
    h: int,
    i: int,
    n: nat,
) -> T
    decreases n,
{
    if n == 0 {
        T::lowest_spec()
    } else {
        let prev = visible_max(scores, mask, dims, b, h, i, (n - 1) as nat);
        let v = scores[dims.score_at(b, h, i, n - 1)];
        if !hidden(mask, dims, i, n - 1) && v.exceeds_spec(prev) {
            v
        } else {
            prev
        }
    }
}

/// The sum of the first `n` values of a row that are not hidden.
pub open spec fn visible_sum<T: Scalar>(
    e: Seq<T>,
    mask: Option<Seq<bool>>,
    dims: AttentionDims,
    b: int,
    h: int,
    i: int,
    n: nat,
) -> T
    decreases n,
{
    if n == 0 {
        T::zero_spec()
    } else {
        let prev = visible_sum(e, mask, dims, b, h, i, (n - 1) as nat);
        if hidden(mask, dims, i, n - 1) {
            prev
        } else {
            prev.plus_spec(e[dims.score_at(b, h, i, n - 1)])
        }
    }
}

/// The score less the largest visible score of its row.
pub open spec fn shifted_cell<T: Scalar>(
    scores: Seq<T>,
    mask: Option<Seq<bool>>,
    dims: AttentionDims,
    b: int,
    h: int,
    i: int,
    j: int,
) -> T {
    scores[dims.score_at(b, h, i, j)].minus_spec(
        visible_max(scores, mask, dims, b, h, i, dims.source_len as nat),
    )
}

/// The attention weight from the exponentials of the shifted scores: zero
/// for a hidden position, the exponential over the sum of the visible
/// exponentials of its row otherwise.
pub open spec fn weight_cell<T: Scalar>(
    e: Seq<T>,
    mask: Option<Seq<bool>>,
    dims: AttentionDims,
    b: int,
    h: int,
    i: int,
    j: int,
) -> T {
    if hidden(mask, dims, i, j) {
        T::zero_spec()
    } else {
        e[dims.score_at(b, h, i, j)].over_spec(
            visible_sum(e, mask, dims, b, h, i, dims.source_len as nat),
        )
    }
}

/// Feature `d` of head `h` of the attended values at query position `i`:
/// the values of the key positions weighted and accumulated over them.
pub open spec fn attended_cell<T: Scalar>(
    w: Seq<T>,
    v: Seq<T>,
    dims: AttentionDims,
    b: int,
    i: int,
    h: int,
    d: int,
) -> T {
    dot(
        w,
        dims.score_at(b, h, i, 0),
        1,
        v,
        dims.key_at(b, 0, h, d),
        dims.heads * dims.head_dim,
        dims.source_len as nat,
    )
}

proof fn lemma_key_step(dims: AttentionDims, b: int, j: int, h: int, d: int)
    by (nonlinear_arith)
    requires
        0 <= j,
    ensures
        dims.key_at(b, j, h, d) == dims.key_at(b, 0, h, d) + j * (dims.heads * dims.head_dim),
{
}

/// The scaled scores of all heads, `(batch, heads, target, source)`.
pub fn scaled_scores<T: Scalar>(q: &Vec<T>, k: &Vec<T>, dims: &AttentionDims) -> (r: Vec<T>)
    requires
        dims.wf(),
        q@.len() == dims.query_len(),
        k@.len() == dims.key_len(),
    ensures
        r@.len() == dims.score_len(),
        forall|b: int, h: int, i: int, j: int|
            0 <= b < dims.batch && 0 <= h < dims.heads && 0 <= i < dims.target_len && 0 <= j
                < dims.source_len ==> {
                let at = #[trigger] dims.score_at(b, h, i, j);
                &&& 0 <= at < r@.len()
                &&& r@[at] == score_cell(q@, k@, *dims, b, h, i, j)
            },
{
    let total = product4(dims.batch, dims.heads, dims.target_len, dims.source_len);
    proof {
        if total > 0 {
            lemma_product4_positive(
                dims.batch as int,
                dims.heads as int,
                dims.target_len as int,
                dims.source_len as int,
            );
        }
    }
    let scale = T::count(dims.head_dim).root();
    let mut out: Vec<T> = Vec::new();
    let mut cur = Cursor4::start();
    while out.len() < total
        invariant
            dims.wf(),
            q@.len() == dims.query_len(),
            k@.len() == dims.key_len(),
            total == dims.score_len(),
            scale == dims.scale::<T>(),
            out@.len() <= total,
            total > 0 ==> cur.inside(
                dims.heads as int,
                dims.target_len as int,
                dims.source_len as int,
            ),
            out@.len() == cur.position(
                dims.heads as int,
                dims.target_len as int,
                dims.source_len as int,
            ),
            forall|b: int, h: int, i: int, j: int|
                0 <= b && 0 <= h < dims.heads && 0 <= i < dims.target_len && 0 <= j
                    < dims.source_len && dims.score_at(b, h, i, j) < out@.len() ==> {
                    let at = #[trigger] dims.score_at(b, h, i, j);
                    out@[at] == score_cell(q@, k@, *dims, b, h, i, j)
                },
        decreases total - out@.len(),
    {
        proof {
            lemma_flat4_leading(
                cur.i as int,
                cur.j as int,
                cur.k as int,
                cur.l as int,
                dims.batch as int,
                dims.heads as int,
                dims.target_len as int,
                dims.source_len as int,
            );
        }
        let cell = if dims.head_dim == 0 {
            T::zero().over(scale)
        } else {
            proof {
                lemma_flat4_bound(
                    cur.i as int,
                    cur.k as int,
                    cur.j as int,
                    dims.head_dim - 1,
                    dims.batch as int,
                    dims.target_len as int,
                    dims.heads as int,
                    dims.head_dim as int,
                );
                lemma_flat4_bound(
                    cur.i as int,
                    cur.l as int,
                    cur.j as int,
                    dims.head_dim - 1,
                    dims.batch as int,
                    dims.source_len as int,
                    dims.heads as int,
                    dims.head_dim as int,
                );
                lemma_flat4_bound(
                    cur.i as int,
                    cur.k as int,
                    cur.j as int,
                    0,
                    dims.batch as int,
                    dims.target_len as int,
                    dims.heads as int,
                    dims.head_dim as int,
                );
                lemma_flat4_bound(
                    cur.i as int,
                    cur.l as int,
                    cur.j as int,
                    0,
                    dims.batch as int,
                    dims.source_len as int,
                    dims.heads as int,
                    dims.head_dim as int,
                );
                lemma_len_fits(q);
                lemma_len_fits(k);
            }
            let q0 = index4(cur.i, cur.k, cur.j, 0, dims.target_len, dims.heads, dims.head_dim);
            let k0 = index4(cur.i, cur.l, cur.j, 0, dims.source_len, dims.heads, dims.head_dim);
            strided_dot(q, q0, 1, k, k0, 1, dims.head_dim).over(scale)
        };
        let ghost before = out@;
        out.push(cell);
        assert forall|b: int, h: int, i: int, j: int|
            0 <= b && 0 <= h < dims.heads && 0 <= i < dims.target_len && 0 <= j < dims.source_len
                && dims.score_at(b, h, i, j) < out@.len() implies {
            let at = #[trigger] dims.score_at(b, h, i, j);
            out@[at] == score_cell(q@, k@, *dims, b, h, i, j)
        } by {
            let at = dims.score_at(b, h, i, j);
            if at < before.len() {
                assert(out@[at] == before[at]);
            } else {
                lemma_flat4_injective(
                    b,
                    h,
                    i,
                    j,
                    cur.i as int,
                    cur.j as int,
                    cur.k as int,
                    cur.l as int,
                    dims.heads as int,
                    dims.target_len as int,
                    dims.source_len as int,
                );
            }
        }
        cur.advance(dims.heads, dims.target_len, dims.source_len);
    }
    assert forall|b: int, h: int, i: int, j: int|
        0 <= b < dims.batch && 0 <= h < dims.heads && 0 <= i < dims.target_len && 0 <= j
            < dims.source_len implies 0 <= #[trigger] dims.score_at(b, h, i, j) < out@.len() by {
        lemma_flat4_bound(
            b,
            h,
            i,
            j,
            dims.batch as int,
            dims.heads as int,
            dims.target_len as int,
            dims.source_len as int,
        );
    }
    out
}

fn is_hidden(mask: Option<&Vec<bool>>, dims: &AttentionDims, i: usize, j: usize) -> (r: bool)
    requires
        i < dims.target_len,
        j < dims.source_len,
        mask matches Some(m) ==> m@.len() == dims.target_len * dims.source_len,
    ensures
        r == hidden(
            match mask {
                Some(m) => Some(m@),
                None => None,
            },
            *dims,
            i as int,
            j as int,
        ),
{
    match mask {
        Some(m) => {
            proof {
                crate::shape::lemma_flat2_bound(
                    i as int,
                    j as int,
                    dims.target_len as int,
                    dims.source_len as int,
                );
                lemma_len_fits(m);
            }
            m[crate::shape::index2(i, j, dims.source_len)]
        },
        None => false,
    }
}

pub open spec fn mask_view(mask: Option<&Vec<bool>>) -> Option<Seq<bool>> {
    match mask {
        Some(m) => Some(m@),
        None => None,
    }
}

fn row_max<T: Scalar>(
    scores: &Vec<T>,
    mask: Option<&Vec<bool>>,
    dims: &AttentionDims,
    b: usize,
    h: usize,
    i: usize,
) -> (r: T)
    requires
        dims.wf(),
        scores@.len() == dims.score_len(),
        mask matches Some(m) ==> m@.len() == dims.target_len * dims.source_len,
        b < dims.batch,
        h < dims.heads,
        i < dims.target_len,
    ensures
        r == visible_max(
            scores@,
            mask_view(mask),
            *dims,
            b as int,
            h as int,
            i as int,
            dims.source_len as nat,
        ),
{
    let mut best = T::lowest();
    let mut j: usize = 0;
    while j < dims.source_len
        invariant
            j <= dims.source_len,
            dims.wf(),
            scores@.len() == dims.score_len(),
            mask matches Some(m) ==> m@.len() == dims.target_len * dims.source_len,
            b < dims.batch,
            h < dims.heads,
            i < dims.target_len,
            best == visible_max(scores@, mask_view(mask), *dims, b as int, h as int, i as int, j as nat),
        decreases dims.source_len - j,
    {
        proof {
            lemma_flat4_bound(
                b as int,
                h as int,
                i as int,
                j as int,
                dims.batch as int,
                dims.heads as int,
                dims.target_len as int,
                dims.source_len as int,
            );
        }
        let v = scores[index4(b, h, i, j, dims.heads, dims.target_len, dims.source_len)];
        if !is_hidden(mask, dims, i, j) && v.exceeds(best) {
            best = v;
        }
        j = j + 1;
    }
    best
}

fn row_sum<T: Scalar>(
    e: &Vec<T>,
    mask: Option<&Vec<bool>>,
    dims: &AttentionDims,
    b: usize,
    h: usize,
    i: usize,
) -> (r: T)
    requires
        dims.wf(),
        e@.len() == dims.score_len(),
        mask matches Some(m) ==> m@.len() == dims.target_len * dims.source_len,
        b < dims.batch,
        h < dims.heads,
        i < dims.target_len,
    ensures
        r == visible_sum(
            e@,
            mask_view(mask),
            *dims,
            b as int,
            h as int,
            i as int,
            dims.source_len as nat,
        ),
{
    let mut sum = T::zero();
    let mut j: usize = 0;
    while j < dims.source_len
        invariant
            j <= dims.source_len,
            dims.wf(),
            e@.len() == dims.score_len(),
            mask matches Some(m) ==> m@.len() == dims.target_len * dims.source_len,
            b < dims.batch,
            h < dims.heads,
            i < dims.target_len,
            sum == visible_sum(e@, mask_view(mask), *dims, b as int, h as int, i as int, j as nat),
        decreases dims.source_len - j,
    {
        proof {
            lemma_flat4_bound(
                b as int,
                h as int,
                i as int,
                j as int,
                dims.batch as int,
                dims.heads as int,
                dims.target_len as int,
                dims.source_len as int,
            );
        }
        if !is_hidden(mask, dims, i, j) {
            sum = sum.plus(e[index4(b, h, i, j, dims.heads, dims.target_len, dims.source_len)]);
        }
        j = j + 1;
    }
    sum
}

/// Subtracts from every score the largest visible score of its row.
pub fn shift_rows<T: Scalar>(scores: &Vec<T>, mask: Option<&Vec<bool>>, dims: &AttentionDims) -> (r:
    Vec<T>)
    requires
        dims.wf(),
        scores@.len() == dims.score_len(),
        mask matches Some(m) ==> m@.len() == dims.target_len * dims.source_len,
    ensures
        r@.len() == dims.score_len(),
        forall|b: int, h: int, i: int, j: int|
            0 <= b < dims.batch && 0 <= h < dims.heads && 0 <= i < dims.target_len && 0 <= j
                < dims.source_len ==> {
                let at = #[trigger] dims.score_at(b, h, i, j);
                &&& 0 <= at < r@.len()
                &&& r@[at] == shifted_cell(scores@, mask_view(mask), *dims, b, h, i, j)
            },
{
    let total = scores.len();
    proof {
        if total > 0 {
            lemma_product4_positive(
                dims.batch as int,
                dims.heads as int,
                dims.target_len as int,
                dims.source_len as int,
            );
        }
    }
    let mut out: Vec<T> = Vec::new();
    let mut cur = Cursor4::start();
    let mut top = T::lowest();
    while out.len() < total
        invariant
            dims.wf(),
            scores@.len() == dims.score_len(),
            mask matches Some(m) ==> m@.len() == dims.target_len * dims.source_len,
            total == dims.score_len(),
            out@.len() <= total,
            total > 0 ==> cur.inside(
                dims.heads as int,
                dims.target_len as int,
                dims.source_len as int,
            ),
            out@.len() == cur.position(
                dims.heads as int,
                dims.target_len as int,
                dims.source_len as int,
            ),
            cur.l > 0 ==> top == visible_max(
                scores@,
                mask_view(mask),
                *dims,
                cur.i as int,
                cur.j as int,
                cur.k as int,
                dims.source_len as nat,
            ),
            forall|b: int, h: int, i: int, j: int|
                0 <= b && 0 <= h < dims.heads && 0 <= i < dims.target_len && 0 <= j
                    < dims.source_len && dims.score_at(b, h, i, j) < out@.len() ==> {
                    let at = #[trigger] dims.score_at(b, h, i, j);
                    out@[at] == shifted_cell(scores@, mask_view(mask), *dims, b, h, i, j)
                },
        decreases total - out@.len(),
    {
        proof {
            lemma_flat4_leading(
                cur.i as int,
                cur.j as int,
                cur.k as int,
                cur.l as int,
                dims.batch as int,
                dims.heads as int,
                dims.target_len as int,
                dims.source_len as int,
            );
        }
        if cur.l == 0 {
            top = row_max(scores, mask, dims, cur.i, cur.j, cur.k);
        }
        let at = out.len();
        let ghost before = out@;
        let ghost here = cur;
        out.push(scores[at].minus(top));
        assert forall|b: int, h: int, i: int, j: int|
            0 <= b && 0 <= h < dims.heads && 0 <= i < dims.target_len && 0 <= j < dims.source_len
                && dims.score_at(b, h, i, j) < out@.len() implies {
            let at2 = #[trigger] dims.score_at(b, h, i, j);
            out@[at2] == shifted_cell(scores@, mask_view(mask), *dims, b, h, i, j)
        } by {
            let at2 = dims.score_at(b, h, i, j);
            if at2 < before.len() {
                assert(out@[at2] == before[at2]);
            } else {
                lemma_flat4_injective(
                    b,
                    h,
                    i,
                    j,
                    cur.i as int,
                    cur.j as int,
                    cur.k as int,
                    cur.l as int,
                    dims.heads as int,
                    dims.target_len as int,
                    dims.source_len as int,
                );
            }
        }
        cur.advance(dims.heads, dims.target_len, dims.source_len);
        proof {
            if cur.l > 0 {
                lemma_same_row(
                    here,
                    cur,
                    dims.heads as int,
                    dims.target_len as int,
                    dims.source_len as int,
                );
            }
        }
    }
    assert forall|b: int, h: int, i: int, j: int|
        0 <= b < dims.batch && 0 <= h < dims.heads && 0 <= i < dims.target_len && 0 <= j
            < dims.source_len implies 0 <= #[trigger] dims.score_at(b, h, i, j) < out@.len() by {
        lemma_flat4_bound(
            b,
            h,
            i,
            j,
            dims.batch as int,
            dims.heads as int,
            dims.target_len as int,
            dims.source_len as int,
        );
    }
    out
}

/// A cursor that has advanced by one without starting a new row is in the
/// row it was in.
proof fn lemma_same_row(before: Cursor4, after: Cursor4, n: int, p: int, q: int)
    requires
        before.inside(n, p, q),
        after.inside(n, p, q),
        after.position(n, p, q) == before.position(n, p, q) + 1,
        after.l > 0,
    ensures
        after.i == before.i,
        after.j == before.j,
        after.k == before.k,
        after.l == before.l + 1,
{
    crate::shape::lemma_flat3_bound(
        before.i as int,
        before.j as int,
        before.k as int,
        before.i + 1,
        n,
        p,
    );
    crate::shape::lemma_flat3_bound(after.i as int, after.j as int, after.k as int, after.i + 1, n, p);
    crate::shape::lemma_flat2_order(
        crate::shape::flat3(before.i as int, before.j as int, before.k as int, n, p),
        before.l as int,
        crate::shape::flat3(after.i as int, after.j as int, after.k as int, n, p),
        after.l - 1,
        q,
    );
    if before.l + 1 < q {
        crate::shape::lemma_flat2_order(
            crate::shape::flat3(before.i as int, before.j as int, before.k as int, n, p),
            before.l + 1,
            crate::shape::flat3(after.i as int, after.j as int, after.k as int, n, p),
            after.l as int,
            q,
        );
    } else {
        crate::shape::lemma_flat2_carry(
            crate::shape::flat3(before.i as int, before.j as int, before.k as int, n, p),
            q,
        );
        crate::shape::lemma_flat2_order(
            crate::shape::flat3(before.i as int, before.j as int, before.k as int, n, p) + 1,
            0,
            crate::shape::flat3(after.i as int, after.j as int, after.k as int, n, p),
            after.l as int,
            q,
        );
    }
    crate::shape::lemma_flat3_injective(
        before.i as int,
        before.j as int,
        before.k as int,
        after.i as int,
        after.j as int,
        after.k as int,
        n,
        p,
    );
}

/// Turns the exponentials of the shifted scores into attention weights.
pub fn normalize_rows<T: Scalar>(e: &Vec<T>, mask: Option<&Vec<bool>>, dims: &AttentionDims) -> (r:
    Vec<T>)
    requires
        dims.wf(),
        e@.len() == dims.score_len(),
        mask matches Some(m) ==> m@.len() == dims.target_len * dims.source_len,
    ensures
        r@.len() == dims.score_len(),
        forall|b: int, h: int, i: int, j: int|
            0 <= b < dims.batch && 0 <= h < dims.heads && 0 <= i < dims.target_len && 0 <= j
                < dims.source_len ==> {
                let at = #[trigger] dims.score_at(b, h, i, j);
                &&& 0 <= at < r@.len()
                &&& r@[at] == weight_cell(e@, mask_view(mask), *dims, b, h, i, j)
            },
{
    let total = e.len();
    proof {
        if total > 0 {
            lemma_product4_positive(
                dims.batch as int,
                dims.heads as int,
                dims.target_len as int,
                dims.source_len as int,
            );
        }
    }
    let mut out: Vec<T> = Vec::new();
    let mut cur = Cursor4::start();
    let mut sum = T::zero();
    while out.len() < total
        invariant
            dims.wf(),
            e@.len() == dims.score_len(),
            mask matches Some(m) ==> m@.len() == dims.target_len * dims.source_len,
            total == dims.score_len(),
            out@.len() <= total,
            total > 0 ==> cur.inside(
                dims.heads as int,
                dims.target_len as int,
                dims.source_len as int,
            ),
            out@.len() == cur.position(
                dims.heads as int,
                dims.target_len as int,
                dims.source_len as int,
            ),
            cur.l > 0 ==> sum == visible_sum(
                e@,
                mask_view(mask),
                *dims,
                cur.i as int,
                cur.j as int,
                cur.k as int,
                dims.source_len as nat,
            ),
            forall|b: int, h: int, i: int, j: int|
                0 <= b && 0 <= h < dims.heads && 0 <= i < dims.target_len && 0 <= j
                    < dims.source_len && dims.score_at(b, h, i, j) < out@.len() ==> {
                    let at = #[trigger] dims.score_at(b, h, i, j);
                    out@[at] == weight_cell(e@, mask_view(mask), *dims, b, h, i, j)
                },
        decreases total - out@.len(),
    {
        proof {
            lemma_flat4_leading(
                cur.i as int,
                cur.j as int,
                cur.k as int,
                cur.l as int,
                dims.batch as int,
                dims.heads as int,
                dims.target_len as int,
                dims.source_len as int,
            );
        }
        if cur.l == 0 {
            sum = row_sum(e, mask, dims, cur.i, cur.j, cur.k);
        }
        let at = out.len();
        let cell = if is_hidden(mask, dims, cur.k, cur.l) {
            T::zero()
        } else {
            e[at].over(sum)
        };
        let ghost before = out@;
        let ghost here = cur;
        out.push(cell);
        assert forall|b: int, h: int, i: int, j: int|
            0 <= b && 0 <= h < dims.heads && 0 <= i < dims.target_len && 0 <= j < dims.source_len
                && dims.score_at(b, h, i, j) < out@.len() implies {
            let at2 = #[trigger] dims.score_at(b, h, i, j);
            out@[at2] == weight_cell(e@, mask_view(mask), *dims, b, h, i, j)
        } by {
            let at2 = dims.score_at(b, h, i, j);
            if at2 < before.len() {
                assert(out@[at2] == before[at2]);
            } else {
                lemma_flat4_injective(
                    b,
                    h,
                    i,
                    j,
                    cur.i as int,
                    cur.j as int,
                    cur.k as int,
                    cur.l as int,
                    dims.heads as int,
                    dims.target_len as int,
                    dims.source_len as int,
                );
            }
        }
        cur.advance(dims.heads, dims.target_len, dims.source_len);
        proof {
            if cur.l > 0 {
                lemma_same_row(
                    here,
                    cur,
                    dims.heads as int,
                    dims.target_len as int,
                    dims.source_len as int,
                );
            }
        }
    }
    assert forall|b: int, h: int, i: int, j: int|
        0 <= b < dims.batch && 0 <= h < dims.heads && 0 <= i < dims.target_len && 0 <= j
            < dims.source_len implies 0 <= #[trigger] dims.score_at(b, h, i, j) < out@.len() by {
        lemma_flat4_bound(
            b,
            h,
            i,
            j,
            dims.batch as int,
            dims.heads as int,
            dims.target_len as int,
            dims.source_len as int,
        );
    }
    out
}

/// Applies the attention weights to the projected values, giving the
/// attended values as `(batch, target, heads, head_dim)`.
pub fn attend<T: Scalar>(w: &Vec<T>, v: &Vec<T>, dims: &AttentionDims) -> (r: Vec<T>)
    requires
        dims.wf(),
        w@.len() == dims.score_len(),
        v@.len() == dims.key_len(),
        dims.heads * dims.head_dim <= usize::MAX,
    ensures
        r@.len() == dims.query_len(),
        forall|b: int, i: int, h: int, d: int|
            0 <= b < dims.batch && 0 <= i < dims.target_len && 0 <= h < dims.heads && 0 <= d
                < dims.head_dim ==> {
                let at = #[trigger] dims.query_at(b, i, h, d);
                &&& 0 <= at < r@.len()
                &&& r@[at] == attended_cell(w@, v@, *dims, b, i, h, d)
            },
{
    let total = product4(dims.batch, dims.target_len, dims.heads, dims.head_dim);
    let step = dims.heads * dims.head_dim;
    proof {
        if total > 0 {
            lemma_product4_positive(
                dims.batch as int,
                dims.target_len as int,
                dims.heads as int,
                dims.head_dim as int,
            );
        }
        lemma_len_fits(w);
        lemma_len_fits(v);
    }
    let mut out: Vec<T> = Vec::new();
    let mut cur = Cursor4::start();
    while out.len() < total
        invariant
            dims.wf(),
            w@.len() == dims.score_len(),
            v@.len() == dims.key_len(),
            w@.len() <= usize::MAX,
            v@.len() <= usize::MAX,
            total == dims.query_len(),
            step == dims.heads * dims.head_dim,
            out@.len() <= total,
            total > 0 ==> cur.inside(
                dims.target_len as int,
                dims.heads as int,
                dims.head_dim as int,
            ),
            out@.len() == cur.position(
                dims.target_len as int,
                dims.heads as int,
                dims.head_dim as int,
            ),
            forall|b: int, i: int, h: int, d: int|
                0 <= b && 0 <= i < dims.target_len && 0 <= h < dims.heads && 0 <= d < dims.head_dim
                    && dims.query_at(b, i, h, d) < out@.len() ==> {
                    let at = #[trigger] dims.query_at(b, i, h, d);
                    out@[at] == attended_cell(w@, v@, *dims, b, i, h, d)
                },
        decreases total - out@.len(),
    {
        proof {
            lemma_flat4_leading(
                cur.i as int,
                cur.j as int,
                cur.k as int,
                cur.l as int,
                dims.batch as int,
                dims.target_len as int,
                dims.heads as int,
                dims.head_dim as int,
            );
        }
        let cell = if dims.source_len == 0 {
            T::zero()
        } else {
            proof {
                lemma_flat4_bound(
                    cur.i as int,
                    cur.k as int,
                    cur.j as int,
                    dims.source_len - 1,
                    dims.batch as int,
                    dims.heads as int,
                    dims.target_len as int,
                    dims.source_len as int,
                );
                lemma_flat4_bound(
                    cur.i as int,
                    cur.k as int,
                    cur.j as int,
                    0,
                    dims.batch as int,
                    dims.heads as int,
                    dims.target_len as int,
                    dims.source_len as int,
                );
                lemma_flat4_bound(
                    cur.i as int,
                    dims.source_len - 1,
                    cur.k as int,
                    cur.l as int,
                    dims.batch as int,
                    dims.source_len as int,
                    dims.heads as int,
                    dims.head_dim as int,
                );
                lemma_flat4_bound(
                    cur.i as int,
                    0,
                    cur.k as int,
                    cur.l as int,
                    dims.batch as int,
                    dims.source_len as int,
                    dims.heads as int,
                    dims.head_dim as int,
                );
                lemma_key_step(
                    *dims,
                    cur.i as int,
                    dims.source_len - 1,
                    cur.k as int,
                    cur.l as int,
                );
            }
            let w0 = index4(cur.i, cur.k, cur.j, 0, dims.heads, dims.target_len, dims.source_len);
            let v0 = index4(cur.i, 0, cur.k, cur.l, dims.source_len, dims.heads, dims.head_dim);
            strided_dot(w, w0, 1, v, v0, step, dims.source_len)
        };
        let ghost before = out@;
        out.push(cell);
        assert forall|b: int, i: int, h: int, d: int|
            0 <= b && 0 <= i < dims.target_len && 0 <= h < dims.heads && 0 <= d < dims.head_dim
                && dims.query_at(b, i, h, d) < out@.len() implies {
            let at = #[trigger] dims.query_at(b, i, h, d);
            out@[at] == attended_cell(w@, v@, *dims, b, i, h, d)
        } by {
            let at = dims.query_at(b, i, h, d);
            if at < before.len() {
                assert(out@[at] == before[at]);
            } else {
                lemma_flat4_injective(
                    b,
                    i,
                    h,
                    d,
                    cur.i as int,
                    cur.j as int,
                    cur.k as int,
                    cur.l as int,
                    dims.target_len as int,
                    dims.heads as int,
                    dims.head_dim as int,
                );
            }
        }
        cur.advance(dims.target_len, dims.heads, dims.head_dim);
    }
    assert forall|b: int, i: int, h: int, d: int|
        0 <= b < dims.batch && 0 <= i < dims.target_len && 0 <= h < dims.heads && 0 <= d
            < dims.head_dim implies 0 <= #[trigger] dims.query_at(b, i, h, d) < out@.len() by {
        lemma_flat4_bound(
            b,
            i,
            h,
            d,
            dims.batch as int,
            dims.target_len as int,
            dims.heads as int,
            dims.head_dim as int,
        );
    }
    out
}

/// What attention keeps for `backward`: copies of its inputs and the
/// attention weights that it applied.
pub struct AttentionCache<T> {
    pub query: Tensor<T>,
    pub key: Tensor<T>,
    pub value: Tensor<T>,
    pub attention_weights: Tensor<T>,
}

/// Multi-head scaled dot-product attention.
pub struct MultiHeadAttention<T> {
    pub num_heads: usize,
    pub head_dim: usize,
    pub q_proj: Linear<T>,
    pub k_proj: Linear<T>,
    pub v_proj: Linear<T>,
    pub out_proj: Linear<T>,
    pub dropout: Dropout<T>,
    pub cache: Option<AttentionCache<T>>,
}

/// The intermediate values of one application of attention.
pub struct AttentionTrace<T> {
    /// The inputs as matrices of `embed_dim` columns.
    pub query: Tensor<T>,
    pub key: Tensor<T>,
    pub value: Tensor<T>,
    /// Their projections.
    pub q: Tensor<T>,
    pub k: Tensor<T>,
    pub v: Tensor<T>,
    /// The scaled scores, and the exponentials of the shifted scores.
    pub scores: Vec<T>,
    pub exps: Vec<T>,
    /// The attention weights before and after dropout.
    pub weights: Tensor<T>,
    pub dropped: Tensor<T>,
    /// The attended values and their projection.
    pub attended: Tensor<T>,
    pub output: Tensor<T>,
}

impl<T: Scalar> MultiHeadAttention<T> {
    pub open spec fn embed_dim(&self) -> int {
        self.num_heads * self.head_dim
    }

    pub open spec fn wf(&self) -> bool {
        &&& self.embed_dim() <= usize::MAX
        &&& self.q_proj.wf()
        &&& self.k_proj.wf()
        &&& self.v_proj.wf()
        &&& self.out_proj.wf()
        &&& self.q_proj.in_features == self.embed_dim()
        &&& self.q_proj.out_features == self.embed_dim()
        &&& self.k_proj.in_features == self.embed_dim()
        &&& self.k_proj.out_features == self.embed_dim()
        &&& self.v_proj.in_features == self.embed_dim()
        &&& self.v_proj.out_features == self.embed_dim()
        &&& self.out_proj.in_features == self.embed_dim()
        &&& self.out_proj.out_features == self.embed_dim()
        &&& self.cache matches Some(c) ==> c.query.wf() && c.key.wf() && c.value.wf()
            && c.attention_weights.wf()
    }

    /// An attention layer whose four projections are made with `rng`.
    pub fn new<R: RandomSource<T>>(embed_dim: usize, num_heads: usize, dropout: T, rng: &mut R) -> (r:
        Self)
        requires
            num_heads > 0,
            embed_dim % num_heads == 0,
            embed_dim * embed_dim <= usize::MAX,
            crate::layer::dropout::valid_probability(dropout),
        ensures
            r.wf(),
            r.num_heads == num_heads,
            r.head_dim == embed_dim / num_heads,
            r.embed_dim() == embed_dim,
            r.dropout.p == dropout,
            r.dropout.training,
            r.cache is None,
    {
        let head_dim = embed_dim / num_heads;
        proof {
            vstd::arithmetic::div_mod::lemma_fundamental_div_mod(embed_dim as int, num_heads as int);
        }
        MultiHeadAttention {
            num_heads,
            head_dim,
            q_proj: Linear::new(embed_dim, embed_dim, true, rng),
            k_proj: Linear::new(embed_dim, embed_dim, true, rng),
            v_proj: Linear::new(embed_dim, embed_dim, true, rng),
            out_proj: Linear::new(embed_dim, embed_dim, true, rng),
            dropout: Dropout::new(dropout),
            cache: None,
        }
    }

    /// The extents for inputs of the given shapes.
    pub open spec fn dims(&self, query: Seq<usize>, key: Seq<usize>) -> AttentionDims {
        AttentionDims {
            batch: query[0],
            heads: self.num_heads,
            head_dim: self.head_dim,
            target_len: query[1],
            source_len: key[1],
        }
    }

    /// Whether the projections and the attention weights of inputs of the
    /// given shapes can be addressed.
    pub open spec fn addressable(&self, query: Seq<usize>, key: Seq<usize>) -> bool {
        &&& query[0] * query[1] <= usize::MAX
        &&& key[0] * key[1] <= usize::MAX
        &&& self.dims(query, key).score_len() <= usize::MAX
    }

    /// Whether query, key and value are three-dimensional.
    pub open spec fn ranked(query: &Tensor<T>, key: &Tensor<T>, value: &Tensor<T>) -> bool {
        query.rank() == 3 && key.rank() == 3 && value.rank() == 3
    }

    /// Whether the extents of the inputs agree with the layer and with one
    /// another.
    pub open spec fn aligned(&self, query: &Tensor<T>, key: &Tensor<T>, value: &Tensor<T>) -> bool {
        &&& query.shape@[2] == self.embed_dim()
        &&& key.shape@[2] == self.embed_dim()
        &&& value.shape@ == key.shape@
        &&& key.shape@[0] == query.shape@[0]
    }

    /// Whether the inputs fit the layer: query, key and value are
    /// `(batch, length, embed_dim)` with the same batch, key and value have
    /// the same length, a mask has one entry per pair of query and key
    /// position, and the attention weights can be addressed.
    pub open spec fn accepts(
        &self,
        query: &Tensor<T>,
        key: &Tensor<T>,
        value: &Tensor<T>,
        mask: Option<Seq<bool>>,
    ) -> bool {
        &&& Self::ranked(query, key, value)
        &&& self.aligned(query, key, value)
        &&& self.addressable(query.shape@, key.shape@)
        &&& mask matches Some(m) ==> m.len() == query.shape@[1] * key.shape@[1]
    }

    /// Whether `trace` holds the intermediate values of applying the layer
    /// in state `before` to the inputs, leaving it in state `after`.
    pub open spec fn traced(
        before: Self,
        after: Self,
        query: &Tensor<T>,
        key: &Tensor<T>,
        value: &Tensor<T>,
        mask: Option<Seq<bool>>,
        trace: AttentionTrace<T>,
    ) -> bool {
        let dims = before.dims(query.shape@, key.shape@);
        let rows_q = (query.shape@[0] * query.shape@[1]) as usize;
        let rows_k = (key.shape@[0] * key.shape@[1]) as usize;
        let e = before.embed_dim() as usize;
        &&& trace.query.data@ == query.data@ && trace.query.shape@ == seq![rows_q, e]
        &&& trace.key.data@ == key.data@ && trace.key.shape@ == seq![rows_k, e]
        &&& trace.value.data@ == value.data@ && trace.value.shape@ == seq![rows_k, e]
        &&& crate::layer::linear::forward_result(
            before.q_proj,
            after.q_proj,
            &trace.query,
            Ok(trace.q),
        )
        &&& crate::layer::linear::forward_result(before.k_proj, after.k_proj, &trace.key, Ok(trace.k))
        &&& crate::layer::linear::forward_result(
            before.v_proj,
            after.v_proj,
            &trace.value,
            Ok(trace.v),
        )
        &&& trace.scores@.len() == dims.score_len()
        &&& trace.exps@.len() == dims.score_len()
        &&& trace.weights.data@.len() == dims.score_len()
        &&& forall|b: int, h: int, i: int, j: int|
            0 <= b < dims.batch && 0 <= h < dims.heads && 0 <= i < dims.target_len && 0 <= j
                < dims.source_len ==> {
                let at = #[trigger] dims.score_at(b, h, i, j);
                &&& trace.scores@[at] == score_cell(trace.q.data@, trace.k.data@, dims, b, h, i, j)
                &&& trace.weights.data@[at] == weight_cell(trace.exps@, mask, dims, b, h, i, j)
            }
        &&& crate::layer::dropout::forward_result(
            before.dropout,
            after.dropout,
            &trace.weights,
            Ok(trace.dropped),
        )
        &&& trace.attended.shape@ == seq![rows_q, e]
        &&& forall|b: int, i: int, h: int, d: int|
            0 <= b < dims.batch && 0 <= i < dims.target_len && 0 <= h < dims.heads && 0 <= d
                < dims.head_dim ==> {
                let at = #[trigger] dims.query_at(b, i, h, d);
                trace.attended.data@[at] == attended_cell(
                    trace.dropped.data@,
                    trace.v.data@,
                    dims,
                    b,
                    i,
                    h,
                    d,
                )
            }
        &&& crate::layer::linear::forward_result(
            before.out_proj,
            after.out_proj,
            &trace.attended,
            Ok(trace.output),
        )
        &&& after.cache matches Some(c) && {
            &&& c.query.data@ == query.data@ && c.query.shape@ == query.shape@
            &&& c.key.data@ == key.data@ && c.key.shape@ == key.shape@
            &&& c.value.data@ == value.data@ && c.value.shape@ == value.shape@
            &&& c.attention_weights.data@ == trace.dropped.data@
            &&& c.attention_weights.shape@ == seq![
                dims.batch,
                dims.heads,
                dims.target_len,
                dims.source_len,
            ]
        }
    }

    /// What `forward` returns and how it changes the layer.
    pub open spec fn forward_result(
        before: Self,
        after: Self,
        query: &Tensor<T>,
        key: &Tensor<T>,
        value: &Tensor<T>,
        mask: Option<Seq<bool>>,
        r: Result<Tensor<T>, BellandeError>,
    ) -> bool {
        &&& after.num_heads == before.num_heads
        &&& after.head_dim == before.head_dim
        &&& match r {
            Ok(t) => {
                &&& before.accepts(query, key, value, mask)
                &&& t.wf()
                &&& t.shape@ == query.shape@
                &&& exists|trace: AttentionTrace<T>|
                    #[trigger] Self::traced(before, after, query, key, value, mask, trace)
                        && t.data@ == trace.output.data@
            },
            Err(BellandeError::InvalidShape(_)) => (!Self::ranked(query, key, value) || (
            before.aligned(query, key, value) && !before.addressable(query.shape@, key.shape@)))
                && after == before,
            Err(BellandeError::DimensionMismatch) => Self::ranked(query, key, value) && (
            !before.aligned(query, key, value) || (before.addressable(query.shape@, key.shape@)
                && !before.accepts(query, key, value, mask))) && after == before,
            Err(_) => false,
        }
    }
}

/// The same elements as a matrix of `rows × cols`.
fn as_matrix<T: Scalar>(t: &Tensor<T>, rows: usize, cols: usize) -> (r: Tensor<T>)
    requires
        t.wf(),
        t.data@.len() == rows * cols,
    ensures
        r.wf(),
        r.data@ == t.data@,
        r.shape@ == seq![rows, cols],
        r.requires_grad == t.requires_grad,
        r.device == t.device,
        r.dtype == t.dtype,
{
    Tensor::new(
        crate::kernels::copied(&t.data),
        shape2(rows, cols),
        t.requires_grad,
        t.device,
        t.dtype,
    )
}

proof fn lemma_attention_lengths(b: int, l: int, h: int, d: int)
    by (nonlinear_arith)
    ensures
        b * l * (h * d) == b * l * h * d,
{
}

impl<T: Transcendental> MultiHeadAttention<T> {
    /// Attends from `query` to `key` and `value`.
    ///
    /// The inputs are projected, the scores of every head are scaled by
    /// the root of `head_dim`, each row of scores is turned into weights by
    /// a softmax over the positions that the mask does not hide, dropout is
    /// applied to the weights, the values are weighted, and the heads are
    /// merged and projected. A hidden position has weight exactly zero. The
    /// inputs and the applied weights are cached.
    ///
    /// The exponentials are only approximations, so the result is fixed up
    /// to them.
    pub fn forward<R: RandomSource<T>>(
        &mut self,
        query: &Tensor<T>,
        key: &Tensor<T>,
        value: &Tensor<T>,
        mask: Option<&Vec<bool>>,
        rng: &mut R,
    ) -> (r: Result<Tensor<T>, BellandeError>)
        requires
            old(self).wf(),
            query.wf(),
            key.wf(),
            value.wf(),
        ensures
            final(self).wf(),
            Self::forward_result(*old(self), *final(self), query, key, value, mask_view(mask), r),
    {
        if query.shape.len() != 3 || key.shape.len() != 3 || value.shape.len() != 3 {
            return Err(BellandeError::InvalidShape(String::from_str("expected 3D inputs")));
        }
        let embed = self.num_heads * self.head_dim;
        let batch = query.shape[0];
        let target_len = query.shape[1];
        let source_len = key.shape[1];
        if query.shape[2] != embed || key.shape[2] != embed || !crate::shape::same_shape(
            &value.shape,
            &key.shape,
        ) || key.shape[0] != batch {
            return Err(BellandeError::DimensionMismatch);
        }
        let rows_q = match batch.checked_mul(target_len) {
            Some(v) => v,
            None => {
                return Err(BellandeError::InvalidShape(String::from_str("inputs too large")));
            },
        };
        let rows_k = match batch.checked_mul(source_len) {
            Some(v) => v,
            None => {
                return Err(BellandeError::InvalidShape(String::from_str("inputs too large")));
            },
        };
        if checked_product4(batch, self.num_heads, target_len, source_len).is_none() {
            return Err(BellandeError::InvalidShape(String::from_str("inputs too large")));
        }
        match mask {
            Some(m) => {
                proof {
                    lemma_len_fits(m);
                }
                if target_len.checked_mul(source_len) != Some(m.len()) {
                    return Err(BellandeError::DimensionMismatch);
                }
            },
            None => {},
        }
        let dims = AttentionDims {
            batch,
            heads: self.num_heads,
            head_dim: self.head_dim,
            target_len,
            source_len,
        };
        proof {
            lemma_numel_3(query.shape@);
            lemma_numel_3(key.shape@);
            lemma_numel_3(value.shape@);
            lemma_len_fits(&query.data);
            lemma_len_fits(&key.data);
            lemma_attention_lengths(
                batch as int,
                target_len as int,
                self.num_heads as int,
                self.head_dim as int,
            );
            lemma_attention_lengths(
                batch as int,
                source_len as int,
                self.num_heads as int,
                self.head_dim as int,
            );
        }
        let query2 = as_matrix(query, rows_q, embed);
        let key2 = as_matrix(key, rows_k, embed);
        let value2 = as_matrix(value, rows_k, embed);
        let ghost start = *self;
        let q = match self.q_proj.forward(&query2) {
            Ok(t) => t,
            Err(e) => {
                return Err(e);
            },
        };
        let k = match self.k_proj.forward(&key2) {
            Ok(t) => t,
            Err(e) => {
                return Err(e);
            },
        };
        let v = match self.v_proj.forward(&value2) {
            Ok(t) => t,
            Err(e) => {
                return Err(e);
            },
        };
        let scores = scaled_scores(&q.data, &k.data, &dims);
        let shifted = shift_rows(&scores, mask, &dims);
        let exps = exp_all(&shifted);
        let weights = Tensor::new(
            normalize_rows(&exps, mask, &dims),
            shape4(batch, self.num_heads, target_len, source_len),
            false,
            query.device,
            query.dtype,
        );
        let dropped = match self.dropout.forward(&weights, rng) {
            Ok(t) => t,
            Err(e) => {
                return Err(e);
            },
        };
        let attended = Tensor::new(
            attend(&dropped.data, &v.data, &dims),
            shape2(rows_q, embed),
            true,
            query.device,
            query.dtype,
        );
        let output = match self.out_proj.forward(&attended) {
            Ok(t) => t,
            Err(e) => {
                return Err(e);
            },
        };
        let result = Tensor::new(
            crate::kernels::copied(&output.data),
            crate::shape::copy_shape(&query.shape),
            true,
            query.device,
            query.dtype,
        );
        self.cache = Some(
            AttentionCache {
                query: query.duplicate(),
                key: key.duplicate(),
                value: value.duplicate(),
                attention_weights: Tensor::new(
                    crate::kernels::copied(&dropped.data),
                    shape4(batch, self.num_heads, target_len, source_len),
                    false,
                    query.device,
                    query.dtype,
                ),
            },
        );
        proof {
            let trace = AttentionTrace {
                query: query2,
                key: key2,
                value: value2,
                q,
                k,
                v,
                scores,
                exps,
                weights,
                dropped,
                attended,
                output,
            };
            assert(Self::traced(*old(self), *self, query, key, value, mask_view(mask), trace));
        }
        Ok(result)
    }
}

/// The intermediate values of an attention block: the normalized input,
/// what attention made of it, and that after dropout.
pub struct AttentionBlockTrace<T> {
    pub normed: Tensor<T>,
    pub attended: Tensor<T>,
    pub dropped: Tensor<T>,
}

/// The parts of a block that change when the block is applied.
pub struct AttentionBlockState<T> {
    pub attention: MultiHeadAttention<T>,
    pub dropout: Dropout<T>,
}

/// What is attended to: the memory where there is one, the normalized
/// input itself otherwise.
pub open spec fn attended_to<T: Scalar>(memory: Option<Tensor<T>>, normed: Tensor<T>) -> Tensor<T> {
    match memory {
        Some(m) => m,
        None => normed,
    }
}

/// The outcome of stage `k` of an attention block for the values of
/// `trace`. The stages are, in order: the normalization of the input, the
/// attention from the normalized input, dropout, and the sum with the
/// input.
pub open spec fn attention_stage<T: Scalar>(
    norm: LayerNorm<T>,
    before: AttentionBlockState<T>,
    after: AttentionBlockState<T>,
    x: &Tensor<T>,
    memory: Option<Tensor<T>>,
    mask: Option<Seq<bool>>,
    trace: AttentionBlockTrace<T>,
    k: nat,
    r: Result<Tensor<T>, BellandeError>,
) -> bool {
    if k == 0 {
        crate::layer::layer_norm::forward_result(norm, x, r)
    } else if k == 1 {
        MultiHeadAttention::forward_result(
            before.attention,
            after.attention,
            &trace.normed,
            &attended_to(memory, trace.normed),
            &attended_to(memory, trace.normed),
            mask,
            r,
        )
    } else if k == 2 {
        crate::layer::dropout::forward_result(before.dropout, after.dropout, &trace.attended, r)
    } else {
        sum_result(&trace.dropped, x, r)
    }
}

/// What the sum of two tensors returns.
pub open spec fn sum_result<T: Scalar>(
    a: &Tensor<T>,
    b: &Tensor<T>,
    r: Result<Tensor<T>, BellandeError>,
) -> bool {
    match r {
        Ok(t) => a.shape@ == b.shape@ && t.wf() && t.shape@ == a.shape@ && t.data@
            == crate::kernels::plus_seq(a.data@, b.data@),
        Err(e) => a.shape@ != b.shape@ && e == BellandeError::DimensionMismatch,
    }
}

pub open spec fn attention_value<T: Scalar>(trace: AttentionBlockTrace<T>, k: nat) -> Tensor<T> {
    if k == 0 {
        trace.normed
    } else if k == 1 {
        trace.attended
    } else {
        trace.dropped
    }
}

/// The first `n` stages have succeeded with the values of `trace`.
pub open spec fn attention_staged<T: Scalar>(
    norm: LayerNorm<T>,
    before: AttentionBlockState<T>,
    after: AttentionBlockState<T>,
    x: &Tensor<T>,
    memory: Option<Tensor<T>>,
    mask: Option<Seq<bool>>,
    trace: AttentionBlockTrace<T>,
    n: nat,
) -> bool {
    forall|k: nat|
        k < n && k < 3 ==> #[trigger] attention_stage(
            norm,
            before,
            after,
            x,
            memory,
            mask,
            trace,
            k,
            Ok(attention_value(trace, k)),
        )
}

/// What an attention block returns for `x` and how it changes its parts:
/// all stages succeed and the result is the sum, or the stages before the
/// first that fails succeed and the error is that of the failing stage.
pub open spec fn attention_block_result<T: Scalar>(
    norm: LayerNorm<T>,
    before: AttentionBlockState<T>,
    after: AttentionBlockState<T>,
    x: &Tensor<T>,
    memory: Option<Tensor<T>>,
    mask: Option<Seq<bool>>,
    r: Result<Tensor<T>, BellandeError>,
) -> bool {
    &&& after.attention.wf()
    &&& match r {
        Ok(t) => exists|trace: AttentionBlockTrace<T>|
            #[trigger] attention_staged(norm, before, after, x, memory, mask, trace, 3)
                && attention_stage(norm, before, after, x, memory, mask, trace, 3, Ok(t)),
        Err(e) => exists|trace: AttentionBlockTrace<T>, k: nat|
            k <= 3 && #[trigger] attention_staged(norm, before, after, x, memory, mask, trace, k)
                && attention_stage(norm, before, after, x, memory, mask, trace, k, Err(e)),
    }
}

/// The intermediate values of a feed-forward block: the normalized input,
/// its rows as a matrix, what the network made of them, that under the
/// shape of the input, and that after dropout.
pub struct FeedForwardTrace<T> {
    pub normed: Tensor<T>,
    pub rows: Tensor<T>,
    pub fed: Tensor<T>,
    pub shaped: Tensor<T>,
    pub dropped: Tensor<T>,
}

/// The parts of a feed-forward block that change when the block is applied.
pub struct FeedForwardState<T> {
    pub network: Sequential<T>,
    pub dropout: Dropout<T>,
}

/// The outcome of stage `k` of a feed-forward block for the values of
/// `trace`. The stages are, in order: the normalization of the input, the
/// reshaping of its rows into a matrix, the network, the reshaping back,
/// dropout, and the sum with the input.
pub open spec fn feed_forward_stage<T: Scalar>(
    norm: LayerNorm<T>,
    before: FeedForwardState<T>,
    after: FeedForwardState<T>,
    x: &Tensor<T>,
    trace: FeedForwardTrace<T>,
    k: nat,
    r: Result<Tensor<T>, BellandeError>,
) -> bool {
    if k == 0 {
        crate::layer::layer_norm::forward_result(norm, x, r)
    } else if k == 1 {
        match r {
            Ok(t) => t.wf() && t.data@ == trace.normed.data@ && t.shape@ == seq![
                crate::shape::numel(trace.normed.shape@.drop_last()) as usize,
                trace.normed.shape@.last(),
            ] && crate::shape::numel(trace.normed.shape@.drop_last()) <= usize::MAX,
            Err(e) => (e matches BellandeError::InvalidShape(_)) && crate::shape::numel(
                trace.normed.shape@.drop_last(),
            ) > usize::MAX,
        }
    } else if k == 2 {
        crate::models::sequential::forward_result(before.network, after.network, &trace.rows, r)
    } else if k == 3 {
        match r {
            Ok(t) => t.wf() && t.data@ == trace.fed.data@ && t.shape@ == x.shape@,
            Err(e) => (e matches BellandeError::InvalidShape(_)) && trace.fed.data@.len()
                != x.data@.len(),
        }
    } else if k == 4 {
        crate::layer::dropout::forward_result(before.dropout, after.dropout, &trace.shaped, r)
    } else {
        sum_result(&trace.dropped, x, r)
    }
}

pub open spec fn feed_forward_value<T: Scalar>(trace: FeedForwardTrace<T>, k: nat) -> Tensor<T> {
    if k == 0 {
        trace.normed
    } else if k == 1 {
        trace.rows
    } else if k == 2 {
        trace.fed
    } else if k == 3 {
        trace.shaped
    } else {
        trace.dropped
    }
}

/// The first `n` stages have succeeded with the values of `trace`.
pub open spec fn feed_forward_staged<T: Scalar>(
    norm: LayerNorm<T>,
    before: FeedForwardState<T>,
    after: FeedForwardState<T>,
    x: &Tensor<T>,
    trace: FeedForwardTrace<T>,
    n: nat,
) -> bool {
    forall|k: nat|
        k < n && k < 5 ==> #[trigger] feed_forward_stage(
            norm,
            before,
            after,
            x,
            trace,
            k,
            Ok(feed_forward_value(trace, k)),
        )
}

/// What a feed-forward block returns for `x` and how it changes its parts.
pub open spec fn feed_forward_block_result<T: Scalar>(
    norm: LayerNorm<T>,
    before: FeedForwardState<T>,
    after: FeedForwardState<T>,
    x: &Tensor<T>,
    r: Result<Tensor<T>, BellandeError>,
) -> bool {
    &&& after.network.wf()
    &&& match r {
        Ok(t) => exists|trace: FeedForwardTrace<T>|
            #[trigger] feed_forward_staged(norm, before, after, x, trace, 5) && feed_forward_stage(
                norm,
                before,
                after,
                x,
                trace,
                5,
                Ok(t),
            ),
        Err(e) => exists|trace: FeedForwardTrace<T>, k: nat|
            k <= 5 && #[trigger] feed_forward_staged(norm, before, after, x, trace, k)
                && feed_forward_stage(norm, before, after, x, trace, k, Err(e)),
    }
}

/// The rows of a tensor as a matrix of as many columns as its last extent.
fn as_rows<T: Scalar>(t: &Tensor<T>) -> (r: Result<Tensor<T>, BellandeError>)
    requires
        t.wf(),
        t.rank() >= 1,
    ensures
        match r {
            Ok(m) => m.wf() && m.data@ == t.data@ && m.shape@ == seq![
                crate::shape::numel(t.shape@.drop_last()) as usize,
                t.shape@.last(),
            ] && crate::shape::numel(t.shape@.drop_last()) <= usize::MAX,
            Err(e) => (e matches BellandeError::InvalidShape(_)) && crate::shape::numel(
                t.shape@.drop_last(),
            ) > usize::MAX,
        },
{
    let rank = t.shape.len();
    let mut lead: Vec<usize> = Vec::new();
    let mut i: usize = 0;
    while i < rank - 1
        invariant
            i <= rank - 1,
            rank == t.shape@.len(),
            rank >= 1,
            lead@ == t.shape@.subrange(0, i as int),
        decreases rank - 1 - i,
    {
        lead.push(t.shape[i]);
        assert(lead@ =~= t.shape@.subrange(0, i + 1));
        i = i + 1;
    }
    assert(lead@ =~= t.shape@.drop_last());
    let rows = match crate::shape::checked_numel(&lead) {
        Some(v) => v,
        None => {
            return Err(BellandeError::InvalidShape(String::from_str("too many rows")));
        },
    };
    let dims = shape2(rows, t.shape[rank - 1]);
    Ok(Tensor::new(crate::kernels::copied(&t.data), dims, t.requires_grad, t.device, t.dtype))
}

/// Applies a feed-forward block: `x + dropout(network(norm(x)))`, the
/// network seeing the rows of the normalized input as a matrix.
pub fn feed_forward_block<T: Scalar, R: RandomSource<T>>(
    norm: &LayerNorm<T>,
    network: &mut Sequential<T>,
    dropout: &mut Dropout<T>,
    x: &Tensor<T>,
    rng: &mut R,
) -> (r: Result<Tensor<T>, BellandeError>)
    requires
        norm.wf(),
        old(network).wf(),
        x.wf(),
    ensures
        feed_forward_block_result(
            *norm,
            (FeedForwardState { network: *old(network), dropout: *old(dropout) }),
            (FeedForwardState { network: *final(network), dropout: *final(dropout) }),
            x,
            r,
        ),
{
    let ghost start = FeedForwardState { network: *old(network), dropout: *old(dropout) };
    let ghost mut trace = FeedForwardTrace { normed: *x, rows: *x, fed: *x, shaped: *x, dropped: *x };
    let normed = match norm.forward(x) {
        Ok(t) => t,
        Err(e) => {
            assert(feed_forward_staged(
                *norm,
                start,
                (FeedForwardState { network: *network, dropout: *dropout }),
                x,
                trace, 0));
            return Err(e);
        },
    };
    proof {
        trace.normed = normed;
    }
    let rows = match as_rows(&normed) {
        Ok(t) => t,
        Err(e) => {
            assert(feed_forward_staged(
                *norm,
                start,
                (FeedForwardState { network: *network, dropout: *dropout }),
                x,
                trace, 1));
            return Err(e);
        },
    };
    proof {
        trace.rows = rows;
    }
    let fed = match network.forward(&rows, rng) {
        Ok(t) => t,
        Err(e) => {
            assert(feed_forward_staged(
                *norm,
                start,
                (FeedForwardState { network: *network, dropout: *dropout }),
                x,
                trace, 2));
            return Err(e);
        },
    };
    proof {
        trace.fed = fed;
    }
    if fed.data.len() != x.data.len() {
        assert(feed_forward_staged(
                *norm,
                start,
                (FeedForwardState { network: *network, dropout: *dropout }),
                x,
                trace, 3));
        return Err(BellandeError::InvalidShape(String::from_str("network changed the width")));
    }
    let shaped = Tensor::new(
        crate::kernels::copied(&fed.data),
        crate::shape::copy_shape(&x.shape),
        fed.requires_grad,
        fed.device,
        fed.dtype,
    );
    proof {
        trace.shaped = shaped;
    }
    let dropped = match dropout.forward(&shaped, rng) {
        Ok(t) => t,
        Err(e) => {
            assert(feed_forward_staged(
                *norm,
                start,
                (FeedForwardState { network: *network, dropout: *dropout }),
                x,
                trace, 4));
            return Err(e);
        },
    };
    proof {
        trace.dropped = dropped;
    }
    let outcome = dropped.add(x);
    assert(feed_forward_staged(
                *norm,
                start,
                (FeedForwardState { network: *network, dropout: *dropout }),
                x,
                trace, 5));
    outcome
}

/// Applies an attention block: `x + dropout(attention(norm(x)))`, attending
/// to the memory where there is one and to the normalized input itself
/// otherwise.
pub fn attention_block<T: Transcendental, R: RandomSource<T>>(
    norm: &LayerNorm<T>,
    attention: &mut MultiHeadAttention<T>,
    dropout: &mut Dropout<T>,
    x: &Tensor<T>,
    memory: Option<&Tensor<T>>,
    mask: Option<&Vec<bool>>,
    rng: &mut R,
) -> (r: Result<Tensor<T>, BellandeError>)
    requires
        norm.wf(),
        old(attention).wf(),
        x.wf(),
        memory matches Some(m) ==> m.wf(),
    ensures
        attention_block_result(
            *norm,
            (AttentionBlockState { attention: *old(attention), dropout: *old(dropout) }),
            (AttentionBlockState { attention: *final(attention), dropout: *final(dropout) }),
            x,
            match memory {
                Some(m) => Some(*m),
                None => None,
            },
            mask_view(mask),
            r,
        ),
{
    let ghost seen = match memory {
        Some(m) => Some(*m),
        None => None,
    };
    let ghost start = AttentionBlockState { attention: *old(attention), dropout: *old(dropout) };
    let ghost mut trace = AttentionBlockTrace { normed: *x, attended: *x, dropped: *x };
    let normed = match norm.forward(x) {
        Ok(t) => t,
        Err(e) => {
            assert(attention_staged(
                *norm,
                start,
                (AttentionBlockState { attention: *attention, dropout: *dropout }),
                x,
                seen,
                mask_view(mask),
                trace, 0));
            return Err(e);
        },
    };
    proof {
        trace.normed = normed;
    }
    let outcome = match memory {
        Some(m) => attention.forward(&normed, m, m, mask, rng),
        None => attention.forward(&normed, &normed, &normed, mask, rng),
    };
    let attended = match outcome {
        Ok(t) => t,
        Err(e) => {
            assert(attention_staged(
                *norm,
                start,
                (AttentionBlockState { attention: *attention, dropout: *dropout }),
                x,
                seen,
                mask_view(mask),
                trace, 1));
            return Err(e);
        },
    };
    proof {
        trace.attended = attended;
    }
    let dropped = match dropout.forward(&attended, rng) {
        Ok(t) => t,
        Err(e) => {
            assert(attention_staged(
                *norm,
                start,
                (AttentionBlockState { attention: *attention, dropout: *dropout }),
                x,
                seen,
                mask_view(mask),
                trace, 2));
            return Err(e);
        },
    };
    proof {
        trace.dropped = dropped;
    }
    let sum = dropped.add(x);
    assert(attention_staged(
                *norm,
                start,
                (AttentionBlockState { attention: *attention, dropout: *dropout }),
                x,
                seen,
                mask_view(mask),
                trace, 3));
    sum
}

/// One layer of a transformer encoder: a self-attention block followed by
/// a feed-forward block, each normalized first and added to its input.
pub struct TransformerEncoderLayer<T> {
    pub self_attn: MultiHeadAttention<T>,
    pub ff_network: Sequential<T>,
    pub norm1: LayerNorm<T>,
    pub norm2: LayerNorm<T>,
    pub dropout: Dropout<T>,
}

/// One layer of a transformer decoder: a self-attention block, a block that
/// attends to the memory of the encoder, and a feed-forward block.
pub struct TransformerDecoderLayer<T> {
    pub self_attn: MultiHeadAttention<T>,
    pub cross_attn: MultiHeadAttention<T>,
    pub ff_network: Sequential<T>,
    pub norm1: LayerNorm<T>,
    pub norm2: LayerNorm<T>,
    pub norm3: LayerNorm<T>,
    pub dropout: Dropout<T>,
}

/// The feed-forward network of a transformer layer: a rectified linear
/// layer from `embed_dim` to `ff_dim` and a linear layer back.
pub open spec fn feed_forward_plan(embed_dim: usize, ff_dim: usize) -> Seq<LayerKind> {
    seq![
        LayerKind::Linear { in_features: embed_dim, out_features: ff_dim, bias: true },
        LayerKind::ReLU,
        LayerKind::Linear { in_features: ff_dim, out_features: embed_dim, bias: true },
    ]
}

fn feed_forward_network<T: Scalar, R: RandomSource<T>>(embed_dim: usize, ff_dim: usize, rng: &mut R) -> (r:
    Sequential<T>)
    requires
        ff_dim * embed_dim <= usize::MAX,
    ensures
        r.wf(),
        r.training,
        crate::models::sequential::kinds_of(r.layers@) == feed_forward_plan(embed_dim, ff_dim),
{
    let mut plan: Vec<LayerKind> = Vec::new();
    plan.push(LayerKind::Linear { in_features: embed_dim, out_features: ff_dim, bias: true });
    plan.push(LayerKind::ReLU);
    plan.push(LayerKind::Linear { in_features: ff_dim, out_features: embed_dim, bias: true });
    assert(plan@ =~= feed_forward_plan(embed_dim, ff_dim));
    proof {
        assert(embed_dim * ff_dim == ff_dim * embed_dim) by (nonlinear_arith);
        assert forall|i: int| 0 <= i < plan@.len() implies (#[trigger] plan@[i]).buildable() by {}
    }
    let settings = LayerSettings { dropout: T::zero(), eps: T::zero(), momentum: T::zero() };
    Sequential::from_plan(&plan, &settings, rng)
}

/// What the encoder layer returns for `src` and how it changes: the
/// attention block is applied to the input and the feed-forward block to
/// its result; the first block that fails ends the pass with its error.
pub open spec fn encoder_result<T: Scalar>(
    before: TransformerEncoderLayer<T>,
    after: TransformerEncoderLayer<T>,
    src: &Tensor<T>,
    mask: Option<Seq<bool>>,
    r: Result<Tensor<T>, BellandeError>,
) -> bool {
    &&& after.wf()
    &&& after.norm1 == before.norm1
    &&& after.norm2 == before.norm2
    &&& exists|between: Dropout<T>, mid: Result<Tensor<T>, BellandeError>|
        {
            &&& #[trigger] attention_block_result(
                before.norm1,
                (AttentionBlockState { attention: before.self_attn, dropout: before.dropout }),
                (AttentionBlockState { attention: after.self_attn, dropout: between }),
                src,
                None,
                mask,
                mid,
            )
            &&& match mid {
                Ok(m) => feed_forward_block_result(
                    before.norm2,
                    (FeedForwardState { network: before.ff_network, dropout: between }),
                    (FeedForwardState { network: after.ff_network, dropout: after.dropout }),
                    &m,
                    r,
                ),
                Err(e) => r == Err::<Tensor<T>, BellandeError>(e) && after.ff_network
                    == before.ff_network && after.dropout == between,
            }
        }
}

impl<T: Scalar> TransformerEncoderLayer<T> {
    pub open spec fn wf(&self) -> bool {
        &&& self.self_attn.wf()
        &&& self.ff_network.wf()
        &&& self.norm1.wf()
        &&& self.norm2.wf()
    }

    /// A layer of `num_heads` heads over `embed_dim` features with a
    /// feed-forward network of `ff_dim` hidden features; the
    /// normalizations use `eps`.
    pub fn new<R: RandomSource<T>>(
        embed_dim: usize,
        num_heads: usize,
        ff_dim: usize,
        dropout: T,
        eps: T,
        rng: &mut R,
    ) -> (r: Self)
        requires
            num_heads > 0,
            embed_dim % num_heads == 0,
            embed_dim * embed_dim <= usize::MAX,
            ff_dim * embed_dim <= usize::MAX,
            crate::layer::dropout::valid_probability(dropout),
        ensures
            r.wf(),
            r.self_attn.num_heads == num_heads,
            r.self_attn.embed_dim() == embed_dim,
            crate::models::sequential::kinds_of(r.ff_network.layers@) == feed_forward_plan(
                embed_dim,
                ff_dim,
            ),
            r.norm1.normalized_shape == embed_dim && r.norm1.eps == eps,
            r.norm2.normalized_shape == embed_dim && r.norm2.eps == eps,
            r.dropout.p == dropout && r.dropout.training && r.dropout.mask is None,
    {
        TransformerEncoderLayer {
            self_attn: MultiHeadAttention::new(embed_dim, num_heads, dropout, rng),
            ff_network: feed_forward_network(embed_dim, ff_dim, rng),
            norm1: LayerNorm::new(embed_dim, eps),
            norm2: LayerNorm::new(embed_dim, eps),
            dropout: Dropout::new(dropout),
        }
    }
}

impl<T: Transcendental> TransformerEncoderLayer<T> {
    /// Encodes `src`: `x = src + dropout(attention(norm1(src)))`, then
    /// `x + dropout(network(norm2(x)))`.
    pub fn forward<R: RandomSource<T>>(
        &mut self,
        src: &Tensor<T>,
        src_mask: Option<&Vec<bool>>,
        rng: &mut R,
    ) -> (r: Result<Tensor<T>, BellandeError>)
        requires
            old(self).wf(),
            src.wf(),
        ensures
            encoder_result(*old(self), *final(self), src, mask_view(src_mask), r),
    {
        let first = attention_block(
            &self.norm1,
            &mut self.self_attn,
            &mut self.dropout,
            src,
            None,
            src_mask,
            rng,
        );
        match first {
            Ok(m) => feed_forward_block(
                &self.norm2,
                &mut self.ff_network,
                &mut self.dropout,
                &m,
                rng,
            ),
            Err(e) => Err(e),
        }
    }
}

/// What the decoder layer returns for `tgt` and `memory` and how it
/// changes: the self-attention block is applied to the input, the block
/// that attends to the memory to its result, and the feed-forward block to
/// the result of that; the first block that fails ends the pass with its
/// error.
pub open spec fn decoder_result<T: Scalar>(
    before: TransformerDecoderLayer<T>,
    after: TransformerDecoderLayer<T>,
    tgt: &Tensor<T>,
    memory: &Tensor<T>,
    tgt_mask: Option<Seq<bool>>,
    memory_mask: Option<Seq<bool>>,
    r: Result<Tensor<T>, BellandeError>,
) -> bool {
    &&& after.wf()
    &&& after.norm1 == before.norm1
    &&& after.norm2 == before.norm2
    &&& after.norm3 == before.norm3
    &&& exists|
        first: Dropout<T>,
        second: Dropout<T>,
        a: Result<Tensor<T>, BellandeError>,
        b: Result<Tensor<T>, BellandeError>,
    |
        {
            &&& #[trigger] decoder_steps(before, after, tgt, memory, tgt_mask, memory_mask, first, second, a, b)
            &&& match b {
                Ok(m) => feed_forward_block_result(
                    before.norm3,
                    (FeedForwardState { network: before.ff_network, dropout: second }),
                    (FeedForwardState { network: after.ff_network, dropout: after.dropout }),
                    &m,
                    r,
                ),
                Err(e) => r == Err::<Tensor<T>, BellandeError>(e) && after.ff_network
                    == before.ff_network && after.dropout == second,
            }
        }
}

/// The two attention blocks of a decoder layer: `a` is the outcome of the
/// self-attention block, which leaves the dropout in state `first`, and `b`
/// that of the block that attends to the memory, which leaves it in state
/// `second`; a block after a failed one does not run.
pub open spec fn decoder_steps<T: Scalar>(
    before: TransformerDecoderLayer<T>,
    after: TransformerDecoderLayer<T>,
    tgt: &Tensor<T>,
    memory: &Tensor<T>,
    tgt_mask: Option<Seq<bool>>,
    memory_mask: Option<Seq<bool>>,
    first: Dropout<T>,
    second: Dropout<T>,
    a: Result<Tensor<T>, BellandeError>,
    b: Result<Tensor<T>, BellandeError>,
) -> bool {
    &&& attention_block_result(
        before.norm1,
        (AttentionBlockState { attention: before.self_attn, dropout: before.dropout }),
        (AttentionBlockState { attention: after.self_attn, dropout: first }),
        tgt,
        None,
        tgt_mask,
        a,
    )
    &&& match a {
        Ok(m) => attention_block_result(
            before.norm2,
            (AttentionBlockState { attention: before.cross_attn, dropout: first }),
            (AttentionBlockState { attention: after.cross_attn, dropout: second }),
            &m,
            Some(*memory),
            memory_mask,
            b,
        ),
        Err(e) => b == Err::<Tensor<T>, BellandeError>(e) && after.cross_attn == before.cross_attn
            && second == first,
    }
}

impl<T: Scalar> TransformerDecoderLayer<T> {
    pub open spec fn wf(&self) -> bool {
        &&& self.self_attn.wf()
        &&& self.cross_attn.wf()
        &&& self.ff_network.wf()
        &&& self.norm1.wf()
        &&& self.norm2.wf()
        &&& self.norm3.wf()
    }

    /// A layer of `num_heads` heads over `embed_dim` features with a
    /// feed-forward network of `ff_dim` hidden features; the
    /// normalizations use `eps`.
    pub fn new<R: RandomSource<T>>(
        embed_dim: usize,
        num_heads: usize,
        ff_dim: usize,
        dropout: T,
        eps: T,
        rng: &mut R,
    ) -> (r: Self)
        requires
            num_heads > 0,
            embed_dim % num_heads == 0,
            embed_dim * embed_dim <= usize::MAX,
            ff_dim * embed_dim <= usize::MAX,
            crate::layer::dropout::valid_probability(dropout),
        ensures
            r.wf(),
            r.self_attn.num_heads == num_heads,
            r.self_attn.embed_dim() == embed_dim,
            r.cross_attn.num_heads == num_heads,
            r.cross_attn.embed_dim() == embed_dim,
            crate::models::sequential::kinds_of(r.ff_network.layers@) == feed_forward_plan(
                embed_dim,
                ff_dim,
            ),
            r.norm1.normalized_shape == embed_dim && r.norm1.eps == eps,
            r.norm2.normalized_shape == embed_dim && r.norm2.eps == eps,
            r.norm3.normalized_shape == embed_dim && r.norm3.eps == eps,
            r.dropout.p == dropout && r.dropout.training && r.dropout.mask is None,
    {
        TransformerDecoderLayer {
            self_attn: MultiHeadAttention::new(embed_dim, num_heads, dropout, rng),
            cross_attn: MultiHeadAttention::new(embed_dim, num_heads, dropout, rng),
            ff_network: feed_forward_network(embed_dim, ff_dim, rng),
            norm1: LayerNorm::new(embed_dim, eps),
            norm2: LayerNorm::new(embed_dim, eps),
            norm3: LayerNorm::new(embed_dim, eps),
            dropout: Dropout::new(dropout),
        }
    }
}

impl<T: Transcendental> TransformerDecoderLayer<T> {
    /// Decodes `tgt` against `memory`: a self-attention block, a block that
    /// attends from its result to the memory, and a feed-forward block.
    pub fn forward<R: RandomSource<T>>(
        &mut self,
        tgt: &Tensor<T>,
        memory: &Tensor<T>,
        tgt_mask: Option<&Vec<bool>>,
        memory_mask: Option<&Vec<bool>>,
        rng: &mut R,
    ) -> (r: Result<Tensor<T>, BellandeError>)
        requires
            old(self).wf(),
            tgt.wf(),
            memory.wf(),
        ensures
            decoder_result(
                *old(self),
                *final(self),
                tgt,
                memory,
                mask_view(tgt_mask),
                mask_view(memory_mask),
                r,
            ),
    {
        let a = attention_block(
            &self.norm1,
            &mut self.self_attn,
            &mut self.dropout,
            tgt,
            None,
            tgt_mask,
            rng,
        );
        let ghost first = self.dropout;
        let ghost seen_a = a;
        let m = match a {
            Ok(m) => m,
            Err(e) => {
                assert(decoder_steps(
                    *old(self),
                    *self,
                    tgt,
                    memory,
                    mask_view(tgt_mask),
                    mask_view(memory_mask),
                    first,
                    first,
                    seen_a,
                    Err(e),
                ));
                return Err(e);
            },
        };
        let b = attention_block(
            &self.norm2,
            &mut self.cross_attn,
            &mut self.dropout,
            &m,
            Some(memory),
            memory_mask,
            rng,
        );
        let ghost second = self.dropout;
        let ghost seen_b = b;
        assert(decoder_steps(
            *old(self),
            *self,
            tgt,
            memory,
            mask_view(tgt_mask),
            mask_view(memory_mask),
            first,
            second,
            seen_a,
            seen_b,
        ));
        match b {
            Ok(n) => {
                let outcome = feed_forward_block(
                    &self.norm3,
                    &mut self.ff_network,
                    &mut self.dropout,
                    &n,
                    rng,
                );
                assert(decoder_steps(
                    *old(self),
                    *self,
                    tgt,
                    memory,
                    mask_view(tgt_mask),
                    mask_view(memory_mask),
                    first,
                    second,
                    seen_a,
                    seen_b,
                ));
                outcome
            },
            Err(e) => Err(e),
        }
    }
}

} // verus!
