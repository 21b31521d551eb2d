//! Max pooling, which remembers where every maximum came from and routes
//! gradients back there.

use vstd::prelude::*;
use vstd::string::*;
use crate::error::{forward_not_called, not_called, BellandeError};
use crate::kernels::{filled, lemma_len_fits};
use crate::layer::window::{lemma_out_extent_bound, lemma_window_fits, out_extent};
use crate::scalar::Scalar;
use crate::shape::{
    checked_numel, copy_shape, flat2, flat3, flat4, index4, lemma_flat2_carry, lemma_flat4_bound,
    lemma_flat4_injective, lemma_numel_4, lemma_product_monotone, numel, shape4,
};
use crate::tensor::{zeros_seq, Tensor};

verus! {

/// Two-dimensional max pooling. `forward` records, for every output cell,
/// the flat position of the input element it selected; `backward` routes
/// gradients along that table.
pub struct MaxPool2d {
    pub kernel_size: (usize, usize),
    pub stride: (usize, usize),
    pub indices: Option<Vec<usize>>,
    pub input_shape: Option<Vec<usize>>,
}

/// Scans `n` consecutive elements from `start`, keeping the running
/// maximum and its position; an element replaces the maximum only if it
/// exceeds it, so the first occurrence wins.
pub open spec fn row_scan<T: Scalar>(acc: (T, int), x: Seq<T>, start: int, n: nat) -> (T, int)
    decreases n,
{
    if n == 0 {
        acc
    } else {
        let prev = row_scan(acc, x, start, (n - 1) as nat);
        let idx = start + n - 1;
        if x[idx].exceeds_spec(prev.0) {
            (x[idx], idx)
        } else {
            prev
        }
    }
}

/// Scans a window of `rows × cols` elements whose top-left element is at
/// flat position `origin` in rows of length `width`, row by row.
pub open spec fn window_scan<T: Scalar>(
    acc: (T, int),
    x: Seq<T>,
    origin: int,
    width: int,
    rows: nat,
    cols: nat,
) -> (T, int)
    decreases rows,
{
    if rows == 0 {
        acc
    } else {
        row_scan(
            window_scan(acc, x, origin, width, (rows - 1) as nat, cols),
            x,
            origin + (rows - 1) * width,
            cols,
        )
    }
}

/// The maximum of a window and the flat position it was found at. The scan
/// starts from the lowest value at the first position of the window, so
/// that a window in which nothing exceeds the lowest value is recorded at
/// its first position.
pub open spec fn pool_cell<T: Scalar>(x: Seq<T>, origin: int, width: int, rows: nat, cols: nat) -> (
    T,
    int,
) {
    window_scan((T::lowest_spec(), origin), x, origin, width, rows, cols)
}

/// Whether flat position `at` lies inside the window of `rows × cols`
/// elements whose top-left element is at `origin` in rows of length
/// `width`.
pub open spec fn inside_window(at: int, origin: int, width: int, rows: nat, cols: nat) -> bool {
    exists|r: int, c: int|
        0 <= r < rows && 0 <= c < cols && at == #[trigger] flat2(r, c, width) + origin
}

/// A scan of a row keeps a position inside the window, or moves to one in
/// the row, where it finds the value it returns.
proof fn lemma_row_scan_inside<T: Scalar>(
    acc: (T, int),
    x: Seq<T>,
    origin: int,
    width: int,
    rows: nat,
    cols: nat,
    row: int,
    n: nat,
)
    requires
        0 <= row < rows,
        n <= cols,
        inside_window(acc.1, origin, width, rows, cols),
    ensures
        inside_window(row_scan(acc, x, origin + row * width, n).1, origin, width, rows, cols),
        row_scan(acc, x, origin + row * width, n) == acc || row_scan(
            acc,
            x,
            origin + row * width,
            n,
        ).0 == x[row_scan(acc, x, origin + row * width, n).1],
    decreases n,
{
    if n > 0 {
        lemma_row_scan_inside(acc, x, origin, width, rows, cols, row, (n - 1) as nat);
        let at = origin + row * width + n - 1;
        assert(at == flat2(row, n - 1, width) + origin);
    }
}

/// A scan of a window keeps a position inside the window, or moves to one,
/// where it finds the value it returns.
proof fn lemma_window_scan_inside<T: Scalar>(
    acc: (T, int),
    x: Seq<T>,
    origin: int,
    width: int,
    rows: nat,
    cols: nat,
    done: nat,
)
    requires
        done <= rows,
        inside_window(acc.1, origin, width, rows, cols),
    ensures
        inside_window(window_scan(acc, x, origin, width, done, cols).1, origin, width, rows, cols),
        window_scan(acc, x, origin, width, done, cols) == acc || window_scan(
            acc,
            x,
            origin,
            width,
            done,
            cols,
        ).0 == x[window_scan(acc, x, origin, width, done, cols).1],
    decreases done,
{
    if done > 0 {
        lemma_window_scan_inside(acc, x, origin, width, rows, cols, (done - 1) as nat);
        lemma_row_scan_inside(
            window_scan(acc, x, origin, width, (done - 1) as nat, cols),
            x,
            origin,
            width,
            rows,
            cols,
            done - 1,
            cols,
        );
    }
}

/// The position recorded for a window lies inside the window. The value
/// recorded is the element at that position, unless no element exceeds the
/// lowest value: then it is the lowest value, recorded at the first
/// position of the window.
pub proof fn lemma_pool_cell_inside<T: Scalar>(
    x: Seq<T>,
    origin: int,
    width: int,
    rows: nat,
    cols: nat,
)
    requires
        rows >= 1,
        cols >= 1,
    ensures
        inside_window(pool_cell(x, origin, width, rows, cols).1, origin, width, rows, cols),
        pool_cell(x, origin, width, rows, cols) == (T::lowest_spec(), origin) || pool_cell(
            x,
            origin,
            width,
            rows,
            cols,
        ).0 == x[pool_cell(x, origin, width, rows, cols).1],
{
    assert(origin == flat2(0, 0, width) + origin);
    lemma_window_scan_inside((T::lowest_spec(), origin), x, origin, width, rows, cols, rows);
}

/// Whether, of the window positions scanned so far, none holds more than
/// `acc` holds and none before the position of `acc` holds as much. The
/// positions scanned are those of the rows before `row` and the first `n`
/// of row `row`.
pub open spec fn leads(
    acc: (i64, int),
    x: Seq<i64>,
    origin: int,
    width: int,
    cols: nat,
    row: int,
    n: int,
) -> bool {
    &&& acc == (i64::MIN, origin) || (acc.0 == x[acc.1] && acc.1 < origin + row * width + n)
    &&& forall|r: int, c: int|
        0 <= r && 0 <= c < cols && (r < row || (r == row && c < n)) ==> {
            let at = #[trigger] flat2(r, c, width) + origin;
            x[at] <= acc.0 && (at < acc.1 ==> x[at] < acc.0)
        }
}

proof fn lemma_row_scan_leads(
    acc: (i64, int),
    x: Seq<i64>,
    origin: int,
    width: int,
    cols: nat,
    row: int,
    n: nat,
)
    requires
        0 <= row,
        n <= cols <= width,
        leads(acc, x, origin, width, cols, row, 0),
    ensures
        leads(row_scan(acc, x, origin + row * width, n), x, origin, width, cols, row, n as int),
    decreases n,
{
    if n > 0 {
        lemma_row_scan_leads(acc, x, origin, width, cols, row, (n - 1) as nat);
        let prev = row_scan(acc, x, origin + row * width, (n - 1) as nat);
        let next = row_scan(acc, x, origin + row * width, n);
        let idx = origin + row * width + n - 1;
        assert(idx == flat2(row, n - 1, width) + origin);
        assert(0 <= row * width) by (nonlinear_arith)
            requires
                0 <= row,
                0 <= width,
        ;
        assert forall|r: int, c: int|
            0 <= r && 0 <= c < cols && (r < row || (r == row && c < n)) implies {
            let at = #[trigger] flat2(r, c, width) + origin;
            x[at] <= next.0 && (at < next.1 ==> x[at] < next.0)
        } by {
            let at = flat2(r, c, width) + origin;
            if r == row && c == n - 1 {
                assert(at == idx);
            } else {
                assert(x[at] <= prev.0 && (at < prev.1 ==> x[at] < prev.0));
            }
        }
    }
}

proof fn lemma_window_scan_leads(
    x: Seq<i64>,
    origin: int,
    width: int,
    cols: nat,
    done: nat,
)
    requires
        cols <= width,
    ensures
        leads(
            window_scan((i64::MIN, origin), x, origin, width, done, cols),
            x,
            origin,
            width,
            cols,
            done as int,
            0,
        ),
    decreases done,
{
    if done > 0 {
        lemma_window_scan_leads(x, origin, width, cols, (done - 1) as nat);
        let prev = window_scan((i64::MIN, origin), x, origin, width, (done - 1) as nat, cols);
        lemma_row_scan_leads(prev, x, origin, width, cols, done - 1, cols);
        let next = row_scan(prev, x, origin + (done - 1) * width, cols);
        assert((done - 1) * width + cols <= done * width) by (nonlinear_arith)
            requires
                cols <= width,
        ;
        assert forall|r: int, c: int| 0 <= r && 0 <= c < cols && r < done implies {
            let at = #[trigger] flat2(r, c, width) + origin;
            x[at] <= next.0 && (at < next.1 ==> x[at] < next.0)
        } by {
            if r < done - 1 {
            } else {
                assert(r == done - 1 && c < cols);
            }
        }
    }
}

/// Over the integers, a window is recorded as its maximum, at the first
/// position in scan order that holds it: the position lies inside the
/// window, the value is the element there, no element of the window is
/// greater, and every element of the window before that position is less.
pub proof fn lemma_pool_cell_is_first_maximum(
    x: Seq<i64>,
    origin: int,
    width: int,
    rows: nat,
    cols: nat,
)
    requires
        rows >= 1,
        1 <= cols <= width,
    ensures
        inside_window(pool_cell(x, origin, width, rows, cols).1, origin, width, rows, cols),
        pool_cell(x, origin, width, rows, cols).0 == x[pool_cell(x, origin, width, rows, cols).1],
        forall|r: int, c: int|
            0 <= r < rows && 0 <= c < cols ==> {
                let at = #[trigger] flat2(r, c, width) + origin;
                let cell = pool_cell(x, origin, width, rows, cols);
                x[at] <= cell.0 && (at < cell.1 ==> x[at] < cell.0)
            },
{
    lemma_pool_cell_inside(x, origin, width, rows, cols);
    lemma_window_scan_leads(x, origin, width, cols, rows);
    let cell = pool_cell(x, origin, width, rows, cols);
    if cell == (i64::MIN, origin) {
        assert(origin == flat2(0, 0, width) + origin);
        assert(x[flat2(0, 0, width) + origin] <= cell.0);
    }
}

/// Adds the first `n` gradients into `acc`, each at its recorded position,
/// in order.
pub open spec fn scatter<T: Scalar>(acc: Seq<T>, indices: Seq<usize>, g: Seq<T>, n: nat) -> Seq<T>
    decreases n,
{
    if n == 0 {
        acc
    } else {
        let prev = scatter(acc, indices, g, (n - 1) as nat);
        let at = indices[n - 1] as int;
        prev.update(at, prev[at].plus_spec(g[n - 1]))
    }
}

proof fn lemma_window_corner(origin: int, width: int, r: int, rows: int, cols: int)
    by (nonlinear_arith)
    requires
        0 <= r < rows,
        0 <= width,
        1 <= cols,
        0 <= origin,
    ensures
        0 <= origin + r * width,
        origin + r * width + cols - 1 <= origin + (rows - 1) * width + cols - 1,
        r + 1 < rows ==> origin + r * width + width == origin + (r + 1) * width && origin + (r
            + 1) * width <= origin + (rows - 1) * width,
{
}

fn pool_window<T: Scalar>(x: &Vec<T>, origin: usize, width: usize, rows: usize, cols: usize) -> (r:
    (T, usize))
    requires
        rows >= 1,
        cols >= 1,
        origin + (rows - 1) * width + cols - 1 < x@.len(),
    ensures
        (r.0, r.1 as int) == pool_cell(x@, origin as int, width as int, rows as nat, cols as nat),
        r.1 < x@.len(),
{
    proof {
        lemma_len_fits(x);
    }
    let mut best = T::lowest();
    let mut best_at: usize = origin;
    let mut row_start = origin;
    let mut r: usize = 0;
    while r < rows
        invariant
            r <= rows,
            rows >= 1,
            cols >= 1,
            x@.len() <= usize::MAX,
            origin + (rows - 1) * width + cols - 1 < x@.len(),
            r < rows ==> row_start == origin + r * width,
            best_at < x@.len(),
            (best, best_at as int) == window_scan(
                (T::lowest_spec(), origin as int),
                x@,
                origin as int,
                width as int,
                r as nat,
                cols as nat,
            ),
        decreases rows - r,
    {
        proof {
            lemma_window_corner(origin as int, width as int, r as int, rows as int, cols as int);
        }
        let ghost row_acc = (best, best_at as int);
        let mut c: usize = 0;
        while c < cols
            invariant
                c <= cols,
                x@.len() <= usize::MAX,
                row_start + cols - 1 < x@.len(),
                best_at < x@.len(),
                (best, best_at as int) == row_scan(row_acc, x@, row_start as int, c as nat),
            decreases cols - c,
        {
            let idx = row_start + c;
            let val = x[idx];
            if val.exceeds(best) {
                best = val;
                best_at = idx;
            }
            c = c + 1;
        }
        r = r + 1;
        if r < rows {
            row_start = row_start + width;
        }
    }
    (best, best_at)
}

/// What `forward` returns for `input` and how it changes the layer.
pub open spec fn forward_result<T: Scalar>(
    before: MaxPool2d,
    after: MaxPool2d,
    input: &Tensor<T>,
    r: Result<Tensor<T>, BellandeError>,
) -> bool {
    &&& after.wf()
    &&& after.kernel_size == before.kernel_size
    &&& after.stride == before.stride
    &&& before.accepts(input.shape@) ==> r is Ok
    &&& !before.accepts(input.shape@) ==> (r matches Err(BellandeError::InvalidShape(_)))
        && after.indices == before.indices && after.input_shape == before.input_shape
    &&& r matches Ok(t) ==> {
        let s = input.shape@;
        let oh = before.out_h(s);
        let ow = before.out_w(s);
        &&& t.wf()
        &&& t.shape@ == seq![s[0], s[1], oh as usize, ow as usize]
        &&& after.input_shape is Some
        &&& after.input_shape->0@ == s
        &&& after.indices is Some
        &&& after.indices->0@.len() == t.data@.len()
        &&& forall|b: int, c: int, h: int, w: int|
            0 <= b < s[0] && 0 <= c < s[1] && 0 <= h < oh && 0 <= w < ow ==> {
                let at = #[trigger] flat4(b, c, h, w, s[1] as int, oh, ow);
                &&& 0 <= at < t.data@.len()
                &&& t.data@[at] == before.cell(input, b, c, h, w).0
                &&& after.indices->0@[at] == before.cell(input, b, c, h, w).1
                &&& inside_window(
                    after.indices->0@[at] as int,
                    before.origin(s, b, c, h, w),
                    s[3] as int,
                    before.kernel_size.0 as nat,
                    before.kernel_size.1 as nat,
                )
            }
        &&& t.requires_grad == input.requires_grad
        &&& t.grad_fn is None
        &&& t.device == input.device
        &&& t.dtype == input.dtype
    }
}

/// What `backward` returns for `grad_output`.
pub open spec fn backward_result<T: Scalar>(
    layer: MaxPool2d,
    grad_output: &Tensor<T>,
    r: Result<Tensor<T>, BellandeError>,
) -> bool {
    &&& layer.indices is None ==> (r matches Err(BellandeError::RuntimeError(m)) && m@
        == not_called())
    &&& (layer.indices matches Some(idx) && idx@.len() != grad_output.data@.len()) ==> r
        == Err::<Tensor<T>, BellandeError>(BellandeError::DimensionMismatch)
    &&& (layer.indices matches Some(idx) && idx@.len() == grad_output.data@.len()) ==> r is Ok
    &&& r matches Ok(t) ==> {
        &&& t.wf()
        &&& t.shape@ == layer.input_shape->0@
        &&& t.data@ == scatter(
            zeros_seq::<T>(numel(layer.input_shape->0@)),
            layer.indices->0@,
            grad_output.data@,
            grad_output.data@.len(),
        )
        &&& t.requires_grad
        &&& t.grad_fn is None
        &&& t.device == grad_output.device
        &&& t.dtype == grad_output.dtype
    }
}

impl MaxPool2d {
    /// The cache is consistent: the routing table and the input shape are
    /// present together, and every recorded position lies inside the input.
    pub open spec fn wf(&self) -> bool {
        &&& self.indices is Some <==> self.input_shape is Some
        &&& self.indices matches Some(idx) ==> {
            &&& numel(self.input_shape->0@) <= usize::MAX
            &&& forall|k: int| 0 <= k < idx@.len() ==> (#[trigger] idx@[k]) < numel(
                self.input_shape->0@,
            )
        }
    }

    /// Whether the layer is well formed: it remembers the places of the
    /// maxima together with the shape of the input, and every place lies
    /// inside that input.
    pub fn is_wf(&self) -> (r: bool)
        ensures
            r == self.wf(),
    {
        match (&self.indices, &self.input_shape) {
            (Some(idx), Some(s)) => {
                let total = match checked_numel(s) {
                    Some(n) => n,
                    None => {
                        return false;
                    },
                };
                let n = idx.len();
                let mut k: usize = 0;
                while k < n
                    invariant
                        k <= n,
                        n == idx@.len(),
                        total == numel(s@),
                        self.indices == Some(*idx),
                        self.input_shape == Some(*s),
                        forall|j: int| 0 <= j < k ==> (#[trigger] idx@[j]) < total,
                    decreases n - k,
                {
                    if idx[k] >= total {
                        assert(!(self.indices->0@[k as int] < numel(self.input_shape->0@)));
                        assert(!self.wf());
                        return false;
                    }
                    k = k + 1;
                }
                true
            },
            (None, None) => true,
            _ => false,
        }
    }

    pub fn new(kernel_size: (usize, usize), stride: (usize, usize)) -> (r: Self)
        ensures
            r.wf(),
            r.kernel_size == kernel_size,
            r.stride == stride,
            r.indices is None,
            r.input_shape is None,
    {
        MaxPool2d { kernel_size, stride, indices: None, input_shape: None }
    }

    /// Whether an input of the given shape can be pooled: it is
    /// four-dimensional, both strides are positive, and the kernel has at
    /// least one element along each axis and fits inside the input.
    pub open spec fn accepts(&self, shape: Seq<usize>) -> bool {
        &&& shape.len() == 4
        &&& self.stride.0 > 0
        &&& self.stride.1 > 0
        &&& 1 <= self.kernel_size.0 <= shape[2]
        &&& 1 <= self.kernel_size.1 <= shape[3]
    }

    pub open spec fn out_h(&self, shape: Seq<usize>) -> int {
        out_extent(shape[2] as int, self.kernel_size.0 as int, self.stride.0 as int, 0)
    }

    pub open spec fn out_w(&self, shape: Seq<usize>) -> int {
        out_extent(shape[3] as int, self.kernel_size.1 as int, self.stride.1 as int, 0)
    }

    /// The flat position in the input of the top-left element of the window
    /// of output cell `(b, c, h, w)`.
    pub open spec fn origin(&self, shape: Seq<usize>, b: int, c: int, h: int, w: int) -> int {
        flat4(
            b,
            c,
            h * self.stride.0,
            w * self.stride.1,
            shape[1] as int,
            shape[2] as int,
            shape[3] as int,
        )
    }

    /// The maximum and its source position for output cell `(b, c, h, w)`.
    pub open spec fn cell<T: Scalar>(&self, input: &Tensor<T>, b: int, c: int, h: int, w: int) -> (
        T,
        int,
    ) {
        pool_cell(
            input.data@,
            self.origin(input.shape@, b, c, h, w),
            input.shape@[3] as int,
            self.kernel_size.0 as nat,
            self.kernel_size.1 as nat,
        )
    }

    /// Pools a `(batch, channels, height, width)` input. Each output cell
    /// holds the maximum of its window, and the flat input position of that
    /// maximum is recorded, the first in scan order among equals.
    pub fn forward<T: Scalar>(&mut self, input: &Tensor<T>) -> (r: Result<Tensor<T>, BellandeError>)
        requires
            old(self).wf(),
            input.wf(),
        ensures
            forward_result(*old(self), *final(self), input, r),
    {
        if input.shape.len() != 4 {
            return Err(BellandeError::InvalidShape(String::from_str("expected a 4D input")));
        }
        let batch = input.shape[0];
        let channels = input.shape[1];
        let height = input.shape[2];
        let width = input.shape[3];
        let (kh, kw) = self.kernel_size;
        let (sh, sw) = self.stride;
        if kh == 0 || kw == 0 || kh > height || kw > width || sh == 0 || sw == 0 {
            return Err(
                BellandeError::InvalidShape(String::from_str("window does not fit the input")),
            );
        }
        let out_h = (height - kh) / sh + 1;
        let out_w = (width - kw) / sw + 1;
        proof {
            lemma_numel_4(input.shape@);
            lemma_len_fits(&input.data);
            lemma_out_extent_bound(height as int, kh as int, sh as int);
            lemma_out_extent_bound(width as int, kw as int, sw as int);
            lemma_product_monotone(batch * channels, out_h as int, batch * channels, height as int);
            lemma_product_monotone(
                batch * channels * out_h,
                out_w as int,
                batch * channels * height,
                width as int,
            );
            assert(0 <= batch * channels) by (nonlinear_arith)
                requires
                    0 <= batch,
                    0 <= channels,
            ;
        }
        proof {
            lemma_flat2_carry(0, channels as int);
            lemma_flat2_carry(0, out_h as int);
            lemma_flat2_carry(0, out_w as int);
        }
        let ghost shape = input.shape@;
        let ghost before = *self;
        let mut output: Vec<T> = Vec::new();
        let mut indices: Vec<usize> = Vec::new();
        let mut b: usize = 0;
        while b < batch
            invariant
                b <= batch,
                input.wf(),
                before.kernel_size == (kh, kw),
                before.stride == (sh, sw),
                shape == input.shape@,
                shape == seq![batch, channels, height, width],
                input.data@.len() == batch * channels * height * width,
                input.data@.len() <= usize::MAX,
                1 <= kh <= height,
                1 <= kw <= width,
                sh > 0,
                sw > 0,
                out_h == out_extent(height as int, kh as int, sh as int, 0),
                out_w == out_extent(width as int, kw as int, sw as int, 0),
                output@.len() == flat4(b as int, 0, 0, 0, channels as int, out_h as int, out_w as int),
                indices@.len() == output@.len(),
                forall|k: int| 0 <= k < indices@.len() ==> (#[trigger] indices@[k]) < input.data@.len(),
                forall|b2: int, c2: int, h2: int, w2: int|
                    0 <= b2 && 0 <= c2 < channels && 0 <= h2 < out_h && 0 <= w2 < out_w && flat4(
                        b2,
                        c2,
                        h2,
                        w2,
                        channels as int,
                        out_h as int,
                        out_w as int,
                    ) < output@.len() ==> {
                        let at = #[trigger] flat4(
                            b2,
                            c2,
                            h2,
                            w2,
                            channels as int,
                            out_h as int,
                            out_w as int,
                        );
                        &&& output@[at] == before.cell(input, b2, c2, h2, w2).0
                        &&& indices@[at] == before.cell(input, b2, c2, h2, w2).1
                    },
            decreases batch - b,
        {
            let mut c: usize = 0;
            while c < channels
                invariant
                    b < batch,
                    c <= channels,
                    input.wf(),
                    before.kernel_size == (kh, kw),
                    before.stride == (sh, sw),
                    shape == input.shape@,
                    shape == seq![batch, channels, height, width],
                    input.data@.len() == batch * channels * height * width,
                    input.data@.len() <= usize::MAX,
                    1 <= kh <= height,
                    1 <= kw <= width,
                    sh > 0,
                    sw > 0,
                    out_h == out_extent(height as int, kh as int, sh as int, 0),
                    out_w == out_extent(width as int, kw as int, sw as int, 0),
                    output@.len() == flat4(
                        b as int,
                        c as int,
                        0,
                        0,
                        channels as int,
                        out_h as int,
                        out_w as int,
                    ),
                    indices@.len() == output@.len(),
                    forall|k: int|
                        0 <= k < indices@.len() ==> (#[trigger] indices@[k]) < input.data@.len(),
                    forall|b2: int, c2: int, h2: int, w2: int|
                        0 <= b2 && 0 <= c2 < channels && 0 <= h2 < out_h && 0 <= w2 < out_w
                            && flat4(b2, c2, h2, w2, channels as int, out_h as int, out_w as int)
                            < output@.len() ==> {
                            let at = #[trigger] flat4(
                                b2,
                                c2,
                                h2,
                                w2,
                                channels as int,
                                out_h as int,
                                out_w as int,
                            );
                            &&& output@[at] == before.cell(input, b2, c2, h2, w2).0
                            &&& indices@[at] == before.cell(input, b2, c2, h2, w2).1
                        },
                decreases channels - c,
            {
                let mut h: usize = 0;
                while h < out_h
                    invariant
                        b < batch,
                        c < channels,
                        h <= out_h,
                        input.wf(),
                        before.kernel_size == (kh, kw),
                        before.stride == (sh, sw),
                        shape == input.shape@,
                        shape == seq![batch, channels, height, width],
                        input.data@.len() == batch * channels * height * width,
                        input.data@.len() <= usize::MAX,
                        1 <= kh <= height,
                        1 <= kw <= width,
                        sh > 0,
                        sw > 0,
                        out_h == out_extent(height as int, kh as int, sh as int, 0),
                        out_w == out_extent(width as int, kw as int, sw as int, 0),
                        output@.len() == flat4(
                            b as int,
                            c as int,
                            h as int,
                            0,
                            channels as int,
                            out_h as int,
                            out_w as int,
                        ),
                        indices@.len() == output@.len(),
                        forall|k: int|
                            0 <= k < indices@.len() ==> (#[trigger] indices@[k])
                                < input.data@.len(),
                        forall|b2: int, c2: int, h2: int, w2: int|
                            0 <= b2 && 0 <= c2 < channels && 0 <= h2 < out_h && 0 <= w2 < out_w
                                && flat4(
                                b2,
                                c2,
                                h2,
                                w2,
                                channels as int,
                                out_h as int,
                                out_w as int,
                            ) < output@.len() ==> {
                                let at = #[trigger] flat4(
                                    b2,
                                    c2,
                                    h2,
                                    w2,
                                    channels as int,
                                    out_h as int,
                                    out_w as int,
                                );
                                &&& output@[at] == before.cell(input, b2, c2, h2, w2).0
                                &&& indices@[at] == before.cell(input, b2, c2, h2, w2).1
                            },
                    decreases out_h - h,
                {
                    let mut w: usize = 0;
                    while w < out_w
                        invariant
                            b < batch,
                            c < channels,
                            h < out_h,
                            w <= out_w,
                            input.wf(),
                            before.kernel_size == (kh, kw),
                            before.stride == (sh, sw),
                            shape == input.shape@,
                            shape == seq![batch, channels, height, width],
                            input.data@.len() == batch * channels * height * width,
                            input.data@.len() <= usize::MAX,
                            1 <= kh <= height,
                            1 <= kw <= width,
                            sh > 0,
                            sw > 0,
                            out_h == out_extent(height as int, kh as int, sh as int, 0),
                            out_w == out_extent(width as int, kw as int, sw as int, 0),
                            output@.len() == flat4(
                                b as int,
                                c as int,
                                h as int,
                                w as int,
                                channels as int,
                                out_h as int,
                                out_w as int,
                            ),
                            indices@.len() == output@.len(),
                            forall|k: int|
                                0 <= k < indices@.len() ==> (#[trigger] indices@[k])
                                    < input.data@.len(),
                            forall|b2: int, c2: int, h2: int, w2: int|
                                0 <= b2 && 0 <= c2 < channels && 0 <= h2 < out_h && 0 <= w2
                                    < out_w && flat4(
                                    b2,
                                    c2,
                                    h2,
                                    w2,
                                    channels as int,
                                    out_h as int,
                                    out_w as int,
                                ) < output@.len() ==> {
                                    let at = #[trigger] flat4(
                                        b2,
                                        c2,
                                        h2,
                                        w2,
                                        channels as int,
                                        out_h as int,
                                        out_w as int,
                                    );
                                    &&& output@[at] == before.cell(input, b2, c2, h2, w2).0
                                    &&& indices@[at] == before.cell(input, b2, c2, h2, w2).1
                                },
                        decreases out_w - w,
                    {
                        proof {
                            lemma_window_fits(height as int, kh as int, sh as int, 0, h as int);
                            lemma_window_fits(width as int, kw as int, sw as int, 0, w as int);
                            lemma_flat4_bound(
                                b as int,
                                c as int,
                                h * sh + kh - 1,
                                w * sw + kw - 1,
                                batch as int,
                                channels as int,
                                height as int,
                                width as int,
                            );
                            lemma_flat4_bound(
                                b as int,
                                c as int,
                                h * sh,
                                w * sw,
                                batch as int,
                                channels as int,
                                height as int,
                                width as int,
                            );
                            lemma_origin_shift(
                                flat3(
                                    b as int,
                                    c as int,
                                    h * sh,
                                    channels as int,
                                    height as int,
                                ),
                                w * sw,
                                width as int,
                                kh - 1,
                                kw - 1,
                            );
                        }
                        let origin = index4(b, c, h * sh, w * sw, channels, height, width);
                        let (best, best_at) = pool_window(&input.data, origin, width, kh, kw);
                        let ghost out_before = output@;
                        let ghost idx_before = indices@;
                        output.push(best);
                        indices.push(best_at);
                        assert forall|b2: int, c2: int, h2: int, w2: int|
                            0 <= b2 && 0 <= c2 < channels && 0 <= h2 < out_h && 0 <= w2 < out_w
                                && flat4(
                                b2,
                                c2,
                                h2,
                                w2,
                                channels as int,
                                out_h as int,
                                out_w as int,
                            ) < output@.len() implies {
                            let at = #[trigger] flat4(
                                b2,
                                c2,
                                h2,
                                w2,
                                channels as int,
                                out_h as int,
                                out_w as int,
                            );
                            &&& output@[at] == before.cell(input, b2, c2, h2, w2).0
                            &&& indices@[at] == before.cell(input, b2, c2, h2, w2).1
                        } by {
                            let at = flat4(
                                b2,
                                c2,
                                h2,
                                w2,
                                channels as int,
                                out_h as int,
                                out_w as int,
                            );
                            if at < out_before.len() {
                                assert(output@[at] == out_before[at]);
                                assert(indices@[at] == idx_before[at]);
                            } else {
                                lemma_flat4_injective(
                                    b2,
                                    c2,
                                    h2,
                                    w2,
                                    b as int,
                                    c as int,
                                    h as int,
                                    w as int,
                                    channels as int,
                                    out_h as int,
                                    out_w as int,
                                );
                            }
                        }
                        assert forall|k: int| 0 <= k < indices@.len() implies (
                        #[trigger] indices@[k]) < input.data@.len() by {
                            if k < idx_before.len() {
                                assert(indices@[k] == idx_before[k]);
                            }
                        }
                        w = w + 1;
                    }
                    proof {
                        lemma_flat2_carry(
                            flat3(b as int, c as int, h as int, channels as int, out_h as int),
                            out_w as int,
                        );
                    }
                    h = h + 1;
                }
                proof {
                    lemma_flat2_carry(flat2(b as int, c as int, channels as int), out_h as int);
                    lemma_flat2_carry(
                        flat3(b as int, c as int, out_h as int, channels as int, out_h as int),
                        out_w as int,
                    );
                    lemma_flat2_carry(
                        flat3(b as int, c + 1, 0, channels as int, out_h as int),
                        out_w as int,
                    );
                }
                c = c + 1;
            }
            proof {
                lemma_flat2_carry(b as int, channels as int);
            }
            b = b + 1;
        }
        assert(output@.len() == batch * channels * out_h * out_w) by (nonlinear_arith)
            requires
                output@.len() == flat4(
                    batch as int,
                    0,
                    0,
                    0,
                    channels as int,
                    out_h as int,
                    out_w as int,
                ),
        ;
        assert forall|b2: int, c2: int, h2: int, w2: int|
            0 <= b2 < batch && 0 <= c2 < channels && 0 <= h2 < out_h && 0 <= w2
                < out_w implies 0 <= #[trigger] flat4(
            b2,
            c2,
            h2,
            w2,
            channels as int,
            out_h as int,
            out_w as int,
        ) < output@.len() by {
            lemma_flat4_bound(
                b2,
                c2,
                h2,
                w2,
                batch as int,
                channels as int,
                out_h as int,
                out_w as int,
            );
        }
        assert forall|b2: int, c2: int, h2: int, w2: int|
            0 <= b2 < batch && 0 <= c2 < channels && 0 <= h2 < out_h && 0 <= w2
                < out_w implies inside_window(
            (#[trigger] before.cell(input, b2, c2, h2, w2)).1,
            before.origin(shape, b2, c2, h2, w2),
            width as int,
            kh as nat,
            kw as nat,
        ) by {
            lemma_pool_cell_inside(
                input.data@,
                before.origin(shape, b2, c2, h2, w2),
                width as int,
                kh as nat,
                kw as nat,
            );
        }
        self.indices = Some(indices);
        self.input_shape = Some(copy_shape(&input.shape));
        Ok(
            Tensor::new(
                output,
                shape4(batch, channels, out_h, out_w),
                input.requires_grad,
                input.device,
                input.dtype,
            ),
        )
    }

    /// Routes the gradient of each output cell to the input position that
    /// produced it, adding where several cells selected the same position;
    /// every other position receives zero. The result has the shape of the
    /// input that `forward` last saw.
    pub fn backward<T: Scalar>(&self, grad_output: &Tensor<T>) -> (r: Result<
        Tensor<T>,
        BellandeError,
    >)
        requires
            self.wf(),
            grad_output.wf(),
        ensures
            backward_result(*self, grad_output, r),
    {
        match (&self.indices, &self.input_shape) {
            (Some(indices), Some(shape)) => {
                let n = indices.len();
                if n != grad_output.data.len() {
                    return Err(BellandeError::DimensionMismatch);
                }
                let size = match checked_numel(shape) {
                    Some(v) => v,
                    None => 0,
                };
                let mut grad_input = filled(T::zero(), size);
                assert(grad_input@ =~= zeros_seq::<T>(size as nat));
                let mut k: usize = 0;
                while k < n
                    invariant
                        k <= n,
                        n == indices@.len(),
                        n == grad_output.data@.len(),
                        grad_input@.len() == size,
                        forall|j: int| 0 <= j < indices@.len() ==> (#[trigger] indices@[j]) < size,
                        grad_input@ == scatter(
                            zeros_seq::<T>(size as nat),
                            indices@,
                            grad_output.data@,
                            k as nat,
                        ),
                    decreases n - k,
                {
                    let at = indices[k];
                    let sum = grad_input[at].plus(grad_output.data[k]);
                    grad_input.set(at, sum);
                    k = k + 1;
                }
                Ok(
                    Tensor::new(
                        grad_input,
                        copy_shape(shape),
                        true,
                        grad_output.device,
                        grad_output.dtype,
                    ),
                )
            },
            _ => Err(forward_not_called()),
        }
    }
}

proof fn lemma_origin_shift(row: int, col: int, width: int, dr: int, dc: int)
    by (nonlinear_arith)
    ensures
        flat2(row + dr, col + dc, width) == flat2(row, col, width) + dr * width + dc,
{
}

} // verus!
