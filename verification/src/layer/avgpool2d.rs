//! Average pooling over windows of a four-dimensional input.

use vstd::prelude::*;
use vstd::string::*;
use crate::error::{forward_not_called, not_called, BellandeError};
use crate::kernels::lemma_len_fits;
use crate::layer::window::{lemma_out_extent_bound, lemma_window_fits, out_extent};
use crate::scalar::Scalar;
use crate::shape::{
    checked_numel, copy_shape, flat4, index4, lemma_flat4_bound, lemma_flat4_injective, lemma_flat4_leading,
    lemma_numel_4, lemma_product4_positive, lemma_product_grows, lemma_product_monotone, numel, shape4, Cursor4,
};
use crate::tensor::Tensor;

verus! {

/// Two-dimensional average pooling without padding.
pub struct AvgPool2d {
    pub kernel_size: (usize, usize),
    pub stride: (usize, usize),
    pub input_shape: Option<Vec<usize>>,
}

/// The extents that one application of the pooling works with.
pub struct PoolGeometry {
    pub batch: usize,
    pub channels: usize,
    pub height: usize,
    pub width: usize,
    pub kernel_h: usize,
    pub kernel_w: usize,
    pub stride_h: usize,
    pub stride_w: usize,
    pub out_h: usize,
    pub out_w: usize,
}

impl PoolGeometry {
    pub open spec fn wf(self) -> bool {
        &&& 1 <= self.kernel_h <= self.height
        &&& 1 <= self.kernel_w <= self.width
        &&& self.stride_h > 0
        &&& self.stride_w > 0
        &&& self.out_h == out_extent(self.height as int, self.kernel_h as int, self.stride_h as int, 0)
        &&& self.out_w == out_extent(self.width as int, self.kernel_w as int, self.stride_w as int, 0)
        &&& self.batch * self.channels * self.height * self.width <= usize::MAX
        &&& self.batch * self.channels * self.out_h * self.out_w <= usize::MAX
        &&& self.kernel_h * self.kernel_w <= usize::MAX
    }

    pub open spec fn input_at(self, b: int, c: int, h: int, w: int) -> int {
        flat4(b, c, h, w, self.channels as int, self.height as int, self.width as int)
    }

    pub open spec fn output_at(self, b: int, c: int, h: int, w: int) -> int {
        flat4(b, c, h, w, self.channels as int, self.out_h as int, self.out_w as int)
    }

    /// The number of elements of a window, as an element.
    pub open spec fn count<T: Scalar>(self) -> T {
        T::count_spec((self.kernel_h * self.kernel_w) as usize)
    }
}

/// Adds to `acc` the first `n` elements of row `kh` of the window of output
/// cell `(b, c, oh, ow)`.
pub open spec fn window_row_sum<T: Scalar>(
    acc: T,
    x: Seq<T>,
    g: PoolGeometry,
    b: int,
    c: int,
    oh: int,
    ow: int,
    kh: int,
    n: nat,
) -> T
    decreases n,
{
    if n == 0 {
        acc
    } else {
        window_row_sum(acc, x, g, b, c, oh, ow, kh, (n - 1) as nat).plus_spec(
            x[g.input_at(b, c, oh * g.stride_h + kh, ow * g.stride_w + n - 1)],
        )
    }
}

/// The elements of the first `n` rows of the window of output cell
/// `(b, c, oh, ow)`, accumulated from zero row by row.
pub open spec fn window_sum<T: Scalar>(
    x: Seq<T>,
    g: PoolGeometry,
    b: int,
    c: int,
    oh: int,
    ow: int,
    n: nat,
) -> T
    decreases n,
{
    if n == 0 {
        T::zero_spec()
    } else {
        window_row_sum(
            window_sum(x, g, b, c, oh, ow, (n - 1) as nat),
            x,
            g,
            b,
            c,
            oh,
            ow,
            n - 1,
            g.kernel_w as nat,
        )
    }
}

/// Output cell `(b, c, oh, ow)`: the sum of its window over the number of
/// elements of the window.
pub open spec fn average_cell<T: Scalar>(x: Seq<T>, g: PoolGeometry, b: int, c: int, oh: int, ow: int) -> T {
    window_sum(x, g, b, c, oh, ow, g.kernel_h as nat).over_spec(g.count::<T>())
}

/// Whether the window of output position `o` along an axis holds input
/// position `at`.
pub open spec fn holds(o: int, stride: int, kernel: int, at: int) -> bool {
    o * stride <= at < o * stride + kernel
}

/// Adds to `acc`, for the first `n` columns of output row `oh`, the share
/// of every output cell whose window holds input element `(h, w)`.
pub open spec fn share_row<T: Scalar>(
    acc: T,
    grad: Seq<T>,
    g: PoolGeometry,
    b: int,
    c: int,
    h: int,
    w: int,
    oh: int,
    n: nat,
) -> T
    decreases n,
{
    if n == 0 {
        acc
    } else {
        let prev = share_row(acc, grad, g, b, c, h, w, oh, (n - 1) as nat);
        if holds(n - 1, g.stride_w as int, g.kernel_w as int, w) {
            prev.plus_spec(grad[g.output_at(b, c, oh, n - 1)].over_spec(g.count::<T>()))
        } else {
            prev
        }
    }
}

/// Gradient with respect to input element `(b, c, h, w)` over the first `n`
/// output rows: every output cell whose window holds the element
/// contributes its gradient over the number of elements of the window,
/// accumulated from zero row by row and column by column.
pub open spec fn share_sum<T: Scalar>(
    grad: Seq<T>,
    g: PoolGeometry,
    b: int,
    c: int,
    h: int,
    w: int,
    n: nat,
) -> T
    decreases n,
{
    if n == 0 {
        T::zero_spec()
    } else {
        let prev = share_sum(grad, g, b, c, h, w, (n - 1) as nat);
        if holds(n - 1, g.stride_h as int, g.kernel_h as int, h) {
            share_row(prev, grad, g, b, c, h, w, n - 1, g.out_w as nat)
        } else {
            prev
        }
    }
}

fn average_exec<T: Scalar>(x: &Vec<T>, g: &PoolGeometry, b: usize, c: usize, oh: usize, ow: usize) -> (r: T)
    requires
        g.wf(),
        x@.len() == g.batch * g.channels * g.height * g.width,
        b < g.batch,
        c < g.channels,
        oh < g.out_h,
        ow < g.out_w,
    ensures
        r == average_cell(x@, *g, b as int, c as int, oh as int, ow as int),
{
    proof {
        lemma_window_fits(g.height as int, g.kernel_h as int, g.stride_h as int, 0, oh as int);
        lemma_window_fits(g.width as int, g.kernel_w as int, g.stride_w as int, 0, ow as int);
    }
    let top = oh * g.stride_h;
    let left = ow * g.stride_w;
    let mut sum = T::zero();
    let mut kh: usize = 0;
    while kh < g.kernel_h
        invariant
            kh <= g.kernel_h,
            g.wf(),
            x@.len() == g.batch * g.channels * g.height * g.width,
            b < g.batch,
            c < g.channels,
            top == oh * g.stride_h,
            left == ow * g.stride_w,
            top + g.kernel_h <= g.height,
            left + g.kernel_w <= g.width,
            sum == window_sum(x@, *g, b as int, c as int, oh as int, ow as int, kh as nat),
        decreases g.kernel_h - kh,
    {
        let ghost start = sum;
        let mut kw: usize = 0;
        while kw < g.kernel_w
            invariant
                kh < g.kernel_h,
                kw <= g.kernel_w,
                g.wf(),
                x@.len() == g.batch * g.channels * g.height * g.width,
                b < g.batch,
                c < g.channels,
                top == oh * g.stride_h,
                left == ow * g.stride_w,
                top + g.kernel_h <= g.height,
                left + g.kernel_w <= g.width,
                sum == window_row_sum(
                    start,
                    x@,
                    *g,
                    b as int,
                    c as int,
                    oh as int,
                    ow as int,
                    kh as int,
                    kw as nat,
                ),
            decreases g.kernel_w - kw,
        {
            proof {
                lemma_flat4_bound(
                    b as int,
                    c as int,
                    top + kh,
                    left + kw,
                    g.batch as int,
                    g.channels as int,
                    g.height as int,
                    g.width as int,
                );
            }
            sum = sum.plus(x[index4(b, c, top + kh, left + kw, g.channels, g.height, g.width)]);
            kw = kw + 1;
        }
        kh = kh + 1;
    }
    sum.over(T::count(g.kernel_h * g.kernel_w))
}

fn share_exec<T: Scalar>(grad: &Vec<T>, g: &PoolGeometry, b: usize, c: usize, h: usize, w: usize) -> (r: T)
    requires
        g.wf(),
        grad@.len() == g.batch * g.channels * g.out_h * g.out_w,
        b < g.batch,
        c < g.channels,
        h < g.height,
        w < g.width,
    ensures
        r == share_sum(grad@, *g, b as int, c as int, h as int, w as int, g.out_h as nat),
{
    let count = T::count(g.kernel_h * g.kernel_w);
    let mut sum = T::zero();
    let mut oh: usize = 0;
    while oh < g.out_h
        invariant
            oh <= g.out_h,
            g.wf(),
            grad@.len() == g.batch * g.channels * g.out_h * g.out_w,
            b < g.batch,
            c < g.channels,
            h < g.height,
            w < g.width,
            count == g.count::<T>(),
            sum == share_sum(grad@, *g, b as int, c as int, h as int, w as int, oh as nat),
        decreases g.out_h - oh,
    {
        proof {
            lemma_window_fits(g.height as int, g.kernel_h as int, g.stride_h as int, 0, oh as int);
        }
        let top = oh * g.stride_h;
        if top <= h && h - top < g.kernel_h {
            let ghost start = sum;
            let mut ow: usize = 0;
            while ow < g.out_w
                invariant
                    oh < g.out_h,
                    ow <= g.out_w,
                    g.wf(),
                    grad@.len() == g.batch * g.channels * g.out_h * g.out_w,
                    b < g.batch,
                    c < g.channels,
                    h < g.height,
                    w < g.width,
                    count == g.count::<T>(),
                    sum == share_row(
                        start,
                        grad@,
                        *g,
                        b as int,
                        c as int,
                        h as int,
                        w as int,
                        oh as int,
                        ow as nat,
                    ),
                decreases g.out_w - ow,
            {
                proof {
                    lemma_window_fits(
                        g.width as int,
                        g.kernel_w as int,
                        g.stride_w as int,
                        0,
                        ow as int,
                    );
                }
                let left = ow * g.stride_w;
                if left <= w && w - left < g.kernel_w {
                    proof {
                        lemma_flat4_bound(
                            b as int,
                            c as int,
                            oh as int,
                            ow as int,
                            g.batch as int,
                            g.channels as int,
                            g.out_h as int,
                            g.out_w as int,
                        );
                    }
                    sum = sum.plus(
                        grad[index4(b, c, oh, ow, g.channels, g.out_h, g.out_w)].over(count),
                    );
                }
                ow = ow + 1;
            }
        }
        oh = oh + 1;
    }
    sum
}

/// What `forward` returns for `input` and how it changes the layer.
pub open spec fn forward_result<T: Scalar>(
    before: AvgPool2d,
    after: AvgPool2d,
    input: &Tensor<T>,
    r: Result<Tensor<T>, BellandeError>,
) -> bool {
    &&& after.wf()
    &&& after.kernel_size == before.kernel_size
    &&& after.stride == before.stride
    &&& before.accepts(input.shape@) ==> r is Ok
    &&& !before.accepts(input.shape@) ==> (r matches Err(BellandeError::InvalidShape(_)))
        && after.input_shape == before.input_shape
    &&& r matches Ok(t) ==> {
        let g = before.geometry(input.shape@);
        &&& t.wf()
        &&& t.shape@ == seq![g.batch, g.channels, g.out_h, g.out_w]
        &&& after.input_shape is Some
        &&& after.input_shape->0@ == input.shape@
        &&& forall|b: int, c: int, h: int, w: int|
            0 <= b < g.batch && 0 <= c < g.channels && 0 <= h < g.out_h && 0 <= w < g.out_w ==> {
                let at = #[trigger] g.output_at(b, c, h, w);
                &&& 0 <= at < t.data@.len()
                &&& t.data@[at] == average_cell(input.data@, g, b, c, h, w)
            }
        &&& t.requires_grad == input.requires_grad
        &&& t.grad_fn is None
        &&& t.device == input.device
        &&& t.dtype == input.dtype
    }
}

/// What `backward` returns for `grad_output`.
pub open spec fn backward_result<T: Scalar>(
    layer: AvgPool2d,
    grad_output: &Tensor<T>,
    r: Result<Tensor<T>, BellandeError>,
) -> bool {
    match r {
        Ok(t) => {
            let g = layer.geometry(layer.input_shape->0@);
            &&& layer.input_shape is Some
            &&& grad_output.shape@ == seq![g.batch, g.channels, g.out_h, g.out_w]
            &&& t.wf()
            &&& t.shape@ == layer.input_shape->0@
            &&& forall|b: int, c: int, h: int, w: int|
                0 <= b < g.batch && 0 <= c < g.channels && 0 <= h < g.height && 0 <= w < g.width
                    ==> {
                    let at = #[trigger] g.input_at(b, c, h, w);
                    &&& 0 <= at < t.data@.len()
                    &&& t.data@[at] == share_sum(grad_output.data@, g, b, c, h, w, g.out_h as nat)
                }
            &&& t.requires_grad
            &&& t.grad_fn is None
            &&& t.device == grad_output.device
            &&& t.dtype == grad_output.dtype
        },
        Err(BellandeError::RuntimeError(m)) => layer.input_shape is None && m@ == not_called(),
        Err(BellandeError::DimensionMismatch) => layer.input_shape is Some && grad_output.shape@
            != seq![
            layer.geometry(layer.input_shape->0@).batch,
            layer.geometry(layer.input_shape->0@).channels,
            layer.geometry(layer.input_shape->0@).out_h,
            layer.geometry(layer.input_shape->0@).out_w,
        ],
        Err(_) => false,
    }
}

impl AvgPool2d {
    /// The cached shape is one that the layer accepts, of an input that can
    /// be addressed.
    pub open spec fn wf(&self) -> bool {
        self.input_shape matches Some(s) ==> self.accepts(s@) && numel(s@) <= usize::MAX
    }

    pub fn new(kernel_size: (usize, usize), stride: (usize, usize)) -> (r: Self)
        ensures
            r.wf(),
            r.kernel_size == kernel_size,
            r.stride == stride,
            r.input_shape is None,
    {
        AvgPool2d { kernel_size, stride, input_shape: None }
    }

    /// Whether an input of the given shape can be pooled: it is
    /// four-dimensional, both strides are positive, the kernel has at least
    /// one element along each axis and fits inside the input, and the
    /// number of elements of a window can be represented.
    pub open spec fn accepts(&self, shape: Seq<usize>) -> bool {
        &&& shape.len() == 4
        &&& self.stride.0 > 0
        &&& self.stride.1 > 0
        &&& 1 <= self.kernel_size.0 <= shape[2]
        &&& 1 <= self.kernel_size.1 <= shape[3]
        &&& self.kernel_size.0 * self.kernel_size.1 <= usize::MAX
    }

    pub open spec fn geometry(&self, shape: Seq<usize>) -> PoolGeometry {
        PoolGeometry {
            batch: shape[0],
            channels: shape[1],
            height: shape[2],
            width: shape[3],
            kernel_h: self.kernel_size.0,
            kernel_w: self.kernel_size.1,
            stride_h: self.stride.0,
            stride_w: self.stride.1,
            out_h: out_extent(shape[2] as int, self.kernel_size.0 as int, self.stride.0 as int, 0) as usize,
            out_w: out_extent(shape[3] as int, self.kernel_size.1 as int, self.stride.1 as int, 0) as usize,
        }
    }

    fn plan(&self, shape: &Vec<usize>) -> (r: Option<PoolGeometry>)
        requires
            shape@.len() == 4,
            numel(shape@) <= usize::MAX,
        ensures
            r is Some <==> self.accepts(shape@),
            r matches Some(g) ==> g == self.geometry(shape@) && g.wf(),
    {
        let (kh, kw) = self.kernel_size;
        let (sh, sw) = self.stride;
        let height = shape[2];
        let width = shape[3];
        if kh == 0 || kw == 0 || kh > height || kw > width || sh == 0 || sw == 0 {
            return None;
        }
        if kh.checked_mul(kw).is_none() {
            return None;
        }
        let out_h = (height - kh) / sh + 1;
        let out_w = (width - kw) / sw + 1;
        proof {
            lemma_numel_4(shape@);
            lemma_out_extent_bound(height as int, kh as int, sh as int);
            lemma_out_extent_bound(width as int, kw as int, sw as int);
            let planes = shape@[0] * shape@[1];
            assert(0 <= planes) by (nonlinear_arith)
                requires
                    planes == shape@[0] * shape@[1],
            ;
            lemma_product_monotone(planes, out_h as int, planes, height as int);
            lemma_product_monotone(planes * out_h, out_w as int, planes * height, width as int);
        }
        Some(
            PoolGeometry {
                batch: shape[0],
                channels: shape[1],
                height,
                width,
                kernel_h: kh,
                kernel_w: kw,
                stride_h: sh,
                stride_w: sw,
                out_h,
                out_w,
            },
        )
    }

    /// Whether the layer is well formed: a remembered input shape is one
    /// that the layer accepts.
    pub fn is_wf(&self) -> (r: bool)
        ensures
            r == self.wf(),
    {
        match &self.input_shape {
            Some(s) => s.len() == 4 && checked_numel(s).is_some() && self.plan(s).is_some(),
            None => true,
        }
    }

    /// Pools a `(batch, channels, height, width)` input: each output cell
    /// holds the average of its window. Remembers the shape of the input
    /// for `backward`.
    pub fn forward<T: Scalar>(&mut self, input: &Tensor<T>) -> (r: Result<Tensor<T>, BellandeError>)
        requires
            old(self).wf(),
            input.wf(),
        ensures
            forward_result(*old(self), *final(self), input, r),
    {
        if input.shape.len() != 4 {
            return Err(BellandeError::InvalidShape(String::from_str("expected a 4D input")));
        }
        proof {
            lemma_len_fits(&input.data);
            lemma_numel_4(input.shape@);
        }
        let g = match self.plan(&input.shape) {
            Some(g) => g,
            None => {
                return Err(
                    BellandeError::InvalidShape(String::from_str("window does not fit the input")),
                );
            },
        };
        proof {
            assert(0 <= g.batch * g.channels) by (nonlinear_arith)
                requires
                    0 <= g.batch,
                    0 <= g.channels,
            ;
            assert(0 <= g.batch * g.channels * g.out_h) by (nonlinear_arith)
                requires
                    0 <= g.batch * g.channels,
                    0 <= g.out_h,
            ;
            lemma_out_extent_bound(g.height as int, g.kernel_h as int, g.stride_h as int);
            lemma_out_extent_bound(g.width as int, g.kernel_w as int, g.stride_w as int);
            lemma_product_grows(g.batch * g.channels, g.out_h as int);
            lemma_product_grows(g.batch * g.channels * g.out_h, g.out_w as int);
        }
        let total = g.batch * g.channels * g.out_h * g.out_w;
        proof {
            if total > 0 {
                lemma_product4_positive(
                    g.batch as int,
                    g.channels as int,
                    g.out_h as int,
                    g.out_w as int,
                );
            }
        }
        let mut output: Vec<T> = Vec::new();
        let mut cur = Cursor4::start();
        while output.len() < total
            invariant
                g.wf(),
                input.data@.len() == g.batch * g.channels * g.height * g.width,
                total == g.batch * g.channels * g.out_h * g.out_w,
                output@.len() <= total,
                total > 0 ==> cur.inside(g.channels as int, g.out_h as int, g.out_w as int),
                output@.len() == cur.position(g.channels as int, g.out_h as int, g.out_w as int),
                forall|b: int, c: int, h: int, w: int|
                    0 <= b && 0 <= c < g.channels && 0 <= h < g.out_h && 0 <= w < g.out_w
                        && g.output_at(b, c, h, w) < output@.len() ==> {
                        let at = #[trigger] g.output_at(b, c, h, w);
                        output@[at] == average_cell(input.data@, g, b, c, h, w)
                    },
            decreases total - output@.len(),
        {
            proof {
                lemma_flat4_leading(
                    cur.i as int,
                    cur.j as int,
                    cur.k as int,
                    cur.l as int,
                    g.batch as int,
                    g.channels as int,
                    g.out_h as int,
                    g.out_w as int,
                );
            }
            let cell = average_exec(&input.data, &g, cur.i, cur.j, cur.k, cur.l);
            let ghost before = output@;
            output.push(cell);
            assert forall|b: int, c: int, h: int, w: int|
                0 <= b && 0 <= c < g.channels && 0 <= h < g.out_h && 0 <= w < g.out_w
                    && g.output_at(b, c, h, w) < output@.len() implies {
                let at = #[trigger] g.output_at(b, c, h, w);
                output@[at] == average_cell(input.data@, g, b, c, h, w)
            } by {
                let at = g.output_at(b, c, h, w);
                if at < before.len() {
                    assert(output@[at] == before[at]);
                } else {
                    lemma_flat4_injective(
                        b,
                        c,
                        h,
                        w,
                        cur.i as int,
                        cur.j as int,
                        cur.k as int,
                        cur.l as int,
                        g.channels as int,
                        g.out_h as int,
                        g.out_w as int,
                    );
                }
            }
            cur.advance(g.channels, g.out_h, g.out_w);
        }
        assert forall|b: int, c: int, h: int, w: int|
            0 <= b < g.batch && 0 <= c < g.channels && 0 <= h < g.out_h && 0 <= w
                < g.out_w implies 0 <= #[trigger] g.output_at(b, c, h, w) < output@.len() by {
            lemma_flat4_bound(
                b,
                c,
                h,
                w,
                g.batch as int,
                g.channels as int,
                g.out_h as int,
                g.out_w as int,
            );
        }
        self.input_shape = Some(copy_shape(&input.shape));
        Ok(
            Tensor::new(
                output,
                shape4(g.batch, g.channels, g.out_h, g.out_w),
                input.requires_grad,
                input.device,
                input.dtype,
            ),
        )
    }

    /// Spreads the gradient of each output cell evenly over its window,
    /// adding where windows overlap. The result has the shape of the input
    /// that `forward` last saw.
    pub fn backward<T: Scalar>(&self, grad_output: &Tensor<T>) -> (r: Result<
        Tensor<T>,
        BellandeError,
    >)
        requires
            self.wf(),
            grad_output.wf(),
        ensures
            backward_result(*self, grad_output, r),
    {
        let shape = match &self.input_shape {
            Some(s) => s,
            None => {
                return Err(forward_not_called());
            },
        };
        let g = match self.plan(shape) {
            Some(g) => g,
            None => {
                return Err(forward_not_called());
            },
        };
        if grad_output.shape.len() != 4 || grad_output.shape[0] != g.batch || grad_output.shape[1]
            != g.channels || grad_output.shape[2] != g.out_h || grad_output.shape[3] != g.out_w {
            return Err(BellandeError::DimensionMismatch);
        }
        assert(grad_output.shape@ =~= seq![g.batch, g.channels, g.out_h, g.out_w]);
        proof {
            lemma_numel_4(grad_output.shape@);
            lemma_numel_4(shape@);
            assert(0 <= g.batch * g.channels) by (nonlinear_arith)
                requires
                    0 <= g.batch,
                    0 <= g.channels,
            ;
            assert(0 <= g.batch * g.channels * g.height) by (nonlinear_arith)
                requires
                    0 <= g.batch * g.channels,
                    0 <= g.height,
            ;
            lemma_product_grows(g.batch * g.channels, g.height as int);
            lemma_product_grows(g.batch * g.channels * g.height, g.width as int);
        }
        let total = g.batch * g.channels * g.height * g.width;
        proof {
            if total > 0 {
                lemma_product4_positive(
                    g.batch as int,
                    g.channels as int,
                    g.height as int,
                    g.width as int,
                );
            }
        }
        let mut grad_input: Vec<T> = Vec::new();
        let mut cur = Cursor4::start();
        while grad_input.len() < total
            invariant
                g.wf(),
                grad_output.data@.len() == g.batch * g.channels * g.out_h * g.out_w,
                total == g.batch * g.channels * g.height * g.width,
                grad_input@.len() <= total,
                total > 0 ==> cur.inside(g.channels as int, g.height as int, g.width as int),
                grad_input@.len() == cur.position(
                    g.channels as int,
                    g.height as int,
                    g.width as int,
                ),
                forall|b: int, c: int, h: int, w: int|
                    0 <= b && 0 <= c < g.channels && 0 <= h < g.height && 0 <= w < g.width
                        && g.input_at(b, c, h, w) < grad_input@.len() ==> {
                        let at = #[trigger] g.input_at(b, c, h, w);
                        grad_input@[at] == share_sum(
                            grad_output.data@,
                            g,
                            b,
                            c,
                            h,
                            w,
                            g.out_h as nat,
                        )
                    },
            decreases total - grad_input@.len(),
        {
            proof {
                lemma_flat4_leading(
                    cur.i as int,
                    cur.j as int,
                    cur.k as int,
                    cur.l as int,
                    g.batch as int,
                    g.channels as int,
                    g.height as int,
                    g.width as int,
                );
            }
            let cell = share_exec(&grad_output.data, &g, cur.i, cur.j, cur.k, cur.l);
            let ghost before = grad_input@;
            grad_input.push(cell);
            assert forall|b: int, c: int, h: int, w: int|
                0 <= b && 0 <= c < g.channels && 0 <= h < g.height && 0 <= w < g.width
                    && g.input_at(b, c, h, w) < grad_input@.len() implies {
                let at = #[trigger] g.input_at(b, c, h, w);
                grad_input@[at] == share_sum(grad_output.data@, g, b, c, h, w, g.out_h as nat)
            } by {
                let at = g.input_at(b, c, h, w);
                if at < before.len() {
                    assert(grad_input@[at] == before[at]);
                } else {
                    lemma_flat4_injective(
                        b,
                        c,
                        h,
                        w,
                        cur.i as int,
                        cur.j as int,
                        cur.k as int,
                        cur.l as int,
                        g.channels as int,
                        g.height as int,
                        g.width as int,
                    );
                }
            }
            cur.advance(g.channels, g.height, g.width);
        }
        assert forall|b: int, c: int, h: int, w: int|
            0 <= b < g.batch && 0 <= c < g.channels && 0 <= h < g.height && 0 <= w
                < g.width implies 0 <= #[trigger] g.input_at(b, c, h, w) < grad_input@.len() by {
            lemma_flat4_bound(
                b,
                c,
                h,
                w,
                g.batch as int,
                g.channels as int,
                g.height as int,
                g.width as int,
            );
        }
        Ok(
            Tensor::new(
                grad_input,
                copy_shape(shape),
                true,
                grad_output.device,
                grad_output.dtype,
            ),
        )
    }
}

} // verus!
