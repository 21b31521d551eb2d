//! Two-dimensional convolution with stride and zero padding, and its
//! gradients with respect to input, weight and bias.

use vstd::prelude::*;
use vstd::string::*;
use crate::device::Device;
use crate::dtype::DataType;
use crate::error::{forward_not_called, not_called, BellandeError};
use crate::kernels::lemma_len_fits;
use crate::layer::window::{lemma_window_fits, out_extent, window_count, window_valid};
use crate::scalar::{RandomSource, Scalar};
use crate::shape::{
    copy_shape, flat4, index4, is_shape1, is_shape4, lemma_flat4_bound, lemma_flat4_injective, lemma_flat4_leading,
    lemma_numel_1, lemma_numel_4, lemma_product4_positive, numel, shape1, shape4, Cursor4,
};
use crate::tensor::Tensor;

verus! {

/// The extents that one application of a convolution works with.
#[derive(Clone, Copy, Debug)]
pub struct ConvGeometry {
    pub batch: usize,
    pub in_channels: usize,
    pub out_channels: usize,
    pub height: usize,
    pub width: usize,
    pub kernel_h: usize,
    pub kernel_w: usize,
    pub stride_h: usize,
    pub stride_w: usize,
    pub pad_h: usize,
    pub pad_w: usize,
    pub out_h: usize,
    pub out_w: usize,
}

impl ConvGeometry {
    pub open spec fn input_len(self) -> int {
        self.batch * self.in_channels * self.height * self.width
    }

    pub open spec fn weight_len(self) -> int {
        self.out_channels * self.in_channels * self.kernel_h * self.kernel_w
    }

    pub open spec fn output_len(self) -> int {
        self.batch * self.out_channels * self.out_h * self.out_w
    }

    /// The output extents are those of the windows, and every buffer can be
    /// addressed.
    pub open spec fn wf(self) -> bool {
        &&& window_valid(
            self.height as int,
            self.kernel_h as int,
            self.stride_h as int,
            self.pad_h as int,
        )
        &&& window_valid(
            self.width as int,
            self.kernel_w as int,
            self.stride_w as int,
            self.pad_w as int,
        )
        &&& self.out_h == out_extent(
            self.height as int,
            self.kernel_h as int,
            self.stride_h as int,
            self.pad_h as int,
        )
        &&& self.out_w == out_extent(
            self.width as int,
            self.kernel_w as int,
            self.stride_w as int,
            self.pad_w as int,
        )
        &&& self.height + 2 * self.pad_h < usize::MAX
        &&& self.width + 2 * self.pad_w < usize::MAX
        &&& self.input_len() <= usize::MAX
        &&& self.weight_len() <= usize::MAX
        &&& self.output_len() <= usize::MAX
    }

    /// Row of the input under kernel row `kh` of the window of output row
    /// `oh`; negative or beyond the height inside the padding.
    pub open spec fn in_row(self, oh: int, kh: int) -> int {
        oh * self.stride_h - self.pad_h + kh
    }

    /// Column of the input under kernel column `kw` of the window of output
    /// column `ow`.
    pub open spec fn in_col(self, ow: int, kw: int) -> int {
        ow * self.stride_w - self.pad_w + kw
    }

    pub open spec fn input_at(self, b: int, ic: int, h: int, w: int) -> int {
        flat4(b, ic, h, w, self.in_channels as int, self.height as int, self.width as int)
    }

    pub open spec fn weight_at(self, oc: int, ic: int, kh: int, kw: int) -> int {
        flat4(oc, ic, kh, kw, self.in_channels as int, self.kernel_h as int, self.kernel_w as int)
    }

    pub open spec fn output_at(self, b: int, oc: int, oh: int, ow: int) -> int {
        flat4(b, oc, oh, ow, self.out_channels as int, self.out_h as int, self.out_w as int)
    }
}

/// Adds to `acc` the first `n` products of one kernel row with the input
/// row under it, skipping columns that fall into the padding.
pub open spec fn conv_row<T: Scalar>(
    acc: T,
    x: Seq<T>,
    w: Seq<T>,
    g: ConvGeometry,
    b: int,
    oc: int,
    ic: int,
    oh: int,
    ow: int,
    kh: int,
    n: nat,
) -> T
    decreases n,
{
    if n == 0 {
        acc
    } else {
        let prev = conv_row(acc, x, w, g, b, oc, ic, oh, ow, kh, (n - 1) as nat);
        let kw = n - 1;
        if 0 <= g.in_col(ow, kw) < g.width {
            prev.plus_spec(
                x[g.input_at(b, ic, g.in_row(oh, kh), g.in_col(ow, kw))].times_spec(
                    w[g.weight_at(oc, ic, kh, kw)],
                ),
            )
        } else {
            prev
        }
    }
}

/// Adds to `acc` the contributions of the first `n` kernel rows of one
/// input channel, skipping rows that fall into the padding.
pub open spec fn conv_plane<T: Scalar>(
    acc: T,
    x: Seq<T>,
    w: Seq<T>,
    g: ConvGeometry,
    b: int,
    oc: int,
    ic: int,
    oh: int,
    ow: int,
    n: nat,
) -> T
    decreases n,
{
    if n == 0 {
        acc
    } else {
        let prev = conv_plane(acc, x, w, g, b, oc, ic, oh, ow, (n - 1) as nat);
        let kh = n - 1;
        if 0 <= g.in_row(oh, kh) < g.height {
            conv_row(prev, x, w, g, b, oc, ic, oh, ow, kh, g.kernel_w as nat)
        } else {
            prev
        }
    }
}

/// The contributions of the first `n` input channels to output cell
/// `(b, oc, oh, ow)`, accumulated from zero: channel by channel, kernel row
/// by kernel row, kernel column by kernel column.
pub open spec fn conv_sum<T: Scalar>(
    x: Seq<T>,
    w: Seq<T>,
    g: ConvGeometry,
    b: int,
    oc: int,
    oh: int,
    ow: int,
    n: nat,
) -> T
    decreases n,
{
    if n == 0 {
        T::zero_spec()
    } else {
        conv_plane(
            conv_sum(x, w, g, b, oc, oh, ow, (n - 1) as nat),
            x,
            w,
            g,
            b,
            oc,
            n - 1,
            oh,
            ow,
            g.kernel_h as nat,
        )
    }
}

/// Output cell `(b, oc, oh, ow)` of the convolution: the accumulated
/// products over all input channels and the kernel window, then the bias of
/// the output channel added.
pub open spec fn conv_cell<T: Scalar>(
    x: Seq<T>,
    w: Seq<T>,
    bias: Option<Seq<T>>,
    g: ConvGeometry,
    b: int,
    oc: int,
    oh: int,
    ow: int,
) -> T {
    let s = conv_sum(x, w, g, b, oc, oh, ow, g.in_channels as nat);
    match bias {
        Some(bs) => s.plus_spec(bs[oc]),
        None => s,
    }
}

fn forward_cell<T: Scalar>(
    x: &Vec<T>,
    w: &Vec<T>,
    g: &ConvGeometry,
    b: usize,
    oc: usize,
    oh: usize,
    ow: usize,
) -> (r: T)
    requires
        g.wf(),
        x@.len() == g.input_len(),
        w@.len() == g.weight_len(),
        b < g.batch,
        oc < g.out_channels,
        oh < g.out_h,
        ow < g.out_w,
    ensures
        r == conv_sum(x@, w@, *g, b as int, oc as int, oh as int, ow as int, g.in_channels as nat),
{
    proof {
        lemma_window_fits(
            g.height as int,
            g.kernel_h as int,
            g.stride_h as int,
            g.pad_h as int,
            oh as int,
        );
        lemma_window_fits(
            g.width as int,
            g.kernel_w as int,
            g.stride_w as int,
            g.pad_w as int,
            ow as int,
        );
    }
    let top = oh * g.stride_h;
    let left = ow * g.stride_w;
    let mut sum = T::zero();
    let mut ic: usize = 0;
    while ic < g.in_channels
        invariant
            ic <= g.in_channels,
            g.wf(),
            x@.len() == g.input_len(),
            w@.len() == g.weight_len(),
            b < g.batch,
            oc < g.out_channels,
            top == oh * g.stride_h,
            left == ow * g.stride_w,
            top + g.kernel_h <= g.height + 2 * g.pad_h,
            left + g.kernel_w <= g.width + 2 * g.pad_w,
            sum == conv_sum(x@, w@, *g, b as int, oc as int, oh as int, ow as int, ic as nat),
        decreases g.in_channels - ic,
    {
        let mut kh: usize = 0;
        let ghost plane_start = sum;
        while kh < g.kernel_h
            invariant
                ic < g.in_channels,
                kh <= g.kernel_h,
                g.wf(),
                x@.len() == g.input_len(),
                w@.len() == g.weight_len(),
                b < g.batch,
                oc < g.out_channels,
                top == oh * g.stride_h,
                left == ow * g.stride_w,
                top + g.kernel_h <= g.height + 2 * g.pad_h,
                left + g.kernel_w <= g.width + 2 * g.pad_w,
                sum == conv_plane(
                    plane_start,
                    x@,
                    w@,
                    *g,
                    b as int,
                    oc as int,
                    ic as int,
                    oh as int,
                    ow as int,
                    kh as nat,
                ),
            decreases g.kernel_h - kh,
        {
            let pos_h = top + kh;
            if pos_h >= g.pad_h && pos_h - g.pad_h < g.height {
                let in_h = pos_h - g.pad_h;
                let ghost row_start = sum;
                let mut kw: usize = 0;
                while kw < g.kernel_w
                    invariant
                        ic < g.in_channels,
                        kh < g.kernel_h,
                        kw <= g.kernel_w,
                        g.wf(),
                        x@.len() == g.input_len(),
                        w@.len() == g.weight_len(),
                        b < g.batch,
                        oc < g.out_channels,
                        left == ow * g.stride_w,
                        left + g.kernel_w <= g.width + 2 * g.pad_w,
                        in_h < g.height,
                        in_h == g.in_row(oh as int, kh as int),
                        sum == conv_row(
                            row_start,
                            x@,
                            w@,
                            *g,
                            b as int,
                            oc as int,
                            ic as int,
                            oh as int,
                            ow as int,
                            kh as int,
                            kw as nat,
                        ),
                    decreases g.kernel_w - kw,
                {
                    let pos_w = left + kw;
                    if pos_w >= g.pad_w && pos_w - g.pad_w < g.width {
                        let in_w = pos_w - g.pad_w;
                        proof {
                            lemma_flat4_bound(
                                b as int,
                                ic as int,
                                in_h as int,
                                in_w as int,
                                g.batch as int,
                                g.in_channels as int,
                                g.height as int,
                                g.width as int,
                            );
                            lemma_flat4_bound(
                                oc as int,
                                ic as int,
                                kh as int,
                                kw as int,
                                g.out_channels as int,
                                g.in_channels as int,
                                g.kernel_h as int,
                                g.kernel_w as int,
                            );
                        }
                        let xi = index4(b, ic, in_h, in_w, g.in_channels, g.height, g.width);
                        let wi = index4(oc, ic, kh, kw, g.in_channels, g.kernel_h, g.kernel_w);
                        sum = sum.plus(x[xi].times(w[wi]));
                    }
                    kw = kw + 1;
                }
            }
            kh = kh + 1;
        }
        ic = ic + 1;
    }
    sum
}

/// Adds to `acc` the first `n` gradients of one output row.
pub open spec fn bias_grad_row<T: Scalar>(
    acc: T,
    g: Seq<T>,
    geo: ConvGeometry,
    b: int,
    oc: int,
    oh: int,
    n: nat,
) -> T
    decreases n,
{
    if n == 0 {
        acc
    } else {
        bias_grad_row(acc, g, geo, b, oc, oh, (n - 1) as nat).plus_spec(
            g[geo.output_at(b, oc, oh, n - 1)],
        )
    }
}

/// Adds to `acc` the gradients of the first `n` output rows of one sample.
pub open spec fn bias_grad_plane<T: Scalar>(
    acc: T,
    g: Seq<T>,
    geo: ConvGeometry,
    b: int,
    oc: int,
    n: nat,
) -> T
    decreases n,
{
    if n == 0 {
        acc
    } else {
        bias_grad_row(
            bias_grad_plane(acc, g, geo, b, oc, (n - 1) as nat),
            g,
            geo,
            b,
            oc,
            n - 1,
            geo.out_w as nat,
        )
    }
}

/// Gradient with respect to the bias of output channel `oc`, over the
/// first `n` samples: the output gradients of that channel accumulated from
/// zero, sample by sample, row by row, column by column.
pub open spec fn bias_grad<T: Scalar>(g: Seq<T>, geo: ConvGeometry, oc: int, n: nat) -> T
    decreases n,
{
    if n == 0 {
        T::zero_spec()
    } else {
        bias_grad_plane(
            bias_grad(g, geo, oc, (n - 1) as nat),
            g,
            geo,
            n - 1,
            oc,
            geo.out_h as nat,
        )
    }
}

/// Adds to `acc`, for the first `n` columns of output row `oh`, the output
/// gradient times the input element under kernel position `(kh, kw)`,
/// skipping columns whose input falls into the padding.
pub open spec fn weight_grad_row<T: Scalar>(
    acc: T,
    g: Seq<T>,
    x: Seq<T>,
    geo: ConvGeometry,
    b: int,
    oc: int,
    ic: int,
    kh: int,
    kw: int,
    oh: int,
    n: nat,
) -> T
    decreases n,
{
    if n == 0 {
        acc
    } else {
        let prev = weight_grad_row(acc, g, x, geo, b, oc, ic, kh, kw, oh, (n - 1) as nat);
        let ow = n - 1;
        if 0 <= geo.in_col(ow, kw) < geo.width {
            prev.plus_spec(
                g[geo.output_at(b, oc, oh, ow)].times_spec(
                    x[geo.input_at(b, ic, geo.in_row(oh, kh), geo.in_col(ow, kw))],
                ),
            )
        } else {
            prev
        }
    }
}

/// Adds to `acc` the contributions of the first `n` output rows of one
/// sample, skipping rows whose input falls into the padding.
pub open spec fn weight_grad_plane<T: Scalar>(
    acc: T,
    g: Seq<T>,
    x: Seq<T>,
    geo: ConvGeometry,
    b: int,
    oc: int,
    ic: int,
    kh: int,
    kw: int,
    n: nat,
) -> T
    decreases n,
{
    if n == 0 {
        acc
    } else {
        let prev = weight_grad_plane(acc, g, x, geo, b, oc, ic, kh, kw, (n - 1) as nat);
        let oh = n - 1;
        if 0 <= geo.in_row(oh, kh) < geo.height {
            weight_grad_row(prev, g, x, geo, b, oc, ic, kh, kw, oh, geo.out_w as nat)
        } else {
            prev
        }
    }
}

/// Gradient with respect to weight element `(oc, ic, kh, kw)`, over the
/// first `n` samples: the correlation of the cached input with the output
/// gradient, accumulated from zero, sample by sample, output row by output
/// row, output column by output column.
pub open spec fn weight_grad<T: Scalar>(
    g: Seq<T>,
    x: Seq<T>,
    geo: ConvGeometry,
    oc: int,
    ic: int,
    kh: int,
    kw: int,
    n: nat,
) -> T
    decreases n,
{
    if n == 0 {
        T::zero_spec()
    } else {
        weight_grad_plane(
            weight_grad(g, x, geo, oc, ic, kh, kw, (n - 1) as nat),
            g,
            x,
            geo,
            n - 1,
            oc,
            ic,
            kh,
            kw,
            geo.out_h as nat,
        )
    }
}

/// Whether input coordinate `at`, seen through kernel offset `k`, is the
/// place of a window along an axis: the window's start is a whole number of
/// strides and the window exists.
pub open spec fn covers(at: int, pad: int, k: int, stride: int, count: int) -> bool {
    at + pad - k >= 0 && (at + pad - k) % stride == 0 && (at + pad - k) / stride < count
}

/// The window that `covers` speaks of.
pub open spec fn cover_of(at: int, pad: int, k: int, stride: int) -> int {
    (at + pad - k) / stride
}

/// Adds to `acc`, for the first `n` kernel columns of kernel row `kh`, the
/// weight times the gradient of the output cell that saw input `(h, w)`
/// through that kernel position, where there is such a cell.
pub open spec fn input_grad_row<T: Scalar>(
    acc: T,
    g: Seq<T>,
    w: Seq<T>,
    geo: ConvGeometry,
    b: int,
    ic: int,
    h: int,
    col: int,
    oc: int,
    kh: int,
    n: nat,
) -> T
    decreases n,
{
    if n == 0 {
        acc
    } else {
        let prev = input_grad_row(acc, g, w, geo, b, ic, h, col, oc, kh, (n - 1) as nat);
        let kw = n - 1;
        if covers(col, geo.pad_w as int, kw, geo.stride_w as int, geo.out_w as int) {
            prev.plus_spec(
                g[geo.output_at(
                    b,
                    oc,
                    cover_of(h, geo.pad_h as int, kh, geo.stride_h as int),
                    cover_of(col, geo.pad_w as int, kw, geo.stride_w as int),
                )].times_spec(w[geo.weight_at(oc, ic, kh, kw)]),
            )
        } else {
            prev
        }
    }
}

/// Adds to `acc` the contributions of the first `n` kernel rows of one
/// output channel.
pub open spec fn input_grad_plane<T: Scalar>(
    acc: T,
    g: Seq<T>,
    w: Seq<T>,
    geo: ConvGeometry,
    b: int,
    ic: int,
    h: int,
    col: int,
    oc: int,
    n: nat,
) -> T
    decreases n,
{
    if n == 0 {
        acc
    } else {
        let prev = input_grad_plane(acc, g, w, geo, b, ic, h, col, oc, (n - 1) as nat);
        let kh = n - 1;
        if covers(h, geo.pad_h as int, kh, geo.stride_h as int, geo.out_h as int) {
            input_grad_row(prev, g, w, geo, b, ic, h, col, oc, kh, geo.kernel_w as nat)
        } else {
            prev
        }
    }
}

/// Gradient with respect to input element `(b, ic, h, col)`, over the
/// first `n` output channels: every output cell whose window covers the
/// element contributes its gradient times the weight it applied to the
/// element, accumulated from zero, output channel by output channel,
/// kernel row by kernel row, kernel column by kernel column.
pub open spec fn input_grad<T: Scalar>(
    g: Seq<T>,
    w: Seq<T>,
    geo: ConvGeometry,
    b: int,
    ic: int,
    h: int,
    col: int,
    n: nat,
) -> T
    decreases n,
{
    if n == 0 {
        T::zero_spec()
    } else {
        input_grad_plane(
            input_grad(g, w, geo, b, ic, h, col, (n - 1) as nat),
            g,
            w,
            geo,
            b,
            ic,
            h,
            col,
            n - 1,
            geo.kernel_h as nat,
        )
    }
}

fn bias_grad_cell<T: Scalar>(g: &Vec<T>, geo: &ConvGeometry, oc: usize) -> (r: T)
    requires
        geo.wf(),
        g@.len() == geo.output_len(),
        oc < geo.out_channels,
    ensures
        r == bias_grad(g@, *geo, oc as int, geo.batch as nat),
{
    let mut sum = T::zero();
    let mut b: usize = 0;
    while b < geo.batch
        invariant
            b <= geo.batch,
            geo.wf(),
            g@.len() == geo.output_len(),
            oc < geo.out_channels,
            sum == bias_grad(g@, *geo, oc as int, b as nat),
        decreases geo.batch - b,
    {
        let ghost plane_start = sum;
        let mut oh: usize = 0;
        while oh < geo.out_h
            invariant
                b < geo.batch,
                oh <= geo.out_h,
                geo.wf(),
                g@.len() == geo.output_len(),
                oc < geo.out_channels,
                sum == bias_grad_plane(plane_start, g@, *geo, b as int, oc as int, oh as nat),
            decreases geo.out_h - oh,
        {
            let ghost row_start = sum;
            let mut ow: usize = 0;
            while ow < geo.out_w
                invariant
                    b < geo.batch,
                    oh < geo.out_h,
                    ow <= geo.out_w,
                    geo.wf(),
                    g@.len() == geo.output_len(),
                    oc < geo.out_channels,
                    sum == bias_grad_row(
                        row_start,
                        g@,
                        *geo,
                        b as int,
                        oc as int,
                        oh as int,
                        ow as nat,
                    ),
                decreases geo.out_w - ow,
            {
                proof {
                    lemma_flat4_bound(
                        b as int,
                        oc as int,
                        oh as int,
                        ow as int,
                        geo.batch as int,
                        geo.out_channels as int,
                        geo.out_h as int,
                        geo.out_w as int,
                    );
                }
                let gi = index4(b, oc, oh, ow, geo.out_channels, geo.out_h, geo.out_w);
                sum = sum.plus(g[gi]);
                ow = ow + 1;
            }
            oh = oh + 1;
        }
        b = b + 1;
    }
    sum
}

fn weight_grad_cell<T: Scalar>(
    g: &Vec<T>,
    x: &Vec<T>,
    geo: &ConvGeometry,
    oc: usize,
    ic: usize,
    kh: usize,
    kw: usize,
) -> (r: T)
    requires
        geo.wf(),
        g@.len() == geo.output_len(),
        x@.len() == geo.input_len(),
        oc < geo.out_channels,
        ic < geo.in_channels,
        kh < geo.kernel_h,
        kw < geo.kernel_w,
    ensures
        r == weight_grad(
            g@,
            x@,
            *geo,
            oc as int,
            ic as int,
            kh as int,
            kw as int,
            geo.batch as nat,
        ),
{
    let mut sum = T::zero();
    let mut b: usize = 0;
    while b < geo.batch
        invariant
            b <= geo.batch,
            geo.wf(),
            g@.len() == geo.output_len(),
            x@.len() == geo.input_len(),
            oc < geo.out_channels,
            ic < geo.in_channels,
            kh < geo.kernel_h,
            kw < geo.kernel_w,
            sum == weight_grad(g@, x@, *geo, oc as int, ic as int, kh as int, kw as int, b as nat),
        decreases geo.batch - b,
    {
        let ghost plane_start = sum;
        let mut oh: usize = 0;
        while oh < geo.out_h
            invariant
                b < geo.batch,
                oh <= geo.out_h,
                geo.wf(),
                g@.len() == geo.output_len(),
                x@.len() == geo.input_len(),
                oc < geo.out_channels,
                ic < geo.in_channels,
                kh < geo.kernel_h,
                kw < geo.kernel_w,
                sum == weight_grad_plane(
                    plane_start,
                    g@,
                    x@,
                    *geo,
                    b as int,
                    oc as int,
                    ic as int,
                    kh as int,
                    kw as int,
                    oh as nat,
                ),
            decreases geo.out_h - oh,
        {
            proof {
                lemma_window_fits(
                    geo.height as int,
                    geo.kernel_h as int,
                    geo.stride_h as int,
                    geo.pad_h as int,
                    oh as int,
                );
            }
            let pos_h = oh * geo.stride_h + kh;
            if pos_h >= geo.pad_h && pos_h - geo.pad_h < geo.height {
                let in_h = pos_h - geo.pad_h;
                let ghost row_start = sum;
                let mut ow: usize = 0;
                while ow < geo.out_w
                    invariant
                        b < geo.batch,
                        oh < geo.out_h,
                        ow <= geo.out_w,
                        geo.wf(),
                        g@.len() == geo.output_len(),
                        x@.len() == geo.input_len(),
                        oc < geo.out_channels,
                        ic < geo.in_channels,
                        kh < geo.kernel_h,
                        kw < geo.kernel_w,
                        in_h < geo.height,
                        in_h == geo.in_row(oh as int, kh as int),
                        sum == weight_grad_row(
                            row_start,
                            g@,
                            x@,
                            *geo,
                            b as int,
                            oc as int,
                            ic as int,
                            kh as int,
                            kw as int,
                            oh as int,
                            ow as nat,
                        ),
                    decreases geo.out_w - ow,
                {
                    proof {
                        lemma_window_fits(
                            geo.width as int,
                            geo.kernel_w as int,
                            geo.stride_w as int,
                            geo.pad_w as int,
                            ow as int,
                        );
                    }
                    let pos_w = ow * geo.stride_w + kw;
                    if pos_w >= geo.pad_w && pos_w - geo.pad_w < geo.width {
                        let in_w = pos_w - geo.pad_w;
                        proof {
                            lemma_flat4_bound(
                                b as int,
                                oc as int,
                                oh as int,
                                ow as int,
                                geo.batch as int,
                                geo.out_channels as int,
                                geo.out_h as int,
                                geo.out_w as int,
                            );
                            lemma_flat4_bound(
                                b as int,
                                ic as int,
                                in_h as int,
                                in_w as int,
                                geo.batch as int,
                                geo.in_channels as int,
                                geo.height as int,
                                geo.width as int,
                            );
                        }
                        let gi = index4(b, oc, oh, ow, geo.out_channels, geo.out_h, geo.out_w);
                        let xi = index4(b, ic, in_h, in_w, geo.in_channels, geo.height, geo.width);
                        sum = sum.plus(g[gi].times(x[xi]));
                    }
                    ow = ow + 1;
                }
            }
            oh = oh + 1;
        }
        b = b + 1;
    }
    sum
}

/// The window along one axis that sees input coordinate `at` through
/// kernel offset `k`, if there is one.
fn cover(at: usize, pad: usize, k: usize, stride: usize, count: usize) -> (r: Option<usize>)
    requires
        stride > 0,
        at + pad < usize::MAX,
    ensures
        r is Some <==> covers(at as int, pad as int, k as int, stride as int, count as int),
        r matches Some(o) ==> o == cover_of(at as int, pad as int, k as int, stride as int) && o
            < count,
{
    let shifted = at + pad;
    if shifted < k {
        return None;
    }
    let span = shifted - k;
    if span % stride != 0 {
        return None;
    }
    let o = span / stride;
    if o < count {
        Some(o)
    } else {
        None
    }
}

fn input_grad_cell<T: Scalar>(
    g: &Vec<T>,
    w: &Vec<T>,
    geo: &ConvGeometry,
    b: usize,
    ic: usize,
    h: usize,
    col: usize,
) -> (r: T)
    requires
        geo.wf(),
        g@.len() == geo.output_len(),
        w@.len() == geo.weight_len(),
        b < geo.batch,
        ic < geo.in_channels,
        h < geo.height,
        col < geo.width,
    ensures
        r == input_grad(
            g@,
            w@,
            *geo,
            b as int,
            ic as int,
            h as int,
            col as int,
            geo.out_channels as nat,
        ),
{
    let mut sum = T::zero();
    let mut oc: usize = 0;
    while oc < geo.out_channels
        invariant
            oc <= geo.out_channels,
            geo.wf(),
            g@.len() == geo.output_len(),
            w@.len() == geo.weight_len(),
            b < geo.batch,
            ic < geo.in_channels,
            h < geo.height,
            col < geo.width,
            sum == input_grad(g@, w@, *geo, b as int, ic as int, h as int, col as int, oc as nat),
        decreases geo.out_channels - oc,
    {
        let ghost plane_start = sum;
        let mut kh: usize = 0;
        while kh < geo.kernel_h
            invariant
                oc < geo.out_channels,
                kh <= geo.kernel_h,
                geo.wf(),
                g@.len() == geo.output_len(),
                w@.len() == geo.weight_len(),
                b < geo.batch,
                ic < geo.in_channels,
                h < geo.height,
                col < geo.width,
                sum == input_grad_plane(
                    plane_start,
                    g@,
                    w@,
                    *geo,
                    b as int,
                    ic as int,
                    h as int,
                    col as int,
                    oc as int,
                    kh as nat,
                ),
            decreases geo.kernel_h - kh,
        {
            match cover(h, geo.pad_h, kh, geo.stride_h, geo.out_h) {
                Some(oh) => {
                    let ghost row_start = sum;
                    let mut kw: usize = 0;
                    while kw < geo.kernel_w
                        invariant
                            oc < geo.out_channels,
                            kh < geo.kernel_h,
                            kw <= geo.kernel_w,
                            geo.wf(),
                            g@.len() == geo.output_len(),
                            w@.len() == geo.weight_len(),
                            b < geo.batch,
                            ic < geo.in_channels,
                            h < geo.height,
                            col < geo.width,
                            oh < geo.out_h,
                            oh == cover_of(
                                h as int,
                                geo.pad_h as int,
                                kh as int,
                                geo.stride_h as int,
                            ),
                            sum == input_grad_row(
                                row_start,
                                g@,
                                w@,
                                *geo,
                                b as int,
                                ic as int,
                                h as int,
                                col as int,
                                oc as int,
                                kh as int,
                                kw as nat,
                            ),
                        decreases geo.kernel_w - kw,
                    {
                        match cover(col, geo.pad_w, kw, geo.stride_w, geo.out_w) {
                            Some(ow) => {
                                proof {
                                    lemma_flat4_bound(
                                        b as int,
                                        oc as int,
                                        oh as int,
                                        ow as int,
                                        geo.batch as int,
                                        geo.out_channels as int,
                                        geo.out_h as int,
                                        geo.out_w as int,
                                    );
                                    lemma_flat4_bound(
                                        oc as int,
                                        ic as int,
                                        kh as int,
                                        kw as int,
                                        geo.out_channels as int,
                                        geo.in_channels as int,
                                        geo.kernel_h as int,
                                        geo.kernel_w as int,
                                    );
                                }
                                let gi = index4(
                                    b,
                                    oc,
                                    oh,
                                    ow,
                                    geo.out_channels,
                                    geo.out_h,
                                    geo.out_w,
                                );
                                let wi = index4(
                                    oc,
                                    ic,
                                    kh,
                                    kw,
                                    geo.in_channels,
                                    geo.kernel_h,
                                    geo.kernel_w,
                                );
                                sum = sum.plus(g[gi].times(w[wi]));
                            },
                            None => {},
                        }
                        kw = kw + 1;
                    }
                },
                None => {},
            }
            kh = kh + 1;
        }
        oc = oc + 1;
    }
    sum
}

/// A two-dimensional convolution with weights stored as
/// `(out_channels, in_channels, kernel_h, kernel_w)`.
pub struct Conv2d<T> {
    pub in_channels: usize,
    pub out_channels: usize,
    pub kernel_size: (usize, usize),
    pub stride: (usize, usize),
    pub padding: (usize, usize),
    pub weight: Tensor<T>,
    pub bias: Option<Tensor<T>>,
    pub input_cache: Option<Tensor<T>>,
}

/// What `forward` returns for `input` and how it changes the layer.
pub open spec fn forward_result<T: Scalar>(
    before: Conv2d<T>,
    after: Conv2d<T>,
    input: &Tensor<T>,
    r: Result<Tensor<T>, BellandeError>,
) -> bool {
    &&& after.wf()
    &&& after.in_channels == before.in_channels
    &&& after.out_channels == before.out_channels
    &&& after.kernel_size == before.kernel_size
    &&& after.stride == before.stride
    &&& after.padding == before.padding
    &&& after.weight == before.weight
    &&& after.bias == before.bias
    &&& match r {
        Ok(t) => {
            let g = before.geometry(input.shape@);
            &&& before.accepts(input.shape@)
            &&& t.wf()
            &&& t.shape@ == seq![g.batch, g.out_channels, g.out_h, g.out_w]
            &&& t.data@.len() == g.output_len()
            &&& forall|b: int, oc: int, oh: int, ow: int|
                0 <= b < g.batch && 0 <= oc < g.out_channels && 0 <= oh < g.out_h && 0
                    <= ow < g.out_w ==> {
                    let at = #[trigger] g.output_at(b, oc, oh, ow);
                    &&& 0 <= at < t.data@.len()
                    &&& t.data@[at] == conv_cell(
                        input.data@,
                        before.weight.data@,
                        before.bias_values(),
                        g,
                        b,
                        oc,
                        oh,
                        ow,
                    )
                }
            &&& t.requires_grad
            &&& t.grad_fn is None
            &&& t.device == input.device
            &&& t.dtype == input.dtype
            &&& after.input_cache is Some
            &&& after.input_cache->0.data@ == input.data@
            &&& after.input_cache->0.shape@ == input.shape@
        },
        Err(BellandeError::InvalidShape(_)) => (input.rank() != 4 || (input.shape@[1]
            == before.in_channels && !before.accepts(input.shape@))) && after.input_cache == before.input_cache,
        Err(BellandeError::DimensionMismatch) => input.rank() == 4 && input.shape@[1]
            != before.in_channels && after.input_cache == before.input_cache,
        Err(_) => false,
    }
}

/// What `backward` returns for `grad_output`.
pub open spec fn backward_result<T: Scalar>(
    layer: Conv2d<T>,
    grad_output: &Tensor<T>,
    r: Result<(Tensor<T>, Tensor<T>, Option<Tensor<T>>), BellandeError>,
) -> bool {
    &&& match r {
        Ok(grads) => {
            let x = layer.input_cache->0;
            let geo = layer.geometry(x.shape@);
            let g = grad_output.data@;
            &&& layer.input_cache is Some
            &&& layer.matches_cache(grad_output)
            &&& grads.0.wf()
            &&& grads.0.shape@ == x.shape@
            &&& grads.0.requires_grad
            &&& forall|b: int, ic: int, h: int, w: int|
                0 <= b < geo.batch && 0 <= ic < geo.in_channels && 0 <= h < geo.height
                    && 0 <= w < geo.width ==> {
                    let at = #[trigger] geo.input_at(b, ic, h, w);
                    &&& 0 <= at < grads.0.data@.len()
                    &&& grads.0.data@[at] == input_grad(
                        g,
                        layer.weight.data@,
                        geo,
                        b,
                        ic,
                        h,
                        w,
                        geo.out_channels as nat,
                    )
                }
            &&& grads.1.wf()
            &&& grads.1.shape@ == layer.weight.shape@
            &&& grads.1.requires_grad
            &&& forall|oc: int, ic: int, kh: int, kw: int|
                0 <= oc < geo.out_channels && 0 <= ic < geo.in_channels && 0 <= kh
                    < geo.kernel_h && 0 <= kw < geo.kernel_w ==> {
                    let at = #[trigger] geo.weight_at(oc, ic, kh, kw);
                    &&& 0 <= at < grads.1.data@.len()
                    &&& grads.1.data@[at] == weight_grad(
                        g,
                        x.data@,
                        geo,
                        oc,
                        ic,
                        kh,
                        kw,
                        geo.batch as nat,
                    )
                }
            &&& grads.2 is Some == layer.bias is Some
            &&& grads.2 matches Some(gb) ==> {
                &&& gb.wf()
                &&& gb.shape@ == seq![layer.out_channels]
                &&& gb.requires_grad
                &&& gb.data@.len() == layer.out_channels
                &&& forall|oc: int|
                    0 <= oc < layer.out_channels ==> #[trigger] gb.data@[oc] == bias_grad(
                        g,
                        geo,
                        oc,
                        geo.batch as nat,
                    )
            }
        },
        Err(BellandeError::RuntimeError(m)) => layer.input_cache is None && m@
            == not_called(),
        Err(BellandeError::DimensionMismatch) => layer.input_cache is Some
            && !layer.matches_cache(grad_output),
        Err(_) => false,
    }
}

impl<T: Scalar> Conv2d<T> {
    pub open spec fn wf(&self) -> bool {
        &&& self.weight.wf()
        &&& self.weight.shape@ == seq![
            self.out_channels,
            self.in_channels,
            self.kernel_size.0,
            self.kernel_size.1,
        ]
        &&& self.weight.data@.len() == self.out_channels * self.in_channels * self.kernel_size.0
            * self.kernel_size.1
        &&& self.bias matches Some(b) ==> b.wf() && b.shape@ == seq![self.out_channels]
            && b.data@.len() == self.out_channels
        &&& self.input_cache matches Some(x) ==> x.wf() && self.accepts(x.shape@)
    }

    pub open spec fn bias_values(&self) -> Option<Seq<T>> {
        match self.bias {
            Some(b) => Some(b.data@),
            None => None,
        }
    }

    /// The extents of applying this layer to an input of the given
    /// four-dimensional shape.
    pub open spec fn geometry(&self, shape: Seq<usize>) -> ConvGeometry {
        ConvGeometry {
            batch: shape[0],
            in_channels: self.in_channels,
            out_channels: self.out_channels,
            height: shape[2],
            width: shape[3],
            kernel_h: self.kernel_size.0,
            kernel_w: self.kernel_size.1,
            stride_h: self.stride.0,
            stride_w: self.stride.1,
            pad_h: self.padding.0,
            pad_w: self.padding.1,
            out_h: out_extent(
                shape[2] as int,
                self.kernel_size.0 as int,
                self.stride.0 as int,
                self.padding.0 as int,
            ) as usize,
            out_w: out_extent(
                shape[3] as int,
                self.kernel_size.1 as int,
                self.stride.1 as int,
                self.padding.1 as int,
            ) as usize,
        }
    }

    /// Whether an input of the given shape can be convolved: it is
    /// four-dimensional with `in_channels` channels, both strides are
    /// positive, the kernel is no larger than the padded input, and the
    /// padded extents and the output can be addressed.
    pub open spec fn accepts(&self, shape: Seq<usize>) -> bool {
        &&& shape.len() == 4
        &&& shape[1] == self.in_channels
        &&& window_valid(
            shape[2] as int,
            self.kernel_size.0 as int,
            self.stride.0 as int,
            self.padding.0 as int,
        )
        &&& window_valid(
            shape[3] as int,
            self.kernel_size.1 as int,
            self.stride.1 as int,
            self.padding.1 as int,
        )
        &&& shape[2] + 2 * self.padding.0 < usize::MAX
        &&& shape[3] + 2 * self.padding.1 < usize::MAX
        &&& shape[0] * self.out_channels * out_extent(
            shape[2] as int,
            self.kernel_size.0 as int,
            self.stride.0 as int,
            self.padding.0 as int,
        ) * out_extent(
            shape[3] as int,
            self.kernel_size.1 as int,
            self.stride.1 as int,
            self.padding.1 as int,
        ) <= usize::MAX
    }

    /// A layer with weights drawn from the standard normal distribution and,
    /// if asked for, a zero bias. Both are parameters: they carry a zero
    /// gradient.
    pub fn new<R: RandomSource<T>>(
        in_channels: usize,
        out_channels: usize,
        kernel_size: (usize, usize),
        stride: (usize, usize),
        padding: (usize, usize),
        bias: bool,
        rng: &mut R,
    ) -> (r: Self)
        requires
            out_channels * in_channels * kernel_size.0 * kernel_size.1 <= usize::MAX,
        ensures
            r.wf(),
            r.in_channels == in_channels,
            r.out_channels == out_channels,
            r.kernel_size == kernel_size,
            r.stride == stride,
            r.padding == padding,
            r.weight.requires_grad,
            r.bias is Some == bias,
            r.bias matches Some(b) ==> b.requires_grad && b.data@ == Seq::new(
                out_channels as nat,
                |i: int| T::zero_spec(),
            ),
            r.input_cache is None,
    {
        let dims = shape4(out_channels, in_channels, kernel_size.0, kernel_size.1);
        let drawn = Tensor::randn(dims.as_slice(), rng);
        let weight = Tensor::new(drawn.data, dims, true, Device::CPU, DataType::Float32);
        let bias = if bias {
            let zeros = Tensor::zeros(shape1(out_channels).as_slice());
            Some(
                Tensor::new(
                    zeros.data,
                    shape1(out_channels),
                    true,
                    Device::CPU,
                    DataType::Float32,
                ),
            )
        } else {
            None
        };
        Conv2d {
            in_channels,
            out_channels,
            kernel_size,
            stride,
            padding,
            weight,
            bias,
            input_cache: None,
        }
    }

    /// Works out the extents for an input shape, or `None` where the layer
    /// does not accept it.
    fn plan(&self, shape: &Vec<usize>) -> (r: Option<(ConvGeometry, usize)>)
        requires
            self.weight.data@.len() == self.out_channels * self.in_channels * self.kernel_size.0
                * self.kernel_size.1,
            shape@.len() == 4,
            shape@[1] == self.in_channels,
            numel(shape@) <= usize::MAX,
        ensures
            r is Some <==> self.accepts(shape@),
            r matches Some(p) ==> p.0 == self.geometry(shape@) && p.0.wf() && p.1
                == p.0.output_len(),
    {
        let out_h = match window_count(shape[2], self.kernel_size.0, self.stride.0, self.padding.0) {
            Some(v) => v,
            None => {
                return None;
            },
        };
        let out_w = match window_count(shape[3], self.kernel_size.1, self.stride.1, self.padding.1) {
            Some(v) => v,
            None => {
                return None;
            },
        };
        let planes = match shape[0].checked_mul(self.out_channels) {
            Some(v) => v,
            None => {
                assert(shape@[0] * self.out_channels * out_h * out_w > usize::MAX)
                    by (nonlinear_arith)
                    requires
                        shape@[0] * self.out_channels > usize::MAX,
                        out_h >= 1,
                        out_w >= 1,
                ;
                return None;
            },
        };
        let rows = match planes.checked_mul(out_h) {
            Some(v) => v,
            None => {
                assert(planes * out_h * out_w > usize::MAX) by (nonlinear_arith)
                    requires
                        planes * out_h > usize::MAX,
                        out_w >= 1,
                ;
                return None;
            },
        };
        let total = match rows.checked_mul(out_w) {
            Some(v) => v,
            None => {
                return None;
            },
        };
        proof {
            lemma_numel_4(shape@);
            lemma_len_fits(&self.weight.data);
        }
        Some(
            (ConvGeometry {
                batch: shape[0],
                in_channels: self.in_channels,
                out_channels: self.out_channels,
                height: shape[2],
                width: shape[3],
                kernel_h: self.kernel_size.0,
                kernel_w: self.kernel_size.1,
                stride_h: self.stride.0,
                stride_w: self.stride.1,
                pad_h: self.padding.0,
                pad_w: self.padding.1,
                out_h,
                out_w,
            }, total),
        )
    }

    /// Whether the layer is well formed: the weight is `(out_channels,
    /// in_channels, kernel height, kernel width)`, the bias
    /// `(out_channels)`, and a cached input is one that the layer accepts.
    pub fn is_wf(&self) -> (r: bool)
        ensures
            r == self.wf(),
    {
        if !(self.weight.is_wf() && is_shape4(
            &self.weight.shape,
            self.out_channels,
            self.in_channels,
            self.kernel_size.0,
            self.kernel_size.1,
        )) {
            return false;
        }
        proof {
            lemma_numel_4(self.weight.shape@);
        }
        let bias_fits = match &self.bias {
            Some(b) => {
                proof {
                    if b.shape@.len() == 1 {
                        lemma_numel_1(b.shape@);
                    }
                }
                b.is_wf() && is_shape1(&b.shape, self.out_channels)
            },
            None => true,
        };
        if !bias_fits {
            return false;
        }
        match &self.input_cache {
            Some(x) => {
                if !(x.is_wf() && x.shape.len() == 4 && x.shape[1] == self.in_channels) {
                    return false;
                }
                proof {
                    lemma_len_fits(&x.data);
                }
                self.plan(&x.shape).is_some()
            },
            None => true,
        }
    }

    /// Convolves a `(batch, in_channels, height, width)` input and caches
    /// it for `backward`. Positions of a window that fall into the padding
    /// contribute nothing.
    ///
    /// Fails with `InvalidShape` unless the input is four-dimensional and
    /// the windows can be placed, and with `DimensionMismatch` when the
    /// input does not have `in_channels` channels; a failed call leaves the
    /// cache as it was.
    pub fn forward(&mut self, input: &Tensor<T>) -> (r: Result<Tensor<T>, BellandeError>)
        requires
            old(self).wf(),
            input.wf(),
        ensures
            forward_result(*old(self), *final(self), input, r),
    {
        if input.shape.len() != 4 {
            return Err(BellandeError::InvalidShape(String::from_str("expected a 4D input")));
        }
        if input.shape[1] != self.in_channels {
            return Err(BellandeError::DimensionMismatch);
        }
        proof {
            lemma_len_fits(&input.data);
            lemma_numel_4(input.shape@);
        }
        let (g, total) = match self.plan(&input.shape) {
            Some(p) => p,
            None => {
                return Err(
                    BellandeError::InvalidShape(String::from_str("window does not fit the input")),
                );
            },
        };
        proof {
            if total > 0 {
                lemma_product4_positive(
                    g.batch as int,
                    g.out_channels as int,
                    g.out_h as int,
                    g.out_w as int,
                );
            }
        }
        let mut output: Vec<T> = Vec::new();
        let mut cur = Cursor4::start();
        while output.len() < total
            invariant
                self.wf(),
                g.wf(),
                g == self.geometry(input.shape@),
                input.data@.len() == g.input_len(),
                self.weight.data@.len() == g.weight_len(),
                total == g.output_len(),
                output@.len() <= total,
                total > 0 ==> cur.inside(g.out_channels as int, g.out_h as int, g.out_w as int),
                output@.len() == cur.position(
                    g.out_channels as int,
                    g.out_h as int,
                    g.out_w as int,
                ),
                forall|b: int, oc: int, oh: int, ow: int|
                    0 <= b && 0 <= oc < g.out_channels && 0 <= oh < g.out_h && 0 <= ow < g.out_w
                        && g.output_at(b, oc, oh, ow) < output@.len() ==> {
                        let at = #[trigger] g.output_at(b, oc, oh, ow);
                        output@[at] == conv_cell(
                            input.data@,
                            self.weight.data@,
                            self.bias_values(),
                            g,
                            b,
                            oc,
                            oh,
                            ow,
                        )
                    },
            decreases total - output@.len(),
        {
            proof {
                lemma_flat4_leading(
                    cur.i as int,
                    cur.j as int,
                    cur.k as int,
                    cur.l as int,
                    g.batch as int,
                    g.out_channels as int,
                    g.out_h as int,
                    g.out_w as int,
                );
            }
            let sum = forward_cell(&input.data, &self.weight.data, &g, cur.i, cur.j, cur.k, cur.l);
            let cell = match &self.bias {
                Some(bias) => sum.plus(bias.data[cur.j]),
                None => sum,
            };
            let ghost before = output@;
            output.push(cell);
            assert forall|b: int, oc: int, oh: int, ow: int|
                0 <= b && 0 <= oc < g.out_channels && 0 <= oh < g.out_h && 0 <= ow < g.out_w
                    && g.output_at(b, oc, oh, ow) < output@.len() implies {
                let at = #[trigger] g.output_at(b, oc, oh, ow);
                output@[at] == conv_cell(
                    input.data@,
                    self.weight.data@,
                    self.bias_values(),
                    g,
                    b,
                    oc,
                    oh,
                    ow,
                )
            } by {
                let at = g.output_at(b, oc, oh, ow);
                if at < before.len() {
                    assert(output@[at] == before[at]);
                } else {
                    lemma_flat4_injective(
                        b,
                        oc,
                        oh,
                        ow,
                        cur.i as int,
                        cur.j as int,
                        cur.k as int,
                        cur.l as int,
                        g.out_channels as int,
                        g.out_h as int,
                        g.out_w as int,
                    );
                }
            }
            cur.advance(g.out_channels, g.out_h, g.out_w);
        }
        assert forall|b: int, oc: int, oh: int, ow: int|
            0 <= b < g.batch && 0 <= oc < g.out_channels && 0 <= oh < g.out_h && 0 <= ow
                < g.out_w implies 0 <= #[trigger] g.output_at(b, oc, oh, ow) < output@.len() by {
            lemma_flat4_bound(
                b,
                oc,
                oh,
                ow,
                g.batch as int,
                g.out_channels as int,
                g.out_h as int,
                g.out_w as int,
            );
        }
        self.input_cache = Some(input.duplicate());
        Ok(
            Tensor::new(
                output,
                shape4(g.batch, g.out_channels, g.out_h, g.out_w),
                true,
                input.device,
                input.dtype,
            ),
        )
    }

    /// Whether a gradient has the shape of the output that `forward`
    /// produced from the cached input.
    pub open spec fn matches_cache(&self, grad_output: &Tensor<T>) -> bool {
        let g = self.geometry(self.input_cache->0.shape@);
        grad_output.shape@ == seq![g.batch, g.out_channels, g.out_h, g.out_w]
    }

    /// The gradients of the convolution, from the gradient of its output
    /// and the input cached by `forward`: with respect to the input, the
    /// weight and, where there is one, the bias.
    pub fn backward(&self, grad_output: &Tensor<T>) -> (r: Result<
        (Tensor<T>, Tensor<T>, Option<Tensor<T>>),
        BellandeError,
    >)
        requires
            self.wf(),
            grad_output.wf(),
        ensures
            backward_result(*self, grad_output, r),
    {
        let input = match &self.input_cache {
            Some(x) => x,
            None => {
                return Err(forward_not_called());
            },
        };
        proof {
            lemma_len_fits(&input.data);
            lemma_len_fits(&self.weight.data);
            lemma_numel_4(input.shape@);
        }
        let (geo, _) = match self.plan(&input.shape) {
            Some(p) => p,
            None => {
                return Err(forward_not_called());
            },
        };
        if grad_output.shape.len() != 4 || grad_output.shape[0] != geo.batch
            || grad_output.shape[1] != geo.out_channels || grad_output.shape[2] != geo.out_h
            || grad_output.shape[3] != geo.out_w {
            return Err(BellandeError::DimensionMismatch);
        }
        assert(grad_output.shape@ =~= seq![geo.batch, geo.out_channels, geo.out_h, geo.out_w]);
        proof {
            lemma_numel_4(grad_output.shape@);
        }
        let input_total = input.data.len();
        proof {
            if input_total > 0 {
                lemma_product4_positive(
                    geo.batch as int,
                    geo.in_channels as int,
                    geo.height as int,
                    geo.width as int,
                );
            }
        }
        let mut grad_input: Vec<T> = Vec::new();
        let mut cur = Cursor4::start();
        while grad_input.len() < input_total
            invariant
                geo.wf(),
                grad_output.data@.len() == geo.output_len(),
                self.weight.data@.len() == geo.weight_len(),
                input_total == geo.input_len(),
                grad_input@.len() <= input_total,
                input_total > 0 ==> cur.inside(
                    geo.in_channels as int,
                    geo.height as int,
                    geo.width as int,
                ),
                grad_input@.len() == cur.position(
                    geo.in_channels as int,
                    geo.height as int,
                    geo.width as int,
                ),
                forall|b: int, ic: int, h: int, w: int|
                    0 <= b && 0 <= ic < geo.in_channels && 0 <= h < geo.height && 0 <= w
                        < geo.width && geo.input_at(b, ic, h, w) < grad_input@.len() ==> {
                        let at = #[trigger] geo.input_at(b, ic, h, w);
                        grad_input@[at] == input_grad(
                            grad_output.data@,
                            self.weight.data@,
                            geo,
                            b,
                            ic,
                            h,
                            w,
                            geo.out_channels as nat,
                        )
                    },
            decreases input_total - grad_input@.len(),
        {
            proof {
                lemma_flat4_leading(
                    cur.i as int,
                    cur.j as int,
                    cur.k as int,
                    cur.l as int,
                    geo.batch as int,
                    geo.in_channels as int,
                    geo.height as int,
                    geo.width as int,
                );
            }
            let cell = input_grad_cell(
                &grad_output.data,
                &self.weight.data,
                &geo,
                cur.i,
                cur.j,
                cur.k,
                cur.l,
            );
            let ghost before = grad_input@;
            grad_input.push(cell);
            assert forall|b: int, ic: int, h: int, w: int|
                0 <= b && 0 <= ic < geo.in_channels && 0 <= h < geo.height && 0 <= w < geo.width
                    && geo.input_at(b, ic, h, w) < grad_input@.len() implies {
                let at = #[trigger] geo.input_at(b, ic, h, w);
                grad_input@[at] == input_grad(
                    grad_output.data@,
                    self.weight.data@,
                    geo,
                    b,
                    ic,
                    h,
                    w,
                    geo.out_channels as nat,
                )
            } by {
                let at = geo.input_at(b, ic, h, w);
                if at < before.len() {
                    assert(grad_input@[at] == before[at]);
                } else {
                    lemma_flat4_injective(
                        b,
                        ic,
                        h,
                        w,
                        cur.i as int,
                        cur.j as int,
                        cur.k as int,
                        cur.l as int,
                        geo.in_channels as int,
                        geo.height as int,
                        geo.width as int,
                    );
                }
            }
            cur.advance(geo.in_channels, geo.height, geo.width);
        }
        assert forall|b: int, ic: int, h: int, w: int|
            0 <= b < geo.batch && 0 <= ic < geo.in_channels && 0 <= h < geo.height && 0 <= w
                < geo.width implies 0 <= #[trigger] geo.input_at(b, ic, h, w)
            < grad_input@.len() by {
            lemma_flat4_bound(
                b,
                ic,
                h,
                w,
                geo.batch as int,
                geo.in_channels as int,
                geo.height as int,
                geo.width as int,
            );
        }
        let weight_total = self.weight.data.len();
        proof {
            if weight_total > 0 {
                lemma_product4_positive(
                    geo.out_channels as int,
                    geo.in_channels as int,
                    geo.kernel_h as int,
                    geo.kernel_w as int,
                );
            }
        }
        let mut grad_weight: Vec<T> = Vec::new();
        let mut at_weight = Cursor4::start();
        while grad_weight.len() < weight_total
            invariant
                geo.wf(),
                grad_output.data@.len() == geo.output_len(),
                input.data@.len() == geo.input_len(),
                weight_total == geo.weight_len(),
                grad_weight@.len() <= weight_total,
                weight_total > 0 ==> at_weight.inside(
                    geo.in_channels as int,
                    geo.kernel_h as int,
                    geo.kernel_w as int,
                ),
                grad_weight@.len() == at_weight.position(
                    geo.in_channels as int,
                    geo.kernel_h as int,
                    geo.kernel_w as int,
                ),
                forall|oc: int, ic: int, kh: int, kw: int|
                    0 <= oc && 0 <= ic < geo.in_channels && 0 <= kh < geo.kernel_h && 0 <= kw
                        < geo.kernel_w && geo.weight_at(oc, ic, kh, kw) < grad_weight@.len() ==> {
                        let at = #[trigger] geo.weight_at(oc, ic, kh, kw);
                        grad_weight@[at] == weight_grad(
                            grad_output.data@,
                            input.data@,
                            geo,
                            oc,
                            ic,
                            kh,
                            kw,
                            geo.batch as nat,
                        )
                    },
            decreases weight_total - grad_weight@.len(),
        {
            proof {
                lemma_flat4_leading(
                    at_weight.i as int,
                    at_weight.j as int,
                    at_weight.k as int,
                    at_weight.l as int,
                    geo.out_channels as int,
                    geo.in_channels as int,
                    geo.kernel_h as int,
                    geo.kernel_w as int,
                );
            }
            let cell = weight_grad_cell(
                &grad_output.data,
                &input.data,
                &geo,
                at_weight.i,
                at_weight.j,
                at_weight.k,
                at_weight.l,
            );
            let ghost before = grad_weight@;
            grad_weight.push(cell);
            assert forall|oc: int, ic: int, kh: int, kw: int|
                0 <= oc && 0 <= ic < geo.in_channels && 0 <= kh < geo.kernel_h && 0 <= kw
                    < geo.kernel_w && geo.weight_at(oc, ic, kh, kw) < grad_weight@.len() implies {
                let at = #[trigger] geo.weight_at(oc, ic, kh, kw);
                grad_weight@[at] == weight_grad(
                    grad_output.data@,
                    input.data@,
                    geo,
                    oc,
                    ic,
                    kh,
                    kw,
                    geo.batch as nat,
                )
            } by {
                let at = geo.weight_at(oc, ic, kh, kw);
                if at < before.len() {
                    assert(grad_weight@[at] == before[at]);
                } else {
                    lemma_flat4_injective(
                        oc,
                        ic,
                        kh,
                        kw,
                        at_weight.i as int,
                        at_weight.j as int,
                        at_weight.k as int,
                        at_weight.l as int,
                        geo.in_channels as int,
                        geo.kernel_h as int,
                        geo.kernel_w as int,
                    );
                }
            }
            at_weight.advance(geo.in_channels, geo.kernel_h, geo.kernel_w);
        }
        assert forall|oc: int, ic: int, kh: int, kw: int|
            0 <= oc < geo.out_channels && 0 <= ic < geo.in_channels && 0 <= kh < geo.kernel_h
                && 0 <= kw < geo.kernel_w implies 0 <= #[trigger] geo.weight_at(oc, ic, kh, kw)
            < grad_weight@.len() by {
            lemma_flat4_bound(
                oc,
                ic,
                kh,
                kw,
                geo.out_channels as int,
                geo.in_channels as int,
                geo.kernel_h as int,
                geo.kernel_w as int,
            );
        }
        let grad_bias = match &self.bias {
            Some(_) => {
                let mut sums: Vec<T> = Vec::new();
                let mut oc: usize = 0;
                while oc < geo.out_channels
                    invariant
                        oc <= geo.out_channels,
                        geo.wf(),
                        grad_output.data@.len() == geo.output_len(),
                        sums@.len() == oc,
                        forall|o2: int|
                            0 <= o2 < oc ==> #[trigger] sums@[o2] == bias_grad(
                                grad_output.data@,
                                geo,
                                o2,
                                geo.batch as nat,
                            ),
                    decreases geo.out_channels - oc,
                {
                    sums.push(bias_grad_cell(&grad_output.data, &geo, oc));
                    oc = oc + 1;
                }
                Some(
                    Tensor::new(
                        sums,
                        shape1(geo.out_channels),
                        true,
                        self.weight.device,
                        self.weight.dtype,
                    ),
                )
            },
            None => None,
        };
        Ok(
            (
                Tensor::new(grad_input, copy_shape(&input.shape), true, input.device, input.dtype),
                Tensor::new(
                    grad_weight,
                    copy_shape(&self.weight.shape),
                    true,
                    self.weight.device,
                    self.weight.dtype,
                ),
                grad_bias,
            ),
        )
    }
}

} // verus!
