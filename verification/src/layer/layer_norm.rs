//! Normalization of every row over its trailing dimensions.

use vstd::prelude::*;
use vstd::string::*;
use crate::device::Device;
use crate::dtype::DataType;
use crate::error::BellandeError;
use crate::kernels::{filled, lemma_len_fits};
use crate::layer::batch_norm::{
    affine, batch_statistics, deviation, deviations, normalize, normalized, NormExtents,
};
use crate::scalar::Scalar;
use crate::shape::{
    copy_shape, flat2, flat3, index2, lemma_flat2_bound, lemma_flat2_order, numel, shape1,
};
use crate::tensor::{ones_seq, zeros_seq, Tensor};

verus! {

/// Normalization of every row of features: each row is centred on its mean
/// and divided by its deviation, then scaled and shifted feature by
/// feature.
pub struct LayerNorm<T> {
    pub normalized_shape: usize,
    pub eps: T,
    pub weight: Tensor<T>,
    pub bias: Tensor<T>,
}

/// The rows of an input of the given shape as a grid: one sample whose
/// channels are the rows and whose positions are the features.
pub open spec fn row_extents(shape: Seq<usize>) -> NormExtents {
    NormExtents { batch: 1, channels: numel(shape.drop_last()) as usize, spatial: shape.last() }
}

/// Output element `s` of row `r`: the input centred on the mean of its row
/// and divided by the deviation of its row, times the scale of `s` plus the
/// shift of `s`.
pub open spec fn layer_norm_cell<T: Scalar>(
    x: Seq<T>,
    shape: Seq<usize>,
    eps: T,
    gamma: Seq<T>,
    beta: Seq<T>,
    r: int,
    s: int,
) -> T {
    let e = row_extents(shape);
    affine(
        normalized(x[flat2(r, s, shape.last() as int)], e.mean(x, r), deviation(e.variance(x, r), eps)),
        Some(gamma[s]),
        Some(beta[s]),
    )
}

/// What `forward` returns for `input`.
pub open spec fn forward_result<T: Scalar>(
    layer: LayerNorm<T>,
    input: &Tensor<T>,
    r: Result<Tensor<T>, BellandeError>,
) -> bool {
    match r {
        Ok(t) => {
            &&& input.rank() >= 1
            &&& input.shape@.last() == layer.normalized_shape
            &&& t.wf()
            &&& t.shape@ == input.shape@
            &&& t.data@.len() == input.data@.len()
            &&& forall|row: int, s: int|
                0 <= row < numel(input.shape@.drop_last()) && 0 <= s < layer.normalized_shape
                    ==> #[trigger] t.data@[flat2(row, s, layer.normalized_shape as int)]
                    == layer_norm_cell(
                    input.data@,
                    input.shape@,
                    layer.eps,
                    layer.weight.data@,
                    layer.bias.data@,
                    row,
                    s,
                )
            &&& t.requires_grad == input.requires_grad
            &&& t.grad_fn is None
            &&& t.device == input.device
            &&& t.dtype == input.dtype
        },
        Err(BellandeError::InvalidShape(_)) => input.rank() == 0,
        Err(BellandeError::DimensionMismatch) => input.rank() >= 1 && input.shape@.last()
            != layer.normalized_shape,
        Err(_) => false,
    }
}

proof fn lemma_row_position(r: int, s: int, rows: int, width: int)
    by (nonlinear_arith)
    ensures
        flat3(0, r, s, rows, width) == flat2(r, s, width),
        1 * rows * width == rows * width,
{
}

proof fn lemma_rows(shape: Seq<usize>)
    requires
        shape.len() >= 1,
    ensures
        numel(shape) == numel(shape.drop_last()) * shape.last(),
{
}

impl<T: Scalar> LayerNorm<T> {
    pub open spec fn wf(&self) -> bool {
        &&& self.weight.wf()
        &&& self.weight.shape@ == seq![self.normalized_shape]
        &&& self.weight.data@.len() == self.normalized_shape
        &&& self.bias.wf()
        &&& self.bias.shape@ == seq![self.normalized_shape]
        &&& self.bias.data@.len() == self.normalized_shape
    }

    /// A layer for rows of `normalized_shape` features, with a scale of one
    /// and a shift of zero, both parameters.
    pub fn new(normalized_shape: usize, eps: T) -> (r: Self)
        ensures
            r.wf(),
            r.normalized_shape == normalized_shape,
            r.eps == eps,
            r.weight.requires_grad && r.weight.data@ == ones_seq::<T>(normalized_shape as nat),
            r.bias.requires_grad && r.bias.data@ == zeros_seq::<T>(normalized_shape as nat),
    {
        LayerNorm {
            normalized_shape,
            eps,
            weight: Tensor::new(
                filled(T::one(), normalized_shape),
                shape1(normalized_shape),
                true,
                Device::CPU,
                DataType::Float32,
            ),
            bias: Tensor::new(
                filled(T::zero(), normalized_shape),
                shape1(normalized_shape),
                true,
                Device::CPU,
                DataType::Float32,
            ),
        }
    }

    /// Normalizes every row of an input whose last extent is
    /// `normalized_shape`.
    ///
    /// Fails with `InvalidShape` for an input without extents, and with
    /// `DimensionMismatch` when its last extent is another.
    pub fn forward(&self, input: &Tensor<T>) -> (r: Result<Tensor<T>, BellandeError>)
        requires
            self.wf(),
            input.wf(),
        ensures
            forward_result(*self, input, r),
    {
        let rank = input.shape.len();
        if rank == 0 {
            return Err(BellandeError::InvalidShape(String::from_str("nothing to normalize")));
        }
        let width = input.shape[rank - 1];
        if width != self.normalized_shape {
            return Err(BellandeError::DimensionMismatch);
        }
        let total = input.data.len();
        proof {
            lemma_rows(input.shape@);
            lemma_len_fits(&input.data);
        }
        if total == 0 {
            proof {
                assert forall|row: int, s: int|
                    0 <= row < numel(input.shape@.drop_last()) && 0 <= s
                        < width implies #[trigger] flat2(row, s, width as int) < 0 by {
                    assert(numel(input.shape@.drop_last()) * width > 0) by (nonlinear_arith)
                        requires
                            0 <= row < numel(input.shape@.drop_last()),
                            0 <= s < width,
                    ;
                }
            }
            return Ok(
                Tensor::new(
                    Vec::new(),
                    copy_shape(&input.shape),
                    input.requires_grad,
                    input.device,
                    input.dtype,
                ),
            );
        }
        let rows = total / width;
        proof {
            let lead = numel(input.shape@.drop_last()) as int;
            assert(lead * width == total);
            assert(width > 0) by (nonlinear_arith)
                requires
                    lead * width == total,
                    total > 0,
            ;
            vstd::arithmetic::div_mod::lemma_div_multiples_vanish(lead, width as int);
            assert(lead * width == width * lead) by (nonlinear_arith);
            lemma_row_position(0, 0, rows as int, width as int);
        }
        let e = NormExtents { batch: 1, channels: rows, spatial: width };
        assert(e == row_extents(input.shape@));
        let (means, variances) = batch_statistics(&input.data, &e);
        let std = deviations(&variances, self.eps);
        let (_, hat) = normalize(&input.data, &e, &means, &std, &None, &None);
        proof {
            assert forall|c: int, s: int| 0 <= c < rows && 0 <= s < width implies #[trigger] hat@[flat2(
                c,
                s,
                width as int,
            )] == normalized(input.data@[flat2(c, s, width as int)], means@[c], std@[c]) by {
                lemma_row_position(c, s, rows as int, width as int);
                assert(e.at(0, c, s) == flat2(c, s, width as int));
            }
        }
        let mut out: Vec<T> = Vec::new();
        let mut row: usize = 0;
        while row < rows
            invariant
                row <= rows,
                self.wf(),
                width == self.normalized_shape,
                width > 0,
                e == row_extents(input.shape@),
                e.batch == 1 && e.channels == rows && e.spatial == width,
                total == rows * width,
                total == input.data@.len(),
                total <= usize::MAX,
                hat@.len() == total,
                means@.len() == rows,
                std@.len() == rows,
                forall|c: int| 0 <= c < rows ==> #[trigger] means@[c] == e.mean(input.data@, c),
                forall|c: int|
                    0 <= c < rows ==> #[trigger] std@[c] == deviation(
                        e.variance(input.data@, c),
                        self.eps,
                    ),
                forall|c: int, s: int|
                    0 <= c < rows && 0 <= s < width ==> #[trigger] hat@[flat2(c, s, width as int)]
                        == normalized(
                        input.data@[flat2(c, s, width as int)],
                        means@[c],
                        std@[c],
                    ),
                out@.len() == row * width,
                forall|c: int, s: int|
                    0 <= c && 0 <= s < width && flat2(c, s, width as int) < out@.len()
                        ==> #[trigger] out@[flat2(c, s, width as int)] == layer_norm_cell(
                        input.data@,
                        input.shape@,
                        self.eps,
                        self.weight.data@,
                        self.bias.data@,
                        c,
                        s,
                    ),
            decreases rows - row,
        {
            let mut s: usize = 0;
            while s < width
                invariant
                    row < rows,
                    s <= width,
                    self.wf(),
                    width == self.normalized_shape,
                    width > 0,
                    e == row_extents(input.shape@),
                    e.batch == 1 && e.channels == rows && e.spatial == width,
                    total == rows * width,
                    total == input.data@.len(),
                    total <= usize::MAX,
                    hat@.len() == total,
                    means@.len() == rows,
                    std@.len() == rows,
                    forall|c: int| 0 <= c < rows ==> #[trigger] means@[c] == e.mean(input.data@, c),
                    forall|c: int|
                        0 <= c < rows ==> #[trigger] std@[c] == deviation(
                            e.variance(input.data@, c),
                            self.eps,
                        ),
                    forall|c: int, s2: int|
                        0 <= c < rows && 0 <= s2 < width ==> #[trigger] hat@[flat2(
                            c,
                            s2,
                            width as int,
                        )] == normalized(
                            input.data@[flat2(c, s2, width as int)],
                            means@[c],
                            std@[c],
                        ),
                    out@.len() == row * width + s,
                    forall|c: int, s2: int|
                        0 <= c && 0 <= s2 < width && flat2(c, s2, width as int) < out@.len()
                            ==> #[trigger] out@[flat2(c, s2, width as int)] == layer_norm_cell(
                            input.data@,
                            input.shape@,
                            self.eps,
                            self.weight.data@,
                            self.bias.data@,
                            c,
                            s2,
                        ),
                decreases width - s,
            {
                proof {
                    lemma_flat2_bound(row as int, s as int, rows as int, width as int);
                }
                let at = index2(row, s, width);
                let cell = hat[at].times(self.weight.data[s]).plus(self.bias.data[s]);
                let ghost before = out@;
                out.push(cell);
                assert forall|c: int, s2: int|
                    0 <= c && 0 <= s2 < width && flat2(c, s2, width as int)
                        < out@.len() implies #[trigger] out@[flat2(c, s2, width as int)]
                    == layer_norm_cell(
                    input.data@,
                    input.shape@,
                    self.eps,
                    self.weight.data@,
                    self.bias.data@,
                    c,
                    s2,
                ) by {
                    lemma_flat2_order(c, s2, row as int, s as int, width as int);
                    if flat2(c, s2, width as int) < before.len() {
                        assert(out@[flat2(c, s2, width as int)] == before[flat2(
                            c,
                            s2,
                            width as int,
                        )]);
                    }
                }
                s = s + 1;
            }
            assert(row * width + width == (row + 1) * width) by (nonlinear_arith);
            row = row + 1;
        }
        proof {
            assert forall|c: int, s: int| 0 <= c < rows && 0 <= s < width implies flat2(
                c,
                s,
                width as int,
            ) < out@.len() by {
                lemma_flat2_bound(c, s, rows as int, width as int);
            }
        }
        Ok(
            Tensor::new(
                out,
                copy_shape(&input.shape),
                input.requires_grad,
                input.device,
                input.dtype,
            ),
        )
    }
}

} // verus!
