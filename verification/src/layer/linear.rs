//! The fully connected layer and its gradients.

use vstd::prelude::*;
use vstd::string::*;
use crate::device::Device;
use crate::dtype::DataType;
use crate::error::{forward_not_called, not_called, BellandeError};
use crate::kernels::{dot, dot_grid, lemma_len_fits, strided_sum, sum_strided};
use crate::scalar::{RandomSource, Scalar};
use crate::shape::{
    copy_shape, flat2, index2, is_shape1, is_shape2, lemma_flat2_bound, lemma_flat2_order,
    lemma_numel_1, lemma_numel_2, shape1, shape2,
};
use crate::tensor::Tensor;

verus! {

/// A fully connected layer: `output = input · weightᵀ + bias`, with the
/// weight stored as `(out_features, in_features)`.
pub struct Linear<T> {
    pub in_features: usize,
    pub out_features: usize,
    pub weight: Tensor<T>,
    pub bias: Option<Tensor<T>>,
    pub input_cache: Option<Tensor<T>>,
}

/// Output element `(b, o)`: the products `input[b,i] * weight[o,i]`
/// accumulated from zero over `i`, then the bias of `o` added.
pub open spec fn linear_cell<T: Scalar>(
    x: Seq<T>,
    w: Seq<T>,
    bias: Option<Seq<T>>,
    n_in: int,
    b: int,
    o: int,
) -> T {
    let s = dot(x, b * n_in, 1, w, o * n_in, 1, n_in as nat);
    match bias {
        Some(bs) => s.plus_spec(bs[o]),
        None => s,
    }
}

/// Gradient with respect to input element `(b, i)`: the products
/// `grad[b,o] * weight[o,i]` accumulated over `o`.
pub open spec fn linear_grad_input_cell<T: Scalar>(
    g: Seq<T>,
    w: Seq<T>,
    n_in: int,
    n_out: int,
    b: int,
    i: int,
) -> T {
    dot(g, b * n_out, 1, w, i, n_in, n_out as nat)
}

/// Gradient with respect to weight element `(o, i)`: the products
/// `grad[b,o] * input[b,i]` accumulated over the batch.
pub open spec fn linear_grad_weight_cell<T: Scalar>(
    g: Seq<T>,
    x: Seq<T>,
    n_in: int,
    n_out: int,
    batch: int,
    o: int,
    i: int,
) -> T {
    dot(g, o, n_out, x, i, n_in, batch as nat)
}

/// Gradient with respect to bias element `o`: `grad[b,o]` accumulated over
/// the batch.
pub open spec fn linear_grad_bias_cell<T: Scalar>(g: Seq<T>, n_out: int, batch: int, o: int) -> T {
    strided_sum(g, o, n_out, batch as nat)
}

/// What `forward` returns for `input` and how it changes the layer.
pub open spec fn forward_result<T: Scalar>(
    before: Linear<T>,
    after: Linear<T>,
    input: &Tensor<T>,
    r: Result<Tensor<T>, BellandeError>,
) -> bool {
    &&& after.wf()
    &&& after.in_features == before.in_features
    &&& after.out_features == before.out_features
    &&& after.weight == before.weight
    &&& after.bias == before.bias
    &&& match r {
        Ok(t) => {
            &&& input.rank() == 2
            &&& input.shape@[1] == before.in_features
            &&& t.wf()
            &&& t.shape@ == seq![input.shape@[0], before.out_features]
            &&& t.data@.len() == input.shape@[0] * before.out_features
            &&& forall|b: int, o: int|
                0 <= b < input.shape@[0] && 0 <= o < before.out_features
                    ==> #[trigger] t.data@[flat2(b, o, before.out_features as int)]
                    == linear_cell(
                    input.data@,
                    before.weight.data@,
                    before.bias_values(),
                    before.in_features as int,
                    b,
                    o,
                )
            &&& t.requires_grad
            &&& t.grad_fn is None
            &&& t.device == input.device
            &&& t.dtype == input.dtype
            &&& after.input_cache is Some
            &&& after.input_cache->0.data@ == input.data@
            &&& after.input_cache->0.shape@ == input.shape@
        },
        Err(BellandeError::InvalidShape(_)) => (input.rank() != 2 || (input.shape@[1]
            == before.in_features && input.shape@[0] * before.out_features
            > usize::MAX)) && after.input_cache == before.input_cache,
        Err(BellandeError::DimensionMismatch) => input.rank() == 2 && input.shape@[1]
            != before.in_features && after.input_cache == before.input_cache,
        Err(_) => false,
    }
}

/// What `backward` returns for `grad_output`.
pub open spec fn backward_result<T: Scalar>(
    layer: Linear<T>,
    grad_output: &Tensor<T>,
    r: Result<(Tensor<T>, Tensor<T>, Option<Tensor<T>>), BellandeError>,
) -> bool {
    &&& match r {
        Ok(grads) => {
            let x = layer.input_cache->0;
            let batch = x.shape@[0] as int;
            let n_in = layer.in_features as int;
            let n_out = layer.out_features as int;
            let g = grad_output.data@;
            &&& layer.input_cache is Some
            &&& layer.matches_cache(grad_output)
            &&& grads.0.wf()
            &&& grads.0.shape@ == x.shape@
            &&& grads.0.requires_grad
            &&& forall|b: int, i: int|
                0 <= b < batch && 0 <= i < n_in ==> #[trigger] grads.0.data@[flat2(
                    b,
                    i,
                    n_in,
                )] == linear_grad_input_cell(g, layer.weight.data@, n_in, n_out, b, i)
            &&& grads.1.wf()
            &&& grads.1.shape@ == layer.weight.shape@
            &&& grads.1.requires_grad
            &&& forall|o: int, i: int|
                0 <= o < n_out && 0 <= i < n_in ==> #[trigger] grads.1.data@[flat2(
                    o,
                    i,
                    n_in,
                )] == linear_grad_weight_cell(g, x.data@, n_in, n_out, batch, o, i)
            &&& grads.2 is Some == layer.bias is Some
            &&& grads.2 matches Some(gb) ==> {
                &&& gb.wf()
                &&& gb.shape@ == seq![layer.out_features]
                &&& gb.requires_grad
                &&& gb.data@.len() == n_out
                &&& forall|o: int|
                    0 <= o < n_out ==> #[trigger] gb.data@[o] == linear_grad_bias_cell(
                        g,
                        n_out,
                        batch,
                        o,
                    )
            }
        },
        Err(BellandeError::RuntimeError(m)) => layer.input_cache is None && m@
            == not_called(),
        Err(BellandeError::DimensionMismatch) => layer.input_cache is Some
            && !layer.matches_cache(grad_output),
        Err(_) => false,
    }
}

impl<T: Scalar> Linear<T> {
    pub open spec fn wf(&self) -> bool {
        &&& self.weight.wf()
        &&& self.weight.shape@ == seq![self.out_features, self.in_features]
        &&& self.weight.data@.len() == self.out_features * self.in_features
        &&& self.bias matches Some(b) ==> b.wf() && b.shape@ == seq![self.out_features]
            && b.data@.len() == self.out_features
        &&& self.input_cache matches Some(x) ==> x.wf() && x.shape@.len() == 2 && x.shape@[1]
            == self.in_features && x.data@.len() == x.shape@[0] * self.in_features
    }

    /// Whether the layer is well formed: the weight is `(out_features,
    /// in_features)`, the bias `(out_features)`, and a cached input has
    /// rows of `in_features` elements.
    pub fn is_wf(&self) -> (r: bool)
        ensures
            r == self.wf(),
    {
        if !(self.weight.is_wf() && is_shape2(
            &self.weight.shape,
            self.out_features,
            self.in_features,
        )) {
            return false;
        }
        proof {
            lemma_numel_2(self.weight.shape@);
        }
        let bias_fits = match &self.bias {
            Some(b) => {
                proof {
                    if b.shape@.len() == 1 {
                        lemma_numel_1(b.shape@);
                    }
                }
                b.is_wf() && is_shape1(&b.shape, self.out_features)
            },
            None => true,
        };
        if !bias_fits {
            return false;
        }
        match &self.input_cache {
            Some(x) => {
                proof {
                    if x.shape@.len() == 2 {
                        lemma_numel_2(x.shape@);
                    }
                }
                x.is_wf() && x.shape.len() == 2 && x.shape[1] == self.in_features
            },
            None => true,
        }
    }

    pub open spec fn bias_values(&self) -> Option<Seq<T>> {
        match self.bias {
            Some(b) => Some(b.data@),
            None => None,
        }
    }

    /// A layer with weights drawn from the standard normal distribution and,
    /// if asked for, a zero bias. Both are parameters: they carry a zero
    /// gradient.
    pub fn new<R: RandomSource<T>>(
        in_features: usize,
        out_features: usize,
        bias: bool,
        rng: &mut R,
    ) -> (r: Self)
        requires
            out_features * in_features <= usize::MAX,
        ensures
            r.wf(),
            r.in_features == in_features,
            r.out_features == out_features,
            r.weight.requires_grad,
            r.bias is Some == bias,
            r.bias matches Some(b) ==> b.requires_grad && b.data@ == Seq::new(
                out_features as nat,
                |i: int| T::zero_spec(),
            ),
            r.input_cache is None,
    {
        let dims = shape2(out_features, in_features);
        let drawn = Tensor::randn(dims.as_slice(), rng);
        let weight = Tensor::new(drawn.data, dims, true, Device::CPU, DataType::Float32);
        let bias = if bias {
            let zeros = Tensor::zeros(shape1(out_features).as_slice());
            Some(
                Tensor::new(
                    zeros.data,
                    shape1(out_features),
                    true,
                    Device::CPU,
                    DataType::Float32,
                ),
            )
        } else {
            None
        };
        Linear { in_features, out_features, weight, bias, input_cache: None }
    }

    /// Maps a `(batch, in_features)` input to `(batch, out_features)` and
    /// caches the input for `backward`.
    ///
    /// Fails with `InvalidShape` unless the input is two-dimensional and
    /// the output's elements can be addressed, and with `DimensionMismatch`
    /// when its second extent is not `in_features`; a failed call leaves
    /// the cache as it was.
    pub fn forward(&mut self, input: &Tensor<T>) -> (r: Result<Tensor<T>, BellandeError>)
        requires
            old(self).wf(),
            input.wf(),
        ensures
            forward_result(*old(self), *final(self), input, r),
    {
        if input.shape.len() != 2 {
            return Err(BellandeError::InvalidShape(String::from_str("expected a 2D input")));
        }
        let batch = input.shape[0];
        if input.shape[1] != self.in_features {
            return Err(BellandeError::DimensionMismatch);
        }
        let n_in = self.in_features;
        let n_out = self.out_features;
        if batch.checked_mul(n_out).is_none() {
            return Err(BellandeError::InvalidShape(String::from_str("output too large")));
        }
        proof {
            lemma_numel_2(input.shape@);
            if batch > 0 && n_in > 0 {
                lemma_flat2_bound(batch - 1, n_in - 1, batch as int, n_in as int);
            }
            if n_out > 0 && n_in > 0 {
                lemma_flat2_bound(n_out - 1, n_in - 1, n_out as int, n_in as int);
            }
        }
        let sums = dot_grid(&input.data, n_in, 1, &self.weight.data, n_in, 1, batch, n_out, n_in);
        proof {
            lemma_len_fits(&sums);
        }
        let output = match &self.bias {
            Some(bias) => {
                let mut out: Vec<T> = Vec::new();
                let mut b: usize = 0;
                while b < batch
                    invariant
                        b <= batch,
                        sums@.len() == batch * n_out,
                        sums@.len() <= usize::MAX,
                        bias.data@.len() == n_out,
                        out@.len() == b * n_out,
                        forall|b2: int, o2: int|
                            0 <= b2 && 0 <= o2 < n_out && flat2(b2, o2, n_out as int) < out@.len()
                                ==> #[trigger] out@[flat2(b2, o2, n_out as int)] == sums@[flat2(
                                b2,
                                o2,
                                n_out as int,
                            )].plus_spec(bias.data@[o2]),
                    decreases batch - b,
                {
                    let mut o: usize = 0;
                    while o < n_out
                        invariant
                            b < batch,
                            o <= n_out,
                            sums@.len() == batch * n_out,
                            sums@.len() <= usize::MAX,
                            bias.data@.len() == n_out,
                            out@.len() == b * n_out + o,
                            forall|b2: int, o2: int|
                                0 <= b2 && 0 <= o2 < n_out && flat2(b2, o2, n_out as int)
                                    < out@.len() ==> #[trigger] out@[flat2(b2, o2, n_out as int)]
                                    == sums@[flat2(b2, o2, n_out as int)].plus_spec(
                                    bias.data@[o2],
                                ),
                        decreases n_out - o,
                    {
                        proof {
                            lemma_flat2_bound(b as int, o as int, batch as int, n_out as int);
                        }
                        let ghost before = out@;
                        out.push(sums[index2(b, o, n_out)].plus(bias.data[o]));
                        assert forall|b2: int, o2: int|
                            0 <= b2 && 0 <= o2 < n_out && flat2(b2, o2, n_out as int)
                                < out@.len() implies #[trigger] out@[flat2(b2, o2, n_out as int)]
                            == sums@[flat2(b2, o2, n_out as int)].plus_spec(bias.data@[o2]) by {
                            lemma_flat2_order(b2, o2, b as int, o as int, n_out as int);
                            if flat2(b2, o2, n_out as int) < before.len() {
                                assert(out@[flat2(b2, o2, n_out as int)] == before[flat2(
                                    b2,
                                    o2,
                                    n_out as int,
                                )]);
                            }
                        }
                        o = o + 1;
                    }
                    assert(b * n_out + n_out == (b + 1) * n_out) by (nonlinear_arith);
                    b = b + 1;
                }
                out
            },
            None => sums,
        };
        assert forall|b: int, o: int| 0 <= b < batch && 0 <= o < n_out implies #[trigger] output@[flat2(
            b,
            o,
            n_out as int,
        )] == linear_cell(
            input.data@,
            self.weight.data@,
            self.bias_values(),
            n_in as int,
            b,
            o,
        ) by {
            lemma_flat2_bound(b, o, batch as int, n_out as int);
        }
        self.input_cache = Some(input.duplicate());
        Ok(Tensor::new(output, shape2(batch, n_out), true, input.device, input.dtype))
    }

    /// Whether a gradient has the shape of the output that `forward`
    /// produced from the cached input.
    pub open spec fn matches_cache(&self, grad_output: &Tensor<T>) -> bool {
        &&& grad_output.shape@.len() == 2
        &&& grad_output.shape@[0] == self.input_cache->0.shape@[0]
        &&& grad_output.shape@[1] == self.out_features
    }

    /// The gradients of a linear map, from the gradient of its output and
    /// the input cached by `forward`: with respect to the input, the weight
    /// and, where there is one, the bias.
    pub fn backward(&self, grad_output: &Tensor<T>) -> (r: Result<
        (Tensor<T>, Tensor<T>, Option<Tensor<T>>),
        BellandeError,
    >)
        requires
            self.wf(),
            grad_output.wf(),
        ensures
            backward_result(*self, grad_output, r),
    {
        let input = match &self.input_cache {
            Some(x) => x,
            None => {
                return Err(forward_not_called());
            },
        };
        let batch = input.shape[0];
        let n_in = self.in_features;
        let n_out = self.out_features;
        if grad_output.shape.len() != 2 || grad_output.shape[0] != batch || grad_output.shape[1]
            != n_out {
            return Err(BellandeError::DimensionMismatch);
        }
        proof {
            lemma_numel_2(grad_output.shape@);
            lemma_len_fits(&input.data);
            lemma_len_fits(&grad_output.data);
            lemma_len_fits(&self.weight.data);
            if batch > 0 && n_out > 0 {
                lemma_flat2_bound(batch - 1, n_out - 1, batch as int, n_out as int);
            }
            if batch > 0 && n_in > 0 {
                lemma_flat2_bound(batch - 1, n_in - 1, batch as int, n_in as int);
            }
            if n_out > 0 && n_in > 0 {
                lemma_flat2_bound(n_out - 1, n_in - 1, n_out as int, n_in as int);
            }
        }
        let grad_input = dot_grid(
            &grad_output.data,
            n_out,
            1,
            &self.weight.data,
            1,
            n_in,
            batch,
            n_in,
            n_out,
        );
        let grad_weight = dot_grid(
            &grad_output.data,
            1,
            n_out,
            &input.data,
            1,
            n_in,
            n_out,
            n_in,
            batch,
        );
        assert forall|b: int, i: int| 0 <= b < batch && 0 <= i < n_in implies #[trigger] grad_input@[flat2(
            b,
            i,
            n_in as int,
        )] == linear_grad_input_cell(
            grad_output.data@,
            self.weight.data@,
            n_in as int,
            n_out as int,
            b,
            i,
        ) by {
            assert(i * 1 == i);
        }
        assert forall|o: int, i: int| 0 <= o < n_out && 0 <= i < n_in implies #[trigger] grad_weight@[flat2(
            o,
            i,
            n_in as int,
        )] == linear_grad_weight_cell(
            grad_output.data@,
            input.data@,
            n_in as int,
            n_out as int,
            batch as int,
            o,
            i,
        ) by {
            assert(i * 1 == i);
            assert(o * 1 == o);
        }
        let grad_bias = match &self.bias {
            Some(_) => {
                let mut sums: Vec<T> = Vec::new();
                let mut o: usize = 0;
                while o < n_out
                    invariant
                        o <= n_out,
                        grad_output.data@.len() == batch * n_out,
                        sums@.len() == o,
                        forall|o2: int|
                            0 <= o2 < o ==> #[trigger] sums@[o2] == linear_grad_bias_cell(
                                grad_output.data@,
                                n_out as int,
                                batch as int,
                                o2,
                            ),
                    decreases n_out - o,
                {
                    proof {
                        if batch > 0 {
                            lemma_flat2_bound(batch - 1, o as int, batch as int, n_out as int);
                        }
                    }
                    sums.push(sum_strided(&grad_output.data, o, n_out, batch));
                    o = o + 1;
                }
                Some(
                    Tensor::new(
                        sums,
                        shape1(n_out),
                        true,
                        self.weight.device,
                        self.weight.dtype,
                    ),
                )
            },
            None => None,
        };
        Ok(
            (
                Tensor::new(
                    grad_input,
                    copy_shape(&input.shape),
                    true,
                    input.device,
                    input.dtype,
                ),
                Tensor::new(
                    grad_weight,
                    copy_shape(&self.weight.shape),
                    true,
                    self.weight.device,
                    self.weight.dtype,
                ),
                grad_bias,
            ),
        )
    }
}

} // verus!
