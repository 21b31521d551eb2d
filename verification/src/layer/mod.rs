//! The layers, and the one type that a model holds them as.

pub mod activation;
pub mod avgpool2d;
pub mod batch_norm;
pub mod conv;
pub mod dropout;
pub mod layer_norm;
pub mod linear;
pub mod pooling;
pub mod recurrent;
pub mod transformer;
pub mod window;

use vstd::prelude::*;
use crate::error::BellandeError;
use crate::kernels::plus_seq;
use crate::layer::activation::ReLU;
use crate::layer::avgpool2d::AvgPool2d;
use crate::layer::batch_norm::{BatchNorm1d, BatchNorm2d};
use crate::layer::conv::Conv2d;
use crate::layer::dropout::Dropout;
use crate::layer::linear::Linear;
use crate::layer::pooling::MaxPool2d;
use crate::scalar::{RandomSource, Scalar};
use crate::tensor::Tensor;

verus! {

/// The layers a model can be composed of.
pub enum Layer<T> {
    Linear(Linear<T>),
    Conv2d(Conv2d<T>),
    BatchNorm1d(BatchNorm1d<T>),
    BatchNorm2d(BatchNorm2d<T>),
    Dropout(Dropout<T>),
    MaxPool2d(MaxPool2d),
    AvgPool2d(AvgPool2d),
    ReLU(ReLU<T>),
}

/// Whether parameter `after` is parameter `before` with `contribution`
/// added to its gradient, where it has one, and nothing else changed.
pub open spec fn accumulated<T: Scalar>(before: Tensor<T>, after: Tensor<T>, contribution: Seq<T>) -> bool {
    &&& after.wf()
    &&& after.data@ == before.data@
    &&& after.shape@ == before.shape@
    &&& after.requires_grad == before.requires_grad
    &&& after.grad_fn == before.grad_fn
    &&& after.device == before.device
    &&& after.dtype == before.dtype
    &&& after.grad is Some == before.grad is Some
    &&& before.grad matches Some(g) ==> after.grad->0@ == plus_seq(g@, contribution)
}

/// The same for an optional parameter and an optional contribution.
pub open spec fn accumulated_if<T: Scalar>(
    before: Option<Tensor<T>>,
    after: Option<Tensor<T>>,
    contribution: Option<Tensor<T>>,
) -> bool {
    match (before, after, contribution) {
        (Some(b), Some(a), Some(c)) => accumulated(b, a, c.data@),
        (None, None, None) => true,
        _ => false,
    }
}

/// Whether two tensors hold the same elements under the same shape.
pub open spec fn same_values<T: Scalar>(a: Tensor<T>, b: Tensor<T>) -> bool {
    a.data@ == b.data@ && a.shape@ == b.shape@
}

impl<T: Scalar> Layer<T> {
    pub open spec fn wf(&self) -> bool {
        match self {
            Layer::Linear(l) => l.wf(),
            Layer::Conv2d(l) => l.wf(),
            Layer::BatchNorm1d(l) => l.wf(),
            Layer::BatchNorm2d(l) => l.wf(),
            Layer::Dropout(_) => true,
            Layer::MaxPool2d(l) => l.wf(),
            Layer::AvgPool2d(l) => l.wf(),
            Layer::ReLU(l) => l.wf(),
        }
    }

    /// Whether the layer is well formed, as its kind has it.
    pub fn is_wf(&self) -> (r: bool)
        ensures
            r == self.wf(),
    {
        match self {
            Layer::Linear(l) => l.is_wf(),
            Layer::Conv2d(l) => l.is_wf(),
            Layer::BatchNorm1d(l) => l.is_wf(),
            Layer::BatchNorm2d(l) => l.is_wf(),
            Layer::Dropout(_) => true,
            Layer::MaxPool2d(l) => l.is_wf(),
            Layer::AvgPool2d(l) => l.is_wf(),
            Layer::ReLU(l) => l.is_wf(),
        }
    }

    /// What `forward` returns for `input` and how it changes the layer:
    /// what the `forward` of the layer's own kind does.
    pub open spec fn forwarded(
        before: Layer<T>,
        after: Layer<T>,
        input: &Tensor<T>,
        r: Result<Tensor<T>, BellandeError>,
    ) -> bool {
        match (before, after) {
            (Layer::Linear(b), Layer::Linear(a)) => crate::layer::linear::forward_result(
                b,
                a,
                input,
                r,
            ),
            (Layer::Conv2d(b), Layer::Conv2d(a)) => crate::layer::conv::forward_result(
                b,
                a,
                input,
                r,
            ),
            (Layer::BatchNorm1d(b), Layer::BatchNorm1d(a)) => crate::layer::batch_norm::layer_result(
                b.norm,
                a.norm,
                input,
                2,
                r,
            ),
            (Layer::BatchNorm2d(b), Layer::BatchNorm2d(a)) => crate::layer::batch_norm::layer_result(
                b.norm,
                a.norm,
                input,
                4,
                r,
            ),
            (Layer::Dropout(b), Layer::Dropout(a)) => crate::layer::dropout::forward_result(
                b,
                a,
                input,
                r,
            ),
            (Layer::MaxPool2d(b), Layer::MaxPool2d(a)) => crate::layer::pooling::forward_result(
                b,
                a,
                input,
                r,
            ),
            (Layer::AvgPool2d(b), Layer::AvgPool2d(a)) => crate::layer::avgpool2d::forward_result(
                b,
                a,
                input,
                r,
            ),
            (Layer::ReLU(b), Layer::ReLU(a)) => crate::layer::activation::forward_result(
                b,
                a,
                input,
                r,
            ),
            _ => false,
        }
    }

    /// Applies the layer to `input`. Only dropout draws from `rng`.
    pub fn forward<R: RandomSource<T>>(&mut self, input: &Tensor<T>, rng: &mut R) -> (r: Result<
        Tensor<T>,
        BellandeError,
    >)
        requires
            old(self).wf(),
            input.wf(),
        ensures
            final(self).wf(),
            Self::forwarded(*old(self), *final(self), input, r),
            r matches Ok(t) ==> t.wf(),
    {
        match self {
            Layer::Linear(l) => l.forward(input),
            Layer::Conv2d(l) => l.forward(input),
            Layer::BatchNorm1d(l) => l.forward(input),
            Layer::BatchNorm2d(l) => l.forward(input),
            Layer::Dropout(l) => l.forward(input, rng),
            Layer::MaxPool2d(l) => l.forward(input),
            Layer::AvgPool2d(l) => l.forward(input),
            Layer::ReLU(l) => l.forward(input),
        }
    }

    /// What `backward` returns for `grad_output` and how it changes the
    /// layer: the gradient with respect to the input that the `backward`
    /// of the layer's own kind computes is returned, and the gradients with
    /// respect to the parameters are added to the gradients that the
    /// parameters hold. A failed call changes nothing.
    pub open spec fn backwarded(
        before: Layer<T>,
        after: Layer<T>,
        grad_output: &Tensor<T>,
        r: Result<Tensor<T>, BellandeError>,
    ) -> bool {
        match (before, after) {
            (Layer::Linear(b), Layer::Linear(a)) => match r {
                Ok(gi) => exists|grads: (Tensor<T>, Tensor<T>, Option<Tensor<T>>)|
                    {
                        &&& #[trigger] crate::layer::linear::backward_result(
                            b,
                            grad_output,
                            Ok(grads),
                        )
                        &&& same_values(gi, grads.0)
                        &&& accumulated(b.weight, a.weight, grads.1.data@)
                        &&& accumulated_if(b.bias, a.bias, grads.2)
                        &&& a.in_features == b.in_features
                        &&& a.out_features == b.out_features
                        &&& a.input_cache == b.input_cache
                    },
                Err(e) => crate::layer::linear::backward_result(b, grad_output, Err(e)) && a == b,
            },
            (Layer::Conv2d(b), Layer::Conv2d(a)) => match r {
                Ok(gi) => exists|grads: (Tensor<T>, Tensor<T>, Option<Tensor<T>>)|
                    {
                        &&& #[trigger] crate::layer::conv::backward_result(
                            b,
                            grad_output,
                            Ok(grads),
                        )
                        &&& same_values(gi, grads.0)
                        &&& accumulated(b.weight, a.weight, grads.1.data@)
                        &&& accumulated_if(b.bias, a.bias, grads.2)
                        &&& a.in_channels == b.in_channels
                        &&& a.out_channels == b.out_channels
                        &&& a.kernel_size == b.kernel_size
                        &&& a.stride == b.stride
                        &&& a.padding == b.padding
                        &&& a.input_cache == b.input_cache
                    },
                Err(e) => crate::layer::conv::backward_result(b, grad_output, Err(e)) && a == b,
            },
            (Layer::BatchNorm1d(b), Layer::BatchNorm1d(a)) => Self::normalized_back(
                b.norm,
                a.norm,
                grad_output,
                r,
            ),
            (Layer::BatchNorm2d(b), Layer::BatchNorm2d(a)) => Self::normalized_back(
                b.norm,
                a.norm,
                grad_output,
                r,
            ),
            (Layer::Dropout(b), Layer::Dropout(a)) => crate::layer::dropout::backward_result(
                b,
                grad_output,
                r,
            ) && a == b,
            (Layer::MaxPool2d(b), Layer::MaxPool2d(a)) => crate::layer::pooling::backward_result(
                b,
                grad_output,
                r,
            ) && a == b,
            (Layer::AvgPool2d(b), Layer::AvgPool2d(a)) => crate::layer::avgpool2d::backward_result(
                b,
                grad_output,
                r,
            ) && a == b,
            (Layer::ReLU(b), Layer::ReLU(a)) => crate::layer::activation::backward_result(
                b,
                grad_output,
                r,
            ) && a == b,
            _ => false,
        }
    }

    /// `backwarded` for a batch normalization.
    pub open spec fn normalized_back(
        b: crate::layer::batch_norm::BatchNorm<T>,
        a: crate::layer::batch_norm::BatchNorm<T>,
        grad_output: &Tensor<T>,
        r: Result<Tensor<T>, BellandeError>,
    ) -> bool {
        match r {
            Ok(gi) => exists|grads: (Tensor<T>, Option<Tensor<T>>, Option<Tensor<T>>)|
                {
                    &&& #[trigger] crate::layer::batch_norm::backward_result(
                        b,
                        grad_output,
                        Ok(grads),
                    )
                    &&& same_values(gi, grads.0)
                    &&& accumulated_if(b.weight, a.weight, grads.1)
                    &&& accumulated_if(b.bias, a.bias, grads.2)
                    &&& a.num_features == b.num_features
                    &&& a.eps == b.eps
                    &&& a.momentum == b.momentum
                    &&& a.running_mean == b.running_mean
                    &&& a.running_var == b.running_var
                    &&& a.training == b.training
                    &&& a.cache == b.cache
                },
            Err(e) => crate::layer::batch_norm::backward_result(b, grad_output, Err(e)) && a == b,
        }
    }

    /// Propagates a gradient back through the layer, adding the gradients
    /// of the layer's parameters to the gradients that they hold.
    pub fn backward(&mut self, grad_output: &Tensor<T>) -> (r: Result<Tensor<T>, BellandeError>)
        requires
            old(self).wf(),
            grad_output.wf(),
        ensures
            final(self).wf(),
            Self::backwarded(*old(self), *final(self), grad_output, r),
            r matches Ok(t) ==> t.wf(),
    {
        match self {
            Layer::Linear(l) => {
                match l.backward(grad_output) {
                    Ok(grads) => {
                        let ghost all = grads;
                        let (gi, gw, gb) = grads;
                        l.weight.accumulate_grad(&gw.data);
                        match (&mut l.bias, &gb) {
                            (Some(bias), Some(g)) => {
                                bias.accumulate_grad(&g.data);
                            },
                            _ => {},
                        }
                        assert(crate::layer::linear::backward_result(old(self)->Linear_0, grad_output, Ok(all)));
                        Ok(gi)
                    },
                    Err(e) => Err(e),
                }
            },
            Layer::Conv2d(l) => {
                match l.backward(grad_output) {
                    Ok(grads) => {
                        let ghost all = grads;
                        let (gi, gw, gb) = grads;
                        l.weight.accumulate_grad(&gw.data);
                        match (&mut l.bias, &gb) {
                            (Some(bias), Some(g)) => {
                                bias.accumulate_grad(&g.data);
                            },
                            _ => {},
                        }
                        assert(crate::layer::conv::backward_result(old(self)->Conv2d_0, grad_output, Ok(all)));
                        Ok(gi)
                    },
                    Err(e) => Err(e),
                }
            },
            Layer::BatchNorm1d(l) => {
                match l.backward(grad_output) {
                    Ok(grads) => {
                        let ghost all = grads;
                        let (gi, gw, gb) = grads;
                        match (&mut l.norm.weight, &gw) {
                            (Some(w), Some(g)) => {
                                w.accumulate_grad(&g.data);
                            },
                            _ => {},
                        }
                        match (&mut l.norm.bias, &gb) {
                            (Some(w), Some(g)) => {
                                w.accumulate_grad(&g.data);
                            },
                            _ => {},
                        }
                        assert(crate::layer::batch_norm::backward_result(old(self)->BatchNorm1d_0.norm, grad_output, Ok(all)));
                        Ok(gi)
                    },
                    Err(e) => Err(e),
                }
            },
            Layer::BatchNorm2d(l) => {
                match l.backward(grad_output) {
                    Ok(grads) => {
                        let ghost all = grads;
                        let (gi, gw, gb) = grads;
                        match (&mut l.norm.weight, &gw) {
                            (Some(w), Some(g)) => {
                                w.accumulate_grad(&g.data);
                            },
                            _ => {},
                        }
                        match (&mut l.norm.bias, &gb) {
                            (Some(w), Some(g)) => {
                                w.accumulate_grad(&g.data);
                            },
                            _ => {},
                        }
                        assert(crate::layer::batch_norm::backward_result(old(self)->BatchNorm2d_0.norm, grad_output, Ok(all)));
                        Ok(gi)
                    },
                    Err(e) => Err(e),
                }
            },
            Layer::Dropout(l) => l.backward(grad_output),
            Layer::MaxPool2d(l) => l.backward(grad_output),
            Layer::AvgPool2d(l) => l.backward(grad_output),
            Layer::ReLU(l) => l.backward(grad_output),
        }
    }

    /// The parameters of the layer, in this order: weight, then bias.
    pub open spec fn parameters_spec(&self) -> Seq<Tensor<T>> {
        match self {
            Layer::Linear(l) => match l.bias {
                Some(b) => seq![l.weight, b],
                None => seq![l.weight],
            },
            Layer::Conv2d(l) => match l.bias {
                Some(b) => seq![l.weight, b],
                None => seq![l.weight],
            },
            Layer::BatchNorm1d(l) => Self::optional_pair(l.norm.weight, l.norm.bias),
            Layer::BatchNorm2d(l) => Self::optional_pair(l.norm.weight, l.norm.bias),
            _ => Seq::empty(),
        }
    }

    pub open spec fn optional_pair(a: Option<Tensor<T>>, b: Option<Tensor<T>>) -> Seq<Tensor<T>> {
        match (a, b) {
            (Some(x), Some(y)) => seq![x, y],
            (Some(x), None) => seq![x],
            (None, Some(y)) => seq![y],
            (None, None) => Seq::empty(),
        }
    }

    /// Whether `copies` are copies of `sources`: the same elements,
    /// shapes, flags and gradients.
    pub open spec fn copies_of(copies: Seq<Tensor<T>>, sources: Seq<Tensor<T>>) -> bool {
        &&& copies.len() == sources.len()
        &&& forall|i: int|
            0 <= i < copies.len() ==> {
                let c = #[trigger] copies[i];
                let o = sources[i];
                &&& c.wf()
                &&& c.data@ == o.data@
                &&& c.shape@ == o.shape@
                &&& c.requires_grad == o.requires_grad
                &&& c.grad is Some == o.grad is Some
                &&& o.grad matches Some(g) ==> c.grad->0@ == g@
            }
    }

    /// Copies of the parameters of the layer.
    pub fn parameters(&self) -> (r: Vec<Tensor<T>>)
        requires
            self.wf(),
        ensures
            Self::copies_of(r@, self.parameters_spec()),
    {
        let mut out: Vec<Tensor<T>> = Vec::new();
        match self {
            Layer::Linear(l) => {
                out.push(l.weight.duplicate());
                match &l.bias {
                    Some(b) => {
                        out.push(b.duplicate());
                    },
                    None => {},
                }
            },
            Layer::Conv2d(l) => {
                out.push(l.weight.duplicate());
                match &l.bias {
                    Some(b) => {
                        out.push(b.duplicate());
                    },
                    None => {},
                }
            },
            Layer::BatchNorm1d(l) => {
                match &l.norm.weight {
                    Some(w) => {
                        out.push(w.duplicate());
                    },
                    None => {},
                }
                match &l.norm.bias {
                    Some(b) => {
                        out.push(b.duplicate());
                    },
                    None => {},
                }
            },
            Layer::BatchNorm2d(l) => {
                match &l.norm.weight {
                    Some(w) => {
                        out.push(w.duplicate());
                    },
                    None => {},
                }
                match &l.norm.bias {
                    Some(b) => {
                        out.push(b.duplicate());
                    },
                    None => {},
                }
            },
            _ => {},
        }
        out
    }

    /// Whether `after` is `before` with the gradient of every parameter
    /// reset to zero.
    pub open spec fn gradients_cleared(before: Layer<T>, after: Layer<T>) -> bool {
        &&& after.wf()
        &&& after.kind_spec() == before.kind_spec()
        &&& after.parameters_spec().len() == before.parameters_spec().len()
        &&& forall|i: int|
            0 <= i < before.parameters_spec().len() ==> crate::optim::cleared(
                before.parameters_spec()[i],
                #[trigger] after.parameters_spec()[i],
            )
    }

    /// Resets the gradient of every parameter of the layer to zero.
    pub fn zero_grad(&mut self)
        requires
            old(self).wf(),
        ensures
            Self::gradients_cleared(*old(self), *final(self)),
    {
        match self {
            Layer::Linear(l) => {
                l.weight.zero_grad();
                match &mut l.bias {
                    Some(b) => {
                        b.zero_grad();
                    },
                    None => {},
                }
            },
            Layer::Conv2d(l) => {
                l.weight.zero_grad();
                match &mut l.bias {
                    Some(b) => {
                        b.zero_grad();
                    },
                    None => {},
                }
            },
            Layer::BatchNorm1d(l) => {
                match &mut l.norm.weight {
                    Some(b) => {
                        b.zero_grad();
                    },
                    None => {},
                }
                match &mut l.norm.bias {
                    Some(b) => {
                        b.zero_grad();
                    },
                    None => {},
                }
            },
            Layer::BatchNorm2d(l) => {
                match &mut l.norm.weight {
                    Some(b) => {
                        b.zero_grad();
                    },
                    None => {},
                }
                match &mut l.norm.bias {
                    Some(b) => {
                        b.zero_grad();
                    },
                    None => {},
                }
            },
            _ => {},
        }
    }

    /// The layer in the given mode: batch normalization and dropout take
    /// the mode, the other layers have none.
    pub open spec fn in_mode(before: Layer<T>, after: Layer<T>, training: bool) -> bool {
        match (before, after) {
            (Layer::BatchNorm1d(b), Layer::BatchNorm1d(a)) => Self::norm_in_mode(
                b.norm,
                a.norm,
                training,
            ),
            (Layer::BatchNorm2d(b), Layer::BatchNorm2d(a)) => Self::norm_in_mode(
                b.norm,
                a.norm,
                training,
            ),
            (Layer::Dropout(b), Layer::Dropout(a)) => a.training == training && a.p == b.p && a.mask
                == b.mask,
            _ => after == before,
        }
    }

    pub open spec fn norm_in_mode(
        b: crate::layer::batch_norm::BatchNorm<T>,
        a: crate::layer::batch_norm::BatchNorm<T>,
        training: bool,
    ) -> bool {
        &&& a.training == training
        &&& a.num_features == b.num_features
        &&& a.eps == b.eps
        &&& a.momentum == b.momentum
        &&& a.running_mean == b.running_mean
        &&& a.running_var == b.running_var
        &&& a.weight == b.weight
        &&& a.bias == b.bias
        &&& a.cache == b.cache
    }

    /// Puts the layer into training mode.
    pub fn train(&mut self)
        requires
            old(self).wf(),
        ensures
            final(self).wf(),
            Self::in_mode(*old(self), *final(self), true),
    {
        match self {
            Layer::BatchNorm1d(l) => l.train(),
            Layer::BatchNorm2d(l) => l.train(),
            Layer::Dropout(l) => l.train(),
            _ => {},
        }
    }

    /// Puts the layer into evaluation mode.
    pub fn eval(&mut self)
        requires
            old(self).wf(),
        ensures
            final(self).wf(),
            Self::in_mode(*old(self), *final(self), false),
    {
        match self {
            Layer::BatchNorm1d(l) => l.eval(),
            Layer::BatchNorm2d(l) => l.eval(),
            Layer::Dropout(l) => l.eval(),
            _ => {},
        }
    }
}

/// The configuration of a layer: its kind and extents, without its
/// parameters and caches.
#[derive(Clone, Copy, Debug, PartialEq, Eq, Structural)]
pub enum LayerKind {
    Linear { in_features: usize, out_features: usize, bias: bool },
    Conv2d {
        in_channels: usize,
        out_channels: usize,
        kernel_h: usize,
        kernel_w: usize,
        stride_h: usize,
        stride_w: usize,
        pad_h: usize,
        pad_w: usize,
        bias: bool,
    },
    BatchNorm1d { num_features: usize, affine: bool },
    BatchNorm2d { num_features: usize, affine: bool },
    Dropout,
    MaxPool2d { kernel_h: usize, kernel_w: usize, stride_h: usize, stride_w: usize },
    AvgPool2d { kernel_h: usize, kernel_w: usize, stride_h: usize, stride_w: usize },
    ReLU,
}

impl<T: Scalar> Layer<T> {
    pub open spec fn kind_spec(&self) -> LayerKind {
        match self {
            Layer::Linear(l) => LayerKind::Linear {
                in_features: l.in_features,
                out_features: l.out_features,
                bias: l.bias is Some,
            },
            Layer::Conv2d(l) => LayerKind::Conv2d {
                in_channels: l.in_channels,
                out_channels: l.out_channels,
                kernel_h: l.kernel_size.0,
                kernel_w: l.kernel_size.1,
                stride_h: l.stride.0,
                stride_w: l.stride.1,
                pad_h: l.padding.0,
                pad_w: l.padding.1,
                bias: l.bias is Some,
            },
            Layer::BatchNorm1d(l) => LayerKind::BatchNorm1d {
                num_features: l.norm.num_features,
                affine: l.norm.weight is Some,
            },
            Layer::BatchNorm2d(l) => LayerKind::BatchNorm2d {
                num_features: l.norm.num_features,
                affine: l.norm.weight is Some,
            },
            Layer::Dropout(_) => LayerKind::Dropout,
            Layer::MaxPool2d(l) => LayerKind::MaxPool2d {
                kernel_h: l.kernel_size.0,
                kernel_w: l.kernel_size.1,
                stride_h: l.stride.0,
                stride_w: l.stride.1,
            },
            Layer::AvgPool2d(l) => LayerKind::AvgPool2d {
                kernel_h: l.kernel_size.0,
                kernel_w: l.kernel_size.1,
                stride_h: l.stride.0,
                stride_w: l.stride.1,
            },
            Layer::ReLU(_) => LayerKind::ReLU,
        }
    }

    /// The configuration of the layer.
    pub fn kind(&self) -> (r: LayerKind)
        ensures
            r == self.kind_spec(),
    {
        match self {
            Layer::Linear(l) => LayerKind::Linear {
                in_features: l.in_features,
                out_features: l.out_features,
                bias: l.bias.is_some(),
            },
            Layer::Conv2d(l) => LayerKind::Conv2d {
                in_channels: l.in_channels,
                out_channels: l.out_channels,
                kernel_h: l.kernel_size.0,
                kernel_w: l.kernel_size.1,
                stride_h: l.stride.0,
                stride_w: l.stride.1,
                pad_h: l.padding.0,
                pad_w: l.padding.1,
                bias: l.bias.is_some(),
            },
            Layer::BatchNorm1d(l) => LayerKind::BatchNorm1d {
                num_features: l.norm.num_features,
                affine: l.norm.weight.is_some(),
            },
            Layer::BatchNorm2d(l) => LayerKind::BatchNorm2d {
                num_features: l.norm.num_features,
                affine: l.norm.weight.is_some(),
            },
            Layer::Dropout(_) => LayerKind::Dropout,
            Layer::MaxPool2d(l) => LayerKind::MaxPool2d {
                kernel_h: l.kernel_size.0,
                kernel_w: l.kernel_size.1,
                stride_h: l.stride.0,
                stride_w: l.stride.1,
            },
            Layer::AvgPool2d(l) => LayerKind::AvgPool2d {
                kernel_h: l.kernel_size.0,
                kernel_w: l.kernel_size.1,
                stride_h: l.stride.0,
                stride_w: l.stride.1,
            },
            Layer::ReLU(_) => LayerKind::ReLU,
        }
    }
}

/// The values that layers built from a configuration share: the dropout
/// probability and the `eps` and `momentum` of batch normalization.
pub struct LayerSettings<T> {
    pub dropout: T,
    pub eps: T,
    pub momentum: T,
}

impl LayerKind {
    /// Whether the parameters of a layer of this configuration can be
    /// addressed.
    pub open spec fn buildable(self) -> bool {
        match self {
            LayerKind::Linear { in_features, out_features, .. } => out_features * in_features
                <= usize::MAX,
            LayerKind::Conv2d { in_channels, out_channels, kernel_h, kernel_w, .. } => out_channels
                * in_channels * kernel_h * kernel_w <= usize::MAX,
            _ => true,
        }
    }

    /// Decides whether the parameters of a layer of this configuration can
    /// be addressed.
    pub fn is_buildable(&self) -> (r: bool)
        ensures
            r == self.buildable(),
    {
        match self {
            LayerKind::Linear { in_features, out_features, .. } => out_features.checked_mul(
                *in_features,
            ).is_some(),
            LayerKind::Conv2d { in_channels, out_channels, kernel_h, kernel_w, .. } => {
                crate::shape::checked_product4(
                    *out_channels,
                    *in_channels,
                    *kernel_h,
                    *kernel_w,
                ).is_some()
            },
            _ => true,
        }
    }

    /// A fresh layer of this configuration: parameters drawn from `rng`
    /// where the layer draws them, no cache, training mode.
    pub fn build<T: Scalar, R: RandomSource<T>>(&self, settings: &LayerSettings<T>, rng: &mut R) -> (r:
        Layer<T>)
        requires
            self.buildable(),
        ensures
            r.wf(),
            r.kind_spec() == *self,
            r matches Layer::Dropout(d) ==> d.p == settings.dropout && d.training && d.mask is None,
            r matches Layer::BatchNorm1d(n) ==> n.norm.eps == settings.eps && n.norm.momentum
                == settings.momentum && n.norm.training && n.norm.cache is None,
            r matches Layer::BatchNorm2d(n) ==> n.norm.eps == settings.eps && n.norm.momentum
                == settings.momentum && n.norm.training && n.norm.cache is None,
            r matches Layer::Linear(l) ==> l.input_cache is None,
            r matches Layer::Conv2d(l) ==> l.input_cache is None,
            r matches Layer::MaxPool2d(l) ==> l.indices is None,
            r matches Layer::AvgPool2d(l) ==> l.input_shape is None,
            r matches Layer::ReLU(l) ==> l.input_cache is None,
    {
        match self {
            LayerKind::Linear { in_features, out_features, bias } => Layer::Linear(
                Linear::new(*in_features, *out_features, *bias, rng),
            ),
            LayerKind::Conv2d {
                in_channels,
                out_channels,
                kernel_h,
                kernel_w,
                stride_h,
                stride_w,
                pad_h,
                pad_w,
                bias,
            } => Layer::Conv2d(
                Conv2d::new(
                    *in_channels,
                    *out_channels,
                    (*kernel_h, *kernel_w),
                    (*stride_h, *stride_w),
                    (*pad_h, *pad_w),
                    *bias,
                    rng,
                ),
            ),
            LayerKind::BatchNorm1d { num_features, affine } => Layer::BatchNorm1d(
                BatchNorm1d::new(*num_features, settings.eps, settings.momentum, *affine),
            ),
            LayerKind::BatchNorm2d { num_features, affine } => Layer::BatchNorm2d(
                BatchNorm2d::new(*num_features, settings.eps, settings.momentum, *affine),
            ),
            LayerKind::Dropout => Layer::Dropout(
                Dropout { p: settings.dropout, mask: None, training: true },
            ),
            LayerKind::MaxPool2d { kernel_h, kernel_w, stride_h, stride_w } => Layer::MaxPool2d(
                MaxPool2d::new((*kernel_h, *kernel_w), (*stride_h, *stride_w)),
            ),
            LayerKind::AvgPool2d { kernel_h, kernel_w, stride_h, stride_w } => Layer::AvgPool2d(
                AvgPool2d::new((*kernel_h, *kernel_w), (*stride_h, *stride_w)),
            ),
            LayerKind::ReLU => Layer::ReLU(ReLU::new()),
        }
    }
}

} // verus!
