//! Inverted dropout: a mask drawn while training, kept for `backward`.

use vstd::prelude::*;
use vstd::string::*;
use crate::error::{forward_not_called, not_called, BellandeError};
use crate::scalar::{RandomSource, Scalar};
use crate::shape::copy_shape;
use crate::tensor::Tensor;

verus! {

/// Inverted dropout: while training, each element is kept with probability
/// `1 - p` and scaled by `1 / (1 - p)`, or replaced by zero.
pub struct Dropout<T> {
    pub p: T,
    pub mask: Option<Vec<bool>>,
    pub training: bool,
}

/// Whether `p` is a probability in `[0, 1)`.
pub open spec fn valid_probability<T: Scalar>(p: T) -> bool {
    (p.exceeds_spec(T::zero_spec()) || p.equals_spec(T::zero_spec())) && T::one_spec().exceeds_spec(p)
}

/// The factor kept elements are multiplied by: `1 / (1 - p)`.
pub open spec fn keep_scale<T: Scalar>(p: T) -> T {
    T::one_spec().over_spec(T::one_spec().minus_spec(p))
}

/// Kept elements scaled, the others zero.
pub open spec fn masked<T: Scalar>(x: Seq<T>, mask: Seq<bool>, scale: T) -> Seq<T> {
    Seq::new(
        x.len(),
        |i: int|
            if mask[i] {
                x[i].times_spec(scale)
            } else {
                T::zero_spec()
            },
    )
}

fn apply_mask<T: Scalar>(x: &Vec<T>, mask: &Vec<bool>, scale: T) -> (r: Vec<T>)
    requires
        x@.len() == mask@.len(),
    ensures
        r@ == masked(x@, mask@, scale),
{
    let n = x.len();
    let mut r: Vec<T> = Vec::new();
    let mut i: usize = 0;
    while i < n
        invariant
            i <= n,
            n == x@.len(),
            n == mask@.len(),
            r@.len() == i,
            forall|k: int| 0 <= k < i ==> r@[k] == masked(x@, mask@, scale)[k],
        decreases n - i,
    {
        if mask[i] {
            r.push(x[i].times(scale));
        } else {
            r.push(T::zero());
        }
        i = i + 1;
    }
    assert(r@ =~= masked(x@, mask@, scale));
    r
}

/// What `forward` returns for `input` and how it changes the layer.
pub open spec fn forward_result<T: Scalar>(
    before: Dropout<T>,
    after: Dropout<T>,
    input: &Tensor<T>,
    r: Result<Tensor<T>, BellandeError>,
) -> bool {
    &&& after.p == before.p
    &&& after.training == before.training
    &&& r matches Ok(t) && {
        &&& t.wf()
        &&& t.shape@ == input.shape@
        &&& t.requires_grad == input.requires_grad
        &&& t.device == input.device
        &&& t.dtype == input.dtype
        &&& !before.training ==> t.data@ == input.data@ && after.mask == before.mask
        &&& before.training ==> after.mask is Some && after.mask->0@.len()
            == input.data@.len() && t.data@ == masked(
            input.data@,
            after.mask->0@,
            keep_scale(before.p),
        )
    }
}

/// What `backward` returns for `grad_output`.
pub open spec fn backward_result<T: Scalar>(
    layer: Dropout<T>,
    grad_output: &Tensor<T>,
    r: Result<Tensor<T>, BellandeError>,
) -> bool {
    &&& match r {
        Ok(t) => {
            &&& layer.mask is Some
            &&& layer.mask->0@.len() == grad_output.data@.len()
            &&& t.wf()
            &&& t.shape@ == grad_output.shape@
            &&& t.data@ == masked(grad_output.data@, layer.mask->0@, keep_scale(layer.p))
            &&& t.requires_grad
            &&& t.grad_fn is None
            &&& t.device == grad_output.device
            &&& t.dtype == grad_output.dtype
        },
        Err(BellandeError::RuntimeError(m)) => layer.mask is None && m@ == not_called(),
        Err(BellandeError::DimensionMismatch) => layer.mask is Some && layer.mask->0@.len()
            != grad_output.data@.len(),
        Err(_) => false,
    }
}

impl<T: Scalar> Dropout<T> {
    /// Decides whether `p` is a probability in `[0, 1)`.
    pub fn is_valid_probability(p: T) -> (r: bool)
        ensures
            r == valid_probability(p),
    {
        (p.exceeds(T::zero()) || p.equals(T::zero())) && T::one().exceeds(p)
    }

    /// A layer in training mode without a mask.
    pub fn new(p: T) -> (r: Self)
        requires
            valid_probability(p),
        ensures
            r.p == p,
            r.mask is None,
            r.training,
    {
        Dropout { p, mask: None, training: true }
    }

    /// A layer in training mode without a mask, or `InvalidParameter` where
    /// `p` is not a probability in `[0, 1)`.
    pub fn try_new(p: T) -> (r: Result<Self, BellandeError>)
        ensures
            valid_probability(p) ==> r is Ok,
            !valid_probability(p) ==> r matches Err(BellandeError::InvalidParameter(_)),
            r matches Ok(d) ==> d.p == p && d.mask is None && d.training,
    {
        if Dropout::is_valid_probability(p) {
            Ok(Dropout::new(p))
        } else {
            Err(
                BellandeError::InvalidParameter(
                    String::from_str("dropout probability must be in [0, 1)"),
                ),
            )
        }
    }

    pub fn train(&mut self)
        ensures
            final(self).training,
            final(self).p == old(self).p,
            final(self).mask == old(self).mask,
    {
        self.training = true;
    }

    pub fn eval(&mut self)
        ensures
            !final(self).training,
            final(self).p == old(self).p,
            final(self).mask == old(self).mask,
    {
        self.training = false;
    }

    /// While training, draws one keep decision per element, in order, and
    /// returns the kept elements scaled and the others zero; the decisions
    /// are cached as the mask. Otherwise returns the input as it is and
    /// leaves the mask alone.
    pub fn forward<R: RandomSource<T>>(&mut self, input: &Tensor<T>, rng: &mut R) -> (r: Result<
        Tensor<T>,
        BellandeError,
    >)
        requires
            input.wf(),
        ensures
            forward_result(*old(self), *final(self), input, r),
    {
        if !self.training {
            return Ok(input.duplicate());
        }
        let n = input.data.len();
        let mut mask: Vec<bool> = Vec::new();
        let mut i: usize = 0;
        while i < n
            invariant
                i <= n,
                mask@.len() == i,
            decreases n - i,
        {
            mask.push(rng.keep(self.p));
            i = i + 1;
        }
        let scale = T::one().over(T::one().minus(self.p));
        let output = apply_mask(&input.data, &mask, scale);
        self.mask = Some(mask);
        Ok(
            Tensor::new(
                output,
                copy_shape(&input.shape),
                input.requires_grad,
                input.device,
                input.dtype,
            ),
        )
    }

    /// Applies the cached mask and scale to the incoming gradient.
    ///
    /// Fails with `RuntimeError` when no mask is cached, and with
    /// `DimensionMismatch` when the gradient does not have as many elements
    /// as the mask.
    pub fn backward(&self, grad_output: &Tensor<T>) -> (r: Result<Tensor<T>, BellandeError>)
        requires
            grad_output.wf(),
        ensures
            backward_result(*self, grad_output, r),
    {
        match &self.mask {
            Some(mask) => {
                if mask.len() != grad_output.data.len() {
                    return Err(BellandeError::DimensionMismatch);
                }
                let scale = T::one().over(T::one().minus(self.p));
                let grad = apply_mask(&grad_output.data, mask, scale);
                Ok(
                    Tensor::new(
                        grad,
                        copy_shape(&grad_output.shape),
                        true,
                        grad_output.device,
                        grad_output.dtype,
                    ),
                )
            },
            None => Err(forward_not_called()),
        }
    }
}

} // verus!
