//! Binary cross entropy over probabilities, and its gradient.

use vstd::prelude::*;
use crate::error::BellandeError;
use crate::loss::cross_entropy::ln_all;
use crate::loss::mse::{reduce, reduce_losses};
use crate::loss::Reduction;
use crate::scalar::{Scalar, Transcendental};
use crate::shape::{copy_shape, same_shape, shape1};
use crate::tensor::Tensor;

verus! {

/// Binary cross entropy of predicted probabilities against targets.
pub struct BCELoss {
    pub reduction: Reduction,
}

/// `1 - p`, element by element.
pub open spec fn complements<T: Scalar>(p: Seq<T>) -> Seq<T> {
    Seq::new(p.len(), |i: int| T::one_spec().minus_spec(p[i]))
}

/// The loss of every element, where `log_p` stands for the logarithms of
/// the predictions and `log_q` for those of their complements:
/// `0 - (t * log_p + (1 - t) * log_q)`.
pub open spec fn entropy_terms<T: Scalar>(t: Seq<T>, log_p: Seq<T>, log_q: Seq<T>) -> Seq<T> {
    Seq::new(
        t.len(),
        |i: int|
            T::zero_spec().minus_spec(
                t[i].times_spec(log_p[i]).plus_spec(
                    T::one_spec().minus_spec(t[i]).times_spec(log_q[i]),
                ),
            ),
    )
}

/// The derivative of the reduced loss with respect to each prediction:
/// `(p - t) / (p * (1 - p))`, divided by the element count under `Mean`.
pub open spec fn entropy_gradient<T: Scalar>(p: Seq<T>, t: Seq<T>, reduction: Reduction) -> Seq<T> {
    Seq::new(
        p.len(),
        |i: int|
            {
                let d = p[i].minus_spec(t[i]).over_spec(
                    p[i].times_spec(T::one_spec().minus_spec(p[i])),
                );
                if reduction == Reduction::Mean {
                    d.over_spec(T::count_spec(p.len() as usize))
                } else {
                    d
                }
            },
    )
}

/// Whether `loss` is the reduced loss for logarithms of the right number.
pub open spec fn loss_is<T: Scalar>(
    loss: Seq<T>,
    t: Seq<T>,
    log_p: Seq<T>,
    log_q: Seq<T>,
    reduction: Reduction,
) -> bool {
    &&& log_p.len() == t.len()
    &&& log_q.len() == t.len()
    &&& loss == reduce(entropy_terms(t, log_p, log_q), reduction)
}

fn complements_of<T: Scalar>(p: &Vec<T>) -> (r: Vec<T>)
    ensures
        r@ == complements(p@),
{
    let n = p.len();
    let one = T::one();
    let mut r: Vec<T> = Vec::new();
    let mut i: usize = 0;
    while i < n
        invariant
            i <= n,
            n == p@.len(),
            one == T::one_spec(),
            r@.len() == i,
            forall|k: int| 0 <= k < i ==> r@[k] == complements(p@)[k],
        decreases n - i,
    {
        r.push(one.minus(p[i]));
        i = i + 1;
    }
    assert(r@ =~= complements(p@));
    r
}

/// What `forward` returns for a prediction and a target.
pub open spec fn forward_result<T: Scalar>(
    loss: BCELoss,
    prediction: &Tensor<T>,
    target: &Tensor<T>,
    r: Result<Tensor<T>, BellandeError>,
) -> bool {
    &&& prediction.shape@ == target.shape@ ==> r is Ok
    &&& prediction.shape@ != target.shape@ ==> r == Err::<Tensor<T>, BellandeError>(
        BellandeError::DimensionMismatch,
    )
    &&& r matches Ok(t) ==> {
        &&& t.wf()
        &&& exists|log_p: Seq<T>, log_q: Seq<T>| #[trigger]
            loss_is(t.data@, target.data@, log_p, log_q, loss.reduction)
        &&& t.shape@ == if loss.reduction == Reduction::Unreduced {
            prediction.shape@
        } else {
            seq![1usize]
        }
        &&& t.requires_grad
        &&& t.grad_fn is None
        &&& t.device == prediction.device
        &&& t.dtype == prediction.dtype
    }
}

/// What `backward` returns for a prediction and a target.
pub open spec fn backward_result<T: Scalar>(
    loss: BCELoss,
    prediction: &Tensor<T>,
    target: &Tensor<T>,
    r: Result<Tensor<T>, BellandeError>,
) -> bool {
    &&& prediction.shape@ == target.shape@ ==> r is Ok
    &&& prediction.shape@ != target.shape@ ==> r == Err::<Tensor<T>, BellandeError>(
        BellandeError::DimensionMismatch,
    )
    &&& r matches Ok(t) ==> {
        &&& t.wf()
        &&& t.data@ == entropy_gradient(prediction.data@, target.data@, loss.reduction)
        &&& t.shape@ == prediction.shape@
        &&& t.requires_grad
        &&& t.grad_fn is None
        &&& t.device == prediction.device
        &&& t.dtype == prediction.dtype
    }
}

impl BCELoss {
    pub fn new(reduction: Reduction) -> (r: Self)
        ensures
            r.reduction == reduction,
    {
        BCELoss { reduction }
    }

    /// The loss from the logarithms of the predictions and of their
    /// complements, reduced as configured. Unreduced, the loss has the
    /// shape of the prediction; reduced, it is a single element of shape
    /// `[1]`.
    pub fn loss_from_logs<T: Scalar>(
        &self,
        log_p: &Vec<T>,
        log_q: &Vec<T>,
        prediction: &Tensor<T>,
        target: &Tensor<T>,
    ) -> (t: Tensor<T>)
        requires
            prediction.wf(),
            target.wf(),
            prediction.shape@ == target.shape@,
            log_p@.len() == prediction.data@.len(),
            log_q@.len() == prediction.data@.len(),
        ensures
            t.wf(),
            t.data@ == reduce(entropy_terms(target.data@, log_p@, log_q@), self.reduction),
            t.shape@ == if self.reduction == Reduction::Unreduced {
                prediction.shape@
            } else {
                seq![1usize]
            },
            t.requires_grad,
            t.grad_fn is None,
            t.device == prediction.device,
            t.dtype == prediction.dtype,
    {
        let n = target.data.len();
        let zero = T::zero();
        let one = T::one();
        let mut loss: Vec<T> = Vec::new();
        let mut i: usize = 0;
        while i < n
            invariant
                i <= n,
                n == target.data@.len(),
                n == log_p@.len(),
                n == log_q@.len(),
                zero == T::zero_spec(),
                one == T::one_spec(),
                loss@.len() == i,
                forall|k: int|
                    0 <= k < i ==> loss@[k] == entropy_terms(target.data@, log_p@, log_q@)[k],
            decreases n - i,
        {
            let t = target.data[i];
            loss.push(zero.minus(t.times(log_p[i]).plus(one.minus(t).times(log_q[i]))));
            i = i + 1;
        }
        assert(loss@ =~= entropy_terms(target.data@, log_p@, log_q@));
        let reduced = reduce_losses(loss, self.reduction);
        let dims = match self.reduction {
            Reduction::Unreduced => copy_shape(&prediction.shape),
            _ => shape1(1),
        };
        Tensor::new(reduced, dims, true, prediction.device, prediction.dtype)
    }

    /// The binary cross entropy of a prediction against a target of the
    /// same shape, reduced as configured. The logarithms are only
    /// approximations, so the loss is that of some logarithms.
    pub fn forward<T: Transcendental>(&self, prediction: &Tensor<T>, target: &Tensor<T>) -> (r:
        Result<Tensor<T>, BellandeError>)
        requires
            prediction.wf(),
            target.wf(),
        ensures
            forward_result(*self, prediction, target, r),
    {
        if !same_shape(&prediction.shape, &target.shape) {
            return Err(BellandeError::DimensionMismatch);
        }
        let log_p = ln_all(&prediction.data);
        let log_q = ln_all(&complements_of(&prediction.data));
        let t = self.loss_from_logs(&log_p, &log_q, prediction, target);
        assert(loss_is(t.data@, target.data@, log_p@, log_q@, self.reduction));
        Ok(t)
    }

    /// The gradient of the reduced loss with respect to the prediction.
    pub fn backward<T: Scalar>(&self, prediction: &Tensor<T>, target: &Tensor<T>) -> (r: Result<
        Tensor<T>,
        BellandeError,
    >)
        requires
            prediction.wf(),
            target.wf(),
        ensures
            backward_result(*self, prediction, target, r),
    {
        if !same_shape(&prediction.shape, &target.shape) {
            return Err(BellandeError::DimensionMismatch);
        }
        let n = prediction.data.len();
        let one = T::one();
        let count = T::count(n);
        let averaged = match self.reduction {
            Reduction::Mean => true,
            _ => false,
        };
        let mut grad: Vec<T> = Vec::new();
        let mut i: usize = 0;
        while i < n
            invariant
                i <= n,
                n == prediction.data@.len(),
                n == target.data@.len(),
                one == T::one_spec(),
                count == T::count_spec(n),
                averaged == (self.reduction == Reduction::Mean),
                grad@.len() == i,
                forall|k: int|
                    0 <= k < i ==> grad@[k] == entropy_gradient(
                        prediction.data@,
                        target.data@,
                        self.reduction,
                    )[k],
            decreases n - i,
        {
            let p = prediction.data[i];
            let d = p.minus(target.data[i]).over(p.times(one.minus(p)));
            if averaged {
                grad.push(d.over(count));
            } else {
                grad.push(d);
            }
            i = i + 1;
        }
        assert(grad@ =~= entropy_gradient(prediction.data@, target.data@, self.reduction));
        Ok(
            Tensor::new(
                grad,
                copy_shape(&prediction.shape),
                true,
                prediction.device,
                prediction.dtype,
            ),
        )
    }
}

} // verus!
