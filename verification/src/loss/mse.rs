//! The mean squared error and its gradient.

use vstd::prelude::*;
use crate::error::BellandeError;
use crate::kernels::{lemma_len_fits, strided_sum, sum_strided};
use crate::loss::Reduction;
use crate::scalar::Scalar;
use crate::shape::{copy_shape, lemma_numel_1, same_shape};
use crate::tensor::Tensor;

verus! {

/// Mean squared error.
pub struct MSELoss {
    pub reduction: Reduction,
}

/// The squared differences of two sequences of equal length.
pub open spec fn squared_error<T: Scalar>(p: Seq<T>, t: Seq<T>) -> Seq<T> {
    Seq::new(p.len(), |i: int| p[i].minus_spec(t[i]).times_spec(p[i].minus_spec(t[i])))
}

/// The sum of a sequence, accumulated from zero in order.
pub open spec fn total<T: Scalar>(s: Seq<T>) -> T {
    strided_sum(s, 0, 1, s.len())
}

/// The mean of a sequence: its total over its length.
pub open spec fn mean<T: Scalar>(s: Seq<T>) -> T {
    total(s).over_spec(T::count_spec(s.len() as usize))
}

/// What the loss holds for a given reduction.
pub open spec fn reduce<T: Scalar>(s: Seq<T>, reduction: Reduction) -> Seq<T> {
    match reduction {
        Reduction::Unreduced => s,
        Reduction::Mean => seq![mean(s)],
        Reduction::Sum => seq![total(s)],
    }
}

pub open spec fn two<T: Scalar>() -> T {
    T::one_spec().plus_spec(T::one_spec())
}

/// The derivative of the reduced squared error with respect to each
/// prediction: twice the difference, divided by the element count under
/// `Mean`.
pub open spec fn squared_error_gradient<T: Scalar>(
    p: Seq<T>,
    t: Seq<T>,
    reduction: Reduction,
) -> Seq<T> {
    Seq::new(
        p.len(),
        |i: int|
            {
                let d = two::<T>().times_spec(p[i].minus_spec(t[i]));
                if reduction == Reduction::Mean {
                    d.over_spec(T::count_spec(p.len() as usize))
                } else {
                    d
                }
            },
    )
}

/// Collapses a vector of per-element losses according to `reduction`.
pub fn reduce_losses<T: Scalar>(loss: Vec<T>, reduction: Reduction) -> (r: Vec<T>)
    ensures
        r@ == reduce(loss@, reduction),
{
    proof {
        lemma_len_fits(&loss);
    }
    match reduction {
        Reduction::Unreduced => loss,
        Reduction::Mean => {
            let n = loss.len();
            let s = sum_strided(&loss, 0, 1, n);
            let mut r: Vec<T> = Vec::new();
            r.push(s.over(T::count(n)));
            assert(r@ =~= seq![mean(loss@)]);
            r
        },
        Reduction::Sum => {
            let n = loss.len();
            let s = sum_strided(&loss, 0, 1, n);
            let mut r: Vec<T> = Vec::new();
            r.push(s);
            assert(r@ =~= seq![total(loss@)]);
            r
        },
    }
}

/// What `forward` returns for a prediction and a target.
pub open spec fn forward_result<T: Scalar>(
    loss: MSELoss,
    prediction: &Tensor<T>,
    target: &Tensor<T>,
    r: Result<Tensor<T>, BellandeError>,
) -> bool {
    &&& prediction.shape@ == target.shape@ ==> r is Ok
    &&& prediction.shape@ != target.shape@ ==> r == Err::<Tensor<T>, BellandeError>(
        BellandeError::DimensionMismatch,
    )
    &&& r matches Ok(t) ==> {
        &&& t.wf()
        &&& t.data@ == reduce(squared_error(prediction.data@, target.data@), loss.reduction)
        &&& t.shape@ == if loss.reduction == Reduction::Unreduced {
            prediction.shape@
        } else {
            seq![1usize]
        }
        &&& t.requires_grad
        &&& t.grad_fn is None
        &&& t.device == prediction.device
        &&& t.dtype == prediction.dtype
    }
}

/// What `backward` returns for a prediction and a target.
pub open spec fn backward_result<T: Scalar>(
    loss: MSELoss,
    prediction: &Tensor<T>,
    target: &Tensor<T>,
    r: Result<Tensor<T>, BellandeError>,
) -> bool {
    &&& prediction.shape@ == target.shape@ ==> r is Ok
    &&& prediction.shape@ != target.shape@ ==> r == Err::<Tensor<T>, BellandeError>(
        BellandeError::DimensionMismatch,
    )
    &&& r matches Ok(t) ==> {
        &&& t.wf()
        &&& t.data@ == squared_error_gradient(
            prediction.data@,
            target.data@,
            loss.reduction,
        )
        &&& t.shape@ == prediction.shape@
        &&& t.requires_grad
        &&& t.grad_fn is None
        &&& t.device == prediction.device
        &&& t.dtype == prediction.dtype
    }
}

impl MSELoss {
    pub fn new(reduction: Reduction) -> (r: Self)
        ensures
            r.reduction == reduction,
    {
        MSELoss { reduction }
    }

    /// The squared error of a prediction against a target of the same
    /// shape, reduced as configured. Unreduced, the loss has the shape of
    /// the prediction; reduced, it is a single element of shape `[1]`.
    pub fn forward<T: Scalar>(&self, prediction: &Tensor<T>, target: &Tensor<T>) -> (r: Result<
        Tensor<T>,
        BellandeError,
    >)
        requires
            prediction.wf(),
            target.wf(),
        ensures
            forward_result(*self, prediction, target, r),
    {
        if !same_shape(&prediction.shape, &target.shape) {
            return Err(BellandeError::DimensionMismatch);
        }
        let n = prediction.data.len();
        let mut loss: Vec<T> = Vec::new();
        let mut i: usize = 0;
        while i < n
            invariant
                i <= n,
                n == prediction.data@.len(),
                n == target.data@.len(),
                loss@.len() == i,
                forall|k: int|
                    0 <= k < i ==> loss@[k] == squared_error(prediction.data@, target.data@)[k],
            decreases n - i,
        {
            let d = prediction.data[i].minus(target.data[i]);
            loss.push(d.times(d));
            i = i + 1;
        }
        assert(loss@ =~= squared_error(prediction.data@, target.data@));
        let reduced = reduce_losses(loss, self.reduction);
        let dims = match self.reduction {
            Reduction::Unreduced => copy_shape(&prediction.shape),
            _ => {
                let mut d: Vec<usize> = Vec::new();
                d.push(1);
                assert(d@ =~= seq![1usize]);
                proof {
                    lemma_numel_1(d@);
                }
                d
            },
        };
        Ok(Tensor::new(reduced, dims, true, prediction.device, prediction.dtype))
    }

    /// The gradient of the reduced loss with respect to the prediction.
    pub fn backward<T: Scalar>(&self, prediction: &Tensor<T>, target: &Tensor<T>) -> (r: Result<
        Tensor<T>,
        BellandeError,
    >)
        requires
            prediction.wf(),
            target.wf(),
        ensures
            backward_result(*self, prediction, target, r),
    {
        if !same_shape(&prediction.shape, &target.shape) {
            return Err(BellandeError::DimensionMismatch);
        }
        let n = prediction.data.len();
        let double = T::one().plus(T::one());
        let count = T::count(n);
        let averaged = match self.reduction {
            Reduction::Mean => true,
            _ => false,
        };
        let mut grad: Vec<T> = Vec::new();
        let mut i: usize = 0;
        while i < n
            invariant
                i <= n,
                n == prediction.data@.len(),
                n == target.data@.len(),
                double == two::<T>(),
                count == T::count_spec(n),
                averaged == (self.reduction == Reduction::Mean),
                grad@.len() == i,
                forall|k: int|
                    0 <= k < i ==> grad@[k] == squared_error_gradient(
                        prediction.data@,
                        target.data@,
                        self.reduction,
                    )[k],
            decreases n - i,
        {
            let d = double.times(prediction.data[i].minus(target.data[i]));
            if averaged {
                grad.push(d.over(count));
            } else {
                grad.push(d);
            }
            i = i + 1;
        }
        assert(grad@ =~= squared_error_gradient(prediction.data@, target.data@, self.reduction));
        Ok(
            Tensor::new(
                grad,
                copy_shape(&prediction.shape),
                true,
                prediction.device,
                prediction.dtype,
            ),
        )
    }
}

} // verus!
