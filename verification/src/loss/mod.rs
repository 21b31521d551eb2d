//! Loss functions: what they share, and the reductions of their values.

pub mod bce;
pub mod cross_entropy;
pub mod mse;

use vstd::prelude::*;
use vstd::string::*;
use crate::error::BellandeError;
use crate::loss::bce::BCELoss;
use crate::loss::mse::{reduce, reduce_losses, MSELoss};
use crate::scalar::{Scalar, Transcendental};
use crate::shape::{copy_shape, same_shape, shape1};
use crate::tensor::Tensor;

verus! {

/// How a per-element loss is collapsed: left as it is, averaged over all
/// elements, or summed.
#[derive(Debug, Clone, Copy, PartialEq, Eq, Structural)]
pub enum Reduction {
    Unreduced,
    Mean,
    Sum,
}

/// A loss function: the loss of an output against a target, and the
/// gradient of the loss with respect to the output.
pub trait Loss<T: Scalar> {
    fn forward(&self, output: &Tensor<T>, target: &Tensor<T>) -> (r: Result<Tensor<T>, BellandeError>)
        requires
            output.wf(),
            target.wf(),
        ensures
            r matches Ok(t) ==> t.wf(),
    ;

    fn backward(&self, output: &Tensor<T>, target: &Tensor<T>) -> (r: Result<
        Tensor<T>,
        BellandeError,
    >)
        requires
            output.wf(),
            target.wf(),
        ensures
            r matches Ok(t) ==> t.wf() && t.shape@ == output.shape@,
    ;

    /// What `name` returns.
    spec fn name_spec(&self) -> &'static str;

    /// What `reduction` returns.
    spec fn reduction_spec(&self) -> Reduction;

    /// The name of the loss function.
    fn name(&self) -> (r: &'static str)
        ensures
            r@ == self.name_spec()@,
    ;

    /// The reduction that the loss function uses.
    fn reduction(&self) -> (r: Reduction)
        ensures
            r == self.reduction_spec(),
    ;
}

/// A loss function that can be made without arguments.
pub trait LossInit<T: Scalar>: Loss<T> + Sized {
    /// What `new` returns.
    spec fn new_spec() -> Self;

    /// What `new_with_reduction` returns.
    spec fn new_with_reduction_spec(reduction: Reduction) -> Self;

    fn new() -> (r: Self)
        ensures
            r == Self::new_spec(),
    ;

    fn new_with_reduction(reduction: Reduction) -> (r: Self)
        ensures
            r == Self::new_with_reduction_spec(reduction),
    ;
}

/// A loss function that borrows nothing.
pub trait StaticLoss<T: Scalar>: Loss<T> {

}

/// A loss function that weighs samples.
pub trait WeightedLoss<T: Scalar>: Loss<T> {
    fn forward_weighted(
        &self,
        output: &Tensor<T>,
        target: &Tensor<T>,
        weights: &Tensor<T>,
    ) -> Result<Tensor<T>, BellandeError>;

    fn backward_weighted(
        &self,
        output: &Tensor<T>,
        target: &Tensor<T>,
        weights: &Tensor<T>,
    ) -> Result<Tensor<T>, BellandeError>;
}

/// A loss function that weighs classes.
pub trait ClassWeightedLoss<T: Scalar>: Loss<T> {
    fn set_class_weights(&mut self, weights: Tensor<T>) -> Result<(), BellandeError>;

    fn get_class_weights(&self) -> Option<&Tensor<T>>;
}

impl<T: Scalar> Loss<T> for MSELoss {
    open spec fn name_spec(&self) -> &'static str {
        "MSELoss"
    }

    open spec fn reduction_spec(&self) -> Reduction {
        self.reduction
    }

    fn forward(&self, output: &Tensor<T>, target: &Tensor<T>) -> (r: Result<Tensor<T>, BellandeError>)
        ensures
            crate::loss::mse::forward_result(*self, output, target, r),
    {
        MSELoss::forward(self, output, target)
    }

    fn backward(&self, output: &Tensor<T>, target: &Tensor<T>) -> (r: Result<
        Tensor<T>,
        BellandeError,
    >)
        ensures
            crate::loss::mse::backward_result(*self, output, target, r),
    {
        MSELoss::backward(self, output, target)
    }

    fn name(&self) -> &'static str {
        "MSELoss"
    }

    fn reduction(&self) -> Reduction {
        self.reduction
    }
}

impl<T: Transcendental> Loss<T> for BCELoss {
    open spec fn name_spec(&self) -> &'static str {
        "BCELoss"
    }

    open spec fn reduction_spec(&self) -> Reduction {
        self.reduction
    }

    fn forward(&self, output: &Tensor<T>, target: &Tensor<T>) -> (r: Result<Tensor<T>, BellandeError>)
        ensures
            crate::loss::bce::forward_result(*self, output, target, r),
    {
        BCELoss::forward(self, output, target)
    }

    fn backward(&self, output: &Tensor<T>, target: &Tensor<T>) -> (r: Result<
        Tensor<T>,
        BellandeError,
    >)
        ensures
            crate::loss::bce::backward_result(*self, output, target, r),
    {
        BCELoss::backward(self, output, target)
    }

    fn name(&self) -> &'static str {
        "BCELoss"
    }

    fn reduction(&self) -> Reduction {
        self.reduction
    }
}

impl<T: Scalar> LossInit<T> for MSELoss {
    open spec fn new_spec() -> Self {
        MSELoss { reduction: Reduction::Mean }
    }

    open spec fn new_with_reduction_spec(reduction: Reduction) -> Self {
        MSELoss { reduction }
    }

    fn new() -> (r: Self) {
        MSELoss { reduction: Reduction::Mean }
    }

    fn new_with_reduction(reduction: Reduction) -> (r: Self) {
        MSELoss { reduction }
    }
}

impl<T: Scalar> StaticLoss<T> for MSELoss {

}

/// What the shapes of an output and a target that differ are reported with.
pub open spec fn shapes_differ() -> Seq<char> {
    "Output shape doesn't match target shape"@
}

/// Checks that an output and a target have the same shape.
pub fn validate_shapes<T: Scalar>(output: &Tensor<T>, target: &Tensor<T>) -> (r: Result<
    (),
    BellandeError,
>)
    ensures
        output.shape@ == target.shape@ ==> r is Ok,
        output.shape@ != target.shape@ ==> (r matches Err(BellandeError::ShapeMismatch(m)) && m@
            == shapes_differ()),
{
    if !same_shape(&output.shape, &target.shape) {
        return Err(
            BellandeError::ShapeMismatch(
                String::from_str("Output shape doesn't match target shape"),
            ),
        );
    }
    Ok(())
}

/// Collapses a loss as the reduction says: unreduced it stays as it is,
/// otherwise it becomes the mean or the sum of its elements, as a single
/// element of shape `[1]`.
pub fn apply_reduction<T: Scalar>(loss: Tensor<T>, reduction: Reduction) -> (r: Result<
    Tensor<T>,
    BellandeError,
>)
    requires
        loss.wf(),
    ensures
        r matches Ok(t) && {
            &&& t.wf()
            &&& t.data@ == reduce(loss.data@, reduction)
            &&& t.shape@ == if reduction == Reduction::Unreduced {
                loss.shape@
            } else {
                seq![1usize]
            }
            &&& t.requires_grad == loss.requires_grad
            &&& t.device == loss.device
            &&& t.dtype == loss.dtype
        },
{
    let dims = match reduction {
        Reduction::Unreduced => copy_shape(&loss.shape),
        _ => shape1(1),
    };
    let requires_grad = loss.requires_grad;
    let device = loss.device;
    let dtype = loss.dtype;
    Ok(Tensor::new(reduce_losses(loss.data, reduction), dims, requires_grad, device, dtype))
}

} // verus!
