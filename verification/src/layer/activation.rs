//! The rectified linear unit.

use vstd::prelude::*;
use crate::error::{forward_not_called, not_called, BellandeError};
use crate::scalar::Scalar;
use crate::shape::copy_shape;
use crate::tensor::Tensor;

verus! {

/// The rectifier: elements that exceed zero pass, the others become zero.
pub struct ReLU<T> {
    pub input_cache: Option<Tensor<T>>,
}

pub open spec fn rectified<T: Scalar>(x: Seq<T>) -> Seq<T> {
    Seq::new(
        x.len(),
        |i: int|
            if x[i].exceeds_spec(T::zero_spec()) {
                x[i]
            } else {
                T::zero_spec()
            },
    )
}

/// The gradient passes where the input exceeded zero and is zero elsewhere.
pub open spec fn rectified_grad<T: Scalar>(g: Seq<T>, x: Seq<T>) -> Seq<T> {
    Seq::new(
        g.len(),
        |i: int|
            if x[i].exceeds_spec(T::zero_spec()) {
                g[i]
            } else {
                T::zero_spec()
            },
    )
}

/// What `forward` returns for `input` and how it changes the layer.
pub open spec fn forward_result<T: Scalar>(
    before: ReLU<T>,
    after: ReLU<T>,
    input: &Tensor<T>,
    r: Result<Tensor<T>, BellandeError>,
) -> bool {
    &&& after.wf()
    &&& r matches Ok(t) && {
        &&& t.wf()
        &&& t.shape@ == input.shape@
        &&& t.data@ == rectified(input.data@)
        &&& t.requires_grad == input.requires_grad
        &&& t.grad_fn is None
        &&& t.device == input.device
        &&& t.dtype == input.dtype
        &&& after.input_cache is Some
        &&& after.input_cache->0.data@ == input.data@
        &&& after.input_cache->0.shape@ == input.shape@
    }
}

/// What `backward` returns for `grad_output`.
pub open spec fn backward_result<T: Scalar>(
    layer: ReLU<T>,
    grad_output: &Tensor<T>,
    r: Result<Tensor<T>, BellandeError>,
) -> bool {
    &&& match r {
        Ok(t) => {
            &&& layer.input_cache is Some
            &&& layer.input_cache->0.shape@ == grad_output.shape@
            &&& t.wf()
            &&& t.shape@ == grad_output.shape@
            &&& t.data@ == rectified_grad(grad_output.data@, layer.input_cache->0.data@)
            &&& t.requires_grad
            &&& t.grad_fn is None
            &&& t.device == grad_output.device
            &&& t.dtype == grad_output.dtype
        },
        Err(BellandeError::RuntimeError(m)) => layer.input_cache is None && m@
            == not_called(),
        Err(BellandeError::DimensionMismatch) => layer.input_cache is Some
            && layer.input_cache->0.shape@ != grad_output.shape@,
        Err(_) => false,
    }
}

impl<T: Scalar> ReLU<T> {
    pub open spec fn wf(&self) -> bool {
        self.input_cache matches Some(x) ==> x.wf()
    }

    /// Whether the layer is well formed: a cached input is.
    pub fn is_wf(&self) -> (r: bool)
        ensures
            r == self.wf(),
    {
        match &self.input_cache {
            Some(x) => x.is_wf(),
            None => true,
        }
    }

    pub fn new() -> (r: Self)
        ensures
            r.wf(),
            r.input_cache is None,
    {
        ReLU { input_cache: None }
    }

    /// Rectifies the input and caches it for `backward`.
    pub fn forward(&mut self, input: &Tensor<T>) -> (r: Result<Tensor<T>, BellandeError>)
        requires
            input.wf(),
        ensures
            forward_result(*old(self), *final(self), input, r),
    {
        let n = input.data.len();
        let zero = T::zero();
        let mut out: Vec<T> = Vec::new();
        let mut i: usize = 0;
        while i < n
            invariant
                i <= n,
                n == input.data@.len(),
                zero == T::zero_spec(),
                out@.len() == i,
                forall|k: int| 0 <= k < i ==> out@[k] == rectified(input.data@)[k],
            decreases n - i,
        {
            let v = input.data[i];
            if v.exceeds(zero) {
                out.push(v);
            } else {
                out.push(zero);
            }
            i = i + 1;
        }
        assert(out@ =~= rectified(input.data@));
        self.input_cache = Some(input.duplicate());
        Ok(
            Tensor::new(
                out,
                copy_shape(&input.shape),
                input.requires_grad,
                input.device,
                input.dtype,
            ),
        )
    }

    /// Passes the gradient where the cached input exceeded zero.
    ///
    /// Fails with `RuntimeError` when `forward` was never called, and with
    /// `DimensionMismatch` when the gradient does not have the shape of the
    /// cached input.
    pub fn backward(&self, grad_output: &Tensor<T>) -> (r: Result<Tensor<T>, BellandeError>)
        requires
            self.wf(),
            grad_output.wf(),
        ensures
            backward_result(*self, grad_output, r),
    {
        let x = match &self.input_cache {
            Some(x) => x,
            None => {
                return Err(forward_not_called());
            },
        };
        if !crate::shape::same_shape(&x.shape, &grad_output.shape) {
            return Err(BellandeError::DimensionMismatch);
        }
        let n = grad_output.data.len();
        let zero = T::zero();
        let mut out: Vec<T> = Vec::new();
        let mut i: usize = 0;
        while i < n
            invariant
                i <= n,
                n == grad_output.data@.len(),
                n == x.data@.len(),
                zero == T::zero_spec(),
                out@.len() == i,
                forall|k: int|
                    0 <= k < i ==> out@[k] == rectified_grad(grad_output.data@, x.data@)[k],
            decreases n - i,
        {
            if x.data[i].exceeds(zero) {
                out.push(grad_output.data[i]);
            } else {
                out.push(zero);
            }
            i = i + 1;
        }
        assert(out@ =~= rectified_grad(grad_output.data@, x.data@));
        Ok(
            Tensor::new(
                out,
                copy_shape(&grad_output.shape),
                true,
                grad_output.device,
                grad_output.dtype,
            ),
        )
    }
}

} // verus!
