//! Dense tensors with an optional gradient, and their elementwise and
//! matrix operations.

use vstd::prelude::*;
use vstd::slice::slice_to_vec;
use vstd::string::*;
use crate::device::Device;
use crate::dtype::DataType;
use crate::error::BellandeError;
use crate::kernels::{
    copied, dot, dot_grid, filled, lemma_len_fits, minus_seq, minus_vec, plus_seq, plus_vec,
    times_seq, times_vec,
};
use crate::scalar::{RandomSource, Scalar};
use crate::shape::{
    checked_numel, copy_shape, flat2, lemma_flat2_bound, lemma_flat2_order, lemma_numel_2, numel,
    same_shape,
};

verus! {

/// The record of the operation that produced a tensor: which operation it
/// was, and the handles of its operands in the graph that holds them.
#[derive(Copy, Clone, Debug, PartialEq, Eq, Structural)]
pub enum GradFn {
    Add(usize, usize),
    Sub(usize, usize),
    Mul(usize, usize),
    MatMul(usize, usize),
}

/// A dense n-dimensional array in row-major order, with an optional
/// gradient buffer of the same length.
#[derive(Debug)]
pub struct Tensor<T> {
    pub data: Vec<T>,
    pub shape: Vec<usize>,
    pub requires_grad: bool,
    pub grad: Option<Vec<T>>,
    pub grad_fn: Option<GradFn>,
    pub device: Device,
    pub dtype: DataType,
}

/// Element `(i, j)` of the product of an `m × k` matrix `a` and a `k × n`
/// matrix `b`, both row-major: the products `a[i,t] * b[t,j]` accumulated
/// from zero for `t` from `0` to `k - 1`.
pub open spec fn matmul_cell<T: Scalar>(a: Seq<T>, b: Seq<T>, k: int, n: int, i: int, j: int) -> T {
    dot(a, i * k, 1, b, j, n, k as nat)
}

pub open spec fn ones_seq<T: Scalar>(n: nat) -> Seq<T> {
    Seq::new(n, |i: int| T::one_spec())
}

pub open spec fn zeros_seq<T: Scalar>(n: nat) -> Seq<T> {
    Seq::new(n, |i: int| T::zero_spec())
}

impl<T: Scalar> Tensor<T> {
    /// The shape invariant: the data holds exactly as many elements as the
    /// shape describes, and so does the gradient, which exists whenever
    /// gradients are required.
    pub open spec fn wf(&self) -> bool {
        &&& numel(self.shape@) == self.data@.len()
        &&& self.requires_grad ==> self.grad is Some
        &&& self.grad matches Some(g) ==> g@.len() == self.data@.len()
    }

    pub open spec fn rank(&self) -> nat {
        self.shape@.len()
    }

    /// Builds a tensor from its elements and shape. With `requires_grad`
    /// the gradient is allocated and zero.
    pub fn new(
        data: Vec<T>,
        shape: Vec<usize>,
        requires_grad: bool,
        device: Device,
        dtype: DataType,
    ) -> (r: Self)
        requires
            numel(shape@) == data@.len(),
        ensures
            r.wf(),
            r.data@ == data@,
            r.shape@ == shape@,
            r.requires_grad == requires_grad,
            r.grad_fn is None,
            r.device == device,
            r.dtype == dtype,
            requires_grad ==> r.grad is Some && r.grad->0@ == zeros_seq::<T>(data@.len()),
            !requires_grad ==> r.grad is None,
    {
        let grad = if requires_grad {
            Some(filled(T::zero(), data.len()))
        } else {
            None
        };
        Tensor { data, shape, requires_grad, grad, grad_fn: None, device, dtype }
    }

    /// Whether the tensor is well formed: it holds as many elements as its
    /// shape describes, a gradient if it requires one, and as many gradient
    /// elements as elements.
    pub fn is_wf(&self) -> (r: bool)
        ensures
            r == self.wf(),
    {
        proof {
            lemma_len_fits(&self.data);
        }
        let counted = match checked_numel(&self.shape) {
            Some(n) => n == self.data.len(),
            None => false,
        };
        let held = match &self.grad {
            Some(g) => g.len() == self.data.len(),
            None => !self.requires_grad,
        };
        counted && held
    }

    /// Builds a tensor after checking that the data holds exactly as many
    /// elements as the shape describes.
    pub fn try_new(
        data: Vec<T>,
        shape: Vec<usize>,
        requires_grad: bool,
        device: Device,
        dtype: DataType,
    ) -> (r: Result<Self, BellandeError>)
        ensures
            numel(shape@) == data@.len() ==> r is Ok,
            numel(shape@) != data@.len() ==> r matches Err(BellandeError::InvalidShape(_)),
            r matches Ok(t) ==> {
                &&& t.wf()
                &&& t.data@ == data@
                &&& t.shape@ == shape@
                &&& t.requires_grad == requires_grad
                &&& t.grad_fn is None
                &&& t.device == device
                &&& t.dtype == dtype
                &&& requires_grad ==> t.grad is Some && t.grad->0@ == zeros_seq::<T>(data@.len())
                &&& !requires_grad ==> t.grad is None
            },
    {
        let len = data.len();
        match checked_numel(&shape) {
            Some(n) => {
                if n == len {
                    Ok(Tensor::new(data, shape, requires_grad, device, dtype))
                } else {
                    Err(
                        BellandeError::InvalidShape(
                            String::from_str("Data size does not match shape"),
                        ),
                    )
                }
            },
            None => Err(
                BellandeError::InvalidShape(String::from_str("Data size does not match shape")),
            ),
        }
    }

    /// A tensor of the given shape filled with `value`, on the default
    /// device, without gradient.
    pub fn full(shape: &[usize], value: T) -> (r: Self)
        requires
            numel(shape@) <= usize::MAX,
        ensures
            r.wf(),
            r.shape@ == shape@,
            r.data@ == Seq::new(numel(shape@), |i: int| value),
            !r.requires_grad,
            r.grad is None,
            r.grad_fn is None,
            r.device == Device::CPU,
            r.dtype == DataType::Float32,
    {
        let dims = slice_to_vec(shape);
        let size = match checked_numel(&dims) {
            Some(n) => n,
            None => 0,
        };
        Tensor::new(filled(value, size), dims, false, Device::default(), DataType::Float32)
    }

    /// A tensor of zeros.
    pub fn zeros(shape: &[usize]) -> (r: Self)
        requires
            numel(shape@) <= usize::MAX,
        ensures
            r.wf(),
            r.shape@ == shape@,
            r.data@ == zeros_seq::<T>(numel(shape@)),
            !r.requires_grad,
            r.grad is None,
            r.grad_fn is None,
            r.device == Device::CPU,
            r.dtype == DataType::Float32,
    {
        Tensor::full(shape, T::zero())
    }

    /// A tensor of ones.
    pub fn ones(shape: &[usize]) -> (r: Self)
        requires
            numel(shape@) <= usize::MAX,
        ensures
            r.wf(),
            r.shape@ == shape@,
            r.data@ == ones_seq::<T>(numel(shape@)),
            !r.requires_grad,
            r.grad is None,
            r.grad_fn is None,
            r.device == Device::CPU,
            r.dtype == DataType::Float32,
    {
        Tensor::full(shape, T::one())
    }

    /// A tensor whose elements are drawn one by one, in row-major order,
    /// from the standard normal distribution of `rng`.
    pub fn randn<R: RandomSource<T>>(shape: &[usize], rng: &mut R) -> (r: Self)
        requires
            numel(shape@) <= usize::MAX,
        ensures
            r.wf(),
            r.shape@ == shape@,
            !r.requires_grad,
            r.grad is None,
            r.grad_fn is None,
            r.device == Device::CPU,
            r.dtype == DataType::Float32,
    {
        let dims = slice_to_vec(shape);
        let size = match checked_numel(&dims) {
            Some(n) => n,
            None => 0,
        };
        let mut data: Vec<T> = Vec::new();
        let mut i: usize = 0;
        while i < size
            invariant
                i <= size,
                data@.len() == i,
            decreases size - i,
        {
            data.push(rng.standard_normal());
            i = i + 1;
        }
        Tensor::new(data, dims, false, Device::default(), DataType::Float32)
    }

    /// A copy of the tensor: same elements, shape, flags and gradient.
    pub fn duplicate(&self) -> (r: Self)
        requires
            self.wf(),
        ensures
            r.wf(),
            r.data@ == self.data@,
            r.shape@ == self.shape@,
            r.requires_grad == self.requires_grad,
            r.grad is Some == self.grad is Some,
            self.grad matches Some(g) ==> r.grad->0@ == g@,
            r.grad_fn == self.grad_fn,
            r.device == self.device,
            r.dtype == self.dtype,
    {
        let grad = match &self.grad {
            Some(g) => Some(copied(g)),
            None => None,
        };
        Tensor {
            data: copied(&self.data),
            shape: copy_shape(&self.shape),
            requires_grad: self.requires_grad,
            grad,
            grad_fn: self.grad_fn,
            device: self.device,
            dtype: self.dtype,
        }
    }

    /// Whether `backward` accepts the tensor with the given seed: gradients
    /// are enabled and either there is a seed of the tensor's length or the
    /// tensor has at most one element.
    pub open spec fn backward_outcome(&self, seed: Option<Seq<T>>) -> Result<(), BellandeError> {
        if !self.requires_grad {
            Err(BellandeError::NoGradients)
        } else {
            match seed {
                Some(s) => if s.len() == self.data@.len() {
                    Ok(())
                } else {
                    Err(BellandeError::DimensionMismatch)
                },
                None => if self.data@.len() > 1 {
                    Err(BellandeError::InvalidBackward)
                } else {
                    Ok(())
                },
            }
        }
    }

    /// The gradient that `backward` starts from: the seed, or ones where
    /// there is none.
    pub open spec fn seed_flow(&self, seed: Option<Seq<T>>) -> Seq<T> {
        match seed {
            Some(s) => s,
            None => ones_seq::<T>(self.data@.len()),
        }
    }

    /// Checks that `backward` may start here and returns the gradient it
    /// starts from.
    pub fn backward_seed(&self, seed: Option<&Vec<T>>) -> (r: Result<Vec<T>, BellandeError>)
        requires
            self.wf(),
        ensures
            match r {
                Ok(flow) => self.backward_outcome(
                    match seed {
                        Some(s) => Some(s@),
                        None => None,
                    },
                ) is Ok && flow@ == self.seed_flow(
                    match seed {
                        Some(s) => Some(s@),
                        None => None,
                    },
                ),
                Err(e) => self.backward_outcome(
                    match seed {
                        Some(s) => Some(s@),
                        None => None,
                    },
                ) == Err::<(), BellandeError>(e),
            },
    {
        if !self.requires_grad {
            return Err(BellandeError::NoGradients);
        }
        match seed {
            Some(s) => {
                if s.len() != self.data.len() {
                    return Err(BellandeError::DimensionMismatch);
                }
                Ok(copied(s))
            },
            None => {
                if self.data.len() > 1 {
                    return Err(BellandeError::InvalidBackward);
                }
                let flow = filled(T::one(), self.data.len());
                assert(flow@ =~= ones_seq::<T>(self.data@.len()));
                Ok(flow)
            },
        }
    }

    /// What `backward` returns: a tensor that records the operation it
    /// came from is refused, and any other is judged as `backward_outcome`
    /// says.
    pub open spec fn leaf_backward_outcome(&self, seed: Option<Seq<T>>) -> Result<
        (),
        BellandeError,
    > {
        if self.requires_grad && self.grad_fn is Some {
            Err(BellandeError::InvalidBackward)
        } else {
            self.backward_outcome(seed)
        }
    }

    /// Ends backpropagation at this tensor, which records no operation:
    /// the seed, or ones for a tensor of at most one element and no seed,
    /// is added to the gradient.
    ///
    /// A tensor does not hold the operands of the operation it came from;
    /// the graph that made it does. A tensor that records an operation is
    /// therefore refused here, so that no pass stops short of the operands:
    /// `Graph::backward` starts at such a tensor and reaches them.
    ///
    /// Fails, changing nothing, with `NoGradients` when gradients are not
    /// enabled, with `InvalidBackward` when the tensor records an operation
    /// or when there is no seed and the tensor has more than one element,
    /// and with `DimensionMismatch` when the seed does not have the
    /// tensor's length.
    pub fn backward(&mut self, seed: Option<&Vec<T>>) -> (r: Result<(), BellandeError>)
        requires
            old(self).wf(),
        ensures
            final(self).wf(),
            r == old(self).leaf_backward_outcome(
                match seed {
                    Some(s) => Some(s@),
                    None => None,
                },
            ),
            final(self).data@ == old(self).data@,
            final(self).shape@ == old(self).shape@,
            final(self).requires_grad == old(self).requires_grad,
            final(self).grad_fn == old(self).grad_fn,
            final(self).device == old(self).device,
            final(self).dtype == old(self).dtype,
            final(self).grad is Some == old(self).grad is Some,
            r is Err ==> final(self).grad == old(self).grad,
            r is Ok ==> final(self).grad->0@ == plus_seq(
                old(self).grad->0@,
                old(self).seed_flow(
                    match seed {
                        Some(s) => Some(s@),
                        None => None,
                    },
                ),
            ),
    {
        if self.requires_grad && self.grad_fn.is_some() {
            return Err(BellandeError::InvalidBackward);
        }
        match self.backward_seed(seed) {
            Ok(flow) => {
                self.accumulate_grad(&flow);
                Ok(())
            },
            Err(e) => Err(e),
        }
    }

    /// Adds a contribution to the gradient, element by element. A tensor
    /// without a gradient buffer is left as it is.
    pub fn accumulate_grad(&mut self, contribution: &Vec<T>)
        requires
            old(self).wf(),
            contribution@.len() == old(self).data@.len(),
        ensures
            final(self).wf(),
            final(self).data@ == old(self).data@,
            final(self).shape@ == old(self).shape@,
            final(self).requires_grad == old(self).requires_grad,
            final(self).grad_fn == old(self).grad_fn,
            final(self).device == old(self).device,
            final(self).dtype == old(self).dtype,
            final(self).grad is Some == old(self).grad is Some,
            old(self).grad matches Some(g) ==> final(self).grad->0@ == plus_seq(g@, contribution@),
    {
        let sum = match &self.grad {
            Some(g) => Some(plus_vec(g, contribution)),
            None => None,
        };
        self.grad = sum;
    }

    /// Resets the gradient to zero without releasing it. A tensor without a
    /// gradient buffer is left as it is.
    pub fn zero_grad(&mut self)
        requires
            old(self).wf(),
        ensures
            final(self).wf(),
            final(self).data@ == old(self).data@,
            final(self).shape@ == old(self).shape@,
            final(self).requires_grad == old(self).requires_grad,
            final(self).grad_fn == old(self).grad_fn,
            final(self).device == old(self).device,
            final(self).dtype == old(self).dtype,
            final(self).grad is Some == old(self).grad is Some,
            old(self).grad is Some ==> final(self).grad->0@ == zeros_seq::<T>(old(self).data@.len()),
    {
        let cleared = match &self.grad {
            Some(g) => Some(filled(T::zero(), g.len())),
            None => None,
        };
        self.grad = cleared;
    }

    /// Elementwise sum. The operands must have the same shape.
    pub fn add(&self, other: &Tensor<T>) -> (r: Result<Tensor<T>, BellandeError>)
        requires
            self.wf(),
            other.wf(),
        ensures
            self.shape@ == other.shape@ ==> r is Ok,
            self.shape@ != other.shape@ ==> r == Err::<Tensor<T>, BellandeError>(
                BellandeError::DimensionMismatch,
            ),
            r matches Ok(t) ==> {
                &&& t.wf()
                &&& t.shape@ == self.shape@
                &&& t.data@ == plus_seq(self.data@, other.data@)
                &&& t.requires_grad == (self.requires_grad || other.requires_grad)
                &&& t.grad_fn is None
                &&& t.device == self.device
                &&& t.dtype == self.dtype
            },
    {
        if !same_shape(&self.shape, &other.shape) {
            return Err(BellandeError::DimensionMismatch);
        }
        Ok(
            Tensor::new(
                plus_vec(&self.data, &other.data),
                copy_shape(&self.shape),
                self.requires_grad || other.requires_grad,
                self.device,
                self.dtype,
            ),
        )
    }

    /// Elementwise difference. The operands must have the same shape.
    pub fn sub(&self, other: &Tensor<T>) -> (r: Result<Tensor<T>, BellandeError>)
        requires
            self.wf(),
            other.wf(),
        ensures
            self.shape@ == other.shape@ ==> r is Ok,
            self.shape@ != other.shape@ ==> r == Err::<Tensor<T>, BellandeError>(
                BellandeError::DimensionMismatch,
            ),
            r matches Ok(t) ==> {
                &&& t.wf()
                &&& t.shape@ == self.shape@
                &&& t.data@ == minus_seq(self.data@, other.data@)
                &&& t.requires_grad == (self.requires_grad || other.requires_grad)
                &&& t.grad_fn is None
                &&& t.device == self.device
                &&& t.dtype == self.dtype
            },
    {
        if !same_shape(&self.shape, &other.shape) {
            return Err(BellandeError::DimensionMismatch);
        }
        Ok(
            Tensor::new(
                minus_vec(&self.data, &other.data),
                copy_shape(&self.shape),
                self.requires_grad || other.requires_grad,
                self.device,
                self.dtype,
            ),
        )
    }

    /// Elementwise product. The operands must have the same shape.
    pub fn mul(&self, other: &Tensor<T>) -> (r: Result<Tensor<T>, BellandeError>)
        requires
            self.wf(),
            other.wf(),
        ensures
            self.shape@ == other.shape@ ==> r is Ok,
            self.shape@ != other.shape@ ==> r == Err::<Tensor<T>, BellandeError>(
                BellandeError::DimensionMismatch,
            ),
            r matches Ok(t) ==> {
                &&& t.wf()
                &&& t.shape@ == self.shape@
                &&& t.data@ == times_seq(self.data@, other.data@)
                &&& t.requires_grad == (self.requires_grad || other.requires_grad)
                &&& t.grad_fn is None
                &&& t.device == self.device
                &&& t.dtype == self.dtype
            },
    {
        if !same_shape(&self.shape, &other.shape) {
            return Err(BellandeError::DimensionMismatch);
        }
        Ok(
            Tensor::new(
                times_vec(&self.data, &other.data),
                copy_shape(&self.shape),
                self.requires_grad || other.requires_grad,
                self.device,
                self.dtype,
            ),
        )
    }

    /// Matrix product of an `m × k` tensor with a `k × n` tensor.
    ///
    /// Fails with `InvalidShape` unless both operands are two-dimensional
    /// and the result's `m · n` elements can be addressed, and with
    /// `DimensionMismatch` when the inner extents differ.
    pub fn matmul(&self, other: &Tensor<T>) -> (r: Result<Tensor<T>, BellandeError>)
        requires
            self.wf(),
            other.wf(),
        ensures
            match r {
                Ok(t) => {
                    &&& self.rank() == 2 && other.rank() == 2
                    &&& self.shape@[1] == other.shape@[0]
                    &&& t.wf()
                    &&& t.shape@ == seq![self.shape@[0], other.shape@[1]]
                    &&& t.data@.len() == self.shape@[0] * other.shape@[1]
                    &&& forall|i: int, j: int|
                        0 <= i < self.shape@[0] && 0 <= j < other.shape@[1] ==> #[trigger] t.data@[flat2(
                            i,
                            j,
                            other.shape@[1] as int,
                        )] == matmul_cell(
                            self.data@,
                            other.data@,
                            self.shape@[1] as int,
                            other.shape@[1] as int,
                            i,
                            j,
                        )
                    &&& t.requires_grad == (self.requires_grad || other.requires_grad)
                    &&& t.grad_fn is None
                    &&& t.device == self.device
                    &&& t.dtype == self.dtype
                },
                Err(BellandeError::InvalidShape(_)) => self.rank() != 2 || other.rank() != 2 || (
                self.shape@[1] == other.shape@[0] && self.shape@[0] * other.shape@[1]
                    > usize::MAX),
                Err(BellandeError::DimensionMismatch) => self.rank() == 2 && other.rank() == 2
                    && self.shape@[1] != other.shape@[0],
                Err(_) => false,
            },
    {
        if self.shape.len() != 2 || other.shape.len() != 2 {
            return Err(BellandeError::InvalidShape(String::from_str("matmul needs two matrices")));
        }
        let m = self.shape[0];
        let k = self.shape[1];
        let k2 = other.shape[0];
        let n = other.shape[1];
        if k != k2 {
            return Err(BellandeError::DimensionMismatch);
        }
        let total = match m.checked_mul(n) {
            Some(v) => v,
            None => {
                return Err(BellandeError::InvalidShape(String::from_str("matmul result too large")));
            },
        };
        proof {
            lemma_numel_2(self.shape@);
            lemma_numel_2(other.shape@);
            lemma_len_fits(&self.data);
        }
        proof {
            if m > 0 && k > 0 {
                lemma_flat2_bound(m - 1, k - 1, m as int, k as int);
            }
            if n > 0 && k > 0 {
                lemma_flat2_bound(k - 1, n - 1, k as int, n as int);
            }
        }
        let result = dot_grid(&self.data, k, 1, &other.data, 1, n, m, n, k);
        assert forall|i: int, j: int| 0 <= i < m && 0 <= j < n implies #[trigger] result@[flat2(
            i,
            j,
            n as int,
        )] == matmul_cell(self.data@, other.data@, k as int, n as int, i, j) by {
            assert(j * 1 == j);
        }
        let mut dims: Vec<usize> = Vec::new();
        dims.push(m);
        dims.push(n);
        assert(dims@ =~= seq![m, n]);
        proof {
            lemma_numel_2(dims@);
        }
        Ok(
            Tensor::new(
                result,
                dims,
                self.requires_grad || other.requires_grad,
                self.device,
                self.dtype,
            ),
        )
    }

    /// The same elements under another shape of as many elements.
    ///
    /// Fails with `InvalidShape` when the shape does not describe exactly
    /// the elements of the tensor.
    pub fn reshape(&self, shape: &[usize]) -> (r: Result<Tensor<T>, BellandeError>)
        requires
            self.wf(),
        ensures
            numel(shape@) == self.data@.len() ==> r is Ok,
            numel(shape@) != self.data@.len() ==> r matches Err(BellandeError::InvalidShape(_)),
            r matches Ok(t) ==> {
                &&& t.wf()
                &&& t.shape@ == shape@
                &&& t.data@ == self.data@
                &&& t.requires_grad == self.requires_grad
                &&& t.grad_fn is None
                &&& t.device == self.device
                &&& t.dtype == self.dtype
            },
    {
        Tensor::try_new(
            copied(&self.data),
            slice_to_vec(shape),
            self.requires_grad,
            self.device,
            self.dtype,
        )
    }

    /// The transpose of a matrix: element `(j, i)` of the result is element
    /// `(i, j)` of the tensor.
    ///
    /// Fails with `InvalidShape` unless the tensor is two-dimensional.
    pub fn transpose(&self) -> (r: Result<Tensor<T>, BellandeError>)
        requires
            self.wf(),
        ensures
            self.rank() == 2 ==> r is Ok,
            self.rank() != 2 ==> r matches Err(BellandeError::InvalidShape(_)),
            r matches Ok(t) ==> {
                &&& t.wf()
                &&& t.shape@ == seq![self.shape@[1], self.shape@[0]]
                &&& t.data@.len() == self.data@.len()
                &&& forall|i: int, j: int|
                    0 <= i < self.shape@[0] && 0 <= j < self.shape@[1] ==> {
                        let at = #[trigger] flat2(j, i, self.shape@[0] as int);
                        &&& 0 <= at < t.data@.len()
                        &&& 0 <= flat2(i, j, self.shape@[1] as int) < self.data@.len()
                        &&& t.data@[at] == self.data@[flat2(i, j, self.shape@[1] as int)]
                    }
                &&& t.requires_grad == self.requires_grad
                &&& t.grad_fn is None
                &&& t.device == self.device
                &&& t.dtype == self.dtype
            },
    {
        if self.shape.len() != 2 {
            return Err(BellandeError::InvalidShape(String::from_str("transpose needs a matrix")));
        }
        let m = self.shape[0];
        let n = self.shape[1];
        proof {
            lemma_numel_2(self.shape@);
            lemma_len_fits(&self.data);
        }
        let mut out: Vec<T> = Vec::new();
        let mut j: usize = 0;
        while j < n
            invariant
                j <= n,
                self.data@.len() == m * n,
                self.data@.len() <= usize::MAX,
                out@.len() == j * m,
                forall|j2: int, i2: int|
                    0 <= j2 && 0 <= i2 < m && flat2(j2, i2, m as int) < out@.len()
                        ==> #[trigger] out@[flat2(j2, i2, m as int)] == self.data@[flat2(
                        i2,
                        j2,
                        n as int,
                    )],
            decreases n - j,
        {
            let mut i: usize = 0;
            while i < m
                invariant
                    j < n,
                    i <= m,
                    self.data@.len() == m * n,
                    self.data@.len() <= usize::MAX,
                    out@.len() == j * m + i,
                    forall|j2: int, i2: int|
                        0 <= j2 && 0 <= i2 < m && flat2(j2, i2, m as int) < out@.len()
                            ==> #[trigger] out@[flat2(j2, i2, m as int)] == self.data@[flat2(
                            i2,
                            j2,
                            n as int,
                        )],
                decreases m - i,
            {
                proof {
                    lemma_flat2_bound(i as int, j as int, m as int, n as int);
                }
                let ghost before = out@;
                out.push(self.data[crate::shape::index2(i, j, n)]);
                assert forall|j2: int, i2: int|
                    0 <= j2 && 0 <= i2 < m && flat2(j2, i2, m as int)
                        < out@.len() implies #[trigger] out@[flat2(j2, i2, m as int)]
                    == self.data@[flat2(i2, j2, n as int)] by {
                    lemma_flat2_order(j2, i2, j as int, i as int, m as int);
                    if flat2(j2, i2, m as int) < before.len() {
                        assert(out@[flat2(j2, i2, m as int)] == before[flat2(j2, i2, m as int)]);
                    }
                }
                i = i + 1;
            }
            assert(j * m + m == (j + 1) * m) by (nonlinear_arith);
            j = j + 1;
        }
        assert(n * m == m * n) by (nonlinear_arith);
        assert forall|i: int, j: int| 0 <= i < m && 0 <= j < n implies 0 <= #[trigger] flat2(
            j,
            i,
            m as int,
        ) < out@.len() && 0 <= flat2(i, j, n as int) < self.data@.len() by {
            lemma_flat2_bound(j, i, n as int, m as int);
            lemma_flat2_bound(i, j, m as int, n as int);
        }
        let mut dims: Vec<usize> = Vec::new();
        dims.push(n);
        dims.push(m);
        assert(dims@ =~= seq![n, m]);
        proof {
            lemma_numel_2(dims@);
        }
        Ok(Tensor::new(out, dims, self.requires_grad, self.device, self.dtype))
    }

    /// The same elements as a matrix with one row per first coordinate.
    ///
    /// Fails with `InvalidShape` when the tensor has no first extent or the
    /// number of columns cannot be represented.
    pub fn flatten(&self) -> (r: Result<Tensor<T>, BellandeError>)
        requires
            self.wf(),
        ensures
            self.rank() >= 1 && numel(self.shape@.skip(1)) <= usize::MAX ==> r is Ok,
            !(self.rank() >= 1 && numel(self.shape@.skip(1)) <= usize::MAX) ==> r matches Err(
                BellandeError::InvalidShape(_),
            ),
            r matches Ok(t) ==> {
                &&& t.wf()
                &&& t.shape@ == seq![self.shape@[0], numel(self.shape@.skip(1)) as usize]
                &&& t.data@ == self.data@
                &&& t.requires_grad == self.requires_grad
                &&& t.grad_fn is None
                &&& t.device == self.device
                &&& t.dtype == self.dtype
            },
    {
        let n = self.shape.len();
        if n == 0 {
            return Err(BellandeError::InvalidShape(String::from_str("nothing to flatten")));
        }
        let mut rest: Vec<usize> = Vec::new();
        let mut i: usize = 1;
        while i < n
            invariant
                1 <= i <= n,
                n == self.shape@.len(),
                rest@ == self.shape@.subrange(1, i as int),
            decreases n - i,
        {
            rest.push(self.shape[i]);
            assert(rest@ =~= self.shape@.subrange(1, i + 1));
            i = i + 1;
        }
        assert(rest@ =~= self.shape@.skip(1));
        let columns = match checked_numel(&rest) {
            Some(c) => c,
            None => {
                return Err(BellandeError::InvalidShape(String::from_str("too many columns")));
            },
        };
        proof {
            crate::shape::lemma_numel_first(self.shape@);
        }
        let mut dims: Vec<usize> = Vec::new();
        dims.push(self.shape[0]);
        dims.push(columns);
        assert(dims@ =~= seq![self.shape@[0], columns]);
        proof {
            lemma_numel_2(dims@);
        }
        Ok(Tensor::new(copied(&self.data), dims, self.requires_grad, self.device, self.dtype))
    }
}

} // verus!
