use bellande::device::Device;
use bellande::dtype::DataType;
use bellande::error::BellandeError;
use bellande::scalar::Scalar;
use bellande::tensor::{GradFn, Tensor};

#[derive(Clone, Copy, Debug, PartialEq)]
struct F(f32);

impl Scalar for F {
    fn zero_spec() -> Self {
        F(0.0)
    }
    fn one_spec() -> Self {
        F(1.0)
    }
    fn lowest_spec() -> Self {
        F(f32::NEG_INFINITY)
    }
    fn highest_spec() -> Self {
        F(f32::INFINITY)
    }
    fn count_spec(n: usize) -> Self {
        F(n as f32)
    }
    fn plus_spec(self, rhs: Self) -> Self {
        F(self.0 + rhs.0)
    }
    fn minus_spec(self, rhs: Self) -> Self {
        F(self.0 - rhs.0)
    }
    fn times_spec(self, rhs: Self) -> Self {
        F(self.0 * rhs.0)
    }
    fn over_spec(self, rhs: Self) -> Self {
        F(self.0 / rhs.0)
    }
    fn root_spec(self) -> Self {
        F(self.0.sqrt())
    }
    fn exceeds_spec(self, rhs: Self) -> bool {
        self.0 > rhs.0
    }
    fn equals_spec(self, rhs: Self) -> bool {
        self.0 == rhs.0
    }
    fn zero() -> Self {
        F(0.0)
    }
    fn one() -> Self {
        F(1.0)
    }
    fn lowest() -> Self {
        F(f32::NEG_INFINITY)
    }
    fn highest() -> Self {
        F(f32::INFINITY)
    }
    fn count(n: usize) -> Self {
        F(n as f32)
    }
    fn plus(self, rhs: Self) -> Self {
        F(self.0 + rhs.0)
    }
    fn minus(self, rhs: Self) -> Self {
        F(self.0 - rhs.0)
    }
    fn times(self, rhs: Self) -> Self {
        F(self.0 * rhs.0)
    }
    fn over(self, rhs: Self) -> Self {
        F(self.0 / rhs.0)
    }
    fn root(self) -> Self {
        F(self.0.sqrt())
    }
    fn exceeds(self, rhs: Self) -> bool {
        self.0 > rhs.0
    }
    fn equals(self, rhs: Self) -> bool {
        self.0 == rhs.0
    }
}

fn tensor(values: &[f32], shape: &[usize]) -> Tensor<F> {
    Tensor::try_new(
        values.iter().map(|v| F(*v)).collect(),
        shape.to_vec(),
        false,
        Device::CPU,
        DataType::Float32,
    )
    .unwrap()
}

fn values(t: &Tensor<F>) -> Vec<f32> {
    t.data.iter().map(|v| v.0).collect()
}

fn close(a: &[f32], b: &[f32], tolerance: f32) -> bool {
    a.len() == b.len() && a.iter().zip(b.iter()).all(|(x, y)| (x - y).abs() <= tolerance)
}

#[test]
fn matmul_two_by_two() {
    let a = tensor(&[1.0, 2.0, 3.0, 4.0], &[2, 2]);
    let b = tensor(&[5.0, 6.0, 7.0, 8.0], &[2, 2]);
    let c = a.matmul(&b).unwrap();
    assert_eq!(c.shape, vec![2, 2]);
    assert_eq!(values(&c), vec![19.0, 22.0, 43.0, 50.0]);
}

#[test]
fn matmul_rectangular() {
    let a = tensor(&[1.0, 2.0, 3.0, 4.0, 5.0, 6.0], &[2, 3]);
    let b = tensor(&[1.0, 0.0, 0.0, 1.0, 2.0, 3.0], &[3, 2]);
    let c = a.matmul(&b).unwrap();
    assert_eq!(c.shape, vec![2, 2]);
    assert_eq!(values(&c), vec![7.0, 11.0, 16.0, 23.0]);
}

#[test]
fn matmul_rejects_inner_mismatch() {
    let a = tensor(&[1.0, 2.0, 3.0, 4.0, 5.0, 6.0], &[2, 3]);
    let b = tensor(&[5.0, 6.0, 7.0, 8.0], &[2, 2]);
    assert_eq!(a.matmul(&b).unwrap_err(), BellandeError::DimensionMismatch);
}

#[test]
fn matmul_rejects_other_ranks() {
    let a = tensor(&[1.0, 2.0, 3.0, 4.0], &[4]);
    let b = tensor(&[5.0, 6.0, 7.0, 8.0], &[2, 2]);
    assert!(matches!(a.matmul(&b), Err(BellandeError::InvalidShape(_))));
    assert!(matches!(b.matmul(&a), Err(BellandeError::InvalidShape(_))));
}

#[test]
fn matmul_result_requires_grad_if_an_operand_does() {
    let mut a = tensor(&[1.0, 2.0, 3.0, 4.0], &[2, 2]);
    let b = tensor(&[5.0, 6.0, 7.0, 8.0], &[2, 2]);
    assert!(!a.matmul(&b).unwrap().requires_grad);
    a.requires_grad = true;
    a.grad = Some(vec![F(0.0); 4]);
    let c = a.matmul(&b).unwrap();
    assert!(c.requires_grad);
    assert_eq!(c.grad.as_ref().map(|g| g.len()), Some(4));
}

#[test]
fn elementwise_operations() {
    let a = tensor(&[1.0, 2.0, 3.0], &[3]);
    let b = tensor(&[4.0, 6.0, 8.0], &[3]);
    assert_eq!(values(&a.add(&b).unwrap()), vec![5.0, 8.0, 11.0]);
    assert_eq!(values(&a.sub(&b).unwrap()), vec![-3.0, -4.0, -5.0]);
    assert_eq!(values(&a.mul(&b).unwrap()), vec![4.0, 12.0, 24.0]);
}

#[test]
fn elementwise_operations_reject_other_shapes() {
    let a = tensor(&[1.0, 2.0, 3.0, 4.0], &[4]);
    let b = tensor(&[1.0, 2.0, 3.0, 4.0], &[2, 2]);
    assert_eq!(a.add(&b).unwrap_err(), BellandeError::DimensionMismatch);
    assert_eq!(a.sub(&b).unwrap_err(), BellandeError::DimensionMismatch);
    assert_eq!(a.mul(&b).unwrap_err(), BellandeError::DimensionMismatch);
}

#[test]
fn construction_checks_the_shape() {
    let bad = Tensor::try_new(vec![F(1.0); 5], vec![2, 3], false, Device::CPU, DataType::Float32);
    assert!(matches!(bad, Err(BellandeError::InvalidShape(_))));
    let good = Tensor::try_new(vec![F(1.0); 6], vec![2, 3], true, Device::CPU, DataType::Float32)
        .unwrap();
    assert_eq!(good.data.len(), 6);
    assert_eq!(good.grad, Some(vec![F(0.0); 6]));
    let scalar = Tensor::try_new(vec![F(1.0)], vec![], false, Device::CPU, DataType::Float32);
    assert!(scalar.is_ok());
}

#[test]
fn construction_rejects_shapes_that_overflow() {
    let bad = Tensor::try_new(
        Vec::<F>::new(),
        vec![usize::MAX, 2],
        false,
        Device::CPU,
        DataType::Float32,
    );
    assert!(matches!(bad, Err(BellandeError::InvalidShape(_))));
    let empty = Tensor::try_new(
        Vec::<F>::new(),
        vec![usize::MAX, 2, 0],
        false,
        Device::CPU,
        DataType::Float32,
    );
    assert!(empty.is_ok());
}

#[test]
fn zeros_and_ones() {
    let z: Tensor<F> = Tensor::zeros(&[2, 3]);
    assert_eq!(z.shape, vec![2, 3]);
    assert_eq!(values(&z), vec![0.0; 6]);
    assert!(!z.requires_grad);
    assert_eq!(z.grad, None);
    assert_eq!(z.device, Device::CPU);
    assert_eq!(z.dtype, DataType::Float32);
    let o: Tensor<F> = Tensor::ones(&[4]);
    assert_eq!(values(&o), vec![1.0; 4]);
}

#[test]
fn shape_invariant_holds_after_every_operation() {
    let a = tensor(&[1.0, 2.0, 3.0, 4.0, 5.0, 6.0], &[2, 3]);
    let product = |t: &Tensor<F>| t.shape.iter().product::<usize>();
    assert_eq!(product(&a), a.data.len());
    let r = a.reshape(&[3, 2]).unwrap();
    assert_eq!(product(&r), r.data.len());
    let t = a.transpose().unwrap();
    assert_eq!(product(&t), t.data.len());
    let f = a.flatten().unwrap();
    assert_eq!(product(&f), f.data.len());
    let m = a.matmul(&t).unwrap();
    assert_eq!(product(&m), m.data.len());
    let s = a.add(&a).unwrap();
    assert_eq!(product(&s), s.data.len());
}

#[test]
fn reshape_keeps_the_elements() {
    let a = tensor(&[1.0, 2.0, 3.0, 4.0, 5.0, 6.0], &[2, 3]);
    let r = a.reshape(&[3, 2]).unwrap();
    assert_eq!(r.shape, vec![3, 2]);
    assert_eq!(values(&r), vec![1.0, 2.0, 3.0, 4.0, 5.0, 6.0]);
    assert!(matches!(a.reshape(&[4, 2]), Err(BellandeError::InvalidShape(_))));
}

#[test]
fn transpose_swaps_rows_and_columns() {
    let a = tensor(&[1.0, 2.0, 3.0, 4.0, 5.0, 6.0], &[2, 3]);
    let t = a.transpose().unwrap();
    assert_eq!(t.shape, vec![3, 2]);
    assert_eq!(values(&t), vec![1.0, 4.0, 2.0, 5.0, 3.0, 6.0]);
    let v = tensor(&[1.0, 2.0], &[2]);
    assert!(matches!(v.transpose(), Err(BellandeError::InvalidShape(_))));
}

#[test]
fn flatten_makes_one_row_per_sample() {
    let a = tensor(&[0.0; 24], &[2, 3, 2, 2]);
    let f = a.flatten().unwrap();
    assert_eq!(f.shape, vec![2, 12]);
    let s = Tensor::try_new(vec![F(1.0)], vec![], false, Device::CPU, DataType::Float32).unwrap();
    assert!(matches!(s.flatten(), Err(BellandeError::InvalidShape(_))));
}

#[test]
fn backward_needs_gradients() {
    let mut a = tensor(&[1.0], &[1]);
    assert_eq!(a.backward(None), Err(BellandeError::NoGradients));
}

#[test]
fn backward_of_a_scalar_starts_from_one() {
    let mut a =
        Tensor::try_new(vec![F(3.0)], vec![1], true, Device::CPU, DataType::Float32).unwrap();
    assert_eq!(a.backward(None), Ok(()));
    assert_eq!(a.grad, Some(vec![F(1.0)]));
}

#[test]
fn backward_of_a_vector_needs_a_seed() {
    let mut a = Tensor::try_new(vec![F(3.0); 2], vec![2], true, Device::CPU, DataType::Float32)
        .unwrap();
    assert_eq!(a.backward(None), Err(BellandeError::InvalidBackward));
    assert_eq!(a.grad, Some(vec![F(0.0); 2]));
    let seed = vec![F(0.5), F(2.0)];
    assert_eq!(a.backward(Some(&seed)), Ok(()));
    assert_eq!(a.grad, Some(vec![F(0.5), F(2.0)]));
    assert_eq!(a.backward(Some(&seed)), Ok(()));
    assert_eq!(a.grad, Some(vec![F(1.0), F(4.0)]));
    let short = vec![F(1.0)];
    assert_eq!(a.backward(Some(&short)), Err(BellandeError::DimensionMismatch));
}

#[test]
fn zero_grad_keeps_the_buffer() {
    let mut a = Tensor::try_new(vec![F(3.0); 2], vec![2], true, Device::CPU, DataType::Float32)
        .unwrap();
    a.accumulate_grad(&vec![F(1.0), F(2.0)]);
    assert_eq!(a.grad, Some(vec![F(1.0), F(2.0)]));
    a.zero_grad();
    assert_eq!(a.grad, Some(vec![F(0.0), F(0.0)]));
}

#[test]
fn integer_tensors_multiply_exactly() {
    let a = Tensor::try_new(vec![1i64, 2, 3, 4], vec![2, 2], false, Device::CPU, DataType::Int64)
        .unwrap();
    let b = Tensor::try_new(vec![5i64, 6, 7, 8], vec![2, 2], false, Device::CPU, DataType::Int64)
        .unwrap();
    assert_eq!(a.matmul(&b).unwrap().data, vec![19, 22, 43, 50]);
}

#[test]
fn integer_scalars_wrap_and_divide_totally() {
    assert_eq!(i64::MAX.plus(1), i64::MIN);
    assert_eq!(7i64.over(2), 3);
    assert_eq!((-7i64).over(2), -3);
    assert_eq!(7i64.over(0), 0);
    assert_eq!(i64::MIN.over(-1), 0);
    assert_eq!(17i64.root(), 4);
    assert_eq!(16i64.root(), 4);
    assert_eq!((-4i64).root(), 0);
    assert_eq!(i64::MAX.root(), 3037000499);
    assert_eq!(<i64 as Scalar>::count(5), 5);
    assert!(3i64.exceeds(2) && !2i64.exceeds(2) && 2i64.equals(2));
}

#[test]
fn backward_refuses_a_tensor_that_records_an_operation() {
    let mut t = tensor(&[1.0], &[1]);
    t.requires_grad = true;
    t.grad = Some(vec![F(0.0)]);
    t.grad_fn = Some(GradFn::Add(0, 1));
    assert_eq!(t.backward(None), Err(BellandeError::InvalidBackward));
    assert_eq!(t.backward(Some(&vec![F(2.0)])), Err(BellandeError::InvalidBackward));
    assert_eq!(t.grad, Some(vec![F(0.0)]));
    t.requires_grad = false;
    t.grad = None;
    assert_eq!(t.backward(None), Err(BellandeError::NoGradients));
    let mut leaf = tensor(&[1.0], &[1]);
    leaf.requires_grad = true;
    leaf.grad = Some(vec![F(0.0)]);
    assert_eq!(leaf.backward(None), Ok(()));
    assert_eq!(leaf.grad, Some(vec![F(1.0)]));
}
