use bellande::device::Device;
use bellande::dtype::DataType;
use bellande::error::BellandeError;
use bellande::loss::bce::BCELoss;
use bellande::loss::cross_entropy::CrossEntropyLoss;
use bellande::loss::mse::MSELoss;
use bellande::loss::{apply_reduction, validate_shapes, Loss, LossInit, Reduction};
use bellande::scalar::{Scalar, Transcendental};
use bellande::tensor::Tensor;

#[derive(Clone, Copy, Debug, PartialEq)]
struct F(f32);

impl Scalar for F {
    fn zero_spec() -> Self {
        F(0.0)
    }
    fn one_spec() -> Self {
        F(1.0)
    }
    fn lowest_spec() -> Self {
        F(f32::NEG_INFINITY)
    }
    fn highest_spec() -> Self {
        F(f32::INFINITY)
    }
    fn count_spec(n: usize) -> Self {
        F(n as f32)
    }
    fn plus_spec(self, rhs: Self) -> Self {
        F(self.0 + rhs.0)
    }
    fn minus_spec(self, rhs: Self) -> Self {
        F(self.0 - rhs.0)
    }
    fn times_spec(self, rhs: Self) -> Self {
        F(self.0 * rhs.0)
    }
    fn over_spec(self, rhs: Self) -> Self {
        F(self.0 / rhs.0)
    }
    fn root_spec(self) -> Self {
        F(self.0.sqrt())
    }
    fn exceeds_spec(self, rhs: Self) -> bool {
        self.0 > rhs.0
    }
    fn equals_spec(self, rhs: Self) -> bool {
        self.0 == rhs.0
    }
    fn zero() -> Self {
        F(0.0)
    }
    fn one() -> Self {
        F(1.0)
    }
    fn lowest() -> Self {
        F(f32::NEG_INFINITY)
    }
    fn highest() -> Self {
        F(f32::INFINITY)
    }
    fn count(n: usize) -> Self {
        F(n as f32)
    }
    fn plus(self, rhs: Self) -> Self {
        F(self.0 + rhs.0)
    }
    fn minus(self, rhs: Self) -> Self {
        F(self.0 - rhs.0)
    }
    fn times(self, rhs: Self) -> Self {
        F(self.0 * rhs.0)
    }
    fn over(self, rhs: Self) -> Self {
        F(self.0 / rhs.0)
    }
    fn root(self) -> Self {
        F(self.0.sqrt())
    }
    fn exceeds(self, rhs: Self) -> bool {
        self.0 > rhs.0
    }
    fn equals(self, rhs: Self) -> bool {
        self.0 == rhs.0
    }
}

fn tensor(values: &[f32], shape: &[usize]) -> Tensor<F> {
    Tensor::try_new(
        values.iter().map(|v| F(*v)).collect(),
        shape.to_vec(),
        false,
        Device::CPU,
        DataType::Float32,
    )
    .unwrap()
}

fn values(t: &Tensor<F>) -> Vec<f32> {
    t.data.iter().map(|v| v.0).collect()
}

fn close(a: &[f32], b: &[f32], tolerance: f32) -> bool {
    a.len() == b.len() && a.iter().zip(b.iter()).all(|(x, y)| (x - y).abs() <= tolerance)
}

impl Transcendental for F {
    fn exp(self) -> Self {
        F(self.0.exp())
    }
    fn ln(self) -> Self {
        F(self.0.ln())
    }
    fn tanh(self) -> Self {
        F(self.0.tanh())
    }
}

#[test]
fn mse_unreduced_is_the_squared_difference() {
    let loss = MSELoss::new(Reduction::Unreduced);
    let p = tensor(&[1.0, 2.0, 3.0, 4.0], &[2, 2]);
    let t = tensor(&[0.0, 4.0, 3.0, 1.0], &[2, 2]);
    let l = loss.forward(&p, &t).unwrap();
    assert_eq!(l.shape, vec![2, 2]);
    assert_eq!(values(&l), vec![1.0, 4.0, 0.0, 9.0]);
    assert!(l.requires_grad);
}

#[test]
fn mse_mean_divides_by_the_element_count() {
    let loss = MSELoss::new(Reduction::Mean);
    let p = tensor(&[1.0, 2.0, 3.0, 4.0], &[2, 2]);
    let t = tensor(&[0.0, 4.0, 3.0, 1.0], &[2, 2]);
    let l = loss.forward(&p, &t).unwrap();
    assert_eq!(l.shape, vec![1]);
    assert_eq!(values(&l), vec![3.5]);
}

#[test]
fn mse_sum_adds_up() {
    let loss = MSELoss::new(Reduction::Sum);
    let p = tensor(&[1.0, 2.0, 3.0, 4.0], &[2, 2]);
    let t = tensor(&[0.0, 4.0, 3.0, 1.0], &[2, 2]);
    let l = loss.forward(&p, &t).unwrap();
    assert_eq!(l.shape, vec![1]);
    assert_eq!(values(&l), vec![14.0]);
}

#[test]
fn mse_rejects_other_shapes() {
    let loss = MSELoss::new(Reduction::Mean);
    let p = tensor(&[1.0, 2.0, 3.0, 4.0], &[2, 2]);
    let t = tensor(&[1.0, 2.0, 3.0, 4.0], &[4]);
    assert_eq!(loss.forward(&p, &t).unwrap_err(), BellandeError::DimensionMismatch);
    assert_eq!(loss.backward(&p, &t).unwrap_err(), BellandeError::DimensionMismatch);
}

#[test]
fn mse_gradient_is_twice_the_difference() {
    let p = tensor(&[1.0, 2.0, 3.0, 4.0], &[2, 2]);
    let t = tensor(&[0.0, 4.0, 3.0, 1.0], &[2, 2]);
    let g = MSELoss::new(Reduction::Sum).backward(&p, &t).unwrap();
    assert_eq!(g.shape, vec![2, 2]);
    assert_eq!(values(&g), vec![2.0, -4.0, 0.0, 6.0]);
    let g = MSELoss::new(Reduction::Mean).backward(&p, &t).unwrap();
    assert_eq!(values(&g), vec![0.5, -1.0, 0.0, 1.5]);
}

#[test]
fn mse_through_the_loss_trait() {
    let loss: MSELoss = <MSELoss as LossInit<F>>::new();
    assert_eq!(<MSELoss as Loss<F>>::reduction(&loss), Reduction::Mean);
    assert_eq!(<MSELoss as Loss<F>>::name(&loss), "MSELoss");
    let summed: MSELoss = <MSELoss as LossInit<F>>::new_with_reduction(Reduction::Sum);
    let p = tensor(&[1.0, 3.0], &[2]);
    let t = tensor(&[0.0, 0.0], &[2]);
    assert_eq!(values(&Loss::forward(&summed, &p, &t).unwrap()), vec![10.0]);
    assert_eq!(values(&Loss::backward(&summed, &p, &t).unwrap()), vec![2.0, 6.0]);
}

#[test]
fn shapes_are_validated() {
    let a = tensor(&[1.0, 2.0], &[2]);
    let b = tensor(&[1.0, 2.0], &[1, 2]);
    assert_eq!(validate_shapes(&a, &a), Ok(()));
    match validate_shapes(&a, &b) {
        Err(BellandeError::ShapeMismatch(m)) => {
            assert_eq!(m, "Output shape doesn't match target shape")
        }
        _ => panic!("expected a shape mismatch"),
    }
}

#[test]
fn reductions_apply_to_tensors() {
    let l = tensor(&[1.0, 2.0, 6.0], &[3]);
    assert_eq!(values(&apply_reduction(l, Reduction::Mean).unwrap()), vec![3.0]);
    let l = tensor(&[1.0, 2.0, 6.0], &[3]);
    assert_eq!(values(&apply_reduction(l, Reduction::Sum).unwrap()), vec![9.0]);
    let l = tensor(&[1.0, 2.0, 6.0], &[3]);
    let kept = apply_reduction(l, Reduction::Unreduced).unwrap();
    assert_eq!(values(&kept), vec![1.0, 2.0, 6.0]);
    assert_eq!(kept.shape, vec![3]);
}

#[test]
fn cross_entropy_of_two_classes() {
    let loss: CrossEntropyLoss<F> = CrossEntropyLoss::default();
    let p = tensor(&[2.0, 0.0], &[1, 2]);
    let l = loss.forward(&p, &vec![0]).unwrap();
    assert_eq!(l.shape, vec![1]);
    let expected = -((2.0f32.exp() / (2.0f32.exp() + 1.0)).ln());
    assert!((l.data[0].0 - expected).abs() < 1e-6);
    assert!((l.data[0].0 - 0.1269).abs() < 1e-4);
    let g = loss.backward(&p, &vec![0]).unwrap();
    assert_eq!(g.shape, vec![1, 2]);
    let s0 = 2.0f32.exp() / (2.0f32.exp() + 1.0);
    assert!(close(&values(&g), &[s0 - 1.0, 1.0 - s0], 1e-6));
}

#[test]
fn cross_entropy_is_stable_for_large_scores() {
    let loss: CrossEntropyLoss<F> = CrossEntropyLoss::default();
    let p = tensor(&[1000.0, 998.0], &[1, 2]);
    let l = loss.forward(&p, &vec![0]).unwrap();
    assert!((l.data[0].0 - 0.1269).abs() < 1e-4);
}

#[test]
fn cross_entropy_mean_divides_by_the_batch_size() {
    let p = tensor(&[2.0, 0.0, 0.0, 2.0, 1.0, 1.0], &[3, 2]);
    let targets = vec![0, 0, 1];
    let each = CrossEntropyLoss::<F>::new(Reduction::Unreduced, None, None)
        .forward(&p, &targets)
        .unwrap();
    assert_eq!(each.shape, vec![3]);
    let rows = values(&each);
    assert!(close(&rows, &[0.126928, 2.126928, 0.693147], 1e-5));
    let sum = CrossEntropyLoss::<F>::new(Reduction::Sum, None, None).forward(&p, &targets).unwrap();
    assert!((sum.data[0].0 - (rows[0] + rows[1] + rows[2])).abs() < 1e-5);
    let mean =
        CrossEntropyLoss::<F>::new(Reduction::Mean, None, None).forward(&p, &targets).unwrap();
    assert!((mean.data[0].0 - (rows[0] + rows[1] + rows[2]) / 3.0).abs() < 1e-5);
    let g_sum =
        CrossEntropyLoss::<F>::new(Reduction::Sum, None, None).backward(&p, &targets).unwrap();
    let g_mean =
        CrossEntropyLoss::<F>::new(Reduction::Mean, None, None).backward(&p, &targets).unwrap();
    let scaled: Vec<f32> = values(&g_sum).iter().map(|v| v * (1.0 / 3.0)).collect();
    assert!(close(&values(&g_mean), &scaled, 1e-7));
}

#[test]
fn cross_entropy_ignores_rows() {
    let loss = CrossEntropyLoss::<F>::new(Reduction::Unreduced, None, Some(-100));
    let p = tensor(&[2.0, 0.0, 0.0, 2.0], &[2, 2]);
    let l = loss.forward(&p, &vec![-100, 1]).unwrap();
    assert_eq!(l.data[0].0, 0.0);
    assert!((l.data[1].0 - 0.126928).abs() < 1e-5);
    let g = loss.backward(&p, &vec![-100, 1]).unwrap();
    assert_eq!(&values(&g)[..2], &[0.0, 0.0]);
    assert!(values(&g)[2] > 0.0 && values(&g)[3] < 0.0);
}

#[test]
fn cross_entropy_weighs_classes() {
    let weight = tensor(&[2.0, 5.0], &[2]);
    let loss = CrossEntropyLoss::<F>::new(Reduction::Unreduced, Some(weight), None);
    let p = tensor(&[2.0, 0.0, 2.0, 0.0], &[2, 2]);
    let l = loss.forward(&p, &vec![0, 1]).unwrap();
    assert!(close(&values(&l), &[2.0 * 0.126928, 5.0 * 2.126928], 1e-4));
}

#[test]
fn cross_entropy_validates_its_inputs() {
    let loss: CrossEntropyLoss<F> = CrossEntropyLoss::default();
    let p = tensor(&[2.0, 0.0], &[1, 2]);
    assert!(matches!(
        loss.forward(&tensor(&[2.0, 0.0], &[2]), &vec![0]),
        Err(BellandeError::InvalidShape(_))
    ));
    assert!(matches!(loss.forward(&p, &vec![0, 1]), Err(BellandeError::ShapeMismatch(_))));
    assert_eq!(loss.forward(&p, &vec![2]).unwrap_err(), BellandeError::InvalidInputs);
    assert_eq!(loss.forward(&p, &vec![-1]).unwrap_err(), BellandeError::InvalidInputs);
    assert_eq!(loss.backward(&p, &vec![2]).unwrap_err(), BellandeError::InvalidInputs);
    let weighted =
        CrossEntropyLoss::<F>::new(Reduction::Mean, Some(tensor(&[1.0; 3], &[3])), None);
    assert_eq!(weighted.forward(&p, &vec![0]).unwrap_err(), BellandeError::DimensionMismatch);
    assert_eq!(loss.validate_input(&p, &vec![1]), Ok(()));
}

#[test]
fn cross_entropy_gradient_matches_numerical_gradient() {
    let loss = CrossEntropyLoss::<F>::new(Reduction::Mean, None, None);
    let scores = [0.5, -1.0, 2.0, 1.5, 0.25, -0.75];
    let targets = vec![2, 0];
    let g = loss.backward(&tensor(&scores, &[2, 3]), &targets).unwrap();
    let step = 1e-2;
    for at in 0..scores.len() {
        let mut up = scores;
        up[at] += step;
        let mut down = scores;
        down[at] -= step;
        let d = (loss.forward(&tensor(&up, &[2, 3]), &targets).unwrap().data[0].0
            - loss.forward(&tensor(&down, &[2, 3]), &targets).unwrap().data[0].0)
            / (2.0 * step);
        assert!((d - g.data[at].0).abs() < 1e-3, "score {}: {} vs {}", at, d, g.data[at].0);
    }
}

#[test]
fn binary_cross_entropy_of_two_predictions() {
    let p = tensor(&[0.8, 0.3], &[2]);
    let t = tensor(&[1.0, 0.0], &[2]);
    let each = BCELoss::new(Reduction::Unreduced).forward(&p, &t).unwrap();
    assert_eq!(each.shape, vec![2]);
    assert!(close(&values(&each), &[0.223_143_55, 0.356_674_94], 1e-6));
    let mean = BCELoss::new(Reduction::Mean).forward(&p, &t).unwrap();
    assert_eq!(mean.shape, vec![1]);
    assert!(close(&values(&mean), &[0.289_909_25], 1e-6));
    let sum = BCELoss::new(Reduction::Sum).forward(&p, &t).unwrap();
    assert!(close(&values(&sum), &[0.579_818_5], 1e-6));
}

#[test]
fn binary_cross_entropy_gradient() {
    let p = tensor(&[0.8, 0.3], &[2]);
    let t = tensor(&[1.0, 0.0], &[2]);
    let sum = BCELoss::new(Reduction::Sum).backward(&p, &t).unwrap();
    assert_eq!(sum.shape, vec![2]);
    assert!(close(&values(&sum), &[-1.25, 1.428_571_4], 1e-5));
    let each = BCELoss::new(Reduction::Unreduced).backward(&p, &t).unwrap();
    assert_eq!(values(&each), values(&sum));
    let mean = BCELoss::new(Reduction::Mean).backward(&p, &t).unwrap();
    assert!(close(&values(&mean), &[-0.625, 0.714_285_7], 1e-5));
}

#[test]
fn binary_cross_entropy_gradient_matches_numerical_gradient() {
    let loss = BCELoss::new(Reduction::Mean);
    let p = [0.2, 0.6, 0.9, 0.45];
    let t = tensor(&[0.0, 1.0, 1.0, 0.0], &[2, 2]);
    let g = loss.backward(&tensor(&p, &[2, 2]), &t).unwrap();
    let step = 1e-3;
    for at in 0..p.len() {
        let mut up = p;
        up[at] += step;
        let mut down = p;
        down[at] -= step;
        let d = (loss.forward(&tensor(&up, &[2, 2]), &t).unwrap().data[0].0
            - loss.forward(&tensor(&down, &[2, 2]), &t).unwrap().data[0].0)
            / (2.0 * step);
        assert!((d - g.data[at].0).abs() < 1e-2, "element {}: {} vs {}", at, d, g.data[at].0);
    }
}

#[test]
fn binary_cross_entropy_wants_equal_shapes() {
    let loss = BCELoss::new(Reduction::Mean);
    let p = tensor(&[0.8, 0.3], &[2]);
    let t = tensor(&[1.0, 0.0], &[1, 2]);
    assert_eq!(loss.forward(&p, &t).unwrap_err(), BellandeError::DimensionMismatch);
    assert_eq!(loss.backward(&p, &t).unwrap_err(), BellandeError::DimensionMismatch);
    assert_eq!(Loss::<F>::name(&loss), "BCELoss");
    assert_eq!(Loss::<F>::reduction(&loss), Reduction::Mean);
}

#[test]
fn binary_cross_entropy_from_given_logarithms() {
    let loss = BCELoss::new(Reduction::Sum);
    let p = tensor(&[0.5, 0.25], &[2]);
    let t = tensor(&[1.0, 0.0], &[2]);
    let out = loss.loss_from_logs(&vec![F(-1.0), F(-2.0)], &vec![F(-3.0), F(-4.0)], &p, &t);
    assert_eq!(values(&out), vec![5.0]);
    let each = BCELoss::new(Reduction::Unreduced).loss_from_logs(
        &vec![F(-1.0), F(-2.0)],
        &vec![F(-3.0), F(-4.0)],
        &p,
        &t,
    );
    assert_eq!(values(&each), vec![1.0, 4.0]);
}

#[test]
fn binary_cross_entropy_through_the_loss_trait() {
    fn both<L: Loss<F>>(l: &L, p: &Tensor<F>, t: &Tensor<F>) -> (Vec<f32>, Vec<f32>) {
        (values(&l.forward(p, t).unwrap()), values(&l.backward(p, t).unwrap()))
    }
    let p = tensor(&[0.8, 0.3], &[2]);
    let t = tensor(&[1.0, 0.0], &[2]);
    let (loss, grad) = both(&BCELoss::new(Reduction::Sum), &p, &t);
    assert!(close(&loss, &[0.579_818_5], 1e-6));
    assert!(close(&grad, &[-1.25, 1.428_571_4], 1e-5));
    let (loss, grad) = both(&MSELoss::new(Reduction::Mean), &p, &t);
    assert!(close(&loss, &[0.065], 1e-6));
    assert!(close(&grad, &[-0.2, 0.3], 1e-6));
    assert_eq!(Loss::<F>::name(&BCELoss::new(Reduction::Sum)), "BCELoss");
    assert_eq!(Loss::<F>::reduction(&BCELoss::new(Reduction::Sum)), Reduction::Sum);
}
