use bellande::device::Device;
use bellande::dtype::DataType;
use bellande::error::BellandeError;
use bellande::layer::activation::ReLU;
use bellande::layer::avgpool2d::AvgPool2d;
use bellande::layer::batch_norm::{BatchNorm1d, BatchNorm2d};
use bellande::layer::conv::Conv2d;
use bellande::layer::dropout::Dropout;
use bellande::layer::linear::Linear;
use bellande::layer::pooling::MaxPool2d;
use bellande::scalar::{RandomSource, Scalar};
use bellande::tensor::Tensor;

#[derive(Clone, Copy, Debug, PartialEq)]
struct F(f32);

impl Scalar for F {
    fn zero_spec() -> Self {
        F(0.0)
    }
    fn one_spec() -> Self {
        F(1.0)
    }
    fn lowest_spec() -> Self {
        F(f32::NEG_INFINITY)
    }
    fn highest_spec() -> Self {
        F(f32::INFINITY)
    }
    fn count_spec(n: usize) -> Self {
        F(n as f32)
    }
    fn plus_spec(self, rhs: Self) -> Self {
        F(self.0 + rhs.0)
    }
    fn minus_spec(self, rhs: Self) -> Self {
        F(self.0 - rhs.0)
    }
    fn times_spec(self, rhs: Self) -> Self {
        F(self.0 * rhs.0)
    }
    fn over_spec(self, rhs: Self) -> Self {
        F(self.0 / rhs.0)
    }
    fn root_spec(self) -> Self {
        F(self.0.sqrt())
    }
    fn exceeds_spec(self, rhs: Self) -> bool {
        self.0 > rhs.0
    }
    fn equals_spec(self, rhs: Self) -> bool {
        self.0 == rhs.0
    }
    fn zero() -> Self {
        F(0.0)
    }
    fn one() -> Self {
        F(1.0)
    }
    fn lowest() -> Self {
        F(f32::NEG_INFINITY)
    }
    fn highest() -> Self {
        F(f32::INFINITY)
    }
    fn count(n: usize) -> Self {
        F(n as f32)
    }
    fn plus(self, rhs: Self) -> Self {
        F(self.0 + rhs.0)
    }
    fn minus(self, rhs: Self) -> Self {
        F(self.0 - rhs.0)
    }
    fn times(self, rhs: Self) -> Self {
        F(self.0 * rhs.0)
    }
    fn over(self, rhs: Self) -> Self {
        F(self.0 / rhs.0)
    }
    fn root(self) -> Self {
        F(self.0.sqrt())
    }
    fn exceeds(self, rhs: Self) -> bool {
        self.0 > rhs.0
    }
    fn equals(self, rhs: Self) -> bool {
        self.0 == rhs.0
    }
}

fn tensor(values: &[f32], shape: &[usize]) -> Tensor<F> {
    Tensor::try_new(
        values.iter().map(|v| F(*v)).collect(),
        shape.to_vec(),
        false,
        Device::CPU,
        DataType::Float32,
    )
    .unwrap()
}

fn values(t: &Tensor<F>) -> Vec<f32> {
    t.data.iter().map(|v| v.0).collect()
}

fn close(a: &[f32], b: &[f32], tolerance: f32) -> bool {
    a.len() == b.len() && a.iter().zip(b.iter()).all(|(x, y)| (x - y).abs() <= tolerance)
}

/// A source that replays fixed draws.
struct Fixed {
    normals: Vec<f32>,
    keeps: Vec<bool>,
    next_normal: usize,
    next_keep: usize,
}

impl Fixed {
    fn new(normals: &[f32], keeps: &[bool]) -> Self {
        Fixed { normals: normals.to_vec(), keeps: keeps.to_vec(), next_normal: 0, next_keep: 0 }
    }
}

impl RandomSource<F> for Fixed {
    fn standard_normal(&mut self) -> F {
        let v = if self.normals.is_empty() {
            0.0
        } else {
            self.normals[self.next_normal % self.normals.len()]
        };
        self.next_normal += 1;
        F(v)
    }

    fn keep(&mut self, _p: F) -> bool {
        let v = if self.keeps.is_empty() {
            true
        } else {
            self.keeps[self.next_keep % self.keeps.len()]
        };
        self.next_keep += 1;
        v
    }
}

fn linear(weights: &[f32], bias: Option<&[f32]>, n_in: usize, n_out: usize) -> Linear<F> {
    let mut rng = Fixed::new(weights, &[]);
    let mut layer = Linear::new(n_in, n_out, bias.is_some(), &mut rng);
    if let (Some(b), Some(values)) = (layer.bias.as_mut(), bias) {
        b.data = values.iter().map(|v| F(*v)).collect();
    }
    layer
}

#[test]
fn linear_new_draws_weights_in_order() {
    let layer = linear(&[1.0, 2.0, 3.0, 4.0, 5.0, 6.0], None, 3, 2);
    assert_eq!(layer.weight.shape, vec![2, 3]);
    assert_eq!(values(&layer.weight), vec![1.0, 2.0, 3.0, 4.0, 5.0, 6.0]);
    assert!(layer.weight.requires_grad);
    assert_eq!(layer.weight.grad, Some(vec![F(0.0); 6]));
    assert!(layer.bias.is_none());
    assert!(layer.input_cache.is_none());
}

#[test]
fn linear_forward_is_input_times_weight_plus_bias() {
    let mut layer = linear(&[1.0, 2.0, 3.0, 4.0, 5.0, 6.0], Some(&[0.5, -0.5]), 3, 2);
    let x = tensor(&[1.0, 0.0, -1.0, 2.0, 1.0, 0.0], &[2, 3]);
    let y = layer.forward(&x).unwrap();
    assert_eq!(y.shape, vec![2, 2]);
    assert_eq!(values(&y), vec![-1.5, -2.5, 4.5, 12.5]);
    assert_eq!(values(layer.input_cache.as_ref().unwrap()), values(&x));
}

#[test]
fn linear_forward_rejects_wrong_inputs() {
    let mut layer = linear(&[1.0; 6], None, 3, 2);
    let wrong_width = tensor(&[1.0; 4], &[2, 2]);
    assert_eq!(layer.forward(&wrong_width).unwrap_err(), BellandeError::DimensionMismatch);
    let wrong_rank = tensor(&[1.0; 3], &[3]);
    assert!(matches!(layer.forward(&wrong_rank), Err(BellandeError::InvalidShape(_))));
    assert!(layer.input_cache.is_none());
}

#[test]
fn linear_backward_before_forward_fails() {
    let layer = linear(&[1.0; 6], None, 3, 2);
    let g = tensor(&[1.0; 4], &[2, 2]);
    match layer.backward(&g) {
        Err(BellandeError::RuntimeError(m)) => assert_eq!(m, "Forward pass not called"),
        _ => panic!("expected a runtime error"),
    }
}

#[test]
fn linear_backward_gives_the_gradients_of_a_linear_map() {
    let mut layer = linear(&[1.0, 2.0, 3.0, 4.0, 5.0, 6.0], Some(&[0.0, 0.0]), 3, 2);
    let x = tensor(&[1.0, 0.0, -1.0, 2.0, 1.0, 0.0], &[2, 3]);
    layer.forward(&x).unwrap();
    let g = tensor(&[1.0, 2.0, 3.0, 4.0], &[2, 2]);
    let (gi, gw, gb) = layer.backward(&g).unwrap();
    assert_eq!(gi.shape, vec![2, 3]);
    assert_eq!(values(&gi), vec![9.0, 12.0, 15.0, 19.0, 26.0, 33.0]);
    assert_eq!(gw.shape, vec![2, 3]);
    assert_eq!(values(&gw), vec![7.0, 3.0, -1.0, 10.0, 4.0, -2.0]);
    assert_eq!(values(&gb.unwrap()), vec![4.0, 6.0]);
}

#[test]
fn linear_backward_rejects_a_gradient_of_another_shape() {
    let mut layer = linear(&[1.0; 6], None, 3, 2);
    layer.forward(&tensor(&[1.0; 6], &[2, 3])).unwrap();
    let g = tensor(&[1.0; 6], &[3, 2]);
    assert_eq!(layer.backward(&g).unwrap_err(), BellandeError::DimensionMismatch);
}

fn conv(
    weights: &[f32],
    bias: Option<&[f32]>,
    channels: (usize, usize),
    kernel: (usize, usize),
    stride: (usize, usize),
    padding: (usize, usize),
) -> Conv2d<F> {
    let mut rng = Fixed::new(weights, &[]);
    let mut layer =
        Conv2d::new(channels.0, channels.1, kernel, stride, padding, bias.is_some(), &mut rng);
    if let (Some(b), Some(values)) = (layer.bias.as_mut(), bias) {
        b.data = values.iter().map(|v| F(*v)).collect();
    }
    layer
}

#[test]
fn conv_forward_without_padding() {
    let mut layer = conv(&[1.0, 0.0, 0.0, -1.0], Some(&[0.5]), (1, 1), (2, 2), (1, 1), (0, 0));
    let x = tensor(&[1.0, 2.0, 3.0, 4.0, 5.0, 6.0, 7.0, 8.0, 9.0], &[1, 1, 3, 3]);
    let y = layer.forward(&x).unwrap();
    assert_eq!(y.shape, vec![1, 1, 2, 2]);
    assert_eq!(values(&y), vec![-3.5, -3.5, -3.5, -3.5]);
}

#[test]
fn conv_forward_skips_the_padding() {
    let mut layer = conv(&[1.0; 9], None, (1, 1), (3, 3), (1, 1), (1, 1));
    let x = tensor(&[1.0, 2.0, 3.0, 4.0], &[1, 1, 2, 2]);
    let y = layer.forward(&x).unwrap();
    assert_eq!(y.shape, vec![1, 1, 2, 2]);
    assert_eq!(values(&y), vec![10.0, 10.0, 10.0, 10.0]);
}

#[test]
fn conv_output_size_uses_floor_division() {
    let mut layer = conv(&[1.0; 9], None, (1, 1), (3, 3), (2, 2), (0, 0));
    let x = tensor(&[1.0; 36], &[1, 1, 6, 6]);
    let y = layer.forward(&x).unwrap();
    assert_eq!(y.shape, vec![1, 1, 2, 2]);
    assert_eq!(values(&y), vec![9.0; 4]);
    let mut padded = conv(&[1.0; 9], None, (1, 1), (3, 3), (2, 2), (1, 1));
    let y = padded.forward(&tensor(&[1.0; 36], &[1, 1, 6, 6])).unwrap();
    assert_eq!(y.shape, vec![1, 1, 3, 3]);
    assert_eq!(values(&y), vec![4.0, 6.0, 6.0, 6.0, 9.0, 9.0, 6.0, 9.0, 9.0]);
}

#[test]
fn conv_forward_sums_over_input_channels() {
    let mut layer =
        conv(&[1.0, 2.0, 10.0, 20.0], Some(&[0.0, 1.0]), (2, 2), (1, 1), (1, 1), (0, 0));
    let x = tensor(&[1.0, 2.0, 3.0, 4.0], &[1, 2, 1, 2]);
    let y = layer.forward(&x).unwrap();
    assert_eq!(y.shape, vec![1, 2, 1, 2]);
    assert_eq!(values(&y), vec![7.0, 10.0, 71.0, 101.0]);
}

#[test]
fn conv_forward_rejects_wrong_inputs() {
    let mut layer = conv(&[1.0; 9], None, (1, 1), (3, 3), (1, 1), (0, 0));
    assert!(matches!(
        layer.forward(&tensor(&[1.0; 4], &[2, 2])),
        Err(BellandeError::InvalidShape(_))
    ));
    assert_eq!(
        layer.forward(&tensor(&[1.0; 18], &[1, 2, 3, 3])).unwrap_err(),
        BellandeError::DimensionMismatch
    );
    assert!(matches!(
        layer.forward(&tensor(&[1.0; 4], &[1, 1, 2, 2])),
        Err(BellandeError::InvalidShape(_))
    ));
    let mut still = conv(&[1.0; 9], None, (1, 1), (3, 3), (0, 1), (0, 0));
    assert!(matches!(
        still.forward(&tensor(&[1.0; 9], &[1, 1, 3, 3])),
        Err(BellandeError::InvalidShape(_))
    ));
}

#[test]
fn conv_backward_before_forward_fails() {
    let layer = conv(&[1.0; 9], None, (1, 1), (3, 3), (1, 1), (0, 0));
    assert!(matches!(
        layer.backward(&tensor(&[1.0], &[1, 1, 1, 1])),
        Err(BellandeError::RuntimeError(_))
    ));
}

#[test]
fn conv_backward_known_gradients() {
    let mut layer = conv(&[1.0, 2.0, 3.0, 4.0], Some(&[0.0]), (1, 1), (2, 2), (1, 1), (0, 0));
    let x = tensor(&[1.0, 2.0, 3.0, 4.0, 5.0, 6.0, 7.0, 8.0, 9.0], &[1, 1, 3, 3]);
    layer.forward(&x).unwrap();
    let g = tensor(&[1.0, 0.0, 0.0, 2.0], &[1, 1, 2, 2]);
    let (gi, gw, gb) = layer.backward(&g).unwrap();
    assert_eq!(gi.shape, vec![1, 1, 3, 3]);
    assert_eq!(values(&gi), vec![1.0, 2.0, 0.0, 3.0, 6.0, 4.0, 0.0, 6.0, 8.0]);
    assert_eq!(gw.shape, vec![1, 1, 2, 2]);
    assert_eq!(values(&gw), vec![11.0, 14.0, 20.0, 23.0]);
    assert_eq!(values(&gb.unwrap()), vec![3.0]);
}

fn conv_loss(layer: &mut Conv2d<F>, x: &Tensor<F>, g: &[f32]) -> f32 {
    let y = layer.forward(x).unwrap();
    values(&y).iter().zip(g.iter()).map(|(a, b)| a * b).sum()
}

#[test]
fn conv_backward_matches_numerical_gradients() {
    let weights: Vec<f32> = (0..36).map(|i| ((i * 7 % 11) as f32 - 5.0) / 4.0).collect();
    let input: Vec<f32> = (0..50).map(|i| ((i * 5 % 13) as f32 - 6.0) / 8.0).collect();
    let mut layer = conv(&weights, Some(&[0.25, -0.5]), (2, 2), (3, 3), (2, 2), (1, 1));
    let x = tensor(&input, &[1, 2, 5, 5]);
    let y = layer.forward(&x).unwrap();
    assert_eq!(y.shape, vec![1, 2, 3, 3]);
    let g: Vec<f32> = (0..18).map(|i| ((i * 3 % 7) as f32 - 3.0) / 2.0).collect();
    let (gi, gw, gb) = layer.backward(&tensor(&g, &[1, 2, 3, 3])).unwrap();
    let step = 0.25;
    for at in 0..input.len() {
        let mut up = input.clone();
        up[at] += step;
        let mut down = input.clone();
        down[at] -= step;
        let d = (conv_loss(&mut layer, &tensor(&up, &[1, 2, 5, 5]), &g)
            - conv_loss(&mut layer, &tensor(&down, &[1, 2, 5, 5]), &g))
            / (2.0 * step);
        assert!((d - gi.data[at].0).abs() < 1e-3, "input {}: {} vs {}", at, d, gi.data[at].0);
    }
    for at in 0..weights.len() {
        let initial = layer.weight.data[at];
        layer.weight.data[at] = F(initial.0 + step);
        let up = conv_loss(&mut layer, &x, &g);
        layer.weight.data[at] = F(initial.0 - step);
        let down = conv_loss(&mut layer, &x, &g);
        layer.weight.data[at] = initial;
        let d = (up - down) / (2.0 * step);
        assert!((d - gw.data[at].0).abs() < 1e-3, "weight {}: {} vs {}", at, d, gw.data[at].0);
    }
    let gb = gb.unwrap();
    assert!(close(&values(&gb), &[g[..9].iter().sum(), g[9..].iter().sum()], 1e-5));
}

#[test]
fn max_pool_routes_gradient_to_maximum() {
    let mut pool = MaxPool2d::new((2, 2), (2, 2));
    let input = tensor(&[1.0, 3.0, 2.0, 4.0], &[1, 1, 2, 2]);
    let out = pool.forward(&input).unwrap();
    assert_eq!(out.shape, vec![1, 1, 1, 1]);
    assert_eq!(values(&out), vec![4.0]);
    assert_eq!(pool.indices, Some(vec![3]));
    let grad = pool.backward(&tensor(&[1.0], &[1, 1, 1, 1])).unwrap();
    assert_eq!(values(&grad), vec![0.0, 0.0, 0.0, 1.0]);
    assert_eq!(grad.shape, vec![1, 1, 2, 2]);
}

#[test]
fn max_pool_takes_the_first_of_equal_maxima() {
    let mut pool = MaxPool2d::new((2, 2), (2, 2));
    let input = tensor(&[5.0, 5.0, 5.0, 5.0], &[1, 1, 2, 2]);
    pool.forward(&input).unwrap();
    assert_eq!(pool.indices, Some(vec![0]));
}

#[test]
fn max_pool_overlapping_windows_add_their_gradients() {
    let mut pool = MaxPool2d::new((2, 2), (1, 1));
    let input = tensor(&[1.0, 2.0, 3.0, 4.0, 9.0, 5.0, 6.0, 7.0, 8.0], &[1, 1, 3, 3]);
    let out = pool.forward(&input).unwrap();
    assert_eq!(out.shape, vec![1, 1, 2, 2]);
    assert_eq!(values(&out), vec![9.0, 9.0, 9.0, 9.0]);
    assert_eq!(pool.indices, Some(vec![4, 4, 4, 4]));
    let grad = pool.backward(&tensor(&[1.0, 2.0, 3.0, 4.0], &[1, 1, 2, 2])).unwrap();
    assert_eq!(values(&grad), vec![0.0, 0.0, 0.0, 0.0, 10.0, 0.0, 0.0, 0.0, 0.0]);
}

#[test]
fn max_pool_channels_and_batches_are_separate() {
    let mut pool = MaxPool2d::new((1, 2), (1, 2));
    let input = tensor(&[1.0, 2.0, 4.0, 3.0, 6.0, 5.0, 7.0, 8.0], &[2, 2, 1, 2]);
    let out = pool.forward(&input).unwrap();
    assert_eq!(out.shape, vec![2, 2, 1, 1]);
    assert_eq!(values(&out), vec![2.0, 4.0, 6.0, 8.0]);
    assert_eq!(pool.indices, Some(vec![1, 2, 4, 7]));
}

#[test]
fn max_pool_rejects_what_it_cannot_pool() {
    let mut pool = MaxPool2d::new((3, 3), (1, 1));
    assert!(matches!(
        pool.forward(&tensor(&[1.0; 4], &[1, 1, 2, 2])),
        Err(BellandeError::InvalidShape(_))
    ));
    assert!(matches!(pool.forward(&tensor(&[1.0; 4], &[2, 2])), Err(BellandeError::InvalidShape(_))));
    assert!(pool.indices.is_none());
    assert!(matches!(
        pool.backward(&tensor(&[1.0], &[1, 1, 1, 1])),
        Err(BellandeError::RuntimeError(_))
    ));
    let mut still = MaxPool2d::new((1, 1), (0, 1));
    assert!(matches!(
        still.forward(&tensor(&[1.0; 4], &[1, 1, 2, 2])),
        Err(BellandeError::InvalidShape(_))
    ));
}

#[test]
fn average_pool_forward_and_backward() {
    let mut pool = AvgPool2d::new((2, 2), (1, 1));
    let input = tensor(&[1.0, 2.0, 3.0, 4.0, 5.0, 6.0, 7.0, 8.0, 9.0], &[1, 1, 3, 3]);
    let out = pool.forward(&input).unwrap();
    assert_eq!(out.shape, vec![1, 1, 2, 2]);
    assert_eq!(values(&out), vec![3.0, 4.0, 6.0, 7.0]);
    let grad = pool.backward(&tensor(&[4.0, 8.0, 12.0, 16.0], &[1, 1, 2, 2])).unwrap();
    assert_eq!(grad.shape, vec![1, 1, 3, 3]);
    assert_eq!(values(&grad), vec![1.0, 3.0, 2.0, 4.0, 10.0, 6.0, 3.0, 7.0, 4.0]);
    assert_eq!(
        pool.backward(&tensor(&[1.0], &[1, 1, 1, 1])).unwrap_err(),
        BellandeError::DimensionMismatch
    );
}

#[test]
fn dropout_doubles_what_it_keeps_and_zeroes_the_rest() {
    let mut layer = Dropout::new(F(0.5));
    let mut rng = Fixed::new(&[], &[true, false, false, true]);
    let x = tensor(&[1.0, 2.0, 3.0, 4.0], &[4]);
    let y = layer.forward(&x, &mut rng).unwrap();
    assert_eq!(values(&y), vec![2.0, 0.0, 0.0, 8.0]);
    assert_eq!(layer.mask, Some(vec![true, false, false, true]));
    let g = layer.backward(&tensor(&[10.0, 20.0, 30.0, 40.0], &[4])).unwrap();
    assert_eq!(values(&g), vec![20.0, 0.0, 0.0, 80.0]);
    let again = layer.backward(&tensor(&[10.0, 20.0, 30.0, 40.0], &[4])).unwrap();
    assert_eq!(values(&again), values(&g));
}

#[test]
fn dropout_in_evaluation_passes_through_and_caches_nothing() {
    let mut layer = Dropout::new(F(0.5));
    layer.eval();
    let mut rng = Fixed::new(&[], &[false]);
    let x = tensor(&[1.0, 2.0], &[2]);
    let y = layer.forward(&x, &mut rng).unwrap();
    assert_eq!(values(&y), vec![1.0, 2.0]);
    assert!(layer.mask.is_none());
    assert!(matches!(layer.backward(&x), Err(BellandeError::RuntimeError(_))));
    layer.train();
    assert!(layer.training);
}

#[test]
fn dropout_checks_its_probability() {
    assert!(Dropout::is_valid_probability(F(0.0)));
    assert!(Dropout::is_valid_probability(F(0.999)));
    assert!(!Dropout::is_valid_probability(F(1.0)));
    assert!(!Dropout::is_valid_probability(F(-0.1)));
    assert!(!Dropout::is_valid_probability(F(f32::NAN)));
    assert!(matches!(Dropout::try_new(F(1.5)), Err(BellandeError::InvalidParameter(_))));
    assert!(Dropout::try_new(F(0.25)).is_ok());
}

#[test]
fn dropout_backward_rejects_a_gradient_of_another_length() {
    let mut layer = Dropout::new(F(0.5));
    let mut rng = Fixed::new(&[], &[true]);
    layer.forward(&tensor(&[1.0, 2.0], &[2]), &mut rng).unwrap();
    assert_eq!(
        layer.backward(&tensor(&[1.0, 2.0, 3.0], &[3])).unwrap_err(),
        BellandeError::DimensionMismatch
    );
}

#[test]
fn relu_forward_and_backward() {
    let mut layer = ReLU::new();
    let x = tensor(&[-1.0, 0.0, 2.0], &[3]);
    assert!(matches!(layer.backward(&x), Err(BellandeError::RuntimeError(_))));
    let y = layer.forward(&x).unwrap();
    assert_eq!(values(&y), vec![0.0, 0.0, 2.0]);
    let g = layer.backward(&tensor(&[5.0, 6.0, 7.0], &[3])).unwrap();
    assert_eq!(values(&g), vec![0.0, 0.0, 7.0]);
}

#[test]
fn batch_norm_training_normalizes_each_channel() {
    let mut layer = BatchNorm2d::new(2, F(0.0), F(0.9), true);
    let x = tensor(&[1.0, 3.0, 10.0, 30.0, 5.0, 7.0, 50.0, 70.0], &[2, 2, 1, 2]);
    let y = layer.forward(&x).unwrap();
    assert_eq!(y.shape, vec![2, 2, 1, 2]);
    let s = 5.0f32.sqrt();
    let expected = [-3.0 / s, -1.0 / s, -3.0 / s, -1.0 / s, 1.0 / s, 3.0 / s, 1.0 / s, 3.0 / s];
    assert!(close(&values(&y), &expected, 1e-5));
    assert!(close(&values(&layer.norm.running_mean), &[0.4, 4.0], 1e-5));
    assert!(close(&values(&layer.norm.running_var), &[0.9 + 0.5, 0.9 + 50.0], 1e-4));
}

#[test]
fn batch_norm_adds_eps_before_the_root() {
    let mut layer = BatchNorm1d::new(1, F(1.0), F(0.0), false);
    let x = tensor(&[2.0, 2.0], &[2, 1]);
    let y = layer.forward(&x).unwrap();
    assert_eq!(values(&y), vec![0.0, 0.0]);
    let mut other = BatchNorm1d::new(1, F(3.0), F(0.0), false);
    let y = other.forward(&tensor(&[0.0, 2.0], &[2, 1])).unwrap();
    assert!(close(&values(&y), &[-0.5, 0.5], 1e-6));
}

#[test]
fn batch_norm_evaluation_uses_running_statistics() {
    let mut layer = BatchNorm1d::new(2, F(0.0), F(0.5), true);
    layer.norm.running_mean.data = vec![F(1.0), F(2.0)];
    layer.norm.running_var.data = vec![F(4.0), F(9.0)];
    layer.norm.weight.as_mut().unwrap().data = vec![F(2.0), F(3.0)];
    layer.norm.bias.as_mut().unwrap().data = vec![F(0.5), F(-0.5)];
    layer.eval();
    let y = layer.forward(&tensor(&[3.0, 5.0], &[1, 2])).unwrap();
    assert!(close(&values(&y), &[2.5, 2.5], 1e-6));
    assert_eq!(values(&layer.norm.running_mean), vec![1.0, 2.0]);
    assert_eq!(values(&layer.norm.running_var), vec![4.0, 9.0]);
    assert!(layer.norm.cache.is_none());
}

#[test]
fn batch_norm_running_statistics_converge() {
    let mut layer = BatchNorm2d::new(2, F(1e-5), F(0.9), false);
    let batch = tensor(&[1.0, 3.0, 10.0, 30.0, 5.0, 7.0, 50.0, 70.0], &[2, 2, 1, 2]);
    for _ in 0..400 {
        layer.forward(&batch).unwrap();
    }
    layer.eval();
    let means = tensor(&[4.0, 40.0], &[1, 2, 1, 1]);
    let y = layer.forward(&means).unwrap();
    assert!(close(&values(&y), &[0.0, 0.0], 1e-3));
}

#[test]
fn batch_norm_rejects_wrong_inputs() {
    let mut layer = BatchNorm2d::new(2, F(1e-5), F(0.9), true);
    assert!(matches!(layer.forward(&tensor(&[1.0; 4], &[2, 2])), Err(BellandeError::InvalidShape(_))));
    assert_eq!(
        layer.forward(&tensor(&[1.0; 3], &[1, 3, 1, 1])).unwrap_err(),
        BellandeError::DimensionMismatch
    );
    let mut flat = BatchNorm1d::new(2, F(1e-5), F(0.9), true);
    assert!(matches!(
        flat.forward(&tensor(&[1.0; 4], &[1, 2, 1, 2])),
        Err(BellandeError::InvalidShape(_))
    ));
    assert!(matches!(
        flat.backward(&tensor(&[1.0; 4], &[2, 2])),
        Err(BellandeError::RuntimeError(_))
    ));
}

fn norm_loss(layer: &mut BatchNorm1d<F>, x: &[f32], g: &[f32]) -> f32 {
    let y = layer.forward(&tensor(x, &[4, 2])).unwrap();
    values(&y).iter().zip(g.iter()).map(|(a, b)| a * b).sum()
}

#[test]
fn batch_norm_backward_matches_numerical_gradients() {
    let x = [0.5, -1.0, 1.5, 2.0, -0.5, 0.25, 2.5, -2.0];
    let g = [1.0, -2.0, 0.5, 0.25, -1.5, 1.0, 2.0, 0.75];
    let mut layer = BatchNorm1d::new(2, F(0.1), F(0.9), true);
    layer.norm.weight.as_mut().unwrap().data = vec![F(1.5), F(-0.5)];
    layer.forward(&tensor(&x, &[4, 2])).unwrap();
    let (gi, gw, gb) = layer.backward(&tensor(&g, &[4, 2])).unwrap();
    let hat = layer.norm.cache.as_ref().unwrap().normalized.clone();
    let step = 1e-2;
    for at in 0..x.len() {
        let mut up = x;
        up[at] += step;
        let mut down = x;
        down[at] -= step;
        let d = (norm_loss(&mut layer, &up, &g) - norm_loss(&mut layer, &down, &g)) / (2.0 * step);
        assert!((d - gi.data[at].0).abs() < 2e-2, "input {}: {} vs {}", at, d, gi.data[at].0);
    }
    assert!(close(&values(&gb.unwrap()), &[2.0, 0.0], 1e-5));
    let mut expected = [0.0f32; 2];
    for (at, h) in hat.iter().enumerate() {
        expected[at % 2] += g[at] * h.0;
    }
    assert!(close(&values(&gw.unwrap()), &expected, 1e-5));
}

#[test]
fn max_pool_records_a_window_of_lowest_values_at_its_first_position() {
    let low = f32::NEG_INFINITY;
    let mut pool = MaxPool2d::new((1, 2), (1, 2));
    let input = tensor(&[low, low, low, low], &[1, 1, 1, 4]);
    let out = pool.forward(&input).unwrap();
    assert_eq!(values(&out), vec![low, low]);
    assert_eq!(pool.indices, Some(vec![0, 2]));
    let grad = pool.backward(&tensor(&[1.0, 2.0], &[1, 1, 1, 2])).unwrap();
    assert_eq!(values(&grad), vec![1.0, 0.0, 2.0, 0.0]);

    let mut square = MaxPool2d::new((2, 2), (1, 1));
    let input = tensor(&[0.0, low, low, 1.0, low, low, 2.0, low, low], &[1, 1, 3, 3]);
    square.forward(&input).unwrap();
    assert_eq!(square.indices, Some(vec![3, 1, 6, 4]));
}

#[test]
fn max_pool_of_integers_records_the_lowest_window_in_place() {
    let t = Tensor::try_new(
        vec![i64::MIN, i64::MIN, i64::MIN, i64::MIN, 3, i64::MIN],
        vec![1, 1, 1, 6],
        false,
        Device::CPU,
        DataType::Int64,
    )
    .unwrap();
    let mut pool = MaxPool2d::new((1, 2), (1, 2));
    let out = pool.forward(&t).unwrap();
    assert_eq!(out.data, vec![i64::MIN, i64::MIN, 3]);
    assert_eq!(pool.indices, Some(vec![0, 2, 4]));
}
