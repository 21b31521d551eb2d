use bellande::data::augmentation::{
    flip, Augmentation, Compose, DataAugmentation, RandomHorizontalFlip,
};
use bellande::device::Device;
use bellande::dtype::DataType;
use bellande::error::BellandeError;
use bellande::layer::activation::ReLU;
use bellande::layer::avgpool2d::AvgPool2d;
use bellande::layer::batch_norm::BatchNorm1d;
use bellande::layer::conv::Conv2d;
use bellande::layer::linear::Linear;
use bellande::layer::pooling::MaxPool2d;
use bellande::layer::Layer;
use bellande::models::sequential::Sequential;
use bellande::optim::adam::Adam;
use bellande::optim::rmsprop::RMSprop;
use bellande::optim::sgd::SGD;
use bellande::optim::{all_wf, is_replaceable};
use bellande::scalar::{RandomSource, Scalar};
use bellande::shape::{is_shape1, is_shape2, is_shape4};
use bellande::tensor::Tensor;
use bellande::training::history::TrainingHistory;

#[derive(Clone, Copy, Debug, PartialEq)]
struct F(f32);

impl Scalar for F {
    fn zero_spec() -> Self {
        F(0.0)
    }
    fn one_spec() -> Self {
        F(1.0)
    }
    fn lowest_spec() -> Self {
        F(f32::NEG_INFINITY)
    }
    fn highest_spec() -> Self {
        F(f32::INFINITY)
    }
    fn count_spec(n: usize) -> Self {
        F(n as f32)
    }
    fn plus_spec(self, rhs: Self) -> Self {
        F(self.0 + rhs.0)
    }
    fn minus_spec(self, rhs: Self) -> Self {
        F(self.0 - rhs.0)
    }
    fn times_spec(self, rhs: Self) -> Self {
        F(self.0 * rhs.0)
    }
    fn over_spec(self, rhs: Self) -> Self {
        F(self.0 / rhs.0)
    }
    fn root_spec(self) -> Self {
        F(self.0.sqrt())
    }
    fn exceeds_spec(self, rhs: Self) -> bool {
        self.0 > rhs.0
    }
    fn equals_spec(self, rhs: Self) -> bool {
        self.0 == rhs.0
    }
    fn zero() -> Self {
        F(0.0)
    }
    fn one() -> Self {
        F(1.0)
    }
    fn lowest() -> Self {
        F(f32::NEG_INFINITY)
    }
    fn highest() -> Self {
        F(f32::INFINITY)
    }
    fn count(n: usize) -> Self {
        F(n as f32)
    }
    fn plus(self, rhs: Self) -> Self {
        F(self.0 + rhs.0)
    }
    fn minus(self, rhs: Self) -> Self {
        F(self.0 - rhs.0)
    }
    fn times(self, rhs: Self) -> Self {
        F(self.0 * rhs.0)
    }
    fn over(self, rhs: Self) -> Self {
        F(self.0 / rhs.0)
    }
    fn root(self) -> Self {
        F(self.0.sqrt())
    }
    fn exceeds(self, rhs: Self) -> bool {
        self.0 > rhs.0
    }
    fn equals(self, rhs: Self) -> bool {
        self.0 == rhs.0
    }
}

fn tensor(values: &[f32], shape: &[usize]) -> Tensor<F> {
    Tensor::try_new(
        values.iter().map(|v| F(*v)).collect(),
        shape.to_vec(),
        false,
        Device::CPU,
        DataType::Float32,
    )
    .unwrap()
}

fn values(t: &Tensor<F>) -> Vec<f32> {
    t.data.iter().map(|v| v.0).collect()
}

fn close(a: &[f32], b: &[f32], tolerance: f32) -> bool {
    a.len() == b.len() && a.iter().zip(b.iter()).all(|(x, y)| (x - y).abs() <= tolerance)
}

/// A source that replays fixed draws.
struct Fixed {
    normals: Vec<f32>,
    keeps: Vec<bool>,
    next_normal: usize,
    next_keep: usize,
}

impl Fixed {
    fn new(normals: &[f32], keeps: &[bool]) -> Self {
        Fixed { normals: normals.to_vec(), keeps: keeps.to_vec(), next_normal: 0, next_keep: 0 }
    }
}

impl RandomSource<F> for Fixed {
    fn standard_normal(&mut self) -> F {
        let v = if self.normals.is_empty() {
            0.0
        } else {
            self.normals[self.next_normal % self.normals.len()]
        };
        self.next_normal += 1;
        F(v)
    }

    fn keep(&mut self, _p: F) -> bool {
        let v = if self.keeps.is_empty() {
            true
        } else {
            self.keeps[self.next_keep % self.keeps.len()]
        };
        self.next_keep += 1;
        v
    }
}

fn parameter(data: &[f32], grad: &[f32]) -> Tensor<F> {
    let mut t = tensor(data, &[data.len()]);
    t.requires_grad = true;
    t.grad = Some(grad.iter().map(|v| F(*v)).collect());
    t
}

#[test]
fn shapes_are_told_apart() {
    assert!(is_shape1(&vec![3], 3));
    assert!(!is_shape1(&vec![3], 4));
    assert!(!is_shape1(&vec![3, 1], 3));
    assert!(is_shape2(&vec![2, 5], 2, 5));
    assert!(!is_shape2(&vec![5, 2], 2, 5));
    assert!(!is_shape2(&vec![2], 2, 5));
    assert!(is_shape4(&vec![1, 2, 3, 4], 1, 2, 3, 4));
    assert!(!is_shape4(&vec![1, 2, 3, 5], 1, 2, 3, 4));
    assert!(!is_shape4(&vec![1, 2, 3], 1, 2, 3, 4));
}

#[test]
fn tensor_well_formedness_is_decided() {
    let mut t = tensor(&[1.0, 2.0, 3.0, 4.0, 5.0, 6.0], &[2, 3]);
    assert!(t.is_wf());
    t.shape = vec![2, 2];
    assert!(!t.is_wf());
    t.shape = vec![3, 2];
    assert!(t.is_wf());
    t.requires_grad = true;
    assert!(!t.is_wf());
    t.grad = Some(vec![F(0.0); 5]);
    assert!(!t.is_wf());
    t.grad = Some(vec![F(0.0); 6]);
    assert!(t.is_wf());
    t.shape = vec![usize::MAX, 2, 3];
    assert!(!t.is_wf());
    let empty = tensor(&[], &[usize::MAX, 0, 7]);
    assert!(empty.is_wf());
}

#[test]
fn linear_well_formedness_is_decided() {
    let mut rng = Fixed::new(&[0.5], &[]);
    let mut layer: Linear<F> = Linear::new(3, 2, true, &mut rng);
    assert!(layer.is_wf());
    layer.in_features = 4;
    assert!(!layer.is_wf());
    layer.in_features = 3;
    layer.bias.as_mut().unwrap().shape = vec![3];
    assert!(!layer.is_wf());
    layer.bias = None;
    assert!(layer.is_wf());
    layer.input_cache = Some(tensor(&[0.0; 6], &[2, 3]));
    assert!(layer.is_wf());
    layer.input_cache = Some(tensor(&[0.0; 6], &[3, 2]));
    assert!(!layer.is_wf());
}

#[test]
fn layer_well_formedness_is_decided() {
    let mut rng = Fixed::new(&[0.5], &[]);
    let mut conv: Conv2d<F> = Conv2d::new(1, 2, (2, 2), (1, 1), (0, 0), true, &mut rng);
    assert!(conv.is_wf());
    conv.input_cache = Some(tensor(&[0.0; 9], &[1, 1, 3, 3]));
    assert!(conv.is_wf());
    conv.input_cache = Some(tensor(&[0.0; 2], &[1, 1, 1, 2]));
    assert!(!conv.is_wf());
    conv.input_cache = None;
    conv.kernel_size = (3, 2);
    assert!(!conv.is_wf());

    let mut pool = MaxPool2d::new((2, 2), (2, 2));
    assert!(pool.is_wf());
    pool.indices = Some(vec![0, 3]);
    assert!(!pool.is_wf());
    pool.input_shape = Some(vec![1, 1, 2, 2]);
    assert!(pool.is_wf());
    pool.indices = Some(vec![0, 4]);
    assert!(!pool.is_wf());

    let mut average = AvgPool2d::new((2, 2), (2, 2));
    assert!(average.is_wf());
    average.input_shape = Some(vec![1, 1, 4, 4]);
    assert!(average.is_wf());
    average.input_shape = Some(vec![1, 1, 1, 4]);
    assert!(!average.is_wf());

    let mut norm: BatchNorm1d<F> = BatchNorm1d::new(3, F(1e-5), F(0.1), true);
    assert!(norm.is_wf());
    norm.norm.running_var.data.push(F(1.0));
    assert!(!norm.is_wf());

    let mut relu: ReLU<F> = ReLU::new();
    assert!(relu.is_wf());
    let mut broken = tensor(&[1.0, 2.0], &[2]);
    broken.shape = vec![3];
    relu.input_cache = Some(broken);
    assert!(!relu.is_wf());
    assert!(!Layer::ReLU(relu).is_wf());
    assert!(Layer::<F>::MaxPool2d(MaxPool2d::new((2, 2), (2, 2))).is_wf());
}

#[test]
fn model_well_formedness_is_decided() {
    let mut rng = Fixed::new(&[0.5, -0.5], &[]);
    let mut model: Sequential<F> = Sequential::new();
    assert!(model.is_wf());
    model.add(Layer::Linear(Linear::new(2, 2, true, &mut rng)));
    model.add(Layer::ReLU(ReLU::new()));
    assert!(model.is_wf());
    if let Layer::Linear(l) = &mut model.layers[0] {
        l.weight.data.pop();
    }
    assert!(!model.is_wf());
}

fn first_parameters() -> Vec<Tensor<F>> {
    vec![parameter(&[1.0, 2.0], &[0.5, -1.0]), parameter(&[3.0], &[1.0])]
}

fn next_parameters() -> Vec<Tensor<F>> {
    vec![parameter(&[5.0, 6.0], &[1.0, 1.0]), parameter(&[7.0], &[2.0])]
}

fn holds_next(params: &Vec<Tensor<F>>) -> bool {
    params.len() == 2
        && values(&params[0]) == vec![5.0, 6.0]
        && params[0].grad == Some(vec![F(1.0), F(1.0)])
        && values(&params[1]) == vec![7.0]
        && params[1].grad == Some(vec![F(2.0)])
}

#[test]
fn parameters_are_handed_to_an_optimizer_again() {
    let mut opt = SGD::new(first_parameters(), F(0.1), F(0.9), F(0.0), false);
    assert_eq!(opt.step(), Ok(()));
    let velocity = opt.velocity.clone();
    assert!(all_wf(&next_parameters()));
    assert!(is_replaceable(&opt.params, &next_parameters()));
    assert_eq!(opt.rebind(next_parameters()), Ok(()));
    assert!(holds_next(&opt.params));
    assert_eq!(opt.velocity, velocity);

    let fewer = vec![parameter(&[5.0, 6.0], &[1.0, 1.0])];
    assert!(!is_replaceable(&opt.params, &fewer));
    assert!(matches!(opt.rebind(fewer), Err(BellandeError::ShapeMismatch(_))));
    assert!(holds_next(&opt.params));

    let longer = vec![parameter(&[5.0, 6.0, 7.0], &[1.0, 1.0, 1.0]), parameter(&[7.0], &[2.0])];
    assert!(matches!(opt.rebind(longer), Err(BellandeError::ShapeMismatch(_))));
    let mut broken = next_parameters();
    broken[1].grad = Some(vec![]);
    assert!(!all_wf(&broken));
    assert!(matches!(opt.rebind(broken), Err(BellandeError::ShapeMismatch(_))));
    assert!(holds_next(&opt.params));
    assert_eq!(opt.velocity, velocity);

    let mut adam = Adam::new(first_parameters(), F(0.1), (F(0.9), F(0.999)), F(1e-8), F(0.0));
    assert_eq!(adam.step(), Ok(()));
    let (m, step) = (adam.m.clone(), adam.step);
    assert_eq!(adam.rebind(next_parameters()), Ok(()));
    assert!(holds_next(&adam.params));
    assert_eq!(adam.m, m);
    assert_eq!(adam.step, step);
    assert!(matches!(adam.rebind(vec![]), Err(BellandeError::ShapeMismatch(_))));
    assert!(holds_next(&adam.params));

    let mut rms = RMSprop::new(first_parameters(), F(0.1), F(0.9), F(1e-8), F(0.0), F(0.0), false);
    assert_eq!(rms.step(), Ok(()));
    let v = rms.v.clone();
    assert_eq!(rms.rebind(next_parameters()), Ok(()));
    assert!(holds_next(&rms.params));
    assert_eq!(rms.v, v);
    assert!(matches!(rms.rebind(vec![]), Err(BellandeError::ShapeMismatch(_))));
    assert!(holds_next(&rms.params));
}

#[test]
fn composed_flips_give_the_image_or_its_mirror() {
    let data: Vec<F> = (0..12).map(|v| F(v as f32)).collect();
    let mirror = flip(&data, 2, 2, 3);
    let three = Compose::new(vec![
        Augmentation::RandomHorizontalFlip(RandomHorizontalFlip::new(F(0.5))),
        Augmentation::RandomHorizontalFlip(RandomHorizontalFlip::new(F(0.5))),
        Augmentation::RandomHorizontalFlip(RandomHorizontalFlip::new(F(0.5))),
    ]);
    for draws in 0..8usize {
        let keeps: Vec<bool> = (0..3).map(|k| (draws >> k) & 1 == 1).collect();
        let flips = keeps.iter().filter(|k| !**k).count();
        let mut rng = Fixed::new(&[], &keeps);
        let out = three.apply(&data, 2, 2, 3, &mut rng);
        if flips % 2 == 0 {
            assert_eq!(out, data);
        } else {
            assert_eq!(out, mirror);
        }
    }
    assert_eq!(flip(&mirror, 2, 2, 3), data);
}

#[test]
fn history_records_the_entries_of_an_epoch_in_order() {
    let mut h: TrainingHistory<F> = TrainingHistory::new();
    h.update(
        3,
        &vec![
            ("loss".to_string(), F(1.0)),
            ("accuracy".to_string(), F(0.25)),
            ("loss".to_string(), F(0.75)),
        ],
    );
    assert_eq!(h.epochs, vec![3]);
    assert_eq!(h.get_metric_history("loss"), Some(&vec![F(1.0), F(0.75)]));
    assert_eq!(h.get_metric_history("accuracy"), Some(&vec![F(0.25)]));
    h.update(4, &vec![]);
    assert_eq!(h.epochs, vec![3, 4]);
    assert_eq!(h.get_metric_history("loss"), Some(&vec![F(1.0), F(0.75)]));
    h.record("accuracy", F(0.5));
    assert_eq!(h.get_metric_history("accuracy"), Some(&vec![F(0.25), F(0.5)]));
    assert_eq!(h.metrics.len(), 2);
}

fn transformed<A: DataAugmentation<F>>(a: &A, data: &Vec<F>, keeps: &[bool]) -> Vec<F> {
    let mut rng = Fixed::new(&[], keeps);
    DataAugmentation::apply(a, data, 2, 2, 3, &mut rng)
}

#[test]
fn augmentations_share_one_interface() {
    let data: Vec<F> = (0..12).map(|v| F(v as f32)).collect();
    let one = RandomHorizontalFlip::new(F(0.5));
    assert_eq!(transformed(&one, &data, &[true]), data);
    assert_eq!(transformed(&one, &data, &[false]), flip(&data, 2, 2, 3));
    let both = Compose::new(vec![
        Augmentation::RandomHorizontalFlip(RandomHorizontalFlip::new(F(0.5))),
        Augmentation::RandomHorizontalFlip(RandomHorizontalFlip::new(F(0.5))),
    ]);
    assert_eq!(transformed(&both, &data, &[false, true]), flip(&data, 2, 2, 3));
    assert_eq!(transformed(&both, &data, &[false, false]), data);
}

fn two_layers() -> Sequential<F> {
    let mut rng = Fixed::new(&[0.5, -0.5, 0.25], &[]);
    let mut model: Sequential<F> = Sequential::new();
    model.add(Layer::Linear(Linear::new(2, 2, true, &mut rng)));
    model.add(Layer::ReLU(ReLU::new()));
    model.add(Layer::Linear(Linear::new(2, 1, false, &mut rng)));
    model
}

fn elements(model: &Sequential<F>) -> Vec<Vec<f32>> {
    model.parameters().iter().map(values).collect()
}

#[test]
fn parameters_are_handed_back_by_position() {
    let mut model = two_layers();
    let before = elements(&model);
    assert_eq!(before.len(), 3);
    if let Layer::Linear(l) = &mut model.layers[0] {
        l.weight.grad = Some(vec![F(1.0), F(2.0), F(3.0), F(4.0)]);
    }
    let next = vec![
        tensor(&[1.0, 2.0, 3.0, 4.0], &[2, 2]),
        tensor(&[5.0, 6.0], &[2]),
        tensor(&[7.0, 8.0], &[1, 2]),
    ];
    assert_eq!(model.set_parameters(&next), Ok(()));
    assert_eq!(
        elements(&model),
        vec![vec![1.0, 2.0, 3.0, 4.0], vec![5.0, 6.0], vec![7.0, 8.0]]
    );
    let kept = model.parameters();
    assert_eq!(kept[0].grad, Some(vec![F(1.0), F(2.0), F(3.0), F(4.0)]));
    assert!(kept[0].requires_grad);
    assert_eq!(kept[0].shape, vec![2, 2]);
    assert!(model.is_wf());
}

#[test]
fn parameters_of_another_model_are_refused() {
    let mut model = two_layers();
    let before = elements(&model);
    let fewer = vec![tensor(&[1.0, 2.0, 3.0, 4.0], &[2, 2]), tensor(&[5.0, 6.0], &[2])];
    assert_eq!(model.set_parameters(&fewer), Err(BellandeError::DimensionMismatch));
    let reshaped = vec![
        tensor(&[1.0, 2.0, 3.0, 4.0], &[4, 1]),
        tensor(&[5.0, 6.0], &[2]),
        tensor(&[7.0, 8.0], &[1, 2]),
    ];
    assert_eq!(model.set_parameters(&reshaped), Err(BellandeError::DimensionMismatch));
    let mut broken = vec![
        tensor(&[1.0, 2.0, 3.0, 4.0], &[2, 2]),
        tensor(&[5.0, 6.0], &[2]),
        tensor(&[7.0, 8.0], &[1, 2]),
    ];
    broken[2].data.pop();
    assert_eq!(model.set_parameters(&broken), Err(BellandeError::DimensionMismatch));
    assert_eq!(elements(&model), before);
    let mut empty: Sequential<F> = Sequential::new();
    assert_eq!(empty.set_parameters(&vec![]), Ok(()));
    assert_eq!(
        empty.set_parameters(&vec![tensor(&[1.0], &[1])]),
        Err(BellandeError::DimensionMismatch)
    );
}

#[test]
fn a_step_of_an_optimizer_reaches_the_model() {
    let mut model = two_layers();
    let input = tensor(&[1.0, 2.0], &[1, 2]);
    let mut rng = Fixed::new(&[], &[]);
    let output = model.forward(&input, &mut rng).unwrap();
    let grad = tensor(&vec![1.0; output.data.len()], &output.shape);
    model.backward(&grad).unwrap();
    let mut opt = SGD::new(model.parameters(), F(0.5), F(0.0), F(0.0), false);
    let held = model.parameters();
    assert_eq!(opt.step(), Ok(()));
    assert_eq!(model.set_parameters(&opt.params), Ok(()));
    let after = model.parameters();
    for (p, q) in held.iter().zip(after.iter()) {
        let g = p.grad.as_ref().unwrap();
        for i in 0..p.data.len() {
            assert_eq!(q.data[i].0, p.data[i].0 - 0.5 * g[i].0);
        }
        assert_eq!(q.grad, p.grad);
    }
    model.zero_grad();
    assert_eq!(opt.rebind(model.parameters()), Ok(()));
    assert!(opt.params.iter().all(|p| p.grad.as_ref().unwrap().iter().all(|g| g.0 == 0.0)));
}
