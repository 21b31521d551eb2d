use bellande::device::Device;
use bellande::dtype::DataType;
use bellande::error::BellandeError;
use bellande::layer::activation::ReLU;
use bellande::layer::dropout::Dropout;
use bellande::layer::linear::Linear;
use bellande::layer::{Layer, LayerKind, LayerSettings};
use bellande::models::models::{create_cnn, create_mlp, ModelConfig};
use bellande::models::resnet::{make_layer, ResNet, ResidualBlock};
use bellande::models::sequential::{is_plan_buildable, Sequential};
use bellande::models::state::{NamedParameter, ParameterRole};
use bellande::models::vgg::{vgg16_classifier_plan, vgg16_features_plan, VGG};
use bellande::scalar::{RandomSource, Scalar};
use bellande::tensor::Tensor;

#[derive(Clone, Copy, Debug, PartialEq)]
struct F(f32);

impl Scalar for F {
    fn zero_spec() -> Self {
        F(0.0)
    }
    fn one_spec() -> Self {
        F(1.0)
    }
    fn lowest_spec() -> Self {
        F(f32::NEG_INFINITY)
    }
    fn highest_spec() -> Self {
        F(f32::INFINITY)
    }
    fn count_spec(n: usize) -> Self {
        F(n as f32)
    }
    fn plus_spec(self, rhs: Self) -> Self {
        F(self.0 + rhs.0)
    }
    fn minus_spec(self, rhs: Self) -> Self {
        F(self.0 - rhs.0)
    }
    fn times_spec(self, rhs: Self) -> Self {
        F(self.0 * rhs.0)
    }
    fn over_spec(self, rhs: Self) -> Self {
        F(self.0 / rhs.0)
    }
    fn root_spec(self) -> Self {
        F(self.0.sqrt())
    }
    fn exceeds_spec(self, rhs: Self) -> bool {
        self.0 > rhs.0
    }
    fn equals_spec(self, rhs: Self) -> bool {
        self.0 == rhs.0
    }
    fn zero() -> Self {
        F(0.0)
    }
    fn one() -> Self {
        F(1.0)
    }
    fn lowest() -> Self {
        F(f32::NEG_INFINITY)
    }
    fn highest() -> Self {
        F(f32::INFINITY)
    }
    fn count(n: usize) -> Self {
        F(n as f32)
    }
    fn plus(self, rhs: Self) -> Self {
        F(self.0 + rhs.0)
    }
    fn minus(self, rhs: Self) -> Self {
        F(self.0 - rhs.0)
    }
    fn times(self, rhs: Self) -> Self {
        F(self.0 * rhs.0)
    }
    fn over(self, rhs: Self) -> Self {
        F(self.0 / rhs.0)
    }
    fn root(self) -> Self {
        F(self.0.sqrt())
    }
    fn exceeds(self, rhs: Self) -> bool {
        self.0 > rhs.0
    }
    fn equals(self, rhs: Self) -> bool {
        self.0 == rhs.0
    }
}

fn tensor(values: &[f32], shape: &[usize]) -> Tensor<F> {
    Tensor::try_new(
        values.iter().map(|v| F(*v)).collect(),
        shape.to_vec(),
        false,
        Device::CPU,
        DataType::Float32,
    )
    .unwrap()
}

fn values(t: &Tensor<F>) -> Vec<f32> {
    t.data.iter().map(|v| v.0).collect()
}

fn close(a: &[f32], b: &[f32], tolerance: f32) -> bool {
    a.len() == b.len() && a.iter().zip(b.iter()).all(|(x, y)| (x - y).abs() <= tolerance)
}

/// A source that replays fixed draws.
struct Fixed {
    normals: Vec<f32>,
    keeps: Vec<bool>,
    next_normal: usize,
    next_keep: usize,
}

impl Fixed {
    fn new(normals: &[f32], keeps: &[bool]) -> Self {
        Fixed { normals: normals.to_vec(), keeps: keeps.to_vec(), next_normal: 0, next_keep: 0 }
    }
}

impl RandomSource<F> for Fixed {
    fn standard_normal(&mut self) -> F {
        let v = if self.normals.is_empty() {
            0.0
        } else {
            self.normals[self.next_normal % self.normals.len()]
        };
        self.next_normal += 1;
        F(v)
    }

    fn keep(&mut self, _p: F) -> bool {
        let v = if self.keeps.is_empty() {
            true
        } else {
            self.keeps[self.next_keep % self.keeps.len()]
        };
        self.next_keep += 1;
        v
    }
}

fn linear(weights: &[f32], bias: &[f32], n_in: usize, n_out: usize) -> Layer<F> {
    let mut rng = Fixed::new(weights, &[]);
    let mut layer = Linear::new(n_in, n_out, true, &mut rng);
    layer.bias.as_mut().unwrap().data = bias.iter().map(|v| F(*v)).collect();
    Layer::Linear(layer)
}

fn small_model() -> Sequential<F> {
    let mut model = Sequential::new();
    model.add(linear(&[1.0, -1.0, 2.0, 0.5], &[0.0, -1.0], 2, 2));
    model.add(Layer::ReLU(ReLU::new()));
    model.add(linear(&[1.0, 2.0], &[0.5], 2, 1));
    model
}

#[test]
fn sequential_starts_empty_and_grows() {
    let mut model: Sequential<F> = Sequential::new();
    assert!(model.training);
    assert_eq!(model.get_layers().len(), 0);
    model.add(Layer::ReLU(ReLU::new()));
    assert_eq!(model.get_layers().len(), 1);
    model.get_layers_mut().push(Layer::ReLU(ReLU::new()));
    assert_eq!(model.get_layers().len(), 2);
    assert_eq!(model.get_layers()[1].kind(), LayerKind::ReLU);
}

#[test]
fn empty_sequential_returns_its_input() {
    let mut model: Sequential<F> = Sequential::new();
    let mut rng = Fixed::new(&[], &[]);
    let x = tensor(&[1.0, -2.0], &[1, 2]);
    assert_eq!(values(&model.forward(&x, &mut rng).unwrap()), vec![1.0, -2.0]);
    assert_eq!(values(&model.backward(&x).unwrap()), vec![1.0, -2.0]);
    assert!(model.parameters().is_empty());
}

#[test]
fn sequential_forward_chains_front_to_back() {
    let mut model = small_model();
    let mut rng = Fixed::new(&[], &[]);
    let y = model.forward(&tensor(&[3.0, 1.0, 0.0, 1.0], &[2, 2]), &mut rng).unwrap();
    assert_eq!(y.shape, vec![2, 1]);
    assert_eq!(values(&y), vec![13.5, 0.5]);
}

#[test]
fn sequential_backward_chains_back_to_front_and_accumulates() {
    let mut model = small_model();
    let mut rng = Fixed::new(&[], &[]);
    model.forward(&tensor(&[3.0, 1.0, 0.0, 1.0], &[2, 2]), &mut rng).unwrap();
    let gi = model.backward(&tensor(&[1.0, 1.0], &[2, 1])).unwrap();
    assert_eq!(gi.shape, vec![2, 2]);
    assert_eq!(values(&gi), vec![5.0, 0.0, 0.0, 0.0]);
    let params = model.parameters();
    assert_eq!(params.len(), 4);
    let grads: Vec<Vec<f32>> =
        params.iter().map(|p| p.grad.as_ref().unwrap().iter().map(|v| v.0).collect()).collect();
    assert_eq!(grads[0], vec![3.0, 1.0, 6.0, 2.0]);
    assert_eq!(grads[1], vec![1.0, 2.0]);
    assert_eq!(grads[2], vec![2.0, 5.5]);
    assert_eq!(grads[3], vec![2.0]);
    model.forward(&tensor(&[3.0, 1.0, 0.0, 1.0], &[2, 2]), &mut rng).unwrap();
    model.backward(&tensor(&[1.0, 1.0], &[2, 1])).unwrap();
    let twice = model.parameters();
    assert_eq!(twice[3].grad, Some(vec![F(4.0)]));
}

#[test]
fn sequential_stops_at_the_first_failing_layer() {
    let mut model = small_model();
    let mut rng = Fixed::new(&[], &[]);
    assert_eq!(
        model.forward(&tensor(&[1.0; 3], &[1, 3]), &mut rng).unwrap_err(),
        BellandeError::DimensionMismatch
    );
    assert!(matches!(
        model.backward(&tensor(&[1.0], &[1, 1])),
        Err(BellandeError::RuntimeError(_))
    ));
}

#[test]
fn sequential_switches_the_mode_of_every_layer() {
    let mut model: Sequential<F> = Sequential::new();
    model.add(Layer::Dropout(Dropout::new(F(0.5))));
    model.add(Layer::ReLU(ReLU::new()));
    model.eval();
    assert!(!model.training);
    match &model.get_layers()[0] {
        Layer::Dropout(d) => assert!(!d.training),
        _ => panic!("expected dropout"),
    }
    let mut rng = Fixed::new(&[], &[false]);
    let y = model.forward(&tensor(&[1.0, -1.0], &[2]), &mut rng).unwrap();
    assert_eq!(values(&y), vec![1.0, 0.0]);
    model.train();
    assert!(model.training);
    let y = model.forward(&tensor(&[1.0, -1.0], &[2]), &mut rng).unwrap();
    assert_eq!(values(&y), vec![0.0, 0.0]);
}

#[test]
fn state_round_trips() {
    let model = small_model();
    let state = model.state_dict();
    assert_eq!(state.len(), 4);
    let names: Vec<(usize, ParameterRole)> = state.iter().map(|e| (e.layer, e.role)).collect();
    assert_eq!(
        names,
        vec![
            (0, ParameterRole::Weight),
            (0, ParameterRole::Bias),
            (2, ParameterRole::Weight),
            (2, ParameterRole::Bias)
        ]
    );
    let mut other = Sequential::new();
    other.add(linear(&[0.0; 4], &[0.0; 2], 2, 2));
    other.add(Layer::ReLU(ReLU::new()));
    other.add(linear(&[0.0; 2], &[0.0], 2, 1));
    assert_eq!(other.load_state_dict(&state), Ok(()));
    let loaded: Vec<Vec<f32>> = other.parameters().iter().map(values).collect();
    let initial: Vec<Vec<f32>> = model.parameters().iter().map(values).collect();
    assert_eq!(loaded, initial);
    let mut same = small_model();
    assert_eq!(same.load_state_dict(&state), Ok(()));
    let kept: Vec<Vec<f32>> = same.parameters().iter().map(values).collect();
    assert_eq!(kept, initial);
}

#[test]
fn loading_a_state_needs_every_parameter() {
    let mut model = small_model();
    let mut state = model.state_dict();
    state.pop();
    assert_eq!(model.load_state_dict(&state), Err(BellandeError::SerializationError));
    state.push(NamedParameter {
        layer: 2,
        role: ParameterRole::Bias,
        tensor: tensor(&[1.0, 2.0], &[2]),
    });
    assert_eq!(model.load_state_dict(&state), Err(BellandeError::DimensionMismatch));
    let before: Vec<Vec<f32>> = small_model().parameters().iter().map(values).collect();
    let after: Vec<Vec<f32>> = model.parameters().iter().map(values).collect();
    assert_eq!(before, after);
}

#[test]
fn perceptron_follows_its_configuration() {
    let mut rng = Fixed::new(&[0.5], &[]);
    let config = ModelConfig {
        input_shape: vec![2, 3],
        num_classes: 4,
        dropout_rate: F(0.25),
        hidden_layers: vec![8, 5],
    };
    let model = create_mlp(&config, &mut rng).unwrap();
    let kinds: Vec<LayerKind> = model.get_layers().iter().map(|l| l.kind()).collect();
    assert_eq!(
        kinds,
        vec![
            LayerKind::Linear { in_features: 6, out_features: 8, bias: true },
            LayerKind::ReLU,
            LayerKind::Dropout,
            LayerKind::Linear { in_features: 8, out_features: 5, bias: true },
            LayerKind::ReLU,
            LayerKind::Linear { in_features: 5, out_features: 4, bias: true },
        ]
    );
    let plain = ModelConfig {
        input_shape: vec![3],
        num_classes: 2,
        dropout_rate: F(0.0),
        hidden_layers: vec![4],
    };
    assert_eq!(create_mlp(&plain, &mut rng).unwrap().get_layers().len(), 3);
}

#[test]
fn perceptron_rejects_bad_configurations() {
    let mut rng = Fixed::new(&[0.5], &[]);
    let none = ModelConfig {
        input_shape: vec![3],
        num_classes: 2,
        dropout_rate: F(0.0),
        hidden_layers: vec![],
    };
    assert!(matches!(create_mlp(&none, &mut rng), Err(BellandeError::InvalidConfiguration(_))));
    let huge = ModelConfig {
        input_shape: vec![usize::MAX, 2],
        num_classes: 2,
        dropout_rate: F(0.0),
        hidden_layers: vec![4],
    };
    assert!(matches!(create_mlp(&huge, &mut rng), Err(BellandeError::InvalidConfiguration(_))));
    let certain = ModelConfig {
        input_shape: vec![3],
        num_classes: 2,
        dropout_rate: F(1.0),
        hidden_layers: vec![4, 4],
    };
    assert!(matches!(create_mlp(&certain, &mut rng), Err(BellandeError::InvalidParameter(_))));
}

#[test]
fn small_cnn_has_the_expected_layers() {
    let mut rng = Fixed::new(&[0.5], &[]);
    let config = ModelConfig {
        input_shape: vec![3, 28, 28],
        num_classes: 10,
        dropout_rate: F(0.5),
        hidden_layers: vec![],
    };
    let model = create_cnn(&config, F(1e-5), F(0.1), &mut rng).unwrap();
    let kinds: Vec<LayerKind> = model.get_layers().iter().map(|l| l.kind()).collect();
    assert_eq!(kinds.len(), 12);
    assert_eq!(kinds[1], LayerKind::BatchNorm2d { num_features: 64, affine: true });
    assert_eq!(kinds[8], LayerKind::Linear { in_features: 6272, out_features: 512, bias: true });
    assert_eq!(kinds[10], LayerKind::Dropout);
    assert_eq!(kinds[11], LayerKind::Linear { in_features: 512, out_features: 10, bias: true });
    match &model.get_layers()[1] {
        Layer::BatchNorm2d(n) => {
            assert_eq!(n.norm.eps, F(1e-5));
            assert_eq!(n.norm.momentum, F(0.1));
        }
        _ => panic!("expected a batch normalization"),
    }
    let plain = ModelConfig { dropout_rate: F(0.0), ..config };
    assert_eq!(create_cnn(&plain, F(1e-5), F(0.1), &mut rng).unwrap().get_layers().len(), 11);
}

fn conv3(i: usize, o: usize) -> LayerKind {
    LayerKind::Conv2d {
        in_channels: i,
        out_channels: o,
        kernel_h: 3,
        kernel_w: 3,
        stride_h: 1,
        stride_w: 1,
        pad_h: 1,
        pad_w: 1,
        bias: true,
    }
}

#[test]
fn vgg16_plans() {
    let features = vgg16_features_plan();
    assert_eq!(features.len(), 31);
    let pool = LayerKind::MaxPool2d { kernel_h: 2, kernel_w: 2, stride_h: 2, stride_w: 2 };
    assert_eq!(features[0], conv3(3, 64));
    assert_eq!(features[1], LayerKind::ReLU);
    assert_eq!(features[2], conv3(64, 64));
    assert_eq!(features[4], pool);
    assert_eq!(features[5], conv3(64, 128));
    assert_eq!(features[9], pool);
    assert_eq!(features[10], conv3(128, 256));
    assert_eq!(features[14], conv3(256, 256));
    assert_eq!(features[16], pool);
    assert_eq!(features[17], conv3(256, 512));
    assert_eq!(features[23], pool);
    assert_eq!(features[24], conv3(512, 512));
    assert_eq!(features[30], pool);
    assert_eq!(features.iter().filter(|k| matches!(k, LayerKind::Conv2d { .. })).count(), 13);
    assert!(is_plan_buildable(&features));
    let classifier = vgg16_classifier_plan(1000);
    assert_eq!(
        classifier,
        vec![
            LayerKind::Linear { in_features: 25088, out_features: 4096, bias: true },
            LayerKind::ReLU,
            LayerKind::Dropout,
            LayerKind::Linear { in_features: 4096, out_features: 4096, bias: true },
            LayerKind::ReLU,
            LayerKind::Dropout,
            LayerKind::Linear { in_features: 4096, out_features: 1000, bias: true },
        ]
    );
}

#[test]
fn vgg_forward_runs_its_three_stages() {
    let mut rng = Fixed::new(&[1.0], &[true]);
    let settings = LayerSettings { dropout: F(0.5), eps: F(0.0), momentum: F(0.0) };
    let features = Sequential::from_plan(
        &vec![LayerKind::Conv2d {
            in_channels: 1,
            out_channels: 1,
            kernel_h: 1,
            kernel_w: 1,
            stride_h: 1,
            stride_w: 1,
            pad_h: 0,
            pad_w: 0,
            bias: false,
        }],
        &settings,
        &mut rng,
    );
    let classifier = Sequential::from_plan(
        &vec![LayerKind::Linear { in_features: 4, out_features: 1, bias: false }],
        &settings,
        &mut rng,
    );
    let mut model = VGG {
        features,
        avgpool: bellande::layer::avgpool2d::AvgPool2d::new((2, 2), (1, 1)),
        classifier,
    };
    let x = tensor(&[1.0, 2.0, 3.0, 4.0, 5.0, 6.0, 7.0, 8.0, 9.0], &[1, 1, 3, 3]);
    let y = model.forward(&x, &mut rng).unwrap();
    assert_eq!(y.shape, vec![1, 1]);
    assert_eq!(values(&y), vec![20.0]);
    assert!(matches!(
        model.forward(&tensor(&[1.0], &[1, 1, 1, 1]), &mut rng),
        Err(BellandeError::InvalidShape(_))
    ));
}

#[test]
fn residual_block_adds_the_input_back() {
    let mut rng = Fixed::new(&[0.0], &[]);
    let settings = LayerSettings { dropout: F(0.0), eps: F(1.0), momentum: F(0.1) };
    let mut block: ResidualBlock<F> = ResidualBlock::new(1, 1, 1, None, &settings, &mut rng);
    let x = tensor(&[1.0, -2.0, 3.0, -4.0], &[1, 1, 2, 2]);
    let y = block.forward(&x, &mut rng).unwrap();
    assert_eq!(y.shape, vec![1, 1, 2, 2]);
    assert_eq!(values(&y), vec![1.0, 0.0, 3.0, 0.0]);
    let mut narrowing: ResidualBlock<F> = ResidualBlock::new(1, 2, 1, None, &settings, &mut rng);
    assert_eq!(narrowing.forward(&x, &mut rng).unwrap_err(), BellandeError::DimensionMismatch);
}

#[test]
fn groups_of_blocks_downsample_where_needed() {
    let mut rng = Fixed::new(&[0.0], &[]);
    let settings = LayerSettings { dropout: F(0.0), eps: F(1e-5), momentum: F(0.1) };
    let same: Vec<ResidualBlock<F>> = make_layer(4, 4, 2, 1, &settings, &mut rng);
    assert_eq!(same.len(), 2);
    assert!(same[0].downsample.is_none() && same[1].downsample.is_none());
    let wider: Vec<ResidualBlock<F>> = make_layer(4, 8, 3, 2, &settings, &mut rng);
    assert_eq!(wider.len(), 3);
    let shortcut = wider[0].downsample.as_ref().unwrap();
    assert_eq!(shortcut.get_layers().len(), 2);
    assert_eq!(
        shortcut.get_layers()[0].kind(),
        LayerKind::Conv2d {
            in_channels: 4,
            out_channels: 8,
            kernel_h: 1,
            kernel_w: 1,
            stride_h: 2,
            stride_w: 2,
            pad_h: 0,
            pad_w: 0,
            bias: true,
        }
    );
    assert_eq!(wider[0].conv1.stride, (2, 2));
    assert_eq!(wider[1].conv1.stride, (1, 1));
    assert_eq!(wider[1].conv1.in_channels, 8);
    assert!(wider[1].downsample.is_none());
    let single: Vec<ResidualBlock<F>> = make_layer(4, 4, 0, 1, &settings, &mut rng);
    assert_eq!(single.len(), 1);
}

#[test]
fn resnet18_has_four_groups_of_two_blocks() {
    let mut rng = Fixed::new(&[0.01], &[]);
    let settings = LayerSettings { dropout: F(0.0), eps: F(1e-5), momentum: F(0.1) };
    let mut net: ResNet<F> = ResNet::resnet18(10, &settings, &mut rng);
    assert_eq!(net.conv1.kernel_size, (7, 7));
    assert_eq!(net.conv1.stride, (2, 2));
    assert_eq!(net.conv1.padding, (3, 3));
    assert_eq!(net.maxpool.kernel_size, (3, 3));
    assert_eq!(
        (net.layer1.len(), net.layer2.len(), net.layer3.len(), net.layer4.len()),
        (2, 2, 2, 2)
    );
    assert!(net.layer1[0].downsample.is_none());
    assert!(net.layer2[0].downsample.is_some());
    assert_eq!(net.layer4[1].conv2.out_channels, 512);
    assert_eq!((net.fc.in_features, net.fc.out_features), (512, 10));
    assert_eq!(net.avgpool.kernel_size, (7, 7));
    assert!(matches!(
        net.forward(&tensor(&[0.0; 12], &[1, 3, 2, 2]), &mut rng),
        Err(BellandeError::InvalidShape(_))
    ));
    assert_eq!(
        net.forward(&tensor(&[0.0; 4], &[1, 1, 2, 2]), &mut rng).unwrap_err(),
        BellandeError::DimensionMismatch
    );
}

#[test]
fn layers_are_added_in_a_chain() {
    let mut model: Sequential<F> = Sequential::new();
    model.add(linear(&[1.0, -1.0, 2.0, 0.5], &[0.0, -1.0], 2, 2)).add(Layer::ReLU(ReLU::new())).add(
        linear(&[1.0, 2.0], &[0.5], 2, 1),
    );
    assert_eq!(model.get_layers().len(), 3);
    assert!(matches!(model.layers[0], Layer::Linear(_)));
    assert!(matches!(model.layers[1], Layer::ReLU(_)));
    assert!(matches!(model.layers[2], Layer::Linear(_)));
    let mut rng = Fixed::new(&[], &[]);
    let out = model.forward(&tensor(&[1.0, 2.0], &[1, 2]), &mut rng).unwrap();
    let mut same = small_model();
    assert_eq!(values(&out), values(&same.forward(&tensor(&[1.0, 2.0], &[1, 2]), &mut rng).unwrap()));
}

#[test]
fn loading_parameters_leaves_the_rest_of_a_layer_alone() {
    let mut model = small_model();
    let mut rng = Fixed::new(&[], &[]);
    model.forward(&tensor(&[1.0, 2.0], &[1, 2]), &mut rng).unwrap();
    let cached = match &model.layers[0] {
        Layer::Linear(l) => values(l.input_cache.as_ref().unwrap()),
        _ => unreachable!(),
    };
    let state = model.state_dict();
    assert_eq!(model.load_state_dict(&state), Ok(()));
    match &model.layers[0] {
        Layer::Linear(l) => assert_eq!(values(l.input_cache.as_ref().unwrap()), cached),
        _ => unreachable!(),
    }
    assert!(model.training);
}
