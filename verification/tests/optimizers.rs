use bellande::device::Device;
use bellande::dtype::DataType;
use bellande::error::BellandeError;
use bellande::optim::adam::Adam;
use bellande::optim::rmsprop::RMSprop;
use bellande::optim::sgd::SGD;
use bellande::optim::{
    apply_weight_decay, clip_gradients, Optimizer, OptimizerState, ParameterGroup,
};
use bellande::scalar::Scalar;
use bellande::tensor::Tensor;

#[derive(Clone, Copy, Debug, PartialEq)]
struct F(f32);

impl Scalar for F {
    fn zero_spec() -> Self {
        F(0.0)
    }
    fn one_spec() -> Self {
        F(1.0)
    }
    fn lowest_spec() -> Self {
        F(f32::NEG_INFINITY)
    }
    fn highest_spec() -> Self {
        F(f32::INFINITY)
    }
    fn count_spec(n: usize) -> Self {
        F(n as f32)
    }
    fn plus_spec(self, rhs: Self) -> Self {
        F(self.0 + rhs.0)
    }
    fn minus_spec(self, rhs: Self) -> Self {
        F(self.0 - rhs.0)
    }
    fn times_spec(self, rhs: Self) -> Self {
        F(self.0 * rhs.0)
    }
    fn over_spec(self, rhs: Self) -> Self {
        F(self.0 / rhs.0)
    }
    fn root_spec(self) -> Self {
        F(self.0.sqrt())
    }
    fn exceeds_spec(self, rhs: Self) -> bool {
        self.0 > rhs.0
    }
    fn equals_spec(self, rhs: Self) -> bool {
        self.0 == rhs.0
    }
    fn zero() -> Self {
        F(0.0)
    }
    fn one() -> Self {
        F(1.0)
    }
    fn lowest() -> Self {
        F(f32::NEG_INFINITY)
    }
    fn highest() -> Self {
        F(f32::INFINITY)
    }
    fn count(n: usize) -> Self {
        F(n as f32)
    }
    fn plus(self, rhs: Self) -> Self {
        F(self.0 + rhs.0)
    }
    fn minus(self, rhs: Self) -> Self {
        F(self.0 - rhs.0)
    }
    fn times(self, rhs: Self) -> Self {
        F(self.0 * rhs.0)
    }
    fn over(self, rhs: Self) -> Self {
        F(self.0 / rhs.0)
    }
    fn root(self) -> Self {
        F(self.0.sqrt())
    }
    fn exceeds(self, rhs: Self) -> bool {
        self.0 > rhs.0
    }
    fn equals(self, rhs: Self) -> bool {
        self.0 == rhs.0
    }
}

fn tensor(values: &[f32], shape: &[usize]) -> Tensor<F> {
    Tensor::try_new(
        values.iter().map(|v| F(*v)).collect(),
        shape.to_vec(),
        false,
        Device::CPU,
        DataType::Float32,
    )
    .unwrap()
}

fn values(t: &Tensor<F>) -> Vec<f32> {
    t.data.iter().map(|v| v.0).collect()
}

fn close(a: &[f32], b: &[f32], tolerance: f32) -> bool {
    a.len() == b.len() && a.iter().zip(b.iter()).all(|(x, y)| (x - y).abs() <= tolerance)
}

fn parameter(data: &[f32], grad: Option<&[f32]>) -> Tensor<F> {
    let mut t = tensor(data, &[data.len()]);
    if let Some(g) = grad {
        t.requires_grad = true;
        t.grad = Some(g.iter().map(|v| F(*v)).collect());
    }
    t
}

#[test]
fn sgd_plain_step() {
    let mut opt = SGD::new(vec![parameter(&[1.0, 2.0], Some(&[0.5, -1.0]))], F(0.1), F(0.0), F(0.0), false);
    assert!(opt.velocity.is_empty());
    assert_eq!(opt.step(), Ok(()));
    assert!(close(&values(&opt.params[0]), &[0.95, 2.1], 1e-6));
    assert_eq!(opt.params[0].grad, Some(vec![F(0.5), F(-1.0)]));
}

#[test]
fn sgd_weight_decay_is_added_to_the_gradient() {
    let mut opt = SGD::new(vec![parameter(&[1.0, 2.0], Some(&[0.5, -1.0]))], F(0.1), F(0.0), F(0.5), false);
    opt.step().unwrap();
    assert!(close(&values(&opt.params[0]), &[1.0 - 0.1 * 1.0, 2.0 - 0.1 * 0.0], 1e-6));
}

#[test]
fn sgd_momentum_accumulates_velocity() {
    let mut opt = SGD::new(vec![parameter(&[1.0], Some(&[1.0]))], F(0.1), F(0.9), F(0.0), false);
    assert_eq!(opt.velocity, vec![vec![F(0.0)]]);
    opt.step().unwrap();
    assert!(close(&values(&opt.params[0]), &[0.9], 1e-6));
    assert_eq!(opt.velocity[0], vec![F(1.0)]);
    opt.step().unwrap();
    assert!(close(&[opt.velocity[0][0].0], &[1.9], 1e-6));
    assert!(close(&values(&opt.params[0]), &[0.9 - 0.19], 1e-6));
}

#[test]
fn sgd_nesterov_looks_ahead() {
    let mut opt = SGD::new(vec![parameter(&[1.0], Some(&[1.0]))], F(0.1), F(0.9), F(0.0), true);
    opt.step().unwrap();
    assert!(close(&values(&opt.params[0]), &[1.0 - 0.1 * (1.0 + 0.9 * 1.0)], 1e-6));
}

#[test]
fn sgd_leaves_parameters_without_gradient_alone() {
    let mut opt = SGD::new(
        vec![parameter(&[1.0, 2.0], None), parameter(&[3.0], Some(&[1.0]))],
        F(0.1),
        F(0.9),
        F(0.1),
        false,
    );
    opt.step().unwrap();
    assert_eq!(values(&opt.params[0]), vec![1.0, 2.0]);
    assert_eq!(opt.velocity[0], vec![F(0.0), F(0.0)]);
    assert!(values(&opt.params[1])[0] < 3.0);
}

#[test]
fn sgd_zero_gradient_leaves_data_unchanged() {
    let mut opt = SGD::new(
        vec![parameter(&[1.0, -2.5, 0.0], Some(&[0.0, 0.0, 0.0]))],
        F(0.1),
        F(0.0),
        F(0.0),
        false,
    );
    for _ in 0..3 {
        opt.step().unwrap();
    }
    assert_eq!(values(&opt.params[0]), vec![1.0, -2.5, 0.0]);
    let mut with_momentum = SGD::new(
        vec![parameter(&[1.0, -2.5, 0.0], Some(&[0.0, 0.0, 0.0]))],
        F(0.1),
        F(0.9),
        F(0.0),
        true,
    );
    with_momentum.step().unwrap();
    assert_eq!(values(&with_momentum.params[0]), vec![1.0, -2.5, 0.0]);
}

#[test]
fn zero_grad_resets_without_releasing() {
    let mut opt = SGD::new(
        vec![parameter(&[1.0, 2.0], Some(&[0.5, -1.0])), parameter(&[3.0], None)],
        F(0.1),
        F(0.0),
        F(0.0),
        false,
    );
    opt.zero_grad();
    assert_eq!(opt.params[0].grad, Some(vec![F(0.0), F(0.0)]));
    assert_eq!(opt.params[1].grad, None);
    assert_eq!(values(&opt.params[0]), vec![1.0, 2.0]);
}

#[test]
fn adam_first_step_moves_by_the_learning_rate() {
    let mut opt = Adam::new(
        vec![parameter(&[1.0, 2.0], Some(&[0.5, -3.0]))],
        F(0.1),
        (F(0.9), F(0.999)),
        F(0.0),
        F(0.0),
    );
    assert_eq!(opt.step(), Ok(()));
    assert_eq!(opt.step, 1);
    assert!(close(&values(&opt.params[0]), &[0.9, 2.1], 1e-5));
    assert!(close(&[opt.m[0][0].0, opt.m[0][1].0], &[0.05, -0.3], 1e-6));
    assert!(close(&[opt.v[0][0].0, opt.v[0][1].0], &[0.00025, 0.009], 1e-6));
}

#[test]
fn adam_counts_one_step_for_all_parameters() {
    let mut opt = Adam::new(
        vec![parameter(&[1.0], Some(&[1.0])), parameter(&[1.0], Some(&[1.0]))],
        F(0.1),
        (F(0.5), F(0.5)),
        F(1e-8),
        F(0.0),
    );
    opt.step().unwrap();
    opt.step().unwrap();
    assert_eq!(opt.step, 2);
    assert_eq!(opt.beta_powers, (F(0.25), F(0.25)));
    assert_eq!(values(&opt.params[0]), values(&opt.params[1]));
    let m = 0.5 * 0.5 + 0.5;
    let v = 0.5 * 0.5 + 0.5;
    let expected = 0.9 - 0.1 * (m / 0.75) / ((v / 0.75f32).sqrt() + 1e-8);
    assert!(close(&values(&opt.params[0]), &[expected], 1e-5));
}

#[test]
fn adam_zero_gradient_leaves_data_unchanged() {
    let mut opt = Adam::new(
        vec![parameter(&[1.0, -2.0], Some(&[0.0, 0.0]))],
        F(0.1),
        (F(0.9), F(0.999)),
        F(1e-8),
        F(0.0),
    );
    opt.step().unwrap();
    assert_eq!(values(&opt.params[0]), vec![1.0, -2.0]);
    assert_eq!(opt.get_lr(), F(0.1));
    opt.set_lr(F(0.5));
    assert_eq!(opt.get_lr(), F(0.5));
}

#[test]
fn adam_refuses_to_overflow_its_counter() {
    let mut opt = Adam::new(
        vec![parameter(&[1.0], Some(&[1.0]))],
        F(0.1),
        (F(1.0), F(1.0)),
        F(1e-8),
        F(0.0),
    );
    opt.step = usize::MAX;
    assert!(matches!(opt.step(), Err(BellandeError::InvalidOperation(_))));
    assert_eq!(values(&opt.params[0]), vec![1.0]);
}

#[test]
fn rmsprop_plain_step() {
    let mut opt = RMSprop::new(
        vec![parameter(&[1.0], Some(&[2.0]))],
        F(0.1),
        F(0.5),
        F(0.0),
        F(0.0),
        F(0.0),
        false,
    );
    opt.step().unwrap();
    assert_eq!(opt.v[0], vec![F(2.0)]);
    let expected = 1.0 - 0.1 * (2.0 * (1.0 / 2.0f32.sqrt()));
    assert!(close(&values(&opt.params[0]), &[expected], 1e-6));
    assert!(opt.g[0].is_empty() && opt.buf[0].is_empty());
}

#[test]
fn rmsprop_centered_with_momentum() {
    let mut opt = RMSprop::new(
        vec![parameter(&[1.0], Some(&[2.0]))],
        F(0.1),
        F(0.5),
        F(0.25),
        F(0.0),
        F(0.5),
        true,
    );
    opt.step().unwrap();
    assert_eq!(opt.v[0], vec![F(2.0)]);
    assert_eq!(opt.g[0], vec![F(1.0)]);
    let scaled = 2.0 * (1.0 / (2.0f32.sqrt() - 1.0 + 0.25));
    assert!(close(&[opt.buf[0][0].0], &[scaled], 1e-6));
    assert!(close(&values(&opt.params[0]), &[1.0 - 0.1 * scaled], 1e-6));
}

#[test]
fn rmsprop_zero_gradient_leaves_data_unchanged() {
    let mut opt = RMSprop::new(
        vec![parameter(&[1.0, -3.0], Some(&[1.0, 1.0]))],
        F(0.1),
        F(0.9),
        F(1e-8),
        F(0.0),
        F(0.0),
        false,
    );
    opt.step().unwrap();
    let moved = values(&opt.params[0]);
    opt.zero_grad();
    opt.step().unwrap();
    assert_eq!(values(&opt.params[0]), moved);
}

#[test]
fn optimizers_share_an_interface() {
    fn drive<O: Optimizer<F>>(o: &mut O) -> (&'static str, F) {
        o.set_learning_rate(F(0.25));
        o.zero_grad();
        o.step().unwrap();
        (o.name(), o.get_learning_rate())
    }
    let p = || vec![parameter(&[1.0], Some(&[1.0]))];
    assert_eq!(drive(&mut SGD::new(p(), F(0.1), F(0.0), F(0.0), false)), ("SGD", F(0.25)));
    assert_eq!(
        drive(&mut Adam::new(p(), F(0.1), (F(0.9), F(0.999)), F(1e-8), F(0.0))),
        ("Adam", F(0.25))
    );
    assert_eq!(
        drive(&mut RMSprop::new(p(), F(0.1), F(0.9), F(1e-8), F(0.0), F(0.0), false)),
        ("RMSprop", F(0.25))
    );
}

#[test]
fn weight_decay_is_applied_to_the_gradient() {
    let mut p = parameter(&[1.0, 2.0], Some(&[0.5, 0.5]));
    assert_eq!(apply_weight_decay(&mut p, F(0.1)), Ok(()));
    assert!(close(&[p.grad.as_ref().unwrap()[0].0, p.grad.as_ref().unwrap()[1].0], &[0.6, 0.7], 1e-6));
    assert_eq!(apply_weight_decay(&mut p, F(0.0)), Ok(()));
    let mut bare = parameter(&[1.0], None);
    assert_eq!(apply_weight_decay(&mut bare, F(0.1)), Err(BellandeError::NoGradients));
    assert_eq!(apply_weight_decay(&mut bare, F(0.0)), Ok(()));
}

#[test]
fn parameter_groups_are_built_step_by_step() {
    let g = ParameterGroup::new(vec![parameter(&[1.0], None)], F(0.001), F(1e-8));
    assert_eq!(g.lr, F(0.001));
    assert_eq!(g.weight_decay, F(0.0));
    assert_eq!(g.momentum, None);
    assert_eq!(g.betas, None);
    assert_eq!(g.eps, F(1e-8));
    let g = g
        .with_lr(F(0.1))
        .with_weight_decay(F(0.2))
        .with_momentum(F(0.3))
        .with_betas(F(0.4), F(0.5))
        .with_eps(F(0.6));
    assert_eq!(g.lr, F(0.1));
    assert_eq!(g.weight_decay, F(0.2));
    assert_eq!(g.momentum, Some(F(0.3)));
    assert_eq!(g.betas, Some((F(0.4), F(0.5))));
    assert_eq!(g.eps, F(0.6));
    assert_eq!(g.params.len(), 1);
}

#[test]
fn optimizer_state_keeps_named_values() {
    let mut state: OptimizerState<F> = OptimizerState::new();
    assert_eq!(state.step, 0);
    state.increment_step();
    assert_eq!(state.step, 1);
    assert!(state.get_state("m").is_none());
    state.set_state("m".to_string(), tensor(&[1.0], &[1]));
    state.set_state("v".to_string(), tensor(&[2.0], &[1]));
    state.set_state("m".to_string(), tensor(&[3.0], &[1]));
    assert_eq!(state.state_dict.len(), 2);
    assert_eq!(values(state.get_state("m").unwrap()), vec![3.0]);
    assert_eq!(values(state.get_state("v").unwrap()), vec![2.0]);
}

#[test]
fn steps_through_the_interface_move_the_parameters() {
    fn stepped<O: Optimizer<F>>(o: &mut O) {
        assert_eq!(o.step(), Ok(()));
    }
    fn reset<O: Optimizer<F>>(o: &mut O) {
        o.zero_grad();
    }
    let p = || vec![parameter(&[1.0, 2.0], Some(&[0.5, -1.0]))];
    let mut sgd = SGD::new(p(), F(0.1), F(0.0), F(0.0), false);
    stepped(&mut sgd);
    assert!(close(&values(&sgd.params[0]), &[0.95, 2.1], 1e-6));
    reset(&mut sgd);
    assert_eq!(sgd.params[0].grad, Some(vec![F(0.0), F(0.0)]));
    assert!(close(&values(&sgd.params[0]), &[0.95, 2.1], 1e-6));

    let mut adam = Adam::new(p(), F(0.1), (F(0.9), F(0.999)), F(1e-8), F(0.0));
    stepped(&mut adam);
    assert_eq!(adam.step, 1);
    assert!(close(&values(&adam.params[0]), &[0.9, 2.1], 1e-5));
    reset(&mut adam);
    assert_eq!(adam.params[0].grad, Some(vec![F(0.0), F(0.0)]));
    assert_eq!(adam.step, 1);

    let mut rms = RMSprop::new(p(), F(0.1), F(0.9), F(1e-8), F(0.0), F(0.0), false);
    let before = values(&rms.params[0]);
    stepped(&mut rms);
    let after = values(&rms.params[0]);
    assert!(after[0] < before[0] && after[1] > before[1]);
    assert!(rms.v[0][0].0 > 0.0);
    reset(&mut rms);
    assert_eq!(rms.params[0].grad, Some(vec![F(0.0), F(0.0)]));
    assert_eq!(values(&rms.params[0]), after);
}

#[test]
fn gradients_are_scaled_down_to_the_limit() {
    let mut params = vec![
        parameter(&[1.0, 2.0], Some(&[3.0, 4.0])),
        parameter(&[5.0], None),
        parameter(&[6.0], Some(&[-10.0])),
    ];
    assert_eq!(clip_gradients(&mut params, F(5.0), F(10.0), F(0.0)), F(5.0));
    assert_eq!(params[0].grad, Some(vec![F(3.0), F(4.0)]));
    assert_eq!(params[2].grad, Some(vec![F(-10.0)]));
    assert_eq!(clip_gradients(&mut params, F(10.0), F(10.0), F(0.0)), F(10.0));
    assert_eq!(params[0].grad, Some(vec![F(3.0), F(4.0)]));
    assert_eq!(clip_gradients(&mut params, F(20.0), F(10.0), F(0.0)), F(20.0));
    assert_eq!(params[0].grad, Some(vec![F(1.5), F(2.0)]));
    assert_eq!(params[1].grad, None);
    assert_eq!(params[2].grad, Some(vec![F(-5.0)]));
    assert_eq!(values(&params[0]), vec![1.0, 2.0]);
    assert_eq!(clip_gradients(&mut params, F(3.0), F(1.0), F(1.0)), F(3.0));
    assert_eq!(params[0].grad, Some(vec![F(0.375), F(0.5)]));
}
