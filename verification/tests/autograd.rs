use bellande::autograd::{AutogradContext, Graph};
use bellande::device::Device;
use bellande::dtype::DataType;
use bellande::error::BellandeError;
use bellande::scalar::Scalar;
use bellande::tensor::{GradFn, Tensor};

#[derive(Clone, Copy, Debug, PartialEq)]
struct F(f32);

impl Scalar for F {
    fn zero_spec() -> Self {
        F(0.0)
    }
    fn one_spec() -> Self {
        F(1.0)
    }
    fn lowest_spec() -> Self {
        F(f32::NEG_INFINITY)
    }
    fn highest_spec() -> Self {
        F(f32::INFINITY)
    }
    fn count_spec(n: usize) -> Self {
        F(n as f32)
    }
    fn plus_spec(self, rhs: Self) -> Self {
        F(self.0 + rhs.0)
    }
    fn minus_spec(self, rhs: Self) -> Self {
        F(self.0 - rhs.0)
    }
    fn times_spec(self, rhs: Self) -> Self {
        F(self.0 * rhs.0)
    }
    fn over_spec(self, rhs: Self) -> Self {
        F(self.0 / rhs.0)
    }
    fn root_spec(self) -> Self {
        F(self.0.sqrt())
    }
    fn exceeds_spec(self, rhs: Self) -> bool {
        self.0 > rhs.0
    }
    fn equals_spec(self, rhs: Self) -> bool {
        self.0 == rhs.0
    }
    fn zero() -> Self {
        F(0.0)
    }
    fn one() -> Self {
        F(1.0)
    }
    fn lowest() -> Self {
        F(f32::NEG_INFINITY)
    }
    fn highest() -> Self {
        F(f32::INFINITY)
    }
    fn count(n: usize) -> Self {
        F(n as f32)
    }
    fn plus(self, rhs: Self) -> Self {
        F(self.0 + rhs.0)
    }
    fn minus(self, rhs: Self) -> Self {
        F(self.0 - rhs.0)
    }
    fn times(self, rhs: Self) -> Self {
        F(self.0 * rhs.0)
    }
    fn over(self, rhs: Self) -> Self {
        F(self.0 / rhs.0)
    }
    fn root(self) -> Self {
        F(self.0.sqrt())
    }
    fn exceeds(self, rhs: Self) -> bool {
        self.0 > rhs.0
    }
    fn equals(self, rhs: Self) -> bool {
        self.0 == rhs.0
    }
}

fn tensor(values: &[f32], shape: &[usize]) -> Tensor<F> {
    Tensor::try_new(
        values.iter().map(|v| F(*v)).collect(),
        shape.to_vec(),
        false,
        Device::CPU,
        DataType::Float32,
    )
    .unwrap()
}

fn values(t: &Tensor<F>) -> Vec<f32> {
    t.data.iter().map(|v| v.0).collect()
}

fn close(a: &[f32], b: &[f32], tolerance: f32) -> bool {
    a.len() == b.len() && a.iter().zip(b.iter()).all(|(x, y)| (x - y).abs() <= tolerance)
}

fn leaf(graph: &mut Graph<F>, data: &[f32], shape: &[usize], requires_grad: bool) -> usize {
    let t = Tensor::try_new(
        data.iter().map(|v| F(*v)).collect(),
        shape.to_vec(),
        requires_grad,
        Device::CPU,
        DataType::Float32,
    )
    .unwrap();
    graph.leaf(t)
}

fn grad(graph: &Graph<F>, at: usize) -> Vec<f32> {
    graph.nodes[at].grad.as_ref().unwrap().iter().map(|v| v.0).collect()
}

#[test]
fn fan_out_adds_both_contributions() {
    let mut graph = Graph::new();
    let x = leaf(&mut graph, &[1.0, 2.0], &[2], true);
    let y = graph.apply(GradFn::Add(x, x)).unwrap();
    assert_eq!(values(&graph.nodes[y]), vec![2.0, 4.0]);
    assert!(graph.nodes[y].requires_grad);
    assert_eq!(graph.nodes[y].grad_fn, Some(GradFn::Add(x, x)));
    let seed = vec![F(1.0), F(10.0)];
    assert_eq!(graph.backward(y, Some(&seed)), Ok(()));
    assert_eq!(grad(&graph, x), vec![2.0, 20.0]);
    assert_eq!(grad(&graph, y), vec![1.0, 10.0]);
}

#[test]
fn residual_connection_adds_skip_and_main_path() {
    let mut graph = Graph::new();
    let x = leaf(&mut graph, &[1.0, 2.0], &[2], true);
    let w = leaf(&mut graph, &[3.0, 5.0], &[2], true);
    let y = graph.apply(GradFn::Mul(x, w)).unwrap();
    let z = graph.apply(GradFn::Add(y, x)).unwrap();
    assert_eq!(values(&graph.nodes[z]), vec![4.0, 12.0]);
    let seed = vec![F(1.0), F(1.0)];
    graph.backward(z, Some(&seed)).unwrap();
    assert_eq!(grad(&graph, x), vec![4.0, 6.0]);
    assert_eq!(grad(&graph, w), vec![1.0, 2.0]);
}

#[test]
fn gradients_accumulate_over_passes() {
    let mut graph = Graph::new();
    let x = leaf(&mut graph, &[3.0], &[1], true);
    let y = graph.apply(GradFn::Mul(x, x)).unwrap();
    graph.backward(y, None).unwrap();
    assert_eq!(grad(&graph, x), vec![6.0]);
    graph.backward(y, None).unwrap();
    assert_eq!(grad(&graph, x), vec![12.0]);
    assert_eq!(grad(&graph, y), vec![2.0]);
}

#[test]
fn subtraction_negates_the_right_share() {
    let mut graph = Graph::new();
    let a = leaf(&mut graph, &[5.0], &[1], true);
    let b = leaf(&mut graph, &[3.0], &[1], true);
    let c = graph.apply(GradFn::Sub(a, b)).unwrap();
    assert_eq!(values(&graph.nodes[c]), vec![2.0]);
    graph.backward(c, None).unwrap();
    assert_eq!(grad(&graph, a), vec![1.0]);
    assert_eq!(grad(&graph, b), vec![-1.0]);
}

#[test]
fn matrix_product_gradients() {
    let mut graph = Graph::new();
    let a = leaf(&mut graph, &[1.0, 2.0, 3.0, 4.0, 5.0, 6.0], &[2, 3], true);
    let b = leaf(&mut graph, &[1.0, 0.0, 0.0, 1.0, 2.0, 3.0], &[3, 2], true);
    let c = graph.apply(GradFn::MatMul(a, b)).unwrap();
    assert_eq!(values(&graph.nodes[c]), vec![7.0, 11.0, 16.0, 23.0]);
    let seed = vec![F(1.0), F(2.0), F(3.0), F(4.0)];
    graph.backward(c, Some(&seed)).unwrap();
    assert_eq!(grad(&graph, a), vec![1.0, 2.0, 8.0, 3.0, 4.0, 18.0]);
    assert_eq!(grad(&graph, b), vec![13.0, 18.0, 17.0, 24.0, 21.0, 30.0]);
}

#[test]
fn operands_without_gradient_receive_nothing() {
    let mut graph = Graph::new();
    let x = leaf(&mut graph, &[1.0, 2.0], &[2], true);
    let c = leaf(&mut graph, &[3.0, 4.0], &[2], false);
    let y = graph.apply(GradFn::Mul(x, c)).unwrap();
    let seed = vec![F(1.0), F(1.0)];
    graph.backward(y, Some(&seed)).unwrap();
    assert_eq!(grad(&graph, x), vec![3.0, 4.0]);
    assert!(graph.nodes[c].grad.is_none());
}

#[test]
fn nodes_outside_the_pass_are_untouched() {
    let mut graph = Graph::new();
    let x = leaf(&mut graph, &[1.0], &[1], true);
    let y = graph.apply(GradFn::Add(x, x)).unwrap();
    let z = graph.apply(GradFn::Mul(x, x)).unwrap();
    graph.backward(y, None).unwrap();
    assert_eq!(grad(&graph, x), vec![2.0]);
    assert_eq!(grad(&graph, z), vec![0.0]);
}

#[test]
fn backward_validates_its_root() {
    let mut graph = Graph::new();
    let x = leaf(&mut graph, &[1.0, 2.0], &[2], true);
    let c = leaf(&mut graph, &[1.0], &[1], false);
    assert_eq!(graph.backward(7, None), Err(BellandeError::InvalidInputs));
    assert_eq!(graph.backward(c, None), Err(BellandeError::NoGradients));
    assert_eq!(graph.backward(x, None), Err(BellandeError::InvalidBackward));
    let short = vec![F(1.0)];
    assert_eq!(graph.backward(x, Some(&short)), Err(BellandeError::DimensionMismatch));
    assert_eq!(grad(&graph, x), vec![0.0, 0.0]);
}

#[test]
fn apply_validates_its_operands() {
    let mut graph = Graph::new();
    let a = leaf(&mut graph, &[1.0, 2.0], &[2], true);
    let b = leaf(&mut graph, &[1.0, 2.0], &[1, 2], true);
    assert_eq!(graph.apply(GradFn::Add(a, 9)), Err(BellandeError::InvalidInputs));
    assert_eq!(graph.apply(GradFn::Add(a, b)), Err(BellandeError::DimensionMismatch));
    assert!(matches!(graph.apply(GradFn::MatMul(a, b)), Err(BellandeError::InvalidShape(_))));
    assert_eq!(graph.apply(GradFn::MatMul(b, b)), Err(BellandeError::DimensionMismatch));
    assert_eq!(graph.nodes.len(), 2);
}

#[test]
fn contexts_save_tensors_in_order() {
    let mut context: AutogradContext<F> = AutogradContext::new(vec![true, false]);
    assert!(context.saved_tensors().is_empty());
    context.save_for_backward(tensor(&[1.0, 2.0], &[2]));
    context.save_for_backward(tensor(&[3.0], &[1]));
    let saved = context.saved_tensors();
    assert_eq!(saved.len(), 2);
    assert_eq!(values(&saved[0]), vec![1.0, 2.0]);
    assert_eq!(values(&saved[1]), vec![3.0]);
    assert_eq!(context.needs_input_grad, vec![true, false]);
}
