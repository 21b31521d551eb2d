use bellande::device::Device;
use bellande::dtype::DataType;
use bellande::error::BellandeError;
use bellande::layer::recurrent::{chunk, sigmoid, GRUCell, LSTMCell};
use bellande::layer::layer_norm::LayerNorm;
use bellande::layer::transformer::{
    attend, normalize_rows, scaled_scores, shift_rows, AttentionDims, MultiHeadAttention,
    TransformerDecoderLayer, TransformerEncoderLayer,
};
use bellande::layer::LayerKind;
use bellande::scalar::{RandomSource, Scalar, Transcendental};
use bellande::tensor::Tensor;

#[derive(Clone, Copy, Debug, PartialEq)]
struct F(f32);

impl Scalar for F {
    fn zero_spec() -> Self {
        F(0.0)
    }
    fn one_spec() -> Self {
        F(1.0)
    }
    fn lowest_spec() -> Self {
        F(f32::NEG_INFINITY)
    }
    fn highest_spec() -> Self {
        F(f32::INFINITY)
    }
    fn count_spec(n: usize) -> Self {
        F(n as f32)
    }
    fn plus_spec(self, rhs: Self) -> Self {
        F(self.0 + rhs.0)
    }
    fn minus_spec(self, rhs: Self) -> Self {
        F(self.0 - rhs.0)
    }
    fn times_spec(self, rhs: Self) -> Self {
        F(self.0 * rhs.0)
    }
    fn over_spec(self, rhs: Self) -> Self {
        F(self.0 / rhs.0)
    }
    fn root_spec(self) -> Self {
        F(self.0.sqrt())
    }
    fn exceeds_spec(self, rhs: Self) -> bool {
        self.0 > rhs.0
    }
    fn equals_spec(self, rhs: Self) -> bool {
        self.0 == rhs.0
    }
    fn zero() -> Self {
        F(0.0)
    }
    fn one() -> Self {
        F(1.0)
    }
    fn lowest() -> Self {
        F(f32::NEG_INFINITY)
    }
    fn highest() -> Self {
        F(f32::INFINITY)
    }
    fn count(n: usize) -> Self {
        F(n as f32)
    }
    fn plus(self, rhs: Self) -> Self {
        F(self.0 + rhs.0)
    }
    fn minus(self, rhs: Self) -> Self {
        F(self.0 - rhs.0)
    }
    fn times(self, rhs: Self) -> Self {
        F(self.0 * rhs.0)
    }
    fn over(self, rhs: Self) -> Self {
        F(self.0 / rhs.0)
    }
    fn root(self) -> Self {
        F(self.0.sqrt())
    }
    fn exceeds(self, rhs: Self) -> bool {
        self.0 > rhs.0
    }
    fn equals(self, rhs: Self) -> bool {
        self.0 == rhs.0
    }
}

fn tensor(values: &[f32], shape: &[usize]) -> Tensor<F> {
    Tensor::try_new(
        values.iter().map(|v| F(*v)).collect(),
        shape.to_vec(),
        false,
        Device::CPU,
        DataType::Float32,
    )
    .unwrap()
}

fn values(t: &Tensor<F>) -> Vec<f32> {
    t.data.iter().map(|v| v.0).collect()
}

fn close(a: &[f32], b: &[f32], tolerance: f32) -> bool {
    a.len() == b.len() && a.iter().zip(b.iter()).all(|(x, y)| (x - y).abs() <= tolerance)
}

/// A source that replays fixed draws.
struct Fixed {
    normals: Vec<f32>,
    keeps: Vec<bool>,
    next_normal: usize,
    next_keep: usize,
}

impl Fixed {
    fn new(normals: &[f32], keeps: &[bool]) -> Self {
        Fixed { normals: normals.to_vec(), keeps: keeps.to_vec(), next_normal: 0, next_keep: 0 }
    }
}

impl RandomSource<F> for Fixed {
    fn standard_normal(&mut self) -> F {
        let v = if self.normals.is_empty() {
            0.0
        } else {
            self.normals[self.next_normal % self.normals.len()]
        };
        self.next_normal += 1;
        F(v)
    }

    fn keep(&mut self, _p: F) -> bool {
        let v = if self.keeps.is_empty() {
            true
        } else {
            self.keeps[self.next_keep % self.keeps.len()]
        };
        self.next_keep += 1;
        v
    }
}

impl Transcendental for F {
    fn exp(self) -> Self {
        F(self.0.exp())
    }
    fn ln(self) -> Self {
        F(self.0.ln())
    }
    fn tanh(self) -> Self {
        F(self.0.tanh())
    }
}

fn logistic(x: f32) -> f32 {
    1.0 / (1.0 + (-x).exp())
}

#[test]
fn sigmoid_is_the_logistic_function() {
    assert!((sigmoid(F(0.0)).0 - 0.5).abs() < 1e-7);
    assert!((sigmoid(F(2.0)).0 - logistic(2.0)).abs() < 1e-7);
}

#[test]
fn chunks_cut_the_fused_gates() {
    let fused: Vec<F> = (0..12).map(|v| F(v as f32)).collect();
    let second: Vec<f32> = chunk(&fused, 2, 3, 2, 1).iter().map(|v| v.0).collect();
    assert_eq!(second, vec![2.0, 3.0, 8.0, 9.0]);
    let last: Vec<f32> = chunk(&fused, 2, 3, 2, 2).iter().map(|v| v.0).collect();
    assert_eq!(last, vec![4.0, 5.0, 10.0, 11.0]);
}

#[test]
fn lstm_step_follows_the_gate_equations() {
    let mut rng = Fixed::new(&[1.0, 2.0, 3.0, 4.0, 0.5, 0.5, 0.5, 0.5], &[]);
    let mut cell: LSTMCell<F> = LSTMCell::new(1, 1, true, &mut rng);
    assert_eq!(values(&cell.weights.weight_ih), vec![1.0, 2.0, 3.0, 4.0]);
    assert_eq!(values(&cell.weights.weight_hh), vec![0.5, 0.5, 0.5, 0.5]);
    cell.weights.bias_ih.as_mut().unwrap().data = vec![F(0.0), F(0.1), F(0.2), F(0.3)];
    let x = tensor(&[0.5], &[1, 1]);
    let h0 = tensor(&[0.2], &[1, 1]);
    let c0 = tensor(&[-0.4], &[1, 1]);
    let (h, c) = cell.forward(&x, Some((h0, c0))).unwrap();
    let pre = [0.5 + 0.1, 1.0 + 0.1 + 0.1, 1.5 + 0.1 + 0.2, 2.0 + 0.1 + 0.3];
    let (i, f, g, o) = (logistic(pre[0]), logistic(pre[1]), pre[2].tanh(), logistic(pre[3]));
    let c_next = f * -0.4 + i * g;
    let h_next = o * c_next.tanh();
    assert!(close(&values(&c), &[c_next], 1e-6));
    assert!(close(&values(&h), &[h_next], 1e-6));
    assert_eq!(h.shape, vec![1, 1]);
    let cache = cell.cache.as_ref().unwrap();
    assert!(close(&values(&cache.gates), &pre, 1e-6));
    assert_eq!(cache.gates.shape, vec![1, 4]);
    assert_eq!(values(&cache.cell), vec![-0.4]);
}

#[test]
fn lstm_without_state_starts_from_zero() {
    let mut rng = Fixed::new(&[1.0], &[]);
    let mut cell: LSTMCell<F> = LSTMCell::new(2, 3, false, &mut rng);
    let x = tensor(&[0.5, -0.5, 1.0, 1.0], &[2, 2]);
    let (h, c) = cell.forward(&x, None).unwrap();
    assert_eq!(h.shape, vec![2, 3]);
    assert_eq!(c.shape, vec![2, 3]);
    let expected_c = logistic(2.0) * 2.0f32.tanh();
    assert!(close(&values(&c)[..3], &[0.0; 3], 1e-7));
    assert!(close(&values(&c)[3..], &[expected_c; 3], 1e-6));
    assert!(close(&values(&h)[3..], &[logistic(2.0) * expected_c.tanh(); 3], 1e-6));
    assert_eq!(values(&cell.cache.as_ref().unwrap().hidden), vec![0.0; 6]);
}

#[test]
fn lstm_rejects_wrong_shapes() {
    let mut rng = Fixed::new(&[1.0], &[]);
    let mut cell: LSTMCell<F> = LSTMCell::new(2, 3, false, &mut rng);
    assert_eq!(
        cell.forward(&tensor(&[1.0; 3], &[1, 3]), None).unwrap_err(),
        BellandeError::DimensionMismatch
    );
    assert!(matches!(
        cell.forward(&tensor(&[1.0; 2], &[2]), None),
        Err(BellandeError::InvalidShape(_))
    ));
    let x = tensor(&[1.0; 2], &[1, 2]);
    let bad_h = tensor(&[1.0; 2], &[1, 2]);
    let c = tensor(&[1.0; 3], &[1, 3]);
    assert_eq!(cell.forward(&x, Some((bad_h, c))).unwrap_err(), BellandeError::DimensionMismatch);
    let h = tensor(&[1.0; 3], &[1, 3]);
    let bad_c = tensor(&[1.0; 3], &[3, 1]);
    assert_eq!(cell.forward(&x, Some((h, bad_c))).unwrap_err(), BellandeError::DimensionMismatch);
    assert!(cell.cache.is_none());
}

#[test]
fn gru_step_blends_state_and_candidate() {
    let mut rng = Fixed::new(&[1.0, 2.0, 3.0, 0.5, 0.5, 0.5], &[]);
    let mut cell: GRUCell<F> = GRUCell::new(1, 1, false, &mut rng);
    let x = tensor(&[0.5], &[1, 1]);
    let h0 = tensor(&[0.2], &[1, 1]);
    let h = cell.forward(&x, Some(h0)).unwrap();
    let pre = [0.5 + 0.1, 1.0 + 0.1, 1.5 + 0.1];
    let (z, n) = (logistic(pre[1]), pre[2].tanh());
    assert!(close(&values(&h), &[z * 0.2 + (1.0 - z) * n], 1e-6));
    assert!(close(&values(&cell.cache.as_ref().unwrap().gates), &pre, 1e-6));
    let fresh = cell.forward(&x, None).unwrap();
    let (z, n) = (logistic(1.0), 1.5f32.tanh());
    assert!(close(&values(&fresh), &[(1.0 - z) * n], 1e-6));
    assert_eq!(
        cell.forward(&tensor(&[1.0; 2], &[1, 2]), None).unwrap_err(),
        BellandeError::DimensionMismatch
    );
}

fn dims() -> AttentionDims {
    AttentionDims { batch: 1, heads: 1, head_dim: 4, target_len: 2, source_len: 2 }
}

fn fs(v: &[f32]) -> Vec<F> {
    v.iter().map(|x| F(*x)).collect()
}

#[test]
fn scores_are_scaled_by_the_root_of_the_head_size() {
    let q = fs(&[1.0, 0.0, 0.0, 0.0, 0.0, 2.0, 0.0, 0.0]);
    let k = fs(&[4.0, 0.0, 0.0, 0.0, 6.0, 8.0, 0.0, 0.0]);
    let s: Vec<f32> = scaled_scores(&q, &k, &dims()).iter().map(|v| v.0).collect();
    assert_eq!(s, vec![2.0, 3.0, 0.0, 8.0]);
}

#[test]
fn hidden_positions_get_exactly_zero_weight() {
    let d = dims();
    let scores = fs(&[2.0, 3.0, 0.0, 8.0]);
    let mask = vec![false, true, false, false];
    let shifted = shift_rows(&scores, Some(&mask), &d);
    assert_eq!(shifted.iter().map(|v| v.0).collect::<Vec<f32>>(), vec![0.0, 1.0, -8.0, 0.0]);
    let exps: Vec<F> = shifted.iter().map(|v| v.exp()).collect();
    let w: Vec<f32> = normalize_rows(&exps, Some(&mask), &d).iter().map(|v| v.0).collect();
    assert_eq!(w[0], 1.0);
    assert_eq!(w[1], 0.0);
    let e = (-8.0f32).exp();
    assert!(close(&w[2..], &[e / (e + 1.0), 1.0 / (e + 1.0)], 1e-7));
    let open: Vec<f32> = normalize_rows(&exps, None, &d).iter().map(|v| v.0).collect();
    assert!((open[0] + open[1] - 1.0).abs() < 1e-6);
}

#[test]
fn values_are_weighted_per_head() {
    let d = AttentionDims { batch: 1, heads: 2, head_dim: 1, target_len: 1, source_len: 2 };
    let w = fs(&[0.25, 0.75, 1.0, 0.0]);
    let v = fs(&[4.0, 10.0, 8.0, 20.0]);
    let out: Vec<f32> = attend(&w, &v, &d).iter().map(|x| x.0).collect();
    assert_eq!(out, vec![7.0, 10.0]);
}

fn identity_attention() -> MultiHeadAttention<F> {
    let mut rng = Fixed::new(&[1.0, 0.0, 0.0, 1.0], &[true]);
    let mut layer = MultiHeadAttention::new(2, 1, F(0.0), &mut rng);
    layer.dropout.eval();
    layer
}

#[test]
fn attention_with_identity_projections() {
    let mut rng = Fixed::new(&[], &[true]);
    let mut layer = identity_attention();
    assert_eq!(layer.head_dim, 2);
    assert_eq!(values(&layer.q_proj.weight), vec![1.0, 0.0, 0.0, 1.0]);
    let x = tensor(&[1.0, 0.0, 0.0, 1.0], &[1, 2, 2]);
    let y = layer.forward(&x, &x, &x, None, &mut rng).unwrap();
    assert_eq!(y.shape, vec![1, 2, 2]);
    let a = 1.0 / (1.0 + (-(1.0 / 2.0f32.sqrt())).exp());
    assert!(close(&values(&y), &[a, 1.0 - a, 1.0 - a, a], 1e-6));
    let cache = layer.cache.as_ref().unwrap();
    assert_eq!(cache.attention_weights.shape, vec![1, 1, 2, 2]);
    assert!(close(&values(&cache.attention_weights), &[a, 1.0 - a, 1.0 - a, a], 1e-6));
}

#[test]
fn attention_mask_hides_positions() {
    let mut rng = Fixed::new(&[], &[true]);
    let mut layer = identity_attention();
    let x = tensor(&[1.0, 0.0, 0.0, 1.0], &[1, 2, 2]);
    let mask = vec![false, true, false, false];
    let y = layer.forward(&x, &x, &x, Some(&mask), &mut rng).unwrap();
    assert_eq!(&values(&y)[..2], &[1.0, 0.0]);
    let w = values(&layer.cache.as_ref().unwrap().attention_weights);
    assert_eq!(w[1], 0.0);
    assert_eq!(w[0], 1.0);
}

#[test]
fn attention_rejects_wrong_inputs() {
    let mut rng = Fixed::new(&[], &[true]);
    let mut layer = identity_attention();
    let x = tensor(&[1.0, 0.0, 0.0, 1.0], &[1, 2, 2]);
    let flat = tensor(&[1.0, 0.0, 0.0, 1.0], &[2, 2]);
    assert!(matches!(
        layer.forward(&flat, &x, &x, None, &mut rng),
        Err(BellandeError::InvalidShape(_))
    ));
    let wide = tensor(&[1.0; 6], &[1, 2, 3]);
    assert_eq!(
        layer.forward(&wide, &x, &x, None, &mut rng).unwrap_err(),
        BellandeError::DimensionMismatch
    );
    let longer = tensor(&[1.0; 6], &[1, 3, 2]);
    assert_eq!(
        layer.forward(&x, &x, &longer, None, &mut rng).unwrap_err(),
        BellandeError::DimensionMismatch
    );
    let mask = vec![false; 3];
    assert_eq!(
        layer.forward(&x, &x, &x, Some(&mask), &mut rng).unwrap_err(),
        BellandeError::DimensionMismatch
    );
    assert!(layer.cache.is_none());
    assert!(layer.forward(&x, &longer, &longer, None, &mut rng).is_ok());
}

fn lstm_cell() -> LSTMCell<F> {
    let weights: Vec<f32> = (0..24).map(|i| ((i * 5 % 11) as f32 - 5.0) / 6.0).collect();
    let mut rng = Fixed::new(&weights, &[]);
    let mut cell: LSTMCell<F> = LSTMCell::new(2, 2, true, &mut rng);
    cell.weights.bias_ih.as_mut().unwrap().data =
        (0..8).map(|i| F((i as f32 - 3.0) / 10.0)).collect();
    cell
}

fn lstm_loss(cell: &mut LSTMCell<F>, x: &[f32], h: &[f32], c: &[f32], gh: &[f32], gc: &[f32]) -> f32 {
    let (hn, cn) = cell
        .forward(&tensor(x, &[2, 2]), Some((tensor(h, &[2, 2]), tensor(c, &[2, 2]))))
        .unwrap();
    values(&hn).iter().zip(gh).map(|(a, b)| a * b).sum::<f32>()
        + values(&cn).iter().zip(gc).map(|(a, b)| a * b).sum::<f32>()
}

#[test]
fn lstm_backward_matches_numerical_gradients() {
    let mut cell = lstm_cell();
    let x = [0.5, -0.25, 1.0, 0.75];
    let h = [0.1, -0.2, 0.3, 0.4];
    let c = [-0.5, 0.25, 0.75, -0.1];
    let gh = [1.0, -0.5, 0.25, 2.0];
    let gc = [0.5, 1.5, -1.0, 0.25];
    lstm_loss(&mut cell, &x, &h, &c, &gh, &gc);
    let (grads, grad_c) = cell.backward(&tensor(&gh, &[2, 2]), &tensor(&gc, &[2, 2])).unwrap();
    assert_eq!(grads.input.shape, vec![2, 2]);
    assert_eq!(grads.weight_ih.shape, vec![8, 2]);
    assert_eq!(grads.weight_hh.shape, vec![8, 2]);
    assert_eq!(grads.bias_ih.as_ref().unwrap().shape, vec![8]);
    let step = 1e-2;
    let tolerance = 2e-3;
    for at in 0..4 {
        let mut up = x;
        up[at] += step;
        let mut down = x;
        down[at] -= step;
        let d = (lstm_loss(&mut cell, &up, &h, &c, &gh, &gc)
            - lstm_loss(&mut cell, &down, &h, &c, &gh, &gc))
            / (2.0 * step);
        assert!((d - grads.input.data[at].0).abs() < tolerance, "input {}", at);
        let mut up = h;
        up[at] += step;
        let mut down = h;
        down[at] -= step;
        let d = (lstm_loss(&mut cell, &x, &up, &c, &gh, &gc)
            - lstm_loss(&mut cell, &x, &down, &c, &gh, &gc))
            / (2.0 * step);
        assert!((d - grads.hidden.data[at].0).abs() < tolerance, "hidden {}", at);
        let mut up = c;
        up[at] += step;
        let mut down = c;
        down[at] -= step;
        let d = (lstm_loss(&mut cell, &x, &h, &up, &gh, &gc)
            - lstm_loss(&mut cell, &x, &h, &down, &gh, &gc))
            / (2.0 * step);
        assert!((d - grad_c.data[at].0).abs() < tolerance, "cell {}", at);
    }
    for at in 0..16 {
        let initial = cell.weights.weight_ih.data[at];
        cell.weights.weight_ih.data[at] = F(initial.0 + step);
        let up = lstm_loss(&mut cell, &x, &h, &c, &gh, &gc);
        cell.weights.weight_ih.data[at] = F(initial.0 - step);
        let down = lstm_loss(&mut cell, &x, &h, &c, &gh, &gc);
        cell.weights.weight_ih.data[at] = initial;
        let d = (up - down) / (2.0 * step);
        assert!((d - grads.weight_ih.data[at].0).abs() < tolerance, "weight_ih {}", at);
        let initial = cell.weights.weight_hh.data[at];
        cell.weights.weight_hh.data[at] = F(initial.0 + step);
        let up = lstm_loss(&mut cell, &x, &h, &c, &gh, &gc);
        cell.weights.weight_hh.data[at] = F(initial.0 - step);
        let down = lstm_loss(&mut cell, &x, &h, &c, &gh, &gc);
        cell.weights.weight_hh.data[at] = initial;
        let d = (up - down) / (2.0 * step);
        assert!((d - grads.weight_hh.data[at].0).abs() < tolerance, "weight_hh {}", at);
    }
    for at in 0..8 {
        let initial = cell.weights.bias_ih.as_ref().unwrap().data[at];
        cell.weights.bias_ih.as_mut().unwrap().data[at] = F(initial.0 + step);
        let up = lstm_loss(&mut cell, &x, &h, &c, &gh, &gc);
        cell.weights.bias_ih.as_mut().unwrap().data[at] = F(initial.0 - step);
        let down = lstm_loss(&mut cell, &x, &h, &c, &gh, &gc);
        cell.weights.bias_ih.as_mut().unwrap().data[at] = initial;
        let d = (up - down) / (2.0 * step);
        assert!((d - grads.bias_ih.as_ref().unwrap().data[at].0).abs() < tolerance, "bias {}", at);
    }
    assert_eq!(values(grads.bias_hh.as_ref().unwrap()), values(grads.bias_ih.as_ref().unwrap()));
}

#[test]
fn lstm_backward_needs_a_step_and_fitting_gradients() {
    let mut cell = lstm_cell();
    let g = tensor(&[1.0; 4], &[2, 2]);
    assert!(matches!(cell.backward(&g, &g), Err(BellandeError::RuntimeError(_))));
    cell.forward(&tensor(&[1.0; 4], &[2, 2]), None).unwrap();
    let wrong = tensor(&[1.0; 4], &[4, 1]);
    assert_eq!(cell.backward(&wrong, &g).unwrap_err(), BellandeError::DimensionMismatch);
    assert_eq!(cell.backward(&g, &wrong).unwrap_err(), BellandeError::DimensionMismatch);
    assert!(cell.backward(&g, &g).is_ok());
}

fn gru_loss(cell: &mut GRUCell<F>, x: &[f32], h: &[f32], gh: &[f32]) -> f32 {
    let hn = cell.forward(&tensor(x, &[2, 2]), Some(tensor(h, &[2, 2]))).unwrap();
    values(&hn).iter().zip(gh).map(|(a, b)| a * b).sum()
}

#[test]
fn gru_backward_matches_numerical_gradients() {
    let weights: Vec<f32> = (0..18).map(|i| ((i * 7 % 13) as f32 - 6.0) / 8.0).collect();
    let mut rng = Fixed::new(&weights, &[]);
    let mut cell: GRUCell<F> = GRUCell::new(2, 2, true, &mut rng);
    let x = [0.5, -0.25, 1.0, 0.75];
    let h = [0.1, -0.2, 0.3, 0.4];
    let gh = [1.0, -0.5, 0.25, 2.0];
    gru_loss(&mut cell, &x, &h, &gh);
    let grads = cell.backward(&tensor(&gh, &[2, 2])).unwrap();
    assert_eq!(grads.weight_ih.shape, vec![6, 2]);
    let step = 1e-2;
    let tolerance = 2e-3;
    for at in 0..4 {
        let mut up = x;
        up[at] += step;
        let mut down = x;
        down[at] -= step;
        let d = (gru_loss(&mut cell, &up, &h, &gh) - gru_loss(&mut cell, &down, &h, &gh))
            / (2.0 * step);
        assert!((d - grads.input.data[at].0).abs() < tolerance, "input {}", at);
        let mut up = h;
        up[at] += step;
        let mut down = h;
        down[at] -= step;
        let d = (gru_loss(&mut cell, &x, &up, &gh) - gru_loss(&mut cell, &x, &down, &gh))
            / (2.0 * step);
        assert!((d - grads.hidden.data[at].0).abs() < tolerance, "hidden {}", at);
    }
    for at in 0..12 {
        let initial = cell.weights.weight_hh.data[at];
        cell.weights.weight_hh.data[at] = F(initial.0 + step);
        let up = gru_loss(&mut cell, &x, &h, &gh);
        cell.weights.weight_hh.data[at] = F(initial.0 - step);
        let down = gru_loss(&mut cell, &x, &h, &gh);
        cell.weights.weight_hh.data[at] = initial;
        let d = (up - down) / (2.0 * step);
        assert!((d - grads.weight_hh.data[at].0).abs() < tolerance, "weight_hh {}", at);
    }
    assert_eq!(&values(&grads.weight_ih)[..4], &[0.0; 4]);
    assert!(matches!(
        GRUCell::<F>::new(2, 2, false, &mut rng).backward(&tensor(&gh, &[2, 2])),
        Err(BellandeError::RuntimeError(_))
    ));
    assert_eq!(
        cell.backward(&tensor(&gh, &[4, 1])).unwrap_err(),
        BellandeError::DimensionMismatch
    );
}

#[test]
fn layer_norm_normalizes_every_row() {
    let mut norm = LayerNorm::new(2, F(0.0));
    assert_eq!(values(&norm.weight), vec![1.0, 1.0]);
    assert_eq!(values(&norm.bias), vec![0.0, 0.0]);
    norm.weight.data = vec![F(2.0), F(3.0)];
    norm.bias.data = vec![F(0.5), F(-0.5)];
    let y = norm.forward(&tensor(&[1.0, 3.0, 10.0, 6.0], &[1, 2, 2])).unwrap();
    assert_eq!(y.shape, vec![1, 2, 2]);
    assert!(close(&values(&y), &[-1.5, 2.5, 2.5, -3.5], 1e-5));
    let shifted = LayerNorm::new(2, F(3.0)).forward(&tensor(&[0.0, 2.0], &[2])).unwrap();
    assert!(close(&values(&shifted), &[-0.5, 0.5], 1e-6));
    assert_eq!(
        norm.forward(&tensor(&[1.0; 3], &[1, 3])).unwrap_err(),
        BellandeError::DimensionMismatch
    );
    let scalar = Tensor::try_new(vec![F(1.0)], vec![], false, Device::CPU, DataType::Float32);
    assert!(matches!(norm.forward(&scalar.unwrap()), Err(BellandeError::InvalidShape(_))));
    let empty = norm.forward(&tensor(&[], &[0, 2])).unwrap();
    assert_eq!(empty.shape, vec![0, 2]);
}

#[test]
fn encoder_with_silent_weights_returns_its_input() {
    let mut rng = Fixed::new(&[0.0], &[true]);
    let mut layer: TransformerEncoderLayer<F> =
        TransformerEncoderLayer::new(4, 2, 6, F(0.0), F(1e-5), &mut rng);
    assert_eq!(layer.self_attn.head_dim, 2);
    let kinds: Vec<LayerKind> = layer.ff_network.get_layers().iter().map(|l| l.kind()).collect();
    assert_eq!(
        kinds,
        vec![
            LayerKind::Linear { in_features: 4, out_features: 6, bias: true },
            LayerKind::ReLU,
            LayerKind::Linear { in_features: 6, out_features: 4, bias: true },
        ]
    );
    let x = tensor(&[1.0, 2.0, 3.0, 4.0, -1.0, 0.5, 0.25, 8.0], &[1, 2, 4]);
    let y = layer.forward(&x, None, &mut rng).unwrap();
    assert_eq!(y.shape, vec![1, 2, 4]);
    assert_eq!(values(&y), values(&x));
    assert!(layer.self_attn.cache.is_some());
}

#[test]
fn encoder_adds_the_feed_forward_network_to_its_input() {
    let mut rng = Fixed::new(&[0.0], &[true]);
    let mut layer: TransformerEncoderLayer<F> =
        TransformerEncoderLayer::new(2, 1, 2, F(0.0), F(0.0), &mut rng);
    match &mut layer.ff_network.get_layers_mut()[2] {
        bellande::layer::Layer::Linear(l) => {
            l.bias.as_mut().unwrap().data = vec![F(10.0), F(20.0)];
        }
        _ => panic!("expected a linear layer"),
    }
    let x = tensor(&[1.0, 3.0], &[1, 1, 2]);
    let y = layer.forward(&x, None, &mut rng).unwrap();
    assert_eq!(values(&y), vec![11.0, 23.0]);
    let wrong = tensor(&[1.0; 3], &[1, 1, 3]);
    assert_eq!(layer.forward(&wrong, None, &mut rng).unwrap_err(), BellandeError::DimensionMismatch);
    let flat = tensor(&[1.0; 2], &[1, 2]);
    assert!(matches!(layer.forward(&flat, None, &mut rng), Err(BellandeError::InvalidShape(_))));
}

#[test]
fn decoder_attends_to_a_memory_of_another_length() {
    let mut rng = Fixed::new(&[0.0], &[true]);
    let mut layer: TransformerDecoderLayer<F> =
        TransformerDecoderLayer::new(2, 1, 4, F(0.0), F(1e-5), &mut rng);
    layer.cross_attn.v_proj.weight.data = vec![F(1.0), F(0.0), F(0.0), F(1.0)];
    layer.cross_attn.out_proj.weight.data = vec![F(1.0), F(0.0), F(0.0), F(1.0)];
    let tgt = tensor(&[1.0, 2.0, 3.0, 5.0], &[1, 2, 2]);
    let memory = tensor(&[3.0, 0.0, 0.0, 6.0, 3.0, 0.0], &[1, 3, 2]);
    let y = layer.forward(&tgt, &memory, None, None, &mut rng).unwrap();
    assert_eq!(y.shape, vec![1, 2, 2]);
    assert!(close(&values(&y), &[3.0, 4.0, 5.0, 7.0], 1e-5));
    assert_eq!(layer.cross_attn.cache.as_ref().unwrap().attention_weights.shape, vec![1, 1, 2, 3]);
    let mask = vec![false, true, false, false, true, false];
    let y = layer.forward(&tgt, &memory, None, Some(&mask), &mut rng).unwrap();
    assert!(close(&values(&y), &[4.0, 2.0, 6.0, 5.0], 1e-5));
    let other = tensor(&[1.0; 3], &[1, 1, 3]);
    assert_eq!(
        layer.forward(&tgt, &other, None, None, &mut rng).unwrap_err(),
        BellandeError::DimensionMismatch
    );
}
