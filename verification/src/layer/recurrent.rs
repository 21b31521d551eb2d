//! One step of an LSTM and of a GRU cell, forward and backward.

use vstd::prelude::*;
use vstd::string::*;
use crate::device::Device;
use crate::dtype::DataType;
use crate::error::{forward_not_called, not_called, BellandeError};
use crate::kernels::{dot, dot_grid, filled, lemma_len_fits, plus_vec, strided_sum, sum_strided};
use crate::scalar::{RandomSource, Scalar, Transcendental};
use crate::shape::{
    copy_shape, flat2, flat3, index2, lemma_flat2_bound, lemma_flat2_order, lemma_flat3_bound,
    lemma_flat4_injective, lemma_flat4_leading, lemma_numel_2, lemma_product4_positive,
    lemma_product_monotone, same_shape, Cursor4,
    shape1, shape2,
};
use crate::tensor::{zeros_seq, Tensor};

verus! {

/// Fused gate pre-activation `(b, j)`: the input row times row `j` of the
/// input weights, plus the hidden row times row `j` of the hidden weights,
/// plus the input bias and then the hidden bias of `j` where present.
pub open spec fn fused_cell<T: Scalar>(
    x: Seq<T>,
    h: Seq<T>,
    w_ih: Seq<T>,
    w_hh: Seq<T>,
    b_ih: Option<Seq<T>>,
    b_hh: Option<Seq<T>>,
    n_in: int,
    n_hidden: int,
    b: int,
    j: int,
) -> T {
    let s = dot(x, b * n_in, 1, w_ih, j * n_in, 1, n_in as nat).plus_spec(
        dot(h, b * n_hidden, 1, w_hh, j * n_hidden, 1, n_hidden as nat),
    );
    let with_input_bias = match b_ih {
        Some(v) => s.plus_spec(v[j]),
        None => s,
    };
    match b_hh {
        Some(v) => with_input_bias.plus_spec(v[j]),
        None => with_input_bias,
    }
}

pub open spec fn values<T: Scalar>(t: Option<Tensor<T>>) -> Option<Seq<T>> {
    match t {
        Some(v) => Some(v.data@),
        None => None,
    }
}

/// The weights and biases of a recurrent cell with `gates` fused gates.
pub struct CellWeights<T> {
    pub input_size: usize,
    pub hidden_size: usize,
    pub gates: usize,
    pub weight_ih: Tensor<T>,
    pub weight_hh: Tensor<T>,
    pub bias_ih: Option<Tensor<T>>,
    pub bias_hh: Option<Tensor<T>>,
}

impl<T: Scalar> CellWeights<T> {
    /// The width of the fused pre-activation: one chunk of `hidden_size`
    /// per gate.
    pub open spec fn width(&self) -> int {
        self.gates * self.hidden_size
    }

    pub open spec fn wf(&self) -> bool {
        &&& self.width() <= usize::MAX
        &&& self.weight_ih.wf()
        &&& self.weight_ih.shape@ == seq![self.width() as usize, self.input_size]
        &&& self.weight_ih.data@.len() == self.width() * self.input_size
        &&& self.weight_hh.wf()
        &&& self.weight_hh.shape@ == seq![self.width() as usize, self.hidden_size]
        &&& self.weight_hh.data@.len() == self.width() * self.hidden_size
        &&& self.bias_ih matches Some(v) ==> v.wf() && v.shape@ == seq![self.width() as usize]
            && v.data@.len() == self.width()
        &&& self.bias_hh matches Some(v) ==> v.wf() && v.shape@ == seq![self.width() as usize]
            && v.data@.len() == self.width()
    }

    /// Whether an input and a hidden state fit the cell: both are
    /// two-dimensional with the same batch, of `input_size` and
    /// `hidden_size` columns, and the fused pre-activation can be addressed.
    pub open spec fn fits(&self, input: &Tensor<T>, hidden: &Tensor<T>) -> bool {
        &&& input.rank() == 2
        &&& hidden.rank() == 2
        &&& input.shape@[1] == self.input_size
        &&& hidden.shape@[1] == self.hidden_size
        &&& hidden.shape@[0] == input.shape@[0]
        &&& input.shape@[0] * self.width() <= usize::MAX
    }

    /// Pre-activation `(b, j)` for an input and a hidden state.
    pub open spec fn pre(&self, input: &Tensor<T>, hidden: &Tensor<T>, b: int, j: int) -> T {
        fused_cell(
            input.data@,
            hidden.data@,
            self.weight_ih.data@,
            self.weight_hh.data@,
            values(self.bias_ih),
            values(self.bias_hh),
            self.input_size as int,
            self.hidden_size as int,
            b,
            j,
        )
    }

    /// Weights drawn from the standard normal distribution and, if asked
    /// for, zero biases, all parameters with a zero gradient.
    pub fn new<R: RandomSource<T>>(
        input_size: usize,
        hidden_size: usize,
        gates: usize,
        bias: bool,
        rng: &mut R,
    ) -> (r: Self)
        requires
            gates * hidden_size * input_size <= usize::MAX,
            gates * hidden_size * hidden_size <= usize::MAX,
            gates * hidden_size <= usize::MAX,
        ensures
            r.wf(),
            r.input_size == input_size,
            r.hidden_size == hidden_size,
            r.gates == gates,
            r.weight_ih.requires_grad,
            r.weight_hh.requires_grad,
            r.bias_ih is Some == bias,
            r.bias_hh is Some == bias,
            r.bias_ih matches Some(v) ==> v.requires_grad && v.data@ == zeros_seq::<T>(
                (gates * hidden_size) as nat,
            ),
            r.bias_hh matches Some(v) ==> v.requires_grad && v.data@ == zeros_seq::<T>(
                (gates * hidden_size) as nat,
            ),
    {
        let width = gates * hidden_size;
        let dims_ih = shape2(width, input_size);
        let drawn_ih = Tensor::randn(dims_ih.as_slice(), rng);
        let weight_ih = Tensor::new(drawn_ih.data, dims_ih, true, Device::CPU, DataType::Float32);
        let dims_hh = shape2(width, hidden_size);
        let drawn_hh = Tensor::randn(dims_hh.as_slice(), rng);
        let weight_hh = Tensor::new(drawn_hh.data, dims_hh, true, Device::CPU, DataType::Float32);
        let bias_ih = if bias {
            Some(
                Tensor::new(
                    filled(T::zero(), width),
                    shape1(width),
                    true,
                    Device::CPU,
                    DataType::Float32,
                ),
            )
        } else {
            None
        };
        let bias_hh = if bias {
            Some(
                Tensor::new(
                    filled(T::zero(), width),
                    shape1(width),
                    true,
                    Device::CPU,
                    DataType::Float32,
                ),
            )
        } else {
            None
        };
        CellWeights { input_size, hidden_size, gates, weight_ih, weight_hh, bias_ih, bias_hh }
    }

    /// The fused pre-activations of a batch, `(batch, width)` in row-major
    /// order.
    pub fn fused(&self, input: &Tensor<T>, hidden: &Tensor<T>) -> (r: Vec<T>)
        requires
            self.wf(),
            input.wf(),
            hidden.wf(),
            self.fits(input, hidden),
        ensures
            r@.len() == input.shape@[0] * self.width(),
            forall|b: int, j: int|
                0 <= b < input.shape@[0] && 0 <= j < self.width() ==> {
                    let at = #[trigger] flat2(b, j, self.width());
                    &&& 0 <= at < r@.len()
                    &&& r@[at] == self.pre(input, hidden, b, j)
                },
    {
        let batch = input.shape[0];
        let n_in = self.input_size;
        let n_hidden = self.hidden_size;
        let width = self.gates * self.hidden_size;
        proof {
            lemma_numel_2(input.shape@);
            lemma_numel_2(hidden.shape@);
            if batch > 0 && n_in > 0 {
                lemma_flat2_bound(batch - 1, n_in - 1, batch as int, n_in as int);
            }
            if batch > 0 && n_hidden > 0 {
                lemma_flat2_bound(batch - 1, n_hidden - 1, batch as int, n_hidden as int);
            }
            if width > 0 && n_in > 0 {
                lemma_flat2_bound(width - 1, n_in - 1, width as int, n_in as int);
            }
            if width > 0 && n_hidden > 0 {
                lemma_flat2_bound(width - 1, n_hidden - 1, width as int, n_hidden as int);
            }
        }
        let from_input = dot_grid(
            &input.data,
            n_in,
            1,
            &self.weight_ih.data,
            n_in,
            1,
            batch,
            width,
            n_in,
        );
        let from_hidden = dot_grid(
            &hidden.data,
            n_hidden,
            1,
            &self.weight_hh.data,
            n_hidden,
            1,
            batch,
            width,
            n_hidden,
        );
        proof {
            lemma_len_fits(&from_input);
        }
        let mut out: Vec<T> = Vec::new();
        let mut b: usize = 0;
        while b < batch
            invariant
                b <= batch,
                self.wf(),
                width == self.width(),
                n_in == self.input_size,
                n_hidden == self.hidden_size,
                from_input@.len() == batch * width,
                from_hidden@.len() == batch * width,
                from_input@.len() <= usize::MAX,
                forall|b2: int, j2: int|
                    0 <= b2 < batch && 0 <= j2 < width ==> #[trigger] from_input@[flat2(
                        b2,
                        j2,
                        width as int,
                    )] == dot(
                        input.data@,
                        b2 * n_in,
                        1,
                        self.weight_ih.data@,
                        j2 * n_in,
                        1,
                        n_in as nat,
                    ),
                forall|b2: int, j2: int|
                    0 <= b2 < batch && 0 <= j2 < width ==> #[trigger] from_hidden@[flat2(
                        b2,
                        j2,
                        width as int,
                    )] == dot(
                        hidden.data@,
                        b2 * n_hidden,
                        1,
                        self.weight_hh.data@,
                        j2 * n_hidden,
                        1,
                        n_hidden as nat,
                    ),
                out@.len() == b * width,
                forall|b2: int, j2: int|
                    0 <= b2 && 0 <= j2 < width && flat2(b2, j2, width as int) < out@.len()
                        ==> #[trigger] out@[flat2(b2, j2, width as int)] == self.pre(
                        input,
                        hidden,
                        b2,
                        j2,
                    ),
            decreases batch - b,
        {
            let mut j: usize = 0;
            while j < width
                invariant
                    b < batch,
                    j <= width,
                    self.wf(),
                    width == self.width(),
                    n_in == self.input_size,
                    n_hidden == self.hidden_size,
                    from_input@.len() == batch * width,
                    from_hidden@.len() == batch * width,
                    from_input@.len() <= usize::MAX,
                    forall|b2: int, j2: int|
                        0 <= b2 < batch && 0 <= j2 < width ==> #[trigger] from_input@[flat2(
                            b2,
                            j2,
                            width as int,
                        )] == dot(
                            input.data@,
                            b2 * n_in,
                            1,
                            self.weight_ih.data@,
                            j2 * n_in,
                            1,
                            n_in as nat,
                        ),
                    forall|b2: int, j2: int|
                        0 <= b2 < batch && 0 <= j2 < width ==> #[trigger] from_hidden@[flat2(
                            b2,
                            j2,
                            width as int,
                        )] == dot(
                            hidden.data@,
                            b2 * n_hidden,
                            1,
                            self.weight_hh.data@,
                            j2 * n_hidden,
                            1,
                            n_hidden as nat,
                        ),
                    out@.len() == b * width + j,
                    forall|b2: int, j2: int|
                        0 <= b2 && 0 <= j2 < width && flat2(b2, j2, width as int) < out@.len()
                            ==> #[trigger] out@[flat2(b2, j2, width as int)] == self.pre(
                            input,
                            hidden,
                            b2,
                            j2,
                        ),
                decreases width - j,
            {
                proof {
                    lemma_flat2_bound(b as int, j as int, batch as int, width as int);
                }
                let at = index2(b, j, width);
                let sum = from_input[at].plus(from_hidden[at]);
                let with_input_bias = match &self.bias_ih {
                    Some(v) => sum.plus(v.data[j]),
                    None => sum,
                };
                let cell = match &self.bias_hh {
                    Some(v) => with_input_bias.plus(v.data[j]),
                    None => with_input_bias,
                };
                let ghost before = out@;
                out.push(cell);
                assert forall|b2: int, j2: int|
                    0 <= b2 && 0 <= j2 < width && flat2(b2, j2, width as int)
                        < out@.len() implies #[trigger] out@[flat2(b2, j2, width as int)]
                    == self.pre(input, hidden, b2, j2) by {
                    lemma_flat2_order(b2, j2, b as int, j as int, width as int);
                    if flat2(b2, j2, width as int) < before.len() {
                        assert(out@[flat2(b2, j2, width as int)] == before[flat2(
                            b2,
                            j2,
                            width as int,
                        )]);
                    }
                }
                j = j + 1;
            }
            assert(b * width + width == (b + 1) * width) by (nonlinear_arith);
            b = b + 1;
        }
        assert forall|b2: int, j2: int| 0 <= b2 < batch && 0 <= j2 < width implies 0
            <= #[trigger] flat2(b2, j2, width as int) < out@.len() by {
            lemma_flat2_bound(b2, j2, batch as int, width as int);
        }
        out
    }
}

/// What the logistic function returns where the exponential of the negated
/// argument is `e`: `1 / (1 + e)`.
pub open spec fn logistic_of<T: Scalar>(e: T) -> T {
    T::one_spec().over_spec(T::one_spec().plus_spec(e))
}

/// The logistic function `1 / (1 + exp(0 - x))`. The exponential is only an
/// approximation, so the value is known up to what stands for it.
pub fn sigmoid<T: Transcendental>(x: T) -> (r: T)
    ensures
        exists|e: T| r == #[trigger] logistic_of(e),
{
    let e = T::zero().minus(x).exp();
    let r = T::one().over(T::one().plus(e));
    assert(r == logistic_of(e));
    r
}

/// The logistic function of every element. Nothing is known of the values.
fn sigmoid_all<T: Transcendental>(x: &Vec<T>) -> (r: Vec<T>)
    ensures
        r@.len() == x@.len(),
{
    let n = x.len();
    let mut out: Vec<T> = Vec::new();
    let mut i: usize = 0;
    while i < n
        invariant
            i <= n,
            n == x@.len(),
            out@.len() == i,
        decreases n - i,
    {
        out.push(sigmoid(x[i]));
        i = i + 1;
    }
    out
}

/// Chunk `gate` of fused values of extents `(batch, width)`: element
/// `(b, k)` of the chunk is element `(b, gate * hidden + k)`.
pub open spec fn chunk_of<T: Scalar>(
    fused: Seq<T>,
    batch: int,
    width: int,
    hidden: int,
    gate: int,
) -> Seq<T> {
    Seq::new(
        (batch * hidden) as nat,
        |at: int| fused[flat2(at / hidden, gate * hidden + at % hidden, width)],
    )
}

proof fn lemma_chunk_cell(at: int, b: int, k: int, hidden: int)
    requires
        0 <= k < hidden,
        0 <= b,
        at == flat2(b, k, hidden),
    ensures
        at / hidden == b,
        at % hidden == k,
{
    vstd::arithmetic::div_mod::lemma_fundamental_div_mod_converse(at, hidden, b, k);
}

proof fn lemma_chunk_inside(gate: int, gates: int, hidden: int, k: int)
    by (nonlinear_arith)
    requires
        0 <= gate < gates,
        0 <= k < hidden,
    ensures
        0 <= gate * hidden + k < gates * hidden,
        0 <= gate * hidden,
{
}

/// Cuts chunk `gate` out of fused values.
pub fn chunk<T: Scalar>(fused: &Vec<T>, batch: usize, gates: usize, hidden: usize, gate: usize) -> (r:
    Vec<T>)
    requires
        gates * hidden <= usize::MAX,
        fused@.len() == batch * (gates * hidden),
        gate < gates,
    ensures
        r@ == chunk_of(fused@, batch as int, gates * hidden, hidden as int, gate as int),
        r@.len() == batch * hidden,
{
    let width = gates * hidden;
    proof {
        lemma_len_fits(fused);
        lemma_product_monotone(gate as int, hidden as int, gates as int, hidden as int);
    }
    let offset = gate * hidden;
    let ghost expected = chunk_of(fused@, batch as int, width as int, hidden as int, gate as int);
    let mut out: Vec<T> = Vec::new();
    let mut b: usize = 0;
    while b < batch
        invariant
            b <= batch,
            width == gates * hidden,
            offset == gate * hidden,
            gate < gates,
            fused@.len() == batch * width,
            fused@.len() <= usize::MAX,
            expected == chunk_of(fused@, batch as int, width as int, hidden as int, gate as int),
            out@.len() == b * hidden,
            forall|at: int| 0 <= at < out@.len() ==> #[trigger] out@[at] == expected[at],
        decreases batch - b,
    {
        let mut k: usize = 0;
        while k < hidden
            invariant
                b < batch,
                k <= hidden,
                width == gates * hidden,
                offset == gate * hidden,
                gate < gates,
                fused@.len() == batch * width,
                fused@.len() <= usize::MAX,
                expected == chunk_of(fused@, batch as int, width as int, hidden as int, gate as int),
                out@.len() == b * hidden + k,
                forall|at: int| 0 <= at < out@.len() ==> #[trigger] out@[at] == expected[at],
            decreases hidden - k,
        {
            proof {
                lemma_chunk_inside(gate as int, gates as int, hidden as int, k as int);
                lemma_flat2_bound(b as int, offset + k, batch as int, width as int);
                lemma_chunk_cell(flat2(b as int, k as int, hidden as int), b as int, k as int, hidden as int);
                lemma_flat2_bound(b as int, k as int, batch as int, hidden as int);
            }
            let ghost before = out@;
            out.push(fused[index2(b, offset + k, width)]);
            assert forall|at: int| 0 <= at < out@.len() implies #[trigger] out@[at]
                == expected[at] by {
                if at < before.len() {
                    assert(out@[at] == before[at]);
                }
            }
            k = k + 1;
        }
        assert(b * hidden + hidden == (b + 1) * hidden) by (nonlinear_arith);
        b = b + 1;
    }
    assert(out@ =~= expected);
    out
}

/// The hyperbolic tangent of every element. Nothing is known of the values.
fn tanh_all<T: Transcendental>(x: &Vec<T>) -> (r: Vec<T>)
    ensures
        r@.len() == x@.len(),
{
    let n = x.len();
    let mut out: Vec<T> = Vec::new();
    let mut i: usize = 0;
    while i < n
        invariant
            i <= n,
            n == x@.len(),
            out@.len() == i,
        decreases n - i,
    {
        out.push(x[i].tanh());
        i = i + 1;
    }
    out
}

/// What an LSTM step keeps for `backward`: the input, the previous hidden
/// and cell states, the fused pre-activations, the four activated gates,
/// and the hyperbolic tangent of the next cell state.
pub struct LSTMCache<T> {
    pub input: Tensor<T>,
    pub hidden: Tensor<T>,
    pub cell: Tensor<T>,
    pub gates: Tensor<T>,
    pub input_gate: Vec<T>,
    pub forget_gate: Vec<T>,
    pub candidate: Vec<T>,
    pub output_gate: Vec<T>,
    pub cell_tanh: Vec<T>,
}

/// One step of a long short-term memory. The fused pre-activation has four
/// chunks, in this order: input gate, forget gate, candidate, output gate.
pub struct LSTMCell<T> {
    pub weights: CellWeights<T>,
    pub cache: Option<LSTMCache<T>>,
}

/// The next cell state `f ⊙ c_prev + i ⊙ g`.
pub open spec fn next_cell<T: Scalar>(i: Seq<T>, f: Seq<T>, g: Seq<T>, c_prev: Seq<T>) -> Seq<T> {
    Seq::new(
        c_prev.len(),
        |at: int| f[at].times_spec(c_prev[at]).plus_spec(i[at].times_spec(g[at])),
    )
}

/// The next hidden state `o ⊙ tanh(c_next)`, from the output gate and the
/// hyperbolic tangent of the next cell state.
pub open spec fn next_hidden<T: Scalar>(o: Seq<T>, tanh_cell: Seq<T>) -> Seq<T> {
    Seq::new(o.len(), |at: int| o[at].times_spec(tanh_cell[at]))
}

/// Combines the activated gates with the previous cell state.
pub fn combine_cell<T: Scalar>(i: &Vec<T>, f: &Vec<T>, g: &Vec<T>, c_prev: &Vec<T>) -> (r: Vec<T>)
    requires
        i@.len() == c_prev@.len(),
        f@.len() == c_prev@.len(),
        g@.len() == c_prev@.len(),
    ensures
        r@ == next_cell(i@, f@, g@, c_prev@),
{
    let n = c_prev.len();
    let mut out: Vec<T> = Vec::new();
    let mut at: usize = 0;
    while at < n
        invariant
            at <= n,
            n == c_prev@.len(),
            i@.len() == n,
            f@.len() == n,
            g@.len() == n,
            out@.len() == at,
            forall|k: int| 0 <= k < at ==> out@[k] == next_cell(i@, f@, g@, c_prev@)[k],
        decreases n - at,
    {
        out.push(f[at].times(c_prev[at]).plus(i[at].times(g[at])));
        at = at + 1;
    }
    assert(out@ =~= next_cell(i@, f@, g@, c_prev@));
    out
}

/// Gates the hyperbolic tangent of the cell state by the output gate.
pub fn gate_output<T: Scalar>(o: &Vec<T>, tanh_cell: &Vec<T>) -> (r: Vec<T>)
    requires
        o@.len() == tanh_cell@.len(),
    ensures
        r@ == next_hidden(o@, tanh_cell@),
{
    let n = o.len();
    let mut out: Vec<T> = Vec::new();
    let mut at: usize = 0;
    while at < n
        invariant
            at <= n,
            n == o@.len(),
            n == tanh_cell@.len(),
            out@.len() == at,
            forall|k: int| 0 <= k < at ==> out@[k] == next_hidden(o@, tanh_cell@)[k],
        decreases n - at,
    {
        out.push(o[at].times(tanh_cell[at]));
        at = at + 1;
    }
    assert(out@ =~= next_hidden(o@, tanh_cell@));
    out
}

/// What validating an input and a hidden state reports: `InvalidShape`
/// unless both are two-dimensional and the fused pre-activation can be
/// addressed, `DimensionMismatch` unless their extents are those of the
/// cell and their batches agree.
pub open spec fn step_error<T: Scalar>(
    w: &CellWeights<T>,
    input: &Tensor<T>,
    hidden: &Tensor<T>,
    e: BellandeError,
) -> bool {
    match e {
        BellandeError::InvalidShape(_) => input.rank() != 2 || hidden.rank() != 2 || (
        input.shape@[1] == w.input_size && hidden.shape@[1] == w.hidden_size && hidden.shape@[0]
            == input.shape@[0] && input.shape@[0] * w.width() > usize::MAX),
        BellandeError::DimensionMismatch => input.rank() == 2 && hidden.rank() == 2 && (
        input.shape@[1] != w.input_size || hidden.shape@[1] != w.hidden_size || hidden.shape@[0]
            != input.shape@[0]),
        _ => false,
    }
}

fn check_step<T: Scalar>(w: &CellWeights<T>, input: &Tensor<T>, hidden: &Tensor<T>) -> (r: Result<
    (),
    BellandeError,
>)
    requires
        w.wf(),
    ensures
        r is Ok <==> w.fits(input, hidden),
        r matches Err(e) ==> step_error(w, input, hidden, e),
{
    if input.shape.len() != 2 || hidden.shape.len() != 2 {
        return Err(BellandeError::InvalidShape(String::from_str("expected 2D tensors")));
    }
    if input.shape[1] != w.input_size || hidden.shape[1] != w.hidden_size || hidden.shape[0]
        != input.shape[0] {
        return Err(BellandeError::DimensionMismatch);
    }
    if input.shape[0].checked_mul(w.gates * w.hidden_size).is_none() {
        return Err(BellandeError::InvalidShape(String::from_str("batch too large")));
    }
    Ok(())
}

proof fn lemma_state_len(batch: int, gates: int, hidden: int)
    by (nonlinear_arith)
    requires
        0 <= batch,
        1 <= gates,
        0 <= hidden,
        batch * (gates * hidden) <= usize::MAX,
    ensures
        0 <= batch * hidden <= usize::MAX,
{
}

impl<T: Scalar> LSTMCell<T> {
    pub open spec fn wf(&self) -> bool {
        &&& self.weights.wf()
        &&& self.weights.gates == 4
        &&& self.cache matches Some(k) ==> {
            &&& k.input.wf()
            &&& k.hidden.wf()
            &&& k.cell.wf()
            &&& k.gates.wf()
            &&& self.weights.fits(&k.input, &k.hidden)
            &&& k.cell.shape@ == k.hidden.shape@
            &&& k.input_gate@.len() == k.hidden.data@.len()
            &&& k.forget_gate@.len() == k.hidden.data@.len()
            &&& k.candidate@.len() == k.hidden.data@.len()
            &&& k.output_gate@.len() == k.hidden.data@.len()
            &&& k.cell_tanh@.len() == k.hidden.data@.len()
        }
    }

    /// A cell with weights drawn from the standard normal distribution and,
    /// if asked for, zero biases.
    pub fn new<R: RandomSource<T>>(input_size: usize, hidden_size: usize, bias: bool, rng: &mut R) -> (r:
        Self)
        requires
            4 * hidden_size * input_size <= usize::MAX,
            4 * hidden_size * hidden_size <= usize::MAX,
            4 * hidden_size <= usize::MAX,
        ensures
            r.wf(),
            r.weights.input_size == input_size,
            r.weights.hidden_size == hidden_size,
            r.weights.bias_ih is Some == bias,
            r.weights.bias_hh is Some == bias,
            r.cache is None,
    {
        LSTMCell { weights: CellWeights::new(input_size, hidden_size, 4, bias, rng), cache: None }
    }
}

impl<T: Transcendental> LSTMCell<T> {
    /// One step: the fused pre-activation of input and previous hidden
    /// state is cut into its four gates, the logistic function is applied
    /// to the input, forget and output gate and the hyperbolic tangent to
    /// the candidate, and the states advance to
    /// `c_next = f ⊙ c_prev + i ⊙ g` and `h_next = o ⊙ tanh(c_next)`.
    /// Without previous states, both are zero. Returns `(h_next, c_next)`
    /// and caches the inputs and the pre-activations.
    ///
    /// The activations are only approximations, so the states are fixed up
    /// to them: they are what the equations make of the activated gates
    /// that the cache holds.
    pub fn forward(&mut self, input: &Tensor<T>, hidden: Option<(Tensor<T>, Tensor<T>)>) -> (r:
        Result<(Tensor<T>, Tensor<T>), BellandeError>)
        requires
            old(self).wf(),
            input.wf(),
            hidden matches Some(s) ==> s.0.wf() && s.1.wf(),
        ensures
            final(self).wf(),
            final(self).weights == old(self).weights,
            r is Err ==> final(self).cache == old(self).cache,
            hidden is None && input.rank() == 2 && input.shape@[1] == old(self).weights.input_size
                && input.shape@[0] * old(self).weights.width() <= usize::MAX ==> r is Ok,
            hidden matches Some(s) ==> {
                &&& old(self).weights.fits(input, &s.0) && s.1.shape@ == s.0.shape@ ==> r is Ok
                &&& r matches Err(e) ==> step_error(&old(self).weights, input, &s.0, e) || (
                old(self).weights.fits(input, &s.0) && s.1.shape@ != s.0.shape@ && e
                    == BellandeError::DimensionMismatch)
            },
            r matches Ok(next) ==> {
                let k = final(self).cache->0;
                let w = old(self).weights;
                &&& final(self).cache is Some
                &&& k.input.data@ == input.data@
                &&& k.input.shape@ == input.shape@
                &&& hidden matches Some(s) ==> k.hidden.data@ == s.0.data@ && k.cell.data@
                    == s.1.data@ && k.hidden.shape@ == s.0.shape@
                &&& hidden is None ==> k.hidden.data@ == zeros_seq::<T>(k.hidden.data@.len())
                    && k.cell.data@ == zeros_seq::<T>(k.hidden.data@.len())
                &&& k.hidden.shape@ == seq![input.shape@[0], w.hidden_size]
                &&& k.gates.shape@ == seq![input.shape@[0], w.width() as usize]
                &&& forall|b: int, j: int|
                    0 <= b < input.shape@[0] && 0 <= j < w.width() ==> #[trigger] k.gates.data@[flat2(
                        b,
                        j,
                        w.width(),
                    )] == w.pre(input, &k.hidden, b, j)
                &&& next.0.wf()
                &&& next.1.wf()
                &&& next.0.shape@ == k.hidden.shape@
                &&& next.1.shape@ == k.hidden.shape@
                &&& next.1.data@ == next_cell(
                    k.input_gate@,
                    k.forget_gate@,
                    k.candidate@,
                    k.cell.data@,
                )
                &&& next.0.data@ == next_hidden(k.output_gate@, k.cell_tanh@)
            },
    {
        let h_size = self.weights.hidden_size;
        let (h_prev, c_prev) = match hidden {
            Some((h, c)) => {
                match check_step(&self.weights, input, &h) {
                    Ok(_) => {},
                    Err(e) => {
                        return Err(e);
                    },
                }
                if !crate::shape::same_shape(&c.shape, &h.shape) {
                    return Err(BellandeError::DimensionMismatch);
                }
                (h, c)
            },
            None => {
                if input.shape.len() != 2 {
                    return Err(BellandeError::InvalidShape(String::from_str("expected a 2D input")));
                }
                if input.shape[1] != self.weights.input_size {
                    return Err(BellandeError::DimensionMismatch);
                }
                let batch = input.shape[0];
                if batch.checked_mul(self.weights.gates * h_size).is_none() {
                    return Err(BellandeError::InvalidShape(String::from_str("batch too large")));
                }
                proof {
                    lemma_state_len(batch as int, 4, h_size as int);
                }
                let dims = shape2(batch, h_size);
                let h = Tensor::zeros(dims.as_slice());
                let c = Tensor::zeros(dims.as_slice());
                (h, c)
            },
        };
        let batch = input.shape[0];
        proof {
            lemma_state_len(batch as int, 4, h_size as int);
            lemma_numel_2(h_prev.shape@);
            lemma_numel_2(c_prev.shape@);
        }
        let pre = self.weights.fused(input, &h_prev);
        let i = sigmoid_all(&chunk(&pre, batch, 4, h_size, 0));
        let f = sigmoid_all(&chunk(&pre, batch, 4, h_size, 1));
        let g = tanh_all(&chunk(&pre, batch, 4, h_size, 2));
        let o = sigmoid_all(&chunk(&pre, batch, 4, h_size, 3));
        let c_next = combine_cell(&i, &f, &g, &c_prev.data);
        let t = tanh_all(&c_next);
        let h_next = gate_output(&o, &t);
        let state_h = Tensor::new(h_next, shape2(batch, h_size), true, input.device, input.dtype);
        let state_c = Tensor::new(
            crate::kernels::copied(&c_next),
            shape2(batch, h_size),
            true,
            input.device,
            input.dtype,
        );
        let gates = Tensor::new(
            pre,
            shape2(batch, self.weights.gates * h_size),
            false,
            input.device,
            input.dtype,
        );
        self.cache = Some(
            LSTMCache {
                input: input.duplicate(),
                hidden: h_prev,
                cell: c_prev,
                gates,
                input_gate: i,
                forget_gate: f,
                candidate: g,
                output_gate: o,
                cell_tanh: t,
            },
        );
        Ok((state_h, state_c))
    }
}

/// What a GRU step keeps for `backward`: the input, the previous hidden
/// state, the fused pre-activations, and the activated update gate and
/// candidate.
pub struct GRUCache<T> {
    pub input: Tensor<T>,
    pub hidden: Tensor<T>,
    pub gates: Tensor<T>,
    pub update_gate: Vec<T>,
    pub candidate: Vec<T>,
}

/// One step of a gated recurrent unit. The fused pre-activation has three
/// chunks, in this order: reset gate, update gate, candidate.
pub struct GRUCell<T> {
    pub weights: CellWeights<T>,
    pub cache: Option<GRUCache<T>>,
}

/// The next hidden state `z ⊙ h_prev + (1 - z) ⊙ n`.
pub open spec fn gru_hidden<T: Scalar>(z: Seq<T>, n: Seq<T>, h_prev: Seq<T>) -> Seq<T> {
    Seq::new(
        h_prev.len(),
        |at: int|
            z[at].times_spec(h_prev[at]).plus_spec(
                T::one_spec().minus_spec(z[at]).times_spec(n[at]),
            ),
    )
}

/// Blends the previous hidden state with the candidate by the update gate.
pub fn blend_hidden<T: Scalar>(z: &Vec<T>, n: &Vec<T>, h_prev: &Vec<T>) -> (r: Vec<T>)
    requires
        z@.len() == h_prev@.len(),
        n@.len() == h_prev@.len(),
    ensures
        r@ == gru_hidden(z@, n@, h_prev@),
{
    let len = h_prev.len();
    let one = T::one();
    let mut out: Vec<T> = Vec::new();
    let mut at: usize = 0;
    while at < len
        invariant
            at <= len,
            len == h_prev@.len(),
            z@.len() == len,
            n@.len() == len,
            one == T::one_spec(),
            out@.len() == at,
            forall|k: int| 0 <= k < at ==> out@[k] == gru_hidden(z@, n@, h_prev@)[k],
        decreases len - at,
    {
        out.push(z[at].times(h_prev[at]).plus(one.minus(z[at]).times(n[at])));
        at = at + 1;
    }
    assert(out@ =~= gru_hidden(z@, n@, h_prev@));
    out
}

impl<T: Scalar> GRUCell<T> {
    pub open spec fn wf(&self) -> bool {
        &&& self.weights.wf()
        &&& self.weights.gates == 3
        &&& self.cache matches Some(k) ==> {
            &&& k.input.wf()
            &&& k.hidden.wf()
            &&& k.gates.wf()
            &&& self.weights.fits(&k.input, &k.hidden)
            &&& k.update_gate@.len() == k.hidden.data@.len()
            &&& k.candidate@.len() == k.hidden.data@.len()
        }
    }

    /// A cell with weights drawn from the standard normal distribution and,
    /// if asked for, zero biases.
    pub fn new<R: RandomSource<T>>(input_size: usize, hidden_size: usize, bias: bool, rng: &mut R) -> (r:
        Self)
        requires
            3 * hidden_size * input_size <= usize::MAX,
            3 * hidden_size * hidden_size <= usize::MAX,
            3 * hidden_size <= usize::MAX,
        ensures
            r.wf(),
            r.weights.input_size == input_size,
            r.weights.hidden_size == hidden_size,
            r.weights.bias_ih is Some == bias,
            r.weights.bias_hh is Some == bias,
            r.cache is None,
    {
        GRUCell { weights: CellWeights::new(input_size, hidden_size, 3, bias, rng), cache: None }
    }
}

impl<T: Transcendental> GRUCell<T> {
    /// One step: the fused pre-activation of input and previous hidden
    /// state is cut into its three gates, the logistic function is applied
    /// to the reset and update gate and the hyperbolic tangent to the
    /// candidate, and the hidden state advances to
    /// `h_next = z ⊙ h_prev + (1 - z) ⊙ n`. Without a previous state, it
    /// is zero. Caches the inputs and the pre-activations.
    ///
    /// The activations are only approximations, so the state is fixed up
    /// to them: it is what the equation makes of the activated gates that
    /// the cache holds.
    pub fn forward(&mut self, input: &Tensor<T>, hidden: Option<Tensor<T>>) -> (r: Result<
        Tensor<T>,
        BellandeError,
    >)
        requires
            old(self).wf(),
            input.wf(),
            hidden matches Some(s) ==> s.wf(),
        ensures
            final(self).wf(),
            final(self).weights == old(self).weights,
            r is Err ==> final(self).cache == old(self).cache,
            hidden is None && input.rank() == 2 && input.shape@[1] == old(self).weights.input_size
                && input.shape@[0] * old(self).weights.width() <= usize::MAX ==> r is Ok,
            hidden matches Some(s) ==> {
                &&& old(self).weights.fits(input, &s) ==> r is Ok
                &&& r matches Err(e) ==> step_error(&old(self).weights, input, &s, e)
            },
            r matches Ok(next) ==> {
                let k = final(self).cache->0;
                let w = old(self).weights;
                &&& final(self).cache is Some
                &&& k.input.data@ == input.data@
                &&& k.input.shape@ == input.shape@
                &&& hidden matches Some(s) ==> k.hidden.data@ == s.data@ && k.hidden.shape@
                    == s.shape@
                &&& hidden is None ==> k.hidden.data@ == zeros_seq::<T>(k.hidden.data@.len())
                &&& k.hidden.shape@ == seq![input.shape@[0], w.hidden_size]
                &&& k.gates.shape@ == seq![input.shape@[0], w.width() as usize]
                &&& forall|b: int, j: int|
                    0 <= b < input.shape@[0] && 0 <= j < w.width() ==> #[trigger] k.gates.data@[flat2(
                        b,
                        j,
                        w.width(),
                    )] == w.pre(input, &k.hidden, b, j)
                &&& next.wf()
                &&& next.shape@ == k.hidden.shape@
                &&& next.data@ == gru_hidden(k.update_gate@, k.candidate@, k.hidden.data@)
            },
    {
        let h_size = self.weights.hidden_size;
        let h_prev = match hidden {
            Some(h) => {
                match check_step(&self.weights, input, &h) {
                    Ok(_) => {},
                    Err(e) => {
                        return Err(e);
                    },
                }
                h
            },
            None => {
                if input.shape.len() != 2 {
                    return Err(BellandeError::InvalidShape(String::from_str("expected a 2D input")));
                }
                if input.shape[1] != self.weights.input_size {
                    return Err(BellandeError::DimensionMismatch);
                }
                let batch = input.shape[0];
                if batch.checked_mul(self.weights.gates * h_size).is_none() {
                    return Err(BellandeError::InvalidShape(String::from_str("batch too large")));
                }
                proof {
                    lemma_state_len(batch as int, 3, h_size as int);
                }
                Tensor::zeros(shape2(batch, h_size).as_slice())
            },
        };
        let batch = input.shape[0];
        proof {
            lemma_state_len(batch as int, 3, h_size as int);
            lemma_numel_2(h_prev.shape@);
        }
        let pre = self.weights.fused(input, &h_prev);
        let z = sigmoid_all(&chunk(&pre, batch, 3, h_size, 1));
        let n = tanh_all(&chunk(&pre, batch, 3, h_size, 2));
        let h_next = blend_hidden(&z, &n, &h_prev.data);
        let state = Tensor::new(h_next, shape2(batch, h_size), true, input.device, input.dtype);
        let gates = Tensor::new(
            pre,
            shape2(batch, self.weights.gates * h_size),
            false,
            input.device,
            input.dtype,
        );
        self.cache = Some(
            GRUCache {
                input: input.duplicate(),
                hidden: h_prev,
                gates,
                update_gate: z,
                candidate: n,
            },
        );
        Ok(state)
    }
}

/// The gradients of one step of a recurrent cell: with respect to the
/// input, the previous hidden state, the two weights and the two biases.
#[derive(Debug)]
pub struct CellGradients<T> {
    pub input: Tensor<T>,
    pub hidden: Tensor<T>,
    pub weight_ih: Tensor<T>,
    pub weight_hh: Tensor<T>,
    pub bias_ih: Option<Tensor<T>>,
    pub bias_hh: Option<Tensor<T>>,
}

/// Whether `g` holds the gradients that the gradient `dgates` of the fused
/// pre-activations, of extents `(batch, width)`, gives for a step from
/// `input` and `hidden`: `dgates` times the weights for the input and the
/// hidden state, `dgates` transposed times the input and the hidden state
/// for the weights, and `dgates` summed over the batch for each bias.
pub open spec fn gradients_from<T: Scalar>(
    w: CellWeights<T>,
    dgates: Seq<T>,
    input: &Tensor<T>,
    hidden: &Tensor<T>,
    g: CellGradients<T>,
) -> bool {
    let batch = input.shape@[0] as int;
    let n_in = w.input_size as int;
    let n_hidden = w.hidden_size as int;
    let width = w.width();
    &&& g.input.wf() && g.input.shape@ == input.shape@
    &&& g.hidden.wf() && g.hidden.shape@ == hidden.shape@
    &&& g.weight_ih.wf() && g.weight_ih.shape@ == w.weight_ih.shape@
    &&& g.weight_hh.wf() && g.weight_hh.shape@ == w.weight_hh.shape@
    &&& forall|b: int, i: int|
        0 <= b < batch && 0 <= i < n_in ==> #[trigger] g.input.data@[flat2(b, i, n_in)] == dot(
            dgates,
            b * width,
            1,
            w.weight_ih.data@,
            i,
            n_in,
            width as nat,
        )
    &&& forall|b: int, k: int|
        0 <= b < batch && 0 <= k < n_hidden ==> #[trigger] g.hidden.data@[flat2(b, k, n_hidden)]
            == dot(dgates, b * width, 1, w.weight_hh.data@, k, n_hidden, width as nat)
    &&& forall|j: int, i: int|
        0 <= j < width && 0 <= i < n_in ==> #[trigger] g.weight_ih.data@[flat2(j, i, n_in)] == dot(
            dgates,
            j,
            width,
            input.data@,
            i,
            n_in,
            batch as nat,
        )
    &&& forall|j: int, k: int|
        0 <= j < width && 0 <= k < n_hidden ==> #[trigger] g.weight_hh.data@[flat2(j, k, n_hidden)]
            == dot(dgates, j, width, hidden.data@, k, n_hidden, batch as nat)
    &&& g.bias_ih is Some == w.bias_ih is Some
    &&& g.bias_hh is Some == w.bias_hh is Some
    &&& g.bias_ih matches Some(t) ==> bias_gradient(t, dgates, width, batch)
    &&& g.bias_hh matches Some(t) ==> bias_gradient(t, dgates, width, batch)
}

/// Whether `t` holds, for every fused gate, its gradients summed over the
/// batch.
pub open spec fn bias_gradient<T: Scalar>(t: Tensor<T>, dgates: Seq<T>, width: int, batch: int) -> bool {
    &&& t.wf()
    &&& t.shape@ == seq![width as usize]
    &&& t.data@.len() == width
    &&& forall|j: int|
        0 <= j < width ==> #[trigger] t.data@[j] == strided_sum(dgates, j, width, batch as nat)
}

fn column_sums<T: Scalar>(dgates: &Vec<T>, batch: usize, width: usize) -> (r: Vec<T>)
    requires
        dgates@.len() == batch * width,
    ensures
        r@.len() == width,
        forall|j: int|
            0 <= j < width ==> #[trigger] r@[j] == strided_sum(
                dgates@,
                j,
                width as int,
                batch as nat,
            ),
{
    let mut out: Vec<T> = Vec::new();
    let mut j: usize = 0;
    while j < width
        invariant
            j <= width,
            dgates@.len() == batch * width,
            out@.len() == j,
            forall|k: int|
                0 <= k < j ==> #[trigger] out@[k] == strided_sum(
                    dgates@,
                    k,
                    width as int,
                    batch as nat,
                ),
        decreases width - j,
    {
        proof {
            if batch > 0 {
                lemma_flat2_bound(batch - 1, j as int, batch as int, width as int);
            }
        }
        out.push(sum_strided(dgates, j, width, batch));
        j = j + 1;
    }
    out
}

impl<T: Scalar> CellWeights<T> {
    /// The gradients of a step from the gradient of its fused
    /// pre-activations.
    pub fn backward_from_gates(&self, dgates: &Vec<T>, input: &Tensor<T>, hidden: &Tensor<T>) -> (r:
        CellGradients<T>)
        requires
            self.wf(),
            input.wf(),
            hidden.wf(),
            self.fits(input, hidden),
            dgates@.len() == input.shape@[0] * self.width(),
        ensures
            gradients_from(*self, dgates@, input, hidden, r),
    {
        let batch = input.shape[0];
        let n_in = self.input_size;
        let n_hidden = self.hidden_size;
        let width = self.gates * self.hidden_size;
        proof {
            lemma_numel_2(input.shape@);
            lemma_numel_2(hidden.shape@);
            lemma_len_fits(&input.data);
            lemma_len_fits(&hidden.data);
            lemma_len_fits(&self.weight_ih.data);
            lemma_len_fits(&self.weight_hh.data);
            lemma_len_fits(dgates);
            if batch > 0 && width > 0 {
                lemma_flat2_bound(batch - 1, width - 1, batch as int, width as int);
            }
            if batch > 0 && n_in > 0 {
                lemma_flat2_bound(batch - 1, n_in - 1, batch as int, n_in as int);
            }
            if batch > 0 && n_hidden > 0 {
                lemma_flat2_bound(batch - 1, n_hidden - 1, batch as int, n_hidden as int);
            }
            if width > 0 && n_in > 0 {
                lemma_flat2_bound(width - 1, n_in - 1, width as int, n_in as int);
            }
            if width > 0 && n_hidden > 0 {
                lemma_flat2_bound(width - 1, n_hidden - 1, width as int, n_hidden as int);
            }
        }
        let grad_input = dot_grid(dgates, width, 1, &self.weight_ih.data, 1, n_in, batch, n_in, width);
        let grad_hidden = dot_grid(
            dgates,
            width,
            1,
            &self.weight_hh.data,
            1,
            n_hidden,
            batch,
            n_hidden,
            width,
        );
        let grad_ih = dot_grid(dgates, 1, width, &input.data, 1, n_in, width, n_in, batch);
        let grad_hh = dot_grid(dgates, 1, width, &hidden.data, 1, n_hidden, width, n_hidden, batch);
        proof {
            assert forall|b: int, i: int| 0 <= b < batch && 0 <= i < n_in implies #[trigger] grad_input@[flat2(
                b,
                i,
                n_in as int,
            )] == dot(
                dgates@,
                b * width,
                1,
                self.weight_ih.data@,
                i,
                n_in as int,
                width as nat,
            ) by {
                assert(i * 1 == i);
            }
            assert forall|b: int, k: int|
                0 <= b < batch && 0 <= k < n_hidden implies #[trigger] grad_hidden@[flat2(
                b,
                k,
                n_hidden as int,
            )] == dot(
                dgates@,
                b * width,
                1,
                self.weight_hh.data@,
                k,
                n_hidden as int,
                width as nat,
            ) by {
                assert(k * 1 == k);
            }
            assert forall|j: int, i: int| 0 <= j < width && 0 <= i < n_in implies #[trigger] grad_ih@[flat2(
                j,
                i,
                n_in as int,
            )] == dot(dgates@, j, width as int, input.data@, i, n_in as int, batch as nat) by {
                assert(i * 1 == i);
                assert(j * 1 == j);
            }
            assert forall|j: int, k: int|
                0 <= j < width && 0 <= k < n_hidden implies #[trigger] grad_hh@[flat2(
                j,
                k,
                n_hidden as int,
            )] == dot(dgates@, j, width as int, hidden.data@, k, n_hidden as int, batch as nat) by {
                assert(k * 1 == k);
                assert(j * 1 == j);
            }
        }
        let bias_ih = match &self.bias_ih {
            Some(b) => Some(
                Tensor::new(column_sums(dgates, batch, width), shape1(width), true, b.device, b.dtype),
            ),
            None => None,
        };
        let bias_hh = match &self.bias_hh {
            Some(b) => Some(
                Tensor::new(column_sums(dgates, batch, width), shape1(width), true, b.device, b.dtype),
            ),
            None => None,
        };
        CellGradients {
            input: Tensor::new(
                grad_input,
                copy_shape(&input.shape),
                true,
                input.device,
                input.dtype,
            ),
            hidden: Tensor::new(
                grad_hidden,
                copy_shape(&hidden.shape),
                true,
                hidden.device,
                hidden.dtype,
            ),
            weight_ih: Tensor::new(
                grad_ih,
                copy_shape(&self.weight_ih.shape),
                true,
                self.weight_ih.device,
                self.weight_ih.dtype,
            ),
            weight_hh: Tensor::new(
                grad_hh,
                copy_shape(&self.weight_hh.shape),
                true,
                self.weight_hh.device,
                self.weight_hh.dtype,
            ),
            bias_ih,
            bias_hh,
        }
    }
}

/// Whether `fused`, of extents `(batch, gates · hidden)`, holds the chunks
/// `parts`, each of extents `(batch, hidden)`, side by side.
pub open spec fn fused_from<T>(
    fused: Seq<T>,
    parts: Seq<Vec<T>>,
    batch: int,
    gates: int,
    hidden: int,
) -> bool {
    &&& fused.len() == batch * (gates * hidden)
    &&& forall|b: int, gate: int, k: int|
        0 <= b < batch && 0 <= gate < gates && 0 <= k < hidden ==> #[trigger] fused[flat3(
            b,
            gate,
            k,
            gates,
            hidden,
        )] == parts[gate]@[flat2(b, k, hidden)]
}

proof fn lemma_fused_position(b: int, gate: int, k: int, gates: int, hidden: int)
    by (nonlinear_arith)
    ensures
        crate::shape::flat4(b, gate, k, 0, gates, hidden, 1) == flat3(b, gate, k, gates, hidden),
        flat3(b, gate, k, gates, hidden) == flat2(b, gate * hidden + k, gates * hidden),
        b * gates * hidden * 1 == b * (gates * hidden),
{
}

/// Puts chunks side by side.
pub fn fuse<T: Copy>(parts: &Vec<Vec<T>>, batch: usize, hidden: usize) -> (r: Vec<T>)
    requires
        batch * (parts@.len() * hidden) <= usize::MAX,
        forall|gate: int| 0 <= gate < parts@.len() ==> (#[trigger] parts@[gate])@.len() == batch * hidden,
    ensures
        fused_from(r@, parts@, batch as int, parts@.len() as int, hidden as int),
{
    let gates = parts.len();
    proof {
        lemma_fused_position(batch as int, 0, 0, gates as int, hidden as int);
    }
    let total = crate::shape::product4(batch, gates, hidden, 1);
    proof {
        if total > 0 {
            lemma_product4_positive(batch as int, gates as int, hidden as int, 1);
        }
    }
    let mut out: Vec<T> = Vec::new();
    let mut cur = Cursor4::start();
    while out.len() < total
        invariant
            gates == parts@.len(),
            total == batch * gates * hidden * 1,
            total <= usize::MAX,
            forall|gate: int|
                0 <= gate < parts@.len() ==> (#[trigger] parts@[gate])@.len() == batch * hidden,
            out@.len() <= total,
            total > 0 ==> cur.inside(gates as int, hidden as int, 1),
            out@.len() == cur.position(gates as int, hidden as int, 1),
            forall|b: int, gate: int, k: int|
                0 <= b && 0 <= gate < gates && 0 <= k < hidden && flat3(
                    b,
                    gate,
                    k,
                    gates as int,
                    hidden as int,
                ) < out@.len() ==> #[trigger] out@[flat3(b, gate, k, gates as int, hidden as int)]
                    == parts@[gate]@[flat2(b, k, hidden as int)],
        decreases total - out@.len(),
    {
        proof {
            lemma_flat4_leading(
                cur.i as int,
                cur.j as int,
                cur.k as int,
                cur.l as int,
                batch as int,
                gates as int,
                hidden as int,
                1,
            );
            lemma_fused_position(cur.i as int, cur.j as int, cur.k as int, gates as int, hidden as int);
            lemma_flat2_bound(cur.i as int, cur.k as int, batch as int, hidden as int);
            lemma_len_fits(&parts@[cur.j as int]);
        }
        let value = parts[cur.j][index2(cur.i, cur.k, hidden)];
        let ghost before = out@;
        out.push(value);
        assert forall|b: int, gate: int, k: int|
            0 <= b && 0 <= gate < gates && 0 <= k < hidden && flat3(
                b,
                gate,
                k,
                gates as int,
                hidden as int,
            ) < out@.len() implies #[trigger] out@[flat3(b, gate, k, gates as int, hidden as int)]
            == parts@[gate]@[flat2(b, k, hidden as int)] by {
            let at = flat3(b, gate, k, gates as int, hidden as int);
            if at < before.len() {
                assert(out@[at] == before[at]);
            } else {
                lemma_fused_position(b, gate, k, gates as int, hidden as int);
                lemma_flat4_injective(
                    b,
                    gate,
                    k,
                    0,
                    cur.i as int,
                    cur.j as int,
                    cur.k as int,
                    cur.l as int,
                    gates as int,
                    hidden as int,
                    1,
                );
            }
        }
        cur.advance(gates, hidden, 1);
    }
    assert forall|b: int, gate: int, k: int|
        0 <= b < batch && 0 <= gate < gates && 0 <= k < hidden implies flat3(
        b,
        gate,
        k,
        gates as int,
        hidden as int,
    ) < out@.len() by {
        lemma_flat3_bound(b, gate, k, batch as int, gates as int, hidden as int);
    }
    out
}

/// `s · (1 - s)`: the slope of the logistic function where its value is `s`.
pub open spec fn logistic_slope<T: Scalar>(s: T) -> T {
    s.times_spec(T::one_spec().minus_spec(s))
}

/// `1 - t · t`: the slope of the hyperbolic tangent where its value is `t`.
pub open spec fn tanh_slope<T: Scalar>(t: T) -> T {
    T::one_spec().minus_spec(t.times_spec(t))
}

/// The values that the backward pass of an LSTM step works with, element
/// by element: the gradients of the next hidden and cell state, the
/// activated gates, the hyperbolic tangent of the next cell state, and the
/// previous cell state.
pub struct LSTMPoint<T> {
    pub grad_hidden: T,
    pub grad_cell: T,
    pub input_gate: T,
    pub forget_gate: T,
    pub candidate: T,
    pub output_gate: T,
    pub cell_tanh: T,
    pub cell: T,
}

impl<T: Scalar> LSTMPoint<T> {
    /// The gradient that reaches the next cell state: its own, and that of
    /// the hidden state through the output gate and the hyperbolic tangent.
    pub open spec fn cell_flow(self) -> T {
        self.grad_cell.plus_spec(
            self.grad_hidden.times_spec(self.output_gate).times_spec(tanh_slope(self.cell_tanh)),
        )
    }

    /// The gradient with respect to the pre-activation of a gate: 0 the
    /// input gate, 1 the forget gate, 2 the candidate, 3 the output gate.
    pub open spec fn gate_grad(self, gate: int) -> T {
        if gate == 0 {
            self.cell_flow().times_spec(self.candidate).times_spec(logistic_slope(self.input_gate))
        } else if gate == 1 {
            self.cell_flow().times_spec(self.cell).times_spec(logistic_slope(self.forget_gate))
        } else if gate == 2 {
            self.cell_flow().times_spec(self.input_gate).times_spec(tanh_slope(self.candidate))
        } else {
            self.grad_hidden.times_spec(self.cell_tanh).times_spec(
                logistic_slope(self.output_gate),
            )
        }
    }

    /// The gradient with respect to the previous cell state.
    pub open spec fn previous_cell_grad(self) -> T {
        self.cell_flow().times_spec(self.forget_gate)
    }
}

/// The point of an LSTM cache at element `at`.
pub open spec fn lstm_point<T: Scalar>(
    k: LSTMCache<T>,
    grad_hidden: Seq<T>,
    grad_cell: Seq<T>,
    at: int,
) -> LSTMPoint<T> {
    LSTMPoint {
        grad_hidden: grad_hidden[at],
        grad_cell: grad_cell[at],
        input_gate: k.input_gate@[at],
        forget_gate: k.forget_gate@[at],
        candidate: k.candidate@[at],
        output_gate: k.output_gate@[at],
        cell_tanh: k.cell_tanh@[at],
        cell: k.cell.data@[at],
    }
}

/// Whether `dgates`, of extents `(batch, 4, hidden)`, holds the gradient
/// of every gate's pre-activation for the cached step.
pub open spec fn lstm_gate_grads<T: Scalar>(
    cell: LSTMCell<T>,
    grad_hidden: Seq<T>,
    grad_cell: Seq<T>,
    dgates: Seq<T>,
) -> bool {
    let k = cell.cache->0;
    &&& dgates.len() == k.input.shape@[0] * cell.weights.width()
    &&& forall|b: int, gate: int, h: int|
        0 <= b < k.input.shape@[0] && 0 <= gate < 4 && 0 <= h < cell.weights.hidden_size
            ==> #[trigger] dgates[flat3(b, gate, h, 4, cell.weights.hidden_size as int)]
            == lstm_point(
            k,
            grad_hidden,
            grad_cell,
            flat2(b, h, cell.weights.hidden_size as int),
        ).gate_grad(gate)
}

/// What `backward` returns for an LSTM cell in state `cell`: the gradient
/// of the previous cell state, and the gradients that follow from those of
/// the pre-activations.
pub open spec fn lstm_backward_result<T: Scalar>(
    cell: LSTMCell<T>,
    grad_hidden: &Tensor<T>,
    grad_cell: &Tensor<T>,
    r: Result<(CellGradients<T>, Tensor<T>), BellandeError>,
) -> bool {
    match r {
        Ok(out) => {
            let k = cell.cache->0;
            &&& cell.cache is Some
            &&& grad_hidden.shape@ == k.hidden.shape@
            &&& grad_cell.shape@ == k.hidden.shape@
            &&& out.1.wf()
            &&& out.1.shape@ == k.hidden.shape@
            &&& forall|at: int|
                0 <= at < k.hidden.data@.len() ==> #[trigger] out.1.data@[at] == lstm_point(
                    k,
                    grad_hidden.data@,
                    grad_cell.data@,
                    at,
                ).previous_cell_grad()
            &&& exists|dgates: Seq<T>|
                #[trigger] lstm_gate_grads(cell, grad_hidden.data@, grad_cell.data@, dgates)
                    && gradients_from(cell.weights, dgates, &k.input, &k.hidden, out.0)
        },
        Err(BellandeError::RuntimeError(m)) => cell.cache is None && m@ == not_called(),
        Err(BellandeError::DimensionMismatch) => cell.cache is Some && (grad_hidden.shape@
            != cell.cache->0.hidden.shape@ || grad_cell.shape@ != cell.cache->0.hidden.shape@),
        Err(_) => false,
    }
}

impl<T: Scalar> LSTMCell<T> {
    /// The gradients of the last step, from the gradients of the next
    /// hidden and cell state: those of the step's inputs and parameters,
    /// and that of the previous cell state.
    ///
    /// The gradient of every gate's pre-activation follows from the
    /// activated gates of the cache; the position of gate `gate` of hidden
    /// unit `h` of sample `b` among them is `(b, gate, h)`.
    pub fn backward(&self, grad_hidden: &Tensor<T>, grad_cell: &Tensor<T>) -> (r: Result<
        (CellGradients<T>, Tensor<T>),
        BellandeError,
    >)
        requires
            self.wf(),
            grad_hidden.wf(),
            grad_cell.wf(),
        ensures
            lstm_backward_result(*self, grad_hidden, grad_cell, r),
    {
        let k = match &self.cache {
            Some(k) => k,
            None => {
                return Err(forward_not_called());
            },
        };
        if !same_shape(&grad_hidden.shape, &k.hidden.shape) || !same_shape(
            &grad_cell.shape,
            &k.hidden.shape,
        ) {
            return Err(BellandeError::DimensionMismatch);
        }
        let n = k.hidden.data.len();
        let batch = k.input.shape[0];
        let h_size = self.weights.hidden_size;
        proof {
            lemma_numel_2(k.hidden.shape@);
        }
        let one = T::one();
        let mut d_input: Vec<T> = Vec::new();
        let mut d_forget: Vec<T> = Vec::new();
        let mut d_candidate: Vec<T> = Vec::new();
        let mut d_output: Vec<T> = Vec::new();
        let mut d_cell: Vec<T> = Vec::new();
        let mut at: usize = 0;
        while at < n
            invariant
                at <= n,
                self.wf(),
                self.cache == Some(*k),
                n == k.hidden.data@.len(),
                n == grad_hidden.data@.len(),
                n == grad_cell.data@.len(),
                one == T::one_spec(),
                d_input@.len() == at,
                d_forget@.len() == at,
                d_candidate@.len() == at,
                d_output@.len() == at,
                d_cell@.len() == at,
                forall|j: int|
                    0 <= j < at ==> #[trigger] d_input@[j] == lstm_point(
                        *k,
                        grad_hidden.data@,
                        grad_cell.data@,
                        j,
                    ).gate_grad(0),
                forall|j: int|
                    0 <= j < at ==> #[trigger] d_forget@[j] == lstm_point(
                        *k,
                        grad_hidden.data@,
                        grad_cell.data@,
                        j,
                    ).gate_grad(1),
                forall|j: int|
                    0 <= j < at ==> #[trigger] d_candidate@[j] == lstm_point(
                        *k,
                        grad_hidden.data@,
                        grad_cell.data@,
                        j,
                    ).gate_grad(2),
                forall|j: int|
                    0 <= j < at ==> #[trigger] d_output@[j] == lstm_point(
                        *k,
                        grad_hidden.data@,
                        grad_cell.data@,
                        j,
                    ).gate_grad(3),
                forall|j: int|
                    0 <= j < at ==> #[trigger] d_cell@[j] == lstm_point(
                        *k,
                        grad_hidden.data@,
                        grad_cell.data@,
                        j,
                    ).previous_cell_grad(),
            decreases n - at,
        {
            let gh = grad_hidden.data[at];
            let i = k.input_gate[at];
            let f = k.forget_gate[at];
            let g = k.candidate[at];
            let o = k.output_gate[at];
            let t = k.cell_tanh[at];
            let flow = grad_cell.data[at].plus(gh.times(o).times(one.minus(t.times(t))));
            d_input.push(flow.times(g).times(i.times(one.minus(i))));
            d_forget.push(flow.times(k.cell.data[at]).times(f.times(one.minus(f))));
            d_candidate.push(flow.times(i).times(one.minus(g.times(g))));
            d_output.push(gh.times(t).times(o.times(one.minus(o))));
            d_cell.push(flow.times(f));
            at = at + 1;
        }
        let mut parts: Vec<Vec<T>> = Vec::new();
        parts.push(d_input);
        parts.push(d_forget);
        parts.push(d_candidate);
        parts.push(d_output);
        proof {
            assert(batch * (4 * h_size) == batch * self.weights.width()) by (nonlinear_arith)
                requires
                    self.weights.width() == 4 * h_size,
            ;
        }
        let dgates = fuse(&parts, batch, h_size);
        proof {
            assert forall|b: int, gate: int, h: int|
                0 <= b < batch && 0 <= gate < 4 && 0 <= h < h_size implies #[trigger] dgates@[flat3(
                b,
                gate,
                h,
                4,
                h_size as int,
            )] == lstm_point(
                *k,
                grad_hidden.data@,
                grad_cell.data@,
                flat2(b, h, h_size as int),
            ).gate_grad(gate) by {
                lemma_flat2_bound(b, h, batch as int, h_size as int);
                let j = flat2(b, h, h_size as int);
                let p = lstm_point(*k, grad_hidden.data@, grad_cell.data@, j);
                assert(part_at(parts@, 0, j) == p.gate_grad(0));
                assert(part_at(parts@, 1, j) == p.gate_grad(1));
                assert(part_at(parts@, 2, j) == p.gate_grad(2));
                assert(part_at(parts@, 3, j) == p.gate_grad(3));
            }
        }
        let grads = self.weights.backward_from_gates(&dgates, &k.input, &k.hidden);
        let previous = Tensor::new(
            d_cell,
            copy_shape(&k.hidden.shape),
            true,
            grad_cell.device,
            grad_cell.dtype,
        );
        assert(lstm_gate_grads(*self, grad_hidden.data@, grad_cell.data@, dgates@));
        assert(gradients_from(self.weights, dgates@, &k.input, &k.hidden, grads));
        Ok((grads, previous))
    }
}

/// Element `at` of chunk `gate`.
pub open spec fn part_at<T>(parts: Seq<Vec<T>>, gate: int, at: int) -> T {
    parts[gate]@[at]
}

/// The values that the backward pass of a GRU step works with, element by
/// element: the gradient of the next hidden state, the activated update
/// gate and candidate, and the previous hidden state.
pub struct GRUPoint<T> {
    pub grad_hidden: T,
    pub update_gate: T,
    pub candidate: T,
    pub hidden: T,
}

impl<T: Scalar> GRUPoint<T> {
    /// The gradient with respect to the pre-activation of a gate: 0 the
    /// reset gate, which the step does not use, 1 the update gate, 2 the
    /// candidate.
    pub open spec fn gate_grad(self, gate: int) -> T {
        if gate == 0 {
            T::zero_spec()
        } else if gate == 1 {
            self.grad_hidden.times_spec(self.hidden.minus_spec(self.candidate)).times_spec(
                logistic_slope(self.update_gate),
            )
        } else {
            self.grad_hidden.times_spec(T::one_spec().minus_spec(self.update_gate)).times_spec(
                tanh_slope(self.candidate),
            )
        }
    }

    /// The gradient that reaches the previous hidden state through the
    /// blend itself.
    pub open spec fn carried(self) -> T {
        self.grad_hidden.times_spec(self.update_gate)
    }
}

/// The point of a GRU cache at element `at`.
pub open spec fn gru_point<T: Scalar>(k: GRUCache<T>, grad_hidden: Seq<T>, at: int) -> GRUPoint<T> {
    GRUPoint {
        grad_hidden: grad_hidden[at],
        update_gate: k.update_gate@[at],
        candidate: k.candidate@[at],
        hidden: k.hidden.data@[at],
    }
}

/// What `backward` returns for a GRU cell in state `cell`: the gradients
/// that follow from those of the pre-activations, with the gradient carried
/// by the blend added to that of the previous hidden state.
pub open spec fn gru_backward_result<T: Scalar>(
    cell: GRUCell<T>,
    grad_hidden: &Tensor<T>,
    r: Result<CellGradients<T>, BellandeError>,
) -> bool {
    match r {
        Ok(out) => {
            let k = cell.cache->0;
            &&& cell.cache is Some
            &&& grad_hidden.shape@ == k.hidden.shape@
            &&& exists|dgates: Seq<T>, through: CellGradients<T>|
                {
                    &&& #[trigger] gradients_from(
                        cell.weights,
                        dgates,
                        &k.input,
                        &k.hidden,
                        through,
                    )
                    &&& dgates.len() == k.input.shape@[0] * cell.weights.width()
                    &&& forall|b: int, gate: int, h: int|
                        0 <= b < k.input.shape@[0] && 0 <= gate < 3 && 0 <= h
                            < cell.weights.hidden_size ==> #[trigger] dgates[flat3(
                            b,
                            gate,
                            h,
                            3,
                            cell.weights.hidden_size as int,
                        )] == gru_point(
                            k,
                            grad_hidden.data@,
                            flat2(b, h, cell.weights.hidden_size as int),
                        ).gate_grad(gate)
                    &&& out.input == through.input
                    &&& out.weight_ih == through.weight_ih
                    &&& out.weight_hh == through.weight_hh
                    &&& out.bias_ih == through.bias_ih
                    &&& out.bias_hh == through.bias_hh
                    &&& out.hidden.wf()
                    &&& out.hidden.shape@ == k.hidden.shape@
                    &&& out.hidden.data@.len() == k.hidden.data@.len()
                    &&& forall|at: int|
                        0 <= at < k.hidden.data@.len() ==> #[trigger] out.hidden.data@[at]
                            == gru_point(k, grad_hidden.data@, at).carried().plus_spec(
                            through.hidden.data@[at],
                        )
                }
        },
        Err(BellandeError::RuntimeError(m)) => cell.cache is None && m@ == not_called(),
        Err(BellandeError::DimensionMismatch) => cell.cache is Some && grad_hidden.shape@
            != cell.cache->0.hidden.shape@,
        Err(_) => false,
    }
}

impl<T: Scalar> GRUCell<T> {
    /// The gradients of the last step, from the gradient of the next
    /// hidden state.
    pub fn backward(&self, grad_hidden: &Tensor<T>) -> (r: Result<CellGradients<T>, BellandeError>)
        requires
            self.wf(),
            grad_hidden.wf(),
        ensures
            gru_backward_result(*self, grad_hidden, r),
    {
        let k = match &self.cache {
            Some(k) => k,
            None => {
                return Err(forward_not_called());
            },
        };
        if !same_shape(&grad_hidden.shape, &k.hidden.shape) {
            return Err(BellandeError::DimensionMismatch);
        }
        let n = k.hidden.data.len();
        let batch = k.input.shape[0];
        let h_size = self.weights.hidden_size;
        proof {
            lemma_numel_2(k.hidden.shape@);
        }
        let one = T::one();
        let d_reset = filled(T::zero(), n);
        let mut d_update: Vec<T> = Vec::new();
        let mut d_candidate: Vec<T> = Vec::new();
        let mut carried: Vec<T> = Vec::new();
        let mut at: usize = 0;
        while at < n
            invariant
                at <= n,
                self.wf(),
                self.cache == Some(*k),
                n == k.hidden.data@.len(),
                n == grad_hidden.data@.len(),
                one == T::one_spec(),
                d_update@.len() == at,
                d_candidate@.len() == at,
                carried@.len() == at,
                forall|j: int|
                    0 <= j < at ==> #[trigger] d_update@[j] == gru_point(
                        *k,
                        grad_hidden.data@,
                        j,
                    ).gate_grad(1),
                forall|j: int|
                    0 <= j < at ==> #[trigger] d_candidate@[j] == gru_point(
                        *k,
                        grad_hidden.data@,
                        j,
                    ).gate_grad(2),
                forall|j: int|
                    0 <= j < at ==> #[trigger] carried@[j] == gru_point(
                        *k,
                        grad_hidden.data@,
                        j,
                    ).carried(),
            decreases n - at,
        {
            let gh = grad_hidden.data[at];
            let z = k.update_gate[at];
            let c = k.candidate[at];
            d_update.push(gh.times(k.hidden.data[at].minus(c)).times(z.times(one.minus(z))));
            d_candidate.push(gh.times(one.minus(z)).times(one.minus(c.times(c))));
            carried.push(gh.times(z));
            at = at + 1;
        }
        let mut parts: Vec<Vec<T>> = Vec::new();
        parts.push(d_reset);
        parts.push(d_update);
        parts.push(d_candidate);
        proof {
            assert(batch * (3 * h_size) == batch * self.weights.width()) by (nonlinear_arith)
                requires
                    self.weights.width() == 3 * h_size,
            ;
        }
        let dgates = fuse(&parts, batch, h_size);
        proof {
            assert forall|b: int, gate: int, h: int|
                0 <= b < batch && 0 <= gate < 3 && 0 <= h < h_size implies #[trigger] dgates@[flat3(
                b,
                gate,
                h,
                3,
                h_size as int,
            )] == gru_point(*k, grad_hidden.data@, flat2(b, h, h_size as int)).gate_grad(gate) by {
                lemma_flat2_bound(b, h, batch as int, h_size as int);
                let j = flat2(b, h, h_size as int);
                let p = gru_point(*k, grad_hidden.data@, j);
                assert(part_at(parts@, 0, j) == p.gate_grad(0));
                assert(part_at(parts@, 1, j) == p.gate_grad(1));
                assert(part_at(parts@, 2, j) == p.gate_grad(2));
            }
        }
        let through = self.weights.backward_from_gates(&dgates, &k.input, &k.hidden);
        let hidden = Tensor::new(
            plus_vec(&carried, &through.hidden.data),
            copy_shape(&k.hidden.shape),
            true,
            grad_hidden.device,
            grad_hidden.dtype,
        );
        let ghost witness = through;
        let CellGradients { input, hidden: _, weight_ih, weight_hh, bias_ih, bias_hh } = through;
        let out = CellGradients { input, hidden, weight_ih, weight_hh, bias_ih, bias_hh };
        assert(gradients_from(self.weights, dgates@, &k.input, &k.hidden, witness));
        Ok(out)
    }
}

} // verus!
