//! Cross entropy over class scores, computed through a shifted
//! log-sum-exp, with class weights and an ignored target.

use vstd::prelude::*;
use vstd::string::*;
use crate::error::BellandeError;
use crate::kernels::{lemma_len_fits, strided_sum, sum_strided};
use crate::loss::mse::{reduce, reduce_losses};
use crate::loss::Reduction;
use crate::scalar::{Scalar, Transcendental};
use crate::shape::{
    copy_shape, flat2, index2, lemma_flat2_bound, lemma_flat2_order, lemma_numel_2, shape1,
};
use crate::tensor::Tensor;

verus! {

/// Cross entropy over class scores, with optional per-class weights and an
/// optional target value whose rows are ignored.
pub struct CrossEntropyLoss<T> {
    pub reduction: Reduction,
    pub weight: Option<Tensor<T>>,
    pub ignore_index: Option<i64>,
}

/// Why a prediction and its targets are rejected.
#[derive(Clone, Copy, Debug, PartialEq, Eq, Structural)]
pub enum Rejection {
    /// The prediction is not `(batch, classes)`.
    Rank,
    /// There is not one target per row.
    Batch,
    /// There is not one weight per class.
    Weights,
    /// A target that is not ignored names no class.
    Class,
}

/// The largest of the first `n` scores of row `b`, found by scanning from
/// the lowest value.
pub open spec fn row_max<T: Scalar>(x: Seq<T>, classes: int, b: int, n: nat) -> T
    decreases n,
{
    if n == 0 {
        T::lowest_spec()
    } else {
        let prev = row_max(x, classes, b, (n - 1) as nat);
        let v = x[flat2(b, n - 1, classes)];
        if v.exceeds_spec(prev) {
            v
        } else {
            prev
        }
    }
}

/// The scores with the maximum of their row subtracted.
pub open spec fn shifted_scores<T: Scalar>(x: Seq<T>, batch: int, classes: int) -> Seq<T> {
    Seq::new(
        (batch * classes) as nat,
        |at: int| x[at].minus_spec(row_max(x, classes, at / classes, classes as nat)),
    )
}

/// The sum of every row.
pub open spec fn row_totals<T: Scalar>(e: Seq<T>, batch: int, classes: int) -> Seq<T> {
    Seq::new(batch as nat, |b: int| strided_sum(e, b * classes, 1, classes as nat))
}

pub open spec fn is_ignored(ignore: Option<i64>, target: i64) -> bool {
    ignore == Some(target)
}

/// Every target that is not ignored names a class.
pub open spec fn targets_valid(target: Seq<i64>, classes: int, ignore: Option<i64>) -> bool {
    forall|b: int|
        0 <= b < target.len() ==> is_ignored(ignore, #[trigger] target[b]) || 0 <= target[b]
            < classes
}

pub open spec fn weight_values<T: Scalar>(weight: Option<Tensor<T>>) -> Option<Seq<T>> {
    match weight {
        Some(w) => Some(w.data@),
        None => None,
    }
}

/// The loss of row `b`: the negated log-probability of its target class,
/// times the weight of that class where weights are given; zero for an
/// ignored row. The log-probability of class `c` is the shifted score of
/// `c` less the logarithm of the row's sum of exponentials.
pub open spec fn row_loss<T: Scalar>(
    shifted: Seq<T>,
    log_sums: Seq<T>,
    weight: Option<Seq<T>>,
    ignore: Option<i64>,
    classes: int,
    target: Seq<i64>,
    b: int,
) -> T {
    if is_ignored(ignore, target[b]) {
        T::zero_spec()
    } else {
        let t = target[b] as int;
        let negative = T::zero_spec().minus_spec(
            shifted[flat2(b, t, classes)].minus_spec(log_sums[b]),
        );
        match weight {
            Some(w) => negative.times_spec(w[t]),
            None => negative,
        }
    }
}

pub open spec fn row_losses<T: Scalar>(
    shifted: Seq<T>,
    log_sums: Seq<T>,
    weight: Option<Seq<T>>,
    ignore: Option<i64>,
    classes: int,
    target: Seq<i64>,
) -> Seq<T> {
    Seq::new(target.len(), |b: int| row_loss(shifted, log_sums, weight, ignore, classes, target, b))
}

/// The gradient of the reduced loss with respect to score `(b, c)`: the
/// probability of `c`, less one for the target class, times the weight of
/// the target class where weights are given, and divided by the batch size
/// under `Mean`; zero for an ignored row. The probability of `c` is its
/// exponential over the row's sum of exponentials.
pub open spec fn score_gradient<T: Scalar>(
    exps: Seq<T>,
    sums: Seq<T>,
    weight: Option<Seq<T>>,
    ignore: Option<i64>,
    reduction: Reduction,
    classes: int,
    target: Seq<i64>,
    b: int,
    c: int,
) -> T {
    if is_ignored(ignore, target[b]) {
        T::zero_spec()
    } else {
        let t = target[b] as int;
        let probability = exps[flat2(b, c, classes)].over_spec(sums[b]);
        let difference = if c == t {
            probability.minus_spec(T::one_spec())
        } else {
            probability
        };
        let weighted = match weight {
            Some(w) => difference.times_spec(w[t]),
            None => difference,
        };
        if reduction == Reduction::Mean {
            weighted.times_spec(T::one_spec().over_spec(T::count_spec(target.len() as usize)))
        } else {
            weighted
        }
    }
}

fn row_max_exec<T: Scalar>(x: &Vec<T>, batch: usize, classes: usize, b: usize) -> (r: T)
    requires
        x@.len() == batch * classes,
        b < batch,
    ensures
        r == row_max(x@, classes as int, b as int, classes as nat),
{
    proof {
        lemma_len_fits(x);
    }
    let mut best = T::lowest();
    let mut c: usize = 0;
    while c < classes
        invariant
            c <= classes,
            b < batch,
            x@.len() == batch * classes,
            x@.len() <= usize::MAX,
            best == row_max(x@, classes as int, b as int, c as nat),
        decreases classes - c,
    {
        proof {
            lemma_flat2_bound(b as int, c as int, batch as int, classes as int);
        }
        let v = x[index2(b, c, classes)];
        if v.exceeds(best) {
            best = v;
        }
        c = c + 1;
    }
    best
}

proof fn lemma_row_of(at: int, b: int, c: int, classes: int)
    requires
        0 <= c < classes,
        0 <= b,
        at == flat2(b, c, classes),
    ensures
        at / classes == b,
{
    vstd::arithmetic::div_mod::lemma_fundamental_div_mod_converse(at, classes, b, c);
}

/// Subtracts from every score the maximum of its row.
pub fn shift_scores<T: Scalar>(x: &Vec<T>, batch: usize, classes: usize) -> (r: Vec<T>)
    requires
        x@.len() == batch * classes,
    ensures
        r@ == shifted_scores(x@, batch as int, classes as int),
{
    proof {
        lemma_len_fits(x);
    }
    let mut out: Vec<T> = Vec::new();
    let mut b: usize = 0;
    while b < batch
        invariant
            b <= batch,
            x@.len() == batch * classes,
            x@.len() <= usize::MAX,
            out@.len() == b * classes,
            forall|at: int|
                0 <= at < out@.len() ==> #[trigger] out@[at] == shifted_scores(
                    x@,
                    batch as int,
                    classes as int,
                )[at],
        decreases batch - b,
    {
        let top = row_max_exec(x, batch, classes, b);
        let mut c: usize = 0;
        while c < classes
            invariant
                b < batch,
                c <= classes,
                x@.len() == batch * classes,
                x@.len() <= usize::MAX,
                top == row_max(x@, classes as int, b as int, classes as nat),
                out@.len() == b * classes + c,
                forall|at: int|
                    0 <= at < out@.len() ==> #[trigger] out@[at] == shifted_scores(
                        x@,
                        batch as int,
                        classes as int,
                    )[at],
            decreases classes - c,
        {
            proof {
                lemma_flat2_bound(b as int, c as int, batch as int, classes as int);
                lemma_row_of(flat2(b as int, c as int, classes as int), b as int, c as int, classes as int);
            }
            let ghost before = out@;
            out.push(x[index2(b, c, classes)].minus(top));
            assert forall|at: int| 0 <= at < out@.len() implies #[trigger] out@[at]
                == shifted_scores(x@, batch as int, classes as int)[at] by {
                if at < before.len() {
                    assert(out@[at] == before[at]);
                }
            }
            c = c + 1;
        }
        assert(b * classes + classes == (b + 1) * classes) by (nonlinear_arith);
        b = b + 1;
    }
    assert(out@ =~= shifted_scores(x@, batch as int, classes as int));
    out
}

/// Sums every row.
pub fn sum_rows<T: Scalar>(e: &Vec<T>, batch: usize, classes: usize) -> (r: Vec<T>)
    requires
        e@.len() == batch * classes,
    ensures
        r@ == row_totals(e@, batch as int, classes as int),
{
    proof {
        lemma_len_fits(e);
    }
    let mut out: Vec<T> = Vec::new();
    let mut b: usize = 0;
    while b < batch
        invariant
            b <= batch,
            e@.len() == batch * classes,
            e@.len() <= usize::MAX,
            out@.len() == b,
            forall|k: int|
                0 <= k < b ==> #[trigger] out@[k] == row_totals(e@, batch as int, classes as int)[k],
        decreases batch - b,
    {
        proof {
            if classes > 0 {
                lemma_flat2_bound(b as int, classes - 1, batch as int, classes as int);
            }
            lemma_flat2_bound(b as int, 0, batch as int, classes as int + 1);
            assert(b * classes <= batch * classes) by (nonlinear_arith)
                requires
                    b < batch,
                    classes >= 0,
            ;
        }
        out.push(sum_strided(e, b * classes, 1, classes));
        b = b + 1;
    }
    assert(out@ =~= row_totals(e@, batch as int, classes as int));
    out
}

/// The exponential of every element. Nothing is known of the values.
pub(crate) fn exp_all<T: Transcendental>(x: &Vec<T>) -> (r: Vec<T>)
    ensures
        r@.len() == x@.len(),
{
    let n = x.len();
    let mut out: Vec<T> = Vec::new();
    let mut i: usize = 0;
    while i < n
        invariant
            i <= n,
            n == x@.len(),
            out@.len() == i,
        decreases n - i,
    {
        out.push(x[i].exp());
        i = i + 1;
    }
    out
}

/// The natural logarithm of every element. Nothing is known of the values.
pub(crate) fn ln_all<T: Transcendental>(x: &Vec<T>) -> (r: Vec<T>)
    ensures
        r@.len() == x@.len(),
{
    let n = x.len();
    let mut out: Vec<T> = Vec::new();
    let mut i: usize = 0;
    while i < n
        invariant
            i <= n,
            n == x@.len(),
            out@.len() == i,
        decreases n - i,
    {
        out.push(x[i].ln());
        i = i + 1;
    }
    out
}

impl<T: Scalar> CrossEntropyLoss<T> {
    pub open spec fn wf(&self) -> bool {
        self.weight matches Some(w) ==> w.wf()
    }

    pub fn new(reduction: Reduction, weight: Option<Tensor<T>>, ignore_index: Option<i64>) -> (r:
        Self)
        ensures
            r.reduction == reduction,
            r.weight == weight,
            r.ignore_index == ignore_index,
    {
        CrossEntropyLoss { reduction, weight, ignore_index }
    }

    /// The loss with `Mean` reduction, no class weights and no ignored
    /// target.
    pub fn default() -> (r: Self)
        ensures
            r.wf(),
            r.reduction == Reduction::Mean,
            r.weight is None,
            r.ignore_index is None,
    {
        CrossEntropyLoss { reduction: Reduction::Mean, weight: None, ignore_index: None }
    }

    /// What the validation of a prediction and its targets reports:
    /// `InvalidShape` unless the prediction is `(batch, classes)`,
    /// `ShapeMismatch` unless there is one target per row,
    /// `DimensionMismatch` unless there is one weight per class, and
    /// `InvalidInputs` if a target that is not ignored names no class.
    pub open spec fn validation(&self, prediction: &Tensor<T>, target: Seq<i64>) -> Option<
        Rejection,
    > {
        if prediction.rank() != 2 {
            Some(Rejection::Rank)
        } else if prediction.shape@[0] != target.len() {
            Some(Rejection::Batch)
        } else if self.weight is Some && self.weight->0.data@.len() != prediction.shape@[1] {
            Some(Rejection::Weights)
        } else if !targets_valid(target, prediction.shape@[1] as int, self.ignore_index) {
            Some(Rejection::Class)
        } else {
            None
        }
    }

    /// Whether `e` is the error that stands for the rejection: a wrong
    /// rank is `InvalidShape`, a wrong batch `ShapeMismatch`, wrong weights
    /// `DimensionMismatch` and a wrong class `InvalidInputs`.
    pub open spec fn reports(&self, prediction: &Tensor<T>, target: Seq<i64>, e: BellandeError) -> bool {
        match (self.validation(prediction, target), e) {
            (Some(Rejection::Rank), BellandeError::InvalidShape(_)) => true,
            (Some(Rejection::Batch), BellandeError::ShapeMismatch(_)) => true,
            (Some(Rejection::Weights), BellandeError::DimensionMismatch) => true,
            (Some(Rejection::Class), BellandeError::InvalidInputs) => true,
            _ => false,
        }
    }

    /// The loss that the logarithms `log_sums` of the rows' sums of
    /// exponentials give.
    pub open spec fn loss_of(&self, prediction: &Tensor<T>, target: Seq<i64>, log_sums: Seq<T>) -> Seq<
        T,
    > {
        reduce(
            row_losses(
                shifted_scores(
                    prediction.data@,
                    prediction.shape@[0] as int,
                    prediction.shape@[1] as int,
                ),
                log_sums,
                weight_values(self.weight),
                self.ignore_index,
                prediction.shape@[1] as int,
                target,
            ),
            self.reduction,
        )
    }

    /// Whether `g` is the gradient that the exponentials `exps` of the
    /// shifted scores give.
    pub open spec fn gradient_is(
        &self,
        prediction: &Tensor<T>,
        target: Seq<i64>,
        exps: Seq<T>,
        g: Seq<T>,
    ) -> bool {
        &&& exps.len() == prediction.data@.len()
        &&& forall|b: int, c: int|
            0 <= b < prediction.shape@[0] && 0 <= c < prediction.shape@[1] ==> #[trigger] g[flat2(
                b,
                c,
                prediction.shape@[1] as int,
            )] == score_gradient(
                exps,
                row_totals(exps, prediction.shape@[0] as int, prediction.shape@[1] as int),
                weight_values(self.weight),
                self.ignore_index,
                self.reduction,
                prediction.shape@[1] as int,
                target,
                b,
                c,
            )
    }

    /// Validates a prediction and its targets.
    pub fn validate_input(&self, prediction: &Tensor<T>, target: &Vec<i64>) -> (r: Result<
        (),
        BellandeError,
    >)
        requires
            self.wf(),
            prediction.wf(),
        ensures
            r is Ok <==> self.validation(prediction, target@) is None,
            r matches Err(e) ==> self.reports(prediction, target@, e),
    {
        if prediction.shape.len() != 2 {
            return Err(
                BellandeError::InvalidShape(
                    String::from_str(
                        "Prediction tensor must be 2-dimensional (batch_size, num_classes)",
                    ),
                ),
            );
        }
        if prediction.shape[0] != target.len() {
            return Err(
                BellandeError::ShapeMismatch(
                    String::from_str("Batch sizes of prediction and target must match"),
                ),
            );
        }
        let classes = prediction.shape[1];
        match &self.weight {
            Some(w) => {
                if w.data.len() != classes {
                    return Err(BellandeError::DimensionMismatch);
                }
            },
            None => {},
        }
        let n = target.len();
        let mut b: usize = 0;
        while b < n
            invariant
                b <= n,
                n == target@.len(),
                prediction.rank() == 2,
                prediction.shape@[0] == n,
                classes == prediction.shape@[1],
                self.weight matches Some(w) ==> w.data@.len() == classes,
                forall|k: int|
                    0 <= k < b ==> is_ignored(self.ignore_index, #[trigger] target@[k]) || 0
                        <= target@[k] < classes,
            decreases n - b,
        {
            let t = target[b];
            let ignored = match self.ignore_index {
                Some(v) => v == t,
                None => false,
            };
            if !ignored && (t < 0 || t as u64 >= classes as u64) {
                assert(!(is_ignored(self.ignore_index, target@[b as int]) || 0 <= target@[b as int]
                    < classes));
                return Err(BellandeError::InvalidInputs);
            }
            b = b + 1;
        }
        Ok(())
    }

    /// The loss from the shifted scores and the logarithms of the rows'
    /// sums of exponentials: one loss per row, reduced as configured.
    pub fn loss_from_logs(
        &self,
        shifted: &Vec<T>,
        log_sums: &Vec<T>,
        prediction: &Tensor<T>,
        target: &Vec<i64>,
    ) -> (t: Tensor<T>)
        requires
            self.wf(),
            prediction.wf(),
            self.validation(prediction, target@) is None,
            shifted@.len() == prediction.data@.len(),
            log_sums@.len() == target@.len(),
        ensures
            t.wf(),
            t.data@ == reduce(
                row_losses(
                    shifted@,
                    log_sums@,
                    weight_values(self.weight),
                    self.ignore_index,
                    prediction.shape@[1] as int,
                    target@,
                ),
                self.reduction,
            ),
            t.shape@ == if self.reduction == Reduction::Unreduced {
                seq![prediction.shape@[0]]
            } else {
                seq![1usize]
            },
            t.requires_grad,
            t.grad_fn is None,
            t.device == prediction.device,
            t.dtype == prediction.dtype,
    {
        let batch = prediction.shape[0];
        let classes = prediction.shape[1];
        proof {
            lemma_numel_2(prediction.shape@);
            lemma_len_fits(shifted);
        }
        let ghost expected = row_losses(
            shifted@,
            log_sums@,
            weight_values(self.weight),
            self.ignore_index,
            classes as int,
            target@,
        );
        let mut losses: Vec<T> = Vec::new();
        let mut b: usize = 0;
        while b < batch
            invariant
                b <= batch,
                self.wf(),
                batch == target@.len(),
                shifted@.len() == batch * classes,
                shifted@.len() <= usize::MAX,
                log_sums@.len() == batch,
                self.weight matches Some(w) ==> w.data@.len() == classes,
                targets_valid(target@, classes as int, self.ignore_index),
                expected == row_losses(
                    shifted@,
                    log_sums@,
                    weight_values(self.weight),
                    self.ignore_index,
                    classes as int,
                    target@,
                ),
                losses@.len() == b,
                forall|k: int| 0 <= k < b ==> #[trigger] losses@[k] == expected[k],
            decreases batch - b,
        {
            let t = target[b];
            let ignored = match self.ignore_index {
                Some(v) => v == t,
                None => false,
            };
            if ignored {
                losses.push(T::zero());
            } else {
                assert(0 <= target@[b as int] < classes);
                let class = t as usize;
                proof {
                    lemma_flat2_bound(b as int, class as int, batch as int, classes as int);
                }
                let log_probability = shifted[index2(b, class, classes)].minus(log_sums[b]);
                let negative = T::zero().minus(log_probability);
                let loss = match &self.weight {
                    Some(w) => negative.times(w.data[class]),
                    None => negative,
                };
                losses.push(loss);
            }
            b = b + 1;
        }
        assert(losses@ =~= expected);
        let reduced = reduce_losses(losses, self.reduction);
        let dims = match self.reduction {
            Reduction::Unreduced => shape1(batch),
            _ => shape1(1),
        };
        Tensor::new(reduced, dims, true, prediction.device, prediction.dtype)
    }

    /// The gradient with respect to the scores from the exponentials of the
    /// shifted scores and the sums of their rows.
    pub fn gradient_from_exps(
        &self,
        exps: &Vec<T>,
        sums: &Vec<T>,
        prediction: &Tensor<T>,
        target: &Vec<i64>,
    ) -> (t: Tensor<T>)
        requires
            self.wf(),
            prediction.wf(),
            self.validation(prediction, target@) is None,
            exps@.len() == prediction.data@.len(),
            sums@.len() == target@.len(),
        ensures
            t.wf(),
            t.shape@ == prediction.shape@,
            forall|b: int, c: int|
                0 <= b < prediction.shape@[0] && 0 <= c < prediction.shape@[1] ==> {
                    let at = #[trigger] flat2(b, c, prediction.shape@[1] as int);
                    &&& 0 <= at < t.data@.len()
                    &&& t.data@[at] == score_gradient(
                        exps@,
                        sums@,
                        weight_values(self.weight),
                        self.ignore_index,
                        self.reduction,
                        prediction.shape@[1] as int,
                        target@,
                        b,
                        c,
                    )
                },
            t.requires_grad,
            t.grad_fn is None,
            t.device == prediction.device,
            t.dtype == prediction.dtype,
    {
        let batch = prediction.shape[0];
        let classes = prediction.shape[1];
        proof {
            lemma_numel_2(prediction.shape@);
            lemma_len_fits(exps);
        }
        let averaged = match self.reduction {
            Reduction::Mean => true,
            _ => false,
        };
        let share = T::one().over(T::count(batch));
        let mut grad: Vec<T> = Vec::new();
        let mut b: usize = 0;
        while b < batch
            invariant
                b <= batch,
                self.wf(),
                batch == target@.len(),
                exps@.len() == batch * classes,
                exps@.len() <= usize::MAX,
                sums@.len() == batch,
                self.weight matches Some(w) ==> w.data@.len() == classes,
                targets_valid(target@, classes as int, self.ignore_index),
                averaged == (self.reduction == Reduction::Mean),
                share == T::one_spec().over_spec(T::count_spec(batch)),
                grad@.len() == b * classes,
                forall|b2: int, c2: int|
                    0 <= b2 && 0 <= c2 < classes && flat2(b2, c2, classes as int) < grad@.len()
                        ==> #[trigger] grad@[flat2(b2, c2, classes as int)] == score_gradient(
                        exps@,
                        sums@,
                        weight_values(self.weight),
                        self.ignore_index,
                        self.reduction,
                        classes as int,
                        target@,
                        b2,
                        c2,
                    ),
            decreases batch - b,
        {
            let t = target[b];
            let ignored = match self.ignore_index {
                Some(v) => v == t,
                None => false,
            };
            let mut c: usize = 0;
            while c < classes
                invariant
                    b < batch,
                    c <= classes,
                    self.wf(),
                    batch == target@.len(),
                    exps@.len() == batch * classes,
                    exps@.len() <= usize::MAX,
                    sums@.len() == batch,
                    self.weight matches Some(w) ==> w.data@.len() == classes,
                    targets_valid(target@, classes as int, self.ignore_index),
                    averaged == (self.reduction == Reduction::Mean),
                    share == T::one_spec().over_spec(T::count_spec(batch)),
                    t == target@[b as int],
                    ignored == is_ignored(self.ignore_index, t),
                    grad@.len() == b * classes + c,
                    forall|b2: int, c2: int|
                        0 <= b2 && 0 <= c2 < classes && flat2(b2, c2, classes as int) < grad@.len()
                            ==> #[trigger] grad@[flat2(b2, c2, classes as int)] == score_gradient(
                            exps@,
                            sums@,
                            weight_values(self.weight),
                            self.ignore_index,
                            self.reduction,
                            classes as int,
                            target@,
                            b2,
                            c2,
                        ),
                decreases classes - c,
            {
                let cell = if ignored {
                    T::zero()
                } else {
                    assert(0 <= target@[b as int] < classes);
                    let class = t as usize;
                    proof {
                        lemma_flat2_bound(b as int, c as int, batch as int, classes as int);
                    }
                    let probability = exps[index2(b, c, classes)].over(sums[b]);
                    let difference = if c == class {
                        probability.minus(T::one())
                    } else {
                        probability
                    };
                    let weighted = match &self.weight {
                        Some(w) => difference.times(w.data[class]),
                        None => difference,
                    };
                    if averaged {
                        weighted.times(share)
                    } else {
                        weighted
                    }
                };
                let ghost before = grad@;
                grad.push(cell);
                assert forall|b2: int, c2: int|
                    0 <= b2 && 0 <= c2 < classes && flat2(b2, c2, classes as int)
                        < grad@.len() implies #[trigger] grad@[flat2(b2, c2, classes as int)]
                    == score_gradient(
                    exps@,
                    sums@,
                    weight_values(self.weight),
                    self.ignore_index,
                    self.reduction,
                    classes as int,
                    target@,
                    b2,
                    c2,
                ) by {
                    lemma_flat2_order(b2, c2, b as int, c as int, classes as int);
                    if flat2(b2, c2, classes as int) < before.len() {
                        assert(grad@[flat2(b2, c2, classes as int)] == before[flat2(
                            b2,
                            c2,
                            classes as int,
                        )]);
                    }
                }
                c = c + 1;
            }
            assert(b * classes + classes == (b + 1) * classes) by (nonlinear_arith);
            b = b + 1;
        }
        assert forall|b2: int, c2: int| 0 <= b2 < batch && 0 <= c2 < classes implies 0
            <= #[trigger] flat2(b2, c2, classes as int) < grad@.len() by {
            lemma_flat2_bound(b2, c2, batch as int, classes as int);
        }
        Tensor::new(grad, copy_shape(&prediction.shape), true, prediction.device, prediction.dtype)
    }
}

impl<T: Transcendental> CrossEntropyLoss<T> {
    /// The cross entropy of `(batch, classes)` scores against one target
    /// class per row.
    ///
    /// The scores of each row are shifted by the row's maximum before the
    /// exponential is taken. Exponentials and logarithms are only
    /// approximations, so the loss is fixed up to them: it is
    /// `loss_from_logs` of the shifted scores and of some logarithm per row.
    pub fn forward(&self, prediction: &Tensor<T>, target: &Vec<i64>) -> (r: Result<
        Tensor<T>,
        BellandeError,
    >)
        requires
            self.wf(),
            prediction.wf(),
        ensures
            r is Ok <==> self.validation(prediction, target@) is None,
            r matches Err(e) ==> self.reports(prediction, target@, e),
            r matches Ok(t) ==> {
                &&& t.wf()
                &&& exists|log_sums: Seq<T>|
                    log_sums.len() == target@.len() && #[trigger] self.loss_of(
                        prediction,
                        target@,
                        log_sums,
                    ) == t.data@
                &&& t.shape@ == if self.reduction == Reduction::Unreduced {
                    seq![prediction.shape@[0]]
                } else {
                    seq![1usize]
                }
                &&& t.requires_grad
                &&& t.grad_fn is None
                &&& t.device == prediction.device
                &&& t.dtype == prediction.dtype
            },
    {
        match self.validate_input(prediction, target) {
            Ok(_) => {},
            Err(e) => {
                return Err(e);
            },
        }
        let batch = prediction.shape[0];
        let classes = prediction.shape[1];
        proof {
            lemma_numel_2(prediction.shape@);
        }
        let shifted = shift_scores(&prediction.data, batch, classes);
        let exps = exp_all(&shifted);
        let sums = sum_rows(&exps, batch, classes);
        let log_sums = ln_all(&sums);
        let t = self.loss_from_logs(&shifted, &log_sums, prediction, target);
        assert(self.loss_of(prediction, target@, log_sums@) == t.data@);
        Ok(t)
    }

    /// The gradient of the loss with respect to the scores: fixed up to
    /// the exponentials, it is `gradient_from_exps` of some exponential per
    /// score and of the sums of their rows.
    pub fn backward(&self, prediction: &Tensor<T>, target: &Vec<i64>) -> (r: Result<
        Tensor<T>,
        BellandeError,
    >)
        requires
            self.wf(),
            prediction.wf(),
        ensures
            r is Ok <==> self.validation(prediction, target@) is None,
            r matches Err(e) ==> self.reports(prediction, target@, e),
            r matches Ok(t) ==> {
                &&& t.wf()
                &&& t.shape@ == prediction.shape@
                &&& exists|exps: Seq<T>| #[trigger] self.gradient_is(prediction, target@, exps, t.data@)
                &&& t.requires_grad
                &&& t.grad_fn is None
                &&& t.device == prediction.device
                &&& t.dtype == prediction.dtype
            },
    {
        match self.validate_input(prediction, target) {
            Ok(_) => {},
            Err(e) => {
                return Err(e);
            },
        }
        let batch = prediction.shape[0];
        let classes = prediction.shape[1];
        proof {
            lemma_numel_2(prediction.shape@);
        }
        let shifted = shift_scores(&prediction.data, batch, classes);
        let exps = exp_all(&shifted);
        let sums = sum_rows(&exps, batch, classes);
        let t = self.gradient_from_exps(&exps, &sums, prediction, target);
        assert(self.gradient_is(prediction, target@, exps@, t.data@));
        Ok(t)
    }
}

} // verus!
