//! Optimizers: what they share, parameter groups and saved state.

pub mod adam;
pub mod rmsprop;
pub mod sgd;

use vstd::prelude::*;
use vstd::string::*;
use crate::error::BellandeError;
use crate::optim::adam::Adam;
use crate::optim::rmsprop::RMSprop;
use crate::optim::sgd::SGD;
use crate::scalar::Scalar;
use crate::tensor::{zeros_seq, Tensor};

verus! {

/// Every tensor of a parameter list is well formed.
pub open spec fn params_wf<T: Scalar>(params: Seq<Tensor<T>>) -> bool {
    forall|i: int| 0 <= i < params.len() ==> (#[trigger] params[i]).wf()
}

/// Whether every tensor is well formed.
pub fn all_wf<T: Scalar>(params: &Vec<Tensor<T>>) -> (r: bool)
    ensures
        r == params_wf(params@),
{
    let n = params.len();
    let mut i: usize = 0;
    while i < n
        invariant
            i <= n,
            n == params@.len(),
            forall|k: int| 0 <= k < i ==> (#[trigger] params@[k]).wf(),
        decreases n - i,
    {
        if !params[i].is_wf() {
            assert(!params@[i as int].wf());
            return false;
        }
        i = i + 1;
    }
    true
}

/// Whether `next` can take the place of `params` in an optimizer: it holds
/// as many tensors, each well formed and of the size of the one it
/// replaces.
pub open spec fn replaceable<T: Scalar>(params: Seq<Tensor<T>>, next: Seq<Tensor<T>>) -> bool {
    &&& next.len() == params.len()
    &&& forall|i: int|
        0 <= i < next.len() ==> (#[trigger] next[i]).wf() && next[i].data@.len()
            == params[i].data@.len()
}

pub fn is_replaceable<T: Scalar>(params: &Vec<Tensor<T>>, next: &Vec<Tensor<T>>) -> (r: bool)
    ensures
        r == replaceable(params@, next@),
{
    if next.len() != params.len() {
        return false;
    }
    let n = next.len();
    let mut i: usize = 0;
    while i < n
        invariant
            i <= n,
            n == next@.len(),
            n == params@.len(),
            forall|k: int|
                0 <= k < i ==> (#[trigger] next@[k]).wf() && next@[k].data@.len()
                    == params@[k].data@.len(),
        decreases n - i,
    {
        if !(next[i].is_wf() && next[i].data.len() == params[i].data.len()) {
            assert(!(next@[i as int].wf() && next@[i as int].data@.len()
                == params@[i as int].data@.len()));
            return false;
        }
        i = i + 1;
    }
    true
}

/// The error of parameters that cannot take the place of those an
/// optimizer was made for.
pub fn not_replaceable() -> (e: BellandeError)
    ensures
        e matches BellandeError::ShapeMismatch(_),
{
    BellandeError::ShapeMismatch(
        String::from_str("parameters differ from those the optimizer was made for"),
    )
}

/// A parameter after an update that touched only its elements: shape,
/// flags and gradient are those of before.
pub open spec fn same_but_data<T: Scalar>(before: Tensor<T>, after: Tensor<T>) -> bool {
    &&& after.shape@ == before.shape@
    &&& after.data@.len() == before.data@.len()
    &&& after.requires_grad == before.requires_grad
    &&& after.grad_fn == before.grad_fn
    &&& after.device == before.device
    &&& after.dtype == before.dtype
    &&& after.grad is Some == before.grad is Some
    &&& before.grad matches Some(g) ==> after.grad->0@ == g@
}

/// A parameter after its gradient was reset: elements, shape and flags are
/// those of before, and the gradient, where there is one, is zero.
pub open spec fn cleared<T: Scalar>(before: Tensor<T>, after: Tensor<T>) -> bool {
    &&& after.wf()
    &&& after.data@ == before.data@
    &&& after.shape@ == before.shape@
    &&& after.requires_grad == before.requires_grad
    &&& after.grad_fn == before.grad_fn
    &&& after.device == before.device
    &&& after.dtype == before.dtype
    &&& after.grad is Some == before.grad is Some
    &&& before.grad is Some ==> after.grad->0@ == zeros_seq::<T>(before.data@.len())
}

/// Resets the gradient of every parameter to zero, keeping the buffers.
pub fn zero_gradients<T: Scalar>(params: &mut Vec<Tensor<T>>)
    requires
        params_wf(old(params)@),
    ensures
        params_wf(final(params)@),
        final(params)@.len() == old(params)@.len(),
        forall|i: int|
            0 <= i < old(params)@.len() ==> cleared(old(params)@[i], #[trigger] final(params)@[i]),
{
    let n = params.len();
    let mut i: usize = 0;
    while i < n
        invariant
            i <= n,
            n == params@.len(),
            n == old(params)@.len(),
            forall|k: int| 0 <= k < i ==> cleared(old(params)@[k], #[trigger] params@[k]),
            forall|k: int| i <= k < n ==> params@[k] == old(params)@[k],
            params_wf(old(params)@),
        decreases n - i,
    {
        params[i].zero_grad();
        i = i + 1;
    }
}

/// What every optimizer offers: a step over the parameters it was made
/// with, the resetting of their gradients, and its learning rate.
pub trait Optimizer<T: Scalar> {
    /// The optimizer's own invariant.
    spec fn ready(&self) -> bool;

    spec fn learning_rate(&self) -> T;

    fn step(&mut self) -> (r: Result<(), BellandeError>)
        requires
            old(self).ready(),
        ensures
            final(self).ready(),
            final(self).learning_rate() == old(self).learning_rate(),
    ;

    fn zero_grad(&mut self)
        requires
            old(self).ready(),
        ensures
            final(self).ready(),
            final(self).learning_rate() == old(self).learning_rate(),
    ;

    fn get_learning_rate(&self) -> (r: T)
        ensures
            r == self.learning_rate(),
    ;

    fn set_learning_rate(&mut self, lr: T)
        requires
            old(self).ready(),
        ensures
            final(self).ready(),
            final(self).learning_rate() == lr,
    ;

    /// The name of the optimizer.
    fn name(&self) -> &'static str;
}

impl<T: Scalar> Optimizer<T> for SGD<T> {
    open spec fn ready(&self) -> bool {
        self.wf()
    }

    open spec fn learning_rate(&self) -> T {
        self.lr
    }

    fn step(&mut self) -> (r: Result<(), BellandeError>)
        ensures
            crate::optim::sgd::stepped(*old(self), *final(self), r),
    {
        SGD::step(self)
    }

    fn zero_grad(&mut self)
        ensures
            crate::optim::sgd::gradients_reset(*old(self), *final(self)),
    {
        SGD::zero_grad(self)
    }

    fn get_learning_rate(&self) -> (r: T) {
        self.lr
    }

    fn set_learning_rate(&mut self, lr: T) {
        self.lr = lr;
    }

    fn name(&self) -> (r: &'static str)
        ensures
            r@ == "SGD"@,
    {
        "SGD"
    }
}

impl<T: Scalar> Optimizer<T> for Adam<T> {
    open spec fn ready(&self) -> bool {
        self.wf()
    }

    open spec fn learning_rate(&self) -> T {
        self.lr
    }

    fn step(&mut self) -> (r: Result<(), BellandeError>)
        ensures
            crate::optim::adam::stepped(*old(self), *final(self), r),
    {
        Adam::step(self)
    }

    fn zero_grad(&mut self)
        ensures
            crate::optim::adam::gradients_reset(*old(self), *final(self)),
    {
        Adam::zero_grad(self)
    }

    fn get_learning_rate(&self) -> (r: T) {
        self.lr
    }

    fn set_learning_rate(&mut self, lr: T) {
        self.lr = lr;
    }

    fn name(&self) -> (r: &'static str)
        ensures
            r@ == "Adam"@,
    {
        "Adam"
    }
}

impl<T: Scalar> Optimizer<T> for RMSprop<T> {
    open spec fn ready(&self) -> bool {
        self.wf()
    }

    open spec fn learning_rate(&self) -> T {
        self.lr
    }

    fn step(&mut self) -> (r: Result<(), BellandeError>)
        ensures
            crate::optim::rmsprop::stepped(*old(self), *final(self), r),
    {
        RMSprop::step(self)
    }

    fn zero_grad(&mut self)
        ensures
            crate::optim::rmsprop::gradients_reset(*old(self), *final(self)),
    {
        RMSprop::zero_grad(self)
    }

    fn get_learning_rate(&self) -> (r: T) {
        self.lr
    }

    fn set_learning_rate(&mut self, lr: T) {
        self.lr = lr;
    }

    fn name(&self) -> (r: &'static str)
        ensures
            r@ == "RMSprop"@,
    {
        "RMSprop"
    }
}

/// A schedule of learning rates: told the epoch and the metrics of the
/// epoch, it says which learning rate comes next.
pub trait LearningRateScheduler<T> {
    fn step(&mut self, epoch: usize, metrics: &Vec<(String, T)>) -> Result<(), BellandeError>;

    fn get_last_lr(&self) -> T;

    fn name(&self) -> &'static str;
}

/// A group of parameters with the settings they are optimized with.
pub struct ParameterGroup<T> {
    pub params: Vec<Tensor<T>>,
    pub lr: T,
    pub weight_decay: T,
    pub momentum: Option<T>,
    pub betas: Option<(T, T)>,
    pub eps: T,
}

impl<T: Scalar> ParameterGroup<T> {
    /// A group with the given learning rate and `eps`, without weight
    /// decay, momentum or betas.
    pub fn new(params: Vec<Tensor<T>>, lr: T, eps: T) -> (r: Self)
        ensures
            r.params == params,
            r.lr == lr,
            r.weight_decay == T::zero_spec(),
            r.momentum is None,
            r.betas is None,
            r.eps == eps,
    {
        ParameterGroup { params, lr, weight_decay: T::zero(), momentum: None, betas: None, eps }
    }

    pub fn with_lr(self, lr: T) -> (r: Self)
        ensures
            r.lr == lr,
            r.params == self.params,
            r.weight_decay == self.weight_decay,
            r.momentum == self.momentum,
            r.betas == self.betas,
            r.eps == self.eps,
    {
        let mut next = self;
        next.lr = lr;
        next
    }

    pub fn with_weight_decay(self, weight_decay: T) -> (r: Self)
        ensures
            r.weight_decay == weight_decay,
            r.params == self.params,
            r.lr == self.lr,
            r.momentum == self.momentum,
            r.betas == self.betas,
            r.eps == self.eps,
    {
        let mut next = self;
        next.weight_decay = weight_decay;
        next
    }

    pub fn with_momentum(self, momentum: T) -> (r: Self)
        ensures
            r.momentum == Some(momentum),
            r.params == self.params,
            r.lr == self.lr,
            r.weight_decay == self.weight_decay,
            r.betas == self.betas,
            r.eps == self.eps,
    {
        let mut next = self;
        next.momentum = Some(momentum);
        next
    }

    pub fn with_betas(self, beta1: T, beta2: T) -> (r: Self)
        ensures
            r.betas == Some((beta1, beta2)),
            r.params == self.params,
            r.lr == self.lr,
            r.weight_decay == self.weight_decay,
            r.momentum == self.momentum,
            r.eps == self.eps,
    {
        let mut next = self;
        next.betas = Some((beta1, beta2));
        next
    }

    pub fn with_eps(self, eps: T) -> (r: Self)
        ensures
            r.eps == eps,
            r.params == self.params,
            r.lr == self.lr,
            r.weight_decay == self.weight_decay,
            r.momentum == self.momentum,
            r.betas == self.betas,
    {
        let mut next = self;
        next.eps = eps;
        next
    }
}

/// One named value of the state of an optimizer.
pub struct StateEntry<T> {
    pub key: String,
    pub value: Tensor<T>,
}

/// The state of an optimizer: its step count and its named values.
pub struct OptimizerState<T> {
    pub step: usize,
    pub state_dict: Vec<StateEntry<T>>,
}

/// The position of the entry of the given key among the entries from
/// `from` on, if there is one.
pub open spec fn entry_at<T: Scalar>(entries: Seq<StateEntry<T>>, key: Seq<char>, from: int) -> Option<
    int,
>
    decreases entries.len() - from,
{
    if from < 0 || from >= entries.len() {
        None
    } else if entries[from].key@ == key {
        Some(from)
    } else {
        entry_at(entries, key, from + 1)
    }
}

impl<T: Scalar> OptimizerState<T> {
    pub fn new() -> (r: Self)
        ensures
            r.step == 0,
            r.state_dict@.len() == 0,
    {
        OptimizerState { step: 0, state_dict: Vec::new() }
    }

    /// Counts one step.
    pub fn increment_step(&mut self)
        requires
            old(self).step < usize::MAX,
        ensures
            final(self).step == old(self).step + 1,
            final(self).state_dict == old(self).state_dict,
    {
        self.step = self.step + 1;
    }

    fn locate(&self, key: &String) -> (r: Option<usize>)
        ensures
            match r {
                Some(k) => entry_at(self.state_dict@, key@, 0) == Some(k as int) && k
                    < self.state_dict@.len() && self.state_dict@[k as int].key@ == key@,
                None => entry_at(self.state_dict@, key@, 0) is None,
            },
    {
        let n = self.state_dict.len();
        let mut k: usize = 0;
        while k < n
            invariant
                k <= n,
                n == self.state_dict@.len(),
                entry_at(self.state_dict@, key@, 0) == entry_at(self.state_dict@, key@, k as int),
            decreases n - k,
        {
            if self.state_dict[k].key == *key {
                return Some(k);
            }
            k = k + 1;
        }
        None
    }

    /// The value under the given key.
    pub fn get_state(&self, key: &str) -> (r: Option<&Tensor<T>>)
        ensures
            match entry_at(self.state_dict@, key@, 0) {
                Some(k) => r matches Some(t) && *t == self.state_dict@[k].value,
                None => r is None,
            },
    {
        let owned = key.to_owned();
        match self.locate(&owned) {
            Some(k) => Some(&self.state_dict[k].value),
            None => None,
        }
    }

    /// Puts a value under a key, in place of the value that was there.
    pub fn set_state(&mut self, key: String, value: Tensor<T>)
        ensures
            final(self).step == old(self).step,
            match entry_at(old(self).state_dict@, key@, 0) {
                Some(k) => {
                    &&& final(self).state_dict@.len() == old(self).state_dict@.len()
                    &&& final(self).state_dict@[k].key@ == key@
                    &&& final(self).state_dict@[k].value == value
                    &&& forall|i: int|
                        0 <= i < old(self).state_dict@.len() && i != k ==> final(self).state_dict@[i] == old(self).state_dict@[i]
                },
                None => {
                    &&& final(self).state_dict@.len() == old(self).state_dict@.len() + 1
                    &&& final(self).state_dict@.last().key@ == key@
                    &&& final(self).state_dict@.last().value == value
                    &&& forall|i: int|
                        0 <= i < old(self).state_dict@.len() ==> final(self).state_dict@[i] == old(self).state_dict@[i]
                },
            },
    {
        match self.locate(&key) {
            Some(k) => {
                self.state_dict[k].value = value;
            },
            None => {
                self.state_dict.push(StateEntry { key, value });
            },
        }
    }
}

/// The gradient with `weight_decay` times the parameter added.
pub open spec fn decayed_gradient<T: Scalar>(grad: Seq<T>, data: Seq<T>, weight_decay: T) -> Seq<T> {
    Seq::new(grad.len(), |i: int| grad[i].plus_spec(weight_decay.times_spec(data[i])))
}

/// Adds `weight_decay` times the parameter to its gradient. A decay that
/// equals zero changes nothing.
///
/// Fails with `NoGradients`, changing nothing, when the decay does not
/// equal zero and the parameter has no gradient.
pub fn apply_weight_decay<T: Scalar>(param: &mut Tensor<T>, weight_decay: T) -> (r: Result<
    (),
    BellandeError,
>)
    requires
        old(param).wf(),
    ensures
        final(param).wf(),
        same_but_grad(*old(param), *final(param)),
        weight_decay.equals_spec(T::zero_spec()) ==> r is Ok && final(param).grad == old(param).grad,
        !weight_decay.equals_spec(T::zero_spec()) ==> match old(param).grad {
            Some(g) => r is Ok && final(param).grad is Some && final(param).grad->0@
                == decayed_gradient(g@, old(param).data@, weight_decay),
            None => r == Err::<(), BellandeError>(BellandeError::NoGradients) && final(param).grad
                is None,
        },
{
    if weight_decay.equals(T::zero()) {
        return Ok(());
    }
    let n = param.data.len();
    let mut next: Vec<T> = Vec::new();
    match &param.grad {
        Some(g) => {
            let mut i: usize = 0;
            while i < n
                invariant
                    i <= n,
                    n == param.data@.len(),
                    n == g@.len(),
                    next@.len() == i,
                    forall|k: int|
                        0 <= k < i ==> next@[k] == decayed_gradient(
                            g@,
                            param.data@,
                            weight_decay,
                        )[k],
                decreases n - i,
            {
                next.push(g[i].plus(weight_decay.times(param.data[i])));
                i = i + 1;
            }
            assert(next@ =~= decayed_gradient(g@, param.data@, weight_decay));
        },
        None => {
            return Err(BellandeError::NoGradients);
        },
    }
    param.grad = Some(next);
    Ok(())
}

/// A parameter after an update that touched only its gradient.
pub open spec fn same_but_grad<T: Scalar>(before: Tensor<T>, after: Tensor<T>) -> bool {
    &&& after.data@ == before.data@
    &&& after.shape@ == before.shape@
    &&& after.requires_grad == before.requires_grad
    &&& after.grad_fn == before.grad_fn
    &&& after.device == before.device
    &&& after.dtype == before.dtype
}

/// The factor that brings gradients of norm `total_norm` down to
/// `max_norm`: `max_norm / (total_norm + guard)`, where the guard keeps the
/// divisor away from zero.
pub open spec fn clip_scale<T: Scalar>(total_norm: T, max_norm: T, guard: T) -> T {
    max_norm.over_spec(total_norm.plus_spec(guard))
}

/// Every element times `scale`.
pub open spec fn scaled_by<T: Scalar>(g: Seq<T>, scale: T) -> Seq<T> {
    Seq::new(g.len(), |i: int| g[i].times_spec(scale))
}

/// What clipping makes of a parameter: its gradient, if it has one, is
/// scaled where the norm exceeds the limit and left as it is otherwise;
/// nothing else changes.
pub open spec fn clipped<T: Scalar>(
    before: Tensor<T>,
    after: Tensor<T>,
    total_norm: T,
    max_norm: T,
    guard: T,
) -> bool {
    &&& same_but_grad(before, after)
    &&& after.grad is Some == before.grad is Some
    &&& before.grad matches Some(g) ==> after.grad->0@ == if total_norm.exceeds_spec(max_norm) {
        scaled_by(g@, clip_scale(total_norm, max_norm, guard))
    } else {
        g@
    }
}

/// Scales the gradients of the parameters, whose norm is `total_norm`, so
/// that their norm does not exceed `max_norm`: where it does, every
/// gradient element is multiplied by `max_norm / (total_norm + guard)`.
/// Returns the norm the gradients had.
pub fn clip_gradients<T: Scalar>(
    parameters: &mut Vec<Tensor<T>>,
    total_norm: T,
    max_norm: T,
    guard: T,
) -> (r: T)
    requires
        params_wf(old(parameters)@),
    ensures
        r == total_norm,
        params_wf(final(parameters)@),
        final(parameters)@.len() == old(parameters)@.len(),
        forall|i: int|
            0 <= i < old(parameters)@.len() ==> clipped(
                old(parameters)@[i],
                #[trigger] final(parameters)@[i],
                total_norm,
                max_norm,
                guard,
            ),
{
    if !total_norm.exceeds(max_norm) {
        return total_norm;
    }
    let scale = max_norm.over(total_norm.plus(guard));
    let n = parameters.len();
    let mut i: usize = 0;
    while i < n
        invariant
            i <= n,
            n == parameters@.len(),
            n == old(parameters)@.len(),
            params_wf(old(parameters)@),
            total_norm.exceeds_spec(max_norm),
            scale == clip_scale(total_norm, max_norm, guard),
            forall|k: int|
                0 <= k < i ==> (#[trigger] parameters@[k]).wf() && clipped(
                    old(parameters)@[k],
                    parameters@[k],
                    total_norm,
                    max_norm,
                    guard,
                ),
            forall|k: int| i <= k < n ==> parameters@[k] == old(parameters)@[k],
        decreases n - i,
    {
        let ghost before = parameters@[i as int];
        assert(before.wf());
        let scaled = match &parameters[i].grad {
            Some(g) => {
                let len = g.len();
                let mut next: Vec<T> = Vec::new();
                let mut j: usize = 0;
                while j < len
                    invariant
                        j <= len,
                        len == g@.len(),
                        next@.len() == j,
                        forall|k: int| 0 <= k < j ==> next@[k] == scaled_by(g@, scale)[k],
                    decreases len - j,
                {
                    next.push(g[j].times(scale));
                    j = j + 1;
                }
                assert(next@ =~= scaled_by(g@, scale));
                Some(next)
            },
            None => None,
        };
        parameters[i].grad = scaled;
        i = i + 1;
    }
    total_norm
}

} // verus!
