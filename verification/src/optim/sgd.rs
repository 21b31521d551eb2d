//! Stochastic gradient descent with weight decay, momentum and Nesterov
//! lookahead.

use vstd::prelude::*;
use crate::error::BellandeError;
use crate::kernels::filled;
use crate::optim::{
    cleared, is_replaceable, not_replaceable, params_wf, replaceable, same_but_data, zero_gradients,
};
use crate::scalar::Scalar;
use crate::tensor::{zeros_seq, Tensor};

verus! {

/// Stochastic gradient descent with optional weight decay, momentum and
/// Nesterov lookahead. The velocity of a parameter is kept at the
/// parameter's position in the list the optimizer was made with.
pub struct SGD<T> {
    pub params: Vec<Tensor<T>>,
    pub lr: T,
    pub momentum: T,
    pub weight_decay: T,
    pub nesterov: bool,
    pub velocity: Vec<Vec<T>>,
}

/// The gradient with weight decay applied: `g + weight_decay * p`, or `g`
/// itself where the decay equals zero.
pub open spec fn decayed<T: Scalar>(g: T, p: T, weight_decay: T) -> T {
    if weight_decay.equals_spec(T::zero_spec()) {
        g
    } else {
        g.plus_spec(weight_decay.times_spec(p))
    }
}

/// The velocity after a step: `momentum * v + d`.
pub open spec fn next_velocity<T: Scalar>(v: T, d: T, momentum: T) -> T {
    momentum.times_spec(v).plus_spec(d)
}

/// The direction of a step with momentum: the new velocity, or with
/// Nesterov lookahead `d + momentum * v`.
pub open spec fn momentum_direction<T: Scalar>(d: T, v: T, momentum: T, nesterov: bool) -> T {
    if nesterov {
        d.plus_spec(momentum.times_spec(v))
    } else {
        v
    }
}

/// A parameter element after a step along `direction`: `p - lr * direction`.
pub open spec fn descend<T: Scalar>(p: T, lr: T, direction: T) -> T {
    p.minus_spec(lr.times_spec(direction))
}

/// What a step makes of the optimizer `earlier`: the optimizer `later` and
/// the result `r`.
pub open spec fn stepped<T: Scalar>(
    earlier: SGD<T>,
    later: SGD<T>,
    r: Result<(), BellandeError>,
) -> bool {
    &&& r is Ok
    &&& later.wf()
    &&& later.lr == earlier.lr
    &&& later.momentum == earlier.momentum
    &&& later.weight_decay == earlier.weight_decay
    &&& later.nesterov == earlier.nesterov
    &&& later.params@.len() == earlier.params@.len()
    &&& later.velocity@.len() == earlier.velocity@.len()
    &&& forall|idx: int|
        0 <= idx < earlier.params@.len() ==> {
            let before = earlier.params@[idx];
            let after = #[trigger] later.params@[idx];
            &&& same_but_data(before, after)
            &&& before.grad is None ==> after.data@ == before.data@
            &&& before.grad is Some ==> forall|i: int|
                0 <= i < before.data@.len() ==> #[trigger] after.data@[i] == earlier.element_after(idx, i)
        }
    &&& earlier.uses_momentum() ==> forall|idx: int|
        0 <= idx < earlier.params@.len() ==> {
            let before = earlier.velocity@[idx];
            let after = #[trigger] later.velocity@[idx];
            &&& after@.len() == before@.len()
            &&& earlier.params@[idx].grad is None ==> after@ == before@
            &&& earlier.params@[idx].grad is Some ==> forall|i: int|
                0 <= i < before@.len() ==> #[trigger] after@[i] == earlier.velocity_after(
                    idx,
                    i,
                )
        }
}

/// What resetting the gradients makes of the optimizer `earlier`: every
/// gradient is zero, and nothing else has changed.
pub open spec fn gradients_reset<T: Scalar>(earlier: SGD<T>, later: SGD<T>) -> bool {
    &&& later.wf()
    &&& later.lr == earlier.lr
    &&& later.momentum == earlier.momentum
    &&& later.weight_decay == earlier.weight_decay
    &&& later.nesterov == earlier.nesterov
    &&& later.velocity == earlier.velocity
    &&& later.params@.len() == earlier.params@.len()
    &&& forall|i: int|
        0 <= i < earlier.params@.len() ==> cleared(
            earlier.params@[i],
            #[trigger] later.params@[i],
        )
}

impl<T: Scalar> SGD<T> {
    pub open spec fn uses_momentum(&self) -> bool {
        self.momentum.exceeds_spec(T::zero_spec())
    }

    /// The parameters are well formed and, with momentum, every parameter
    /// has a velocity of its own length.
    pub open spec fn wf(&self) -> bool {
        &&& params_wf(self.params@)
        &&& self.uses_momentum() ==> self.velocity@.len() == self.params@.len()
        &&& self.uses_momentum() ==> forall|i: int|
            0 <= i < self.params@.len() ==> (#[trigger] self.velocity@[i])@.len()
                == self.params@[i].data@.len()
        &&& !self.uses_momentum() ==> self.velocity@.len() == 0
    }

    /// The velocity of element `i` of parameter `idx` after a step.
    pub open spec fn velocity_after(&self, idx: int, i: int) -> T {
        let p = self.params@[idx];
        next_velocity(
            self.velocity@[idx]@[i],
            decayed(p.grad->0@[i], p.data@[i], self.weight_decay),
            self.momentum,
        )
    }

    /// Element `i` of parameter `idx` after a step.
    pub open spec fn element_after(&self, idx: int, i: int) -> T {
        let p = self.params@[idx];
        let d = decayed(p.grad->0@[i], p.data@[i], self.weight_decay);
        if self.uses_momentum() {
            descend(
                p.data@[i],
                self.lr,
                momentum_direction(d, self.velocity_after(idx, i), self.momentum, self.nesterov),
            )
        } else {
            descend(p.data@[i], self.lr, d)
        }
    }

    /// An optimizer for `params`, with zero velocities where momentum is
    /// used.
    pub fn new(params: Vec<Tensor<T>>, lr: T, momentum: T, weight_decay: T, nesterov: bool) -> (r:
        Self)
        requires
            params_wf(params@),
        ensures
            r.wf(),
            r.params@ == params@,
            r.lr == lr,
            r.momentum == momentum,
            r.weight_decay == weight_decay,
            r.nesterov == nesterov,
            r.uses_momentum() ==> forall|i: int|
                0 <= i < params@.len() ==> (#[trigger] r.velocity@[i])@ == zeros_seq::<T>(
                    params@[i].data@.len(),
                ),
    {
        let mut velocity: Vec<Vec<T>> = Vec::new();
        if momentum.exceeds(T::zero()) {
            let n = params.len();
            let mut i: usize = 0;
            while i < n
                invariant
                    i <= n,
                    n == params@.len(),
                    velocity@.len() == i,
                    forall|k: int|
                        0 <= k < i ==> (#[trigger] velocity@[k])@ == zeros_seq::<T>(
                            params@[k].data@.len(),
                        ),
                decreases n - i,
            {
                let buffer = filled(T::zero(), params[i].data.len());
                assert(buffer@ =~= zeros_seq::<T>(params@[i as int].data@.len()));
                velocity.push(buffer);
                i = i + 1;
            }
        }
        SGD { params, lr, momentum, weight_decay, nesterov, velocity }
    }

    /// Updates every parameter that has a gradient, element by element:
    /// the gradient, with weight decay added, passes through the velocity
    /// where momentum is used, and the parameter moves against it by `lr`.
    /// A parameter without a gradient is left untouched, and so is its
    /// velocity.
    pub fn step(&mut self) -> (r: Result<(), BellandeError>)
        requires
            old(self).wf(),
        ensures
            stepped(*old(self), *final(self), r),
    {
        let n = self.params.len();
        let with_momentum = self.momentum.exceeds(T::zero());
        let with_decay = !self.weight_decay.equals(T::zero());
        let mut idx: usize = 0;
        while idx < n
            invariant
                idx <= n,
                n == old(self).params@.len(),
                old(self).wf(),
                self.wf(),
                self.lr == old(self).lr,
                self.momentum == old(self).momentum,
                self.weight_decay == old(self).weight_decay,
                self.nesterov == old(self).nesterov,
                with_momentum == old(self).uses_momentum(),
                with_decay == !old(self).weight_decay.equals_spec(T::zero_spec()),
                self.params@.len() == n,
                self.velocity@.len() == old(self).velocity@.len(),
                forall|k: int| idx <= k < n ==> self.params@[k] == old(self).params@[k],
                with_momentum ==> forall|k: int|
                    idx <= k < n ==> self.velocity@[k] == old(self).velocity@[k],
                forall|k: int|
                    0 <= k < idx ==> {
                        let before = old(self).params@[k];
                        let after = #[trigger] self.params@[k];
                        &&& same_but_data(before, after)
                        &&& before.grad is None ==> after.data@ == before.data@
                        &&& before.grad is Some ==> forall|i: int|
                            0 <= i < before.data@.len() ==> #[trigger] after.data@[i] == old(self).element_after(k, i)
                    },
                with_momentum ==> forall|k: int|
                    0 <= k < idx ==> {
                        let before = old(self).velocity@[k];
                        let after = #[trigger] self.velocity@[k];
                        &&& after@.len() == before@.len()
                        &&& old(self).params@[k].grad is None ==> after@ == before@
                        &&& old(self).params@[k].grad is Some ==> forall|i: int|
                            0 <= i < before@.len() ==> #[trigger] after@[i] == old(self).velocity_after(k, i)
                    },
            decreases n - idx,
        {
            if self.params[idx].grad.is_some() {
                let len = self.params[idx].data.len();
                let mut i: usize = 0;
                while i < len
                    invariant
                        i <= len,
                        idx < n,
                        n == old(self).params@.len(),
                        old(self).wf(),
                        self.lr == old(self).lr,
                        self.momentum == old(self).momentum,
                        self.weight_decay == old(self).weight_decay,
                        self.nesterov == old(self).nesterov,
                        with_momentum == old(self).uses_momentum(),
                        with_decay == !old(self).weight_decay.equals_spec(T::zero_spec()),
                        self.params@.len() == n,
                        self.velocity@.len() == old(self).velocity@.len(),
                        old(self).params@[idx as int].grad is Some,
                        len == old(self).params@[idx as int].data@.len(),
                        same_but_data(old(self).params@[idx as int], self.params@[idx as int]),
                        forall|k: int| idx < k < n ==> self.params@[k] == old(self).params@[k],
                        forall|k: int|
                            0 <= k < idx ==> {
                                let before = old(self).params@[k];
                                let after = #[trigger] self.params@[k];
                                &&& same_but_data(before, after)
                                &&& before.grad is None ==> after.data@ == before.data@
                                &&& before.grad is Some ==> forall|j: int|
                                    0 <= j < before.data@.len() ==> #[trigger] after.data@[j]
                                        == old(self).element_after(k, j)
                            },
                        with_momentum ==> forall|k: int|
                            idx < k < n ==> self.velocity@[k] == old(self).velocity@[k],
                        with_momentum ==> forall|k: int|
                            0 <= k < idx ==> {
                                let before = old(self).velocity@[k];
                                let after = #[trigger] self.velocity@[k];
                                &&& after@.len() == before@.len()
                                &&& old(self).params@[k].grad is None ==> after@ == before@
                                &&& old(self).params@[k].grad is Some ==> forall|j: int|
                                    0 <= j < before@.len() ==> #[trigger] after@[j] == old(self).velocity_after(k, j)
                            },
                        with_momentum ==> self.velocity@[idx as int]@.len() == len,
                        forall|j: int|
                            0 <= j < i ==> #[trigger] self.params@[idx as int].data@[j] == old(self).element_after(idx as int, j),
                        forall|j: int|
                            i <= j < len ==> #[trigger] self.params@[idx as int].data@[j] == old(self).params@[idx as int].data@[j],
                        with_momentum ==> forall|j: int|
                            0 <= j < i ==> #[trigger] self.velocity@[idx as int]@[j] == old(self).velocity_after(idx as int, j),
                        with_momentum ==> forall|j: int|
                            i <= j < len ==> #[trigger] self.velocity@[idx as int]@[j] == old(self).velocity@[idx as int]@[j],
                    decreases len - i,
                {
                    let p = self.params[idx].data[i];
                    let g = match &self.params[idx].grad {
                        Some(g) => g[i],
                        None => T::zero(),
                    };
                    let mut d = g;
                    if with_decay {
                        d = d.plus(self.weight_decay.times(p));
                    }
                    if with_momentum {
                        let v = self.momentum.times(self.velocity[idx][i]).plus(d);
                        self.velocity[idx][i] = v;
                        if self.nesterov {
                            d = d.plus(self.momentum.times(v));
                        } else {
                            d = v;
                        }
                    }
                    self.params[idx].data[i] = p.minus(self.lr.times(d));
                    i = i + 1;
                }
            }
            idx = idx + 1;
        }
        Ok(())
    }

    /// Hands the optimizer its parameters as they are now, with their
    /// gradients, in the order it was made with. The buffers stay with the
    /// positions they belong to.
    ///
    /// Fails with `ShapeMismatch`, changing nothing, where the number of
    /// parameters or the size of one differs from what the optimizer was
    /// made for.
    pub fn rebind(&mut self, params: Vec<Tensor<T>>) -> (r: Result<(), BellandeError>)
        requires
            old(self).wf(),
        ensures
            final(self).wf(),
            final(self).lr == old(self).lr,
            final(self).momentum == old(self).momentum,
            final(self).weight_decay == old(self).weight_decay,
            final(self).nesterov == old(self).nesterov,
            final(self).velocity == old(self).velocity,
            replaceable(old(self).params@, params@) ==> r is Ok && final(self).params@ == params@,
            !replaceable(old(self).params@, params@) ==> (r matches Err(
                BellandeError::ShapeMismatch(_),
            )) && final(self).params == old(self).params,
    {
        if !is_replaceable(&self.params, &params) {
            return Err(not_replaceable());
        }
        self.params = params;
        Ok(())
    }

    /// Resets the gradient of every parameter to zero, keeping the buffers.
    pub fn zero_grad(&mut self)
        requires
            old(self).wf(),
        ensures
            gradients_reset(*old(self), *final(self)),
    {
        zero_gradients(&mut self.params);
    }
}

/// A step without weight decay and without momentum leaves an element
/// whose gradient is zero as it is, provided that the learning rate times
/// zero is zero and that the element less zero is the element.
pub proof fn lemma_zero_gradient_keeps_element<T: Scalar>(opt: SGD<T>, idx: int, i: int)
    requires
        opt.wf(),
        0 <= idx < opt.params@.len(),
        opt.params@[idx].grad is Some,
        0 <= i < opt.params@[idx].data@.len(),
        opt.params@[idx].grad->0@[i] == T::zero_spec(),
        opt.weight_decay.equals_spec(T::zero_spec()),
        !opt.uses_momentum(),
        opt.lr.times_spec(T::zero_spec()) == T::zero_spec(),
        opt.params@[idx].data@[i].minus_spec(T::zero_spec()) == opt.params@[idx].data@[i],
    ensures
        opt.element_after(idx, i) == opt.params@[idx].data@[i],
{
}

/// The same holds with momentum while the velocity is zero, provided also
/// that the momentum times zero is zero and that zero plus zero is zero;
/// the velocity then stays zero.
pub proof fn lemma_zero_gradient_keeps_element_at_rest<T: Scalar>(opt: SGD<T>, idx: int, i: int)
    requires
        opt.wf(),
        0 <= idx < opt.params@.len(),
        opt.params@[idx].grad is Some,
        0 <= i < opt.params@[idx].data@.len(),
        opt.params@[idx].grad->0@[i] == T::zero_spec(),
        opt.weight_decay.equals_spec(T::zero_spec()),
        opt.uses_momentum(),
        opt.velocity@[idx]@[i] == T::zero_spec(),
        opt.lr.times_spec(T::zero_spec()) == T::zero_spec(),
        opt.momentum.times_spec(T::zero_spec()) == T::zero_spec(),
        T::zero_spec().plus_spec(T::zero_spec()) == T::zero_spec(),
        opt.params@[idx].data@[i].minus_spec(T::zero_spec()) == opt.params@[idx].data@[i],
    ensures
        opt.velocity_after(idx, i) == T::zero_spec(),
        opt.element_after(idx, i) == opt.params@[idx].data@[i],
{
}

/// Over the integers the provisos hold: a step without weight decay and
/// without momentum leaves an element whose gradient is zero as it is.
pub proof fn lemma_zero_gradient_keeps_integer(opt: SGD<i64>, idx: int, i: int)
    requires
        opt.wf(),
        0 <= idx < opt.params@.len(),
        opt.params@[idx].grad is Some,
        0 <= i < opt.params@[idx].data@.len(),
        opt.params@[idx].grad->0@[i] == 0,
        opt.weight_decay == 0,
        !opt.uses_momentum(),
    ensures
        opt.element_after(idx, i) == opt.params@[idx].data@[i],
{
    lemma_zero_gradient_keeps_element(opt, idx, i);
}

/// Whether every element is zero.
pub open spec fn all_zero(s: Seq<i64>) -> bool {
    forall|i: int| 0 <= i < s.len() ==> #[trigger] s[i] == 0
}

/// Whether an optimizer over the integers is at rest: it uses no weight
/// decay, every parameter has a gradient that is zero, and with momentum
/// every velocity is zero.
pub open spec fn at_rest(opt: SGD<i64>) -> bool {
    &&& opt.weight_decay == 0
    &&& forall|idx: int|
        0 <= idx < opt.params@.len() ==> (#[trigger] opt.params@[idx]).grad is Some && all_zero(
            opt.params@[idx].grad->0@,
        )
    &&& opt.uses_momentum() ==> forall|idx: int|
        0 <= idx < opt.params@.len() ==> all_zero(#[trigger] opt.velocity@[idx]@)
}

/// Over the integers, a step of an optimizer at rest leaves the elements of
/// every parameter as they are and the optimizer at rest, so that any
/// number of such steps leaves them as they are.
pub proof fn lemma_step_at_rest(earlier: SGD<i64>, later: SGD<i64>, r: Result<(), BellandeError>)
    requires
        earlier.wf(),
        at_rest(earlier),
        stepped(earlier, later, r),
    ensures
        r is Ok,
        later.wf(),
        at_rest(later),
        later.params@.len() == earlier.params@.len(),
        forall|idx: int|
            0 <= idx < earlier.params@.len() ==> (#[trigger] later.params@[idx]).data@
                == earlier.params@[idx].data@,
{
    assert forall|idx: int| 0 <= idx < earlier.params@.len() implies (#[trigger] later.params@[idx]).data@
        == earlier.params@[idx].data@ && later.params@[idx].grad is Some && all_zero(
        later.params@[idx].grad->0@,
    ) by {
        let before = earlier.params@[idx];
        let after = later.params@[idx];
        assert(before.wf());
        assert(same_but_data(before, after));
        assert forall|i: int| 0 <= i < before.data@.len() implies after.data@[i]
            == before.data@[i] by {
            assert(before.grad->0@[i] == 0);
            assert(after.data@[i] == earlier.element_after(idx, i));
            if earlier.uses_momentum() {
                assert(earlier.velocity@[idx]@[i] == 0);
                lemma_zero_gradient_keeps_element_at_rest(earlier, idx, i);
            } else {
                lemma_zero_gradient_keeps_element(earlier, idx, i);
            }
        }
        assert(after.data@ =~= before.data@);
    }
    if earlier.uses_momentum() {
        assert forall|idx: int| 0 <= idx < later.params@.len() implies all_zero(
            #[trigger] later.velocity@[idx]@,
        ) by {
            let before = earlier.params@[idx];
            assert(before.wf());
            assert(all_zero(earlier.velocity@[idx]@));
            assert forall|i: int| 0 <= i < later.velocity@[idx]@.len() implies later.velocity@[idx]@[i]
                == 0 by {
                assert(before.grad->0@[i] == 0);
                assert(earlier.velocity@[idx]@[i] == 0);
                assert(later.velocity@[idx]@[i] == earlier.velocity_after(idx, i));
                lemma_zero_gradient_keeps_element_at_rest(earlier, idx, i);
            }
        }
    }
}

} // verus!
