//! RMSprop: the gradient scaled by a moving average of its square,
//! optionally centred and with momentum.

use vstd::prelude::*;
use crate::error::BellandeError;
use crate::kernels::filled;
use crate::optim::adam::{average, square_average};
use crate::optim::sgd::{all_zero, decayed, descend, next_velocity};
use crate::optim::{
    cleared, is_replaceable, not_replaceable, params_wf, replaceable, same_but_data, zero_gradients,
};
use crate::scalar::Scalar;
use crate::tensor::{zeros_seq, Tensor};

verus! {

/// RMSprop: the gradient divided by a moving root mean square of itself,
/// optionally centred and with momentum. The buffers of a parameter are
/// kept at the parameter's position in the list the optimizer was made
/// with; a buffer that the configuration does not use is empty.
pub struct RMSprop<T> {
    pub params: Vec<Tensor<T>>,
    pub lr: T,
    pub alpha: T,
    pub eps: T,
    pub weight_decay: T,
    pub momentum: T,
    pub centered: bool,
    pub v: Vec<Vec<T>>,
    pub g: Vec<Vec<T>>,
    pub buf: Vec<Vec<T>>,
}

/// The gradient divided by its scale: `g * (1 / (sqrt(v) + eps))`, or,
/// centred, `g * (1 / (sqrt(v) - mean * mean + eps))`.
pub open spec fn scaled_gradient<T: Scalar>(g: T, v: T, mean: Option<T>, eps: T) -> T {
    match mean {
        Some(a) => g.times_spec(
            T::one_spec().over_spec(v.root_spec().minus_spec(a.times_spec(a)).plus_spec(eps)),
        ),
        None => g.times_spec(T::one_spec().over_spec(v.root_spec().plus_spec(eps))),
    }
}

/// The configuration of an update.
pub struct Rule<T> {
    pub lr: T,
    pub alpha: T,
    pub eps: T,
    pub weight_decay: T,
    pub momentum: T,
    pub centered: bool,
}

impl<T: Scalar> Rule<T> {
    pub open spec fn uses_momentum(self) -> bool {
        self.momentum.exceeds_spec(T::zero_spec())
    }

    /// The square average after a step.
    pub open spec fn square_after(self, p: T, g: T, v: T) -> T {
        square_average(self.alpha, v, decayed(g, p, self.weight_decay))
    }

    /// The gradient average after a step.
    pub open spec fn mean_after(self, p: T, g: T, mean: T) -> T {
        average(self.alpha, mean, decayed(g, p, self.weight_decay))
    }

    /// The scaled gradient of a step.
    pub open spec fn scaled(self, p: T, g: T, v: T, mean: T) -> T {
        scaled_gradient(
            decayed(g, p, self.weight_decay),
            self.square_after(p, g, v),
            if self.centered {
                Some(self.mean_after(p, g, mean))
            } else {
                None
            },
            self.eps,
        )
    }

    /// The momentum buffer after a step.
    pub open spec fn buffer_after(self, p: T, g: T, v: T, mean: T, buf: T) -> T {
        next_velocity(buf, self.scaled(p, g, v, mean), self.momentum)
    }

    /// The parameter element after a step.
    pub open spec fn element_after(self, p: T, g: T, v: T, mean: T, buf: T) -> T {
        if self.uses_momentum() {
            descend(p, self.lr, self.buffer_after(p, g, v, mean, buf))
        } else {
            descend(p, self.lr, self.scaled(p, g, v, mean))
        }
    }
}

/// Updates the elements of one parameter and its buffers.
fn update_parameter<T: Scalar>(
    param: &mut Tensor<T>,
    v: &mut Vec<T>,
    g: &mut Vec<T>,
    buf: &mut Vec<T>,
    rule: &Rule<T>,
)
    requires
        old(param).wf(),
        old(param).grad is Some,
        old(v)@.len() == old(param).data@.len(),
        rule.centered ==> old(g)@.len() == old(param).data@.len(),
        rule.uses_momentum() ==> old(buf)@.len() == old(param).data@.len(),
    ensures
        final(param).wf(),
        same_but_data(*old(param), *final(param)),
        final(v)@.len() == old(v)@.len(),
        final(g)@.len() == old(g)@.len(),
        final(buf)@.len() == old(buf)@.len(),
        !rule.centered ==> final(g)@ == old(g)@,
        !rule.uses_momentum() ==> final(buf)@ == old(buf)@,
        forall|i: int|
            0 <= i < old(v)@.len() ==> #[trigger] final(v)@[i] == rule.square_after(
                old(param).data@[i],
                old(param).grad->0@[i],
                old(v)@[i],
            ),
        rule.centered ==> forall|i: int|
            0 <= i < old(g)@.len() ==> #[trigger] final(g)@[i] == rule.mean_after(
                old(param).data@[i],
                old(param).grad->0@[i],
                old(g)@[i],
            ),
        rule.uses_momentum() ==> forall|i: int|
            0 <= i < old(buf)@.len() ==> #[trigger] final(buf)@[i] == rule.buffer_after(
                old(param).data@[i],
                old(param).grad->0@[i],
                old(v)@[i],
                old(g)@[i],
                old(buf)@[i],
            ),
        forall|i: int|
            0 <= i < old(param).data@.len() ==> #[trigger] final(param).data@[i]
                == rule.element_after(
                old(param).data@[i],
                old(param).grad->0@[i],
                old(v)@[i],
                old(g)@[i],
                old(buf)@[i],
            ),
{
    let len = param.data.len();
    let with_decay = !rule.weight_decay.equals(T::zero());
    let with_momentum = rule.momentum.exceeds(T::zero());
    let keep = T::one().minus(rule.alpha);
    let mut i: usize = 0;
    while i < len
        invariant
            i <= len,
            len == old(param).data@.len(),
            old(param).wf(),
            old(param).grad is Some,
            same_but_data(*old(param), *param),
            v@.len() == len,
            old(v)@.len() == len,
            g@.len() == old(g)@.len(),
            buf@.len() == old(buf)@.len(),
            rule.centered ==> g@.len() == len,
            with_momentum ==> buf@.len() == len,
            !rule.centered ==> g@ == old(g)@,
            !with_momentum ==> buf@ == old(buf)@,
            with_decay == !rule.weight_decay.equals_spec(T::zero_spec()),
            with_momentum == rule.uses_momentum(),
            keep == T::one_spec().minus_spec(rule.alpha),
            forall|j: int| i <= j < len ==> param.data@[j] == old(param).data@[j],
            forall|j: int| i <= j < len ==> v@[j] == old(v)@[j],
            rule.centered ==> forall|j: int| i <= j < len ==> g@[j] == old(g)@[j],
            with_momentum ==> forall|j: int| i <= j < len ==> buf@[j] == old(buf)@[j],
            forall|j: int|
                0 <= j < i ==> #[trigger] v@[j] == rule.square_after(
                    old(param).data@[j],
                    old(param).grad->0@[j],
                    old(v)@[j],
                ),
            rule.centered ==> forall|j: int|
                0 <= j < i ==> #[trigger] g@[j] == rule.mean_after(
                    old(param).data@[j],
                    old(param).grad->0@[j],
                    old(g)@[j],
                ),
            with_momentum ==> forall|j: int|
                0 <= j < i ==> #[trigger] buf@[j] == rule.buffer_after(
                    old(param).data@[j],
                    old(param).grad->0@[j],
                    old(v)@[j],
                    old(g)@[j],
                    old(buf)@[j],
                ),
            forall|j: int|
                0 <= j < i ==> #[trigger] param.data@[j] == rule.element_after(
                    old(param).data@[j],
                    old(param).grad->0@[j],
                    old(v)@[j],
                    old(g)@[j],
                    old(buf)@[j],
                ),
        decreases len - i,
    {
        let p = param.data[i];
        let raw = match &param.grad {
            Some(grad) => grad[i],
            None => T::zero(),
        };
        let d = if with_decay {
            raw.plus(rule.weight_decay.times(p))
        } else {
            raw
        };
        let square = rule.alpha.times(v[i]).plus(keep.times(d).times(d));
        v[i] = square;
        let scaled = if rule.centered {
            let mean = rule.alpha.times(g[i]).plus(keep.times(d));
            g[i] = mean;
            d.times(T::one().over(square.root().minus(mean.times(mean)).plus(rule.eps)))
        } else {
            d.times(T::one().over(square.root().plus(rule.eps)))
        };
        if with_momentum {
            let b = rule.momentum.times(buf[i]).plus(scaled);
            buf[i] = b;
            param.data[i] = p.minus(rule.lr.times(b));
        } else {
            param.data[i] = p.minus(rule.lr.times(scaled));
        }
        i = i + 1;
    }
}

/// `n` empty buffers, or, if `used`, one zero buffer of the length of each
/// parameter.
fn buffers<T: Scalar>(params: &Vec<Tensor<T>>, used: bool) -> (r: Vec<Vec<T>>)
    ensures
        r@.len() == params@.len(),
        forall|i: int|
            0 <= i < params@.len() ==> (#[trigger] r@[i])@ == zeros_seq::<T>(
                if used {
                    params@[i].data@.len()
                } else {
                    0
                },
            ),
{
    let mut r: Vec<Vec<T>> = Vec::new();
    let n = params.len();
    let mut i: usize = 0;
    while i < n
        invariant
            i <= n,
            n == params@.len(),
            r@.len() == i,
            forall|k: int|
                0 <= k < i ==> (#[trigger] r@[k])@ == zeros_seq::<T>(
                    if used {
                        params@[k].data@.len()
                    } else {
                        0
                    },
                ),
        decreases n - i,
    {
        let buffer = if used {
            filled(T::zero(), params[i].data.len())
        } else {
            Vec::new()
        };
        assert(buffer@ =~= zeros_seq::<T>(
            if used {
                params@[i as int].data@.len()
            } else {
                0
            },
        ));
        r.push(buffer);
        i = i + 1;
    }
    r
}

/// What a step makes of the optimizer `earlier`: the optimizer `later` and
/// the result `r`.
pub open spec fn stepped<T: Scalar>(
    earlier: RMSprop<T>,
    later: RMSprop<T>,
    r: Result<(), BellandeError>,
) -> bool {
    &&& r is Ok
    &&& later.wf()
    &&& later.rule() == earlier.rule()
    &&& later.params@.len() == earlier.params@.len()
    &&& forall|idx: int|
        0 <= idx < earlier.params@.len() ==> {
            let before = earlier.params@[idx];
            let after = #[trigger] later.params@[idx];
            &&& same_but_data(before, after)
            &&& before.grad is None ==> after.data@ == before.data@
            &&& before.grad is Some ==> forall|i: int|
                0 <= i < before.data@.len() ==> #[trigger] after.data@[i] == earlier.element_after(idx, i)
        }
    &&& forall|idx: int|
        0 <= idx < earlier.params@.len() ==> {
            let after = #[trigger] later.v@[idx];
            &&& earlier.params@[idx].grad is None ==> after@ == earlier.v@[idx]@
            &&& earlier.params@[idx].grad is Some ==> forall|i: int|
                0 <= i < after@.len() ==> #[trigger] after@[i] == earlier.square_after(
                    idx,
                    i,
                )
        }
    &&& forall|idx: int|
        0 <= idx < earlier.params@.len() ==> {
            let after = #[trigger] later.g@[idx];
            &&& earlier.params@[idx].grad is None || !earlier.centered ==> after@
                == earlier.g@[idx]@
            &&& earlier.params@[idx].grad is Some && earlier.centered ==> forall|
                i: int,
            |
                0 <= i < after@.len() ==> #[trigger] after@[i] == earlier.mean_after(
                    idx,
                    i,
                )
        }
    &&& forall|idx: int|
        0 <= idx < earlier.params@.len() ==> {
            let after = #[trigger] later.buf@[idx];
            &&& earlier.params@[idx].grad is None || !earlier.rule().uses_momentum()
                ==> after@ == earlier.buf@[idx]@
            &&& earlier.params@[idx].grad is Some && earlier.rule().uses_momentum()
                ==> forall|i: int|
                0 <= i < after@.len() ==> #[trigger] after@[i] == earlier.buffer_after(
                    idx,
                    i,
                )
        }
}

/// What resetting the gradients makes of the optimizer `earlier`: every
/// gradient is zero, and nothing else has changed.
pub open spec fn gradients_reset<T: Scalar>(earlier: RMSprop<T>, later: RMSprop<T>) -> bool {
    &&& later.wf()
    &&& later.rule() == earlier.rule()
    &&& later.v == earlier.v
    &&& later.g == earlier.g
    &&& later.buf == earlier.buf
    &&& later.params@.len() == earlier.params@.len()
    &&& forall|i: int|
        0 <= i < earlier.params@.len() ==> cleared(
            earlier.params@[i],
            #[trigger] later.params@[i],
        )
}

impl<T: Scalar> RMSprop<T> {
    pub open spec fn rule(&self) -> Rule<T> {
        Rule {
            lr: self.lr,
            alpha: self.alpha,
            eps: self.eps,
            weight_decay: self.weight_decay,
            momentum: self.momentum,
            centered: self.centered,
        }
    }

    /// The parameters are well formed and every parameter has the buffers
    /// that the configuration uses, of its own length.
    pub open spec fn wf(&self) -> bool {
        &&& params_wf(self.params@)
        &&& self.v@.len() == self.params@.len()
        &&& self.g@.len() == self.params@.len()
        &&& self.buf@.len() == self.params@.len()
        &&& forall|i: int|
            0 <= i < self.params@.len() ==> (#[trigger] self.v@[i])@.len()
                == self.params@[i].data@.len()
        &&& self.centered ==> forall|i: int|
            0 <= i < self.params@.len() ==> (#[trigger] self.g@[i])@.len()
                == self.params@[i].data@.len()
        &&& self.rule().uses_momentum() ==> forall|i: int|
            0 <= i < self.params@.len() ==> (#[trigger] self.buf@[i])@.len()
                == self.params@[i].data@.len()
    }

    /// Element `i` of parameter `idx` after a step.
    pub open spec fn element_after(&self, idx: int, i: int) -> T {
        self.rule().element_after(
            self.params@[idx].data@[i],
            self.params@[idx].grad->0@[i],
            self.v@[idx]@[i],
            self.g@[idx]@[i],
            self.buf@[idx]@[i],
        )
    }

    /// The square average of element `i` of parameter `idx` after a step.
    pub open spec fn square_after(&self, idx: int, i: int) -> T {
        self.rule().square_after(
            self.params@[idx].data@[i],
            self.params@[idx].grad->0@[i],
            self.v@[idx]@[i],
        )
    }

    /// The gradient average of element `i` of parameter `idx` after a step.
    pub open spec fn mean_after(&self, idx: int, i: int) -> T {
        self.rule().mean_after(
            self.params@[idx].data@[i],
            self.params@[idx].grad->0@[i],
            self.g@[idx]@[i],
        )
    }

    /// The momentum buffer of element `i` of parameter `idx` after a step.
    pub open spec fn buffer_after(&self, idx: int, i: int) -> T {
        self.rule().buffer_after(
            self.params@[idx].data@[i],
            self.params@[idx].grad->0@[i],
            self.v@[idx]@[i],
            self.g@[idx]@[i],
            self.buf@[idx]@[i],
        )
    }

    /// An optimizer for `params`, with zero buffers.
    pub fn new(
        params: Vec<Tensor<T>>,
        lr: T,
        alpha: T,
        eps: T,
        weight_decay: T,
        momentum: T,
        centered: bool,
    ) -> (r: Self)
        requires
            params_wf(params@),
        ensures
            r.wf(),
            r.params@ == params@,
            r.lr == lr,
            r.alpha == alpha,
            r.eps == eps,
            r.weight_decay == weight_decay,
            r.momentum == momentum,
            r.centered == centered,
            forall|i: int|
                0 <= i < params@.len() ==> (#[trigger] r.v@[i])@ == zeros_seq::<T>(
                    params@[i].data@.len(),
                ),
            centered ==> forall|i: int|
                0 <= i < params@.len() ==> (#[trigger] r.g@[i])@ == zeros_seq::<T>(
                    params@[i].data@.len(),
                ),
            r.rule().uses_momentum() ==> forall|i: int|
                0 <= i < params@.len() ==> (#[trigger] r.buf@[i])@ == zeros_seq::<T>(
                    params@[i].data@.len(),
                ),
    {
        let v = buffers(&params, true);
        let g = buffers(&params, centered);
        let buf = buffers(&params, momentum.exceeds(T::zero()));
        RMSprop { params, lr, alpha, eps, weight_decay, momentum, centered, v, g, buf }
    }

    /// Updates every parameter that has a gradient, element by element; a
    /// parameter without a gradient is left untouched, and so are its
    /// buffers.
    pub fn step(&mut self) -> (r: Result<(), BellandeError>)
        requires
            old(self).wf(),
        ensures
            stepped(*old(self), *final(self), r),
    {
        let rule = Rule {
            lr: self.lr,
            alpha: self.alpha,
            eps: self.eps,
            weight_decay: self.weight_decay,
            momentum: self.momentum,
            centered: self.centered,
        };
        let n = self.params.len();
        let mut idx: usize = 0;
        while idx < n
            invariant
                idx <= n,
                n == old(self).params@.len(),
                old(self).wf(),
                self.wf(),
                rule == old(self).rule(),
                self.rule() == old(self).rule(),
                self.params@.len() == n,
                forall|k: int| idx <= k < n ==> self.params@[k] == old(self).params@[k],
                forall|k: int| idx <= k < n ==> self.v@[k] == old(self).v@[k],
                forall|k: int| idx <= k < n ==> self.g@[k] == old(self).g@[k],
                forall|k: int| idx <= k < n ==> self.buf@[k] == old(self).buf@[k],
                forall|k: int|
                    0 <= k < idx ==> {
                        let before = old(self).params@[k];
                        let after = #[trigger] self.params@[k];
                        &&& same_but_data(before, after)
                        &&& before.grad is None ==> after.data@ == before.data@
                        &&& before.grad is Some ==> forall|i: int|
                            0 <= i < before.data@.len() ==> #[trigger] after.data@[i] == old(self).element_after(k, i)
                    },
                forall|k: int|
                    0 <= k < idx ==> {
                        let after = #[trigger] self.v@[k];
                        &&& old(self).params@[k].grad is None ==> after@ == old(self).v@[k]@
                        &&& old(self).params@[k].grad is Some ==> forall|i: int|
                            0 <= i < after@.len() ==> #[trigger] after@[i] == old(self).square_after(k, i)
                    },
                forall|k: int|
                    0 <= k < idx ==> {
                        let after = #[trigger] self.g@[k];
                        &&& old(self).params@[k].grad is None || !old(self).centered ==> after@
                            == old(self).g@[k]@
                        &&& old(self).params@[k].grad is Some && old(self).centered ==> forall|
                            i: int,
                        |
                            0 <= i < after@.len() ==> #[trigger] after@[i] == old(self).mean_after(
                                k,
                                i,
                            )
                    },
                forall|k: int|
                    0 <= k < idx ==> {
                        let after = #[trigger] self.buf@[k];
                        &&& old(self).params@[k].grad is None || !old(self).rule().uses_momentum()
                            ==> after@ == old(self).buf@[k]@
                        &&& old(self).params@[k].grad is Some && old(self).rule().uses_momentum()
                            ==> forall|i: int|
                            0 <= i < after@.len() ==> #[trigger] after@[i] == old(self).buffer_after(k, i)
                    },
            decreases n - idx,
        {
            if self.params[idx].grad.is_some() {
                update_parameter(
                    &mut self.params[idx],
                    &mut self.v[idx],
                    &mut self.g[idx],
                    &mut self.buf[idx],
                    &rule,
                );
            }
            idx = idx + 1;
        }
        Ok(())
    }

    /// Hands the optimizer its parameters as they are now, with their
    /// gradients, in the order it was made with. The averages stay with the
    /// positions they belong to.
    ///
    /// Fails with `ShapeMismatch`, changing nothing, where the number of
    /// parameters or the size of one differs from what the optimizer was
    /// made for.
    pub fn rebind(&mut self, params: Vec<Tensor<T>>) -> (r: Result<(), BellandeError>)
        requires
            old(self).wf(),
        ensures
            final(self).wf(),
            final(self).lr == old(self).lr,
            final(self).alpha == old(self).alpha,
            final(self).eps == old(self).eps,
            final(self).weight_decay == old(self).weight_decay,
            final(self).momentum == old(self).momentum,
            final(self).centered == old(self).centered,
            final(self).v == old(self).v,
            final(self).g == old(self).g,
            final(self).buf == old(self).buf,
            replaceable(old(self).params@, params@) ==> r is Ok && final(self).params@ == params@,
            !replaceable(old(self).params@, params@) ==> (r matches Err(
                BellandeError::ShapeMismatch(_),
            )) && final(self).params == old(self).params,
    {
        if !is_replaceable(&self.params, &params) {
            return Err(not_replaceable());
        }
        self.params = params;
        Ok(())
    }

    /// Resets the gradient of every parameter to zero, keeping the buffers.
    pub fn zero_grad(&mut self)
        requires
            old(self).wf(),
        ensures
            gradients_reset(*old(self), *final(self)),
    {
        zero_gradients(&mut self.params);
    }
}

/// A step without weight decay and without momentum leaves an element
/// whose gradient is zero as it is, whatever the averages hold, provided
/// that zero times the scale is zero, that the learning rate times zero is
/// zero and that the element less zero is the element.
pub proof fn lemma_zero_gradient_keeps_element<T: Scalar>(opt: RMSprop<T>, idx: int, i: int)
    requires
        opt.wf(),
        0 <= idx < opt.params@.len(),
        opt.params@[idx].grad is Some,
        0 <= i < opt.params@[idx].data@.len(),
        opt.params@[idx].grad->0@[i] == T::zero_spec(),
        opt.weight_decay.equals_spec(T::zero_spec()),
        !opt.rule().uses_momentum(),
        forall|x: T| #[trigger] T::zero_spec().times_spec(x) == T::zero_spec(),
        opt.lr.times_spec(T::zero_spec()) == T::zero_spec(),
        opt.params@[idx].data@[i].minus_spec(T::zero_spec()) == opt.params@[idx].data@[i],
    ensures
        opt.element_after(idx, i) == opt.params@[idx].data@[i],
{
    let rule = opt.rule();
    let p = opt.params@[idx].data@[i];
    let g = opt.params@[idx].grad->0@[i];
    assert(decayed(g, p, rule.weight_decay) == T::zero_spec());
    assert(rule.scaled(p, g, opt.v@[idx]@[i], opt.g@[idx]@[i]) == T::zero_spec());
}

/// Over the integers the provisos hold: a step without weight decay and
/// without momentum leaves an element whose gradient is zero as it is,
/// whatever the averages hold.
pub proof fn lemma_zero_gradient_keeps_integer(opt: RMSprop<i64>, idx: int, i: int)
    requires
        opt.wf(),
        0 <= idx < opt.params@.len(),
        opt.params@[idx].grad is Some,
        0 <= i < opt.params@[idx].data@.len(),
        opt.params@[idx].grad->0@[i] == 0,
        opt.weight_decay == 0,
        !opt.rule().uses_momentum(),
    ensures
        opt.element_after(idx, i) == opt.params@[idx].data@[i],
{
    lemma_zero_gradient_keeps_element(opt, idx, i);
}

/// The same holds with momentum while the momentum buffer is zero,
/// provided also that the momentum times zero is zero and that zero plus
/// zero is zero; the buffer then stays zero.
pub proof fn lemma_zero_gradient_keeps_element_at_rest<T: Scalar>(
    opt: RMSprop<T>,
    idx: int,
    i: int,
)
    requires
        opt.wf(),
        0 <= idx < opt.params@.len(),
        opt.params@[idx].grad is Some,
        0 <= i < opt.params@[idx].data@.len(),
        opt.params@[idx].grad->0@[i] == T::zero_spec(),
        opt.weight_decay.equals_spec(T::zero_spec()),
        opt.rule().uses_momentum(),
        opt.buf@[idx]@[i] == T::zero_spec(),
        forall|x: T| #[trigger] T::zero_spec().times_spec(x) == T::zero_spec(),
        opt.momentum.times_spec(T::zero_spec()) == T::zero_spec(),
        T::zero_spec().plus_spec(T::zero_spec()) == T::zero_spec(),
        opt.lr.times_spec(T::zero_spec()) == T::zero_spec(),
        opt.params@[idx].data@[i].minus_spec(T::zero_spec()) == opt.params@[idx].data@[i],
    ensures
        opt.buffer_after(idx, i) == T::zero_spec(),
        opt.element_after(idx, i) == opt.params@[idx].data@[i],
{
    let rule = opt.rule();
    let p = opt.params@[idx].data@[i];
    let g = opt.params@[idx].grad->0@[i];
    assert(decayed(g, p, rule.weight_decay) == T::zero_spec());
    assert(rule.scaled(p, g, opt.v@[idx]@[i], opt.g@[idx]@[i]) == T::zero_spec());
}

/// Over the integers the provisos hold: with momentum and a momentum
/// buffer of zero, a step without weight decay leaves an element whose
/// gradient is zero as it is, and the buffer zero.
pub proof fn lemma_zero_gradient_keeps_integer_at_rest(opt: RMSprop<i64>, idx: int, i: int)
    requires
        opt.wf(),
        0 <= idx < opt.params@.len(),
        opt.params@[idx].grad is Some,
        0 <= i < opt.params@[idx].data@.len(),
        opt.params@[idx].grad->0@[i] == 0,
        opt.weight_decay == 0,
        opt.rule().uses_momentum(),
        opt.buf@[idx]@[i] == 0,
    ensures
        opt.buffer_after(idx, i) == 0,
        opt.element_after(idx, i) == opt.params@[idx].data@[i],
{
    lemma_zero_gradient_keeps_element_at_rest(opt, idx, i);
}

/// Whether an optimizer over the integers is at rest: it uses no weight
/// decay, every parameter has a gradient that is zero, and with momentum
/// every momentum buffer is zero. The averages may hold anything.
pub open spec fn at_rest(opt: RMSprop<i64>) -> bool {
    &&& opt.weight_decay == 0
    &&& forall|idx: int|
        0 <= idx < opt.params@.len() ==> (#[trigger] opt.params@[idx]).grad is Some && all_zero(
            opt.params@[idx].grad->0@,
        )
    &&& opt.rule().uses_momentum() ==> forall|idx: int|
        0 <= idx < opt.params@.len() ==> all_zero(#[trigger] opt.buf@[idx]@)
}

/// Over the integers, a step of an optimizer at rest leaves the elements of
/// every parameter as they are and the optimizer at rest, so that any
/// number of such steps leaves them as they are.
pub proof fn lemma_step_at_rest(
    earlier: RMSprop<i64>,
    later: RMSprop<i64>,
    r: Result<(), BellandeError>,
)
    requires
        earlier.wf(),
        at_rest(earlier),
        stepped(earlier, later, r),
    ensures
        r is Ok,
        later.wf(),
        at_rest(later),
        later.params@.len() == earlier.params@.len(),
        forall|idx: int|
            0 <= idx < earlier.params@.len() ==> (#[trigger] later.params@[idx]).data@
                == earlier.params@[idx].data@,
{
    assert forall|idx: int| 0 <= idx < earlier.params@.len() implies (#[trigger] later.params@[idx]).data@
        == earlier.params@[idx].data@ && later.params@[idx].grad is Some && all_zero(
        later.params@[idx].grad->0@,
    ) by {
        let before = earlier.params@[idx];
        let after = later.params@[idx];
        assert(before.wf());
        assert(same_but_data(before, after));
        assert forall|i: int| 0 <= i < before.data@.len() implies after.data@[i]
            == before.data@[i] by {
            assert(before.grad->0@[i] == 0);
            assert(after.data@[i] == earlier.element_after(idx, i));
            if earlier.rule().uses_momentum() {
                assert(all_zero(earlier.buf@[idx]@));
                assert(earlier.buf@[idx]@[i] == 0);
                lemma_zero_gradient_keeps_integer_at_rest(earlier, idx, i);
            } else {
                lemma_zero_gradient_keeps_integer(earlier, idx, i);
            }
        }
        assert(after.data@ =~= before.data@);
    }
    if earlier.rule().uses_momentum() {
        assert forall|idx: int| 0 <= idx < later.params@.len() implies all_zero(
            #[trigger] later.buf@[idx]@,
        ) by {
            let before = earlier.params@[idx];
            assert(before.wf());
            assert(all_zero(earlier.buf@[idx]@));
            let after = later.buf@[idx];
            assert forall|i: int| 0 <= i < after@.len() implies after@[i] == 0 by {
                assert(after@[i] == earlier.buffer_after(idx, i));
                assert(before.grad->0@[i] == 0);
                assert(earlier.buf@[idx]@[i] == 0);
                lemma_zero_gradient_keeps_integer_at_rest(earlier, idx, i);
            }
        }
    }
}

} // verus!
