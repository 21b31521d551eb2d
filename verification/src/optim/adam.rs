//! Adam: moving averages of the gradient and of its square, corrected
//! for their start at zero.

use vstd::prelude::*;
use vstd::string::*;
use crate::error::BellandeError;
use crate::kernels::filled;
use crate::optim::sgd::{all_zero, decayed};
use crate::optim::{
    cleared, is_replaceable, not_replaceable, params_wf, replaceable, same_but_data, zero_gradients,
};
use crate::scalar::Scalar;
use crate::tensor::{zeros_seq, Tensor};

verus! {

/// Adam: moving averages of the gradient and of its square, corrected for
/// their start at zero. The averages of a parameter are kept at the
/// parameter's position in the list the optimizer was made with.
pub struct Adam<T> {
    pub params: Vec<Tensor<T>>,
    pub lr: T,
    pub betas: (T, T),
    pub eps: T,
    pub weight_decay: T,
    pub m: Vec<Vec<T>>,
    pub v: Vec<Vec<T>>,
    pub step: usize,
    pub beta_powers: (T, T),
}

/// `b` multiplied by itself `n` times, from one.
pub open spec fn power<T: Scalar>(b: T, n: nat) -> T
    decreases n,
{
    if n == 0 {
        T::one_spec()
    } else {
        power(b, (n - 1) as nat).times_spec(b)
    }
}

/// The moving average `beta * average + (1 - beta) * observed`.
pub open spec fn average<T: Scalar>(beta: T, average: T, observed: T) -> T {
    beta.times_spec(average).plus_spec(T::one_spec().minus_spec(beta).times_spec(observed))
}

/// The moving average of squares `beta * average + (1 - beta) * g * g`.
pub open spec fn square_average<T: Scalar>(beta: T, average: T, g: T) -> T {
    beta.times_spec(average).plus_spec(T::one_spec().minus_spec(beta).times_spec(g).times_spec(g))
}

/// The bias correction after `t` steps: `1 - beta^t`.
pub open spec fn correction<T: Scalar>(beta: T, t: nat) -> T {
    T::one_spec().minus_spec(power(beta, t))
}

/// A parameter element after an Adam step:
/// `p - lr * m_hat / (sqrt(v_hat) + eps)` with `m_hat = m / c1` and
/// `v_hat = v / c2`.
pub open spec fn adam_descend<T: Scalar>(p: T, lr: T, m: T, v: T, c1: T, c2: T, eps: T) -> T {
    p.minus_spec(
        lr.times_spec(m.over_spec(c1)).over_spec(v.over_spec(c2).root_spec().plus_spec(eps)),
    )
}

/// Updates the elements of one parameter and its two averages.
fn update_parameter<T: Scalar>(
    param: &mut Tensor<T>,
    m: &mut Vec<T>,
    v: &mut Vec<T>,
    lr: T,
    betas: (T, T),
    eps: T,
    weight_decay: T,
    c1: T,
    c2: T,
)
    requires
        old(param).wf(),
        old(param).grad is Some,
        old(m)@.len() == old(param).data@.len(),
        old(v)@.len() == old(param).data@.len(),
    ensures
        final(param).wf(),
        same_but_data(*old(param), *final(param)),
        final(m)@.len() == old(m)@.len(),
        final(v)@.len() == old(v)@.len(),
        forall|i: int|
            0 <= i < old(m)@.len() ==> #[trigger] final(m)@[i] == average(
                betas.0,
                old(m)@[i],
                decayed(old(param).grad->0@[i], old(param).data@[i], weight_decay),
            ),
        forall|i: int|
            0 <= i < old(v)@.len() ==> #[trigger] final(v)@[i] == square_average(
                betas.1,
                old(v)@[i],
                decayed(old(param).grad->0@[i], old(param).data@[i], weight_decay),
            ),
        forall|i: int|
            0 <= i < old(param).data@.len() ==> #[trigger] final(param).data@[i] == adam_descend(
                old(param).data@[i],
                lr,
                final(m)@[i],
                final(v)@[i],
                c1,
                c2,
                eps,
            ),
{
    let len = param.data.len();
    let with_decay = !weight_decay.equals(T::zero());
    let keep1 = T::one().minus(betas.0);
    let keep2 = T::one().minus(betas.1);
    let mut i: usize = 0;
    while i < len
        invariant
            i <= len,
            len == old(param).data@.len(),
            old(param).wf(),
            old(param).grad is Some,
            same_but_data(*old(param), *param),
            m@.len() == len,
            v@.len() == len,
            old(m)@.len() == len,
            old(v)@.len() == len,
            with_decay == !weight_decay.equals_spec(T::zero_spec()),
            keep1 == T::one_spec().minus_spec(betas.0),
            keep2 == T::one_spec().minus_spec(betas.1),
            forall|j: int| i <= j < len ==> param.data@[j] == old(param).data@[j],
            forall|j: int| i <= j < len ==> m@[j] == old(m)@[j],
            forall|j: int| i <= j < len ==> v@[j] == old(v)@[j],
            forall|j: int|
                0 <= j < i ==> #[trigger] m@[j] == average(
                    betas.0,
                    old(m)@[j],
                    decayed(old(param).grad->0@[j], old(param).data@[j], weight_decay),
                ),
            forall|j: int|
                0 <= j < i ==> #[trigger] v@[j] == square_average(
                    betas.1,
                    old(v)@[j],
                    decayed(old(param).grad->0@[j], old(param).data@[j], weight_decay),
                ),
            forall|j: int|
                0 <= j < i ==> #[trigger] param.data@[j] == adam_descend(
                    old(param).data@[j],
                    lr,
                    m@[j],
                    v@[j],
                    c1,
                    c2,
                    eps,
                ),
        decreases len - i,
    {
        let p = param.data[i];
        let g = match &param.grad {
            Some(g) => g[i],
            None => T::zero(),
        };
        let d = if with_decay {
            g.plus(weight_decay.times(p))
        } else {
            g
        };
        let first = betas.0.times(m[i]).plus(keep1.times(d));
        let second = betas.1.times(v[i]).plus(keep2.times(d).times(d));
        m[i] = first;
        v[i] = second;
        let m_hat = first.over(c1);
        let v_hat = second.over(c2);
        param.data[i] = p.minus(lr.times(m_hat).over(v_hat.root().plus(eps)));
        i = i + 1;
    }
}

/// What a step makes of the optimizer `earlier`: the optimizer `later` and
/// the result `r`.
pub open spec fn stepped<T: Scalar>(
    earlier: Adam<T>,
    later: Adam<T>,
    r: Result<(), BellandeError>,
) -> bool {
    &&& later.wf()
    &&& later.lr == earlier.lr
    &&& later.betas == earlier.betas
    &&& later.eps == earlier.eps
    &&& later.weight_decay == earlier.weight_decay
    &&& later.params@.len() == earlier.params@.len()
    &&& earlier.step == usize::MAX ==> (r matches Err(BellandeError::InvalidOperation(_)))
        && later == earlier
    &&& earlier.step < usize::MAX ==> {
        &&& r is Ok
        &&& later.step == earlier.step + 1
        &&& forall|idx: int|
            0 <= idx < earlier.params@.len() ==> {
                let before = earlier.params@[idx];
                let after = #[trigger] later.params@[idx];
                &&& same_but_data(before, after)
                &&& before.grad is None ==> after.data@ == before.data@
                &&& before.grad is Some ==> forall|i: int|
                    0 <= i < before.data@.len() ==> #[trigger] after.data@[i] == earlier.element_after(idx, i)
            }
        &&& forall|idx: int|
            0 <= idx < earlier.params@.len() ==> {
                let after = #[trigger] later.m@[idx];
                &&& earlier.params@[idx].grad is None ==> after@ == earlier.m@[idx]@
                &&& earlier.params@[idx].grad is Some ==> forall|i: int|
                    0 <= i < after@.len() ==> #[trigger] after@[i] == earlier.first_after(
                        idx,
                        i,
                    )
            }
        &&& forall|idx: int|
            0 <= idx < earlier.params@.len() ==> {
                let after = #[trigger] later.v@[idx];
                &&& earlier.params@[idx].grad is None ==> after@ == earlier.v@[idx]@
                &&& earlier.params@[idx].grad is Some ==> forall|i: int|
                    0 <= i < after@.len() ==> #[trigger] after@[i] == earlier.second_after(idx, i)
            }
    }
}

/// What resetting the gradients makes of the optimizer `earlier`: every
/// gradient is zero, and nothing else has changed.
pub open spec fn gradients_reset<T: Scalar>(earlier: Adam<T>, later: Adam<T>) -> bool {
    &&& later.wf()
    &&& later.lr == earlier.lr
    &&& later.betas == earlier.betas
    &&& later.eps == earlier.eps
    &&& later.weight_decay == earlier.weight_decay
    &&& later.m == earlier.m
    &&& later.v == earlier.v
    &&& later.step == earlier.step
    &&& later.params@.len() == earlier.params@.len()
    &&& forall|i: int|
        0 <= i < earlier.params@.len() ==> cleared(
            earlier.params@[i],
            #[trigger] later.params@[i],
        )
}

impl<T: Scalar> Adam<T> {
    /// The parameters are well formed, every parameter has averages of its
    /// own length, and the kept powers of the betas are those of the step
    /// count.
    pub open spec fn wf(&self) -> bool {
        &&& params_wf(self.params@)
        &&& self.m@.len() == self.params@.len()
        &&& self.v@.len() == self.params@.len()
        &&& forall|i: int|
            0 <= i < self.params@.len() ==> (#[trigger] self.m@[i])@.len()
                == self.params@[i].data@.len()
        &&& forall|i: int|
            0 <= i < self.params@.len() ==> (#[trigger] self.v@[i])@.len()
                == self.params@[i].data@.len()
        &&& self.beta_powers.0 == power(self.betas.0, self.step as nat)
        &&& self.beta_powers.1 == power(self.betas.1, self.step as nat)
    }

    /// The first average of element `i` of parameter `idx` after a step.
    pub open spec fn first_after(&self, idx: int, i: int) -> T {
        let p = self.params@[idx];
        average(
            self.betas.0,
            self.m@[idx]@[i],
            decayed(p.grad->0@[i], p.data@[i], self.weight_decay),
        )
    }

    /// The second average of element `i` of parameter `idx` after a step.
    pub open spec fn second_after(&self, idx: int, i: int) -> T {
        let p = self.params@[idx];
        square_average(
            self.betas.1,
            self.v@[idx]@[i],
            decayed(p.grad->0@[i], p.data@[i], self.weight_decay),
        )
    }

    /// Element `i` of parameter `idx` after a step, the step counted.
    pub open spec fn element_after(&self, idx: int, i: int) -> T {
        adam_descend(
            self.params@[idx].data@[i],
            self.lr,
            self.first_after(idx, i),
            self.second_after(idx, i),
            correction(self.betas.0, (self.step + 1) as nat),
            correction(self.betas.1, (self.step + 1) as nat),
            self.eps,
        )
    }

    /// An optimizer for `params` at step zero, with zero averages.
    pub fn new(params: Vec<Tensor<T>>, lr: T, betas: (T, T), eps: T, weight_decay: T) -> (r: Self)
        requires
            params_wf(params@),
        ensures
            r.wf(),
            r.params@ == params@,
            r.lr == lr,
            r.betas == betas,
            r.eps == eps,
            r.weight_decay == weight_decay,
            r.step == 0,
            forall|i: int|
                0 <= i < params@.len() ==> (#[trigger] r.m@[i])@ == zeros_seq::<T>(
                    params@[i].data@.len(),
                ),
            forall|i: int|
                0 <= i < params@.len() ==> (#[trigger] r.v@[i])@ == zeros_seq::<T>(
                    params@[i].data@.len(),
                ),
    {
        let mut m: Vec<Vec<T>> = Vec::new();
        let mut v: Vec<Vec<T>> = Vec::new();
        let n = params.len();
        let mut i: usize = 0;
        while i < n
            invariant
                i <= n,
                n == params@.len(),
                m@.len() == i,
                v@.len() == i,
                forall|k: int|
                    0 <= k < i ==> (#[trigger] m@[k])@ == zeros_seq::<T>(params@[k].data@.len()),
                forall|k: int|
                    0 <= k < i ==> (#[trigger] v@[k])@ == zeros_seq::<T>(params@[k].data@.len()),
            decreases n - i,
        {
            let first = filled(T::zero(), params[i].data.len());
            let second = filled(T::zero(), params[i].data.len());
            assert(first@ =~= zeros_seq::<T>(params@[i as int].data@.len()));
            assert(second@ =~= zeros_seq::<T>(params@[i as int].data@.len()));
            m.push(first);
            v.push(second);
            i = i + 1;
        }
        Adam {
            params,
            lr,
            betas,
            eps,
            weight_decay,
            m,
            v,
            step: 0,
            beta_powers: (T::one(), T::one()),
        }
    }

    /// Counts one step, then updates every parameter that has a gradient,
    /// element by element; a parameter without a gradient is left
    /// untouched, and so are its averages. The step is counted once, not
    /// per parameter.
    ///
    /// Fails with `InvalidOperation`, changing nothing, when the step
    /// counter cannot be advanced.
    pub fn step(&mut self) -> (r: Result<(), BellandeError>)
        requires
            old(self).wf(),
        ensures
            stepped(*old(self), *final(self), r),
    {
        if self.step == usize::MAX {
            return Err(BellandeError::InvalidOperation(String::from_str("step counter exhausted")));
        }
        self.step = self.step + 1;
        self.beta_powers = (
            self.beta_powers.0.times(self.betas.0),
            self.beta_powers.1.times(self.betas.1),
        );
        let c1 = T::one().minus(self.beta_powers.0);
        let c2 = T::one().minus(self.beta_powers.1);
        let n = self.params.len();
        let mut idx: usize = 0;
        while idx < n
            invariant
                idx <= n,
                n == old(self).params@.len(),
                old(self).wf(),
                old(self).step < usize::MAX,
                self.wf(),
                self.lr == old(self).lr,
                self.betas == old(self).betas,
                self.eps == old(self).eps,
                self.weight_decay == old(self).weight_decay,
                self.step == old(self).step + 1,
                c1 == correction(old(self).betas.0, (old(self).step + 1) as nat),
                c2 == correction(old(self).betas.1, (old(self).step + 1) as nat),
                self.params@.len() == n,
                forall|k: int| idx <= k < n ==> self.params@[k] == old(self).params@[k],
                forall|k: int| idx <= k < n ==> self.m@[k] == old(self).m@[k],
                forall|k: int| idx <= k < n ==> self.v@[k] == old(self).v@[k],
                forall|k: int|
                    0 <= k < idx ==> {
                        let before = old(self).params@[k];
                        let after = #[trigger] self.params@[k];
                        &&& same_but_data(before, after)
                        &&& before.grad is None ==> after.data@ == before.data@
                        &&& before.grad is Some ==> forall|i: int|
                            0 <= i < before.data@.len() ==> #[trigger] after.data@[i] == old(self).element_after(k, i)
                    },
                forall|k: int|
                    0 <= k < idx ==> {
                        let after = #[trigger] self.m@[k];
                        &&& old(self).params@[k].grad is None ==> after@ == old(self).m@[k]@
                        &&& old(self).params@[k].grad is Some ==> forall|i: int|
                            0 <= i < after@.len() ==> #[trigger] after@[i] == old(self).first_after(
                                k,
                                i,
                            )
                    },
                forall|k: int|
                    0 <= k < idx ==> {
                        let after = #[trigger] self.v@[k];
                        &&& old(self).params@[k].grad is None ==> after@ == old(self).v@[k]@
                        &&& old(self).params@[k].grad is Some ==> forall|i: int|
                            0 <= i < after@.len() ==> #[trigger] after@[i] == old(self).second_after(k, i)
                    },
            decreases n - idx,
        {
            if self.params[idx].grad.is_some() {
                update_parameter(
                    &mut self.params[idx],
                    &mut self.m[idx],
                    &mut self.v[idx],
                    self.lr,
                    self.betas,
                    self.eps,
                    self.weight_decay,
                    c1,
                    c2,
                );
            }
            idx = idx + 1;
        }
        Ok(())
    }

    /// Hands the optimizer its parameters as they are now, with their
    /// gradients, in the order it was made with. The averages stay with the
    /// positions they belong to.
    ///
    /// Fails with `ShapeMismatch`, changing nothing, where the number of
    /// parameters or the size of one differs from what the optimizer was
    /// made for.
    pub fn rebind(&mut self, params: Vec<Tensor<T>>) -> (r: Result<(), BellandeError>)
        requires
            old(self).wf(),
        ensures
            final(self).wf(),
            final(self).lr == old(self).lr,
            final(self).betas == old(self).betas,
            final(self).eps == old(self).eps,
            final(self).weight_decay == old(self).weight_decay,
            final(self).m == old(self).m,
            final(self).v == old(self).v,
            final(self).step == old(self).step,
            final(self).beta_powers == old(self).beta_powers,
            replaceable(old(self).params@, params@) ==> r is Ok && final(self).params@ == params@,
            !replaceable(old(self).params@, params@) ==> (r matches Err(
                BellandeError::ShapeMismatch(_),
            )) && final(self).params == old(self).params,
    {
        if !is_replaceable(&self.params, &params) {
            return Err(not_replaceable());
        }
        self.params = params;
        Ok(())
    }

    /// Resets the gradient of every parameter to zero, keeping the buffers.
    pub fn zero_grad(&mut self)
        requires
            old(self).wf(),
        ensures
            gradients_reset(*old(self), *final(self)),
    {
        zero_gradients(&mut self.params);
    }

    pub fn get_lr(&self) -> (r: T)
        ensures
            r == self.lr,
    {
        self.lr
    }

    pub fn set_lr(&mut self, lr: T)
        ensures
            final(self).lr == lr,
            final(self).params == old(self).params,
            final(self).betas == old(self).betas,
            final(self).eps == old(self).eps,
            final(self).weight_decay == old(self).weight_decay,
            final(self).m == old(self).m,
            final(self).v == old(self).v,
            final(self).step == old(self).step,
            final(self).beta_powers == old(self).beta_powers,
    {
        self.lr = lr;
    }
}

/// A step without weight decay leaves an element whose gradient is zero as
/// it is while its averages are zero, provided that zero behaves as zero
/// in the products, sum and quotients of the update and that the element
/// less zero is the element; the averages then stay zero.
pub proof fn lemma_zero_gradient_keeps_element<T: Scalar>(opt: Adam<T>, idx: int, i: int)
    requires
        opt.wf(),
        0 <= idx < opt.params@.len(),
        opt.params@[idx].grad is Some,
        0 <= i < opt.params@[idx].data@.len(),
        opt.params@[idx].grad->0@[i] == T::zero_spec(),
        opt.weight_decay.equals_spec(T::zero_spec()),
        opt.m@[idx]@[i] == T::zero_spec(),
        opt.v@[idx]@[i] == T::zero_spec(),
        forall|x: T| #[trigger] x.times_spec(T::zero_spec()) == T::zero_spec(),
        forall|x: T| #[trigger] T::zero_spec().times_spec(x) == T::zero_spec(),
        forall|x: T| #[trigger] T::zero_spec().over_spec(x) == T::zero_spec(),
        T::zero_spec().plus_spec(T::zero_spec()) == T::zero_spec(),
        opt.params@[idx].data@[i].minus_spec(T::zero_spec()) == opt.params@[idx].data@[i],
    ensures
        opt.first_after(idx, i) == T::zero_spec(),
        opt.second_after(idx, i) == T::zero_spec(),
        opt.element_after(idx, i) == opt.params@[idx].data@[i],
{
    let p = opt.params@[idx].data@[i];
    let g = opt.params@[idx].grad->0@[i];
    assert(decayed(g, p, opt.weight_decay) == T::zero_spec());
    assert(opt.first_after(idx, i) == T::zero_spec());
    let keep = T::one_spec().minus_spec(opt.betas.1);
    assert(keep.times_spec(T::zero_spec()) == T::zero_spec());
    assert(opt.second_after(idx, i) == T::zero_spec());
}

/// Over the integers the provisos hold: a step without weight decay leaves
/// an element whose gradient is zero as it is while its averages are zero.
pub proof fn lemma_zero_gradient_keeps_integer(opt: Adam<i64>, idx: int, i: int)
    requires
        opt.wf(),
        0 <= idx < opt.params@.len(),
        opt.params@[idx].grad is Some,
        0 <= i < opt.params@[idx].data@.len(),
        opt.params@[idx].grad->0@[i] == 0,
        opt.weight_decay == 0,
        opt.m@[idx]@[i] == 0,
        opt.v@[idx]@[i] == 0,
    ensures
        opt.element_after(idx, i) == opt.params@[idx].data@[i],
{
    lemma_zero_gradient_keeps_element(opt, idx, i);
}

/// Whether an optimizer over the integers is at rest: it uses no weight
/// decay, every parameter has a gradient that is zero, and both averages of
/// every parameter are zero.
pub open spec fn at_rest(opt: Adam<i64>) -> bool {
    &&& opt.weight_decay == 0
    &&& forall|idx: int|
        0 <= idx < opt.params@.len() ==> (#[trigger] opt.params@[idx]).grad is Some && all_zero(
            opt.params@[idx].grad->0@,
        )
    &&& forall|idx: int| 0 <= idx < opt.params@.len() ==> all_zero(#[trigger] opt.m@[idx]@)
    &&& forall|idx: int| 0 <= idx < opt.params@.len() ==> all_zero(#[trigger] opt.v@[idx]@)
}

/// Over the integers, a step of an optimizer at rest counts the step,
/// leaves the elements of every parameter as they are and the optimizer at
/// rest, so that any number of such steps leaves them as they are.
pub proof fn lemma_step_at_rest(earlier: Adam<i64>, later: Adam<i64>, r: Result<(), BellandeError>)
    requires
        earlier.wf(),
        at_rest(earlier),
        earlier.step < usize::MAX,
        stepped(earlier, later, r),
    ensures
        r is Ok,
        later.wf(),
        at_rest(later),
        later.step == earlier.step + 1,
        later.params@.len() == earlier.params@.len(),
        forall|idx: int|
            0 <= idx < earlier.params@.len() ==> (#[trigger] later.params@[idx]).data@
                == earlier.params@[idx].data@,
{
    assert forall|idx: int| 0 <= idx < earlier.params@.len() implies (#[trigger] later.params@[idx]).data@
        == earlier.params@[idx].data@ && later.params@[idx].grad is Some && all_zero(
        later.params@[idx].grad->0@,
    ) by {
        let before = earlier.params@[idx];
        let after = later.params@[idx];
        assert(before.wf());
        assert(same_but_data(before, after));
        assert(all_zero(earlier.m@[idx]@));
        assert(all_zero(earlier.v@[idx]@));
        assert forall|i: int| 0 <= i < before.data@.len() implies after.data@[i]
            == before.data@[i] by {
            assert(before.grad->0@[i] == 0);
            assert(earlier.m@[idx]@[i] == 0);
            assert(earlier.v@[idx]@[i] == 0);
            assert(after.data@[i] == earlier.element_after(idx, i));
            lemma_zero_gradient_keeps_element(earlier, idx, i);
        }
        assert(after.data@ =~= before.data@);
    }
    assert forall|idx: int| 0 <= idx < later.params@.len() implies all_zero(
        #[trigger] later.m@[idx]@,
    ) by {
        let before = earlier.params@[idx];
        assert(before.wf());
        assert(all_zero(earlier.m@[idx]@));
        assert(all_zero(earlier.v@[idx]@));
        assert forall|i: int| 0 <= i < later.m@[idx]@.len() implies later.m@[idx]@[i] == 0 by {
            assert(later.m@[idx]@[i] == earlier.first_after(idx, i));
            assert(later.m@[idx]@.len() == earlier.m@[idx]@.len());
            assert(before.grad->0@[i] == 0);
            assert(earlier.m@[idx]@[i] == 0);
            assert(earlier.v@[idx]@[i] == 0);
            lemma_zero_gradient_keeps_element(earlier, idx, i);
        }
    }
    assert forall|idx: int| 0 <= idx < later.params@.len() implies all_zero(
        #[trigger] later.v@[idx]@,
    ) by {
        let before = earlier.params@[idx];
        assert(before.wf());
        assert(all_zero(earlier.m@[idx]@));
        assert(all_zero(earlier.v@[idx]@));
        assert forall|i: int| 0 <= i < later.v@[idx]@.len() implies later.v@[idx]@[i] == 0 by {
            assert(later.v@[idx]@[i] == earlier.second_after(idx, i));
            assert(later.v@[idx]@.len() == earlier.v@[idx]@.len());
            assert(before.grad->0@[i] == 0);
            assert(earlier.m@[idx]@[i] == 0);
            assert(earlier.v@[idx]@[i] == 0);
            lemma_zero_gradient_keeps_element(earlier, idx, i);
        }
    }
}

} // verus!
