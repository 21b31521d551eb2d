//! Handing a model its parameters back by position: the way from an
//! optimizer, which holds them as a list, to the layers that own them.

use vstd::prelude::*;
use crate::error::BellandeError;
use crate::layer::Layer;
use crate::models::sequential::{layers_wf, parameters_of, Sequential};
use crate::models::state::{loaded_from, parameter_of, ParameterRole};
use crate::scalar::Scalar;
use crate::shape::same_shape;
use crate::tensor::Tensor;

verus! {

/// The position of the parameter of layer `i` in the given role among the
/// parameters of the layers, listed layer by layer, weight before bias.
pub open spec fn position<T: Scalar>(layers: Seq<Layer<T>>, i: int, role: ParameterRole) -> int {
    parameters_of(layers, i as nat).len() + (if role == ParameterRole::Bias && parameter_of(
        layers[i],
        ParameterRole::Weight,
    ) is Some {
        1int
    } else {
        0int
    })
}

/// The parameters of a layer are its weight and its bias, as far as it has
/// them.
pub proof fn lemma_layer_parameters<T: Scalar>(layer: Layer<T>)
    ensures
        layer.parameters_spec() == Layer::optional_pair(
            parameter_of(layer, ParameterRole::Weight),
            parameter_of(layer, ParameterRole::Bias),
        ),
{
}

/// The parameters of the first layers are the first parameters of more
/// layers.
pub proof fn lemma_parameters_prefix<T: Scalar>(layers: Seq<Layer<T>>, i: nat, n: nat)
    requires
        i <= n,
    ensures
        parameters_of(layers, i).len() <= parameters_of(layers, n).len(),
        forall|k: int|
            0 <= k < parameters_of(layers, i).len() ==> #[trigger] parameters_of(layers, n)[k]
                == parameters_of(layers, i)[k],
    decreases n - i,
{
    if i < n {
        lemma_parameters_prefix(layers, i, (n - 1) as nat);
    }
}

/// A parameter of a layer stands at its position among the parameters of
/// the layers.
pub proof fn lemma_parameter_position<T: Scalar>(
    layers: Seq<Layer<T>>,
    i: int,
    role: ParameterRole,
    n: nat,
)
    requires
        0 <= i < n,
        parameter_of(layers[i], role) is Some,
    ensures
        0 <= position(layers, i, role) < parameters_of(layers, n).len(),
        parameters_of(layers, n)[position(layers, i, role)] == parameter_of(layers[i], role)->0,
{
    lemma_parameters_prefix(layers, (i + 1) as nat, n);
    lemma_layer_parameters(layers[i]);
    let before = parameters_of(layers, i as nat);
    let own = layers[i].parameters_spec();
    assert(parameters_of(layers, (i + 1) as nat) == before + own);
    let at = position(layers, i, role);
    assert(own[at - before.len()] == parameter_of(layers[i], role)->0);
    assert((before + own)[at] == own[at - before.len()]);
}

impl<T: Scalar> Sequential<T> {
    /// Whether `params` can take the place of the parameters of the model:
    /// it holds as many tensors, each well formed and of the shape of the
    /// parameter at its position.
    pub open spec fn accepts_parameters(&self, params: Seq<Tensor<T>>) -> bool {
        let own = parameters_of(self.layers@, self.layers@.len());
        &&& params.len() == own.len()
        &&& forall|k: int|
            0 <= k < params.len() ==> (#[trigger] params[k]).wf() && params[k].shape@
                == own[k].shape@
    }

    /// Whether the model is the model `before` with the elements of
    /// `params`: every parameter holds the elements of the tensor at its
    /// position, and nothing else has changed.
    pub open spec fn assigned(before: Self, after: Self, params: Seq<Tensor<T>>) -> bool {
        &&& after.wf()
        &&& after.training == before.training
        &&& after.layers@.len() == before.layers@.len()
        &&& forall|i: int|
            0 <= i < before.layers@.len() ==> (#[trigger] after.layers@[i]).kind_spec()
                == before.layers@[i].kind_spec()
        &&& forall|i: int, role: ParameterRole|
            0 <= i < before.layers@.len() && (#[trigger] parameter_of(before.layers@[i], role))
                is Some ==> parameter_of(after.layers@[i], role) is Some && loaded_from(
                parameter_of(before.layers@[i], role)->0,
                parameter_of(after.layers@[i], role)->0,
                params[position(before.layers@, i, role)],
            )
        &&& forall|i: int, role: ParameterRole|
            0 <= i < before.layers@.len() && (#[trigger] parameter_of(after.layers@[i], role))
                is Some ==> parameter_of(before.layers@[i], role) is Some
        &&& forall|i: int|
            0 <= i < before.layers@.len() ==> Layer::same_but_parameters(
                before.layers@[i],
                #[trigger] after.layers@[i],
            )
    }

    fn fits(&self, params: &Vec<Tensor<T>>) -> (r: bool)
        requires
            self.wf(),
        ensures
            r == self.accepts_parameters(params@),
    {
        let own = self.parameters();
        if params.len() != own.len() {
            return false;
        }
        let n = params.len();
        let mut k: usize = 0;
        while k < n
            invariant
                k <= n,
                n == params@.len(),
                n == own@.len(),
                Layer::copies_of(own@, parameters_of(self.layers@, self.layers@.len())),
                forall|j: int|
                    0 <= j < k ==> (#[trigger] params@[j]).wf() && params@[j].shape@
                        == own@[j].shape@,
            decreases n - k,
        {
            if !(params[k].is_wf() && same_shape(&params[k].shape, &own[k].shape)) {
                assert(!(params@[k as int].wf() && params@[k as int].shape@
                    == own@[k as int].shape@));
                assert(own@[k as int].shape@ == parameters_of(
                    self.layers@,
                    self.layers@.len(),
                )[k as int].shape@);
                return false;
            }
            k = k + 1;
        }
        assert forall|j: int| 0 <= j < n implies own@[j].shape@ == parameters_of(
            self.layers@,
            self.layers@.len(),
        )[j].shape@ by {
            assert(own@[j].wf());
        }
        true
    }

    /// Gives every parameter of the model the elements of the tensor at
    /// its position in `params`, which lists them as `parameters` does:
    /// layer by layer, weight before bias. Shapes, flags and gradients stay
    /// as they are.
    ///
    /// Fails with `DimensionMismatch`, changing nothing, unless `params`
    /// holds as many tensors as the model has parameters, each well formed
    /// and of the shape of the parameter at its position.
    pub fn set_parameters(&mut self, params: &Vec<Tensor<T>>) -> (r: Result<(), BellandeError>)
        requires
            old(self).wf(),
        ensures
            match r {
                Ok(_) => old(self).accepts_parameters(params@) && Self::assigned(
                    *old(self),
                    *final(self),
                    params@,
                ),
                Err(BellandeError::DimensionMismatch) => !old(self).accepts_parameters(params@)
                    && *final(self) == *old(self),
                Err(_) => false,
            },
    {
        if !self.fits(params) {
            return Err(BellandeError::DimensionMismatch);
        }
        let n = self.layers.len();
        let total = params.len();
        let ghost all = parameters_of(old(self).layers@, n as nat);
        let mut i: usize = 0;
        let mut k: usize = 0;
        while i < n
            invariant
                i <= n,
                total == params@.len(),
                n == self.layers@.len(),
                n == old(self).layers@.len(),
                self.training == old(self).training,
                layers_wf(self.layers@),
                old(self).accepts_parameters(params@),
                all == parameters_of(old(self).layers@, n as nat),
                k == parameters_of(old(self).layers@, i as nat).len(),
                k <= params@.len(),
                forall|j: int| i <= j < n ==> self.layers@[j] == old(self).layers@[j],
                forall|j: int|
                    0 <= j < i ==> (#[trigger] self.layers@[j]).kind_spec() == old(self).layers@[j].kind_spec(),
                forall|j: int, role: ParameterRole|
                    0 <= j < i && (#[trigger] parameter_of(old(self).layers@[j], role)) is Some
                        ==> parameter_of(self.layers@[j], role) is Some && loaded_from(
                        parameter_of(old(self).layers@[j], role)->0,
                        parameter_of(self.layers@[j], role)->0,
                        params@[position(old(self).layers@, j, role)],
                    ),
                forall|j: int, role: ParameterRole|
                    0 <= j < i && (#[trigger] parameter_of(self.layers@[j], role)) is Some
                        ==> parameter_of(old(self).layers@[j], role) is Some,
                forall|j: int|
                    0 <= j < i ==> Layer::same_but_parameters(
                        old(self).layers@[j],
                        #[trigger] self.layers@[j],
                    ),
            decreases n - i,
        {
            let ghost start = self.layers@[i as int];
            let ghost first = k as int;
            proof {
                lemma_layer_parameters(start);
                lemma_parameters_prefix(old(self).layers@, (i + 1) as nat, n as nat);
                if parameter_of(start, ParameterRole::Weight) is Some {
                    lemma_parameter_position(
                        old(self).layers@,
                        i as int,
                        ParameterRole::Weight,
                        n as nat,
                    );
                }
                if parameter_of(start, ParameterRole::Bias) is Some {
                    lemma_parameter_position(
                        old(self).layers@,
                        i as int,
                        ParameterRole::Bias,
                        n as nat,
                    );
                }
            }
            if self.layers[i].parameter(ParameterRole::Weight).is_some() {
                assert(position(old(self).layers@, i as int, ParameterRole::Weight) == k);
                assert(k < total);
                assert(params@[k as int].wf());
                self.layers[i].set_parameter(ParameterRole::Weight, &params[k]);
                k = k + 1;
            }
            let ghost middle = self.layers@[i as int];
            if self.layers[i].parameter(ParameterRole::Bias).is_some() {
                assert(parameter_of(start, ParameterRole::Bias) is Some);
                assert(position(old(self).layers@, i as int, ParameterRole::Bias) == k);
                assert(k < total);
                assert(params@[k as int].wf());
                self.layers[i].set_parameter(ParameterRole::Bias, &params[k]);
                k = k + 1;
            }
            proof {
                let end = self.layers@[i as int];
                assert(Layer::same_but_parameters(start, middle));
                assert(Layer::same_but_parameters(start, end));
                assert forall|j: int, role: ParameterRole|
                    0 <= j < i + 1 && (#[trigger] parameter_of(old(self).layers@[j], role))
                        is Some implies parameter_of(self.layers@[j], role) is Some && loaded_from(
                    parameter_of(old(self).layers@[j], role)->0,
                    parameter_of(self.layers@[j], role)->0,
                    params@[position(old(self).layers@, j, role)],
                ) by {
                    if j == i {
                        if role == ParameterRole::Weight {
                            assert(parameter_of(middle, role) is Some);
                            assert(position(old(self).layers@, j, role) == first);
                        } else {
                            assert(parameter_of(end, role) is Some);
                        }
                    }
                }
                assert forall|j: int, role: ParameterRole|
                    0 <= j < i + 1 && (#[trigger] parameter_of(self.layers@[j], role))
                        is Some implies parameter_of(old(self).layers@[j], role) is Some by {
                    if j == i {
                        if role == ParameterRole::Weight {
                            assert(parameter_of(middle, role) is Some);
                        } else {
                            assert(parameter_of(end, role) is Some);
                        }
                    }
                }
            }
            i = i + 1;
        }
        Ok(())
    }
}

/// After the parameters were handed back, the parameters of the model hold
/// the elements that were handed back, position by position.
pub proof fn lemma_assigned_parameters<T: Scalar>(
    before: Sequential<T>,
    after: Sequential<T>,
    params: Seq<Tensor<T>>,
    i: int,
    role: ParameterRole,
)
    requires
        before.accepts_parameters(params),
        Sequential::assigned(before, after, params),
        0 <= i < before.layers@.len(),
        parameter_of(before.layers@[i], role) is Some,
    ensures
        position(after.layers@, i, role) == position(before.layers@, i, role),
        0 <= position(after.layers@, i, role) < params.len(),
        parameters_of(after.layers@, after.layers@.len())[position(after.layers@, i, role)].data@
            == params[position(before.layers@, i, role)].data@,
{
    lemma_same_counts(before, after, params, i as nat);
    lemma_parameter_position(before.layers@, i, role, before.layers@.len());
    assert(parameter_of(after.layers@[i], role) is Some);
    lemma_parameter_position(after.layers@, i, role, after.layers@.len());
    let other = ParameterRole::Weight;
    if parameter_of(before.layers@[i], other) is Some {
        assert(parameter_of(after.layers@[i], other) is Some);
    }
    lemma_layer_has(before, after, params, i);
}

/// A layer has the same parameters after as before.
proof fn lemma_layer_has<T: Scalar>(
    before: Sequential<T>,
    after: Sequential<T>,
    params: Seq<Tensor<T>>,
    i: int,
)
    requires
        Sequential::assigned(before, after, params),
        0 <= i < before.layers@.len(),
    ensures
        parameter_of(after.layers@[i], ParameterRole::Weight) is Some == parameter_of(
            before.layers@[i],
            ParameterRole::Weight,
        ) is Some,
        parameter_of(after.layers@[i], ParameterRole::Bias) is Some == parameter_of(
            before.layers@[i],
            ParameterRole::Bias,
        ) is Some,
        after.layers@[i].parameters_spec().len() == before.layers@[i].parameters_spec().len(),
{
    let weight = ParameterRole::Weight;
    let bias = ParameterRole::Bias;
    assert(parameter_of(before.layers@[i], weight) is Some ==> parameter_of(
        after.layers@[i],
        weight,
    ) is Some);
    assert(parameter_of(after.layers@[i], weight) is Some ==> parameter_of(
        before.layers@[i],
        weight,
    ) is Some);
    assert(parameter_of(before.layers@[i], bias) is Some ==> parameter_of(after.layers@[i], bias)
        is Some);
    assert(parameter_of(after.layers@[i], bias) is Some ==> parameter_of(before.layers@[i], bias)
        is Some);
    lemma_layer_parameters(before.layers@[i]);
    lemma_layer_parameters(after.layers@[i]);
}

/// The first layers have as many parameters after as before.
proof fn lemma_same_counts<T: Scalar>(
    before: Sequential<T>,
    after: Sequential<T>,
    params: Seq<Tensor<T>>,
    i: nat,
)
    requires
        Sequential::assigned(before, after, params),
        i <= before.layers@.len(),
    ensures
        parameters_of(after.layers@, i).len() == parameters_of(before.layers@, i).len(),
    decreases i,
{
    if i > 0 {
        lemma_same_counts(before, after, params, (i - 1) as nat);
        lemma_layer_has(before, after, params, i - 1);
    }
}

} // verus!
