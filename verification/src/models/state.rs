//! The parameters of a model under layer-qualified names, saved to a
//! state and loaded from one.

use vstd::prelude::*;
use crate::error::BellandeError;
use crate::layer::batch_norm::{BatchNorm, BatchNorm1d, BatchNorm2d};
use crate::layer::conv::Conv2d;
use crate::layer::linear::Linear;
use crate::layer::Layer;
use crate::models::sequential::{layers_wf, Sequential};
use crate::scalar::Scalar;
use crate::shape::same_shape;
use crate::tensor::Tensor;

verus! {

/// Which parameter of a layer: its weight, or scale, or its bias, or shift.
#[derive(Clone, Copy, Debug, PartialEq, Eq, Structural)]
pub enum ParameterRole {
    Weight,
    Bias,
}

/// A parameter under its layer-qualified name: the position of its layer
/// in the model and its role in the layer.
pub struct NamedParameter<T> {
    pub layer: usize,
    pub role: ParameterRole,
    pub tensor: Tensor<T>,
}

/// The parameter of a layer in the given role, if the layer has one.
pub open spec fn parameter_of<T: Scalar>(layer: Layer<T>, role: ParameterRole) -> Option<Tensor<T>> {
    match (layer, role) {
        (Layer::Linear(l), ParameterRole::Weight) => Some(l.weight),
        (Layer::Linear(l), ParameterRole::Bias) => l.bias,
        (Layer::Conv2d(l), ParameterRole::Weight) => Some(l.weight),
        (Layer::Conv2d(l), ParameterRole::Bias) => l.bias,
        (Layer::BatchNorm1d(l), ParameterRole::Weight) => l.norm.weight,
        (Layer::BatchNorm1d(l), ParameterRole::Bias) => l.norm.bias,
        (Layer::BatchNorm2d(l), ParameterRole::Weight) => l.norm.weight,
        (Layer::BatchNorm2d(l), ParameterRole::Bias) => l.norm.bias,
        _ => None,
    }
}

/// The position of the first entry of `state` under the given name among
/// the entries from `from` on, if there is one.
pub open spec fn find<T: Scalar>(
    state: Seq<NamedParameter<T>>,
    layer: int,
    role: ParameterRole,
    from: int,
) -> Option<int>
    decreases state.len() - from,
{
    if from < 0 || from >= state.len() {
        None
    } else if state[from].layer == layer && state[from].role == role {
        Some(from)
    } else {
        find(state, layer, role, from + 1)
    }
}

/// Whether `state` holds, for the given parameter, an entry of its shape.
pub open spec fn provides<T: Scalar>(
    state: Seq<NamedParameter<T>>,
    layer: int,
    role: ParameterRole,
    parameter: Tensor<T>,
) -> bool {
    find(state, layer, role, 0) matches Some(k) && state[k].tensor.shape@ == parameter.shape@
}

/// Whether `state` names every parameter of the layers.
pub open spec fn names_all<T: Scalar>(layers: Seq<Layer<T>>, state: Seq<NamedParameter<T>>) -> bool {
    forall|i: int, role: ParameterRole|
        0 <= i < layers.len() && (#[trigger] parameter_of(layers[i], role)) is Some ==> find(
            state,
            i,
            role,
            0,
        ) is Some
}

/// Whether `state` provides every parameter of the layers.
pub open spec fn provides_all<T: Scalar>(layers: Seq<Layer<T>>, state: Seq<NamedParameter<T>>) -> bool {
    forall|i: int, role: ParameterRole|
        0 <= i < layers.len() && (#[trigger] parameter_of(layers[i], role)) is Some ==> provides(
            state,
            i,
            role,
            parameter_of(layers[i], role)->0,
        )
}

/// Whether parameter `after` is parameter `before` with the elements of
/// `loaded`: shape, flags and gradient are those of before.
pub open spec fn loaded_from<T: Scalar>(before: Tensor<T>, after: Tensor<T>, loaded: Tensor<T>) -> bool {
    &&& after.data@ == loaded.data@
    &&& after.shape@ == before.shape@
    &&& after.requires_grad == before.requires_grad
    &&& after.grad == before.grad
    &&& after.grad_fn == before.grad_fn
    &&& after.device == before.device
    &&& after.dtype == before.dtype
}

fn find_exec<T: Scalar>(state: &Vec<NamedParameter<T>>, layer: usize, role: ParameterRole) -> (r:
    Option<usize>)
    ensures
        match r {
            Some(k) => find(state@, layer as int, role, 0) == Some(k as int) && k < state@.len(),
            None => find(state@, layer as int, role, 0) is None,
        },
{
    let n = state.len();
    let mut k: usize = 0;
    while k < n
        invariant
            k <= n,
            n == state@.len(),
            find(state@, layer as int, role, 0) == find(state@, layer as int, role, k as int),
        decreases n - k,
    {
        if state[k].layer == layer && state[k].role == role {
            return Some(k);
        }
        k = k + 1;
    }
    None
}

impl<T: Scalar> Layer<T> {
    /// A reference to the parameter of the layer in the given role.
    pub fn parameter(&self, role: ParameterRole) -> (r: Option<&Tensor<T>>)
        ensures
            r is Some == parameter_of(*self, role) is Some,
            r matches Some(t) ==> *t == parameter_of(*self, role)->0,
    {
        match self {
            Layer::Linear(l) => match role {
                ParameterRole::Weight => Some(&l.weight),
                ParameterRole::Bias => l.bias.as_ref(),
            },
            Layer::Conv2d(l) => match role {
                ParameterRole::Weight => Some(&l.weight),
                ParameterRole::Bias => l.bias.as_ref(),
            },
            Layer::BatchNorm1d(l) => match role {
                ParameterRole::Weight => l.norm.weight.as_ref(),
                ParameterRole::Bias => l.norm.bias.as_ref(),
            },
            Layer::BatchNorm2d(l) => match role {
                ParameterRole::Weight => l.norm.weight.as_ref(),
                ParameterRole::Bias => l.norm.bias.as_ref(),
            },
            _ => None,
        }
    }

    /// The layer with `tensor` as its parameter of the given role, and
    /// every other field as it is: the other parameter, the running
    /// statistics, the settings and what was kept for `backward`. A layer
    /// without parameters is itself.
    pub open spec fn with_tensor(layer: Layer<T>, role: ParameterRole, tensor: Tensor<T>) -> Layer<
        T,
    > {
        match (layer, role) {
            (Layer::Linear(l), ParameterRole::Weight) => Layer::Linear(
                Linear { weight: tensor, ..l },
            ),
            (Layer::Linear(l), ParameterRole::Bias) => Layer::Linear(
                Linear { bias: Some(tensor), ..l },
            ),
            (Layer::Conv2d(l), ParameterRole::Weight) => Layer::Conv2d(
                Conv2d { weight: tensor, ..l },
            ),
            (Layer::Conv2d(l), ParameterRole::Bias) => Layer::Conv2d(
                Conv2d { bias: Some(tensor), ..l },
            ),
            (Layer::BatchNorm1d(l), ParameterRole::Weight) => Layer::BatchNorm1d(
                BatchNorm1d { norm: BatchNorm { weight: Some(tensor), ..l.norm } },
            ),
            (Layer::BatchNorm1d(l), ParameterRole::Bias) => Layer::BatchNorm1d(
                BatchNorm1d { norm: BatchNorm { bias: Some(tensor), ..l.norm } },
            ),
            (Layer::BatchNorm2d(l), ParameterRole::Weight) => Layer::BatchNorm2d(
                BatchNorm2d { norm: BatchNorm { weight: Some(tensor), ..l.norm } },
            ),
            (Layer::BatchNorm2d(l), ParameterRole::Bias) => Layer::BatchNorm2d(
                BatchNorm2d { norm: BatchNorm { bias: Some(tensor), ..l.norm } },
            ),
            _ => layer,
        }
    }

    /// The layer with `tensor` as its parameter of the given role, if
    /// there is one, and itself otherwise.
    pub open spec fn with_optional(
        layer: Layer<T>,
        role: ParameterRole,
        tensor: Option<Tensor<T>>,
    ) -> Layer<T> {
        match tensor {
            Some(t) => Self::with_tensor(layer, role, t),
            None => layer,
        }
    }

    /// Whether `after` is `before` but for its parameters: every other
    /// field is as it was.
    pub open spec fn same_but_parameters(before: Layer<T>, after: Layer<T>) -> bool {
        after == Self::with_optional(
            Self::with_optional(
                before,
                ParameterRole::Weight,
                parameter_of(after, ParameterRole::Weight),
            ),
            ParameterRole::Bias,
            parameter_of(after, ParameterRole::Bias),
        )
    }

    /// Whether `after` is `before` with the elements of `loaded` in the
    /// parameter of the given role.
    pub open spec fn with_parameter(
        before: Layer<T>,
        after: Layer<T>,
        role: ParameterRole,
        loaded: Tensor<T>,
    ) -> bool {
        let other = if role == ParameterRole::Weight {
            ParameterRole::Bias
        } else {
            ParameterRole::Weight
        };
        &&& after.wf()
        &&& after.kind_spec() == before.kind_spec()
        &&& parameter_of(after, role) is Some
        &&& loaded_from(parameter_of(before, role)->0, parameter_of(after, role)->0, loaded)
        &&& parameter_of(after, other) == parameter_of(before, other)
        &&& after == Self::with_tensor(before, role, parameter_of(after, role)->0)
    }

    /// Replaces the elements of the parameter of the given role.
    pub fn set_parameter(&mut self, role: ParameterRole, values: &Tensor<T>)
        requires
            old(self).wf(),
            values.wf(),
            parameter_of(*old(self), role) matches Some(p) && p.shape@ == values.shape@,
        ensures
            Self::with_parameter(*old(self), *final(self), role, *values),
    {
        let data = crate::kernels::copied(&values.data);
        match self {
            Layer::Linear(l) => match role {
                ParameterRole::Weight => {
                    l.weight.data = data;
                },
                ParameterRole::Bias => match &mut l.bias {
                    Some(b) => {
                        b.data = data;
                    },
                    None => {},
                },
            },
            Layer::Conv2d(l) => match role {
                ParameterRole::Weight => {
                    l.weight.data = data;
                },
                ParameterRole::Bias => match &mut l.bias {
                    Some(b) => {
                        b.data = data;
                    },
                    None => {},
                },
            },
            Layer::BatchNorm1d(l) => match role {
                ParameterRole::Weight => match &mut l.norm.weight {
                    Some(b) => {
                        b.data = data;
                    },
                    None => {},
                },
                ParameterRole::Bias => match &mut l.norm.bias {
                    Some(b) => {
                        b.data = data;
                    },
                    None => {},
                },
            },
            Layer::BatchNorm2d(l) => match role {
                ParameterRole::Weight => match &mut l.norm.weight {
                    Some(b) => {
                        b.data = data;
                    },
                    None => {},
                },
                ParameterRole::Bias => match &mut l.norm.bias {
                    Some(b) => {
                        b.data = data;
                    },
                    None => {},
                },
            },
            _ => {},
        }
    }
}

/// Whether `state` is the state of the layers: it holds, under the name of
/// every parameter, the elements and the shape of the parameter.
pub open spec fn state_of<T: Scalar>(layers: Seq<Layer<T>>, state: Seq<NamedParameter<T>>) -> bool {
    forall|i: int, role: ParameterRole|
        0 <= i < layers.len() && (#[trigger] parameter_of(layers[i], role)) is Some ==> {
            let p = parameter_of(layers[i], role)->0;
            find(state, i, role, 0) matches Some(k) && state[k].tensor.data@ == p.data@
                && state[k].tensor.shape@ == p.shape@
        }
}

/// Appending an entry does not disturb the entries found before it, and is
/// found under its own name if nothing was.
proof fn lemma_find_push<T: Scalar>(
    state: Seq<NamedParameter<T>>,
    entry: NamedParameter<T>,
    layer: int,
    role: ParameterRole,
    from: int,
)
    requires
        0 <= from <= state.len(),
    ensures
        find(state, layer, role, from) is Some ==> find(state.push(entry), layer, role, from)
            == find(state, layer, role, from),
        find(state, layer, role, from) is None ==> find(state.push(entry), layer, role, from) == if entry.layer
            == layer && entry.role == role {
            Some(state.len() as int)
        } else {
            None
        },
        find(state, layer, role, from) matches Some(k) ==> from <= k < state.len(),
    decreases state.len() - from,
{
    let grown = state.push(entry);
    if from < state.len() {
        assert(grown[from] == state[from]);
        if !(state[from].layer == layer && state[from].role == role) {
            lemma_find_push(state, entry, layer, role, from + 1);
        }
    } else {
        assert(grown[from] == entry);
        assert(find(grown, layer, role, from + 1) is None);
    }
}

impl<T: Scalar> Sequential<T> {
    /// The state of the model: a copy of every parameter under its name,
    /// layer by layer, weight before bias.
    pub fn state_dict(&self) -> (r: Vec<NamedParameter<T>>)
        requires
            self.wf(),
        ensures
            state_of(self.layers@, r@),
            forall|k: int| 0 <= k < r@.len() ==> (#[trigger] r@[k]).tensor.wf(),
    {
        let n = self.layers.len();
        let mut state: Vec<NamedParameter<T>> = Vec::new();
        let mut i: usize = 0;
        while i < n
            invariant
                i <= n,
                n == self.layers@.len(),
                self.wf(),
                forall|k: int| 0 <= k < state@.len() ==> (#[trigger] state@[k]).tensor.wf(),
                forall|k: int| 0 <= k < state@.len() ==> (#[trigger] state@[k]).layer < i,
                forall|j: int, role: ParameterRole|
                    0 <= j < i && (#[trigger] parameter_of(self.layers@[j], role)) is Some ==> {
                        let p = parameter_of(self.layers@[j], role)->0;
                        find(state@, j, role, 0) matches Some(k) && state@[k].tensor.data@
                            == p.data@ && state@[k].tensor.shape@ == p.shape@
                    },
            decreases n - i,
        {
            let ghost before = state@;
            proof {
                lemma_absent(before, i as int, ParameterRole::Weight, 0);
                lemma_absent(before, i as int, ParameterRole::Bias, 0);
            }
            match self.layers[i].parameter(ParameterRole::Weight) {
                Some(t) => {
                    let entry = NamedParameter {
                        layer: i,
                        role: ParameterRole::Weight,
                        tensor: t.duplicate(),
                    };
                    proof {
                        assert forall|j: int, role: ParameterRole|
                            0 <= j < i && (#[trigger] parameter_of(self.layers@[j], role))
                                is Some implies find(state@.push(entry), j, role, 0) == find(
                            state@,
                            j,
                            role,
                            0,
                        ) by {
                            lemma_find_push(state@, entry, j, role, 0);
                        }
                        lemma_find_push(state@, entry, i as int, ParameterRole::Weight, 0);
                        lemma_find_push(state@, entry, i as int, ParameterRole::Bias, 0);
                    }
                    state.push(entry);
                },
                None => {},
            }
            let ghost middle = state@;
            match self.layers[i].parameter(ParameterRole::Bias) {
                Some(t) => {
                    let entry = NamedParameter {
                        layer: i,
                        role: ParameterRole::Bias,
                        tensor: t.duplicate(),
                    };
                    proof {
                        assert forall|j: int, role: ParameterRole|
                            0 <= j < i && (#[trigger] parameter_of(self.layers@[j], role))
                                is Some implies find(state@.push(entry), j, role, 0) == find(
                            state@,
                            j,
                            role,
                            0,
                        ) by {
                            lemma_find_push(state@, entry, j, role, 0);
                        }
                        lemma_find_push(state@, entry, i as int, ParameterRole::Weight, 0);
                        lemma_find_push(state@, entry, i as int, ParameterRole::Bias, 0);
                    }
                    state.push(entry);
                },
                None => {},
            }
            proof {
                assert forall|j: int, role: ParameterRole|
                    0 <= j < i + 1 && (#[trigger] parameter_of(self.layers@[j], role))
                        is Some implies {
                    let p = parameter_of(self.layers@[j], role)->0;
                    find(state@, j, role, 0) matches Some(k) && state@[k].tensor.data@ == p.data@
                        && state@[k].tensor.shape@ == p.shape@
                } by {
                    if j < i {
                        let k = find(before, j, role, 0)->0;
                        lemma_find_push(before, middle.last(), j, role, 0);
                        assert(state@[k] == before[k]);
                    }
                }
            }
            i = i + 1;
        }
        state
    }

    /// Whether the model is the model `before` with the parameters of
    /// `state`: every parameter holds the elements of the first entry of
    /// its name, and nothing else has changed.
    pub open spec fn loaded(before: Self, after: Self, state: Seq<NamedParameter<T>>) -> bool {
        &&& after.wf()
        &&& after.training == before.training
        &&& after.layers@.len() == before.layers@.len()
        &&& forall|i: int|
            0 <= i < before.layers@.len() ==> (#[trigger] after.layers@[i]).kind_spec()
                == before.layers@[i].kind_spec()
        &&& forall|i: int, role: ParameterRole|
            0 <= i < before.layers@.len() && (#[trigger] parameter_of(before.layers@[i], role))
                is Some ==> parameter_of(after.layers@[i], role) is Some && loaded_from(
                parameter_of(before.layers@[i], role)->0,
                parameter_of(after.layers@[i], role)->0,
                state[find(state, i, role, 0)->0].tensor,
            )
        &&& forall|i: int|
            0 <= i < before.layers@.len() ==> Layer::same_but_parameters(
                before.layers@[i],
                #[trigger] after.layers@[i],
            )
    }

    /// Loads the parameters of a state into the model.
    ///
    /// Fails, changing nothing, with `SerializationError` when the state
    /// does not name every parameter of the model, and with
    /// `DimensionMismatch` when it names them all but holds one under
    /// another shape.
    pub fn load_state_dict(&mut self, state: &Vec<NamedParameter<T>>) -> (r: Result<
        (),
        BellandeError,
    >)
        requires
            old(self).wf(),
            forall|k: int| 0 <= k < state@.len() ==> (#[trigger] state@[k]).tensor.wf(),
        ensures
            match r {
                Ok(_) => provides_all(old(self).layers@, state@) && Self::loaded(
                    *old(self),
                    *final(self),
                    state@,
                ),
                Err(BellandeError::SerializationError) => !names_all(old(self).layers@, state@)
                    && *final(self) == *old(self),
                Err(BellandeError::DimensionMismatch) => names_all(old(self).layers@, state@)
                    && !provides_all(old(self).layers@, state@) && *final(self) == *old(self),
                Err(_) => false,
            },
    {
        let n = self.layers.len();
        let mut i: usize = 0;
        while i < n
            invariant
                i <= n,
                n == self.layers@.len(),
                *self == *old(self),
                forall|j: int, role: ParameterRole|
                    0 <= j < i && (#[trigger] parameter_of(self.layers@[j], role)) is Some
                        ==> find(state@, j, role, 0) is Some,
            decreases n - i,
        {
            if self.layers[i].parameter(ParameterRole::Weight).is_some() && find_exec(
                state,
                i,
                ParameterRole::Weight,
            ).is_none() {
                assert(parameter_of(self.layers@[i as int], ParameterRole::Weight) is Some);
                return Err(BellandeError::SerializationError);
            }
            if self.layers[i].parameter(ParameterRole::Bias).is_some() && find_exec(
                state,
                i,
                ParameterRole::Bias,
            ).is_none() {
                assert(parameter_of(self.layers@[i as int], ParameterRole::Bias) is Some);
                return Err(BellandeError::SerializationError);
            }
            proof {
                assert forall|j: int, role: ParameterRole|
                    0 <= j < i + 1 && (#[trigger] parameter_of(self.layers@[j], role))
                        is Some implies find(state@, j, role, 0) is Some by {
                    if j == i {
                        if role == ParameterRole::Weight {
                        } else {
                        }
                    }
                }
            }
            i = i + 1;
        }
        let mut i: usize = 0;
        while i < n
            invariant
                i <= n,
                n == self.layers@.len(),
                *self == *old(self),
                names_all(self.layers@, state@),
                forall|j: int, role: ParameterRole|
                    0 <= j < i && (#[trigger] parameter_of(self.layers@[j], role)) is Some
                        ==> provides(state@, j, role, parameter_of(self.layers@[j], role)->0),
            decreases n - i,
        {
            if !Self::shape_provided(&self.layers[i], state, i, ParameterRole::Weight)
                || !Self::shape_provided(&self.layers[i], state, i, ParameterRole::Bias) {
                proof {
                    let role = if !provides(
                        state@,
                        i as int,
                        ParameterRole::Weight,
                        parameter_of(self.layers@[i as int], ParameterRole::Weight)->0,
                    ) && parameter_of(self.layers@[i as int], ParameterRole::Weight) is Some {
                        ParameterRole::Weight
                    } else {
                        ParameterRole::Bias
                    };
                    assert(parameter_of(self.layers@[i as int], role) is Some);
                }
                return Err(BellandeError::DimensionMismatch);
            }
            proof {
                assert forall|j: int, role: ParameterRole|
                    0 <= j < i + 1 && (#[trigger] parameter_of(self.layers@[j], role))
                        is Some implies provides(
                    state@,
                    j,
                    role,
                    parameter_of(self.layers@[j], role)->0,
                ) by {
                    if j == i {
                        if role == ParameterRole::Weight {
                        } else {
                        }
                    }
                }
            }
            i = i + 1;
        }
        let mut i: usize = 0;
        while i < n
            invariant
                i <= n,
                n == self.layers@.len(),
                n == old(self).layers@.len(),
                self.training == old(self).training,
                layers_wf(self.layers@),
                provides_all(old(self).layers@, state@),
                forall|k: int| 0 <= k < state@.len() ==> (#[trigger] state@[k]).tensor.wf(),
                forall|j: int| i <= j < n ==> self.layers@[j] == old(self).layers@[j],
                forall|j: int|
                    0 <= j < i ==> (#[trigger] self.layers@[j]).kind_spec() == old(self).layers@[j].kind_spec(),
                forall|j: int, role: ParameterRole|
                    0 <= j < i && (#[trigger] parameter_of(old(self).layers@[j], role)) is Some
                        ==> parameter_of(self.layers@[j], role) is Some && loaded_from(
                        parameter_of(old(self).layers@[j], role)->0,
                        parameter_of(self.layers@[j], role)->0,
                        state@[find(state@, j, role, 0)->0].tensor,
                    ),
                forall|j: int|
                    0 <= j < i ==> Layer::same_but_parameters(
                        old(self).layers@[j],
                        #[trigger] self.layers@[j],
                    ),
            decreases n - i,
        {
            let ghost start = self.layers@[i as int];
            assert(parameter_of(start, ParameterRole::Weight) is Some ==> provides(
                state@,
                i as int,
                ParameterRole::Weight,
                parameter_of(start, ParameterRole::Weight)->0,
            ));
            assert(parameter_of(start, ParameterRole::Bias) is Some ==> provides(
                state@,
                i as int,
                ParameterRole::Bias,
                parameter_of(start, ParameterRole::Bias)->0,
            ));
            if self.layers[i].parameter(ParameterRole::Weight).is_some() {
                match find_exec(state, i, ParameterRole::Weight) {
                    Some(k) => {
                        self.layers[i].set_parameter(ParameterRole::Weight, &state[k].tensor);
                    },
                    None => {},
                }
            }
            let ghost middle = self.layers@[i as int];
            if self.layers[i].parameter(ParameterRole::Bias).is_some() {
                match find_exec(state, i, ParameterRole::Bias) {
                    Some(k) => {
                        self.layers[i].set_parameter(ParameterRole::Bias, &state[k].tensor);
                    },
                    None => {},
                }
            }
            proof {
                let end = self.layers@[i as int];
                assert(Layer::same_but_parameters(start, middle));
                assert(Layer::same_but_parameters(start, end));
                assert forall|j: int, role: ParameterRole|
                    0 <= j < i + 1 && (#[trigger] parameter_of(old(self).layers@[j], role))
                        is Some implies parameter_of(self.layers@[j], role) is Some && loaded_from(
                    parameter_of(old(self).layers@[j], role)->0,
                    parameter_of(self.layers@[j], role)->0,
                    state@[find(state@, j, role, 0)->0].tensor,
                ) by {
                    if j == i {
                        if role == ParameterRole::Weight {
                            assert(parameter_of(middle, role) is Some);
                        } else {
                            assert(parameter_of(end, role) is Some);
                        }
                    }
                }
            }
            i = i + 1;
        }
        Ok(())
    }

    /// Whether the state holds the parameter of the layer in the given
    /// role, if the layer has one, under its own shape.
    fn shape_provided(
        layer: &Layer<T>,
        state: &Vec<NamedParameter<T>>,
        at: usize,
        role: ParameterRole,
    ) -> (r: bool)
        requires
            parameter_of(*layer, role) is Some ==> find(state@, at as int, role, 0) is Some,
        ensures
            r == (parameter_of(*layer, role) is Some ==> provides(
                state@,
                at as int,
                role,
                parameter_of(*layer, role)->0,
            )),
    {
        match layer.parameter(role) {
            Some(p) => match find_exec(state, at, role) {
                Some(k) => same_shape(&state[k].tensor.shape, &p.shape),
                None => false,
            },
            None => true,
        }
    }
}

/// Nothing is found under a name whose layer no entry has.
proof fn lemma_absent<T: Scalar>(state: Seq<NamedParameter<T>>, layer: int, role: ParameterRole, from: int)
    requires
        0 <= from <= state.len(),
        forall|k: int| 0 <= k < state.len() ==> (#[trigger] state[k]).layer < layer,
    ensures
        find(state, layer, role, from) is None,
    decreases state.len() - from,
{
    if from < state.len() {
        lemma_absent(state, layer, role, from + 1);
    }
}

/// Round trip: the state of a model provides every parameter of the model,
/// each with the elements it has, so that loading it succeeds and leaves
/// the elements of every parameter as they are.
pub proof fn lemma_state_round_trip<T: Scalar>(layers: Seq<Layer<T>>, state: Seq<NamedParameter<T>>)
    requires
        state_of(layers, state),
    ensures
        names_all(layers, state),
        provides_all(layers, state),
        forall|i: int, role: ParameterRole|
            0 <= i < layers.len() && (#[trigger] parameter_of(layers[i], role)) is Some ==> state[find(
                state,
                i,
                role,
                0,
            )->0].tensor.data@ == parameter_of(layers[i], role)->0.data@,
{
}

} // verus!
