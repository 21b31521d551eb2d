//! A model as a chain of layers: forward front to back, backward back to
//! front.

use vstd::prelude::*;
use crate::error::BellandeError;
use crate::layer::{Layer, LayerKind, LayerSettings};
use crate::scalar::{RandomSource, Scalar};
use crate::tensor::Tensor;

verus! {

/// An ordered sequence of layers: `forward` applies them front to back,
/// `backward` back to front.
pub struct Sequential<T> {
    pub layers: Vec<Layer<T>>,
    pub training: bool,
}

/// What layer `i` of a chain receives: the input of the chain for the
/// first layer, the output of the layer before it otherwise.
pub open spec fn fed<T: Scalar>(input: Tensor<T>, outs: Seq<Tensor<T>>, i: int) -> Tensor<T> {
    if i == 0 {
        input
    } else {
        outs[i - 1]
    }
}

/// The first `n` layers have each turned what they received into their
/// output of `outs`, changing from `before` to `after`.
pub open spec fn forward_chain<T: Scalar>(
    before: Seq<Layer<T>>,
    after: Seq<Layer<T>>,
    input: Tensor<T>,
    outs: Seq<Tensor<T>>,
    n: int,
) -> bool {
    &&& outs.len() == n
    &&& forall|i: int|
        0 <= i < n ==> Layer::forwarded(
            #[trigger] before[i],
            after[i],
            &fed(input, outs, i),
            Ok(outs[i]),
        )
}

/// What layer `i` of a chain of `len` layers receives on the way back: the
/// gradient of the chain's output for the last layer, the gradient that the
/// layer after it returned otherwise.
pub open spec fn fed_back<T: Scalar>(grad: Tensor<T>, gis: Seq<Tensor<T>>, i: int, len: int) -> Tensor<
    T,
> {
    if i == len - 1 {
        grad
    } else {
        gis[len - 2 - i]
    }
}

/// The last `n` layers have each turned the gradient they received into
/// the gradient with respect to their input; `gis` holds these in the order
/// in which they were computed, that of the last layer first.
pub open spec fn backward_chain<T: Scalar>(
    before: Seq<Layer<T>>,
    after: Seq<Layer<T>>,
    grad: Tensor<T>,
    gis: Seq<Tensor<T>>,
    n: int,
) -> bool {
    &&& gis.len() == n
    &&& forall|i: int|
        before.len() - n <= i < before.len() ==> Layer::backwarded(
            #[trigger] before[i],
            after[i],
            &fed_back(grad, gis, i, before.len() as int),
            Ok(gis[before.len() - 1 - i]),
        )
}

pub open spec fn layers_wf<T: Scalar>(layers: Seq<Layer<T>>) -> bool {
    forall|i: int| 0 <= i < layers.len() ==> (#[trigger] layers[i]).wf()
}

/// The parameters of the first `n` layers, layer by layer.
pub open spec fn parameters_of<T: Scalar>(layers: Seq<Layer<T>>, n: nat) -> Seq<Tensor<T>>
    decreases n,
{
    if n == 0 {
        Seq::empty()
    } else {
        parameters_of(layers, (n - 1) as nat) + layers[n - 1].parameters_spec()
    }
}

/// What `forward` returns for `input` and how it changes the model.
pub open spec fn forward_result<T: Scalar>(
    before: Sequential<T>,
    after: Sequential<T>,
    input: &Tensor<T>,
    r: Result<Tensor<T>, BellandeError>,
) -> bool {
    &&& after.wf()
    &&& after.layers@.len() == before.layers@.len()
    &&& after.training == before.training
    &&& match r {
        Ok(t) => {
            let n = before.layers@.len() as int;
            &&& t.wf()
            &&& exists|outs: Seq<Tensor<T>>|
                {
                    &&& #[trigger] forward_chain(
                        before.layers@,
                        after.layers@,
                        *input,
                        outs,
                        n,
                    )
                    &&& n > 0 ==> t == outs[n - 1]
                    &&& n == 0 ==> t.data@ == input.data@ && t.shape@ == input.shape@
                }
        },
        Err(e) => exists|outs: Seq<Tensor<T>>, k: int|
            {
                &&& 0 <= k < before.layers@.len()
                &&& #[trigger] forward_chain(
                    before.layers@,
                    after.layers@,
                    *input,
                    outs,
                    k,
                )
                &&& Layer::forwarded(
                    before.layers@[k],
                    after.layers@[k],
                    &fed(*input, outs, k),
                    Err(e),
                )
                &&& forall|j: int|
                    k < j < before.layers@.len() ==> after.layers@[j] == before.layers@[j]
            },
    }
}

/// What `backward` returns for `grad` and how it changes the model.
pub open spec fn backward_result<T: Scalar>(
    before: Sequential<T>,
    after: Sequential<T>, grad: &Tensor<T>,
    r: Result<Tensor<T>, BellandeError>,
) -> bool {
    &&& after.wf()
    &&& after.layers@.len() == before.layers@.len()
    &&& after.training == before.training
    &&& match r {
        Ok(t) => {
            let n = before.layers@.len() as int;
            &&& t.wf()
            &&& exists|gis: Seq<Tensor<T>>|
                {
                    &&& #[trigger] backward_chain(
                        before.layers@,
                        after.layers@,
                        *grad,
                        gis,
                        n,
                    )
                    &&& n > 0 ==> t == gis[n - 1]
                    &&& n == 0 ==> t.data@ == grad.data@ && t.shape@ == grad.shape@
                }
        },
        Err(e) => exists|gis: Seq<Tensor<T>>, done: int|
            {
                &&& 0 <= done < before.layers@.len()
                &&& #[trigger] backward_chain(
                    before.layers@,
                    after.layers@,
                    *grad,
                    gis,
                    done,
                )
                &&& Layer::backwarded(
                    before.layers@[before.layers@.len() - 1 - done],
                    after.layers@[before.layers@.len() - 1 - done],
                    &fed_back(
                        *grad,
                        gis,
                        before.layers@.len() - 1 - done,
                        before.layers@.len() as int,
                    ),
                    Err(e),
                )
                &&& forall|j: int|
                    0 <= j < before.layers@.len() - 1 - done ==> after.layers@[j]
                        == before.layers@[j]
            },
    }
}

impl<T: Scalar> Sequential<T> {
    pub open spec fn wf(&self) -> bool {
        layers_wf(self.layers@)
    }

    /// Whether every layer of the model is well formed.
    pub fn is_wf(&self) -> (r: bool)
        ensures
            r == self.wf(),
    {
        let n = self.layers.len();
        let mut i: usize = 0;
        while i < n
            invariant
                i <= n,
                n == self.layers@.len(),
                forall|k: int| 0 <= k < i ==> (#[trigger] self.layers@[k]).wf(),
            decreases n - i,
        {
            if !self.layers[i].is_wf() {
                assert(!self.layers@[i as int].wf());
                return false;
            }
            i = i + 1;
        }
        true
    }

    /// An empty model in training mode.
    pub fn new() -> (r: Self)
        ensures
            r.wf(),
            r.layers@.len() == 0,
            r.training,
    {
        Sequential { layers: Vec::new(), training: true }
    }

    /// Appends a layer and hands the model back, so that calls can be
    /// chained: what is returned is the model itself, with the layer
    /// appended.
    pub fn add(&mut self, layer: Layer<T>) -> (r: &mut Self)
        requires
            old(self).wf(),
            layer.wf(),
        ensures
            r.wf(),
            r.layers@ == old(self).layers@.push(layer),
            r.training == old(self).training,
            *final(self) == *final(r),
    {
        self.layers.push(layer);
        self
    }

    pub fn get_layers(&self) -> (r: &Vec<Layer<T>>)
        ensures
            r@ == self.layers@,
    {
        &self.layers
    }

    pub fn get_layers_mut(&mut self) -> (r: &mut Vec<Layer<T>>)
        ensures
            *r == old(self).layers,
            final(self).layers == *final(r),
            final(self).training == old(self).training,
    {
        &mut self.layers
    }

    /// Applies the layers front to back, each to the output of the one
    /// before it. An empty model returns a copy of the input.
    ///
    /// The first layer that fails ends the pass with its error; the layers
    /// before it have run and the layers after it are untouched.
    pub fn forward<R: RandomSource<T>>(&mut self, input: &Tensor<T>, rng: &mut R) -> (r: Result<
        Tensor<T>,
        BellandeError,
    >)
        requires
            old(self).wf(),
            input.wf(),
        ensures
            forward_result(*old(self), *final(self), input, r),
    {
        let n = self.layers.len();
        let mut current = input.duplicate();
        let ghost mut outs: Seq<Tensor<T>> = Seq::empty();
        let mut i: usize = 0;
        while i < n
            invariant
                i <= n,
                n == old(self).layers@.len(),
                n == self.layers@.len(),
                self.training == old(self).training,
                layers_wf(old(self).layers@),
                input.wf(),
                current.wf(),
                forall|j: int| 0 <= j < i ==> (#[trigger] self.layers@[j]).wf(),
                forall|j: int| i <= j < n ==> self.layers@[j] == old(self).layers@[j],
                forward_chain(old(self).layers@, self.layers@, *input, outs, i as int),
                i > 0 ==> current == outs[i - 1],
                i == 0 ==> current.data@ == input.data@ && current.shape@ == input.shape@,
            decreases n - i,
        {
            let ghost previous = self.layers@;
            let ghost received = current;
            let outcome = if i == 0 {
                self.layers[i].forward(input, rng)
            } else {
                self.layers[i].forward(&current, rng)
            };
            match outcome {
                Ok(t) => {
                    proof {
                        let grown = outs.push(t);
                        assert forall|j: int| 0 <= j < i + 1 implies Layer::forwarded(
                            #[trigger] old(self).layers@[j],
                            self.layers@[j],
                            &fed(*input, grown, j),
                            Ok(grown[j]),
                        ) by {
                            if j < i {
                                assert(self.layers@[j] == previous[j]);
                                assert(fed(*input, grown, j) == fed(*input, outs, j));
                                assert(grown[j] == outs[j]);
                            } else {
                                assert(fed(*input, grown, j) == if i == 0 {
                                    *input
                                } else {
                                    received
                                });
                            }
                        }
                        outs = grown;
                    }
                    current = t;
                },
                Err(e) => {
                    proof {
                        assert forall|j: int| 0 <= j < i implies Layer::forwarded(
                            #[trigger] old(self).layers@[j],
                            self.layers@[j],
                            &fed(*input, outs, j),
                            Ok(outs[j]),
                        ) by {
                            assert(self.layers@[j] == previous[j]);
                        }
                        assert(forward_chain(
                            old(self).layers@,
                            self.layers@,
                            *input,
                            outs,
                            i as int,
                        ));
                        assert(fed(*input, outs, i as int) == if i == 0 {
                            *input
                        } else {
                            received
                        });
                        assert(layers_wf(self.layers@)) by {
                            assert forall|j: int| 0 <= j < self.layers@.len() implies (
                            #[trigger] self.layers@[j]).wf() by {
                                if j > i {
                                    assert(self.layers@[j] == old(self).layers@[j]);
                                }
                            }
                        }
                    }
                    return Err(e);
                },
            }
            i = i + 1;
        }
        Ok(current)
    }

    /// Propagates a gradient through the layers back to front, each
    /// receiving the gradient that the one after it returned, and adds the
    /// gradients of the parameters to the gradients that they hold. An
    /// empty model returns a copy of the gradient.
    ///
    /// The first layer that fails ends the pass with its error; the layers
    /// after it have run and the layers before it are untouched.
    pub fn backward(&mut self, grad: &Tensor<T>) -> (r: Result<Tensor<T>, BellandeError>)
        requires
            old(self).wf(),
            grad.wf(),
        ensures
            backward_result(*old(self), *final(self), grad, r),
    {
        let n = self.layers.len();
        let mut current = grad.duplicate();
        let ghost mut gis: Seq<Tensor<T>> = Seq::empty();
        let mut done: usize = 0;
        while done < n
            invariant
                done <= n,
                n == old(self).layers@.len(),
                n == self.layers@.len(),
                self.training == old(self).training,
                layers_wf(old(self).layers@),
                grad.wf(),
                current.wf(),
                forall|j: int| n - done <= j < n ==> (#[trigger] self.layers@[j]).wf(),
                forall|j: int| 0 <= j < n - done ==> self.layers@[j] == old(self).layers@[j],
                backward_chain(old(self).layers@, self.layers@, *grad, gis, done as int),
                done > 0 ==> current == gis[done - 1],
                done == 0 ==> current.data@ == grad.data@ && current.shape@ == grad.shape@,
            decreases n - done,
        {
            let i = n - 1 - done;
            let ghost previous = self.layers@;
            let ghost received = current;
            let outcome = if done == 0 {
                self.layers[i].backward(grad)
            } else {
                self.layers[i].backward(&current)
            };
            match outcome {
                Ok(t) => {
                    proof {
                        let grown = gis.push(t);
                        assert forall|j: int| n - (done + 1) <= j < n implies Layer::backwarded(
                            #[trigger] old(self).layers@[j],
                            self.layers@[j],
                            &fed_back(*grad, grown, j, n as int),
                            Ok(grown[n - 1 - j]),
                        ) by {
                            if j > i {
                                assert(self.layers@[j] == previous[j]);
                                assert(fed_back(*grad, grown, j, n as int) == fed_back(
                                    *grad,
                                    gis,
                                    j,
                                    n as int,
                                ));
                                assert(grown[n - 1 - j] == gis[n - 1 - j]);
                            } else {
                                assert(fed_back(*grad, grown, j, n as int) == if done == 0 {
                                    *grad
                                } else {
                                    received
                                });
                            }
                        }
                        gis = grown;
                    }
                    current = t;
                },
                Err(e) => {
                    proof {
                        assert forall|j: int| n - done <= j < n implies Layer::backwarded(
                            #[trigger] old(self).layers@[j],
                            self.layers@[j],
                            &fed_back(*grad, gis, j, n as int),
                            Ok(gis[n - 1 - j]),
                        ) by {
                            assert(self.layers@[j] == previous[j]);
                        }
                        assert(backward_chain(
                            old(self).layers@,
                            self.layers@,
                            *grad,
                            gis,
                            done as int,
                        ));
                        assert(fed_back(*grad, gis, i as int, n as int) == if done == 0 {
                            *grad
                        } else {
                            received
                        });
                        assert(layers_wf(self.layers@)) by {
                            assert forall|j: int| 0 <= j < self.layers@.len() implies (
                            #[trigger] self.layers@[j]).wf() by {
                                if j < i {
                                    assert(self.layers@[j] == old(self).layers@[j]);
                                }
                            }
                        }
                    }
                    return Err(e);
                },
            }
            done = done + 1;
        }
        Ok(current)
    }

    /// Copies of the parameters of all layers, layer by layer.
    pub fn parameters(&self) -> (r: Vec<Tensor<T>>)
        requires
            self.wf(),
        ensures
            Layer::copies_of(r@, parameters_of(self.layers@, self.layers@.len())),
    {
        let n = self.layers.len();
        let mut out: Vec<Tensor<T>> = Vec::new();
        let mut i: usize = 0;
        while i < n
            invariant
                i <= n,
                n == self.layers@.len(),
                self.wf(),
                Layer::copies_of(out@, parameters_of(self.layers@, i as nat)),
            decreases n - i,
        {
            let mut part = self.layers[i].parameters();
            let ghost before = out@;
            let ghost added = part@;
            out.append(&mut part);
            assert(out@ == before + added);
            assert(Layer::copies_of(out@, parameters_of(self.layers@, (i + 1) as nat))) by {
                let expected = parameters_of(self.layers@, (i + 1) as nat);
                let earlier = parameters_of(self.layers@, i as nat);
                assert(expected == earlier + self.layers@[i as int].parameters_spec());
                assert forall|k: int| 0 <= k < out@.len() implies {
                    let c = #[trigger] out@[k];
                    let o = expected[k];
                    &&& c.wf()
                    &&& c.data@ == o.data@
                    &&& c.shape@ == o.shape@
                    &&& c.requires_grad == o.requires_grad
                    &&& c.grad is Some == o.grad is Some
                    &&& o.grad matches Some(g) ==> c.grad->0@ == g@
                } by {
                    if k < before.len() {
                        assert(out@[k] == before[k]);
                        assert(expected[k] == earlier[k]);
                    } else {
                        assert(out@[k] == added[k - before.len()]);
                        assert(expected[k] == self.layers@[i as int].parameters_spec()[k
                            - before.len()]);
                    }
                }
            }
            i = i + 1;
        }
        out
    }

    /// Resets the gradient of every parameter of the model to zero.
    pub fn zero_grad(&mut self)
        requires
            old(self).wf(),
        ensures
            final(self).wf(),
            final(self).training == old(self).training,
            final(self).layers@.len() == old(self).layers@.len(),
            forall|i: int|
                0 <= i < old(self).layers@.len() ==> Layer::gradients_cleared(
                    old(self).layers@[i],
                    #[trigger] final(self).layers@[i],
                ),
    {
        let n = self.layers.len();
        let mut i: usize = 0;
        while i < n
            invariant
                i <= n,
                n == self.layers@.len(),
                n == old(self).layers@.len(),
                self.training == old(self).training,
                layers_wf(self.layers@),
                forall|k: int|
                    0 <= k < i ==> Layer::gradients_cleared(
                        old(self).layers@[k],
                        #[trigger] self.layers@[k],
                    ),
                forall|k: int| i <= k < n ==> self.layers@[k] == old(self).layers@[k],
            decreases n - i,
        {
            self.layers[i].zero_grad();
            i = i + 1;
        }
    }

    /// Puts the model and every layer into training mode.
    pub fn train(&mut self)
        requires
            old(self).wf(),
        ensures
            final(self).wf(),
            final(self).training,
            final(self).layers@.len() == old(self).layers@.len(),
            forall|i: int|
                0 <= i < old(self).layers@.len() ==> Layer::in_mode(
                    old(self).layers@[i],
                    #[trigger] final(self).layers@[i],
                    true,
                ),
    {
        self.training = true;
        let n = self.layers.len();
        let mut i: usize = 0;
        while i < n
            invariant
                i <= n,
                n == self.layers@.len(),
                n == old(self).layers@.len(),
                self.training,
                layers_wf(self.layers@),
                forall|k: int|
                    0 <= k < i ==> Layer::in_mode(
                        old(self).layers@[k],
                        #[trigger] self.layers@[k],
                        true,
                    ),
                forall|k: int| i <= k < n ==> self.layers@[k] == old(self).layers@[k],
            decreases n - i,
        {
            self.layers[i].train();
            i = i + 1;
        }
    }

    /// Puts the model and every layer into evaluation mode.
    pub fn eval(&mut self)
        requires
            old(self).wf(),
        ensures
            final(self).wf(),
            !final(self).training,
            final(self).layers@.len() == old(self).layers@.len(),
            forall|i: int|
                0 <= i < old(self).layers@.len() ==> Layer::in_mode(
                    old(self).layers@[i],
                    #[trigger] final(self).layers@[i],
                    false,
                ),
    {
        self.training = false;
        let n = self.layers.len();
        let mut i: usize = 0;
        while i < n
            invariant
                i <= n,
                n == self.layers@.len(),
                n == old(self).layers@.len(),
                !self.training,
                layers_wf(self.layers@),
                forall|k: int|
                    0 <= k < i ==> Layer::in_mode(
                        old(self).layers@[k],
                        #[trigger] self.layers@[k],
                        false,
                    ),
                forall|k: int| i <= k < n ==> self.layers@[k] == old(self).layers@[k],
            decreases n - i,
        {
            self.layers[i].eval();
            i = i + 1;
        }
    }
}

/// The configurations of a sequence of layers.
pub open spec fn kinds_of<T: Scalar>(layers: Seq<Layer<T>>) -> Seq<LayerKind> {
    Seq::new(layers.len(), |i: int| layers[i].kind_spec())
}

/// Every configuration of a plan can be built.
pub open spec fn plan_buildable(plan: Seq<LayerKind>) -> bool {
    forall|i: int| 0 <= i < plan.len() ==> (#[trigger] plan[i]).buildable()
}

/// Whether a layer is as it is built: without a cache, and in training
/// mode with the shared settings where it has a mode.
pub open spec fn fresh<T: Scalar>(layer: Layer<T>, settings: LayerSettings<T>) -> bool {
    match layer {
        Layer::Linear(l) => l.input_cache is None,
        Layer::Conv2d(l) => l.input_cache is None,
        Layer::BatchNorm1d(n) => n.norm.eps == settings.eps && n.norm.momentum == settings.momentum
            && n.norm.training && n.norm.cache is None,
        Layer::BatchNorm2d(n) => n.norm.eps == settings.eps && n.norm.momentum == settings.momentum
            && n.norm.training && n.norm.cache is None,
        Layer::Dropout(d) => d.p == settings.dropout && d.training && d.mask is None,
        Layer::MaxPool2d(l) => l.indices is None,
        Layer::AvgPool2d(l) => l.input_shape is None,
        Layer::ReLU(l) => l.input_cache is None,
    }
}

/// Decides whether every configuration of a plan can be built.
pub fn is_plan_buildable(plan: &Vec<LayerKind>) -> (r: bool)
    ensures
        r == plan_buildable(plan@),
{
    let n = plan.len();
    let mut i: usize = 0;
    while i < n
        invariant
            i <= n,
            n == plan@.len(),
            forall|k: int| 0 <= k < i ==> (#[trigger] plan@[k]).buildable(),
        decreases n - i,
    {
        if !plan[i].is_buildable() {
            return false;
        }
        i = i + 1;
    }
    true
}

impl<T: Scalar> Sequential<T> {
    /// A model in training mode with one fresh layer per configuration of
    /// the plan, in order.
    pub fn from_plan<R: RandomSource<T>>(
        plan: &Vec<LayerKind>,
        settings: &LayerSettings<T>,
        rng: &mut R,
    ) -> (r: Self)
        requires
            plan_buildable(plan@),
        ensures
            r.wf(),
            r.training,
            kinds_of(r.layers@) == plan@,
            forall|i: int| 0 <= i < r.layers@.len() ==> fresh(#[trigger] r.layers@[i], *settings),
    {
        let mut model = Sequential::new();
        let n = plan.len();
        let mut i: usize = 0;
        while i < n
            invariant
                i <= n,
                n == plan@.len(),
                plan_buildable(plan@),
                model.wf(),
                model.training,
                model.layers@.len() == i,
                forall|k: int| 0 <= k < i ==> (#[trigger] model.layers@[k]).kind_spec() == plan@[k],
                forall|k: int| 0 <= k < i ==> fresh(#[trigger] model.layers@[k], *settings),
            decreases n - i,
        {
            let layer = plan[i].build(settings, rng);
            model.add(layer);
            i = i + 1;
        }
        assert(kinds_of(model.layers@) =~= plan@);
        model
    }
}

} // verus!
