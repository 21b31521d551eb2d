//! Multi-layer perceptrons and small convolutional networks built from a
//! configuration.

use vstd::prelude::*;
use vstd::string::*;
use crate::error::BellandeError;
use crate::layer::dropout::{valid_probability, Dropout};
use crate::layer::{LayerKind, LayerSettings};
use crate::models::sequential::{
    fresh, is_plan_buildable, kinds_of, plan_buildable, Sequential,
};
use crate::models::vgg::{conv3, linear, pool2};
use crate::scalar::{RandomSource, Scalar};
use crate::shape::{checked_numel, numel};

verus! {

/// The architecture of a model: the shape of one input, the number of
/// classes, the dropout probability and the widths of the hidden layers.
pub struct ModelConfig<T> {
    pub input_shape: Vec<usize>,
    pub num_classes: usize,
    pub dropout_rate: T,
    pub hidden_layers: Vec<usize>,
}

/// The hidden layers of a perceptron from the `from`-th on: each a linear
/// layer from the width before it, rectified, and preceded by dropout if
/// the model uses it.
pub open spec fn hidden_plan(hidden: Seq<usize>, from: int, dropout: bool) -> Seq<LayerKind>
    decreases hidden.len() - from,
{
    if from < 1 || from >= hidden.len() {
        Seq::empty()
    } else {
        (if dropout {
            seq![LayerKind::Dropout]
        } else {
            Seq::empty()
        }) + seq![linear(hidden[from - 1], hidden[from]), LayerKind::ReLU] + hidden_plan(
            hidden,
            from + 1,
            dropout,
        )
    }
}

/// The layers of a multi-layer perceptron: a rectified linear layer from
/// the inputs to the first hidden width, the further hidden layers, and a
/// linear layer to the classes.
pub open spec fn mlp_plan(input_size: usize, hidden: Seq<usize>, classes: usize, dropout: bool) -> Seq<
    LayerKind,
> {
    seq![linear(input_size, hidden[0]), LayerKind::ReLU] + hidden_plan(hidden, 1, dropout) + seq![
        linear(hidden.last(), classes),
    ]
}

pub open spec fn norm2d(num_features: usize) -> LayerKind {
    LayerKind::BatchNorm2d { num_features, affine: true }
}

/// The layers of the small convolutional network: two blocks of
/// convolution, batch normalization, rectifier and pooling with 64 and 128
/// channels, then a rectified linear layer from `128 · 7 · 7` features to
/// 512, dropout if the model uses it, and a linear layer to the classes.
pub open spec fn cnn_plan(classes: usize, dropout: bool) -> Seq<LayerKind> {
    seq![
        conv3(3, 64),
        norm2d(64),
        LayerKind::ReLU,
        pool2(),
        conv3(64, 128),
        norm2d(128),
        LayerKind::ReLU,
        pool2(),
        linear(6272, 512),
        LayerKind::ReLU,
    ] + (if dropout {
        seq![LayerKind::Dropout]
    } else {
        Seq::empty()
    }) + seq![linear(512, classes)]
}

/// Whether the model uses dropout: its dropout probability exceeds zero.
pub open spec fn uses_dropout<T: Scalar>(rate: T) -> bool {
    rate.exceeds_spec(T::zero_spec())
}

impl<T: Scalar> ModelConfig<T> {
    /// Whether a perceptron can be made from the configuration: there is a
    /// hidden layer, the number of inputs can be represented, and every
    /// layer can be built.
    pub open spec fn describes_mlp(&self) -> bool {
        &&& self.hidden_layers@.len() > 0
        &&& numel(self.input_shape@) <= usize::MAX
        &&& plan_buildable(
            mlp_plan(
                numel(self.input_shape@) as usize,
                self.hidden_layers@,
                self.num_classes,
                uses_dropout(self.dropout_rate),
            ),
        )
    }

    /// Whether the dropout of the configuration can be made: it is not
    /// used, or its probability lies in `[0, 1)`.
    pub open spec fn dropout_valid(&self) -> bool {
        uses_dropout(self.dropout_rate) ==> valid_probability(self.dropout_rate)
    }

    fn hidden_plan_exec(&self, plan: &mut Vec<LayerKind>, dropout: bool)
        requires
            self.hidden_layers@.len() > 0,
        ensures
            final(plan)@ == old(plan)@ + hidden_plan(self.hidden_layers@, 1, dropout),
    {
        let n = self.hidden_layers.len();
        let mut i: usize = 1;
        while i < n
            invariant
                1 <= i <= n,
                n == self.hidden_layers@.len(),
                plan@ + hidden_plan(self.hidden_layers@, i as int, dropout) == old(plan)@
                    + hidden_plan(self.hidden_layers@, 1, dropout),
            decreases n - i,
        {
            let ghost before = plan@;
            if dropout {
                plan.push(LayerKind::Dropout);
            }
            plan.push(
                LayerKind::Linear {
                    in_features: self.hidden_layers[i - 1],
                    out_features: self.hidden_layers[i],
                    bias: true,
                },
            );
            plan.push(LayerKind::ReLU);
            assert(plan@ + hidden_plan(self.hidden_layers@, i + 1, dropout) =~= before + hidden_plan(
                self.hidden_layers@,
                i as int,
                dropout,
            ));
            i = i + 1;
        }
        assert(plan@ + hidden_plan(self.hidden_layers@, n as int, dropout) =~= plan@);
    }
}

/// A multi-layer perceptron for the configuration, with fresh layers.
///
/// Fails with `InvalidConfiguration` when no perceptron can be made from
/// the configuration, and with `InvalidParameter` when its dropout
/// probability is used and is not a probability in `[0, 1)`.
pub fn create_mlp<T: Scalar, R: RandomSource<T>>(config: &ModelConfig<T>, rng: &mut R) -> (r:
    Result<Sequential<T>, BellandeError>)
    ensures
        match r {
            Ok(model) => {
                &&& config.describes_mlp()
                &&& config.dropout_valid()
                &&& model.wf()
                &&& model.training
                &&& kinds_of(model.layers@) == mlp_plan(
                    numel(config.input_shape@) as usize,
                    config.hidden_layers@,
                    config.num_classes,
                    uses_dropout(config.dropout_rate),
                )
                &&& forall|i: int|
                    0 <= i < model.layers@.len() ==> fresh(
                        #[trigger] model.layers@[i],
                        LayerSettings {
                            dropout: config.dropout_rate,
                            eps: T::zero_spec(),
                            momentum: T::zero_spec(),
                        },
                    )
            },
            Err(BellandeError::InvalidConfiguration(_)) => !config.describes_mlp(),
            Err(BellandeError::InvalidParameter(_)) => config.describes_mlp()
                && !config.dropout_valid(),
            Err(_) => false,
        },
{
    if config.hidden_layers.len() == 0 {
        return Err(
            BellandeError::InvalidConfiguration(String::from_str("no hidden layers")),
        );
    }
    let input_size = match checked_numel(&config.input_shape) {
        Some(n) => n,
        None => {
            return Err(BellandeError::InvalidConfiguration(String::from_str("input too large")));
        },
    };
    let dropout = config.dropout_rate.exceeds(T::zero());
    let mut plan: Vec<LayerKind> = Vec::new();
    plan.push(
        LayerKind::Linear {
            in_features: input_size,
            out_features: config.hidden_layers[0],
            bias: true,
        },
    );
    plan.push(LayerKind::ReLU);
    config.hidden_plan_exec(&mut plan, dropout);
    plan.push(
        LayerKind::Linear {
            in_features: config.hidden_layers[config.hidden_layers.len() - 1],
            out_features: config.num_classes,
            bias: true,
        },
    );
    assert(plan@ =~= mlp_plan(input_size, config.hidden_layers@, config.num_classes, dropout));
    if !is_plan_buildable(&plan) {
        return Err(BellandeError::InvalidConfiguration(String::from_str("layers too large")));
    }
    if dropout && !Dropout::is_valid_probability(config.dropout_rate) {
        return Err(
            BellandeError::InvalidParameter(
                String::from_str("dropout probability must be in [0, 1)"),
            ),
        );
    }
    let settings = LayerSettings {
        dropout: config.dropout_rate,
        eps: T::zero(),
        momentum: T::zero(),
    };
    Ok(Sequential::from_plan(&plan, &settings, rng))
}

/// The small convolutional network for the configuration, with fresh
/// layers whose batch normalizations use the `eps` and `momentum` given.
///
/// Fails with `InvalidConfiguration` when the last layer cannot be built,
/// and with `InvalidParameter` when the dropout probability is used and is
/// not a probability in `[0, 1)`.
pub fn create_cnn<T: Scalar, R: RandomSource<T>>(
    config: &ModelConfig<T>,
    eps: T,
    momentum: T,
    rng: &mut R,
) -> (r: Result<Sequential<T>, BellandeError>)
    ensures
        match r {
            Ok(model) => {
                &&& config.num_classes * 512 <= usize::MAX
                &&& config.dropout_valid()
                &&& model.wf()
                &&& model.training
                &&& kinds_of(model.layers@) == cnn_plan(
                    config.num_classes,
                    uses_dropout(config.dropout_rate),
                )
                &&& forall|i: int|
                    0 <= i < model.layers@.len() ==> fresh(
                        #[trigger] model.layers@[i],
                        LayerSettings { dropout: config.dropout_rate, eps, momentum },
                    )
            },
            Err(BellandeError::InvalidConfiguration(_)) => config.num_classes * 512 > usize::MAX,
            Err(BellandeError::InvalidParameter(_)) => config.num_classes * 512 <= usize::MAX
                && !config.dropout_valid(),
            Err(_) => false,
        },
{
    if config.num_classes.checked_mul(512).is_none() {
        return Err(BellandeError::InvalidConfiguration(String::from_str("too many classes")));
    }
    let dropout = config.dropout_rate.exceeds(T::zero());
    if dropout && !Dropout::is_valid_probability(config.dropout_rate) {
        return Err(
            BellandeError::InvalidParameter(
                String::from_str("dropout probability must be in [0, 1)"),
            ),
        );
    }
    let mut plan: Vec<LayerKind> = Vec::new();
    plan.push(conv3_kind(3, 64));
    plan.push(LayerKind::BatchNorm2d { num_features: 64, affine: true });
    plan.push(LayerKind::ReLU);
    plan.push(pool2_kind());
    plan.push(conv3_kind(64, 128));
    plan.push(LayerKind::BatchNorm2d { num_features: 128, affine: true });
    plan.push(LayerKind::ReLU);
    plan.push(pool2_kind());
    plan.push(LayerKind::Linear { in_features: 6272, out_features: 512, bias: true });
    plan.push(LayerKind::ReLU);
    if dropout {
        plan.push(LayerKind::Dropout);
    }
    plan.push(LayerKind::Linear { in_features: 512, out_features: config.num_classes, bias: true });
    assert(plan@ =~= cnn_plan(config.num_classes, dropout));
    proof {
        assert(64 * 3 * 3 * 3 <= usize::MAX);
        assert(128 * 64 * 3 * 3 <= usize::MAX);
        assert(512 * 6272 <= usize::MAX);
        assert forall|i: int| 0 <= i < plan@.len() implies (#[trigger] plan@[i]).buildable() by {}
    }
    let settings = LayerSettings { dropout: config.dropout_rate, eps, momentum };
    Ok(Sequential::from_plan(&plan, &settings, rng))
}

/// The configuration of a convolution of kernel 3, stride 1 and padding 1
/// with bias.
pub fn conv3_kind(in_channels: usize, out_channels: usize) -> (r: LayerKind)
    ensures
        r == conv3(in_channels, out_channels),
{
    LayerKind::Conv2d {
        in_channels,
        out_channels,
        kernel_h: 3,
        kernel_w: 3,
        stride_h: 1,
        stride_w: 1,
        pad_h: 1,
        pad_w: 1,
        bias: true,
    }
}

/// The configuration of a max pooling of kernel 2 and stride 2.
pub fn pool2_kind() -> (r: LayerKind)
    ensures
        r == pool2(),
{
    LayerKind::MaxPool2d { kernel_h: 2, kernel_w: 2, stride_h: 2, stride_w: 2 }
}

} // verus!
