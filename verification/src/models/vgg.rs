//! The VGG network of sixteen layers.

use vstd::prelude::*;
use crate::error::BellandeError;
use crate::layer::avgpool2d::AvgPool2d;
use crate::layer::{LayerKind, LayerSettings};
use crate::models::sequential::{fresh, kinds_of, plan_buildable, Sequential};
use crate::scalar::{RandomSource, Scalar};
use crate::tensor::Tensor;

verus! {

/// The VGG family of convolutional classifiers: convolutional features, an
/// average pooling, and a fully connected classifier.
pub struct VGG<T> {
    pub features: Sequential<T>,
    pub avgpool: AvgPool2d,
    pub classifier: Sequential<T>,
}

/// A convolution of kernel 3, stride 1 and padding 1 with bias.
pub open spec fn conv3(in_channels: usize, out_channels: usize) -> LayerKind {
    LayerKind::Conv2d {
        in_channels,
        out_channels,
        kernel_h: 3,
        kernel_w: 3,
        stride_h: 1,
        stride_w: 1,
        pad_h: 1,
        pad_w: 1,
        bias: true,
    }
}

/// A max pooling of kernel 2 and stride 2.
pub open spec fn pool2() -> LayerKind {
    LayerKind::MaxPool2d { kernel_h: 2, kernel_w: 2, stride_h: 2, stride_w: 2 }
}

/// A block of `convs` rectified convolutions, the first from `i` to `o`
/// channels and the others from `o` to `o`, followed by a pooling.
pub open spec fn block(i: usize, o: usize, convs: nat) -> Seq<LayerKind>
    decreases convs,
{
    if convs == 0 {
        seq![pool2()]
    } else {
        seq![conv3(i, o), LayerKind::ReLU] + block(o, o, (convs - 1) as nat)
    }
}

/// The features of VGG-16: blocks of 2, 2, 3, 3 and 3 convolutions with
/// 64, 128, 256, 512 and 512 channels.
pub open spec fn vgg16_features() -> Seq<LayerKind> {
    block(3, 64, 2) + block(64, 128, 2) + block(128, 256, 3) + block(256, 512, 3) + block(
        512,
        512,
        3,
    )
}

pub open spec fn linear(in_features: usize, out_features: usize) -> LayerKind {
    LayerKind::Linear { in_features, out_features, bias: true }
}

/// The classifier of VGG-16: three linear layers from `512 · 7 · 7`
/// features over 4096 to `num_classes`, the first two rectified and
/// followed by dropout.
pub open spec fn vgg16_classifier(num_classes: usize) -> Seq<LayerKind> {
    seq![
        linear(25088, 4096),
        LayerKind::ReLU,
        LayerKind::Dropout,
        linear(4096, 4096),
        LayerKind::ReLU,
        LayerKind::Dropout,
        linear(4096, num_classes),
    ]
}

fn push_block(plan: &mut Vec<LayerKind>, i: usize, o: usize, convs: usize)
    ensures
        final(plan)@ == old(plan)@ + block(i, o, convs as nat),
    decreases convs,
{
    if convs == 0 {
        plan.push(LayerKind::MaxPool2d { kernel_h: 2, kernel_w: 2, stride_h: 2, stride_w: 2 });
        assert(plan@ =~= old(plan)@ + block(i, o, 0));
    } else {
        plan.push(
            LayerKind::Conv2d {
                in_channels: i,
                out_channels: o,
                kernel_h: 3,
                kernel_w: 3,
                stride_h: 1,
                stride_w: 1,
                pad_h: 1,
                pad_w: 1,
                bias: true,
            },
        );
        plan.push(LayerKind::ReLU);
        let ghost middle = plan@;
        push_block(plan, o, o, convs - 1);
        assert(plan@ =~= old(plan)@ + block(i, o, convs as nat));
    }
}

/// The plan of the features of VGG-16.
pub fn vgg16_features_plan() -> (r: Vec<LayerKind>)
    ensures
        r@ == vgg16_features(),
{
    let mut plan: Vec<LayerKind> = Vec::new();
    push_block(&mut plan, 3, 64, 2);
    push_block(&mut plan, 64, 128, 2);
    push_block(&mut plan, 128, 256, 3);
    push_block(&mut plan, 256, 512, 3);
    push_block(&mut plan, 512, 512, 3);
    assert(plan@ =~= vgg16_features());
    plan
}

/// The plan of the classifier of VGG-16.
pub fn vgg16_classifier_plan(num_classes: usize) -> (r: Vec<LayerKind>)
    ensures
        r@ == vgg16_classifier(num_classes),
{
    let mut plan: Vec<LayerKind> = Vec::new();
    plan.push(LayerKind::Linear { in_features: 25088, out_features: 4096, bias: true });
    plan.push(LayerKind::ReLU);
    plan.push(LayerKind::Dropout);
    plan.push(LayerKind::Linear { in_features: 4096, out_features: 4096, bias: true });
    plan.push(LayerKind::ReLU);
    plan.push(LayerKind::Dropout);
    plan.push(LayerKind::Linear { in_features: 4096, out_features: num_classes, bias: true });
    assert(plan@ =~= vgg16_classifier(num_classes));
    plan
}

proof fn lemma_block_buildable(i: usize, o: usize, convs: nat)
    requires
        i <= 512,
        o <= 512,
    ensures
        plan_buildable(block(i, o, convs)),
    decreases convs,
{
    if convs > 0 {
        lemma_block_buildable(o, o, (convs - 1) as nat);
        assert(conv3(i, o).buildable()) by {
            assert(o * i * 3 * 3 <= 512 * 512 * 9) by (nonlinear_arith)
                requires
                    0 <= i <= 512,
                    0 <= o <= 512,
            ;
        }
        let rest = block(o, o, (convs - 1) as nat);
        let all = block(i, o, convs);
        assert forall|k: int| 0 <= k < all.len() implies (#[trigger] all[k]).buildable() by {
            if k >= 2 {
                assert(all[k] == rest[k - 2]);
            }
        }
    }
}

proof fn lemma_joined_buildable(a: Seq<LayerKind>, b: Seq<LayerKind>)
    requires
        plan_buildable(a),
        plan_buildable(b),
    ensures
        plan_buildable(a + b),
{
    let all = a + b;
    assert forall|k: int| 0 <= k < all.len() implies (#[trigger] all[k]).buildable() by {
        if k < a.len() {
            assert(all[k] == a[k]);
        } else {
            assert(all[k] == b[k - a.len()]);
        }
    }
}

/// The intermediate values of one application of a VGG.
pub struct VGGTrace<T> {
    pub features: Tensor<T>,
    pub pooled: Tensor<T>,
    pub flat: Tensor<T>,
}

/// What `forward` returns for `x` and how it changes the model: the
/// features are applied to the input, the pooling to their output, and the
/// classifier to the pooled maps as a matrix of one row per sample. The
/// first stage that fails ends the pass with its error, the stages after it
/// untouched.
pub open spec fn forward_result<T: Scalar>(
    before: VGG<T>,
    after: VGG<T>,
    x: &Tensor<T>,
    r: Result<Tensor<T>, BellandeError>,
) -> bool {
    &&& after.wf()
    &&& match r {
        Ok(t) => exists|trace: VGGTrace<T>|
            #[trigger] staged(before, after, x, trace, 3)
                && crate::models::sequential::forward_result(
                before.classifier,
                after.classifier,
                &trace.flat,
                Ok(t),
            ),
        Err(e) => {
            ||| crate::models::sequential::forward_result(
                before.features,
                after.features,
                x,
                Err(e),
            ) && after.avgpool == before.avgpool && after.classifier == before.classifier
            ||| exists|trace: VGGTrace<T>|
                #[trigger] staged(before, after, x, trace, 1)
                    && crate::layer::avgpool2d::forward_result(
                    before.avgpool,
                    after.avgpool,
                    &trace.features,
                    Err(e),
                ) && after.classifier == before.classifier
            ||| exists|trace: VGGTrace<T>|
                #[trigger] staged(before, after, x, trace, 2) && (e matches BellandeError::InvalidShape(
                    _,
                )) && crate::shape::numel(trace.pooled.shape@.skip(1)) > usize::MAX
                    && after.classifier == before.classifier
            ||| exists|trace: VGGTrace<T>|
                #[trigger] staged(before, after, x, trace, 3)
                    && crate::models::sequential::forward_result(
                    before.classifier,
                    after.classifier,
                    &trace.flat,
                    Err(e),
                )
        },
    }
}

/// The first `stages` stages before the classifier have succeeded with the
/// values of `trace`: the features, the pooling, and the reshaping of the
/// pooled maps.
pub open spec fn staged<T: Scalar>(
    before: VGG<T>,
    after: VGG<T>,
    x: &Tensor<T>,
    trace: VGGTrace<T>,
    stages: nat,
) -> bool {
    &&& stages >= 1 ==> crate::models::sequential::forward_result(
        before.features,
        after.features,
        x,
        Ok(trace.features),
    )
    &&& stages >= 2 ==> crate::layer::avgpool2d::forward_result(
        before.avgpool,
        after.avgpool,
        &trace.features,
        Ok(trace.pooled),
    )
    &&& stages >= 3 ==> trace.flat.data@ == trace.pooled.data@ && trace.flat.shape@ == seq![
        trace.pooled.shape@[0],
        crate::shape::numel(trace.pooled.shape@.skip(1)) as usize,
    ]
}

impl<T: Scalar> VGG<T> {
    pub open spec fn wf(&self) -> bool {
        self.features.wf() && self.avgpool.wf() && self.classifier.wf()
    }

    /// VGG-16 for `num_classes` classes: fresh layers with parameters drawn
    /// from `rng`, a dropout probability of one half, and an average
    /// pooling of kernel 7 and stride 1 between features and classifier.
    pub fn vgg16<R: RandomSource<T>>(num_classes: usize, rng: &mut R) -> (r: Self)
        requires
            num_classes * 4096 <= usize::MAX,
        ensures
            r.wf(),
            kinds_of(r.features.layers@) == vgg16_features(),
            kinds_of(r.classifier.layers@) == vgg16_classifier(num_classes),
            r.avgpool.kernel_size == (7usize, 7usize),
            r.avgpool.stride == (1usize, 1usize),
            r.avgpool.input_shape is None,
            r.features.training,
            r.classifier.training,
            forall|i: int|
                0 <= i < r.classifier.layers@.len() ==> fresh(
                    #[trigger] r.classifier.layers@[i],
                    LayerSettings {
                        dropout: T::one_spec().over_spec(T::one_spec().plus_spec(T::one_spec())),
                        eps: T::zero_spec(),
                        momentum: T::zero_spec(),
                    },
                ),
    {
        let half = T::one().over(T::one().plus(T::one()));
        let settings = LayerSettings { dropout: half, eps: T::zero(), momentum: T::zero() };
        let features_plan = vgg16_features_plan();
        let classifier_plan = vgg16_classifier_plan(num_classes);
        proof {
            lemma_block_buildable(3, 64, 2);
            lemma_block_buildable(64, 128, 2);
            lemma_block_buildable(128, 256, 3);
            lemma_block_buildable(256, 512, 3);
            lemma_block_buildable(512, 512, 3);
            lemma_joined_buildable(block(3, 64, 2), block(64, 128, 2));
            lemma_joined_buildable(block(3, 64, 2) + block(64, 128, 2), block(128, 256, 3));
            lemma_joined_buildable(
                block(3, 64, 2) + block(64, 128, 2) + block(128, 256, 3),
                block(256, 512, 3),
            );
            lemma_joined_buildable(
                block(3, 64, 2) + block(64, 128, 2) + block(128, 256, 3) + block(256, 512, 3),
                block(512, 512, 3),
            );
            assert(4096 * 25088 <= usize::MAX);
            assert(4096 * 4096 <= usize::MAX);
        }
        let features = Sequential::from_plan(&features_plan, &settings, rng);
        let classifier = Sequential::from_plan(&classifier_plan, &settings, rng);
        VGG { features, avgpool: AvgPool2d::new((7, 7), (1, 1)), classifier }
    }

    /// Classifies a batch of images.
    pub fn forward<R: RandomSource<T>>(&mut self, x: &Tensor<T>, rng: &mut R) -> (r: Result<
        Tensor<T>,
        BellandeError,
    >)
        requires
            old(self).wf(),
            x.wf(),
        ensures
            forward_result(*old(self), *final(self), x, r),
    {
        let featured = match self.features.forward(x, rng) {
            Ok(t) => t,
            Err(e) => {
                return Err(e);
            },
        };
        let pooled = match self.avgpool.forward(&featured) {
            Ok(t) => t,
            Err(e) => {
                proof {
                    let trace = VGGTrace { features: featured, pooled: featured, flat: featured };
                    assert(staged(*old(self), *self, x, trace, 1));
                }
                return Err(e);
            },
        };
        let flat = match pooled.flatten() {
            Ok(t) => t,
            Err(e) => {
                proof {
                    let trace = VGGTrace { features: featured, pooled, flat: featured };
                    assert(staged(*old(self), *self, x, trace, 2));
                }
                return Err(e);
            },
        };
        let outcome = self.classifier.forward(&flat, rng);
        proof {
            let trace = VGGTrace { features: featured, pooled, flat };
            assert(staged(*old(self), *self, x, trace, 3));
        }
        outcome
    }
}

} // verus!
