//! Residual blocks and the residual network of eighteen layers.

use vstd::prelude::*;
use crate::error::BellandeError;
use crate::layer::activation::ReLU;
use crate::layer::avgpool2d::AvgPool2d;
use crate::layer::batch_norm::BatchNorm2d;
use crate::layer::conv::Conv2d;
use crate::layer::linear::Linear;
use crate::layer::pooling::MaxPool2d;
use crate::layer::{LayerKind, LayerSettings};
use crate::models::sequential::Sequential;
use crate::scalar::{RandomSource, Scalar};
use crate::tensor::Tensor;

verus! {

/// Two convolutions with batch normalization around which the input is
/// carried by a skip connection, optionally through a downsampling model.
pub struct ResidualBlock<T> {
    pub conv1: Conv2d<T>,
    pub bn1: BatchNorm2d<T>,
    pub conv2: Conv2d<T>,
    pub bn2: BatchNorm2d<T>,
    pub downsample: Option<Sequential<T>>,
    pub relu: ReLU<T>,
    pub relu_out: ReLU<T>,
}

/// The intermediate values of one application of a residual block: the
/// skipped input and the outputs of the stages of the main path.
pub struct BlockTrace<T> {
    pub identity: Tensor<T>,
    pub conv1: Tensor<T>,
    pub bn1: Tensor<T>,
    pub relu: Tensor<T>,
    pub conv2: Tensor<T>,
    pub bn2: Tensor<T>,
    pub sum: Tensor<T>,
}

/// The outcome of stage `k` of a residual block for the values of `trace`.
/// The stages are, in order: the skip connection, the first convolution,
/// its normalization, the rectifier, the second convolution, its
/// normalization, the sum with the skipped input, and the final rectifier.
pub open spec fn block_stage<T: Scalar>(
    before: ResidualBlock<T>,
    after: ResidualBlock<T>,
    x: &Tensor<T>,
    trace: BlockTrace<T>,
    k: nat,
    r: Result<Tensor<T>, BellandeError>,
) -> bool {
    if k == 0 {
        match (before.downsample, after.downsample) {
            (Some(b), Some(a)) => crate::models::sequential::forward_result(b, a, x, r),
            (None, None) => r matches Ok(t) && t.data@ == x.data@ && t.shape@ == x.shape@,
            _ => false,
        }
    } else if k == 1 {
        crate::layer::conv::forward_result(before.conv1, after.conv1, x, r)
    } else if k == 2 {
        crate::layer::batch_norm::layer_result(before.bn1.norm, after.bn1.norm, &trace.conv1, 4, r)
    } else if k == 3 {
        crate::layer::activation::forward_result(before.relu, after.relu, &trace.bn1, r)
    } else if k == 4 {
        crate::layer::conv::forward_result(before.conv2, after.conv2, &trace.relu, r)
    } else if k == 5 {
        crate::layer::batch_norm::layer_result(before.bn2.norm, after.bn2.norm, &trace.conv2, 4, r)
    } else if k == 6 {
        match r {
            Ok(t) => trace.bn2.shape@ == trace.identity.shape@ && t.shape@ == trace.bn2.shape@
                && t.data@ == crate::kernels::plus_seq(trace.bn2.data@, trace.identity.data@),
            Err(e) => trace.bn2.shape@ != trace.identity.shape@ && e
                == BellandeError::DimensionMismatch,
        }
    } else {
        crate::layer::activation::forward_result(before.relu_out, after.relu_out, &trace.sum, r)
    }
}

/// The value of `trace` that stage `k` produces.
pub open spec fn block_value<T: Scalar>(trace: BlockTrace<T>, k: nat) -> Tensor<T> {
    if k == 0 {
        trace.identity
    } else if k == 1 {
        trace.conv1
    } else if k == 2 {
        trace.bn1
    } else if k == 3 {
        trace.relu
    } else if k == 4 {
        trace.conv2
    } else if k == 5 {
        trace.bn2
    } else {
        trace.sum
    }
}

/// The first `n` stages have succeeded with the values of `trace`.
pub open spec fn block_staged<T: Scalar>(
    before: ResidualBlock<T>,
    after: ResidualBlock<T>,
    x: &Tensor<T>,
    trace: BlockTrace<T>,
    n: nat,
) -> bool {
    forall|k: nat|
        k < n && k < 7 ==> #[trigger] block_stage(before, after, x, trace, k, Ok(block_value(trace, k)))
}

/// What `forward` returns for `x` and how it changes the block: all stages
/// succeed and the result is that of the last, or the stages before the
/// first that fails succeed and the error is that of the failing stage.
pub open spec fn block_result<T: Scalar>(
    before: ResidualBlock<T>,
    after: ResidualBlock<T>,
    x: &Tensor<T>,
    r: Result<Tensor<T>, BellandeError>,
) -> bool {
    &&& after.wf()
    &&& match r {
        Ok(t) => t.wf() && exists|trace: BlockTrace<T>|
            #[trigger] block_staged(before, after, x, trace, 7) && block_stage(
                before,
                after,
                x,
                trace,
                7,
                Ok(t),
            ),
        Err(e) => exists|trace: BlockTrace<T>, k: nat|
            k <= 7 && #[trigger] block_staged(before, after, x, trace, k) && block_stage(
                before,
                after,
                x,
                trace,
                k,
                Err(e),
            ),
    }
}

impl<T: Scalar> ResidualBlock<T> {
    pub open spec fn wf(&self) -> bool {
        &&& self.conv1.wf()
        &&& self.bn1.wf()
        &&& self.conv2.wf()
        &&& self.bn2.wf()
        &&& self.relu.wf()
        &&& self.relu_out.wf()
        &&& self.downsample matches Some(d) ==> d.wf()
    }

    /// A block of two convolutions of kernel 3 and padding 1, the first of
    /// the given stride, each followed by a batch normalization with the
    /// `eps` and `momentum` of `settings`.
    pub fn new<R: RandomSource<T>>(
        in_channels: usize,
        out_channels: usize,
        stride: usize,
        downsample: Option<Sequential<T>>,
        settings: &LayerSettings<T>,
        rng: &mut R,
    ) -> (r: Self)
        requires
            out_channels * in_channels * 3 * 3 <= usize::MAX,
            out_channels * out_channels * 3 * 3 <= usize::MAX,
            downsample matches Some(d) ==> d.wf(),
        ensures
            r.wf(),
            r.conv1.in_channels == in_channels,
            r.conv1.out_channels == out_channels,
            r.conv1.kernel_size == (3usize, 3usize),
            r.conv1.stride == (stride, stride),
            r.conv1.padding == (1usize, 1usize),
            r.conv2.in_channels == out_channels,
            r.conv2.out_channels == out_channels,
            r.conv2.kernel_size == (3usize, 3usize),
            r.conv2.stride == (1usize, 1usize),
            r.conv2.padding == (1usize, 1usize),
            r.bn1.norm.num_features == out_channels,
            r.bn2.norm.num_features == out_channels,
            r.bn1.norm.eps == settings.eps && r.bn1.norm.momentum == settings.momentum,
            r.bn2.norm.eps == settings.eps && r.bn2.norm.momentum == settings.momentum,
            r.downsample == downsample,
    {
        ResidualBlock {
            conv1: Conv2d::new(in_channels, out_channels, (3, 3), (stride, stride), (1, 1), true, rng),
            bn1: BatchNorm2d::new(out_channels, settings.eps, settings.momentum, true),
            conv2: Conv2d::new(out_channels, out_channels, (3, 3), (1, 1), (1, 1), true, rng),
            bn2: BatchNorm2d::new(out_channels, settings.eps, settings.momentum, true),
            downsample,
            relu: ReLU::new(),
            relu_out: ReLU::new(),
        }
    }

    /// Applies the block: the main path of convolution, normalization,
    /// rectifier, convolution and normalization is added to the input,
    /// carried through the downsampling model where there is one, and the
    /// sum is rectified.
    pub fn forward<R: RandomSource<T>>(&mut self, x: &Tensor<T>, rng: &mut R) -> (r: Result<
        Tensor<T>,
        BellandeError,
    >)
        requires
            old(self).wf(),
            x.wf(),
        ensures
            block_result(*old(self), *final(self), x, r),
    {
        let ghost mut trace = BlockTrace {
            identity: *x,
            conv1: *x,
            bn1: *x,
            relu: *x,
            conv2: *x,
            bn2: *x,
            sum: *x,
        };
        let skipped = match &mut self.downsample {
            Some(ds) => ds.forward(x, rng),
            None => Ok(x.duplicate()),
        };
        let identity = match skipped {
            Ok(t) => t,
            Err(e) => {
                assert(block_staged(*old(self), *self, x, trace, 0));
                return Err(e);
            },
        };
        proof {
            trace.identity = identity;
        }
        let c1 = match self.conv1.forward(x) {
            Ok(t) => t,
            Err(e) => {
                assert(block_staged(*old(self), *self, x, trace, 1));
                return Err(e);
            },
        };
        proof {
            trace.conv1 = c1;
        }
        let n1 = match self.bn1.forward(&c1) {
            Ok(t) => t,
            Err(e) => {
                assert(block_staged(*old(self), *self, x, trace, 2));
                return Err(e);
            },
        };
        proof {
            trace.bn1 = n1;
        }
        let r1 = match self.relu.forward(&n1) {
            Ok(t) => t,
            Err(e) => {
                assert(block_staged(*old(self), *self, x, trace, 3));
                return Err(e);
            },
        };
        proof {
            trace.relu = r1;
        }
        let c2 = match self.conv2.forward(&r1) {
            Ok(t) => t,
            Err(e) => {
                assert(block_staged(*old(self), *self, x, trace, 4));
                return Err(e);
            },
        };
        proof {
            trace.conv2 = c2;
        }
        let n2 = match self.bn2.forward(&c2) {
            Ok(t) => t,
            Err(e) => {
                assert(block_staged(*old(self), *self, x, trace, 5));
                return Err(e);
            },
        };
        proof {
            trace.bn2 = n2;
        }
        let sum = match n2.add(&identity) {
            Ok(t) => t,
            Err(e) => {
                assert(block_staged(*old(self), *self, x, trace, 6));
                return Err(e);
            },
        };
        proof {
            trace.sum = sum;
        }
        let outcome = self.relu_out.forward(&sum);
        assert(block_staged(*old(self), *self, x, trace, 7));
        outcome
    }
}

/// What a chain of blocks returns for `x` and how it changes them: every
/// block is applied to the output of the block before it; the first block
/// that fails ends the pass with its error, the blocks after it untouched.
pub open spec fn blocks_result<T: Scalar>(
    before: Seq<ResidualBlock<T>>,
    after: Seq<ResidualBlock<T>>,
    x: &Tensor<T>,
    r: Result<Tensor<T>, BellandeError>,
) -> bool {
    &&& after.len() == before.len()
    &&& forall|i: int| 0 <= i < after.len() ==> (#[trigger] after[i]).wf()
    &&& match r {
        Ok(t) => t.wf() && exists|outs: Seq<Tensor<T>>|
            {
                &&& #[trigger] blocks_chain(before, after, *x, outs, before.len() as int)
                &&& before.len() > 0 ==> t == outs[before.len() - 1]
                &&& before.len() == 0 ==> t.data@ == x.data@ && t.shape@ == x.shape@
            },
        Err(e) => exists|outs: Seq<Tensor<T>>, k: int|
            {
                &&& 0 <= k < before.len()
                &&& #[trigger] blocks_chain(before, after, *x, outs, k)
                &&& block_result(
                    before[k],
                    after[k],
                    &crate::models::sequential::fed(*x, outs, k),
                    Err(e),
                )
                &&& forall|j: int| k < j < before.len() ==> after[j] == before[j]
            },
    }
}

/// The first `n` blocks have each turned what they received into their
/// output of `outs`.
pub open spec fn blocks_chain<T: Scalar>(
    before: Seq<ResidualBlock<T>>,
    after: Seq<ResidualBlock<T>>,
    x: Tensor<T>,
    outs: Seq<Tensor<T>>,
    n: int,
) -> bool {
    &&& outs.len() == n
    &&& forall|i: int|
        0 <= i < n ==> block_result(
            #[trigger] before[i],
            after[i],
            &crate::models::sequential::fed(x, outs, i),
            Ok(outs[i]),
        )
}

pub open spec fn blocks_wf<T: Scalar>(blocks: Seq<ResidualBlock<T>>) -> bool {
    forall|i: int| 0 <= i < blocks.len() ==> (#[trigger] blocks[i]).wf()
}

/// Applies a chain of blocks.
pub fn run_blocks<T: Scalar, R: RandomSource<T>>(
    blocks: &mut Vec<ResidualBlock<T>>,
    x: &Tensor<T>,
    rng: &mut R,
) -> (r: Result<Tensor<T>, BellandeError>)
    requires
        blocks_wf(old(blocks)@),
        x.wf(),
    ensures
        blocks_result(old(blocks)@, final(blocks)@, x, r),
{
    let n = blocks.len();
    let mut current = x.duplicate();
    let ghost mut outs: Seq<Tensor<T>> = Seq::empty();
    let mut i: usize = 0;
    while i < n
        invariant
            i <= n,
            n == old(blocks)@.len(),
            n == blocks@.len(),
            blocks_wf(old(blocks)@),
            x.wf(),
            current.wf(),
            forall|j: int| 0 <= j < i ==> (#[trigger] blocks@[j]).wf(),
            forall|j: int| i <= j < n ==> blocks@[j] == old(blocks)@[j],
            blocks_chain(old(blocks)@, blocks@, *x, outs, i as int),
            i > 0 ==> current == outs[i - 1],
            i == 0 ==> current.data@ == x.data@ && current.shape@ == x.shape@,
        decreases n - i,
    {
        let ghost previous = blocks@;
        let ghost received = current;
        let outcome = if i == 0 {
            blocks[i].forward(x, rng)
        } else {
            blocks[i].forward(&current, rng)
        };
        match outcome {
            Ok(t) => {
                proof {
                    let grown = outs.push(t);
                    assert forall|j: int| 0 <= j < i + 1 implies block_result(
                        #[trigger] old(blocks)@[j],
                        blocks@[j],
                        &crate::models::sequential::fed(*x, grown, j),
                        Ok(grown[j]),
                    ) by {
                        if j < i {
                            assert(blocks@[j] == previous[j]);
                            assert(crate::models::sequential::fed(*x, grown, j)
                                == crate::models::sequential::fed(*x, outs, j));
                            assert(grown[j] == outs[j]);
                        } else {
                            assert(crate::models::sequential::fed(*x, grown, j) == if i == 0 {
                                *x
                            } else {
                                received
                            });
                        }
                    }
                    outs = grown;
                }
                current = t;
            },
            Err(e) => {
                proof {
                    assert forall|j: int| 0 <= j < i implies block_result(
                        #[trigger] old(blocks)@[j],
                        blocks@[j],
                        &crate::models::sequential::fed(*x, outs, j),
                        Ok(outs[j]),
                    ) by {
                        assert(blocks@[j] == previous[j]);
                    }
                    assert(blocks_chain(old(blocks)@, blocks@, *x, outs, i as int));
                    assert(crate::models::sequential::fed(*x, outs, i as int) == if i == 0 {
                        *x
                    } else {
                        received
                    });
                    assert forall|j: int| 0 <= j < blocks@.len() implies (#[trigger] blocks@[j]).wf() by {
                        if j > i {
                            assert(blocks@[j] == old(blocks)@[j]);
                        }
                    }
                }
                return Err(e);
            },
        }
        i = i + 1;
    }
    Ok(current)
}

/// A residual network: a stem of convolution, normalization, rectifier
/// and pooling, four groups of residual blocks, an average pooling, and a
/// linear classifier.
pub struct ResNet<T> {
    pub conv1: Conv2d<T>,
    pub bn1: BatchNorm2d<T>,
    pub relu: ReLU<T>,
    pub maxpool: MaxPool2d,
    pub layer1: Vec<ResidualBlock<T>>,
    pub layer2: Vec<ResidualBlock<T>>,
    pub layer3: Vec<ResidualBlock<T>>,
    pub layer4: Vec<ResidualBlock<T>>,
    pub avgpool: AvgPool2d,
    pub fc: Linear<T>,
}

/// The intermediate values of one application of a residual network.
pub struct NetTrace<T> {
    pub conv1: Tensor<T>,
    pub bn1: Tensor<T>,
    pub relu: Tensor<T>,
    pub maxpool: Tensor<T>,
    pub layer1: Tensor<T>,
    pub layer2: Tensor<T>,
    pub layer3: Tensor<T>,
    pub layer4: Tensor<T>,
    pub pooled: Tensor<T>,
    pub flat: Tensor<T>,
}

/// The value of `trace` that stage `k` produces.
pub open spec fn net_value<T: Scalar>(trace: NetTrace<T>, k: nat) -> Tensor<T> {
    if k == 0 {
        trace.conv1
    } else if k == 1 {
        trace.bn1
    } else if k == 2 {
        trace.relu
    } else if k == 3 {
        trace.maxpool
    } else if k == 4 {
        trace.layer1
    } else if k == 5 {
        trace.layer2
    } else if k == 6 {
        trace.layer3
    } else if k == 7 {
        trace.layer4
    } else if k == 8 {
        trace.pooled
    } else {
        trace.flat
    }
}

/// The outcome of stage `k` of a residual network for the values of
/// `trace`. The stages are, in order: the stem's convolution,
/// normalization, rectifier and pooling, the four groups of blocks, the
/// average pooling, the reshaping into one row per sample, and the
/// classifier.
pub open spec fn net_stage<T: Scalar>(
    before: ResNet<T>,
    after: ResNet<T>,
    x: &Tensor<T>,
    trace: NetTrace<T>,
    k: nat,
    r: Result<Tensor<T>, BellandeError>,
) -> bool {
    if k == 0 {
        crate::layer::conv::forward_result(before.conv1, after.conv1, x, r)
    } else if k == 1 {
        crate::layer::batch_norm::layer_result(before.bn1.norm, after.bn1.norm, &trace.conv1, 4, r)
    } else if k == 2 {
        crate::layer::activation::forward_result(before.relu, after.relu, &trace.bn1, r)
    } else if k == 3 {
        crate::layer::pooling::forward_result(before.maxpool, after.maxpool, &trace.relu, r)
    } else if k == 4 {
        blocks_result(before.layer1@, after.layer1@, &trace.maxpool, r)
    } else if k == 5 {
        blocks_result(before.layer2@, after.layer2@, &trace.layer1, r)
    } else if k == 6 {
        blocks_result(before.layer3@, after.layer3@, &trace.layer2, r)
    } else if k == 7 {
        blocks_result(before.layer4@, after.layer4@, &trace.layer3, r)
    } else if k == 8 {
        crate::layer::avgpool2d::forward_result(before.avgpool, after.avgpool, &trace.layer4, r)
    } else if k == 9 {
        match r {
            Ok(t) => t.data@ == trace.pooled.data@ && t.shape@ == seq![
                trace.pooled.shape@[0],
                crate::shape::numel(trace.pooled.shape@.skip(1)) as usize,
            ],
            Err(e) => (e matches BellandeError::InvalidShape(_)) && crate::shape::numel(
                trace.pooled.shape@.skip(1),
            ) > usize::MAX,
        }
    } else {
        crate::layer::linear::forward_result(before.fc, after.fc, &trace.flat, r)
    }
}

/// The first `n` stages have succeeded with the values of `trace`.
pub open spec fn net_staged<T: Scalar>(
    before: ResNet<T>,
    after: ResNet<T>,
    x: &Tensor<T>,
    trace: NetTrace<T>,
    n: nat,
) -> bool {
    forall|k: nat|
        k < n && k < 10 ==> #[trigger] net_stage(before, after, x, trace, k, Ok(net_value(trace, k)))
}

/// What `forward` returns for `x` and how it changes the network: all
/// stages succeed and the result is that of the classifier, or the stages
/// before the first that fails succeed and the error is that of the failing
/// stage.
pub open spec fn net_result<T: Scalar>(
    before: ResNet<T>,
    after: ResNet<T>,
    x: &Tensor<T>,
    r: Result<Tensor<T>, BellandeError>,
) -> bool {
    &&& after.wf()
    &&& match r {
        Ok(t) => t.wf() && exists|trace: NetTrace<T>|
            #[trigger] net_staged(before, after, x, trace, 10) && net_stage(
                before,
                after,
                x,
                trace,
                10,
                Ok(t),
            ),
        Err(e) => exists|trace: NetTrace<T>, k: nat|
            k <= 10 && #[trigger] net_staged(before, after, x, trace, k) && net_stage(
                before,
                after,
                x,
                trace,
                k,
                Err(e),
            ),
    }
}

/// The configuration of the convolution of kernel 1 that carries the input
/// of a group across a change of stride or channels.
pub open spec fn shortcut(in_channels: usize, out_channels: usize, stride: usize) -> LayerKind {
    LayerKind::Conv2d {
        in_channels,
        out_channels,
        kernel_h: 1,
        kernel_w: 1,
        stride_h: stride,
        stride_w: stride,
        pad_h: 0,
        pad_w: 0,
        bias: true,
    }
}

/// A group of residual blocks: the first from `in_channels` to
/// `out_channels` with the given stride, downsampling its skip connection
/// by a convolution of kernel 1 and a batch normalization where stride or
/// channels change, followed by further blocks of stride 1 up to `blocks`
/// in all. A group always has its first block.
pub fn make_layer<T: Scalar, R: RandomSource<T>>(
    in_channels: usize,
    out_channels: usize,
    blocks: usize,
    stride: usize,
    settings: &LayerSettings<T>,
    rng: &mut R,
) -> (r: Vec<ResidualBlock<T>>)
    requires
        out_channels * in_channels * 3 * 3 <= usize::MAX,
        out_channels * out_channels * 3 * 3 <= usize::MAX,
    ensures
        blocks_wf(r@),
        r@.len() == if blocks == 0 {
            1
        } else {
            blocks as int
        },
        r@[0].conv1.in_channels == in_channels,
        r@[0].conv1.stride == (stride, stride),
        r@[0].downsample is Some == (stride != 1 || in_channels != out_channels),
        r@[0].downsample matches Some(d) ==> crate::models::sequential::kinds_of(d.layers@) == seq![
            shortcut(in_channels, out_channels, stride),
            LayerKind::BatchNorm2d { num_features: out_channels, affine: true },
        ],
        forall|i: int|
            0 <= i < r@.len() ==> (#[trigger] r@[i]).conv1.out_channels == out_channels
                && r@[i].conv2.in_channels == out_channels && r@[i].conv2.out_channels
                == out_channels,
        forall|i: int|
            1 <= i < r@.len() ==> (#[trigger] r@[i]).conv1.in_channels == out_channels
                && r@[i].conv1.stride == (1usize, 1usize) && r@[i].downsample is None,
{
    let mut layers: Vec<ResidualBlock<T>> = Vec::new();
    let downsample = if stride != 1 || in_channels != out_channels {
        let mut plan: Vec<LayerKind> = Vec::new();
        plan.push(
            LayerKind::Conv2d {
                in_channels,
                out_channels,
                kernel_h: 1,
                kernel_w: 1,
                stride_h: stride,
                stride_w: stride,
                pad_h: 0,
                pad_w: 0,
                bias: true,
            },
        );
        plan.push(LayerKind::BatchNorm2d { num_features: out_channels, affine: true });
        proof {
            assert(out_channels * in_channels * 1 * 1 <= out_channels * in_channels * 3 * 3)
                by (nonlinear_arith)
                requires
                    0 <= out_channels,
                    0 <= in_channels,
            ;
            assert forall|i: int| 0 <= i < plan@.len() implies (#[trigger] plan@[i]).buildable() by {}
        }
        let ghost expected = plan@;
        let model = Sequential::from_plan(&plan, settings, rng);
        assert(expected =~= seq![
            shortcut(in_channels, out_channels, stride),
            LayerKind::BatchNorm2d { num_features: out_channels, affine: true },
        ]);
        Some(model)
    } else {
        None
    };
    layers.push(ResidualBlock::new(in_channels, out_channels, stride, downsample, settings, rng));
    let mut i: usize = 1;
    while i < blocks
        invariant
            1 <= i,
            i <= blocks || (blocks == 0 && i == 1),
            out_channels * out_channels * 3 * 3 <= usize::MAX,
            layers@.len() == i,
            blocks_wf(layers@),
            layers@[0].conv1.in_channels == in_channels,
            layers@[0].conv1.stride == (stride, stride),
            layers@[0].downsample is Some == (stride != 1 || in_channels != out_channels),
            layers@[0].downsample matches Some(d) ==> crate::models::sequential::kinds_of(d.layers@)
                == seq![
                shortcut(in_channels, out_channels, stride),
                LayerKind::BatchNorm2d { num_features: out_channels, affine: true },
            ],
            forall|k: int|
                0 <= k < layers@.len() ==> (#[trigger] layers@[k]).conv1.out_channels
                    == out_channels && layers@[k].conv2.in_channels == out_channels
                    && layers@[k].conv2.out_channels == out_channels,
            forall|k: int|
                1 <= k < layers@.len() ==> (#[trigger] layers@[k]).conv1.in_channels
                    == out_channels && layers@[k].conv1.stride == (1usize, 1usize)
                    && layers@[k].downsample is None,
        decreases blocks - i,
    {
        layers.push(ResidualBlock::new(out_channels, out_channels, 1, None, settings, rng));
        i = i + 1;
    }
    layers
}

impl<T: Scalar> ResNet<T> {
    pub open spec fn wf(&self) -> bool {
        &&& self.conv1.wf()
        &&& self.bn1.wf()
        &&& self.relu.wf()
        &&& self.maxpool.wf()
        &&& blocks_wf(self.layer1@)
        &&& blocks_wf(self.layer2@)
        &&& blocks_wf(self.layer3@)
        &&& blocks_wf(self.layer4@)
        &&& self.avgpool.wf()
        &&& self.fc.wf()
    }

    /// ResNet-18 for `num_classes` classes: a stem of a convolution of
    /// kernel 7, stride 2 and padding 3 to 64 channels with normalization,
    /// rectifier and a max pooling of kernel 3 and stride 2; four groups of
    /// two blocks with 64, 128, 256 and 512 channels, the last three of
    /// stride 2; an average pooling of kernel 7 and stride 1; and a linear
    /// classifier from 512 features.
    pub fn resnet18<R: RandomSource<T>>(
        num_classes: usize,
        settings: &LayerSettings<T>,
        rng: &mut R,
    ) -> (r: Self)
        requires
            num_classes * 512 <= usize::MAX,
        ensures
            r.wf(),
            r.conv1.in_channels == 3 && r.conv1.out_channels == 64,
            r.conv1.kernel_size == (7usize, 7usize),
            r.conv1.stride == (2usize, 2usize),
            r.conv1.padding == (3usize, 3usize),
            r.bn1.norm.num_features == 64,
            r.maxpool.kernel_size == (3usize, 3usize),
            r.maxpool.stride == (2usize, 2usize),
            r.layer1@.len() == 2 && r.layer2@.len() == 2 && r.layer3@.len() == 2 && r.layer4@.len()
                == 2,
            r.layer1@[0].conv1.in_channels == 64 && r.layer1@[0].conv1.out_channels == 64
                && r.layer1@[0].downsample is None,
            r.layer2@[0].conv1.in_channels == 64 && r.layer2@[0].conv1.out_channels == 128
                && r.layer2@[0].downsample is Some,
            r.layer3@[0].conv1.in_channels == 128 && r.layer3@[0].conv1.out_channels == 256
                && r.layer3@[0].downsample is Some,
            r.layer4@[0].conv1.in_channels == 256 && r.layer4@[0].conv1.out_channels == 512
                && r.layer4@[0].downsample is Some,
            r.avgpool.kernel_size == (7usize, 7usize),
            r.avgpool.stride == (1usize, 1usize),
            r.fc.in_features == 512,
            r.fc.out_features == num_classes,
    {
        proof {
            assert(64 * 3 * 7 * 7 <= usize::MAX);
            assert(512 * 512 * 3 * 3 <= usize::MAX);
        }
        ResNet {
            conv1: Conv2d::new(3, 64, (7, 7), (2, 2), (3, 3), true, rng),
            bn1: BatchNorm2d::new(64, settings.eps, settings.momentum, true),
            relu: ReLU::new(),
            maxpool: MaxPool2d::new((3, 3), (2, 2)),
            layer1: make_layer(64, 64, 2, 1, settings, rng),
            layer2: make_layer(64, 128, 2, 2, settings, rng),
            layer3: make_layer(128, 256, 2, 2, settings, rng),
            layer4: make_layer(256, 512, 2, 2, settings, rng),
            avgpool: AvgPool2d::new((7, 7), (1, 1)),
            fc: Linear::new(512, num_classes, true, rng),
        }
    }

    /// Classifies a batch of images.
    pub fn forward<R: RandomSource<T>>(&mut self, x: &Tensor<T>, rng: &mut R) -> (r: Result<
        Tensor<T>,
        BellandeError,
    >)
        requires
            old(self).wf(),
            x.wf(),
        ensures
            net_result(*old(self), *final(self), x, r),
    {
        let ghost mut trace = NetTrace {
            conv1: *x,
            bn1: *x,
            relu: *x,
            maxpool: *x,
            layer1: *x,
            layer2: *x,
            layer3: *x,
            layer4: *x,
            pooled: *x,
            flat: *x,
        };
        let c1 = match self.conv1.forward(x) {
            Ok(t) => t,
            Err(e) => {
                assert(net_staged(*old(self), *self, x, trace, 0));
                return Err(e);
            },
        };
        proof {
            trace.conv1 = c1;
        }
        let n1 = match self.bn1.forward(&c1) {
            Ok(t) => t,
            Err(e) => {
                assert(net_staged(*old(self), *self, x, trace, 1));
                return Err(e);
            },
        };
        proof {
            trace.bn1 = n1;
        }
        let r1 = match self.relu.forward(&n1) {
            Ok(t) => t,
            Err(e) => {
                assert(net_staged(*old(self), *self, x, trace, 2));
                return Err(e);
            },
        };
        proof {
            trace.relu = r1;
        }
        let shrunk = match self.maxpool.forward(&r1) {
            Ok(t) => t,
            Err(e) => {
                assert(net_staged(*old(self), *self, x, trace, 3));
                return Err(e);
            },
        };
        proof {
            trace.maxpool = shrunk;
        }
        let l1 = match run_blocks(&mut self.layer1, &shrunk, rng) {
            Ok(t) => t,
            Err(e) => {
                assert(net_staged(*old(self), *self, x, trace, 4));
                return Err(e);
            },
        };
        proof {
            trace.layer1 = l1;
        }
        let l2 = match run_blocks(&mut self.layer2, &l1, rng) {
            Ok(t) => t,
            Err(e) => {
                assert(net_staged(*old(self), *self, x, trace, 5));
                return Err(e);
            },
        };
        proof {
            trace.layer2 = l2;
        }
        let l3 = match run_blocks(&mut self.layer3, &l2, rng) {
            Ok(t) => t,
            Err(e) => {
                assert(net_staged(*old(self), *self, x, trace, 6));
                return Err(e);
            },
        };
        proof {
            trace.layer3 = l3;
        }
        let l4 = match run_blocks(&mut self.layer4, &l3, rng) {
            Ok(t) => t,
            Err(e) => {
                assert(net_staged(*old(self), *self, x, trace, 7));
                return Err(e);
            },
        };
        proof {
            trace.layer4 = l4;
        }
        let pooled = match self.avgpool.forward(&l4) {
            Ok(t) => t,
            Err(e) => {
                assert(net_staged(*old(self), *self, x, trace, 8));
                return Err(e);
            },
        };
        proof {
            trace.pooled = pooled;
        }
        let flat = match pooled.flatten() {
            Ok(t) => t,
            Err(e) => {
                assert(net_staged(*old(self), *self, x, trace, 9));
                return Err(e);
            },
        };
        proof {
            trace.flat = flat;
        }
        let outcome = self.fc.forward(&flat);
        assert(net_staged(*old(self), *self, x, trace, 10));
        outcome
    }
}

} // verus!
