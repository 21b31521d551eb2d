//! Batch normalization with running statistics, for `(batch, features)`
//! and `(batch, channels, height, width)` inputs.

use vstd::prelude::*;
use vstd::string::*;
use crate::device::Device;
use crate::dtype::DataType;
use crate::error::{forward_not_called, not_called, BellandeError};
use crate::kernels::{filled, lemma_len_fits};
use crate::scalar::Scalar;
use crate::shape::{
    checked_numel, checked_product4, copy_shape, flat3, flat4, index3, is_shape1,
    lemma_flat3_bound, lemma_numel_1, lemma_flat4_injective, lemma_flat4_leading, lemma_numel_2,
    lemma_numel_4, numel, shape1, Cursor4,
};
use crate::tensor::{ones_seq, zeros_seq, Tensor};

verus! {

/// Adds to `acc` the first `n` elements of channel `c` of sample `b`, in an
/// array of extents `(batch, channels, spatial)`.
pub open spec fn plane_sum<T: Scalar>(
    acc: T,
    x: Seq<T>,
    channels: int,
    spatial: int,
    b: int,
    c: int,
    n: nat,
) -> T
    decreases n,
{
    if n == 0 {
        acc
    } else {
        plane_sum(acc, x, channels, spatial, b, c, (n - 1) as nat).plus_spec(
            x[flat3(b, c, n - 1, channels, spatial)],
        )
    }
}

/// The elements of channel `c` over the first `n` samples, accumulated from
/// zero, sample by sample and position by position.
pub open spec fn channel_sum<T: Scalar>(x: Seq<T>, channels: int, spatial: int, c: int, n: nat) -> T
    decreases n,
{
    if n == 0 {
        T::zero_spec()
    } else {
        plane_sum(
            channel_sum(x, channels, spatial, c, (n - 1) as nat),
            x,
            channels,
            spatial,
            n - 1,
            c,
            spatial as nat,
        )
    }
}

/// Adds to `acc` the first `n` products `x * y` of channel `c` of sample `b`.
pub open spec fn plane_dot<T: Scalar>(
    acc: T,
    x: Seq<T>,
    y: Seq<T>,
    channels: int,
    spatial: int,
    b: int,
    c: int,
    n: nat,
) -> T
    decreases n,
{
    if n == 0 {
        acc
    } else {
        plane_dot(acc, x, y, channels, spatial, b, c, (n - 1) as nat).plus_spec(
            x[flat3(b, c, n - 1, channels, spatial)].times_spec(
                y[flat3(b, c, n - 1, channels, spatial)],
            ),
        )
    }
}

/// The products `x * y` of channel `c` over the first `n` samples,
/// accumulated from zero, sample by sample and position by position.
pub open spec fn channel_dot<T: Scalar>(
    x: Seq<T>,
    y: Seq<T>,
    channels: int,
    spatial: int,
    c: int,
    n: nat,
) -> T
    decreases n,
{
    if n == 0 {
        T::zero_spec()
    } else {
        plane_dot(
            channel_dot(x, y, channels, spatial, c, (n - 1) as nat),
            x,
            y,
            channels,
            spatial,
            n - 1,
            c,
            spatial as nat,
        )
    }
}

/// The extents a normalization works with: `batch` samples of `channels`
/// channels of `spatial` positions each.
#[derive(Clone, Copy, Debug)]
pub struct NormExtents {
    pub batch: usize,
    pub channels: usize,
    pub spatial: usize,
}

impl NormExtents {
    pub open spec fn len(self) -> int {
        self.batch * self.channels * self.spatial
    }

    /// The number of elements of one channel.
    pub open spec fn per_channel(self) -> int {
        self.batch * self.spatial
    }

    pub open spec fn at(self, b: int, c: int, s: int) -> int {
        flat3(b, c, s, self.channels as int, self.spatial as int)
    }

    pub open spec fn count<T: Scalar>(self) -> T {
        T::count_spec(self.per_channel() as usize)
    }

    /// Mean of channel `c`: its sum over its element count.
    pub open spec fn mean<T: Scalar>(self, x: Seq<T>, c: int) -> T {
        channel_sum(x, self.channels as int, self.spatial as int, c, self.batch as nat).over_spec(
            self.count::<T>(),
        )
    }

    /// Variance of channel `c`: the mean of the squares less the square of
    /// the mean.
    pub open spec fn variance<T: Scalar>(self, x: Seq<T>, c: int) -> T {
        channel_dot(
            x,
            x,
            self.channels as int,
            self.spatial as int,
            c,
            self.batch as nat,
        ).over_spec(self.count::<T>()).minus_spec(self.mean(x, c).times_spec(self.mean(x, c)))
    }
}

/// The deviation from a variance: the root of the variance with `eps` added.
pub open spec fn deviation<T: Scalar>(variance: T, eps: T) -> T {
    variance.plus_spec(eps).root_spec()
}

/// The exponential moving average of a statistic:
/// `momentum * running + (1 - momentum) * observed`.
pub open spec fn moving_average<T: Scalar>(momentum: T, running: T, observed: T) -> T {
    momentum.times_spec(running).plus_spec(
        T::one_spec().minus_spec(momentum).times_spec(observed),
    )
}

/// A value centred on `mean` and divided by `std`.
pub open spec fn normalized<T: Scalar>(x: T, mean: T, std: T) -> T {
    x.minus_spec(mean).over_spec(std)
}

/// The affine map `gamma * x + beta`, each part applied only where present.
pub open spec fn affine<T: Scalar>(x: T, gamma: Option<T>, beta: Option<T>) -> T {
    let scaled = match gamma {
        Some(g) => x.times_spec(g),
        None => x,
    };
    match beta {
        Some(b) => scaled.plus_spec(b),
        None => scaled,
    }
}

/// Gradient with respect to one input element of a channel of `count`
/// elements:
/// `gamma * (count * g - sum_g - x_hat * sum_gx) / (count * std)`,
/// where `sum_g` is the channel's output gradient summed and `sum_gx` the
/// channel's output gradient times normalized value summed.
pub open spec fn norm_grad<T: Scalar>(
    g: T,
    x_hat: T,
    sum_g: T,
    sum_gx: T,
    count: T,
    std: T,
    gamma: Option<T>,
) -> T {
    let core = count.times_spec(g).minus_spec(sum_g).minus_spec(x_hat.times_spec(sum_gx)).over_spec(
        count.times_spec(std),
    );
    match gamma {
        Some(w) => w.times_spec(core),
        None => core,
    }
}

fn channel_sum_exec<T: Scalar>(x: &Vec<T>, e: &NormExtents, c: usize) -> (r: T)
    requires
        x@.len() == e.len(),
        c < e.channels,
    ensures
        r == channel_sum(x@, e.channels as int, e.spatial as int, c as int, e.batch as nat),
{
    proof {
        lemma_len_fits(x);
    }
    let mut sum = T::zero();
    let mut b: usize = 0;
    while b < e.batch
        invariant
            b <= e.batch,
            x@.len() == e.len(),
            x@.len() <= usize::MAX,
            c < e.channels,
            sum == channel_sum(x@, e.channels as int, e.spatial as int, c as int, b as nat),
        decreases e.batch - b,
    {
        let ghost start = sum;
        let mut s: usize = 0;
        while s < e.spatial
            invariant
                b < e.batch,
                s <= e.spatial,
                x@.len() == e.len(),
                x@.len() <= usize::MAX,
                c < e.channels,
                sum == plane_sum(
                    start,
                    x@,
                    e.channels as int,
                    e.spatial as int,
                    b as int,
                    c as int,
                    s as nat,
                ),
            decreases e.spatial - s,
        {
            proof {
                lemma_flat3_bound(
                    b as int,
                    c as int,
                    s as int,
                    e.batch as int,
                    e.channels as int,
                    e.spatial as int,
                );
            }
            sum = sum.plus(x[index3(b, c, s, e.channels, e.spatial)]);
            s = s + 1;
        }
        b = b + 1;
    }
    sum
}

fn channel_dot_exec<T: Scalar>(x: &Vec<T>, y: &Vec<T>, e: &NormExtents, c: usize) -> (r: T)
    requires
        x@.len() == e.len(),
        y@.len() == e.len(),
        c < e.channels,
    ensures
        r == channel_dot(x@, y@, e.channels as int, e.spatial as int, c as int, e.batch as nat),
{
    proof {
        lemma_len_fits(x);
    }
    let mut sum = T::zero();
    let mut b: usize = 0;
    while b < e.batch
        invariant
            b <= e.batch,
            x@.len() == e.len(),
            y@.len() == e.len(),
            x@.len() <= usize::MAX,
            c < e.channels,
            sum == channel_dot(x@, y@, e.channels as int, e.spatial as int, c as int, b as nat),
        decreases e.batch - b,
    {
        let ghost start = sum;
        let mut s: usize = 0;
        while s < e.spatial
            invariant
                b < e.batch,
                s <= e.spatial,
                x@.len() == e.len(),
                y@.len() == e.len(),
                x@.len() <= usize::MAX,
                c < e.channels,
                sum == plane_dot(
                    start,
                    x@,
                    y@,
                    e.channels as int,
                    e.spatial as int,
                    b as int,
                    c as int,
                    s as nat,
                ),
            decreases e.spatial - s,
        {
            proof {
                lemma_flat3_bound(
                    b as int,
                    c as int,
                    s as int,
                    e.batch as int,
                    e.channels as int,
                    e.spatial as int,
                );
            }
            let at = index3(b, c, s, e.channels, e.spatial);
            sum = sum.plus(x[at].times(y[at]));
            s = s + 1;
        }
        b = b + 1;
    }
    sum
}

/// A grid of extents `(batch, channels, spatial)` is a four-dimensional
/// grid whose last extent is one.
proof fn lemma_grid_position(b: int, c: int, s: int, channels: int, spatial: int)
    by (nonlinear_arith)
    ensures
        flat4(b, c, s, 0, channels, spatial, 1) == flat3(b, c, s, channels, spatial),
{
}

proof fn lemma_extents(batch: int, channels: int, spatial: int)
    by (nonlinear_arith)
    requires
        0 <= batch,
        0 <= channels,
        0 <= spatial,
    ensures
        batch * channels * spatial == batch * channels * spatial * 1,
        channels > 0 ==> 0 <= batch * spatial <= batch * channels * spatial,
        batch * channels * spatial > 0 ==> batch > 0 && channels > 0 && spatial > 0,
        batch == 0 || spatial == 0 ==> batch * spatial == 0,
{
}

/// A channel without elements sums to zero.
proof fn lemma_empty_channel<T: Scalar>(x: Seq<T>, y: Seq<T>, channels: int, spatial: int, c: int, n: nat)
    requires
        n == 0 || spatial == 0,
    ensures
        channel_sum(x, channels, spatial, c, n) == T::zero_spec(),
        channel_dot(x, y, channels, spatial, c, n) == T::zero_spec(),
    decreases n,
{
    if n > 0 {
        lemma_empty_channel(x, y, channels, spatial, c, (n - 1) as nat);
    }
}

/// Mean and variance of every channel.
pub(crate) fn batch_statistics<T: Scalar>(x: &Vec<T>, e: &NormExtents) -> (r: (Vec<T>, Vec<T>))
    requires
        x@.len() == e.len(),
    ensures
        r.0@.len() == e.channels,
        r.1@.len() == e.channels,
        forall|c: int| 0 <= c < e.channels ==> #[trigger] r.0@[c] == e.mean(x@, c),
        forall|c: int| 0 <= c < e.channels ==> #[trigger] r.1@[c] == e.variance(x@, c),
{
    proof {
        lemma_len_fits(x);
        lemma_extents(e.batch as int, e.channels as int, e.spatial as int);
    }
    let mut means: Vec<T> = Vec::new();
    let mut variances: Vec<T> = Vec::new();
    let mut c: usize = 0;
    while c < e.channels
        invariant
            c <= e.channels,
            x@.len() == e.len(),
            x@.len() <= usize::MAX,
            e.channels > 0 ==> 0 <= e.batch * e.spatial <= e.len(),
            means@.len() == c,
            variances@.len() == c,
            forall|k: int| 0 <= k < c ==> #[trigger] means@[k] == e.mean(x@, k),
            forall|k: int| 0 <= k < c ==> #[trigger] variances@[k] == e.variance(x@, k),
        decreases e.channels - c,
    {
        let count = T::count(e.batch * e.spatial);
        let mean = channel_sum_exec(x, e, c).over(count);
        let variance = channel_dot_exec(x, x, e, c).over(count).minus(mean.times(mean));
        means.push(mean);
        variances.push(variance);
        c = c + 1;
    }
    (means, variances)
}

/// The deviation of every channel from its variance.
pub(crate) fn deviations<T: Scalar>(variances: &Vec<T>, eps: T) -> (r: Vec<T>)
    ensures
        r@.len() == variances@.len(),
        forall|c: int| 0 <= c < r@.len() ==> #[trigger] r@[c] == deviation(variances@[c], eps),
{
    let n = variances.len();
    let mut r: Vec<T> = Vec::new();
    let mut c: usize = 0;
    while c < n
        invariant
            c <= n,
            n == variances@.len(),
            r@.len() == c,
            forall|k: int| 0 <= k < c ==> #[trigger] r@[k] == deviation(variances@[k], eps),
        decreases n - c,
    {
        r.push(variances[c].plus(eps).root());
        c = c + 1;
    }
    r
}

/// The moving average of every channel's statistic.
fn blend<T: Scalar>(momentum: T, running: &Vec<T>, observed: &Vec<T>) -> (r: Vec<T>)
    requires
        running@.len() == observed@.len(),
    ensures
        r@.len() == running@.len(),
        forall|c: int|
            0 <= c < r@.len() ==> #[trigger] r@[c] == moving_average(
                momentum,
                running@[c],
                observed@[c],
            ),
{
    let n = running.len();
    let keep = T::one().minus(momentum);
    let mut r: Vec<T> = Vec::new();
    let mut c: usize = 0;
    while c < n
        invariant
            c <= n,
            n == running@.len(),
            n == observed@.len(),
            keep == T::one_spec().minus_spec(momentum),
            r@.len() == c,
            forall|k: int|
                0 <= k < c ==> #[trigger] r@[k] == moving_average(
                    momentum,
                    running@[k],
                    observed@[k],
                ),
        decreases n - c,
    {
        r.push(momentum.times(running[c]).plus(keep.times(observed[c])));
        c = c + 1;
    }
    r
}

pub open spec fn channel_value<T: Scalar>(values: Option<Seq<T>>, c: int) -> Option<T> {
    match values {
        Some(v) => Some(v[c]),
        None => None,
    }
}

pub open spec fn values_of<T: Scalar>(t: Option<Tensor<T>>) -> Option<Seq<T>> {
    match t {
        Some(v) => Some(v.data@),
        None => None,
    }
}

fn pick<T: Scalar>(values: &Option<Tensor<T>>, c: usize) -> (r: Option<T>)
    requires
        values matches Some(v) ==> c < v.data@.len(),
    ensures
        r == channel_value(values_of(*values), c as int),
{
    match values {
        Some(v) => Some(v.data[c]),
        None => None,
    }
}

/// Centres and scales every element by the statistics of its channel, then
/// applies the affine map of its channel. Returns the affine output and the
/// normalized values.
pub(crate) fn normalize<T: Scalar>(
    x: &Vec<T>,
    e: &NormExtents,
    center: &Vec<T>,
    std: &Vec<T>,
    gamma: &Option<Tensor<T>>,
    beta: &Option<Tensor<T>>,
) -> (r: (Vec<T>, Vec<T>))
    requires
        x@.len() == e.len(),
        center@.len() == e.channels,
        std@.len() == e.channels,
        gamma matches Some(v) ==> v.data@.len() == e.channels,
        beta matches Some(v) ==> v.data@.len() == e.channels,
    ensures
        r.0@.len() == e.len(),
        r.1@.len() == e.len(),
        forall|b: int, c: int, s: int|
            0 <= b < e.batch && 0 <= c < e.channels && 0 <= s < e.spatial ==> {
                let at = #[trigger] e.at(b, c, s);
                &&& 0 <= at < e.len()
                &&& r.1@[at] == normalized(x@[at], center@[c], std@[c])
                &&& r.0@[at] == affine(
                    r.1@[at],
                    channel_value(values_of(*gamma), c),
                    channel_value(values_of(*beta), c),
                )
            },
{
    proof {
        lemma_len_fits(x);
        lemma_extents(e.batch as int, e.channels as int, e.spatial as int);
    }
    let total = x.len();
    let mut out: Vec<T> = Vec::new();
    let mut hat: Vec<T> = Vec::new();
    let mut cur = Cursor4::start();
    while out.len() < total
        invariant
            x@.len() == e.len(),
            total == e.len(),
            e.len() == e.batch * e.channels * e.spatial * 1,
            total > 0 ==> e.batch > 0 && e.channels > 0 && e.spatial > 0,
            center@.len() == e.channels,
            std@.len() == e.channels,
            gamma matches Some(v) ==> v.data@.len() == e.channels,
            beta matches Some(v) ==> v.data@.len() == e.channels,
            out@.len() <= total,
            hat@.len() == out@.len(),
            total > 0 ==> cur.inside(e.channels as int, e.spatial as int, 1),
            out@.len() == cur.position(e.channels as int, e.spatial as int, 1),
            forall|b: int, c: int, s: int|
                0 <= b && 0 <= c < e.channels && 0 <= s < e.spatial && e.at(b, c, s) < out@.len()
                    ==> {
                    let at = #[trigger] e.at(b, c, s);
                    &&& hat@[at] == normalized(x@[at], center@[c], std@[c])
                    &&& out@[at] == affine(
                        hat@[at],
                        channel_value(values_of(*gamma), c),
                        channel_value(values_of(*beta), c),
                    )
                },
        decreases total - out@.len(),
    {
        proof {
            lemma_flat4_leading(
                cur.i as int,
                cur.j as int,
                cur.k as int,
                cur.l as int,
                e.batch as int,
                e.channels as int,
                e.spatial as int,
                1,
            );
            lemma_grid_position(
                cur.i as int,
                cur.j as int,
                cur.k as int,
                e.channels as int,
                e.spatial as int,
            );
        }
        let c = cur.j;
        let at = out.len();
        let value = x[at].minus(center[c]).over(std[c]);
        let scaled = match pick(gamma, c) {
            Some(w) => value.times(w),
            None => value,
        };
        let shifted = match pick(beta, c) {
            Some(w) => scaled.plus(w),
            None => scaled,
        };
        let ghost out_before = out@;
        let ghost hat_before = hat@;
        out.push(shifted);
        hat.push(value);
        assert forall|b2: int, c2: int, s2: int|
            0 <= b2 && 0 <= c2 < e.channels && 0 <= s2 < e.spatial && e.at(b2, c2, s2)
                < out@.len() implies {
            let at2 = #[trigger] e.at(b2, c2, s2);
            &&& hat@[at2] == normalized(x@[at2], center@[c2], std@[c2])
            &&& out@[at2] == affine(
                hat@[at2],
                channel_value(values_of(*gamma), c2),
                channel_value(values_of(*beta), c2),
            )
        } by {
            let at2 = e.at(b2, c2, s2);
            if at2 < out_before.len() {
                assert(out@[at2] == out_before[at2]);
                assert(hat@[at2] == hat_before[at2]);
            } else {
                lemma_grid_position(b2, c2, s2, e.channels as int, e.spatial as int);
                lemma_flat4_injective(
                    b2,
                    c2,
                    s2,
                    0,
                    cur.i as int,
                    cur.j as int,
                    cur.k as int,
                    cur.l as int,
                    e.channels as int,
                    e.spatial as int,
                    1,
                );
            }
        }
        cur.advance(e.channels, e.spatial, 1);
    }
    assert forall|b: int, c: int, s: int|
        0 <= b < e.batch && 0 <= c < e.channels && 0 <= s < e.spatial implies 0 <= #[trigger] e.at(
        b,
        c,
        s,
    ) < out@.len() by {
        lemma_flat3_bound(b, c, s, e.batch as int, e.channels as int, e.spatial as int);
    }
    (out, hat)
}

/// What a training-mode `forward` keeps for `backward`: the normalized
/// values, the deviation of every channel, and the extents and shape of the
/// input.
pub struct NormCache<T> {
    pub normalized: Vec<T>,
    pub std: Vec<T>,
    pub extents: NormExtents,
    pub shape: Vec<usize>,
}

/// Batch normalization over `(batch, channels, spatial)` grids: the state
/// and arithmetic shared by the one- and two-dimensional layers.
pub struct BatchNorm<T> {
    pub num_features: usize,
    pub eps: T,
    pub momentum: T,
    pub running_mean: Tensor<T>,
    pub running_var: Tensor<T>,
    pub weight: Option<Tensor<T>>,
    pub bias: Option<Tensor<T>>,
    pub training: bool,
    pub cache: Option<NormCache<T>>,
}

impl<T: Scalar> BatchNorm<T> {
    pub open spec fn wf(&self) -> bool {
        &&& self.running_mean.wf()
        &&& self.running_mean.shape@ == seq![self.num_features]
        &&& self.running_mean.data@.len() == self.num_features
        &&& self.running_var.wf()
        &&& self.running_var.shape@ == seq![self.num_features]
        &&& self.running_var.data@.len() == self.num_features
        &&& self.weight matches Some(w) ==> w.wf() && w.shape@ == seq![self.num_features]
            && w.data@.len() == self.num_features
        &&& self.bias matches Some(w) ==> w.wf() && w.shape@ == seq![self.num_features]
            && w.data@.len() == self.num_features
        &&& self.cache matches Some(k) ==> {
            &&& k.extents.channels == self.num_features
            &&& k.normalized@.len() == k.extents.len()
            &&& k.std@.len() == self.num_features
            &&& numel(k.shape@) == k.normalized@.len()
        }
    }

    fn vector_fits(&self, t: &Tensor<T>) -> (r: bool)
        ensures
            r == (t.wf() && t.shape@ == seq![self.num_features] && t.data@.len()
                == self.num_features),
    {
        proof {
            if t.shape@.len() == 1 {
                lemma_numel_1(t.shape@);
            }
        }
        t.is_wf() && is_shape1(&t.shape, self.num_features)
    }

    /// Whether the layer is well formed: the running statistics, the scale
    /// and the shift hold one element for every feature, and what was kept
    /// for `backward` has the extents it was kept with.
    pub fn is_wf(&self) -> (r: bool)
        ensures
            r == self.wf(),
    {
        if !(self.vector_fits(&self.running_mean) && self.vector_fits(&self.running_var)) {
            return false;
        }
        let scale_fits = match &self.weight {
            Some(w) => self.vector_fits(w),
            None => true,
        };
        let shift_fits = match &self.bias {
            Some(w) => self.vector_fits(w),
            None => true,
        };
        if !(scale_fits && shift_fits) {
            return false;
        }
        match &self.cache {
            Some(k) => {
                proof {
                    lemma_len_fits(&k.normalized);
                    assert(k.extents.len() == k.extents.batch * k.extents.channels
                        * k.extents.spatial * 1) by (nonlinear_arith)
                        requires
                            k.extents.len() == k.extents.batch * k.extents.channels
                                * k.extents.spatial,
                    ;
                }
                let grid = checked_product4(
                    k.extents.batch,
                    k.extents.channels,
                    k.extents.spatial,
                    1,
                );
                let counted = checked_numel(&k.shape);
                k.extents.channels == self.num_features && grid == Some(k.normalized.len())
                    && k.std.len() == self.num_features && counted == Some(k.normalized.len())
            },
            None => true,
        }
    }

    /// What an element is centred on: the batch mean of its channel while
    /// training, the running mean otherwise.
    pub open spec fn center(&self, x: Seq<T>, e: NormExtents, c: int) -> T {
        if self.training {
            e.mean(x, c)
        } else {
            self.running_mean.data@[c]
        }
    }

    /// What an element is divided by: the deviation of its channel, from
    /// the batch variance while training and from the running variance
    /// otherwise. `eps` is added before the root in either case.
    pub open spec fn spread(&self, x: Seq<T>, e: NormExtents, c: int) -> T {
        deviation(
            if self.training {
                e.variance(x, c)
            } else {
                self.running_var.data@[c]
            },
            self.eps,
        )
    }

    /// Output element `(b, c, s)`.
    pub open spec fn output_cell(&self, x: Seq<T>, e: NormExtents, b: int, c: int, s: int) -> T {
        affine(
            normalized(x[e.at(b, c, s)], self.center(x, e, c), self.spread(x, e, c)),
            channel_value(values_of(self.weight), c),
            channel_value(values_of(self.bias), c),
        )
    }

    /// A layer in training mode with running mean zero and running variance
    /// one; with `affine`, a scale of one and a shift of zero, both
    /// parameters.
    pub fn new(num_features: usize, eps: T, momentum: T, affine: bool) -> (r: Self)
        ensures
            r.wf(),
            r.num_features == num_features,
            r.eps == eps,
            r.momentum == momentum,
            r.training,
            r.cache is None,
            r.running_mean.data@ == zeros_seq::<T>(num_features as nat),
            r.running_var.data@ == ones_seq::<T>(num_features as nat),
            r.weight is Some == affine,
            r.bias is Some == affine,
            r.weight matches Some(w) ==> w.requires_grad && w.data@ == ones_seq::<T>(
                num_features as nat,
            ),
            r.bias matches Some(w) ==> w.requires_grad && w.data@ == zeros_seq::<T>(
                num_features as nat,
            ),
    {
        let running_mean = Tensor::zeros(shape1(num_features).as_slice());
        let running_var = Tensor::ones(shape1(num_features).as_slice());
        let weight = if affine {
            Some(
                Tensor::new(
                    filled(T::one(), num_features),
                    shape1(num_features),
                    true,
                    Device::CPU,
                    DataType::Float32,
                ),
            )
        } else {
            None
        };
        let bias = if affine {
            Some(
                Tensor::new(
                    filled(T::zero(), num_features),
                    shape1(num_features),
                    true,
                    Device::CPU,
                    DataType::Float32,
                ),
            )
        } else {
            None
        };
        BatchNorm {
            num_features,
            eps,
            momentum,
            running_mean,
            running_var,
            weight,
            bias,
            training: true,
            cache: None,
        }
    }

    /// Normalizes a grid of the given extents.
    ///
    /// While training, the statistics are those of the batch, the running
    /// statistics move towards them and the normalized values are cached.
    /// Otherwise the running statistics are used and nothing changes.
    pub fn forward(&mut self, input: &Tensor<T>, e: NormExtents) -> (t: Tensor<T>)
        requires
            old(self).wf(),
            input.wf(),
            input.data@.len() == e.len(),
            e.channels == old(self).num_features,
        ensures
            final(self).wf(),
            forward_result(*old(self), *final(self), input, e, t),
    {
        if self.training {
            let (means, variances) = batch_statistics(&input.data, &e);
            let std = deviations(&variances, self.eps);
            let (out, hat) = normalize(&input.data, &e, &means, &std, &self.weight, &self.bias);
            let new_mean = blend(self.momentum, &self.running_mean.data, &means);
            let new_var = blend(self.momentum, &self.running_var.data, &variances);
            self.running_mean.data = new_mean;
            self.running_var.data = new_var;
            self.cache = Some(
                NormCache { normalized: hat, std, extents: e, shape: copy_shape(&input.shape) },
            );
            Tensor::new(
                out,
                copy_shape(&input.shape),
                input.requires_grad,
                input.device,
                input.dtype,
            )
        } else {
            let std = deviations(&self.running_var.data, self.eps);
            let (out, _) = normalize(
                &input.data,
                &e,
                &self.running_mean.data,
                &std,
                &self.weight,
                &self.bias,
            );
            Tensor::new(
                out,
                copy_shape(&input.shape),
                input.requires_grad,
                input.device,
                input.dtype,
            )
        }
    }

    pub fn train(&mut self)
        ensures
            final(self).training,
            final(self).num_features == old(self).num_features,
            final(self).eps == old(self).eps,
            final(self).momentum == old(self).momentum,
            final(self).running_mean == old(self).running_mean,
            final(self).running_var == old(self).running_var,
            final(self).weight == old(self).weight,
            final(self).bias == old(self).bias,
            final(self).cache == old(self).cache,
    {
        self.training = true;
    }

    pub fn eval(&mut self)
        ensures
            !final(self).training,
            final(self).num_features == old(self).num_features,
            final(self).eps == old(self).eps,
            final(self).momentum == old(self).momentum,
            final(self).running_mean == old(self).running_mean,
            final(self).running_var == old(self).running_var,
            final(self).weight == old(self).weight,
            final(self).bias == old(self).bias,
            final(self).cache == old(self).cache,
    {
        self.training = false;
    }

    /// Gradient with respect to input element `(b, c, s)`, from the output
    /// gradient `g` and the cache: the batch-norm gradient with the
    /// correction for the dependence of the batch statistics on every
    /// element of the channel.
    pub open spec fn input_grad_cell(&self, g: Seq<T>, b: int, c: int, s: int) -> T {
        let k = self.cache->0;
        let e = k.extents;
        norm_grad(
            g[e.at(b, c, s)],
            k.normalized@[e.at(b, c, s)],
            channel_sum(g, e.channels as int, e.spatial as int, c, e.batch as nat),
            channel_dot(g, k.normalized@, e.channels as int, e.spatial as int, c, e.batch as nat),
            e.count::<T>(),
            k.std@[c],
            channel_value(values_of(self.weight), c),
        )
    }

    /// The gradients of a training-mode `forward`, from the gradient of its
    /// output: with respect to the input and, where the layer is affine, to
    /// the scale (the output gradient times the normalized value, summed
    /// over each channel) and to the shift (the output gradient summed over
    /// each channel).
    pub fn backward(&self, grad_output: &Tensor<T>) -> (r: Result<
        (Tensor<T>, Option<Tensor<T>>, Option<Tensor<T>>),
        BellandeError,
    >)
        requires
            self.wf(),
            grad_output.wf(),
        ensures
            backward_result(*self, grad_output, r),
    {
        let k = match &self.cache {
            Some(k) => k,
            None => {
                return Err(forward_not_called());
            },
        };
        if !crate::shape::same_shape(&grad_output.shape, &k.shape) {
            return Err(BellandeError::DimensionMismatch);
        }
        let e = k.extents;
        let g = &grad_output.data;
        proof {
            lemma_len_fits(g);
            lemma_extents(e.batch as int, e.channels as int, e.spatial as int);
        }
        let mut sum_g: Vec<T> = Vec::new();
        let mut sum_gx: Vec<T> = Vec::new();
        let mut c: usize = 0;
        while c < e.channels
            invariant
                c <= e.channels,
                g@.len() == e.len(),
                k.normalized@.len() == e.len(),
                sum_g@.len() == c,
                sum_gx@.len() == c,
                forall|j: int|
                    0 <= j < c ==> #[trigger] sum_g@[j] == channel_sum(
                        g@,
                        e.channels as int,
                        e.spatial as int,
                        j,
                        e.batch as nat,
                    ),
                forall|j: int|
                    0 <= j < c ==> #[trigger] sum_gx@[j] == channel_dot(
                        g@,
                        k.normalized@,
                        e.channels as int,
                        e.spatial as int,
                        j,
                        e.batch as nat,
                    ),
            decreases e.channels - c,
        {
            sum_g.push(channel_sum_exec(g, &e, c));
            sum_gx.push(channel_dot_exec(g, &k.normalized, &e, c));
            c = c + 1;
        }
        let total = g.len();
        let count = if total > 0 {
            T::count(e.batch * e.spatial)
        } else {
            T::zero()
        };
        let mut grad_input: Vec<T> = Vec::new();
        let mut cur = Cursor4::start();
        while grad_input.len() < total
            invariant
                self.wf(),
                self.cache == Some(*k),
                e == k.extents,
                g@ == grad_output.data@,
                g@.len() == e.len(),
                total == e.len(),
                e.len() == e.batch * e.channels * e.spatial * 1,
                total > 0 ==> e.batch > 0 && e.channels > 0 && e.spatial > 0 && count
                    == e.count::<T>(),
                sum_g@.len() == e.channels,
                sum_gx@.len() == e.channels,
                forall|j: int|
                    0 <= j < e.channels ==> #[trigger] sum_g@[j] == channel_sum(
                        g@,
                        e.channels as int,
                        e.spatial as int,
                        j,
                        e.batch as nat,
                    ),
                forall|j: int|
                    0 <= j < e.channels ==> #[trigger] sum_gx@[j] == channel_dot(
                        g@,
                        k.normalized@,
                        e.channels as int,
                        e.spatial as int,
                        j,
                        e.batch as nat,
                    ),
                grad_input@.len() <= total,
                total > 0 ==> cur.inside(e.channels as int, e.spatial as int, 1),
                grad_input@.len() == cur.position(e.channels as int, e.spatial as int, 1),
                forall|b: int, c2: int, s: int|
                    0 <= b && 0 <= c2 < e.channels && 0 <= s < e.spatial && e.at(b, c2, s)
                        < grad_input@.len() ==> {
                        let at = #[trigger] e.at(b, c2, s);
                        grad_input@[at] == self.input_grad_cell(g@, b, c2, s)
                    },
            decreases total - grad_input@.len(),
        {
            proof {
                lemma_flat4_leading(
                    cur.i as int,
                    cur.j as int,
                    cur.k as int,
                    cur.l as int,
                    e.batch as int,
                    e.channels as int,
                    e.spatial as int,
                    1,
                );
                lemma_grid_position(
                    cur.i as int,
                    cur.j as int,
                    cur.k as int,
                    e.channels as int,
                    e.spatial as int,
                );
            }
            let ch = cur.j;
            let at = grad_input.len();
            let core = count.times(g[at]).minus(sum_g[ch]).minus(
                k.normalized[at].times(sum_gx[ch]),
            ).over(count.times(k.std[ch]));
            let cell = match pick(&self.weight, ch) {
                Some(w) => w.times(core),
                None => core,
            };
            let ghost before = grad_input@;
            grad_input.push(cell);
            assert forall|b: int, c2: int, s: int|
                0 <= b && 0 <= c2 < e.channels && 0 <= s < e.spatial && e.at(b, c2, s)
                    < grad_input@.len() implies {
                let at2 = #[trigger] e.at(b, c2, s);
                grad_input@[at2] == self.input_grad_cell(g@, b, c2, s)
            } by {
                let at2 = e.at(b, c2, s);
                if at2 < before.len() {
                    assert(grad_input@[at2] == before[at2]);
                } else {
                    lemma_grid_position(b, c2, s, e.channels as int, e.spatial as int);
                    lemma_flat4_injective(
                        b,
                        c2,
                        s,
                        0,
                        cur.i as int,
                        cur.j as int,
                        cur.k as int,
                        cur.l as int,
                        e.channels as int,
                        e.spatial as int,
                        1,
                    );
                }
            }
            cur.advance(e.channels, e.spatial, 1);
        }
        assert forall|b: int, c2: int, s: int|
            0 <= b < e.batch && 0 <= c2 < e.channels && 0 <= s < e.spatial implies 0
            <= #[trigger] e.at(b, c2, s) < grad_input@.len() by {
            lemma_flat3_bound(b, c2, s, e.batch as int, e.channels as int, e.spatial as int);
        }
        let grad_gamma = match &self.weight {
            Some(w) => Some(
                Tensor::new(sum_gx, shape1(self.num_features), true, w.device, w.dtype),
            ),
            None => None,
        };
        let grad_beta = match &self.bias {
            Some(w) => Some(
                Tensor::new(sum_g, shape1(self.num_features), true, w.device, w.dtype),
            ),
            None => None,
        };
        Ok(
            (
                Tensor::new(
                    grad_input,
                    copy_shape(&k.shape),
                    true,
                    grad_output.device,
                    grad_output.dtype,
                ),
                grad_gamma,
                grad_beta,
            ),
        )
    }
}

/// What `forward` returns and how it changes the layer: `t` is the result
/// of normalizing `input`, a grid of extents `e`, by a layer in state
/// `before`, which leaves the layer in state `after`.
pub open spec fn forward_result<T: Scalar>(
    before: BatchNorm<T>,
    after: BatchNorm<T>,
    input: &Tensor<T>,
    e: NormExtents,
    t: Tensor<T>,
) -> bool {
    &&& after.num_features == before.num_features
    &&& after.eps == before.eps
    &&& after.momentum == before.momentum
    &&& after.weight == before.weight
    &&& after.bias == before.bias
    &&& after.training == before.training
    &&& t.wf()
    &&& t.shape@ == input.shape@
    &&& t.requires_grad == input.requires_grad
    &&& t.grad_fn is None
    &&& t.device == input.device
    &&& t.dtype == input.dtype
    &&& forall|b: int, c: int, s: int|
        0 <= b < e.batch && 0 <= c < e.channels && 0 <= s < e.spatial ==> {
            let at = #[trigger] e.at(b, c, s);
            &&& 0 <= at < t.data@.len()
            &&& t.data@[at] == before.output_cell(input.data@, e, b, c, s)
        }
    &&& !before.training ==> after.running_mean == before.running_mean && after.running_var
        == before.running_var && after.cache == before.cache
    &&& before.training ==> {
        &&& forall|c: int|
            0 <= c < e.channels ==> #[trigger] after.running_mean.data@[c] == moving_average(
                before.momentum,
                before.running_mean.data@[c],
                e.mean(input.data@, c),
            )
        &&& forall|c: int|
            0 <= c < e.channels ==> #[trigger] after.running_var.data@[c] == moving_average(
                before.momentum,
                before.running_var.data@[c],
                e.variance(input.data@, c),
            )
        &&& after.cache matches Some(k) && {
            &&& k.extents == e
            &&& k.shape@ == input.shape@
            &&& forall|c: int|
                0 <= c < e.channels ==> #[trigger] k.std@[c] == before.spread(input.data@, e, c)
            &&& forall|b: int, c: int, s: int|
                0 <= b < e.batch && 0 <= c < e.channels && 0 <= s < e.spatial ==> {
                    let at = #[trigger] e.at(b, c, s);
                    k.normalized@[at] == normalized(
                        input.data@[at],
                        before.center(input.data@, e, c),
                        before.spread(input.data@, e, c),
                    )
                }
        }
    }
}

/// What `backward` returns for a layer in state `layer`.
pub open spec fn backward_result<T: Scalar>(
    layer: BatchNorm<T>,
    grad_output: &Tensor<T>,
    r: Result<(Tensor<T>, Option<Tensor<T>>, Option<Tensor<T>>), BellandeError>,
) -> bool {
    match r {
        Ok(grads) => {
            let k = layer.cache->0;
            let e = k.extents;
            let g = grad_output.data@;
            &&& layer.cache is Some
            &&& grad_output.shape@ == k.shape@
            &&& grads.0.wf()
            &&& grads.0.shape@ == k.shape@
            &&& grads.0.requires_grad
            &&& forall|b: int, c: int, s: int|
                0 <= b < e.batch && 0 <= c < e.channels && 0 <= s < e.spatial ==> {
                    let at = #[trigger] e.at(b, c, s);
                    &&& 0 <= at < grads.0.data@.len()
                    &&& grads.0.data@[at] == layer.input_grad_cell(g, b, c, s)
                }
            &&& grads.1 is Some == layer.weight is Some
            &&& grads.1 matches Some(gw) ==> {
                &&& gw.wf()
                &&& gw.shape@ == seq![layer.num_features]
                &&& gw.data@.len() == layer.num_features
                &&& forall|c: int|
                    0 <= c < e.channels ==> #[trigger] gw.data@[c] == channel_dot(
                        g,
                        k.normalized@,
                        e.channels as int,
                        e.spatial as int,
                        c,
                        e.batch as nat,
                    )
            }
            &&& grads.2 is Some == layer.bias is Some
            &&& grads.2 matches Some(gb) ==> {
                &&& gb.wf()
                &&& gb.shape@ == seq![layer.num_features]
                &&& gb.data@.len() == layer.num_features
                &&& forall|c: int|
                    0 <= c < e.channels ==> #[trigger] gb.data@[c] == channel_sum(
                        g,
                        e.channels as int,
                        e.spatial as int,
                        c,
                        e.batch as nat,
                    )
            }
        },
        Err(BellandeError::RuntimeError(m)) => layer.cache is None && m@ == not_called(),
        Err(BellandeError::DimensionMismatch) => layer.cache is Some && grad_output.shape@
            != layer.cache->0.shape@,
        Err(_) => false,
    }
}

/// The extents of a `(batch, features)` input: one position per channel.
pub open spec fn extents_1d(shape: Seq<usize>) -> NormExtents {
    NormExtents { batch: shape[0], channels: shape[1], spatial: 1 }
}

/// The extents of a `(batch, channels, height, width)` input: the positions
/// `(h, w)` of a plane are numbered row by row, `s = h · width + w`. Where
/// the number of positions cannot be represented the input has no elements,
/// and the extents have no positions.
pub open spec fn extents_2d(shape: Seq<usize>) -> NormExtents {
    NormExtents {
        batch: shape[0],
        channels: shape[1],
        spatial: if shape[2] * shape[3] <= usize::MAX {
            (shape[2] * shape[3]) as usize
        } else {
            0
        },
    }
}

proof fn lemma_extents_2d(shape: Seq<usize>)
    requires
        shape.len() == 4,
        numel(shape) <= usize::MAX,
    ensures
        extents_2d(shape).len() == numel(shape),
{
    lemma_numel_4(shape);
    let a = shape[0] as int;
    let n = shape[1] as int;
    let p = shape[2] as int;
    let q = shape[3] as int;
    if p * q <= usize::MAX {
        assert(a * n * (p * q) == a * n * p * q) by (nonlinear_arith);
    } else {
        assert(a * n == 0 && a * n * p * q == 0) by (nonlinear_arith)
            requires
                a * n * p * q <= usize::MAX,
                p * q > usize::MAX,
                a >= 0,
                n >= 0,
                p >= 0,
                q >= 0,
        ;
        assert(a * n * 0 == 0);
    }
}

/// What the layer for inputs of the given rank, two or four, returns for
/// `input` and how that changes its state: the input is normalized as a
/// grid of the extents of its shape, or rejected, changing nothing, with
/// `InvalidShape` for another rank and with `DimensionMismatch` for another
/// number of channels.
pub open spec fn layer_result<T: Scalar>(
    before: BatchNorm<T>,
    after: BatchNorm<T>,
    input: &Tensor<T>,
    rank: nat,
    r: Result<Tensor<T>, BellandeError>,
) -> bool {
    match r {
        Ok(t) => {
            let e = if rank == 2 {
                extents_1d(input.shape@)
            } else {
                extents_2d(input.shape@)
            };
            &&& input.rank() == rank
            &&& input.shape@[1] == before.num_features
            &&& forward_result(before, after, input, e, t)
        },
        Err(BellandeError::InvalidShape(_)) => input.rank() != rank && after == before,
        Err(BellandeError::DimensionMismatch) => input.rank() == rank && input.shape@[1]
            != before.num_features && after == before,
        Err(_) => false,
    }
}

/// Batch normalization of `(batch, features)` inputs.
pub struct BatchNorm1d<T> {
    pub norm: BatchNorm<T>,
}

/// Batch normalization of `(batch, channels, height, width)` inputs, with
/// statistics per channel over batch, height and width.
pub struct BatchNorm2d<T> {
    pub norm: BatchNorm<T>,
}

impl<T: Scalar> BatchNorm1d<T> {
    pub open spec fn wf(&self) -> bool {
        self.norm.wf()
    }

    /// Whether the layer is well formed.
    pub fn is_wf(&self) -> (r: bool)
        ensures
            r == self.wf(),
    {
        self.norm.is_wf()
    }

    pub fn new(num_features: usize, eps: T, momentum: T, affine: bool) -> (r: Self)
        ensures
            r.wf(),
            r.norm.num_features == num_features,
            r.norm.eps == eps,
            r.norm.momentum == momentum,
            r.norm.training,
            r.norm.cache is None,
            r.norm.running_mean.data@ == zeros_seq::<T>(num_features as nat),
            r.norm.running_var.data@ == ones_seq::<T>(num_features as nat),
            r.norm.weight is Some == affine,
            r.norm.bias is Some == affine,
            r.norm.weight matches Some(w) ==> w.requires_grad && w.data@ == ones_seq::<T>(
                num_features as nat,
            ),
            r.norm.bias matches Some(w) ==> w.requires_grad && w.data@ == zeros_seq::<T>(
                num_features as nat,
            ),
    {
        BatchNorm1d { norm: BatchNorm::new(num_features, eps, momentum, affine) }
    }

    pub fn train(&mut self)
        ensures
            final(self).norm.training,
            final(self).norm.num_features == old(self).norm.num_features,
            final(self).norm.eps == old(self).norm.eps,
            final(self).norm.momentum == old(self).norm.momentum,
            final(self).norm.running_mean == old(self).norm.running_mean,
            final(self).norm.running_var == old(self).norm.running_var,
            final(self).norm.weight == old(self).norm.weight,
            final(self).norm.bias == old(self).norm.bias,
            final(self).norm.cache == old(self).norm.cache,
    {
        self.norm.train();
    }

    pub fn eval(&mut self)
        ensures
            !final(self).norm.training,
            final(self).norm.num_features == old(self).norm.num_features,
            final(self).norm.eps == old(self).norm.eps,
            final(self).norm.momentum == old(self).norm.momentum,
            final(self).norm.running_mean == old(self).norm.running_mean,
            final(self).norm.running_var == old(self).norm.running_var,
            final(self).norm.weight == old(self).norm.weight,
            final(self).norm.bias == old(self).norm.bias,
            final(self).norm.cache == old(self).norm.cache,
    {
        self.norm.eval();
    }

    /// Normalizes a `(batch, features)` input; see `BatchNorm::forward`.
    ///
    /// Fails with `InvalidShape` unless the input is two-dimensional, and
    /// with `DimensionMismatch` when its second extent is not
    /// `num_features`; a failed call changes nothing.
    pub fn forward(&mut self, input: &Tensor<T>) -> (r: Result<Tensor<T>, BellandeError>)
        requires
            old(self).wf(),
            input.wf(),
        ensures
            final(self).wf(),
            layer_result(old(self).norm, final(self).norm, input, 2, r),
    {
        if input.shape.len() != 2 {
            return Err(BellandeError::InvalidShape(String::from_str("expected a 2D input")));
        }
        if input.shape[1] != self.norm.num_features {
            return Err(BellandeError::DimensionMismatch);
        }
        let e = NormExtents { batch: input.shape[0], channels: input.shape[1], spatial: 1 };
        proof {
            lemma_numel_2(input.shape@);
            assert(e.batch * e.channels * 1 == e.batch * e.channels) by (nonlinear_arith);
        }
        Ok(self.norm.forward(input, e))
    }

    /// The gradients of a training-mode `forward`; see `BatchNorm::backward`.
    pub fn backward(&self, grad_output: &Tensor<T>) -> (r: Result<
        (Tensor<T>, Option<Tensor<T>>, Option<Tensor<T>>),
        BellandeError,
    >)
        requires
            self.wf(),
            grad_output.wf(),
        ensures
            backward_result(self.norm, grad_output, r),
    {
        self.norm.backward(grad_output)
    }
}

impl<T: Scalar> BatchNorm2d<T> {
    pub open spec fn wf(&self) -> bool {
        self.norm.wf()
    }

    /// Whether the layer is well formed.
    pub fn is_wf(&self) -> (r: bool)
        ensures
            r == self.wf(),
    {
        self.norm.is_wf()
    }

    pub fn new(num_features: usize, eps: T, momentum: T, affine: bool) -> (r: Self)
        ensures
            r.wf(),
            r.norm.num_features == num_features,
            r.norm.eps == eps,
            r.norm.momentum == momentum,
            r.norm.training,
            r.norm.cache is None,
            r.norm.running_mean.data@ == zeros_seq::<T>(num_features as nat),
            r.norm.running_var.data@ == ones_seq::<T>(num_features as nat),
            r.norm.weight is Some == affine,
            r.norm.bias is Some == affine,
            r.norm.weight matches Some(w) ==> w.requires_grad && w.data@ == ones_seq::<T>(
                num_features as nat,
            ),
            r.norm.bias matches Some(w) ==> w.requires_grad && w.data@ == zeros_seq::<T>(
                num_features as nat,
            ),
    {
        BatchNorm2d { norm: BatchNorm::new(num_features, eps, momentum, affine) }
    }

    pub fn train(&mut self)
        ensures
            final(self).norm.training,
            final(self).norm.num_features == old(self).norm.num_features,
            final(self).norm.eps == old(self).norm.eps,
            final(self).norm.momentum == old(self).norm.momentum,
            final(self).norm.running_mean == old(self).norm.running_mean,
            final(self).norm.running_var == old(self).norm.running_var,
            final(self).norm.weight == old(self).norm.weight,
            final(self).norm.bias == old(self).norm.bias,
            final(self).norm.cache == old(self).norm.cache,
    {
        self.norm.train();
    }

    pub fn eval(&mut self)
        ensures
            !final(self).norm.training,
            final(self).norm.num_features == old(self).norm.num_features,
            final(self).norm.eps == old(self).norm.eps,
            final(self).norm.momentum == old(self).norm.momentum,
            final(self).norm.running_mean == old(self).norm.running_mean,
            final(self).norm.running_var == old(self).norm.running_var,
            final(self).norm.weight == old(self).norm.weight,
            final(self).norm.bias == old(self).norm.bias,
            final(self).norm.cache == old(self).norm.cache,
    {
        self.norm.eval();
    }

    /// Normalizes a `(batch, channels, height, width)` input; see
    /// `BatchNorm::forward`.
    ///
    /// Fails with `InvalidShape` unless the input is four-dimensional, and
    /// with `DimensionMismatch` when it does not have `num_features`
    /// channels; a failed call changes nothing.
    pub fn forward(&mut self, input: &Tensor<T>) -> (r: Result<Tensor<T>, BellandeError>)
        requires
            old(self).wf(),
            input.wf(),
        ensures
            final(self).wf(),
            layer_result(old(self).norm, final(self).norm, input, 4, r),
    {
        if input.shape.len() != 4 {
            return Err(BellandeError::InvalidShape(String::from_str("expected a 4D input")));
        }
        if input.shape[1] != self.norm.num_features {
            return Err(BellandeError::DimensionMismatch);
        }
        proof {
            lemma_len_fits(&input.data);
            lemma_extents_2d(input.shape@);
        }
        let spatial = match input.shape[2].checked_mul(input.shape[3]) {
            Some(v) => v,
            None => 0,
        };
        let e = NormExtents { batch: input.shape[0], channels: input.shape[1], spatial };
        Ok(self.norm.forward(input, e))
    }

    /// The gradients of a training-mode `forward`; see `BatchNorm::backward`.
    pub fn backward(&self, grad_output: &Tensor<T>) -> (r: Result<
        (Tensor<T>, Option<Tensor<T>>, Option<Tensor<T>>),
        BellandeError,
    >)
        requires
            self.wf(),
            grad_output.wf(),
        ensures
            backward_result(self.norm, grad_output, r),
    {
        self.norm.backward(grad_output)
    }
}

} // verus!
