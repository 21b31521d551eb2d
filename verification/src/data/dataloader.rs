//! Which samples make up the next batch: in order or shuffled, with or
//! without an incomplete last batch; and how the samples of a batch are
//! stacked into one tensor.

use vstd::prelude::*;
use rand::seq::SliceRandom;
use crate::error::BellandeError;
use crate::scalar::Scalar;
use crate::shape::{lemma_numel_1, numel, same_shape};
use crate::tensor::Tensor;

verus! {

/// The rules by which a data set of `len` samples is cut into batches.
pub struct DataLoader {
    pub len: usize,
    pub batch_size: usize,
    pub shuffle: bool,
    pub num_workers: usize,
    pub drop_last: bool,
}

/// The place of an iteration over the batches of a data loader.
pub struct DataLoaderIterator {
    pub len: usize,
    pub batch_size: usize,
    pub shuffle: bool,
    pub drop_last: bool,
    pub index: usize,
}

/// `rand::seq::SliceRandom::shuffle` with `rand::thread_rng()`: the elements
/// are swapped among themselves, so the result holds the same elements as
/// often as before, in an order that nothing is known of.
#[verifier::external_body]
fn shuffle_in_place(indices: &mut Vec<usize>)
    ensures
        final(indices)@.to_multiset() == old(indices)@.to_multiset(),
        final(indices)@.len() == old(indices)@.len(),
{
    indices.shuffle(&mut rand::thread_rng());
}

/// The positions `first`, `first + 1`, … below `end`.
pub open spec fn run(first: int, end: int) -> Seq<usize> {
    Seq::new(
        if end > first {
            (end - first) as nat
        } else {
            0
        },
        |i: int| (first + i) as usize,
    )
}

/// The positions from `first` up to `end`, at most.
pub fn positions(first: usize, end: usize) -> (r: Vec<usize>)
    ensures
        r@ == run(first as int, end as int),
{
    let mut out: Vec<usize> = Vec::new();
    let mut i = first;
    while i < end
        invariant
            first <= i <= end || (i == first && first > end),
            out@ == run(first as int, i as int),
        decreases end - i,
    {
        out.push(i);
        assert(out@ =~= run(first as int, i + 1));
        i = i + 1;
    }
    assert(out@ =~= run(first as int, end as int));
    out
}

/// The first `n` elements at most.
pub fn head(v: &Vec<usize>, n: usize) -> (r: Vec<usize>)
    ensures
        r@ == v@.subrange(
            0,
            if n <= v@.len() {
                n as int
            } else {
                v@.len() as int
            },
        ),
{
    let limit = if n <= v.len() {
        n
    } else {
        v.len()
    };
    let mut out: Vec<usize> = Vec::new();
    let mut i: usize = 0;
    while i < limit
        invariant
            i <= limit,
            limit <= v@.len(),
            out@ == v@.subrange(0, i as int),
        decreases limit - i,
    {
        out.push(v[i]);
        assert(out@ =~= v@.subrange(0, i + 1));
        i = i + 1;
    }
    out
}

impl DataLoader {
    pub fn new(len: usize, batch_size: usize, shuffle: bool, num_workers: usize, drop_last: bool) -> (r:
        Self)
        ensures
            r.len == len,
            r.batch_size == batch_size,
            r.shuffle == shuffle,
            r.num_workers == num_workers,
            r.drop_last == drop_last,
    {
        DataLoader { len, batch_size, shuffle, num_workers, drop_last }
    }

    /// An iteration from the first sample.
    pub fn iter(&self) -> (r: DataLoaderIterator)
        ensures
            r.len == self.len,
            r.batch_size == self.batch_size,
            r.shuffle == self.shuffle,
            r.drop_last == self.drop_last,
            r.index == 0,
    {
        DataLoaderIterator {
            len: self.len,
            batch_size: self.batch_size,
            shuffle: self.shuffle,
            drop_last: self.drop_last,
            index: 0,
        }
    }
}

impl DataLoaderIterator {
    /// The samples of an unshuffled batch that starts at `index`.
    pub open spec fn window(&self) -> Seq<usize> {
        run(
            self.index as int,
            if self.index + self.batch_size <= self.len {
                self.index + self.batch_size
            } else {
                self.len as int
            },
        )
    }

    /// Whether the next batch would hold fewer than `batch_size` samples:
    /// unshuffled, fewer are left from the place of the iteration on;
    /// shuffled, the data holds fewer.
    pub open spec fn short(&self) -> bool {
        if self.shuffle {
            self.batch_size > self.len
        } else {
            self.index + self.batch_size > self.len
        }
    }

    /// Whether the iteration has ended: no sample is left, a batch would be
    /// empty, or it would be incomplete where incomplete batches are
    /// dropped.
    pub open spec fn ended(&self) -> bool {
        self.index >= self.len || self.batch_size == 0 || (self.drop_last && self.short())
    }

    /// The positions of the samples of the next batch, or `None` where the
    /// iteration has ended.
    ///
    /// Unshuffled, a batch holds the `batch_size` positions from the place
    /// of the iteration on, as far as there are samples. Shuffled, it holds
    /// the first `batch_size` of all positions in an order drawn anew, so
    /// that it holds no position twice. With `drop_last`, a batch of fewer
    /// than `batch_size` samples is not handed out. The place of the
    /// iteration advances by `batch_size`, as far as it can be counted.
    pub fn next_indices(&mut self) -> (r: Option<Vec<usize>>)
        ensures
            final(self).len == old(self).len,
            final(self).batch_size == old(self).batch_size,
            final(self).shuffle == old(self).shuffle,
            final(self).drop_last == old(self).drop_last,
            old(self).ended() ==> r is None && final(self).index == old(self).index,
            !old(self).ended() ==> r is Some && final(self).index == if old(self).index + old(self).batch_size <= usize::MAX {
                (old(self).index + old(self).batch_size) as usize
            } else {
                usize::MAX
            },
            r matches Some(batch) ==> {
                &&& !old(self).shuffle ==> batch@ == old(self).window()
                &&& old(self).shuffle ==> {
                    &&& batch@.len() == if old(self).batch_size <= old(self).len {
                        old(self).batch_size
                    } else {
                        old(self).len
                    }
                    &&& forall|k: int| 0 <= k < batch@.len() ==> (#[trigger] batch@[k]) < old(self).len
                    &&& batch@.no_duplicates()
                }
                &&& old(self).drop_last ==> batch@.len() == old(self).batch_size
            },
    {
        if self.index >= self.len || self.batch_size == 0 {
            return None;
        }
        if self.drop_last {
            let short = if self.shuffle {
                self.batch_size > self.len
            } else {
                self.batch_size > self.len - self.index
            };
            if short {
                return None;
            }
        }
        let batch = if self.shuffle {
            let mut indices = positions(0, self.len);
            let ghost ordered = indices@;
            shuffle_in_place(&mut indices);
            let drawn = head(&indices, self.batch_size);
            proof {
                lemma_shuffled(ordered, indices@, self.len as int);
                assert forall|k: int| 0 <= k < drawn@.len() implies (#[trigger] drawn@[k])
                    < self.len by {
                    assert(drawn@[k] == indices@[k]);
                }
                assert(drawn@.no_duplicates()) by {
                    assert forall|a: int, b: int|
                        0 <= a < drawn@.len() && 0 <= b < drawn@.len() && a != b implies drawn@[a]
                        != drawn@[b] by {
                        assert(drawn@[a] == indices@[a]);
                        assert(drawn@[b] == indices@[b]);
                    }
                }
            }
            drawn
        } else {
            let end = match self.index.checked_add(self.batch_size) {
                Some(e) => if e <= self.len {
                    e
                } else {
                    self.len
                },
                None => self.len,
            };
            positions(self.index, end)
        };
        self.index = match self.index.checked_add(self.batch_size) {
            Some(e) => e,
            None => usize::MAX,
        };
        Some(batch)
    }
}

/// A sequence that holds the same elements as often as the positions below
/// `n` holds each of them once.
proof fn lemma_shuffled(ordered: Seq<usize>, shuffled: Seq<usize>, n: int)
    requires
        0 <= n <= usize::MAX,
        ordered == run(0, n),
        shuffled.to_multiset() == ordered.to_multiset(),
        shuffled.len() == ordered.len(),
    ensures
        shuffled.no_duplicates(),
        forall|k: int| 0 <= k < shuffled.len() ==> (#[trigger] shuffled[k]) < n,
{
    broadcast use vstd::multiset::group_multiset_axioms;

    assert(ordered.no_duplicates());
    ordered.lemma_multiset_has_no_duplicates();
    assert forall|k: int| 0 <= k < shuffled.len() implies (#[trigger] shuffled[k]) < n by {
        let v = shuffled[k];
        assert(shuffled.contains(v));
        vstd::seq_lib::to_multiset_contains(shuffled, v);
        vstd::seq_lib::to_multiset_contains(ordered, v);
        assert(ordered.contains(v));
        let j = choose|j: int| 0 <= j < ordered.len() && ordered[j] == v;
        assert(ordered[j] == j as usize);
    }
    shuffled.lemma_multiset_has_no_duplicates_conv();
}

/// The inputs of the samples of a batch, or their targets.
pub open spec fn side<T: Scalar>(batch: Seq<(Tensor<T>, Tensor<T>)>, targets: bool) -> Seq<
    Tensor<T>,
> {
    Seq::new(
        batch.len(),
        |i: int|
            if targets {
                batch[i].1
            } else {
                batch[i].0
            },
    )
}

/// The elements of the first `n` tensors, one tensor after the other.
pub open spec fn joined<T: Scalar>(parts: Seq<Tensor<T>>, n: nat) -> Seq<T>
    decreases n,
{
    if n == 0 {
        Seq::empty()
    } else {
        joined(parts, (n - 1) as nat) + parts[n - 1].data@
    }
}

/// The shape of one sample inside a batch: its own shape, without a
/// leading extent of one that stands for a batch of one.
pub open spec fn sample_shape(shape: Seq<usize>) -> Seq<usize> {
    if shape.len() > 0 && shape[0] == 1 {
        shape.skip(1)
    } else {
        shape
    }
}

/// Why tensors cannot be stacked, if they cannot: there is none, or one has
/// another shape than the first.
pub open spec fn stack_error<T: Scalar>(parts: Seq<Tensor<T>>) -> Option<BellandeError> {
    if parts.len() == 0 {
        Some(BellandeError::InvalidInputs)
    } else if exists|k: int| 0 <= k < parts.len() && (#[trigger] parts[k]).shape@ != parts[0].shape@ {
        Some(BellandeError::DimensionMismatch)
    } else {
        None
    }
}

/// What stacking tensors gives: a tensor of one more dimension, whose
/// leading extent counts the tensors and whose elements are theirs, one
/// tensor after the other, without gradient, on the device and of the
/// type of the first.
pub open spec fn stacked<T: Scalar>(parts: Seq<Tensor<T>>, r: Result<Tensor<T>, BellandeError>) -> bool {
    match stack_error(parts) {
        Some(e) => r == Err::<Tensor<T>, BellandeError>(e),
        None => r matches Ok(t) && {
            &&& t.wf()
            &&& t.shape@ == seq![parts.len() as usize] + sample_shape(parts[0].shape@)
            &&& t.data@ == joined(parts, parts.len())
            &&& !t.requires_grad
            &&& t.grad is None
            &&& t.grad_fn is None
            &&& t.device == parts[0].device
            &&& t.dtype == parts[0].dtype
        },
    }
}

/// An extent in front multiplies the element count.
proof fn lemma_numel_prepend(c: usize, shape: Seq<usize>)
    ensures
        numel(seq![c] + shape) == c * numel(shape),
    decreases shape.len(),
{
    let whole = seq![c] + shape;
    if shape.len() == 0 {
        assert(whole =~= seq![c]);
        lemma_numel_1(whole);
        assert(numel(shape) == 1);
        assert(c * 1 == c);
    } else {
        lemma_numel_prepend(c, shape.drop_last());
        assert(whole.drop_last() =~= seq![c] + shape.drop_last());
        assert(whole.last() == shape.last());
        let rest = numel(shape.drop_last());
        let last = shape.last() as nat;
        assert(numel(whole) == numel(whole.drop_last()) * last);
        assert(numel(shape) == rest * last);
        assert((c * rest) * last == c * (rest * last)) by (nonlinear_arith);
    }
}

/// A sample has as many elements with as without a leading extent of one.
proof fn lemma_sample_numel(shape: Seq<usize>)
    ensures
        numel(sample_shape(shape)) == numel(shape),
{
    if shape.len() > 0 && shape[0] == 1 {
        lemma_numel_prepend(1, shape.skip(1));
        assert(seq![1usize] + shape.skip(1) =~= shape);
    }
}

/// Tensors of one shape joined hold as many elements as one of them,
/// times their number.
proof fn lemma_joined_len<T: Scalar>(parts: Seq<Tensor<T>>, n: nat)
    requires
        0 < parts.len(),
        n <= parts.len(),
        forall|k: int| 0 <= k < parts.len() ==> (#[trigger] parts[k]).wf(),
        forall|k: int| 0 <= k < n ==> (#[trigger] parts[k]).shape@ == parts[0].shape@,
    ensures
        joined(parts, n).len() == n * numel(parts[0].shape@),
    decreases n,
{
    let each = numel(parts[0].shape@);
    if n > 0 {
        lemma_joined_len(parts, (n - 1) as nat);
        assert(parts[n - 1].wf());
        assert(parts[n - 1].data@.len() == each);
        assert(joined(parts, n).len() == joined(parts, (n - 1) as nat).len() + each);
        assert((n - 1) * each + each == n * each) by (nonlinear_arith);
    } else {
        assert(0 * each == 0);
    }
}

fn stack_side<T: Scalar>(batch: &Vec<(Tensor<T>, Tensor<T>)>, targets: bool) -> (r: Result<
    Tensor<T>,
    BellandeError,
>)
    requires
        forall|k: int| 0 <= k < batch@.len() ==> (#[trigger] batch@[k]).0.wf() && batch@[k].1.wf(),
    ensures
        stacked(side(batch@, targets), r),
{
    let ghost parts = side(batch@, targets);
    let count = batch.len();
    if count == 0 {
        return Err(BellandeError::InvalidInputs);
    }
    let first = if targets {
        &batch[0].1
    } else {
        &batch[0].0
    };
    assert(*first == parts[0]);
    let mut data: Vec<T> = Vec::new();
    let mut k: usize = 0;
    while k < count
        invariant
            k <= count,
            count == batch@.len(),
            parts == side(batch@, targets),
            *first == parts[0],
            forall|i: int| 0 <= i < batch@.len() ==> (#[trigger] batch@[i]).0.wf() && batch@[i].1.wf(),
            forall|i: int| 0 <= i < k ==> (#[trigger] parts[i]).shape@ == parts[0].shape@,
            data@ == joined(parts, k as nat),
        decreases count - k,
    {
        let part = if targets {
            &batch[k].1
        } else {
            &batch[k].0
        };
        assert(*part == parts[k as int]);
        if !same_shape(&part.shape, &first.shape) {
            return Err(BellandeError::DimensionMismatch);
        }
        let n = part.data.len();
        let ghost before = data@;
        let mut j: usize = 0;
        while j < n
            invariant
                j <= n,
                n == part.data@.len(),
                data@ == before + part.data@.subrange(0, j as int),
            decreases n - j,
        {
            data.push(part.data[j]);
            assert(data@ =~= before + part.data@.subrange(0, j + 1));
            j = j + 1;
        }
        assert(part.data@.subrange(0, n as int) =~= part.data@);
        k = k + 1;
    }
    let mut shape: Vec<usize> = Vec::new();
    shape.push(count);
    let from: usize = if first.shape.len() > 0 && first.shape[0] == 1 {
        1
    } else {
        0
    };
    let rank = first.shape.len();
    let mut d: usize = from;
    while d < rank
        invariant
            from <= d <= rank,
            rank == first.shape@.len(),
            shape@ == seq![count] + first.shape@.subrange(from as int, d as int),
        decreases rank - d,
    {
        shape.push(first.shape[d]);
        assert(shape@ =~= seq![count] + first.shape@.subrange(from as int, d + 1));
        d = d + 1;
    }
    proof {
        assert(first.shape@.subrange(from as int, rank as int) =~= sample_shape(first.shape@));
        assert(forall|i: int| 0 <= i < parts.len() ==> (#[trigger] parts[i]).wf());
        lemma_joined_len(parts, count as nat);
        lemma_sample_numel(first.shape@);
        lemma_numel_prepend(count, sample_shape(first.shape@));
        assert(stack_error(parts) is None);
    }
    Ok(Tensor::new(data, shape, false, first.device, first.dtype))
}

/// Stacks the inputs of the samples of a batch into one tensor and their
/// targets into another.
///
/// Fails with `InvalidInputs` for an empty batch and with
/// `DimensionMismatch` where an input has another shape than the first
/// input, or a target another than the first target; the inputs are
/// looked at first.
pub fn collate_batch<T: Scalar>(batch: &Vec<(Tensor<T>, Tensor<T>)>) -> (r: Result<
    (Tensor<T>, Tensor<T>),
    BellandeError,
>)
    requires
        forall|k: int| 0 <= k < batch@.len() ==> (#[trigger] batch@[k]).0.wf() && batch@[k].1.wf(),
    ensures
        match r {
            Ok(pair) => stacked(side(batch@, false), Ok(pair.0)) && stacked(
                side(batch@, true),
                Ok(pair.1),
            ),
            Err(e) => stack_error(side(batch@, false)) == Some(e) || (stack_error(
                side(batch@, false),
            ) is None && stack_error(side(batch@, true)) == Some(e)),
        },
{
    let inputs = match stack_side(batch, false) {
        Ok(t) => t,
        Err(e) => {
            return Err(e);
        },
    };
    let targets = match stack_side(batch, true) {
        Ok(t) => t,
        Err(e) => {
            return Err(e);
        },
    };
    Ok((inputs, targets))
}

} // verus!
