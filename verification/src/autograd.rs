//! Reverse-mode differentiation over an arena of tensors: operations record
//! the handles of their operands, and a backward pass lets gradients flow
//! from a root down to the leaves, accumulating where paths meet.

use vstd::prelude::*;
use crate::error::BellandeError;
use crate::kernels::{
    copied, dot, dot_grid, lemma_len_fits, minus_seq, plus_seq, plus_vec, times_seq, times_vec,
};
use crate::scalar::Scalar;
use crate::shape::{flat2, lemma_flat2_bound, lemma_flat2_cell, lemma_numel_2};
use crate::tensor::{GradFn, Tensor};

verus! {

/// A computation graph: an arena of tensors addressed by handle. A tensor
/// produced by an operation records the handles of its operands, which are
/// always smaller than its own, so the graph cannot contain a cycle.
pub struct Graph<T> {
    pub nodes: Vec<Tensor<T>>,
}

/// The gradients that flow through the nodes of a graph during one
/// backward pass; `None` where nothing has arrived.
pub type Flows<T> = Seq<Option<Seq<T>>>;

/// Adds `g` to what has arrived at node `at`.
pub open spec fn arrive<T: Scalar>(flows: Flows<T>, at: int, g: Seq<T>) -> Flows<T> {
    flows.update(
        at,
        Some(
            match flows[at] {
                Some(f) => plus_seq(f, g),
                None => g,
            },
        ),
    )
}

/// `0 - g`, element by element.
pub open spec fn negated<T: Scalar>(g: Seq<T>) -> Seq<T> {
    Seq::new(g.len(), |i: int| T::zero_spec().minus_spec(g[i]))
}

/// The gradient of a matrix product with respect to its left operand:
/// `g · bᵀ`, for `g` of extents `(m, n)` and `b` of extents `(k, n)`.
pub open spec fn matmul_grad_left<T: Scalar>(g: Seq<T>, b: Seq<T>, m: int, k: int, n: int) -> Seq<
    T,
> {
    Seq::new((m * k) as nat, |at: int| dot(g, (at / k) * n, 1, b, (at % k) * n, 1, n as nat))
}

/// The gradient of a matrix product with respect to its right operand:
/// `aᵀ · g`, for `a` of extents `(m, k)` and `g` of extents `(m, n)`.
pub open spec fn matmul_grad_right<T: Scalar>(a: Seq<T>, g: Seq<T>, m: int, k: int, n: int) -> Seq<
    T,
> {
    Seq::new((k * n) as nat, |at: int| dot(a, at / n, k, g, at % n, n, m as nat))
}

/// What an operation sends to its left operand when `g` arrives at its
/// result.
pub open spec fn left_share<T: Scalar>(nodes: Seq<Tensor<T>>, op: GradFn, g: Seq<T>) -> Seq<T> {
    match op {
        GradFn::Add(_, _) => g,
        GradFn::Sub(_, _) => g,
        GradFn::Mul(_, b) => times_seq(g, nodes[b as int].data@),
        GradFn::MatMul(a, b) => matmul_grad_left(
            g,
            nodes[b as int].data@,
            nodes[a as int].shape@[0] as int,
            nodes[a as int].shape@[1] as int,
            nodes[b as int].shape@[1] as int,
        ),
    }
}

/// What an operation sends to its right operand when `g` arrives at its
/// result.
pub open spec fn right_share<T: Scalar>(nodes: Seq<Tensor<T>>, op: GradFn, g: Seq<T>) -> Seq<T> {
    match op {
        GradFn::Add(_, _) => g,
        GradFn::Sub(_, _) => negated(g),
        GradFn::Mul(a, _) => times_seq(g, nodes[a as int].data@),
        GradFn::MatMul(a, b) => matmul_grad_right(
            nodes[a as int].data@,
            g,
            nodes[a as int].shape@[0] as int,
            nodes[a as int].shape@[1] as int,
            nodes[b as int].shape@[1] as int,
        ),
    }
}

pub open spec fn left_of(op: GradFn) -> int {
    match op {
        GradFn::Add(a, _) => a as int,
        GradFn::Sub(a, _) => a as int,
        GradFn::Mul(a, _) => a as int,
        GradFn::MatMul(a, _) => a as int,
    }
}

pub open spec fn right_of(op: GradFn) -> int {
    match op {
        GradFn::Add(_, b) => b as int,
        GradFn::Sub(_, b) => b as int,
        GradFn::Mul(_, b) => b as int,
        GradFn::MatMul(_, b) => b as int,
    }
}

/// Passes on what has arrived at node `at`: each operand that requires a
/// gradient receives its share, the left one first.
pub open spec fn propagate<T: Scalar>(nodes: Seq<Tensor<T>>, flows: Flows<T>, at: int) -> Flows<T> {
    match (flows[at], nodes[at].grad_fn) {
        (Some(g), Some(op)) => {
            let a = left_of(op);
            let b = right_of(op);
            let first = if nodes[a].requires_grad {
                arrive(flows, a, left_share(nodes, op, g))
            } else {
                flows
            };
            if nodes[b].requires_grad {
                arrive(first, b, right_share(nodes, op, g))
            } else {
                first
            }
        },
        _ => flows,
    }
}

/// The flows after the `k` nodes from `root` downwards have passed on what
/// arrived at them, `root` first.
pub open spec fn sweep<T: Scalar>(nodes: Seq<Tensor<T>>, start: Flows<T>, root: int, k: nat) -> Flows<
    T,
>
    decreases k,
{
    if k == 0 {
        start
    } else {
        propagate(nodes, sweep(nodes, start, root, (k - 1) as nat), root - (k - 1))
    }
}

/// The flows of a backward pass from `root` with the given starting
/// gradient: it arrives at `root`, and every node from `root` down to the
/// first passes on what arrived at it.
pub open spec fn flows_of<T: Scalar>(nodes: Seq<Tensor<T>>, root: int, seed: Seq<T>) -> Flows<T> {
    sweep(
        nodes,
        Seq::new(nodes.len(), |i: int| None::<Seq<T>>).update(root, Some(seed)),
        root,
        (root + 1) as nat,
    )
}

/// The gradient of a node after a pass: what it held before plus what
/// arrived, for a node that keeps a gradient.
pub open spec fn gradient_after<T: Scalar>(before: Option<Vec<T>>, arrived: Option<Seq<T>>) -> Option<
    Seq<T>,
> {
    match (before, arrived) {
        (Some(g), Some(f)) => Some(plus_seq(g@, f)),
        (Some(g), None) => Some(g@),
        (None, _) => None,
    }
}

/// Whether the operands of `op`, recorded for a node at handle `at` with
/// the given shape, are earlier nodes of shapes that fit the operation.
pub open spec fn op_fits<T: Scalar>(nodes: Seq<Tensor<T>>, at: int, op: GradFn) -> bool {
    let a = left_of(op);
    let b = right_of(op);
    &&& 0 <= a < at
    &&& 0 <= b < at
    &&& match op {
        GradFn::MatMul(_, _) => {
            &&& nodes[a].shape@.len() == 2
            &&& nodes[b].shape@.len() == 2
            &&& nodes[a].shape@[1] == nodes[b].shape@[0]
            &&& nodes[at].shape@ == seq![nodes[a].shape@[0], nodes[b].shape@[1]]
        },
        _ => nodes[a].shape@ == nodes[at].shape@ && nodes[b].shape@ == nodes[at].shape@,
    }
}

pub open spec fn nodes_wf<T: Scalar>(nodes: Seq<Tensor<T>>) -> bool {
    forall|i: int|
        0 <= i < nodes.len() ==> {
            &&& (#[trigger] nodes[i]).wf()
            &&& nodes[i].grad_fn matches Some(op) ==> op_fits(nodes, i, op)
        }
}

/// Every flow that has arrived has the length of its node.
pub open spec fn flows_fit<T: Scalar>(nodes: Seq<Tensor<T>>, flows: Flows<T>) -> bool {
    &&& flows.len() == nodes.len()
    &&& forall|i: int|
        0 <= i < nodes.len() ==> ((#[trigger] flows[i]) matches Some(f) ==> f.len()
            == nodes[i].data@.len())
}

/// The view of executable flows.
pub open spec fn flows_view<T: Scalar>(flows: Seq<Option<Vec<T>>>) -> Flows<T> {
    Seq::new(
        flows.len(),
        |i: int|
            match flows[i] {
                Some(f) => Some(f@),
                None => None,
            },
    )
}

fn arrive_exec<T: Scalar>(flows: &mut Vec<Option<Vec<T>>>, at: usize, g: Vec<T>)
    requires
        at < old(flows)@.len(),
        old(flows)@[at as int] matches Some(f) ==> f@.len() == g@.len(),
    ensures
        final(flows)@.len() == old(flows)@.len(),
        flows_view(final(flows)@) == arrive(flows_view(old(flows)@), at as int, g@),
{
    let sum = match &flows[at] {
        Some(f) => plus_vec(f, &g),
        None => g,
    };
    flows[at] = Some(sum);
    assert(flows_view(flows@) =~= arrive(flows_view(old(flows)@), at as int, g@));
}

fn negate<T: Scalar>(g: &Vec<T>) -> (r: Vec<T>)
    ensures
        r@ == negated(g@),
{
    let n = g.len();
    let zero = T::zero();
    let mut r: Vec<T> = Vec::new();
    let mut i: usize = 0;
    while i < n
        invariant
            i <= n,
            n == g@.len(),
            zero == T::zero_spec(),
            r@.len() == i,
            forall|k: int| 0 <= k < i ==> r@[k] == negated(g@)[k],
        decreases n - i,
    {
        r.push(zero.minus(g[i]));
        i = i + 1;
    }
    assert(r@ =~= negated(g@));
    r
}

fn share_left<T: Scalar>(nodes: &Vec<Tensor<T>>, at: usize, op: GradFn, g: &Vec<T>) -> (r: Vec<T>)
    requires
        nodes_wf(nodes@),
        at < nodes@.len(),
        nodes@[at as int].grad_fn == Some(op),
        g@.len() == nodes@[at as int].data@.len(),
    ensures
        r@ == left_share(nodes@, op, g@),
        r@.len() == nodes@[left_of(op)].data@.len(),
{
    match op {
        GradFn::Add(_, _) => copied(g),
        GradFn::Sub(_, _) => copied(g),
        GradFn::Mul(_, b) => times_vec(g, &nodes[b].data),
        GradFn::MatMul(a, b) => {
            let m = nodes[a].shape[0];
            let k = nodes[a].shape[1];
            let n = nodes[b].shape[1];
            proof {
                lemma_numel_2(nodes@[a as int].shape@);
                lemma_numel_2(nodes@[b as int].shape@);
                lemma_numel_2(nodes@[at as int].shape@);
                lemma_len_fits(&nodes@[a as int].data);
                if m > 0 && n > 0 {
                    lemma_flat2_bound(m - 1, n - 1, m as int, n as int);
                }
                if k > 0 && n > 0 {
                    lemma_flat2_bound(k - 1, n - 1, k as int, n as int);
                }
            }
            let r = dot_grid(g, n, 1, &nodes[b].data, n, 1, m, k, n);
            assert(r@ =~= matmul_grad_left(g@, nodes@[b as int].data@, m as int, k as int, n as int))
                by {
                assert forall|idx: int| 0 <= idx < r@.len() implies r@[idx] == matmul_grad_left(
                    g@,
                    nodes@[b as int].data@,
                    m as int,
                    k as int,
                    n as int,
                )[idx] by {
                    lemma_flat2_cell(idx, m as int, k as int);
                    assert(r@[flat2(idx / (k as int), idx % (k as int), k as int)] == r@[idx]);
                }
            }
            r
        },
    }
}

fn share_right<T: Scalar>(nodes: &Vec<Tensor<T>>, at: usize, op: GradFn, g: &Vec<T>) -> (r: Vec<T>)
    requires
        nodes_wf(nodes@),
        at < nodes@.len(),
        nodes@[at as int].grad_fn == Some(op),
        g@.len() == nodes@[at as int].data@.len(),
    ensures
        r@ == right_share(nodes@, op, g@),
        r@.len() == nodes@[right_of(op)].data@.len(),
{
    match op {
        GradFn::Add(_, _) => copied(g),
        GradFn::Sub(_, _) => negate(g),
        GradFn::Mul(a, _) => times_vec(g, &nodes[a].data),
        GradFn::MatMul(a, b) => {
            let m = nodes[a].shape[0];
            let k = nodes[a].shape[1];
            let n = nodes[b].shape[1];
            proof {
                lemma_numel_2(nodes@[a as int].shape@);
                lemma_numel_2(nodes@[b as int].shape@);
                lemma_numel_2(nodes@[at as int].shape@);
                lemma_len_fits(&nodes@[b as int].data);
                if m > 0 && k > 0 {
                    lemma_flat2_bound(m - 1, k - 1, m as int, k as int);
                }
                if m > 0 && n > 0 {
                    lemma_flat2_bound(m - 1, n - 1, m as int, n as int);
                }
            }
            let r = dot_grid(&nodes[a].data, 1, k, g, 1, n, k, n, m);
            assert(r@ =~= matmul_grad_right(
                nodes@[a as int].data@,
                g@,
                m as int,
                k as int,
                n as int,
            )) by {
                assert forall|idx: int| 0 <= idx < r@.len() implies r@[idx] == matmul_grad_right(
                    nodes@[a as int].data@,
                    g@,
                    m as int,
                    k as int,
                    n as int,
                )[idx] by {
                    lemma_flat2_cell(idx, k as int, n as int);
                    let i = idx / (n as int);
                    let j = idx % (n as int);
                    assert(r@[flat2(i, j, n as int)] == r@[idx]);
                    assert(i * 1 == i);
                    assert(j * 1 == j);
                }
            }
            r
        },
    }
}

fn propagate_exec<T: Scalar>(nodes: &Vec<Tensor<T>>, flows: &mut Vec<Option<Vec<T>>>, at: usize)
    requires
        nodes_wf(nodes@),
        at < nodes@.len(),
        flows_fit(nodes@, flows_view(old(flows)@)),
    ensures
        flows_fit(nodes@, flows_view(final(flows)@)),
        flows_view(final(flows)@) == propagate(nodes@, flows_view(old(flows)@), at as int),
{
    let op = match nodes[at].grad_fn {
        Some(op) => op,
        None => {
            return ;
        },
    };
    if flows[at].is_none() {
        return ;
    }
    let (a, b) = match op {
        GradFn::Add(a, b) => (a, b),
        GradFn::Sub(a, b) => (a, b),
        GradFn::Mul(a, b) => (a, b),
        GradFn::MatMul(a, b) => (a, b),
    };
    let ghost start = flows_view(flows@);
    assert(start[at as int] is Some);
    assert(start[a as int] matches Some(f) ==> f.len() == nodes@[a as int].data@.len());
    assert(start[b as int] matches Some(f) ==> f.len() == nodes@[b as int].data@.len());
    if nodes[a].requires_grad {
        let share = match &flows[at] {
            Some(g) => share_left(nodes, at, op, g),
            None => Vec::new(),
        };
        arrive_exec(flows, a, share);
    }
    let ghost middle = flows_view(flows@);
    assert(middle[at as int] == start[at as int]);
    assert(flows_fit(nodes@, middle)) by {
        assert forall|i: int| 0 <= i < nodes@.len() implies ((#[trigger] middle[i]) matches Some(
            f,
        ) ==> f.len() == nodes@[i].data@.len()) by {
            if i != a {
                assert(middle[i] == start[i]);
            }
        }
    }
    assert(middle[b as int] matches Some(f) ==> f.len() == nodes@[b as int].data@.len());
    if nodes[b].requires_grad {
        let share = match &flows[at] {
            Some(g) => share_right(nodes, at, op, g),
            None => Vec::new(),
        };
        arrive_exec(flows, b, share);
    }
    let ghost end = flows_view(flows@);
    assert(flows_fit(nodes@, end)) by {
        assert forall|i: int| 0 <= i < nodes@.len() implies ((#[trigger] end[i]) matches Some(
            f,
        ) ==> f.len() == nodes@[i].data@.len()) by {
            if i != b {
                assert(end[i] == middle[i]);
            }
        }
    }
}

impl<T: Scalar> Graph<T> {
    pub open spec fn wf(&self) -> bool {
        nodes_wf(self.nodes@)
    }

    /// An empty graph.
    pub fn new() -> (r: Self)
        ensures
            r.wf(),
            r.nodes@.len() == 0,
    {
        Graph { nodes: Vec::new() }
    }

    /// Adds a tensor that no operation of the graph produced and returns
    /// its handle.
    pub fn leaf(&mut self, tensor: Tensor<T>) -> (handle: usize)
        requires
            old(self).wf(),
            tensor.wf(),
            tensor.grad_fn is None,
        ensures
            final(self).wf(),
            handle == old(self).nodes@.len(),
            final(self).nodes@ == old(self).nodes@.push(tensor),
    {
        let handle = self.nodes.len();
        self.nodes.push(tensor);
        assert(nodes_wf(self.nodes@)) by {
            assert forall|i: int| 0 <= i < self.nodes@.len() implies {
                &&& (#[trigger] self.nodes@[i]).wf()
                &&& self.nodes@[i].grad_fn matches Some(op) ==> op_fits(self.nodes@, i, op)
            } by {
                if i < handle {
                    assert(self.nodes@[i] == old(self).nodes@[i]);
                    if let Some(op) = self.nodes@[i].grad_fn {
                        assert(op_fits(old(self).nodes@, i, op));
                    }
                }
            }
        }
        handle
    }

    /// Applies an operation to two nodes and adds the result, linked to
    /// its operands, to the graph. The result requires a gradient if either
    /// operand does.
    ///
    /// Fails with `InvalidInputs`, changing nothing, when an operand handle
    /// is not one of the graph, and as the operation on tensors fails
    /// otherwise.
    pub fn apply(&mut self, op: GradFn) -> (r: Result<usize, BellandeError>)
        requires
            old(self).wf(),
        ensures
            final(self).wf(),
            match r {
                Ok(handle) => {
                    let a = old(self).nodes@[left_of(op)];
                    let b = old(self).nodes@[right_of(op)];
                    let t = final(self).nodes@[handle as int];
                    &&& left_of(op) < old(self).nodes@.len()
                    &&& right_of(op) < old(self).nodes@.len()
                    &&& handle == old(self).nodes@.len()
                    &&& final(self).nodes@ == old(self).nodes@.push(t)
                    &&& t.grad_fn == Some(op)
                    &&& t.requires_grad == (a.requires_grad || b.requires_grad)
                    &&& match op {
                        GradFn::Add(_, _) => a.shape@ == b.shape@ && t.shape@ == a.shape@ && t.data@
                            == plus_seq(a.data@, b.data@),
                        GradFn::Sub(_, _) => a.shape@ == b.shape@ && t.shape@ == a.shape@ && t.data@
                            == minus_seq(a.data@, b.data@),
                        GradFn::Mul(_, _) => a.shape@ == b.shape@ && t.shape@ == a.shape@ && t.data@
                            == times_seq(a.data@, b.data@),
                        GradFn::MatMul(_, _) => {
                            &&& a.rank() == 2 && b.rank() == 2
                            &&& a.shape@[1] == b.shape@[0]
                            &&& t.shape@ == seq![a.shape@[0], b.shape@[1]]
                            &&& forall|i: int, j: int|
                                0 <= i < a.shape@[0] && 0 <= j < b.shape@[1] ==> #[trigger] t.data@[flat2(
                                    i,
                                    j,
                                    b.shape@[1] as int,
                                )] == crate::tensor::matmul_cell(
                                    a.data@,
                                    b.data@,
                                    a.shape@[1] as int,
                                    b.shape@[1] as int,
                                    i,
                                    j,
                                )
                        },
                    }
                },
                Err(e) => {
                    let a = old(self).nodes@[left_of(op)];
                    let b = old(self).nodes@[right_of(op)];
                    &&& final(self).nodes@ == old(self).nodes@
                    &&& match e {
                        BellandeError::InvalidInputs => left_of(op) >= old(self).nodes@.len()
                            || right_of(op) >= old(self).nodes@.len(),
                        BellandeError::DimensionMismatch => left_of(op) < old(self).nodes@.len()
                            && right_of(op) < old(self).nodes@.len() && match op {
                            GradFn::MatMul(_, _) => a.rank() == 2 && b.rank() == 2 && a.shape@[1]
                                != b.shape@[0],
                            _ => a.shape@ != b.shape@,
                        },
                        BellandeError::InvalidShape(_) => left_of(op) < old(self).nodes@.len()
                            && right_of(op) < old(self).nodes@.len() && op is MatMul && (a.rank()
                            != 2 || b.rank() != 2 || (a.shape@[1] == b.shape@[0] && a.shape@[0]
                            * b.shape@[1] > usize::MAX)),
                        _ => false,
                    }
                },
            },
    {
        let (a, b) = match op {
            GradFn::Add(a, b) => (a, b),
            GradFn::Sub(a, b) => (a, b),
            GradFn::Mul(a, b) => (a, b),
            GradFn::MatMul(a, b) => (a, b),
        };
        let n = self.nodes.len();
        if a >= n || b >= n {
            return Err(BellandeError::InvalidInputs);
        }
        let outcome = match op {
            GradFn::Add(_, _) => self.nodes[a].add(&self.nodes[b]),
            GradFn::Sub(_, _) => self.nodes[a].sub(&self.nodes[b]),
            GradFn::Mul(_, _) => self.nodes[a].mul(&self.nodes[b]),
            GradFn::MatMul(_, _) => self.nodes[a].matmul(&self.nodes[b]),
        };
        match outcome {
            Ok(mut t) => {
                t.grad_fn = Some(op);
                self.nodes.push(t);
                assert(nodes_wf(self.nodes@)) by {
                    assert forall|i: int| 0 <= i < self.nodes@.len() implies {
                        &&& (#[trigger] self.nodes@[i]).wf()
                        &&& self.nodes@[i].grad_fn matches Some(o) ==> op_fits(self.nodes@, i, o)
                    } by {
                        if i < n {
                            assert(self.nodes@[i] == old(self).nodes@[i]);
                            if let Some(o) = self.nodes@[i].grad_fn {
                                assert(op_fits(old(self).nodes@, i, o));
                            }
                        }
                    }
                }
                Ok(n)
            },
            Err(e) => Err(e),
        }
    }

    /// Whether node `i` is as a backward pass leaves it when `arrived`
    /// reached it: its gradient has grown by what arrived, and nothing else
    /// has changed.
    pub open spec fn settled(before: Tensor<T>, after: Tensor<T>, arrived: Option<Seq<T>>) -> bool {
        &&& after.data@ == before.data@
        &&& after.shape@ == before.shape@
        &&& after.requires_grad == before.requires_grad
        &&& after.grad_fn == before.grad_fn
        &&& after.device == before.device
        &&& after.dtype == before.dtype
        &&& after.grad is Some == before.grad is Some
        &&& before.grad is Some ==> Some(after.grad->0@) == gradient_after(before.grad, arrived)
    }

    /// Runs a backward pass from `root`. The starting gradient is `seed`,
    /// or ones for a root of at most one element and no seed. Every node
    /// that the pass reaches adds what arrived at it to its gradient;
    /// contributions that reach a node along several paths add up.
    ///
    /// Fails, changing nothing, with `InvalidInputs` when `root` is not a
    /// handle of the graph, and as `Tensor::backward` fails on the root
    /// otherwise.
    pub fn backward(&mut self, root: usize, seed: Option<&Vec<T>>) -> (r: Result<
        (),
        BellandeError,
    >)
        requires
            old(self).wf(),
        ensures
            final(self).wf(),
            final(self).nodes@.len() == old(self).nodes@.len(),
            root >= old(self).nodes@.len() ==> r == Err::<(), BellandeError>(
                BellandeError::InvalidInputs,
            ),
            root < old(self).nodes@.len() ==> r == old(self).nodes@[root as int].backward_outcome(
                match seed {
                    Some(s) => Some(s@),
                    None => None,
                },
            ),
            r is Err ==> final(self).nodes@ == old(self).nodes@,
            r is Ok ==> {
                let flows = flows_of(
                    old(self).nodes@,
                    root as int,
                    old(self).nodes@[root as int].seed_flow(
                        match seed {
                            Some(s) => Some(s@),
                            None => None,
                        },
                    ),
                );
                forall|i: int|
                    0 <= i < old(self).nodes@.len() ==> Self::settled(
                        old(self).nodes@[i],
                        #[trigger] final(self).nodes@[i],
                        flows[i],
                    )
            },
    {
        let n = self.nodes.len();
        if root >= n {
            return Err(BellandeError::InvalidInputs);
        }
        let start = match self.nodes[root].backward_seed(seed) {
            Ok(flow) => flow,
            Err(e) => {
                return Err(e);
            },
        };
        let mut flows: Vec<Option<Vec<T>>> = Vec::new();
        let mut i: usize = 0;
        while i < n
            invariant
                i <= n,
                flows@.len() == i,
                forall|k: int| 0 <= k < i ==> (#[trigger] flows@[k]) is None,
            decreases n - i,
        {
            flows.push(None);
            i = i + 1;
        }
        let ghost seed_seq = start@;
        flows[root] = Some(start);
        let ghost initial = Seq::new(n as nat, |i: int| None::<Seq<T>>).update(
            root as int,
            Some(seed_seq),
        );
        assert(flows_view(flows@) =~= initial);
        let mut k: usize = 0;
        while k <= root
            invariant
                k <= root + 1,
                root < n,
                n == self.nodes@.len(),
                self.nodes@ == old(self).nodes@,
                nodes_wf(self.nodes@),
                flows_fit(self.nodes@, flows_view(flows@)),
                flows_view(flows@) == sweep(self.nodes@, initial, root as int, k as nat),
            decreases root + 1 - k,
        {
            propagate_exec(&self.nodes, &mut flows, root - k);
            k = k + 1;
        }
        let ghost arrived = flows_view(flows@);
        let mut j: usize = 0;
        while j < n
            invariant
                j <= n,
                n == self.nodes@.len(),
                n == old(self).nodes@.len(),
                nodes_wf(old(self).nodes@),
                flows_fit(old(self).nodes@, arrived),
                arrived == flows_view(flows@),
                forall|i: int|
                    0 <= i < j ==> Self::settled(
                        old(self).nodes@[i],
                        #[trigger] self.nodes@[i],
                        arrived[i],
                    ),
                forall|i: int| j <= i < n ==> self.nodes@[i] == old(self).nodes@[i],
            decreases n - j,
        {
            match &flows[j] {
                Some(f) => {
                    assert(arrived[j as int] == Some(f@));
                    self.nodes[j].accumulate_grad(f);
                },
                None => {
                    assert(arrived[j as int] is None);
                },
            }
            j = j + 1;
        }
        assert(nodes_wf(self.nodes@)) by {
            assert forall|i: int| 0 <= i < self.nodes@.len() implies {
                &&& (#[trigger] self.nodes@[i]).wf()
                &&& self.nodes@[i].grad_fn matches Some(op) ==> op_fits(self.nodes@, i, op)
            } by {
                assert(Self::settled(old(self).nodes@[i], self.nodes@[i], arrived[i]));
                if let Some(op) = self.nodes@[i].grad_fn {
                    assert(op_fits(old(self).nodes@, i, op));
                    let a = left_of(op);
                    let b = right_of(op);
                    assert(Self::settled(old(self).nodes@[a], self.nodes@[a], arrived[a]));
                    assert(Self::settled(old(self).nodes@[b], self.nodes@[b], arrived[b]));
                }
            }
        }
        Ok(())
    }
}

/// Fan-out: when a tensor is both operands of a sum and the pass starts at
/// the sum, the gradient of the tensor grows by the starting gradient
/// twice, once for each path.
pub proof fn lemma_fan_out_accumulates<T: Scalar>(nodes: Seq<Tensor<T>>, seed: Seq<T>)
    requires
        nodes.len() == 2,
        nodes_wf(nodes),
        nodes[0].grad_fn is None,
        nodes[0].requires_grad,
        nodes[1].grad_fn == Some(GradFn::Add(0, 0)),
    ensures
        flows_of(nodes, 1, seed)[0] == Some(plus_seq(seed, seed)),
        flows_of(nodes, 1, seed)[1] == Some(seed),
        gradient_after(nodes[0].grad, flows_of(nodes, 1, seed)[0]) == Some(
            plus_seq(nodes[0].grad->0@, plus_seq(seed, seed)),
        ),
{
    let initial = Seq::new(2, |i: int| None::<Seq<T>>).update(1, Some(seed));
    let s0 = sweep(nodes, initial, 1, 0);
    assert(s0 == initial);
    let s1 = sweep(nodes, initial, 1, 1);
    assert(s1 == propagate(nodes, s0, 1));
    let first = arrive(initial, 0, seed);
    assert(first[0] == Some(seed));
    let second = arrive(first, 0, seed);
    assert(s1 == second);
    let s2 = sweep(nodes, initial, 1, 2);
    assert(s2 == propagate(nodes, s1, 0));
    assert(s2 == s1);
    assert(nodes[0].wf());
}

/// A residual connection: when `x` is multiplied by `w` and the product is
/// added to `x` itself, a pass from the sum brings `x` the sum of both
/// contributions, the starting gradient for the skip and the starting
/// gradient times `w` for the product.
pub proof fn lemma_residual_accumulates<T: Scalar>(nodes: Seq<Tensor<T>>, seed: Seq<T>)
    requires
        nodes.len() == 4,
        nodes_wf(nodes),
        nodes[0].grad_fn is None,
        nodes[1].grad_fn is None,
        nodes[2].grad_fn == Some(GradFn::Mul(0, 1)),
        nodes[3].grad_fn == Some(GradFn::Add(2, 0)),
        nodes[0].requires_grad,
        nodes[2].requires_grad,
    ensures
        flows_of(nodes, 3, seed)[0] == Some(plus_seq(seed, times_seq(seed, nodes[1].data@))),
        gradient_after(nodes[0].grad, flows_of(nodes, 3, seed)[0]) == Some(
            plus_seq(nodes[0].grad->0@, plus_seq(seed, times_seq(seed, nodes[1].data@))),
        ),
{
    let initial = Seq::new(4, |i: int| None::<Seq<T>>).update(3, Some(seed));
    let s0 = sweep(nodes, initial, 3, 0);
    assert(s0 == initial);
    let s1 = sweep(nodes, initial, 3, 1);
    assert(s1 == propagate(nodes, s0, 3));
    let skip = arrive(arrive(initial, 2, seed), 0, seed);
    assert(s1 == skip);
    assert(s1[2] == Some(seed));
    assert(s1[0] == Some(seed));
    let s2 = sweep(nodes, initial, 3, 2);
    assert(s2 == propagate(nodes, s1, 2));
    let through = times_seq(seed, nodes[1].data@);
    assert(s2[0] == Some(plus_seq(seed, through)));
    let s3 = sweep(nodes, initial, 3, 3);
    assert(s3 == propagate(nodes, s2, 1));
    assert(s3 == s2);
    let s4 = sweep(nodes, initial, 3, 4);
    assert(s4 == propagate(nodes, s3, 0));
    assert(s4 == s3);
    assert(nodes[0].wf());
}

/// An operation with a backward pass of its own: `forward` computes the
/// result from the inputs, `backward` takes the gradient of the result.
pub trait AutogradFunction<T> {
    fn forward(&self, input: &Vec<Tensor<T>>) -> Result<Tensor<T>, BellandeError>;

    fn backward(&self, grad_output: &Vec<T>) -> Result<(), BellandeError>;
}

/// What an operation keeps between its forward and its backward pass: the
/// tensors it saved, in the order in which it saved them, and which of its
/// inputs need a gradient.
pub struct AutogradContext<T> {
    pub saved: Vec<Tensor<T>>,
    pub needs_input_grad: Vec<bool>,
}

impl<T: Scalar> AutogradContext<T> {
    pub open spec fn wf(&self) -> bool {
        forall|i: int| 0 <= i < self.saved@.len() ==> (#[trigger] self.saved@[i]).wf()
    }

    /// A context that has saved nothing.
    pub fn new(needs_input_grad: Vec<bool>) -> (r: Self)
        ensures
            r.wf(),
            r.saved@.len() == 0,
            r.needs_input_grad == needs_input_grad,
    {
        AutogradContext { saved: Vec::new(), needs_input_grad }
    }

    /// Saves a tensor after those saved before.
    pub fn save_for_backward(&mut self, tensor: Tensor<T>)
        requires
            old(self).wf(),
            tensor.wf(),
        ensures
            final(self).wf(),
            final(self).saved@ == old(self).saved@.push(tensor),
            final(self).needs_input_grad == old(self).needs_input_grad,
    {
        self.saved.push(tensor);
    }

    /// Copies of the saved tensors, in the order in which they were saved.
    pub fn saved_tensors(&self) -> (r: Vec<Tensor<T>>)
        requires
            self.wf(),
        ensures
            r@.len() == self.saved@.len(),
            forall|i: int|
                0 <= i < r@.len() ==> {
                    let c = #[trigger] r@[i];
                    let o = self.saved@[i];
                    &&& c.wf()
                    &&& c.data@ == o.data@
                    &&& c.shape@ == o.shape@
                    &&& c.requires_grad == o.requires_grad
                    &&& c.grad_fn == o.grad_fn
                    &&& c.device == o.device
                    &&& c.dtype == o.dtype
                },
    {
        let n = self.saved.len();
        let mut out: Vec<Tensor<T>> = Vec::new();
        let mut i: usize = 0;
        while i < n
            invariant
                i <= n,
                n == self.saved@.len(),
                self.wf(),
                out@.len() == i,
                forall|k: int|
                    0 <= k < i ==> {
                        let c = #[trigger] out@[k];
                        let o = self.saved@[k];
                        &&& c.wf()
                        &&& c.data@ == o.data@
                        &&& c.shape@ == o.shape@
                        &&& c.requires_grad == o.requires_grad
                        &&& c.grad_fn == o.grad_fn
                        &&& c.device == o.device
                        &&& c.dtype == o.dtype
                    },
            decreases n - i,
        {
            out.push(self.saved[i].duplicate());
            i = i + 1;
        }
        out
    }
}

} // verus!
