//! The transaction-batching engine: two bounded FIFO buffers — a flat
//! operation buffer and a boundary-length queue — that group consecutive
//! operations into atomic transactions and hand them out in FIFO order.
//!
//! Invariant: the boundary lengths sum to the length of the operation
//! buffer, one boundary per pending transaction, in strict FIFO
//! correspondence.  Transactions are completed and removed only as whole
//! units, never partially.

use vstd::prelude::*;

use crate::operations::ControlRegisterOperation;
use crate::storage::boundary_deque_new;
use crate::storage::boundary_is_empty;
use crate::storage::boundary_pop_back;
use crate::storage::boundary_pop_front;
use crate::storage::boundary_push_back;
use crate::storage::boundary_queue;
use crate::storage::op_deque_new;
use crate::storage::op_deque_pop_front;
use crate::storage::op_deque_push_back;
use crate::storage::op_queue;

verus! {

/// The two recoverable failure kinds of the engine: one queue or the other
/// is at capacity.  Both are configuration errors — correct sizing at
/// construction time eliminates them — and neither changes committed state.
#[derive(Debug, Clone, Copy, PartialEq, Eq, Structural)]
pub enum TransactionError {
    /// The flat operation buffer is at capacity.
    OperationsOutOfMemory,
    /// The boundary-length queue is at capacity.
    TransactionOutOfMemory,
}

/// The sum of a sequence of boundary lengths.
pub open spec fn sum_of(s: Seq<usize>) -> int
    decreases s.len(),
{
    if s.len() == 0 {
        0
    } else {
        sum_of(s.drop_last()) + s.last()
    }
}

/// A sum of boundary lengths is never negative.
pub proof fn lemma_sum_nonneg(s: Seq<usize>)
    ensures
        sum_of(s) >= 0,
    decreases s.len(),
{
    if s.len() > 0 {
        lemma_sum_nonneg(s.drop_last());
    }
}

/// Appending a boundary adds its length to the sum.
pub proof fn lemma_sum_push(s: Seq<usize>, x: usize)
    ensures
        sum_of(s.push(x)) == sum_of(s) + x,
{
    assert(s.push(x).drop_last() =~= s);
}

/// Removing the front boundary subtracts its length from the sum.
#[verifier::rlimit(30)]
pub proof fn lemma_sum_drop_first(s: Seq<usize>)
    requires
        s.len() > 0,
    ensures
        sum_of(s.drop_first()) == sum_of(s) - s[0],
    decreases s.len(),
{
    if s.len() == 1 {
        assert(s.drop_first() =~= Seq::<usize>::empty());
        assert(sum_of(s) == sum_of(s.drop_last()) + s.last());
        assert(s.drop_last() =~= Seq::<usize>::empty());
        assert(sum_of(Seq::<usize>::empty()) == 0);
    } else {
        lemma_sum_drop_first(s.drop_last());
        assert(s.drop_last()[0] == s[0]);
        assert(s.drop_first().drop_last() =~= s.drop_last().drop_first());
        assert(s.drop_first().last() == s.last());
        assert(sum_of(s.drop_first()) == sum_of(s.drop_first().drop_last())
            + s.drop_first().last());
        assert(sum_of(s) == sum_of(s.drop_last()) + s.last());
    }
}

/// Replacing the last boundary replaces its contribution to the sum.
pub proof fn lemma_sum_update_last(s: Seq<usize>, x: usize)
    requires
        s.len() > 0,
    ensures
        sum_of(s.update(s.len() - 1, x)) == sum_of(s) - s.last() + x,
{
    assert(s.update(s.len() - 1, x).drop_last() =~= s.drop_last());
    assert(s.update(s.len() - 1, x).last() == x);
}

/// The boundary queue after one operation is pushed: the most recently
/// opened boundary grows by one; if none is open, one is opened implicitly
/// holding just the new operation.
pub open spec fn bump_last(b: Seq<usize>) -> Seq<usize> {
    if b.len() == 0 {
        seq![1usize]
    } else {
        b.update(b.len() - 1, (b.last() + 1) as usize)
    }
}

/// The engine model after pushing every operation of `batch` in order:
/// each push appends to the operation buffer and bumps the most recently
/// opened boundary, exactly as `push_operation` ensures of one call.
pub open spec fn push_all(
    ops: Seq<ControlRegisterOperation>,
    bounds: Seq<usize>,
    batch: Seq<ControlRegisterOperation>,
) -> (Seq<ControlRegisterOperation>, Seq<usize>)
    decreases batch.len(),
{
    if batch.len() == 0 {
        (ops, bounds)
    } else {
        push_all(ops.push(batch[0]), bump_last(bounds), batch.drop_first())
    }
}

/// Pushing a batch appends it whole to the operation buffer and adds its
/// length to the last boundary, leaving all other boundaries untouched.
pub proof fn lemma_push_all(
    ops: Seq<ControlRegisterOperation>,
    bounds: Seq<usize>,
    batch: Seq<ControlRegisterOperation>,
)
    requires
        bounds.len() > 0,
        bounds.last() + batch.len() <= usize::MAX,
    ensures
        push_all(ops, bounds, batch).0 == ops + batch,
        push_all(ops, bounds, batch).1 == bounds.update(
            bounds.len() - 1,
            (bounds.last() + batch.len()) as usize,
        ),
    decreases batch.len(),
{
    if batch.len() == 0 {
        assert(ops + batch =~= ops);
        assert(bounds.update(bounds.len() - 1, (bounds.last() + 0) as usize) =~= bounds);
    } else {
        let bumped = bump_last(bounds);
        assert(bumped.len() == bounds.len());
        assert(bumped.last() == (bounds.last() + 1) as usize);
        lemma_push_all(ops.push(batch[0]), bumped, batch.drop_first());
        assert(ops.push(batch[0]) + batch.drop_first() =~= ops + batch);
        assert(bumped.update(bumped.len() - 1, (bumped.last() + batch.drop_first().len()) as usize)
            =~= bounds.update(bounds.len() - 1, (bounds.last() + batch.len()) as usize));
    }
}

/// FIFO across and within transactions.  Opening a transaction on any
/// engine state and then pushing `batch` in order leaves every earlier
/// operation and boundary untouched, and appends exactly one boundary of
/// length `batch.len()` covering exactly `batch`, in push order.  With
/// `pop_transaction`'s contract — the oldest boundary `k` leaves together
/// with exactly the first `k` operations — transactions therefore come
/// back whole, oldest first, their operations in original push order.
pub proof fn lemma_transactions_fifo(
    ops: Seq<ControlRegisterOperation>,
    bounds: Seq<usize>,
    batch: Seq<ControlRegisterOperation>,
)
    requires
        batch.len() <= usize::MAX,
    ensures
        push_all(ops, bounds.push(0), batch).0 == ops + batch,
        push_all(ops, bounds.push(0), batch).1 == bounds.push(batch.len() as usize),
{
    lemma_push_all(ops, bounds.push(0), batch);
    assert(bounds.push(0).update(bounds.len() as int, (0 + batch.len()) as usize) =~= bounds.push(
        batch.len() as usize,
    ));
}

/// One recorded successful call of the engine's two enqueue methods.
pub enum EngineCall {
    /// A successful `new_transaction`.
    Open,
    /// A successful `push_operation` of the given operation.
    Push(ControlRegisterOperation),
}

/// One model transition, exactly as the `Ok` ensures of `new_transaction`
/// and `push_operation` state it.
pub open spec fn apply_call(
    ops: Seq<ControlRegisterOperation>,
    bounds: Seq<usize>,
    call: EngineCall,
) -> (Seq<ControlRegisterOperation>, Seq<usize>) {
    match call {
        EngineCall::Open => (ops, bounds.push(0)),
        EngineCall::Push(op) => (ops.push(op), bump_last(bounds)),
    }
}

/// The engine model after replaying a sequence of successful calls.
pub open spec fn replay(
    ops: Seq<ControlRegisterOperation>,
    bounds: Seq<usize>,
    calls: Seq<EngineCall>,
) -> (Seq<ControlRegisterOperation>, Seq<usize>)
    decreases calls.len(),
{
    if calls.len() == 0 {
        (ops, bounds)
    } else {
        let m = apply_call(ops, bounds, calls[0]);
        replay(m.0, m.1, calls.drop_first())
    }
}

/// The committed transactions one call describes: `Open` starts a new
/// empty transaction; `Push` appends to the most recently opened one,
/// opening one implicitly when none exists.
pub open spec fn group_call(groups: Seq<Seq<ControlRegisterOperation>>, call: EngineCall) -> Seq<
    Seq<ControlRegisterOperation>,
> {
    match call {
        EngineCall::Open => groups.push(Seq::empty()),
        EngineCall::Push(op) => {
            if groups.len() == 0 {
                seq![seq![op]]
            } else {
                groups.update(groups.len() - 1, groups.last().push(op))
            }
        },
    }
}

/// The committed transactions a sequence of calls describes.
pub open spec fn grouped(
    groups: Seq<Seq<ControlRegisterOperation>>,
    calls: Seq<EngineCall>,
) -> Seq<Seq<ControlRegisterOperation>>
    decreases calls.len(),
{
    if calls.len() == 0 {
        groups
    } else {
        grouped(group_call(groups, calls[0]), calls.drop_first())
    }
}

/// All operations of the given transactions, oldest transaction first.
pub open spec fn flatten_groups(groups: Seq<Seq<ControlRegisterOperation>>) -> Seq<
    ControlRegisterOperation,
>
    decreases groups.len(),
{
    if groups.len() == 0 {
        Seq::empty()
    } else {
        groups[0] + flatten_groups(groups.drop_first())
    }
}

/// The boundary lengths of the given transactions.
pub open spec fn lengths_of(groups: Seq<Seq<ControlRegisterOperation>>) -> Seq<usize> {
    groups.map_values(|g: Seq<ControlRegisterOperation>| g.len() as usize)
}

/// No transactions flatten to no operations.
proof fn lemma_flatten_none()
    ensures
        flatten_groups(Seq::<Seq<ControlRegisterOperation>>::empty()) == Seq::<
            ControlRegisterOperation,
        >::empty(),
{
}

/// One transaction flattens to its own operations.
proof fn lemma_flatten_one(g: Seq<ControlRegisterOperation>)
    ensures
        flatten_groups(seq![g]) == g,
{
    let singleton = seq![g];
    assert(singleton.drop_first() =~= Seq::<Seq<ControlRegisterOperation>>::empty());
    lemma_flatten_none();
    assert(flatten_groups(singleton) == singleton[0] + flatten_groups(singleton.drop_first()));
    assert(g + Seq::<ControlRegisterOperation>::empty() =~= g);
}

/// Opening an empty transaction adds no operations.
proof fn lemma_flatten_push_empty(groups: Seq<Seq<ControlRegisterOperation>>)
    ensures
        flatten_groups(groups.push(Seq::empty())) == flatten_groups(groups),
    decreases groups.len(),
{
    if groups.len() == 0 {
        lemma_flatten_none();
        lemma_flatten_one(Seq::empty());
        assert(groups.push(Seq::empty()) =~= seq![Seq::<ControlRegisterOperation>::empty()]);
        assert(flatten_groups(groups.push(Seq::empty())) =~= flatten_groups(groups));
    } else {
        let extended = groups.push(Seq::empty());
        assert(extended.drop_first() =~= groups.drop_first().push(Seq::empty()));
        lemma_flatten_push_empty(groups.drop_first());
        assert(extended[0] == groups[0]);
        assert(flatten_groups(extended) == extended[0] + flatten_groups(extended.drop_first()));
        assert(flatten_groups(groups) == groups[0] + flatten_groups(groups.drop_first()));
        assert(flatten_groups(groups.push(Seq::empty())) =~= flatten_groups(groups));
    }
}

/// Appending one operation to the last transaction appends it to the flat
/// sequence.
proof fn lemma_flatten_push_last(
    groups: Seq<Seq<ControlRegisterOperation>>,
    op: ControlRegisterOperation,
)
    requires
        groups.len() > 0,
    ensures
        flatten_groups(groups.update(groups.len() - 1, groups.last().push(op)))
            == flatten_groups(groups).push(op),
    decreases groups.len(),
{
    let updated = groups.update(groups.len() - 1, groups.last().push(op));
    if groups.len() == 1 {
        assert(updated =~= seq![groups[0].push(op)]);
        assert(groups =~= seq![groups[0]]);
        lemma_flatten_one(groups[0].push(op));
        lemma_flatten_one(groups[0]);
        assert(flatten_groups(updated) =~= flatten_groups(groups).push(op));
    } else {
        let rest = groups.drop_first();
        assert(rest.len() == groups.len() - 1);
        assert(rest.last() == groups.last());
        assert(updated.drop_first() =~= rest.update(rest.len() - 1, rest.last().push(op)));
        lemma_flatten_push_last(rest, op);
        assert(updated[0] == groups[0]);
        assert(flatten_groups(updated) == updated[0] + flatten_groups(updated.drop_first()));
        assert(flatten_groups(groups) == groups[0] + flatten_groups(rest));
        assert(flatten_groups(updated) =~= flatten_groups(groups).push(op));
    }
}

/// The last transaction is no longer than everything committed.
proof fn lemma_last_group_le(groups: Seq<Seq<ControlRegisterOperation>>)
    requires
        groups.len() > 0,
    ensures
        groups.last().len() <= flatten_groups(groups).len(),
    decreases groups.len(),
{
    if groups.len() > 1 {
        lemma_last_group_le(groups.drop_first());
        assert(groups.drop_first().last() == groups.last());
    }
}

/// Replaying successful calls on the model of some committed transactions
/// yields the model of the transactions those calls commit.
proof fn lemma_replay_is_grouped(
    groups: Seq<Seq<ControlRegisterOperation>>,
    calls: Seq<EngineCall>,
)
    requires
        flatten_groups(groups).len() + calls.len() <= 50,
    ensures
        replay(flatten_groups(groups), lengths_of(groups), calls).0 == flatten_groups(
            grouped(groups, calls),
        ),
        replay(flatten_groups(groups), lengths_of(groups), calls).1 == lengths_of(
            grouped(groups, calls),
        ),
    decreases calls.len(),
{
    if calls.len() > 0 {
        match calls[0] {
            EngineCall::Open => {
                lemma_flatten_push_empty(groups);
                assert(lengths_of(groups.push(Seq::empty())) =~= lengths_of(groups).push(0usize));
                lemma_replay_is_grouped(groups.push(Seq::empty()), calls.drop_first());
            },
            EngineCall::Push(op) => {
                if groups.len() == 0 {
                    lemma_flatten_none();
                    lemma_flatten_one(seq![op]);
                    assert(flatten_groups(seq![seq![op]]) =~= flatten_groups(groups).push(op));
                    assert(lengths_of(seq![seq![op]]) =~= bump_last(lengths_of(groups)));
                    lemma_replay_is_grouped(seq![seq![op]], calls.drop_first());
                } else {
                    let updated = groups.update(groups.len() - 1, groups.last().push(op));
                    lemma_last_group_le(groups);
                    lemma_flatten_push_last(groups, op);
                    assert(groups.last().len() + 1 <= 50);
                    assert(lengths_of(groups).last() == groups.last().len() as usize);
                    assert(updated.last() == groups.last().push(op));
                    assert(lengths_of(updated) =~= bump_last(lengths_of(groups)));
                    lemma_replay_is_grouped(updated, calls.drop_first());
                }
            },
        }
    }
}

/// FIFO in full generality, first half.  Replaying any within-capacity
/// sequence of successful `new_transaction`/`push_operation` calls on a
/// fresh engine — each step exactly as those methods' ensures state it —
/// leaves the operation buffer holding exactly the concatenation of the
/// committed transactions, oldest first, and the boundary queue holding
/// exactly their lengths, in the order the transactions were opened.
pub proof fn lemma_replay_fifo(calls: Seq<EngineCall>)
    requires
        calls.len() <= 50,
    ensures
        replay(Seq::empty(), Seq::empty(), calls).0 == flatten_groups(
            grouped(Seq::empty(), calls),
        ),
        replay(Seq::empty(), Seq::empty(), calls).1 == lengths_of(grouped(Seq::empty(), calls)),
{
    assert(flatten_groups(Seq::<Seq<ControlRegisterOperation>>::empty()) =~= Seq::<
        ControlRegisterOperation,
    >::empty());
    assert(lengths_of(Seq::<Seq<ControlRegisterOperation>>::empty()) =~= Seq::<usize>::empty());
    lemma_replay_is_grouped(Seq::empty(), calls);
}

/// FIFO in full generality, second half.  On the model of any committed
/// transactions, the front boundary is the oldest transaction's length,
/// the first that-many operations are exactly that transaction in its
/// original push order, and what remains is the model of the remaining
/// transactions — so, with `pop_transaction`'s contract, successive pops
/// return the committed transactions whole, in the order they were
/// opened, and then nothing.
pub proof fn lemma_pop_front_group(groups: Seq<Seq<ControlRegisterOperation>>)
    requires
        groups.len() > 0,
        flatten_groups(groups).len() <= 50,
    ensures
        lengths_of(groups)[0] as int == groups[0].len(),
        flatten_groups(groups).take(groups[0].len() as int) == groups[0],
        flatten_groups(groups).skip(groups[0].len() as int) == flatten_groups(
            groups.drop_first(),
        ),
        lengths_of(groups).drop_first() == lengths_of(groups.drop_first()),
{
    assert(flatten_groups(groups) == groups[0] + flatten_groups(groups.drop_first()));
    assert(flatten_groups(groups).take(groups[0].len() as int) =~= groups[0]);
    assert(flatten_groups(groups).skip(groups[0].len() as int) =~= flatten_groups(
        groups.drop_first(),
    ));
    assert(lengths_of(groups).drop_first() =~= lengths_of(groups.drop_first()));
}

/// The transaction-batching engine.  Capacities: 50 operations, 10 pending
/// transactions.
pub struct Transactions {
    buffer: heapless::Deque<ControlRegisterOperation, 50>,
    bounds: heapless::Deque<usize, 10>,
}

impl Transactions {
    /// The queued operations, front to back, across all pending
    /// transactions.
    pub closed spec fn operations(self) -> Seq<ControlRegisterOperation> {
        op_queue(self.buffer)
    }

    /// The queued boundary lengths, front to back, one per pending
    /// transaction.
    pub closed spec fn boundaries(self) -> Seq<usize> {
        boundary_queue(self.bounds)
    }

    /// Consistency of the two buffers as one unit: the boundaries sum to
    /// exactly the buffered operations, and both queues are within their
    /// capacities.
    pub open spec fn wf(self) -> bool {
        &&& sum_of(self.boundaries()) == self.operations().len()
        &&& self.operations().len() <= 50
        &&& self.boundaries().len() <= 10
    }

    /// Opens a new, initially empty transaction, or fails with
    /// `TransactionOutOfMemory` exactly when the boundary queue is at
    /// capacity, leaving the state unchanged.
    pub fn new_transaction(&mut self) -> (r: Result<(), TransactionError>)
        requires
            old(self).wf(),
        ensures
            final(self).wf(),
            final(self).operations() == old(self).operations(),
            match r {
                Ok(_) => old(self).boundaries().len() < 10 && final(self).boundaries() == old(
                    self,
                ).boundaries().push(0),
                Err(e) => {
                    &&& e == TransactionError::TransactionOutOfMemory
                    &&& old(self).boundaries().len() == 10
                    &&& final(self).boundaries() == old(self).boundaries()
                },
            },
    {
        match boundary_push_back(&mut self.bounds, 0) {
            Ok(_) => {
                proof {
                    lemma_sum_push(old(self).boundaries(), 0);
                }
                Ok(())
            },
            Err(_) => Err(TransactionError::TransactionOutOfMemory),
        }
    }

    /// Appends one operation to the flat buffer and counts it against the
    /// most recently opened boundary (opening one implicitly if none ever
    /// was).  Fails with `OperationsOutOfMemory` exactly when the operation
    /// buffer is at capacity; on failure no boundary count changes.
    pub fn push_operation(&mut self, operation: ControlRegisterOperation) -> (r: Result<
        (),
        TransactionError,
    >)
        requires
            old(self).wf(),
        ensures
            final(self).wf(),
            match r {
                Ok(_) => {
                    &&& old(self).operations().len() < 50
                    &&& final(self).operations() == old(self).operations().push(operation)
                    &&& final(self).boundaries() == bump_last(old(self).boundaries())
                },
                Err(e) => {
                    &&& e == TransactionError::OperationsOutOfMemory
                    &&& old(self).operations().len() == 50
                    &&& final(self).operations() == old(self).operations()
                    &&& final(self).boundaries() == old(self).boundaries()
                },
            },
    {
        match op_deque_push_back(&mut self.buffer, operation) {
            Ok(_) => {},
            Err(_) => {
                return Err(TransactionError::OperationsOutOfMemory);
            },
        }
        if boundary_is_empty(&self.bounds) {
            proof {
                // An empty boundary queue sums to 0, so the buffer held no
                // operations before this push.
                assert(old(self).operations().len() == 0);
            }
            match boundary_push_back(&mut self.bounds, 0) {
                Ok(_) => {},
                Err(_) => {
                    proof {
                        assert(false);
                    }
                },
            }
            proof {
                lemma_sum_push(old(self).boundaries(), 0);
            }
        }
        let last = match boundary_pop_back(&mut self.bounds) {
            Some(b) => b,
            None => {
                proof {
                    assert(false);
                }
                0
            },
        };
        proof {
            lemma_sum_nonneg(boundary_queue(self.bounds));
            assert(last <= 50);
        }
        match boundary_push_back(&mut self.bounds, last + 1) {
            Ok(_) => {},
            Err(_) => {
                proof {
                    assert(false);
                }
            },
        }
        proof {
            lemma_sum_push(boundary_queue(old(self).bounds).push(0).drop_last(), (last
                + 1) as usize);
            lemma_sum_push(old(self).boundaries().drop_last(), (last + 1) as usize);
            lemma_sum_push(old(self).boundaries(), 0);
            assert(final(self).boundaries() =~= bump_last(old(self).boundaries()));
        }
        Ok(())
    }

    /// Removes the oldest pending transaction whole: its boundary length
    /// `k` leaves the boundary queue, and exactly the first `k` buffered
    /// operations leave the operation buffer, returned in their original
    /// push order.  Produces no value exactly when no transaction is
    /// pending.
    pub fn pop_transaction(&mut self) -> (r: Option<
        heapless::Deque<ControlRegisterOperation, 50>,
    >)
        requires
            old(self).wf(),
        ensures
            final(self).wf(),
            match r {
                Some(t) => {
                    &&& old(self).boundaries().len() > 0
                    &&& op_queue(t) == old(self).operations().take(old(self).boundaries()[0] as int)
                    &&& final(self).operations() == old(self).operations().skip(
                        old(self).boundaries()[0] as int,
                    )
                    &&& final(self).boundaries() == old(self).boundaries().drop_first()
                },
                None => {
                    &&& old(self).boundaries().len() == 0
                    &&& final(self).operations() == old(self).operations()
                    &&& final(self).boundaries() == old(self).boundaries()
                },
            },
    {
        let boundary = match boundary_pop_front(&mut self.bounds) {
            Some(b) => b,
            None => {
                return None;
            },
        };
        proof {
            lemma_sum_drop_first(old(self).boundaries());
            lemma_sum_nonneg(old(self).boundaries().drop_first());
        }
        let ghost ops0 = old(self).operations();
        let ghost k = boundary as int;
        let mut result = op_deque_new();
        let mut i: usize = 0;
        while i < boundary
            invariant
                0 <= i <= k,
                k <= ops0.len() <= 50,
                op_queue(result) == ops0.take(i as int),
                op_queue(self.buffer) == ops0.skip(i as int),
                boundary as int == k,
                ops0 == old(self).operations(),
                old(self).boundaries().len() > 0,
                k == old(self).boundaries()[0],
                boundary_queue(self.bounds) == old(self).boundaries().drop_first(),
                sum_of(old(self).boundaries()) == ops0.len(),
                old(self).boundaries().len() <= 10,
            decreases k - i,
        {
            let op = match op_deque_pop_front(&mut self.buffer) {
                Some(op) => op,
                None => {
                    proof {
                        assert(false);
                    }
                    return None;
                },
            };
            proof {
                assert(ops0.skip(i as int)[0] == ops0[i as int]);
                assert(ops0.skip(i as int).drop_first() =~= ops0.skip(i + 1));
            }
            match op_deque_push_back(&mut result, op) {
                Ok(_) => {},
                Err(_) => {
                    proof {
                        assert(false);
                    }
                },
            }
            proof {
                assert(ops0.take(i as int).push(ops0[i as int]) =~= ops0.take(i + 1));
            }
            i = i + 1;
        }
        proof {
            lemma_sum_drop_first(old(self).boundaries());
        }
        Some(result)
    }
}

impl Default for Transactions {
    /// A fresh engine with both queues empty.
    fn default() -> (r: Self)
        ensures
            r.wf(),
            r.operations() == Seq::<ControlRegisterOperation>::empty(),
            r.boundaries() == Seq::<usize>::empty(),
    {
        Transactions { buffer: op_deque_new(), bounds: boundary_deque_new() }
    }
}

} // verus!
