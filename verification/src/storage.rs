//! Trusted boundary around the bounded, allocation-free collections of the
//! `heapless` crate that store pending operations and transaction
//! boundaries.
//!
//! Each collection is given a name for its contents (a `Seq` of its elements
//! from front to back), and each method the engine calls is wrapped in a
//! function whose contract states, over those names, what the `heapless`
//! source does: `push_back` appends when there is room and hands the item
//! back when full, `pop_front` removes the front element, and so on.  Verus
//! believes these contracts; everything above them is verified.

use vstd::prelude::*;

use crate::operations::ControlRegisterOperation;

verus! {

#[verifier::external_type_specification]
#[verifier::external_body]
#[verifier::reject_recursive_types(T)]
pub struct ExDeque<T, const N: usize>(heapless::Deque<T, N>);

#[verifier::external_type_specification]
#[verifier::external_body]
#[verifier::reject_recursive_types(T)]
pub struct ExHeaplessVec<T, const N: usize>(heapless::Vec<T, N>);

/// The bytes held by one bounded operation buffer, front to back.
pub uninterp spec fn hbytes(v: heapless::Vec<u8, 2>) -> Seq<u8>;

/// The queued operations, front to back.
pub uninterp spec fn op_queue(d: heapless::Deque<ControlRegisterOperation, 50>) -> Seq<
    ControlRegisterOperation,
>;

/// The queued transaction-boundary lengths, front to back.
pub uninterp spec fn boundary_queue(d: heapless::Deque<usize, 10>) -> Seq<usize>;

/// Relies on heapless::Vec::new: the new vector is empty.
#[verifier::external_body]
pub fn byte_vec_new() -> (r: heapless::Vec<u8, 2>)
    ensures
        hbytes(r) == Seq::<u8>::empty(),
{
    heapless::Vec::new()
}

/// Relies on heapless::Vec::push: appends when below the capacity of 2,
/// hands the item back otherwise.
#[verifier::external_body]
pub fn byte_vec_push(v: &mut heapless::Vec<u8, 2>, b: u8) -> (r: Result<(), u8>)
    ensures
        match r {
            Ok(_) => hbytes(*old(v)).len() < 2 && hbytes(*final(v)) == hbytes(*old(v)).push(b),
            Err(e) => e == b && hbytes(*old(v)).len() >= 2 && hbytes(*final(v)) == hbytes(
                *old(v),
            ),
        },
{
    v.push(b)
}

/// Relies on heapless::Vec::len, and on the vector never holding more
/// elements than its capacity of 2.
#[verifier::external_body]
pub fn byte_vec_len(v: &heapless::Vec<u8, 2>) -> (r: usize)
    ensures
        r == hbytes(*v).len(),
        r <= 2,
{
    v.len()
}

/// Relies on the slice indexing that heapless::Vec derefs to: `get` returns
/// the element at the index exactly when the index is in bounds.
#[verifier::external_body]
pub fn byte_vec_get(v: &heapless::Vec<u8, 2>, i: usize) -> (r: Option<u8>)
    ensures
        match r {
            Some(b) => i < hbytes(*v).len() && b == hbytes(*v)[i as int],
            None => i >= hbytes(*v).len(),
        },
{
    v.get(i).copied()
}

/// Relies on heapless::Deque::new: the new deque is empty.
#[verifier::external_body]
pub fn op_deque_new() -> (r: heapless::Deque<ControlRegisterOperation, 50>)
    ensures
        op_queue(r) == Seq::<ControlRegisterOperation>::empty(),
{
    heapless::Deque::new()
}

/// Relies on heapless::Deque::push_back: appends when below the capacity of
/// 50, hands the item back otherwise.
#[verifier::external_body]
pub fn op_deque_push_back(
    d: &mut heapless::Deque<ControlRegisterOperation, 50>,
    op: ControlRegisterOperation,
) -> (r: Result<(), ControlRegisterOperation>)
    ensures
        match r {
            Ok(_) => op_queue(*old(d)).len() < 50 && op_queue(*final(d)) == op_queue(
                *old(d),
            ).push(op),
            Err(e) => e == op && op_queue(*old(d)).len() >= 50 && op_queue(*final(d)) == op_queue(
                *old(d),
            ),
        },
{
    d.push_back(op)
}

/// Relies on heapless::Deque::pop_front: removes and returns the front
/// element exactly when the deque is not empty.
#[verifier::external_body]
pub fn op_deque_pop_front(d: &mut heapless::Deque<ControlRegisterOperation, 50>) -> (r: Option<
    ControlRegisterOperation,
>)
    ensures
        match r {
            Some(x) => op_queue(*old(d)).len() > 0 && x == op_queue(*old(d))[0] && op_queue(
                *final(d),
            ) == op_queue(*old(d)).drop_first(),
            None => op_queue(*old(d)).len() == 0 && op_queue(*final(d)) == op_queue(*old(d)),
        },
{
    d.pop_front()
}

/// Relies on heapless::Deque::new: the new deque is empty.
#[verifier::external_body]
pub fn boundary_deque_new() -> (r: heapless::Deque<usize, 10>)
    ensures
        boundary_queue(r) == Seq::<usize>::empty(),
{
    heapless::Deque::new()
}

/// Relies on heapless::Deque::push_back: appends when below the capacity of
/// 10, hands the item back otherwise.
#[verifier::external_body]
pub fn boundary_push_back(d: &mut heapless::Deque<usize, 10>, bound: usize) -> (r: Result<
    (),
    usize,
>)
    ensures
        match r {
            Ok(_) => boundary_queue(*old(d)).len() < 10 && boundary_queue(*final(d))
                == boundary_queue(*old(d)).push(bound),
            Err(e) => e == bound && boundary_queue(*old(d)).len() >= 10 && boundary_queue(
                *final(d),
            ) == boundary_queue(*old(d)),
        },
{
    d.push_back(bound)
}

/// Relies on heapless::Deque::pop_front: removes and returns the front
/// element exactly when the deque is not empty.
#[verifier::external_body]
pub fn boundary_pop_front(d: &mut heapless::Deque<usize, 10>) -> (r: Option<usize>)
    ensures
        match r {
            Some(x) => boundary_queue(*old(d)).len() > 0 && x == boundary_queue(*old(d))[0]
                && boundary_queue(*final(d)) == boundary_queue(*old(d)).drop_first(),
            None => boundary_queue(*old(d)).len() == 0 && boundary_queue(*final(d))
                == boundary_queue(*old(d)),
        },
{
    d.pop_front()
}

/// Relies on heapless::Deque::pop_back: removes and returns the back
/// element exactly when the deque is not empty.
#[verifier::external_body]
pub fn boundary_pop_back(d: &mut heapless::Deque<usize, 10>) -> (r: Option<usize>)
    ensures
        match r {
            Some(x) => boundary_queue(*old(d)).len() > 0 && x == boundary_queue(*old(d)).last()
                && boundary_queue(*final(d)) == boundary_queue(*old(d)).drop_last(),
            None => boundary_queue(*old(d)).len() == 0 && boundary_queue(*final(d))
                == boundary_queue(*old(d)),
        },
{
    d.pop_back()
}

/// Relies on heapless::Deque::is_empty.
#[verifier::external_body]
pub fn boundary_is_empty(d: &heapless::Deque<usize, 10>) -> (r: bool)
    ensures
        r == (boundary_queue(*d).len() == 0),
{
    d.is_empty()
}

} // verus!
