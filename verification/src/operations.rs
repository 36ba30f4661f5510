//! The operation representation: a tagged value holding either an outbound
//! byte sequence (a write phase) or an inbound byte sequence to be filled in
//! place by bus execution (a read phase), each bounded to 2 bytes and owning
//! its buffer.

use vstd::prelude::*;

use crate::storage::byte_vec_get;
use crate::storage::byte_vec_len;
use crate::storage::byte_vec_new;
use crate::storage::byte_vec_push;
use crate::storage::hbytes;

verus! {

/// One bus-transfer phase of a control-register transaction: either bytes to
/// write out, or a pre-sized placeholder buffer a read fills in place.
#[derive(Debug, PartialEq, Eq)]
pub enum ControlRegisterOperation {
    Read(heapless::Vec<u8, 2>),
    Write(heapless::Vec<u8, 2>),
}

/// What one operation looks like on the bus: its direction and its bytes.
/// The contracts of the driver are stated over these shapes.
#[verifier::ext_equal]
pub struct OpShape {
    /// True for a write phase, false for a read phase.
    pub write: bool,
    /// The bytes of the phase; for a read, the placeholder contents.
    pub bytes: Seq<u8>,
}

/// The shape of one operation.
pub open spec fn shape_of(op: ControlRegisterOperation) -> OpShape {
    match op {
        ControlRegisterOperation::Write(b) => OpShape { write: true, bytes: hbytes(b) },
        ControlRegisterOperation::Read(b) => OpShape { write: false, bytes: hbytes(b) },
    }
}

/// The shapes of a sequence of operations, in order.
pub open spec fn shapes_of(s: Seq<ControlRegisterOperation>) -> Seq<OpShape> {
    s.map_values(|op: ControlRegisterOperation| shape_of(op))
}

/// Shapes distribute over appending one operation.
pub proof fn lemma_shapes_push(s: Seq<ControlRegisterOperation>, op: ControlRegisterOperation)
    ensures
        shapes_of(s.push(op)) == shapes_of(s).push(shape_of(op)),
{
    assert(shapes_of(s.push(op)) =~= shapes_of(s).push(shape_of(op)));
}

/// Shapes distribute over taking a prefix.
pub proof fn lemma_shapes_take(s: Seq<ControlRegisterOperation>, k: int)
    requires
        0 <= k <= s.len(),
    ensures
        shapes_of(s.take(k)) == shapes_of(s).take(k),
{
    assert(shapes_of(s.take(k)) =~= shapes_of(s).take(k));
}

/// Shapes distribute over dropping a prefix.
pub proof fn lemma_shapes_skip(s: Seq<ControlRegisterOperation>, k: int)
    requires
        0 <= k <= s.len(),
    ensures
        shapes_of(s.skip(k)) == shapes_of(s).skip(k),
{
    assert(shapes_of(s.skip(k)) =~= shapes_of(s).skip(k));
}

/// A one-byte write phase.
pub fn write_operation_single(b0: u8) -> (r: ControlRegisterOperation)
    ensures
        shape_of(r) == (OpShape { write: true, bytes: seq![b0] }),
{
    let mut buffer = byte_vec_new();
    let pushed = byte_vec_push(&mut buffer, b0);
    proof {
        assert(pushed is Ok);
        assert(shape_of(ControlRegisterOperation::Write(buffer)) =~= (OpShape {
            write: true,
            bytes: seq![b0],
        }));
    }
    ControlRegisterOperation::Write(buffer)
}

/// A two-byte write phase.
pub fn write_operation(b0: u8, b1: u8) -> (r: ControlRegisterOperation)
    ensures
        shape_of(r) == (OpShape { write: true, bytes: seq![b0, b1] }),
{
    let mut buffer = byte_vec_new();
    let first = byte_vec_push(&mut buffer, b0);
    proof {
        assert(first is Ok);
    }
    let second = byte_vec_push(&mut buffer, b1);
    proof {
        assert(second is Ok);
        assert(shape_of(ControlRegisterOperation::Write(buffer)) =~= (OpShape {
            write: true,
            bytes: seq![b0, b1],
        }));
    }
    ControlRegisterOperation::Write(buffer)
}

/// Whether an operation buffer holds exactly the given single byte.
pub fn buffer_is_single(v: &heapless::Vec<u8, 2>, x: u8) -> (r: bool)
    ensures
        r == (hbytes(*v) == seq![x]),
{
    let n = byte_vec_len(v);
    if n != 1 {
        proof {
            assert(seq![x].len() == 1);
        }
        return false;
    }
    match byte_vec_get(v, 0) {
        Some(b) => {
            if b == x {
                proof {
                    assert(hbytes(*v) =~= seq![x]);
                }
                true
            } else {
                proof {
                    assert(seq![x][0] == x);
                }
                false
            }
        },
        None => {
            proof {
                assert(false);
            }
            false
        },
    }
}

/// A read phase with a one-byte placeholder, to be filled on the bus.
pub fn read_placeholder() -> (r: ControlRegisterOperation)
    ensures
        shape_of(r) == (OpShape { write: false, bytes: seq![0u8] }),
{
    let mut buffer = byte_vec_new();
    let pushed = byte_vec_push(&mut buffer, 0);
    proof {
        assert(pushed is Ok);
        assert(shape_of(ControlRegisterOperation::Read(buffer)) =~= (OpShape {
            write: false,
            bytes: seq![0u8],
        }));
    }
    ControlRegisterOperation::Read(buffer)
}

} // verus!
