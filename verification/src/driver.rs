//! The driver state machine.  It owns the batching engine plus the
//! bank-selection cache and the oscillator-ready flag, and exposes register
//! read/write requests, the initialization sequence, a transaction-poll
//! interface, and a transaction-completion callback.
//!
//! Every register access opens exactly one transaction: a bank-switch
//! instruction first when the target bank differs from the cached one
//! (elided otherwise), then the access instructions.  The bank cache is
//! updated as soon as the switch is enqueued, which is sound because the
//! calling contract guarantees strict FIFO execution of polled
//! transactions.

use vstd::prelude::*;

use crate::operations::buffer_is_single;
use crate::operations::lemma_shapes_push;
use crate::operations::lemma_shapes_skip;
use crate::operations::lemma_shapes_take;
use crate::operations::read_placeholder;
use crate::operations::shape_of;
use crate::operations::shapes_of;
use crate::operations::write_operation;
use crate::operations::write_operation_single;
use crate::operations::ControlRegisterOperation;
use crate::operations::OpShape;
use crate::registers::Bank;
use crate::registers::ControlRegister;
use crate::registers::OpCode;
use crate::registers::RegisterAddress;
use crate::storage::byte_vec_get;
use crate::storage::op_deque_new;
use crate::storage::op_deque_pop_front;
use crate::storage::op_deque_push_back;
use crate::storage::op_queue;
use crate::transactions::bump_last;
use crate::transactions::TransactionError;
use crate::transactions::Transactions;

verus! {

/// The inclusive receive-buffer address window, held in the chip's 9-bit
/// buffer address space.
#[derive(Debug, Clone, Copy, PartialEq, Eq, Structural)]
pub struct ErxRange {
    pub start: u16,
    pub end: u16,
}

impl ErxRange {
    /// An ordered window inside the 9-bit address space.
    pub open spec fn wf(self) -> bool {
        self.start <= self.end && self.end < 0x200
    }
}

/// What the driver's pending engine content looks like on the bus: the
/// shapes of the queued operations, the boundary lengths of the pending
/// transactions, and the cached bank.
#[verifier::ext_equal]
pub struct EngineView {
    pub ops: Seq<OpShape>,
    pub bounds: Seq<usize>,
    pub bank: Bank,
}

/// The low byte of a word value: written first, to the low register.
pub open spec fn low_byte(v: u16) -> u8 {
    (v & 0xFF) as u8
}

/// The high byte of a word value: written second, to the successor
/// register.
pub open spec fn high_byte(v: u16) -> u8 {
    (v >> 8) as u8
}

/// The write-control-register instruction for the register at address
/// value `a`, carrying `value`.
pub open spec fn wcr_shape(a: u8, value: u8) -> OpShape {
    OpShape { write: true, bytes: seq![0x40u8 | a, value] }
}

/// The bit-field-set instruction to ECON1 (address 0x1F) selecting `bank`:
/// it touches only the bank-select bits present in its payload.
pub open spec fn bank_switch_shape(bank: Bank) -> OpShape {
    OpShape { write: true, bytes: seq![0x80u8 | 0x1Fu8, bank.spec_value()] }
}

/// The read-control-register instruction for the register at address value
/// `a`: its top three bits are zero, so the byte is the address itself.
pub open spec fn rcr_shape(a: u8) -> OpShape {
    OpShape { write: true, bytes: seq![0x00u8 | a] }
}

/// The one-byte placeholder a register read is answered into.
pub open spec fn read_shape() -> OpShape {
    OpShape { write: false, bytes: seq![0u8] }
}

/// A word write: low byte to the register, high byte to its successor.
pub open spec fn word_shapes(a: u8, value: u16) -> Seq<OpShape> {
    seq![wcr_shape(a, low_byte(value)), wcr_shape((a + 1) as u8, high_byte(value))]
}

/// The operations of one register access: the bank switch first, exactly
/// when the target bank differs from the cached one.
pub open spec fn access_shapes(pre: Bank, target: Bank, body: Seq<OpShape>) -> Seq<OpShape> {
    if pre == target {
        body
    } else {
        seq![bank_switch_shape(target)] + body
    }
}

/// One register access against the engine: it opens one transaction, then
/// pushes the access operations in order until the operation buffer runs
/// out of room.  The bank cache moves to the target as soon as the switch
/// is enqueued (or was already cached); committed state never changes on
/// failure.
pub open spec fn access_step(v: EngineView, target: Bank, body: Seq<OpShape>) -> (
    EngineView,
    Option<TransactionError>,
) {
    if v.bounds.len() >= 10 {
        (v, Some(TransactionError::TransactionOutOfMemory))
    } else {
        let all = access_shapes(v.bank, target, body);
        let room = 50 - v.ops.len();
        if all.len() <= room {
            (
                EngineView { ops: v.ops + all, bounds: v.bounds.push(all.len() as usize), bank: target },
                None,
            )
        } else {
            let bank = if v.bank == target || room >= 1 {
                target
            } else {
                v.bank
            };
            (
                EngineView { ops: v.ops + all.take(room), bounds: v.bounds.push(room as usize), bank },
                Some(TransactionError::OperationsOutOfMemory),
            )
        }
    }
}

/// A failed access leaves the following ones unattempted.
pub open spec fn step_and(
    s: (EngineView, Option<TransactionError>),
    target: Bank,
    body: Seq<OpShape>,
) -> (EngineView, Option<TransactionError>) {
    if s.1 is Some {
        s
    } else {
        access_step(s.0, target, body)
    }
}

/// The initialization sequence, one transaction per entry, in this exact
/// order: receive-buffer start address, end address, and read pointer (set
/// to the start) — word registers in bank 0 — then the receive filter
/// configuration (all filters off, bank 1), MAC configuration register 1
/// (the enable pattern, bank 2), MAC configuration register 3 (the
/// full-duplex/CRC pattern, word write) and MAC configuration register 4
/// (word write).
pub open spec fn init_plan(v: EngineView, start: u16, end: u16) -> (
    EngineView,
    Option<TransactionError>,
) {
    let s = access_step(v, Bank::Bank0, word_shapes(0x08, start));
    let s = step_and(s, Bank::Bank0, word_shapes(0x0A, end));
    let s = step_and(s, Bank::Bank0, word_shapes(0x0C, start));
    let s = step_and(s, Bank::Bank1, seq![wcr_shape(0x18, 0x00)]);
    let s = step_and(s, Bank::Bank2, seq![wcr_shape(0x00, 0x0D)]);
    let s = step_and(s, Bank::Bank2, word_shapes(0x02, 0x00F7));
    step_and(s, Bank::Bank2, word_shapes(0x03, 0x0000))
}

/// On a fresh driver — no pending transactions, bank 0 cached — the
/// initialization sequence enqueues exactly seven transactions of two
/// operations each: the three receive-buffer word writes need no bank
/// switch, the filter and MAC-1 writes each carry one, and the two MAC
/// word writes stay in bank 2.
pub proof fn lemma_init_fresh(start: u16, end: u16)
    ensures
        ({
            let v = EngineView {
                ops: Seq::<OpShape>::empty(),
                bounds: Seq::<usize>::empty(),
                bank: Bank::Bank0,
            };
            let s = init_plan(v, start, end);
            &&& s.1 is None
            &&& s.0.bounds == seq![2usize, 2, 2, 2, 2, 2, 2]
            &&& s.0.ops == word_shapes(0x08, start) + word_shapes(0x0A, end) + word_shapes(
                0x0C,
                start,
            ) + seq![bank_switch_shape(Bank::Bank1), wcr_shape(0x18, 0x00)] + seq![
                bank_switch_shape(Bank::Bank2),
                wcr_shape(0x00, 0x0D),
            ] + word_shapes(0x02, 0x00F7) + word_shapes(0x03, 0x0000)
            &&& s.0.bank == Bank::Bank2
        }),
{
    let v = EngineView {
        ops: Seq::<OpShape>::empty(),
        bounds: Seq::<usize>::empty(),
        bank: Bank::Bank0,
    };
    let s = init_plan(v, start, end);
    assert(s.0.bounds =~= seq![2usize, 2, 2, 2, 2, 2, 2]);
    assert(s.0.ops =~= word_shapes(0x08, start) + word_shapes(0x0A, end) + word_shapes(0x0C, start)
        + seq![bank_switch_shape(Bank::Bank1), wcr_shape(0x18, 0x00)] + seq![
        bank_switch_shape(Bank::Bank2),
        wcr_shape(0x00, 0x0D),
    ] + word_shapes(0x02, 0x00F7) + word_shapes(0x03, 0x0000));
}

/// The instruction byte of the oscillator probe: read ESTAT (address
/// 0x1D); the read opcode's top three bits are zero.
pub open spec fn probe_instruction_byte() -> u8 {
    0x00u8 | 0x1Du8
}

/// The synthesized oscillator-probe transaction: the ESTAT read
/// instruction, then a one-byte placeholder.
pub open spec fn probe_shapes() -> Seq<OpShape> {
    seq![rcr_shape(0x1D), read_shape()]
}

/// Whether a shape is a write phase whose bytes equal the ESTAT-probe
/// instruction byte.
pub open spec fn is_probe_write(s: OpShape) -> bool {
    s.write && s.bytes == seq![probe_instruction_byte()]
}

/// Structural consistency of a completed transaction handed back to the
/// driver: a probing write must be followed by its matching read phase
/// holding at least one byte.  A transaction violating this indicates
/// protocol corruption; the driver cannot safely continue past it.
pub open spec fn probe_shape_consistent(shapes: Seq<OpShape>) -> bool {
    (shapes.len() > 0 && is_probe_write(shapes[0])) ==> {
        &&& shapes.len() >= 2
        &&& !shapes[1].write
        &&& shapes[1].bytes.len() > 0
    }
}

/// Whether a completed transaction reports the oscillator stable: a
/// probing write followed by a read whose first byte has bit 0 (CLKRDY)
/// set.
pub open spec fn probe_reports_ready(shapes: Seq<OpShape>) -> bool {
    &&& shapes.len() >= 2
    &&& is_probe_write(shapes[0])
    &&& !shapes[1].write
    &&& shapes[1].bytes.len() > 0
    &&& shapes[1].bytes[0] & 1 == 1
}

/// Bank elision.  Of two consecutive accesses targeting the same bank,
/// only the first can enqueue a bank-switch instruction: it enqueues
/// exactly one bit-field-set instruction carrying the bank's 2-bit value
/// when the cached bank differs, and none when it is already cached; the
/// second access never enqueues one.
pub proof fn lemma_bank_elision(
    v: EngineView,
    target: Bank,
    body1: Seq<OpShape>,
    body2: Seq<OpShape>,
)
    requires
        v.bounds.len() + 2 <= 10,
        v.ops.len() + 1 + body1.len() + body2.len() <= 50,
    ensures
        ({
            let s1 = access_step(v, target, body1);
            let s2 = access_step(s1.0, target, body2);
            &&& s1.1 is None
            &&& s2.1 is None
            &&& v.bank != target ==> s1.0.ops == v.ops + seq![bank_switch_shape(target)] + body1
            &&& v.bank == target ==> s1.0.ops == v.ops + body1
            &&& s2.0.ops == s1.0.ops + body2
        }),
{
    let s1 = access_step(v, target, body1);
    if v.bank != target {
        assert(v.ops + (seq![bank_switch_shape(target)] + body1) =~= v.ops + seq![
            bank_switch_shape(target),
        ] + body1);
    }
    assert(s1.0.bank == target);
}

/// The error of a result, if any.
pub open spec fn err_of(r: Result<(), TransactionError>) -> Option<TransactionError> {
    match r {
        Ok(_) => None,
        Err(e) => Some(e),
    }
}

/// The driver: the bank cache, the batching engine, the receive-buffer
/// window, and the oscillator-ready flag.  Exclusively owned by one polling
/// loop; all methods are synchronous.
pub struct Enc28j60 {
    current_bank: Bank,
    pending_transactions: Transactions,
    erx_range: ErxRange,
    ready: bool,
}

impl Enc28j60 {
    /// The pending engine content and the cached bank.
    pub closed spec fn engine_view(self) -> EngineView {
        EngineView {
            ops: shapes_of(self.pending_transactions.operations()),
            bounds: self.pending_transactions.boundaries(),
            bank: self.current_bank,
        }
    }

    /// Whether the oscillator-ready handshake has completed.
    pub closed spec fn is_ready(self) -> bool {
        self.ready
    }

    /// The configured receive-buffer window.
    pub closed spec fn erx(self) -> ErxRange {
        self.erx_range
    }

    /// The engine is consistent and the window well-formed.
    pub closed spec fn wf(self) -> bool {
        self.pending_transactions.wf() && self.erx_range.wf()
    }

    /// A driver over the given receive-buffer window: bank cache at the
    /// reset default, no pending transactions, oscillator not yet ready.
    pub fn with_erx_range(erx_range: ErxRange) -> (r: Self)
        requires
            erx_range.wf(),
        ensures
            r.wf(),
            !r.is_ready(),
            r.erx() == erx_range,
            r.engine_view() == (EngineView {
                ops: Seq::<OpShape>::empty(),
                bounds: Seq::<usize>::empty(),
                bank: Bank::Bank0,
            }),
    {
        let r = Enc28j60 {
            current_bank: Bank::default(),
            pending_transactions: Transactions::default(),
            erx_range,
            ready: false,
        };
        proof {
            assert(r.engine_view() =~= (EngineView {
                ops: Seq::<OpShape>::empty(),
                bounds: Seq::<usize>::empty(),
                bank: Bank::Bank0,
            }));
        }
        r
    }

    /// A driver whose receive-buffer window runs from the bottom of the
    /// address space up to `length` inclusive.
    pub fn with_erx_length(length: u16) -> (r: Self)
        requires
            length < 0x200,
        ensures
            r.wf(),
            !r.is_ready(),
            r.erx() == (ErxRange { start: 0, end: length }),
            r.engine_view() == (EngineView {
                ops: Seq::<OpShape>::empty(),
                bounds: Seq::<usize>::empty(),
                bank: Bank::Bank0,
            }),
    {
        Self::with_erx_range(ErxRange { start: 0, end: length })
    }

    /// Pushes a write-control-register instruction for `address` carrying
    /// `value` into the transaction currently open.
    fn write_to_control_register_address(
        &mut self,
        address: RegisterAddress,
        value: u8,
    ) -> (r: Result<(), TransactionError>)
        requires
            old(self).wf(),
        ensures
            final(self).wf(),
            final(self).is_ready() == old(self).is_ready(),
            final(self).erx() == old(self).erx(),
            final(self).engine_view().bank == old(self).engine_view().bank,
            match r {
                Ok(_) => {
                    &&& old(self).engine_view().ops.len() < 50
                    &&& final(self).engine_view().ops == old(self).engine_view().ops.push(
                        wcr_shape(address.spec_value(), value),
                    )
                    &&& final(self).engine_view().bounds == bump_last(
                        old(self).engine_view().bounds,
                    )
                },
                Err(e) => {
                    &&& e == TransactionError::OperationsOutOfMemory
                    &&& old(self).engine_view().ops.len() == 50
                    &&& final(self).engine_view() == old(self).engine_view()
                },
            },
    {
        let operation = write_operation(OpCode::Wcr.code() | address.value(), value);
        let ghost ops0 = old(self).pending_transactions.operations();
        let result = self.pending_transactions.push_operation(operation);
        proof {
            lemma_shapes_push(ops0, operation);
            assert(shape_of(operation) =~= wcr_shape(address.spec_value(), value));
            if result is Err {
                assert(final(self).engine_view() =~= old(self).engine_view());
            }
        }
        result
    }

    /// Pushes a bit-field-set instruction for `address` carrying `value`
    /// into the transaction currently open.
    fn bit_field_set_to_control_register_address(
        &mut self,
        address: RegisterAddress,
        value: u8,
    ) -> (r: Result<(), TransactionError>)
        requires
            old(self).wf(),
        ensures
            final(self).wf(),
            final(self).is_ready() == old(self).is_ready(),
            final(self).erx() == old(self).erx(),
            final(self).engine_view().bank == old(self).engine_view().bank,
            match r {
                Ok(_) => {
                    &&& old(self).engine_view().ops.len() < 50
                    &&& final(self).engine_view().ops == old(self).engine_view().ops.push(
                        (OpShape { write: true, bytes: seq![0x80u8 | address.spec_value(), value] }),
                    )
                    &&& final(self).engine_view().bounds == bump_last(
                        old(self).engine_view().bounds,
                    )
                },
                Err(e) => {
                    &&& e == TransactionError::OperationsOutOfMemory
                    &&& old(self).engine_view().ops.len() == 50
                    &&& final(self).engine_view() == old(self).engine_view()
                },
            },
    {
        let operation = write_operation(OpCode::Bfs.code() | address.value(), value);
        let ghost ops0 = old(self).pending_transactions.operations();
        let result = self.pending_transactions.push_operation(operation);
        proof {
            lemma_shapes_push(ops0, operation);
            assert(shape_of(operation) =~= (OpShape {
                write: true,
                bytes: seq![0x80u8 | address.spec_value(), value],
            }));
            if result is Err {
                assert(final(self).engine_view() =~= old(self).engine_view());
            }
        }
        result
    }

    /// Compares the target bank with the cache: when they differ, pushes
    /// one bank-switch instruction into the open transaction and moves the
    /// cache; when they are equal, the switch is elided entirely.
    fn set_bank(&mut self, bank: Bank) -> (r: Result<(), TransactionError>)
        requires
            old(self).wf(),
        ensures
            final(self).wf(),
            final(self).is_ready() == old(self).is_ready(),
            final(self).erx() == old(self).erx(),
            match r {
                Ok(_) => {
                    if old(self).engine_view().bank == bank {
                        final(self).engine_view() == old(self).engine_view()
                    } else {
                        &&& old(self).engine_view().ops.len() < 50
                        &&& final(self).engine_view() == (EngineView {
                            ops: old(self).engine_view().ops.push(bank_switch_shape(bank)),
                            bounds: bump_last(old(self).engine_view().bounds),
                            bank,
                        })
                    }
                },
                Err(e) => {
                    &&& e == TransactionError::OperationsOutOfMemory
                    &&& old(self).engine_view().bank != bank
                    &&& old(self).engine_view().ops.len() == 50
                    &&& final(self).engine_view() == old(self).engine_view()
                },
            },
    {
        if bank == self.current_bank {
            return Ok(());
        }
        match self.bit_field_set_to_control_register_address(RegisterAddress::r1F, bank.value()) {
            Ok(_) => {},
            Err(e) => {
                return Err(e);
            },
        }
        self.current_bank = bank;
        proof {
            assert(final(self).engine_view() =~= (EngineView {
                ops: old(self).engine_view().ops.push(bank_switch_shape(bank)),
                bounds: bump_last(old(self).engine_view().bounds),
                bank,
            }));
        }
        Ok(())
    }

    /// Writes one byte to a control register, as one transaction: the bank
    /// switch if one is due, then the write-control-register instruction.
    pub fn write_register(&mut self, register: ControlRegister, value: u8) -> (r: Result<
        (),
        TransactionError,
    >)
        requires
            old(self).wf(),
        ensures
            final(self).wf(),
            final(self).is_ready() == old(self).is_ready(),
            final(self).erx() == old(self).erx(),
            ({
                let s = access_step(
                    old(self).engine_view(),
                    register.bank,
                    seq![wcr_shape(register.address.spec_value(), value)],
                );
                final(self).engine_view() == s.0 && err_of(r) == s.1
            }),
    {
        let ghost v0 = old(self).engine_view();
        let ghost body = seq![wcr_shape(register.address.spec_value(), value)];
        let ghost all = access_shapes(v0.bank, register.bank, body);
        match self.pending_transactions.new_transaction() {
            Ok(_) => {},
            Err(e) => {
                proof {
                    assert(self.engine_view() =~= v0);
                }
                return Err(e);
            },
        }
        match self.set_bank(register.bank) {
            Ok(_) => {},
            Err(e) => {
                proof {
                    assert(all.take(0) =~= Seq::<OpShape>::empty());
                    assert(self.engine_view() =~= access_step(v0, register.bank, body).0);
                }
                return Err(e);
            },
        }
        proof {
            if v0.bank != register.bank {
                assert(self.engine_view().ops =~= v0.ops + all.take(1));
            } else {
                assert(self.engine_view().ops =~= v0.ops + all.take(0));
            }
        }
        match self.write_to_control_register_address(register.address, value) {
            Ok(_) => {},
            Err(e) => {
                proof {
                    assert(self.engine_view() =~= access_step(v0, register.bank, body).0);
                }
                return Err(e);
            },
        }
        proof {
            assert(self.engine_view() =~= access_step(v0, register.bank, body).0);
        }
        Ok(())
    }

    /// Writes a 16-bit value to a word register, as one transaction: the
    /// bank switch if one is due, then the low byte to the register and the
    /// high byte to its successor, low byte first.
    pub fn write_word(&mut self, register: ControlRegister, value: u16) -> (r: Result<
        (),
        TransactionError,
    >)
        requires
            old(self).wf(),
            register.address.spec_value() < 31,
        ensures
            final(self).wf(),
            final(self).is_ready() == old(self).is_ready(),
            final(self).erx() == old(self).erx(),
            ({
                let s = access_step(
                    old(self).engine_view(),
                    register.bank,
                    word_shapes(register.address.spec_value(), value),
                );
                final(self).engine_view() == s.0 && err_of(r) == s.1
            }),
    {
        let ghost v0 = old(self).engine_view();
        let ghost body = word_shapes(register.address.spec_value(), value);
        let ghost all = access_shapes(v0.bank, register.bank, body);
        let low = (value & 0xFF) as u8;
        let high = (value >> 8) as u8;
        match self.pending_transactions.new_transaction() {
            Ok(_) => {},
            Err(e) => {
                proof {
                    assert(self.engine_view() =~= v0);
                }
                return Err(e);
            },
        }
        match self.set_bank(register.bank) {
            Ok(_) => {},
            Err(e) => {
                proof {
                    assert(all.take(0) =~= Seq::<OpShape>::empty());
                    assert(self.engine_view() =~= access_step(v0, register.bank, body).0);
                }
                return Err(e);
            },
        }
        let ghost sc: int = if v0.bank == register.bank {
            0
        } else {
            1
        };
        proof {
            assert(self.engine_view().ops =~= v0.ops + all.take(sc));
        }
        match self.write_to_control_register_address(register.address, low) {
            Ok(_) => {},
            Err(e) => {
                proof {
                    assert(self.engine_view() =~= access_step(v0, register.bank, body).0);
                }
                return Err(e);
            },
        }
        proof {
            assert(self.engine_view().ops =~= v0.ops + all.take(sc + 1));
        }
        match self.write_to_control_register_address(register.next().address, high) {
            Ok(_) => {},
            Err(e) => {
                proof {
                    assert(self.engine_view() =~= access_step(v0, register.bank, body).0);
                }
                return Err(e);
            },
        }
        proof {
            assert(self.engine_view() =~= access_step(v0, register.bank, body).0);
        }
        Ok(())
    }

    /// Requests a register read, as one transaction: the bank switch if one
    /// is due, then the read-control-register instruction followed by a
    /// one-byte placeholder the bus fills in place.
    pub fn read_register(&mut self, register: ControlRegister) -> (r: Result<
        (),
        TransactionError,
    >)
        requires
            old(self).wf(),
        ensures
            final(self).wf(),
            final(self).is_ready() == old(self).is_ready(),
            final(self).erx() == old(self).erx(),
            ({
                let s = access_step(
                    old(self).engine_view(),
                    register.bank,
                    seq![rcr_shape(register.address.spec_value()), read_shape()],
                );
                final(self).engine_view() == s.0 && err_of(r) == s.1
            }),
    {
        let ghost v0 = old(self).engine_view();
        let ghost body = seq![rcr_shape(register.address.spec_value()), read_shape()];
        let ghost all = access_shapes(v0.bank, register.bank, body);
        match self.pending_transactions.new_transaction() {
            Ok(_) => {},
            Err(e) => {
                proof {
                    assert(self.engine_view() =~= v0);
                }
                return Err(e);
            },
        }
        match self.set_bank(register.bank) {
            Ok(_) => {},
            Err(e) => {
                proof {
                    assert(all.take(0) =~= Seq::<OpShape>::empty());
                    assert(self.engine_view() =~= access_step(v0, register.bank, body).0);
                }
                return Err(e);
            },
        }
        let ghost sc: int = if v0.bank == register.bank {
            0
        } else {
            1
        };
        proof {
            assert(self.engine_view().ops =~= v0.ops + all.take(sc));
        }
        let probe = write_operation_single(OpCode::Rcr.code() | register.address.value());
        let ghost ops_before = self.pending_transactions.operations();
        match self.pending_transactions.push_operation(probe) {
            Ok(_) => {
                proof {
                    lemma_shapes_push(ops_before, probe);
                }
            },
            Err(e) => {
                proof {
                    assert(self.engine_view() =~= access_step(v0, register.bank, body).0);
                }
                return Err(e);
            },
        }
        proof {
            assert(shape_of(probe) =~= rcr_shape(register.address.spec_value()));
            assert(self.engine_view().ops =~= v0.ops + all.take(sc + 1));
        }
        let placeholder = read_placeholder();
        let ghost ops_mid = self.pending_transactions.operations();
        match self.pending_transactions.push_operation(placeholder) {
            Ok(_) => {
                proof {
                    lemma_shapes_push(ops_mid, placeholder);
                }
            },
            Err(e) => {
                proof {
                    lemma_shapes_push(ops_mid, placeholder);
                    assert(self.engine_view() =~= access_step(v0, register.bank, body).0);
                }
                return Err(e);
            },
        }
        proof {
            assert(self.engine_view() =~= access_step(v0, register.bank, body).0);
        }
        Ok(())
    }

    /// Enqueues the chip initialization sequence over the configured
    /// receive-buffer window, as the seven transactions of `init_plan`.
    /// On a capacity failure the transactions already enqueued stay
    /// enqueued; nothing is rolled back.
    pub fn init(&mut self) -> (r: Result<(), TransactionError>)
        requires
            old(self).wf(),
        ensures
            final(self).wf(),
            final(self).is_ready() == old(self).is_ready(),
            final(self).erx() == old(self).erx(),
            ({
                let s = init_plan(
                    old(self).engine_view(),
                    old(self).erx().start,
                    old(self).erx().end,
                );
                final(self).engine_view() == s.0 && err_of(r) == s.1
            }),
    {
        let start = self.erx_range.start;
        let end = self.erx_range.end;
        // Receive buffer window: start, end, and read pointer at the start.
        // Waiting for the oscillator is baked into the transaction poll.
        match self.write_word(
            ControlRegister { bank: Bank::Bank0, address: RegisterAddress::r08 },
            start,
        ) {
            Ok(_) => {},
            Err(e) => {
                return Err(e);
            },
        }
        match self.write_word(
            ControlRegister { bank: Bank::Bank0, address: RegisterAddress::r0A },
            end,
        ) {
            Ok(_) => {},
            Err(e) => {
                return Err(e);
            },
        }
        match self.write_word(
            ControlRegister { bank: Bank::Bank0, address: RegisterAddress::r0C },
            start,
        ) {
            Ok(_) => {},
            Err(e) => {
                return Err(e);
            },
        }
        // Receive filters: all off, accepting everything.
        match self.write_register(
            ControlRegister { bank: Bank::Bank1, address: RegisterAddress::r18 },
            0x00,
        ) {
            Ok(_) => {},
            Err(e) => {
                return Err(e);
            },
        }
        // MAC configuration.
        match self.write_register(
            ControlRegister { bank: Bank::Bank2, address: RegisterAddress::r00 },
            0b0000_1101,
        ) {
            Ok(_) => {},
            Err(e) => {
                return Err(e);
            },
        }
        match self.write_word(
            ControlRegister { bank: Bank::Bank2, address: RegisterAddress::r02 },
            0b111_1_0_1_1_1,
        ) {
            Ok(_) => {},
            Err(e) => {
                return Err(e);
            },
        }
        match self.write_word(
            ControlRegister { bank: Bank::Bank2, address: RegisterAddress::r03 },
            0b0_0_0_0_0_0,
        ) {
            Ok(_) => {},
            Err(e) => {
                return Err(e);
            },
        }
        Ok(())
    }

    /// Hands out the next transaction to execute on the bus.  Until the
    /// oscillator-ready handshake has completed this is always the
    /// synthesized ESTAT probe, which is not drawn from the engine and
    /// consumes no engine capacity; afterwards it is the oldest pending
    /// transaction of the engine, or nothing when the engine is empty.
    pub fn poll_pending_transaction(&mut self) -> (r: Option<
        heapless::Deque<ControlRegisterOperation, 50>,
    >)
        requires
            old(self).wf(),
        ensures
            final(self).wf(),
            final(self).is_ready() == old(self).is_ready(),
            final(self).erx() == old(self).erx(),
            !old(self).is_ready() ==> ({
                &&& r matches Some(t) && shapes_of(op_queue(t)) == probe_shapes()
                &&& final(self).engine_view() == old(self).engine_view()
            }),
            old(self).is_ready() ==> ({
                &&& final(self).engine_view().bank == old(self).engine_view().bank
                &&& match r {
                    Some(t) => {
                        &&& old(self).engine_view().bounds.len() > 0
                        &&& shapes_of(op_queue(t)) == old(self).engine_view().ops.take(
                            old(self).engine_view().bounds[0] as int,
                        )
                        &&& final(self).engine_view().ops == old(self).engine_view().ops.skip(
                            old(self).engine_view().bounds[0] as int,
                        )
                        &&& final(self).engine_view().bounds == old(
                            self,
                        ).engine_view().bounds.drop_first()
                    },
                    None => old(self).engine_view().bounds.len() == 0 && final(self).engine_view()
                        == old(self).engine_view(),
                }
            }),
    {
        if !self.ready {
            let mut result = op_deque_new();
            let probe = write_operation_single(OpCode::Rcr.code() | RegisterAddress::r1D.value());
            let ghost empty_ops = op_queue(result);
            match op_deque_push_back(&mut result, probe) {
                Ok(_) => {},
                Err(_) => {
                    proof {
                        assert(false);
                    }
                },
            }
            let ghost one_op = op_queue(result);
            let placeholder = read_placeholder();
            match op_deque_push_back(&mut result, placeholder) {
                Ok(_) => {},
                Err(_) => {
                    proof {
                        assert(false);
                    }
                },
            }
            proof {
                lemma_shapes_push(empty_ops, probe);
                lemma_shapes_push(one_op, placeholder);
                assert(shapes_of(op_queue(result)) =~= probe_shapes());
            }
            return Some(result);
        }
        let ghost ops0 = self.pending_transactions.operations();
        let ghost bounds0 = self.pending_transactions.boundaries();
        let r = self.pending_transactions.pop_transaction();
        proof {
            if r is Some {
                crate::transactions::lemma_sum_drop_first(bounds0);
                crate::transactions::lemma_sum_nonneg(bounds0.drop_first());
                lemma_shapes_take(ops0, bounds0[0] as int);
                lemma_shapes_skip(ops0, bounds0[0] as int);
            }
        }
        r
    }

    /// Observes one completed transaction, fed back after bus execution.
    /// If its first operation is the ESTAT-probe write, the matching read
    /// phase must follow it — by contract, since a probing write without
    /// its read indicates protocol corruption the driver cannot continue
    /// past — and bit 0 of the byte read decides oscillator readiness.
    /// Every other transaction shape is accepted and discarded without
    /// side effects.
    pub fn handle_transaction(
        &mut self,
        transaction: heapless::Deque<ControlRegisterOperation, 50>,
    )
        requires
            old(self).wf(),
            probe_shape_consistent(shapes_of(op_queue(transaction))),
        ensures
            final(self).wf(),
            final(self).erx() == old(self).erx(),
            final(self).engine_view() == old(self).engine_view(),
            final(self).is_ready() == (old(self).is_ready() || probe_reports_ready(
                shapes_of(op_queue(transaction)),
            )),
    {
        let ghost shapes = shapes_of(op_queue(transaction));
        let mut rest = transaction;
        let first = match op_deque_pop_front(&mut rest) {
            Some(op) => op,
            None => {
                return;
            },
        };
        proof {
            assert(shapes[0] == shape_of(first));
        }
        match first {
            ControlRegisterOperation::Write(buffer) => {
                if buffer_is_single(
                    &buffer,
                    OpCode::Rcr.code() | RegisterAddress::r1D.value(),
                ) {
                    let second = match op_deque_pop_front(&mut rest) {
                        Some(op) => op,
                        None => {
                            proof {
                                assert(false);
                            }
                            return;
                        },
                    };
                    proof {
                        assert(shapes[1] == shape_of(second));
                    }
                    match second {
                        ControlRegisterOperation::Read(answer) => {
                            let byte = match byte_vec_get(&answer, 0) {
                                Some(b) => b,
                                None => {
                                    proof {
                                        assert(false);
                                    }
                                    return;
                                },
                            };
                            if byte & 1 == 1 {
                                self.ready = true;
                            }
                        },
                        ControlRegisterOperation::Write(_) => {
                            proof {
                                assert(false);
                            }
                            return;
                        },
                    }
                }
            },
            ControlRegisterOperation::Read(_) => {},
        }
    }
}

} // verus!


