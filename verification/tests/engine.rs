use enc28j60::ControlRegisterOperation;
use enc28j60::TransactionError;
use enc28j60::Transactions;
use enc28j60::operations::read_placeholder;
use enc28j60::operations::write_operation;
use enc28j60::operations::write_operation_single;

fn op_parts(op: &ControlRegisterOperation) -> (bool, Vec<u8>) {
    match op {
        ControlRegisterOperation::Write(b) => (true, b.as_slice().to_vec()),
        ControlRegisterOperation::Read(b) => (false, b.as_slice().to_vec()),
    }
}

fn assert_transaction(
    t: &mut heapless::Deque<ControlRegisterOperation, 50>,
    expected: &[(bool, &[u8])],
) {
    for (write, bytes) in expected {
        let op = t.pop_front().expect("transaction ended early");
        let (w, b) = op_parts(&op);
        assert_eq!(w, *write);
        assert_eq!(b.as_slice(), *bytes);
    }
    assert!(t.pop_front().is_none());
}

#[test]
fn fifo_across_and_within_transactions() {
    let mut engine = Transactions::default();
    engine.new_transaction().unwrap();
    engine.push_operation(write_operation(0x48, 0x11)).unwrap();
    engine.push_operation(write_operation(0x49, 0x22)).unwrap();
    engine.new_transaction().unwrap();
    engine.push_operation(write_operation_single(0x1D)).unwrap();
    engine.push_operation(read_placeholder()).unwrap();

    let mut first = engine.pop_transaction().expect("first transaction");
    assert_transaction(&mut first, &[(true, &[0x48, 0x11]), (true, &[0x49, 0x22])]);

    let mut second = engine.pop_transaction().expect("second transaction");
    assert_transaction(&mut second, &[(true, &[0x1D]), (false, &[0x00])]);

    assert!(engine.pop_transaction().is_none());
}

#[test]
fn operations_overflow_preserves_state() {
    let mut engine = Transactions::default();
    engine.new_transaction().unwrap();
    for i in 0..50u8 {
        engine.push_operation(write_operation_single(i)).unwrap();
    }
    let overflow = engine.push_operation(write_operation_single(0xFF));
    assert!(matches!(overflow, Err(TransactionError::OperationsOutOfMemory)));

    // The committed boundary counts are unchanged: exactly the prior
    // transaction pops back out, in order.
    let mut t = engine.pop_transaction().expect("committed transaction");
    for i in 0..50u8 {
        let (w, b) = op_parts(&t.pop_front().expect("operation"));
        assert!(w);
        assert_eq!(b.as_slice(), &[i]);
    }
    assert!(t.pop_front().is_none());
    assert!(engine.pop_transaction().is_none());
}

#[test]
fn transaction_overflow() {
    let mut engine = Transactions::default();
    for _ in 0..10 {
        engine.new_transaction().unwrap();
    }
    let overflow = engine.new_transaction();
    assert!(matches!(overflow, Err(TransactionError::TransactionOutOfMemory)));
}

#[test]
fn pop_on_empty_engine_is_none() {
    let mut engine = Transactions::default();
    assert!(engine.pop_transaction().is_none());
}

#[test]
fn push_before_any_transaction_opens_one() {
    let mut engine = Transactions::default();
    engine.push_operation(write_operation(0x40, 0x07)).unwrap();
    let mut t = engine.pop_transaction().expect("implicit transaction");
    assert_transaction(&mut t, &[(true, &[0x40, 0x07])]);
    assert!(engine.pop_transaction().is_none());
}

#[test]
fn empty_transactions_pop_as_empty() {
    let mut engine = Transactions::default();
    engine.new_transaction().unwrap();
    engine.new_transaction().unwrap();
    engine.push_operation(write_operation_single(0xAB)).unwrap();
    let mut first = engine.pop_transaction().expect("empty transaction");
    assert!(first.pop_front().is_none());
    let mut second = engine.pop_transaction().expect("second transaction");
    assert_transaction(&mut second, &[(true, &[0xAB])]);
}
