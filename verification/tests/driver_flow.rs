use enc28j60::Bank;
use enc28j60::ControlRegister;
use enc28j60::ControlRegisterOperation;
use enc28j60::Enc28j60;
use enc28j60::ErxRange;
use enc28j60::RegisterAddress;
use enc28j60::operations::write_operation;

fn op_parts(op: &ControlRegisterOperation) -> (bool, Vec<u8>) {
    match op {
        ControlRegisterOperation::Write(b) => (true, b.as_slice().to_vec()),
        ControlRegisterOperation::Read(b) => (false, b.as_slice().to_vec()),
    }
}

fn assert_transaction(
    t: &mut heapless::Deque<ControlRegisterOperation, 50>,
    expected: &[(bool, &[u8])],
) {
    for (write, bytes) in expected {
        let op = t.pop_front().expect("transaction ended early");
        let (w, b) = op_parts(&op);
        assert_eq!(w, *write);
        assert_eq!(b.as_slice(), *bytes);
    }
    assert!(t.pop_front().is_none());
}

/// Executes the pending oscillator probe as the bus would, answering with
/// the given ESTAT byte, and feeds it back.
fn answer_probe(driver: &mut Enc28j60, estat: u8) {
    let mut probe = driver.poll_pending_transaction().expect("probe expected");
    {
        let mut ops: Vec<&mut ControlRegisterOperation> = probe.iter_mut().collect();
        assert_eq!(ops.len(), 2);
        match &*ops[0] {
            ControlRegisterOperation::Write(b) => assert_eq!(b.as_slice(), &[0x1D]),
            ControlRegisterOperation::Read(_) => panic!("probe starts with a write"),
        }
        match &mut *ops[1] {
            ControlRegisterOperation::Read(b) => b.as_mut_slice()[0] = estat,
            ControlRegisterOperation::Write(_) => panic!("probe ends with a read"),
        }
    }
    driver.handle_transaction(probe);
}

#[test]
fn polls_probe_until_ready_then_drains_queue() {
    let mut driver = Enc28j60::with_erx_length(0x1F0);
    // Queue something before the oscillator is ready: the poll must still
    // synthesize the probe and leave the queue untouched.
    driver
        .read_register(ControlRegister { bank: Bank::Bank0, address: RegisterAddress::r00 })
        .unwrap();

    answer_probe(&mut driver, 0x00);
    // Oscillator still not stable: the probe is synthesized again.
    answer_probe(&mut driver, 0x01);

    // Now ready: the queued read comes out, then nothing; no re-probe.
    let mut read = driver.poll_pending_transaction().expect("queued transaction");
    assert_transaction(&mut read, &[(true, &[0x00]), (false, &[0x00])]);
    assert!(driver.poll_pending_transaction().is_none());
}

#[test]
fn bank_switch_elided_on_repeated_bank() {
    let mut driver = Enc28j60::with_erx_length(0x1F0);
    answer_probe(&mut driver, 0x01);

    let in_bank0 = ControlRegister { bank: Bank::Bank0, address: RegisterAddress::r05 };
    let in_bank3 = ControlRegister { bank: Bank::Bank3, address: RegisterAddress::r05 };

    // The reset bank is already selected: no switch instruction.
    driver.read_register(in_bank0).unwrap();
    let mut t = driver.poll_pending_transaction().expect("read in bank 0");
    assert_transaction(&mut t, &[(true, &[0x05]), (false, &[0x00])]);

    // A different bank: exactly one bit-field-set to ECON1 with the 2-bit
    // bank value as payload.
    driver.read_register(in_bank3).unwrap();
    let mut t = driver.poll_pending_transaction().expect("read in bank 3");
    assert_transaction(&mut t, &[(true, &[0x9F, 0x03]), (true, &[0x05]), (false, &[0x00])]);

    // The same bank twice in a row: never a second switch.
    driver.read_register(in_bank3).unwrap();
    let mut t = driver.poll_pending_transaction().expect("second read in bank 3");
    assert_transaction(&mut t, &[(true, &[0x05]), (false, &[0x00])]);
}

#[test]
fn word_write_emits_low_byte_first() {
    let mut driver = Enc28j60::with_erx_length(0x1F0);
    answer_probe(&mut driver, 0x01);

    let reg = ControlRegister { bank: Bank::Bank0, address: RegisterAddress::r08 };
    driver.write_word(reg, 0x1F0).unwrap();

    let mut t = driver.poll_pending_transaction().expect("word write");
    assert_transaction(&mut t, &[(true, &[0x48, 0xF0]), (true, &[0x49, 0x01])]);
}

#[test]
fn byte_write_is_one_two_byte_operation() {
    let mut driver = Enc28j60::with_erx_length(0x1F0);
    answer_probe(&mut driver, 0x01);

    let reg = ControlRegister { bank: Bank::Bank0, address: RegisterAddress::r12 };
    driver.write_register(reg, 0xC4).unwrap();

    let mut t = driver.poll_pending_transaction().expect("byte write");
    assert_transaction(&mut t, &[(true, &[0x52, 0xC4])]);
}

#[test]
fn init_enqueues_seven_documented_transactions() {
    let mut driver = Enc28j60::with_erx_range(ErxRange { start: 0, end: 0x1F0 });
    driver.init().unwrap();
    answer_probe(&mut driver, 0x01);

    let expected: [&[(bool, &[u8])]; 7] = [
        // Receive-buffer start address, word, bank 0 (no switch needed).
        &[(true, &[0x48, 0x00]), (true, &[0x49, 0x00])],
        // Receive-buffer end address, word.
        &[(true, &[0x4A, 0xF0]), (true, &[0x4B, 0x01])],
        // Receive-buffer read pointer, word, back to the start.
        &[(true, &[0x4C, 0x00]), (true, &[0x4D, 0x00])],
        // Switch to bank 1, then disable every receive filter.
        &[(true, &[0x9F, 0x01]), (true, &[0x58, 0x00])],
        // Switch to bank 2, then MAC configuration register 1.
        &[(true, &[0x9F, 0x02]), (true, &[0x40, 0x0D])],
        // MAC configuration register 3, word.
        &[(true, &[0x42, 0xF7]), (true, &[0x43, 0x00])],
        // MAC configuration register 4, word.
        &[(true, &[0x43, 0x00]), (true, &[0x44, 0x00])],
    ];
    for step in expected.iter() {
        let mut t = driver.poll_pending_transaction().expect("init transaction");
        assert_transaction(&mut t, step);
    }
    assert!(driver.poll_pending_transaction().is_none());
}

#[test]
fn driver_surfaces_transaction_overflow() {
    let mut driver = Enc28j60::with_erx_length(0x1F0);
    let reg = ControlRegister { bank: Bank::Bank0, address: RegisterAddress::r00 };
    for _ in 0..10 {
        driver.write_register(reg, 0x00).unwrap();
    }
    let overflow = driver.read_register(reg);
    assert!(matches!(overflow, Err(enc28j60::TransactionError::TransactionOutOfMemory)));
}

#[test]
fn write_carrying_probe_byte_as_value_is_not_a_probe() {
    let mut driver = Enc28j60::with_erx_length(0x1F0);
    // A register write whose value byte happens to equal the probe
    // instruction byte is no probe: it is accepted and discarded, even
    // with no read phase after it.
    let mut t: heapless::Deque<ControlRegisterOperation, 50> = heapless::Deque::new();
    t.push_back(write_operation(0x45, 0x1D)).unwrap();
    driver.handle_transaction(t);
    // Readiness is untouched: the next poll still synthesizes the probe.
    let mut probe = driver.poll_pending_transaction().expect("probe");
    assert_transaction(&mut probe, &[(true, &[0x1D]), (false, &[0x00])]);
}

#[test]
fn ordinary_transactions_are_discarded_silently() {
    let mut driver = Enc28j60::with_erx_length(0x1F0);
    answer_probe(&mut driver, 0x01);

    driver
        .write_register(
            ControlRegister { bank: Bank::Bank0, address: RegisterAddress::r01 },
            0x55,
        )
        .unwrap();
    let t = driver.poll_pending_transaction().expect("write transaction");
    driver.handle_transaction(t);

    // Still ready, and nothing re-queued: the driver does not interpret
    // ordinary transactions.
    assert!(driver.poll_pending_transaction().is_none());
}
