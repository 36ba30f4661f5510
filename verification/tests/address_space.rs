use enc28j60::Bank;
use enc28j60::ControlRegister;
use enc28j60::RegisterAddress;
use enc28j60::address_space::backing_bits;
use enc28j60::address_space::max_value;
use enc28j60::address_space::variant_name;

#[test]
fn five_bit_space_has_32_values_backed_by_u8() {
    assert_eq!(max_value(5), Some(31));
    assert_eq!(backing_bits(5), Some(8));

    // Every value 0..=31 has exactly one address, distinct and ordered,
    // named by its value in two-digit hexadecimal.
    let mut seen: Vec<u8> = Vec::new();
    for v in 0..32u8 {
        let address = RegisterAddress::from_value(v).expect("value inside the 5-bit space");
        assert_eq!(address.value(), v);
        assert!(!seen.contains(&v));
        seen.push(v);
        assert_eq!(address.name(), variant_name(v as u128));
        assert_eq!(format!("{:?}", address), address.name());
    }
    assert_eq!(seen.len(), 32);
    assert!(RegisterAddress::from_value(32).is_none());
    assert!(RegisterAddress::from_value(0xFF).is_none());
}

#[test]
fn nine_bit_space_has_512_values_backed_by_u16() {
    assert_eq!(max_value(9), Some(511));
    assert_eq!(backing_bits(9), Some(16));
}

#[test]
fn names_are_two_digit_uppercase_hexadecimal() {
    assert_eq!(variant_name(0), "r00");
    assert_eq!(variant_name(5), "r05");
    assert_eq!(variant_name(10), "r0A");
    assert_eq!(variant_name(31), "r1F");
    assert_eq!(variant_name(255), "rFF");
    assert_eq!(variant_name(256), "r100");
}

#[test]
fn widths_outside_one_to_128_are_rejected() {
    assert_eq!(max_value(0), None);
    assert_eq!(max_value(129), None);
    assert_eq!(backing_bits(0), None);
    assert_eq!(backing_bits(129), None);
    assert_eq!(max_value(128), Some(u128::MAX));
}

#[test]
fn backing_width_thresholds() {
    assert_eq!(backing_bits(1), Some(8));
    assert_eq!(backing_bits(8), Some(8));
    assert_eq!(backing_bits(16), Some(16));
    assert_eq!(backing_bits(17), Some(32));
    assert_eq!(backing_bits(32), Some(32));
    assert_eq!(backing_bits(64), Some(64));
    assert_eq!(backing_bits(65), Some(128));
    assert_eq!(backing_bits(128), Some(128));
}

#[test]
fn successor_addresses_walk_the_space_in_order() {
    let mut address = RegisterAddress::from_value(0).unwrap();
    for v in 0..31u8 {
        assert_eq!(address.value(), v);
        address = address.next();
    }
    assert_eq!(address.value(), 31);
}

#[test]
fn control_register_successor_keeps_the_bank() {
    let macon3 = ControlRegister { bank: Bank::Bank2, address: RegisterAddress::r02 };
    let next = macon3.next();
    assert_eq!(next.bank, Bank::Bank2);
    assert_eq!(next.address.value(), 0x03);
}

#[test]
fn bank_values_are_the_two_bit_selectors() {
    assert_eq!(Bank::Bank0.value(), 0b00);
    assert_eq!(Bank::Bank1.value(), 0b01);
    assert_eq!(Bank::Bank2.value(), 0b10);
    assert_eq!(Bank::Bank3.value(), 0b11);
    assert_eq!(Bank::default(), Bank::Bank0);
}
