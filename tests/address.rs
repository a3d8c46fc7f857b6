use thermo::hdc1010::SlaveAddress;

#[test]
fn test_addr() {
    let addr = SlaveAddress::default();
    println!("Address: 0x{:02x}", addr.into_bits());
    assert_eq!(addr.into_bits(), 0x40);
}

#[test]
fn address_pins_select_the_four_addresses() {
    let base = SlaveAddress::default();
    assert_eq!(base.with_a0(true).into_bits(), 0x41);
    assert_eq!(base.with_a1(true).into_bits(), 0x42);
    assert_eq!(base.with_a0(true).with_a1(true).into_bits(), 0x43);
    assert_eq!(base.with_a0(true).with_a0(false).into_bits(), 0x40);
    assert!(base.with_a1(true).a1());
    assert!(!base.with_a1(true).a0());
}
