use thermo::control::{contains_bytes, is_reboot_request, rewrite_boot_config};
use thermo::ds28ea00::Temperature;
use thermo::exclusion::parse_exclusion_list;
use thermo::fingerprint::{fingerprint, fingerprint_batch};
use thermo::measurement::Measurement;

#[test]
fn temperature_batch_encodes_one_tagged_record_per_entry() {
    let m = Measurement::Temperature(vec![(0x0403_0201, 25.5f32.to_bits())]);
    let mut expected = b"CHRIS,T,".to_vec();
    expected.extend_from_slice(&[0x01, 0x02, 0x03, 0x04]);
    expected.extend_from_slice(&25.5f32.to_le_bytes());
    assert_eq!(m.to_le_bytes(), expected);
}

#[test]
fn humidity_batch_uses_its_own_tag() {
    let m = Measurement::Humidity(vec![(7, 40.0f32.to_bits()), (8, 41.0f32.to_bits())]);
    let bytes = m.to_le_bytes();
    assert_eq!(bytes.len(), 32);
    assert_eq!(&bytes[0..8], b"CHRIS,H,");
    assert_eq!(&bytes[16..24], b"CHRIS,H,");
}

#[test]
fn empty_batch_has_no_bytes() {
    assert!(Measurement::Temperature(vec![]).to_le_bytes().is_empty());
    assert_eq!(Measurement::from_le_bytes(&[]), None);
}

#[test]
fn wire_round_trip_recovers_the_batch() {
    let batches = vec![
        Measurement::Temperature(vec![(1, 21.25f32.to_bits()), (0xdead_beef, (-3.5f32).to_bits())]),
        Measurement::Humidity(vec![(0x40, 55.0f32.to_bits())]),
    ];
    for m in batches {
        assert_eq!(Measurement::from_le_bytes(&m.to_le_bytes()), Some(m.clone()));
    }
}

#[test]
fn decoder_refuses_mixed_or_broken_records() {
    let mut bytes = Measurement::Temperature(vec![(1, 2)]).to_le_bytes();
    bytes.extend(Measurement::Humidity(vec![(3, 4)]).to_le_bytes());
    assert_eq!(Measurement::from_le_bytes(&bytes), None);
    assert_eq!(Measurement::from_le_bytes(&bytes[..15]), None);
    assert_eq!(Measurement::from_le_bytes(&[0u8; 16]), None);
}

#[test]
fn fingerprint_is_crc32_of_the_serial_bytes() {
    let rom: u64 = 0x9a06_0504_0302_0142;
    let expected = crc32fast::hash(&[0x01, 0x02, 0x03, 0x04, 0x05, 0x06, 0x00, 0x00]);
    assert_eq!(fingerprint(rom), expected);
    assert_eq!(fingerprint(0x0000_0000_0000_0042), crc32fast::hash(&[0u8; 8]));
}

#[test]
fn fingerprint_ignores_family_and_check_bytes() {
    assert_eq!(fingerprint(0x1106_0504_0302_0142), fingerprint(0xff06_0504_0302_0128));
    assert_ne!(fingerprint(0x1106_0504_0302_0142), fingerprint(0x1106_0504_0302_0242));
}

#[test]
fn excluded_sensors_never_reach_a_batch() {
    let roms = [0x1106_0504_0302_0142u64, 0x2206_0504_0302_0242, 0x3306_0504_0302_0342];
    let readings: Vec<(u64, Temperature)> =
        roms.iter().map(|&r| (r, Temperature::from_bits(400))).collect();
    let excluded = fingerprint(roms[1]);
    let batch = fingerprint_batch(&readings, &[excluded]);
    assert_eq!(
        batch,
        vec![(fingerprint(roms[0]), Temperature::from_bits(400)), (fingerprint(roms[2]), Temperature::from_bits(400))]
    );
    assert!(fingerprint_batch(&readings, &[fingerprint(roms[0]), excluded, fingerprint(roms[2])]).is_empty());
}

#[test]
fn reboot_token_is_found_anywhere_in_the_input() {
    assert!(is_reboot_request(b"tmu_bootloader"));
    assert!(is_reboot_request(b"xx tmu_bootloader\r\n"));
    assert!(is_reboot_request(b"\xff\xfetmu_bootloader"));
    assert!(!is_reboot_request(b"tmu_bootloade"));
    assert!(!is_reboot_request(b""));
    assert!(contains_bytes(b"please tmu_bootloader now", b"tmu_bootloader"));
    assert!(contains_bytes(b"abc", b""));
    assert!(!contains_bytes(b"", b"a"));
}

#[test]
fn boot_config_switches_gadget() {
    let before = b"console=tty1 modules-load=dwc2,g_serial rootwait";
    let after = rewrite_boot_config(before);
    assert_eq!(after, b"console=tty1 modules-load=dwc2,g_ether rootwait".to_vec());
    assert_eq!(rewrite_boot_config(b"g_serialg_serial"), b"g_etherg_ether".to_vec());
    assert_eq!(rewrite_boot_config(b"nothing here"), b"nothing here".to_vec());
}

#[test]
fn exclusion_list_reads_hex_fingerprints() {
    assert_eq!(parse_exclusion_list(b""), (vec![], 0));
    assert_eq!(parse_exclusion_list(b"deadbeef"), (vec![0xdead_beef], 0));
    assert_eq!(parse_exclusion_list(b"0x1a2b, 0XFF ,  0x0000ffff"), (vec![0x1a2b, 0xffff], 1));
    assert_eq!(parse_exclusion_list(b"zz,100000000,+7,"), (vec![7], 3));
    assert_eq!(parse_exclusion_list(b" 0xABCDEF01\t"), (vec![0xabcd_ef01], 0));
}
