use mavkit::link::AddressError;
use mavkit::link::BluetoothDevice;
use mavkit::link::LinkAddress;
use mavkit::link::add_discovered;
use mavkit::link::available_transports;
use mavkit::link::chunk_to_mtu;
use mavkit::link::parse_address;

#[test]
fn udp_addresses_parse() {
    match parse_address("udpin:0.0.0.0:14550") {
        Ok(LinkAddress::Udp { bind }) => assert_eq!(bind, "0.0.0.0:14550"),
        other => panic!("expected a UDP address, got {:?}", other),
    }
}

#[test]
fn serial_addresses_parse_path_and_baud() {
    match parse_address("serial:/dev/ttyUSB0:57600") {
        Ok(LinkAddress::Serial { path, baud }) => {
            assert_eq!(path, "/dev/ttyUSB0");
            assert_eq!(baud, 57600);
        },
        other => panic!("expected a serial address, got {:?}", other),
    }
}

#[test]
fn unknown_schemes_are_rejected() {
    assert!(matches!(parse_address("tcp:host:5760"), Err(AddressError::UnknownScheme)));
    assert!(matches!(parse_address(""), Err(AddressError::UnknownScheme)));
    assert!(matches!(parse_address("udp:1.2.3.4:1"), Err(AddressError::UnknownScheme)));
}

#[test]
fn serial_without_baud_is_rejected() {
    assert!(matches!(parse_address("serial:COM3"), Err(AddressError::MissingBaud)));
}

#[test]
fn bad_baud_fields_are_rejected() {
    assert!(matches!(parse_address("serial:COM3:"), Err(AddressError::InvalidBaud)));
    assert!(matches!(parse_address("serial:COM3:96k0"), Err(AddressError::InvalidBaud)));
    assert!(matches!(
        parse_address("serial:COM3:99999999999"),
        Err(AddressError::InvalidBaud)
    ));
}

#[test]
fn mtu_chunking_fragments_without_loss() {
    let data: Vec<u8> = (0u8..45).collect();
    let chunks = chunk_to_mtu(&data, 20);
    assert_eq!(chunks.len(), 3);
    assert_eq!(chunks[0].len(), 20);
    assert_eq!(chunks[1].len(), 20);
    assert_eq!(chunks[2].len(), 5);
    let mut joined: Vec<u8> = Vec::new();
    for c in &chunks {
        joined.extend_from_slice(c);
    }
    assert_eq!(joined, data);
}

#[test]
fn mtu_chunking_of_small_units_is_one_fragment() {
    let data: Vec<u8> = vec![1, 2, 3];
    let chunks = chunk_to_mtu(&data, 20);
    assert_eq!(chunks.len(), 1);
    assert_eq!(chunks[0], data);
    assert!(chunk_to_mtu(&Vec::new(), 20).is_empty());
}

#[test]
fn discovery_merging_deduplicates_by_address() {
    let mut devices: Vec<BluetoothDevice> = Vec::new();
    add_discovered(&mut devices, "Pixhawk".to_string(), "AA:BB".to_string(), "ble".to_string());
    add_discovered(&mut devices, "Renamed".to_string(), "AA:BB".to_string(), "ble".to_string());
    assert_eq!(devices.len(), 1);
    assert_eq!(devices[0].name, "Pixhawk");

    // A nameless device is listed under its address.
    add_discovered(&mut devices, String::new(), "CC:DD".to_string(), "classic".to_string());
    assert_eq!(devices.len(), 2);
    assert_eq!(devices[1].name, "CC:DD");
    assert_eq!(devices[1].device_type, "classic");
}

#[test]
fn transports_cover_every_link_kind() {
    let t = available_transports();
    assert_eq!(t, vec!["udp", "serial", "bluetooth_ble", "bluetooth_spp"]);
}
