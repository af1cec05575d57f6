use gradecope::device::{DeviceOpt, match_devices, parse_device_opt};

#[test]
fn parses_a_full_specification() {
    let o = parse_device_opt("ttyUSB0:1-2.3").expect("well-formed spec");
    assert_eq!(o.serial, "/dev/ttyUSB0");
    assert_eq!(o.bus, 1);
    assert_eq!(o.ports, vec![2, 3]);
}

#[test]
fn parses_a_single_port() {
    let o = parse_device_opt("ttyACM1:3-7").expect("well-formed spec");
    assert_eq!(o.serial, "/dev/ttyACM1");
    assert_eq!(o.bus, 3);
    assert_eq!(o.ports, vec![7]);
}

#[test]
fn leading_zeros_are_plain_decimal() {
    let o = parse_device_opt("tty:01-002.010").expect("well-formed spec");
    assert_eq!(o.bus, 1);
    assert_eq!(o.ports, vec![2, 10]);
}

#[test]
fn malformed_specifications_are_refused() {
    assert!(parse_device_opt("").is_none());
    assert!(parse_device_opt("ttyUSB0").is_none());
    assert!(parse_device_opt("ttyUSB0:1").is_none());
    assert!(parse_device_opt("ttyUSB0:-2").is_none());
    assert!(parse_device_opt("ttyUSB0:1-").is_none());
    assert!(parse_device_opt("ttyUSB0:1-2..3").is_none());
    assert!(parse_device_opt("ttyUSB0:1-2.x").is_none());
    assert!(parse_device_opt("ttyUSB0:1-300").is_none());
    assert!(parse_device_opt("ttyUSB0:999-1").is_none());
}

#[test]
fn display_round_trips_the_parse() {
    let o = parse_device_opt("ttyUSB0:1-2.3").unwrap();
    assert_eq!(o.display(), "/dev/ttyUSB0:1-2.3");
    let single = parse_device_opt("s:250-255").unwrap();
    assert_eq!(single.display(), "/dev/s:250-255");
}

#[test]
fn matching_binds_each_position_once() {
    let opts = vec![
        parse_device_opt("ttyA:1-2.3").unwrap(),
        parse_device_opt("ttyB:1-4").unwrap(),
        parse_device_opt("ttyC:2-9").unwrap(),
    ];
    let found = vec![(1u8, vec![4u8]), (1u8, vec![2u8, 3u8]), (7u8, vec![7u8])];
    let (bound, unmatched) = match_devices(opts, &found);
    assert_eq!(bound.len(), 2);
    assert_eq!(bound[0].serial, "/dev/ttyB");
    assert_eq!(bound[0].bus, 1);
    assert_eq!(bound[0].ports, vec![4]);
    assert_eq!(bound[1].serial, "/dev/ttyA");
    assert_eq!(bound[1].ports, vec![2, 3]);
    assert_eq!(unmatched.len(), 1);
    assert_eq!(unmatched[0].serial, "/dev/ttyC");
}

#[test]
fn duplicate_positions_take_specs_in_order() {
    let opts = vec![
        DeviceOpt { serial: String::from("/dev/a"), bus: 1, ports: vec![5] },
        DeviceOpt { serial: String::from("/dev/b"), bus: 1, ports: vec![5] },
    ];
    let found = vec![(1u8, vec![5u8]), (1u8, vec![5u8])];
    let (bound, unmatched) = match_devices(opts, &found);
    assert_eq!(bound.len(), 2);
    assert_eq!(bound[0].serial, "/dev/a");
    assert_eq!(bound[1].serial, "/dev/b");
    assert!(unmatched.is_empty());
}
