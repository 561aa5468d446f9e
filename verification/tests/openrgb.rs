use frgb::model::{GroupId, Rgb};
use frgb::openrgb::{
    build_controller_data, encode_packet, fan_zones, handle_packet, parse_colors, parse_header,
    parse_zone_colors, per_led_assignments, write_orgb_string, ClientAction, ClientSession,
    DeviceCapabilities, HeaderError, OpenRgbCommand, PacketHeader, ZoneInfo, MAGIC,
    PKT_REQUEST_CONTROLLER_COUNT, PKT_REQUEST_PROTOCOL_VERSION, PKT_SET_CUSTOM_MODE, PKT_UPDATE_LEDS,
    SERVER_PROTOCOL_VERSION,
};

fn test_device() -> DeviceCapabilities {
    DeviceCapabilities {
        device_id: "AABBCCDDEEFF".into(),
        device_name: "Test Fan".into(),
        group_id: GroupId::new(1),
        zones: vec![ZoneInfo { name: "Fan 1".into(), led_count: 24 }],
        total_leds: 24,
    }
}

#[test]
fn packet_roundtrip() {
    let payload = 42u32.to_le_bytes();
    let buf = encode_packet(3, PKT_REQUEST_PROTOCOL_VERSION, &payload);
    assert_eq!(&buf[0..4], &MAGIC);
    let device_id = u32::from_le_bytes(buf[4..8].try_into().unwrap());
    let packet_id = u32::from_le_bytes(buf[8..12].try_into().unwrap());
    let size = u32::from_le_bytes(buf[12..16].try_into().unwrap());
    assert_eq!(device_id, 3);
    assert_eq!(packet_id, PKT_REQUEST_PROTOCOL_VERSION);
    assert_eq!(size, 4);
    let header = parse_header(&buf[0..16]).unwrap();
    assert_eq!(header, PacketHeader { device_id: 3, packet_id: PKT_REQUEST_PROTOCOL_VERSION, size: 4 });
}

#[test]
fn parse_colors_basic() {
    let mut payload = Vec::new();
    payload.extend_from_slice(&14u32.to_le_bytes());
    payload.extend_from_slice(&2u16.to_le_bytes());
    payload.extend_from_slice(&[255, 0, 0, 0]);
    payload.extend_from_slice(&[0, 255, 0, 0]);

    let colors = parse_colors(&payload);
    assert_eq!(colors.len(), 2);
    assert_eq!(colors[0], [255, 0, 0]);
    assert_eq!(colors[1], [0, 255, 0]);
}

#[test]
fn parse_colors_truncated() {
    let colors = parse_colors(&[0; 3]);
    assert!(colors.is_empty());
}

#[test]
fn parse_zone_colors_basic() {
    let mut payload = Vec::new();
    payload.extend_from_slice(&18u32.to_le_bytes());
    payload.extend_from_slice(&0u32.to_le_bytes());
    payload.extend_from_slice(&1u16.to_le_bytes());
    payload.extend_from_slice(&[0, 0, 255, 0]);

    let colors = parse_zone_colors(&payload);
    assert_eq!(colors.len(), 1);
    assert_eq!(colors[0], [0, 0, 255]);
}

#[test]
fn build_controller_data_not_empty() {
    let dev = test_device();
    let data = build_controller_data(&dev, 4, "0.1.0");
    assert!(data.len() > 100);
    let size = u32::from_le_bytes(data[0..4].try_into().unwrap()) as usize;
    assert_eq!(size, data.len() - 4);
}

#[test]
fn write_orgb_string_format() {
    let mut buf = Vec::new();
    write_orgb_string(&mut buf, "hi");
    assert_eq!(buf, &[3, 0, b'h', b'i', 0]);
}

#[test]
fn parse_colors_stops_at_missing_bytes() {
    // Announces three colours but carries one and a half.
    let mut payload = Vec::new();
    payload.extend_from_slice(&0u32.to_le_bytes());
    payload.extend_from_slice(&3u16.to_le_bytes());
    payload.extend_from_slice(&[1, 2, 3, 0, 4, 5]);
    let colors = parse_colors(&payload);
    assert_eq!(colors, vec![[1, 2, 3]]);
}

#[test]
fn header_bad_magic_refused() {
    let mut buf = encode_packet(0, PKT_REQUEST_CONTROLLER_COUNT, &[]);
    buf[0] = b'X';
    assert_eq!(parse_header(&buf[0..16]), Err(HeaderError::BadMagic));
}

#[test]
fn header_oversized_payload_refused() {
    let mut buf = encode_packet(0, PKT_UPDATE_LEDS, &[]);
    let big = 16 * 1024 * 1024 + 1u32;
    buf[12..16].copy_from_slice(&big.to_le_bytes());
    assert_eq!(parse_header(&buf[0..16]), Err(HeaderError::PayloadTooLarge(big)));
}

#[test]
fn protocol_request_negotiates_lower_version() {
    let caps = vec![test_device()];
    let mut session = ClientSession::new();
    assert_eq!(session.protocol_version, SERVER_PROTOCOL_VERSION);
    let header = PacketHeader { device_id: 0, packet_id: PKT_REQUEST_PROTOCOL_VERSION, size: 4 };
    let act = handle_packet(&caps, &mut session, header, &2u32.to_le_bytes(), "0.1.0");
    assert_eq!(session.protocol_version, 2);
    match act {
        ClientAction::Reply(bytes) => {
            assert_eq!(&bytes[0..4], &MAGIC);
            assert_eq!(u32::from_le_bytes(bytes[8..12].try_into().unwrap()), PKT_REQUEST_PROTOCOL_VERSION);
            assert_eq!(u32::from_le_bytes(bytes[16..20].try_into().unwrap()), 2);
        }
        other => panic!("expected a reply, got {:?}", other),
    }
    // A client newer than the server gets the server's version.
    let act = handle_packet(&caps, &mut session, header, &9u32.to_le_bytes(), "0.1.0");
    assert_eq!(session.protocol_version, SERVER_PROTOCOL_VERSION);
    assert!(matches!(act, ClientAction::Reply(_)));
}

#[test]
fn controller_count_reply() {
    let caps = vec![test_device(), test_device()];
    let mut session = ClientSession::new();
    let header = PacketHeader { device_id: 0, packet_id: PKT_REQUEST_CONTROLLER_COUNT, size: 0 };
    match handle_packet(&caps, &mut session, header, &[], "0.1.0") {
        ClientAction::Reply(bytes) => {
            assert_eq!(u32::from_le_bytes(bytes[16..20].try_into().unwrap()), 2);
        }
        other => panic!("expected a reply, got {:?}", other),
    }
}

#[test]
fn update_leds_forwards_command() {
    let caps = vec![test_device()];
    let mut session = ClientSession::new();
    let mut payload = Vec::new();
    payload.extend_from_slice(&10u32.to_le_bytes());
    payload.extend_from_slice(&1u16.to_le_bytes());
    payload.extend_from_slice(&[9, 8, 7, 0]);
    let header = PacketHeader { device_id: 0, packet_id: PKT_UPDATE_LEDS, size: payload.len() as u32 };
    let act = handle_packet(&caps, &mut session, header, &payload, "0.1.0");
    assert_eq!(
        act,
        ClientAction::Command(OpenRgbCommand::SetLeds { group_id: GroupId::new(1), colors: vec![[9, 8, 7]] })
    );
    // An unknown device index does nothing.
    let header = PacketHeader { device_id: 5, packet_id: PKT_UPDATE_LEDS, size: payload.len() as u32 };
    assert_eq!(handle_packet(&caps, &mut session, header, &payload, "0.1.0"), ClientAction::Nothing);
}

#[test]
fn custom_mode_and_unknown_packets() {
    let caps = vec![test_device()];
    let mut session = ClientSession::new();
    let header = PacketHeader { device_id: 0, packet_id: PKT_SET_CUSTOM_MODE, size: 0 };
    assert_eq!(handle_packet(&caps, &mut session, header, &[], "0.1.0"), ClientAction::Nothing);
    let header = PacketHeader { device_id: 0, packet_id: 7777, size: 0 };
    assert_eq!(handle_packet(&caps, &mut session, header, &[], "0.1.0"), ClientAction::Unknown(7777));
}

#[test]
fn per_led_split_over_fans() {
    let colors: Vec<[u8; 3]> = (0..10u8).map(|i| [i, i, i]).collect();
    // Three fans of 4 LEDs each: 1 inner, 3 outer.
    let a = per_led_assignments(&colors, 3, 4, 1, 3);
    assert_eq!(a.len(), 3);
    assert_eq!(a[0].inner, vec![Rgb { r: 0, g: 0, b: 0 }]);
    assert_eq!(a[0].outer, vec![Rgb { r: 1, g: 1, b: 1 }, Rgb { r: 2, g: 2, b: 2 }, Rgb { r: 3, g: 3, b: 3 }]);
    assert_eq!(a[1].inner, vec![Rgb { r: 4, g: 4, b: 4 }]);
    // Third fan only gets colours 8 and 9: inner takes one, outer cannot be filled.
    assert_eq!(a[2].inner, vec![Rgb { r: 8, g: 8, b: 8 }]);
    assert!(a[2].outer.is_empty());
}

#[test]
fn fan_zones_named_from_one() {
    let z = fan_zones(12, 24);
    assert_eq!(z.len(), 12);
    assert_eq!(z[0].name, "Fan 1");
    assert_eq!(z[11].name, "Fan 12");
    assert_eq!(z[5].led_count, 24);
}

#[test]
fn long_strings_keep_65533_bytes() {
    let mut buf = Vec::new();
    let s = "a".repeat(65534);
    write_orgb_string(&mut buf, &s);
    assert_eq!(&buf[0..2], &65534u16.to_le_bytes());
    assert_eq!(buf.len(), 2 + 65533 + 1);
    assert_eq!(buf[buf.len() - 1], 0);
}

#[test]
fn fan_zones_for_255_fans() {
    let z = fan_zones(255, 8);
    assert_eq!(z.len(), 255);
    assert_eq!(z[254].name, "Fan 255");
}
