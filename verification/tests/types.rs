use rctpower_protocol::client::{ClientConfig, DEFAULT_PORT};
use rctpower_protocol::frame::{make_frame, ReceiveFrame};
use rctpower_protocol::proxy::{describe_frame, render_description, FrameDescription, Shown};
use rctpower_protocol::registry::{ObjectInfo, Registry};
use rctpower_protocol::types::{hex, str_eq};
use rctpower_protocol::{Command, DataType, DataValue, FrameType, ObjectGroup};

#[test]
fn command_bytes_roundtrip() {
    for c in [
        Command::Read,
        Command::Write,
        Command::LongWrite,
        Command::Response,
        Command::LongResponse,
        Command::ReadPeriodically,
        Command::Extension,
    ] {
        assert_eq!(Command::from_byte(c.byte()), Some(c));
        assert_eq!(Command::from_byte(c.byte() | Command::PLANT_BIT), Some(c));
        assert!(!Command::is_plant_byte(c.byte()));
        assert!(Command::is_plant_byte(c.byte() | 0x40));
    }
    assert_eq!(Command::from_byte(0x04), None);
    assert_eq!(Command::from_byte(0x00), None);
    assert!(Command::LongWrite.is_long() && Command::LongResponse.is_long());
    assert!(!Command::Write.is_long());
    assert!(Command::Write.is_write() && Command::LongWrite.is_write() && !Command::Read.is_write());
    assert!(Command::Response.is_response() && !Command::Write.is_response());
}

#[test]
fn object_groups() {
    assert_eq!(ObjectGroup::from_u8(0), Some(ObjectGroup::Rb485));
    assert_eq!(ObjectGroup::from_u8(36), Some(ObjectGroup::Partition));
    assert_eq!(ObjectGroup::from_u8(37), None);
    assert_eq!(ObjectGroup::from_string("BATTERY"), Some(ObjectGroup::Battery));
    assert_eq!(ObjectGroup::from_string("BATTERY_PLACEHOLDER"), Some(ObjectGroup::BatteryPlaceholder));
    assert_eq!(ObjectGroup::from_string("battery"), None);
    for v in 0..=36u8 {
        let g = ObjectGroup::from_u8(v).unwrap();
        assert_eq!(g.index(), v);
        assert_eq!(ObjectGroup::from_string(g.name()), Some(g));
    }
}

#[test]
fn data_type_names() {
    assert_eq!(DataType::from_str_name("FLOAT"), Some(DataType::Float));
    assert_eq!(DataType::from_str_name("EVENT_TABLE"), Some(DataType::EventTable));
    assert_eq!(DataType::from_str_name("float"), None);
    for t in [
        DataType::Unknown,
        DataType::Bool,
        DataType::Uint8,
        DataType::Int8,
        DataType::Uint16,
        DataType::Int16,
        DataType::Uint32,
        DataType::Int32,
        DataType::Enum,
        DataType::Float,
        DataType::String,
        DataType::Timeseries,
        DataType::EventTable,
        DataType::BatteryModuleStatus,
        DataType::BatteryModuleStatistics,
        DataType::BatteryModuleResistance,
    ] {
        assert_eq!(DataType::from_str_name(t.name()), Some(t));
    }
}

#[test]
fn frame_type_values() {
    assert_eq!(FrameType::Standard.value(), 4);
    assert_eq!(FrameType::Plant.value(), 8);
}

#[test]
fn hex_and_str_eq() {
    assert_eq!(hex(&[0x00, 0x0f, 0xa0, 0xff]), "000fa0ff");
    assert_eq!(hex(&[]), "");
    assert!(str_eq("grüße", "grüße"));
    assert!(!str_eq("abc", "abd"));
    assert!(!str_eq("abc", "ab"));
}

#[test]
fn default_client_config() {
    let c = ClientConfig::default();
    assert_eq!(c.port, DEFAULT_PORT);
    assert_eq!(c.port, 8899);
    assert_eq!(c.timeout, std::time::Duration::from_secs(5));
    assert_eq!(c.retries, 3);
    assert_eq!(c.retry_delay, std::time::Duration::from_secs(1));
}

fn sample_registry() -> Registry {
    Registry {
        objects: vec![
            ObjectInfo {
                object_id: 0x959930bf,
                name: "battery.soc".into(),
                request_data_type: DataType::Float,
                response_data_type: DataType::Float,
                enum_labels: vec![],
            },
            ObjectInfo {
                object_id: 0x1234,
                name: "power_mng.soc_strategy".into(),
                request_data_type: DataType::Enum,
                response_data_type: DataType::Enum,
                enum_labels: vec![(0, "SOC".into()), (2, "external".into()), (2, "shadowed".into())],
            },
        ],
    }
}

#[test]
fn registry_lookups() {
    let reg = sample_registry();
    assert_eq!(reg.get_by_name("battery.soc").unwrap().object_id, 0x959930bf);
    assert!(reg.get_by_name("battery").is_none());
    assert_eq!(reg.get_by_id(0x1234).unwrap().name, "power_mng.soc_strategy");
    assert!(reg.get_by_id(1).is_none());
    let o = reg.get_by_id(0x1234).unwrap();
    assert_eq!(o.enum_str(2), Some("external".to_string()));
    assert_eq!(o.enum_str(5), None);
}

fn parse(frame: &[u8]) -> ReceiveFrame {
    let mut rx = ReceiveFrame::new(false);
    rx.consume(frame).unwrap();
    rx
}

#[test]
fn describe_frames() {
    let reg = sample_registry();
    // float response of a known object
    let f = make_frame(Command::Response, 0x959930bf, &0.42f32.to_be_bytes(), 0, FrameType::Standard).unwrap();
    let rx = parse(&f);
    let d = describe_frame(&rx, reg.get_by_id(rx.id()));
    assert_eq!(d.command, Some(Command::Response));
    assert_eq!(d.name, "battery.soc");
    assert_eq!(d.id, 0x959930bf);
    assert!(matches!(d.shown, Some(Shown::Value(DataValue::F32(b))) if b == 0.42f32.to_bits()));
    // enum value with label
    let f = make_frame(Command::Response, 0x1234, &[0, 0, 0, 2], 0, FrameType::Standard).unwrap();
    let rx = parse(&f);
    let d = describe_frame(&rx, reg.get_by_id(rx.id()));
    match d.shown {
        Some(Shown::Enum { value, label }) => {
            assert_eq!(value, 2);
            assert_eq!(label, Some("external".to_string()));
        }
        _ => panic!("enum expected"),
    }
    // unknown object: hex payload
    let f = make_frame(Command::Response, 0x77, &[0xab, 0x01], 0, FrameType::Standard).unwrap();
    let rx = parse(&f);
    let d = describe_frame(&rx, reg.get_by_id(rx.id()));
    assert_eq!(d.name, "unknown");
    assert!(matches!(d.shown, Some(Shown::Hex(ref h)) if h == "ab01"));
    // known float object, payload too short: hex
    let f = make_frame(Command::Response, 0x959930bf, &[0x01], 0, FrameType::Standard).unwrap();
    let rx = parse(&f);
    let d = describe_frame(&rx, reg.get_by_id(rx.id()));
    assert!(matches!(d.shown, Some(Shown::Hex(ref h)) if h == "01"));
    // read request: no payload
    let f = make_frame(Command::Read, 0x959930bf, &[], 0, FrameType::Standard).unwrap();
    let rx = parse(&f);
    let d = describe_frame(&rx, reg.get_by_id(rx.id()));
    assert!(d.shown.is_none());
}

#[test]
fn description_text() {
    let reg = sample_registry();
    let f = make_frame(Command::Response, 0x1234, &[0, 0, 0, 2], 0, FrameType::Standard).unwrap();
    let d = describe_frame(&parse(&f), reg.get_by_id(0x1234));
    assert_eq!(render_description(&d, ""), "Response power_mng.soc_strategy (0x00001234) = 2 (external)");
    let f = make_frame(Command::Response, 0x1234, &[0, 0, 0x30, 0x39], 0, FrameType::Standard).unwrap();
    let d = describe_frame(&parse(&f), reg.get_by_id(0x1234));
    assert_eq!(render_description(&d, ""), "Response power_mng.soc_strategy (0x00001234) = 12345");
    let f = make_frame(Command::LongWrite, 0xABCDEF01, &[0xab, 0x01], 0, FrameType::Standard).unwrap();
    let d = describe_frame(&parse(&f), reg.get_by_id(0xABCDEF01));
    assert_eq!(render_description(&d, "ignored"), "LongWrite unknown (0xABCDEF01) = ab01");
    let f = make_frame(Command::Read, 0x959930bf, &[], 0, FrameType::Standard).unwrap();
    let d = describe_frame(&parse(&f), reg.get_by_id(0x959930bf));
    assert_eq!(render_description(&d, ""), "Read battery.soc (0x959930BF)");
    let f = make_frame(Command::Response, 0x959930bf, &0.5f32.to_be_bytes(), 0, FrameType::Standard).unwrap();
    let d = describe_frame(&parse(&f), reg.get_by_id(0x959930bf));
    assert_eq!(render_description(&d, "F32(0.5)"), "Response battery.soc (0x959930BF) = F32(0.5)");
    let d = FrameDescription { command: None, name: "x".into(), id: 0, shown: Some(Shown::Enum { value: 0, label: None }) };
    assert_eq!(render_description(&d, ""), "? x (0x00000000) = 0");
    let d = FrameDescription {
        command: Some(Command::ReadPeriodically),
        name: "y".into(),
        id: u32::MAX,
        shown: Some(Shown::Enum { value: u32::MAX, label: Some("max".into()) }),
    };
    assert_eq!(render_description(&d, ""), "ReadPeriodically y (0xFFFFFFFF) = 4294967295 (max)");
}
