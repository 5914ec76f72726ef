use rctpower_protocol::registry::{ObjectInfo, Registry};
use rctpower_protocol::writable::{
    bool_word, has_point, parse_int_value, read_value_text, value_check, value_of_int, TextValue, ValueCheck,
};
use rctpower_protocol::{DataType, DataValue};

#[test]
fn bool_words_ignore_ascii_case() {
    assert_eq!(bool_word("true"), Some(true));
    assert_eq!(bool_word("TRUE"), Some(true));
    assert_eq!(bool_word("tRuE"), Some(true));
    assert_eq!(bool_word("false"), Some(false));
    assert_eq!(bool_word("False"), Some(false));
    assert_eq!(bool_word(""), None);
    assert_eq!(bool_word("1"), None);
    assert_eq!(bool_word("truee"), None);
    assert_eq!(bool_word(" true"), None);
    assert_eq!(bool_word("trüe"), None);
    assert_eq!(bool_word("fals"), None);
}

#[test]
fn whole_numbers_take_the_parameter_type() {
    assert_eq!(value_of_int(DataType::Float, 700), DataValue::F32(700.0f32.to_bits()));
    assert_eq!(value_of_int(DataType::Float, -3), DataValue::F32((-3.0f32).to_bits()));
    assert_eq!(value_of_int(DataType::Enum, 4), DataValue::U8(4));
    assert_eq!(value_of_int(DataType::Uint8, 300), DataValue::U8(44));
    assert_eq!(value_of_int(DataType::Int8, -1), DataValue::I8(-1));
    assert_eq!(value_of_int(DataType::Uint16, 65537), DataValue::U16(1));
    assert_eq!(value_of_int(DataType::Int16, -2), DataValue::I16(-2));
    assert_eq!(value_of_int(DataType::Uint32, -1), DataValue::U32(u32::MAX));
    assert_eq!(value_of_int(DataType::Int32, -6000), DataValue::I32(-6000));
    assert_eq!(value_of_int(DataType::Bool, 1), DataValue::I32(1));
}

#[test]
fn decimal_text_is_read_as_whole_number() {
    assert_eq!(parse_int_value(DataType::Uint8, "4"), Some(DataValue::U8(4)));
    assert_eq!(parse_int_value(DataType::Int32, "-6000"), Some(DataValue::I32(-6000)));
    assert_eq!(parse_int_value(DataType::Int32, "+12"), Some(DataValue::I32(12)));
    assert_eq!(parse_int_value(DataType::Float, "007"), Some(DataValue::F32(7.0f32.to_bits())));
    assert_eq!(parse_int_value(DataType::Int32, ""), None);
    assert_eq!(parse_int_value(DataType::Int32, "-"), None);
    assert_eq!(parse_int_value(DataType::Int32, "1x"), None);
    assert_eq!(parse_int_value(DataType::Int32, " 1"), None);
    assert_eq!(parse_int_value(DataType::Int32, "9223372036854775808"), None);
    assert_eq!(
        parse_int_value(DataType::Uint32, "-9223372036854775808"),
        Some(DataValue::U32(0))
    );
}

#[test]
fn value_text_by_parameter_type() {
    assert!(matches!(read_value_text(DataType::Bool, "TRUE"), TextValue::Value(DataValue::Bool(true))));
    assert!(matches!(read_value_text(DataType::Bool, "1"), TextValue::Invalid));
    assert!(matches!(read_value_text(DataType::Bool, "0.5"), TextValue::Invalid));
    assert!(matches!(read_value_text(DataType::Float, "0.55"), TextValue::Fraction));
    assert!(matches!(read_value_text(DataType::Uint8, "x.y"), TextValue::Fraction));
    assert!(matches!(read_value_text(DataType::Float, "700"), TextValue::Value(DataValue::F32(b)) if b == 700.0f32.to_bits()));
    assert!(matches!(read_value_text(DataType::Int32, "-6000"), TextValue::Value(DataValue::I32(-6000))));
    assert!(matches!(read_value_text(DataType::Int32, "abc"), TextValue::Invalid));
    assert!(has_point("1.0"));
    assert!(!has_point("10"));
}

fn object(name: &str, t: DataType) -> ObjectInfo {
    ObjectInfo {
        object_id: 1,
        name: name.into(),
        request_data_type: t,
        response_data_type: t,
        enum_labels: Vec::new(),
    }
}

#[test]
fn value_checks_before_the_range() {
    let registry = Registry {
        objects: vec![object("power_mng.soc_strategy", DataType::Enum), object("power_mng.use_grid_power_enable", DataType::Bool)],
    };
    assert_eq!(value_check(&registry, "nope", false, &DataValue::U8(1)), ValueCheck::Reject);
    assert_eq!(value_check(&registry, "power_mng.soc_strategy", false, &DataValue::U8(4)), ValueCheck::Range);
    assert_eq!(value_check(&registry, "power_mng.soc_strategy", false, &DataValue::Str("4".into())), ValueCheck::Reject);
    assert_eq!(value_check(&registry, "power_mng.use_grid_power_enable", true, &DataValue::Bool(true)), ValueCheck::Accept);
    assert_eq!(value_check(&registry, "power_mng.use_grid_power_enable", true, &DataValue::U8(1)), ValueCheck::Reject);
}
