use rctpower_protocol::codec::{crc16, decode_value, encode_for, encode_value, response_value};
use rctpower_protocol::{DataType, DataValue, RctError};

#[test]
fn crc16_even_input() {
    // frame without start token
    assert_eq!(crc16(&[0x02, 0x04, 0x00, 0x00, 0xc0, 0xde]), 0x30b1);
}

#[test]
fn crc16_odd_input_pads_zero() {
    // quirk: odd input is padded with a zero byte
    assert_eq!(crc16(&[0x02]), crc16(&[0x02, 0x00]));
}

// Known decoding vectors
#[test]
fn decode_bool_python_vectors() {
    for (input, expected) in [([0x00], false), ([0x01], true), ([0x02], true), ([0xff], true)] {
        assert_eq!(decode_value(DataType::Bool, &input).unwrap(), DataValue::Bool(expected));
    }
}

#[test]
fn decode_uint8_python_vectors() {
    for (input, expected) in [([0x00], 0u8), ([0x01], 1), ([0x02], 2), ([0xff], 255)] {
        assert_eq!(decode_value(DataType::Uint8, &input).unwrap(), DataValue::U8(expected));
    }
}

#[test]
fn decode_string_null_terminated() {
    let mut data = b"PS 6.0 BA3L".to_vec();
    data.extend(std::iter::repeat(0u8).take(40));
    assert_eq!(decode_value(DataType::String, &data).unwrap(), DataValue::Str("PS 6.0 BA3L".into()));
}

#[test]
fn decode_string_no_null() {
    let data = b"PS 6.0 BA3L";
    assert_eq!(decode_value(DataType::String, data).unwrap(), DataValue::Str("PS 6.0 BA3L".into()));
}

#[test]
fn encode_decode_roundtrip_float() {
    let enc = encode_for(DataType::Float, &DataValue::F32(0.5f32.to_bits())).unwrap();
    assert_eq!(enc.len(), 4);
    assert_eq!(decode_value(DataType::Float, &enc).unwrap(), DataValue::F32(0.5f32.to_bits()));
}

// --- further scenarios ---

#[test]
fn crc16_of_empty_input() {
    assert_eq!(crc16(&[]), 0xFFFF);
}

#[test]
fn decode_signed_and_wide_values() {
    assert_eq!(decode_value(DataType::Int8, &[0xff]).unwrap(), DataValue::I8(-1));
    assert_eq!(decode_value(DataType::Uint16, &[0x12, 0x34]).unwrap(), DataValue::U16(0x1234));
    assert_eq!(decode_value(DataType::Int16, &[0x80, 0x00]).unwrap(), DataValue::I16(-32768));
    assert_eq!(decode_value(DataType::Uint32, &[1, 2, 3, 4]).unwrap(), DataValue::U32(0x01020304));
    assert_eq!(decode_value(DataType::Enum, &[0, 0, 0, 7]).unwrap(), DataValue::U32(7));
    assert_eq!(decode_value(DataType::Int32, &[0xff, 0xff, 0xff, 0xfe]).unwrap(), DataValue::I32(-2));
    assert_eq!(
        decode_value(DataType::Float, &0.42f32.to_be_bytes()).unwrap(),
        DataValue::F32(0.42f32.to_bits())
    );
}

#[test]
fn decode_composite_is_raw() {
    assert_eq!(decode_value(DataType::Timeseries, &[1, 2]).unwrap(), DataValue::Raw(vec![1, 2]));
    assert_eq!(decode_value(DataType::Unknown, &[]).unwrap(), DataValue::Raw(vec![]));
}

#[test]
fn decode_payload_too_short() {
    match decode_value(DataType::Uint32, &[1, 2]) {
        Err(RctError::PayloadTooShort { ty, len, need }) => {
            assert_eq!(ty, "UINT32");
            assert_eq!(len, 2);
            assert_eq!(need, 4);
        }
        other => panic!("unexpected {other:?}"),
    }
    assert!(matches!(decode_value(DataType::String, &[]), Err(RctError::PayloadTooShort { need: 1, .. })));
}

#[test]
fn decode_invalid_utf8_is_replaced() {
    assert_eq!(
        decode_value(DataType::String, &[0x41, 0xff, 0x42]).unwrap(),
        DataValue::Str("A\u{fffd}B".into())
    );
}

#[test]
fn encode_values_big_endian() {
    assert_eq!(encode_value(&DataValue::Bool(true)), vec![1]);
    assert_eq!(encode_value(&DataValue::I8(-2)), vec![0xfe]);
    assert_eq!(encode_value(&DataValue::U16(0xbeef)), vec![0xbe, 0xef]);
    assert_eq!(encode_value(&DataValue::I16(-1)), vec![0xff, 0xff]);
    assert_eq!(encode_value(&DataValue::U32(0x01020304)), vec![1, 2, 3, 4]);
    assert_eq!(encode_value(&DataValue::I32(-256)), vec![0xff, 0xff, 0xff, 0x00]);
    assert_eq!(encode_value(&DataValue::F32(1.0f32.to_bits())), 1.0f32.to_be_bytes().to_vec());
    assert_eq!(encode_value(&DataValue::Str("Aé".into())), vec![0x41, 0xc3, 0xa9]);
    assert_eq!(encode_value(&DataValue::Raw(vec![9, 8])), vec![9, 8]);
}

#[test]
fn encode_for_normalizes() {
    assert_eq!(encode_for(DataType::Bool, &DataValue::U8(5)).unwrap(), vec![1]);
    assert_eq!(encode_for(DataType::Bool, &DataValue::I8(0)).unwrap(), vec![0]);
    assert_eq!(encode_for(DataType::Uint8, &DataValue::U32(0x1ff)).unwrap(), vec![0xff]);
    assert_eq!(encode_for(DataType::Enum, &DataValue::U32(2)).unwrap(), vec![2]);
    assert_eq!(encode_for(DataType::Int16, &DataValue::I32(-2)).unwrap(), vec![0xff, 0xfe]);
    assert_eq!(encode_for(DataType::Uint32, &DataValue::Bool(true)).unwrap(), vec![0, 0, 0, 1]);
    assert_eq!(encode_for(DataType::String, &DataValue::Str("x".into())).unwrap(), vec![b'x']);
}

#[test]
fn encode_for_float_conversions_match_casts() {
    let ints: [i64; 12] = [
        0,
        1,
        -1,
        6000,
        -6000,
        16_777_217,
        16_777_219,
        i32::MAX as i64,
        i32::MIN as i64,
        u32::MAX as i64,
        123_456_789,
        -33_554_435,
    ];
    for &i in ints.iter() {
        let v = if i >= i32::MIN as i64 && i <= i32::MAX as i64 {
            DataValue::I32(i as i32)
        } else {
            DataValue::U32(i as u32)
        };
        let expected = (i as f32).to_be_bytes().to_vec();
        assert_eq!(encode_for(DataType::Float, &v).unwrap(), expected, "int {i}");
    }
    let floats: [f32; 10] = [0.0, -0.0, 0.75, -0.75, 2.5, -7.9, 1.0e10, -1.0e30, f32::INFINITY, f32::NAN];
    for &f in floats.iter() {
        let i = f as i64;
        assert_eq!(
            encode_for(DataType::Int32, &DataValue::F32(f.to_bits())).unwrap(),
            (i as i32).to_be_bytes().to_vec(),
            "float {f}"
        );
        assert_eq!(
            encode_for(DataType::Uint16, &DataValue::F32(f.to_bits())).unwrap(),
            (i as u16).to_be_bytes().to_vec(),
            "float {f}"
        );
    }
}

#[test]
fn encode_for_errors() {
    match encode_for(DataType::Bool, &DataValue::U16(1)) {
        Err(RctError::InvalidValue { name, value }) => {
            assert_eq!(name, "");
            assert_eq!(value, DataValue::U16(1));
        }
        other => panic!("unexpected {other:?}"),
    }
    assert!(matches!(encode_for(DataType::Uint8, &DataValue::Str("1".into())), Err(RctError::InvalidValue { .. })));
    assert!(matches!(encode_for(DataType::String, &DataValue::U8(1)), Err(RctError::InvalidValue { .. })));
    match encode_for(DataType::Timeseries, &DataValue::Raw(vec![1])) {
        Err(RctError::UnknownDataType(name)) => assert_eq!(name, "TIMESERIES"),
        other => panic!("unexpected {other:?}"),
    }
}

#[test]
fn value_roundtrip_per_type() {
    let cases = [
        (DataType::Bool, DataValue::Bool(false)),
        (DataType::Uint8, DataValue::U8(200)),
        (DataType::Int8, DataValue::I8(-100)),
        (DataType::Uint16, DataValue::U16(40000)),
        (DataType::Int16, DataValue::I16(-30000)),
        (DataType::Uint32, DataValue::U32(4_000_000_000)),
        (DataType::Int32, DataValue::I32(-2_000_000_000)),
        (DataType::Float, DataValue::F32((-0.42f32).to_bits())),
        (DataType::String, DataValue::Str("grüße".into())),
    ];
    for (t, v) in cases {
        let enc = encode_for(t, &v).unwrap();
        assert_eq!(decode_value(t, &enc).unwrap(), v);
    }
}

#[test]
fn response_value_refuses_empty_payload() {
    assert!(matches!(response_value(DataType::Uint8, &[]), Err(RctError::EmptyPayload)));
    assert!(matches!(response_value(DataType::Timeseries, &[]), Err(RctError::EmptyPayload)));
    assert_eq!(response_value(DataType::Uint16, &[0x01, 0x02]).unwrap(), DataValue::U16(0x0102));
    assert!(matches!(
        response_value(DataType::Uint32, &[1]),
        Err(RctError::PayloadTooShort { len: 1, need: 4, .. })
    ));
}
