//! CRC16 (CCITT) and value encoding/decoding.

use vstd::prelude::*;
use vstd::slice::slice_to_vec;
use vstd::utf8::{decode_utf8, encode_utf8, valid_utf8};

use crate::error::RctError;
use crate::float_bits::{f32_bits_to_i64, f32_bits_to_i64_exec, i64_to_f32_bits, i64_to_f32_bits_exec};
use vstd::string::StringExecFns;
use crate::types::{data_type_name, DataType, DataValue, ValueModel};

verus! {

/// One bit step of the CRC register: shift left, reduce by the polynomial
/// 0x1021 when a bit leaves the low 16 bits.
pub open spec fn crc_shift(c: u32) -> u32 {
    let s = c << 1u32;
    if s & 0x7FFF_0000u32 != 0 {
        (s & 0xFFFFu32) ^ 0x1021u32
    } else {
        s
    }
}

pub open spec fn crc_shifts(c: u32, n: nat) -> u32
    decreases n,
{
    if n == 0 {
        c
    } else {
        crc_shift(crc_shifts(c, (n - 1) as nat))
    }
}

/// The CRC register after one more byte.
pub open spec fn crc_update(c: u32, b: u8) -> u32 {
    crc_shifts(c ^ ((b as u32) << 8u32), 8)
}

/// The CRC register after all bytes of `s`, starting from 0xFFFF.
pub open spec fn crc_fold(s: Seq<u8>) -> u32
    decreases s.len(),
{
    if s.len() == 0 {
        0xFFFFu32
    } else {
        crc_update(crc_fold(s.drop_last()), s.last())
    }
}

/// Odd-length input gets a zero byte appended before calculation.
pub open spec fn crc_input(s: Seq<u8>) -> Seq<u8> {
    if s.len() % 2 == 1 {
        s.push(0u8)
    } else {
        s
    }
}

/// CRC16 CCITT (polynomial 0x1021, initial 0xFFFF) of `s`, zero-padded to
/// even length.
pub open spec fn crc16_of(s: Seq<u8>) -> u16 {
    crc_fold(crc_input(s)) as u16
}

fn crc_step(c: u32, byte: u8) -> (r: u32)
    ensures
        r == crc_update(c, byte),
{
    let polynom: u32 = 0x1021;
    let start: u32 = c ^ ((byte as u32) << 8u32);
    let mut crcsum: u32 = start;
    let mut k: u32 = 0;
    while k < 8
        invariant
            k <= 8,
            polynom == 0x1021u32,
            crcsum == crc_shifts(start, k as nat),
        decreases 8 - k,
    {
        crcsum = crcsum << 1u32;
        if crcsum & 0x7FFF_0000u32 != 0 {
            crcsum = (crcsum & 0x0000_FFFFu32) ^ polynom;
        }
        k = k + 1;
    }
    crcsum
}

/// CRC16 CCITT (polynomial 0x1021, initial 0xFFFF), including the quirk
/// that an odd-length input gets a zero byte appended before calculation.
pub fn crc16(data: &[u8]) -> (r: u16)
    ensures
        r == crc16_of(data@),
{
    let mut crcsum: u32 = 0xFFFF;
    let n = data.len();
    let even_pad = n & 0x01 == 1;
    assert((n & 0x01 == 1) == (n % 2 == 1)) by (bit_vector);
    let mut i: usize = 0;
    while i < n
        invariant
            n == data@.len(),
            i <= n,
            crcsum == crc_fold(data@.take(i as int)),
        decreases n - i,
    {
        assert(data@.take(i + 1).drop_last() =~= data@.take(i as int));
        crcsum = crc_step(crcsum, data[i]);
        i = i + 1;
    }
    assert(data@.take(n as int) =~= data@);
    if even_pad {
        assert(data@.push(0u8).drop_last() =~= data@);
        crcsum = crc_step(crcsum, 0);
    }
    crcsum as u16
}

/// Odd-length input is padded with a zero byte: its CRC equals that of the
/// input with a zero byte appended.
pub proof fn lemma_crc16_odd_pads_zero(s: Seq<u8>)
    requires
        s.len() % 2 == 1,
    ensures
        crc16_of(s) == crc16_of(s.push(0u8)),
{
}

/// The CRC register stays within 16 bits.
proof fn lemma_crc_shifts_bound(c: u32, n: nat)
    requires
        c <= 0xFFFF,
    ensures
        crc_shifts(c, n) <= 0xFFFF,
    decreases n,
{
    if n > 0 {
        lemma_crc_shifts_bound(c, (n - 1) as nat);
        let x = crc_shifts(c, (n - 1) as nat);
        assert(crc_shift(x) <= 0xFFFF) by (bit_vector)
            requires
                x <= 0xFFFF,
        ;
    }
}

proof fn lemma_crc_fold_bound(s: Seq<u8>)
    ensures
        crc_fold(s) <= 0xFFFF,
    decreases s.len(),
{
    if s.len() > 0 {
        lemma_crc_fold_bound(s.drop_last());
        let c = crc_fold(s.drop_last());
        let b = s.last();
        assert(c ^ ((b as u32) << 8u32) <= 0xFFFF) by (bit_vector)
            requires
                c <= 0xFFFF,
        ;
        lemma_crc_shifts_bound(c ^ ((b as u32) << 8u32), 8);
    }
}

/// A byte value in the register only moves up: no reduction happens within
/// eight shifts.
proof fn lemma_crc_shifts_small(v: u32, k: nat)
    requires
        v < 256,
        k <= 8,
    ensures
        crc_shifts(v, k) == v << (k as u32),
    decreases k,
{
    if k == 0 {
        assert(v << 0u32 == v) by (bit_vector);
    } else {
        lemma_crc_shifts_small(v, (k - 1) as nat);
        let j = (k - 1) as u32;
        let j1 = k as u32;
        assert(((v << j) << 1u32) & 0x7FFF_0000u32 == 0 && (v << j) << 1u32 == v << j1)
            by (bit_vector)
            requires
                v < 256,
                j < 8,
                j1 == j + 1,
        ;
    }
}

/// Appending the big-endian CRC of even-length data leaves a zero CRC: the
/// receiver's check over data and checksum together comes out zero.
pub proof fn lemma_crc16_zero_residue(data: Seq<u8>)
    requires
        data.len() % 2 == 0,
    ensures
        crc16_of(data + be_u16(crc16_of(data))) == 0,
{
    let c = crc_fold(data);
    lemma_crc_fold_bound(data);
    assert(crc_input(data) == data);
    let v = crc16_of(data);
    assert(v == c);
    let hi = (v / 256) as u8;
    let lo = (v % 256) as u8;
    let t = data + be_u16(v);
    assert(crc_input(t) == t);
    assert(t.drop_last().drop_last() =~= data);
    assert(t.drop_last().last() == hi);
    assert(t.last() == lo);
    assert(c ^ ((hi as u32) << 8u32) == lo as u32) by (bit_vector)
        requires
            c <= 0xFFFF,
            hi == (c / 256) as u8,
            lo == (c % 256) as u8,
    ;
    lemma_crc_shifts_small(lo as u32, 8);
    let r = (lo as u32) << 8u32;
    assert(r ^ ((lo as u32) << 8u32) == 0) by (bit_vector)
        requires
            r == (lo as u32) << 8u32,
    ;
    lemma_crc_shifts_small(0, 8);
    assert(0u32 << 8u32 == 0) by (bit_vector);
    assert(crc_fold(t.drop_last()) == r);
    assert(crc_fold(t) == 0);
}

/// Big-endian bytes of a 16-bit value.
pub open spec fn be_u16(v: u16) -> Seq<u8> {
    seq![(v / 256) as u8, (v % 256) as u8]
}

/// Big-endian bytes of a 32-bit value.
pub open spec fn be_u32(v: u32) -> Seq<u8> {
    seq![
        (v / 0x100_0000) as u8,
        ((v / 0x1_0000) % 256) as u8,
        ((v / 256) % 256) as u8,
        (v % 256) as u8,
    ]
}

pub(crate) fn push_be_u16(buf: &mut Vec<u8>, v: u16)
    ensures
        final(buf)@ == old(buf)@ + be_u16(v),
{
    let hi = (v >> 8u16) as u8;
    let lo = (v & 0xFFu16) as u8;
    assert(hi == (v / 256) as u8 && lo == (v % 256) as u8) by (bit_vector)
        requires
            hi == (v >> 8u16) as u8,
            lo == (v & 0xFFu16) as u8,
    ;
    buf.push(hi);
    buf.push(lo);
    assert(final(buf)@ =~= old(buf)@ + be_u16(v));
}

pub(crate) fn push_be_u32(buf: &mut Vec<u8>, v: u32)
    ensures
        final(buf)@ == old(buf)@ + be_u32(v),
{
    let b0 = (v >> 24u32) as u8;
    let b1 = ((v >> 16u32) & 0xFFu32) as u8;
    let b2 = ((v >> 8u32) & 0xFFu32) as u8;
    let b3 = (v & 0xFFu32) as u8;
    assert(b0 == (v / 0x100_0000) as u8 && b1 == ((v / 0x1_0000) % 256) as u8 && b2 == ((v / 256)
        % 256) as u8 && b3 == (v % 256) as u8) by (bit_vector)
        requires
            b0 == (v >> 24u32) as u8,
            b1 == ((v >> 16u32) & 0xFFu32) as u8,
            b2 == ((v >> 8u32) & 0xFFu32) as u8,
            b3 == (v & 0xFFu32) as u8,
    ;
    buf.push(b0);
    buf.push(b1);
    buf.push(b2);
    buf.push(b3);
    assert(final(buf)@ =~= old(buf)@ + be_u32(v));
}

pub(crate) fn push_slice(buf: &mut Vec<u8>, s: &[u8])
    ensures
        final(buf)@ == old(buf)@ + s@,
{
    let mut i: usize = 0;
    while i < s.len()
        invariant
            i <= s@.len(),
            buf@ == old(buf)@ + s@.take(i as int),
        decreases s@.len() - i,
    {
        buf.push(s[i]);
        assert(s@.take(i + 1) =~= s@.take(i as int).push(s@[i as int]));
        i = i + 1;
    }
    assert(s@.take(s@.len() as int) =~= s@);
}

/// 16-bit value of two big-endian bytes.
pub open spec fn u16_of(a: u8, b: u8) -> u16 {
    (a * 256 + b) as u16
}

/// 32-bit value of four big-endian bytes of `s` starting at `k`.
pub open spec fn u32_at(s: Seq<u8>, k: int) -> u32 {
    (((s[k] * 256 + s[k + 1]) * 256 + s[k + 2]) * 256 + s[k + 3]) as u32
}

pub(crate) fn be16(a: u8, b: u8) -> (r: u16)
    ensures
        r == u16_of(a, b),
{
    let r = ((a as u16) << 8u16) | (b as u16);
    assert(r == (a * 256 + b) as u16) by (bit_vector)
        requires
            r == ((a as u16) << 8u16) | (b as u16),
    ;
    r
}

pub(crate) fn be32(s: &[u8], k: usize) -> (r: u32)
    requires
        k <= 8,
        k + 4 <= s@.len(),
    ensures
        r == u32_at(s@, k as int),
{
    let a = s[k];
    let b = s[k + 1];
    let c = s[k + 2];
    let d = s[k + 3];
    let r = ((a as u32) << 24u32) | ((b as u32) << 16u32) | ((c as u32) << 8u32) | (d as u32);
    assert(r == (((a * 256 + b) * 256 + c) * 256 + d) as u32) by (bit_vector)
        requires
            r == ((a as u32) << 24u32) | ((b as u32) << 16u32) | ((c as u32) << 8u32) | (d as u32),
    ;
    r
}

/// Wire bytes (big-endian) of a value.
pub open spec fn encode_model(v: ValueModel) -> Seq<u8> {
    match v {
        ValueModel::Bool(b) => seq![if b { 1u8 } else { 0u8 }],
        ValueModel::U8(x) => seq![x],
        ValueModel::I8(x) => seq![x as u8],
        ValueModel::U16(x) => be_u16(x),
        ValueModel::I16(x) => be_u16(x as u16),
        ValueModel::U32(x) => be_u32(x),
        ValueModel::I32(x) => be_u32(x as u32),
        ValueModel::F32(bits) => be_u32(bits),
        ValueModel::Str(s) => encode_utf8(s),
        ValueModel::Raw(b) => b,
    }
}

/// Encode a value into wire bytes (big-endian).
pub fn encode_value(value: &DataValue) -> (r: Vec<u8>)
    ensures
        r@ == encode_model(value@),
{
    let mut out: Vec<u8> = Vec::new();
    match value {
        DataValue::Bool(b) => {
            out.push(if *b { 1u8 } else { 0u8 });
        },
        DataValue::U8(v) => {
            out.push(*v);
        },
        DataValue::I8(v) => {
            out.push(*v as u8);
        },
        DataValue::U16(v) => {
            push_be_u16(&mut out, *v);
        },
        DataValue::I16(v) => {
            push_be_u16(&mut out, *v as u16);
        },
        DataValue::U32(v) => {
            push_be_u32(&mut out, *v);
        },
        DataValue::I32(v) => {
            push_be_u32(&mut out, *v as u32);
        },
        DataValue::F32(v) => {
            push_be_u32(&mut out, *v);
        },
        DataValue::Str(s) => {
            out = slice_to_vec(s.as_str().as_bytes());
        },
        DataValue::Raw(b) => {
            out = b.clone();
            assert(out@ =~= b@);
        },
    }
    assert(out@ =~= encode_model(value@));
    out
}

/// Bytes a payload of the data type needs at least; none for the types
/// that are handed back raw.
pub open spec fn decode_need(t: DataType) -> Option<nat> {
    match t {
        DataType::Bool | DataType::Uint8 | DataType::Int8 => Some(1),
        DataType::Uint16 | DataType::Int16 => Some(2),
        DataType::Enum | DataType::Uint32 | DataType::Int32 | DataType::Float => Some(4),
        DataType::String => Some(1),
        _ => None,
    }
}

/// Length of the text before the first NUL byte (all of it if none).
pub open spec fn text_len(d: Seq<u8>) -> nat
    decreases d.len(),
{
    if d.len() == 0 || d[0] == 0 {
        0
    } else {
        1 + text_len(d.drop_first())
    }
}

/// Name for the characters that `String::from_utf8_lossy` makes of bytes:
/// invalid sequences become U+FFFD.
pub uninterp spec fn utf8_lossy(b: Seq<u8>) -> Seq<char>;

/// The text of bytes, read as UTF-8 with invalid sequences replaced
/// (`String::from_utf8_lossy`, then owned). Its result is `utf8_lossy` of
/// the bytes; for valid UTF-8 it is the decoded text, as the documentation
/// of `from_utf8_lossy` says. What it makes of invalid bytes is not stated
/// beyond the name.
#[verifier::external_body]
fn string_from_utf8_lossy(b: &[u8]) -> (r: String)
    ensures
        r@ == utf8_lossy(b@),
        valid_utf8(b@) ==> r@ == decode_utf8(b@),
{
    String::from_utf8_lossy(b).into_owned()
}

/// The value that a payload (long enough) decodes to.
pub open spec fn decode_model(t: DataType, d: Seq<u8>) -> ValueModel {
    match t {
        DataType::Bool => ValueModel::Bool(d[0] != 0),
        DataType::Uint8 => ValueModel::U8(d[0]),
        DataType::Int8 => ValueModel::I8(d[0] as i8),
        DataType::Uint16 => ValueModel::U16(u16_of(d[0], d[1])),
        DataType::Int16 => ValueModel::I16(u16_of(d[0], d[1]) as i16),
        DataType::Enum | DataType::Uint32 => ValueModel::U32(u32_at(d, 0)),
        DataType::Int32 => ValueModel::I32(u32_at(d, 0) as i32),
        DataType::Float => ValueModel::F32(u32_at(d, 0)),
        DataType::String => {
            let text = d.take(text_len(d) as int);
            if valid_utf8(text) {
                ValueModel::Str(decode_utf8(text))
            } else {
                ValueModel::Str(utf8_lossy(text))
            }
        },
        _ => ValueModel::Raw(d),
    }
}

/// What decoding `data` as `data_type` gives: composite types come back
/// raw; a payload shorter than the type needs is refused; otherwise the
/// decoded value.
pub open spec fn decodes_to(data_type: DataType, data: Seq<u8>, r: Result<DataValue, RctError>) -> bool {
    match decode_need(data_type) {
        None => r matches Ok(v) && v@ == ValueModel::Raw(data),
        Some(n) => if data.len() < n {
            r matches Err(e) && e matches RctError::PayloadTooShort { ty, len, need } && ty@
                == data_type_name(data_type) && len == data.len() && need == n
        } else {
            r matches Ok(v) && v@ == decode_model(data_type, data)
        },
    }
}

/// Decode a payload per data type (native types only; composite types are
/// returned raw).
pub fn decode_value(data_type: DataType, data: &[u8]) -> (r: Result<DataValue, RctError>)
    ensures
        decodes_to(data_type, data@, r),
{
    let need: usize = match data_type {
        DataType::Bool | DataType::Uint8 | DataType::Int8 => 1,
        DataType::Uint16 | DataType::Int16 => 2,
        DataType::Enum | DataType::Uint32 | DataType::Int32 | DataType::Float => 4,
        DataType::String => 1,
        // Composite types (TIMESERIES..): returned raw.
        _ => {
            let raw = slice_to_vec(data);
            return Ok(DataValue::Raw(raw));
        },
    };
    if data.len() < need {
        return Err(RctError::PayloadTooShort { ty: data_type.name(), len: data.len(), need });
    }
    let v = match data_type {
        DataType::Bool => DataValue::Bool(data[0] != 0),
        DataType::Uint8 => DataValue::U8(data[0]),
        DataType::Int8 => DataValue::I8(data[0] as i8),
        DataType::Uint16 => DataValue::U16(be16(data[0], data[1])),
        DataType::Int16 => DataValue::I16(be16(data[0], data[1]) as i16),
        DataType::Enum | DataType::Uint32 => DataValue::U32(be32(data, 0)),
        DataType::Int32 => DataValue::I32(be32(data, 0) as i32),
        DataType::Float => DataValue::F32(be32(data, 0)),
        _ => {
            let end = text_end(data);
            DataValue::Str(string_from_utf8_lossy(vstd::slice::slice_subrange(data, 0, end)))
        },
    };
    Ok(v)
}

/// The value in a response's data: an empty payload is refused, anything
/// else is decoded as `resp_type`.
pub fn response_value(resp_type: DataType, data: &[u8]) -> (r: Result<DataValue, RctError>)
    ensures
        data@.len() == 0 ==> r matches Err(RctError::EmptyPayload),
        data@.len() > 0 ==> decodes_to(resp_type, data@, r),
{
    if data.len() == 0 {
        return Err(RctError::EmptyPayload);
    }
    decode_value(resp_type, data)
}

/// Position of the first NUL byte, or the length if there is none.
fn text_end(data: &[u8]) -> (r: usize)
    ensures
        r == text_len(data@),
        r <= data@.len(),
{
    let mut i: usize = 0;
    assert(data@.skip(0) =~= data@);
    while i < data.len() && data[i] != 0
        invariant
            i <= data@.len(),
            text_len(data@) == i + text_len(data@.skip(i as int)),
        decreases data@.len() - i,
    {
        assert(data@.skip(i as int).drop_first() =~= data@.skip(i + 1));
        i = i + 1;
    }
    proof {
        if i < data@.len() {
            assert(data@.skip(i as int)[0] == data@[i as int]);
        }
    }
    i
}

/// The integer of a value, as `to_i64` gives it: booleans as 0 or 1,
/// floats rounded toward zero (saturated, NaN as 0); none for text and raw
/// bytes.
pub open spec fn int_of(v: ValueModel) -> Option<i64> {
    match v {
        ValueModel::Bool(b) => Some(if b { 1i64 } else { 0i64 }),
        ValueModel::I8(x) => Some(x as i64),
        ValueModel::U8(x) => Some(x as i64),
        ValueModel::I16(x) => Some(x as i64),
        ValueModel::U16(x) => Some(x as i64),
        ValueModel::I32(x) => Some(x as i64),
        ValueModel::U32(x) => Some(x as i64),
        ValueModel::F32(bits) => Some(f32_bits_to_i64(bits)),
        _ => None,
    }
}

fn to_i64(v: &DataValue) -> (r: Result<i64, RctError>)
    ensures
        match int_of(v@) {
            Some(n) => r == Ok::<i64, RctError>(n),
            None => r matches Err(e) && e matches RctError::InvalidValue { name, value } && name@
                == Seq::<char>::empty() && value@ == v@,
        },
{
    match v {
        DataValue::Bool(b) => Ok(
            if *b {
                1
            } else {
                0
            },
        ),
        DataValue::I8(i) => Ok(*i as i64),
        DataValue::U8(i) => Ok(*i as i64),
        DataValue::I16(i) => Ok(*i as i64),
        DataValue::U16(i) => Ok(*i as i64),
        DataValue::I32(i) => Ok(*i as i64),
        DataValue::U32(i) => Ok(*i as i64),
        DataValue::F32(f) => Ok(f32_bits_to_i64_exec(*f)),
        _ => Err(RctError::InvalidValue { name: String::new(), value: v.duplicate() }),
    }
}

/// Why a value cannot be brought into the wire form of a data type.
pub enum NormalizeError {
    /// The value does not fit the data type.
    InvalidValue,
    /// The data type cannot be encoded.
    UnknownDataType,
}

/// The value in the wire representation of `t`, as `encode_for` normalizes
/// it: integers are truncated to the width of `t`, integers become floats
/// (nearest, ties to even) and floats integers (toward zero).
pub open spec fn normalize(t: DataType, v: ValueModel) -> Result<ValueModel, NormalizeError> {
    match t {
        DataType::Bool => match v {
            ValueModel::Bool(b) => Ok(ValueModel::Bool(b)),
            ValueModel::I8(i) => Ok(ValueModel::Bool(i != 0)),
            ValueModel::U8(i) => Ok(ValueModel::Bool(i != 0)),
            _ => Err(NormalizeError::InvalidValue),
        },
        DataType::Uint8 | DataType::Enum => match int_of(v) {
            Some(n) => Ok(ValueModel::U8(n as u8)),
            None => Err(NormalizeError::InvalidValue),
        },
        DataType::Int8 => match int_of(v) {
            Some(n) => Ok(ValueModel::I8(n as i8)),
            None => Err(NormalizeError::InvalidValue),
        },
        DataType::Uint16 => match int_of(v) {
            Some(n) => Ok(ValueModel::U16(n as u16)),
            None => Err(NormalizeError::InvalidValue),
        },
        DataType::Int16 => match int_of(v) {
            Some(n) => Ok(ValueModel::I16(n as i16)),
            None => Err(NormalizeError::InvalidValue),
        },
        DataType::Uint32 => match int_of(v) {
            Some(n) => Ok(ValueModel::U32(n as u32)),
            None => Err(NormalizeError::InvalidValue),
        },
        DataType::Int32 => match int_of(v) {
            Some(n) => Ok(ValueModel::I32(n as i32)),
            None => Err(NormalizeError::InvalidValue),
        },
        DataType::Float => match v {
            ValueModel::F32(bits) => Ok(ValueModel::F32(bits)),
            _ => match int_of(v) {
                Some(n) => Ok(ValueModel::F32(i64_to_f32_bits(n))),
                None => Err(NormalizeError::InvalidValue),
            },
        },
        DataType::String => match v {
            ValueModel::Str(s) => Ok(ValueModel::Str(s)),
            _ => Err(NormalizeError::InvalidValue),
        },
        _ => Err(NormalizeError::UnknownDataType),
    }
}

/// Encode a value for a given wire data type: the value is first brought
/// into the wire representation of the type, then encoded.
pub fn encode_for(data_type: DataType, value: &DataValue) -> (r: Result<Vec<u8>, RctError>)
    ensures
        match normalize(data_type, value@) {
            Ok(n) => r matches Ok(b) && b@ == encode_model(n),
            Err(NormalizeError::InvalidValue) => r matches Err(e) && e matches RctError::InvalidValue {
                name,
                value: v,
            } && name@ == Seq::<char>::empty() && v@ == value@,
            Err(NormalizeError::UnknownDataType) => r matches Err(e) && e matches RctError::UnknownDataType(
                s,
            ) && s@ == data_type_name(data_type),
        },
{
    // Normalize into the wire representation of data_type
    let v = match data_type {
        DataType::Bool => DataValue::Bool(
            match value {
                DataValue::Bool(b) => *b,
                DataValue::I8(i) => *i != 0,
                DataValue::U8(i) => *i != 0,
                other => {
                    return Err(RctError::InvalidValue { name: String::new(), value: other.duplicate() });
                },
            },
        ),
        DataType::Uint8 | DataType::Enum => DataValue::U8(to_i64(value)? as u8),
        DataType::Int8 => DataValue::I8(to_i64(value)? as i8),
        DataType::Uint16 => DataValue::U16(to_i64(value)? as u16),
        DataType::Int16 => DataValue::I16(to_i64(value)? as i16),
        DataType::Uint32 => DataValue::U32(to_i64(value)? as u32),
        DataType::Int32 => DataValue::I32(to_i64(value)? as i32),
        DataType::Float => DataValue::F32(
            match value {
                DataValue::F32(f) => *f,
                other => i64_to_f32_bits_exec(to_i64(other)?),
            },
        ),
        DataType::String => DataValue::Str(
            match value {
                DataValue::Str(s) => s.clone(),
                other => {
                    return Err(RctError::InvalidValue { name: String::new(), value: other.duplicate() });
                },
            },
        ),
        other => {
            return Err(RctError::UnknownDataType(String::from_str(other.name())));
        },
    };
    Ok(encode_value(&v))
}

/// The big-endian bytes of a 32-bit value read back as that value.
pub proof fn lemma_be_u32_value(v: u32)
    ensures
        u32_at(be_u32(v), 0) == v,
{
    let b0 = (v / 0x100_0000) as u8;
    let b1 = ((v / 0x1_0000) % 256) as u8;
    let b2 = ((v / 256) % 256) as u8;
    let b3 = (v % 256) as u8;
    assert((((b0 * 256 + b1) * 256 + b2) * 256 + b3) as u32 == v);
}

/// The big-endian bytes of a 16-bit value read back as that value.
pub proof fn lemma_be_u16_value(v: u16)
    ensures
        u16_of(be_u16(v)[0], be_u16(v)[1]) == v,
{
    let b0 = (v / 256) as u8;
    let b1 = (v % 256) as u8;
    assert((b0 * 256 + b1) as u16 == v) by (bit_vector)
        requires
            b0 == (v / 256) as u8,
            b1 == (v % 256) as u8,
    ;
}


/// A value travels under data type `t`: the type whose decoding gives back
/// a value of its kind (32-bit unsigned values under UINT32 or ENUM, raw
/// bytes under the types that are handed back raw).
pub open spec fn travels_as(v: ValueModel, t: DataType) -> bool {
    match v {
        ValueModel::Bool(_) => t == DataType::Bool,
        ValueModel::U8(_) => t == DataType::Uint8,
        ValueModel::I8(_) => t == DataType::Int8,
        ValueModel::U16(_) => t == DataType::Uint16,
        ValueModel::I16(_) => t == DataType::Int16,
        ValueModel::U32(_) => t == DataType::Uint32 || t == DataType::Enum,
        ValueModel::I32(_) => t == DataType::Int32,
        ValueModel::F32(_) => t == DataType::Float,
        ValueModel::Str(_) => t == DataType::String,
        ValueModel::Raw(_) => decode_need(t) is None,
    }
}

/// A text without NUL characters has no zero byte in its UTF-8 form.
proof fn lemma_utf8_no_zero(s: Seq<char>)
    requires
        forall|i: int| 0 <= i < s.len() ==> s[i] != '\0',
    ensures
        forall|i: int| 0 <= i < encode_utf8(s).len() ==> #[trigger] encode_utf8(s)[i] != 0,
    decreases s.len(),
{
    if s.len() > 0 {
        let c = s[0] as u32;
        vstd::utf8::char_is_scalar(s[0]);
        vstd::utf8::char_u32_cast(s[0], c);
        assert(('\0' as u32) == 0u32);
        vstd::utf8::char_u32_cast('\0', 0u32);
        assert(c != 0);
        let e = vstd::utf8::encode_scalar(c);
        assert forall|i: int| 0 <= i < e.len() implies e[i] != 0 by {
            assert(c != 0 ==> (c & 0x7F) as u8 != 0 || c > 0x7F) by (bit_vector);
            assert((0xC0u8 | ((c >> 6) & 0x1F) as u8) != 0) by (bit_vector);
            assert((0xE0u8 | ((c >> 12) & 0x0F) as u8) != 0) by (bit_vector);
            assert((0xF0u8 | ((c >> 18) & 0x7) as u8) != 0) by (bit_vector);
            assert((0x80u8 | (c & 0x3F) as u8) != 0) by (bit_vector);
            assert((0x80u8 | ((c >> 6) & 0x3F) as u8) != 0) by (bit_vector);
            assert((0x80u8 | ((c >> 12) & 0x3F) as u8) != 0) by (bit_vector);
        }
        let rest = s.drop_first();
        lemma_utf8_no_zero(rest);
        assert(encode_utf8(s) == e + encode_utf8(rest));
        assert forall|i: int| 0 <= i < encode_utf8(s).len() implies #[trigger] encode_utf8(s)[i]
            != 0 by {
            if i >= e.len() {
                assert(encode_utf8(s)[i] == encode_utf8(rest)[i - e.len()]);
            }
        }
    }
}

proof fn lemma_text_len_no_zero(d: Seq<u8>)
    requires
        forall|i: int| 0 <= i < d.len() ==> d[i] != 0,
    ensures
        text_len(d) == d.len(),
    decreases d.len(),
{
    if d.len() > 0 {
        lemma_text_len_no_zero(d.drop_first());
    }
}

/// Decoding the wire bytes of a value under the data type it travels as
/// gives the value back. A text must be non-empty and free of NUL
/// characters (decoding stops at the first NUL and needs one byte).
pub proof fn lemma_value_roundtrip(v: ValueModel, t: DataType)
    requires
        travels_as(v, t),
        v matches ValueModel::Str(s) ==> s.len() > 0 && forall|i: int| 0 <= i < s.len() ==> s[i]
            != '\0',
    ensures
        decode_need(t) matches Some(n) ==> encode_model(v).len() >= n,
        decode_model(t, encode_model(v)) == v,
{
    match v {
        ValueModel::I8(x) => {
            assert((x as u8) as i8 == x) by (bit_vector);
        },
        ValueModel::U16(x) => {
            lemma_be_u16_value(x);
        },
        ValueModel::I16(x) => {
            lemma_be_u16_value(x as u16);
            assert((x as u16) as i16 == x) by (bit_vector);
        },
        ValueModel::U32(x) => {
            lemma_be_u32_value(x);
        },
        ValueModel::I32(x) => {
            lemma_be_u32_value(x as u32);
            assert((x as u32) as i32 == x) by (bit_vector);
        },
        ValueModel::F32(x) => {
            lemma_be_u32_value(x);
        },
        ValueModel::Str(s) => {
            let d = encode_utf8(s);
            lemma_utf8_no_zero(s);
            lemma_text_len_no_zero(d);
            assert(d.take(d.len() as int) =~= d);
            vstd::utf8::encode_utf8_valid_utf8(s);
            vstd::utf8::encode_utf8_decode_utf8(s);
            vstd::utf8::encode_utf8_first_scalar(s);
            assert(d.len() > 0);
        },
        _ => {},
    }
}

/// Encoding a value for the data type it travels as (`encode_for`) and
/// decoding the bytes under that type gives the value back: 8/16/32-bit
/// integers, booleans, floats (bit for bit) and texts (non-empty, without
/// NUL). Not for ENUM, whose values `encode_for` writes as one byte while
/// `decode_value` reads four, nor for raw bytes, which `encode_for` does not
/// accept.
pub proof fn lemma_encode_for_roundtrip(v: ValueModel, t: DataType)
    requires
        travels_as(v, t),
        t != DataType::Enum,
        !(v is Raw),
        v matches ValueModel::Str(s) ==> s.len() > 0 && forall|i: int| 0 <= i < s.len() ==> s[i]
            != '\0',
    ensures
        normalize(t, v) == Ok::<ValueModel, NormalizeError>(v),
        decode_need(t) matches Some(n) ==> encode_model(v).len() >= n,
        decode_model(t, encode_model(v)) == v,
{
    match v {
        ValueModel::U8(x) => {
            assert(((x as i64) as u8) == x) by (bit_vector);
        },
        ValueModel::I8(x) => {
            assert(((x as i64) as i8) == x) by (bit_vector);
        },
        ValueModel::U16(x) => {
            assert(((x as i64) as u16) == x) by (bit_vector);
        },
        ValueModel::I16(x) => {
            assert(((x as i64) as i16) == x) by (bit_vector);
        },
        ValueModel::U32(x) => {
            assert(((x as i64) as u32) == x) by (bit_vector);
        },
        ValueModel::I32(x) => {
            assert(((x as i64) as i32) == x) by (bit_vector);
        },
        _ => {},
    }
    lemma_value_roundtrip(v, t);
}

} // verus!
