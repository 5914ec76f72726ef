//! Values for writable parameters: reading them from text (the words of a
//! boolean and whole numbers; numbers with a decimal point are read as
//! floats by the caller) and the checks a value gets before its range.

use vstd::prelude::*;

use crate::float_bits::{i64_to_f32_bits, i64_to_f32_bits_exec};
use crate::registry::Registry;
use crate::types::{DataType, DataValue, ValueModel};

verus! {

/// ASCII lower case of a character; other characters stay as they are.
pub open spec fn ascii_lower(c: char) -> char {
    if 'A' <= c && c <= 'Z' {
        ((c as u32) + 32) as char
    } else {
        c
    }
}

/// The boolean that a word names, case of ASCII letters ignored.
pub open spec fn bool_word_model(s: Seq<char>) -> Option<bool> {
    let l = s.map_values(|c: char| ascii_lower(c));
    if l == seq!['t', 'r', 'u', 'e'] {
        Some(true)
    } else if l == seq!['f', 'a', 'l', 's', 'e'] {
        Some(false)
    } else {
        None
    }
}

/// Whether a character is an ASCII decimal digit.
pub open spec fn is_digit(c: char) -> bool {
    '0' <= c && c <= '9'
}

/// The number that a sequence of decimal digits writes.
pub open spec fn digits_value(s: Seq<char>) -> int
    decreases s.len(),
{
    if s.len() == 0 {
        0
    } else {
        digits_value(s.drop_last()) * 10 + ((s.last() as int) - ('0' as int))
    }
}

/// The `i64` that a decimal number writes: an optional `+` or `-`, then at
/// least one ASCII digit and nothing else, the value within range.
pub open spec fn decimal_i64(s: Seq<char>) -> Option<i64> {
    let signed = s.len() > 0 && (s[0] == '-' || s[0] == '+');
    let ds = if signed {
        s.drop_first()
    } else {
        s
    };
    let v = if signed && s[0] == '-' {
        -digits_value(ds)
    } else {
        digits_value(ds)
    };
    if ds.len() > 0 && (forall|i: int| 0 <= i < ds.len() ==> is_digit(#[trigger] ds[i]))
        && i64::MIN <= v && v <= i64::MAX {
        Some(v as i64)
    } else {
        None
    }
}

/// The value that a whole number stands for as a parameter of type `t`:
/// converted to a float for FLOAT, cut to the type's width otherwise, and
/// a 32-bit signed value for every other type.
pub open spec fn int_value_model(t: DataType, i: i64) -> ValueModel {
    match t {
        DataType::Float => ValueModel::F32(i64_to_f32_bits(i)),
        DataType::Enum | DataType::Uint8 => ValueModel::U8(i as u8),
        DataType::Int8 => ValueModel::I8(i as i8),
        DataType::Uint16 => ValueModel::U16(i as u16),
        DataType::Int16 => ValueModel::I16(i as i16),
        DataType::Uint32 => ValueModel::U32(i as u32),
        _ => ValueModel::I32(i as i32),
    }
}

/// `str::parse::<i64>`: its documentation (`i64::from_str`, that is
/// `from_str_radix` with radix 10) accepts an optional `+` or `-` followed
/// by one or more ASCII digits whose value fits in an `i64`, and refuses
/// anything else.
#[verifier::external_body]
fn parse_i64(raw: &str) -> (r: Option<i64>)
    ensures
        r == decimal_i64(raw@),
{
    match raw.parse::<i64>() {
        Ok(i) => Some(i),
        Err(_) => None,
    }
}

/// ASCII lower case of a byte.
fn lower_byte(b: u8) -> (r: u8)
    ensures
        r == (if 65 <= b && b <= 90 {
            (b + 32) as u8
        } else {
            b
        }),
{
    if 65 <= b && b <= 90 {
        b + 32
    } else {
        b
    }
}

/// Read `true` or `false`, case of ASCII letters ignored.
pub fn bool_word(raw: &str) -> (r: Option<bool>)
    ensures
        r == bool_word_model(raw@),
{
    let ghost s = raw@;
    let ghost l = s.map_values(|c: char| ascii_lower(c));
    assert(l.len() == s.len() && forall|i: int|
        0 <= i < s.len() ==> #[trigger] l[i] == ascii_lower(s[i]));
    if !raw.is_ascii() {
        proof {
            assert(!vstd::utf8::is_ascii_chars(s));
            let k = choose|k: int|
                0 <= k < s.len() && !('\0' <= #[trigger] s[k] && s[k] <= '\u{7f}');
            assert(l[k] == s[k]);
            if l == seq!['t', 'r', 'u', 'e'] {
                assert(l.len() == 4);
                assert(l[0] == 't' && l[1] == 'r' && l[2] == 'u' && l[3] == 'e');
                assert(k == 0 || k == 1 || k == 2 || k == 3);
            }
            if l == seq!['f', 'a', 'l', 's', 'e'] {
                assert(l.len() == 5);
                assert(l[0] == 'f' && l[1] == 'a' && l[2] == 'l' && l[3] == 's' && l[4] == 'e');
                assert(k == 0 || k == 1 || k == 2 || k == 3 || k == 4);
            }
        }
        return None;
    }
    let b = raw.as_bytes();
    proof {
        vstd::utf8::is_ascii_chars_encode_utf8(s);
        assert(b@.len() == s.len());
        assert forall|i: int| 0 <= i < s.len() implies #[trigger] (ascii_lower(s[i]) as u8) == (
        if 65 <= b@[i] && b@[i] <= 90 {
            (b@[i] + 32) as u8
        } else {
            b@[i]
        }) && ascii_lower(s[i]) == (ascii_lower(s[i]) as u8) as char by {
            assert('\0' <= s[i] && s[i] <= '\u{7f}');
            assert(b@[i] == s[i] as u8);
        }
    }
    let n = b.len();
    if n == 4 && lower_byte(b[0]) == 116 && lower_byte(b[1]) == 114 && lower_byte(b[2]) == 117
        && lower_byte(b[3]) == 101 {
        proof {
            assert(ascii_lower(s[0]) as u8 == 116u8);
            assert(ascii_lower(s[1]) as u8 == 114u8);
            assert(ascii_lower(s[2]) as u8 == 117u8);
            assert(ascii_lower(s[3]) as u8 == 101u8);
            assert(l =~= seq!['t', 'r', 'u', 'e']);
        }
        return Some(true);
    }
    if n == 5 && lower_byte(b[0]) == 102 && lower_byte(b[1]) == 97 && lower_byte(b[2]) == 108
        && lower_byte(b[3]) == 115 && lower_byte(b[4]) == 101 {
        proof {
            assert(ascii_lower(s[0]) as u8 == 102u8);
            assert(ascii_lower(s[1]) as u8 == 97u8);
            assert(ascii_lower(s[2]) as u8 == 108u8);
            assert(ascii_lower(s[3]) as u8 == 115u8);
            assert(ascii_lower(s[4]) as u8 == 101u8);
            assert(l =~= seq!['f', 'a', 'l', 's', 'e']);
        }
        return Some(false);
    }
    proof {
        if l == seq!['t', 'r', 'u', 'e'] {
            assert(l[0] == 't' && l[1] == 'r' && l[2] == 'u' && l[3] == 'e');
            assert(ascii_lower(s[0]) as u8 == 116u8);
            assert(ascii_lower(s[1]) as u8 == 114u8);
            assert(ascii_lower(s[2]) as u8 == 117u8);
            assert(ascii_lower(s[3]) as u8 == 101u8);
        }
        if l == seq!['f', 'a', 'l', 's', 'e'] {
            assert(l[0] == 'f' && l[1] == 'a' && l[2] == 'l' && l[3] == 's' && l[4] == 'e');
            assert(ascii_lower(s[0]) as u8 == 102u8);
            assert(ascii_lower(s[1]) as u8 == 97u8);
            assert(ascii_lower(s[2]) as u8 == 108u8);
            assert(ascii_lower(s[3]) as u8 == 115u8);
            assert(ascii_lower(s[4]) as u8 == 101u8);
        }
    }
    None
}

/// The value that a whole number stands for as a parameter of type `t`.
pub fn value_of_int(t: DataType, i: i64) -> (r: DataValue)
    ensures
        r@ == int_value_model(t, i),
{
    match t {
        DataType::Float => DataValue::F32(i64_to_f32_bits_exec(i)),
        DataType::Enum | DataType::Uint8 => DataValue::U8(i as u8),
        DataType::Int8 => DataValue::I8(i as i8),
        DataType::Uint16 => DataValue::U16(i as u16),
        DataType::Int16 => DataValue::I16(i as i16),
        DataType::Uint32 => DataValue::U32(i as u32),
        _ => DataValue::I32(i as i32),
    }
}

/// Read a whole number written in decimal as a parameter of type `t`; none
/// when the text is not such a number.
pub fn parse_int_value(t: DataType, raw: &str) -> (r: Option<DataValue>)
    ensures
        match decimal_i64(raw@) {
            None => r is None,
            Some(i) => r matches Some(v) && v@ == int_value_model(t, i),
        },
{
    match parse_i64(raw) {
        Some(i) => Some(value_of_int(t, i)),
        None => None,
    }
}

/// Whether a text holds a decimal point.
pub fn has_point(raw: &str) -> (r: bool)
    ensures
        r == raw@.contains('.'),
{
    broadcast use vstd::string::axiom_spec_iter;

    for c in it: raw.chars()
        invariant
            it.seq() == raw@,
            forall|j: int| 0 <= j < it.index() ==> raw@[j] != '.',
    {
        if c == '.' {
            return true;
        }
    }
    false
}

/// What the text of a value for a writable parameter gives.
pub enum TextValue {
    /// The value the text stands for.
    Value(DataValue),
    /// The text has a decimal point: it is a float, for the caller to read.
    Fraction,
    /// The text stands for no value of the parameter's type.
    Invalid,
}

/// Read the text of a value for a parameter whose request type is `t`: a
/// boolean word for BOOL parameters; otherwise a float when the text has a
/// decimal point, a whole number when it has none.
pub fn read_value_text(t: DataType, raw: &str) -> (r: TextValue)
    ensures
        t == DataType::Bool ==> match bool_word_model(raw@) {
            Some(b) => r matches TextValue::Value(v) && v@ == ValueModel::Bool(b),
            None => r is Invalid,
        },
        t != DataType::Bool && raw@.contains('.') ==> r is Fraction,
        t != DataType::Bool && !raw@.contains('.') ==> match decimal_i64(raw@) {
            Some(i) => r matches TextValue::Value(v) && v@ == int_value_model(t, i),
            None => r is Invalid,
        },
{
    if t == DataType::Bool {
        return match bool_word(raw) {
            Some(b) => TextValue::Value(DataValue::Bool(b)),
            None => TextValue::Invalid,
        };
    }
    if has_point(raw) {
        return TextValue::Fraction;
    }
    match parse_int_value(t, raw) {
        Some(v) => TextValue::Value(v),
        None => TextValue::Invalid,
    }
}

/// What a value to be written needs next.
#[derive(Debug, Clone, Copy, PartialEq, Eq, Structural)]
pub enum ValueCheck {
    /// The value is refused.
    Reject,
    /// The value is accepted.
    Accept,
    /// The value is a number; its range and precision are checked next.
    Range,
}

/// Whether a value is a number that a range can be checked on.
pub open spec fn is_number(v: ValueModel) -> bool {
    match v {
        ValueModel::F32(_) | ValueModel::I8(_) | ValueModel::U8(_) | ValueModel::I16(_)
        | ValueModel::U16(_) | ValueModel::I32(_) | ValueModel::U32(_) => true,
        _ => false,
    }
}

/// The checks of a value for a parameter that has a write rule, ranges
/// aside: a parameter the registry does not know is refused; a parameter
/// whose rule is for booleans takes a boolean and nothing else; any other
/// parameter takes a number, whose range is checked next.
pub fn value_check(registry: &Registry, name: &str, bool_rule: bool, value: &DataValue) -> (r:
    ValueCheck)
    ensures
        r == (if forall|j: int|
            0 <= j < registry.objects@.len() ==> (#[trigger] registry.objects@[j]).name@ != name@ {
            ValueCheck::Reject
        } else if bool_rule {
            if value@ is Bool {
                ValueCheck::Accept
            } else {
                ValueCheck::Reject
            }
        } else if is_number(value@) {
            ValueCheck::Range
        } else {
            ValueCheck::Reject
        }),
        (exists|j: int|
            0 <= j < registry.objects@.len() && (#[trigger] registry.objects@[j]).name@ == name@)
            && !bool_rule ==> (r == ValueCheck::Range <==> !(value@ is Bool || value@ is Str
            || value@ is Raw)),
        r == ValueCheck::Accept ==> bool_rule && value@ is Bool,
{
    match registry.get_by_name(name) {
        None => {
            return ValueCheck::Reject;
        },
        Some(_) => {},
    }
    if bool_rule {
        return match value {
            DataValue::Bool(_) => ValueCheck::Accept,
            _ => ValueCheck::Reject,
        };
    }
    match value {
        DataValue::F32(_) | DataValue::I8(_) | DataValue::U8(_) | DataValue::I16(_)
        | DataValue::U16(_) | DataValue::I32(_) | DataValue::U32(_) => ValueCheck::Range,
        _ => ValueCheck::Reject,
    }
}

/// Every integer and float value is a number that a range is checked on;
/// booleans, strings and raw bytes are not.
pub proof fn lemma_numbers(v: ValueModel)
    ensures
        is_number(v) <==> !(v is Bool || v is Str || v is Raw),
        v is I8 || v is U8 || v is I16 || v is U16 || v is I32 || v is U32 || v is F32 ==> is_number(
            v,
        ),
{
}

} // verus!
