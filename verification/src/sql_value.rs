//! Database values and the API values they are returned as.
use vstd::prelude::*;
use crate::naming::{ascii_upper, to_ascii_uppercase, to_upper_camel_case, upper_camel_case};
use crate::value::{char_to_string, Value, ValueModel};

verus! {

/// A value read from a database column: a scalar or bytes, each possibly
/// null. Floating-point values are held by their bit patterns.
#[derive(Debug)]
pub enum SqlValue {
    Bool(Option<bool>),
    TinyInt(Option<i8>),
    SmallInt(Option<i16>),
    Int(Option<i32>),
    BigInt(Option<i64>),
    TinyUnsigned(Option<u8>),
    SmallUnsigned(Option<u16>),
    Unsigned(Option<u32>),
    BigUnsigned(Option<u64>),
    Float(Option<u32>),
    Double(Option<u64>),
    String(Option<String>),
    Char(Option<char>),
    Bytes(Option<Vec<u8>>),
}

/// The string that the UTF-8 bytes `b` decode to, each invalid sequence
/// replaced by U+FFFD, as `String::from_utf8_lossy` computes it.
pub uninterp spec fn utf8_lossy(b: Seq<u8>) -> Seq<char>;

/// `String::from_utf8_lossy`, made owned; its result is named `utf8_lossy`
/// of the bytes, and, as the documentation says of valid UTF-8, bytes that
/// are all ASCII give the characters they encode.
#[verifier::external_body]
fn from_utf8_lossy(b: &[u8]) -> (r: String)
    ensures
        r@ == utf8_lossy(b@),
        (forall|i: int| 0 <= i < b@.len() ==> b@[i] < 128) ==> r@ == b@.map_values(
            |x: u8| x as char,
        ),
{
    String::from_utf8_lossy(b).into_owned()
}

/// The name under which an enumeration variant is returned: its
/// UpperCamelCase form in ASCII upper case.
pub open spec fn variant_value(s: Seq<char>) -> Seq<char> {
    ascii_upper(upper_camel_case(s))
}

/// The API value a database value is returned as: `None` for a null, else
/// the scalar of the same kind; a string of an enumeration column is
/// returned as its variant name, a character as a one-character string,
/// and bytes as the string they decode to.
pub open spec fn sql_value_model(v: SqlValue, is_enum: bool) -> Option<ValueModel> {
    match v {
        SqlValue::Bool(Some(x)) => Some(ValueModel::Bool(x)),
        SqlValue::TinyInt(Some(x)) => Some(ValueModel::Int8(x)),
        SqlValue::SmallInt(Some(x)) => Some(ValueModel::Int16(x)),
        SqlValue::Int(Some(x)) => Some(ValueModel::Int32(x)),
        SqlValue::BigInt(Some(x)) => Some(ValueModel::Int64(x)),
        SqlValue::TinyUnsigned(Some(x)) => Some(ValueModel::UInt8(x)),
        SqlValue::SmallUnsigned(Some(x)) => Some(ValueModel::UInt16(x)),
        SqlValue::Unsigned(Some(x)) => Some(ValueModel::UInt32(x)),
        SqlValue::BigUnsigned(Some(x)) => Some(ValueModel::UInt64(x)),
        SqlValue::Float(Some(x)) => Some(ValueModel::Float32(x)),
        SqlValue::Double(Some(x)) => Some(ValueModel::Float64(x)),
        SqlValue::String(Some(s)) => Some(
            ValueModel::String(
                if is_enum {
                    variant_value(s@)
                } else {
                    s@
                },
            ),
        ),
        SqlValue::Char(Some(c)) => Some(ValueModel::String(seq![c])),
        SqlValue::Bytes(Some(b)) => Some(ValueModel::String(utf8_lossy(b@))),
        _ => None,
    }
}

fn sql_value_to_value(v: SqlValue, is_enum: bool) -> (r: Option<Value>)
    ensures
        match r {
            Some(x) => sql_value_model(v, is_enum) == Some(x@),
            None => sql_value_model(v, is_enum) is None,
        },
{
    match v {
        SqlValue::Bool(x) => match x {
            Some(x) => Some(Value::Bool(x)),
            None => None,
        },
        SqlValue::TinyInt(x) => match x {
            Some(x) => Some(Value::Int8(x)),
            None => None,
        },
        SqlValue::SmallInt(x) => match x {
            Some(x) => Some(Value::Int16(x)),
            None => None,
        },
        SqlValue::Int(x) => match x {
            Some(x) => Some(Value::Int32(x)),
            None => None,
        },
        SqlValue::BigInt(x) => match x {
            Some(x) => Some(Value::Int64(x)),
            None => None,
        },
        SqlValue::TinyUnsigned(x) => match x {
            Some(x) => Some(Value::UInt8(x)),
            None => None,
        },
        SqlValue::SmallUnsigned(x) => match x {
            Some(x) => Some(Value::UInt16(x)),
            None => None,
        },
        SqlValue::Unsigned(x) => match x {
            Some(x) => Some(Value::UInt32(x)),
            None => None,
        },
        SqlValue::BigUnsigned(x) => match x {
            Some(x) => Some(Value::UInt64(x)),
            None => None,
        },
        SqlValue::Float(x) => match x {
            Some(x) => Some(Value::Float32(x)),
            None => None,
        },
        SqlValue::Double(x) => match x {
            Some(x) => Some(Value::Float64(x)),
            None => None,
        },
        SqlValue::String(x) => match x {
            Some(s) => if is_enum {
                let camel = to_upper_camel_case(s.as_str());
                Some(Value::String(to_ascii_uppercase(camel.as_str())))
            } else {
                Some(Value::String(s))
            },
            None => None,
        },
        SqlValue::Char(x) => match x {
            Some(c) => Some(Value::String(char_to_string(c))),
            None => None,
        },
        SqlValue::Bytes(x) => match x {
            Some(b) => Some(Value::String(from_utf8_lossy(b.as_slice()))),
            None => None,
        },
    }
}

/// The GraphQL value that a database value is returned as.
pub fn sea_query_value_to_graphql_value(sea_query_value: SqlValue, is_enum: bool) -> (r: Option<
    Value,
>)
    ensures
        match r {
            Some(x) => sql_value_model(sea_query_value, is_enum) == Some(x@),
            None => sql_value_model(sea_query_value, is_enum) is None,
        },
{
    sql_value_to_value(sea_query_value, is_enum)
}

/// The Protobuf value that a database value is returned as.
pub fn sea_query_value_to_proto_value(sea_query_value: SqlValue, is_enum: bool) -> (r: Option<
    Value,
>)
    ensures
        match r {
            Some(x) => sql_value_model(sea_query_value, is_enum) == Some(x@),
            None => sql_value_model(sea_query_value, is_enum) is None,
        },
{
    sql_value_to_value(sea_query_value, is_enum)
}

/// Whether a column is an enumeration matters only for strings: every
/// other value is returned the same way either way.
pub proof fn lemma_enum_flag_only_affects_strings(v: SqlValue)
    ensures
        !(v is String) ==> sql_value_model(v, true) == sql_value_model(v, false),
{
}

/// A null is returned as no value, whatever the column's type.
pub proof fn lemma_null_is_absent(v: SqlValue, is_enum: bool)
    ensures
        match v {
            SqlValue::Bool(x) => x is None,
            SqlValue::TinyInt(x) => x is None,
            SqlValue::SmallInt(x) => x is None,
            SqlValue::Int(x) => x is None,
            SqlValue::BigInt(x) => x is None,
            SqlValue::TinyUnsigned(x) => x is None,
            SqlValue::SmallUnsigned(x) => x is None,
            SqlValue::Unsigned(x) => x is None,
            SqlValue::BigUnsigned(x) => x is None,
            SqlValue::Float(x) => x is None,
            SqlValue::Double(x) => x is None,
            SqlValue::String(x) => x is None,
            SqlValue::Char(x) => x is None,
            SqlValue::Bytes(x) => x is None,
        } <==> sql_value_model(v, is_enum) is None,
{
}

/// The number a non-null database integer holds, with its width in bits
/// and whether it is signed.
pub open spec fn sql_integer(v: SqlValue) -> Option<(int, nat, bool)> {
    match v {
        SqlValue::TinyInt(Some(x)) => Some((x as int, 8nat, true)),
        SqlValue::SmallInt(Some(x)) => Some((x as int, 16nat, true)),
        SqlValue::Int(Some(x)) => Some((x as int, 32nat, true)),
        SqlValue::BigInt(Some(x)) => Some((x as int, 64nat, true)),
        SqlValue::TinyUnsigned(Some(x)) => Some((x as int, 8nat, false)),
        SqlValue::SmallUnsigned(Some(x)) => Some((x as int, 16nat, false)),
        SqlValue::Unsigned(Some(x)) => Some((x as int, 32nat, false)),
        SqlValue::BigUnsigned(Some(x)) => Some((x as int, 64nat, false)),
        _ => None,
    }
}

/// The number an integer value of the API holds, with its width in bits
/// and whether it is signed.
pub open spec fn api_integer(v: ValueModel) -> Option<(int, nat, bool)> {
    match v {
        ValueModel::Int8(x) => Some((x as int, 8nat, true)),
        ValueModel::Int16(x) => Some((x as int, 16nat, true)),
        ValueModel::Int32(x) => Some((x as int, 32nat, true)),
        ValueModel::Int64(x) => Some((x as int, 64nat, true)),
        ValueModel::Int128(x) => Some((x as int, 128nat, true)),
        ValueModel::UInt8(x) => Some((x as int, 8nat, false)),
        ValueModel::UInt16(x) => Some((x as int, 16nat, false)),
        ValueModel::UInt32(x) => Some((x as int, 32nat, false)),
        ValueModel::UInt64(x) => Some((x as int, 64nat, false)),
        ValueModel::UInt128(x) => Some((x as int, 128nat, false)),
        _ => None,
    }
}

/// The bit pattern and width of a non-null database floating-point number.
pub open spec fn sql_float(v: SqlValue) -> Option<(int, nat)> {
    match v {
        SqlValue::Float(Some(x)) => Some((x as int, 32nat)),
        SqlValue::Double(Some(x)) => Some((x as int, 64nat)),
        _ => None,
    }
}

/// The bit pattern and width of a floating-point value of the API.
pub open spec fn api_float(v: ValueModel) -> Option<(int, nat)> {
    match v {
        ValueModel::Float32(x) => Some((x as int, 32nat)),
        ValueModel::Float64(x) => Some((x as int, 64nat)),
        _ => None,
    }
}

/// A non-null database number is returned as a number of the API of the
/// same width and signedness holding the same number (a floating-point
/// number the same bits), and a non-null boolean as the same boolean,
/// whether or not the column is an enumeration.
pub proof fn lemma_numbers_keep_width_and_value(v: SqlValue, is_enum: bool)
    ensures
        sql_integer(v) is Some ==> (sql_value_model(v, is_enum) matches Some(r) && api_integer(r)
            == sql_integer(v)),
        sql_float(v) is Some ==> (sql_value_model(v, is_enum) matches Some(r) && api_float(r)
            == sql_float(v)),
        v matches SqlValue::Bool(Some(b)) ==> sql_value_model(v, is_enum) == Some(ValueModel::Bool(b)),
{
}

} // verus!
