//! The text of values and errors, as the error messages show them.
use vstd::prelude::*;
use crate::text::{concat, decimal_model, format1, format2};
use crate::error::SeaographyError;
use crate::value::{char_to_string, value_label, Value, ValueModel};

verus! {

/// The digit character of `d < 10`.
fn digit(d: u128) -> (r: char)
    requires
        d < 10,
    ensures
        r == crate::text::digit_char(d as nat),
{
    let c = (d as u8 + 48u8) as char;
    assert(c == crate::text::digit_char(d as nat)) by {
        assert((d as u8 + 48u8) as char == (48 + d) as char);
    }
    c
}

/// The decimal notation of `n`.
pub fn decimal_u128(n: u128) -> (r: String)
    ensures
        r@ == decimal_model(n as nat),
    decreases n,
{
    if n < 10 {
        char_to_string(digit(n))
    } else {
        let head = decimal_u128(n / 10);
        let last = char_to_string(digit(n % 10));
        concat(head.as_str(), last.as_str())
    }
}

/// The decimal notation of `n`, with a minus sign where it is negative.
pub open spec fn int_text(n: int) -> Seq<char> {
    if n < 0 {
        seq!['-'] + decimal_model((-n) as nat)
    } else {
        decimal_model(n as nat)
    }
}

/// The decimal notation of `n`, with a minus sign where it is negative.
pub fn signed_decimal(n: i128) -> (r: String)
    ensures
        r@ == int_text(n as int),
{
    if n < 0 {
        let m: u128 = ((-(n + 1)) as u128) + 1;
        let digits = decimal_u128(m);
        proof {
            reveal_strlit("-");
        }
        concat("-", digits.as_str())
    } else {
        decimal_u128(n as u128)
    }
}

/// Every character of `s` is printable ASCII and neither `quote` nor a
/// backslash.
pub open spec fn plain_ascii(s: Seq<char>, quote: char) -> bool {
    forall|i: int|
        0 <= i < s.len() ==> ' ' <= #[trigger] s[i] <= '~' && s[i] != quote && s[i] != '\\'
}

/// What `format!("{:?}", s)` writes for a string slice `s`.
pub uninterp spec fn quoted_text(s: Seq<char>) -> Seq<char>;

/// What `format!("{:?}", c)` writes for a character `c`.
pub uninterp spec fn quoted_char(c: char) -> Seq<char>;

/// `<str as Debug>::fmt`, through `format!("{:?}", s)`: the text in double
/// quotes with quotes, backslashes and unprintable characters escaped. Its
/// result is named `quoted_text` of `s`; of escaping, only that printable
/// ASCII other than `"` and `\` is kept as it is, is claimed.
#[verifier::external_body]
fn debug_str(s: &str) -> (r: String)
    ensures
        r@ == quoted_text(s@),
        plain_ascii(s@, '"') ==> r@ == seq!['"'] + s@ + seq!['"'],
{
    format!("{:?}", s)
}

/// `<char as Debug>::fmt`, through `format!("{:?}", c)`: the character in
/// single quotes, escaped where needed. Its result is named `quoted_char`
/// of `c`; of escaping, only that printable ASCII other than `'` and `\` is
/// kept as it is, is claimed.
#[verifier::external_body]
fn debug_char(c: char) -> (r: String)
    ensures
        r@ == quoted_char(c),
        plain_ascii(seq![c], '\'') ==> r@ == seq!['\'', c, '\''],
{
    format!("{:?}", c)
}

/// The characters of a string value whose characters are all printable
/// ASCII other than `"` and `\`; `None` for any other value.
pub open spec fn plain_string(v: ValueModel) -> Option<Seq<char>> {
    match v {
        ValueModel::String(t) => if plain_ascii(t, '"') {
            Some(t)
        } else {
            None
        },
        _ => None,
    }
}

/// The text of an error that names a plain string value, where the error
/// names one: the string appears in double quotes as it is.
pub open spec fn plain_error_text(e: SeaographyError) -> Option<Seq<char>> {
    match e {
        SeaographyError::NotAnEnum(v) => match plain_string(v@) {
            Some(t) => Some("[custom] internal: expected a enum, got String(\""@ + t + "\")"@),
            None => None,
        },
        SeaographyError::InvalidScalarValue(v) => match plain_string(v@) {
            Some(t) => Some(
                "[custom] internal: invalid value for scalar \"String: (\""@ + t + "\")\""@,
            ),
            None => None,
        },
        SeaographyError::NoEnumValue(n, v) => match plain_string(v@) {
            Some(t) => Some(
                "[custom] enum `"@ + n@ + "` has no value of `String: (\""@ + t + "\")`"@,
            ),
            None => None,
        },
        _ => None,
    }
}

/// `label: (text)`.
pub open spec fn labelled(label: Seq<char>, text: Seq<char>) -> Seq<char> {
    label + ": ("@ + text + ")"@
}

/// The text that names a value in messages: its kind and its contents.
/// Values that hold a floating-point number or other values have no text
/// here.
pub open spec fn value_text(v: ValueModel) -> Option<Seq<char>> {
    match v {
        ValueModel::Int8(d) => Some(labelled(value_label(v), int_text(d as int))),
        ValueModel::Int16(d) => Some(labelled(value_label(v), int_text(d as int))),
        ValueModel::Int32(d) => Some(labelled(value_label(v), int_text(d as int))),
        ValueModel::Int64(d) => Some(labelled(value_label(v), int_text(d as int))),
        ValueModel::Int128(d) => Some(labelled(value_label(v), int_text(d as int))),
        ValueModel::Intsize(d) => Some(labelled(value_label(v), int_text(d as int))),
        ValueModel::UInt8(d) => Some(labelled(value_label(v), int_text(d as int))),
        ValueModel::UInt16(d) => Some(labelled(value_label(v), int_text(d as int))),
        ValueModel::UInt32(d) => Some(labelled(value_label(v), int_text(d as int))),
        ValueModel::UInt64(d) => Some(labelled(value_label(v), int_text(d as int))),
        ValueModel::UInt128(d) => Some(labelled(value_label(v), int_text(d as int))),
        ValueModel::UIntsize(d) => Some(labelled(value_label(v), int_text(d as int))),
        ValueModel::Bool(b) => Some(labelled(value_label(v), if b { "true"@ } else { "false"@ })),
        ValueModel::Char(c) => Some(labelled(value_label(v), quoted_char(c))),
        ValueModel::String(t) => Some(labelled("String"@, quoted_text(t))),
        ValueModel::Null => Some("null"@),
        _ => None,
    }
}

/// The derived debug notation of a value: its variant and its contents.
/// Values that hold a floating-point number or other values have no
/// notation here.
pub open spec fn value_notation(v: ValueModel) -> Option<Seq<char>> {
    match v {
        ValueModel::Int8(d) => Some(variant_name(v) + "("@ + int_text(d as int) + ")"@),
        ValueModel::Int16(d) => Some(variant_name(v) + "("@ + int_text(d as int) + ")"@),
        ValueModel::Int32(d) => Some(variant_name(v) + "("@ + int_text(d as int) + ")"@),
        ValueModel::Int64(d) => Some(variant_name(v) + "("@ + int_text(d as int) + ")"@),
        ValueModel::Int128(d) => Some(variant_name(v) + "("@ + int_text(d as int) + ")"@),
        ValueModel::Intsize(d) => Some(variant_name(v) + "("@ + int_text(d as int) + ")"@),
        ValueModel::UInt8(d) => Some(variant_name(v) + "("@ + int_text(d as int) + ")"@),
        ValueModel::UInt16(d) => Some(variant_name(v) + "("@ + int_text(d as int) + ")"@),
        ValueModel::UInt32(d) => Some(variant_name(v) + "("@ + int_text(d as int) + ")"@),
        ValueModel::UInt64(d) => Some(variant_name(v) + "("@ + int_text(d as int) + ")"@),
        ValueModel::UInt128(d) => Some(variant_name(v) + "("@ + int_text(d as int) + ")"@),
        ValueModel::UIntsize(d) => Some(variant_name(v) + "("@ + int_text(d as int) + ")"@),
        ValueModel::Bool(b) => Some(variant_name(v) + "("@ + (if b {
            "true"@
        } else {
            "false"@
        }) + ")"@),
        ValueModel::Char(c) => Some(variant_name(v) + "("@ + quoted_char(c) + ")"@),
        ValueModel::String(t) => Some(variant_name(v) + "("@ + quoted_text(t) + ")"@),
        ValueModel::Null => Some("Null"@),
        _ => None,
    }
}

fn bool_word(b: bool) -> (r: &'static str)
    ensures
        r@ == (if b { "true"@ } else { "false"@ }),
{
    proof {
        reveal_strlit("true");
        reveal_strlit("false");
    }
    if b {
        "true"
    } else {
        "false"
    }
}

/// The text that names `v` in messages, where `value_text` gives one.
pub fn text_of_value(v: &Value) -> (r: Option<String>)
    ensures
        match value_text(v@) {
            Some(t) => r matches Some(s) && s@ == t,
            None => r is None,
        },
        plain_string(v@) matches Some(t) ==> r matches Some(s) && s@ == "String: (\""@ + t
            + "\")"@,
{
    proof {
        reveal_strlit(": (");
        reveal_strlit(")");
        reveal_strlit("null");
        reveal_strlit("String");
        reveal_strlit("");
    }
    let text: String = match v {
        Value::Int8(d) => signed_decimal(*d as i128),
        Value::Int16(d) => signed_decimal(*d as i128),
        Value::Int32(d) => signed_decimal(*d as i128),
        Value::Int64(d) => signed_decimal(*d as i128),
        Value::Int128(d) => signed_decimal(*d),
        Value::Intsize(d) => signed_decimal(*d as i128),
        Value::UInt8(d) => decimal_u128(*d as u128),
        Value::UInt16(d) => decimal_u128(*d as u128),
        Value::UInt32(d) => decimal_u128(*d as u128),
        Value::UInt64(d) => decimal_u128(*d as u128),
        Value::UInt128(d) => decimal_u128(*d),
        Value::UIntsize(d) => decimal_u128(*d as u128),
        Value::Bool(b) => String::from_str(bool_word(*b)),
        Value::Char(c) => debug_char(*c),
        Value::String(t) => {
            let quoted = debug_str(t.as_str());
            proof {
                reveal_strlit("String: (\"");
                reveal_strlit("\")");
                if plain_ascii(t@, '"') {
                    assert(""@ + "String"@ + ": ("@ + quoted@ + ")"@ =~= "String: (\""@ + t@
                        + "\")"@);
                }
            }
            return Some(format2("", "String", ": (", quoted.as_str(), ")"));
        },
        Value::Null => {
            return Some(String::from_str("null"));
        },
        _ => {
            return None;
        },
    };
    let label = v.get_type_name();
    Some(format2("", label, ": (", text.as_str(), ")"))
}

/// The name of the variant of a value that holds no other value and no
/// floating-point number, as the debug notation writes it.
pub open spec fn variant_name(v: ValueModel) -> Seq<char> {
    match v {
        ValueModel::Int8(_) => "Int8"@,
        ValueModel::Int16(_) => "Int16"@,
        ValueModel::Int32(_) => "Int32"@,
        ValueModel::Int64(_) => "Int64"@,
        ValueModel::Int128(_) => "Int128"@,
        ValueModel::Intsize(_) => "Intsize"@,
        ValueModel::UInt8(_) => "UInt8"@,
        ValueModel::UInt16(_) => "UInt16"@,
        ValueModel::UInt32(_) => "UInt32"@,
        ValueModel::UInt64(_) => "UInt64"@,
        ValueModel::UInt128(_) => "UInt128"@,
        ValueModel::UIntsize(_) => "UIntsize"@,
        ValueModel::Bool(_) => "Bool"@,
        ValueModel::Char(_) => "Char"@,
        ValueModel::String(_) => "String"@,
        _ => "Null"@,
    }
}

fn variant_of(v: &Value) -> (r: &'static str)
    ensures
        r@ == variant_name(v@),
{
    proof {
        reveal_strlit("Int8");
        reveal_strlit("Int16");
        reveal_strlit("Int32");
        reveal_strlit("Int64");
        reveal_strlit("Int128");
        reveal_strlit("Intsize");
        reveal_strlit("UInt8");
        reveal_strlit("UInt16");
        reveal_strlit("UInt32");
        reveal_strlit("UInt64");
        reveal_strlit("UInt128");
        reveal_strlit("UIntsize");
        reveal_strlit("Bool");
        reveal_strlit("Char");
        reveal_strlit("String");
        reveal_strlit("Null");
    }
    match v {
        Value::Int8(_) => "Int8",
        Value::Int16(_) => "Int16",
        Value::Int32(_) => "Int32",
        Value::Int64(_) => "Int64",
        Value::Int128(_) => "Int128",
        Value::Intsize(_) => "Intsize",
        Value::UInt8(_) => "UInt8",
        Value::UInt16(_) => "UInt16",
        Value::UInt32(_) => "UInt32",
        Value::UInt64(_) => "UInt64",
        Value::UInt128(_) => "UInt128",
        Value::UIntsize(_) => "UIntsize",
        Value::Bool(_) => "Bool",
        Value::Char(_) => "Char",
        Value::String(_) => "String",
        _ => "Null",
    }
}

/// The debug notation of `v`, where `value_notation` gives one.
pub fn notation_of_value(v: &Value) -> (r: Option<String>)
    ensures
        match value_notation(v@) {
            Some(t) => r matches Some(s) && s@ == t,
            None => r is None,
        },
        plain_string(v@) matches Some(t) ==> r matches Some(s) && s@ == "String(\""@ + t
            + "\")"@,
{
    proof {
        reveal_strlit("(");
        reveal_strlit(")");
        reveal_strlit("");
        reveal_strlit("Null");
    }
    let text: String = match v {
        Value::Int8(d) => signed_decimal(*d as i128),
        Value::Int16(d) => signed_decimal(*d as i128),
        Value::Int32(d) => signed_decimal(*d as i128),
        Value::Int64(d) => signed_decimal(*d as i128),
        Value::Int128(d) => signed_decimal(*d),
        Value::Intsize(d) => signed_decimal(*d as i128),
        Value::UInt8(d) => decimal_u128(*d as u128),
        Value::UInt16(d) => decimal_u128(*d as u128),
        Value::UInt32(d) => decimal_u128(*d as u128),
        Value::UInt64(d) => decimal_u128(*d as u128),
        Value::UInt128(d) => decimal_u128(*d),
        Value::UIntsize(d) => decimal_u128(*d as u128),
        Value::Bool(b) => String::from_str(bool_word(*b)),
        Value::Char(c) => debug_char(*c),
        Value::String(t) => {
            let quoted = debug_str(t.as_str());
            proof {
                reveal_strlit("String");
                reveal_strlit("String(\"");
                reveal_strlit("\")");
                if plain_ascii(t@, '"') {
                    assert(""@ + "String"@ + "("@ + quoted@ + ")"@ =~= "String(\""@ + t@
                        + "\")"@);
                }
            }
            return Some(format2("", "String", "(", quoted.as_str(), ")"));
        },
        Value::Null => {
            return Some(String::from_str("Null"));
        },
        _ => {
            return None;
        },
    };
    Some(format2("", variant_of(v), "(", text.as_str(), ")"))
}

/// The text of an error, as it is shown: a tag in brackets and the message.
/// An error that names a value has a text only where the value has one.
pub open spec fn error_text(e: SeaographyError) -> Option<Seq<char>> {
    match e {
        SeaographyError::TypeConversionError(m, t) => Some("[type conversion: "@ + t@ + "] "@ + m@),
        SeaographyError::NestedArrayConversionError => Some(
            "[array conversion] postgres array can not be nested type of array"@,
        ),
        SeaographyError::Custom(m) => Some("[custom] "@ + m@),
        SeaographyError::NotAnEnum(v) => match value_notation(v@) {
            Some(t) => Some("[custom] internal: expected a enum, got "@ + t),
            None => None,
        },
        SeaographyError::InvalidScalarValue(v) => match value_text(v@) {
            Some(t) => Some("[custom] internal: invalid value for scalar \""@ + t + "\""@),
            None => None,
        },
        SeaographyError::NoEnumValue(n, v) => match value_text(v@) {
            Some(t) => Some("[custom] enum `"@ + n@ + "` has no value of `"@ + t + "`"@),
            None => None,
        },
    }
}

/// The text of an error, where `error_text` gives one.
pub fn error_message(e: &SeaographyError) -> (r: Option<String>)
    ensures
        match error_text(*e) {
            Some(t) => r matches Some(s) && s@ == t,
            None => r is None,
        },
        plain_error_text(*e) matches Some(t) ==> r matches Some(s) && s@ == t,
{
    proof {
        reveal_strlit("[type conversion: ");
        reveal_strlit("] ");
        reveal_strlit("[array conversion] postgres array can not be nested type of array");
        reveal_strlit("[custom] ");
        reveal_strlit("");
        reveal_strlit("[custom] internal: expected a enum, got ");
        reveal_strlit("[custom] internal: invalid value for scalar \"");
        reveal_strlit("\"");
        reveal_strlit("[custom] enum `");
        reveal_strlit("` has no value of `");
        reveal_strlit("`");
        reveal_strlit("[custom] internal: expected a enum, got String(\"");
        reveal_strlit("\")");
        reveal_strlit("String(\"");
        reveal_strlit("[custom] internal: invalid value for scalar \"String: (\"");
        reveal_strlit("\")\"");
        reveal_strlit("String: (\"");
        reveal_strlit("` has no value of `String: (\"");
        reveal_strlit("\")`");
    }
    match e {
        SeaographyError::TypeConversionError(m, t) => Some(
            format2("[type conversion: ", t.as_str(), "] ", m.as_str(), ""),
        ),
        SeaographyError::NestedArrayConversionError => Some(
            String::from_str("[array conversion] postgres array can not be nested type of array"),
        ),
        SeaographyError::Custom(m) => Some(concat("[custom] ", m.as_str())),
        SeaographyError::NotAnEnum(v) => match notation_of_value(v) {
            Some(t) => {
                proof {
                    if plain_string(v@) is Some {
                        let p = plain_string(v@)->0;
                        assert("[custom] internal: expected a enum, got "@ + ("String(\""@ + p + "\")"@)
                            =~= "[custom] internal: expected a enum, got String(\""@ + p + "\")"@);
                    }
                }
                Some(concat("[custom] internal: expected a enum, got ", t.as_str()))
            },
            None => None,
        },
        SeaographyError::InvalidScalarValue(v) => match text_of_value(v) {
            Some(t) => {
                proof {
                    if plain_string(v@) is Some {
                        let p = plain_string(v@)->0;
                        assert("[custom] internal: invalid value for scalar \""@ + ("String: (\""@ + p
                            + "\")"@) + "\""@
                            =~= "[custom] internal: invalid value for scalar \"String: (\""@ + p
                            + "\")\""@);
                    }
                }
                Some(format1("[custom] internal: invalid value for scalar \"", t.as_str(), "\""))
            },
            None => None,
        },
        SeaographyError::NoEnumValue(n, v) => match text_of_value(v) {
            Some(t) => {
                proof {
                    if plain_string(v@) is Some {
                        let p = plain_string(v@)->0;
                        assert("[custom] enum `"@ + n@ + "` has no value of `"@ + ("String: (\""@ + p
                            + "\")"@) + "`"@
                            =~= "[custom] enum `"@ + n@ + "` has no value of `String: (\""@ + p
                            + "\")`"@);
                    }
                }
                Some(format2("[custom] enum `", n.as_str(), "` has no value of `", t.as_str(), "`"))
            },
            None => None,
        },
    }
}

} // verus!
