//! The value that resolvers hand out and arguments carry.
use vstd::prelude::*;
use crate::text::owned;

verus! {

/// A value: a scalar, a list, an object or a variable.
///
/// Floating-point numbers are held as their IEEE-754 bit patterns.
#[derive(Debug)]
pub enum Value {
    // Signed integers
    Int8(i8),
    Int16(i16),
    Int32(i32),
    Int64(i64),
    Int128(i128),
    Intsize(isize),
    // Unsigned integers
    UInt8(u8),
    UInt16(u16),
    UInt32(u32),
    UInt64(u64),
    UInt128(u128),
    UIntsize(usize),
    // Floating point, by bit pattern
    Float32(u32),
    Float64(u64),
    // Boolean
    Bool(bool),
    // String
    Char(char),
    String(String),
    // Compound types
    List(Vec<Value>),
    Object(Vec<(Value, Value)>),
    // Optional
    Option(Box<Option<Value>>),
    // Var
    Var(Box<(Value, Value)>),
    Null,
}

/// The mathematical model of a value.
pub enum ValueModel {
    Int8(i8),
    Int16(i16),
    Int32(i32),
    Int64(i64),
    Int128(i128),
    Intsize(isize),
    UInt8(u8),
    UInt16(u16),
    UInt32(u32),
    UInt64(u64),
    UInt128(u128),
    UIntsize(usize),
    Float32(u32),
    Float64(u64),
    Bool(bool),
    Char(char),
    String(Seq<char>),
    List(Seq<ValueModel>),
    Object(Seq<(ValueModel, ValueModel)>),
    Option(Option<Box<ValueModel>>),
    Var(Box<ValueModel>, Box<ValueModel>),
    Null,
}

/// The models of a sequence of values.
pub open spec fn views(s: Seq<Value>) -> Seq<ValueModel>
    decreases s,
{
    if s.len() == 0 {
        Seq::empty()
    } else {
        views(s.drop_last()).push(s.last().view())
    }
}

/// The models of a sequence of key-value pairs.
pub open spec fn entry_views(s: Seq<(Value, Value)>) -> Seq<(ValueModel, ValueModel)>
    decreases s,
{
    if s.len() == 0 {
        Seq::empty()
    } else {
        entry_views(s.drop_last()).push((s.last().0.view(), s.last().1.view()))
    }
}

impl View for Value {
    type V = ValueModel;

    open spec fn view(&self) -> ValueModel
        decreases self,
    {
        match self {
            Value::Int8(d) => ValueModel::Int8(*d),
            Value::Int16(d) => ValueModel::Int16(*d),
            Value::Int32(d) => ValueModel::Int32(*d),
            Value::Int64(d) => ValueModel::Int64(*d),
            Value::Int128(d) => ValueModel::Int128(*d),
            Value::Intsize(d) => ValueModel::Intsize(*d),
            Value::UInt8(d) => ValueModel::UInt8(*d),
            Value::UInt16(d) => ValueModel::UInt16(*d),
            Value::UInt32(d) => ValueModel::UInt32(*d),
            Value::UInt64(d) => ValueModel::UInt64(*d),
            Value::UInt128(d) => ValueModel::UInt128(*d),
            Value::UIntsize(d) => ValueModel::UIntsize(*d),
            Value::Float32(d) => ValueModel::Float32(*d),
            Value::Float64(d) => ValueModel::Float64(*d),
            Value::Bool(d) => ValueModel::Bool(*d),
            Value::Char(d) => ValueModel::Char(*d),
            Value::String(s) => ValueModel::String(s@),
            Value::List(l) => ValueModel::List(views(l@)),
            Value::Object(m) => ValueModel::Object(entry_views(m@)),
            Value::Option(o) => match &**o {
                Some(v) => ValueModel::Option(Some(Box::new(v.view()))),
                None => ValueModel::Option(None),
            },
            Value::Var(p) => ValueModel::Var(Box::new(p.0.view()), Box::new(p.1.view())),
            Value::Null => ValueModel::Null,
        }
    }
}

/// Sequences with the same models elementwise have the same models.
pub proof fn lemma_views_ext(a: Seq<Value>, b: Seq<Value>)
    requires
        a.len() == b.len(),
        forall|j: int| 0 <= j < a.len() ==> a[j]@ == b[j]@,
    ensures
        views(a) == views(b),
    decreases a.len(),
{
    if a.len() > 0 {
        lemma_views_ext(a.drop_last(), b.drop_last());
    }
}

/// The model of a sequence of values has one model per value, in order.
pub proof fn lemma_views_index(s: Seq<Value>)
    ensures
        views(s).len() == s.len(),
        forall|j: int| 0 <= j < s.len() ==> #[trigger] views(s)[j] == s[j]@,
    decreases s.len(),
{
    if s.len() > 0 {
        assert(views(s) == views(s.drop_last()).push(s.last()@));
        lemma_views_index(s.drop_last());
        assert forall|j: int| 0 <= j < s.len() implies #[trigger] views(s)[j] == s[j]@ by {
            if j < s.len() - 1 {
                assert(s.drop_last()[j] == s[j]);
            }
        }
    }
}

/// Pair sequences with the same models elementwise have the same models.
pub proof fn lemma_entry_views_ext(a: Seq<(Value, Value)>, b: Seq<(Value, Value)>)
    requires
        a.len() == b.len(),
        forall|j: int| 0 <= j < a.len() ==> a[j].0@ == b[j].0@ && a[j].1@ == b[j].1@,
    ensures
        entry_views(a) == entry_views(b),
    decreases a.len(),
{
    if a.len() > 0 {
        lemma_entry_views_ext(a.drop_last(), b.drop_last());
    }
}

/// The model of a pair sequence has one pair of models per pair, in order.
pub proof fn lemma_entry_views_index(s: Seq<(Value, Value)>)
    ensures
        entry_views(s).len() == s.len(),
        forall|j: int|
            0 <= j < s.len() ==> #[trigger] entry_views(s)[j] == (s[j].0@, s[j].1@),
    decreases s.len(),
{
    if s.len() > 0 {
        assert(entry_views(s) == entry_views(s.drop_last()).push((s.last().0@, s.last().1@)));
        lemma_entry_views_index(s.drop_last());
        assert forall|j: int| 0 <= j < s.len() implies #[trigger] entry_views(s)[j] == (
            s[j].0@,
            s[j].1@,
        ) by {
            if j < s.len() - 1 {
                assert(s.drop_last()[j] == s[j]);
            }
        }
    }
}

/// The name of the kind of a value.
pub open spec fn value_label(v: ValueModel) -> Seq<char> {
    match v {
        ValueModel::Int8(_) => "i8"@,
        ValueModel::Int16(_) => "i16"@,
        ValueModel::Int32(_) => "i32"@,
        ValueModel::Int64(_) => "i64"@,
        ValueModel::Int128(_) => "i128"@,
        ValueModel::Intsize(_) => "isize"@,
        ValueModel::UInt8(_) => "u8"@,
        ValueModel::UInt16(_) => "u16"@,
        ValueModel::UInt32(_) => "u32"@,
        ValueModel::UInt64(_) => "u64"@,
        ValueModel::UInt128(_) => "u128"@,
        ValueModel::UIntsize(_) => "usize"@,
        ValueModel::Float32(_) => "f32"@,
        ValueModel::Float64(_) => "f64"@,
        ValueModel::Bool(_) => "bool"@,
        ValueModel::Char(_) => "char"@,
        ValueModel::String(_) => "string"@,
        ValueModel::List(_) => "list"@,
        ValueModel::Object(_) => "map"@,
        ValueModel::Option(_) => "option"@,
        ValueModel::Var(_, _) => "var"@,
        ValueModel::Null => "null"@,
    }
}

/// `d` fits in an `i32`.
pub open spec fn fits_i32(d: int) -> bool {
    i32::MIN <= d <= i32::MAX
}

/// The 32-bit integer that a value stands for, where it stands for one.
pub open spec fn as_int_model(v: ValueModel) -> Option<i32> {
    match v {
        ValueModel::Int8(d) => Some(d as i32),
        ValueModel::Int16(d) => Some(d as i32),
        ValueModel::Int32(d) => Some(d),
        ValueModel::Int64(d) => if fits_i32(d as int) {
            Some(d as i32)
        } else {
            None
        },
        ValueModel::Int128(d) => if fits_i32(d as int) {
            Some(d as i32)
        } else {
            None
        },
        ValueModel::Intsize(d) => if fits_i32(d as int) {
            Some(d as i32)
        } else {
            None
        },
        ValueModel::UInt8(d) => Some(d as i32),
        ValueModel::UInt16(d) => Some(d as i32),
        ValueModel::UInt32(d) => if fits_i32(d as int) {
            Some(d as i32)
        } else {
            None
        },
        ValueModel::UInt64(d) => if fits_i32(d as int) {
            Some(d as i32)
        } else {
            None
        },
        ValueModel::UInt128(d) => if fits_i32(d as int) {
            Some(d as i32)
        } else {
            None
        },
        _ => None,
    }
}

/// The text that a value stands for: a string, or a single character.
pub open spec fn as_text_model(v: ValueModel) -> Option<Seq<char>> {
    match v {
        ValueModel::String(s) => Some(s),
        ValueModel::Char(c) => Some(seq![c]),
        _ => None,
    }
}

/// `char::to_string`: a string holding exactly `c`.
#[verifier::external_body]
pub(crate) fn char_to_string(c: char) -> (r: String)
    ensures
        r@ == seq![c],
{
    c.to_string()
}

impl Value {
    /// The name of the kind of the value.
    pub fn get_type_name(&self) -> (r: &'static str)
        ensures
            r@ == value_label(self@),
    {
        match self {
            Value::Int8(_) => "i8",
            Value::Int16(_) => "i16",
            Value::Int32(_) => "i32",
            Value::Int64(_) => "i64",
            Value::Int128(_) => "i128",
            Value::Intsize(_) => "isize",
            Value::UInt8(_) => "u8",
            Value::UInt16(_) => "u16",
            Value::UInt32(_) => "u32",
            Value::UInt64(_) => "u64",
            Value::UInt128(_) => "u128",
            Value::UIntsize(_) => "usize",
            Value::Float32(_) => "f32",
            Value::Float64(_) => "f64",
            Value::Bool(_) => "bool",
            Value::Char(_) => "char",
            Value::String(_) => "string",
            Value::List(_) => "list",
            Value::Object(_) => "map",
            Value::Option(_) => "option",
            Value::Var(_) => "var",
            Value::Null => "null",
        }
    }

    /// Whether the value is a list.
    pub fn is_repeated(&self) -> (r: bool)
        ensures
            r == (self@ is List),
    {
        match self {
            Value::List(_) => true,
            _ => false,
        }
    }

    /// A deep copy of the value.
    #[verifier::loop_isolation(false)]
    pub fn duplicate(&self) -> (r: Value)
        ensures
            r@ == self@,
        decreases self,
    {
        match self {
            Value::Int8(d) => Value::Int8(*d),
            Value::Int16(d) => Value::Int16(*d),
            Value::Int32(d) => Value::Int32(*d),
            Value::Int64(d) => Value::Int64(*d),
            Value::Int128(d) => Value::Int128(*d),
            Value::Intsize(d) => Value::Intsize(*d),
            Value::UInt8(d) => Value::UInt8(*d),
            Value::UInt16(d) => Value::UInt16(*d),
            Value::UInt32(d) => Value::UInt32(*d),
            Value::UInt64(d) => Value::UInt64(*d),
            Value::UInt128(d) => Value::UInt128(*d),
            Value::UIntsize(d) => Value::UIntsize(*d),
            Value::Float32(d) => Value::Float32(*d),
            Value::Float64(d) => Value::Float64(*d),
            Value::Bool(d) => Value::Bool(*d),
            Value::Char(d) => Value::Char(*d),
            Value::String(s) => Value::String(s.clone()),
            Value::List(l) => {
                let mut out: Vec<Value> = Vec::new();
                let mut i: usize = 0;
                while i < l.len()
                    invariant
                        i <= l@.len(),
                        out@.len() == i,
                        forall|j: int| 0 <= j < i ==> out@[j]@ == l@[j]@,
                    decreases l@.len() - i,
                {
                    proof {
                        vstd::std_specs::vec::axiom_vec_index_decreases(*l, i as int);
                        assert(decreases_to!(*self => *l));
                    }
                    let v = l[i].duplicate();
                    out.push(v);
                    i = i + 1;
                }
                proof {
                    lemma_views_ext(out@, l@);
                }
                Value::List(out)
            },
            Value::Object(m) => {
                let mut out: Vec<(Value, Value)> = Vec::new();
                let mut i: usize = 0;
                while i < m.len()
                    invariant
                        i <= m@.len(),
                        out@.len() == i,
                        forall|j: int|
                            0 <= j < i ==> out@[j].0@ == m@[j].0@ && out@[j].1@ == m@[j].1@,
                    decreases m@.len() - i,
                {
                    proof {
                        vstd::std_specs::vec::axiom_vec_index_decreases(*m, i as int);
                        assert(decreases_to!(*self => *m));
                        assert(decreases_to!(m@[i as int] => m@[i as int].0));
                        assert(decreases_to!(m@[i as int] => m@[i as int].1));
                    }
                    let k = m[i].0.duplicate();
                    let v = m[i].1.duplicate();
                    out.push((k, v));
                    i = i + 1;
                }
                proof {
                    lemma_entry_views_ext(out@, m@);
                }
                Value::Object(out)
            },
            Value::Option(o) => match &**o {
                Some(v) => Value::Option(Box::new(Some(v.duplicate()))),
                None => Value::Option(Box::new(None)),
            },
            Value::Var(p) => Value::Var(Box::new((p.0.duplicate(), p.1.duplicate()))),
            Value::Null => Value::Null,
        }
    }

    /// The two parts of a variable, copied.
    pub fn as_var(&self) -> (r: Option<(Value, Value)>)
        ensures
            match self@ {
                ValueModel::Var(a, b) => r matches Some(p) && p.0@ == *a && p.1@ == *b,
                _ => r is None,
            },
    {
        match self {
            Value::Var(data) => Some((data.0.duplicate(), data.1.duplicate())),
            _ => None,
        }
    }

    /// The value as a 32-bit integer, where it is an integer that fits.
    pub fn as_int(&self) -> (r: Option<i32>)
        ensures
            r == as_int_model(self@),
    {
        match self {
            Value::Int8(d) => Some(*d as i32),
            Value::Int16(d) => Some(*d as i32),
            Value::Int32(d) => Some(*d),
            Value::Int64(d) => if i32::MIN as i64 <= *d && *d <= i32::MAX as i64 {
                Some(*d as i32)
            } else {
                None
            },
            Value::Int128(d) => if i32::MIN as i128 <= *d && *d <= i32::MAX as i128 {
                Some(*d as i32)
            } else {
                None
            },
            Value::Intsize(d) => if i32::MIN as i64 <= *d as i64 && *d as i64 <= i32::MAX as i64 {
                Some(*d as i32)
            } else {
                None
            },
            Value::UInt8(d) => Some(*d as i32),
            Value::UInt16(d) => Some(*d as i32),
            Value::UInt32(d) => if *d <= i32::MAX as u32 {
                Some(*d as i32)
            } else {
                None
            },
            Value::UInt64(d) => if *d <= i32::MAX as u64 {
                Some(*d as i32)
            } else {
                None
            },
            Value::UInt128(d) => if *d <= i32::MAX as u128 {
                Some(*d as i32)
            } else {
                None
            },
            _ => None,
        }
    }

    /// The value as text: a string, or a character.
    pub fn as_string(&self) -> (r: Option<String>)
        ensures
            match as_text_model(self@) {
                Some(t) => r matches Some(s) && s@ == t,
                None => r is None,
            },
    {
        match self {
            Value::String(data) => Some(data.clone()),
            Value::Char(data) => Some(char_to_string(*data)),
            _ => None,
        }
    }

    /// Like `as_string`, consuming the value.
    pub fn into_string(self) -> (r: Option<String>)
        ensures
            match as_text_model(self@) {
                Some(t) => r matches Some(s) && s@ == t,
                None => r is None,
            },
    {
        match self {
            Value::String(data) => Some(data),
            Value::Char(data) => Some(char_to_string(data)),
            _ => None,
        }
    }

    /// The value as a string slice, where it is a string.
    pub fn as_str(&self) -> (r: Option<&str>)
        ensures
            match self@ {
                ValueModel::String(s) => r matches Some(x) && x@ == s,
                _ => r is None,
            },
    {
        match self {
            Value::String(data) => Some(data.as_str()),
            _ => None,
        }
    }

    /// The value as a boolean, where it is one.
    pub fn as_bool(&self) -> (r: Option<bool>)
        ensures
            match self@ {
                ValueModel::Bool(b) => r == Some(b),
                _ => r is None,
            },
    {
        match self {
            Value::Bool(data) => Some(*data),
            _ => None,
        }
    }

    /// A string value.
    pub fn from_str(s: &str) -> (r: Value)
        ensures
            r@ == ValueModel::String(s@),
    {
        Value::String(owned(s))
    }

    /// A list of the given values.
    pub fn from_list(items: Vec<Value>) -> (r: Value)
        ensures
            r@ == ValueModel::List(views(items@)),
    {
        Value::List(items)
    }

    /// A variable made of a name and a value.
    pub fn from_pair(name: Value, value: Value) -> (r: Value)
        ensures
            r@ == ValueModel::Var(Box::new(name@), Box::new(value@)),
    {
        Value::Var(Box::new((name, value)))
    }
}

impl Clone for Value {
    fn clone(&self) -> (r: Value)
        ensures
            r@ == self@,
    {
        self.duplicate()
    }
}

/// The bits of an `f32` stand for NaN.
pub open spec fn nan32(b: u32) -> bool {
    (b & 0x7f80_0000u32) == 0x7f80_0000u32 && (b & 0x007f_ffffu32) != 0u32
}

/// The bits of an `f32` stand for zero, of either sign.
pub open spec fn zero32(b: u32) -> bool {
    (b & 0x7fff_ffffu32) == 0u32
}

/// The bits of an `f64` stand for NaN.
pub open spec fn nan64(b: u64) -> bool {
    (b & 0x7ff0_0000_0000_0000u64) == 0x7ff0_0000_0000_0000u64 && (b & 0x000f_ffff_ffff_ffffu64)
        != 0u64
}

/// The bits of an `f64` stand for zero, of either sign.
pub open spec fn zero64(b: u64) -> bool {
    (b & 0x7fff_ffff_ffff_ffffu64) == 0u64
}

/// Two `f32` bit patterns stand for equal keys: both NaN, or both neither
/// NaN and the same number (the two zeros being the same).
pub open spec fn same_f32(a: u32, b: u32) -> bool {
    if nan32(a) || nan32(b) {
        nan32(a) && nan32(b)
    } else {
        a == b || (zero32(a) && zero32(b))
    }
}

/// Two `f64` bit patterns stand for equal keys, as `same_f32` says of
/// `f32`.
pub open spec fn same_f64(a: u64, b: u64) -> bool {
    if nan64(a) || nan64(b) {
        nan64(a) && nan64(b)
    } else {
        a == b || (zero64(a) && zero64(b))
    }
}

/// Two values are equal as keys of an object: of the same kind with equal
/// contents, floating-point numbers compared as ordered floats (every NaN
/// equal to every NaN, the two zeros equal), and lists, entries, options
/// and pairs compared element by element in order.
pub open spec fn same_key(a: ValueModel, b: ValueModel) -> bool
    decreases a,
{
    match a {
        ValueModel::Float32(x) => b matches ValueModel::Float32(y) && same_f32(x, y),
        ValueModel::Float64(x) => b matches ValueModel::Float64(y) && same_f64(x, y),
        ValueModel::List(xs) => match b {
            ValueModel::List(ys) => xs.len() == ys.len() && forall|i: int|
                0 <= i < xs.len() ==> same_key(#[trigger] xs[i], ys[i]),
            _ => false,
        },
        ValueModel::Object(xs) => match b {
            ValueModel::Object(ys) => xs.len() == ys.len() && forall|i: int|
                #![trigger xs[i]]
                0 <= i < xs.len() ==> same_key(xs[i].0, ys[i].0) && same_key(xs[i].1, ys[i].1),
            _ => false,
        },
        ValueModel::Option(x) => match b {
            ValueModel::Option(y) => match x {
                None => y is None,
                Some(p) => y matches Some(q) && same_key(*p, *q),
            },
            _ => false,
        },
        ValueModel::Var(x1, x2) => match b {
            ValueModel::Var(y1, y2) => same_key(*x1, *y1) && same_key(*x2, *y2),
            _ => false,
        },
        _ => a == b,
    }
}

/// Whether two values are equal as keys of an object, as `same_key` says.
pub fn same_key_value(a: &Value, b: &Value) -> (r: bool)
    ensures
        r == same_key(a@, b@),
    decreases a,
{
    match (a, b) {
        (Value::Float32(x), Value::Float32(y)) => {
            let nx = (*x & 0x7f80_0000u32) == 0x7f80_0000u32 && (*x & 0x007f_ffffu32) != 0u32;
            let ny = (*y & 0x7f80_0000u32) == 0x7f80_0000u32 && (*y & 0x007f_ffffu32) != 0u32;
            if nx || ny {
                nx && ny
            } else {
                *x == *y || ((*x & 0x7fff_ffffu32) == 0u32 && (*y & 0x7fff_ffffu32) == 0u32)
            }
        },
        (Value::Float64(x), Value::Float64(y)) => {
            let nx = (*x & 0x7ff0_0000_0000_0000u64) == 0x7ff0_0000_0000_0000u64 && (*x
                & 0x000f_ffff_ffff_ffffu64) != 0u64;
            let ny = (*y & 0x7ff0_0000_0000_0000u64) == 0x7ff0_0000_0000_0000u64 && (*y
                & 0x000f_ffff_ffff_ffffu64) != 0u64;
            if nx || ny {
                nx && ny
            } else {
                *x == *y || ((*x & 0x7fff_ffff_ffff_ffffu64) == 0u64 && (*y
                    & 0x7fff_ffff_ffff_ffffu64) == 0u64)
            }
        },
        (Value::List(xs), Value::List(ys)) => {
            proof {
                lemma_views_index(xs@);
                lemma_views_index(ys@);
            }
            if xs.len() != ys.len() {
                return false;
            }
            let mut i: usize = 0;
            while i < xs.len()
                invariant
                    i <= xs@.len(),
                    xs@.len() == ys@.len(),
                    *a == Value::List(*xs),
                    *b == Value::List(*ys),
                    views(xs@).len() == xs@.len(),
                    views(ys@).len() == ys@.len(),
                    forall|j: int| 0 <= j < xs@.len() ==> #[trigger] views(xs@)[j] == xs@[j]@,
                    forall|j: int| 0 <= j < ys@.len() ==> #[trigger] views(ys@)[j] == ys@[j]@,
                    forall|j: int| 0 <= j < i ==> same_key(#[trigger] views(xs@)[j], views(ys@)[j]),
                decreases xs@.len() - i,
            {
                proof {
                    assert(decreases_to!(*a => (*a)->List_0));
                    assert(decreases_to!(*xs => xs@));
                    assert(decreases_to!(xs@ => xs@[i as int]));
                }
                if !same_key_value(&xs[i], &ys[i]) {
                    proof {
                        assert(!same_key(views(xs@)[i as int], views(ys@)[i as int]));
                    }
                    return false;
                }
                i = i + 1;
            }
            true
        },
        (Value::Object(xs), Value::Object(ys)) => {
            proof {
                lemma_entry_views_index(xs@);
                lemma_entry_views_index(ys@);
            }
            if xs.len() != ys.len() {
                return false;
            }
            let mut i: usize = 0;
            while i < xs.len()
                invariant
                    i <= xs@.len(),
                    xs@.len() == ys@.len(),
                    *a == Value::Object(*xs),
                    *b == Value::Object(*ys),
                    entry_views(xs@).len() == xs@.len(),
                    entry_views(ys@).len() == ys@.len(),
                    forall|j: int|
                        0 <= j < xs@.len() ==> #[trigger] entry_views(xs@)[j] == (xs@[j].0@, xs@[j].1@),
                    forall|j: int|
                        0 <= j < ys@.len() ==> #[trigger] entry_views(ys@)[j] == (ys@[j].0@, ys@[j].1@),
                    forall|j: int|
                        #![trigger entry_views(xs@)[j]]
                        0 <= j < i ==> same_key(entry_views(xs@)[j].0, entry_views(ys@)[j].0)
                            && same_key(entry_views(xs@)[j].1, entry_views(ys@)[j].1),
                decreases xs@.len() - i,
            {
                proof {
                    assert(decreases_to!(*a => (*a)->Object_0));
                    assert(decreases_to!(*xs => xs@));
                    assert(decreases_to!(xs@ => xs@[i as int]));
                    assert(decreases_to!(xs@[i as int] => xs@[i as int].0));
                    assert(decreases_to!(xs@[i as int] => xs@[i as int].1));
                }
                let k = same_key_value(&xs[i].0, &ys[i].0);
                let v = same_key_value(&xs[i].1, &ys[i].1);
                if !(k && v) {
                    proof {
                        assert(!(same_key(entry_views(xs@)[i as int].0, entry_views(ys@)[i as int].0)
                            && same_key(entry_views(xs@)[i as int].1, entry_views(ys@)[i as int].1)));
                        assert(a@ == ValueModel::Object(entry_views(xs@)));
                        assert(b@ == ValueModel::Object(entry_views(ys@)));
                        assert(!same_key(a@, b@));
                    }
                    return false;
                }
                i = i + 1;
            }
            true
        },
        (Value::Option(x), Value::Option(y)) => match (&**x, &**y) {
            (None, None) => true,
            (Some(p), Some(q)) => {
                same_key_value(p, q)
            },
            _ => false,
        },
        (Value::Var(x), Value::Var(y)) => {
            let k = same_key_value(&x.0, &y.0);
            let v = same_key_value(&x.1, &y.1);
            k && v
        },
        (Value::Int8(x), Value::Int8(y)) => *x == *y,
        (Value::Int16(x), Value::Int16(y)) => *x == *y,
        (Value::Int32(x), Value::Int32(y)) => *x == *y,
        (Value::Int64(x), Value::Int64(y)) => *x == *y,
        (Value::Int128(x), Value::Int128(y)) => *x == *y,
        (Value::Intsize(x), Value::Intsize(y)) => *x == *y,
        (Value::UInt8(x), Value::UInt8(y)) => *x == *y,
        (Value::UInt16(x), Value::UInt16(y)) => *x == *y,
        (Value::UInt32(x), Value::UInt32(y)) => *x == *y,
        (Value::UInt64(x), Value::UInt64(y)) => *x == *y,
        (Value::UInt128(x), Value::UInt128(y)) => *x == *y,
        (Value::UIntsize(x), Value::UIntsize(y)) => *x == *y,
        (Value::Bool(x), Value::Bool(y)) => *x == *y,
        (Value::Char(x), Value::Char(y)) => *x == *y,
        (Value::String(x), Value::String(y)) => crate::text::str_eq(x.as_str(), y.as_str()),
        (Value::Null, Value::Null) => true,
        _ => false,
    }
}

} // verus!
