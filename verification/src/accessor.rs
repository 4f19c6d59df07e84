//! Typed read access to values, objects and lists.
use vstd::prelude::*;
use crate::error::{is_custom, SeaResult, SeaographyError};
use crate::text::{owned, str_eq};
use crate::value::{
    entry_views, lemma_entry_views_ext, lemma_entry_views_index, lemma_views_ext,
    lemma_views_index, same_key, same_key_value, views, Value, ValueModel,
};

verus! {

/// The position of the first entry whose key is the string `name`.
pub open spec fn find_key(entries: Seq<(ValueModel, ValueModel)>, name: Seq<char>) -> Option<int>
    decreases entries.len(),
{
    if entries.len() == 0 {
        None
    } else {
        match find_key(entries.drop_last(), name) {
            Some(i) => Some(i),
            None => if entries.last().0 == ValueModel::String(name) {
                Some(entries.len() - 1)
            } else {
                None
            },
        }
    }
}

/// The value stored under the string key `name`, if any.
pub open spec fn lookup(entries: Seq<(ValueModel, ValueModel)>, name: Seq<char>) -> Option<
    ValueModel,
> {
    match find_key(entries, name) {
        Some(i) => Some(entries[i].1),
        None => None,
    }
}

/// The entries after storing `value` under the string key `name`: the first
/// entry with that key gets the value, or a new entry is added at the end.
pub open spec fn insert_model(
    entries: Seq<(ValueModel, ValueModel)>,
    name: Seq<char>,
    value: ValueModel,
) -> Seq<(ValueModel, ValueModel)> {
    match find_key(entries, name) {
        Some(i) => entries.update(i, (ValueModel::String(name), value)),
        None => entries.push((ValueModel::String(name), value)),
    }
}

/// The position of the first entry whose key equals `key` as a key.
pub open spec fn find_same_key(entries: Seq<(ValueModel, ValueModel)>, key: ValueModel) -> Option<int>
    decreases entries.len(),
{
    if entries.len() == 0 {
        None
    } else {
        match find_same_key(entries.drop_last(), key) {
            Some(i) => Some(i),
            None => if same_key(entries.last().0, key) {
                Some(entries.len() - 1)
            } else {
                None
            },
        }
    }
}

/// The entries after storing `value` under the key `key`: an entry whose key
/// equals it keeps its key and takes the value, else a new entry is added
/// at the end.
pub open spec fn insert_value_model(
    entries: Seq<(ValueModel, ValueModel)>,
    key: ValueModel,
    value: ValueModel,
) -> Seq<(ValueModel, ValueModel)> {
    match find_same_key(entries, key) {
        Some(i) => entries.update(i, (entries[i].0, value)),
        None => entries.push((key, value)),
    }
}

/// What `find_same_key` finds: an entry with an equal key and none before
/// it.
pub proof fn lemma_find_same_key(entries: Seq<(ValueModel, ValueModel)>, key: ValueModel)
    ensures
        match find_same_key(entries, key) {
            Some(i) => 0 <= i < entries.len() && same_key(entries[i].0, key) && forall|j: int|
                0 <= j < i ==> !same_key(#[trigger] entries[j].0, key),
            None => forall|j: int| 0 <= j < entries.len() ==> !same_key(#[trigger] entries[j].0, key),
        },
    decreases entries.len(),
{
    if entries.len() > 0 {
        lemma_find_same_key(entries.drop_last(), key);
        assert forall|j: int| 0 <= j < entries.len() - 1 implies entries[j] == entries.drop_last()[j] by {}
    }
}

/// For a string key, storing by key equality is storing by name.
pub proof fn lemma_insert_string_key(entries: Seq<(ValueModel, ValueModel)>, name: Seq<char>, value: ValueModel)
    ensures
        insert_value_model(entries, ValueModel::String(name), value) == insert_model(entries, name, value),
    decreases entries.len(),
{
    lemma_same_string_key_prefix(entries, name);
    lemma_find_key(entries, name);
    match find_key(entries, name) {
        Some(i) => {
            assert(entries[i].0 == ValueModel::String(name));
        },
        None => {},
    }
}

/// For a string key, the first entry with an equal key is the first entry
/// with that name.
proof fn lemma_same_string_key_prefix(entries: Seq<(ValueModel, ValueModel)>, name: Seq<char>)
    ensures
        find_same_key(entries, ValueModel::String(name)) == find_key(entries, name),
    decreases entries.len(),
{
    if entries.len() > 0 {
        lemma_same_string_key_prefix(entries.drop_last(), name);
        let k = entries.last().0;
        assert(same_key(k, ValueModel::String(name)) == (k == ValueModel::String(name)));
    }
}

/// The position of the first entry whose value is a string.
pub open spec fn find_string_value(entries: Seq<(ValueModel, ValueModel)>) -> Option<int>
    decreases entries.len(),
{
    if entries.len() == 0 {
        None
    } else {
        match find_string_value(entries.drop_last()) {
            Some(i) => Some(i),
            None => if entries.last().1 is String {
                Some(entries.len() - 1)
            } else {
                None
            },
        }
    }
}

/// What `find_key` finds: a matching key with no match before it.
pub proof fn lemma_find_key(entries: Seq<(ValueModel, ValueModel)>, name: Seq<char>)
    ensures
        match find_key(entries, name) {
            Some(i) => 0 <= i < entries.len() && entries[i].0 == ValueModel::String(name)
                && forall|j: int| 0 <= j < i ==> entries[j].0 != ValueModel::String(name),
            None => forall|j: int|
                0 <= j < entries.len() ==> entries[j].0 != ValueModel::String(name),
        },
    decreases entries.len(),
{
    if entries.len() > 0 {
        lemma_find_key(entries.drop_last(), name);
        assert forall|j: int| 0 <= j < entries.len() - 1 implies entries[j] == entries.drop_last()[j] by {}
    }
}

/// What `find_string_value` finds: a string value with no string value
/// before it.
pub proof fn lemma_find_string_value(entries: Seq<(ValueModel, ValueModel)>)
    ensures
        match find_string_value(entries) {
            Some(i) => 0 <= i < entries.len() && entries[i].1 is String && forall|j: int|
                0 <= j < i ==> !(entries[j].1 is String),
            None => forall|j: int| 0 <= j < entries.len() ==> !(entries[j].1 is String),
        },
    decreases entries.len(),
{
    if entries.len() > 0 {
        lemma_find_string_value(entries.drop_last());
        assert forall|j: int| 0 <= j < entries.len() - 1 implies entries[j] == entries.drop_last()[j] by {}
    }
}

/// A first-match position is the one `find_key` gives.
pub proof fn lemma_find_key_unique(entries: Seq<(ValueModel, ValueModel)>, name: Seq<char>, i: int)
    requires
        0 <= i < entries.len(),
        entries[i].0 == ValueModel::String(name),
        forall|j: int| 0 <= j < i ==> entries[j].0 != ValueModel::String(name),
    ensures
        find_key(entries, name) == Some(i),
{
    lemma_find_key(entries, name);
}

/// A first string value position is the one `find_string_value` gives.
pub proof fn lemma_find_string_value_unique(entries: Seq<(ValueModel, ValueModel)>, i: int)
    requires
        0 <= i < entries.len(),
        entries[i].1 is String,
        forall|j: int| 0 <= j < i ==> !(entries[j].1 is String),
    ensures
        find_string_value(entries) == Some(i),
{
    lemma_find_string_value(entries);
}

/// Reading a key back after storing a value under it gives that value, and
/// other keys keep what they had.
pub proof fn lemma_lookup_after_insert(
    entries: Seq<(ValueModel, ValueModel)>,
    name: Seq<char>,
    value: ValueModel,
    other: Seq<char>,
)
    ensures
        lookup(insert_model(entries, name, value), name) == Some(value),
        other != name ==> lookup(insert_model(entries, name, value), other) == lookup(
            entries,
            other,
        ),
{
    let after = insert_model(entries, name, value);
    lemma_find_key(entries, name);
    lemma_find_key(entries, other);
    lemma_find_key(after, name);
    lemma_find_key(after, other);
    match find_key(entries, name) {
        Some(i) => {
            lemma_find_key_unique(after, name, i);
            if other != name {
                match find_key(entries, other) {
                    Some(k) => lemma_find_key_unique(after, other, k),
                    None => {},
                }
            }
        },
        None => {
            lemma_find_key_unique(after, name, entries.len() as int);
            if other != name {
                match find_key(entries, other) {
                    Some(k) => lemma_find_key_unique(after, other, k),
                    None => {
                        assert forall|j: int| 0 <= j < after.len() implies after[j].0
                            != ValueModel::String(other) by {
                            if j < entries.len() {
                                assert(after[j] == entries[j]);
                            }
                        }
                    },
                }
            }
        },
    }
}

/// A storing of a key that is already present leaves the number of
/// entries as it was; otherwise it adds one.
pub proof fn lemma_len_after_insert(
    entries: Seq<(ValueModel, ValueModel)>,
    name: Seq<char>,
    value: ValueModel,
)
    ensures
        insert_model(entries, name, value).len() == entries.len() + (if find_key(
            entries,
            name,
        ) is Some {
            0int
        } else {
            1int
        }),
{
    lemma_find_key(entries, name);
}

/// Read access to a value.
#[derive(Debug)]
pub struct ValueAccessor<'a>(pub &'a Value);

impl<'a> ValueAccessor<'a> {
    pub fn get_type_name(&self) -> (r: &'static str)
        ensures
            r@ == "ValueAccessor"@,
    {
        "ValueAccessor"
    }

    /// Returns `true` if the value is null, otherwise returns `false`
    pub fn is_null(&self) -> (r: bool)
        ensures
            r == (self.0@ is Null),
    {
        match self.0 {
            Value::Null => true,
            _ => false,
        }
    }

    /// Returns a copy of the underlying `Value`
    pub fn as_value(&self) -> (r: Value)
        ensures
            r@ == self.0@,
    {
        self.0.duplicate()
    }

    pub fn int8(&self) -> (r: SeaResult<i8>)
        ensures
            match self.0@ {
                ValueModel::Int8(b) => r == Ok::<i8, SeaographyError>(b),
                _ => r matches Err(e) && is_custom(e, "internal: not a i8"@),
            },
    {
        match self.0 {
            Value::Int8(b) => Ok(*b),
            _ => Err(SeaographyError::from_str("internal: not a i8")),
        }
    }

    pub fn int16(&self) -> (r: SeaResult<i16>)
        ensures
            match self.0@ {
                ValueModel::Int16(b) => r == Ok::<i16, SeaographyError>(b),
                _ => r matches Err(e) && is_custom(e, "internal: not a i16"@),
            },
    {
        match self.0 {
            Value::Int16(b) => Ok(*b),
            _ => Err(SeaographyError::from_str("internal: not a i16")),
        }
    }

    pub fn int32(&self) -> (r: SeaResult<i32>)
        ensures
            match self.0@ {
                ValueModel::Int32(b) => r == Ok::<i32, SeaographyError>(b),
                _ => r matches Err(e) && is_custom(e, "internal: not a i32"@),
            },
    {
        match self.0 {
            Value::Int32(b) => Ok(*b),
            _ => Err(SeaographyError::from_str("internal: not a i32")),
        }
    }

    pub fn int64(&self) -> (r: SeaResult<i64>)
        ensures
            match self.0@ {
                ValueModel::Int64(b) => r == Ok::<i64, SeaographyError>(b),
                _ => r matches Err(e) && is_custom(e, "internal: not a i64"@),
            },
    {
        match self.0 {
            Value::Int64(b) => Ok(*b),
            _ => Err(SeaographyError::from_str("internal: not a i64")),
        }
    }

    pub fn int128(&self) -> (r: SeaResult<i128>)
        ensures
            match self.0@ {
                ValueModel::Int128(b) => r == Ok::<i128, SeaographyError>(b),
                _ => r matches Err(e) && is_custom(e, "internal: not a i128"@),
            },
    {
        match self.0 {
            Value::Int128(b) => Ok(*b),
            _ => Err(SeaographyError::from_str("internal: not a i128")),
        }
    }

    pub fn intsize(&self) -> (r: SeaResult<isize>)
        ensures
            match self.0@ {
                ValueModel::Intsize(b) => r == Ok::<isize, SeaographyError>(b),
                _ => r matches Err(e) && is_custom(e, "internal: not a isize"@),
            },
    {
        match self.0 {
            Value::Intsize(b) => Ok(*b),
            _ => Err(SeaographyError::from_str("internal: not a isize")),
        }
    }

    pub fn uint8(&self) -> (r: SeaResult<u8>)
        ensures
            match self.0@ {
                ValueModel::UInt8(b) => r == Ok::<u8, SeaographyError>(b),
                _ => r matches Err(e) && is_custom(e, "internal: not a u8"@),
            },
    {
        match self.0 {
            Value::UInt8(b) => Ok(*b),
            _ => Err(SeaographyError::from_str("internal: not a u8")),
        }
    }

    pub fn uint16(&self) -> (r: SeaResult<u16>)
        ensures
            match self.0@ {
                ValueModel::UInt16(b) => r == Ok::<u16, SeaographyError>(b),
                _ => r matches Err(e) && is_custom(e, "internal: not a u16"@),
            },
    {
        match self.0 {
            Value::UInt16(b) => Ok(*b),
            _ => Err(SeaographyError::from_str("internal: not a u16")),
        }
    }

    pub fn uint32(&self) -> (r: SeaResult<u32>)
        ensures
            match self.0@ {
                ValueModel::UInt32(b) => r == Ok::<u32, SeaographyError>(b),
                _ => r matches Err(e) && is_custom(e, "internal: not a u32"@),
            },
    {
        match self.0 {
            Value::UInt32(b) => Ok(*b),
            _ => Err(SeaographyError::from_str("internal: not a u32")),
        }
    }

    pub fn uint64(&self) -> (r: SeaResult<u64>)
        ensures
            match self.0@ {
                ValueModel::UInt64(b) => r == Ok::<u64, SeaographyError>(b),
                _ => r matches Err(e) && is_custom(e, "internal: not a u64"@),
            },
    {
        match self.0 {
            Value::UInt64(b) => Ok(*b),
            _ => Err(SeaographyError::from_str("internal: not a u64")),
        }
    }

    pub fn uint128(&self) -> (r: SeaResult<u128>)
        ensures
            match self.0@ {
                ValueModel::UInt128(b) => r == Ok::<u128, SeaographyError>(b),
                _ => r matches Err(e) && is_custom(e, "internal: not a u128"@),
            },
    {
        match self.0 {
            Value::UInt128(b) => Ok(*b),
            _ => Err(SeaographyError::from_str("internal: not a u128")),
        }
    }

    pub fn uintsize(&self) -> (r: SeaResult<usize>)
        ensures
            match self.0@ {
                ValueModel::UIntsize(b) => r == Ok::<usize, SeaographyError>(b),
                _ => r matches Err(e) && is_custom(e, "internal: not a usize"@),
            },
    {
        match self.0 {
            Value::UIntsize(b) => Ok(*b),
            _ => Err(SeaographyError::from_str("internal: not a usize")),
        }
    }

    /// The bit pattern of a 32-bit float.
    pub fn float32(&self) -> (r: SeaResult<u32>)
        ensures
            match self.0@ {
                ValueModel::Float32(b) => r == Ok::<u32, SeaographyError>(b),
                _ => r matches Err(e) && is_custom(e, "internal: not a f32"@),
            },
    {
        match self.0 {
            Value::Float32(b) => Ok(*b),
            _ => Err(SeaographyError::from_str("internal: not a f32")),
        }
    }

    /// The bit pattern of a 64-bit float.
    pub fn float64(&self) -> (r: SeaResult<u64>)
        ensures
            match self.0@ {
                ValueModel::Float64(b) => r == Ok::<u64, SeaographyError>(b),
                _ => r matches Err(e) && is_custom(e, "internal: not a f64"@),
            },
    {
        match self.0 {
            Value::Float64(b) => Ok(*b),
            _ => Err(SeaographyError::from_str("internal: not a f64")),
        }
    }

    pub fn bool(&self) -> (r: SeaResult<bool>)
        ensures
            match self.0@ {
                ValueModel::Bool(b) => r == Ok::<bool, SeaographyError>(b),
                _ => r matches Err(e) && is_custom(e, "internal: not a bool"@),
            },
    {
        match self.0 {
            Value::Bool(b) => Ok(*b),
            _ => Err(SeaographyError::from_str("internal: not a bool")),
        }
    }

    pub fn char(&self) -> (r: SeaResult<char>)
        ensures
            match self.0@ {
                ValueModel::Char(b) => r == Ok::<char, SeaographyError>(b),
                _ => r matches Err(e) && is_custom(e, "internal: not a char"@),
            },
    {
        match self.0 {
            Value::Char(b) => Ok(*b),
            _ => Err(SeaographyError::from_str("internal: not a char")),
        }
    }

    pub fn string(&self) -> (r: SeaResult<&'a str>)
        ensures
            match self.0@ {
                ValueModel::String(s) => r matches Ok(x) && x@ == s,
                _ => r matches Err(e) && is_custom(e, "internal: not a String"@),
            },
    {
        match self.0 {
            Value::String(b) => Ok(b.as_str()),
            _ => Err(SeaographyError::from_str("internal: not a String")),
        }
    }

    /// Returns the object accessor
    pub fn object(&self) -> (r: SeaResult<ObjectAccessor<'a>>)
        ensures
            match self.0@ {
                ValueModel::Object(entries) => r matches Ok(o) && o.entries() == entries,
                _ => r matches Err(e) && is_custom(e, "internal: not an object"@),
            },
    {
        match self.0 {
            Value::Object(obj) => Ok(ObjectAccessor::Borrowed(obj)),
            _ => Err(SeaographyError::from_str("internal: not an object")),
        }
    }

    /// Returns the list accessor
    pub fn list(&self) -> (r: SeaResult<ListAccessor<'a>>)
        ensures
            match self.0@ {
                ValueModel::List(items) => r matches Ok(l) && views(l.0@) == items,
                _ => r matches Err(e) && is_custom(e, "internal: not a list"@),
            },
    {
        match self.0 {
            Value::List(list) => Ok(ListAccessor(list.as_slice())),
            _ => Err(SeaographyError::from_str("internal: not a list")),
        }
    }

    pub fn option(&self) -> (r: SeaResult<Option<ValueAccessor<'a>>>)
        ensures
            match self.0@ {
                ValueModel::Option(Some(v)) => r matches Ok(Some(a)) && a.0@ == *v,
                ValueModel::Option(None) => r matches Ok(None),
                _ => r matches Err(e) && is_custom(e, "internal: not a option"@),
            },
    {
        match self.0 {
            Value::Option(b) => match &**b {
                Some(v) => Ok(Some(ValueAccessor(v))),
                None => Ok(None),
            },
            _ => Err(SeaographyError::from_str("internal: not a option")),
        }
    }

    pub fn variable(&self) -> (r: SeaResult<(ValueAccessor<'a>, ValueAccessor<'a>)>)
        ensures
            match self.0@ {
                ValueModel::Var(a, b) => r matches Ok(p) && p.0.0@ == *a && p.1.0@ == *b,
                _ => r matches Err(e) && is_custom(e, "internal: not a variable"@),
            },
    {
        match self.0 {
            Value::Var(b) => Ok((ValueAccessor(&b.0), ValueAccessor(&b.1))),
            _ => Err(SeaographyError::from_str("internal: not a variable")),
        }
    }

    /// The name of an enum item: the first string among the values of an
    /// object.
    pub fn enum_name(&self) -> (r: SeaResult<&'a str>)
        ensures
            match self.0@ {
                ValueModel::Object(entries) => match find_string_value(entries) {
                    Some(i) => r matches Ok(x) && entries[i].1 == ValueModel::String(x@),
                    None => r matches Err(e) && is_custom(
                        e,
                        "internal: enum name not a string"@,
                    ),
                },
                _ => r matches Err(SeaographyError::NotAnEnum(v)) && v@ == self.0@,
            },
    {
        match self.0 {
            Value::Object(b) => {
                proof {
                    lemma_entry_views_index(b@);
                    assert(self.0@ == ValueModel::Object(entry_views(b@)));
                }
                let mut i: usize = 0;
                while i < b.len()
                    invariant
                        i <= b@.len(),
                        self.0@ == ValueModel::Object(entry_views(b@)),
                        entry_views(b@).len() == b@.len(),
                        forall|j: int|
                            0 <= j < b@.len() ==> #[trigger] entry_views(b@)[j] == (
                                b@[j].0@,
                                b@[j].1@,
                            ),
                        forall|j: int| 0 <= j < i ==> !(b@[j].1@ is String),
                    decreases b@.len() - i,
                {
                    match b[i].1.as_str() {
                        Some(s) => {
                            proof {
                                assert(entry_views(b@)[i as int] == (b@[i as int].0@, b@[i as int].1@));
                                assert forall|j: int| 0 <= j < i implies !(
                                    entry_views(b@)[j].1 is String) by {
                                    assert(entry_views(b@)[j] == (b@[j].0@, b@[j].1@));
                                }
                                lemma_find_string_value_unique(entry_views(b@), i as int);
                            }
                            return Ok(s);
                        },
                        None => {},
                    }
                    i = i + 1;
                }
                proof {
                    lemma_find_string_value(entry_views(b@));
                    if find_string_value(entry_views(b@)) is Some {
                        let k = find_string_value(entry_views(b@))->0;
                        assert(entry_views(b@)[k] == (b@[k].0@, b@[k].1@));
                    }
                }
                Err(SeaographyError::from_str("internal: enum name not a string"))
            },
            value => Err(SeaographyError::NotAnEnum(value.duplicate())),
        }
    }
}

/// Read access to an object, borrowed until it is written to.
#[derive(Debug)]
pub enum ObjectAccessor<'a> {
    Borrowed(&'a Vec<(Value, Value)>),
    Owned(Vec<(Value, Value)>),
}

fn copy_entries(entries: &Vec<(Value, Value)>) -> (r: Vec<(Value, Value)>)
    ensures
        entry_views(r@) == entry_views(entries@),
{
    let mut out: Vec<(Value, Value)> = Vec::new();
    let mut i: usize = 0;
    while i < entries.len()
        invariant
            i <= entries@.len(),
            out@.len() == i,
            forall|j: int|
                0 <= j < i ==> out@[j].0@ == entries@[j].0@ && out@[j].1@ == entries@[j].1@,
        decreases entries@.len() - i,
    {
        let k = entries[i].0.duplicate();
        let v = entries[i].1.duplicate();
        out.push((k, v));
        i = i + 1;
    }
    proof {
        lemma_entry_views_ext(out@, entries@);
    }
    out
}

/// The position of the first entry whose key is the string `name`.
fn position_of_key(entries: &Vec<(Value, Value)>, name: &str) -> (r: Option<usize>)
    ensures
        r matches Some(i) ==> i < entries@.len() && entries@[i as int].0@ == ValueModel::String(
            name@,
        ),
        match r {
            Some(i) => find_key(entry_views(entries@), name@) == Some(i as int),
            None => find_key(entry_views(entries@), name@) is None,
        },
{
    proof {
        lemma_entry_views_index(entries@);
    }
    let mut i: usize = 0;
    while i < entries.len()
        invariant
            i <= entries@.len(),
            entry_views(entries@).len() == entries@.len(),
            forall|j: int|
                0 <= j < entries@.len() ==> #[trigger] entry_views(entries@)[j] == (
                    entries@[j].0@,
                    entries@[j].1@,
                ),
            forall|j: int| 0 <= j < i ==> entries@[j].0@ != ValueModel::String(name@),
        decreases entries@.len() - i,
    {
        let found = match &entries[i].0 {
            Value::String(s) => str_eq(s.as_str(), name),
            _ => false,
        };
        if found {
            proof {
                assert(entry_views(entries@)[i as int].0 == entries@[i as int].0@);
                assert forall|j: int| 0 <= j < i implies entry_views(entries@)[j].0
                    != ValueModel::String(name@) by {
                    assert(entry_views(entries@)[j].0 == entries@[j].0@);
                }
                lemma_find_key_unique(entry_views(entries@), name@, i as int);
            }
            return Some(i);
        }
        i = i + 1;
    }
    proof {
        lemma_find_key(entry_views(entries@), name@);
        if find_key(entry_views(entries@), name@) is Some {
            let k = find_key(entry_views(entries@), name@)->0;
            assert(entry_views(entries@)[k].0 == entries@[k].0@);
        }
    }
    None
}

impl<'a> ObjectAccessor<'a> {
    /// The model of the entries, in order.
    pub open spec fn entries(&self) -> Seq<(ValueModel, ValueModel)> {
        match self {
            ObjectAccessor::Borrowed(e) => entry_views(e@),
            ObjectAccessor::Owned(e) => entry_views(e@),
        }
    }

    fn entry_vec(&self) -> (r: &Vec<(Value, Value)>)
        ensures
            entry_views(r@) == self.entries(),
    {
        match self {
            ObjectAccessor::Borrowed(e) => e,
            ObjectAccessor::Owned(e) => e,
        }
    }

    /// An accessor over entries that it owns.
    pub fn from_entries(entries: Vec<(Value, Value)>) -> (r: ObjectAccessor<'a>)
        ensures
            r.entries() == entry_views(entries@),
    {
        ObjectAccessor::Owned(entries)
    }

    /// Stores `value` under `key`: an entry whose key equals it keeps its
    /// key and takes the value, else a new entry is added at the end; the
    /// entries that the accessor borrowed are left as they were.
    pub fn insert(&mut self, key: Value, value: Value)
        ensures
            final(self).entries() == insert_value_model(old(self).entries(), key@, value@),
            key@ matches ValueModel::String(name) ==> final(self).entries() == insert_model(
                old(self).entries(),
                name,
                value@,
            ),
    {
        let mut entries = copy_entries(self.entry_vec());
        let ghost before = entry_views(entries@);
        let ghost key_model = key@;
        let ghost value_model = value@;
        proof {
            lemma_entry_views_index(entries@);
            lemma_find_same_key(before, key_model);
        }
        let mut i: usize = 0;
        let mut found: Option<usize> = None;
        while i < entries.len()
            invariant_except_break
                found is None,
                forall|j: int| 0 <= j < i ==> !same_key(#[trigger] before[j].0, key_model),
            invariant
                i <= entries@.len(),
                entry_views(entries@) == before,
                before.len() == entries@.len(),
                forall|j: int| 0 <= j < entries@.len() ==> #[trigger] before[j] == (
                    entries@[j].0@,
                    entries@[j].1@,
                ),
                key@ == key_model,
            ensures
                found matches Some(k) ==> k < before.len() && same_key(before[k as int].0, key_model)
                    && forall|j: int| 0 <= j < k ==> !same_key(#[trigger] before[j].0, key_model),
                found is None ==> forall|j: int|
                    0 <= j < before.len() ==> !same_key(#[trigger] before[j].0, key_model),
            decreases entries@.len() - i,
        {
            if same_key_value(&entries[i].0, &key) {
                proof {
                    assert(before[i as int].0 == entries@[i as int].0@);
                }
                found = Some(i);
                break;
            }
            proof {
                assert(before[i as int].0 == entries@[i as int].0@);
            }
            i = i + 1;
        }
        proof {
            match found {
                Some(k) => {
                    assert(find_same_key(before, key_model) == Some(k as int)) by {
                        lemma_find_same_key(before, key_model);
                        if find_same_key(before, key_model) is Some {
                            let f = find_same_key(before, key_model)->0;
                            if f < k {
                                assert(!same_key(before[f].0, key_model));
                            }
                        }
                    }
                },
                None => {
                    assert(find_same_key(before, key_model) is None) by {
                        lemma_find_same_key(before, key_model);
                        if find_same_key(before, key_model) is Some {
                            let f = find_same_key(before, key_model)->0;
                            assert(!same_key(before[f].0, key_model));
                            assert(false);
                        }
                    }
                },
            }
        }
        match found {
            Some(k) => {
                let kept = entries[k].0.duplicate();
                entries.set(k, (kept, value));
                proof {
                    lemma_entry_views_index(entries@);
                    assert(entry_views(entries@) =~= before.update(
                        k as int,
                        (before[k as int].0, value_model),
                    ));
                }
            },
            None => {
                entries.push((key, value));
                proof {
                    lemma_entry_views_index(entries@);
                    assert(entry_views(entries@) =~= before.push((key_model, value_model)));
                }
            },
        }
        proof {
            if key_model is String {
                lemma_insert_string_key(before, key_model->String_0, value_model);
            }
        }
        *self = ObjectAccessor::Owned(entries);
    }

    pub fn get_type_name(&self) -> (r: &'static str)
        ensures
            r@ == "ObjectAccessor"@,
    {
        "ObjectAccessor"
    }

    /// The value stored under `name`, if there is one.
    pub fn get(&self, name: &str) -> (r: Option<ValueAccessor<'_>>)
        ensures
            match lookup(self.entries(), name@) {
                Some(v) => r matches Some(a) && a.0@ == v,
                None => r is None,
            },
    {
        let entries = self.entry_vec();
        proof {
            lemma_entry_views_index(entries@);
        }
        match position_of_key(entries, name) {
            Some(i) => {
                proof {
                    assert(entry_views(entries@)[i as int] == (
                        entries@[i as int].0@,
                        entries@[i as int].1@,
                    ));
                }
                Some(ValueAccessor(&entries[i].1))
            },
            None => None,
        }
    }

    /// Like `get`, failing where the key is absent.
    pub fn try_get(&self, name: &str) -> (r: SeaResult<ValueAccessor<'_>>)
        ensures
            match lookup(self.entries(), name@) {
                Some(v) => r matches Ok(a) && a.0@ == v,
                None => r matches Err(e) && is_custom(e, "internal: key not found"@),
            },
    {
        match self.get(name) {
            Some(a) => Ok(a),
            None => Err(SeaographyError::from_str("internal: key not found")),
        }
    }

    /// The key-value pairs of the object, in order.
    pub fn to_iter(&self) -> (r: Vec<(&Value, ValueAccessor<'_>)>)
        ensures
            r@.len() == self.entries().len(),
            forall|j: int|
                0 <= j < r@.len() ==> (#[trigger] r@[j]).0@ == self.entries()[j].0 && r@[j].1.0@
                    == self.entries()[j].1,
    {
        let entries = self.entry_vec();
        proof {
            lemma_entry_views_index(entries@);
        }
        let mut out: Vec<(&Value, ValueAccessor<'_>)> = Vec::new();
        let mut i: usize = 0;
        while i < entries.len()
            invariant
                i <= entries@.len(),
                out@.len() == i,
                entry_views(entries@).len() == entries@.len(),
                forall|j: int|
                    0 <= j < entries@.len() ==> #[trigger] entry_views(entries@)[j] == (
                        entries@[j].0@,
                        entries@[j].1@,
                    ),
                forall|j: int|
                    0 <= j < i ==> (#[trigger] out@[j]).0@ == entry_views(entries@)[j].0
                        && out@[j].1.0@ == entry_views(entries@)[j].1,
            decreases entries@.len() - i,
        {
            out.push((&entries[i].0, ValueAccessor(&entries[i].1)));
            i = i + 1;
        }
        out
    }

    /// The keys of the object, in order.
    pub fn keys(&self) -> (r: Vec<&Value>)
        ensures
            r@.len() == self.entries().len(),
            forall|j: int| 0 <= j < r@.len() ==> (#[trigger] r@[j])@ == self.entries()[j].0,
    {
        let entries = self.entry_vec();
        proof {
            lemma_entry_views_index(entries@);
        }
        let mut out: Vec<&Value> = Vec::new();
        let mut i: usize = 0;
        while i < entries.len()
            invariant
                i <= entries@.len(),
                out@.len() == i,
                entry_views(entries@).len() == entries@.len(),
                forall|j: int|
                    0 <= j < entries@.len() ==> #[trigger] entry_views(entries@)[j] == (
                        entries@[j].0@,
                        entries@[j].1@,
                    ),
                forall|j: int|
                    0 <= j < i ==> (#[trigger] out@[j])@ == entry_views(entries@)[j].0,
            decreases entries@.len() - i,
        {
            out.push(&entries[i].0);
            i = i + 1;
        }
        out
    }

    /// The values of the object, in order.
    pub fn values(&self) -> (r: Vec<ValueAccessor<'_>>)
        ensures
            r@.len() == self.entries().len(),
            forall|j: int| 0 <= j < r@.len() ==> (#[trigger] r@[j]).0@ == self.entries()[j].1,
    {
        let entries = self.entry_vec();
        proof {
            lemma_entry_views_index(entries@);
        }
        let mut out: Vec<ValueAccessor<'_>> = Vec::new();
        let mut i: usize = 0;
        while i < entries.len()
            invariant
                i <= entries@.len(),
                out@.len() == i,
                entry_views(entries@).len() == entries@.len(),
                forall|j: int|
                    0 <= j < entries@.len() ==> #[trigger] entry_views(entries@)[j] == (
                        entries@[j].0@,
                        entries@[j].1@,
                    ),
                forall|j: int|
                    0 <= j < i ==> (#[trigger] out@[j]).0@ == entry_views(entries@)[j].1,
            decreases entries@.len() - i,
        {
            out.push(ValueAccessor(&entries[i].1));
            i = i + 1;
        }
        out
    }

    /// Returns the number of entries in the object
    pub fn len(&self) -> (r: usize)
        ensures
            r == self.entries().len(),
    {
        let entries = self.entry_vec();
        proof {
            lemma_entry_views_index(entries@);
        }
        entries.len()
    }

    /// Returns `true` if the object has no entries
    pub fn is_empty(&self) -> (r: bool)
        ensures
            r == (self.entries().len() == 0),
    {
        self.len() == 0
    }

    /// A copy of the entries
    pub fn as_index_map(&self) -> (r: Vec<(Value, Value)>)
        ensures
            entry_views(r@) == self.entries(),
    {
        copy_entries(self.entry_vec())
    }
}

/// Read access to a list.
#[derive(Debug)]
pub struct ListAccessor<'a>(pub &'a [Value]);

impl<'a> ListAccessor<'a> {
    pub fn get_type_name(&self) -> (r: &'static str)
        ensures
            r@ == "ListAccessor"@,
    {
        "ListAccessor"
    }

    /// Returns the number of elements in the list
    pub fn len(&self) -> (r: usize)
        ensures
            r == self.0@.len(),
    {
        self.0.len()
    }

    /// Returns `true` if the list has a length of 0
    pub fn is_empty(&self) -> (r: bool)
        ensures
            r == (self.0@.len() == 0),
    {
        self.0.len() == 0
    }

    /// The elements of the list, in order.
    pub fn to_iter(&self) -> (r: Vec<ValueAccessor<'a>>)
        ensures
            r@.len() == self.0@.len(),
            forall|j: int| 0 <= j < r@.len() ==> (#[trigger] r@[j]).0 == self.0@[j],
    {
        let mut out: Vec<ValueAccessor<'a>> = Vec::new();
        let mut i: usize = 0;
        while i < self.0.len()
            invariant
                i <= self.0@.len(),
                out@.len() == i,
                forall|j: int| 0 <= j < i ==> (#[trigger] out@[j]).0 == self.0@[j],
            decreases self.0@.len() - i,
        {
            out.push(ValueAccessor(&self.0[i]));
            i = i + 1;
        }
        out
    }

    /// The element at `idx`, where there is one.
    pub fn get(&self, idx: usize) -> (r: Option<ValueAccessor<'a>>)
        ensures
            if idx < self.0@.len() {
                r matches Some(a) && a.0 == self.0@[idx as int]
            } else {
                r is None
            },
    {
        if idx < self.0.len() {
            Some(ValueAccessor(&self.0[idx]))
        } else {
            None
        }
    }

    /// Like `get`, failing where the index is out of range.
    pub fn try_get(&self, idx: usize) -> (r: SeaResult<ValueAccessor<'a>>)
        ensures
            if idx < self.0@.len() {
                r matches Ok(a) && a.0 == self.0@[idx as int]
            } else {
                r matches Err(e) && is_custom(e, index_not_found(idx as nat))
            },
    {
        match self.get(idx) {
            Some(a) => Ok(a),
            None => {
                let digits = crate::text::decimal(idx);
                let mut message = String::from_str("internal: index \"");
                message.append(digits.as_str());
                message.append("\" not found");
                Err(SeaographyError::Custom(message))
            },
        }
    }

    /// The elements from `start` up to `end`.
    pub fn as_slice(&self, start: usize, end: usize) -> (r: SeaResult<ListAccessor<'a>>)
        ensures
            if start <= end && end <= self.0@.len() {
                r matches Ok(l) && l.0@ == self.0@.subrange(start as int, end as int)
            } else {
                r matches Err(e) && is_custom(e, "internal: invalid slice indices"@)
            },
    {
        if start <= end && end <= self.0.len() {
            Ok(ListAccessor(&self.0[start..end]))
        } else {
            Err(SeaographyError::from_str("internal: invalid slice indices"))
        }
    }

    /// A copy of the elements.
    pub fn as_values_slice(&self) -> (r: Vec<Value>)
        ensures
            views(r@) == views(self.0@),
    {
        let mut out: Vec<Value> = Vec::new();
        let mut i: usize = 0;
        while i < self.0.len()
            invariant
                i <= self.0@.len(),
                out@.len() == i,
                forall|j: int| 0 <= j < i ==> out@[j]@ == self.0@[j]@,
            decreases self.0@.len() - i,
        {
            out.push(self.0[i].duplicate());
            i = i + 1;
        }
        proof {
            lemma_views_ext(out@, self.0@);
        }
        out
    }
}

/// The message for an index that a list does not have.
pub open spec fn index_not_found(idx: nat) -> Seq<char> {
    "internal: index \""@ + crate::text::decimal_model(idx) + "\" not found"@
}

/// Taking a sub-list and reading its element `i` reads element `start + i`
/// of the whole list.
pub proof fn lemma_slice_then_get(items: Seq<Value>, start: int, end: int, i: int)
    requires
        0 <= start <= end <= items.len(),
        0 <= i < end - start,
    ensures
        items.subrange(start, end)[i] == items[start + i],
{
}

} // verus!
