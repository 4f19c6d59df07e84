//! The API-neutral layer: what a GraphQL schema and a Protobuf service share,
//! with a GraphQL side and a Protobuf side for each piece.
use vstd::prelude::*;
use crate::accessor::{
    find_string_value, index_not_found, lookup, ListAccessor, ObjectAccessor, ValueAccessor,
};
use crate::error::{is_custom, SeaResult, SeaographyError};
use crate::name_map::{index_of, insert_entry, lemma_get_after_insert, lemma_index_of, NameMap};
use crate::object::{typename_field, Field as GraphQLField, InputValue, Object as GraphQLObject};
use crate::builder::SchemaBuilder;
use crate::registry::Type as GraphQLType;
use crate::schema::DeprecationStatus;
use crate::schema::{Enum, EnumItem};
use crate::value::{entry_views, views, ValueModel};
use crate::text::owned;
use crate::type_ref::{list_model, named_model, non_null_model, TypeRef as GraphQLTypeRef, TypeRefModel};
use indexmap::IndexMap;

verus! {

/// The API that a request came through.
#[derive(Clone, Copy, Debug, PartialEq, Eq)]
pub enum ApiType {
    GraphQL,
    Proto,
}

/// Whether an object is read from requests or written to responses.
#[derive(Clone, Copy, Debug, PartialEq, Eq)]
pub enum IO {
    Input,
    Output,
}

/// An error raised by a GraphQL resolver: its message.
#[derive(Debug)]
pub struct GraphQLError {
    pub message: String,
}

/// An error raised by a Protobuf resolver: its message.
#[derive(Debug)]
pub struct ProtoError {
    pub message: String,
}

/// An error of either API.
#[derive(Debug)]
pub struct Error {
    pub message: String,
}

/// Errors built from a message.
pub trait ErrorTrait: Sized {
    /// The message the error carries.
    spec fn spec_message(&self) -> Seq<char>;

    fn new(message: &str) -> (r: Self)
        ensures
            r.spec_message() == message@,
    ;
}

impl ErrorTrait for GraphQLError {
    open spec fn spec_message(&self) -> Seq<char> {
        self.message@
    }

    fn new(message: &str) -> (r: Self) {
        GraphQLError { message: owned(message) }
    }
}

impl ErrorTrait for ProtoError {
    open spec fn spec_message(&self) -> Seq<char> {
        self.message@
    }

    fn new(message: &str) -> (r: Self) {
        ProtoError { message: owned(message) }
    }
}

impl ErrorTrait for Error {
    open spec fn spec_message(&self) -> Seq<char> {
        self.message@
    }

    fn new(message: &str) -> (r: Self) {
        Error::new(message)
    }
}

impl Error {
    /// An error with the given message.
    pub fn new(message: &str) -> (r: Self)
        ensures
            r.message@ == message@,
    {
        Error { message: owned(message) }
    }

    /// The GraphQL error with the same message.
    pub fn to_graphql(self) -> (r: GraphQLError)
        ensures
            r.message == self.message,
    {
        GraphQLError { message: self.message }
    }

    /// The Protobuf error with the same message.
    pub fn to_proto(self) -> (r: ProtoError)
        ensures
            r.message == self.message,
    {
        ProtoError { message: self.message }
    }
}

/// Type references: named types, lists of them and non-null wrappers.
pub trait TypeRefTrait: Sized {
    /// The shape of the reference.
    spec fn spec_model(&self) -> TypeRefModel;

    /// `T`
    fn named(name: &str) -> (r: Self)
        ensures
            r.spec_model() == named_model(name@),
    ;

    /// `T!`
    fn named_nn(name: &str) -> (r: Self)
        ensures
            r.spec_model() == non_null_model(named_model(name@)),
    ;

    /// `[T]`
    fn named_list(name: &str) -> (r: Self)
        ensures
            r.spec_model() == list_model(named_model(name@)),
    ;

    /// `[T!]`
    fn named_nn_list(name: &str) -> (r: Self)
        ensures
            r.spec_model() == list_model(non_null_model(named_model(name@))),
    ;

    /// `[T]!`
    fn named_list_nn(name: &str) -> (r: Self)
        ensures
            r.spec_model() == non_null_model(list_model(named_model(name@))),
    ;

    /// `[T!]!`
    fn named_nn_list_nn(name: &str) -> (r: Self)
        ensures
            r.spec_model() == non_null_model(list_model(non_null_model(named_model(name@)))),
    ;

    /// The non-null reference to `ty`.
    fn non_null(ty: Box<Self>) -> (r: Self)
        ensures
            r.spec_model() == non_null_model(ty.spec_model()),
    ;

    /// The name of the named type at the core: `[Foo!]` gives `Foo`.
    fn get_type_name(&self) -> (r: &str)
        ensures
            r@ == self.spec_model().name(),
    ;

    /// The names of the built-in scalars that stand for each Protobuf scalar.
    const DOUBLE: &'static str;
    const FLOAT: &'static str;
    const INT32: &'static str;
    const INT64: &'static str;
    const UINT32: &'static str;
    const UINT64: &'static str;
    const SINT32: &'static str;
    const SINT64: &'static str;
    const FIXED32: &'static str;
    const FIXED64: &'static str;
    const SFIXED32: &'static str;
    const SFIXED64: &'static str;
    const BOOL: &'static str;
    const STRING: &'static str;
    const BYTES: &'static str;
    const ID: &'static str;
}

impl TypeRefTrait for GraphQLTypeRef {
    open spec fn spec_model(&self) -> TypeRefModel {
        self@
    }

    fn named(name: &str) -> (r: Self) {
        GraphQLTypeRef::named(name)
    }

    fn named_nn(name: &str) -> (r: Self) {
        GraphQLTypeRef::named_nn(name)
    }

    fn named_list(name: &str) -> (r: Self) {
        GraphQLTypeRef::named_list(name)
    }

    fn named_nn_list(name: &str) -> (r: Self) {
        GraphQLTypeRef::named_nn_list(name)
    }

    fn named_list_nn(name: &str) -> (r: Self) {
        GraphQLTypeRef::named_list_nn(name)
    }

    fn named_nn_list_nn(name: &str) -> (r: Self) {
        GraphQLTypeRef::named_nn_list_nn(name)
    }

    fn non_null(ty: Box<Self>) -> (r: Self) {
        GraphQLTypeRef::non_null(ty)
    }

    fn get_type_name(&self) -> (r: &str) {
        GraphQLTypeRef::get_type_name(self)
    }

    const DOUBLE: &'static str = GraphQLTypeRef::FLOAT;
    const FLOAT: &'static str = GraphQLTypeRef::FLOAT;
    const INT32: &'static str = GraphQLTypeRef::INT;
    const INT64: &'static str = GraphQLTypeRef::INT;
    const UINT32: &'static str = GraphQLTypeRef::INT;
    const UINT64: &'static str = GraphQLTypeRef::INT;
    const SINT32: &'static str = GraphQLTypeRef::INT;
    const SINT64: &'static str = GraphQLTypeRef::INT;
    const FIXED32: &'static str = GraphQLTypeRef::INT;
    const FIXED64: &'static str = GraphQLTypeRef::INT;
    const SFIXED32: &'static str = GraphQLTypeRef::INT;
    const SFIXED64: &'static str = GraphQLTypeRef::INT;
    const BOOL: &'static str = GraphQLTypeRef::BOOLEAN;
    const STRING: &'static str = GraphQLTypeRef::STRING;
    const BYTES: &'static str = GraphQLTypeRef::STRING;
    const ID: &'static str = GraphQLTypeRef::ID;
}

/// Items of an enum: built from a name.
pub trait EnumItemTrait: Sized {
    /// The name of the item.
    spec fn spec_item_name(&self) -> Seq<char>;

    fn new(name: &str) -> (r: Self)
        ensures
            r.spec_item_name() == name@,
    ;

    fn get_type_name(&self) -> (r: &str)
        ensures
            r@ == self.spec_item_name(),
    ;
}

/// Enums: a name and items, each stored under its name.
pub trait EnumTrait: Sized {
    type Item: EnumItemTrait;

    /// The name of the enum.
    spec fn spec_enum_name(&self) -> Seq<char>;

    /// The item stored under `name`, if any.
    spec fn spec_item(&self, name: Seq<char>) -> Option<Self::Item>;

    fn new(name: &str) -> (r: Self)
        ensures
            r.spec_enum_name() == name@,
            forall|n: Seq<char>| r.spec_item(n) is None,
    ;

    /// Stores `item` under its name, in place of an item of that name.
    fn item(self, item: Self::Item) -> (r: Self)
        ensures
            r.spec_enum_name() == self.spec_enum_name(),
            r.spec_item(item.spec_item_name()) == Some(item),
            forall|n: Seq<char>|
                n != item.spec_item_name() ==> r.spec_item(n) == self.spec_item(n),
    ;

    /// Stores each item in turn, in place of an item of its name.
    fn items(self, items: Vec<Self::Item>) -> (r: Self)
        ensures
            r.spec_enum_name() == self.spec_enum_name(),
            forall|n: Seq<char>|
                r.spec_item(n) == match last_named(items@, n) {
                    Some(item) => Some(item),
                    None => self.spec_item(n),
                },
    ;

    fn get_type_name(&self) -> (r: &str)
        ensures
            r@ == self.spec_enum_name(),
    ;
}

/// The last of `items` whose name is `n`, if any.
pub open spec fn last_named<I: EnumItemTrait>(items: Seq<I>, n: Seq<char>) -> Option<I>
    decreases items.len(),
{
    if items.len() == 0 {
        None
    } else if items.last().spec_item_name() == n {
        Some(items.last())
    } else {
        last_named(items.drop_last(), n)
    }
}

/// Storing items in turn keeps, under each name, the last item of that
/// name, and elsewhere what was stored before.
pub proof fn lemma_insert_all_get(entries: Seq<(String, EnumItem)>, items: Seq<EnumItem>, n: Seq<char>)
    ensures
        crate::name_map::entry_get(crate::schema::insert_all(entries, items), n) == match last_named(
            items,
            n,
        ) {
            Some(item) => Some(item),
            None => crate::name_map::entry_get(entries, n),
        },
    decreases items.len(),
{
    if items.len() > 0 {
        lemma_insert_all_get(entries, items.drop_last(), n);
        let before = crate::schema::insert_all(entries, items.drop_last());
        crate::name_map::lemma_get_after_insert(before, items.last().name, items.last(), n);
    }
}

/// The last item named `n`, where there is one, has that name, and there
/// is one exactly when some item has that name.
pub proof fn lemma_last_named<I: EnumItemTrait>(items: Seq<I>, n: Seq<char>)
    ensures
        last_named(items, n) is Some <==> exists|i: int|
            0 <= i < items.len() && (#[trigger] items[i]).spec_item_name() == n,
        last_named(items, n) matches Some(item) ==> item.spec_item_name() == n,
    decreases items.len(),
{
    if items.len() > 0 {
        let rest = items.drop_last();
        lemma_last_named(rest, n);
        if items.last().spec_item_name() != n {
            if exists|i: int| 0 <= i < items.len() && (#[trigger] items[i]).spec_item_name() == n {
                let i = choose|i: int| 0 <= i < items.len() && (#[trigger] items[i]).spec_item_name() == n;
                assert(i < items.len() - 1);
                assert(rest[i] == items[i]);
            }
            if exists|i: int| 0 <= i < rest.len() && (#[trigger] rest[i]).spec_item_name() == n {
                let i = choose|i: int| 0 <= i < rest.len() && (#[trigger] rest[i]).spec_item_name() == n;
                assert(items[i] == rest[i]);
            }
        } else {
            assert(items[items.len() - 1].spec_item_name() == n);
        }
    }
}

/// An item found under the name `k`, if any, has that name.
pub open spec fn named_as(found: Option<EnumItem>, k: Seq<char>) -> bool {
    found matches Some(item) ==> item.name@ == k
}

/// Adding items to an enum stores each of them under its name: afterwards
/// a name has an item exactly where one of the added items has that name or
/// it had one before, and an item stored under a name has that name, so
/// items of equal names take one entry, the last of them.
pub proof fn lemma_items_key_set(entries: Seq<(String, EnumItem)>, items: Seq<EnumItem>, n: Seq<char>)
    requires
        forall|k: Seq<char>| named_as(#[trigger] crate::name_map::entry_get(entries, k), k),
    ensures
        crate::name_map::entry_get(crate::schema::insert_all(entries, items), n) is Some <==> (
        (exists|i: int| 0 <= i < items.len() && (#[trigger] items[i]).name@ == n)
            || crate::name_map::entry_get(entries, n) is Some),
        named_as(crate::name_map::entry_get(crate::schema::insert_all(entries, items), n), n),
{
    lemma_insert_all_get(entries, items, n);
    lemma_last_named(items, n);
    assert(forall|i: int| 0 <= i < items.len() ==> (#[trigger] items[i]).spec_item_name() == items[i].name@);
}

impl EnumItemTrait for EnumItem {
    open spec fn spec_item_name(&self) -> Seq<char> {
        self.name@
    }

    fn new(name: &str) -> (r: Self) {
        EnumItem::new(name)
    }

    fn get_type_name(&self) -> (r: &str) {
        EnumItem::get_type_name(self)
    }
}

impl EnumTrait for Enum {
    type Item = EnumItem;

    open spec fn spec_enum_name(&self) -> Seq<char> {
        self.name@
    }

    open spec fn spec_item(&self, name: Seq<char>) -> Option<EnumItem> {
        self.enum_values.spec_get(name)
    }

    fn new(name: &str) -> (r: Self) {
        Enum::new(name)
    }

    fn item(self, item: EnumItem) -> (r: Self) {
        let ghost before = self.enum_values.spec_entries();
        let ghost it = item;
        let r = Enum::item(self, item);
        proof {
            crate::name_map::lemma_get_after_insert(before, it.name, it, it.name@);
            assert forall|n: Seq<char>| n != it.name@ implies r.enum_values.spec_get(n)
                == crate::name_map::entry_get(before, n) by {
                crate::name_map::lemma_get_after_insert(before, it.name, it, n);
            }
        }
        r
    }

    fn items(self, items: Vec<EnumItem>) -> (r: Self) {
        let ghost before = self.enum_values.spec_entries();
        let ghost all = items@;
        let r = Enum::items(self, items);
        proof {
            assert forall|n: Seq<char>| r.enum_values.spec_get(n) == match last_named(all, n) {
                Some(item) => Some(item),
                None => crate::name_map::entry_get(before, n),
            } by {
                lemma_insert_all_get(before, all, n);
            }
        }
        r
    }

    fn get_type_name(&self) -> (r: &str) {
        Enum::get_type_name(self)
    }
}

/// An enum item on both sides: its GraphQL item and its Protobuf item.
#[derive(Debug)]
pub struct EnumItems<P> {
    pub graphql: EnumItem,
    pub proto: P,
}

impl<P> EnumItems<P> {
    pub fn new(graphql: EnumItem, proto: P) -> (r: Self)
        ensures
            r.graphql == graphql,
            r.proto == proto,
    {
        Self { graphql, proto }
    }
}

/// A type reference on both sides: the GraphQL one and the Protobuf one.
#[derive(Debug)]
pub struct TypeRef<P> {
    pub graphql: GraphQLTypeRef,
    pub proto: P,
}

impl<P> TypeRef<P> {
    pub fn new(graphql: GraphQLTypeRef, proto: P) -> (r: Self)
        ensures
            r.graphql == graphql,
            r.proto == proto,
    {
        Self { graphql, proto }
    }

    /// The GraphQL side.
    pub fn to_graphql(self) -> (r: GraphQLTypeRef)
        ensures
            r == self.graphql,
    {
        self.graphql
    }

    /// The Protobuf side.
    pub fn to_proto(self) -> (r: P)
        ensures
            r == self.proto,
    {
        self.proto
    }
}

/// Read access to a value that came through either API.
#[derive(Debug)]
pub enum ValueAccessors<'a> {
    GraphQL(ValueAccessor<'a>),
    Proto(ValueAccessor<'a>),
}

impl<'a> ValueAccessors<'a> {
    pub fn graphql(value: ValueAccessor<'a>) -> (r: Self)
        ensures
            r == ValueAccessors::GraphQL(value),
    {
        ValueAccessors::GraphQL(value)
    }

    pub fn proto(value: ValueAccessor<'a>) -> (r: Self)
        ensures
            r == ValueAccessors::Proto(value),
    {
        ValueAccessors::Proto(value)
    }

    /// The API the value came through.
    pub open spec fn api(&self) -> ApiType {
        match self {
            ValueAccessors::GraphQL(_) => ApiType::GraphQL,
            ValueAccessors::Proto(_) => ApiType::Proto,
        }
    }

    /// The model of the value that is read.
    pub open spec fn value(&self) -> ValueModel {
        match self {
            ValueAccessors::GraphQL(a) => a.0@,
            ValueAccessors::Proto(a) => a.0@,
        }
    }

    fn inner(&self) -> (r: &ValueAccessor<'a>)
        ensures
            r.0@ == self.value(),
    {
        match self {
            ValueAccessors::GraphQL(a) => a,
            ValueAccessors::Proto(a) => a,
        }
    }

    pub fn get_type_name(&self) -> (r: &'static str)
        ensures
            r@ == "ValueAccessors"@,
    {
        "ValueAccessors"
    }

    pub fn is_null(&self) -> (r: bool)
        ensures
            r == (self.value() is Null),
    {
        self.inner().is_null()
    }

    pub fn boolean(&self) -> (r: SeaResult<bool>)
        ensures
            match self.value() {
                ValueModel::Bool(b) => r == Ok::<bool, SeaographyError>(b),
                _ => r matches Err(e) && is_custom(e, "internal: not a bool"@),
            },
    {
        self.inner().bool()
    }

    pub fn i32(&self) -> (r: SeaResult<i32>)
        ensures
            match self.value() {
                ValueModel::Int32(b) => r == Ok::<i32, SeaographyError>(b),
                _ => r matches Err(e) && is_custom(e, "internal: not a i32"@),
            },
    {
        self.inner().int32()
    }

    pub fn i64(&self) -> (r: SeaResult<i64>)
        ensures
            match self.value() {
                ValueModel::Int64(b) => r == Ok::<i64, SeaographyError>(b),
                _ => r matches Err(e) && is_custom(e, "internal: not a i64"@),
            },
    {
        self.inner().int64()
    }

    pub fn u32(&self) -> (r: SeaResult<u32>)
        ensures
            match self.value() {
                ValueModel::UInt32(b) => r == Ok::<u32, SeaographyError>(b),
                _ => r matches Err(e) && is_custom(e, "internal: not a u32"@),
            },
    {
        self.inner().uint32()
    }

    pub fn u64(&self) -> (r: SeaResult<u64>)
        ensures
            match self.value() {
                ValueModel::UInt64(b) => r == Ok::<u64, SeaographyError>(b),
                _ => r matches Err(e) && is_custom(e, "internal: not a u64"@),
            },
    {
        self.inner().uint64()
    }

    pub fn si32(&self) -> (r: SeaResult<i32>)
        ensures
            match self.value() {
                ValueModel::Int32(b) => r == Ok::<i32, SeaographyError>(b),
                _ => r matches Err(e) && is_custom(e, "internal: not a i32"@),
            },
    {
        self.inner().int32()
    }

    pub fn si64(&self) -> (r: SeaResult<i64>)
        ensures
            match self.value() {
                ValueModel::Int64(b) => r == Ok::<i64, SeaographyError>(b),
                _ => r matches Err(e) && is_custom(e, "internal: not a i64"@),
            },
    {
        self.inner().int64()
    }

    /// The bit pattern of a 32-bit float.
    pub fn f32_bits(&self) -> (r: SeaResult<u32>)
        ensures
            match self.value() {
                ValueModel::Float32(b) => r == Ok::<u32, SeaographyError>(b),
                _ => r matches Err(e) && is_custom(e, "internal: not a f32"@),
            },
    {
        self.inner().float32()
    }

    /// The bit pattern of a 64-bit float.
    pub fn f64_bits(&self) -> (r: SeaResult<u64>)
        ensures
            match self.value() {
                ValueModel::Float64(b) => r == Ok::<u64, SeaographyError>(b),
                _ => r matches Err(e) && is_custom(e, "internal: not a f64"@),
            },
    {
        self.inner().float64()
    }

    pub fn string(&self) -> (r: SeaResult<&'a str>)
        ensures
            match self.value() {
                ValueModel::String(s) => r matches Ok(x) && x@ == s,
                _ => r matches Err(e) && is_custom(e, "internal: not a String"@),
            },
    {
        self.inner().string()
    }

    /// The name of an enum item: the first string among the values of an
    /// object.
    pub fn enum_name(&self) -> (r: SeaResult<&'a str>)
        ensures
            match self.value() {
                ValueModel::Object(entries) => match find_string_value(entries) {
                    Some(i) => r matches Ok(x) && entries[i].1 == ValueModel::String(x@),
                    None => r matches Err(e) && is_custom(
                        e,
                        "internal: enum name not a string"@,
                    ),
                },
                _ => r matches Err(SeaographyError::NotAnEnum(v)) && v@ == self.value(),
            },
    {
        self.inner().enum_name()
    }

    /// The object accessor, through the same API.
    pub fn object(&self) -> (r: SeaResult<ObjectAccessors<'a>>)
        ensures
            match self.value() {
                ValueModel::Object(entries) => r matches Ok(o) && o.entries() == entries
                    && o.api() == self.api(),
                _ => r matches Err(e) && is_custom(e, "internal: not an object"@),
            },
    {
        match self {
            ValueAccessors::GraphQL(a) => match a.object() {
                Ok(o) => Ok(ObjectAccessors::GraphQL(o)),
                Err(e) => Err(e),
            },
            ValueAccessors::Proto(a) => match a.object() {
                Ok(o) => Ok(ObjectAccessors::Proto(o)),
                Err(e) => Err(e),
            },
        }
    }

    /// The list accessor, through the same API.
    pub fn list(&self) -> (r: SeaResult<ListAccessors<'a>>)
        ensures
            match self.value() {
                ValueModel::List(items) => r matches Ok(l) && views(l.items()) == items
                    && l.api() == self.api(),
                _ => r matches Err(e) && is_custom(e, "internal: not a list"@),
            },
    {
        match self {
            ValueAccessors::GraphQL(a) => match a.list() {
                Ok(l) => Ok(ListAccessors::GraphQL(l)),
                Err(e) => Err(e),
            },
            ValueAccessors::Proto(a) => match a.list() {
                Ok(l) => Ok(ListAccessors::Proto(l)),
                Err(e) => Err(e),
            },
        }
    }

    /// A copy of the value.
    pub fn as_value(&self) -> (r: crate::value::Value)
        ensures
            r@ == self.value(),
    {
        self.inner().as_value()
    }
}

/// Read access to an object that came through either API.
#[derive(Debug)]
pub enum ObjectAccessors<'a> {
    GraphQL(ObjectAccessor<'a>),
    Proto(ObjectAccessor<'a>),
}

impl<'a> ObjectAccessors<'a> {
    pub fn graphql(value: ObjectAccessor<'a>) -> (r: Self)
        ensures
            r == ObjectAccessors::GraphQL(value),
    {
        ObjectAccessors::GraphQL(value)
    }

    pub fn proto(value: ObjectAccessor<'a>) -> (r: Self)
        ensures
            r == ObjectAccessors::Proto(value),
    {
        ObjectAccessors::Proto(value)
    }

    /// The API the object came through.
    pub open spec fn api(&self) -> ApiType {
        match self {
            ObjectAccessors::GraphQL(_) => ApiType::GraphQL,
            ObjectAccessors::Proto(_) => ApiType::Proto,
        }
    }

    /// The model of the entries, in order.
    pub open spec fn entries(&self) -> Seq<(ValueModel, ValueModel)> {
        match self {
            ObjectAccessors::GraphQL(o) => o.entries(),
            ObjectAccessors::Proto(o) => o.entries(),
        }
    }

    fn inner(&self) -> (r: &ObjectAccessor<'a>)
        ensures
            r.entries() == self.entries(),
    {
        match self {
            ObjectAccessors::GraphQL(o) => o,
            ObjectAccessors::Proto(o) => o,
        }
    }

    pub fn get_type_name(&self) -> (r: &'static str)
        ensures
            r@ == "GraphQLObjectAccessor"@,
    {
        "GraphQLObjectAccessor"
    }

    /// The value stored under `name`, through the same API.
    pub fn get(&self, name: &str) -> (r: Option<ValueAccessors<'_>>)
        ensures
            match lookup(self.entries(), name@) {
                Some(v) => r matches Some(a) && a.value() == v && a.api() == self.api(),
                None => r is None,
            },
    {
        match self {
            ObjectAccessors::GraphQL(o) => match o.get(name) {
                Some(a) => Some(ValueAccessors::GraphQL(a)),
                None => None,
            },
            ObjectAccessors::Proto(o) => match o.get(name) {
                Some(a) => Some(ValueAccessors::Proto(a)),
                None => None,
            },
        }
    }

    /// Like `get`, failing where the key is absent.
    pub fn try_get(&self, name: &str) -> (r: SeaResult<ValueAccessors<'_>>)
        ensures
            match lookup(self.entries(), name@) {
                Some(v) => r matches Ok(a) && a.value() == v && a.api() == self.api(),
                None => r matches Err(e) && is_custom(e, "internal: key not found"@),
            },
    {
        match self.get(name) {
            Some(a) => Ok(a),
            None => Err(SeaographyError::from_str("internal: key not found")),
        }
    }

    /// The key-value pairs of the object, in order, the values through the
    /// same API.
    pub fn to_iter(&self) -> (r: Vec<(&crate::value::Value, ValueAccessors<'_>)>)
        ensures
            r@.len() == self.entries().len(),
            forall|j: int|
                0 <= j < r@.len() ==> (#[trigger] r@[j]).0@ == self.entries()[j].0 && r@[j].1.value()
                    == self.entries()[j].1 && r@[j].1.api() == self.api(),
    {
        let pairs = self.inner().to_iter();
        let api = object_api(self);
        let mut out: Vec<(&crate::value::Value, ValueAccessors<'_>)> = Vec::new();
        let mut i: usize = 0;
        while i < pairs.len()
            invariant
                i <= pairs@.len(),
                pairs@.len() == self.entries().len(),
                api == self.api(),
                forall|j: int|
                    0 <= j < pairs@.len() ==> (#[trigger] pairs@[j]).0@ == self.entries()[j].0
                        && pairs@[j].1.0@ == self.entries()[j].1,
                out@.len() == i,
                forall|j: int|
                    0 <= j < i ==> (#[trigger] out@[j]).0@ == self.entries()[j].0 && out@[j].1.value()
                        == self.entries()[j].1 && out@[j].1.api() == api,
            decreases pairs@.len() - i,
        {
            let (k, v) = (pairs[i].0, pairs[i].1.0);
            let w = match api {
                ApiType::GraphQL => ValueAccessors::GraphQL(ValueAccessor(v)),
                ApiType::Proto => ValueAccessors::Proto(ValueAccessor(v)),
            };
            out.push((k, w));
            i = i + 1;
        }
        out
    }

    /// The keys of the object, in order.
    pub fn keys(&self) -> (r: Vec<&crate::value::Value>)
        ensures
            r@.len() == self.entries().len(),
            forall|j: int| 0 <= j < r@.len() ==> (#[trigger] r@[j])@ == self.entries()[j].0,
    {
        self.inner().keys()
    }

    /// The values of the object, in order, through the same API.
    pub fn values(&self) -> (r: Vec<ValueAccessors<'_>>)
        ensures
            r@.len() == self.entries().len(),
            forall|j: int|
                0 <= j < r@.len() ==> (#[trigger] r@[j]).value() == self.entries()[j].1 && r@[j].api()
                    == self.api(),
    {
        wrap_all(self.inner().values(), object_api(self))
    }

    pub fn len(&self) -> (r: usize)
        ensures
            r == self.entries().len(),
    {
        self.inner().len()
    }

    pub fn is_empty(&self) -> (r: bool)
        ensures
            r == (self.entries().len() == 0),
    {
        self.inner().is_empty()
    }

    /// A copy of the entries, in order.
    pub fn as_index_map(&self) -> (r: Vec<(crate::value::Value, crate::value::Value)>)
        ensures
            entry_views(r@) == self.entries(),
    {
        self.inner().as_index_map()
    }
}

/// The accessors of `values`, each through `api`.
fn wrap_all<'b>(values: Vec<ValueAccessor<'b>>, api: ApiType) -> (r: Vec<ValueAccessors<'b>>)
    ensures
        r@.len() == values@.len(),
        forall|j: int|
            0 <= j < r@.len() ==> (#[trigger] r@[j]).value() == values@[j].0@ && r@[j].api() == api,
{
    let mut out: Vec<ValueAccessors<'b>> = Vec::new();
    let mut i: usize = 0;
    while i < values.len()
        invariant
            i <= values@.len(),
            out@.len() == i,
            forall|j: int|
                0 <= j < i ==> (#[trigger] out@[j]).value() == values@[j].0@ && out@[j].api() == api,
        decreases values@.len() - i,
    {
        let a = ValueAccessor(values[i].0);
        let w = match api {
            ApiType::GraphQL => ValueAccessors::GraphQL(a),
            ApiType::Proto => ValueAccessors::Proto(a),
        };
        out.push(w);
        i = i + 1;
    }
    out
}

/// The API an object accessor reads through.
fn object_api(o: &ObjectAccessors) -> (r: ApiType)
    ensures
        r == o.api(),
{
    match o {
        ObjectAccessors::GraphQL(_) => ApiType::GraphQL,
        ObjectAccessors::Proto(_) => ApiType::Proto,
    }
}

/// The API a list accessor reads through.
fn list_api(l: &ListAccessors) -> (r: ApiType)
    ensures
        r == l.api(),
{
    match l {
        ListAccessors::GraphQL(_) => ApiType::GraphQL,
        ListAccessors::Proto(_) => ApiType::Proto,
    }
}

/// Read access to a list that came through either API.
#[derive(Debug)]
pub enum ListAccessors<'a> {
    GraphQL(ListAccessor<'a>),
    Proto(ListAccessor<'a>),
}

impl<'a> ListAccessors<'a> {
    pub fn graphql(value: ListAccessor<'a>) -> (r: Self)
        ensures
            r == ListAccessors::GraphQL(value),
    {
        ListAccessors::GraphQL(value)
    }

    pub fn proto(value: ListAccessor<'a>) -> (r: Self)
        ensures
            r == ListAccessors::Proto(value),
    {
        ListAccessors::Proto(value)
    }

    /// The API the list came through.
    pub open spec fn api(&self) -> ApiType {
        match self {
            ListAccessors::GraphQL(_) => ApiType::GraphQL,
            ListAccessors::Proto(_) => ApiType::Proto,
        }
    }

    /// The elements, in order.
    pub open spec fn items(&self) -> Seq<crate::value::Value> {
        match self {
            ListAccessors::GraphQL(l) => l.0@,
            ListAccessors::Proto(l) => l.0@,
        }
    }

    fn inner(&self) -> (r: &ListAccessor<'a>)
        ensures
            r.0@ == self.items(),
    {
        match self {
            ListAccessors::GraphQL(l) => l,
            ListAccessors::Proto(l) => l,
        }
    }

    pub fn get_type_name(&self) -> (r: &'static str)
        ensures
            r@ == "ListAccessor"@,
    {
        "ListAccessor"
    }

    pub fn len(&self) -> (r: usize)
        ensures
            r == self.items().len(),
    {
        self.inner().len()
    }

    pub fn is_empty(&self) -> (r: bool)
        ensures
            r == (self.items().len() == 0),
    {
        self.inner().is_empty()
    }

    /// The elements, in order, through the same API.
    pub fn to_iter(&self) -> (r: Vec<ValueAccessors<'a>>)
        ensures
            r@.len() == self.items().len(),
            forall|j: int|
                0 <= j < r@.len() ==> (#[trigger] r@[j]).value() == self.items()[j]@ && r@[j].api()
                    == self.api(),
    {
        wrap_all(self.inner().to_iter(), list_api(self))
    }

    /// The element at `idx`, through the same API.
    pub fn get(&self, idx: usize) -> (r: Option<ValueAccessors<'a>>)
        ensures
            if idx < self.items().len() {
                r matches Some(a) && a.value() == self.items()[idx as int]@ && a.api()
                    == self.api()
            } else {
                r is None
            },
    {
        match self {
            ListAccessors::GraphQL(l) => match l.get(idx) {
                Some(a) => Some(ValueAccessors::GraphQL(a)),
                None => None,
            },
            ListAccessors::Proto(l) => match l.get(idx) {
                Some(a) => Some(ValueAccessors::Proto(a)),
                None => None,
            },
        }
    }

    /// Like `get`, failing where the index is out of range.
    pub fn try_get(&self, idx: usize) -> (r: SeaResult<ValueAccessors<'a>>)
        ensures
            if idx < self.items().len() {
                r matches Ok(a) && a.value() == self.items()[idx as int]@ && a.api() == self.api()
            } else {
                r matches Err(e) && is_custom(e, index_not_found(idx as nat))
            },
    {
        match self {
            ListAccessors::GraphQL(l) => match l.try_get(idx) {
                Ok(a) => Ok(ValueAccessors::GraphQL(a)),
                Err(e) => Err(e),
            },
            ListAccessors::Proto(l) => match l.try_get(idx) {
                Ok(a) => Ok(ValueAccessors::Proto(a)),
                Err(e) => Err(e),
            },
        }
    }

    /// The elements from `start` up to `end`, through the same API.
    pub fn as_slice(&self, start: usize, end: usize) -> (r: SeaResult<ListAccessors<'a>>)
        ensures
            if start <= end && end <= self.items().len() {
                r matches Ok(l) && l.items() == self.items().subrange(start as int, end as int)
                    && l.api() == self.api()
            } else {
                r matches Err(e) && is_custom(e, "internal: invalid slice indices"@)
            },
    {
        match self {
            ListAccessors::GraphQL(l) => match l.as_slice(start, end) {
                Ok(s) => Ok(ListAccessors::GraphQL(s)),
                Err(e) => Err(e),
            },
            ListAccessors::Proto(l) => match l.as_slice(start, end) {
                Ok(s) => Ok(ListAccessors::Proto(s)),
                Err(e) => Err(e),
            },
        }
    }

    /// A copy of the elements, in order.
    pub fn as_values_slice(&self) -> (r: Vec<crate::value::Value>)
        ensures
            views(r@) == views(self.items()),
    {
        self.inner().as_values_slice()
    }
}

/// A field of an object of either API: a name, a type and the arguments it
/// takes; an output field is resolved by a resolver function.
#[derive(Debug)]
pub struct Field {
    pub name: String,
    pub arguments: NameMap<InputValue>,
    pub ty: GraphQLTypeRef,
    /// Whether the field is resolved by a resolver function.
    pub has_resolver: bool,
}

/// `arg` is the argument that `field` stands for: its name and its type.
pub open spec fn argument_of(arg: InputValue, field: Field) -> bool {
    &&& arg.name == field.name
    &&& arg.ty == field.ty
    &&& arg.description is None
    &&& arg.deprecation is Current
    &&& !arg.inaccessible
    &&& arg.default_value is None
}

/// `g` is the GraphQL field that `f` becomes in an object read from requests
/// (`Input`) or written to responses (`Output`).
pub open spec fn converts_to(g: GraphQLField, f: Field, io: IO) -> bool {
    &&& g.name@ == f.name@
    &&& g.ty == f.ty
    &&& g.description is None
    &&& g.deprecation is Current
    &&& !g.inaccessible
    &&& g.default_value is None
    &&& match io {
        IO::Input => !g.has_resolver && g.arguments.spec_entries().len() == 0,
        IO::Output => g.has_resolver && g.arguments.spec_entries() == f.arguments.spec_entries(),
    }
}

impl Field {
    /// The name of the field.
    pub fn get_name(&self) -> (r: &str)
        ensures
            r@ == self.name@,
    {
        self.name.as_str()
    }

    /// Create an input field
    pub fn input(name: &str, ty: GraphQLTypeRef) -> (r: Self)
        ensures
            r.name@ == name@,
            r.ty == ty,
            !r.has_resolver,
            r.arguments.spec_entries().len() == 0,
    {
        Field { name: owned(name), arguments: NameMap::new(), ty, has_resolver: false }
    }

    /// Create an output field, resolved by a resolver function
    pub fn output(name: &str, ty: GraphQLTypeRef) -> (r: Self)
        ensures
            r.name@ == name@,
            r.ty == ty,
            r.has_resolver,
            r.arguments.spec_entries().len() == 0,
    {
        Field { name: owned(name), arguments: NameMap::new(), ty, has_resolver: true }
    }

    /// Add an argument, in place of one of the same name
    pub fn argument(self, input_value: Field) -> (r: Self)
        ensures
            r.name == self.name,
            r.ty == self.ty,
            r.has_resolver == self.has_resolver,
            exists|arg: InputValue|
                argument_of(arg, input_value) && r.arguments.spec_entries() == insert_entry(
                    self.arguments.spec_entries(),
                    input_value.name,
                    arg,
                ),
            r.arguments.spec_get(input_value.name@) matches Some(a) && argument_of(a, input_value),
            forall|n: Seq<char>|
                n != input_value.name@ ==> r.arguments.spec_get(n) == self.arguments.spec_get(n),
            r.arguments.spec_entries().len() == if self.arguments.spec_contains(input_value.name@) {
                self.arguments.spec_entries().len()
            } else {
                self.arguments.spec_entries().len() + 1
            },
    {
        let mut r = self;
        let key = input_value.name.clone();
        let arg = InputValue {
            name: input_value.name,
            description: None,
            ty: input_value.ty,
            deprecation: DeprecationStatus::Current,
            inaccessible: false,
            default_value: None,
        };
        let ghost a = arg;
        let ghost before = r.arguments.spec_entries();
        let ghost k = key;
        r.arguments.insert(key, arg);
        proof {
            assert(argument_of(a, input_value));
            lemma_get_after_insert(before, k, a, k@);
            crate::name_map::lemma_insert_entry_len(before, k, a);
            assert forall|n: Seq<char>| n != k@ implies r.arguments.spec_get(n)
                == crate::name_map::entry_get(before, n) by {
                lemma_get_after_insert(before, k, a, n);
            }
        }
        r
    }

    /// The GraphQL field this field becomes in an object of the given kind;
    /// an output field must have a resolver.
    pub fn to_field(self, io: IO) -> (r: GraphQLField)
        requires
            io == IO::Output ==> self.has_resolver,
        ensures
            converts_to(r, self, io),
    {
        match io {
            IO::Input => GraphQLField::input(self.name.as_str(), self.ty),
            IO::Output => {
                let g = GraphQLField::output(self.name.as_str(), self.ty);
                GraphQLField { arguments: self.arguments, ..g }
            },
        }
    }
}

/// `fields` holds, under the name of `f`, the GraphQL field that `f` becomes.
pub open spec fn holds_converted(fields: NameMap<GraphQLField>, f: Field, io: IO) -> bool {
    fields.spec_get(f.name@) matches Some(g) && converts_to(g, f, io)
}

/// Whether no field of `fields` is named `name`.
pub open spec fn name_unused(fields: Seq<Field>, name: Seq<char>) -> bool {
    forall|j: int| 0 <= j < fields.len() ==> fields[j].name@ != name
}

/// Whether the fields have distinct names.
pub open spec fn names_distinct(fields: Seq<Field>) -> bool {
    forall|i: int, j: int|
        0 <= i < j < fields.len() ==> #[trigger] fields[i].name@ != #[trigger] fields[j].name@
}

/// `r` is the GraphQL object type that `o` becomes: its name, its
/// description, the `__typename` field under the object's name, and each
/// field converted for the object's kind under the field's name.
pub open spec fn object_type_of(r: GraphQLType, o: Object) -> bool {
    r matches GraphQLType::Object(g) && {
        &&& g.name@ == o.name@
        &&& match o.description {
            Some(d) => g.description matches Some(gd) && gd@ == d@,
            None => g.description is None,
        }
        &&& g.fields.spec_get(o.name@) matches Some(t) && typename_field(t)
        &&& forall|j: int|
            0 <= j < field_list(o.fields).len() ==> holds_converted(g.fields, #[trigger] field_list(o.fields)[j], o.io)
        &&& forall|n: Seq<char>|
            n != o.name@ && name_unused(field_list(o.fields), n) ==> g.fields.spec_get(n) is None
    }
}

#[verifier::external_type_specification]
#[verifier::external_body]
#[verifier::reject_recursive_types(K)]
#[verifier::reject_recursive_types(V)]
#[verifier::reject_recursive_types(S)]
pub struct ExIndexMap<K, V, S>(IndexMap<K, V, S>);

/// The entries of a map of fields, in their order.
pub uninterp spec fn field_entries(m: IndexMap<String, Field>) -> Seq<(String, Field)>;

/// The position of the first entry whose key is `key`.
pub open spec fn key_position(entries: Seq<(String, Field)>, key: Seq<char>) -> Option<int>
    decreases entries.len(),
{
    if entries.len() == 0 {
        None
    } else {
        match key_position(entries.drop_last(), key) {
            Some(i) => Some(i),
            None => if entries.last().0@ == key {
                Some(entries.len() - 1)
            } else {
                None
            },
        }
    }
}

/// `IndexMap::new`: a map with no entries.
#[verifier::external_body]
fn field_map_new() -> (r: IndexMap<String, Field>)
    ensures
        field_entries(r).len() == 0,
{
    IndexMap::new()
}

/// `IndexMap::len`: the number of entries.
#[verifier::external_body]
fn field_map_len(m: &IndexMap<String, Field>) -> (r: usize)
    ensures
        r == field_entries(*m).len(),
{
    m.len()
}

/// `IndexMap::insert`: where an entry has a key equal to `key`, its value
/// is replaced in its place and the old value returned; else the entry is
/// added last and `None` returned.
#[verifier::external_body]
fn field_map_insert(m: &mut IndexMap<String, Field>, key: String, value: Field) -> (r: Option<Field>)
    ensures
        match key_position(field_entries(*old(m)), key@) {
            Some(i) => field_entries(*final(m)) == field_entries(*old(m)).update(
                i,
                (field_entries(*old(m))[i].0, value),
            ) && r == Some(field_entries(*old(m))[i].1),
            None => field_entries(*final(m)) == field_entries(*old(m)).push((key, value)) && r is None,
        },
{
    m.insert(key, value)
}

/// `IndexMap::pop`: removes the last entry and returns it; a map with no
/// entries is left as it is and gives `None`.
#[verifier::external_body]
fn field_map_pop(m: &mut IndexMap<String, Field>) -> (r: Option<(String, Field)>)
    ensures
        field_entries(*old(m)).len() == 0 ==> r is None && field_entries(*final(m))
            == field_entries(*old(m)),
        field_entries(*old(m)).len() > 0 ==> r == Some(field_entries(*old(m)).last())
            && field_entries(*final(m)) == field_entries(*old(m)).drop_last(),
{
    m.pop()
}

/// What `key_position` finds: an entry with that key and none before it.
pub proof fn lemma_key_position(entries: Seq<(String, Field)>, key: Seq<char>)
    ensures
        match key_position(entries, key) {
            Some(i) => 0 <= i < entries.len() && entries[i].0@ == key && forall|j: int|
                0 <= j < i ==> entries[j].0@ != key,
            None => forall|j: int| 0 <= j < entries.len() ==> entries[j].0@ != key,
        },
    decreases entries.len(),
{
    if entries.len() > 0 {
        lemma_key_position(entries.drop_last(), key);
        assert forall|j: int| 0 <= j < entries.len() - 1 implies entries[j] == entries.drop_last()[j] by {}
    }
}

/// The fields of a map of fields, in their order.
pub open spec fn field_list(m: IndexMap<String, Field>) -> Seq<Field> {
    field_entries(m).map_values(|e: (String, Field)| e.1)
}

/// Each field of the map is kept under its own name.
pub open spec fn keyed_by_name(m: IndexMap<String, Field>) -> bool {
    forall|i: int|
        0 <= i < field_entries(m).len() ==> (#[trigger] field_entries(m)[i]).0@
            == field_entries(m)[i].1.name@
}

/// An object of either API: its fields, by name, in the order they were
/// added.
#[derive(Debug)]
pub struct Object {
    pub name: String,
    pub description: Option<String>,
    pub fields: IndexMap<String, Field>,
    pub io: IO,
    pub namespace: Option<String>,
}

impl Object {
    /// Each field is kept under its own name.
    pub open spec fn wf(&self) -> bool {
        keyed_by_name(self.fields)
    }

    /// The object can become a GraphQL object type: its fields have
    /// distinct names, none named as the object, and the fields of an
    /// output object have resolvers.
    pub open spec fn convertible(&self) -> bool {
        &&& self.wf()
        &&& names_distinct(field_list(self.fields))
        &&& name_unused(field_list(self.fields), self.name@)
        &&& self.io == IO::Output ==> forall|j: int|
            0 <= j < field_list(self.fields).len() ==> (#[trigger] field_list(self.fields)[j]).has_resolver
    }

    /// Create a new object type
    pub fn new(name: &str, io: IO) -> (r: Self)
        ensures
            r.wf(),
            r.name@ == name@,
            r.description is None,
            field_list(r.fields).len() == 0,
            r.io == io,
            r.namespace is None,
    {
        Object { name: owned(name), description: None, fields: field_map_new(), io, namespace: None }
    }

    /// Add a field; no field of the same name may be there yet
    pub fn field(self, field: Field) -> (r: Self)
        requires
            self.wf(),
            name_unused(field_list(self.fields), field.name@),
        ensures
            r.wf(),
            field_list(r.fields) == field_list(self.fields).push(field),
            r.name == self.name,
            r.description == self.description,
            r.io == self.io,
            r.namespace == self.namespace,
    {
        let mut r = self;
        let ghost before = field_entries(r.fields);
        proof {
            lemma_key_position(before, field.name@);
            if key_position(before, field.name@) is Some {
                let i = key_position(before, field.name@)->0;
                assert(field_list(r.fields)[i].name@ == before[i].0@);
            }
        }
        let key = field.name.clone();
        let ghost f = field;
        field_map_insert(&mut r.fields, key, field);
        proof {
            assert(field_list(r.fields) =~= field_list(self.fields).push(f));
        }
        r
    }

    /// The number of fields
    pub fn field_len(&self) -> (r: usize)
        ensures
            r == field_list(self.fields).len(),
    {
        field_map_len(&self.fields)
    }

    /// Marks the object as one whose fields are alternatives; the object is
    /// kept as it is
    pub fn oneof(self) -> (r: Self)
        ensures
            r == self,
    {
        self
    }

    /// Set the namespace
    pub fn namespace(self, namespace: &str) -> (r: Self)
        ensures
            r.namespace matches Some(n) && n@ == namespace@,
            r.name == self.name,
            r.description == self.description,
            r.fields == self.fields,
            r.io == self.io,
    {
        Object { namespace: Some(owned(namespace)), ..self }
    }

    /// Returns the type name
    pub fn get_type_name(&self) -> (r: &str)
        ensures
            r@ == self.name@,
    {
        self.name.as_str()
    }

    /// The GraphQL object type: its name, its description and each field as
    /// a GraphQL field; no field may be named as the object, and the fields
    /// of an output object need resolvers.
    pub fn to_type(self) -> (r: GraphQLType)
        requires
            self.convertible(),
        ensures
            object_type_of(r, self),
    {
        let ghost all = field_list(self.fields);
        let ghost name = self.name@;
        let ghost description = self.description;
        let io = self.io;
        let mut object = GraphQLObject::new(self.name.as_str());
        object = match self.description {
            Some(d) => object.description(d.as_str()),
            None => object,
        };
        proof {
            let e = object.fields.spec_entries();
            assert forall|n: Seq<char>| n != name implies object.fields.spec_get(n) is None by {
                lemma_index_of(e, n);
            }
            lemma_index_of(e, name);
        }
        let ghost object_description = object.description;
        proof {
            assert(match description {
                Some(d) => object_description matches Some(od) && od@ == d@,
                None => object_description is None,
            });
        }
        let mut fields = self.fields;
        while field_map_len(&fields) > 0
            invariant
                field_list(fields) == all.take(field_list(fields).len() as int),
                field_list(fields).len() <= all.len(),
                names_distinct(all),
                name_unused(all, name),
                io == IO::Output ==> forall|j: int|
                    0 <= j < all.len() ==> (#[trigger] all[j]).has_resolver,
                object.name@ == name,
                object.description == object_description,
                object.fields.spec_get(name) matches Some(t) && typename_field(t),
                forall|j: int|
                    field_list(fields).len() <= j < all.len() ==> holds_converted(
                        object.fields,
                        #[trigger] all[j],
                        io,
                    ),
                forall|n: Seq<char>|
                    n != name && (forall|j: int|
                        field_list(fields).len() <= j < all.len() ==> all[j].name@ != n)
                        ==> object.fields.spec_get(n) is None,
            decreases field_list(fields).len(),
        {
            let k = field_map_len(&fields) - 1;
            let ghost entries = field_entries(fields);
            proof {
                assert(field_list(fields)[k as int] == entries[k as int].1);
                assert(field_list(fields)[k as int] == all[k as int]);
            }
            let f = match field_map_pop(&mut fields) {
                Some(entry) => entry.1,
                None => {
                    proof {
                        assert(false);
                    }
                    return GraphQLType::Object(object);
                },
            };
            proof {
                assert(f == entries.last().1);
                assert(f == all[k as int]);
                assert(field_list(fields) =~= all.take(k as int));
                assert(object.fields.spec_get(f.name@) is None) by {
                    assert forall|j: int| k < j < all.len() implies all[j].name@ != f.name@ by {
                        assert(all[k as int].name@ != all[j].name@);
                    }
                }
            }
            let ghost before = object.fields.spec_entries();
            let ghost old_object = object;
            let g = f.to_field(io);
            let ghost gg = g;
            proof {
                assert(!object.fields.spec_contains(g.name@));
            }
            object = object.field(g);
            proof {
                assert forall|n: Seq<char>| n != gg.name@ implies object.fields.spec_get(n)
                    == old_object.fields.spec_get(n) by {
                    lemma_get_after_insert(before, gg.name, gg, n);
                }
                assert forall|j: int| k <= j < all.len() implies holds_converted(
                    object.fields,
                    #[trigger] all[j],
                    io,
                ) by {
                    if j > k {
                        assert(all[k as int].name@ != all[j].name@);
                    }
                }
            }
        }
        GraphQLType::Object(object)
    }
}

/// A type of either API: an object or an enum.
#[derive(Debug)]
pub enum Type {
    Object(Object),
    Enum(Enum),
}

/// The name of a type.
pub open spec fn interface_type_name(t: Type) -> Seq<char> {
    match t {
        Type::Object(o) => o.name@,
        Type::Enum(e) => e.name@,
    }
}

/// The type can become a GraphQL type.
pub open spec fn registrable(t: Type) -> bool {
    match t {
        Type::Object(o) => o.convertible(),
        Type::Enum(_) => true,
    }
}

/// `r` is the GraphQL type that `t` becomes.
pub open spec fn graphql_type_of(r: GraphQLType, t: Type) -> bool {
    match t {
        Type::Object(o) => object_type_of(r, o),
        Type::Enum(e) => r == GraphQLType::Enum(e),
    }
}

/// `registry` holds, under the name of `t`, the GraphQL type `t` becomes.
pub open spec fn holds_registered(registry: crate::registry::TypeRegistry, t: Type) -> bool {
    registry.spec_get(interface_type_name(t)) matches Some(g) && graphql_type_of(g, t)
}

impl Type {
    /// The GraphQL type: an object's object type, or the enum itself.
    pub fn register(self) -> (r: GraphQLType)
        requires
            registrable(self),
        ensures
            graphql_type_of(r, self),
            crate::registry::type_name_of(r) == interface_type_name(self),
    {
        match self {
            Type::Object(o) => o.to_type(),
            Type::Enum(e) => GraphQLType::Enum(e),
        }
    }
}

/// Collects the types of a schema and registers them with a schema builder.
#[derive(Debug)]
pub struct DynamicBuilder {
    pub types: Vec<Type>,
    pub schema_builder: SchemaBuilder,
}

impl DynamicBuilder {
    pub fn new(schema_builder: SchemaBuilder) -> (r: Self)
        ensures
            r.types@.len() == 0,
            r.schema_builder == schema_builder,
    {
        DynamicBuilder { types: Vec::new(), schema_builder }
    }

    /// Adds a type to register.
    pub fn register(self, ty: Type) -> (r: Self)
        ensures
            r.types@ == self.types@.push(ty),
            r.schema_builder == self.schema_builder,
    {
        let mut r = self;
        r.types.push(ty);
        r
    }

    /// Registers a GraphQL type with the schema builder at once; no type of
    /// that name may be registered yet.
    pub fn register_schema(self, ty: GraphQLType) -> (r: Self)
        requires
            !self.schema_builder.registry.types.spec_contains(crate::registry::type_name_of(ty)),
        ensures
            r.types == self.types,
            r.schema_builder.registry.spec_get(crate::registry::type_name_of(ty)) == Some(ty),
            forall|n: Seq<char>|
                n != crate::registry::type_name_of(ty) ==> r.schema_builder.registry.spec_get(n)
                    == self.schema_builder.registry.spec_get(n),
    {
        DynamicBuilder { types: self.types, schema_builder: self.schema_builder.register(ty) }
    }

    /// The schema builder with every collected type registered, each as
    /// the GraphQL type it becomes; the collected types have distinct names
    /// that are not registered yet.
    pub fn to_graphql(self) -> (r: SchemaBuilder)
        requires
            forall|i: int| 0 <= i < self.types@.len() ==> registrable(#[trigger] self.types@[i]),
            forall|i: int, j: int|
                0 <= i < j < self.types@.len() ==> interface_type_name(#[trigger] self.types@[i])
                    != interface_type_name(#[trigger] self.types@[j]),
            forall|i: int|
                0 <= i < self.types@.len() ==> !self.schema_builder.registry.types.spec_contains(
                    interface_type_name(#[trigger] self.types@[i]),
                ),
        ensures
            forall|i: int|
                0 <= i < self.types@.len() ==> holds_registered(r.registry, #[trigger] self.types@[i]),
            forall|n: Seq<char>|
                (forall|i: int| 0 <= i < self.types@.len() ==> interface_type_name(self.types@[i]) != n)
                    ==> r.registry.spec_get(n) == self.schema_builder.registry.spec_get(n),
            r.query_type == self.schema_builder.query_type,
            r.mutation_type == self.schema_builder.mutation_type,
    {
        let ghost all = self.types@;
        let ghost start = self.schema_builder;
        let mut builder = self.schema_builder;
        let mut types = self.types;
        while types.len() > 0
            invariant
                types@ == all.take(types@.len() as int),
                types@.len() <= all.len(),
                forall|i: int| 0 <= i < all.len() ==> registrable(#[trigger] all[i]),
                forall|i: int, j: int|
                    0 <= i < j < all.len() ==> interface_type_name(#[trigger] all[i])
                        != interface_type_name(#[trigger] all[j]),
                forall|i: int|
                    0 <= i < all.len() ==> !start.registry.types.spec_contains(
                        interface_type_name(#[trigger] all[i]),
                    ),
                forall|i: int|
                    types@.len() <= i < all.len() ==> holds_registered(builder.registry, #[trigger] all[i]),
                forall|n: Seq<char>|
                    (forall|i: int| types@.len() <= i < all.len() ==> interface_type_name(all[i]) != n)
                        ==> builder.registry.spec_get(n) == start.registry.spec_get(n),
                builder.query_type == start.query_type,
                builder.mutation_type == start.mutation_type,
            decreases types@.len(),
        {
            let k = types.len() - 1;
            let ty = types.pop().unwrap();
            proof {
                assert(ty == all[k as int]);
                assert(types@ =~= all.take(k as int));
                let n = interface_type_name(ty);
                assert forall|i: int| k < i < all.len() implies interface_type_name(all[i]) != n by {
                    assert(interface_type_name(all[k as int]) != interface_type_name(all[i]));
                }
                assert(builder.registry.spec_get(n) == start.registry.spec_get(n));
                assert(!start.registry.types.spec_contains(n));
            }
            let ghost old_builder = builder;
            let g = ty.register();
            builder = builder.register(g);
            proof {
                assert forall|i: int| k <= i < all.len() implies holds_registered(builder.registry, #[trigger] all[i]) by {
                    if i > k {
                        assert(interface_type_name(all[k as int]) != interface_type_name(all[i]));
                    }
                }
            }
        }
        builder
    }
}

/// A value on both sides: what the GraphQL side returns and what the
/// Protobuf side returns.
#[derive(Debug)]
pub struct Value {
    pub graphql: crate::value::Value,
    pub proto: crate::value::Value,
}

impl Value {
    pub fn new(graphql: crate::value::Value, proto: crate::value::Value) -> (r: Self)
        ensures
            r.graphql == graphql,
            r.proto == proto,
    {
        Value { graphql, proto }
    }

    /// Null on both sides.
    pub fn null() -> (r: Self)
        ensures
            r.graphql is Null,
            r.proto is Null,
    {
        Value { graphql: crate::value::Value::Null, proto: crate::value::Value::Null }
    }

    /// A value for the GraphQL side; the Protobuf side is null.
    pub fn graphql(graphql: crate::value::Value) -> (r: Self)
        ensures
            r.graphql == graphql,
            r.proto is Null,
    {
        Value { graphql, proto: crate::value::Value::Null }
    }

    /// A value for the Protobuf side; the GraphQL side is null.
    pub fn proto(proto: crate::value::Value) -> (r: Self)
        ensures
            r.graphql is Null,
            r.proto == proto,
    {
        Value { graphql: crate::value::Value::Null, proto }
    }
}

} // verus!
