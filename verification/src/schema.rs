//! The types of a dynamic schema: scalars, objects, interfaces, unions,
//! enums and subscriptions, and the registry that holds them.
use vstd::prelude::*;
use crate::accessor::{insert_model, ObjectAccessor};
use crate::error::{is_custom, SeaResult, SeaographyError};
use crate::name_map::{index_of, NameMap};
use crate::object::{all_registered, registered_all, registered_types};
use crate::registry::{Type, TypeRegistry};
use crate::text::{format1, format2, owned};
use crate::type_ref::{TypeRef, TypeRefModel};
use crate::value::{as_text_model, Value, ValueModel};

verus! {

/// Whether a field or an enum item is deprecated, and why.
#[derive(Debug)]
pub enum DeprecationStatus {
    Current,
    Deprecated(Option<String>),
}

fn deprecated(reason: Option<&str>) -> (r: DeprecationStatus)
    ensures
        match reason {
            Some(s) => r matches DeprecationStatus::Deprecated(Some(t)) && t@ == s@,
            None => r matches DeprecationStatus::Deprecated(None),
        },
{
    match reason {
        Some(s) => DeprecationStatus::Deprecated(Some(owned(s))),
        None => DeprecationStatus::Deprecated(None),
    }
}

/// A directive attached to a schema element.
#[derive(Debug)]
pub struct Directive {
    pub name: String,
    pub args: ObjectAccessor<'static>,
}

impl Directive {
    /// Create a directive usage
    pub fn new(name: &str) -> (r: Self)
        ensures
            r.name@ == name@,
            r.args.entries() == Seq::<(ValueModel, ValueModel)>::empty(),
    {
        Self { name: owned(name), args: ObjectAccessor::from_entries(Vec::new()) }
    }

    /// Add an argument to the directive
    pub fn argument(self, name: &str, value: Value) -> (r: Self)
        ensures
            r.name == self.name,
            r.args.entries() == insert_model(self.args.entries(), name@, value@),
    {
        let mut r = self;
        r.args.insert(Value::String(owned(name)), value);
        r
    }
}

/// A GraphQL enum item
#[derive(Debug)]
pub struct EnumItem {
    pub name: String,
    pub description: Option<String>,
    pub deprecation: DeprecationStatus,
    pub inaccessible: bool,
    pub directives: Vec<Directive>,
}

impl EnumItem {
    /// Create a new EnumItem
    pub fn new(name: &str) -> (r: Self)
        ensures
            r.name@ == name@,
            r.description is None,
            r.deprecation is Current,
            !r.inaccessible,
            r.directives@.len() == 0,
    {
        EnumItem {
            name: owned(name),
            description: None,
            deprecation: DeprecationStatus::Current,
            inaccessible: false,
            directives: Vec::new(),
        }
    }

    /// Set the description
    pub fn description(self, description: &str) -> (r: Self)
        ensures
            r.name == self.name,
            r.description matches Some(d) && d@ == description@,
            r.deprecation == self.deprecation,
            r.inaccessible == self.inaccessible,
            r.directives == self.directives,
    {
        Self { description: Some(owned(description)), ..self }
    }

    /// Mark the item deprecated, with an optional reason
    pub fn deprecation(self, reason: Option<&str>) -> (r: Self)
        ensures
            r.name == self.name,
            r.description == self.description,
            r.deprecation is Deprecated,
            r.inaccessible == self.inaccessible,
            r.directives == self.directives,
    {
        Self { deprecation: deprecated(reason), ..self }
    }

    /// Indicate that the item is not accessible from a supergraph
    pub fn inaccessible(self) -> (r: Self)
        ensures
            r.name == self.name,
            r.description == self.description,
            r.deprecation == self.deprecation,
            r.inaccessible,
            r.directives == self.directives,
    {
        Self { inaccessible: true, ..self }
    }

    /// Attach directive to the item
    pub fn directive(self, directive: Directive) -> (r: Self)
        ensures
            r.name == self.name,
            r.description == self.description,
            r.deprecation == self.deprecation,
            r.inaccessible == self.inaccessible,
            r.directives@ == self.directives@.push(directive),
    {
        let mut r = self;
        r.directives.push(directive);
        r
    }

    /// Returns the name of the item
    pub fn get_type_name(&self) -> (r: &str)
        ensures
            r@ == self.name@,
    {
        self.name.as_str()
    }
}

/// A GraphQL enum type
#[derive(Debug)]
pub struct Enum {
    pub name: String,
    pub description: Option<String>,
    pub enum_values: NameMap<EnumItem>,
    pub inaccessible: bool,
    pub directives: Vec<Directive>,
}

/// The message for an enum that is hidden.
pub open spec fn enum_inaccessible_message(name: Seq<char>) -> Seq<char> {
    "enum `"@ + name + "` is inaccessible"@
}

/// The message for an enum item that is hidden.
pub open spec fn enum_item_inaccessible_message(name: Seq<char>, item: Seq<char>) -> Seq<char> {
    "enum `"@ + name + "` with field `"@ + item + "` is inaccessible"@
}

impl Enum {
    /// Create a GraphqL enum type
    pub fn new(name: &str) -> (r: Self)
        ensures
            r.name@ == name@,
            r.description is None,
            r.enum_values.spec_entries().len() == 0,
            items_keyed(r.enum_values),
            !r.inaccessible,
            r.directives@.len() == 0,
    {
        Self {
            name: owned(name),
            description: None,
            enum_values: NameMap::new(),
            inaccessible: false,
            directives: Vec::new(),
        }
    }

    /// Add an item, in place of an item of the same name
    pub fn item(self, item: EnumItem) -> (r: Self)
        ensures
            r.name == self.name,
            r.inaccessible == self.inaccessible,
            r.enum_values.spec_entries() == crate::name_map::insert_entry(
                self.enum_values.spec_entries(),
                item.name,
                item,
            ),
            items_keyed(self.enum_values) ==> items_keyed(r.enum_values),
    {
        let mut r = self;
        let ghost before = r.enum_values.spec_entries();
        let ghost it = item;
        let key = item.name.clone();
        r.enum_values.insert(key, item);
        proof {
            assert forall|n: Seq<char>| items_keyed(self.enum_values) implies crate::interface::named_as(
                #[trigger] r.enum_values.spec_get(n),
                n,
            ) by {
                crate::name_map::lemma_get_after_insert(before, it.name, it, n);
                assert(crate::interface::named_as(self.enum_values.spec_get(n), n));
            }
        }
        r
    }

    /// Add items, in order
    pub fn items(self, items: Vec<EnumItem>) -> (r: Self)
        ensures
            r.name == self.name,
            r.inaccessible == self.inaccessible,
            r.enum_values.spec_entries() == insert_all(
                self.enum_values.spec_entries(),
                items@,
            ),
            items_keyed(self.enum_values) ==> items_keyed(r.enum_values),
            forall|n: Seq<char>|
                items_keyed(self.enum_values) ==> ((#[trigger] r.enum_values.spec_get(n) is Some) <==> (
                has_item_named(items@, n) || self.enum_values.spec_get(n) is Some)),
    {
        let mut r = self;
        let mut items = items;
        let ghost all = items@;
        let ghost start = r.enum_values.spec_entries();
        let ghost name = r.name;
        let ghost inaccessible = r.inaccessible;
        let total = items.len();
        let mut done: usize = 0;
        while items.len() > 0
            invariant
                done + items@.len() == all.len(),
                all.len() == total,
                items@ == all.subrange(done as int, all.len() as int),
                r.enum_values.spec_entries() == insert_all(start, all.take(done as int)),
                r.name == name,
                r.inaccessible == inaccessible,
            decreases items@.len(),
        {
            let item = items.remove(0);
            proof {
                assert(item == all[done as int]);
                assert(all.take(done + 1).drop_last() =~= all.take(done as int));
            }
            let key = item.name.clone();
            r.enum_values.insert(key, item);
            done = done + 1;
            proof {
                assert(items@ =~= all.subrange(done as int, all.len() as int));
            }
        }
        proof {
            assert(all.take(done as int) =~= all);
            if items_keyed(self.enum_values) {
                assert forall|n: Seq<char>| #[trigger] crate::interface::named_as(
                    crate::name_map::entry_get(start, n),
                    n,
                ) by {
                    assert(crate::interface::named_as(self.enum_values.spec_get(n), n));
                }
                assert forall|n: Seq<char>| crate::interface::named_as(
                    #[trigger] r.enum_values.spec_get(n),
                    n,
                ) && ((r.enum_values.spec_get(n) is Some) <==> (has_item_named(all, n)
                    || self.enum_values.spec_get(n) is Some)) by {
                    crate::interface::lemma_items_key_set(start, all, n);
                }
            }
        }
        r
    }

    /// Returns the type name
    pub fn get_type_name(&self) -> (r: &str)
        ensures
            r@ == self.name@,
    {
        self.name.as_str()
    }

    /// An enum's value must be a plain value; an object value is refused.
    pub fn collect(&self) -> (r: SeaResult<(Value, Value)>)
        ensures
            r matches Err(e) && is_custom(
                e,
                "invalid FieldValue for enum `"@ + self.name@ + "`, expected `FieldValue::Value`"@,
            ),
    {
        Err(
            SeaographyError::Custom(
                format1(
                    "invalid FieldValue for enum `",
                    self.name.as_str(),
                    "`, expected `FieldValue::Value`",
                ),
            ),
        )
    }

    /// Checks that `value` names an accessible item of the enum, and hands
    /// it back.
    pub fn to_value(&self, value: &Value) -> (r: SeaResult<Value>)
        ensures
            enum_to_value_outcome(*self, value@, r),
    {
        if self.inaccessible {
            return Err(SeaographyError::Custom(format1("enum `", self.name.as_str(), "` is inaccessible")));
        }
        match value.as_string() {
            Some(name) => match self.enum_values.get(name.as_str()) {
                Some(item) => {
                    if item.inaccessible {
                        return Err(
                            SeaographyError::Custom(
                                format2(
                                    "enum `",
                                    self.name.as_str(),
                                    "` with field `",
                                    item.name.as_str(),
                                    "` is inaccessible",
                                ),
                            ),
                        );
                    }
                    return Ok(value.duplicate());
                },
                None => {},
            },
            None => {},
        }
        Err(
            SeaographyError::NoEnumValue(self.name.clone(), value.duplicate()),
        )
    }
}


/// A GraphQL union type
#[derive(Debug)]
pub struct Union {
    pub name: String,
    pub description: Option<String>,
    pub possible_types: NameMap<()>,
    pub inaccessible: bool,
    pub directives: Vec<Directive>,
}

/// What checking `member` against a union gives.
pub open spec fn union_check(u: Union, member: Seq<char>) -> Result<(), Seq<char>> {
    if u.inaccessible {
        Err("union `"@ + u.name@ + "` is inaccessible"@)
    } else if !u.possible_types.spec_contains(member) {
        Err("union `"@ + u.name@ + "` has no possible type `"@ + member + "`"@)
    } else {
        Ok(())
    }
}

/// `r` is the outcome `m` says: success, or a free-form error with its
/// message.
pub open spec fn outcome_is(r: SeaResult<()>, m: Result<(), Seq<char>>) -> bool {
    match m {
        Ok(()) => r is Ok,
        Err(msg) => r matches Err(e) && is_custom(e, msg),
    }
}

impl Union {
    /// Create a GraphQL union type
    pub fn new(name: &str) -> (r: Self)
        ensures
            r.name@ == name@,
            r.description is None,
            r.possible_types.spec_entries().len() == 0,
            !r.inaccessible,
            r.directives@.len() == 0,
    {
        Self {
            name: owned(name),
            description: None,
            possible_types: NameMap::new(),
            inaccessible: false,
            directives: Vec::new(),
        }
    }

    /// Set the description
    pub fn description(self, description: &str) -> (r: Self)
        ensures
            r.name == self.name,
            r.description matches Some(d) && d@ == description@,
            r.possible_types == self.possible_types,
            r.inaccessible == self.inaccessible,
            r.directives == self.directives,
    {
        Self { description: Some(owned(description)), ..self }
    }

    /// Indicate that the union is not accessible from a supergraph
    pub fn inaccessible(self) -> (r: Self)
        ensures
            r.name == self.name,
            r.description == self.description,
            r.possible_types == self.possible_types,
            r.inaccessible,
            r.directives == self.directives,
    {
        Self { inaccessible: true, ..self }
    }

    /// Attach directive to the union
    pub fn directive(self, directive: Directive) -> (r: Self)
        ensures
            r.name == self.name,
            r.description == self.description,
            r.possible_types == self.possible_types,
            r.inaccessible == self.inaccessible,
            r.directives@ == self.directives@.push(directive),
    {
        let mut r = self;
        r.directives.push(directive);
        r
    }

    /// Add a possible type to the union
    pub fn possible_type(self, ty: &str) -> (r: Self)
        ensures
            r.name == self.name,
            r.inaccessible == self.inaccessible,
            r.possible_types.spec_contains(ty@),
            forall|k: Seq<char>|
                k != ty@ ==> r.possible_types.spec_contains(k)
                    == self.possible_types.spec_contains(k),
            r.possible_types.spec_entries().len() == if self.possible_types.spec_contains(ty@) {
                self.possible_types.spec_entries().len()
            } else {
                self.possible_types.spec_entries().len() + 1
            },
    {
        let mut r = self;
        let ghost before = r.possible_types.spec_entries();
        let key = owned(ty);
        let ghost k = key;
        r.possible_types.insert(key, ());
        proof {
            assert forall|other: Seq<char>| other != ty@ implies r.possible_types.spec_contains(
                other,
            ) == self.possible_types.spec_contains(other) by {
                crate::name_map::lemma_get_after_insert(before, k, (), other);
            }
            crate::name_map::lemma_get_after_insert(before, k, (), ty@);
            crate::name_map::lemma_insert_entry_len(before, k, ());
        }
        r
    }

    /// Returns the type name
    pub fn get_type_name(&self) -> (r: &str)
        ensures
            r@ == self.name@,
    {
        self.name.as_str()
    }

    /// How the union is described to a schema: its possible types, each of
    /// which must be registered.
    pub fn meta<'b>(&'b self, registry: &'b TypeRegistry) -> (r: Vec<&'b Type>)
        requires
            all_registered(self.possible_types.spec_entries(), *registry),
        ensures
            registered_all(r@, self.possible_types.spec_entries(), *registry),
    {
        registered_types(&self.possible_types, registry)
    }

    /// Checks that `member` may stand for this union.
    pub fn check(&self, member: &str) -> (r: SeaResult<()>)
        ensures
            outcome_is(r, union_check(*self, member@)),
    {
        if self.inaccessible {
            return Err(
                SeaographyError::Custom(
                    format1("union `", self.name.as_str(), "` is inaccessible"),
                ),
            );
        }
        if !self.possible_types.contains_key(member) {
            return Err(
                SeaographyError::Custom(
                    format2(
                        "union `",
                        self.name.as_str(),
                        "` has no possible type `",
                        member,
                        "`",
                    ),
                ),
            );
        }
        Ok(())
    }

    /// A union's value must name its concrete type; a bare value is refused.
    pub fn collect(&self) -> (r: SeaResult<(Value, Value)>)
        ensures
            r matches Err(e) && is_custom(
                e,
                "invalid FieldValue for union `"@ + self.name@
                    + "`, expected `FieldValue::with_type`"@,
            ),
    {
        Err(
            SeaographyError::Custom(
                format1(
                    "invalid FieldValue for union `",
                    self.name.as_str(),
                    "`, expected `FieldValue::with_type`",
                ),
            ),
        )
    }
}

/// What checking `value` against the enum `e` gives: `r`.
pub open spec fn enum_to_value_outcome(en: Enum, value: ValueModel, r: SeaResult<Value>) -> bool {
    if en.inaccessible {
                r matches Err(e) && is_custom(e, enum_inaccessible_message(en.name@))
            } else {
                match as_text_model(value) {
                    Some(t) if en.enum_values.spec_get(t) is Some => if en.enum_values.spec_get(
                        t,
                    )->0.inaccessible {
                        r matches Err(e) && is_custom(
                            e,
                            enum_item_inaccessible_message(
                                en.name@,
                                en.enum_values.spec_get(t)->0.name@,
                            ),
                        )
                    } else {
                        r matches Ok(v) && v@ == value
                    },
                    _ => r matches Err(SeaographyError::NoEnumValue(name, v)) && name@ == en.name@
                        && v@ == value,
                }
            }
}

/// Every item of the enum is stored under its own name.
pub open spec fn items_keyed(values: NameMap<EnumItem>) -> bool {
    forall|n: Seq<char>| crate::interface::named_as(#[trigger] values.spec_get(n), n)
}

/// Some item of `items` is named `n`.
pub open spec fn has_item_named(items: Seq<EnumItem>, n: Seq<char>) -> bool {
    exists|i: int| 0 <= i < items.len() && (#[trigger] items[i]).name@ == n
}

/// The entries after inserting each item in turn, keyed by its name.
pub open spec fn insert_all(entries: Seq<(String, EnumItem)>, items: Seq<EnumItem>) -> Seq<
    (String, EnumItem),
>
    decreases items.len(),
{
    if items.len() == 0 {
        entries
    } else {
        crate::name_map::insert_entry(
            insert_all(entries, items.drop_last()),
            items.last().name,
            items.last(),
        )
    }
}

} // verus!
