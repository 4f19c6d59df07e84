//! Scalars, subscriptions, the sum of all schema types, and the registry
//! that holds the types of a schema by name.
use vstd::prelude::*;
use crate::accessor::{lookup, ObjectAccessor};
use crate::error::{is_custom, SeaResult, SeaographyError};
use crate::name_map::{insert_entry, lemma_get_after_insert, NameMap};
use crate::object::{Field, InputValue, Interface, Object};
use crate::schema::{outcome_is, DeprecationStatus, Directive, Enum, Union};
use crate::text::{format1, owned};
use crate::type_ref::TypeRef;
use crate::value::{Value, ValueModel};

verus! {

/// A GraphQL scalar type
#[derive(Debug)]
pub struct Scalar {
    pub name: String,
    pub description: Option<String>,
    pub specified_by_url: Option<String>,
    pub inaccessible: bool,
    pub tags: Vec<String>,
    pub directives: Vec<Directive>,
    pub requires_scopes: Vec<String>,
}

impl Scalar {
    /// Create a GraphQL scalar type
    pub fn new(name: &str) -> (r: Self)
        ensures
            r.name@ == name@,
            r.description is None,
            r.specified_by_url is None,
            !r.inaccessible,
            r.tags@.len() == 0,
            r.directives@.len() == 0,
            r.requires_scopes@.len() == 0,
    {
        Self {
            name: owned(name),
            description: None,
            specified_by_url: None,
            inaccessible: false,
            tags: Vec::new(),
            directives: Vec::new(),
            requires_scopes: Vec::new(),
        }
    }

    /// Set the description
    pub fn description(self, description: &str) -> (r: Self)
        ensures
            r.description matches Some(d) && d@ == description@,
            r.name == self.name,
            r.specified_by_url == self.specified_by_url,
            r.inaccessible == self.inaccessible,
    {
        Self { description: Some(owned(description)), ..self }
    }

    /// Indicate that the scalar is not accessible from a supergraph
    pub fn inaccessible(self) -> (r: Self)
        ensures
            r.inaccessible,
            r.name == self.name,
            r.description == self.description,
            r.specified_by_url == self.specified_by_url,
    {
        Self { inaccessible: true, ..self }
    }

    /// Attach directive to the scalar
    pub fn directive(self, directive: Directive) -> (r: Self)
        ensures
            r.name == self.name,
            r.inaccessible == self.inaccessible,
            r.directives@ == self.directives@.push(directive),
    {
        let mut r = self;
        r.directives.push(directive);
        r
    }

    /// Set the specified by url
    pub fn specified_by_url(self, specified_by_url: &str) -> (r: Self)
        ensures
            r.specified_by_url matches Some(u) && u@ == specified_by_url@,
            r.name == self.name,
            r.description == self.description,
            r.inaccessible == self.inaccessible,
    {
        Self { specified_by_url: Some(owned(specified_by_url)), ..self }
    }

    /// Returns the type name
    pub fn get_type_name(&self) -> (r: &str)
        ensures
            r@ == self.name@,
    {
        self.name.as_str()
    }

    /// The argument named after the scalar, or null where there is none.
    pub fn argument_value(&self, arguments: &ObjectAccessor) -> (r: Value)
        ensures
            r@ == (match lookup(arguments.entries(), self.name@) {
                Some(v) => v,
                None => ValueModel::Null,
            }),
    {
        match arguments.get(self.name.as_str()) {
            Some(val) => val.as_value(),
            None => Value::Null,
        }
    }

    /// The scalar's entry of a result, keyed by its name, where the
    /// validator accepted `value`.
    pub fn validated(&self, value: Value, valid: bool) -> (r: SeaResult<(Value, Value)>)
        ensures
            valid ==> (r matches Ok(p) && p.0@ == ValueModel::String(self.name@) && p.1@
                == value@),
            !valid ==> (r matches Err(SeaographyError::InvalidScalarValue(v)) && v@ == value@),
    {
        if !valid {
            return Err(
                SeaographyError::InvalidScalarValue(value),
            );
        }
        Ok((Value::String(self.name.clone()), value))
    }

    /// A value of the scalar is handed on as it is.
    pub fn to_value(&self, value: &Value) -> (r: SeaResult<Value>)
        ensures
            r matches Ok(v) && v@ == value@,
    {
        Ok(value.duplicate())
    }
}

/// A GraphQL subscription field
#[derive(Debug)]
pub struct SubscriptionField {
    pub name: String,
    pub description: Option<String>,
    pub arguments: NameMap<InputValue>,
    pub ty: TypeRef,
    pub deprecation: DeprecationStatus,
}

impl SubscriptionField {
    /// Create a GraphQL subscription field
    pub fn new(name: &str, ty: TypeRef) -> (r: Self)
        ensures
            r.name@ == name@,
            r.ty == ty,
            r.description is None,
            r.arguments.spec_entries().len() == 0,
            r.deprecation is Current,
    {
        Self {
            name: owned(name),
            description: None,
            arguments: NameMap::new(),
            ty,
            deprecation: DeprecationStatus::Current,
        }
    }

    /// Set the description
    pub fn description(self, description: &str) -> (r: Self)
        ensures
            r.description matches Some(d) && d@ == description@,
            r.name == self.name,
            r.ty == self.ty,
            r.arguments == self.arguments,
    {
        Self { description: Some(owned(description)), ..self }
    }

    /// Returns the name of the field
    pub fn get_type_name(&self) -> (r: &str)
        ensures
            r@ == self.name@,
    {
        self.name.as_str()
    }

    /// Add an argument to the field, in place of one of the same name
    pub fn argument(self, input_value: Field) -> (r: Self)
        ensures
            r.arguments.spec_entries() == insert_entry(
                self.arguments.spec_entries(),
                input_value.name,
                input_value.as_input_spec(),
            ),
            r.name == self.name,
            r.ty == self.ty,
    {
        let mut r = self;
        let key = input_value.name.clone();
        r.arguments.insert(key, input_value.into_input_value());
        r
    }
}

/// A GraphQL subscription type
#[derive(Debug)]
pub struct Subscription {
    pub name: String,
    pub description: Option<String>,
    pub fields: NameMap<SubscriptionField>,
}

impl Subscription {
    /// Create a GraphQL subscription type
    pub fn new(name: &str) -> (r: Self)
        ensures
            r.name@ == name@,
            r.description is None,
            r.fields.spec_entries().len() == 0,
    {
        Self { name: owned(name), description: None, fields: NameMap::new() }
    }

    /// Set the description
    pub fn description(self, description: &str) -> (r: Self)
        ensures
            r.description matches Some(d) && d@ == description@,
            r.name == self.name,
            r.fields == self.fields,
    {
        Self { description: Some(owned(description)), ..self }
    }

    /// Add a field; a field of the same name must not be there yet
    pub fn field(self, field: SubscriptionField) -> (r: Self)
        requires
            !self.fields.spec_contains(field.name@),
        ensures
            r.fields.spec_entries() == insert_entry(self.fields.spec_entries(), field.name, field),
            r.name == self.name,
            r.description == self.description,
    {
        let mut r = self;
        let key = field.name.clone();
        r.fields.insert(key, field);
        r
    }

    /// Returns the type name
    pub fn get_type_name(&self) -> (r: &str)
        ensures
            r@ == self.name@,
    {
        self.name.as_str()
    }
}

/// A GraphQL type
#[derive(Debug)]
pub enum Type {
    Scalar(Scalar),
    Object(Object),
    Enum(Enum),
    Interface(Interface),
    Union(Union),
    Subscription(Subscription),
}

/// The name of a type.
pub open spec fn type_name_of(t: Type) -> Seq<char> {
    match t {
        Type::Scalar(s) => s.name@,
        Type::Object(o) => o.name@,
        Type::Enum(e) => e.name@,
        Type::Interface(i) => i.name@,
        Type::Union(u) => u.name@,
        Type::Subscription(s) => s.name@,
    }
}

impl Type {
    /// Returns the type name
    pub fn name(&self) -> (r: &str)
        ensures
            r@ == type_name_of(*self),
    {
        match self {
            Type::Scalar(scalar) => scalar.get_type_name(),
            Type::Object(object) => object.get_type_name(),
            Type::Enum(e) => e.get_type_name(),
            Type::Interface(interface) => interface.get_type_name(),
            Type::Union(union) => union.get_type_name(),
            Type::Subscription(subscription) => subscription.get_type_name(),
        }
    }

    pub fn as_object(&self) -> (r: Option<&Object>)
        ensures
            match *self {
                Type::Object(o) => r == Some(&o),
                _ => r is None,
            },
    {
        if let Type::Object(obj) = self {
            Some(obj)
        } else {
            None
        }
    }

    pub fn as_interface(&self) -> (r: Option<&Interface>)
        ensures
            match *self {
                Type::Interface(i) => r == Some(&i),
                _ => r is None,
            },
    {
        if let Type::Interface(interface) = self {
            Some(interface)
        } else {
            None
        }
    }

    pub fn as_union(&self) -> (r: Option<&Union>)
        ensures
            match *self {
                Type::Union(u) => r == Some(&u),
                _ => r is None,
            },
    {
        if let Type::Union(union) = self {
            Some(union)
        } else {
            None
        }
    }

    /// The union that the type is, if it is one.
    pub fn as_scalar(&self) -> (r: Option<&Union>)
        ensures
            match *self {
                Type::Union(u) => r == Some(&u),
                _ => r is None,
            },
    {
        if let Type::Union(union) = self {
            Some(union)
        } else {
            None
        }
    }

    pub fn as_enum(&self) -> (r: Option<&Enum>)
        ensures
            match *self {
                Type::Enum(e) => r == Some(&e),
                _ => r is None,
            },
    {
        if let Type::Enum(en) = self {
            Some(en)
        } else {
            None
        }
    }

    pub fn as_subscription(&self) -> (r: Option<&Subscription>)
        ensures
            match *self {
                Type::Subscription(s) => r == Some(&s),
                _ => r is None,
            },
    {
        if let Type::Subscription(subscription) = self {
            Some(subscription)
        } else {
            None
        }
    }

    /// Whether the type may be the type of an output field.
    pub fn is_output_type(&self) -> (r: bool)
        ensures
            r == !(*self is Subscription),
    {
        match self {
            Type::Scalar(_) => true,
            Type::Object(_) => true,
            Type::Enum(_) => true,
            Type::Interface(_) => true,
            Type::Union(_) => true,
            Type::Subscription(_) => false,
        }
    }

    /// Whether the type may be the type of an input value.
    pub fn is_input_type(&self) -> (r: bool)
        ensures
            r == (*self is Scalar || *self is Object || *self is Enum),
    {
        match self {
            Type::Scalar(_) => true,
            Type::Object(_) => true,
            Type::Enum(_) => true,
            Type::Interface(_) => false,
            Type::Union(_) => false,
            Type::Subscription(_) => false,
        }
    }

    /// Checks `value` against a scalar or an enum.
    pub fn to_value(&self, value: &Value) -> (r: SeaResult<Value>)
        requires
            *self is Scalar || *self is Enum,
        ensures
            match *self {
                Type::Enum(e) => crate::schema::enum_to_value_outcome(e, value@, r),
                _ => r matches Ok(v) && v@ == value@,
            },
    {
        match self {
            Type::Enum(en) => en.to_value(value),
            Type::Scalar(scalar) => scalar.to_value(value),
            _ => Ok(value.duplicate()),
        }
    }

    /// Checks that `member` may stand for this type: an object or an
    /// interface checks the interface it implements, a union checks its
    /// members.
    pub fn check(&self, member: &str, registry: &TypeRegistry) -> (r: SeaResult<()>)
        ensures
            match *self {
                Type::Interface(i) => outcome_is(
                    r,
                    crate::object::interface_check(i, member@, *registry),
                ),
                Type::Union(u) => outcome_is(r, crate::schema::union_check(u, member@)),
                Type::Object(o) => outcome_is(r, crate::object::object_check(o, member@, *registry)),
                _ => r is Ok,
            },
    {
        match self {
            Type::Interface(interface) => interface.check(member, registry),
            Type::Union(union) => union.check(member),
            Type::Object(object) => object.check(member, registry),
            _ => Ok(()),
        }
    }
}

/// The types of a schema, by name.
#[derive(Debug)]
pub struct TypeRegistry {
    pub types: NameMap<Type>,
}

impl TypeRegistry {
    pub fn new() -> (r: Self)
        ensures
            r.types.spec_entries().len() == 0,
    {
        Self { types: NameMap::new() }
    }

    /// The type registered under `name`, if any.
    pub open spec fn spec_get(self, name: Seq<char>) -> Option<Type> {
        self.types.spec_get(name)
    }

    /// Removes every type.
    pub fn clear(&mut self)
        ensures
            final(self).types.spec_entries().len() == 0,
    {
        self.types = NameMap::new();
    }

    /// Registers `ty` under `name`; no type may be registered under that
    /// name yet.
    pub fn add(&mut self, name: String, ty: Type)
        requires
            !old(self).types.spec_contains(name@),
        ensures
            final(self).types.spec_entries() == insert_entry(
                old(self).types.spec_entries(),
                name,
                ty,
            ),
            final(self).spec_get(name@) == Some(ty),
            forall|other: Seq<char>|
                other != name@ ==> final(self).spec_get(other) == old(self).spec_get(other),
    {
        let ghost before = self.types.spec_entries();
        let ghost key = name;
        let ghost t = ty;
        self.types.insert(name, ty);
        proof {
            lemma_get_after_insert(before, key, t, key@);
            assert forall|other: Seq<char>| other != key@ implies self.spec_get(other)
                == old(self).spec_get(other) by {
                lemma_get_after_insert(before, key, t, other);
            }
        }
    }

    /// Whether a type is registered under `name`.
    pub fn contains(&self, name: &str) -> (r: bool)
        ensures
            r == self.types.spec_contains(name@),
    {
        self.types.contains_key(name)
    }

    /// The type registered under `name`, if any.
    pub fn get(&self, name: &str) -> (r: Option<&Type>)
        ensures
            match self.spec_get(name@) {
                Some(t) => r == Some(&t),
                None => r is None,
            },
    {
        self.types.get(name)
    }
}

} // verus!
