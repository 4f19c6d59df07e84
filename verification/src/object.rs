//! Fields, objects and interfaces, and the check that an object or an
//! interface implements the interfaces it claims.
use vstd::prelude::*;
use crate::error::{is_custom, SeaResult, SeaographyError};
use crate::meta::{SelectionSet, TypeRefToMeta};
use crate::name_map::{entry_get, index_of, insert_entry, lemma_get_after_insert, lemma_index_of, NameMap};
use crate::registry::{Type, TypeRegistry};

use crate::schema::{
    union_check, outcome_is, DeprecationStatus, Directive,
};
use crate::text::{format1, format2, format3, format4, owned, str_eq};
use crate::type_ref::{TypeRef, TypeRefModel};
use crate::value::{as_text_model, views, Value, ValueModel};

verus! {

/// An argument of a field: a name, a type and an optional default value.
#[derive(Debug)]
pub struct InputValue {
    pub name: String,
    pub description: Option<String>,
    pub ty: TypeRef,
    pub deprecation: DeprecationStatus,
    pub inaccessible: bool,
    pub default_value: Option<Value>,
}

/// A GraphQL field: an output field with a resolver, or an input value.
#[derive(Debug)]
pub struct Field {
    pub name: String,
    pub description: Option<String>,
    pub arguments: NameMap<InputValue>,
    pub ty: TypeRef,
    /// Whether the field is resolved by a resolver function.
    pub has_resolver: bool,
    pub deprecation: DeprecationStatus,
    pub inaccessible: bool,
    pub default_value: Option<Value>,
}

/// What a field carries that an implementation check reads: its name, its
/// type and its arguments.
pub trait Signature {
    spec fn sig_name(&self) -> Seq<char>;

    spec fn sig_ty(&self) -> TypeRefModel;

    spec fn sig_arguments(&self) -> Seq<(String, InputValue)>;

    fn name_str(&self) -> (r: &str)
        ensures
            r@ == self.sig_name(),
    ;

    fn type_ref(&self) -> (r: &TypeRef)
        ensures
            r@ == self.sig_ty(),
    ;

    fn argument_map(&self) -> (r: &NameMap<InputValue>)
        ensures
            r.spec_entries() == self.sig_arguments(),
    ;
}

impl Signature for Field {
    open spec fn sig_name(&self) -> Seq<char> {
        self.name@
    }

    open spec fn sig_ty(&self) -> TypeRefModel {
        self.ty@
    }

    open spec fn sig_arguments(&self) -> Seq<(String, InputValue)> {
        self.arguments.spec_entries()
    }

    fn name_str(&self) -> (r: &str) {
        self.name.as_str()
    }

    fn type_ref(&self) -> (r: &TypeRef) {
        &self.ty
    }

    fn argument_map(&self) -> (r: &NameMap<InputValue>) {
        &self.arguments
    }
}

impl Field {
    /// Create an input value
    pub fn input(name: &str, ty: TypeRef) -> (r: Self)
        ensures
            r.name@ == name@,
            r.ty == ty,
            !r.has_resolver,
            r.description is None,
            r.arguments.spec_entries().len() == 0,
            r.deprecation is Current,
            !r.inaccessible,
            r.default_value is None,
    {
        Self {
            name: owned(name),
            description: None,
            arguments: NameMap::new(),
            ty,
            has_resolver: false,
            deprecation: DeprecationStatus::Current,
            inaccessible: false,
            default_value: None,
        }
    }

    /// Create an output field, resolved by a resolver function
    pub fn output(name: &str, ty: TypeRef) -> (r: Self)
        ensures
            r.name@ == name@,
            r.ty == ty,
            r.has_resolver,
            r.description is None,
            r.arguments.spec_entries().len() == 0,
            r.deprecation is Current,
            !r.inaccessible,
            r.default_value is None,
    {
        Self {
            name: owned(name),
            description: None,
            arguments: NameMap::new(),
            ty,
            has_resolver: true,
            deprecation: DeprecationStatus::Current,
            inaccessible: false,
            default_value: None,
        }
    }

    /// Set the description
    pub fn description(self, description: &str) -> (r: Self)
        ensures
            r.description matches Some(d) && d@ == description@,
            r.name == self.name,
            r.ty == self.ty,
            r.has_resolver == self.has_resolver,
            r.arguments == self.arguments,
            r.inaccessible == self.inaccessible,
    {
        Self { description: Some(owned(description)), ..self }
    }

    /// Mark the field deprecated, with an optional reason
    pub fn deprecation(self, reason: Option<&str>) -> (r: Self)
        ensures
            r.deprecation is Deprecated,
            r.name == self.name,
            r.ty == self.ty,
            r.has_resolver == self.has_resolver,
            r.arguments == self.arguments,
            r.inaccessible == self.inaccessible,
    {
        let d = match reason {
            Some(s) => DeprecationStatus::Deprecated(Some(owned(s))),
            None => DeprecationStatus::Deprecated(None),
        };
        Self { deprecation: d, ..self }
    }

    /// Indicate that the field is not accessible from a supergraph
    pub fn inaccessible(self) -> (r: Self)
        ensures
            r.inaccessible,
            r.name == self.name,
            r.ty == self.ty,
            r.has_resolver == self.has_resolver,
            r.arguments == self.arguments,
    {
        Self { inaccessible: true, ..self }
    }

    /// Set the default value
    pub fn default_value(self, value: Value) -> (r: Self)
        ensures
            r.default_value == Some(value),
            r.name == self.name,
            r.ty == self.ty,
            r.has_resolver == self.has_resolver,
            r.arguments == self.arguments,
            r.inaccessible == self.inaccessible,
    {
        Self { default_value: Some(value), ..self }
    }

    /// Returns the name of the field
    pub fn get_type_name(&self) -> (r: &str)
        ensures
            r@ == self.name@,
    {
        self.name.as_str()
    }

    /// The field as an argument of another field.
    pub open spec fn as_input_spec(self) -> InputValue {
        InputValue {
            name: self.name,
            description: self.description,
            ty: self.ty,
            deprecation: self.deprecation,
            inaccessible: self.inaccessible,
            default_value: self.default_value,
        }
    }

    /// The field as an argument of another field: its name, description,
    /// type, deprecation, accessibility and default value.
    pub fn into_input_value(self) -> (r: InputValue)
        ensures
            r == self.as_input_spec(),
    {
        InputValue {
            name: self.name,
            description: self.description,
            ty: self.ty,
            deprecation: self.deprecation,
            inaccessible: self.inaccessible,
            default_value: self.default_value,
        }
    }

    /// Add an argument to the field, in place of one of the same name
    pub fn argument(self, input_value: Field) -> (r: Self)
        ensures
            r.arguments.spec_entries() == insert_entry(
                self.arguments.spec_entries(),
                input_value.name,
                input_value.as_input_spec(),
            ),
            r.name == self.name,
            r.ty == self.ty,
            r.has_resolver == self.has_resolver,
            r.inaccessible == self.inaccessible,
    {
        let mut r = self;
        let key = input_value.name.clone();
        r.arguments.insert(key, input_value.into_input_value());
        r
    }

    /// The key under which the field's result is returned for `selection`:
    /// the alias where there is one, else the field's name.
    pub fn response_key<'b>(&'b self, selection: &'b SelectionSet) -> (r: &'b str)
        ensures
            r@ == response_key_of(*self, *selection),
    {
        match &selection.alias {
            Some(alias) => alias.as_str(),
            None => self.name.as_str(),
        }
    }

    /// The value of the field when the resolver returned `resolved`: that
    /// value, else the default value, else null.
    pub fn resolved_or_default(&self, resolved: Option<Value>) -> (r: Value)
        ensures
            r@ == (match resolved {
                Some(v) => v@,
                None => match self.default_value {
                    Some(d) => d@,
                    None => ValueModel::Null,
                },
            }),
    {
        match resolved {
            Some(v) => v,
            None => match &self.default_value {
                Some(value) => value.duplicate(),
                None => Value::Null,
            },
        }
    }

    /// A resolved value checked against the field's named type: a built-in
    /// scalar takes it as it is, a registered scalar or enum checks it, and
    /// any other name is unsupported; a registered type of another kind is
    /// not allowed.
    pub fn value_to_value(&self, value: &Value, registry: &TypeRegistry) -> (r: SeaResult<Value>)
        requires
            checkable_type(self.ty@.name(), *registry),
        ensures
            value_check_outcome(self.ty@.name(), *registry, value@, r),
    {
        let name = self.ty.get_type_name();
        if str_eq(name, TypeRef::INT) || str_eq(name, TypeRef::FLOAT) || str_eq(name, TypeRef::STRING)
            || str_eq(name, TypeRef::BOOLEAN) || str_eq(name, TypeRef::ID) {
            return Ok(value.duplicate());
        }
        match registry.get(name) {
            Some(ty) => ty.to_value(value),
            None => Err(SeaographyError::Custom(format1("Unsupported type for field `", name, "`"))),
        }
    }

    /// A resolved value or list of values checked against the field's
    /// named type, each value as `value_to_value` checks it: the values
    /// come back in the same nesting, or the error of the first value,
    /// depth first, that fails.
    pub fn to_value(&self, data: &ResolvedValue, registry: &TypeRegistry) -> (r: SeaResult<Value>)
        requires
            checkable_type(self.ty@.name(), *registry),
        ensures
            match first_failure(self.ty@.name(), *registry, *data) {
                None => r matches Ok(v) && v@ == resolved_model(*data),
                Some(bad) => r matches Err(e) && value_check_outcome(
                    self.ty@.name(),
                    *registry,
                    bad,
                    Err(e),
                ),
            },
        decreases data,
    {
        match data {
            ResolvedValue::Value(v) => self.value_to_value(v, registry),
            ResolvedValue::List(items) => {
                let mut out: Vec<Value> = Vec::new();
                let mut i: usize = 0;
                while i < items.len()
                    invariant
                        i <= items@.len(),
                        checkable_type(self.ty@.name(), *registry),
                        *data == ResolvedValue::List(*items),
                        first_failure_seq(self.ty@.name(), *registry, items@.take(i as int)) is None,
                        views(out@) == resolved_models(items@.take(i as int)),
                    decreases items@.len() - i,
                {
                    proof {
                        assert(items@.take(i + 1).drop_last() =~= items@.take(i as int));
                        assert(items@.take(i + 1).last() == items@[i as int]);
                        assert(decreases_to!(*data => items@[i as int]));
                    }
                    match self.to_value(&items[i], registry) {
                        Ok(v) => {
                            let ghost before = out@;
                            out.push(v);
                            proof {
                                assert(out@.drop_last() =~= before);
                            }
                        },
                        Err(e) => {
                            proof {
                                lemma_first_failure_prefix(
                                    self.ty@.name(),
                                    *registry,
                                    items@,
                                    i as int + 1,
                                );
                            }
                            return Err(e);
                        },
                    }
                    i = i + 1;
                }
                proof {
                    assert(items@.take(i as int) =~= items@);
                }
                Ok(Value::List(out))
            },
        }
    }

    /// The entry that the field adds to its object's result, once its
    /// resolver has returned `resolved`: the response key, and the checked
    /// value, else the default value, else null.
    pub fn collect(
        &self,
        selection: &SelectionSet,
        resolved: Option<ResolvedValue>,
        registry: &TypeRegistry,
    ) -> (r: SeaResult<(Value, Value)>)
        requires
            checkable_type(self.ty@.name(), *registry),
        ensures
            match resolved {
                None => r matches Ok(p) && p.0@ == ValueModel::String(response_key_of(*self, *selection))
                    && p.1@ == (match self.default_value {
                    Some(d) => d@,
                    None => ValueModel::Null,
                }),
                Some(d) => match first_failure(self.ty@.name(), *registry, d) {
                    None => r matches Ok(p) && p.0@ == ValueModel::String(
                        response_key_of(*self, *selection),
                    ) && p.1@ == resolved_model(d),
                    Some(bad) => r matches Err(e) && value_check_outcome(
                        self.ty@.name(),
                        *registry,
                        bad,
                        Err(e),
                    ),
                },
            },
    {
        let value = match resolved {
            Some(d) => match self.to_value(&d, registry) {
                Ok(v) => v,
                Err(e) => {
                    return Err(e);
                },
            },
            None => self.resolved_or_default(None),
        };
        let key = owned(self.response_key(selection));
        Ok((Value::String(key), value))
    }

    /// The shape of the field as an input value, for a field without a
    /// resolver.
    pub fn meta_input(&self) -> (r: Option<TypeRefToMeta<'_>>)
        ensures
            self.has_resolver ==> r is None,
            !self.has_resolver ==> (r matches Some(m) && meta_of(m, self.name@, self.ty@)),
    {
        if !self.has_resolver {
            let mut type_ref = TypeRefToMeta::new(self.name.as_str());
            type_ref.from_type_ref(&self.ty);
            Some(type_ref)
        } else {
            None
        }
    }

    /// The shape of the field as an output field, and the shapes of its
    /// accessible arguments in order, for a field with a resolver.
    pub fn meta_output(&self) -> (r: Option<(TypeRefToMeta<'_>, Vec<TypeRefToMeta<'_>>)>)
        ensures
            !self.has_resolver ==> r is None,
            self.has_resolver ==> (r matches Some(p) && meta_of(p.0, self.name@, self.ty@)
                && metas_of_accessible(p.1@, self.arguments.spec_entries())),
    {
        if self.has_resolver {
            let mut type_ref = TypeRefToMeta::new(self.name.as_str());
            type_ref.from_type_ref(&self.ty);
            let args = argument_metas(&self.arguments);
            Some((type_ref, args))
        } else {
            None
        }
    }
}

/// The key under which `f` is returned for `selection`: the alias where
/// there is one, else the field's name.
pub open spec fn response_key_of(f: Field, selection: SelectionSet) -> Seq<char> {
    match selection.alias {
        Some(a) => a@,
        None => f.name@,
    }
}

/// A value resolved for a field, before it is checked against the field's
/// type: a value, or a list of resolved values.
#[derive(Debug)]
pub enum ResolvedValue {
    Value(Value),
    List(Vec<ResolvedValue>),
}

/// The value that a resolved value stands for, in the same nesting.
pub open spec fn resolved_model(d: ResolvedValue) -> ValueModel
    decreases d,
{
    match d {
        ResolvedValue::Value(v) => v@,
        ResolvedValue::List(items) => ValueModel::List(resolved_models(items@)),
    }
}

/// The values that a sequence of resolved values stands for.
pub open spec fn resolved_models(s: Seq<ResolvedValue>) -> Seq<ValueModel>
    decreases s,
{
    if s.len() == 0 {
        Seq::empty()
    } else {
        resolved_models(s.drop_last()).push(resolved_model(s.last()))
    }
}

/// A field whose type is named `name` can check its values: a registered
/// type of that name that is not a built-in scalar is a scalar or an enum.
pub open spec fn checkable_type(name: Seq<char>, registry: TypeRegistry) -> bool {
    !builtin_scalar(name) ==> (registry.spec_get(name) matches Some(t) ==> (t is Scalar
        || t is Enum))
}

/// What checking `value` against the type named `name` gives: a built-in
/// scalar takes it as it is, a registered enum checks it, another
/// registered type takes it, and an unknown name is unsupported.
pub open spec fn value_check_outcome(
    name: Seq<char>,
    registry: TypeRegistry,
    value: ValueModel,
    r: SeaResult<Value>,
) -> bool {
    if builtin_scalar(name) {
        r matches Ok(v) && v@ == value
    } else {
        match registry.spec_get(name) {
            Some(Type::Enum(e)) => crate::schema::enum_to_value_outcome(e, value, r),
            Some(_) => r matches Ok(v) && v@ == value,
            None => r matches Err(e) && is_custom(e, "Unsupported type for field `"@ + name + "`"@),
        }
    }
}

/// Checking `value` against the type named `name` succeeds.
pub open spec fn value_passes(name: Seq<char>, registry: TypeRegistry, value: ValueModel) -> bool {
    if builtin_scalar(name) {
        true
    } else {
        match registry.spec_get(name) {
            Some(Type::Enum(e)) => !e.inaccessible && (match as_text_model(value) {
                Some(t) => e.enum_values.spec_get(t) matches Some(item) && !item.inaccessible,
                None => false,
            }),
            Some(_) => true,
            None => false,
        }
    }
}

/// The first value, depth first, that fails the check, if any.
pub open spec fn first_failure(name: Seq<char>, registry: TypeRegistry, d: ResolvedValue) -> Option<
    ValueModel,
>
    decreases d,
{
    match d {
        ResolvedValue::Value(v) => if value_passes(name, registry, v@) {
            None
        } else {
            Some(v@)
        },
        ResolvedValue::List(items) => first_failure_seq(name, registry, items@),
    }
}

/// The first value, depth first, of a sequence of resolved values that
/// fails the check, if any.
pub open spec fn first_failure_seq(name: Seq<char>, registry: TypeRegistry, s: Seq<ResolvedValue>) -> Option<
    ValueModel,
>
    decreases s,
{
    if s.len() == 0 {
        None
    } else {
        match first_failure_seq(name, registry, s.drop_last()) {
            Some(bad) => Some(bad),
            None => first_failure(name, registry, s.last()),
        }
    }
}

/// A failure found in a prefix of the sequence is its first failure.
pub proof fn lemma_first_failure_prefix(
    name: Seq<char>,
    registry: TypeRegistry,
    s: Seq<ResolvedValue>,
    n: int,
)
    requires
        0 <= n <= s.len(),
        first_failure_seq(name, registry, s.take(n)) is Some,
    ensures
        first_failure_seq(name, registry, s) == first_failure_seq(name, registry, s.take(n)),
    decreases s.len() - n,
{
    if n < s.len() {
        assert(s.take(n + 1).drop_last() =~= s.take(n));
        lemma_first_failure_prefix(name, registry, s, n + 1);
    } else {
        assert(s.take(n) =~= s);
    }
}

/// `m` describes the type `ty` under the name `name`, starting from no flags.
pub open spec fn meta_of(m: TypeRefToMeta, name: Seq<char>, ty: TypeRefModel) -> bool {
    &&& m.name@ == name
    &&& m.named_type@ == ty.name()
    &&& m.list == crate::meta::has_list(ty)
    &&& m.non_null == crate::meta::outer_non_null(ty)
    &&& m.list_non_null == crate::meta::inner_non_null(ty)
}

/// The accessible arguments, in order.
pub open spec fn accessible_arguments(args: Seq<(String, InputValue)>) -> Seq<InputValue>
    decreases args.len(),
{
    if args.len() == 0 {
        Seq::empty()
    } else if args.last().1.inaccessible {
        accessible_arguments(args.drop_last())
    } else {
        accessible_arguments(args.drop_last()).push(args.last().1)
    }
}

/// `metas` describe the accessible arguments, in order.
pub open spec fn metas_of_accessible(metas: Seq<TypeRefToMeta>, args: Seq<(String, InputValue)>) -> bool {
    let acc = accessible_arguments(args);
    &&& metas.len() == acc.len()
    &&& forall|i: int| 0 <= i < metas.len() ==> meta_of(#[trigger] metas[i], acc[i].name@, acc[i].ty@)
}

fn argument_metas(arguments: &NameMap<InputValue>) -> (r: Vec<TypeRefToMeta<'_>>)
    ensures
        metas_of_accessible(r@, arguments.spec_entries()),
{
    let entries = arguments.entries();
    let mut out: Vec<TypeRefToMeta<'_>> = Vec::new();
    let mut i: usize = 0;
    while i < entries.len()
        invariant
            i <= entries@.len(),
            entries@ == arguments.spec_entries(),
            metas_of_accessible(out@, entries@.take(i as int)),
        decreases entries@.len() - i,
    {
        let arg = &entries[i].1;
        proof {
            assert(entries@.take(i + 1).drop_last() =~= entries@.take(i as int));
        }
        if !arg.inaccessible {
            let mut type_ref = TypeRefToMeta::new(arg.name.as_str());
            type_ref.from_type_ref(&arg.ty);
            out.push(type_ref);
            proof {
                let acc = accessible_arguments(entries@.take(i + 1));
                assert(acc == accessible_arguments(entries@.take(i as int)).push(*arg));
            }
        }
        i = i + 1;
    }
    proof {
        assert(entries@.take(i as int) =~= entries@);
    }
    out
}

/// A GraphQL interface field
#[derive(Debug)]
pub struct InterfaceField {
    pub name: String,
    pub description: Option<String>,
    pub arguments: NameMap<InputValue>,
    pub ty: TypeRef,
    pub deprecation: DeprecationStatus,
    pub inaccessible: bool,
    pub directives: Vec<Directive>,
}

impl Signature for InterfaceField {
    open spec fn sig_name(&self) -> Seq<char> {
        self.name@
    }

    open spec fn sig_ty(&self) -> TypeRefModel {
        self.ty@
    }

    open spec fn sig_arguments(&self) -> Seq<(String, InputValue)> {
        self.arguments.spec_entries()
    }

    fn name_str(&self) -> (r: &str) {
        self.name.as_str()
    }

    fn type_ref(&self) -> (r: &TypeRef) {
        &self.ty
    }

    fn argument_map(&self) -> (r: &NameMap<InputValue>) {
        &self.arguments
    }
}

impl InterfaceField {
    /// Create a GraphQL interface field type
    pub fn new(name: &str, ty: TypeRef) -> (r: Self)
        ensures
            r.name@ == name@,
            r.ty == ty,
            r.description is None,
            r.arguments.spec_entries().len() == 0,
            r.deprecation is Current,
            !r.inaccessible,
            r.directives@.len() == 0,
    {
        Self {
            name: owned(name),
            description: None,
            arguments: NameMap::new(),
            ty,
            deprecation: DeprecationStatus::Current,
            inaccessible: false,
            directives: Vec::new(),
        }
    }

    /// Set the description
    pub fn description(self, description: &str) -> (r: Self)
        ensures
            r.description matches Some(d) && d@ == description@,
            r.name == self.name,
            r.ty == self.ty,
            r.arguments == self.arguments,
            r.inaccessible == self.inaccessible,
    {
        Self { description: Some(owned(description)), ..self }
    }

    /// Indicate that the field is not accessible from a supergraph
    pub fn inaccessible(self) -> (r: Self)
        ensures
            r.inaccessible,
            r.name == self.name,
            r.ty == self.ty,
            r.arguments == self.arguments,
    {
        Self { inaccessible: true, ..self }
    }

    /// Returns the name of the field
    pub fn get_type_name(&self) -> (r: &str)
        ensures
            r@ == self.name@,
    {
        self.name.as_str()
    }

    /// Add an argument to the field, in place of one of the same name
    pub fn argument(self, input_value: Field) -> (r: Self)
        ensures
            r.arguments.spec_entries() == insert_entry(
                self.arguments.spec_entries(),
                input_value.name,
                input_value.as_input_spec(),
            ),
            r.name == self.name,
            r.ty == self.ty,
            r.inaccessible == self.inaccessible,
    {
        let mut r = self;
        let key = input_value.name.clone();
        r.arguments.insert(key, input_value.into_input_value());
        r
    }

    /// The shape of the field and the shapes of its accessible arguments,
    /// in order.
    pub fn meta(&self) -> (r: (TypeRefToMeta<'_>, Vec<TypeRefToMeta<'_>>))
        ensures
            meta_of(r.0, self.name@, self.ty@),
            metas_of_accessible(r.1@, self.arguments.spec_entries()),
    {
        let mut type_ref = TypeRefToMeta::new(self.name.as_str());
        type_ref.from_type_ref(&self.ty);
        (type_ref, argument_metas(&self.arguments))
    }
}


/// A GraphQL interface type
#[derive(Debug)]
pub struct Interface {
    pub name: String,
    pub description: Option<String>,
    pub fields: NameMap<InterfaceField>,
    pub implements: NameMap<()>,
    pub directives: Vec<Directive>,
    pub inaccessible: bool,
}

/// What checking `member` against the interface `i` gives.
pub open spec fn interface_check(i: Interface, member: Seq<char>, registry: TypeRegistry) -> Result<
    (),
    Seq<char>,
> {
    if i.inaccessible {
        Err("interface `"@ + i.name@ + "` is inaccessible"@)
    } else {
        match registry.spec_get(member) {
            None => Err(
                "object `"@ + i.name@ + "` implements unknown CUSTOM type `"@ + member + "`"@,
            ),
            Some(Type::Interface(other)) => if i.implements.spec_contains(other.name@) {
                match implementation_error(
                    "interface `"@,
                    i.name@,
                    i.fields.spec_entries(),
                    other.fields.spec_entries(),
                ) {
                    Some(m) => Err(m),
                    None => Ok(()),
                }
            } else {
                Err(
                    "interface `"@ + i.name@ + "` does not implement interface `"@ + other.name@
                        + "`"@,
                )
            },
            Some(Type::Union(u)) => union_check(u, i.name@),
            Some(_) => Ok(()),
        }
    }
}

impl Interface {
    /// Create a GraphQL interface type
    pub fn new(name: &str) -> (r: Self)
        ensures
            r.name@ == name@,
            r.description is None,
            r.fields.spec_entries().len() == 0,
            r.implements.spec_entries().len() == 0,
            r.directives@.len() == 0,
            !r.inaccessible,
    {
        Self {
            name: owned(name),
            description: None,
            fields: NameMap::new(),
            implements: NameMap::new(),
            directives: Vec::new(),
            inaccessible: false,
        }
    }

    /// Set the description
    pub fn description(self, description: &str) -> (r: Self)
        ensures
            r.description matches Some(d) && d@ == description@,
            r.name == self.name,
            r.fields == self.fields,
            r.implements == self.implements,
            r.inaccessible == self.inaccessible,
    {
        Self { description: Some(owned(description)), ..self }
    }

    /// Indicate that the interface is not accessible from a supergraph
    pub fn inaccessible(self) -> (r: Self)
        ensures
            r.inaccessible,
            r.name == self.name,
            r.fields == self.fields,
            r.implements == self.implements,
    {
        Self { inaccessible: true, ..self }
    }

    /// Attach directive to the interface
    pub fn directive(self, directive: Directive) -> (r: Self)
        ensures
            r.name == self.name,
            r.fields == self.fields,
            r.implements == self.implements,
            r.inaccessible == self.inaccessible,
            r.directives@ == self.directives@.push(directive),
    {
        let mut r = self;
        r.directives.push(directive);
        r
    }

    /// Returns the type name
    pub fn get_type_name(&self) -> (r: &str)
        ensures
            r@ == self.name@,
    {
        self.name.as_str()
    }

    /// Add a field; a field of the same name must not be there yet
    pub fn field(self, field: InterfaceField) -> (r: Self)
        requires
            !self.fields.spec_contains(field.name@),
        ensures
            r.fields.spec_entries() == insert_entry(self.fields.spec_entries(), field.name, field),
            r.name == self.name,
            r.implements == self.implements,
            r.inaccessible == self.inaccessible,
    {
        let mut r = self;
        let key = field.name.clone();
        r.fields.insert(key, field);
        r
    }

    /// Add an interface that this one implements; it must not be there yet
    pub fn implement(self, interface: &str) -> (r: Self)
        requires
            !self.implements.spec_contains(interface@),
        ensures
            r.implements.spec_contains(interface@),
            forall|k: Seq<char>|
                k != interface@ ==> r.implements.spec_contains(k) == self.implements.spec_contains(k),
            r.name == self.name,
            r.fields == self.fields,
            r.inaccessible == self.inaccessible,
    {
        let mut r = self;
        let ghost before = r.implements.spec_entries();
        let key = owned(interface);
        let ghost k = key;
        r.implements.insert(key, ());
        proof {
            lemma_get_after_insert(before, k, (), interface@);
            assert forall|other: Seq<char>| other != interface@ implies r.implements.spec_contains(
                other,
            ) == self.implements.spec_contains(other) by {
                lemma_get_after_insert(before, k, (), other);
            }
        }
        r
    }

    /// Checks that `member` may stand for this interface, as the type
    /// registered under that name says.
    pub fn check(&self, member: &str, registry: &TypeRegistry) -> (r: SeaResult<()>)
        ensures
            outcome_is(r, interface_check(*self, member@, *registry)),
    {
        if self.inaccessible {
            return Err(
                SeaographyError::Custom(
                    format1("interface `", self.name.as_str(), "` is inaccessible"),
                ),
            );
        }
        match registry.get(member) {
            Some(ty) => {
                match ty {
                    Type::Interface(interface) => {
                        if self.implements.contains_key(interface.name.as_str()) {
                            return check_implementation(
                                "interface `",
                                self.name.as_str(),
                                &self.fields,
                                &interface.fields,
                            );
                        } else {
                            return Err(
                                SeaographyError::Custom(
                                    format2(
                                        "interface `",
                                        self.name.as_str(),
                                        "` does not implement interface `",
                                        interface.name.as_str(),
                                        "`",
                                    ),
                                ),
                            );
                        }
                    },
                    Type::Union(union) => {
                        return union.check(self.name.as_str());
                    },
                    _ => Ok(()),
                }
            },
            None => Err(
                SeaographyError::Custom(
                    format2(
                        "object `",
                        self.name.as_str(),
                        "` implements unknown CUSTOM type `",
                        member,
                        "`",
                    ),
                ),
            ),
        }
    }

    /// How the interface type is described to a schema: the registered
    /// types that implement it, its accessible fields with their shapes,
    /// and the interfaces it implements, which must all be registered.
    pub fn meta<'b>(&'b self, registry: &'b TypeRegistry) -> (r: InterfaceMeta<'b>)
        requires
            all_registered(self.implements.spec_entries(), *registry),
        ensures
            same_types(r.implementors@, implementors(registry.types.spec_entries(), self.name@)),
            interface_metas_of(r.fields@, accessible_fields(self.fields.spec_entries())),
            registered_all(r.interfaces@, self.implements.spec_entries(), *registry),
    {
        let types = registry.types.entries();
        let mut implementors_found: Vec<&'b Type> = Vec::new();
        let mut i: usize = 0;
        while i < types.len()
            invariant
                i <= types@.len(),
                types@ == registry.types.spec_entries(),
                same_types(implementors_found@, implementors(types@.take(i as int), self.name@)),
            decreases types@.len() - i,
        {
            let ty = &types[i].1;
            proof {
                assert(types@.take(i + 1).drop_last() =~= types@.take(i as int));
            }
            let hit = match ty {
                Type::Object(o) => o.implements.contains_key(self.name.as_str()),
                Type::Interface(other) => other.implements.contains_key(self.name.as_str()),
                _ => false,
            };
            if hit {
                implementors_found.push(ty);
            }
            i = i + 1;
        }
        proof {
            assert(types@.take(i as int) =~= types@);
        }
        let entries = self.fields.entries();
        let mut fields: Vec<(&'b InterfaceField, TypeRefToMeta<'b>, Vec<TypeRefToMeta<'b>>)> =
            Vec::new();
        let mut k: usize = 0;
        while k < entries.len()
            invariant
                k <= entries@.len(),
                entries@ == self.fields.spec_entries(),
                interface_metas_of(fields@, accessible_fields(entries@.take(k as int))),
            decreases entries@.len() - k,
        {
            let field = &entries[k].1;
            proof {
                assert(entries@.take(k + 1).drop_last() =~= entries@.take(k as int));
            }
            if !field.inaccessible {
                let m = field.meta();
                fields.push((field, m.0, m.1));
            }
            k = k + 1;
        }
        proof {
            assert(entries@.take(k as int) =~= entries@);
        }
        let interfaces = registered_types(&self.implements, registry);
        InterfaceMeta { implementors: implementors_found, fields, interfaces }
    }

    /// An interface's value must name its concrete type; a bare value is
    /// refused.
    pub fn collect(&self) -> (r: SeaResult<(Value, Value)>)
        ensures
            r matches Err(e) && is_custom(
                e,
                "invalid FieldValue for interface `"@ + self.name@
                    + "`, expected `FieldValue::with_type`"@,
            ),
    {
        Err(
            SeaographyError::Custom(
                format1(
                    "invalid FieldValue for interface `",
                    self.name.as_str(),
                    "`, expected `FieldValue::with_type`",
                ),
            ),
        )
    }
}

/// How an interface type is described to a schema.
#[derive(Debug)]
pub struct InterfaceMeta<'a> {
    /// The registered types that implement the interface.
    pub implementors: Vec<&'a Type>,
    /// Each accessible field with its shape and the shapes of its
    /// accessible arguments.
    pub fields: Vec<(&'a InterfaceField, TypeRefToMeta<'a>, Vec<TypeRefToMeta<'a>>)>,
    /// The interfaces that the interface implements.
    pub interfaces: Vec<&'a Type>,
}

/// `t` is an object or an interface that implements the interface `name`.
pub open spec fn implements_name(t: Type, name: Seq<char>) -> bool {
    match t {
        Type::Object(o) => o.implements.spec_contains(name),
        Type::Interface(i) => i.implements.spec_contains(name),
        _ => false,
    }
}

/// The registered types, in order, that implement the interface `name`.
pub open spec fn implementors(types: Seq<(String, Type)>, name: Seq<char>) -> Seq<Type>
    decreases types.len(),
{
    if types.len() == 0 {
        Seq::empty()
    } else {
        let rest = implementors(types.drop_last(), name);
        if implements_name(types.last().1, name) {
            rest.push(types.last().1)
        } else {
            rest
        }
    }
}

/// Every registered type that claims to implement an interface is among
/// the implementors that the interface's description lists, and every one
/// listed claims it.
pub proof fn lemma_implementors_are_the_claimants(types: Seq<(String, Type)>, name: Seq<char>, t: Type)
    ensures
        implementors(types, name).contains(t) <==> (implements_name(t, name) && exists|k: int|
            0 <= k < types.len() && #[trigger] types[k].1 == t),
    decreases types.len(),
{
    if types.len() > 0 {
        let rest = types.drop_last();
        lemma_implementors_are_the_claimants(rest, name, t);
        if implementors(types, name).contains(t) {
            if !implementors(rest, name).contains(t) {
                assert(implementors(types, name) == implementors(rest, name).push(types.last().1));
                let i = choose|i: int|
                    0 <= i < implementors(types, name).len() && implementors(types, name)[i] == t;
                assert(i == implementors(rest, name).len());
                assert(types[types.len() - 1].1 == t);
            } else {
                let k = choose|k: int| 0 <= k < rest.len() && #[trigger] rest[k].1 == t;
                assert(types[k] == rest[k]);
            }
        }
        if implements_name(t, name) && exists|k: int| 0 <= k < types.len() && #[trigger] types[k].1
            == t {
            let k = choose|k: int| 0 <= k < types.len() && #[trigger] types[k].1 == t;
            if k < types.len() - 1 {
                assert(rest[k] == types[k]);
                let i = choose|i: int|
                    0 <= i < implementors(rest, name).len() && implementors(rest, name)[i] == t;
                if implements_name(types.last().1, name) {
                    assert(implementors(types, name)[i] == t);
                }
            } else {
                assert(implementors(types, name) == implementors(rest, name).push(t));
                assert(implementors(types, name)[implementors(rest, name).len() as int] == t);
            }
        }
    }
}

/// `refs` refer to `tys`, in order.
pub open spec fn same_types(refs: Seq<&Type>, tys: Seq<Type>) -> bool {
    &&& refs.len() == tys.len()
    &&& forall|k: int| 0 <= k < refs.len() ==> *(#[trigger] refs[k]) == tys[k]
}

/// The accessible fields of an interface, in order.
pub open spec fn accessible_fields(entries: Seq<(String, InterfaceField)>) -> Seq<InterfaceField>
    decreases entries.len(),
{
    if entries.len() == 0 {
        Seq::empty()
    } else if entries.last().1.inaccessible {
        accessible_fields(entries.drop_last())
    } else {
        accessible_fields(entries.drop_last()).push(entries.last().1)
    }
}

/// `metas` pair each of `fields`, in order, with its shape and the shapes
/// of its accessible arguments.
pub open spec fn interface_metas_of(
    metas: Seq<(&InterfaceField, TypeRefToMeta, Vec<TypeRefToMeta>)>,
    fields: Seq<InterfaceField>,
) -> bool {
    &&& metas.len() == fields.len()
    &&& forall|k: int|
        0 <= k < metas.len() ==> *(#[trigger] metas[k]).0 == fields[k] && meta_of(
            metas[k].1,
            fields[k].name@,
            fields[k].ty@,
        ) && metas_of_accessible(metas[k].2@, fields[k].arguments.spec_entries())
}

/// A GraphQL object type
#[derive(Debug)]
pub struct Object {
    pub name: String,
    pub description: Option<String>,
    pub fields: NameMap<Field>,
    pub implements: NameMap<()>,
    pub inaccessible: bool,
    pub directives: Vec<Directive>,
}

/// What checking `member` against the object `o` gives.
pub open spec fn object_check(o: Object, member: Seq<char>, registry: TypeRegistry) -> Result<
    (),
    Seq<char>,
> {
    if o.inaccessible {
        Err("object `"@ + o.name@ + "` is inaccessible"@)
    } else {
        match registry.spec_get(member) {
            None => Err(
                "object `"@ + o.name@ + "` implements unknown CUSTOM type `"@ + member + "`"@,
            ),
            Some(Type::Interface(i)) => if o.implements.spec_contains(i.name@) {
                match implementation_error(
                    "object `"@,
                    o.name@,
                    o.fields.spec_entries(),
                    i.fields.spec_entries(),
                ) {
                    Some(m) => Err(m),
                    None => Ok(()),
                }
            } else {
                Err("object `"@ + o.name@ + "` does not implement interface `"@ + i.name@ + "`"@)
            },
            Some(Type::Union(u)) => union_check(u, o.name@),
            Some(_) => Ok(()),
        }
    }
}

/// Whether `name` names a built-in scalar.
pub open spec fn builtin_scalar(name: Seq<char>) -> bool {
    name == TypeRef::INT@ || name == TypeRef::FLOAT@ || name == TypeRef::STRING@
        || name == TypeRef::BOOLEAN@ || name == TypeRef::ID@
}

/// The `__typename` field that every object has: a non-null string.
pub open spec fn typename_field(f: Field) -> bool {
    &&& f.name@ == "__typename"@
    &&& f.ty@ == crate::type_ref::non_null_model(crate::type_ref::named_model(TypeRef::STRING@))
    &&& f.has_resolver
}

/// The position of the first selection that asks for `name`.
pub open spec fn first_child(children: Seq<SelectionSet>, name: Seq<char>) -> Option<int>
    decreases children.len(),
{
    if children.len() == 0 {
        None
    } else {
        match first_child(children.drop_last(), name) {
            Some(i) => Some(i),
            None => if children.last().name@ == name {
                Some(children.len() - 1)
            } else {
                None
            },
        }
    }
}

/// The fields, in order, that the selections ask for, each with the first
/// selection that asks for it.
pub open spec fn selected(fields: Seq<(String, Field)>, children: Seq<SelectionSet>) -> Seq<
    (Field, SelectionSet),
>
    decreases fields.len(),
{
    if fields.len() == 0 {
        Seq::empty()
    } else {
        let rest = selected(fields.drop_last(), children);
        match first_child(children, fields.last().1.name@) {
            Some(i) => rest.push((fields.last().1, children[i])),
            None => rest,
        }
    }
}

/// What `first_child` finds: a selection for `name` and none before it.
pub proof fn lemma_first_child(children: Seq<SelectionSet>, name: Seq<char>)
    ensures
        match first_child(children, name) {
            Some(i) => 0 <= i < children.len() && children[i].name@ == name && forall|j: int|
                0 <= j < i ==> children[j].name@ != name,
            None => forall|j: int| 0 <= j < children.len() ==> children[j].name@ != name,
        },
    decreases children.len(),
{
    if children.len() > 0 {
        lemma_first_child(children.drop_last(), name);
        assert forall|j: int| 0 <= j < children.len() - 1 implies children[j]
            == children.drop_last()[j] by {}
    }
}

impl Object {
    /// Create a GraphQL object type, with its `__typename` field stored
    /// under the object's name
    pub fn new(name: &str) -> (r: Self)
        ensures
            r.name@ == name@,
            r.description is None,
            r.fields.spec_entries().len() == 1,
            r.fields.spec_entries()[0].0@ == name@,
            typename_field(r.fields.spec_entries()[0].1),
            r.implements.spec_entries().len() == 0,
            !r.inaccessible,
            r.directives@.len() == 0,
    {
        let mut fields: NameMap<Field> = NameMap::new();
        proof {
            reveal_strlit("__typename");
        }
        let typename = Field::output("__typename", TypeRef::named_nn(TypeRef::STRING));
        fields.insert(owned(name), typename);
        Self {
            name: owned(name),
            description: None,
            fields,
            implements: NameMap::new(),
            inaccessible: false,
            directives: Vec::new(),
        }
    }

    /// Set the description
    pub fn description(self, description: &str) -> (r: Self)
        ensures
            r.description matches Some(d) && d@ == description@,
            r.name == self.name,
            r.fields == self.fields,
            r.implements == self.implements,
            r.inaccessible == self.inaccessible,
    {
        Self { description: Some(owned(description)), ..self }
    }

    /// Indicate that the object is not accessible from a supergraph
    pub fn inaccessible(self) -> (r: Self)
        ensures
            r.inaccessible,
            r.name == self.name,
            r.fields == self.fields,
            r.implements == self.implements,
    {
        Self { inaccessible: true, ..self }
    }

    /// Attach directive to the object
    pub fn directive(self, directive: Directive) -> (r: Self)
        ensures
            r.name == self.name,
            r.fields == self.fields,
            r.implements == self.implements,
            r.inaccessible == self.inaccessible,
            r.directives@ == self.directives@.push(directive),
    {
        let mut r = self;
        r.directives.push(directive);
        r
    }

    /// Add a field; a field stored under the same name must not be there yet
    pub fn field(self, field: Field) -> (r: Self)
        requires
            !self.fields.spec_contains(field.name@),
        ensures
            r.fields.spec_entries() == insert_entry(self.fields.spec_entries(), field.name, field),
            r.fields.spec_get(field.name@) == Some(field),
            r.name == self.name,
            r.description == self.description,
            r.implements == self.implements,
            r.inaccessible == self.inaccessible,
            r.directives == self.directives,
    {
        let mut r = self;
        let ghost before = r.fields.spec_entries();
        let key = field.name.clone();
        let ghost k = key;
        let ghost f = field;
        r.fields.insert(key, field);
        proof {
            lemma_get_after_insert(before, k, f, k@);
        }
        r
    }

    /// Add an interface that the object implements; it must not be there yet
    pub fn implement(self, interface: &str) -> (r: Self)
        requires
            !self.implements.spec_contains(interface@),
        ensures
            r.implements.spec_contains(interface@),
            forall|k: Seq<char>|
                k != interface@ ==> r.implements.spec_contains(k) == self.implements.spec_contains(k),
            r.name == self.name,
            r.fields == self.fields,
            r.inaccessible == self.inaccessible,
    {
        let mut r = self;
        let ghost before = r.implements.spec_entries();
        let key = owned(interface);
        let ghost k = key;
        r.implements.insert(key, ());
        proof {
            lemma_get_after_insert(before, k, (), interface@);
            assert forall|other: Seq<char>| other != interface@ implies r.implements.spec_contains(
                other,
            ) == self.implements.spec_contains(other) by {
                lemma_get_after_insert(before, k, (), other);
            }
        }
        r
    }

    /// What the object's `__typename` field resolves to: the object's name,
    /// as a string value.
    pub fn typename_value(&self) -> (r: Value)
        ensures
            r@ == ValueModel::String(self.name@),
    {
        Value::String(self.name.clone())
    }

    /// The field stored under `name`, if any
    pub fn get_field(&self, name: &str) -> (r: Option<&Field>)
        ensures
            match self.fields.spec_get(name@) {
                Some(f) => r == Some(&f),
                None => r is None,
            },
    {
        self.fields.get(name)
    }

    /// Returns the type name
    pub fn get_type_name(&self) -> (r: &str)
        ensures
            r@ == self.name@,
    {
        self.name.as_str()
    }

    /// Checks that `member` may stand for this object, as the type
    /// registered under that name says.
    pub fn check(&self, member: &str, registry: &TypeRegistry) -> (r: SeaResult<()>)
        ensures
            outcome_is(r, object_check(*self, member@, *registry)),
    {
        if self.inaccessible {
            return Err(
                SeaographyError::Custom(
                    format1("object `", self.name.as_str(), "` is inaccessible"),
                ),
            );
        }
        match registry.get(member) {
            Some(ty) => {
                match ty {
                    Type::Interface(interface) => {
                        if self.implements.contains_key(interface.name.as_str()) {
                            return check_implementation(
                                "object `",
                                self.name.as_str(),
                                &self.fields,
                                &interface.fields,
                            );
                        } else {
                            return Err(
                                SeaographyError::Custom(
                                    format2(
                                        "object `",
                                        self.name.as_str(),
                                        "` does not implement interface `",
                                        interface.name.as_str(),
                                        "`",
                                    ),
                                ),
                            );
                        }
                    },
                    Type::Union(union) => {
                        return union.check(self.name.as_str());
                    },
                    _ => Ok(()),
                }
            },
            None => Err(
                SeaographyError::Custom(
                    format2(
                        "object `",
                        self.name.as_str(),
                        "` implements unknown CUSTOM type `",
                        member,
                        "`",
                    ),
                ),
            ),
        }
    }

    /// The fields, in order, that `selection_set` asks for, each with the
    /// selection that asks for it.
    pub fn collect<'b>(&'b self, selection_set: &'b SelectionSet) -> (r: SeaResult<
        Vec<(&'b Field, &'b SelectionSet)>,
    >)
        ensures
            self.inaccessible ==> (r matches Err(e) && is_custom(
                e,
                "object `"@ + self.name@ + "` is inaccessible"@,
            )),
            !self.inaccessible ==> (r matches Ok(v) && v@.len() == selected(
                self.fields.spec_entries(),
                selection_set.childs@,
            ).len() && forall|k: int|
                0 <= k < v@.len() ==> (*(#[trigger] v@[k]).0, *v@[k].1) == selected(
                    self.fields.spec_entries(),
                    selection_set.childs@,
                )[k]),
    {
        if self.inaccessible {
            return Err(
                SeaographyError::Custom(
                    format1("object `", self.name.as_str(), "` is inaccessible"),
                ),
            );
        }
        let entries = self.fields.entries();
        let mut out: Vec<(&'b Field, &'b SelectionSet)> = Vec::new();
        let mut i: usize = 0;
        while i < entries.len()
            invariant
                i <= entries@.len(),
                entries@ == self.fields.spec_entries(),
                out@.len() == selected(entries@.take(i as int), selection_set.childs@).len(),
                forall|k: int|
                    0 <= k < out@.len() ==> (*(#[trigger] out@[k]).0, *out@[k].1) == selected(
                        entries@.take(i as int),
                        selection_set.childs@,
                    )[k],
            decreases entries@.len() - i,
        {
            let field = &entries[i].1;
            proof {
                assert(entries@.take(i + 1).drop_last() =~= entries@.take(i as int));
                lemma_first_child(selection_set.childs@, field.name@);
            }
            match selection_set.child_named(field.name.as_str()) {
                Some(c) => {
                    proof {
                        assert(first_child(selection_set.childs@, field.name@) == Some(c as int)) by {
                            lemma_first_child(selection_set.childs@, field.name@);
                        }
                    }
                    out.push((field, &selection_set.childs[c]));
                },
                None => {},
            }
            i = i + 1;
        }
        proof {
            assert(entries@.take(i as int) =~= entries@);
        }
        Ok(out)
    }

    /// The field that a query names, or the error that the object type
    /// has no such field.
    pub fn resolve_field(&self, field_name: &str) -> (r: SeaResult<&Field>)
        ensures
            match self.fields.spec_get(field_name@) {
                Some(f) => r matches Ok(g) && *g == f,
                None => r matches Err(e) && is_custom(
                    e,
                    "Field `"@ + field_name@ + "` not found on type `"@ + self.name@ + "`"@,
                ),
            },
    {
        match self.fields.get(field_name) {
            Some(field) => Ok(field),
            None => Err(
                SeaographyError::Custom(
                    format2("Field `", field_name, "` not found on type `", self.name.as_str(), "`"),
                ),
            ),
        }
    }

    /// How the object type is described to a schema: an input object of
    /// the fields without a resolver where there is any; else an object of
    /// the fields with a resolver and of the interfaces it implements,
    /// which must all be registered; else an object with neither.
    pub fn meta<'b>(&'b self, registry: &'b TypeRegistry) -> (r: ObjectMeta<'b>)
        requires
            fields_by_resolver(self.fields.spec_entries(), false).len() == 0 && fields_by_resolver(
                self.fields.spec_entries(),
                true,
            ).len() > 0 ==> all_registered(self.implements.spec_entries(), *registry),
        ensures
            object_meta_of(r, self.fields.spec_entries(), self.implements.spec_entries(), *registry),
    {
        let entries = self.fields.entries();
        let mut inputs: Vec<(&'b Field, TypeRefToMeta<'b>)> = Vec::new();
        let mut outputs: Vec<(&'b Field, TypeRefToMeta<'b>, Vec<TypeRefToMeta<'b>>)> = Vec::new();
        let mut i: usize = 0;
        while i < entries.len()
            invariant
                i <= entries@.len(),
                entries@ == self.fields.spec_entries(),
                input_metas_of(inputs@, fields_by_resolver(entries@.take(i as int), false)),
                output_metas_of(outputs@, fields_by_resolver(entries@.take(i as int), true)),
            decreases entries@.len() - i,
        {
            let field = &entries[i].1;
            proof {
                assert(entries@.take(i + 1).drop_last() =~= entries@.take(i as int));
            }
            match field.meta_input() {
                Some(m) => {
                    inputs.push((field, m));
                },
                None => {},
            }
            match field.meta_output() {
                Some(m) => {
                    outputs.push((field, m.0, m.1));
                },
                None => {},
            }
            i = i + 1;
        }
        proof {
            assert(entries@.take(i as int) =~= entries@);
        }
        if inputs.len() > 0 {
            return ObjectMeta::InputObject(inputs);
        }
        if outputs.len() == 0 {
            return ObjectMeta::Object(outputs, Vec::new());
        }
        let interfaces = registered_types(&self.implements, registry);
        ObjectMeta::Object(outputs, interfaces)
    }
}

/// How an object type is described to a schema.
#[derive(Debug)]
pub enum ObjectMeta<'a> {
    /// An input object: each field with its shape.
    InputObject(Vec<(&'a Field, TypeRefToMeta<'a>)>),
    /// An object: each field with its shape and the shapes of its
    /// accessible arguments, and the interfaces it implements.
    Object(Vec<(&'a Field, TypeRefToMeta<'a>, Vec<TypeRefToMeta<'a>>)>, Vec<&'a Type>),
}

/// The fields, in order, that have a resolver (`with_resolver`) or have
/// none.
pub open spec fn fields_by_resolver(entries: Seq<(String, Field)>, with_resolver: bool) -> Seq<Field>
    decreases entries.len(),
{
    if entries.len() == 0 {
        Seq::empty()
    } else {
        let rest = fields_by_resolver(entries.drop_last(), with_resolver);
        if entries.last().1.has_resolver == with_resolver {
            rest.push(entries.last().1)
        } else {
            rest
        }
    }
}

/// `metas` pair each of `fields`, in order, with its shape.
pub open spec fn input_metas_of(metas: Seq<(&Field, TypeRefToMeta)>, fields: Seq<Field>) -> bool {
    &&& metas.len() == fields.len()
    &&& forall|k: int|
        0 <= k < metas.len() ==> *(#[trigger] metas[k]).0 == fields[k] && meta_of(
            metas[k].1,
            fields[k].name@,
            fields[k].ty@,
        )
}

/// `metas` pair each of `fields`, in order, with its shape and the shapes
/// of its accessible arguments.
pub open spec fn output_metas_of(
    metas: Seq<(&Field, TypeRefToMeta, Vec<TypeRefToMeta>)>,
    fields: Seq<Field>,
) -> bool {
    &&& metas.len() == fields.len()
    &&& forall|k: int|
        0 <= k < metas.len() ==> *(#[trigger] metas[k]).0 == fields[k] && meta_of(
            metas[k].1,
            fields[k].name@,
            fields[k].ty@,
        ) && metas_of_accessible(metas[k].2@, fields[k].arguments.spec_entries())
}

/// Every name of `names` is registered.
pub open spec fn all_registered(names: Seq<(String, ())>, registry: TypeRegistry) -> bool {
    forall|j: int| 0 <= j < names.len() ==> registry.spec_get(#[trigger] names[j].0@) is Some
}

/// `tys` are the types registered under `names`, in order.
pub open spec fn registered_all(tys: Seq<&Type>, names: Seq<(String, ())>, registry: TypeRegistry) -> bool {
    &&& tys.len() == names.len()
    &&& forall|k: int|
        0 <= k < tys.len() ==> registry.spec_get(names[k].0@) == Some(*(#[trigger] tys[k]))
}

/// The types registered under `names`, in order; each must be registered.
pub fn registered_types<'b>(names: &'b NameMap<()>, registry: &'b TypeRegistry) -> (r: Vec<&'b Type>)
    requires
        all_registered(names.spec_entries(), *registry),
    ensures
        registered_all(r@, names.spec_entries(), *registry),
{
    let entries = names.entries();
    let mut tys: Vec<&'b Type> = Vec::new();
    let mut j: usize = 0;
    while j < entries.len()
        invariant
            j <= entries@.len(),
            entries@ == names.spec_entries(),
            all_registered(entries@, *registry),
            tys@.len() == j,
            forall|k: int|
                0 <= k < j ==> registry.spec_get(entries@[k].0@) == Some(*(#[trigger] tys@[k])),
        decreases entries@.len() - j,
    {
        match registry.get(entries[j].0.as_str()) {
            Some(ty) => {
                tys.push(ty);
            },
            None => {
                proof {
                    assert(registry.spec_get(entries@[j as int].0@) is Some);
                }
            },
        }
        j = j + 1;
    }
    tys
}

/// `r` describes the object type with the fields `fields` that implements
/// `implements`.
pub open spec fn object_meta_of(
    r: ObjectMeta,
    fields: Seq<(String, Field)>,
    implements: Seq<(String, ())>,
    registry: TypeRegistry,
) -> bool {
    let inputs = fields_by_resolver(fields, false);
    let outputs = fields_by_resolver(fields, true);
    match r {
        ObjectMeta::InputObject(v) => inputs.len() > 0 && input_metas_of(v@, inputs),
        ObjectMeta::Object(v, tys) => inputs.len() == 0 && output_metas_of(v@, outputs) && if outputs.len()
            == 0 {
            tys@.len() == 0
        } else {
            registered_all(tys@, implements, registry)
        },
    }
}

/// The first argument that `needed` has and `have` lacks, as a message.
pub open spec fn missing_argument_error(
    lead: Seq<char>,
    owner: Seq<char>,
    field: Seq<char>,
    have: Seq<(String, InputValue)>,
    needed: Seq<(String, InputValue)>,
) -> Option<Seq<char>>
    decreases needed.len(),
{
    if needed.len() == 0 {
        None
    } else {
        match missing_argument_error(lead, owner, field, have, needed.drop_last()) {
            Some(m) => Some(m),
            None => if index_of(have, needed.last().1.name@) is None {
                Some(
                    lead + owner + "` field `"@ + field + "` does not implement argument `"@
                        + needed.last().1.name@ + "`"@,
                )
            } else {
                None
            },
        }
    }
}

/// What is wrong with how `fields` implement the interface field `ifield`,
/// if anything.
pub open spec fn field_implementation_error<F: Signature>(
    lead: Seq<char>,
    owner: Seq<char>,
    fields: Seq<(String, F)>,
    ifield: InterfaceField,
) -> Option<Seq<char>> {
    match entry_get(fields, ifield.name@) {
        None => Some(
            lead + owner + "` does not implement field `"@ + ifield.name@ + "`"@,
        ),
        Some(f) => if f.sig_ty() != ifield.ty@ {
            Some(
                lead + owner + "` field `"@ + f.sig_name() + "` has different type `"@
                    + f.sig_ty().notation() + "` than implemented type `"@ + ifield.ty@.notation()
                    + "`"@,
            )
        } else {
            missing_argument_error(
                lead,
                owner,
                ifield.name@,
                f.sig_arguments(),
                ifield.arguments.spec_entries(),
            )
        },
    }
}

/// The first interface field, in order, that `fields` do not implement
/// properly, as a message.
pub open spec fn implementation_error<F: Signature>(
    lead: Seq<char>,
    owner: Seq<char>,
    fields: Seq<(String, F)>,
    ifields: Seq<(String, InterfaceField)>,
) -> Option<Seq<char>>
    decreases ifields.len(),
{
    if ifields.len() == 0 {
        None
    } else {
        match implementation_error(lead, owner, fields, ifields.drop_last()) {
            Some(m) => Some(m),
            None => field_implementation_error(lead, owner, fields, ifields.last().1),
        }
    }
}

/// Where no argument is missing, the field takes every argument that the
/// interface field takes.
pub proof fn lemma_no_missing_argument(
    lead: Seq<char>,
    owner: Seq<char>,
    field: Seq<char>,
    have: Seq<(String, InputValue)>,
    needed: Seq<(String, InputValue)>,
)
    requires
        missing_argument_error(lead, owner, field, have, needed) is None,
    ensures
        forall|j: int| 0 <= j < needed.len() ==> index_of(have, (#[trigger] needed[j]).1.name@) is Some,
    decreases needed.len(),
{
    if needed.len() > 0 {
        lemma_no_missing_argument(lead, owner, field, have, needed.drop_last());
        assert forall|j: int| 0 <= j < needed.len() implies index_of(
            have,
            (#[trigger] needed[j]).1.name@,
        ) is Some by {
            if j < needed.len() - 1 {
                assert(needed[j] == needed.drop_last()[j]);
            }
        }
    }
}

/// Passing the implementation check means implementing every field of the
/// interface: for each there is a field of the same name whose whole type,
/// list and non-null wrappers included, is the interface field's type, and
/// which takes every argument the interface field takes. A field whose type
/// differs in any way, wrapping included, makes the check fail.
pub proof fn lemma_implementation_means_same_types<F: Signature>(
    lead: Seq<char>,
    owner: Seq<char>,
    fields: Seq<(String, F)>,
    ifields: Seq<(String, InterfaceField)>,
)
    requires
        implementation_error(lead, owner, fields, ifields) is None,
    ensures
        forall|i: int|
            0 <= i < ifields.len() ==> implements_field(fields, #[trigger] ifields[i].1),
    decreases ifields.len(),
{
    if ifields.len() > 0 {
        let rest = ifields.drop_last();
        lemma_implementation_means_same_types(lead, owner, fields, rest);
        let last = ifields.last().1;
        if let Some(f) = entry_get(fields, last.name@) {
            lemma_no_missing_argument(
                lead,
                owner,
                last.name@,
                f.sig_arguments(),
                last.arguments.spec_entries(),
            );
        }
        assert forall|i: int| 0 <= i < ifields.len() implies implements_field(
            fields,
            #[trigger] ifields[i].1,
        ) by {
            if i < ifields.len() - 1 {
                assert(ifields[i] == rest[i]);
            }
        }
    }
}

/// `fields` implement the interface field `ifield`: a field of its name
/// has exactly its type and takes all its arguments.
pub open spec fn implements_field<F: Signature>(fields: Seq<(String, F)>, ifield: InterfaceField) -> bool {
    &&& entry_get(fields, ifield.name@) matches Some(f) && f.sig_ty() == ifield.ty@
        && forall|j: int|
        0 <= j < ifield.arguments.spec_entries().len() ==> index_of(
            f.sig_arguments(),
            (#[trigger] ifield.arguments.spec_entries()[j]).1.name@,
        ) is Some
}

/// An object that passes the check against a registered interface
/// declares that it implements it, and has, for every field of the
/// interface, a field of that name with exactly the same type and all its
/// arguments.
pub proof fn lemma_object_check_implements(
    o: Object,
    member: Seq<char>,
    registry: TypeRegistry,
    i: Interface,
)
    requires
        object_check(o, member, registry) is Ok,
        registry.spec_get(member) == Some(Type::Interface(i)),
    ensures
        o.implements.spec_contains(i.name@),
        forall|k: int|
            0 <= k < i.fields.spec_entries().len() ==> implements_field(
                o.fields.spec_entries(),
                #[trigger] i.fields.spec_entries()[k].1,
            ),
{
    lemma_implementation_means_same_types(
        "object `"@,
        o.name@,
        o.fields.spec_entries(),
        i.fields.spec_entries(),
    );
}

/// An interface that passes the check against a registered interface
/// declares that it implements it, and has, for every field of that
/// interface, a field of that name with exactly the same type and all its
/// arguments.
pub proof fn lemma_interface_check_implements(
    t: Interface,
    member: Seq<char>,
    registry: TypeRegistry,
    i: Interface,
)
    requires
        interface_check(t, member, registry) is Ok,
        registry.spec_get(member) == Some(Type::Interface(i)),
    ensures
        t.implements.spec_contains(i.name@),
        forall|k: int|
            0 <= k < i.fields.spec_entries().len() ==> implements_field(
                t.fields.spec_entries(),
                #[trigger] i.fields.spec_entries()[k].1,
            ),
{
    lemma_implementation_means_same_types(
        "interface `"@,
        t.name@,
        t.fields.spec_entries(),
        i.fields.spec_entries(),
    );
}

fn check_arguments(
    lead: &str,
    owner: &str,
    field: &str,
    have: &NameMap<InputValue>,
    needed: &NameMap<InputValue>,
) -> (r: SeaResult<()>)
    ensures
        match missing_argument_error(lead@, owner@, field@, have.spec_entries(), needed.spec_entries()) {
            Some(m) => r matches Err(e) && is_custom(e, m),
            None => r is Ok,
        },
{
    let entries = needed.entries();
    let mut i: usize = 0;
    while i < entries.len()
        invariant
            i <= entries@.len(),
            entries@ == needed.spec_entries(),
            missing_argument_error(lead@, owner@, field@, have.spec_entries(), entries@.take(i as int))
                is None,
        decreases entries@.len() - i,
    {
        let arg = &entries[i].1;
        proof {
            assert(entries@.take(i + 1).drop_last() =~= entries@.take(i as int));
        }
        if !have.contains_key(arg.name.as_str()) {
            proof {
                lemma_missing_argument_prefix(lead@, owner@, field@, have.spec_entries(), entries@, i + 1);
            }
            return Err(
                SeaographyError::Custom(
                    format3(lead, owner, "` field `", field, "` does not implement argument `", arg.name.as_str(), "`"),
                ),
            );
        }
        i = i + 1;
    }
    proof {
        assert(entries@.take(i as int) =~= entries@);
    }
    Ok(())
}

/// Once an error is found among the first `i` needed arguments, it is the
/// error for all of them.
pub proof fn lemma_missing_argument_prefix(
    lead: Seq<char>,
    owner: Seq<char>,
    field: Seq<char>,
    have: Seq<(String, InputValue)>,
    needed: Seq<(String, InputValue)>,
    i: int,
)
    requires
        0 <= i <= needed.len(),
        missing_argument_error(lead, owner, field, have, needed.take(i)) is Some,
    ensures
        missing_argument_error(lead, owner, field, have, needed) == missing_argument_error(
            lead,
            owner,
            field,
            have,
            needed.take(i),
        ),
    decreases needed.len() - i,
{
    if i < needed.len() {
        assert(needed.take(i + 1).drop_last() =~= needed.take(i));
        lemma_missing_argument_prefix(lead, owner, field, have, needed, i + 1);
    } else {
        assert(needed.take(i) =~= needed);
    }
}

/// Once an error is found among the first `i` interface fields, it is the
/// error for all of them.
pub proof fn lemma_implementation_error_prefix<F: Signature>(
    lead: Seq<char>,
    owner: Seq<char>,
    fields: Seq<(String, F)>,
    ifields: Seq<(String, InterfaceField)>,
    i: int,
)
    requires
        0 <= i <= ifields.len(),
        implementation_error(lead, owner, fields, ifields.take(i)) is Some,
    ensures
        implementation_error(lead, owner, fields, ifields) == implementation_error(
            lead,
            owner,
            fields,
            ifields.take(i),
        ),
    decreases ifields.len() - i,
{
    if i < ifields.len() {
        assert(ifields.take(i + 1).drop_last() =~= ifields.take(i));
        lemma_implementation_error_prefix(lead, owner, fields, ifields, i + 1);
    } else {
        assert(ifields.take(i) =~= ifields);
    }
}

/// Checks that `fields`, of the object or interface `owner`, implement
/// every field of the interface `ifields`.
fn check_implementation<F: Signature>(
    lead: &str,
    owner: &str,
    fields: &NameMap<F>,
    ifields: &NameMap<InterfaceField>,
) -> (r: SeaResult<()>)
    ensures
        match implementation_error(lead@, owner@, fields.spec_entries(), ifields.spec_entries()) {
            Some(m) => r matches Err(e) && is_custom(e, m),
            None => r is Ok,
        },
{
    let entries = ifields.entries();
    let mut i: usize = 0;
    while i < entries.len()
        invariant
            i <= entries@.len(),
            entries@ == ifields.spec_entries(),
            implementation_error(lead@, owner@, fields.spec_entries(), entries@.take(i as int))
                is None,
        decreases entries@.len() - i,
    {
        let ifield = &entries[i].1;
        proof {
            assert(entries@.take(i + 1).drop_last() =~= entries@.take(i as int));
        }
        let step: SeaResult<()> = match fields.get(ifield.name.as_str()) {
            Some(field) => {
                if !field.type_ref().same_as(&ifield.ty) {
                    let have = field.type_ref().to_string();
                    let want = ifield.ty.to_string();
                    Err(
                        SeaographyError::Custom(
                            format4(
                                lead,
                                owner,
                                "` field `",
                                field.name_str(),
                                "` has different type `",
                                have.as_str(),
                                "` than implemented type `",
                                want.as_str(),
                                "`",
                            ),
                        ),
                    )
                } else {
                    check_arguments(lead, owner, ifield.name.as_str(), field.argument_map(), &ifield.arguments)
                }
            },
            None => Err(
                SeaographyError::Custom(
                    format2(lead, owner, "` does not implement field `", ifield.name.as_str(), "`"),
                ),
            ),
        };
        match step {
            Err(e) => {
                proof {
                    lemma_implementation_error_prefix(lead@, owner@, fields.spec_entries(), entries@, i + 1);
                }
                return Err(e);
            },
            Ok(()) => {},
        }
        i = i + 1;
    }
    proof {
        assert(entries@.take(i as int) =~= entries@);
    }
    Ok(())
}

} // verus!
