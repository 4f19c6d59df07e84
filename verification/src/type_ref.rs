//! GraphQL type references such as `Foo`, `Foo!`, `[Foo]` and `[Foo!]!`.
use vstd::prelude::*;
use crate::text::owned;

verus! {

/// A GraphQL type reference.
#[derive(Debug, Hash)]
pub enum TypeRef {
    /// Named type
    Named(String),
    /// Non-null type
    NonNull(Box<TypeRef>),
    /// List type
    List(Box<TypeRef>),
}

/// The mathematical model of a type reference.
pub enum TypeRefModel {
    Named(Seq<char>),
    NonNull(Box<TypeRefModel>),
    List(Box<TypeRefModel>),
}

impl View for TypeRef {
    type V = TypeRefModel;

    open spec fn view(&self) -> TypeRefModel
        decreases self,
    {
        match self {
            TypeRef::Named(name) => TypeRefModel::Named(name@),
            TypeRef::NonNull(inner) => TypeRefModel::NonNull(Box::new((**inner)@)),
            TypeRef::List(inner) => TypeRefModel::List(Box::new((**inner)@)),
        }
    }
}

impl TypeRefModel {
    /// The innermost named type.
    pub open spec fn name(self) -> Seq<char>
        decreases self,
    {
        match self {
            TypeRefModel::Named(name) => name,
            TypeRefModel::NonNull(inner) => inner.name(),
            TypeRefModel::List(inner) => inner.name(),
        }
    }

    /// A value of this type may be null: only `T!` rules null out.
    pub open spec fn nullable(self) -> bool {
        !(self is NonNull)
    }

    /// `sub` may be used where `self` is expected.
    pub open spec fn accepts(self, sub: TypeRefModel) -> bool
        decreases sub,
    {
        match (self, sub) {
            (TypeRefModel::NonNull(a), TypeRefModel::NonNull(b)) => a.accepts(*b),
            (_, TypeRefModel::NonNull(b)) => self.accepts(*b),
            (TypeRefModel::Named(a), TypeRefModel::Named(b)) => a == b,
            (TypeRefModel::List(a), TypeRefModel::List(b)) => a.accepts(*b),
            _ => false,
        }
    }

    /// The GraphQL notation of the type: `Foo`, `Foo!`, `[Foo]`.
    pub open spec fn notation(self) -> Seq<char>
        decreases self,
    {
        match self {
            TypeRefModel::Named(name) => name,
            TypeRefModel::NonNull(inner) => inner.notation() + seq!['!'],
            TypeRefModel::List(inner) => seq!['['] + inner.notation() + seq![']'],
        }
    }
}

/// `T`
pub open spec fn named_model(name: Seq<char>) -> TypeRefModel {
    TypeRefModel::Named(name)
}

/// `T!`
pub open spec fn non_null_model(inner: TypeRefModel) -> TypeRefModel {
    TypeRefModel::NonNull(Box::new(inner))
}

/// `[T]`
pub open spec fn list_model(inner: TypeRefModel) -> TypeRefModel {
    TypeRefModel::List(Box::new(inner))
}

impl TypeRef {
    /// The name of the GraphQL integer scalar.
    pub const INT: &'static str = "int";

    /// The name of the GraphQL float scalar.
    pub const FLOAT: &'static str = "float";

    /// The name of the GraphQL string scalar.
    pub const STRING: &'static str = "string";

    /// The name of the GraphQL boolean scalar.
    pub const BOOLEAN: &'static str = "boolean";

    /// The name of the GraphQL ID scalar.
    pub const ID: &'static str = "id";

    /// Returns the nullable type reference: `T`
    pub fn named(name: &str) -> (r: TypeRef)
        ensures
            r@ == named_model(name@),
    {
        TypeRef::Named(owned(name))
    }

    /// Returns the non-null type reference: `T!`
    pub fn named_nn(name: &str) -> (r: TypeRef)
        ensures
            r@ == non_null_model(named_model(name@)),
    {
        TypeRef::NonNull(Box::new(TypeRef::named(name)))
    }

    /// Returns a nullable list of nullable members: `[T]`
    pub fn named_list(name: &str) -> (r: TypeRef)
        ensures
            r@ == list_model(named_model(name@)),
    {
        TypeRef::List(Box::new(TypeRef::named(name)))
    }

    /// Returns a nullable list of non-null members: `[T!]`
    pub fn named_nn_list(name: &str) -> (r: TypeRef)
        ensures
            r@ == list_model(non_null_model(named_model(name@))),
    {
        TypeRef::List(Box::new(TypeRef::named_nn(name)))
    }

    /// Returns a non-null list of nullable members: `[T]!`
    pub fn named_list_nn(name: &str) -> (r: TypeRef)
        ensures
            r@ == non_null_model(list_model(named_model(name@))),
    {
        TypeRef::NonNull(Box::new(TypeRef::named_list(name)))
    }

    /// Returns a non-null list of non-null members: `[T!]!`
    pub fn named_nn_list_nn(name: &str) -> (r: TypeRef)
        ensures
            r@ == non_null_model(list_model(non_null_model(named_model(name@)))),
    {
        TypeRef::NonNull(Box::new(TypeRef::named_nn_list(name)))
    }

    /// Returns the non-null type reference of `ty`
    pub fn non_null(ty: Box<TypeRef>) -> (r: TypeRef)
        ensures
            r@ == non_null_model((*ty)@),
    {
        TypeRef::NonNull(ty)
    }

    /// Returns the type name: `[Foo!]` -> `Foo`
    pub fn get_type_name(&self) -> (r: &str)
        ensures
            r@ == self@.name(),
        decreases self,
    {
        match self {
            TypeRef::Named(name) => name.as_str(),
            TypeRef::NonNull(inner) => inner.get_type_name(),
            TypeRef::List(inner) => inner.get_type_name(),
        }
    }

    /// Whether a value of this type may be null.
    pub fn is_nullable(&self) -> (r: bool)
        ensures
            r == self@.nullable(),
    {
        match self {
            TypeRef::Named(_) => true,
            TypeRef::NonNull(_) => false,
            TypeRef::List(_) => true,
        }
    }

    /// Whether `sub` may be used where `self` is expected.
    pub fn is_subtype(&self, sub: &TypeRef) -> (r: bool)
        ensures
            r == self@.accepts(sub@),
        decreases sub,
    {
        match (self, sub) {
            (TypeRef::NonNull(super_type), TypeRef::NonNull(sub_type)) => {
                super_type.is_subtype(sub_type)
            },
            (_, TypeRef::NonNull(sub_type)) => self.is_subtype(sub_type),
            (TypeRef::Named(super_type), TypeRef::Named(sub_type)) => *super_type == *sub_type,
            (TypeRef::List(super_type), TypeRef::List(sub_type)) => super_type.is_subtype(
                sub_type,
            ),
            _ => false,
        }
    }

    /// Structural equality of two type references.
    pub fn same_as(&self, other: &TypeRef) -> (r: bool)
        ensures
            r == (self@ == other@),
        decreases self,
    {
        match (self, other) {
            (TypeRef::Named(a), TypeRef::Named(b)) => *a == *b,
            (TypeRef::NonNull(a), TypeRef::NonNull(b)) => a.same_as(b),
            (TypeRef::List(a), TypeRef::List(b)) => a.same_as(b),
            _ => false,
        }
    }

    /// A copy of the type reference.
    pub fn duplicate(&self) -> (r: TypeRef)
        ensures
            r@ == self@,
        decreases self,
    {
        match self {
            TypeRef::Named(a) => TypeRef::Named(a.clone()),
            TypeRef::NonNull(a) => TypeRef::NonNull(Box::new(a.duplicate())),
            TypeRef::List(a) => TypeRef::List(Box::new(a.duplicate())),
        }
    }

    /// The GraphQL notation of the type, as `Display` writes it.
    pub fn to_string(&self) -> (r: String)
        ensures
            r@ == self@.notation(),
        decreases self,
    {
        match self {
            TypeRef::Named(name) => name.clone(),
            TypeRef::NonNull(inner) => {
                let mut s = inner.to_string();
                proof {
                    reveal_strlit("!");
                }
                s.append("!");
                s
            },
            TypeRef::List(inner) => {
                let mut s = String::from_str("[");
                let body = inner.to_string();
                s.append(body.as_str());
                proof {
                    reveal_strlit("[");
                    reveal_strlit("]");
                }
                s.append("]");
                s
            },
        }
    }
}

impl Clone for TypeRef {
    fn clone(&self) -> (r: TypeRef)
        ensures
            r@ == self@,
    {
        self.duplicate()
    }
}

impl PartialEq for TypeRef {
    fn eq(&self, other: &TypeRef) -> (r: bool) {
        self.same_as(other)
    }
}

impl vstd::std_specs::cmp::PartialEqSpecImpl for TypeRef {
    open spec fn obeys_eq_spec() -> bool {
        true
    }

    open spec fn eq_spec(&self, other: &TypeRef) -> bool {
        self@ == other@
    }
}

/// Every type accepts itself.
pub proof fn lemma_accepts_reflexive(t: TypeRefModel)
    ensures
        t.accepts(t),
    decreases t,
{
    match t {
        TypeRefModel::Named(_) => {},
        TypeRefModel::NonNull(inner) => lemma_accepts_reflexive(*inner),
        TypeRefModel::List(inner) => lemma_accepts_reflexive(*inner),
    }
}

/// If `a` accepts `b` and `b` accepts `c`, then `a` accepts `c`.
pub proof fn lemma_accepts_transitive(a: TypeRefModel, b: TypeRefModel, c: TypeRefModel)
    requires
        a.accepts(b),
        b.accepts(c),
    ensures
        a.accepts(c),
    decreases c,
{
    match c {
        TypeRefModel::NonNull(c1) => {
            match b {
                TypeRefModel::NonNull(b1) => {
                    match a {
                        TypeRefModel::NonNull(a1) => lemma_accepts_transitive(*a1, *b1, *c1),
                        _ => lemma_accepts_transitive(a, *b1, *c1),
                    }
                },
                _ => lemma_accepts_transitive(a, b, *c1),
            }
        },
        TypeRefModel::List(c1) => {
            match (a, b) {
                (TypeRefModel::List(a1), TypeRefModel::List(b1)) => lemma_accepts_transitive(
                    *a1,
                    *b1,
                    *c1,
                ),
                _ => {},
            }
        },
        TypeRefModel::Named(_) => {},
    }
}

/// Two types that accept each other are the same type.
pub proof fn lemma_accepts_antisymmetric(a: TypeRefModel, b: TypeRefModel)
    requires
        a.accepts(b),
        b.accepts(a),
    ensures
        a == b,
    decreases b,
{
    match (a, b) {
        (TypeRefModel::NonNull(a1), TypeRefModel::NonNull(b1)) => lemma_accepts_antisymmetric(
            *a1,
            *b1,
        ),
        (TypeRefModel::List(a1), TypeRefModel::List(b1)) => lemma_accepts_antisymmetric(*a1, *b1),
        _ => {},
    }
}

/// A type only accepts types with the same name, and a non-null type only
/// accepts non-null types.
pub proof fn lemma_accepts_keeps_name_and_non_null(a: TypeRefModel, b: TypeRefModel)
    requires
        a.accepts(b),
    ensures
        a.name() == b.name(),
        !a.nullable() ==> !b.nullable(),
    decreases b,
{
    match (a, b) {
        (TypeRefModel::NonNull(a1), TypeRefModel::NonNull(b1)) => {
            lemma_accepts_keeps_name_and_non_null(*a1, *b1)
        },
        (_, TypeRefModel::NonNull(b1)) => lemma_accepts_keeps_name_and_non_null(a, *b1),
        (TypeRefModel::List(a1), TypeRefModel::List(b1)) => {
            lemma_accepts_keeps_name_and_non_null(*a1, *b1)
        },
        _ => {},
    }
}

/// A type accepts its non-null version.
pub proof fn lemma_accepts_non_null(t: TypeRefModel)
    ensures
        t.accepts(non_null_model(t)),
    decreases t,
{
    match t {
        TypeRefModel::NonNull(inner) => lemma_accepts_non_null(*inner),
        _ => lemma_accepts_reflexive(t),
    }
}

} // verus!
