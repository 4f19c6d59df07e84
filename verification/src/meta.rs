//! What the schema registry is told about a field or an argument: the kind of
//! root node, the selection of a query, and the shape of a type reference.
use vstd::prelude::*;
use crate::registry::{Type, TypeRegistry};
use crate::text::str_eq;
use crate::type_ref::{list_model, named_model, non_null_model, TypeRef, TypeRefModel};

verus! {

/// The kind of a root node of the schema.
#[derive(Clone, Copy, Debug, PartialEq, Eq)]
pub enum NodeType {
    Query,
    Mutation,
    Subscription,
}

/// The default type name of each kind of root node.
pub open spec fn node_type_label(t: NodeType) -> Seq<char> {
    match t {
        NodeType::Query => seq!['Q', 'u', 'e', 'r', 'y'],
        NodeType::Mutation => seq!['M', 'u', 't', 'a', 't', 'i', 'o', 'n'],
        NodeType::Subscription => seq![
            'S', 'u', 'b', 's', 'c', 'r', 'i', 'p', 't', 'i', 'o', 'n',
        ],
    }
}

impl NodeType {
    /// The label of the kind of node, used in messages.
    pub fn get_type_name(&self) -> (r: &'static str)
        ensures
            r@ == node_type_label(*self),
    {
        proof {
            reveal_strlit("Query");
            reveal_strlit("Mutation");
            reveal_strlit("Subscription");
        }
        match self {
            NodeType::Query => "Query",
            NodeType::Mutation => "Mutation",
            NodeType::Subscription => "Subscription",
        }
    }
}

/// A root node of the schema: its type name and its kind.
#[derive(Clone, Debug)]
pub struct NodeInfo {
    pub name: String,
    pub node_type: NodeType,
}

impl NodeInfo {
    pub fn new(name: String, node_type: NodeType) -> (r: Self)
        ensures
            r.name == name,
            r.node_type == node_type,
    {
        Self { name, node_type }
    }

    /// Returns the type name
    pub fn get_type_name(&self) -> (r: &str)
        ensures
            r@ == self.name@,
    {
        self.name.as_str()
    }
}

/// The part of a query below one field: the field's name, its alias and the
/// selections below it, in the order the query gives them.
pub struct SelectionSet {
    pub name: String,
    pub alias: Option<String>,
    pub childs: Vec<SelectionSet>,
}

impl SelectionSet {
    pub fn new(name: String, alias: Option<String>, childs: Vec<SelectionSet>) -> (r: Self)
        ensures
            r.name == name,
            r.alias == alias,
            r.childs == childs,
    {
        Self { name, alias, childs }
    }

    /// The key under which the result of this selection is returned: the
    /// alias where there is one, else the field's name.
    pub fn response_key(&self) -> (r: &str)
        ensures
            r@ == (match self.alias {
                Some(a) => a@,
                None => self.name@,
            }),
    {
        match &self.alias {
            Some(a) => a.as_str(),
            None => self.name.as_str(),
        }
    }

    /// The first selection below this one that asks for the field `name`.
    pub fn child_named(&self, name: &str) -> (r: Option<usize>)
        ensures
            match r {
                Some(i) => {
                    &&& i < self.childs@.len()
                    &&& self.childs@[i as int].name@ == name@
                    &&& forall|j: int| 0 <= j < i ==> self.childs@[j].name@ != name@
                },
                None => forall|j: int|
                    0 <= j < self.childs@.len() ==> self.childs@[j].name@ != name@,
            },
    {
        let mut i: usize = 0;
        while i < self.childs.len()
            invariant
                i <= self.childs@.len(),
                forall|j: int| 0 <= j < i ==> self.childs@[j].name@ != name@,
            decreases self.childs@.len() - i,
        {
            if str_eq(self.childs[i].name.as_str(), name) {
                return Some(i);
            }
            i = i + 1;
        }
        None
    }
}

/// The value that stands for a schema root.
pub struct NodeWrapper {}

impl NodeWrapper {
    pub fn new() -> (r: Self) {
        Self {  }
    }
}

/// How a field's or an argument's base type is wrapped in lists and
/// nullability.
#[derive(Clone, Copy, Debug, PartialEq, Eq)]
pub enum MetaWrapping {
    /// `T!`
    Required,
    /// `[T!]!`
    RequiredListOfRequired,
    /// `[T]!`
    RequiredListOfOptional,
    /// `T`
    Optional,
    /// `[T!]`
    OptionalListOfRequired,
    /// `[T]`
    OptionalListOfOptional,
}

/// The base type of a field or argument: one of the built-in scalars, or a
/// type that must be found in the registry.
#[derive(Clone, Debug, PartialEq, Eq)]
pub enum MetaBase {
    Int,
    Float,
    String,
    Boolean,
    Id,
    Registered(String),
}

/// `t` is a non-null type at its outermost level.
pub open spec fn outer_non_null(t: TypeRefModel) -> bool {
    t is NonNull
}

/// `t` holds a list somewhere.
pub open spec fn has_list(t: TypeRefModel) -> bool
    decreases t,
{
    match t {
        TypeRefModel::Named(_) => false,
        TypeRefModel::NonNull(inner) => has_list(*inner),
        TypeRefModel::List(_) => true,
    }
}

/// `t` holds a non-null wrapper somewhere.
pub open spec fn has_non_null(t: TypeRefModel) -> bool
    decreases t,
{
    match t {
        TypeRefModel::Named(_) => false,
        TypeRefModel::NonNull(_) => true,
        TypeRefModel::List(inner) => has_non_null(*inner),
    }
}

/// `t` holds a non-null wrapper below a list.
pub open spec fn inner_non_null(t: TypeRefModel) -> bool
    decreases t,
{
    match t {
        TypeRefModel::Named(_) => false,
        TypeRefModel::NonNull(inner) => inner_non_null(*inner),
        TypeRefModel::List(inner) => has_non_null(*inner),
    }
}

/// The flags that describe a type reference to the registry.
#[derive(Debug)]
pub struct TypeRefToMeta<'a> {
    pub name: &'a str,
    pub named_type: String,
    pub list: bool,
    pub non_null: bool,
    pub list_non_null: bool,
}

impl<'a> TypeRefToMeta<'a> {
    pub fn new(name: &'a str) -> (r: Self)
        ensures
            r.name == name,
            r.named_type@ == Seq::<char>::empty(),
            !r.list,
            !r.non_null,
            !r.list_non_null,
    {
        Self { name, named_type: String::new(), list: false, non_null: false, list_non_null: false }
    }

    /// Returns the name of the base type
    pub fn get_type_name(&self) -> (r: &str)
        ensures
            r@ == self.named_type@,
    {
        self.named_type.as_str()
    }

    /// Records the shape of `root_ref`.
    pub fn from_type_ref(&mut self, root_ref: &TypeRef)
        ensures
            final(self).name == old(self).name,
            final(self).named_type@ == root_ref@.name(),
            final(self).list == (old(self).list || has_list(root_ref@)),
            final(self).non_null == (old(self).non_null || outer_non_null(root_ref@)),
            final(self).list_non_null == (old(self).list_non_null || inner_non_null(root_ref@)),
    {
        self.from_type_ref_inner(root_ref, false);
    }

    /// Records the shape of `root_ref`, which stands below a list where
    /// `inner_vec` holds.
    pub fn from_type_ref_inner(&mut self, root_ref: &TypeRef, inner_vec: bool)
        ensures
            final(self).name == old(self).name,
            final(self).named_type@ == root_ref@.name(),
            final(self).list == (old(self).list || has_list(root_ref@)),
            final(self).non_null == (old(self).non_null || (!inner_vec && outer_non_null(
                root_ref@,
            ))),
            final(self).list_non_null == (old(self).list_non_null || (if inner_vec {
                has_non_null(root_ref@)
            } else {
                inner_non_null(root_ref@)
            })),
        decreases root_ref,
    {
        match root_ref {
            TypeRef::NonNull(type_ref) => {
                if inner_vec {
                    self.list_non_null = true;
                } else {
                    self.non_null = true;
                }
                self.from_type_ref_inner(type_ref, inner_vec);
            },
            TypeRef::List(type_ref) => {
                self.list = true;
                self.from_type_ref_inner(type_ref, true);
            },
            TypeRef::Named(type_ref) => {
                self.named_type = type_ref.clone();
            },
        }
    }

    /// How the base type is wrapped, as the recorded flags say.
    pub fn wrapping(&self) -> (r: MetaWrapping)
        ensures
            r == wrapping_of(self.non_null, self.list, self.list_non_null),
    {
        if self.non_null {
            if self.list {
                if self.list_non_null {
                    MetaWrapping::RequiredListOfRequired
                } else {
                    MetaWrapping::RequiredListOfOptional
                }
            } else {
                MetaWrapping::Required
            }
        } else {
            if self.list {
                if self.list_non_null {
                    MetaWrapping::OptionalListOfRequired
                } else {
                    MetaWrapping::OptionalListOfOptional
                }
            } else {
                MetaWrapping::Optional
            }
        }
    }

    /// The base type: a built-in scalar where the name is one, else a type
    /// to look up in the registry.
    pub fn base(&self) -> (r: MetaBase)
        ensures
            meta_base_of(r, self.named_type@),
    {
        let n = self.named_type.as_str();
        if str_eq(n, TypeRef::INT) {
            MetaBase::Int
        } else if str_eq(n, TypeRef::FLOAT) {
            MetaBase::Float
        } else if str_eq(n, TypeRef::STRING) {
            MetaBase::String
        } else if str_eq(n, TypeRef::BOOLEAN) {
            MetaBase::Boolean
        } else if str_eq(n, TypeRef::ID) {
            MetaBase::Id
        } else {
            MetaBase::Registered(self.named_type.clone())
        }
    }

    /// How the type is described as an argument: its wrapping, its base
    /// type and, for a base type that is not a built-in scalar, the type
    /// registered under its name, which must be there and be a scalar, an
    /// object or an enum.
    pub fn to_input_meta<'b>(&self, registry: &'b TypeRegistry) -> (r: (MetaWrapping, MetaBase, Option<&'b Type>))
        requires
            input_base_known(self.named_type@, *registry),
        ensures
            described(r, *self, *registry),
    {
        self.describe(registry)
    }

    /// How the type is described as an output field: its wrapping, its
    /// base type and, for a base type that is not a built-in scalar, the
    /// type registered under its name, which must be there and not be a
    /// subscription.
    pub fn to_ouput_meta<'b>(&self, registry: &'b TypeRegistry) -> (r: (MetaWrapping, MetaBase, Option<&'b Type>))
        requires
            output_base_known(self.named_type@, *registry),
        ensures
            described(r, *self, *registry),
    {
        self.describe(registry)
    }

    fn describe<'b>(&self, registry: &'b TypeRegistry) -> (r: (MetaWrapping, MetaBase, Option<&'b Type>))
        requires
            base_known(self.named_type@, *registry),
        ensures
            described(r, *self, *registry),
    {
        let base = self.base();
        let ty = match &base {
            MetaBase::Registered(n) => registry.get(n.as_str()),
            _ => None,
        };
        (self.wrapping(), base, ty)
    }
}

/// `r` describes the type that `m` records: the wrapping of its flags, its
/// base type and the registered type of a base type that is not built in.
pub open spec fn described(r: (MetaWrapping, MetaBase, Option<&Type>), m: TypeRefToMeta, registry: TypeRegistry) -> bool {
    &&& r.0 == wrapping_of(m.non_null, m.list, m.list_non_null)
    &&& meta_base_of(r.1, m.named_type@)
    &&& match r.1 {
        MetaBase::Registered(_) => r.2 matches Some(t) && registry.spec_get(m.named_type@) == Some(*t),
        _ => r.2 is None,
    }
}

/// The name `n` is a built-in scalar or names a registered scalar, object
/// or enum: a type that an argument can have.
pub open spec fn input_base_known(n: Seq<char>, registry: TypeRegistry) -> bool {
    builtin_name(n) || (registry.spec_get(n) matches Some(t) && (t is Scalar || t is Object
        || t is Enum))
}

/// The name `n` is a built-in scalar or names a registered type other than
/// a subscription: a type that an output field can have.
pub open spec fn output_base_known(n: Seq<char>, registry: TypeRegistry) -> bool {
    builtin_name(n) || (registry.spec_get(n) matches Some(t) && !(t is Subscription))
}

/// The name `n` is one of the built-in scalars.
pub open spec fn builtin_name(n: Seq<char>) -> bool {
    n == TypeRef::INT@ || n == TypeRef::FLOAT@ || n == TypeRef::STRING@ || n == TypeRef::BOOLEAN@
        || n == TypeRef::ID@
}

/// The name `n` is a built-in scalar or a registered type.
pub open spec fn base_known(n: Seq<char>, registry: TypeRegistry) -> bool {
    n == TypeRef::INT@ || n == TypeRef::FLOAT@ || n == TypeRef::STRING@ || n == TypeRef::BOOLEAN@
        || n == TypeRef::ID@ || registry.spec_get(n) is Some
}

/// The wrapping that the three flags describe.
pub open spec fn wrapping_of(non_null: bool, list: bool, list_non_null: bool) -> MetaWrapping {
    if non_null {
        if list {
            if list_non_null {
                MetaWrapping::RequiredListOfRequired
            } else {
                MetaWrapping::RequiredListOfOptional
            }
        } else {
            MetaWrapping::Required
        }
    } else {
        if list {
            if list_non_null {
                MetaWrapping::OptionalListOfRequired
            } else {
                MetaWrapping::OptionalListOfOptional
            }
        } else {
            MetaWrapping::Optional
        }
    }
}

/// `b` is the base type that the name `n` stands for.
pub open spec fn meta_base_of(b: MetaBase, n: Seq<char>) -> bool {
    if n == TypeRef::INT@ {
        b == MetaBase::Int
    } else if n == TypeRef::FLOAT@ {
        b == MetaBase::Float
    } else if n == TypeRef::STRING@ {
        b == MetaBase::String
    } else if n == TypeRef::BOOLEAN@ {
        b == MetaBase::Boolean
    } else if n == TypeRef::ID@ {
        b == MetaBase::Id
    } else {
        b matches MetaBase::Registered(s) && s@ == n
    }
}

/// The wrapping recorded for a type reference, as `from_type_ref` records
/// it on fresh flags.
pub open spec fn recorded_wrapping(t: TypeRefModel) -> MetaWrapping {
    wrapping_of(outer_non_null(t), has_list(t), inner_non_null(t))
}

/// Each of the six shapes that the named constructors of type references
/// build is recorded as its own wrapping: `T`, `T!`, `[T]`, `[T!]`, `[T]!`
/// and `[T!]!`.
pub proof fn lemma_constructor_wrappings(n: Seq<char>)
    ensures
        recorded_wrapping(named_model(n)) == MetaWrapping::Optional,
        recorded_wrapping(non_null_model(named_model(n))) == MetaWrapping::Required,
        recorded_wrapping(list_model(named_model(n))) == MetaWrapping::OptionalListOfOptional,
        recorded_wrapping(list_model(non_null_model(named_model(n))))
            == MetaWrapping::OptionalListOfRequired,
        recorded_wrapping(non_null_model(list_model(named_model(n))))
            == MetaWrapping::RequiredListOfOptional,
        recorded_wrapping(non_null_model(list_model(non_null_model(named_model(n)))))
            == MetaWrapping::RequiredListOfRequired,
{
    reveal_with_fuel(has_list, 3);
    reveal_with_fuel(has_non_null, 3);
    reveal_with_fuel(inner_non_null, 3);
}

} // verus!
