//! Building a schema: its root types, its limits and its registered types.
use vstd::prelude::*;
use crate::error::SchemaError;
use crate::meta::{NodeInfo, NodeType};
use crate::name_map::insert_entry;
use crate::registry::{type_name_of, Scalar, Type, TypeRegistry};
use crate::text::owned;

verus! {

/// How strictly queries are validated.
#[derive(Clone, Copy, Debug, PartialEq, Eq)]
pub enum ValidationMode {
    Strict,
    Fast,
}

/// Whether introspection queries are answered.
#[derive(Clone, Copy, Debug, PartialEq, Eq)]
pub enum IntrospectionMode {
    Enabled,
    Disabled,
    IntrospectionOnly,
}

/// Dynamic schema builder
#[derive(Debug)]
pub struct SchemaBuilder {
    pub query_type: NodeInfo,
    pub mutation_type: Option<NodeInfo>,
    pub subscription_type: Option<NodeInfo>,
    pub registry: TypeRegistry,
    pub validation_mode: ValidationMode,
    pub recursive_depth: usize,
    pub max_directives: Option<usize>,
    pub complexity: Option<usize>,
    pub depth: Option<usize>,
    pub enable_suggestions: bool,
    pub introspection_mode: IntrospectionMode,
    pub enable_federation: bool,
}

/// The names of the built-in scalars that a finished schema registers.
pub open spec fn system_scalar(name: Seq<char>) -> bool {
    name == "Int"@ || name == "Float"@ || name == "Boolean"@ || name == "String"@ || name == "ID"@
}

/// A dynamic GraphQL schema: its root types and the types it knows.
#[derive(Debug)]
pub struct Schema {
    pub query_type: NodeInfo,
    pub mutation_type: NodeInfo,
    pub registry: TypeRegistry,
}

/// The node that stands for a missing mutation root.
pub open spec fn empty_mutation(n: NodeInfo) -> bool {
    n.name@ == "EmptyMutation"@ && n.node_type == NodeType::Mutation
}

impl Schema {
    /// Create a schema builder with the default limits
    pub fn build(query: &str, mutation: Option<&str>, subscription: Option<&str>) -> (r: SchemaBuilder)
        ensures
            r.query_type.name@ == query@,
            r.query_type.node_type == NodeType::Query,
            match mutation {
                Some(m) => r.mutation_type matches Some(n) && n.name@ == m@ && n.node_type
                    == NodeType::Mutation,
                None => r.mutation_type is None,
            },
            match subscription {
                Some(s) => r.subscription_type matches Some(n) && n.name@ == s@ && n.node_type
                    == NodeType::Subscription,
                None => r.subscription_type is None,
            },
            r.registry.types.spec_entries().len() == 0,
            r.validation_mode == ValidationMode::Strict,
            r.recursive_depth == 32,
            r.max_directives is None,
            r.complexity is None,
            r.depth is None,
            r.enable_suggestions,
            r.introspection_mode == IntrospectionMode::Enabled,
            !r.enable_federation,
    {
        SchemaBuilder {
            query_type: NodeInfo::new(owned(query), NodeType::Query),
            mutation_type: match mutation {
                Some(m) => Some(NodeInfo::new(owned(m), NodeType::Mutation)),
                None => None,
            },
            subscription_type: match subscription {
                Some(s) => Some(NodeInfo::new(owned(s), NodeType::Subscription)),
                None => None,
            },
            registry: TypeRegistry::new(),
            validation_mode: ValidationMode::Strict,
            recursive_depth: 32,
            max_directives: None,
            complexity: None,
            depth: None,
            enable_suggestions: true,
            introspection_mode: IntrospectionMode::Enabled,
            enable_federation: false,
        }
    }
}

impl SchemaBuilder {
    /// Register a type under its name; no type may be registered under
    /// that name yet
    pub fn register(self, ty: Type) -> (r: Self)
        requires
            !self.registry.types.spec_contains(type_name_of(ty)),
        ensures
            r.registry.spec_get(type_name_of(ty)) == Some(ty),
            forall|other: Seq<char>|
                other != type_name_of(ty) ==> r.registry.spec_get(other)
                    == self.registry.spec_get(other),
            r.query_type == self.query_type,
            r.mutation_type == self.mutation_type,
            r.subscription_type == self.subscription_type,
    {
        let mut r = self;
        let name = owned(ty.name());
        r.registry.add(name, ty);
        r
    }

    /// Set the maximum complexity a query can have
    pub fn limit_complexity(self, complexity: usize) -> (r: Self)
        ensures
            r.complexity == Some(complexity),
            r.depth == self.depth,
            r.recursive_depth == self.recursive_depth,
            r.max_directives == self.max_directives,
            r.registry == self.registry,
    {
        Self { complexity: Some(complexity), ..self }
    }

    /// Set the maximum depth a query can have
    pub fn limit_depth(self, depth: usize) -> (r: Self)
        ensures
            r.depth == Some(depth),
            r.complexity == self.complexity,
            r.recursive_depth == self.recursive_depth,
            r.max_directives == self.max_directives,
            r.registry == self.registry,
    {
        Self { depth: Some(depth), ..self }
    }

    /// Set the maximum recursive depth a query can have
    pub fn limit_recursive_depth(self, depth: usize) -> (r: Self)
        ensures
            r.recursive_depth == depth,
            r.complexity == self.complexity,
            r.depth == self.depth,
            r.max_directives == self.max_directives,
            r.registry == self.registry,
    {
        Self { recursive_depth: depth, ..self }
    }

    /// Set the maximum number of directives on a single field
    pub fn limit_directives(self, max_directives: usize) -> (r: Self)
        ensures
            r.max_directives == Some(max_directives),
            r.complexity == self.complexity,
            r.depth == self.depth,
            r.recursive_depth == self.recursive_depth,
            r.registry == self.registry,
    {
        Self { max_directives: Some(max_directives), ..self }
    }

    /// Set the validation mode
    pub fn validation_mode(self, validation_mode: ValidationMode) -> (r: Self)
        ensures
            r.validation_mode == validation_mode,
            r.registry == self.registry,
            r.introspection_mode == self.introspection_mode,
    {
        Self { validation_mode, ..self }
    }

    /// Disable field suggestions
    pub fn disable_suggestions(self) -> (r: Self)
        ensures
            !r.enable_suggestions,
            r.registry == self.registry,
            r.introspection_mode == self.introspection_mode,
    {
        Self { enable_suggestions: false, ..self }
    }

    /// Disable introspection queries
    pub fn disable_introspection(self) -> (r: Self)
        ensures
            r.introspection_mode == IntrospectionMode::Disabled,
            r.registry == self.registry,
            r.enable_suggestions == self.enable_suggestions,
    {
        Self { introspection_mode: IntrospectionMode::Disabled, ..self }
    }

    /// Only process introspection queries
    pub fn introspection_only(self) -> (r: Self)
        ensures
            r.introspection_mode == IntrospectionMode::IntrospectionOnly,
            r.registry == self.registry,
            r.enable_suggestions == self.enable_suggestions,
    {
        Self { introspection_mode: IntrospectionMode::IntrospectionOnly, ..self }
    }

    /// Enable federation
    pub fn enable_federation(self) -> (r: Self)
        ensures
            r.enable_federation,
            r.registry == self.registry,
            r.introspection_mode == self.introspection_mode,
    {
        Self { enable_federation: true, ..self }
    }

    /// Registers the built-in scalars and returns the schema; none of them
    /// may be registered yet
    pub fn finish(self) -> (r: Result<Schema, SchemaError>)
        requires
            forall|n: Seq<char>| system_scalar(n) ==> !self.registry.types.spec_contains(n),
        ensures
            r matches Ok(s) && {
                &&& s.query_type == self.query_type
                &&& match self.mutation_type {
                    Some(m) => s.mutation_type == m,
                    None => empty_mutation(s.mutation_type),
                }
                &&& forall|n: Seq<char>|
                    system_scalar(n) ==> (s.registry.spec_get(n) matches Some(Type::Scalar(sc))
                        && sc.name@ == n)
                &&& forall|n: Seq<char>|
                    !system_scalar(n) ==> s.registry.spec_get(n) == self.registry.spec_get(n)
            },
    {
        let mut registry = self.registry;
        proof {
            reveal_strlit("Int");
            reveal_strlit("Float");
            reveal_strlit("Boolean");
            reveal_strlit("String");
            reveal_strlit("ID");
        }
        let ghost start = registry;
        proof {
            assert(system_scalar("Int"@) && system_scalar("Float"@) && system_scalar("Boolean"@)
                && system_scalar("String"@) && system_scalar("ID"@));
            assert(registry.spec_get("String"@) is None && registry.spec_get("ID"@) is None);
            assert("Int"@.len() == 3 && "Float"@.len() == 5 && "Boolean"@.len() == 7
                && "String"@.len() == 6 && "ID"@.len() == 2);
        }
        registry.add(owned("Int"), Type::Scalar(Scalar::new("Int")));
        assert(registry.spec_get("Float"@) is None && registry.spec_get("ID"@) is None);
        registry.add(owned("Float"), Type::Scalar(Scalar::new("Float")));
        assert(registry.spec_get("Boolean"@) is None && registry.spec_get("ID"@) is None);
        registry.add(owned("Boolean"), Type::Scalar(Scalar::new("Boolean")));
        assert(registry.spec_get("String"@) is None && registry.spec_get("ID"@) is None);
        registry.add(owned("String"), Type::Scalar(Scalar::new("String")));
        assert(registry.spec_get("ID"@) is None);
        registry.add(owned("ID"), Type::Scalar(Scalar::new("ID")));
        let mutation_type = match self.mutation_type {
            Some(ty) => ty,
            None => NodeInfo::new(owned("EmptyMutation"), NodeType::Mutation),
        };
        proof {
            reveal_strlit("EmptyMutation");
        }
        Ok(Schema { query_type: self.query_type, mutation_type, registry })
    }
}

} // verus!
