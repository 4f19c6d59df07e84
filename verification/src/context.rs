//! The configuration of the schema builders: the names they give to
//! objects, fields and arguments.
use vstd::prelude::*;
use crate::filter::{graphql_defaults, proto_defaults, FilterTypesMapConfig};
use crate::text::owned;

verus! {

/// The configuration of the entity objects: the suffix of their basic
/// version. Object names are the UpperCamelCase table names, column field
/// names the lowerCamelCase column names.
#[derive(Debug)]
pub struct EntityObjectConfig {
    pub basic_type_suffix: String,
}

impl Default for EntityObjectConfig {
    fn default() -> (r: Self)
        ensures
            r.basic_type_suffix@ == "Basic"@,
    {
        EntityObjectConfig { basic_type_suffix: owned("Basic") }
    }
}

/// The configuration of the page pagination input.
#[derive(Debug)]
pub struct PageInputConfig {
    /// name of the object
    pub name: String,
    /// name for 'page' field
    pub page: String,
    /// name for 'limit' field
    pub limit: String,
}

impl Default for PageInputConfig {
    fn default() -> (r: Self)
        ensures
            r.name@ == "PageInput"@,
            r.page@ == "page"@,
            r.limit@ == "limit"@,
    {
        PageInputConfig { name: owned("PageInput"), page: owned("page"), limit: owned("limit") }
    }
}

/// The configuration of the cursor pagination input.
#[derive(Debug)]
pub struct CursorInputConfig {
    /// name of the object
    pub name: String,
    /// name for 'cursor' field
    pub cursor: String,
    /// name for 'limit' field
    pub limit: String,
}

impl Default for CursorInputConfig {
    fn default() -> (r: Self)
        ensures
            r.name@ == "CursorInput"@,
            r.cursor@ == "cursor"@,
            r.limit@ == "limit"@,
    {
        CursorInputConfig { name: owned("CursorInput"), cursor: owned("cursor"), limit: owned("limit") }
    }
}

/// The configuration of the offset pagination input.
#[derive(Debug)]
pub struct OffsetInputConfig {
    /// name of the object
    pub name: String,
    /// name for 'offset' field
    pub offset: String,
    /// name for 'limit' field
    pub limit: String,
}

impl Default for OffsetInputConfig {
    fn default() -> (r: Self)
        ensures
            r.name@ == "OffsetInput"@,
            r.offset@ == "offset"@,
            r.limit@ == "limit"@,
    {
        OffsetInputConfig { name: owned("OffsetInput"), offset: owned("offset"), limit: owned("limit") }
    }
}

impl OffsetInputConfig {
    /// The name of the object.
    pub fn get_type_name(&self) -> (r: String)
        ensures
            r@ == self.name@,
    {
        self.name.clone()
    }
}

/// The configuration of the edge objects: the names of their fields. An
/// edge object is named after its node object with the suffix `Edge`.
#[derive(Debug)]
pub struct EdgeObjectConfig {
    /// name for 'cursor' field
    pub cursor: String,
    /// name for 'node' field
    pub node: String,
}

impl Default for EdgeObjectConfig {
    fn default() -> (r: Self)
        ensures
            r.cursor@ == "cursor"@,
            r.node@ == "node"@,
    {
        EdgeObjectConfig { cursor: owned("cursor"), node: owned("node") }
    }
}

/// The configuration of the pagination info object.
#[derive(Debug)]
pub struct PaginationInfoObjectConfig {
    /// type name
    pub name: String,
    /// name for 'pages' field
    pub pages: String,
    /// name for 'current' field
    pub current: String,
    /// name for 'offset' field
    pub offset: String,
    /// name for 'total' field
    pub total: String,
}

impl Default for PaginationInfoObjectConfig {
    fn default() -> (r: Self)
        ensures
            r.name@ == "PaginationInfo"@,
            r.pages@ == "pages"@,
            r.current@ == "current"@,
            r.offset@ == "offset"@,
            r.total@ == "total"@,
    {
        PaginationInfoObjectConfig {
            name: owned("PaginationInfo"),
            pages: owned("pages"),
            current: owned("current"),
            offset: owned("offset"),
            total: owned("total"),
        }
    }
}

/// The configuration of the create-one mutation.
#[derive(Debug)]
pub struct EntityCreateOneMutationConfig {
    /// suffix that is appended on the mutation's name
    pub mutation_suffix: String,
    /// name for `data` field
    pub data_field: String,
}

impl Default for EntityCreateOneMutationConfig {
    fn default() -> (r: Self)
        ensures
            r.mutation_suffix@ == "CreateOne"@,
            r.data_field@ == "data"@,
    {
        EntityCreateOneMutationConfig { mutation_suffix: owned("CreateOne"), data_field: owned("data"), }
    }
}

/// The configuration of the create-batch mutation.
#[derive(Debug)]
pub struct EntityCreateBatchMutationConfig {
    /// suffix that is appended on the mutation's name
    pub mutation_suffix: String,
    /// name for `data` field
    pub data_field: String,
}

impl Default for EntityCreateBatchMutationConfig {
    fn default() -> (r: Self)
        ensures
            r.mutation_suffix@ == "CreateBatch"@,
            r.data_field@ == "data"@,
    {
        EntityCreateBatchMutationConfig { mutation_suffix: owned("CreateBatch"), data_field: owned("data"), }
    }
}

/// The configuration of the update mutation.
#[derive(Debug)]
pub struct EntityUpdateMutationConfig {
    /// suffix that is appended on the mutation's name
    pub mutation_suffix: String,
    /// name for `data` field
    pub data_field: String,
    /// name for `filter` field
    pub filter_field: String,
}

impl Default for EntityUpdateMutationConfig {
    fn default() -> (r: Self)
        ensures
            r.mutation_suffix@ == "Update"@,
            r.data_field@ == "data"@,
            r.filter_field@ == "filter"@,
    {
        EntityUpdateMutationConfig { mutation_suffix: owned("Update"), data_field: owned("data"), filter_field: owned("filter"), }
    }
}

/// The configuration of the delete mutation.
#[derive(Debug)]
pub struct EntityDeleteMutationConfig {
    /// suffix that is appended on the mutation's name
    pub mutation_suffix: String,
    /// name for `filter` field
    pub filter_field: String,
}

impl Default for EntityDeleteMutationConfig {
    fn default() -> (r: Self)
        ensures
            r.mutation_suffix@ == "Delete"@,
            r.filter_field@ == "filter"@,
    {
        EntityDeleteMutationConfig { mutation_suffix: owned("Delete"), filter_field: owned("filter"), }
    }
}

/// The configuration of every builder.
#[derive(Debug)]
pub struct BuilderContext {
    pub entity_object: EntityObjectConfig,
    pub page_input: PageInputConfig,
    pub cursor_input: CursorInputConfig,
    pub offset_input: OffsetInputConfig,
    pub edge_object: EdgeObjectConfig,
    pub pagination_info_object: PaginationInfoObjectConfig,
    pub entity_create_one_mutation: EntityCreateOneMutationConfig,
    pub entity_create_batch_mutation: EntityCreateBatchMutationConfig,
    pub entity_update_mutation: EntityUpdateMutationConfig,
    pub entity_delete_mutation: EntityDeleteMutationConfig,
    pub filter_types: FilterTypesMapConfig,
}

impl Default for BuilderContext {
    fn default() -> (r: Self)
        ensures
            r.entity_object.basic_type_suffix@ == "Basic"@,
            r.page_input.name@ == "PageInput"@,
            r.page_input.page@ == "page"@,
            r.page_input.limit@ == "limit"@,
            r.cursor_input.name@ == "CursorInput"@,
            r.cursor_input.cursor@ == "cursor"@,
            r.cursor_input.limit@ == "limit"@,
            r.offset_input.name@ == "OffsetInput"@,
            r.offset_input.offset@ == "offset"@,
            r.offset_input.limit@ == "limit"@,
            r.edge_object.cursor@ == "cursor"@,
            r.edge_object.node@ == "node"@,
            r.pagination_info_object.name@ == "PaginationInfo"@,
            r.pagination_info_object.pages@ == "pages"@,
            r.pagination_info_object.current@ == "current"@,
            r.pagination_info_object.offset@ == "offset"@,
            r.pagination_info_object.total@ == "total"@,
            r.entity_create_one_mutation.mutation_suffix@ == "CreateOne"@,
            r.entity_create_one_mutation.data_field@ == "data"@,
            r.entity_create_batch_mutation.mutation_suffix@ == "CreateBatch"@,
            r.entity_create_batch_mutation.data_field@ == "data"@,
            r.entity_update_mutation.mutation_suffix@ == "Update"@,
            r.entity_update_mutation.data_field@ == "data"@,
            r.entity_update_mutation.filter_field@ == "filter"@,
            r.entity_delete_mutation.mutation_suffix@ == "Delete"@,
            r.entity_delete_mutation.filter_field@ == "filter"@,
            graphql_defaults(r.filter_types.graphql),
            proto_defaults(r.filter_types.proto),
    {
        BuilderContext {
            entity_object: EntityObjectConfig::default(),
            page_input: PageInputConfig::default(),
            cursor_input: CursorInputConfig::default(),
            offset_input: OffsetInputConfig::default(),
            edge_object: EdgeObjectConfig::default(),
            pagination_info_object: PaginationInfoObjectConfig::default(),
            entity_create_one_mutation: EntityCreateOneMutationConfig::default(),
            entity_create_batch_mutation: EntityCreateBatchMutationConfig::default(),
            entity_update_mutation: EntityUpdateMutationConfig::default(),
            entity_delete_mutation: EntityDeleteMutationConfig::default(),
            filter_types: FilterTypesMapConfig::default(),
        }
    }
}

} // verus!
