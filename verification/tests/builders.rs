use dynamic::accessor::ObjectAccessor;
use dynamic::context::BuilderContext;
use dynamic::error::SeaographyError;
use dynamic::inputs::{CursorInputBuilder, OffsetInputBuilder, PageInputBuilder};
use dynamic::interface::IO;
use dynamic::mutation::{
    active_model_values, batch_data_argument, check_field_guards, data_argument, field_guard_key, guard_result,
    EntityCreateBatchMutationBuilder, EntityCreateOneMutationBuilder,
    EntityDeleteMutationBuilder, EntityUpdateMutationBuilder, GuardAction,
    ENTITY_GUARD_MESSAGE, GRAPHQL_FIELD_GUARD_MESSAGE,
};
use dynamic::name_map::NameMap;
use dynamic::outputs::{
    ActiveEnumBuilder, EdgeObjectBuilder, EntityObjectBuilder, FilterInputBuilder,
    PaginationInfoObjectBuilder,
};
use dynamic::query::{EntityObjectViaRelationBuilder, RelationNames};
use dynamic::sql_value::{sea_query_value_to_graphql_value, sea_query_value_to_proto_value, SqlValue};
use dynamic::value::Value;

fn args(entries: Vec<(&str, Value)>) -> ObjectAccessor<'static> {
    ObjectAccessor::from_entries(
        entries.into_iter().map(|(k, v)| (Value::String(k.to_string()), v)).collect(),
    )
}

fn custom_message<T: std::fmt::Debug>(r: Result<T, SeaographyError>) -> String {
    match r {
        Err(SeaographyError::Custom(m)) => m,
        other => panic!("not a custom error: {:?}", other),
    }
}

#[test]
fn page_input_parsing() {
    let context = BuilderContext::default();
    let builder = PageInputBuilder { context: &context };
    let input = builder.parse_object(&args(vec![("limit", Value::UInt64(10)), ("page", Value::UInt64(3))]));
    assert_eq!((input.page, input.limit), (3, 10));
    let input = builder.parse_object(&args(vec![("limit", Value::UInt64(10))]));
    assert_eq!((input.page, input.limit), (0, 10));
    let input = builder.parse_object(&args(vec![("limit", Value::UInt64(10)), ("page", Value::Int32(3))]));
    assert_eq!(input.page, 0);
    assert_eq!(builder.get_type_name(), "PageInput");
}

#[test]
fn cursor_input_parsing() {
    let context = BuilderContext::default();
    let builder = CursorInputBuilder { context: &context };
    let input = builder
        .parse_object(&args(vec![("cursor", Value::String("abc".to_string())), ("limit", Value::UInt64(5))]))
        .unwrap();
    assert_eq!(input.cursor.as_deref(), Some("abc"));
    assert_eq!(input.limit, 5);
    let input = builder.parse_object(&args(vec![("limit", Value::UInt64(5))])).unwrap();
    assert!(input.cursor.is_none());
    assert_eq!(
        custom_message(builder.parse_object(&args(vec![]))),
        "limit is a required argument but not provided."
    );
    assert_eq!(
        custom_message(builder.parse_object(&args(vec![("cursor", Value::Int32(1)), ("limit", Value::UInt64(5))]))),
        "internal: not a String"
    );
    assert_eq!(
        custom_message(builder.parse_object(&args(vec![("limit", Value::Int32(5))]))),
        "internal: not a u64"
    );
}

#[test]
fn offset_input_parsing() {
    let context = BuilderContext::default();
    let builder = OffsetInputBuilder { context: &context };
    let input = builder.parse_object(&args(vec![("limit", Value::UInt64(5))])).unwrap();
    assert_eq!((input.offset, input.limit), (0, 5));
    let input = builder
        .parse_object(&args(vec![("offset", Value::UInt64(20)), ("limit", Value::UInt64(5))]))
        .unwrap();
    assert_eq!((input.offset, input.limit), (20, 5));
    assert_eq!(
        custom_message(builder.parse_object(&args(vec![("offset", Value::Bool(true))]))),
        "internal: not a u64"
    );
    assert_eq!(
        custom_message(builder.parse_object(&args(vec![("offset", Value::UInt64(1))]))),
        "limit is a required argument but not provided."
    );
}

#[test]
fn pagination_input_objects() {
    let context = BuilderContext::default();
    let page = PageInputBuilder { context: &context }.input_object();
    assert_eq!(page.name, "PageInput");
    assert!(page.io == IO::Input);
    let names: Vec<&str> = page.fields.values().map(|f| f.name.as_str()).collect();
    assert_eq!(names, vec!["limit", "page"]);
    assert_eq!(page.fields[0].ty.to_string(), "int!");
    let cursor = CursorInputBuilder { context: &context }.input_object();
    assert_eq!(cursor.fields[0].ty.to_string(), "string");
}

#[test]
fn entity_names() {
    let context = BuilderContext::default();
    let builder = EntityObjectBuilder { context: &context };
    assert_eq!(builder.get_type_name("cake_filling"), "CakeFilling");
    assert_eq!(builder.basic_type_name("cake_filling"), "CakeFillingBasic");
    assert_eq!(builder.column_name("cake_filling", "cake_id"), "cakeId");
    let edges = EdgeObjectBuilder { context: &context };
    assert_eq!(edges.get_type_name("Cake"), "CakeEdge");
    let edge = edges.to_object("cake");
    assert_eq!(edge.name, "CakeEdge");
    assert_eq!(edge.fields[1].ty.to_string(), "Cake!");
    let filters = FilterInputBuilder { context: &context };
    assert_eq!(filters.get_type_name("Cake"), "CakeFilterInput");
}

#[test]
fn enumeration_names() {
    let context = BuilderContext::default();
    let builder = ActiveEnumBuilder { context: &context };
    assert_eq!(builder.get_type_name("tea_kind"), "TeaKindEnum");
    assert_eq!(builder.variant_name("TeaKindEnum", "earl_grey"), "EARLGREY");
    let e = builder.enumeration("tea_kind", &vec!["earl_grey".to_string(), "green".to_string()]);
    assert_eq!(e.name, "TeaKindEnum");
    assert!(e.enum_values.contains_key("EARLGREY"));
    assert!(e.enum_values.contains_key("GREEN"));
    assert_eq!(e.enum_values.len(), 2);
}

#[test]
fn filter_input_object_of_an_entity() {
    let context = BuilderContext::default();
    let builder = FilterInputBuilder { context: &context };
    let columns = vec![
        ("id".to_string(), Some("IntegerFilterInput".to_string())),
        ("payload".to_string(), None),
        ("name".to_string(), Some("StringFilterInput".to_string())),
    ];
    let input = builder.to_object("cake", &columns);
    assert_eq!(input.name, "CakeFilterInput");
    let fields: Vec<(String, String)> =
        input.fields.values().map(|f| (f.name.clone(), f.ty.to_string())).collect();
    assert_eq!(
        fields,
        vec![
            ("id".to_string(), "IntegerFilterInput".to_string()),
            ("name".to_string(), "StringFilterInput".to_string()),
            ("and".to_string(), "[CakeFilterInput!]".to_string()),
            ("or".to_string(), "[CakeFilterInput!]".to_string()),
        ]
    );
}

#[test]
fn pagination_info_object() {
    let context = BuilderContext::default();
    let info = PaginationInfoObjectBuilder { context: &context }.to_object();
    let names: Vec<&str> = info.fields.values().map(|f| f.name.as_str()).collect();
    assert_eq!(names, vec!["pages", "current", "offset", "total"]);
    assert!(info.fields.values().all(|f| f.has_resolver));
}

#[test]
fn guards() {
    assert!(guard_result(&GuardAction::Allow, ENTITY_GUARD_MESSAGE).is_ok());
    assert_eq!(
        custom_message(guard_result(&GuardAction::Block(None), ENTITY_GUARD_MESSAGE)),
        "Entity guard triggered."
    );
    assert_eq!(
        custom_message(guard_result(&GuardAction::Block(Some("no".to_string())), ENTITY_GUARD_MESSAGE)),
        "no"
    );
    let actions = vec![GuardAction::Allow, GuardAction::Block(None), GuardAction::Block(Some("x".to_string()))];
    assert_eq!(
        custom_message(check_field_guards(&actions, GRAPHQL_FIELD_GUARD_MESSAGE)),
        "GraphQLField guard triggered."
    );
    assert!(check_field_guards(&vec![GuardAction::Allow], GRAPHQL_FIELD_GUARD_MESSAGE).is_ok());
    assert_eq!(field_guard_key("Cake", "name"), "Cake.name");
}

#[test]
fn data_argument_checks() {
    let a = args(vec![("data", Value::Object(vec![]))]);
    assert!(data_argument(&a, "data").unwrap().is_empty());
    let missing = args(vec![]);
    assert_eq!(
        custom_message(data_argument(&missing, "data")),
        "data is a required argument but not provided."
    );
    let scalar = args(vec![("data", Value::Int32(1))]);
    assert_eq!(custom_message(data_argument(&scalar, "data")), "internal: not an object");
}

#[test]
fn active_model_skips_generated_keys() {
    let mut data: NameMap<Value> = NameMap::new();
    data.insert("id".to_string(), Value::Int32(1));
    data.insert("name".to_string(), Value::String("Ann".to_string()));
    let columns = vec![("id".to_string(), true), ("name".to_string(), false), ("note".to_string(), false)];
    let picks = active_model_values(&columns, &data);
    assert_eq!(picks.len(), 1);
    assert_eq!(picks[0].0, 1);
    assert_eq!(picks[0].1.as_string(), Some("Ann".to_string()));
    let twice = vec![("name".to_string(), false), ("name".to_string(), false)];
    assert_eq!(active_model_values(&twice, &data).len(), 1);
}

#[test]
fn mutation_fields() {
    let context = BuilderContext::default();
    let create = EntityCreateOneMutationBuilder { context: &context }.to_field("cake", "cake", "CakeInsertInput");
    assert_eq!(create.name, "cakeCreateOne");
    assert_eq!(create.ty.to_string(), "CakeBasic!");
    assert_eq!(create.arguments.get("data").unwrap().ty.to_string(), "CakeInsertInput!");
    let batch = EntityCreateBatchMutationBuilder { context: &context }.to_field("cake", "cake", "CakeInsertInput");
    assert_eq!(batch.name, "cakeCreateBatch");
    assert_eq!(batch.ty.to_string(), "[CakeBasic!]!");
    let update = EntityUpdateMutationBuilder { context: &context }.to_field("cake", "cake", "CakeUpdateInput");
    assert_eq!(update.name, "cakeUpdate");
    assert_eq!(update.arguments.get("filter").unwrap().ty.to_string(), "CakeFilterInput");
    let delete = EntityDeleteMutationBuilder { context: &context }.to_field("cake", "cake");
    assert_eq!(delete.name, "cakeDelete");
    assert_eq!(delete.ty.to_string(), "int!");
}

#[test]
fn relation_fields() {
    let names = RelationNames {
        filters_argument: "filters".to_string(),
        order_by_argument: "orderBy".to_string(),
        pagination_argument: "pagination".to_string(),
        connection_type: "FillingConnection".to_string(),
        order_input_type: "FillingOrderInput".to_string(),
        pagination_input_type: "PaginationInput".to_string(),
    };
    let context = BuilderContext::default();
    let builder = EntityObjectViaRelationBuilder { context: &context };
    let owned = builder.get_relation("fillings", true, "filling", &names);
    assert_eq!(owned.ty.to_string(), "FillingConnection!");
    assert_eq!(owned.arguments.len(), 3);
    assert_eq!(owned.arguments.get("filters").unwrap().ty.to_string(), "FillingFilterInput");
    let single = builder.get_relation("filling", false, "filling", &names);
    assert_eq!(single.ty.to_string(), "Filling");
    assert_eq!(single.arguments.len(), 0);
}

#[test]
fn database_values() {
    assert!(sea_query_value_to_graphql_value(SqlValue::Int(None), false).is_none());
    assert_eq!(sea_query_value_to_graphql_value(SqlValue::Int(Some(4)), false).unwrap().as_int(), Some(4));
    assert_eq!(
        sea_query_value_to_graphql_value(SqlValue::String(Some("earl_grey".to_string())), true)
            .unwrap()
            .as_string(),
        Some("EARLGREY".to_string())
    );
    assert_eq!(
        sea_query_value_to_proto_value(SqlValue::String(Some("earl_grey".to_string())), false)
            .unwrap()
            .as_string(),
        Some("earl_grey".to_string())
    );
    assert_eq!(
        sea_query_value_to_proto_value(SqlValue::Char(Some('x')), false).unwrap().as_string(),
        Some("x".to_string())
    );
    assert_eq!(
        sea_query_value_to_graphql_value(SqlValue::Bytes(Some(vec![104, 105, 0xff])), false)
            .unwrap()
            .as_string(),
        Some("hi\u{fffd}".to_string())
    );
    assert!(matches!(
        sea_query_value_to_graphql_value(SqlValue::Double(Some(1.5f64.to_bits())), false),
        Some(Value::Float64(b)) if b == 1.5f64.to_bits()
    ));
}

#[test]
fn batch_data_argument_checks() {
    let a = args(vec![("data", Value::List(vec![Value::Object(vec![]), Value::Int32(1)]))]);
    let list = batch_data_argument(&a, "data").unwrap();
    assert_eq!(list.len(), 2);
    assert!(list.get(0).unwrap().object().is_ok());
    assert_eq!(custom_message(list.get(1).unwrap().object()), "internal: not an object");
    assert_eq!(
        custom_message(batch_data_argument(&args(vec![]), "data")),
        "data is a required argument but not provided."
    );
    assert_eq!(
        custom_message(batch_data_argument(&args(vec![("data", Value::Object(vec![]))]), "data")),
        "internal: not a list"
    );
}

#[test]
fn relation_guard_and_repeated_argument_names() {
    let context = BuilderContext::default();
    let builder = EntityObjectViaRelationBuilder { context: &context };
    assert!(builder.check_guard(None).is_ok());
    assert!(builder.check_guard(Some(&GuardAction::Allow)).is_ok());
    match builder.check_guard(Some(&GuardAction::Block(None))) {
        Err(SeaographyError::Custom(m)) => assert_eq!(m, "Entity guard triggered."),
        other => panic!("unexpected {:?}", other),
    }
    match builder.check_guard(Some(&GuardAction::Block(Some("no".to_string())))) {
        Err(SeaographyError::Custom(m)) => assert_eq!(m, "no"),
        other => panic!("unexpected {:?}", other),
    }
    let names = RelationNames {
        filters_argument: "x".to_string(),
        order_by_argument: "x".to_string(),
        pagination_argument: "pagination".to_string(),
        connection_type: "FillingConnection".to_string(),
        order_input_type: "FillingOrderInput".to_string(),
        pagination_input_type: "PaginationInput".to_string(),
    };
    let field = builder.get_relation("fillings", true, "filling", &names);
    assert_eq!(field.arguments.len(), 2);
    assert_eq!(field.arguments.get("x").unwrap().ty.to_string(), "FillingOrderInput");
}

#[test]
fn pagination_info_fields_resolve_to_their_counts() {
    let context = BuilderContext::default();
    let builder = PaginationInfoObjectBuilder { context: &context };
    let info = dynamic::inputs::PaginationInfo { pages: 5, current: 2, offset: 20, total: 47 };
    assert!(matches!(builder.field_value(&info, "pages"), Some(Value::UInt64(5))));
    assert!(matches!(builder.field_value(&info, "current"), Some(Value::UInt64(2))));
    assert!(matches!(builder.field_value(&info, "offset"), Some(Value::UInt64(20))));
    assert!(matches!(builder.field_value(&info, "total"), Some(Value::UInt64(47))));
    assert!(builder.field_value(&info, "other").is_none());
}
