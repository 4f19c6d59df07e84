use dynamic::accessor::{ObjectAccessor, ValueAccessor};
use dynamic::condition::{get_filter_conditions, recursive_prepare_condition, FilterColumn};
use dynamic::error::SeaographyError;
use dynamic::filter::{
    read_clauses, ColumnKind, FilterInfo, FilterOperation, FilterPlan, FilterTypesMapHelper, GraphQLFilterTypes,
    GraphQlFilterType, ProtoFilterType, ProtoFilterTypes,
};
use dynamic::name_map::NameMap;
use dynamic::value::Value;

fn s(text: &str) -> Value {
    Value::String(text.to_string())
}

fn object(entries: Vec<(&str, Value)>) -> Value {
    Value::Object(entries.into_iter().map(|(k, v)| (s(k), v)).collect())
}

fn custom_message<T: std::fmt::Debug>(r: Result<T, SeaographyError>) -> String {
    match r {
        Err(SeaographyError::Custom(m)) => m,
        other => panic!("not a custom error: {:?}", other),
    }
}

#[test]
fn filter_info_keeps_each_operation_once_in_order() {
    let info = FilterInfo::new(
        "StringFilterInput",
        "string",
        &[FilterOperation::Like, FilterOperation::Equals, FilterOperation::Like, FilterOperation::IsIn],
    );
    assert_eq!(
        info.supported_operations,
        vec![FilterOperation::Equals, FilterOperation::IsIn, FilterOperation::Like]
    );
}

#[test]
fn generated_filter_input_fields() {
    let info = FilterInfo::new(
        "IntegerFilterInput",
        "int",
        &[FilterOperation::Equals, FilterOperation::IsIn, FilterOperation::Between],
    );
    let input = info.generate_filter_input();
    assert_eq!(input.name, "IntegerFilterInput");
    let fields: Vec<(String, String)> =
        input.fields.values().map(|f| (f.name.clone(), f.ty.to_string())).collect();
    assert_eq!(
        fields,
        vec![
            ("eq".to_string(), "int".to_string()),
            ("is_in".to_string(), "[int!]".to_string()),
            ("between".to_string(), "[int!]".to_string()),
        ]
    );
}

#[test]
fn graphql_default_filter_types() {
    let types = GraphQLFilterTypes::default();
    assert_eq!(types.string_filter_info.name, "StringFilterInput");
    assert_eq!(types.string_filter_info.supported_operations.len(), 17);
    assert_eq!(types.text_filter_info.supported_operations.len(), 12);
    assert_eq!(types.boolean_filter_info.supported_operations.len(), 10);
    assert_eq!(types.integer_filter_info.base_type, "int");
    assert_eq!(types.id_filter_info.name, "IdentityFilterInput");
    let inputs = GraphQlFilterType::get_input_filters(&types);
    let names: Vec<&str> = inputs.iter().map(|o| o.name.as_str()).collect();
    assert_eq!(
        names,
        vec![
            "TextFilterInput",
            "StringFilterInput",
            "IntegerFilterInput",
            "FloatFilterInput",
            "BooleanFilterInput",
            "IdentityFilterInput"
        ]
    );
}

#[test]
fn proto_default_filter_types() {
    let types = ProtoFilterTypes::default();
    assert_eq!(types.uint64_filter_info.name, "Uint64FilterInput");
    assert_eq!(types.uint64_filter_info.base_type, "uint64");
    assert_eq!(types.binary_filter_info.supported_operations.len(), 17);
    assert_eq!(types.boolean_filter_info.supported_operations.len(), 10);
    assert_eq!(ProtoFilterType::get_input_filters(&types).len(), 11);
}

#[test]
fn column_kinds_to_filter_types() {
    assert!(matches!(GraphQlFilterType::to_filter_type(&ColumnKind::Char), Some(GraphQlFilterType::Text)));
    assert!(matches!(GraphQlFilterType::to_filter_type(&ColumnKind::Text), Some(GraphQlFilterType::String)));
    assert!(matches!(GraphQlFilterType::to_filter_type(&ColumnKind::Year), Some(GraphQlFilterType::Integer)));
    assert!(GraphQlFilterType::to_filter_type(&ColumnKind::Json).is_none());
    match GraphQlFilterType::to_filter_type(&ColumnKind::Enum("color".to_string())) {
        Some(GraphQlFilterType::Enumeration(n)) => assert_eq!(n, "color"),
        other => panic!("unexpected {:?}", other),
    }
    assert!(matches!(ProtoFilterType::to_filter_type(&ColumnKind::BigInteger), Some(ProtoFilterType::Int64)));
    assert!(matches!(ProtoFilterType::to_filter_type(&ColumnKind::VarBit), Some(ProtoFilterType::Binary)));
    assert!(ProtoFilterType::to_filter_type(&ColumnKind::Blob).is_none());
}

#[test]
fn filter_type_names() {
    let types = GraphQLFilterTypes::default();
    assert_eq!(GraphQlFilterType::Float.to_value(&types, "ColorEnumFilterInput"), "FloatFilterInput");
    assert_eq!(
        GraphQlFilterType::Enumeration("color".to_string()).to_value(&types, "ColorEnumFilterInput"),
        "ColorEnumFilterInput"
    );
    assert_eq!(GraphQlFilterType::Custom("Money".to_string()).to_value(&types, ""), "Money");
}

#[test]
fn reading_a_filter_into_clauses() {
    let filter_value = object(vec![
        ("gt", Value::Int32(3)),
        ("is_null", Value::Bool(false)),
        ("between", Value::List(vec![Value::Int32(1), Value::Int32(9), Value::Int32(12)])),
        ("is_in", Value::List(vec![Value::Int32(4), Value::Int32(5)])),
    ]);
    let filter = ValueAccessor(&filter_value).object().unwrap();
    let types = GraphQLFilterTypes::default();
    let plan = GraphQlFilterType::Integer.prepare(&types, &filter, "Cake.price", &NameMap::new()).unwrap();
    let clauses = match plan {
        FilterPlan::Clauses(c) => c,
        other => panic!("unexpected {:?}", other),
    };
    let ops: Vec<FilterOperation> = clauses.iter().map(|c| c.operation).collect();
    assert_eq!(
        ops,
        vec![
            FilterOperation::GreaterThan,
            FilterOperation::IsIn,
            FilterOperation::IsNull,
            FilterOperation::Between
        ]
    );
    assert_eq!(clauses[0].values.len(), 1);
    assert_eq!(clauses[1].values.len(), 2);
    assert_eq!(clauses[2].values.len(), 0);
    assert_eq!(clauses[3].values.len(), 2);
    assert_eq!(clauses[3].values[1].as_int(), Some(9));
}

#[test]
fn operations_not_offered_are_ignored() {
    let filter_value = object(vec![("like", s("%a%"))]);
    let filter = ValueAccessor(&filter_value).object().unwrap();
    let types = GraphQLFilterTypes::default();
    match GraphQlFilterType::Integer.prepare(&types, &filter, "Cake.price", &NameMap::new()).unwrap() {
        FilterPlan::Clauses(c) => assert!(c.is_empty()),
        other => panic!("unexpected {:?}", other),
    }
}

#[test]
fn list_operation_needs_a_list() {
    let filter_value = object(vec![("is_in", Value::Int32(1))]);
    let filter = ValueAccessor(&filter_value).object().unwrap();
    let ops = vec![FilterOperation::Equals, FilterOperation::IsIn];
    assert_eq!(custom_message(read_clauses(&ops, &filter)), "internal: not a list");
}

#[test]
fn enumeration_and_custom_filters_are_delegated() {
    let filter_value = object(vec![]);
    let filter = ValueAccessor(&filter_value).object().unwrap();
    let types = GraphQLFilterTypes::default();
    assert!(matches!(
        GraphQlFilterType::Enumeration("e".to_string()).prepare(&types, &filter, "Cake.price", &NameMap::new()),
        Ok(FilterPlan::Enumeration)
    ));
    assert!(matches!(
        GraphQlFilterType::Custom("c".to_string()).prepare(&types, &filter, "Cake.price", &NameMap::new()),
        Ok(FilterPlan::Unchanged)
    ));
}

fn columns() -> Vec<FilterColumn> {
    let types = GraphQLFilterTypes::default();
    vec![
        FilterColumn::graphql("id", &Some(GraphQlFilterType::Integer), &types, "", &NameMap::new()),
        FilterColumn::graphql("name", &Some(GraphQlFilterType::String), &types, "", &NameMap::new()),
        FilterColumn::graphql("data", &None, &types, "", &NameMap::new()),
    ]
}

#[test]
fn nested_filter_condition() {
    let filters_value = object(vec![
        ("name", object(vec![("eq", s("Ann"))])),
        ("data", object(vec![("eq", s("ignored"))])),
        (
            "or",
            Value::List(vec![
                object(vec![("id", object(vec![("lt", Value::Int32(3))]))]),
                object(vec![("id", object(vec![("gt", Value::Int32(7))]))]),
            ]),
        ),
    ]);
    let filters = ValueAccessor(&filters_value).object().unwrap();
    let plan = recursive_prepare_condition(&columns(), &filters).unwrap();
    assert_eq!(plan.columns.len(), 1);
    assert_eq!(plan.columns[0].0, 1);
    assert!(plan.and.is_none());
    let or = plan.or.unwrap();
    assert_eq!(or.len(), 2);
    assert_eq!(or[0].columns[0].0, 0);
    match &or[1].columns[0].1 {
        FilterPlan::Clauses(c) => assert_eq!(c[0].operation, FilterOperation::GreaterThan),
        other => panic!("unexpected {:?}", other),
    }
}

#[test]
fn empty_filter_asks_nothing() {
    let filters = ObjectAccessor::from_entries(vec![]);
    let plan = recursive_prepare_condition(&columns(), &filters).unwrap();
    assert!(plan.columns.is_empty() && plan.and.is_none() && plan.or.is_none());
    let none = get_filter_conditions(&columns(), None).unwrap();
    assert!(none.columns.is_empty() && none.and.is_none() && none.or.is_none());
}

#[test]
fn filter_condition_errors() {
    let not_object = object(vec![("id", Value::Int32(3))]);
    let filters = ValueAccessor(&not_object).object().unwrap();
    assert_eq!(
        custom_message(recursive_prepare_condition(&columns(), &filters)),
        "internal: not an object"
    );
    let bad_group = object(vec![("and", Value::Int32(3))]);
    let filters = ValueAccessor(&bad_group).object().unwrap();
    assert_eq!(custom_message(recursive_prepare_condition(&columns(), &filters)), "internal: not a list");
    let scalar = Value::Int32(1);
    assert_eq!(
        custom_message(get_filter_conditions(&columns(), Some(ValueAccessor(&scalar)))),
        "internal: not an object"
    );
}

#[test]
fn column_filter_fields() {
    let types = GraphQLFilterTypes::default();
    let no_functions = NameMap::new();
    let helper = FilterTypesMapHelper { types: &types, condition_functions: &no_functions };
    let f = helper.get_column_filter_input_value("price", &ColumnKind::Double, "").unwrap();
    assert_eq!(f.name, "price");
    assert_eq!(f.ty.to_string(), "FloatFilterInput");
    let e = helper
        .get_column_filter_input_value("color", &ColumnKind::Enum("color".to_string()), "ColorEnumFilterInput")
        .unwrap();
    assert_eq!(e.ty.to_string(), "ColorEnumFilterInput");
    assert!(helper.get_column_filter_input_value("doc", &ColumnKind::Json, "").is_none());
    let empty = object(vec![]);
    let filter = ValueAccessor(&empty).object().unwrap();
    assert!(matches!(helper.prepare(&None, &filter, "Cake", "name"), Ok(None)));
}

#[test]
fn column_conditions_follow_the_column_kind() {
    let types = GraphQLFilterTypes::default();
    let no_functions = NameMap::new();
    let helper = FilterTypesMapHelper { types: &types, condition_functions: &no_functions };
    let filter_value = object(vec![("gt", Value::Int32(3))]);
    let filter = ValueAccessor(&filter_value).object().unwrap();
    match helper.prepare_column_condition(&ColumnKind::Integer, &filter, "Cake", "price").unwrap() {
        Some(FilterPlan::Clauses(c)) => {
            assert_eq!(c.len(), 1);
            assert_eq!(c[0].operation, FilterOperation::GreaterThan);
            assert_eq!(c[0].values[0].as_int(), Some(3));
        }
        other => panic!("unexpected {:?}", other),
    }
    assert!(matches!(helper.prepare_column_condition(&ColumnKind::Json, &filter, "Cake", "price"), Ok(None)));
    assert!(matches!(
        helper.prepare_column_condition(&ColumnKind::Enum("color".to_string()), &filter, "Cake", "price"),
        Ok(Some(FilterPlan::Enumeration))
    ));
    assert!(matches!(helper.to_filter_type(&ColumnKind::Double), Some(GraphQlFilterType::Float)));
    assert!(helper.to_filter_type(&ColumnKind::Blob).is_none());
}

#[test]
fn custom_condition_functions_are_keyed_by_entity_and_column() {
    let types = GraphQLFilterTypes::default();
    let no_functions = NameMap::new();
    let helper = FilterTypesMapHelper { types: &types, condition_functions: &no_functions };
    assert_eq!(helper.condition_function_key("Cake", "name"), "Cake.name");
}

#[test]
fn custom_filters_call_their_configured_condition_function() {
    let types = GraphQLFilterTypes::default();
    let mut functions = NameMap::new();
    functions.insert("Cake.price".to_string(), ());
    let helper = FilterTypesMapHelper { types: &types, condition_functions: &functions };
    let filter_value = object(vec![("gt", Value::Int32(3))]);
    let filter = ValueAccessor(&filter_value).object().unwrap();
    match helper.prepare_column_condition(&ColumnKind::Custom("Money".to_string()), &filter, "Cake", "price") {
        Ok(Some(FilterPlan::CustomFunction(key))) => assert_eq!(key, "Cake.price"),
        other => panic!("unexpected {:?}", other),
    }
    assert!(matches!(
        helper.prepare_column_condition(&ColumnKind::Custom("Money".to_string()), &filter, "Cake", "name"),
        Ok(Some(FilterPlan::Unchanged))
    ));
    match ProtoFilterType::Custom("Money".to_string()).prepare(
        &ProtoFilterTypes::default(),
        &filter,
        "Cake.price",
        &functions,
    ) {
        Ok(FilterPlan::CustomFunction(key)) => assert_eq!(key, "Cake.price"),
        other => panic!("unexpected {:?}", other),
    }
    let columns = vec![FilterColumn::graphql(
        "price",
        &Some(GraphQlFilterType::Custom("Money".to_string())),
        &types,
        "Cake.price",
        &functions,
    )];
    let filters_value = object(vec![("price", object(vec![]))]);
    let filters = ValueAccessor(&filters_value).object().unwrap();
    let plan = recursive_prepare_condition(&columns, &filters).unwrap();
    match &plan.columns[0].1 {
        FilterPlan::CustomFunction(key) => assert_eq!(key, "Cake.price"),
        other => panic!("unexpected {:?}", other),
    }
}
