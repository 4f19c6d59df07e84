use dynamic::builder::{IntrospectionMode, Schema, ValidationMode};
use dynamic::error::SeaographyError;
use dynamic::meta::{NodeType, SelectionSet};
use dynamic::object::{Field, Interface, InterfaceField, Object, ObjectMeta, ResolvedValue};
use dynamic::registry::{Scalar, Type, TypeRegistry};
use dynamic::schema::{Enum, EnumItem, Union};
use dynamic::type_ref::TypeRef;
use dynamic::value::Value;

fn custom_message<T: std::fmt::Debug>(r: Result<T, SeaographyError>) -> String {
    match r {
        Err(SeaographyError::Custom(m)) => m,
        other => panic!("not a custom error: {:?}", other),
    }
}

#[test]
fn enum_accepts_its_items() {
    let my_enum = Enum::new("MyEnum").item(EnumItem::new("A")).item(EnumItem::new("B"));
    let v = my_enum.to_value(&Value::String("B".to_string())).unwrap();
    assert_eq!(v.as_string(), Some("B".to_string()));
}

#[test]
fn enum_refuses_unknown_value() {
    let my_enum = Enum::new("MyEnum").item(EnumItem::new("A")).item(EnumItem::new("B"));
    match my_enum.to_value(&Value::String("C".to_string())) {
        Err(SeaographyError::NoEnumValue(name, v)) => {
            assert_eq!(name, "MyEnum");
            assert_eq!(v.as_string(), Some("C".to_string()));
        }
        other => panic!("unexpected {:?}", other),
    }
}

#[test]
fn enum_refuses_inaccessible_item() {
    let my_enum = Enum::new("MyEnum").item(EnumItem::new("A").inaccessible());
    assert_eq!(
        custom_message(my_enum.to_value(&Value::String("A".to_string()))),
        "enum `MyEnum` with field `A` is inaccessible"
    );
}

#[test]
fn enum_items_replace_items_of_the_same_name() {
    let my_enum = Enum::new("MyEnum").items(vec![
        EnumItem::new("A"),
        EnumItem::new("B"),
        EnumItem::new("A").description("again"),
    ]);
    assert_eq!(my_enum.enum_values.len(), 2);
    assert_eq!(my_enum.enum_values.get("A").unwrap().description.as_deref(), Some("again"));
}

#[test]
fn union_does_not_contain() {
    let union = Union::new("MyUnion").possible_type("MyObjA");
    assert!(union.check("MyObjA").is_ok());
    assert_eq!(custom_message(union.check("MyObjB")), "union `MyUnion` has no possible type `MyObjB`");
    let hidden = Union::new("MyUnion").possible_type("MyObjA").inaccessible();
    assert_eq!(custom_message(hidden.check("MyObjA")), "union `MyUnion` is inaccessible");
}

fn interface_registry() -> TypeRegistry {
    let interface = Interface::new("MyInterface")
        .field(InterfaceField::new("a", TypeRef::named_nn(TypeRef::INT)));
    let mut registry = TypeRegistry::new();
    registry.add("MyInterface".to_string(), Type::Interface(interface));
    registry
}

#[test]
fn object_does_not_implement_interface() {
    let registry = interface_registry();
    let object = Object::new("MyObjA")
        .field(Field::output("a", TypeRef::named_nn(TypeRef::INT)))
        .field(Field::output("b", TypeRef::named_nn(TypeRef::INT)));
    assert_eq!(
        custom_message(object.check("MyInterface", &registry)),
        "object `MyObjA` does not implement interface `MyInterface`"
    );
}

#[test]
fn object_implements_interface() {
    let registry = interface_registry();
    let object = Object::new("MyObjA")
        .field(Field::output("a", TypeRef::named_nn(TypeRef::INT)))
        .implement("MyInterface");
    assert!(object.check("MyInterface", &registry).is_ok());
}

#[test]
fn object_field_of_other_type() {
    let registry = interface_registry();
    let object = Object::new("MyObjA")
        .field(Field::output("a", TypeRef::named(TypeRef::STRING)))
        .implement("MyInterface");
    assert_eq!(
        custom_message(object.check("MyInterface", &registry)),
        "object `MyObjA` field `a` has different type `string` than implemented type `int!`"
    );
}

#[test]
fn object_missing_interface_field() {
    let registry = interface_registry();
    let object = Object::new("MyObjA")
        .field(Field::output("b", TypeRef::named_nn(TypeRef::INT)))
        .implement("MyInterface");
    assert_eq!(
        custom_message(object.check("MyInterface", &registry)),
        "object `MyObjA` does not implement field `a`"
    );
}

#[test]
fn object_unknown_member_type() {
    let registry = TypeRegistry::new();
    let object = Object::new("MyObjA");
    assert_eq!(
        custom_message(object.check("Nope", &registry)),
        "object `MyObjA` implements unknown CUSTOM type `Nope`"
    );
}

#[test]
fn object_collects_selected_fields() {
    let object = Object::new("MyObj")
        .field(Field::output("value", TypeRef::named_nn(TypeRef::INT)))
        .field(Field::output("other", TypeRef::named_nn(TypeRef::INT)));
    let selection = SelectionSet::new(
        "obj".to_string(),
        None,
        vec![SelectionSet::new("value".to_string(), Some("v".to_string()), vec![])],
    );
    let picked = object.collect(&selection).unwrap();
    assert_eq!(picked.len(), 1);
    assert_eq!(picked[0].0.name, "value");
    assert_eq!(picked[0].0.response_key(picked[0].1), "v");
}

#[test]
fn registry_add_then_get() {
    let mut registry = TypeRegistry::new();
    registry.add("Url".to_string(), Type::Scalar(Scalar::new("Url")));
    assert!(registry.contains("Url"));
    assert!(!registry.contains("Other"));
    match registry.get("Url") {
        Some(Type::Scalar(s)) => assert_eq!(s.get_type_name(), "Url"),
        other => panic!("unexpected {:?}", other),
    }
    registry.clear();
    assert!(!registry.contains("Url"));
}

#[test]
fn schema_builder_defaults_and_finish() {
    let builder = Schema::build("Query", None, None);
    assert_eq!(builder.query_type.name, "Query");
    assert!(builder.mutation_type.is_none());
    assert_eq!(builder.recursive_depth, 32);
    assert!(builder.validation_mode == ValidationMode::Strict);
    assert!(builder.introspection_mode == IntrospectionMode::Enabled);
    let builder = builder.limit_depth(5).disable_introspection();
    assert_eq!(builder.depth, Some(5));
    assert!(builder.introspection_mode == IntrospectionMode::Disabled);
    let schema = builder.finish().unwrap();
    assert_eq!(schema.mutation_type.name, "EmptyMutation");
    assert!(schema.mutation_type.node_type == NodeType::Mutation);
    for name in ["Int", "Float", "Boolean", "String", "ID"] {
        assert!(schema.registry.contains(name));
    }
}

#[test]
fn field_values_are_checked_against_their_types() {
    let mut registry = TypeRegistry::new();
    registry.add(
        "Color".to_string(),
        Type::Enum(Enum::new("Color").item(EnumItem::new("RED"))),
    );
    let plain = Field::output("n", TypeRef::named_nn(TypeRef::INT));
    assert_eq!(plain.value_to_value(&Value::Int32(3), &registry).unwrap().as_int(), Some(3));
    let colored = Field::output("c", TypeRef::named("Color"));
    assert!(colored.value_to_value(&Value::String("RED".to_string()), &registry).is_ok());
    assert!(matches!(
        colored.value_to_value(&Value::String("BLUE".to_string()), &registry),
        Err(SeaographyError::NoEnumValue(_, _))
    ));
    let unknown = Field::output("u", TypeRef::named_list("Nope"));
    assert_eq!(
        custom_message(unknown.value_to_value(&Value::Null, &registry)),
        "Unsupported type for field `Nope`"
    );
}

#[test]
fn object_meta_lists_output_fields_and_interfaces() {
    let registry = interface_registry();
    let object = Object::new("MyObjA")
        .field(Field::output("a", TypeRef::named_nn_list_nn(TypeRef::INT)))
        .implement("MyInterface");
    match object.meta(&registry) {
        ObjectMeta::Object(fields, interfaces) => {
            assert_eq!(fields.len(), 2);
            assert_eq!(fields[0].0.name, "__typename");
            assert_eq!(fields[1].0.name, "a");
            assert_eq!(fields[1].1.get_type_name(), "int");
            assert!(fields[1].1.non_null);
            assert!(fields[1].1.list);
            assert!(fields[1].1.list_non_null);
            assert_eq!(interfaces.len(), 1);
            assert_eq!(interfaces[0].name(), "MyInterface");
        }
        other => panic!("unexpected {:?}", other),
    }
}

#[test]
fn object_meta_is_an_input_object_where_fields_have_no_resolver() {
    let registry = TypeRegistry::new();
    let object = Object::new("MyInput")
        .field(Field::input("x", TypeRef::named(TypeRef::STRING)))
        .field(Field::input("y", TypeRef::named_nn(TypeRef::ID)));
    match object.meta(&registry) {
        ObjectMeta::InputObject(fields) => {
            assert_eq!(fields.len(), 2);
            assert_eq!(fields[0].0.name, "x");
            assert!(!fields[0].1.non_null);
            assert_eq!(fields[1].0.name, "y");
            assert!(fields[1].1.non_null);
            assert_eq!(fields[1].1.get_type_name(), "id");
        }
        other => panic!("unexpected {:?}", other),
    }
}

#[test]
fn object_resolves_its_fields_by_name() {
    let object = Object::new("MyObj").field(Field::output("value", TypeRef::named(TypeRef::INT)));
    assert_eq!(object.resolve_field("value").unwrap().name, "value");
    assert_eq!(
        custom_message(object.resolve_field("nope")),
        "Field `nope` not found on type `MyObj`"
    );
}

#[test]
fn interface_meta_finds_its_implementors() {
    let mut registry = interface_registry();
    let object = Object::new("MyObjA")
        .field(Field::output("a", TypeRef::named_nn(TypeRef::INT)))
        .implement("MyInterface");
    registry.add("MyObjA".to_string(), Type::Object(object));
    registry.add("Other".to_string(), Type::Object(Object::new("Other")));
    let interface = Interface::new("MyInterface")
        .field(InterfaceField::new("a", TypeRef::named_nn(TypeRef::INT)))
        .field(InterfaceField::new("hidden", TypeRef::named(TypeRef::INT)).inaccessible());
    let meta = interface.meta(&registry);
    assert_eq!(meta.implementors.len(), 1);
    assert_eq!(meta.implementors[0].name(), "MyObjA");
    assert_eq!(meta.fields.len(), 1);
    assert_eq!(meta.fields[0].0.name, "a");
    assert!(meta.interfaces.is_empty());
}

#[test]
fn union_meta_lists_its_possible_types() {
    let mut registry = TypeRegistry::new();
    registry.add("A".to_string(), Type::Object(Object::new("A")));
    registry.add("B".to_string(), Type::Object(Object::new("B")));
    let union = Union::new("AB").possible_type("B").possible_type("A");
    let types = union.meta(&registry);
    assert_eq!(types.len(), 2);
    assert_eq!(types[0].name(), "A");
    assert_eq!(types[1].name(), "B");
}

#[test]
fn resolved_lists_keep_their_nesting() {
    let mut registry = TypeRegistry::new();
    registry.add(
        "Color".to_string(),
        Type::Enum(Enum::new("Color").item(EnumItem::new("RED")).item(EnumItem::new("GREEN"))),
    );
    let colors = Field::output("c", TypeRef::named_list("Color"));
    let nested = ResolvedValue::List(vec![
        ResolvedValue::Value(Value::String("RED".to_string())),
        ResolvedValue::List(vec![ResolvedValue::Value(Value::String("GREEN".to_string()))]),
    ]);
    match colors.to_value(&nested, &registry).unwrap() {
        Value::List(items) => {
            assert_eq!(items.len(), 2);
            assert_eq!(items[0].as_string(), Some("RED".to_string()));
            match &items[1] {
                Value::List(inner) => {
                    assert_eq!(inner.len(), 1);
                    assert_eq!(inner[0].as_string(), Some("GREEN".to_string()));
                }
                other => panic!("unexpected {:?}", other),
            }
        }
        other => panic!("unexpected {:?}", other),
    }
}

#[test]
fn resolved_lists_fail_on_their_first_bad_value() {
    let mut registry = TypeRegistry::new();
    registry.add(
        "Color".to_string(),
        Type::Enum(Enum::new("Color").item(EnumItem::new("RED"))),
    );
    let colors = Field::output("c", TypeRef::named_list("Color"));
    let data = ResolvedValue::List(vec![
        ResolvedValue::Value(Value::String("RED".to_string())),
        ResolvedValue::List(vec![ResolvedValue::Value(Value::String("BLUE".to_string()))]),
        ResolvedValue::Value(Value::String("PINK".to_string())),
    ]);
    match colors.to_value(&data, &registry) {
        Err(SeaographyError::NoEnumValue(name, v)) => {
            assert_eq!(name, "Color");
            assert_eq!(v.as_string(), Some("BLUE".to_string()));
        }
        other => panic!("unexpected {:?}", other),
    }
    let numbers = Field::output("n", TypeRef::named_nn(TypeRef::INT));
    let plain = ResolvedValue::Value(Value::Int32(7));
    assert_eq!(numbers.to_value(&plain, &registry).unwrap().as_int(), Some(7));
}

#[test]
fn collected_fields_use_alias_and_default() {
    let registry = TypeRegistry::new();
    let field = Field::output("value", TypeRef::named(TypeRef::INT)).default_value(Value::Int32(9));
    let aliased = SelectionSet::new("value".to_string(), Some("v".to_string()), vec![]);
    let (key, value) = field.collect(&aliased, None, &registry).unwrap();
    assert_eq!(key.as_string(), Some("v".to_string()));
    assert_eq!(value.as_int(), Some(9));
    let plain = SelectionSet::new("value".to_string(), None, vec![]);
    let (key, value) = field
        .collect(&plain, Some(ResolvedValue::Value(Value::Int32(4))), &registry)
        .unwrap();
    assert_eq!(key.as_string(), Some("value".to_string()));
    assert_eq!(value.as_int(), Some(4));
    let bare = Field::output("other", TypeRef::named("Nope"));
    assert!(matches!(bare.collect(&plain, None, &registry), Ok((_, Value::Null))));
    assert_eq!(
        custom_message(bare.collect(&plain, Some(ResolvedValue::Value(Value::Null)), &registry)),
        "Unsupported type for field `Nope`"
    );
}

#[test]
fn bare_values_of_abstract_types_and_objects_of_enums_are_refused() {
    assert_eq!(
        custom_message(Enum::new("MyEnum").collect()),
        "invalid FieldValue for enum `MyEnum`, expected `FieldValue::Value`"
    );
    assert_eq!(
        custom_message(Union::new("MyUnion").collect()),
        "invalid FieldValue for union `MyUnion`, expected `FieldValue::with_type`"
    );
    assert_eq!(
        custom_message(Interface::new("MyInterface").collect()),
        "invalid FieldValue for interface `MyInterface`, expected `FieldValue::with_type`"
    );
}

#[test]
fn enum_errors_have_their_messages() {
    let my_enum = Enum::new("MyEnum").item(EnumItem::new("A")).item(EnumItem::new("B"));
    assert_eq!(my_enum.to_value(&Value::String("A".to_string())).unwrap().as_string(), Some("A".to_string()));
    let err = my_enum.to_value(&Value::String("C".to_string())).unwrap_err();
    assert_eq!(err.message().unwrap(), "[custom] enum `MyEnum` has no value of `String: (\"C\")`");
    let err = my_enum.to_value(&Value::Int32(1)).unwrap_err();
    assert_eq!(err.message().unwrap(), "[custom] enum `MyEnum` has no value of `i32: (1)`");
    let err = my_enum.to_value(&Value::Int64(-42)).unwrap_err();
    assert_eq!(err.message().unwrap(), "[custom] enum `MyEnum` has no value of `i64: (-42)`");
    let err = my_enum.to_value(&Value::Char('x')).unwrap_err();
    assert_eq!(err.message().unwrap(), "[custom] enum `MyEnum` has no value of `char: ('x')`");
    assert!(my_enum.to_value(&Value::Float64(0)).unwrap_err().message().is_none());
    assert_eq!(
        SeaographyError::NotAnEnum(Value::Bool(true)).message().unwrap(),
        "[custom] internal: expected a enum, got Bool(true)"
    );
    assert_eq!(
        SeaographyError::InvalidScalarValue(Value::UInt8(7)).message().unwrap(),
        "[custom] internal: invalid value for scalar \"u8: (7)\""
    );
    assert_eq!(
        SeaographyError::Custom("boom".to_string()).message().unwrap(),
        "[custom] boom"
    );
}

#[test]
fn enum_items_keep_one_entry_per_name() {
    let e = Enum::new("E").items(vec![EnumItem::new("A"), EnumItem::new("B"), EnumItem::new("A")]);
    assert_eq!(e.enum_values.len(), 2);
    assert!(e.enum_values.get("A").is_some());
    assert!(e.enum_values.get("B").is_some());
    assert!(e.enum_values.get("C").is_none());
}

#[test]
fn a_possible_type_is_kept_once() {
    let union = Union::new("MyUnion").possible_type("MyObjA").possible_type("MyObjA");
    assert_eq!(union.possible_types.len(), 1);
    assert!(union.check("MyObjA").is_ok());
}
