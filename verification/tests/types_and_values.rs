use dynamic::accessor::{ListAccessor, ObjectAccessor, ValueAccessor};
use dynamic::error::SeaographyError;
use dynamic::meta::{MetaBase, MetaWrapping, TypeRefToMeta};
use dynamic::name_map::NameMap;
use dynamic::type_ref::TypeRef;
use dynamic::value::Value;

fn custom_message(e: &SeaographyError) -> String {
    match e {
        SeaographyError::Custom(m) => m.clone(),
        other => panic!("not a custom error: {:?}", other),
    }
}

#[test]
fn type_ref_notations() {
    assert_eq!(TypeRef::named("Foo").to_string(), "Foo");
    assert_eq!(TypeRef::named_nn("Foo").to_string(), "Foo!");
    assert_eq!(TypeRef::named_list("Foo").to_string(), "[Foo]");
    assert_eq!(TypeRef::named_nn_list("Foo").to_string(), "[Foo!]");
    assert_eq!(TypeRef::named_list_nn("Foo").to_string(), "[Foo]!");
    assert_eq!(TypeRef::named_nn_list_nn("Foo").to_string(), "[Foo!]!");
    assert_eq!(TypeRef::non_null(Box::new(TypeRef::named_list("Bar"))).to_string(), "[Bar]!");
}

#[test]
fn type_ref_name_and_nullability() {
    assert_eq!(TypeRef::named_nn_list_nn("Foo").get_type_name(), "Foo");
    assert!(TypeRef::named("Foo").is_nullable());
    assert!(TypeRef::named_list("Foo").is_nullable());
    assert!(!TypeRef::named_nn("Foo").is_nullable());
    assert!(!TypeRef::named_list_nn("Foo").is_nullable());
}

#[test]
fn type_ref_subtypes() {
    let nullable = TypeRef::named("Foo");
    let non_null = TypeRef::named_nn("Foo");
    // a non-null type may stand where the nullable one is expected
    assert!(nullable.is_subtype(&non_null));
    assert!(!non_null.is_subtype(&nullable));
    // every type stands for itself
    assert!(non_null.is_subtype(&TypeRef::named_nn("Foo")));
    // lists accept lists of subtypes
    assert!(TypeRef::named_list("Foo").is_subtype(&TypeRef::named_nn_list_nn("Foo")));
    assert!(!TypeRef::named_list("Foo").is_subtype(&TypeRef::named("Foo")));
    assert!(!TypeRef::named("Foo").is_subtype(&TypeRef::named("Bar")));
}

#[test]
fn type_ref_scalar_names() {
    assert_eq!(TypeRef::INT, "int");
    assert_eq!(TypeRef::FLOAT, "float");
    assert_eq!(TypeRef::STRING, "string");
    assert_eq!(TypeRef::BOOLEAN, "boolean");
    assert_eq!(TypeRef::ID, "id");
}

#[test]
fn value_kinds() {
    assert_eq!(Value::Int8(1).get_type_name(), "i8");
    assert_eq!(Value::UInt64(1).get_type_name(), "u64");
    assert_eq!(Value::Null.get_type_name(), "null");
    assert!(Value::List(vec![]).is_repeated());
    assert!(!Value::Bool(true).is_repeated());
}

#[test]
fn value_conversions() {
    assert_eq!(Value::Int32(7).as_int(), Some(7));
    assert_eq!(Value::Int8(-3).as_int(), Some(-3));
    assert_eq!(Value::Int64(1 << 40).as_int(), None);
    assert_eq!(Value::String("x".to_string()).as_string(), Some("x".to_string()));
    assert_eq!(Value::Char('c').as_string(), Some("c".to_string()));
    assert_eq!(Value::Char('c').into_string(), Some("c".to_string()));
    assert_eq!(Value::Bool(true).as_bool(), Some(true));
    assert_eq!(Value::Null.as_str(), None);
}

#[test]
fn value_accessor_typed_reads() {
    let v = Value::UInt64(42);
    assert_eq!(ValueAccessor(&v).uint64().unwrap(), 42);
    let err = ValueAccessor(&v).int32().unwrap_err();
    assert_eq!(custom_message(&err), "internal: not a i32");
    let s = Value::String("hello".to_string());
    assert_eq!(ValueAccessor(&s).string().unwrap(), "hello");
    assert_eq!(custom_message(&ValueAccessor(&v).string().unwrap_err()), "internal: not a String");
    assert!(ValueAccessor(&Value::Null).is_null());
}

#[test]
fn value_accessor_enum_name() {
    let obj = Value::Object(vec![
        (Value::String("a".to_string()), Value::Int32(1)),
        (Value::String("b".to_string()), Value::String("RED".to_string())),
    ]);
    assert_eq!(ValueAccessor(&obj).enum_name().unwrap(), "RED");
    let none = Value::Object(vec![(Value::String("a".to_string()), Value::Int32(1))]);
    assert_eq!(
        custom_message(&ValueAccessor(&none).enum_name().unwrap_err()),
        "internal: enum name not a string"
    );
    match ValueAccessor(&Value::Int32(3)).enum_name() {
        Err(SeaographyError::NotAnEnum(v)) => assert_eq!(v.as_int(), Some(3)),
        other => panic!("unexpected {:?}", other),
    }
}

#[test]
fn object_accessor_read_after_write() {
    let mut obj = ObjectAccessor::from_entries(vec![]);
    assert!(obj.is_empty());
    obj.insert(Value::String("limit".to_string()), Value::UInt64(10));
    obj.insert(Value::String("page".to_string()), Value::UInt64(2));
    obj.insert(Value::String("limit".to_string()), Value::UInt64(20));
    assert_eq!(obj.len(), 2);
    assert_eq!(obj.get("limit").unwrap().uint64().unwrap(), 20);
    assert_eq!(obj.get("page").unwrap().uint64().unwrap(), 2);
    assert!(obj.get("cursor").is_none());
    assert_eq!(custom_message(&obj.try_get("cursor").unwrap_err()), "internal: key not found");
}

#[test]
fn list_accessor_indexing() {
    let items = vec![Value::Int32(1), Value::Int32(2), Value::Int32(3)];
    let list = ListAccessor(&items);
    assert_eq!(list.len(), 3);
    assert_eq!(list.get(1).unwrap().int32().unwrap(), 2);
    assert!(list.get(3).is_none());
    assert_eq!(custom_message(&list.try_get(5).unwrap_err()), "internal: index \"5\" not found");
    let slice = list.as_slice(1, 3).unwrap();
    assert_eq!(slice.len(), 2);
    assert_eq!(slice.get(0).unwrap().int32().unwrap(), 2);
    assert_eq!(
        custom_message(&list.as_slice(2, 1).unwrap_err()),
        "internal: invalid slice indices"
    );
}

#[test]
fn name_map_keeps_names_sorted_and_unique() {
    let mut map: NameMap<i32> = NameMap::new();
    map.insert("b".to_string(), 1);
    map.insert("a".to_string(), 2);
    map.insert("c".to_string(), 3);
    map.insert("b".to_string(), 4);
    assert_eq!(map.len(), 3);
    let keys: Vec<&str> = map.entries().iter().map(|(k, _)| k.as_str()).collect();
    assert_eq!(keys, vec!["a", "b", "c"]);
    assert_eq!(map.get("b"), Some(&4));
    assert!(map.contains_key("c"));
    assert!(!map.contains_key("d"));
}

fn wrapping_of(t: &TypeRef) -> MetaWrapping {
    let mut meta = TypeRefToMeta::new("field");
    meta.from_type_ref(t);
    meta.wrapping()
}

#[test]
fn recorded_wrappings_of_constructors() {
    assert_eq!(wrapping_of(&TypeRef::named("T")), MetaWrapping::Optional);
    assert_eq!(wrapping_of(&TypeRef::named_nn("T")), MetaWrapping::Required);
    assert_eq!(wrapping_of(&TypeRef::named_list("T")), MetaWrapping::OptionalListOfOptional);
    assert_eq!(wrapping_of(&TypeRef::named_nn_list("T")), MetaWrapping::OptionalListOfRequired);
    assert_eq!(wrapping_of(&TypeRef::named_list_nn("T")), MetaWrapping::RequiredListOfOptional);
    assert_eq!(wrapping_of(&TypeRef::named_nn_list_nn("T")), MetaWrapping::RequiredListOfRequired);
}

#[test]
fn recorded_base_types() {
    let mut meta = TypeRefToMeta::new("field");
    meta.from_type_ref(&TypeRef::named_nn_list(TypeRef::INT));
    assert_eq!(meta.base(), MetaBase::Int);
    assert_eq!(meta.get_type_name(), "int");
    let mut meta = TypeRefToMeta::new("field");
    meta.from_type_ref(&TypeRef::named("Cake"));
    assert_eq!(meta.base(), MetaBase::Registered("Cake".to_string()));
}

#[test]
fn input_and_output_descriptions_look_up_registered_types() {
    let mut registry = dynamic::registry::TypeRegistry::new();
    registry.add(
        "Url".to_string(),
        dynamic::registry::Type::Scalar(dynamic::registry::Scalar::new("Url")),
    );
    let mut meta = TypeRefToMeta::new("link");
    meta.from_type_ref(&TypeRef::named_nn("Url"));
    let (wrapping, base, ty) = meta.to_input_meta(&registry);
    assert_eq!(wrapping, MetaWrapping::Required);
    assert_eq!(base, MetaBase::Registered("Url".to_string()));
    assert_eq!(ty.unwrap().name(), "Url");
    let mut count = TypeRefToMeta::new("count");
    count.from_type_ref(&TypeRef::named_list(TypeRef::INT));
    let (wrapping, base, ty) = count.to_ouput_meta(&registry);
    assert_eq!(wrapping, MetaWrapping::OptionalListOfOptional);
    assert_eq!(base, MetaBase::Int);
    assert!(ty.is_none());
}

#[test]
fn object_keys_of_any_kind_compare_as_keys() {
    let mut obj = ObjectAccessor::from_entries(vec![]);
    obj.insert(Value::Int32(1), Value::Bool(true));
    obj.insert(Value::Int32(1), Value::Bool(false));
    assert_eq!(obj.len(), 1);
    // Both zeros are one key, and every NaN is one key.
    obj.insert(Value::Float64(0f64.to_bits()), Value::Int32(1));
    obj.insert(Value::Float64((-0f64).to_bits()), Value::Int32(2));
    assert_eq!(obj.len(), 2);
    obj.insert(Value::Float32(f32::NAN.to_bits()), Value::Int32(3));
    obj.insert(Value::Float32(0x7fc0_0001), Value::Int32(4));
    assert_eq!(obj.len(), 3);
    obj.insert(Value::List(vec![Value::Int8(1)]), Value::Null);
    obj.insert(Value::List(vec![Value::Int8(1)]), Value::Int8(5));
    assert_eq!(obj.len(), 4);
    assert!(dynamic::value::same_key_value(&Value::Float64(0f64.to_bits()), &Value::Float64((-0f64).to_bits())));
    assert!(!dynamic::value::same_key_value(&Value::Int32(1), &Value::Int64(1)));
}
