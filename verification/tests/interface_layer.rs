use dynamic::accessor::ValueAccessor;
use dynamic::builder::Schema;
use dynamic::interface::{DynamicBuilder, Type as BothType};
use dynamic::error::SeaographyError;
use dynamic::interface::{
    EnumItemTrait, EnumItems, EnumTrait, Error, ErrorTrait, Field, GraphQLError, Object, ProtoError,
    TypeRef as BothTypeRef, TypeRefTrait, ValueAccessors, IO,
};
use dynamic::registry::Type;
use dynamic::schema::{Enum, EnumItem};
use dynamic::type_ref::TypeRef;
use dynamic::value::Value;

#[test]
fn errors_keep_their_message() {
    assert_eq!(Error::new("inherent").message, "inherent");
    let e = <Error as ErrorTrait>::new("boom");
    assert_eq!(e.message, "boom");
    let g: GraphQLError = <Error as ErrorTrait>::new("boom").to_graphql();
    assert_eq!(g.message, "boom");
    let p: ProtoError = <Error as ErrorTrait>::new("boom").to_proto();
    assert_eq!(p.message, "boom");
}

#[test]
fn type_ref_trait_on_graphql_type_refs() {
    let t = <TypeRef as TypeRefTrait>::named_nn_list_nn("Foo");
    assert_eq!(t.to_string(), "[Foo!]!");
    assert_eq!(TypeRefTrait::get_type_name(&t), "Foo");
    assert_eq!(<TypeRef as TypeRefTrait>::UINT64, "int");
    assert_eq!(<TypeRef as TypeRefTrait>::DOUBLE, "float");
    assert_eq!(<TypeRef as TypeRefTrait>::BYTES, "string");
    assert_eq!(<TypeRef as TypeRefTrait>::BOOL, "boolean");
}

#[test]
fn enum_trait_on_graphql_enums() {
    let e = <Enum as EnumTrait>::new("Color");
    let e = EnumTrait::item(e, <EnumItem as EnumItemTrait>::new("RED"));
    assert_eq!(EnumTrait::get_type_name(&e), "Color");
    assert!(e.enum_values.contains_key("RED"));
}

#[test]
fn both_sides_are_kept() {
    let t = BothTypeRef::new(TypeRef::named("Foo"), 7u8);
    assert_eq!(t.to_graphql().to_string(), "Foo");
    let t = BothTypeRef::new(TypeRef::named("Foo"), 7u8);
    assert_eq!(t.to_proto(), 7);
    let items = EnumItems::new(EnumItem::new("A"), "a");
    assert_eq!(items.graphql.name, "A");
    assert_eq!(items.proto, "a");
}

#[test]
fn accessors_read_the_same_through_either_api() {
    let v = Value::Object(vec![(Value::String("n".to_string()), Value::UInt64(3))]);
    for accessor in [ValueAccessors::graphql(ValueAccessor(&v)), ValueAccessors::proto(ValueAccessor(&v))] {
        let obj = accessor.object().unwrap();
        assert_eq!(obj.len(), 1);
        assert_eq!(obj.get("n").unwrap().u64().unwrap(), 3);
        match accessor.boolean() {
            Err(SeaographyError::Custom(m)) => assert_eq!(m, "internal: not a bool"),
            other => panic!("unexpected {:?}", other),
        }
    }
    let l = Value::List(vec![Value::Int32(1), Value::Int32(2)]);
    let list = ValueAccessors::proto(ValueAccessor(&l)).list().unwrap();
    assert_eq!(list.len(), 2);
    assert_eq!(list.get(1).unwrap().i32().unwrap(), 2);
    assert_eq!(list.as_slice(1, 2).unwrap().len(), 1);
}

#[test]
fn object_becomes_graphql_type() {
    let object = Object::new("Cake", IO::Output)
        .field(Field::output("name", TypeRef::named_nn(TypeRef::STRING)).argument(Field::input("upper", TypeRef::named(TypeRef::BOOLEAN))))
        .field(Field::output("id", TypeRef::named_nn(TypeRef::INT)));
    assert_eq!(object.field_len(), 2);
    match object.to_type() {
        Type::Object(o) => {
            assert_eq!(o.name, "Cake");
            let name = o.fields.get("name").unwrap();
            assert!(name.has_resolver);
            assert_eq!(name.arguments.get("upper").unwrap().ty.to_string(), "boolean");
            assert!(o.fields.get("id").is_some());
            assert_eq!(o.fields.get("Cake").unwrap().name, "__typename");
        }
        other => panic!("unexpected {:?}", other),
    }
}

#[test]
fn input_object_drops_arguments() {
    let object = Object::new("CakeInput", IO::Input)
        .field(Field::input("name", TypeRef::named(TypeRef::STRING)).argument(Field::input("x", TypeRef::named("y"))));
    match object.to_type() {
        Type::Object(o) => {
            let f = o.fields.get("name").unwrap();
            assert!(!f.has_resolver);
            assert_eq!(f.arguments.len(), 0);
        }
        other => panic!("unexpected {:?}", other),
    }
}

#[test]
fn dynamic_builder_registers_each_type() {
    let query = Object::new("Query", IO::Output).field(Field::output("ping", TypeRef::named(TypeRef::STRING)));
    let color = Enum::new("Color").item(EnumItem::new("RED"));
    let builder = DynamicBuilder::new(Schema::build("Query", None, None))
        .register(BothType::Object(query))
        .register(BothType::Enum(color));
    assert_eq!(builder.types.len(), 2);
    let schema_builder = builder.to_graphql();
    match schema_builder.registry.get("Query") {
        Some(Type::Object(o)) => assert!(o.fields.get("ping").unwrap().has_resolver),
        other => panic!("unexpected {:?}", other),
    }
    assert!(matches!(schema_builder.registry.get("Color"), Some(Type::Enum(_))));
    assert!(schema_builder.registry.get("Other").is_none());
}

#[test]
fn enum_trait_items_keep_the_last_of_each_name() {
    let e = <Enum as EnumTrait>::new("Size");
    let e = EnumTrait::items(
        e,
        vec![EnumItem::new("S"), EnumItem::new("M"), EnumItem::new("S").description("small")],
    );
    assert_eq!(e.enum_values.len(), 2);
    assert_eq!(e.enum_values.get("S").unwrap().description.as_deref(), Some("small"));
}

#[test]
fn object_and_list_accessors_iterate_in_order() {
    let v = Value::Object(vec![
        (Value::String("a".to_string()), Value::Int32(1)),
        (Value::String("b".to_string()), Value::Int32(2)),
    ]);
    let obj = ValueAccessors::graphql(ValueAccessor(&v)).object().unwrap();
    let keys: Vec<String> = obj.keys().iter().map(|k| k.as_string().unwrap()).collect();
    assert_eq!(keys, vec!["a".to_string(), "b".to_string()]);
    let values: Vec<i32> = obj.values().iter().map(|a| a.i32().unwrap()).collect();
    assert_eq!(values, vec![1, 2]);
    let pairs = obj.to_iter();
    assert_eq!(pairs[1].1.i32().unwrap(), 2);
    let l = Value::List(vec![Value::Bool(true), Value::Bool(false)]);
    let list = ValueAccessors::proto(ValueAccessor(&l)).list().unwrap();
    let items: Vec<bool> = list.to_iter().iter().map(|a| a.boolean().unwrap()).collect();
    assert_eq!(items, vec![true, false]);
    let both = dynamic::interface::Value::graphql(Value::Int32(1));
    assert!(matches!(both.proto, Value::Null));
}
