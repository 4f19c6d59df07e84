//! The names and shapes of the objects built for database entities: entity
//! objects, enumerations, filter inputs, edges and pagination info.
use vstd::prelude::*;
use crate::context::BuilderContext;
use crate::interface::{field_list, names_distinct, Field, Object, IO};
use crate::naming::{lower_camel_case, to_lower_camel_case, to_upper_camel_case, upper_camel_case};
use crate::schema::{Enum, EnumItem};
use crate::sql_value::variant_value;
use crate::inputs::PaginationInfo;
use crate::text::{concat, owned, str_eq};
use crate::value::{Value, ValueModel};
use crate::type_ref::{list_model, named_model, non_null_model, TypeRef};

verus! {

/// The name of the object of the entity stored in table `table`.
pub open spec fn entity_type_name(table: Seq<char>) -> Seq<char> {
    upper_camel_case(table)
}

/// This builder produces the object of a database entity
#[derive(Debug)]
pub struct EntityObjectBuilder<'a> {
    pub context: &'a BuilderContext,
}

impl<'a> EntityObjectBuilder<'a> {
    /// The name of the object of the entity stored in `table_name`: its
    /// UpperCamelCase form
    pub fn get_type_name(&self, table_name: &str) -> (r: String)
        ensures
            r@ == entity_type_name(table_name@),
    {
        to_upper_camel_case(table_name)
    }

    /// The name of the basic version of the object: the object's name with
    /// the basic suffix
    pub fn basic_type_name(&self, table_name: &str) -> (r: String)
        ensures
            r@ == entity_type_name(table_name@) + self.context.entity_object.basic_type_suffix@,
    {
        let name = to_upper_camel_case(table_name);
        concat(name.as_str(), self.context.entity_object.basic_type_suffix.as_str())
    }

    /// The name of the field of a column: the column's lowerCamelCase form
    pub fn column_name(&self, table_name: &str, column: &str) -> (r: String)
        ensures
            r@ == lower_camel_case(column@),
    {
        to_lower_camel_case(column)
    }
}

/// The name of the enumeration type of a database enumeration.
pub open spec fn enum_type_name(name: Seq<char>) -> Seq<char> {
    upper_camel_case(name) + "Enum"@
}

/// `values` holds under `name` an item of that name with no description,
/// not deprecated and accessible.
pub open spec fn holds_plain_item(values: crate::name_map::NameMap<EnumItem>, name: Seq<char>) -> bool {
    values.spec_get(name) matches Some(item) && item.name@ == name && item.description is None
        && item.deprecation is Current && !item.inaccessible
}

/// This builder converts database enumerations to enumeration types
#[derive(Debug)]
pub struct ActiveEnumBuilder<'a> {
    pub context: &'a BuilderContext,
}

impl<'a> ActiveEnumBuilder<'a> {
    /// The name of the enumeration type: the UpperCamelCase name with the
    /// suffix `Enum`
    pub fn get_type_name(&self, name: &str) -> (r: String)
        ensures
            r@ == enum_type_name(name@),
    {
        let camel = to_upper_camel_case(name);
        concat(camel.as_str(), "Enum")
    }

    /// The name of an item: the variant's UpperCamelCase form in ASCII
    /// upper case
    pub fn variant_name(&self, enum_name: &str, variant: &str) -> (r: String)
        ensures
            r@ == variant_value(variant@),
    {
        let camel = to_upper_camel_case(variant);
        crate::naming::to_ascii_uppercase(camel.as_str())
    }

    /// The enumeration type of a database enumeration with the given
    /// variants: one item per variant, named by `variant_name`
    pub fn enumeration(&self, name: &str, variants: &Vec<String>) -> (r: Enum)
        ensures
            r.name@ == enum_type_name(name@),
            forall|i: int|
                0 <= i < variants@.len() ==> holds_plain_item(
                    r.enum_values,
                    variant_value(#[trigger] variants@[i]@),
                ),
            forall|n: Seq<char>|
                (forall|i: int| 0 <= i < variants@.len() ==> variant_value(variants@[i]@) != n)
                    ==> r.enum_values.spec_get(n) is None,
    {
        let enum_name = self.get_type_name(name);
        let mut e = Enum::new(enum_name.as_str());
        let mut k: usize = 0;
        while k < variants.len()
            invariant
                k <= variants@.len(),
                e.name@ == enum_type_name(name@),
                forall|i: int|
                    0 <= i < k ==> holds_plain_item(
                        e.enum_values,
                        variant_value(#[trigger] variants@[i]@),
                    ),
                forall|n: Seq<char>|
                    (forall|i: int| 0 <= i < k ==> variant_value(variants@[i]@) != n)
                        ==> e.enum_values.spec_get(n) is None,
            decreases variants@.len() - k,
        {
            let item_name = self.variant_name(enum_name.as_str(), variants[k].as_str());
            let item = EnumItem::new(item_name.as_str());
            let ghost before = e.enum_values.spec_entries();
            let ghost it = item;
            let ghost old_e = e;
            e = e.item(item);
            proof {
                assert forall|n: Seq<char>| n != it.name@ implies e.enum_values.spec_get(n)
                    == crate::name_map::entry_get(before, n) by {
                    crate::name_map::lemma_get_after_insert(before, it.name, it, n);
                }
                crate::name_map::lemma_get_after_insert(before, it.name, it, it.name@);
                assert forall|n: Seq<char>|
                    (forall|i: int| 0 <= i < k + 1 ==> variant_value(variants@[i]@) != n)
                        implies e.enum_values.spec_get(n) is None by {
                    assert(variant_value(variants@[k as int]@) != n);
                    assert(forall|i: int| 0 <= i < k ==> variant_value(variants@[i]@) != n);
                    assert(old_e.enum_values.spec_get(n) is None);
                    assert(n != it.name@);
                }
            }
            k = k + 1;
        }
        e
    }
}

/// The name of the filter input object of an object.
pub open spec fn filter_input_name(object_name: Seq<char>) -> Seq<char> {
    object_name + "FilterInput"@
}

/// The fields of a filter input object for columns that are given with
/// the name of their filter input type where they can be filtered: the
/// filterable columns, in order, each with its filter input type.
pub open spec fn column_filters(columns: Seq<(String, Option<String>)>) -> Seq<(Seq<char>, Seq<char>)>
    decreases columns.len(),
{
    if columns.len() == 0 {
        Seq::empty()
    } else {
        let rest = column_filters(columns.drop_last());
        match columns.last().1 {
            Some(t) => rest.push((columns.last().0@, t@)),
            None => rest,
        }
    }
}

/// Every name in `column_filters(columns)` is one of the column names.
pub proof fn lemma_column_filters_names(columns: Seq<(String, Option<String>)>, j: int)
    requires
        0 <= j < column_filters(columns).len(),
    ensures
        exists|i: int| 0 <= i < columns.len() && columns[i].0@ == column_filters(columns)[j].0,
    decreases columns.len(),
{
    let rest = column_filters(columns.drop_last());
    if j < rest.len() {
        lemma_column_filters_names(columns.drop_last(), j);
        let i = choose|i: int|
            0 <= i < columns.drop_last().len() && columns.drop_last()[i].0@ == rest[j].0;
        assert(columns[i] == columns.drop_last()[i]);
    } else {
        assert(columns[columns.len() - 1].0@ == column_filters(columns)[j].0);
    }
}

/// This builder produces the filter input object of an entity
#[derive(Debug)]
pub struct FilterInputBuilder<'a> {
    pub context: &'a BuilderContext,
}

impl<'a> FilterInputBuilder<'a> {
    /// The name of the filter input object of `object_name`: the name with
    /// the suffix `FilterInput`
    pub fn get_type_name(&self, object_name: &str) -> (r: String)
        ensures
            r@ == filter_input_name(object_name@),
    {
        concat(object_name, "FilterInput")
    }

    /// The filter input object of the entity stored in `table_name`: a
    /// field per filterable column, typed by its filter input type, then
    /// the `and` and `or` fields, each a list of the filter input object;
    /// `columns` holds the field name of each column and, where it can be
    /// filtered, the name of its filter input type
    pub fn to_object(&self, table_name: &str, columns: &Vec<(String, Option<String>)>) -> (r: Object)
        requires
            forall|a: int, b: int|
                0 <= a < b < columns@.len() ==> #[trigger] columns@[a].0@
                    != #[trigger] columns@[b].0@,
            forall|i: int|
                0 <= i < columns@.len() ==> (#[trigger] columns@[i]).0@ != "and"@
                    && columns@[i].0@ != "or"@,
        ensures
            r.wf(),
            r.name@ == filter_input_name(entity_type_name(table_name@)),
            r.io == IO::Input,
            field_list(r.fields).len() == column_filters(columns@).len() + 2,
            forall|i: int|
                0 <= i < column_filters(columns@).len() ==> (#[trigger] field_list(r.fields)[i]).name@
                    == column_filters(columns@)[i].0 && field_list(r.fields)[i].ty@ == named_model(
                    column_filters(columns@)[i].1,
                ),
            field_list(r.fields)[column_filters(columns@).len() as int].name@ == "and"@,
            field_list(r.fields)[column_filters(columns@).len() as int].ty@ == list_model(
                non_null_model(named_model(filter_input_name(entity_type_name(table_name@)))),
            ),
            field_list(r.fields)[column_filters(columns@).len() + 1int].name@ == "or"@,
            field_list(r.fields)[column_filters(columns@).len() + 1int].ty@ == list_model(
                non_null_model(named_model(filter_input_name(entity_type_name(table_name@)))),
            ),
            forall|i: int| 0 <= i < field_list(r.fields).len() ==> !(#[trigger] field_list(r.fields)[i]).has_resolver,
    {
        let entity = to_upper_camel_case(table_name);
        let filter_name = self.get_type_name(entity.as_str());
        let mut object = Object::new(filter_name.as_str(), IO::Input);
        let mut k: usize = 0;
        proof {
            assert(columns@.take(0) =~= Seq::<(String, Option<String>)>::empty());
        }
        while k < columns.len()
            invariant
                k <= columns@.len(),
                object.name@ == filter_name@,
                object.io == IO::Input,
                forall|a: int, b: int|
                    0 <= a < b < columns@.len() ==> #[trigger] columns@[a].0@
                        != #[trigger] columns@[b].0@,
                forall|i: int|
                    0 <= i < columns@.len() ==> (#[trigger] columns@[i]).0@ != "and"@
                        && columns@[i].0@ != "or"@,
                object.wf(),
                field_list(object.fields).len() == column_filters(columns@.take(k as int)).len(),
                forall|i: int|
                    0 <= i < field_list(object.fields).len() ==> (#[trigger] field_list(object.fields)[i]).name@
                        == column_filters(columns@.take(k as int))[i].0 && field_list(object.fields)[i].ty@
                        == named_model(column_filters(columns@.take(k as int))[i].1)
                        && !field_list(object.fields)[i].has_resolver,
            decreases columns@.len() - k,
        {
            let ghost prefix = columns@.take(k as int);
            let ghost next = columns@.take(k + 1);
            proof {
                assert(next.drop_last() =~= prefix);
                assert(next.last() == columns@[k as int]);
            }
            match &columns[k].1 {
                Some(t) => {
                    let field = Field::input(columns[k].0.as_str(), TypeRef::named(t.as_str()));
                    proof {
                        assert forall|j: int| 0 <= j < field_list(object.fields).len() implies field_list(object.fields)[j].name@
                            != field.name@ by {
                            lemma_column_filters_names(prefix, j);
                            let i = choose|i: int|
                                0 <= i < prefix.len() && prefix[i].0@ == column_filters(prefix)[j].0;
                            assert(prefix[i] == columns@[i]);
                        }
                    }
                    object = object.field(field);
                },
                None => {},
            }
            k = k + 1;
        }
        proof {
            assert(columns@.take(k as int) =~= columns@);
            assert forall|j: int| 0 <= j < field_list(object.fields).len() implies field_list(object.fields)[j].name@
                != "and"@ && field_list(object.fields)[j].name@ != "or"@ by {
                lemma_column_filters_names(columns@, j);
            }
        }
        let and_field = Field::input("and", TypeRef::named_nn_list(filter_name.as_str()));
        let ghost columns_fields = field_list(object.fields);
        object = object.field(and_field);
        proof {
            reveal_strlit("and");
            reveal_strlit("or");
            assert("and"@ != "or"@) by {
                assert("and"@.len() != "or"@.len());
            }
            assert forall|j: int| 0 <= j < field_list(object.fields).len() implies field_list(object.fields)[j].name@
                != "or"@ by {
                if j < columns_fields.len() {
                    assert(field_list(object.fields)[j] == columns_fields[j]);
                    assert(columns_fields[j].name@ != "or"@);
                } else {
                    assert(field_list(object.fields)[j] == and_field);
                }
            }
        }
        let or_field = Field::input("or", TypeRef::named_nn_list(filter_name.as_str()));
        object = object.field(or_field);
        object
    }
}

/// The name of the edge object of an object.
pub open spec fn edge_name(object_name: Seq<char>) -> Seq<char> {
    object_name + "Edge"@
}

/// This builder produces the edge object of an entity
#[derive(Debug)]
pub struct EdgeObjectBuilder<'a> {
    pub context: &'a BuilderContext,
}

impl<'a> EdgeObjectBuilder<'a> {
    /// The name of the edge object of `object_name`: the name with the
    /// suffix `Edge`
    pub fn get_type_name(&self, object_name: &str) -> (r: String)
        ensures
            r@ == edge_name(object_name@),
    {
        concat(object_name, "Edge")
    }

    /// The edge object of the entity stored in `table_name`: a non-null
    /// string cursor field and a non-null node field of the entity's object,
    /// both resolved from the edge
    pub fn to_object(&self, table_name: &str) -> (r: Object)
        requires
            self.context.edge_object.cursor@ != self.context.edge_object.node@,
        ensures
            r.wf(),
            r.name@ == edge_name(entity_type_name(table_name@)),
            r.io == IO::Output,
            field_list(r.fields).len() == 2,
            field_list(r.fields)[0].name@ == self.context.edge_object.cursor@,
            field_list(r.fields)[0].ty@ == non_null_model(named_model(TypeRef::STRING@)),
            field_list(r.fields)[0].has_resolver,
            field_list(r.fields)[1].name@ == self.context.edge_object.node@,
            field_list(r.fields)[1].ty@ == non_null_model(named_model(entity_type_name(table_name@))),
            field_list(r.fields)[1].has_resolver,
    {
        let object_name = to_upper_camel_case(table_name);
        let name = self.get_type_name(object_name.as_str());
        let config = &self.context.edge_object;
        Object::new(name.as_str(), IO::Output).field(
            Field::output(config.cursor.as_str(), TypeRef::named_nn(TypeRef::STRING)),
        ).field(Field::output(config.node.as_str(), TypeRef::named_nn(object_name.as_str())))
    }
}

/// This builder produces the pagination info object
#[derive(Debug)]
pub struct PaginationInfoObjectBuilder<'a> {
    pub context: &'a BuilderContext,
}

impl<'a> PaginationInfoObjectBuilder<'a> {
    /// used to get type name
    pub fn get_type_name(&self) -> (r: String)
        ensures
            r@ == self.context.pagination_info_object.name@,
    {
        self.context.pagination_info_object.name.clone()
    }

    /// The pagination info object: non-null integer fields `pages`,
    /// `current`, `offset` and `total`, in order, resolved from the info
    pub fn to_object(&self) -> (r: Object)
        requires
            names_of_four_distinct(
                self.context.pagination_info_object.pages@,
                self.context.pagination_info_object.current@,
                self.context.pagination_info_object.offset@,
                self.context.pagination_info_object.total@,
            ),
        ensures
            r.wf(),
            r.name@ == self.context.pagination_info_object.name@,
            r.io == IO::Output,
            field_list(r.fields).len() == 4,
            field_list(r.fields)[0].name@ == self.context.pagination_info_object.pages@,
            field_list(r.fields)[1].name@ == self.context.pagination_info_object.current@,
            field_list(r.fields)[2].name@ == self.context.pagination_info_object.offset@,
            field_list(r.fields)[3].name@ == self.context.pagination_info_object.total@,
            forall|i: int|
                0 <= i < 4 ==> (#[trigger] field_list(r.fields)[i]).ty@ == non_null_model(
                    named_model(TypeRef::INT@),
                ) && field_list(r.fields)[i].has_resolver,
    {
        let config = &self.context.pagination_info_object;
        Object::new(config.name.as_str(), IO::Output).field(
            Field::output(config.pages.as_str(), TypeRef::named_nn(TypeRef::INT)),
        ).field(Field::output(config.current.as_str(), TypeRef::named_nn(TypeRef::INT))).field(
            Field::output(config.offset.as_str(), TypeRef::named_nn(TypeRef::INT)),
        ).field(Field::output(config.total.as_str(), TypeRef::named_nn(TypeRef::INT)))
    }

    /// What a field of the pagination info object resolves to on `info`:
    /// the count the field is named for, as an unsigned integer, the
    /// fields taken in the order `pages`, `current`, `offset`, `total`;
    /// `None` for a name that is none of them.
    pub fn field_value(&self, info: &PaginationInfo, field_name: &str) -> (r: Option<Value>)
        ensures
            r matches Some(v) ==> Some(v@) == pagination_value(
                self.context.pagination_info_object.pages@,
                self.context.pagination_info_object.current@,
                self.context.pagination_info_object.offset@,
                self.context.pagination_info_object.total@,
                *info,
                field_name@,
            ),
            r is None ==> pagination_value(
                self.context.pagination_info_object.pages@,
                self.context.pagination_info_object.current@,
                self.context.pagination_info_object.offset@,
                self.context.pagination_info_object.total@,
                *info,
                field_name@,
            ) is None,
    {
        let config = &self.context.pagination_info_object;
        if str_eq(field_name, config.pages.as_str()) {
            Some(Value::UInt64(info.pages))
        } else if str_eq(field_name, config.current.as_str()) {
            Some(Value::UInt64(info.current))
        } else if str_eq(field_name, config.offset.as_str()) {
            Some(Value::UInt64(info.offset))
        } else if str_eq(field_name, config.total.as_str()) {
            Some(Value::UInt64(info.total))
        } else {
            None
        }
    }
}

/// The value that the field `name` of a pagination info object has on
/// `info`, the fields being named `pages`, `current`, `offset` and `total`
/// and looked up in that order.
pub open spec fn pagination_value(
    pages: Seq<char>,
    current: Seq<char>,
    offset: Seq<char>,
    total: Seq<char>,
    info: PaginationInfo,
    name: Seq<char>,
) -> Option<ValueModel> {
    if name == pages {
        Some(ValueModel::UInt64(info.pages))
    } else if name == current {
        Some(ValueModel::UInt64(info.current))
    } else if name == offset {
        Some(ValueModel::UInt64(info.offset))
    } else if name == total {
        Some(ValueModel::UInt64(info.total))
    } else {
        None
    }
}

/// Four names, no two of them equal.
pub open spec fn names_of_four_distinct(a: Seq<char>, b: Seq<char>, c: Seq<char>, d: Seq<char>) -> bool {
    a != b && a != c && a != d && b != c && b != d && c != d
}

} // verus!
