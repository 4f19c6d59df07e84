//! The decisions of the entity mutations and relation fields: guards,
//! required arguments, the values written to a new row, and the shapes of
//! the fields.
use vstd::prelude::*;
use crate::accessor::{lookup, ListAccessor, ObjectAccessor};
use crate::context::BuilderContext;
use crate::error::{is_custom, SeaResult, SeaographyError};
use crate::inputs::{missing_argument, required_argument_error};
use crate::interface::{argument_of, Field};
use crate::name_map::{entry_get, NameMap};
use crate::outputs::{entity_type_name, filter_input_name};
use crate::text::{concat, format1, str_eq};
use crate::type_ref::{list_model, named_model, non_null_model, TypeRef, TypeRefModel};
use crate::value::{views, Value, ValueModel};

verus! {

/// What a guard decides for a request: let it through, or block it with an
/// optional reason.
#[derive(Debug)]
pub enum GuardAction {
    Allow,
    Block(Option<String>),
}

/// The message of a blocked entity guard that gives no reason.
pub const ENTITY_GUARD_MESSAGE: &'static str = "Entity guard triggered.";

/// The message of a blocked GraphQL field guard that gives no reason.
pub const GRAPHQL_FIELD_GUARD_MESSAGE: &'static str = "GraphQLField guard triggered.";

/// The message of a blocked Protobuf field guard that gives no reason.
pub const PROTO_FIELD_GUARD_MESSAGE: &'static str = "ProtoField guard triggered.";

/// The outcome of a guard's decision: success where it allows, else the
/// error with its reason, or with `default_message` where it gives none.
pub open spec fn guard_outcome(action: GuardAction, default_message: Seq<char>, r: SeaResult<()>) -> bool {
    match action {
        GuardAction::Allow => r is Ok,
        GuardAction::Block(Some(reason)) => r matches Err(e) && is_custom(e, reason@),
        GuardAction::Block(None) => r matches Err(e) && is_custom(e, default_message),
    }
}

/// Applies a guard's decision.
pub fn guard_result(action: &GuardAction, default_message: &str) -> (r: SeaResult<()>)
    ensures
        guard_outcome(*action, default_message@, r),
{
    match action {
        GuardAction::Allow => Ok(()),
        GuardAction::Block(Some(reason)) => Err(SeaographyError::new(reason.clone())),
        GuardAction::Block(None) => Err(SeaographyError::from_str(default_message)),
    }
}

/// The position of the first guard that blocks.
pub open spec fn first_block(actions: Seq<GuardAction>) -> Option<int>
    decreases actions.len(),
{
    if actions.len() == 0 {
        None
    } else {
        match first_block(actions.drop_last()) {
            Some(i) => Some(i),
            None => if actions.last() is Block {
                Some(actions.len() - 1)
            } else {
                None
            },
        }
    }
}

/// Applies the decisions of the field guards of the columns of an input,
/// in order: the first that blocks gives the error.
pub fn check_field_guards(actions: &Vec<GuardAction>, default_message: &str) -> (r: SeaResult<()>)
    ensures
        match first_block(actions@) {
            Some(i) => guard_outcome(actions@[i], default_message@, r),
            None => r is Ok,
        },
{
    let mut i: usize = 0;
    while i < actions.len()
        invariant
            i <= actions@.len(),
            first_block(actions@.take(i as int)) is None,
        decreases actions@.len() - i,
    {
        proof {
            assert(actions@.take(i + 1).drop_last() =~= actions@.take(i as int));
        }
        match &actions[i] {
            GuardAction::Allow => {},
            GuardAction::Block(_) => {
                proof {
                    lemma_first_block_prefix(actions@, i as int + 1);
                }
                return guard_result(&actions[i], default_message);
            },
        }
        i = i + 1;
    }
    proof {
        assert(actions@.take(i as int) =~= actions@);
    }
    Ok(())
}

/// A block found in a prefix is the first block of the whole sequence.
pub proof fn lemma_first_block_prefix(actions: Seq<GuardAction>, n: int)
    requires
        0 <= n <= actions.len(),
        first_block(actions.take(n)) is Some,
    ensures
        first_block(actions) == first_block(actions.take(n)),
    decreases actions.len() - n,
{
    if n < actions.len() {
        assert(actions.take(n + 1).drop_last() =~= actions.take(n));
        lemma_first_block_prefix(actions, n + 1);
    } else {
        assert(actions.take(n) =~= actions);
    }
}

/// The key under which the guard of a field of an object is registered:
/// `object.field`.
pub fn field_guard_key(object_name: &str, field_name: &str) -> (r: String)
    ensures
        r@ == object_name@ + "."@ + field_name@,
{
    format1(object_name, ".", field_name)
}

/// The object given as the `data_field` argument: an error where it is
/// missing or not an object.
pub fn data_argument<'b>(args: &'b ObjectAccessor<'b>, data_field: &str) -> (r: SeaResult<
    ObjectAccessor<'b>,
>)
    ensures
        match lookup(args.entries(), data_field@) {
            None => r matches Err(e) && is_custom(e, missing_argument(data_field@)),
            Some(ValueModel::Object(entries)) => r matches Ok(o) && o.entries() == entries,
            Some(_) => r matches Err(e) && is_custom(e, "internal: not an object"@),
        },
{
    match args.get(data_field) {
        Some(v) => v.object(),
        None => Err(required_argument_error(data_field)),
    }
}

/// The list given as the `data_field` argument of a batch: an error where
/// it is missing or not a list.
pub fn batch_data_argument<'b>(args: &'b ObjectAccessor<'b>, data_field: &str) -> (r: SeaResult<
    ListAccessor<'b>,
>)
    ensures
        match lookup(args.entries(), data_field@) {
            None => r matches Err(e) && is_custom(e, missing_argument(data_field@)),
            Some(ValueModel::List(items)) => r matches Ok(l) && views(l.0@) == items,
            Some(_) => r matches Err(e) && is_custom(e, "internal: not a list"@),
        },
{
    match args.get(data_field) {
        Some(v) => v.list(),
        None => Err(required_argument_error(data_field)),
    }
}

/// Whether `name` is the field name of a column picked by `picks`.
pub open spec fn picked(picks: Seq<(usize, ValueModel)>, columns: Seq<(String, bool)>, name: Seq<char>) -> bool {
    exists|j: int| 0 <= j < picks.len() && columns[picks[j].0 as int].0@ == name
}

/// The values written to a new row, column by column in order: a column
/// whose key is generated is skipped, and a column takes the value given
/// under its field name, each given value being taken once.
pub open spec fn active_values(columns: Seq<(String, bool)>, data: Seq<(String, Value)>) -> Seq<
    (usize, ValueModel),
>
    decreases columns.len(),
{
    if columns.len() == 0 {
        Seq::empty()
    } else {
        let picks = active_values(columns.drop_last(), data);
        let k = columns.len() - 1;
        let (name, auto_increment) = columns.last();
        if auto_increment {
            picks
        } else {
            match entry_get(data, name@) {
                Some(v) => if picked(picks, columns.drop_last(), name@) {
                    picks
                } else {
                    picks.push((k as usize, v@))
                },
                None => picks,
            }
        }
    }
}

/// The picks name columns of `columns`.
pub proof fn lemma_active_values_bounds(columns: Seq<(String, bool)>, data: Seq<(String, Value)>)
    requires
        columns.len() <= usize::MAX,
    ensures
        forall|j: int|
            0 <= j < active_values(columns, data).len() ==> (#[trigger] active_values(
                columns,
                data,
            )[j]).0 < columns.len(),
    decreases columns.len(),
{
    if columns.len() > 0 {
        lemma_active_values_bounds(columns.drop_last(), data);
        let k = columns.len() - 1;
        assert((k as usize) as int == k);
        let picks = active_values(columns.drop_last(), data);
        let r = active_values(columns, data);
        assert(r == picks || r == picks.push((k as usize, r.last().1)));
        assert forall|j: int| 0 <= j < r.len() implies (#[trigger] r[j]).0 < columns.len() by {
            if j < picks.len() {
                assert(r[j] == picks[j]);
            }
        }
    }
}

/// Every value written to a new row is the value that the data gives
/// under the field name of its column, and that column's key is not
/// generated; columns are picked in order.
pub proof fn lemma_written_values_come_from_the_data(columns: Seq<(String, bool)>, data: Seq<(String, Value)>)
    requires
        columns.len() <= usize::MAX,
    ensures
        forall|p: int|
            0 <= p < active_values(columns, data).len() ==> {
                let (k, v) = #[trigger] active_values(columns, data)[p];
                &&& 0 <= k < columns.len()
                &&& !columns[k as int].1
                &&& entry_get(data, columns[k as int].0@) matches Some(given) && given@ == v
            },
        forall|a: int, b: int|
            0 <= a < b < active_values(columns, data).len() ==> (#[trigger] active_values(
                columns,
                data,
            )[a]).0 < (#[trigger] active_values(columns, data)[b]).0,
    decreases columns.len(),
{
    if columns.len() > 0 {
        let rest = columns.drop_last();
        lemma_written_values_come_from_the_data(rest, data);
        lemma_active_values_bounds(rest, data);
        let picks = active_values(rest, data);
        let all = active_values(columns, data);
        assert(all == picks || (all.len() == picks.len() + 1 && all.drop_last() == picks && all.last().0
            == columns.len() - 1));
        assert forall|p: int| 0 <= p < all.len() implies {
            let (k, v) = #[trigger] all[p];
            &&& 0 <= k < columns.len()
            &&& !columns[k as int].1
            &&& entry_get(data, columns[k as int].0@) matches Some(given) && given@ == v
        } by {
            if p < picks.len() {
                assert(all[p] == picks[p]);
                assert(rest[picks[p].0 as int] == columns[picks[p].0 as int]);
            }
        }
        assert forall|a: int, b: int| 0 <= a < b < all.len() implies (#[trigger] all[a]).0
            < (#[trigger] all[b]).0 by {
            assert(all[a] == picks[a]);
            if b < picks.len() {
                assert(all[b] == picks[b]);
            }
        }
    }
}

/// A column whose key is not generated and whose field name has a value in
/// the data is always written with that value, unless an earlier column
/// whose key is not generated has the same field name (that column takes
/// the value); columns without a value elsewhere do not matter.
pub proof fn lemma_given_values_are_written(
    columns: Seq<(String, bool)>,
    data: Seq<(String, Value)>,
    k: int,
)
    requires
        columns.len() <= usize::MAX,
        0 <= k < columns.len(),
        !columns[k].1,
        entry_get(data, columns[k].0@) is Some,
        forall|j: int| 0 <= j < k && !columns[j].1 ==> columns[j].0@ != columns[k].0@,
    ensures
        exists|p: int|
            0 <= p < active_values(columns, data).len() && (#[trigger] active_values(columns, data)[p]).0
                == k && active_values(columns, data)[p].1 == entry_get(data, columns[k].0@)->0@,
    decreases columns.len(),
{
    let rest = columns.drop_last();
    let picks = active_values(rest, data);
    let all = active_values(columns, data);
    lemma_active_values_bounds(rest, data);
    if k < columns.len() - 1 {
        assert forall|j: int| 0 <= j < k && !rest[j].1 implies rest[j].0@ != rest[k].0@ by {
            assert(rest[j] == columns[j]);
        }
        assert(rest[k] == columns[k]);
        lemma_given_values_are_written(rest, data, k);
        let p = choose|p: int| 0 <= p < picks.len() && (#[trigger] picks[p]).0 == k && picks[p].1
            == entry_get(data, rest[k].0@)->0@;
        assert(all == picks || all == picks.push(all.last()));
        assert(all[p] == picks[p]);
    } else {
        lemma_written_values_come_from_the_data(rest, data);
        if picked(picks, rest, columns[k].0@) {
            let j = choose|j: int| 0 <= j < picks.len() && rest[picks[j].0 as int].0@ == columns[k].0@;
            let c = picks[j].0 as int;
            assert(rest[c] == columns[c]);
            assert(!columns[c].1);
            assert(false);
        }
        assert(all == picks.push((k as usize, entry_get(data, columns[k].0@)->0@)));
        assert(all[picks.len() as int].0 == k);
    }
}

/// Picks for a prefix of the columns name the same columns in the whole.
pub proof fn lemma_picked_prefix(
    picks: Seq<(usize, ValueModel)>,
    columns: Seq<(String, bool)>,
    n: int,
    name: Seq<char>,
)
    requires
        0 <= n <= columns.len(),
        forall|j: int| 0 <= j < picks.len() ==> (#[trigger] picks[j]).0 < n,
    ensures
        picked(picks, columns.take(n), name) == picked(picks, columns, name),
{
    if picked(picks, columns, name) {
        let j = choose|j: int| 0 <= j < picks.len() && columns[picks[j].0 as int].0@ == name;
        assert(columns.take(n)[picks[j].0 as int] == columns[picks[j].0 as int]);
    }
    if picked(picks, columns.take(n), name) {
        let j = choose|j: int|
            0 <= j < picks.len() && columns.take(n)[picks[j].0 as int].0@ == name;
        assert(columns.take(n)[picks[j].0 as int] == columns[picks[j].0 as int]);
    }
}

/// The values of `data` to write to a new row: for each column, in order,
/// that is not a generated key, the value under its field name where one
/// is given and not taken by an earlier column.
pub fn active_model_values(columns: &Vec<(String, bool)>, data: &NameMap<Value>) -> (r: Vec<
    (usize, Value),
>)
    ensures
        r@.len() == active_values(columns@, data.spec_entries()).len(),
        forall|j: int|
            0 <= j < r@.len() ==> (#[trigger] r@[j]).0 == active_values(
                columns@,
                data.spec_entries(),
            )[j].0 && r@[j].1@ == active_values(columns@, data.spec_entries())[j].1,
{
    let ghost entries = data.spec_entries();
    let mut out: Vec<(usize, Value)> = Vec::new();
    let mut k: usize = 0;
    proof {
        assert(columns@.take(0) =~= Seq::<(String, bool)>::empty());
    }
    while k < columns.len()
        invariant
            k <= columns@.len(),
            entries == data.spec_entries(),
            out@.len() == active_values(columns@.take(k as int), entries).len(),
            forall|j: int|
                0 <= j < out@.len() ==> (#[trigger] out@[j]).0 == active_values(
                    columns@.take(k as int),
                    entries,
                )[j].0 && out@[j].1@ == active_values(columns@.take(k as int), entries)[j].1,
        decreases columns@.len() - k,
    {
        let ghost prefix = columns@.take(k as int);
        let ghost picks = active_values(prefix, entries);
        proof {
            assert(columns@.take(k + 1).drop_last() =~= prefix);
            assert(columns@.take(k + 1).last() == columns@[k as int]);
            lemma_active_values_bounds(prefix, entries);
        }
        let (name, auto_increment) = (&columns[k].0, columns[k].1);
        if !auto_increment {
            match data.get(name.as_str()) {
                Some(v) => {
                    let mut taken = false;
                    let mut j: usize = 0;
                    while j < out.len()
                        invariant
                            j <= out@.len(),
                            k < columns@.len(),
                            out@.len() == picks.len(),
                            forall|t: int|
                                0 <= t < out@.len() ==> (#[trigger] out@[t]).0 == picks[t].0,
                            forall|t: int| 0 <= t < picks.len() ==> (#[trigger] picks[t]).0 < k,
                            taken <==> exists|t: int|
                                0 <= t < j && columns@[picks[t].0 as int].0@ == name@,
                        decreases out@.len() - j,
                    {
                        let idx = out[j].0;
                        assert(idx < k);
                        if str_eq(columns[idx].0.as_str(), name.as_str()) {
                            taken = true;
                        }
                        j = j + 1;
                    }
                    proof {
                        lemma_picked_prefix(picks, columns@, k as int, name@);
                        assert(prefix =~= columns@.take(k + 1).drop_last());
                    }
                    if !taken {
                        out.push((k, v.duplicate()));
                    }
                },
                None => {},
            }
        }
        proof {
            let next = columns@.take(k + 1);
            assert(next.drop_last() =~= prefix);
            if out@.len() == picks.len() + 1 {
                assert forall|t: int| 0 <= t < out@.len() implies (#[trigger] out@[t]).0
                    == active_values(next, entries)[t].0 && out@[t].1@ == active_values(
                    next,
                    entries,
                )[t].1 by {}
            }
        }
        k = k + 1;
    }
    proof {
        assert(columns@.take(k as int) =~= columns@);
    }
    out
}

/// The name of a mutation: the name of the entity's query field with the
/// mutation's suffix.
pub open spec fn mutation_name(query_field_name: Seq<char>, suffix: Seq<char>) -> Seq<char> {
    query_field_name + suffix
}

/// `field` takes an argument `name` of type `ty`.
pub open spec fn has_argument(field: Field, name: Seq<char>, ty: TypeRefModel) -> bool {
    field.arguments.spec_get(name) matches Some(a) && a.name@ == name && a.ty@ == ty
}

/// This builder produces the create-one mutation of an entity
#[derive(Debug)]
pub struct EntityCreateOneMutationBuilder<'a> {
    pub context: &'a BuilderContext,
}

impl<'a> EntityCreateOneMutationBuilder<'a> {
    /// The name of the mutation
    pub fn get_type_name(&self, query_field_name: &str) -> (r: String)
        ensures
            r@ == mutation_name(
                query_field_name@,
                self.context.entity_create_one_mutation.mutation_suffix@,
            ),
    {
        concat(query_field_name, self.context.entity_create_one_mutation.mutation_suffix.as_str())
    }

    /// The mutation field: it returns the new row as the entity's basic
    /// object and takes the row to insert as its `data` argument, of the
    /// entity's insert input type
    pub fn to_field(&self, query_field_name: &str, table_name: &str, insert_type_name: &str) -> (r: Field)
        ensures
            r.name@ == mutation_name(
                query_field_name@,
                self.context.entity_create_one_mutation.mutation_suffix@,
            ),
            r.ty@ == non_null_model(
                named_model(
                    entity_type_name(table_name@) + self.context.entity_object.basic_type_suffix@,
                ),
            ),
            r.has_resolver,
            has_argument(
                r,
                self.context.entity_create_one_mutation.data_field@,
                non_null_model(named_model(insert_type_name@)),
            ),
            r.arguments.spec_entries().len() == 1,
    {
        let objects = crate::outputs::EntityObjectBuilder { context: self.context };
        let basic = objects.basic_type_name(table_name);
        let name = self.get_type_name(query_field_name);
        Field::output(name.as_str(), TypeRef::named_nn(basic.as_str())).argument(
            Field::input(
                self.context.entity_create_one_mutation.data_field.as_str(),
                TypeRef::named_nn(insert_type_name),
            ),
        )
    }
}

/// This builder produces the create-batch mutation of an entity
#[derive(Debug)]
pub struct EntityCreateBatchMutationBuilder<'a> {
    pub context: &'a BuilderContext,
}

impl<'a> EntityCreateBatchMutationBuilder<'a> {
    /// The name of the mutation
    pub fn get_type_name(&self, query_field_name: &str) -> (r: String)
        ensures
            r@ == mutation_name(
                query_field_name@,
                self.context.entity_create_batch_mutation.mutation_suffix@,
            ),
    {
        concat(query_field_name, self.context.entity_create_batch_mutation.mutation_suffix.as_str())
    }

    /// The mutation field: it returns the new rows as a list of the
    /// entity's basic object and takes the rows to insert as its `data`
    /// argument, a list of the entity's insert input type
    pub fn to_field(&self, query_field_name: &str, table_name: &str, insert_type_name: &str) -> (r: Field)
        ensures
            r.name@ == mutation_name(
                query_field_name@,
                self.context.entity_create_batch_mutation.mutation_suffix@,
            ),
            r.ty@ == non_null_model(
                list_model(
                    non_null_model(
                        named_model(
                            entity_type_name(table_name@)
                                + self.context.entity_object.basic_type_suffix@,
                        ),
                    ),
                ),
            ),
            r.has_resolver,
            has_argument(
                r,
                self.context.entity_create_batch_mutation.data_field@,
                non_null_model(list_model(non_null_model(named_model(insert_type_name@)))),
            ),
            r.arguments.spec_entries().len() == 1,
    {
        let objects = crate::outputs::EntityObjectBuilder { context: self.context };
        let basic = objects.basic_type_name(table_name);
        let name = self.get_type_name(query_field_name);
        Field::output(name.as_str(), TypeRef::named_nn_list_nn(basic.as_str())).argument(
            Field::input(
                self.context.entity_create_batch_mutation.data_field.as_str(),
                TypeRef::named_nn_list_nn(insert_type_name),
            ),
        )
    }
}

/// This builder produces the update mutation of an entity
#[derive(Debug)]
pub struct EntityUpdateMutationBuilder<'a> {
    pub context: &'a BuilderContext,
}

impl<'a> EntityUpdateMutationBuilder<'a> {
    /// The name of the mutation
    pub fn get_type_name(&self, query_field_name: &str) -> (r: String)
        ensures
            r@ == mutation_name(
                query_field_name@,
                self.context.entity_update_mutation.mutation_suffix@,
            ),
    {
        concat(query_field_name, self.context.entity_update_mutation.mutation_suffix.as_str())
    }

    /// The mutation field: it returns the updated rows as a list of the
    /// entity's basic object, and takes the new values as its `data`
    /// argument, of the entity's update input type, and the rows to update
    /// as its `filter` argument, of the entity's filter input type
    pub fn to_field(&self, query_field_name: &str, table_name: &str, update_type_name: &str) -> (r: Field)
        ensures
            r.name@ == mutation_name(
                query_field_name@,
                self.context.entity_update_mutation.mutation_suffix@,
            ),
            r.ty@ == non_null_model(
                list_model(
                    non_null_model(
                        named_model(
                            entity_type_name(table_name@)
                                + self.context.entity_object.basic_type_suffix@,
                        ),
                    ),
                ),
            ),
            r.has_resolver,
            self.context.entity_update_mutation.data_field@
                != self.context.entity_update_mutation.filter_field@ ==> has_argument(
                r,
                self.context.entity_update_mutation.data_field@,
                non_null_model(named_model(update_type_name@)),
            ),
            has_argument(
                r,
                self.context.entity_update_mutation.filter_field@,
                named_model(filter_input_name(entity_type_name(table_name@))),
            ),
            r.arguments.spec_entries().len() == if self.context.entity_update_mutation.data_field@
                == self.context.entity_update_mutation.filter_field@ {
                1int
            } else {
                2int
            },
    {
        let objects = crate::outputs::EntityObjectBuilder { context: self.context };
        let filters = crate::outputs::FilterInputBuilder { context: self.context };
        let object_name = objects.get_type_name(table_name);
        let basic = objects.basic_type_name(table_name);
        let filter_name = filters.get_type_name(object_name.as_str());
        let name = self.get_type_name(query_field_name);
        let config = &self.context.entity_update_mutation;
        let with_data = Field::output(name.as_str(), TypeRef::named_nn_list_nn(basic.as_str())).argument(
            Field::input(config.data_field.as_str(), TypeRef::named_nn(update_type_name)),
        );
        assert(config.data_field@ != config.filter_field@ ==> with_data.arguments.spec_get(
            config.filter_field@,
        ) is None);
        with_data.argument(
            Field::input(config.filter_field.as_str(), TypeRef::named(filter_name.as_str())),
        )
    }
}

/// This builder produces the delete mutation of an entity
#[derive(Debug)]
pub struct EntityDeleteMutationBuilder<'a> {
    pub context: &'a BuilderContext,
}

impl<'a> EntityDeleteMutationBuilder<'a> {
    /// The name of the mutation
    pub fn get_type_name(&self, query_field_name: &str) -> (r: String)
        ensures
            r@ == mutation_name(
                query_field_name@,
                self.context.entity_delete_mutation.mutation_suffix@,
            ),
    {
        concat(query_field_name, self.context.entity_delete_mutation.mutation_suffix.as_str())
    }

    /// The mutation field: it returns the number of deleted rows and takes
    /// the rows to delete as its `filter` argument, of the entity's filter
    /// input type
    pub fn to_field(&self, query_field_name: &str, table_name: &str) -> (r: Field)
        ensures
            r.name@ == mutation_name(
                query_field_name@,
                self.context.entity_delete_mutation.mutation_suffix@,
            ),
            r.ty@ == non_null_model(named_model(TypeRef::INT@)),
            r.has_resolver,
            has_argument(
                r,
                self.context.entity_delete_mutation.filter_field@,
                named_model(filter_input_name(entity_type_name(table_name@))),
            ),
            r.arguments.spec_entries().len() == 1,
    {
        let objects = crate::outputs::EntityObjectBuilder { context: self.context };
        let filters = crate::outputs::FilterInputBuilder { context: self.context };
        let object_name = objects.get_type_name(table_name);
        let filter_name = filters.get_type_name(object_name.as_str());
        let name = self.get_type_name(query_field_name);
        Field::output(name.as_str(), TypeRef::named_nn(TypeRef::INT)).argument(
            Field::input(
                self.context.entity_delete_mutation.filter_field.as_str(),
                TypeRef::named(filter_name.as_str()),
            ),
        )
    }
}

} // verus!
