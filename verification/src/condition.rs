//! The filter condition of a query: what the filter argument asks of each
//! column, and the `and` and `or` groups of nested filters.
use vstd::prelude::*;
use crate::accessor::{lemma_find_key, lookup, ObjectAccessor, ValueAccessor};
use crate::error::{is_custom, SeaResult, SeaographyError};
use crate::filter::{
    clause_views, clauses_model, defined, graphql_filter_info, proto_filter_info, read_clauses,
    FilterClause, FilterOperation, FilterPlan, GraphQLFilterTypes, GraphQlFilterType,
    ProtoFilterType, ProtoFilterTypes,
};
use crate::name_map::NameMap;
use crate::text::owned;
use crate::value::{lemma_views_index, views, Value, ValueModel};

verus! {

/// How a column can be filtered: not at all, by the operations of its
/// filter input type, by the enumeration filter, or by a custom condition.
#[derive(Debug)]
pub enum ColumnFilterKind {
    Unfilterable,
    Operations(Vec<FilterOperation>),
    Enumeration,
    /// A custom filter: the key of its configured condition function, or
    /// `None` where none is configured and the condition stays as it is.
    Custom(Option<String>),
}

/// A column as the filter argument sees it: its field name and how it can
/// be filtered.
#[derive(Debug)]
pub struct FilterColumn {
    pub name: String,
    pub kind: ColumnFilterKind,
}

fn copy_operations(ops: &Vec<FilterOperation>) -> (r: Vec<FilterOperation>)
    ensures
        r@ == ops@,
{
    let mut out: Vec<FilterOperation> = Vec::new();
    let mut i: usize = 0;
    while i < ops.len()
        invariant
            i <= ops@.len(),
            out@ == ops@.take(i as int),
        decreases ops@.len() - i,
    {
        out.push(ops[i]);
        i = i + 1;
        proof {
            assert(out@ =~= ops@.take(i as int));
        }
    }
    proof {
        assert(ops@.take(i as int) =~= ops@);
    }
    out
}

/// The key of a custom column's condition function: `key` where a function
/// is configured under it, else `None`.
pub open spec fn custom_key_of(k: Option<String>, key: Seq<char>, condition_functions: NameMap<()>) -> bool {
    if condition_functions.spec_contains(key) {
        k matches Some(s) && s@ == key
    } else {
        k is None
    }
}

fn custom_key(key: &str, condition_functions: &NameMap<()>) -> (r: Option<String>)
    ensures
        custom_key_of(r, key@, *condition_functions),
{
    if condition_functions.contains_key(key) {
        Some(owned(key))
    } else {
        None
    }
}

impl FilterColumn {
    /// A column filtered through the GraphQL filter kind `filter_type`, if
    /// it has one.
    pub fn graphql(
        name: &str,
        filter_type: &Option<GraphQlFilterType>,
        types: &GraphQLFilterTypes,
        condition_key: &str,
        condition_functions: &NameMap<()>,
    ) -> (r: Self)
        ensures
            r.name@ == name@,
            match *filter_type {
                None => r.kind is Unfilterable,
                Some(GraphQlFilterType::Enumeration(_)) => r.kind is Enumeration,
                Some(GraphQlFilterType::Custom(_)) => r.kind matches ColumnFilterKind::Custom(k) && custom_key_of(
                    k,
                    condition_key@,
                    *condition_functions,
                ),
                Some(t) => r.kind matches ColumnFilterKind::Operations(ops) && ops@
                    == graphql_filter_info(t, *types)->0.supported_operations@,
            },
    {
        let kind = match filter_type {
            None => ColumnFilterKind::Unfilterable,
            Some(t) => match t {
                GraphQlFilterType::Text => ColumnFilterKind::Operations(
                    copy_operations(&types.text_filter_info.supported_operations),
                ),
                GraphQlFilterType::String => ColumnFilterKind::Operations(
                    copy_operations(&types.string_filter_info.supported_operations),
                ),
                GraphQlFilterType::Integer => ColumnFilterKind::Operations(
                    copy_operations(&types.integer_filter_info.supported_operations),
                ),
                GraphQlFilterType::Float => ColumnFilterKind::Operations(
                    copy_operations(&types.float_filter_info.supported_operations),
                ),
                GraphQlFilterType::Boolean => ColumnFilterKind::Operations(
                    copy_operations(&types.boolean_filter_info.supported_operations),
                ),
                GraphQlFilterType::Id => ColumnFilterKind::Operations(
                    copy_operations(&types.id_filter_info.supported_operations),
                ),
                GraphQlFilterType::Enumeration(_) => ColumnFilterKind::Enumeration,
                GraphQlFilterType::Custom(_) => ColumnFilterKind::Custom(custom_key(condition_key, condition_functions)),
            },
        };
        FilterColumn { name: owned(name), kind }
    }

    /// A column filtered through the Protobuf filter kind `filter_type`, if
    /// it has one.
    pub fn proto(
        name: &str,
        filter_type: &Option<ProtoFilterType>,
        types: &ProtoFilterTypes,
        condition_key: &str,
        condition_functions: &NameMap<()>,
    ) -> (r: Self)
        ensures
            r.name@ == name@,
            match *filter_type {
                None => r.kind is Unfilterable,
                Some(ProtoFilterType::Enumeration(_)) => r.kind is Enumeration,
                Some(ProtoFilterType::Custom(_)) => r.kind matches ColumnFilterKind::Custom(k) && custom_key_of(
                    k,
                    condition_key@,
                    *condition_functions,
                ),
                Some(t) => r.kind matches ColumnFilterKind::Operations(ops) && ops@
                    == proto_filter_info(t, *types)->0.supported_operations@,
            },
    {
        let kind = match filter_type {
            None => ColumnFilterKind::Unfilterable,
            Some(t) => match t {
                ProtoFilterType::Int32 => ColumnFilterKind::Operations(
                    copy_operations(&types.int32_filter_info.supported_operations),
                ),
                ProtoFilterType::Int64 => ColumnFilterKind::Operations(
                    copy_operations(&types.int64_filter_info.supported_operations),
                ),
                ProtoFilterType::UInt32 => ColumnFilterKind::Operations(
                    copy_operations(&types.uint32_filter_info.supported_operations),
                ),
                ProtoFilterType::UInt64 => ColumnFilterKind::Operations(
                    copy_operations(&types.uint64_filter_info.supported_operations),
                ),
                ProtoFilterType::SInt32 => ColumnFilterKind::Operations(
                    copy_operations(&types.sint32_filter_info.supported_operations),
                ),
                ProtoFilterType::SInt64 => ColumnFilterKind::Operations(
                    copy_operations(&types.sint64_filter_info.supported_operations),
                ),
                ProtoFilterType::Float => ColumnFilterKind::Operations(
                    copy_operations(&types.float_filter_info.supported_operations),
                ),
                ProtoFilterType::Double => ColumnFilterKind::Operations(
                    copy_operations(&types.double_filter_info.supported_operations),
                ),
                ProtoFilterType::Boolean => ColumnFilterKind::Operations(
                    copy_operations(&types.boolean_filter_info.supported_operations),
                ),
                ProtoFilterType::String => ColumnFilterKind::Operations(
                    copy_operations(&types.string_filter_info.supported_operations),
                ),
                ProtoFilterType::Binary => ColumnFilterKind::Operations(
                    copy_operations(&types.binary_filter_info.supported_operations),
                ),
                ProtoFilterType::Enumeration(_) => ColumnFilterKind::Enumeration,
                ProtoFilterType::Custom(_) => ColumnFilterKind::Custom(custom_key(condition_key, condition_functions)),
            },
        };
        FilterColumn { name: owned(name), kind }
    }
}

/// What a column's filter asks for.
pub enum FilterPlanModel {
    Clauses(Seq<(FilterOperation, Seq<ValueModel>)>),
    Enumeration,
    CustomFunction(Seq<char>),
    Unchanged,
}

/// The model of a column's filter plan.
pub open spec fn filter_plan_view(p: FilterPlan) -> FilterPlanModel {
    match p {
        FilterPlan::Clauses(v) => FilterPlanModel::Clauses(clause_views(v@)),
        FilterPlan::Enumeration => FilterPlanModel::Enumeration,
        FilterPlan::CustomFunction(k) => FilterPlanModel::CustomFunction(k@),
        FilterPlan::Unchanged => FilterPlanModel::Unchanged,
    }
}

/// What a filter argument asks for: the filtered columns in order, by
/// position, with what each asks for; then the filters that must all hold
/// (`and`) and the filters of which one must hold (`or`), where given.
pub struct ConditionModel {
    pub columns: Seq<(int, FilterPlanModel)>,
    pub and: Option<Seq<ConditionModel>>,
    pub or: Option<Seq<ConditionModel>>,
}

/// The condition a filter argument asks for, to be applied to a query: the
/// filtered columns, and the `and` and `or` groups of nested conditions.
#[derive(Debug)]
pub struct ConditionPlan {
    pub columns: Vec<(usize, FilterPlan)>,
    pub and: Option<Vec<ConditionPlan>>,
    pub or: Option<Vec<ConditionPlan>>,
}

/// The models of the column plans.
pub open spec fn column_plan_views(s: Seq<(usize, FilterPlan)>) -> Seq<(int, FilterPlanModel)> {
    s.map_values(|c: (usize, FilterPlan)| (c.0 as int, filter_plan_view(c.1)))
}

/// The model of a condition plan.
pub open spec fn condition_view(p: ConditionPlan) -> ConditionModel
    decreases p, 1int,
{
    ConditionModel {
        columns: column_plan_views(p.columns@),
        and: match p.and {
            Some(v) => Some(condition_views(v@)),
            None => None,
        },
        or: match p.or {
            Some(v) => Some(condition_views(v@)),
            None => None,
        },
    }
}

/// The models of a sequence of condition plans.
pub open spec fn condition_views(s: Seq<ConditionPlan>) -> Seq<ConditionModel>
    decreases s, 0int,
{
    if s.len() == 0 {
        Seq::empty()
    } else {
        condition_views(s.drop_last()).push(condition_view(s.last()))
    }
}

/// What the filter argument asks of one column: nothing where the column's
/// field is absent or the column cannot be filtered; a field that is not
/// an object fails.
pub open spec fn column_model(entries: Seq<(ValueModel, ValueModel)>, column: FilterColumn) -> Result<
    Option<FilterPlanModel>,
    Option<Seq<char>>,
> {
    match lookup(entries, column.name@) {
        None => Ok(None),
        Some(ValueModel::Object(filter)) => match column.kind {
            ColumnFilterKind::Unfilterable => Ok(None),
            ColumnFilterKind::Operations(ops) => match clauses_model(ops@, filter) {
                Ok(cs) => Ok(Some(FilterPlanModel::Clauses(cs))),
                Err(e) => Err(e),
            },
            ColumnFilterKind::Enumeration => Ok(Some(FilterPlanModel::Enumeration)),
            ColumnFilterKind::Custom(Some(k)) => Ok(Some(FilterPlanModel::CustomFunction(k@))),
            ColumnFilterKind::Custom(None) => Ok(Some(FilterPlanModel::Unchanged)),
        },
        Some(_) => Err(Some("internal: not an object"@)),
    }
}

/// What the filter argument asks of the columns, column by column in
/// order, or the first failure.
pub open spec fn columns_model(entries: Seq<(ValueModel, ValueModel)>, columns: Seq<FilterColumn>) -> Result<
    Seq<(int, FilterPlanModel)>,
    Option<Seq<char>>,
>
    decreases columns.len(),
{
    if columns.len() == 0 {
        Ok(Seq::empty())
    } else {
        match columns_model(entries, columns.drop_last()) {
            Err(e) => Err(e),
            Ok(cs) => match column_model(entries, columns.last()) {
                Err(e) => Err(e),
                Ok(None) => Ok(cs),
                Ok(Some(p)) => Ok(cs.push((columns.len() - 1, p))),
            },
        }
    }
}

/// The column's field is given in the filter argument as an object, and
/// the column can be filtered.
pub open spec fn planned_column(col: FilterColumn, entries: Seq<(ValueModel, ValueModel)>) -> bool {
    lookup(entries, col.name@) matches Some(ValueModel::Object(_)) && !(col.kind is Unfilterable)
}

/// `p` is what the filter argument asks of the column: the clauses read
/// from its field for the operations it offers, the enumeration filter,
/// the configured condition function, or no change.
pub open spec fn column_plan_given(
    col: FilterColumn,
    entries: Seq<(ValueModel, ValueModel)>,
    p: FilterPlanModel,
) -> bool {
    lookup(entries, col.name@) matches Some(ValueModel::Object(filter)) && match col.kind {
        ColumnFilterKind::Unfilterable => false,
        ColumnFilterKind::Operations(ops) => p matches FilterPlanModel::Clauses(cs) && clauses_model(
            ops@,
            filter,
        ) == Ok::<_, Option<Seq<char>>>(cs),
        ColumnFilterKind::Enumeration => p is Enumeration,
        ColumnFilterKind::Custom(Some(k)) => p == FilterPlanModel::CustomFunction(k@),
        ColumnFilterKind::Custom(None) => p is Unchanged,
    }
}

/// The column plans `cs` follow the columns: one plan per column at
/// most, in column order; each plan is what the filter argument asks of its
/// column; and every column whose field is given as an object and that
/// can be filtered has its plan.
pub open spec fn plans_follow_columns(
    cs: Seq<(int, FilterPlanModel)>,
    entries: Seq<(ValueModel, ValueModel)>,
    columns: Seq<FilterColumn>,
) -> bool {
    &&& forall|a: int, b: int| 0 <= a < b < cs.len() ==> #[trigger] cs[a].0 < #[trigger] cs[b].0
    &&& forall|k: int|
        0 <= k < cs.len() ==> 0 <= (#[trigger] cs[k]).0 < columns.len() && column_plan_given(
            columns[cs[k].0],
            entries,
            cs[k].1,
        )
    &&& forall|i: int|
        0 <= i < columns.len() && planned_column(#[trigger] columns[i], entries) ==> exists|k: int|
            0 <= k < cs.len() && cs[k].0 == i
}

/// Reading the columns of a filter argument plans every column whose field
/// is given and that can be filtered, at its position, with what its kind
/// asks for, and nothing else: an enumeration column gives the enumeration
/// filter, a custom column its condition function or no change.
pub proof fn lemma_present_columns_are_planned(
    entries: Seq<(ValueModel, ValueModel)>,
    columns: Seq<FilterColumn>,
)
    ensures
        columns_model(entries, columns) matches Ok(cs) ==> plans_follow_columns(cs, entries, columns),
    decreases columns.len(),
{
    if columns.len() > 0 {
        let rest = columns.drop_last();
        lemma_present_columns_are_planned(entries, rest);
        if let Ok(cs) = columns_model(entries, columns) {
            let prev = columns_model(entries, rest)->Ok_0;
            let last = columns.last();
            let n = columns.len() - 1;
            assert forall|k: int| 0 <= k < cs.len() implies 0 <= (#[trigger] cs[k]).0 < columns.len()
                && column_plan_given(columns[cs[k].0], entries, cs[k].1) by {
                if k < prev.len() {
                    assert(cs[k] == prev[k]);
                    assert(rest[prev[k].0] == columns[prev[k].0]);
                } else {
                    assert(cs[k].0 == n);
                }
            }
            assert forall|a: int, b: int| 0 <= a < b < cs.len() implies #[trigger] cs[a].0
                < #[trigger] cs[b].0 by {
                if b < prev.len() {
                    assert(cs[a] == prev[a]);
                    assert(cs[b] == prev[b]);
                } else {
                    assert(cs[a] == prev[a]);
                }
            }
            assert forall|i: int| 0 <= i < columns.len() && planned_column(
                #[trigger] columns[i],
                entries,
            ) implies exists|k: int| 0 <= k < cs.len() && cs[k].0 == i by {
                if i < n {
                    assert(rest[i] == columns[i]);
                    let k = choose|k: int| 0 <= k < prev.len() && prev[k].0 == i;
                    assert(cs[k] == prev[k]);
                } else {
                    assert(cs[cs.len() - 1].0 == n);
                }
            }
        }
    }
}

/// The column plans of a condition read from a filter argument follow its
/// columns, as `lemma_present_columns_are_planned` says.
pub proof fn lemma_condition_columns_are_planned(
    entries: Seq<(ValueModel, ValueModel)>,
    columns: Seq<FilterColumn>,
)
    ensures
        condition_model(entries, columns) matches Ok(m) ==> plans_follow_columns(
            m.columns,
            entries,
            columns,
        ),
{
    lemma_present_columns_are_planned(entries, columns);
}

/// A value found under a key of an object is smaller than the object.
pub proof fn lemma_lookup_decreases(entries: Seq<(ValueModel, ValueModel)>, key: Seq<char>)
    ensures
        lookup(entries, key) matches Some(v) ==> decreases_to!(entries => v),
{
    lemma_find_key(entries, key);
    if let Some(i) = crate::accessor::find_key(entries, key) {
        assert(decreases_to!(entries => entries[i]));
        assert(decreases_to!(entries[i] => entries[i].1));
    }
}

/// The condition the filter argument with entries `entries` asks for, or
/// the first failure.
pub open spec fn condition_model(entries: Seq<(ValueModel, ValueModel)>, columns: Seq<FilterColumn>) -> Result<
    ConditionModel,
    Option<Seq<char>>,
>
    decreases entries, 1int,
{
    match columns_model(entries, columns) {
        Err(e) => Err(e),
        Ok(cols) => match group_model(entries, "and"@, columns) {
            Err(e) => Err(e),
            Ok(and) => match group_model(entries, "or"@, columns) {
                Err(e) => Err(e),
                Ok(or) => Ok(ConditionModel { columns: cols, and, or }),
            },
        },
    }
}

/// The nested conditions of the group stored under `key`, where the group
/// is given; a group that is not a list fails.
pub open spec fn group_model(
    entries: Seq<(ValueModel, ValueModel)>,
    key: Seq<char>,
    columns: Seq<FilterColumn>,
) -> Result<Option<Seq<ConditionModel>>, Option<Seq<char>>>
    decreases entries, 0int,
{
    match lookup(entries, key) {
        None => Ok(None),
        Some(ValueModel::List(items)) => {
            proof {
                lemma_lookup_decreases(entries, key);
            }
            match items_model(items, columns) {
                Ok(s) => Ok(Some(s)),
                Err(e) => Err(e),
            }
        },
        Some(_) => Err(Some("internal: not a list"@)),
    }
}

/// The nested conditions of the filters of a group, in order; an item that
/// is not an object fails.
pub open spec fn items_model(items: Seq<ValueModel>, columns: Seq<FilterColumn>) -> Result<
    Seq<ConditionModel>,
    Option<Seq<char>>,
>
    decreases items, 0int,
{
    if items.len() == 0 {
        Ok(Seq::empty())
    } else {
        match items_model(items.drop_last(), columns) {
            Err(e) => Err(e),
            Ok(s) => match items.last() {
                ValueModel::Object(e2) => {
                    proof {
                        assert(decreases_to!(items => items[items.len() - 1]));
                    }
                    match condition_model(e2, columns) {
                        Err(e) => Err(e),
                        Ok(c) => Ok(s.push(c)),
                    }
                },
                _ => Err(Some("internal: not an object"@)),
            },
        }
    }
}

/// A failure in a prefix of the columns is the outcome for all of them.
pub proof fn lemma_columns_error_stays(
    entries: Seq<(ValueModel, ValueModel)>,
    columns: Seq<FilterColumn>,
    i: int,
)
    requires
        0 <= i <= columns.len(),
        columns_model(entries, columns.take(i)) is Err,
    ensures
        columns_model(entries, columns) == columns_model(entries, columns.take(i)),
    decreases columns.len() - i,
{
    if i < columns.len() {
        assert(columns.take(i + 1).drop_last() =~= columns.take(i));
        lemma_columns_error_stays(entries, columns, i + 1);
    } else {
        assert(columns.take(i) =~= columns);
    }
}

/// A failure in a prefix of the items is the outcome for all of them.
pub proof fn lemma_items_error_stays(items: Seq<ValueModel>, columns: Seq<FilterColumn>, i: int)
    requires
        0 <= i <= items.len(),
        items_model(items.take(i), columns) is Err,
    ensures
        items_model(items, columns) == items_model(items.take(i), columns),
    decreases items.len() - i,
{
    if i < items.len() {
        assert(items.take(i + 1).drop_last() =~= items.take(i));
        lemma_items_error_stays(items, columns, i + 1);
    } else {
        assert(items.take(i) =~= items);
    }
}

/// `r` is the outcome that `m` describes.
pub open spec fn condition_outcome(r: SeaResult<ConditionPlan>, m: Result<ConditionModel, Option<Seq<char>>>) -> bool {
    match m {
        Ok(c) => r matches Ok(p) && condition_view(p) == c,
        Err(Some(msg)) => r matches Err(e) && is_custom(e, msg),
        Err(None) => false,
    }
}

/// Reads what the filter argument asks of each column, in order.
fn prepare_columns(columns: &Vec<FilterColumn>, filters: &ObjectAccessor) -> (r: SeaResult<
    Vec<(usize, FilterPlan)>,
>)
    requires
        defined(columns_model(filters.entries(), columns@)),
    ensures
        match columns_model(filters.entries(), columns@) {
            Ok(cs) => r matches Ok(v) && column_plan_views(v@) == cs,
            Err(Some(msg)) => r matches Err(e) && is_custom(e, msg),
            Err(None) => false,
        },
{
    let ghost entries = filters.entries();
    let mut out: Vec<(usize, FilterPlan)> = Vec::new();
    let mut k: usize = 0;
    proof {
        assert(columns@.take(0) =~= Seq::<FilterColumn>::empty());
        assert(column_plan_views(out@) =~= Seq::<(int, FilterPlanModel)>::empty());
    }
    while k < columns.len()
        invariant
            k <= columns@.len(),
            entries == filters.entries(),
            defined(columns_model(entries, columns@)),
            columns_model(entries, columns@.take(k as int)) == Ok::<
                Seq<(int, FilterPlanModel)>,
                Option<Seq<char>>,
            >(column_plan_views(out@)),
        decreases columns@.len() - k,
    {
        let column = &columns[k];
        proof {
            assert(columns@.take(k + 1).drop_last() =~= columns@.take(k as int));
            assert(columns@.take(k + 1).last() == *column);
        }
        let ghost before = out@;
        match filters.get(column.name.as_str()) {
            None => {},
            Some(a) => {
                let filter = match a.object() {
                    Ok(o) => o,
                    Err(e) => {
                        proof {
                            lemma_columns_error_stays(entries, columns@, k + 1);
                        }
                        return Err(e);
                    },
                };
                match &column.kind {
                    ColumnFilterKind::Unfilterable => {},
                    ColumnFilterKind::Operations(ops) => {
                        proof {
                            if !defined(clauses_model(ops@, filter.entries())) {
                                lemma_columns_error_stays(entries, columns@, k + 1);
                            }
                        }
                        match read_clauses(ops, &filter) {
                            Ok(clauses) => {
                                out.push((k, FilterPlan::Clauses(clauses)));
                            },
                            Err(e) => {
                                proof {
                                    lemma_columns_error_stays(entries, columns@, k + 1);
                                }
                                return Err(e);
                            },
                        }
                    },
                    ColumnFilterKind::Enumeration => {
                        out.push((k, FilterPlan::Enumeration));
                    },
                    ColumnFilterKind::Custom(Some(key)) => {
                        out.push((k, FilterPlan::CustomFunction(key.clone())));
                    },
                    ColumnFilterKind::Custom(None) => {
                        out.push((k, FilterPlan::Unchanged));
                    },
                }
            },
        }
        proof {
            if out@.len() == before.len() + 1 {
                assert(column_plan_views(out@) =~= column_plan_views(before).push(
                    column_plan_views(out@).last(),
                ));
            } else {
                assert(out@ =~= before);
            }
        }
        k = k + 1;
    }
    proof {
        assert(columns@.take(k as int) =~= columns@);
    }
    Ok(out)
}

/// A nested filter is smaller than the filter it is nested in.
pub proof fn lemma_nested_decreases(
    entries: Seq<(ValueModel, ValueModel)>,
    key: Seq<char>,
    items: Seq<ValueModel>,
    k: int,
    nested: Seq<(ValueModel, ValueModel)>,
)
    requires
        lookup(entries, key) == Some(ValueModel::List(items)),
        0 <= k < items.len(),
        items[k] == ValueModel::Object(nested),
    ensures
        decreases_to!(entries => nested),
{
    lemma_lookup_decreases(entries, key);
    let v = ValueModel::List(items);
    assert(decreases_to!(v => v->List_0));
    assert(decreases_to!(items => items[k]));
    let w = items[k];
    assert(decreases_to!(w => w->Object_0));
}

/// Reads the nested conditions of the group stored under `key`.
fn prepare_group(columns: &Vec<FilterColumn>, filters: &ObjectAccessor, key: &str) -> (r: SeaResult<
    Option<Vec<ConditionPlan>>,
>)
    requires
        defined(group_model(filters.entries(), key@, columns@)),
    ensures
        match group_model(filters.entries(), key@, columns@) {
            Ok(None) => r matches Ok(None),
            Ok(Some(cs)) => r matches Ok(Some(v)) && condition_views(v@) == cs,
            Err(Some(msg)) => r matches Err(e) && is_custom(e, msg),
            Err(None) => false,
        },
    decreases filters.entries(), 0int,
{
    let ghost entries = filters.entries();
    match filters.get(key) {
        None => Ok(None),
        Some(a) => {
            let list = match a.list() {
                Ok(l) => l,
                Err(e) => {
                    return Err(e);
                },
            };
            let values: &[Value] = list.0;
            let ghost items = views(values@);
            proof {
                lemma_views_index(values@);
            }
            let mut out: Vec<ConditionPlan> = Vec::new();
            let mut k: usize = 0;
            proof {
                assert(items.take(0) =~= Seq::<ValueModel>::empty());
                assert(condition_views(out@) =~= Seq::<ConditionModel>::empty());
            }
            while k < values.len()
                invariant
                    k <= values@.len(),
                    entries == filters.entries(),
                    items == views(values@),
                    items.len() == values@.len(),
                    forall|j: int| 0 <= j < values@.len() ==> #[trigger] items[j] == values@[j]@,
                    lookup(entries, key@) == Some(ValueModel::List(items)),
                    defined(items_model(items, columns@)),
                    items_model(items.take(k as int), columns@) == Ok::<
                        Seq<ConditionModel>,
                        Option<Seq<char>>,
                    >(condition_views(out@)),
                decreases values@.len() - k,
            {
                proof {
                    assert(items.take(k + 1).drop_last() =~= items.take(k as int));
                    assert(items.take(k + 1).last() == items[k as int]);
                }
                let item = ValueAccessor(&values[k]);
                let nested = match item.object() {
                    Ok(o) => o,
                    Err(e) => {
                        proof {
                            lemma_items_error_stays(items, columns@, k + 1);
                        }
                        return Err(e);
                    },
                };
                proof {
                    lemma_nested_decreases(entries, key@, items, k as int, nested.entries());
                    if !defined(condition_model(nested.entries(), columns@)) {
                        lemma_items_error_stays(items, columns@, k + 1);
                    }
                }
                let sub = match recursive_prepare_condition(columns, &nested) {
                    Ok(p) => p,
                    Err(e) => {
                        proof {
                            lemma_items_error_stays(items, columns@, k + 1);
                        }
                        return Err(e);
                    },
                };
                let ghost before = out@;
                out.push(sub);
                proof {
                    assert(out@.drop_last() =~= before);
                }
                k = k + 1;
            }
            proof {
                assert(items.take(k as int) =~= items);
            }
            Ok(Some(out))
        },
    }
}

/// Reads the condition that a filter argument asks for: what it asks of
/// each column, then its `and` group, then its `or` group.
pub fn recursive_prepare_condition(columns: &Vec<FilterColumn>, filters: &ObjectAccessor) -> (r: SeaResult<
    ConditionPlan,
>)
    requires
        defined(condition_model(filters.entries(), columns@)),
    ensures
        condition_outcome(r, condition_model(filters.entries(), columns@)),
    decreases filters.entries(), 1int,
{
    proof {
        reveal_strlit("and");
        reveal_strlit("or");
    }
    let cols = match prepare_columns(columns, filters) {
        Ok(c) => c,
        Err(e) => {
            return Err(e);
        },
    };
    let and = match prepare_group(columns, filters, "and") {
        Ok(g) => g,
        Err(e) => {
            return Err(e);
        },
    };
    let or = match prepare_group(columns, filters, "or") {
        Ok(g) => g,
        Err(e) => {
            return Err(e);
        },
    };
    Ok(ConditionPlan { columns: cols, and, or })
}

/// The condition that the optional filter argument asks for: no condition
/// where it is absent; it must be an object where it is given.
pub fn get_filter_conditions(columns: &Vec<FilterColumn>, filters: Option<ValueAccessor>) -> (r: SeaResult<
    ConditionPlan,
>)
    requires
        filters matches Some(f) ==> (f.0@ matches ValueModel::Object(entries) ==> defined(
            condition_model(entries, columns@),
        )),
    ensures
        match filters {
            None => r matches Ok(p) && p.columns@.len() == 0 && p.and is None && p.or is None,
            Some(f) => match f.0@ {
                ValueModel::Object(entries) => condition_outcome(r, condition_model(entries, columns@)),
                _ => r matches Err(e) && is_custom(e, "internal: not an object"@),
            },
        },
{
    match filters {
        None => Ok(ConditionPlan { columns: Vec::new(), and: None, or: None }),
        Some(f) => match f.object() {
            Ok(o) => recursive_prepare_condition(columns, &o),
            Err(e) => Err(e),
        },
    }
}

/// An empty filter argument asks for no condition: no column is filtered
/// and there is no `and` or `or` group.
pub proof fn lemma_empty_filter_asks_nothing(columns: Seq<FilterColumn>)
    ensures
        condition_model(Seq::empty(), columns) matches Ok(c) && c.columns.len() == 0 && c.and is None
            && c.or is None,
{
    lemma_columns_of_empty_filter(columns);
}

/// An empty filter argument filters no column.
pub proof fn lemma_columns_of_empty_filter(columns: Seq<FilterColumn>)
    ensures
        columns_model(Seq::empty(), columns) == Ok::<Seq<(int, FilterPlanModel)>, Option<Seq<char>>>(
            Seq::empty(),
        ),
    decreases columns.len(),
{
    if columns.len() > 0 {
        lemma_columns_of_empty_filter(columns.drop_last());
    }
}

} // verus!
