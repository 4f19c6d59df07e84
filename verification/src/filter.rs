//! Filter inputs: the operations a filter supports, the input object that
//! offers them, and the reading of a filter into the clauses it asks for.
use vstd::prelude::*;
use crate::accessor::{lookup, ObjectAccessor};
use crate::error::{is_custom, SeaResult, SeaographyError};
use crate::interface::{field_list, names_distinct, Field, Object, IO};
use crate::name_map::NameMap;
use crate::text::owned;
use crate::type_ref::{list_model, named_model, non_null_model, TypeRef, TypeRefModel};
use crate::value::{lemma_views_index, views, Value, ValueModel};

verus! {

/// A comparison that a filter input may offer.
#[derive(Clone, Copy, Debug, PartialEq, Eq, Structural, Hash)]
pub enum FilterOperation {
    Equals,
    NotEquals,
    GreaterThan,
    GreaterThanEquals,
    LessThan,
    LessThanEquals,
    IsIn,
    IsNotIn,
    IsNull,
    IsNotNull,
    Contains,
    StartsWith,
    EndsWith,
    Like,
    NotLike,
    Between,
    NotBetween,
}

/// The position of an operation in the order in which they are declared.
pub open spec fn rank(op: FilterOperation) -> int {
    match op {
        FilterOperation::Equals => 0,
        FilterOperation::NotEquals => 1,
        FilterOperation::GreaterThan => 2,
        FilterOperation::GreaterThanEquals => 3,
        FilterOperation::LessThan => 4,
        FilterOperation::LessThanEquals => 5,
        FilterOperation::IsIn => 6,
        FilterOperation::IsNotIn => 7,
        FilterOperation::IsNull => 8,
        FilterOperation::IsNotNull => 9,
        FilterOperation::Contains => 10,
        FilterOperation::StartsWith => 11,
        FilterOperation::EndsWith => 12,
        FilterOperation::Like => 13,
        FilterOperation::NotLike => 14,
        FilterOperation::Between => 15,
        FilterOperation::NotBetween => 16,
    }
}

/// The name of the input field that offers an operation.
pub open spec fn op_field(op: FilterOperation) -> Seq<char> {
    match op {
        FilterOperation::Equals => "eq"@,
        FilterOperation::NotEquals => "ne"@,
        FilterOperation::GreaterThan => "gt"@,
        FilterOperation::GreaterThanEquals => "gte"@,
        FilterOperation::LessThan => "lt"@,
        FilterOperation::LessThanEquals => "lte"@,
        FilterOperation::IsIn => "is_in"@,
        FilterOperation::IsNotIn => "is_not_in"@,
        FilterOperation::IsNull => "is_null"@,
        FilterOperation::IsNotNull => "is_not_null"@,
        FilterOperation::Contains => "contains"@,
        FilterOperation::StartsWith => "starts_with"@,
        FilterOperation::EndsWith => "ends_with"@,
        FilterOperation::Like => "like"@,
        FilterOperation::NotLike => "not_like"@,
        FilterOperation::Between => "between"@,
        FilterOperation::NotBetween => "not_between"@,
    }
}

/// Whether an operation takes a list of values.
pub open spec fn takes_list(op: FilterOperation) -> bool {
    op is IsIn || op is IsNotIn || op is Between || op is NotBetween
}

/// Whether an operation takes the two bounds of a range.
pub open spec fn takes_range(op: FilterOperation) -> bool {
    op is Between || op is NotBetween
}

/// Whether an operation only asks whether its field is given.
pub open spec fn takes_presence(op: FilterOperation) -> bool {
    op is IsNull || op is IsNotNull
}

/// The type of the input field that offers `op` on values of type `base`.
pub open spec fn op_type(op: FilterOperation, base: Seq<char>) -> TypeRefModel {
    if takes_list(op) {
        list_model(non_null_model(named_model(base)))
    } else {
        named_model(base)
    }
}

/// Distinct operations are offered under distinct field names.
pub proof fn lemma_op_field_injective(a: FilterOperation, b: FilterOperation)
    ensures
        a != b ==> op_field(a) != op_field(b),
{
    reveal_strlit("eq");
    reveal_strlit("ne");
    reveal_strlit("gt");
    reveal_strlit("gte");
    reveal_strlit("lt");
    reveal_strlit("lte");
    reveal_strlit("is_in");
    reveal_strlit("is_not_in");
    reveal_strlit("is_null");
    reveal_strlit("is_not_null");
    reveal_strlit("contains");
    reveal_strlit("starts_with");
    reveal_strlit("ends_with");
    reveal_strlit("like");
    reveal_strlit("not_like");
    reveal_strlit("between");
    reveal_strlit("not_between");
    if a != b && op_field(a) == op_field(b) {
        assert(op_field(a).len() == op_field(b).len());
        assert(op_field(a)[0] == op_field(b)[0]);
        assert(op_field(a)[1] == op_field(b)[1]);
        if op_field(a).len() > 4 {
            assert(op_field(a)[3] == op_field(b)[3]);
            assert(op_field(a)[4] == op_field(b)[4]);
        }
    }
}

/// Every operation, in the order in which they are declared.
pub open spec fn all_ops() -> Seq<FilterOperation> {
    seq![
        FilterOperation::Equals,
        FilterOperation::NotEquals,
        FilterOperation::GreaterThan,
        FilterOperation::GreaterThanEquals,
        FilterOperation::LessThan,
        FilterOperation::LessThanEquals,
        FilterOperation::IsIn,
        FilterOperation::IsNotIn,
        FilterOperation::IsNull,
        FilterOperation::IsNotNull,
        FilterOperation::Contains,
        FilterOperation::StartsWith,
        FilterOperation::EndsWith,
        FilterOperation::Like,
        FilterOperation::NotLike,
        FilterOperation::Between,
        FilterOperation::NotBetween,
    ]
}

/// The operations in strictly increasing declaration order: each at most
/// once.
pub open spec fn ops_sorted(ops: Seq<FilterOperation>) -> bool {
    forall|i: int, j: int| 0 <= i < j < ops.len() ==> rank(#[trigger] ops[i]) < rank(#[trigger] ops[j])
}

impl FilterOperation {
    /// The position of the operation in declaration order.
    pub fn rank(&self) -> (r: u8)
        ensures
            r == rank(*self),
    {
        match self {
            FilterOperation::Equals => 0,
            FilterOperation::NotEquals => 1,
            FilterOperation::GreaterThan => 2,
            FilterOperation::GreaterThanEquals => 3,
            FilterOperation::LessThan => 4,
            FilterOperation::LessThanEquals => 5,
            FilterOperation::IsIn => 6,
            FilterOperation::IsNotIn => 7,
            FilterOperation::IsNull => 8,
            FilterOperation::IsNotNull => 9,
            FilterOperation::Contains => 10,
            FilterOperation::StartsWith => 11,
            FilterOperation::EndsWith => 12,
            FilterOperation::Like => 13,
            FilterOperation::NotLike => 14,
            FilterOperation::Between => 15,
            FilterOperation::NotBetween => 16,
        }
    }

    /// The name of the input field that offers the operation.
    pub fn field_name(&self) -> (r: &'static str)
        ensures
            r@ == op_field(*self),
    {
        match self {
            FilterOperation::Equals => "eq",
            FilterOperation::NotEquals => "ne",
            FilterOperation::GreaterThan => "gt",
            FilterOperation::GreaterThanEquals => "gte",
            FilterOperation::LessThan => "lt",
            FilterOperation::LessThanEquals => "lte",
            FilterOperation::IsIn => "is_in",
            FilterOperation::IsNotIn => "is_not_in",
            FilterOperation::IsNull => "is_null",
            FilterOperation::IsNotNull => "is_not_null",
            FilterOperation::Contains => "contains",
            FilterOperation::StartsWith => "starts_with",
            FilterOperation::EndsWith => "ends_with",
            FilterOperation::Like => "like",
            FilterOperation::NotLike => "not_like",
            FilterOperation::Between => "between",
            FilterOperation::NotBetween => "not_between",
        }
    }

    /// Whether the operation takes a list of values.
    pub fn takes_list(&self) -> (r: bool)
        ensures
            r == takes_list(*self),
    {
        match self {
            FilterOperation::IsIn => true,
            FilterOperation::IsNotIn => true,
            FilterOperation::Between => true,
            FilterOperation::NotBetween => true,
            _ => false,
        }
    }
}

/// A filter input type: its name, the type of the values it compares and
/// the operations it offers.
#[derive(Debug)]
pub struct FilterInfo {
    pub name: String,
    pub base_type: String,
    /// The operations, in declaration order, each once.
    pub supported_operations: Vec<FilterOperation>,
}

/// `o` is the input object that offers the operations of `info`: one field
/// per operation, in order, named after the operation and typed by the
/// base type (a list of non-null base values for the operations that take
/// a list).
pub open spec fn filter_input_of(o: Object, info: FilterInfo) -> bool {
    &&& o.wf()
    &&& o.name@ == info.name@
    &&& o.io == IO::Input
    &&& o.description is None
    &&& o.namespace is None
    &&& field_list(o.fields).len() == info.supported_operations@.len()
    &&& names_distinct(field_list(o.fields))
    &&& forall|i: int|
        0 <= i < field_list(o.fields).len() ==> {
            &&& (#[trigger] field_list(o.fields)[i]).name@ == op_field(info.supported_operations@[i])
            &&& field_list(o.fields)[i].ty@ == op_type(info.supported_operations@[i], info.base_type@)
            &&& !field_list(o.fields)[i].has_resolver
            &&& field_list(o.fields)[i].arguments.spec_entries().len() == 0
        }
}

impl FilterInfo {
    /// The operations are in declaration order, each once.
    pub open spec fn wf(&self) -> bool {
        ops_sorted(self.supported_operations@)
    }

    /// A filter input type offering the given operations; an operation that
    /// is given twice is offered once, and the operations are kept in
    /// declaration order.
    pub fn new(name: &str, base_type: &str, operations: &[FilterOperation]) -> (r: Self)
        ensures
            r.name@ == name@,
            r.base_type@ == base_type@,
            r.wf(),
            forall|op: FilterOperation|
                r.supported_operations@.contains(op) <==> operations@.contains(op),
    {
        let all: [FilterOperation; 17] = [
            FilterOperation::Equals,
            FilterOperation::NotEquals,
            FilterOperation::GreaterThan,
            FilterOperation::GreaterThanEquals,
            FilterOperation::LessThan,
            FilterOperation::LessThanEquals,
            FilterOperation::IsIn,
            FilterOperation::IsNotIn,
            FilterOperation::IsNull,
            FilterOperation::IsNotNull,
            FilterOperation::Contains,
            FilterOperation::StartsWith,
            FilterOperation::EndsWith,
            FilterOperation::Like,
            FilterOperation::NotLike,
            FilterOperation::Between,
            FilterOperation::NotBetween,
        ];
        proof {
            assert(all@ =~= all_ops());
        }
        let mut ops: Vec<FilterOperation> = Vec::new();
        let mut k: usize = 0;
        while k < 17
            invariant
                k <= 17,
                all@ == all_ops(),
                ops_sorted(ops@),
                forall|i: int| 0 <= i < ops@.len() ==> rank(#[trigger] ops@[i]) < k,
                forall|op: FilterOperation|
                    rank(op) < k ==> (ops@.contains(op) <==> operations@.contains(op)),
                forall|op: FilterOperation| rank(op) >= k ==> !ops@.contains(op),
            decreases 17 - k,
        {
            let op = all[k];
            assert(rank(op) == k);
            let mut found = false;
            let mut i: usize = 0;
            while i < operations.len()
                invariant
                    i <= operations@.len(),
                    found <==> exists|j: int| 0 <= j < i && operations@[j] == op,
                decreases operations@.len() - i,
            {
                if operations[i] == op {
                    found = true;
                }
                i = i + 1;
            }
            let ghost before = ops@;
            if found {
                ops.push(op);
                proof {
                    assert forall|o: FilterOperation| rank(o) < k + 1 implies (ops@.contains(o)
                        <==> operations@.contains(o)) by {
                        if rank(o) == k {
                            assert(o == op);
                            assert(ops@[before.len() as int] == o);
                        } else {
                            if before.contains(o) {
                                let w = choose|w: int| 0 <= w < before.len() && before[w] == o;
                                assert(ops@[w] == o);
                            }
                            if ops@.contains(o) {
                                let w = choose|w: int| 0 <= w < ops@.len() && ops@[w] == o;
                                if w < before.len() {
                                    assert(before[w] == o);
                                }
                            }
                        }
                    }
                    assert forall|o: FilterOperation| rank(o) >= k + 1 implies !ops@.contains(o) by {
                        if ops@.contains(o) {
                            let w = choose|w: int| 0 <= w < ops@.len() && ops@[w] == o;
                            if w < before.len() {
                                assert(before[w] == o);
                                assert(before.contains(o));
                            }
                        }
                    }
                }
            } else {
                proof {
                    assert forall|o: FilterOperation| rank(o) < k + 1 implies (ops@.contains(o)
                        <==> operations@.contains(o)) by {
                        if rank(o) == k {
                            assert(o == op);
                            if operations@.contains(o) {
                                let w = choose|w: int|
                                    0 <= w < operations@.len() && operations@[w] == o;
                                assert(operations@[w] == op);
                            }
                        }
                    }
                }
            }
            k = k + 1;
        }
        FilterInfo {
            name: owned(name),
            base_type: owned(base_type),
            supported_operations: ops,
        }
    }

    /// The input object that offers the operations: one field per
    /// operation, in order, named after the operation and typed by the base
    /// type (a list of non-null base values for the operations that take a
    /// list).
    pub fn generate_filter_input(&self) -> (r: Object)
        requires
            self.wf(),
        ensures
            r.wf(),
            filter_input_of(r, *self),
    {
        let ops = &self.supported_operations;
        let mut object = Object::new(self.name.as_str(), IO::Input);
        let mut i: usize = 0;
        while i < ops.len()
            invariant
                i <= ops@.len(),
                ops_sorted(ops@),
                object.wf(),
                object.name@ == self.name@,
                object.io == IO::Input,
                object.description is None,
                object.namespace is None,
                field_list(object.fields).len() == i,
                forall|j: int|
                    0 <= j < i ==> {
                        &&& (#[trigger] field_list(object.fields)[j]).name@ == op_field(ops@[j])
                        &&& field_list(object.fields)[j].ty@ == op_type(ops@[j], self.base_type@)
                        &&& !field_list(object.fields)[j].has_resolver
                        &&& field_list(object.fields)[j].arguments.spec_entries().len() == 0
                    },
            decreases ops@.len() - i,
        {
            let op = ops[i];
            let ty = if op.takes_list() {
                TypeRef::named_nn_list(self.base_type.as_str())
            } else {
                TypeRef::named(self.base_type.as_str())
            };
            let field = Field::input(op.field_name(), ty);
            proof {
                assert forall|j: int| 0 <= j < field_list(object.fields).len() implies field_list(object.fields)[j].name@
                    != field.name@ by {
                    assert(rank(ops@[j]) < rank(ops@[i as int]));
                    lemma_op_field_injective(ops@[j], ops@[i as int]);
                }
            }
            object = object.field(field);
            i = i + 1;
        }
        proof {
            assert forall|a: int, b: int| 0 <= a < b < field_list(object.fields).len() implies #[trigger] field_list(object.fields)[a].name@
                != #[trigger] field_list(object.fields)[b].name@ by {
                assert(rank(ops@[a]) < rank(ops@[b]));
                lemma_op_field_injective(ops@[a], ops@[b]);
            }
        }
        object
    }
}

/// The comparisons, membership tests and null tests.
pub open spec fn comparison_ops() -> Seq<FilterOperation> {
    all_ops().take(10)
}

/// The comparisons, membership tests, null tests and range tests.
pub open spec fn range_ops() -> Seq<FilterOperation> {
    comparison_ops() + seq![FilterOperation::Between, FilterOperation::NotBetween]
}

/// The position of each operation in `all_ops` is its rank.
pub proof fn lemma_all_ops_ranks()
    ensures
        all_ops().len() == 17,
        forall|i: int| 0 <= i < 17 ==> rank(#[trigger] all_ops()[i]) == i,
{
    assert forall|i: int| 0 <= i < 17 implies rank(#[trigger] all_ops()[i]) == i by {
        if i == 0 {
        } else if i == 1 {
        } else if i == 2 {
        } else if i == 3 {
        } else if i == 4 {
        } else if i == 5 {
        } else if i == 6 {
        } else if i == 7 {
        } else if i == 8 {
        } else if i == 9 {
        } else if i == 10 {
        } else if i == 11 {
        } else if i == 12 {
        } else if i == 13 {
        } else if i == 14 {
        } else if i == 15 {
        } else {
        }
    }
}

/// The three operation sets in use are in declaration order.
pub proof fn lemma_default_ops_sorted()
    ensures
        ops_sorted(all_ops()),
        ops_sorted(comparison_ops()),
        ops_sorted(range_ops()),
{
    lemma_all_ops_ranks();
    let r = range_ops();
    assert forall|i: int| 0 <= i < r.len() implies rank(#[trigger] r[i]) == if i < 10 {
        i
    } else {
        i + 5
    } by {
        if i < 10 {
            assert(r[i] == all_ops()[i]);
        }
    }
}

fn all_operations() -> (v: Vec<FilterOperation>)
    ensures
        v@ == all_ops(),
{
    let mut v: Vec<FilterOperation> = Vec::new();
        v.push(FilterOperation::Equals);
        v.push(FilterOperation::NotEquals);
        v.push(FilterOperation::GreaterThan);
        v.push(FilterOperation::GreaterThanEquals);
        v.push(FilterOperation::LessThan);
        v.push(FilterOperation::LessThanEquals);
        v.push(FilterOperation::IsIn);
        v.push(FilterOperation::IsNotIn);
        v.push(FilterOperation::IsNull);
        v.push(FilterOperation::IsNotNull);
        v.push(FilterOperation::Contains);
        v.push(FilterOperation::StartsWith);
        v.push(FilterOperation::EndsWith);
        v.push(FilterOperation::Like);
        v.push(FilterOperation::NotLike);
        v.push(FilterOperation::Between);
        v.push(FilterOperation::NotBetween);
    assert(v@ =~= all_ops());
    v
}

fn comparison_operations() -> (v: Vec<FilterOperation>)
    ensures
        v@ == comparison_ops(),
{
    let mut v: Vec<FilterOperation> = Vec::new();
        v.push(FilterOperation::Equals);
        v.push(FilterOperation::NotEquals);
        v.push(FilterOperation::GreaterThan);
        v.push(FilterOperation::GreaterThanEquals);
        v.push(FilterOperation::LessThan);
        v.push(FilterOperation::LessThanEquals);
        v.push(FilterOperation::IsIn);
        v.push(FilterOperation::IsNotIn);
        v.push(FilterOperation::IsNull);
        v.push(FilterOperation::IsNotNull);
    assert(v@ =~= comparison_ops());
    v
}

fn range_operations() -> (v: Vec<FilterOperation>)
    ensures
        v@ == range_ops(),
{
    let mut v: Vec<FilterOperation> = Vec::new();
        v.push(FilterOperation::Equals);
        v.push(FilterOperation::NotEquals);
        v.push(FilterOperation::GreaterThan);
        v.push(FilterOperation::GreaterThanEquals);
        v.push(FilterOperation::LessThan);
        v.push(FilterOperation::LessThanEquals);
        v.push(FilterOperation::IsIn);
        v.push(FilterOperation::IsNotIn);
        v.push(FilterOperation::IsNull);
        v.push(FilterOperation::IsNotNull);
        v.push(FilterOperation::Between);
        v.push(FilterOperation::NotBetween);
    assert(v@ =~= range_ops());
    v
}

/// A filter input type offering exactly `operations`, in the order given.
fn filter_info(name: &str, base_type: &str, operations: Vec<FilterOperation>) -> (r: FilterInfo)
    ensures
        r.name@ == name@,
        r.base_type@ == base_type@,
        r.supported_operations@ == operations@,
{
    FilterInfo { name: owned(name), base_type: owned(base_type), supported_operations: operations }
}

/// The name of the Protobuf `int32` scalar type.
pub const PROTO_INT32: &'static str = "int32";

/// The name of the Protobuf `int64` scalar type.
pub const PROTO_INT64: &'static str = "int64";

/// The name of the Protobuf `uint32` scalar type.
pub const PROTO_UINT32: &'static str = "uint32";

/// The name of the Protobuf `uint64` scalar type.
pub const PROTO_UINT64: &'static str = "uint64";

/// The name of the Protobuf `sint32` scalar type.
pub const PROTO_SINT32: &'static str = "sint32";

/// The name of the Protobuf `sint64` scalar type.
pub const PROTO_SINT64: &'static str = "sint64";

/// The name of the Protobuf `float` scalar type.
pub const PROTO_FLOAT: &'static str = "float";

/// The name of the Protobuf `double` scalar type.
pub const PROTO_DOUBLE: &'static str = "double";

/// The name of the Protobuf `bool` scalar type.
pub const PROTO_BOOL: &'static str = "bool";

/// The name of the Protobuf `string` scalar type.
pub const PROTO_STRING: &'static str = "string";

/// The name of the Protobuf `bytes` scalar type.
pub const PROTO_BYTES: &'static str = "bytes";

/// The filter input types of the GraphQL schema, one per kind of column.
#[derive(Debug)]
pub struct GraphQLFilterTypes {
    pub string_filter_info: FilterInfo,
    pub text_filter_info: FilterInfo,
    pub integer_filter_info: FilterInfo,
    pub float_filter_info: FilterInfo,
    pub boolean_filter_info: FilterInfo,
    pub id_filter_info: FilterInfo,
}

/// The default GraphQL filter input types: their names, base types and operations.
pub open spec fn graphql_defaults(t: GraphQLFilterTypes) -> bool {
    &&& t.string_filter_info.name@ == "StringFilterInput"@
    &&& t.string_filter_info.base_type@ == TypeRef::STRING@
    &&& t.string_filter_info.supported_operations@ == all_ops()
    &&& t.text_filter_info.name@ == "TextFilterInput"@
    &&& t.text_filter_info.base_type@ == TypeRef::STRING@
    &&& t.text_filter_info.supported_operations@ == range_ops()
    &&& t.integer_filter_info.name@ == "IntegerFilterInput"@
    &&& t.integer_filter_info.base_type@ == TypeRef::INT@
    &&& t.integer_filter_info.supported_operations@ == range_ops()
    &&& t.float_filter_info.name@ == "FloatFilterInput"@
    &&& t.float_filter_info.base_type@ == TypeRef::FLOAT@
    &&& t.float_filter_info.supported_operations@ == range_ops()
    &&& t.boolean_filter_info.name@ == "BooleanFilterInput"@
    &&& t.boolean_filter_info.base_type@ == TypeRef::BOOLEAN@
    &&& t.boolean_filter_info.supported_operations@ == comparison_ops()
    &&& t.id_filter_info.name@ == "IdentityFilterInput"@
    &&& t.id_filter_info.base_type@ == TypeRef::STRING@
    &&& t.id_filter_info.supported_operations@ == range_ops()
    &&& t.text_filter_info.wf()
    &&& t.string_filter_info.wf()
    &&& t.integer_filter_info.wf()
    &&& t.float_filter_info.wf()
    &&& t.boolean_filter_info.wf()
    &&& t.id_filter_info.wf()
}

impl Default for GraphQLFilterTypes {
    fn default() -> (r: Self)
        ensures
            graphql_defaults(r),
    {
        proof {
            lemma_default_ops_sorted();
        }
        GraphQLFilterTypes {
            string_filter_info: filter_info("StringFilterInput", TypeRef::STRING, all_operations()),
            text_filter_info: filter_info("TextFilterInput", TypeRef::STRING, range_operations()),
            integer_filter_info: filter_info("IntegerFilterInput", TypeRef::INT, range_operations()),
            float_filter_info: filter_info("FloatFilterInput", TypeRef::FLOAT, range_operations()),
            boolean_filter_info: filter_info("BooleanFilterInput", TypeRef::BOOLEAN, comparison_operations()),
            id_filter_info: filter_info("IdentityFilterInput", TypeRef::STRING, range_operations()),
        }
    }
}

/// The filter input types of the Protobuf service, one per scalar type.
#[derive(Debug)]
pub struct ProtoFilterTypes {
    pub int32_filter_info: FilterInfo,
    pub int64_filter_info: FilterInfo,
    pub uint32_filter_info: FilterInfo,
    pub uint64_filter_info: FilterInfo,
    pub sint32_filter_info: FilterInfo,
    pub sint64_filter_info: FilterInfo,
    pub float_filter_info: FilterInfo,
    pub double_filter_info: FilterInfo,
    pub boolean_filter_info: FilterInfo,
    pub string_filter_info: FilterInfo,
    pub binary_filter_info: FilterInfo,
}

/// The default Protobuf filter input types: their names, base types and operations.
pub open spec fn proto_defaults(t: ProtoFilterTypes) -> bool {
    &&& t.int32_filter_info.name@ == "Int32FilterInput"@
    &&& t.int32_filter_info.base_type@ == PROTO_INT32@
    &&& t.int32_filter_info.supported_operations@ == range_ops()
    &&& t.int64_filter_info.name@ == "Int64FilterInput"@
    &&& t.int64_filter_info.base_type@ == PROTO_INT64@
    &&& t.int64_filter_info.supported_operations@ == range_ops()
    &&& t.uint32_filter_info.name@ == "Uint32FilterInput"@
    &&& t.uint32_filter_info.base_type@ == PROTO_UINT32@
    &&& t.uint32_filter_info.supported_operations@ == range_ops()
    &&& t.uint64_filter_info.name@ == "Uint64FilterInput"@
    &&& t.uint64_filter_info.base_type@ == PROTO_UINT64@
    &&& t.uint64_filter_info.supported_operations@ == range_ops()
    &&& t.sint32_filter_info.name@ == "Sint32FilterInput"@
    &&& t.sint32_filter_info.base_type@ == PROTO_SINT32@
    &&& t.sint32_filter_info.supported_operations@ == range_ops()
    &&& t.sint64_filter_info.name@ == "Sint64FilterInput"@
    &&& t.sint64_filter_info.base_type@ == PROTO_SINT64@
    &&& t.sint64_filter_info.supported_operations@ == range_ops()
    &&& t.float_filter_info.name@ == "FloatFilterInput"@
    &&& t.float_filter_info.base_type@ == PROTO_FLOAT@
    &&& t.float_filter_info.supported_operations@ == range_ops()
    &&& t.double_filter_info.name@ == "DoubleFilterInput"@
    &&& t.double_filter_info.base_type@ == PROTO_DOUBLE@
    &&& t.double_filter_info.supported_operations@ == range_ops()
    &&& t.boolean_filter_info.name@ == "BooleanFilterInput"@
    &&& t.boolean_filter_info.base_type@ == PROTO_BOOL@
    &&& t.boolean_filter_info.supported_operations@ == comparison_ops()
    &&& t.string_filter_info.name@ == "StringFilterInput"@
    &&& t.string_filter_info.base_type@ == PROTO_STRING@
    &&& t.string_filter_info.supported_operations@ == all_ops()
    &&& t.binary_filter_info.name@ == "BinaryFilterInput"@
    &&& t.binary_filter_info.base_type@ == PROTO_BYTES@
    &&& t.binary_filter_info.supported_operations@ == all_ops()
    &&& t.int32_filter_info.wf()
    &&& t.int64_filter_info.wf()
    &&& t.uint32_filter_info.wf()
    &&& t.uint64_filter_info.wf()
    &&& t.sint32_filter_info.wf()
    &&& t.sint64_filter_info.wf()
    &&& t.float_filter_info.wf()
    &&& t.double_filter_info.wf()
    &&& t.boolean_filter_info.wf()
    &&& t.string_filter_info.wf()
    &&& t.binary_filter_info.wf()
}

impl Default for ProtoFilterTypes {
    fn default() -> (r: Self)
        ensures
            proto_defaults(r),
    {
        proof {
            lemma_default_ops_sorted();
        }
        ProtoFilterTypes {
            int32_filter_info: filter_info("Int32FilterInput", PROTO_INT32, range_operations()),
            int64_filter_info: filter_info("Int64FilterInput", PROTO_INT64, range_operations()),
            uint32_filter_info: filter_info("Uint32FilterInput", PROTO_UINT32, range_operations()),
            uint64_filter_info: filter_info("Uint64FilterInput", PROTO_UINT64, range_operations()),
            sint32_filter_info: filter_info("Sint32FilterInput", PROTO_SINT32, range_operations()),
            sint64_filter_info: filter_info("Sint64FilterInput", PROTO_SINT64, range_operations()),
            float_filter_info: filter_info("FloatFilterInput", PROTO_FLOAT, range_operations()),
            double_filter_info: filter_info("DoubleFilterInput", PROTO_DOUBLE, range_operations()),
            boolean_filter_info: filter_info("BooleanFilterInput", PROTO_BOOL, comparison_operations()),
            string_filter_info: filter_info("StringFilterInput", PROTO_STRING, all_operations()),
            binary_filter_info: filter_info("BinaryFilterInput", PROTO_BYTES, all_operations()),
        }
    }
}

/// The filter input types of both APIs.
#[derive(Debug)]
pub struct FilterTypesMapConfig {
    /// Filter kinds set for particular columns, by the key
    /// `entity.column`.
    pub overwrites: NameMap<Option<FilterTypesMapWrapper>>,
    /// The keys `entity.column` under which custom condition functions are
    /// configured; the functions themselves build database conditions and
    /// are kept by the caller under the same keys.
    pub condition_functions: NameMap<()>,
    pub proto: ProtoFilterTypes,
    pub graphql: GraphQLFilterTypes,
}

impl Default for FilterTypesMapConfig {
    fn default() -> (r: Self)
        ensures
            r.overwrites.spec_entries().len() == 0,
            r.condition_functions.spec_entries().len() == 0,
            proto_defaults(r.proto),
            graphql_defaults(r.graphql),
    {
        FilterTypesMapConfig {
            overwrites: NameMap::new(),
            condition_functions: NameMap::new(),
            proto: ProtoFilterTypes::default(),
            graphql: GraphQLFilterTypes::default(),
        }
    }
}

/// The kind of a database column, as far as filters and GraphQL types
/// depend on it: custom types and enumerations carry their names.
#[derive(Debug)]
pub enum ColumnKind {
    Char,
    String,
    Text,
    Blob,
    TinyInteger,
    SmallInteger,
    Integer,
    BigInteger,
    TinyUnsigned,
    SmallUnsigned,
    Unsigned,
    BigUnsigned,
    Float,
    Double,
    Decimal,
    DateTime,
    Timestamp,
    TimestampWithTimeZone,
    Time,
    Date,
    Year,
    Interval,
    Binary,
    VarBinary,
    Bit,
    VarBit,
    Boolean,
    Money,
    Json,
    JsonBinary,
    Uuid,
    Custom(String),
    Enum(String),
    Array,
    Vector,
    Cidr,
    Inet,
    MacAddr,
    LTree,
    /// A kind of column that none of the others describes.
    Other,
}

/// The kinds of GraphQL filter inputs.
#[derive(Debug)]
pub enum GraphQlFilterType {
    Text,
    String,
    Integer,
    Float,
    Boolean,
    Id,
    Enumeration(String),
    Custom(String),
}

/// The GraphQL filter kind of a column kind that carries no name: `None`
/// where the column cannot be filtered.
pub open spec fn graphql_filter_kind(c: ColumnKind) -> Option<GraphQlFilterType> {
    match c {
        ColumnKind::Char => Some(GraphQlFilterType::Text),
        ColumnKind::String => Some(GraphQlFilterType::String),
        ColumnKind::Text => Some(GraphQlFilterType::String),
        ColumnKind::TinyInteger => Some(GraphQlFilterType::Integer),
        ColumnKind::SmallInteger => Some(GraphQlFilterType::Integer),
        ColumnKind::Integer => Some(GraphQlFilterType::Integer),
        ColumnKind::BigInteger => Some(GraphQlFilterType::Integer),
        ColumnKind::TinyUnsigned => Some(GraphQlFilterType::Integer),
        ColumnKind::SmallUnsigned => Some(GraphQlFilterType::Integer),
        ColumnKind::Unsigned => Some(GraphQlFilterType::Integer),
        ColumnKind::BigUnsigned => Some(GraphQlFilterType::Integer),
        ColumnKind::Float => Some(GraphQlFilterType::Float),
        ColumnKind::Double => Some(GraphQlFilterType::Float),
        ColumnKind::Decimal => Some(GraphQlFilterType::Text),
        ColumnKind::DateTime => Some(GraphQlFilterType::Text),
        ColumnKind::Timestamp => Some(GraphQlFilterType::Text),
        ColumnKind::TimestampWithTimeZone => Some(GraphQlFilterType::Text),
        ColumnKind::Time => Some(GraphQlFilterType::Text),
        ColumnKind::Date => Some(GraphQlFilterType::Text),
        ColumnKind::Year => Some(GraphQlFilterType::Integer),
        ColumnKind::Interval => Some(GraphQlFilterType::Text),
        ColumnKind::Binary => Some(GraphQlFilterType::String),
        ColumnKind::VarBinary => Some(GraphQlFilterType::String),
        ColumnKind::Bit => Some(GraphQlFilterType::String),
        ColumnKind::VarBit => Some(GraphQlFilterType::String),
        ColumnKind::Boolean => Some(GraphQlFilterType::Boolean),
        ColumnKind::Money => Some(GraphQlFilterType::Text),
        ColumnKind::Uuid => Some(GraphQlFilterType::Text),
        ColumnKind::Cidr => Some(GraphQlFilterType::Text),
        ColumnKind::Inet => Some(GraphQlFilterType::Text),
        ColumnKind::MacAddr => Some(GraphQlFilterType::Text),
        _ => None,
    }
}

/// The filter input type that stands for a kind of GraphQL filter.
pub open spec fn graphql_filter_info(t: GraphQlFilterType, types: GraphQLFilterTypes) -> Option<FilterInfo> {
    match t {
        GraphQlFilterType::Text => Some(types.text_filter_info),
        GraphQlFilterType::String => Some(types.string_filter_info),
        GraphQlFilterType::Integer => Some(types.integer_filter_info),
        GraphQlFilterType::Float => Some(types.float_filter_info),
        GraphQlFilterType::Boolean => Some(types.boolean_filter_info),
        GraphQlFilterType::Id => Some(types.id_filter_info),
        _ => None,
    }
}

/// What reading a filter asks for: clauses over the column, the
/// enumeration filter, or a custom condition function.
#[derive(Debug)]
pub enum FilterPlan {
    Clauses(Vec<FilterClause>),
    Enumeration,
    /// Call the custom condition function configured under this key, and
    /// take its result as the condition.
    CustomFunction(String),
    /// Leave the condition as it is: a custom filter with no condition
    /// function configured.
    Unchanged,
}

/// What a custom filter does where the condition function of its column
/// is looked up under `key` among the configured ones: call it, or leave
/// the condition as it is where none is configured.
pub open spec fn custom_plan_of(r: FilterPlan, key: Seq<char>, condition_functions: NameMap<()>) -> bool {
    if condition_functions.spec_contains(key) {
        r matches FilterPlan::CustomFunction(k) && k@ == key
    } else {
        r is Unchanged
    }
}

/// The plan of a custom filter: call the condition function configured
/// under `key`, or leave the condition as it is where none is configured.
pub fn custom_plan(key: &str, condition_functions: &NameMap<()>) -> (r: FilterPlan)
    ensures
        custom_plan_of(r, key@, *condition_functions),
{
    if condition_functions.contains_key(key) {
        FilterPlan::CustomFunction(owned(key))
    } else {
        FilterPlan::Unchanged
    }
}

impl GraphQlFilterType {
    /// The filter kind of a column kind; `None` where the column cannot be
    /// filtered.
    pub fn to_filter_type(column: &ColumnKind) -> (r: Option<GraphQlFilterType>)
        ensures
            match column {
                ColumnKind::Custom(n) => r matches Some(GraphQlFilterType::Custom(m)) && m@ == n@,
                ColumnKind::Enum(n) => r matches Some(GraphQlFilterType::Enumeration(m)) && m@
                    == n@,
                _ => r == graphql_filter_kind(*column),
            },
    {
        match column {
            ColumnKind::Char => Some(GraphQlFilterType::Text),
            ColumnKind::String => Some(GraphQlFilterType::String),
            ColumnKind::Text => Some(GraphQlFilterType::String),
            ColumnKind::TinyInteger => Some(GraphQlFilterType::Integer),
            ColumnKind::SmallInteger => Some(GraphQlFilterType::Integer),
            ColumnKind::Integer => Some(GraphQlFilterType::Integer),
            ColumnKind::BigInteger => Some(GraphQlFilterType::Integer),
            ColumnKind::TinyUnsigned => Some(GraphQlFilterType::Integer),
            ColumnKind::SmallUnsigned => Some(GraphQlFilterType::Integer),
            ColumnKind::Unsigned => Some(GraphQlFilterType::Integer),
            ColumnKind::BigUnsigned => Some(GraphQlFilterType::Integer),
            ColumnKind::Float => Some(GraphQlFilterType::Float),
            ColumnKind::Double => Some(GraphQlFilterType::Float),
            ColumnKind::Decimal => Some(GraphQlFilterType::Text),
            ColumnKind::DateTime => Some(GraphQlFilterType::Text),
            ColumnKind::Timestamp => Some(GraphQlFilterType::Text),
            ColumnKind::TimestampWithTimeZone => Some(GraphQlFilterType::Text),
            ColumnKind::Time => Some(GraphQlFilterType::Text),
            ColumnKind::Date => Some(GraphQlFilterType::Text),
            ColumnKind::Year => Some(GraphQlFilterType::Integer),
            ColumnKind::Interval => Some(GraphQlFilterType::Text),
            ColumnKind::Binary => Some(GraphQlFilterType::String),
            ColumnKind::VarBinary => Some(GraphQlFilterType::String),
            ColumnKind::Bit => Some(GraphQlFilterType::String),
            ColumnKind::VarBit => Some(GraphQlFilterType::String),
            ColumnKind::Blob => None,
            ColumnKind::Boolean => Some(GraphQlFilterType::Boolean),
            ColumnKind::Money => Some(GraphQlFilterType::Text),
            ColumnKind::Json => None,
            ColumnKind::JsonBinary => None,
            ColumnKind::Uuid => Some(GraphQlFilterType::Text),
            ColumnKind::Custom(name) => Some(GraphQlFilterType::Custom(name.clone())),
            ColumnKind::Enum(name) => Some(GraphQlFilterType::Enumeration(name.clone())),
            ColumnKind::Array => None,
            ColumnKind::Cidr => Some(GraphQlFilterType::Text),
            ColumnKind::Inet => Some(GraphQlFilterType::Text),
            ColumnKind::MacAddr => Some(GraphQlFilterType::Text),
            _ => None,
        }
    }

    /// The name of the filter input type; `enum_filter_name` is the name
    /// of the filter input type of the enumeration, for an enumeration.
    pub fn to_value(&self, types: &GraphQLFilterTypes, enum_filter_name: &str) -> (r: String)
        ensures
            match self {
                GraphQlFilterType::Enumeration(_) => r@ == enum_filter_name@,
                GraphQlFilterType::Custom(n) => r@ == n@,
                _ => r@ == graphql_filter_info(*self, *types)->0.name@,
            },
    {
        match self {
            GraphQlFilterType::Text => types.text_filter_info.name.clone(),
            GraphQlFilterType::String => types.string_filter_info.name.clone(),
            GraphQlFilterType::Integer => types.integer_filter_info.name.clone(),
            GraphQlFilterType::Float => types.float_filter_info.name.clone(),
            GraphQlFilterType::Boolean => types.boolean_filter_info.name.clone(),
            GraphQlFilterType::Id => types.id_filter_info.name.clone(),
            GraphQlFilterType::Enumeration(_) => owned(enum_filter_name),
            GraphQlFilterType::Custom(name) => name.clone(),
        }
    }

    /// Reads `filter` for a column of this kind: the clauses of the filter
    /// input type, or the enumeration filter, or for a custom filter the
    /// condition function configured under `condition_key` among
    /// `condition_functions`, if any.
    pub fn prepare(
        &self,
        types: &GraphQLFilterTypes,
        filter: &ObjectAccessor,
        condition_key: &str,
        condition_functions: &NameMap<()>,
    ) -> (r: SeaResult<FilterPlan>)
        requires
            graphql_filter_info(*self, *types) matches Some(info) ==> defined(
                clauses_model(info.supported_operations@, filter.entries()),
            ),
        ensures
            match self {
                GraphQlFilterType::Enumeration(_) => r matches Ok(FilterPlan::Enumeration),
                GraphQlFilterType::Custom(_) => r matches Ok(p) && custom_plan_of(
                    p,
                    condition_key@,
                    *condition_functions,
                ),
                _ => plan_outcome(
                    r,
                    clauses_model(
                        graphql_filter_info(*self, *types)->0.supported_operations@,
                        filter.entries(),
                    ),
                ),
            },
    {
        let info = match self {
            GraphQlFilterType::Text => &types.text_filter_info,
            GraphQlFilterType::String => &types.string_filter_info,
            GraphQlFilterType::Integer => &types.integer_filter_info,
            GraphQlFilterType::Float => &types.float_filter_info,
            GraphQlFilterType::Boolean => &types.boolean_filter_info,
            GraphQlFilterType::Id => &types.id_filter_info,
            GraphQlFilterType::Enumeration(_) => {
                return Ok(FilterPlan::Enumeration);
            },
            GraphQlFilterType::Custom(_) => {
                return Ok(custom_plan(condition_key, condition_functions));
            },
        };
        match read_clauses(&info.supported_operations, filter) {
            Ok(clauses) => Ok(FilterPlan::Clauses(clauses)),
            Err(e) => Err(e),
        }
    }

    /// The filter input objects of the GraphQL filter types, in the order
    /// text, string, integer, float, boolean, id.
    pub fn get_input_filters(types: &GraphQLFilterTypes) -> (r: Vec<Object>)
        requires
            types.text_filter_info.wf(),
            types.string_filter_info.wf(),
            types.integer_filter_info.wf(),
            types.float_filter_info.wf(),
            types.boolean_filter_info.wf(),
            types.id_filter_info.wf(),
        ensures
            r@.len() == 6,
            forall|j: int|
                0 <= j < 6 ==> filter_input_of(#[trigger] r@[j], graphql_input_filter_infos(*types)[j]),
    {
        let mut v: Vec<Object> = Vec::new();
        v.push(types.text_filter_info.generate_filter_input());
        v.push(types.string_filter_info.generate_filter_input());
        v.push(types.integer_filter_info.generate_filter_input());
        v.push(types.float_filter_info.generate_filter_input());
        v.push(types.boolean_filter_info.generate_filter_input());
        v.push(types.id_filter_info.generate_filter_input());
        v
    }
}

/// A clause a filter asks for: an operation and its values (none for the
/// null tests, the two bounds for the range tests).
#[derive(Debug)]
pub struct FilterClause {
    pub operation: FilterOperation,
    pub values: Vec<Value>,
}

/// The models of a sequence of clauses.
pub open spec fn clause_views(s: Seq<FilterClause>) -> Seq<(FilterOperation, Seq<ValueModel>)> {
    s.map_values(|c: FilterClause| (c.operation, views(c.values@)))
}

/// What the filter's field for `op` asks for: nothing where it is absent,
/// else the values of the clause; a list operation fails where the field
/// is not a list (`Err(Some(message))`), and a range operation is not
/// defined on a list of fewer than two bounds (`Err(None)`).
pub open spec fn clause_model(op: FilterOperation, entries: Seq<(ValueModel, ValueModel)>) -> Result<
    Option<Seq<ValueModel>>,
    Option<Seq<char>>,
> {
    match lookup(entries, op_field(op)) {
        None => Ok(None),
        Some(v) => if takes_presence(op) {
            Ok(Some(Seq::empty()))
        } else if takes_list(op) {
            match v {
                ValueModel::List(items) => if takes_range(op) {
                    if items.len() < 2 {
                        Err(None)
                    } else {
                        Ok(Some(items.take(2)))
                    }
                } else {
                    Ok(Some(items))
                },
                _ => Err(Some("internal: not a list"@)),
            }
        } else {
            Ok(Some(seq![v]))
        },
    }
}

/// The clauses the filter asks for, operation by operation in order, or the
/// first failure.
pub open spec fn clauses_model(ops: Seq<FilterOperation>, entries: Seq<(ValueModel, ValueModel)>) -> Result<
    Seq<(FilterOperation, Seq<ValueModel>)>,
    Option<Seq<char>>,
>
    decreases ops.len(),
{
    if ops.len() == 0 {
        Ok(Seq::empty())
    } else {
        match clauses_model(ops.drop_last(), entries) {
            Err(m) => Err(m),
            Ok(cs) => match clause_model(ops.last(), entries) {
                Err(m) => Err(m),
                Ok(None) => Ok(cs),
                Ok(Some(vs)) => Ok(cs.push((ops.last(), vs))),
            },
        }
    }
}

/// Whether reading the filter is defined: no range operation meets a list
/// of fewer than two bounds before a failure.
pub open spec fn defined<T>(m: Result<T, Option<Seq<char>>>) -> bool {
    !(m matches Err(None))
}

/// `r` is the outcome that `m` describes.
pub open spec fn plan_outcome(r: SeaResult<FilterPlan>, m: Result<Seq<(FilterOperation, Seq<ValueModel>)>, Option<Seq<char>>>) -> bool {
    match m {
        Ok(cs) => r matches Ok(FilterPlan::Clauses(v)) && clause_views(v@) == cs,
        Err(Some(msg)) => r matches Err(e) && is_custom(e, msg),
        Err(None) => false,
    }
}

/// A failure in a prefix of the operations is the outcome for all of them.
pub proof fn lemma_clauses_error_stays(
    ops: Seq<FilterOperation>,
    entries: Seq<(ValueModel, ValueModel)>,
    i: int,
)
    requires
        0 <= i <= ops.len(),
        clauses_model(ops.take(i), entries) is Err,
    ensures
        clauses_model(ops, entries) == clauses_model(ops.take(i), entries),
    decreases ops.len() - i,
{
    if i < ops.len() {
        assert(ops.take(i + 1).drop_last() =~= ops.take(i));
        lemma_clauses_error_stays(ops, entries, i + 1);
    } else {
        assert(ops.take(i) =~= ops);
    }
}

/// Reads the clauses that `filter` asks for, operation by operation.
pub fn read_clauses(ops: &Vec<FilterOperation>, filter: &ObjectAccessor) -> (r: SeaResult<
    Vec<FilterClause>,
>)
    requires
        defined(clauses_model(ops@, filter.entries())),
    ensures
        match clauses_model(ops@, filter.entries()) {
            Ok(cs) => r matches Ok(v) && clause_views(v@) == cs,
            Err(Some(msg)) => r matches Err(e) && is_custom(e, msg),
            Err(None) => false,
        },
{
    let ghost entries = filter.entries();
    let mut out: Vec<FilterClause> = Vec::new();
    let mut i: usize = 0;
    proof {
        assert(ops@.take(0) =~= Seq::<FilterOperation>::empty());
        assert(clause_views(out@) =~= Seq::<(FilterOperation, Seq<ValueModel>)>::empty());
    }
    while i < ops.len()
        invariant
            i <= ops@.len(),
            entries == filter.entries(),
            defined(clauses_model(ops@, entries)),
            clauses_model(ops@.take(i as int), entries) == Ok::<
                Seq<(FilterOperation, Seq<ValueModel>)>,
                Option<Seq<char>>,
            >(clause_views(out@)),
        decreases ops@.len() - i,
    {
        let op = ops[i];
        proof {
            assert(ops@.take(i + 1).drop_last() =~= ops@.take(i as int));
            assert(ops@.take(i + 1).last() == op);
        }
        let ghost before = out@;
        match filter.get(op.field_name()) {
            None => {},
            Some(a) => {
                let presence = match op {
                    FilterOperation::IsNull => true,
                    FilterOperation::IsNotNull => true,
                    _ => false,
                };
                if presence {
                    out.push(FilterClause { operation: op, values: Vec::new() });
                } else if op.takes_list() {
                    match a.0 {
                        Value::List(items) => {
                            let range = match op {
                                FilterOperation::Between => true,
                                FilterOperation::NotBetween => true,
                                _ => false,
                            };
                            proof {
                                lemma_views_index(items@);
                            }
                            let values = if range {
                                proof {
                                    assert(takes_range(ops@[i as int]));
                                    if items@.len() < 2 {
                                        lemma_clauses_error_stays(ops@, entries, i + 1);
                                    }
                                }
                                let mut vs: Vec<Value> = Vec::new();
                                vs.push(items[0].duplicate());
                                vs.push(items[1].duplicate());
                                proof {
                                    lemma_views_index(vs@);
                                    assert(views(vs@) =~= views(items@).take(2));
                                }
                                vs
                            } else {
                                let vs = crate::accessor::ListAccessor(items.as_slice()).as_values_slice();
                                vs
                            };
                            out.push(FilterClause { operation: op, values });
                        },
                        _ => {
                            proof {
                                lemma_clauses_error_stays(ops@, entries, i + 1);
                            }
                            return Err(SeaographyError::from_str("internal: not a list"));
                        },
                    }
                } else {
                    let mut vs: Vec<Value> = Vec::new();
                    vs.push(a.as_value());
                    proof {
                        lemma_views_index(vs@);
                        assert(views(vs@) =~= seq![a.0@]);
                    }
                    out.push(FilterClause { operation: op, values: vs });
                }
            },
        }
        proof {
            assert(out@.len() <= before.len() + 1);
            if out@.len() == before.len() + 1 {
                assert(out@.drop_last() =~= before);
                assert(clause_views(out@) =~= clause_views(before).push(clause_views(out@).last()));
            } else {
                assert(out@ =~= before);
            }
        }
        i = i + 1;
    }
    proof {
        assert(ops@.take(ops@.len() as int) =~= ops@);
    }
    Ok(out)
}

/// The kinds of Protobuf filter inputs.
#[derive(Debug)]
pub enum ProtoFilterType {
    Int32,
    Int64,
    UInt32,
    UInt64,
    SInt32,
    SInt64,
    Float,
    Double,
    Boolean,
    String,
    Binary,
    Enumeration(String),
    Custom(String),
}

/// The Protobuf filter kind of a column kind that carries no name: `None`
/// where the column cannot be filtered.
pub open spec fn proto_filter_kind(c: ColumnKind) -> Option<ProtoFilterType> {
    match c {
        ColumnKind::Char => Some(ProtoFilterType::String),
        ColumnKind::String => Some(ProtoFilterType::String),
        ColumnKind::Text => Some(ProtoFilterType::String),
        ColumnKind::TinyInteger => Some(ProtoFilterType::Int32),
        ColumnKind::SmallInteger => Some(ProtoFilterType::Int32),
        ColumnKind::Integer => Some(ProtoFilterType::Int32),
        ColumnKind::BigInteger => Some(ProtoFilterType::Int64),
        ColumnKind::TinyUnsigned => Some(ProtoFilterType::UInt32),
        ColumnKind::SmallUnsigned => Some(ProtoFilterType::UInt32),
        ColumnKind::Unsigned => Some(ProtoFilterType::UInt32),
        ColumnKind::BigUnsigned => Some(ProtoFilterType::UInt64),
        ColumnKind::Float => Some(ProtoFilterType::Float),
        ColumnKind::Double => Some(ProtoFilterType::Float),
        ColumnKind::Decimal => Some(ProtoFilterType::String),
        ColumnKind::DateTime => Some(ProtoFilterType::String),
        ColumnKind::Timestamp => Some(ProtoFilterType::String),
        ColumnKind::TimestampWithTimeZone => Some(ProtoFilterType::String),
        ColumnKind::Time => Some(ProtoFilterType::String),
        ColumnKind::Date => Some(ProtoFilterType::String),
        ColumnKind::Year => Some(ProtoFilterType::Int32),
        ColumnKind::Interval => Some(ProtoFilterType::String),
        ColumnKind::Binary => Some(ProtoFilterType::Binary),
        ColumnKind::VarBinary => Some(ProtoFilterType::Binary),
        ColumnKind::Bit => Some(ProtoFilterType::Binary),
        ColumnKind::VarBit => Some(ProtoFilterType::Binary),
        ColumnKind::Boolean => Some(ProtoFilterType::Boolean),
        ColumnKind::Money => Some(ProtoFilterType::String),
        ColumnKind::Uuid => Some(ProtoFilterType::String),
        ColumnKind::Cidr => Some(ProtoFilterType::String),
        ColumnKind::Inet => Some(ProtoFilterType::String),
        ColumnKind::MacAddr => Some(ProtoFilterType::String),
        _ => None,
    }
}

/// The filter input type that stands for a kind of Protobuf filter.
pub open spec fn proto_filter_info(t: ProtoFilterType, types: ProtoFilterTypes) -> Option<FilterInfo> {
    match t {
        ProtoFilterType::Int32 => Some(types.int32_filter_info),
        ProtoFilterType::Int64 => Some(types.int64_filter_info),
        ProtoFilterType::UInt32 => Some(types.uint32_filter_info),
        ProtoFilterType::UInt64 => Some(types.uint64_filter_info),
        ProtoFilterType::SInt32 => Some(types.sint32_filter_info),
        ProtoFilterType::SInt64 => Some(types.sint64_filter_info),
        ProtoFilterType::Float => Some(types.float_filter_info),
        ProtoFilterType::Double => Some(types.double_filter_info),
        ProtoFilterType::Boolean => Some(types.boolean_filter_info),
        ProtoFilterType::String => Some(types.string_filter_info),
        ProtoFilterType::Binary => Some(types.binary_filter_info),
        _ => None,
    }
}

impl ProtoFilterType {
    /// The filter kind of a column kind; `None` where the column cannot be
    /// filtered.
    pub fn to_filter_type(column: &ColumnKind) -> (r: Option<ProtoFilterType>)
        ensures
            match column {
                ColumnKind::Custom(n) => r matches Some(ProtoFilterType::Custom(m)) && m@ == n@,
                ColumnKind::Enum(n) => r matches Some(ProtoFilterType::Enumeration(m)) && m@
                    == n@,
                _ => r == proto_filter_kind(*column),
            },
    {
        match column {
            ColumnKind::Char => Some(ProtoFilterType::String),
            ColumnKind::String => Some(ProtoFilterType::String),
            ColumnKind::Text => Some(ProtoFilterType::String),
            ColumnKind::TinyInteger => Some(ProtoFilterType::Int32),
            ColumnKind::SmallInteger => Some(ProtoFilterType::Int32),
            ColumnKind::Integer => Some(ProtoFilterType::Int32),
            ColumnKind::BigInteger => Some(ProtoFilterType::Int64),
            ColumnKind::TinyUnsigned => Some(ProtoFilterType::UInt32),
            ColumnKind::SmallUnsigned => Some(ProtoFilterType::UInt32),
            ColumnKind::Unsigned => Some(ProtoFilterType::UInt32),
            ColumnKind::BigUnsigned => Some(ProtoFilterType::UInt64),
            ColumnKind::Float => Some(ProtoFilterType::Float),
            ColumnKind::Double => Some(ProtoFilterType::Float),
            ColumnKind::Decimal => Some(ProtoFilterType::String),
            ColumnKind::DateTime => Some(ProtoFilterType::String),
            ColumnKind::Timestamp => Some(ProtoFilterType::String),
            ColumnKind::TimestampWithTimeZone => Some(ProtoFilterType::String),
            ColumnKind::Time => Some(ProtoFilterType::String),
            ColumnKind::Date => Some(ProtoFilterType::String),
            ColumnKind::Year => Some(ProtoFilterType::Int32),
            ColumnKind::Interval => Some(ProtoFilterType::String),
            ColumnKind::Binary => Some(ProtoFilterType::Binary),
            ColumnKind::VarBinary => Some(ProtoFilterType::Binary),
            ColumnKind::Bit => Some(ProtoFilterType::Binary),
            ColumnKind::VarBit => Some(ProtoFilterType::Binary),
            ColumnKind::Blob => None,
            ColumnKind::Boolean => Some(ProtoFilterType::Boolean),
            ColumnKind::Money => Some(ProtoFilterType::String),
            ColumnKind::Json => None,
            ColumnKind::JsonBinary => None,
            ColumnKind::Uuid => Some(ProtoFilterType::String),
            ColumnKind::Custom(name) => Some(ProtoFilterType::Custom(name.clone())),
            ColumnKind::Enum(name) => Some(ProtoFilterType::Enumeration(name.clone())),
            ColumnKind::Array => None,
            ColumnKind::Cidr => Some(ProtoFilterType::String),
            ColumnKind::Inet => Some(ProtoFilterType::String),
            ColumnKind::MacAddr => Some(ProtoFilterType::String),
            _ => None,
        }
    }

    /// The name of the filter input type; `enum_filter_name` is the name
    /// of the filter input type of the enumeration, for an enumeration.
    pub fn to_value(&self, types: &ProtoFilterTypes, enum_filter_name: &str) -> (r: String)
        ensures
            match self {
                ProtoFilterType::Enumeration(_) => r@ == enum_filter_name@,
                ProtoFilterType::Custom(n) => r@ == n@,
                _ => r@ == proto_filter_info(*self, *types)->0.name@,
            },
    {
        match self {
            ProtoFilterType::Int32 => types.int32_filter_info.name.clone(),
            ProtoFilterType::Int64 => types.int64_filter_info.name.clone(),
            ProtoFilterType::UInt32 => types.uint32_filter_info.name.clone(),
            ProtoFilterType::UInt64 => types.uint64_filter_info.name.clone(),
            ProtoFilterType::SInt32 => types.sint32_filter_info.name.clone(),
            ProtoFilterType::SInt64 => types.sint64_filter_info.name.clone(),
            ProtoFilterType::Float => types.float_filter_info.name.clone(),
            ProtoFilterType::Double => types.double_filter_info.name.clone(),
            ProtoFilterType::Boolean => types.boolean_filter_info.name.clone(),
            ProtoFilterType::String => types.string_filter_info.name.clone(),
            ProtoFilterType::Binary => types.binary_filter_info.name.clone(),
            ProtoFilterType::Enumeration(_) => owned(enum_filter_name),
            ProtoFilterType::Custom(name) => name.clone(),
        }
    }

    /// Reads `filter` for a column of this kind: the clauses of the filter
    /// input type, or the enumeration filter, or for a custom filter the
    /// condition function configured under `condition_key` among
    /// `condition_functions`, if any.
    pub fn prepare(
        &self,
        types: &ProtoFilterTypes,
        filter: &ObjectAccessor,
        condition_key: &str,
        condition_functions: &NameMap<()>,
    ) -> (r: SeaResult<FilterPlan>)
        requires
            proto_filter_info(*self, *types) matches Some(info) ==> defined(
                clauses_model(info.supported_operations@, filter.entries()),
            ),
        ensures
            match self {
                ProtoFilterType::Enumeration(_) => r matches Ok(FilterPlan::Enumeration),
                ProtoFilterType::Custom(_) => r matches Ok(p) && custom_plan_of(
                    p,
                    condition_key@,
                    *condition_functions,
                ),
                _ => plan_outcome(
                    r,
                    clauses_model(
                        proto_filter_info(*self, *types)->0.supported_operations@,
                        filter.entries(),
                    ),
                ),
            },
    {
        let info = match self {
            ProtoFilterType::Int32 => &types.int32_filter_info,
            ProtoFilterType::Int64 => &types.int64_filter_info,
            ProtoFilterType::UInt32 => &types.uint32_filter_info,
            ProtoFilterType::UInt64 => &types.uint64_filter_info,
            ProtoFilterType::SInt32 => &types.sint32_filter_info,
            ProtoFilterType::SInt64 => &types.sint64_filter_info,
            ProtoFilterType::Float => &types.float_filter_info,
            ProtoFilterType::Double => &types.double_filter_info,
            ProtoFilterType::Boolean => &types.boolean_filter_info,
            ProtoFilterType::String => &types.string_filter_info,
            ProtoFilterType::Binary => &types.binary_filter_info,
            ProtoFilterType::Enumeration(_) => {
                return Ok(FilterPlan::Enumeration);
            },
            ProtoFilterType::Custom(_) => {
                return Ok(custom_plan(condition_key, condition_functions));
            },
        };
        match read_clauses(&info.supported_operations, filter) {
            Ok(clauses) => Ok(FilterPlan::Clauses(clauses)),
            Err(e) => Err(e),
        }
    }

    /// The filter input objects of the Protobuf filter types, in the order
    /// int32, int64, uint32, uint64, sint32, sint64, float, double,
    /// boolean, string, binary.
    pub fn get_input_filters(types: &ProtoFilterTypes) -> (r: Vec<Object>)
        requires
            types.int32_filter_info.wf(),
            types.int64_filter_info.wf(),
            types.uint32_filter_info.wf(),
            types.uint64_filter_info.wf(),
            types.sint32_filter_info.wf(),
            types.sint64_filter_info.wf(),
            types.float_filter_info.wf(),
            types.double_filter_info.wf(),
            types.boolean_filter_info.wf(),
            types.string_filter_info.wf(),
            types.binary_filter_info.wf(),
        ensures
            r@.len() == 11,
            forall|j: int|
                0 <= j < 11 ==> filter_input_of(#[trigger] r@[j], proto_input_filter_infos(*types)[j]),
    {
        let mut v: Vec<Object> = Vec::new();
        v.push(types.int32_filter_info.generate_filter_input());
        v.push(types.int64_filter_info.generate_filter_input());
        v.push(types.uint32_filter_info.generate_filter_input());
        v.push(types.uint64_filter_info.generate_filter_input());
        v.push(types.sint32_filter_info.generate_filter_input());
        v.push(types.sint64_filter_info.generate_filter_input());
        v.push(types.float_filter_info.generate_filter_input());
        v.push(types.double_filter_info.generate_filter_input());
        v.push(types.boolean_filter_info.generate_filter_input());
        v.push(types.string_filter_info.generate_filter_input());
        v.push(types.binary_filter_info.generate_filter_input());
        v
    }
}

/// A filter that gives none of the operations' fields asks for no clause.
pub proof fn lemma_empty_filter_no_clauses(ops: Seq<FilterOperation>)
    ensures
        clauses_model(ops, Seq::empty()) == Ok::<
            Seq<(FilterOperation, Seq<ValueModel>)>,
            Option<Seq<char>>,
        >(Seq::empty()),
    decreases ops.len(),
{
    if ops.len() > 0 {
        lemma_empty_filter_no_clauses(ops.drop_last());
        assert(lookup(Seq::<(ValueModel, ValueModel)>::empty(), op_field(ops.last())) is None);
    }
}

/// Reading a filter yields clauses only for operations that the filter
/// input type offers, in the order in which it offers them.
pub proof fn lemma_clauses_use_offered_operations(
    ops: Seq<FilterOperation>,
    entries: Seq<(ValueModel, ValueModel)>,
)
    ensures
        clauses_model(ops, entries) matches Ok(cs) ==> {
            &&& cs.len() <= ops.len()
            &&& forall|j: int|
                0 <= j < cs.len() ==> exists|i: int|
                    0 <= i < ops.len() && ops[i] == (#[trigger] cs[j]).0
        },
    decreases ops.len(),
{
    if ops.len() > 0 {
        lemma_clauses_use_offered_operations(ops.drop_last(), entries);
        if let Ok(cs) = clauses_model(ops, entries) {
            let prev = clauses_model(ops.drop_last(), entries)->Ok_0;
            assert forall|j: int| 0 <= j < cs.len() implies exists|i: int|
                0 <= i < ops.len() && ops[i] == (#[trigger] cs[j]).0 by {
                if j < prev.len() {
                    assert(cs[j] == prev[j]);
                    let i = choose|i: int|
                        0 <= i < ops.drop_last().len() && ops.drop_last()[i] == prev[j].0;
                    assert(ops[i] == ops.drop_last()[i]);
                } else {
                    assert(ops[ops.len() - 1] == cs[j].0);
                }
            }
        }
    }
}

/// The values of the clause `c` are what the filter gives under the field
/// of its operation: none for the null tests; the two bounds, the first two
/// items of the given list in the order given, for the range tests; the
/// whole list for the membership tests; the given value for the others.
pub open spec fn clause_values_given(
    c: (FilterOperation, Seq<ValueModel>),
    entries: Seq<(ValueModel, ValueModel)>,
) -> bool {
    lookup(entries, op_field(c.0)) matches Some(v) && match c.0 {
        FilterOperation::IsNull | FilterOperation::IsNotNull => c.1.len() == 0,
        FilterOperation::Between | FilterOperation::NotBetween => v matches ValueModel::List(items)
            && items.len() >= 2 && c.1 == seq![items[0], items[1]],
        FilterOperation::IsIn | FilterOperation::IsNotIn => v matches ValueModel::List(items) && c.1
            == items,
        _ => c.1 == seq![v],
    }
}

/// Every clause read from a filter holds the values the filter gives under
/// its operation's field: a range test holds the first two items of the
/// given list as its lower and upper bound, in the order given.
pub proof fn lemma_clause_values_come_from_the_filter(
    ops: Seq<FilterOperation>,
    entries: Seq<(ValueModel, ValueModel)>,
)
    ensures
        clauses_model(ops, entries) matches Ok(cs) ==> forall|j: int|
            0 <= j < cs.len() ==> clause_values_given(#[trigger] cs[j], entries),
    decreases ops.len(),
{
    if ops.len() > 0 {
        lemma_clause_values_come_from_the_filter(ops.drop_last(), entries);
        if let Ok(cs) = clauses_model(ops, entries) {
            let prev = clauses_model(ops.drop_last(), entries)->Ok_0;
            assert forall|j: int| 0 <= j < cs.len() implies clause_values_given(
                #[trigger] cs[j],
                entries,
            ) by {
                if j < prev.len() {
                    assert(cs[j] == prev[j]);
                } else {
                    let op = ops.last();
                    if let Some(ValueModel::List(items)) = lookup(entries, op_field(op)) {
                        if items.len() >= 2 {
                            assert(items.take(2) =~= seq![items[0], items[1]]);
                        }
                    }
                }
            }
        }
    }
}

/// The filter input types of the GraphQL schema in the order in which
/// `get_input_filters` produces their objects.
pub open spec fn graphql_input_filter_infos(types: GraphQLFilterTypes) -> Seq<FilterInfo> {
    seq![
        types.text_filter_info,
        types.string_filter_info,
        types.integer_filter_info,
        types.float_filter_info,
        types.boolean_filter_info,
        types.id_filter_info,
    ]
}

/// The filter input types of the Protobuf service in the order in which
/// `get_input_filters` produces their objects.
pub open spec fn proto_input_filter_infos(types: ProtoFilterTypes) -> Seq<FilterInfo> {
    seq![
        types.int32_filter_info,
        types.int64_filter_info,
        types.uint32_filter_info,
        types.uint64_filter_info,
        types.sint32_filter_info,
        types.sint64_filter_info,
        types.float_filter_info,
        types.double_filter_info,
        types.boolean_filter_info,
        types.string_filter_info,
        types.binary_filter_info,
    ]
}

/// The filter input type of every GraphQL filter kind that has one is among
/// those whose objects `get_input_filters` produces: a column's filter field
/// is never typed by an object that is not registered.
pub proof fn lemma_graphql_filter_inputs_cover(t: GraphQlFilterType, types: GraphQLFilterTypes)
    ensures
        graphql_filter_info(t, types) matches Some(info) ==> exists|j: int|
            0 <= j < 6 && graphql_input_filter_infos(types)[j] == info,
{
    let s = graphql_input_filter_infos(types);
    match t {
        GraphQlFilterType::Text => assert(s[0] == types.text_filter_info),
        GraphQlFilterType::String => assert(s[1] == types.string_filter_info),
        GraphQlFilterType::Integer => assert(s[2] == types.integer_filter_info),
        GraphQlFilterType::Float => assert(s[3] == types.float_filter_info),
        GraphQlFilterType::Boolean => assert(s[4] == types.boolean_filter_info),
        GraphQlFilterType::Id => assert(s[5] == types.id_filter_info),
        _ => {},
    }
}

/// The filter input type of every Protobuf filter kind that has one is
/// among those whose objects `get_input_filters` produces.
pub proof fn lemma_proto_filter_inputs_cover(t: ProtoFilterType, types: ProtoFilterTypes)
    ensures
        proto_filter_info(t, types) matches Some(info) ==> exists|j: int|
            0 <= j < 11 && proto_input_filter_infos(types)[j] == info,
{
    let s = proto_input_filter_infos(types);
    match t {
        ProtoFilterType::Int32 => assert(s[0] == types.int32_filter_info),
        ProtoFilterType::Int64 => assert(s[1] == types.int64_filter_info),
        ProtoFilterType::UInt32 => assert(s[2] == types.uint32_filter_info),
        ProtoFilterType::UInt64 => assert(s[3] == types.uint64_filter_info),
        ProtoFilterType::SInt32 => assert(s[4] == types.sint32_filter_info),
        ProtoFilterType::SInt64 => assert(s[5] == types.sint64_filter_info),
        ProtoFilterType::Float => assert(s[6] == types.float_filter_info),
        ProtoFilterType::Double => assert(s[7] == types.double_filter_info),
        ProtoFilterType::Boolean => assert(s[8] == types.boolean_filter_info),
        ProtoFilterType::String => assert(s[9] == types.string_filter_info),
        ProtoFilterType::Binary => assert(s[10] == types.binary_filter_info),
        _ => {},
    }
}

/// Finds the filter kind of a column and reads its filters, for the
/// GraphQL filter types of a configuration.
#[derive(Debug)]
pub struct FilterTypesMapHelper<'a> {
    pub types: &'a GraphQLFilterTypes,
    /// The keys under which custom condition functions are configured.
    pub condition_functions: &'a NameMap<()>,
}

impl<'a> FilterTypesMapHelper<'a> {
    /// The filter kind of a column kind, if it can be filtered.
    pub fn get_column_filter_type(&self, column: &ColumnKind) -> (r: Option<GraphQlFilterType>)
        ensures
            column_filter_type(*column, r),
    {
        GraphQlFilterType::to_filter_type(column)
    }

    /// The key under which a custom condition function of a column is
    /// configured: the entity object's name and the column's field name,
    /// joined by a dot.
    pub fn condition_function_key(&self, entity_name: &str, column_name: &str) -> (r: String)
        ensures
            r@ == entity_name@ + "."@ + column_name@,
    {
        proof {
            reveal_strlit(".");
            reveal_strlit("");
        }
        crate::text::format2("", entity_name, ".", column_name, "")
    }

    /// The filter kind of a column type, if it can be filtered.
    pub fn to_filter_type(&self, column_type: &ColumnKind) -> (r: Option<GraphQlFilterType>)
        ensures
            column_filter_type(*column_type, r),
    {
        GraphQlFilterType::to_filter_type(column_type)
    }

    /// Reads the filters of the column `column_name` of the entity object
    /// `entity_name`: nothing for a column that cannot be filtered; for a
    /// custom column, the condition function configured under
    /// `entity.column`, if any.
    pub fn prepare_column_condition(
        &self,
        column: &ColumnKind,
        filter: &ObjectAccessor,
        entity_name: &str,
        column_name: &str,
    ) -> (r: SeaResult<Option<FilterPlan>>)
        requires
            graphql_filter_kind(*column) matches Some(t) ==> (graphql_filter_info(t, *self.types) matches Some(
                info,
            ) ==> defined(clauses_model(info.supported_operations@, filter.entries()))),
        ensures
            match column {
                ColumnKind::Custom(_) => r matches Ok(Some(p)) && custom_plan_of(
                    p,
                    entity_name@ + "."@ + column_name@,
                    *self.condition_functions,
                ),
                ColumnKind::Enum(_) => r matches Ok(Some(FilterPlan::Enumeration)),
                _ => match graphql_filter_kind(*column) {
                    None => r matches Ok(None),
                    Some(t) => match clauses_model(
                        graphql_filter_info(t, *self.types)->0.supported_operations@,
                        filter.entries(),
                    ) {
                        Ok(cs) => r matches Ok(Some(FilterPlan::Clauses(v))) && clause_views(v@)
                            == cs,
                        Err(Some(msg)) => r matches Err(e) && is_custom(e, msg),
                        Err(None) => false,
                    },
                },
            },
    {
        let filter_type = self.get_column_filter_type(column);
        self.prepare(&filter_type, filter, entity_name, column_name)
    }

    /// The field of a filter input object for a column: named after the
    /// column's field and typed by the filter input type of its kind; `None`
    /// where the column cannot be filtered. `enum_filter_name` names the
    /// filter input type of an enumeration column.
    pub fn get_column_filter_input_value(
        &self,
        column_name: &str,
        column: &ColumnKind,
        enum_filter_name: &str,
    ) -> (r: Option<Field>)
        ensures
            if !graphql_filterable(*column) {
                r is None
            } else {
                r matches Some(f) && f.name@ == column_name@ && !f.has_resolver
                    && f.arguments.spec_entries().len() == 0 && f.ty@ == named_model(
                        match column {
                            ColumnKind::Custom(n) => n@,
                            ColumnKind::Enum(_) => enum_filter_name@,
                            _ => graphql_filter_info(graphql_filter_kind(*column)->0, *self.types)->0.name@,
                        },
                    )
            },
    {
        match self.get_column_filter_type(column) {
            Some(t) => {
                let name = t.to_value(self.types, enum_filter_name);
                Some(self.to_value(column_name, &name))
            },
            None => None,
        }
    }

    /// Reads the filters of the column `column_name` of the entity object
    /// `entity_name`, of the given kind: nothing for a column that cannot
    /// be filtered; for a custom filter, the condition function configured
    /// under `entity.column`, if any.
    pub fn prepare(
        &self,
        filter_type: &Option<GraphQlFilterType>,
        filter: &ObjectAccessor,
        entity_name: &str,
        column_name: &str,
    ) -> (r: SeaResult<Option<FilterPlan>>)
        requires
            *filter_type matches Some(t) ==> (graphql_filter_info(t, *self.types) matches Some(info)
                ==> defined(clauses_model(info.supported_operations@, filter.entries()))),
        ensures
            match *filter_type {
                None => r matches Ok(None),
                Some(GraphQlFilterType::Enumeration(_)) => r matches Ok(Some(FilterPlan::Enumeration)),
                Some(GraphQlFilterType::Custom(_)) => r matches Ok(Some(p)) && custom_plan_of(
                    p,
                    entity_name@ + "."@ + column_name@,
                    *self.condition_functions,
                ),
                Some(t) => match clauses_model(
                    graphql_filter_info(t, *self.types)->0.supported_operations@,
                    filter.entries(),
                ) {
                    Ok(cs) => r matches Ok(Some(FilterPlan::Clauses(v))) && clause_views(v@) == cs,
                    Err(Some(msg)) => r matches Err(e) && is_custom(e, msg),
                    Err(None) => false,
                },
            },
    {
        let key = self.condition_function_key(entity_name, column_name);
        match filter_type {
            Some(t) => match t.prepare(self.types, filter, key.as_str(), self.condition_functions) {
                Ok(p) => Ok(Some(p)),
                Err(e) => Err(e),
            },
            None => Ok(None),
        }
    }

    /// The input field `column_name` typed by the filter input type
    /// `filter_type_name`.
    pub fn to_value(&self, column_name: &str, filter_type_name: &str) -> (r: Field)
        ensures
            r.name@ == column_name@,
            r.ty@ == named_model(filter_type_name@),
            !r.has_resolver,
            r.arguments.spec_entries().len() == 0,
    {
        Field::input(column_name, TypeRef::named(filter_type_name))
    }
}

/// `r` is the GraphQL filter kind of a column of kind `column`.
pub open spec fn column_filter_type(column: ColumnKind, r: Option<GraphQlFilterType>) -> bool {
    match column {
        ColumnKind::Custom(n) => r matches Some(GraphQlFilterType::Custom(m)) && m@ == n@,
        ColumnKind::Enum(n) => r matches Some(GraphQlFilterType::Enumeration(m)) && m@ == n@,
        _ => r == graphql_filter_kind(column),
    }
}

/// Whether a column of kind `column` can be filtered through GraphQL.
pub open spec fn graphql_filterable(column: ColumnKind) -> bool {
    match column {
        ColumnKind::Custom(_) => true,
        ColumnKind::Enum(_) => true,
        _ => graphql_filter_kind(column) is Some,
    }
}

/// A filter kind for each API, as a configuration names it for a column.
#[derive(Debug)]
pub struct FilterTypesMapWrapper {
    pub graphql: GraphQlFilterType,
    pub proto: ProtoFilterType,
}

impl GraphQlFilterType {
    /// The name of this kind of filter type.
    pub fn get_name() -> (r: String)
        ensures
            r@ == "GraphQlFilterType"@,
    {
        owned("GraphQlFilterType")
    }

    /// The GraphQL side of a pair of filter kinds.
    pub fn from_filter_type(map: FilterTypesMapWrapper) -> (r: Option<GraphQlFilterType>)
        ensures
            r == Some(map.graphql),
    {
        Some(map.graphql)
    }
}

impl ProtoFilterType {
    /// The name of this kind of filter type.
    pub fn get_name() -> (r: String)
        ensures
            r@ == "ProtoFilterType"@,
    {
        owned("ProtoFilterType")
    }

    /// The Protobuf side of a pair of filter kinds.
    pub fn from_filter_type(map: FilterTypesMapWrapper) -> (r: Option<ProtoFilterType>)
        ensures
            r == Some(map.proto),
    {
        Some(map.proto)
    }
}

} // verus!
