//! The fields through which an entity reads the rows of a related entity.
use vstd::prelude::*;
use crate::context::BuilderContext;
use crate::interface::Field;
use crate::error::SeaResult;
use crate::mutation::{guard_outcome, guard_result, has_argument, GuardAction, ENTITY_GUARD_MESSAGE};
use crate::outputs::{entity_type_name, filter_input_name};
use crate::type_ref::{named_model, non_null_model, TypeRef};

verus! {

/// The names an entity's relation field uses: its arguments and the types
/// of the related entity's connection, order input and pagination input.
#[derive(Debug)]
pub struct RelationNames {
    pub filters_argument: String,
    pub order_by_argument: String,
    pub pagination_argument: String,
    pub connection_type: String,
    pub order_input_type: String,
    pub pagination_input_type: String,
}

/// How many different names there are among `a`, `b` and `c`.
pub open spec fn distinct_names(a: Seq<char>, b: Seq<char>, c: Seq<char>) -> int {
    1 + (if b != a {
        1int
    } else {
        0int
    }) + (if c != a && c != b {
        1int
    } else {
        0int
    })
}

/// This builder produces the field of an entity that reads the rows of a
/// related entity
#[derive(Debug)]
pub struct EntityObjectViaRelationBuilder<'a> {
    pub context: &'a BuilderContext,
}

impl<'a> EntityObjectViaRelationBuilder<'a> {
    /// What the relation field's resolver does first: where an entity
    /// guard is set for the related object, its verdict decides; a blocked
    /// request fails with the guard's reason, or with "Entity guard
    /// triggered." where it gives none; with no guard the request goes on.
    pub fn check_guard(&self, verdict: Option<&GuardAction>) -> (r: SeaResult<()>)
        ensures
            match verdict {
                Some(action) => guard_outcome(*action, ENTITY_GUARD_MESSAGE@, r),
                None => r is Ok,
            },
    {
        match verdict {
            Some(action) => guard_result(action, ENTITY_GUARD_MESSAGE),
            None => Ok(()),
        }
    }

    /// The field of a relation to the entity stored in `table_name`: where
    /// the relation does not own the related rows, a nullable field of the
    /// related object with no arguments; where it does, a non-null
    /// connection field with `filters`, `order_by` and `pagination`
    /// arguments, added in that order, so that a later argument of the same
    /// name takes the place of an earlier one.
    pub fn get_relation(&self, name: &str, is_owner: bool, table_name: &str, names: &RelationNames) -> (r: Field)
        ensures
            r.name@ == name@,
            r.has_resolver,
            if is_owner {
                let f = names.filters_argument@;
                let o = names.order_by_argument@;
                let p = names.pagination_argument@;
                &&& r.ty@ == non_null_model(named_model(names.connection_type@))
                &&& (f != o && f != p) ==> has_argument(
                    r,
                    f,
                    named_model(filter_input_name(entity_type_name(table_name@))),
                )
                &&& o != p ==> has_argument(r, o, named_model(names.order_input_type@))
                &&& has_argument(r, p, named_model(names.pagination_input_type@))
                &&& r.arguments.spec_entries().len() == distinct_names(f, o, p)
                &&& forall|n: Seq<char>| n != f && n != o && n != p ==> r.arguments.spec_get(n) is None
            } else {
                &&& r.ty@ == named_model(entity_type_name(table_name@))
                &&& r.arguments.spec_entries().len() == 0
            },
    {
        let object_name = crate::naming::to_upper_camel_case(table_name);
        if is_owner {
            let filter_name = crate::outputs::FilterInputBuilder { context: self.context }.get_type_name(
                object_name.as_str(),
            );
            let with_filters = Field::output(name, TypeRef::named_nn(names.connection_type.as_str())).argument(
                Field::input(names.filters_argument.as_str(), TypeRef::named(filter_name.as_str())),
            );
            assert(names.order_by_argument@ != names.filters_argument@ ==> with_filters.arguments.spec_get(
                names.order_by_argument@,
            ) is None);
            let with_order = with_filters.argument(
                Field::input(
                    names.order_by_argument.as_str(),
                    TypeRef::named(names.order_input_type.as_str()),
                ),
            );
            assert((names.pagination_argument@ != names.filters_argument@
                && names.pagination_argument@ != names.order_by_argument@) ==> with_order.arguments.spec_get(
                names.pagination_argument@,
            ) is None);
            with_order.argument(
                Field::input(
                    names.pagination_argument.as_str(),
                    TypeRef::named(names.pagination_input_type.as_str()),
                ),
            )
        } else {
            Field::output(name, TypeRef::named(object_name.as_str()))
        }
    }
}

} // verus!
