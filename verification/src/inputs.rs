//! Pagination inputs: the input objects that offer them and the reading of
//! a request's pagination arguments.
use vstd::prelude::*;
use crate::accessor::{lookup, ObjectAccessor};
use crate::context::BuilderContext;
use crate::error::{is_custom, SeaResult, SeaographyError};
use crate::interface::{field_list, Field, Object, IO};
use crate::text::concat;
use crate::type_ref::{named_model, non_null_model, TypeRef};
use crate::value::ValueModel;

verus! {

/// Page pagination: the page to return and the number of items per page.
#[derive(Clone, Copy, Debug, PartialEq, Eq, Hash)]
pub struct PageInput {
    pub page: u64,
    pub limit: u64,
}

/// Cursor pagination: where to start, if anywhere, and how many items.
#[derive(Debug)]
pub struct CursorInput {
    pub cursor: Option<String>,
    pub limit: u64,
}

/// Offset pagination: how many items to skip and how many to return.
#[derive(Clone, Copy, Debug, PartialEq, Eq, Hash)]
pub struct OffsetInput {
    pub offset: u64,
    pub limit: u64,
}

/// Offset pagination info of a query result.
#[derive(Clone, Copy, Debug, PartialEq, Eq, Hash)]
pub struct PaginationInfo {
    pub pages: u64,
    pub current: u64,
    pub offset: u64,
    pub total: u64,
}

/// The message for a required argument that is missing.
pub open spec fn missing_argument(name: Seq<char>) -> Seq<char> {
    name + " is a required argument but not provided."@
}

/// The error for a required argument that is missing.
pub fn required_argument_error(name: &str) -> (r: SeaographyError)
    ensures
        is_custom(r, missing_argument(name@)),
{
    SeaographyError::new(concat(name, " is a required argument but not provided."))
}

/// The type of an unsigned 64-bit argument: a non-null integer.
pub open spec fn uint64_type() -> crate::type_ref::TypeRefModel {
    non_null_model(named_model(TypeRef::INT@))
}

/// The reading of an unsigned 64-bit argument that may be absent: its value
/// where it is given, else the default.
pub open spec fn optional_u64(entries: Seq<(ValueModel, ValueModel)>, name: Seq<char>) -> Result<
    u64,
    Seq<char>,
> {
    match lookup(entries, name) {
        None => Ok(0),
        Some(ValueModel::UInt64(v)) => Ok(v),
        Some(_) => Err("internal: not a u64"@),
    }
}

/// This builder produces the page pagination options input object
#[derive(Debug)]
pub struct PageInputBuilder<'a> {
    pub context: &'a BuilderContext,
}

impl<'a> PageInputBuilder<'a> {
    /// used to get type name
    pub fn get_type_name(&self) -> (r: String)
        ensures
            r@ == self.context.page_input.name@,
    {
        self.context.page_input.name.clone()
    }

    /// The input object: a non-null integer `limit` field, then a non-null
    /// integer `page` field
    pub fn input_object(&self) -> (r: Object)
        requires
            self.context.page_input.limit@ != self.context.page_input.page@,
        ensures
            r.wf(),
            r.name@ == self.context.page_input.name@,
            r.io == IO::Input,
            field_list(r.fields).len() == 2,
            field_list(r.fields)[0].name@ == self.context.page_input.limit@,
            field_list(r.fields)[0].ty@ == uint64_type(),
            field_list(r.fields)[1].name@ == self.context.page_input.page@,
            field_list(r.fields)[1].ty@ == uint64_type(),
    {
        let config = &self.context.page_input;
        Object::new(config.name.as_str(), IO::Input).field(
            Field::input(config.limit.as_str(), TypeRef::named_nn(TypeRef::INT)),
        ).field(Field::input(config.page.as_str(), TypeRef::named_nn(TypeRef::INT)))
    }

    /// Reads page pagination options: the page where it is given as an
    /// unsigned 64-bit integer, else 0, and the limit, which must be given
    /// as an unsigned 64-bit integer
    pub fn parse_object(&self, object: &ObjectAccessor) -> (r: PageInput)
        requires
            lookup(object.entries(), self.context.page_input.limit@) matches Some(
                ValueModel::UInt64(_),
            ),
        ensures
            r.page == (match lookup(object.entries(), self.context.page_input.page@) {
                Some(ValueModel::UInt64(p)) => p,
                _ => 0,
            }),
            lookup(object.entries(), self.context.page_input.limit@) == Some(
                ValueModel::UInt64(r.limit),
            ),
    {
        let config = &self.context.page_input;
        let page = match object.get(config.page.as_str()) {
            Some(v) => match v.uint64() {
                Ok(p) => p,
                Err(_) => 0,
            },
            None => 0,
        };
        let limit = match object.get(config.limit.as_str()) {
            Some(v) => match v.uint64() {
                Ok(l) => l,
                Err(_) => 0,
            },
            None => 0,
        };
        PageInput { page, limit }
    }
}

/// This builder produces the cursor pagination options input object
#[derive(Debug)]
pub struct CursorInputBuilder<'a> {
    pub context: &'a BuilderContext,
}

impl<'a> CursorInputBuilder<'a> {
    /// used to get type name
    pub fn get_type_name(&self) -> (r: String)
        ensures
            r@ == self.context.cursor_input.name@,
    {
        self.context.cursor_input.name.clone()
    }

    /// The input object: a nullable string `cursor` field, then a non-null
    /// integer `limit` field
    pub fn input_object(&self) -> (r: Object)
        requires
            self.context.cursor_input.cursor@ != self.context.cursor_input.limit@,
        ensures
            r.wf(),
            r.name@ == self.context.cursor_input.name@,
            r.io == IO::Input,
            field_list(r.fields).len() == 2,
            field_list(r.fields)[0].name@ == self.context.cursor_input.cursor@,
            field_list(r.fields)[0].ty@ == named_model(TypeRef::STRING@),
            field_list(r.fields)[1].name@ == self.context.cursor_input.limit@,
            field_list(r.fields)[1].ty@ == uint64_type(),
    {
        let config = &self.context.cursor_input;
        Object::new(config.name.as_str(), IO::Input).field(
            Field::input(config.cursor.as_str(), TypeRef::named(TypeRef::STRING)),
        ).field(Field::input(config.limit.as_str(), TypeRef::named_nn(TypeRef::INT)))
    }

    /// Reads cursor pagination options: the cursor, which must be a string
    /// where it is given, then the limit, which must be given as an
    /// unsigned 64-bit integer
    pub fn parse_object(&self, object: &ObjectAccessor) -> (r: SeaResult<CursorInput>)
        ensures
            match lookup(object.entries(), self.context.cursor_input.cursor@) {
                Some(c) if !(c is String) => r matches Err(e) && is_custom(e, "internal: not a String"@),
                cursor => match lookup(object.entries(), self.context.cursor_input.limit@) {
                    None => r matches Err(e) && is_custom(
                        e,
                        missing_argument(self.context.cursor_input.limit@),
                    ),
                    Some(ValueModel::UInt64(l)) => r matches Ok(c) && c.limit == l && match cursor {
                        Some(ValueModel::String(s)) => c.cursor matches Some(x) && x@ == s,
                        _ => c.cursor is None,
                    },
                    Some(_) => r matches Err(e) && is_custom(e, "internal: not a u64"@),
                },
            },
    {
        let config = &self.context.cursor_input;
        let cursor = match object.get(config.cursor.as_str()) {
            Some(c) => match c.string() {
                Ok(s) => Some(crate::text::owned(s)),
                Err(e) => {
                    return Err(e);
                },
            },
            None => None,
        };
        let limit = match object.get(config.limit.as_str()) {
            Some(v) => v,
            None => {
                return Err(required_argument_error(config.limit.as_str()));
            },
        };
        match limit.uint64() {
            Ok(limit) => Ok(CursorInput { cursor, limit }),
            Err(e) => Err(e),
        }
    }
}

/// This builder produces the offset pagination options input object
#[derive(Debug)]
pub struct OffsetInputBuilder<'a> {
    pub context: &'a BuilderContext,
}

impl<'a> OffsetInputBuilder<'a> {
    /// used to get type name
    pub fn get_type_name(&self) -> (r: String)
        ensures
            r@ == self.context.offset_input.name@,
    {
        self.context.offset_input.name.clone()
    }

    /// The input object: a non-null integer `limit` field, then a non-null
    /// integer `offset` field
    pub fn input_object(&self) -> (r: Object)
        requires
            self.context.offset_input.limit@ != self.context.offset_input.offset@,
        ensures
            r.wf(),
            r.name@ == self.context.offset_input.name@,
            r.io == IO::Input,
            field_list(r.fields).len() == 2,
            field_list(r.fields)[0].name@ == self.context.offset_input.limit@,
            field_list(r.fields)[0].ty@ == uint64_type(),
            field_list(r.fields)[1].name@ == self.context.offset_input.offset@,
            field_list(r.fields)[1].ty@ == uint64_type(),
    {
        let config = &self.context.offset_input;
        Object::new(config.name.as_str(), IO::Input).field(
            Field::input(config.limit.as_str(), TypeRef::named_nn(TypeRef::INT)),
        ).field(Field::input(config.offset.as_str(), TypeRef::named_nn(TypeRef::INT)))
    }

    /// Reads offset pagination options: the offset, 0 where it is not
    /// given and an unsigned 64-bit integer where it is, then the limit,
    /// which must be given as an unsigned 64-bit integer
    pub fn parse_object(&self, object: &ObjectAccessor) -> (r: SeaResult<OffsetInput>)
        ensures
            match optional_u64(object.entries(), self.context.offset_input.offset@) {
                Err(m) => r matches Err(e) && is_custom(e, m),
                Ok(offset) => match lookup(object.entries(), self.context.offset_input.limit@) {
                    None => r matches Err(e) && is_custom(
                        e,
                        missing_argument(self.context.offset_input.limit@),
                    ),
                    Some(ValueModel::UInt64(l)) => r == Ok::<OffsetInput, SeaographyError>(
                        OffsetInput { offset, limit: l },
                    ),
                    Some(_) => r matches Err(e) && is_custom(e, "internal: not a u64"@),
                },
            },
    {
        let config = &self.context.offset_input;
        let offset = match object.get(config.offset.as_str()) {
            Some(v) => match v.uint64() {
                Ok(o) => o,
                Err(e) => {
                    return Err(e);
                },
            },
            None => 0,
        };
        let limit = match object.get(config.limit.as_str()) {
            Some(v) => v,
            None => {
                return Err(required_argument_error(config.limit.as_str()));
            },
        };
        match limit.uint64() {
            Ok(limit) => Ok(OffsetInput { offset, limit }),
            Err(e) => Err(e),
        }
    }
}

} // verus!
