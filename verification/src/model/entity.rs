//! The entities of an API: types, fields, records, procedures and enumerations.
use crate::model::entity_id::EntityId;
use vstd::prelude::*;

verus! {

/// Opaque bag of attributes attached to an entity. The grammar recognises
/// annotations and drops them, so a parsed entity carries the empty bag.
#[derive(Debug, Clone, PartialEq, Eq)]
pub struct Attributes {}

impl Attributes {
    /// The empty bag.
    pub fn new() -> (r: Attributes)
        ensures
            r == (Attributes {  }),
    {
        Attributes {  }
    }
}

impl Default for Attributes {
    /// The empty bag.
    fn default() -> (r: Attributes)
        ensures
            r == (Attributes {  }),
    {
        Attributes {  }
    }
}

/// Type of a field, a parameter or a return value.
#[derive(Debug, Clone, PartialEq, Eq)]
pub enum Type {
    Bool,
    U8,
    U16,
    U32,
    U64,
    U128,
    I8,
    I16,
    I32,
    I64,
    I128,
    F8,
    F16,
    F32,
    F64,
    F128,
    String,
    Bytes,
    /// A type configured by the caller, under its display name.
    User(String),
    /// A reference to an entity of the API.
    Api(EntityId),
}

/// Mathematical value of a [`Type`].
pub enum TypeView {
    Bool,
    U8,
    U16,
    U32,
    U64,
    U128,
    I8,
    I16,
    I32,
    I64,
    I128,
    F8,
    F16,
    F32,
    F64,
    F128,
    String,
    Bytes,
    User(Seq<char>),
    Api(Seq<Seq<char>>),
}

impl View for Type {
    type V = TypeView;

    open spec fn view(&self) -> TypeView {
        match *self {
            Type::Bool => TypeView::Bool,
            Type::U8 => TypeView::U8,
            Type::U16 => TypeView::U16,
            Type::U32 => TypeView::U32,
            Type::U64 => TypeView::U64,
            Type::U128 => TypeView::U128,
            Type::I8 => TypeView::I8,
            Type::I16 => TypeView::I16,
            Type::I32 => TypeView::I32,
            Type::I64 => TypeView::I64,
            Type::I128 => TypeView::I128,
            Type::F8 => TypeView::F8,
            Type::F16 => TypeView::F16,
            Type::F32 => TypeView::F32,
            Type::F64 => TypeView::F64,
            Type::F128 => TypeView::F128,
            Type::String => TypeView::String,
            Type::Bytes => TypeView::Bytes,
            Type::User(name) => TypeView::User(name@),
            Type::Api(id) => TypeView::Api(id@),
        }
    }
}

impl Type {
    /// The entity that an API reference names; none for every other type.
    pub fn api(&self) -> (r: Option<&EntityId>)
        ensures
            r is Some <==> self@ is Api,
            r matches Some(id) ==> self@ == TypeView::Api(id@),
    {
        match self {
            Type::Api(id) => Some(id),
            _ => None,
        }
    }

    /// The display name of a user-defined type; none for every other type.
    pub fn user(&self) -> (r: Option<&str>)
        ensures
            r is Some <==> self@ is User,
            r matches Some(name) ==> self@ == TypeView::User(name@),
    {
        match self {
            Type::User(name) => Some(name.as_str()),
            _ => None,
        }
    }
}

/// The value of an optional type.
pub open spec fn type_option_view(t: Option<Type>) -> Option<TypeView> {
    match t {
        Some(t) => Some(t@),
        None => None,
    }
}

/// A named, typed member of a record or parameter of a procedure.
#[derive(Debug, Clone, PartialEq, Eq)]
pub struct Field {
    pub name: String,
    pub ty: Type,
    pub attributes: Attributes,
}

/// Mathematical value of a [`Field`].
pub struct FieldView {
    pub name: Seq<char>,
    pub ty: TypeView,
}

impl View for Field {
    type V = FieldView;

    open spec fn view(&self) -> FieldView {
        FieldView { name: self.name@, ty: self.ty@ }
    }
}

/// The values of a vector of fields, in order.
pub open spec fn fields_view(v: Seq<Field>) -> Seq<FieldView> {
    Seq::new(v.len(), |i: int| v[i]@)
}

/// Data-transfer object: a named record of fields in declaration order.
#[derive(Debug, Clone, PartialEq, Eq)]
pub struct Dto {
    pub name: String,
    pub fields: Vec<Field>,
    pub attributes: Attributes,
}

/// Mathematical value of a [`Dto`].
pub struct DtoView {
    pub name: Seq<char>,
    pub fields: Seq<FieldView>,
}

impl View for Dto {
    type V = DtoView;

    open spec fn view(&self) -> DtoView {
        DtoView { name: self.name@, fields: fields_view(self.fields@) }
    }
}

/// Remote procedure: name, parameters in declaration order, and what it
/// returns, if anything.
#[derive(Debug, Clone, PartialEq, Eq)]
pub struct Rpc {
    pub name: String,
    pub params: Vec<Field>,
    pub return_type: Option<Type>,
    pub attributes: Attributes,
}

/// Mathematical value of an [`Rpc`].
pub struct RpcView {
    pub name: Seq<char>,
    pub params: Seq<FieldView>,
    pub return_type: Option<TypeView>,
}

impl View for Rpc {
    type V = RpcView;

    open spec fn view(&self) -> RpcView {
        RpcView {
            name: self.name@,
            params: fields_view(self.params@),
            return_type: type_option_view(self.return_type),
        }
    }
}

/// One variant of an enumeration, with its discriminant where the
/// declaration gives one.
#[derive(Debug, Clone, PartialEq, Eq)]
pub struct EnumValue {
    pub name: String,
    pub number: Option<u64>,
    pub attributes: Attributes,
}

/// Mathematical value of an [`EnumValue`].
pub struct EnumValueView {
    pub name: Seq<char>,
    pub number: Option<u64>,
}

impl View for EnumValue {
    type V = EnumValueView;

    open spec fn view(&self) -> EnumValueView {
        EnumValueView { name: self.name@, number: self.number }
    }
}

/// The values of a vector of variants, in order.
pub open spec fn enum_values_view(v: Seq<EnumValue>) -> Seq<EnumValueView> {
    Seq::new(v.len(), |i: int| v[i]@)
}

/// Enumeration: a name and its variants in declaration order.
#[derive(Debug, Clone, PartialEq, Eq)]
pub struct Enum {
    pub name: String,
    pub values: Vec<EnumValue>,
    pub attributes: Attributes,
}

/// Mathematical value of an [`Enum`].
pub struct EnumView {
    pub name: Seq<char>,
    pub values: Seq<EnumValueView>,
}

impl View for Enum {
    type V = EnumView;

    open spec fn view(&self) -> EnumView {
        EnumView { name: self.name@, values: enum_values_view(self.values@) }
    }
}

} // verus!
