//! Why compiling a request can fail.

use vstd::prelude::*;

verus! {

/// Why a request could not be compiled into a query IR.
#[derive(Debug, Clone, PartialEq, Eq)]
pub enum QueryError {
    /// No endpoint of the schema has the requested name.
    EndpointNotFound,
    /// A filter or sort names a field that the interface does not declare.
    UnknownField { name: String },
    /// A comparison token does not start with a known operator.
    BadComparison,
    /// An in-array filter holds an empty member.
    BlankMember,
    /// A sort string is not of the form `field.asc` or `field.desc`.
    BadSort,
    /// A limit string is not of the form `count` or `offset,count`.
    BadLimit,
    /// The table template could not be rendered.
    TemplateRender { message: String },
    /// The endpoint declares no primary field.
    NoPrimary,
    /// A record id is not a signed 64-bit integer.
    BadId,
}

/// A compile error with its texts seen as characters; a render failure is
/// known by its kind alone.
pub enum ErrorModel {
    EndpointNotFound,
    UnknownField(Seq<char>),
    BadComparison,
    BlankMember,
    BadSort,
    BadLimit,
    TemplateRender,
    NoPrimary,
    BadId,
}

impl View for QueryError {
    type V = ErrorModel;

    open spec fn view(&self) -> ErrorModel {
        match self {
            QueryError::EndpointNotFound => ErrorModel::EndpointNotFound,
            QueryError::UnknownField { name } => ErrorModel::UnknownField(name@),
            QueryError::BadComparison => ErrorModel::BadComparison,
            QueryError::BlankMember => ErrorModel::BlankMember,
            QueryError::BadSort => ErrorModel::BadSort,
            QueryError::BadLimit => ErrorModel::BadLimit,
            QueryError::TemplateRender { .. } => ErrorModel::TemplateRender,
            QueryError::NoPrimary => ErrorModel::NoPrimary,
            QueryError::BadId => ErrorModel::BadId,
        }
    }
}

} // verus!
