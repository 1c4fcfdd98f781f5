//! The backend-neutral form of one request, fully resolved against the
//! schema.

use vstd::prelude::*;
use crate::filter_ir::{FilterIr, FilterModel};
use crate::query::{LimitQuery, SortDirection};

verus! {

/// An `ORDER BY` on a resolved column.
#[derive(Debug, Clone)]
pub struct SortIr {
    pub direction: SortDirection,
    pub column: String,
}

pub struct SortModel {
    pub direction: SortDirection,
    pub column: Seq<char>,
}

impl View for SortIr {
    type V = SortModel;

    open spec fn view(&self) -> SortModel {
        SortModel { direction: self.direction, column: self.column@ }
    }
}

/// Table, projected columns, filters, sort and limit of one request.
#[derive(Debug, Clone)]
pub struct QueryIr {
    pub table: String,
    pub projection: Vec<String>,
    pub filters: Vec<FilterIr>,
    pub sort: Option<SortIr>,
    pub limit: Option<LimitQuery>,
}

pub struct QueryIrModel {
    pub table: Seq<char>,
    pub projection: Seq<Seq<char>>,
    pub filters: Seq<FilterModel>,
    pub sort: Option<SortModel>,
    pub limit: Option<LimitQuery>,
}

pub open spec fn filter_views(v: Seq<FilterIr>) -> Seq<FilterModel> {
    v.map_values(|f: FilterIr| f@)
}

pub open spec fn sort_view(s: Option<SortIr>) -> Option<SortModel> {
    match s {
        Some(s) => Some(s@),
        None => None,
    }
}

impl View for QueryIr {
    type V = QueryIrModel;

    open spec fn view(&self) -> QueryIrModel {
        QueryIrModel {
            table: self.table@,
            projection: crate::text::views(self.projection@),
            filters: filter_views(self.filters@),
            sort: sort_view(self.sort),
            limit: self.limit,
        }
    }
}

} // verus!
