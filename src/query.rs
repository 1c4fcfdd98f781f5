//! A request's filters, sort and limit, and the parsing of their texts.

use vstd::prelude::*;
use indexmap::IndexMap;
use crate::error::QueryError;
use crate::indexed::text_entries;
use crate::text::{split_on, split_chars, spec_parse_u64, parse_u64};

verus! {

/// Direction of an `ORDER BY` clause.
#[derive(Debug, Clone, Copy, PartialEq, Eq)]
pub enum SortDirection {
    Asc,
    Desc,
}

impl SortDirection {
    pub open spec fn spec_sql(self) -> Seq<char> {
        match self {
            SortDirection::Asc => "asc"@,
            SortDirection::Desc => "desc"@,
        }
    }

    pub open spec fn spec_parse(t: Seq<char>) -> Option<SortDirection> {
        if t == "asc"@ {
            Some(SortDirection::Asc)
        } else if t == "desc"@ {
            Some(SortDirection::Desc)
        } else {
            None
        }
    }

    /// The SQL keyword of the direction.
    pub fn sql_string(&self) -> (r: String)
        ensures
            r@ == self.spec_sql(),
    {
        match *self {
            SortDirection::Asc => "asc".to_owned(),
            SortDirection::Desc => "desc".to_owned(),
        }
    }

    /// Reads `asc` or `desc`.
    pub fn parse(t: &str) -> (r: Result<SortDirection, QueryError>)
        ensures
            match SortDirection::spec_parse(t@) {
                Some(d) => r == Ok::<SortDirection, QueryError>(d),
                None => r is Err && r->Err_0@ is BadSort,
            },
    {
        let owned = t.to_owned();
        if owned == "asc".to_owned() {
            Ok(SortDirection::Asc)
        } else if owned == "desc".to_owned() {
            Ok(SortDirection::Desc)
        } else {
            Err(QueryError::BadSort)
        }
    }
}

/// How many rows to return, after how many to skip.
#[derive(Debug, Clone, Copy, PartialEq, Eq)]
pub struct LimitQuery {
    pub offset: Option<u64>,
    pub n: u64,
}

/// The limit that a text `count` or `offset,count` spells.
pub open spec fn spec_parse_limit(s: Seq<char>) -> Option<LimitQuery> {
    let p = split_on(s, ',');
    if p.len() == 2 {
        match (spec_parse_u64(p[0]), spec_parse_u64(p[1])) {
            (Some(o), Some(n)) => Some(LimitQuery { offset: Some(o), n }),
            _ => None,
        }
    } else if p.len() == 1 {
        match spec_parse_u64(p[0]) {
            Some(n) => Some(LimitQuery { offset: None, n }),
            None => None,
        }
    } else {
        None
    }
}

impl LimitQuery {
    /// Reads `count` or `offset,count`.
    pub fn parse(s: &str) -> (r: Result<LimitQuery, QueryError>)
        ensures
            match spec_parse_limit(s@) {
                Some(l) => r == Ok::<LimitQuery, QueryError>(l),
                None => r is Err && r->Err_0@ is BadLimit,
            },
    {
        let p = split_chars(s, ',');
        if p.len() == 2 {
            let o = parse_u64(p[0].as_str());
            let n = parse_u64(p[1].as_str());
            match (o, n) {
                (Some(o), Some(n)) => Ok(LimitQuery { offset: Some(o), n }),
                _ => Err(QueryError::BadLimit),
            }
        } else if p.len() == 1 {
            match parse_u64(p[0].as_str()) {
                Some(n) => Ok(LimitQuery { offset: None, n }),
                None => Err(QueryError::BadLimit),
            }
        } else {
            Err(QueryError::BadLimit)
        }
    }
}

/// A sort on a field of the interface.
#[derive(Debug, Clone)]
pub struct SortQuery {
    pub direction: SortDirection,
    pub name: String,
}

/// The field name and direction that a text `name.asc` or `name.desc`
/// spells.
pub open spec fn spec_parse_sort(s: Seq<char>) -> Option<(Seq<char>, SortDirection)> {
    let p = split_on(s, '.');
    if p.len() == 2 {
        match SortDirection::spec_parse(p[1]) {
            Some(d) => Some((p[0], d)),
            None => None,
        }
    } else {
        None
    }
}

impl SortQuery {
    /// Reads `name.asc` or `name.desc`.
    pub fn parse(s: &str) -> (r: Result<SortQuery, QueryError>)
        ensures
            match spec_parse_sort(s@) {
                Some((name, d)) => r is Ok && r->Ok_0.name@ == name && r->Ok_0.direction == d,
                None => r is Err && r->Err_0@ is BadSort,
            },
    {
        let mut p = split_chars(s, '.');
        if p.len() == 2 {
            let direction = match SortDirection::parse(p[1].as_str()) {
                Ok(d) => d,
                Err(e) => {
                    return Err(e);
                },
            };
            let name = p.remove(0);
            Ok(SortQuery { direction, name })
        } else {
            Err(QueryError::BadSort)
        }
    }
}

/// One request: a filter string per field, and an optional sort and limit.
pub struct Query {
    pub filters: IndexMap<String, String>,
    pub sort: Option<SortQuery>,
    pub limit: Option<LimitQuery>,
}

/// A request's parameters as texts, before sort and limit are read.
pub struct ApiQueryOpt {
    pub filters: IndexMap<String, String>,
    pub sort: Option<String>,
    pub limit: Option<String>,
}

impl Query {
    /// Reads the sort and then the limit text of a request; the filters are
    /// carried over as they are.
    pub fn from_api(opt: ApiQueryOpt) -> (r: Result<Query, QueryError>)
        ensures
            ({
                let sort_ok = match opt.sort {
                    Some(s) => spec_parse_sort(s@) is Some,
                    None => true,
                };
                let limit_ok = match opt.limit {
                    Some(l) => spec_parse_limit(l@) is Some,
                    None => true,
                };
                &&& !sort_ok ==> r is Err && r->Err_0@ is BadSort
                &&& sort_ok && !limit_ok ==> r is Err && r->Err_0@ is BadLimit
                &&& sort_ok && limit_ok ==> r is Ok && {
                    let q = r->Ok_0;
                    &&& text_entries(q.filters) == text_entries(opt.filters)
                    &&& match opt.sort {
                        Some(s) => q.sort is Some && spec_parse_sort(s@) == Some(
                            (q.sort->0.name@, q.sort->0.direction),
                        ),
                        None => q.sort is None,
                    }
                    &&& match opt.limit {
                        Some(l) => q.limit == spec_parse_limit(l@),
                        None => q.limit is None,
                    }
                }
            }),
    {
        let sort = match opt.sort {
            Some(s) => match SortQuery::parse(s.as_str()) {
                Ok(q) => Some(q),
                Err(e) => {
                    return Err(e);
                },
            },
            None => None,
        };
        let limit = match opt.limit {
            Some(l) => match LimitQuery::parse(l.as_str()) {
                Ok(q) => Some(q),
                Err(e) => {
                    return Err(e);
                },
            },
            None => None,
        };
        Ok(Query { filters: opt.filters, sort, limit })
    }
}

impl std::str::FromStr for SortDirection {
    type Err = QueryError;

    fn from_str(s: &str) -> Result<SortDirection, QueryError> {
        SortDirection::parse(s)
    }
}

impl std::str::FromStr for SortQuery {
    type Err = QueryError;

    fn from_str(s: &str) -> Result<SortQuery, QueryError> {
        SortQuery::parse(s)
    }
}

impl std::str::FromStr for LimitQuery {
    type Err = QueryError;

    fn from_str(s: &str) -> Result<LimitQuery, QueryError> {
        LimitQuery::parse(s)
    }
}

} // verus!
