//! The schema: endpoints, their interfaces, and the compilation of a query
//! against them.

use vstd::prelude::*;
use indexmap::IndexMap;
use tera::Tera;
use crate::error::{ErrorModel, QueryError};
use crate::filter_ir::{FilterIr, FilterModel, spec_filter_ir};
use crate::indexed::{
    lookup, param_entries, param_get, param_pairs, text_entries, text_insert, text_map_new,
    text_pairs,
};
use crate::middleware::X_BERYL_SECRET;
use crate::query::{Query, SortQuery};
use crate::query_ir::{QueryIr, QueryIrModel, SortIr, SortModel, filter_views};
use crate::templates::{context_insert, context_new, error_message, render};
use crate::text::{parse_i64, push_signed_decimal, signed_decimal, spec_parse_i64, views};

verus! {

/// How the filter string of a field is read.
#[derive(Debug, Clone, Copy, PartialEq, Eq)]
pub enum FilterType {
    Compare,
    ExactMatch,
    StringMatch,
    InArray,
}

/// What the interface declares of one field.
#[derive(Debug, Clone)]
pub struct ParamValue {
    pub column: String,
    pub filter_type: FilterType,
    pub visible: bool,
    pub is_text: bool,
    pub is_template_var: bool,
}

/// The fields that an endpoint exposes, in their declared order.
#[derive(Debug)]
pub struct Interface(pub IndexMap<String, ParamValue>);

impl Interface {
    pub open spec fn entries(self) -> Seq<(String, ParamValue)> {
        param_entries(self.0)
    }
}

/// Where an endpoint's rows come from: a table, or a table name rendered
/// from a template.
#[derive(Debug, Clone)]
pub enum SqlSelect {
    Table { name: String },
    Template { template_path: String },
}

/// A named view over a table, with the fields it exposes.
#[derive(Debug)]
pub struct Endpoint {
    pub name: String,
    pub sql_select: SqlSelect,
    pub primary: Option<String>,
    pub interface: Interface,
}

/// All endpoints, in order, with free-form annotations.
#[derive(Debug)]
pub struct Schema {
    pub annotations: IndexMap<String, String>,
    pub endpoints: Vec<Endpoint>,
}

/// The entries marked visible, in their declared order.
pub open spec fn visible_entries(e: Seq<(String, ParamValue)>) -> Seq<(String, ParamValue)>
    decreases e.len(),
{
    if e.len() == 0 {
        Seq::empty()
    } else if e.last().1.visible {
        visible_entries(e.drop_last()).push(e.last())
    } else {
        visible_entries(e.drop_last())
    }
}

/// The backing columns of the visible fields, in declared order.
pub open spec fn projection_of(e: Seq<(String, ParamValue)>) -> Seq<Seq<char>> {
    visible_entries(e).map_values(|p: (String, ParamValue)| p.1.column@)
}

/// The names of the visible fields, in declared order.
pub open spec fn headers_of(e: Seq<(String, ParamValue)>) -> Seq<Seq<char>> {
    visible_entries(e).map_values(|p: (String, ParamValue)| p.0@)
}

/// The request's filters compiled in order, leaving out the secret; the
/// first failure is the result.
pub open spec fn spec_filters(fe: Seq<(String, String)>, e: Seq<(String, ParamValue)>) -> Result<
    Seq<FilterModel>,
    ErrorModel,
>
    decreases fe.len(),
{
    if fe.len() == 0 {
        Ok(Seq::empty())
    } else {
        match spec_filters(fe.drop_last(), e) {
            Err(err) => Err(err),
            Ok(fs) => if fe.last().0@ == X_BERYL_SECRET@ {
                Ok(fs)
            } else {
                match spec_filter_ir(fe.last().0@, fe.last().1@, e) {
                    Ok(f) => Ok(fs.push(f)),
                    Err(err) => Err(err),
                }
            },
        }
    }
}

/// The sort resolved to its column.
pub open spec fn spec_sort(s: Option<SortQuery>, e: Seq<(String, ParamValue)>) -> Result<
    Option<SortModel>,
    ErrorModel,
> {
    match s {
        None => Ok(None),
        Some(s) => match lookup(e, s.name@) {
            None => Err(ErrorModel::UnknownField(s.name@)),
            Some(p) => Ok(Some(SortModel { direction: s.direction, column: p.column@ })),
        },
    }
}

/// The query IR and headers of a request on an endpoint whose table is
/// `table`.
pub open spec fn spec_query_ir(ep: Endpoint, q: Query, table: Seq<char>) -> Result<
    (QueryIrModel, Seq<Seq<char>>),
    ErrorModel,
> {
    let e = ep.interface.entries();
    match spec_filters(text_entries(q.filters), e) {
        Err(err) => Err(err),
        Ok(fs) => match spec_sort(q.sort, e) {
            Err(err) => Err(err),
            Ok(s) => Ok(
                (
                    QueryIrModel {
                        table,
                        projection: projection_of(e),
                        filters: fs,
                        sort: s,
                        limit: q.limit,
                    },
                    headers_of(e),
                ),
            ),
        },
    }
}

pub open spec fn ir_result_view(r: Result<(QueryIr, Vec<String>), QueryError>) -> Result<
    (QueryIrModel, Seq<Seq<char>>),
    ErrorModel,
> {
    match r {
        Ok((ir, h)) => Ok((ir@, views(h@))),
        Err(err) => Err(err@),
    }
}

/// The request's filters on fields that the interface marks as template
/// variables, in request order.
pub open spec fn spec_template_vars(fe: Seq<(String, String)>, e: Seq<(String, ParamValue)>) -> Seq<
    (String, String),
>
    decreases fe.len(),
{
    if fe.len() == 0 {
        Seq::empty()
    } else {
        let prev = spec_template_vars(fe.drop_last(), e);
        match lookup(e, fe.last().0@) {
            Some(p) => if p.is_template_var {
                prev.push(fe.last())
            } else {
                prev
            },
            None => prev,
        }
    }
}

/// `i` is the first position of an endpoint named `name`.
pub open spec fn is_first_named(eps: Seq<Endpoint>, name: Seq<char>, i: int) -> bool {
    &&& 0 <= i < eps.len()
    &&& eps[i].name@ == name
    &&& forall|j: int| 0 <= j < i ==> (#[trigger] eps[j]).name@ != name
}

/// The first endpoint named `name`.
pub open spec fn first_named(eps: Seq<Endpoint>, name: Seq<char>) -> Option<Endpoint> {
    if exists|i: int| is_first_named(eps, name, i) {
        Some(eps[choose|i: int| is_first_named(eps, name, i)])
    } else {
        None
    }
}

proof fn lemma_first_named(eps: Seq<Endpoint>, name: Seq<char>, i: int)
    requires
        is_first_named(eps, name, i),
    ensures
        first_named(eps, name) == Some(eps[i]),
{
    let k = choose|k: int| is_first_named(eps, name, k);
    assert(is_first_named(eps, name, k));
    if k < i {
        assert(eps[k].name@ != name);
    } else if k > i {
        assert(eps[i].name@ != name);
    }
}

proof fn lemma_filters_prefix_err(fe: Seq<(String, String)>, e: Seq<(String, ParamValue)>, k: int)
    requires
        0 <= k <= fe.len(),
        spec_filters(fe.take(k), e) is Err,
    ensures
        spec_filters(fe, e) == spec_filters(fe.take(k), e),
    decreases fe.len() - k,
{
    if k < fe.len() {
        assert(fe.drop_last().take(k) =~= fe.take(k));
        lemma_filters_prefix_err(fe.drop_last(), e, k);
    } else {
        assert(fe.take(k) =~= fe);
    }
}

impl Endpoint {
    /// The request's filters that bind template variables of the table
    /// template.
    pub fn template_vars(&self, query: &Query) -> (r: Vec<(String, String)>)
        ensures
            r@ == spec_template_vars(text_entries(query.filters), self.interface.entries()),
    {
        let pairs = text_pairs(&query.filters);
        let ghost fe = text_entries(query.filters);
        let ghost e = self.interface.entries();
        let mut out: Vec<(String, String)> = Vec::new();
        let mut i: usize = 0;
        while i < pairs.len()
            invariant
                pairs@ == fe,
                fe == text_entries(query.filters),
                e == self.interface.entries(),
                i <= pairs@.len(),
                out@ == spec_template_vars(fe.take(i as int), e),
            decreases pairs@.len() - i,
        {
            assert(fe.take(i + 1).drop_last() =~= fe.take(i as int));
            assert(fe.take(i + 1).last() == pairs@[i as int]);
            let (k, v) = &pairs[i];
            match param_get(&self.interface.0, k.as_str()) {
                Some(p) => {
                    if p.is_template_var {
                        out.push((k.clone(), v.clone()));
                    }
                },
                None => {},
            }
            i += 1;
        }
        assert(fe.take(i as int) =~= fe);
        out
    }

    /// Compiles a request on this endpoint into its query IR and headers,
    /// with `table` as the table it reads.
    pub fn query_ir(&self, query: &Query, table: String) -> (r: Result<
        (QueryIr, Vec<String>),
        QueryError,
    >)
        ensures
            ir_result_view(r) == spec_query_ir(*self, *query, table@),
    {
        let ghost e = self.interface.entries();
        let entries = param_pairs(&self.interface.0);
        let mut projection: Vec<String> = Vec::new();
        let mut headers: Vec<String> = Vec::new();
        let mut i: usize = 0;
        while i < entries.len()
            invariant
                entries@ == e,
                e == self.interface.entries(),
                i <= entries@.len(),
                views(projection@) == projection_of(e.take(i as int)),
                views(headers@) == headers_of(e.take(i as int)),
            decreases entries@.len() - i,
        {
            let ghost t = e.take(i + 1);
            assert(t.drop_last() =~= e.take(i as int));
            assert(t.last() == entries@[i as int]);
            let ghost proj0 = projection@;
            let ghost head0 = headers@;
            let (k, p) = &entries[i];
            if p.visible {
                projection.push(p.column.clone());
                headers.push(k.clone());
                assert(views(projection@) =~= views(proj0).push(p.column@));
                assert(views(headers@) =~= views(head0).push(k@));
                assert(projection_of(t) =~= projection_of(e.take(i as int)).push(p.column@));
                assert(headers_of(t) =~= headers_of(e.take(i as int)).push(k@));
            } else {
                assert(projection_of(t) =~= projection_of(e.take(i as int)));
                assert(headers_of(t) =~= headers_of(e.take(i as int)));
            }
            i += 1;
        }
        assert(e.take(i as int) =~= e);

        let pairs = text_pairs(&query.filters);
        let ghost fe = text_entries(query.filters);
        let mut filters: Vec<FilterIr> = Vec::new();
        let secret = X_BERYL_SECRET.to_owned();
        let mut j: usize = 0;
        assert(fe.take(0) =~= Seq::<(String, String)>::empty());
        assert(filter_views(filters@) =~= Seq::<FilterModel>::empty());
        while j < pairs.len()
            invariant
                pairs@ == fe,
                fe == text_entries(query.filters),
                e == self.interface.entries(),
                secret@ == X_BERYL_SECRET@,
                j <= pairs@.len(),
                spec_filters(fe.take(j as int), e) == Ok::<Seq<FilterModel>, ErrorModel>(
                    filter_views(filters@),
                ),
            decreases pairs@.len() - j,
        {
            let ghost t = fe.take(j + 1);
            assert(t.drop_last() =~= fe.take(j as int));
            assert(t.last() == pairs@[j as int]);
            let ghost before = filters@;
            let (k, v) = &pairs[j];
            if *k != secret {
                match FilterIr::from_schema_query(k.as_str(), v.as_str(), &self.interface) {
                    Ok(f) => {
                        filters.push(f);
                        assert(filter_views(filters@) =~= filter_views(before).push(f@));
                    },
                    Err(err) => {
                        proof {
                            lemma_filters_prefix_err(fe, e, j + 1);
                        }
                        return Err(err);
                    },
                }
            }
            j += 1;
        }
        assert(fe.take(j as int) =~= fe);

        let sort = match &query.sort {
            Some(s) => match param_get(&self.interface.0, s.name.as_str()) {
                Some(p) => Some(SortIr { direction: s.direction, column: p.column.clone() }),
                None => {
                    return Err(QueryError::UnknownField { name: s.name.clone() });
                },
            },
            None => None,
        };
        let ir = QueryIr { table, projection, filters, sort, limit: query.limit };
        Ok((ir, headers))
    }
}

impl Schema {
    /// The first endpoint named `name`.
    pub fn get_endpoint(&self, name: &str) -> (r: Option<&Endpoint>)
        ensures
            match r {
                Some(ep) => first_named(self.endpoints@, name@) == Some(*ep),
                None => first_named(self.endpoints@, name@) is None,
            },
    {
        let wanted = name.to_owned();
        let mut i: usize = 0;
        while i < self.endpoints.len()
            invariant
                wanted@ == name@,
                i <= self.endpoints@.len(),
                forall|j: int| 0 <= j < i ==> (#[trigger] self.endpoints@[j]).name@ != name@,
            decreases self.endpoints@.len() - i,
        {
            if self.endpoints[i].name == wanted {
                proof {
                    lemma_first_named(self.endpoints@, name@, i as int);
                }
                return Some(&self.endpoints[i]);
            }
            i += 1;
        }
        assert(!exists|k: int| is_first_named(self.endpoints@, name@, k));
        None
    }

    /// Compiles a request on the endpoint named `endpoint` into its query IR
    /// and headers. A templated table name is rendered by `sql_templates`
    /// with the request's template variables.
    pub fn gen_query_ir(&self, endpoint: &str, query: &Query, sql_templates: Option<&Tera>) -> (r:
        Result<(QueryIr, Vec<String>), QueryError>)
        ensures
            match first_named(self.endpoints@, endpoint@) {
                None => r is Err && r->Err_0@ is EndpointNotFound,
                Some(ep) => match ep.sql_select {
                    SqlSelect::Table { name } => ir_result_view(r) == spec_query_ir(
                        ep,
                        *query,
                        name@,
                    ),
                    SqlSelect::Template { .. } => {
                        &&& sql_templates is None ==> r is Err && r->Err_0@ is TemplateRender
                        &&& (r is Err && r->Err_0@ is TemplateRender) || exists|t: Seq<char>|
                            ir_result_view(r) == #[trigger] spec_query_ir(ep, *query, t)
                    },
                },
            },
    {
        let ep = match self.get_endpoint(endpoint) {
            Some(ep) => ep,
            None => {
                return Err(QueryError::EndpointNotFound);
            },
        };
        let table = match &ep.sql_select {
            SqlSelect::Table { name } => name.clone(),
            SqlSelect::Template { template_path } => {
                let tera = match sql_templates {
                    Some(t) => t,
                    None => {
                        return Err(
                            QueryError::TemplateRender {
                                message: "no sql templates are loaded".to_owned(),
                            },
                        );
                    },
                };
                let vars = ep.template_vars(query);
                let mut context = context_new();
                let mut i: usize = 0;
                while i < vars.len()
                    decreases vars@.len() - i,
                {
                    context_insert(&mut context, &vars[i].0, &vars[i].1);
                    i += 1;
                }
                match render(tera, template_path.as_str(), &context) {
                    Ok(t) => t,
                    Err(e) => {
                        return Err(QueryError::TemplateRender { message: error_message(&e) });
                    },
                }
            },
        };
        ep.query_ir(query, table)
    }
}

impl Schema {
    /// The request that reads the record with primary key `id` of the
    /// endpoint named `endpoint`: one filter `eq.<id>` on the primary field,
    /// the id written back in its plain decimal form.
    pub fn single_record_query(&self, endpoint: &str, id: &str) -> (r: Result<Query, QueryError>)
        ensures
            match first_named(self.endpoints@, endpoint@) {
                None => r is Err && r->Err_0@ is EndpointNotFound,
                Some(ep) => match ep.primary {
                    None => r is Err && r->Err_0@ is NoPrimary,
                    Some(p) => match spec_parse_i64(id@) {
                        None => r is Err && r->Err_0@ is BadId,
                        Some(v) => r is Ok && {
                            let q = r->Ok_0;
                            let fe = text_entries(q.filters);
                            &&& fe.len() == 1
                            &&& fe[0].0 == p
                            &&& fe[0].1@ == "eq."@ + signed_decimal(v as int)
                            &&& q.sort is None
                            &&& q.limit is None
                        },
                    },
                },
            },
    {
        let ep = match self.get_endpoint(endpoint) {
            Some(ep) => ep,
            None => {
                return Err(QueryError::EndpointNotFound);
            },
        };
        let primary = match &ep.primary {
            Some(p) => p.clone(),
            None => {
                return Err(QueryError::NoPrimary);
            },
        };
        let v = match parse_i64(id) {
            Some(v) => v,
            None => {
                return Err(QueryError::BadId);
            },
        };
        let mut filter = "eq.".to_owned();
        push_signed_decimal(&mut filter, v);
        let mut filters = text_map_new();
        text_insert(&mut filters, primary, filter);
        assert(text_entries(filters) =~= seq![(primary, filter)]);
        Ok(Query { filters, sort: None, limit: None })
    }
}

} // verus!
