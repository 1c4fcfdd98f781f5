//! Compiled filters: a field's filter string read by the field's grammar
//! and bound to its column.

use vstd::prelude::*;
use crate::error::{QueryError, ErrorModel};
use crate::indexed::{lookup, param_get};
use crate::schema::{FilterType, Interface, ParamValue};
use crate::text::{split_on, split_chars, join_seq, join_strings, views};

verus! {

/// A comparison operator.
#[derive(Debug, Clone, Copy, PartialEq, Eq)]
pub enum Comparison {
    Equal,
    NotEqual,
    LessThan,
    LessThanOrEqual,
    GreaterThan,
    GreaterThanOrEqual,
}

impl Comparison {
    pub open spec fn spec_sql(self) -> Seq<char> {
        match self {
            Comparison::Equal => "="@,
            Comparison::NotEqual => "<>"@,
            Comparison::LessThan => "<"@,
            Comparison::LessThanOrEqual => "<="@,
            Comparison::GreaterThan => ">"@,
            Comparison::GreaterThanOrEqual => ">="@,
        }
    }

    /// The keyword that names the operator in a filter string.
    pub open spec fn spec_keyword(self) -> Seq<char> {
        match self {
            Comparison::Equal => "eq"@,
            Comparison::NotEqual => "neq"@,
            Comparison::LessThan => "lt"@,
            Comparison::LessThanOrEqual => "lte"@,
            Comparison::GreaterThan => "gt"@,
            Comparison::GreaterThanOrEqual => "gte"@,
        }
    }

    /// The operator that a keyword names.
    pub open spec fn spec_parse(t: Seq<char>) -> Option<Comparison> {
        if t == "eq"@ {
            Some(Comparison::Equal)
        } else if t == "neq"@ {
            Some(Comparison::NotEqual)
        } else if t == "lt"@ {
            Some(Comparison::LessThan)
        } else if t == "lte"@ {
            Some(Comparison::LessThanOrEqual)
        } else if t == "gt"@ {
            Some(Comparison::GreaterThan)
        } else if t == "gte"@ {
            Some(Comparison::GreaterThanOrEqual)
        } else {
            None
        }
    }

    /// The SQL symbol of the operator.
    pub fn sql_string(&self) -> (r: String)
        ensures
            r@ == self.spec_sql(),
    {
        match self {
            Comparison::Equal => "=".to_owned(),
            Comparison::NotEqual => "<>".to_owned(),
            Comparison::LessThan => "<".to_owned(),
            Comparison::LessThanOrEqual => "<=".to_owned(),
            Comparison::GreaterThan => ">".to_owned(),
            Comparison::GreaterThanOrEqual => ">=".to_owned(),
        }
    }

    /// Reads one of `eq`, `neq`, `lt`, `lte`, `gt`, `gte`.
    pub fn parse(t: &str) -> (r: Result<Comparison, QueryError>)
        ensures
            match Comparison::spec_parse(t@) {
                Some(c) => r == Ok::<Comparison, QueryError>(c),
                None => r is Err && r->Err_0@ is BadComparison,
            },
    {
        let t = t.to_owned();
        if t == "eq".to_owned() {
            Ok(Comparison::Equal)
        } else if t == "neq".to_owned() {
            Ok(Comparison::NotEqual)
        } else if t == "lt".to_owned() {
            Ok(Comparison::LessThan)
        } else if t == "lte".to_owned() {
            Ok(Comparison::LessThanOrEqual)
        } else if t == "gt".to_owned() {
            Ok(Comparison::GreaterThan)
        } else if t == "gte".to_owned() {
            Ok(Comparison::GreaterThanOrEqual)
        } else {
            Err(QueryError::BadComparison)
        }
    }
}

impl std::str::FromStr for Comparison {
    type Err = QueryError;

    fn from_str(s: &str) -> Result<Comparison, QueryError> {
        Comparison::parse(s)
    }
}

/// One comparison with its operand, kept as text.
#[derive(Debug, Clone)]
pub struct Compare {
    pub comparison: Comparison,
    pub n: String,
}

impl View for Compare {
    type V = (Comparison, Seq<char>);

    open spec fn view(&self) -> (Comparison, Seq<char>) {
        (self.comparison, self.n@)
    }
}

/// A compiled filter.
#[derive(Debug, Clone)]
pub enum Constraint {
    CompareList(Vec<Compare>),
    ExactMatch { pattern: String },
    StringMatch { substring: String },
    InArray { in_members: Vec<String>, not_in_members: Vec<String> },
}

/// A compiled filter with its texts seen as characters.
pub enum ConstraintModel {
    CompareList(Seq<(Comparison, Seq<char>)>),
    ExactMatch(Seq<char>),
    StringMatch(Seq<char>),
    InArray(Seq<Seq<char>>, Seq<Seq<char>>),
}

pub open spec fn compare_views(v: Seq<Compare>) -> Seq<(Comparison, Seq<char>)> {
    v.map_values(|c: Compare| c@)
}

impl View for Constraint {
    type V = ConstraintModel;

    open spec fn view(&self) -> ConstraintModel {
        match self {
            Constraint::CompareList(v) => ConstraintModel::CompareList(compare_views(v@)),
            Constraint::ExactMatch { pattern } => ConstraintModel::ExactMatch(pattern@),
            Constraint::StringMatch { substring } => ConstraintModel::StringMatch(substring@),
            Constraint::InArray { in_members, not_in_members } => ConstraintModel::InArray(
                views(in_members@),
                views(not_in_members@),
            ),
        }
    }
}

/// A constraint bound to its column and to how its values are quoted.
#[derive(Debug, Clone)]
pub struct FilterIr {
    pub column: String,
    pub constraint: Constraint,
    pub is_text: bool,
}

pub struct FilterModel {
    pub column: Seq<char>,
    pub constraint: ConstraintModel,
    pub is_text: bool,
}

impl View for FilterIr {
    type V = FilterModel;

    open spec fn view(&self) -> FilterModel {
        FilterModel { column: self.column@, constraint: self.constraint@, is_text: self.is_text }
    }
}

/// One `op.value` token: the operator, and everything after the first dot
/// as the operand.
pub open spec fn spec_parse_compare(t: Seq<char>) -> Option<(Comparison, Seq<char>)> {
    let p = split_on(t, '.');
    match Comparison::spec_parse(p[0]) {
        Some(c) => Some((c, join_seq(p.drop_first(), "."@))),
        None => None,
    }
}

/// Every token read as a comparison, or `None` if one of them is not one.
pub open spec fn spec_compare_list(ts: Seq<Seq<char>>) -> Option<Seq<(Comparison, Seq<char>)>>
    decreases ts.len(),
{
    if ts.len() == 0 {
        Some(Seq::empty())
    } else {
        match (spec_compare_list(ts.drop_last()), spec_parse_compare(ts.last())) {
            (Some(cs), Some(c)) => Some(cs.push(c)),
            _ => None,
        }
    }
}

/// A token that names a value to exclude.
pub open spec fn is_exclusion(t: Seq<char>) -> bool {
    t.len() > 0 && t[0] == '~'
}

pub open spec fn has_blank(ts: Seq<Seq<char>>) -> bool {
    exists|i: int| 0 <= i < ts.len() && (#[trigger] ts[i]).len() == 0
}

/// The tokens without a leading `~`, in order.
pub open spec fn included(ts: Seq<Seq<char>>) -> Seq<Seq<char>>
    decreases ts.len(),
{
    if ts.len() == 0 {
        Seq::empty()
    } else if is_exclusion(ts.last()) {
        included(ts.drop_last())
    } else {
        included(ts.drop_last()).push(ts.last())
    }
}

/// The tokens with a leading `~`, in order, each without it.
pub open spec fn excluded(ts: Seq<Seq<char>>) -> Seq<Seq<char>>
    decreases ts.len(),
{
    if ts.len() == 0 {
        Seq::empty()
    } else if is_exclusion(ts.last()) {
        excluded(ts.drop_last()).push(ts.last().drop_first())
    } else {
        excluded(ts.drop_last())
    }
}

/// A filter string read by a grammar.
pub open spec fn spec_constraint(ft: FilterType, q: Seq<char>) -> Result<
    ConstraintModel,
    ErrorModel,
> {
    match ft {
        FilterType::Compare => match spec_compare_list(split_on(q, ',')) {
            Some(cs) => Ok(ConstraintModel::CompareList(cs)),
            None => Err(ErrorModel::BadComparison),
        },
        FilterType::ExactMatch => Ok(ConstraintModel::ExactMatch(q)),
        FilterType::StringMatch => Ok(ConstraintModel::StringMatch(q)),
        FilterType::InArray => {
            let ts = split_on(q, ',');
            if has_blank(ts) {
                Err(ErrorModel::BlankMember)
            } else {
                Ok(ConstraintModel::InArray(included(ts), excluded(ts)))
            }
        },
    }
}

/// The filter on field `name` with filter string `q`, against the entries of
/// an interface.
pub open spec fn spec_filter_ir(name: Seq<char>, q: Seq<char>, e: Seq<(String, ParamValue)>) -> Result<
    FilterModel,
    ErrorModel,
> {
    match lookup(e, name) {
        None => Err(ErrorModel::UnknownField(name)),
        Some(p) => match spec_constraint(p.filter_type, q) {
            Ok(c) => Ok(FilterModel { column: p.column@, constraint: c, is_text: p.is_text }),
            Err(err) => Err(err),
        },
    }
}

proof fn lemma_compare_list_prefix_none(ts: Seq<Seq<char>>, k: int)
    requires
        0 <= k <= ts.len(),
        spec_compare_list(ts.take(k)) is None,
    ensures
        spec_compare_list(ts) is None,
    decreases ts.len() - k,
{
    if k < ts.len() {
        assert(ts.drop_last().take(k) =~= ts.take(k));
        lemma_compare_list_prefix_none(ts.drop_last(), k);
    } else {
        assert(ts.take(k) =~= ts);
    }
}

/// Reads a comma-separated list of `op.value` tokens.
fn compile_compare_list(q: &str) -> (r: Result<Vec<Compare>, QueryError>)
    ensures
        match spec_compare_list(split_on(q@, ',')) {
            Some(cs) => r is Ok && compare_views(r->Ok_0@) == cs,
            None => r is Err && r->Err_0@ is BadComparison,
        },
{
    let tokens = split_chars(q, ',');
    let ghost ts = split_on(q@, ',');
    let mut out: Vec<Compare> = Vec::new();
    let mut i: usize = 0;
    while i < tokens.len()
        invariant
            ts == split_on(q@, ','),
            views(tokens@) == ts,
            tokens@.len() == ts.len(),
            i <= tokens@.len(),
            spec_compare_list(ts.take(i as int)) == Some(compare_views(out@)),
        decreases tokens@.len() - i,
    {
        let ghost before = out@;
        assert(ts.take(i + 1).drop_last() =~= ts.take(i as int));
        assert(ts.take(i + 1).last() == tokens@[i as int]@);
        let mut parts = split_chars(tokens[i].as_str(), '.');
        let comparison = match Comparison::parse(parts[0].as_str()) {
            Ok(c) => c,
            Err(e) => {
                proof {
                    assert(spec_parse_compare(ts[i as int]) is None);
                    lemma_compare_list_prefix_none(ts, i + 1);
                }
                return Err(e);
            },
        };
        let ghost all = parts@;
        parts.remove(0);
        assert(views(parts@) =~= views(all).drop_first());
        let n = join_strings(&parts, ".");
        out.push(Compare { comparison, n });
        assert(compare_views(out@) =~= compare_views(before).push((comparison, n@)));
        i += 1;
    }
    assert(ts.take(i as int) =~= ts);
    Ok(out)
}

/// Reads a comma-separated list of members, each one required, or excluded
/// when it starts with `~`.
fn compile_in_array(q: &str) -> (r: Result<(Vec<String>, Vec<String>), QueryError>)
    ensures
        ({
            let ts = split_on(q@, ',');
            if has_blank(ts) {
                r is Err && r->Err_0@ is BlankMember
            } else {
                r is Ok && views(r->Ok_0.0@) == included(ts) && views(r->Ok_0.1@) == excluded(ts)
            }
        }),
{
    let tokens = split_chars(q, ',');
    let ghost ts = split_on(q@, ',');
    let mut in_members: Vec<String> = Vec::new();
    let mut not_in_members: Vec<String> = Vec::new();
    let mut i: usize = 0;
    while i < tokens.len()
        invariant
            ts == split_on(q@, ','),
            views(tokens@) == ts,
            tokens@.len() == ts.len(),
            i <= tokens@.len(),
            !has_blank(ts.take(i as int)),
            views(in_members@) == included(ts.take(i as int)),
            views(not_in_members@) == excluded(ts.take(i as int)),
        decreases tokens@.len() - i,
    {
        let ghost t = ts[i as int];
        let ghost ins = in_members@;
        let ghost outs = not_in_members@;
        assert(ts.take(i + 1).drop_last() =~= ts.take(i as int));
        assert(ts.take(i + 1).last() == t);
        assert(tokens@[i as int]@ == t);
        let member = tokens[i].as_str();
        let len = member.unicode_len();
        if len == 0 {
            assert(member@ == t);
            assert(ts[i as int].len() == 0);
            assert(has_blank(ts));
            return Err(QueryError::BlankMember);
        }
        if member.get_char(0) == '~' {
            let stripped = member.substring_char(1, len).to_owned();
            assert(stripped@ =~= t.drop_first());
            not_in_members.push(stripped);
            assert(views(not_in_members@) =~= views(outs).push(t.drop_first()));
        } else {
            in_members.push(member.to_owned());
            assert(views(in_members@) =~= views(ins).push(t));
        }
        assert(!has_blank(ts.take(i + 1))) by {
            if has_blank(ts.take(i + 1)) {
                let j = choose|j: int| 0 <= j < i + 1 && (#[trigger] ts.take(i + 1)[j]).len() == 0;
                if j < i {
                    assert(ts.take(i as int)[j] == ts.take(i + 1)[j]);
                }
            }
        }
        i += 1;
    }
    assert(ts.take(i as int) =~= ts);
    Ok((in_members, not_in_members))
}

impl FilterIr {
    /// Compiles the filter string `filter_query` on field `name` by the
    /// grammar that `interface` declares for it.
    pub fn from_schema_query(name: &str, filter_query: &str, interface: &Interface) -> (r: Result<
        FilterIr,
        QueryError,
    >)
        ensures
            match spec_filter_ir(name@, filter_query@, interface.entries()) {
                Ok(f) => r is Ok && r->Ok_0@ == f,
                Err(e) => r is Err && r->Err_0@ == e,
            },
    {
        let p = match param_get(&interface.0, name) {
            Some(p) => p,
            None => {
                return Err(QueryError::UnknownField { name: name.to_owned() });
            },
        };
        let constraint = match p.filter_type {
            FilterType::Compare => match compile_compare_list(filter_query) {
                Ok(cs) => Constraint::CompareList(cs),
                Err(e) => {
                    return Err(e);
                },
            },
            FilterType::ExactMatch => Constraint::ExactMatch { pattern: filter_query.to_owned() },
            FilterType::StringMatch => Constraint::StringMatch {
                substring: filter_query.to_owned(),
            },
            FilterType::InArray => match compile_in_array(filter_query) {
                Ok((in_members, not_in_members)) => Constraint::InArray {
                    in_members,
                    not_in_members,
                },
                Err(e) => {
                    return Err(e);
                },
            },
        };
        Ok(FilterIr { column: p.column.clone(), constraint, is_text: p.is_text })
    }
}

} // verus!
