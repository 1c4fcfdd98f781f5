//! SQL for ClickHouse: two counts and the data query of one query IR.

use vstd::prelude::*;
use vstd::string::StringExecFns;
use crate::filter_ir::{Compare, Comparison, Constraint, ConstraintModel, FilterIr, FilterModel, compare_views};
use crate::query::LimitQuery;
use crate::query_ir::{QueryIr, QueryIrModel, SortModel, filter_views};
use crate::text::{decimal, join_seq, join_strings, lower_of, lowercase, push_decimal, views};

verus! {

/// A value as a SQL literal: single-quoted when the column holds text.
pub open spec fn quoted(v: Seq<char>, is_text: bool) -> Seq<char> {
    if is_text {
        "'"@ + v + "'"@
    } else {
        v
    }
}

pub open spec fn compare_sql(column: Seq<char>, is_text: bool, c: (Comparison, Seq<char>)) -> Seq<
    char,
> {
    column + " "@ + c.0.spec_sql() + " "@ + quoted(c.1, is_text)
}

/// The members as literals, separated by commas.
pub open spec fn member_list(ms: Seq<Seq<char>>, is_text: bool) -> Seq<char> {
    join_seq(ms.map_values(|m: Seq<char>| quoted(m, is_text)), ", "@)
}

/// Membership of all included members and of none of the excluded ones;
/// a part whose list is empty is left out.
pub open spec fn in_array_sql(
    column: Seq<char>,
    is_text: bool,
    inc: Seq<Seq<char>>,
    exc: Seq<Seq<char>>,
) -> Seq<char> {
    let has_all = if inc.len() > 0 {
        "hasAll("@ + column + ", ["@ + member_list(inc, is_text) + "])"@
    } else {
        Seq::empty()
    };
    let sep = if inc.len() > 0 && exc.len() > 0 {
        " AND "@
    } else {
        Seq::empty()
    };
    let not_any = if exc.len() > 0 {
        "NOT hasAny("@ + column + ", ["@ + member_list(exc, is_text) + "])"@
    } else {
        Seq::empty()
    };
    has_all + sep + not_any
}

/// The predicate of one filter.
pub open spec fn fragment_sql(f: FilterModel) -> Seq<char> {
    match f.constraint {
        ConstraintModel::CompareList(cs) => join_seq(
            cs.map_values(|c: (Comparison, Seq<char>)| compare_sql(f.column, f.is_text, c)),
            " and "@,
        ),
        ConstraintModel::ExactMatch(p) => f.column + " = "@ + quoted(p, f.is_text),
        ConstraintModel::StringMatch(s) => "lowerUTF8("@ + f.column + ") LIKE '%"@ + lower_of(s)
            + "%'"@,
        ConstraintModel::InArray(inc, exc) => in_array_sql(f.column, f.is_text, inc, exc),
    }
}

pub open spec fn fragments(fs: Seq<FilterModel>) -> Seq<Seq<char>> {
    fs.map_values(|f: FilterModel| fragment_sql(f))
}

/// All predicates joined by `and`, or nothing when there is no filter.
pub open spec fn where_sql(fs: Seq<FilterModel>) -> Seq<char> {
    if fs.len() == 0 {
        Seq::empty()
    } else {
        "where "@ + join_seq(fragments(fs), " and "@)
    }
}

pub open spec fn order_by_sql(s: Option<SortModel>) -> Seq<char> {
    match s {
        Some(s) => "ORDER BY "@ + s.column + " "@ + s.direction.spec_sql(),
        None => Seq::empty(),
    }
}

pub open spec fn limit_sql(l: Option<LimitQuery>) -> Seq<char> {
    match l {
        Some(l) => match l.offset {
            Some(o) => "LIMIT "@ + decimal(o as nat) + ", "@ + decimal(l.n as nat),
            None => "LIMIT "@ + decimal(l.n as nat),
        },
        None => Seq::empty(),
    }
}

pub open spec fn table_count_sql(ir: QueryIrModel) -> Seq<char> {
    "SELECT count(*) FROM "@ + ir.table
}

pub open spec fn filter_count_sql(ir: QueryIrModel) -> Seq<char> {
    "SELECT count(*) FROM "@ + ir.table + " "@ + where_sql(ir.filters)
}

pub open spec fn data_sql(ir: QueryIrModel) -> Seq<char> {
    "SELECT "@ + join_seq(ir.projection, ", "@) + " FROM "@ + ir.table + " "@ + where_sql(
        ir.filters,
    ) + " "@ + order_by_sql(ir.sort) + " "@ + limit_sql(ir.limit)
}

/// The unfiltered count, the filtered count and the data query, in this
/// order.
pub open spec fn spec_clickhouse_sql(ir: QueryIrModel) -> Seq<Seq<char>> {
    seq![table_count_sql(ir), filter_count_sql(ir), data_sql(ir)]
}

fn quote(v: &str, is_text: bool) -> (r: String)
    ensures
        r@ == quoted(v@, is_text),
{
    if is_text {
        let mut s = "'".to_owned();
        s.append(v);
        s.append("'");
        s
    } else {
        v.to_owned()
    }
}

fn compare_list_sql(column: &String, is_text: bool, cs: &Vec<Compare>) -> (r: String)
    ensures
        r@ == join_seq(
            compare_views(cs@).map_values(
                |c: (Comparison, Seq<char>)| compare_sql(column@, is_text, c),
            ),
            " and "@,
        ),
{
    let ghost target = compare_views(cs@).map_values(
        |c: (Comparison, Seq<char>)| compare_sql(column@, is_text, c),
    );
    let mut parts: Vec<String> = Vec::new();
    let mut i: usize = 0;
    while i < cs.len()
        invariant
            i <= cs@.len(),
            target == compare_views(cs@).map_values(
                |c: (Comparison, Seq<char>)| compare_sql(column@, is_text, c),
            ),
            views(parts@) == target.take(i as int),
        decreases cs@.len() - i,
    {
        let c = &cs[i];
        let mut s = column.clone();
        s.append(" ");
        s.append(c.comparison.sql_string().as_str());
        s.append(" ");
        s.append(quote(c.n.as_str(), is_text).as_str());
        let ghost before = parts@;
        let ghost sv = s@;
        parts.push(s);
        assert(compare_views(cs@)[i as int] == cs@[i as int]@);
        assert(target[i as int] == sv);
        assert(views(parts@) =~= views(before).push(sv));
        assert(views(parts@) =~= target.take(i + 1));
        i += 1;
    }
    assert(target.take(i as int) =~= target);
    join_strings(&parts, " and ")
}

fn member_list_sql(ms: &Vec<String>, is_text: bool) -> (r: String)
    ensures
        r@ == member_list(views(ms@), is_text),
{
    let ghost target = views(ms@).map_values(|m: Seq<char>| quoted(m, is_text));
    let mut parts: Vec<String> = Vec::new();
    let mut i: usize = 0;
    while i < ms.len()
        invariant
            i <= ms@.len(),
            target == views(ms@).map_values(|m: Seq<char>| quoted(m, is_text)),
            views(parts@) == target.take(i as int),
        decreases ms@.len() - i,
    {
        let q = quote(ms[i].as_str(), is_text);
        let ghost before = parts@;
        let ghost qv = q@;
        parts.push(q);
        assert(views(ms@)[i as int] == ms@[i as int]@);
        assert(target[i as int] == qv);
        assert(views(parts@) =~= views(before).push(qv));
        assert(views(parts@) =~= target.take(i + 1));
        i += 1;
    }
    assert(target.take(i as int) =~= target);
    join_strings(&parts, ", ")
}

fn in_array_fragment(column: &String, is_text: bool, inc: &Vec<String>, exc: &Vec<String>) -> (r:
    String)
    ensures
        r@ == in_array_sql(column@, is_text, views(inc@), views(exc@)),
{
    let mut res = String::new();
    if inc.len() > 0 {
        res.append("hasAll(");
        res.append(column.as_str());
        res.append(", [");
        res.append(member_list_sql(inc, is_text).as_str());
        res.append("])");
    }
    if exc.len() > 0 {
        if inc.len() > 0 {
            res.append(" AND ");
        }
        let mut not_any = "NOT hasAny(".to_owned();
        not_any.append(column.as_str());
        not_any.append(", [");
        not_any.append(member_list_sql(exc, is_text).as_str());
        not_any.append("])");
        res.append(not_any.as_str());
    }
    assert(res@ =~= in_array_sql(column@, is_text, views(inc@), views(exc@)));
    res
}

/// The SQL predicate of one filter.
pub fn filter_sql(f: &FilterIr) -> (r: String)
    ensures
        r@ == fragment_sql(f@),
{
    match &f.constraint {
        Constraint::CompareList(cs) => compare_list_sql(&f.column, f.is_text, cs),
        Constraint::ExactMatch { pattern } => {
            let mut s = f.column.clone();
            s.append(" = ");
            s.append(quote(pattern.as_str(), f.is_text).as_str());
            s
        },
        Constraint::StringMatch { substring } => {
            let mut s = "lowerUTF8(".to_owned();
            s.append(f.column.as_str());
            s.append(") LIKE '%");
            s.append(lowercase(substring.as_str()).as_str());
            s.append("%'");
            s
        },
        Constraint::InArray { in_members, not_in_members } => in_array_fragment(
            &f.column,
            f.is_text,
            in_members,
            not_in_members,
        ),
    }
}

/// The `where` clause of the filters; empty when there is none.
pub fn filters_where(filters: &Vec<FilterIr>) -> (r: String)
    ensures
        r@ == where_sql(filter_views(filters@)),
{
    if filters.len() == 0 {
        return String::new();
    }
    let ghost target = fragments(filter_views(filters@));
    let mut parts: Vec<String> = Vec::new();
    let mut i: usize = 0;
    while i < filters.len()
        invariant
            i <= filters@.len(),
            target == fragments(filter_views(filters@)),
            views(parts@) == target.take(i as int),
        decreases filters@.len() - i,
    {
        let f = filter_sql(&filters[i]);
        let ghost before = parts@;
        let ghost fv = f@;
        parts.push(f);
        assert(filter_views(filters@)[i as int] == filters@[i as int]@);
        assert(target[i as int] == fv);
        assert(views(parts@) =~= views(before).push(fv));
        assert(views(parts@) =~= target.take(i + 1));
        i += 1;
    }
    assert(target.take(i as int) =~= target);
    let mut s = "where ".to_owned();
    s.append(join_strings(&parts, " and ").as_str());
    s
}

/// The `LIMIT` clause; empty when there is no limit.
pub fn limit_clause(limit: &Option<LimitQuery>) -> (r: String)
    ensures
        r@ == limit_sql(*limit),
{
    match limit {
        Some(l) => {
            let mut s = "LIMIT ".to_owned();
            match l.offset {
                Some(o) => {
                    push_decimal(&mut s, o);
                    s.append(", ");
                    push_decimal(&mut s, l.n);
                },
                None => {
                    push_decimal(&mut s, l.n);
                },
            }
            s
        },
        None => String::new(),
    }
}

/// The unfiltered count, the filtered count and the data query of a query
/// IR, in this order.
pub fn clickhouse_sql(query_ir: QueryIr) -> (r: Vec<String>)
    ensures
        views(r@) == spec_clickhouse_sql(query_ir@),
{
    let ghost ir = query_ir@;
    let table = query_ir.table.as_str();
    let filter_sql = filters_where(&query_ir.filters);

    let mut table_count = "SELECT count(*) FROM ".to_owned();
    table_count.append(table);

    let mut filter_count = "SELECT count(*) FROM ".to_owned();
    filter_count.append(table);
    filter_count.append(" ");
    filter_count.append(filter_sql.as_str());

    let sort_sql = match &query_ir.sort {
        Some(srt) => {
            let mut s = "ORDER BY ".to_owned();
            s.append(srt.column.as_str());
            s.append(" ");
            s.append(srt.direction.sql_string().as_str());
            s
        },
        None => String::new(),
    };

    let mut data = "SELECT ".to_owned();
    data.append(join_strings(&query_ir.projection, ", ").as_str());
    data.append(" FROM ");
    data.append(table);
    data.append(" ");
    data.append(filter_sql.as_str());
    data.append(" ");
    data.append(sort_sql.as_str());
    data.append(" ");
    data.append(limit_clause(&query_ir.limit).as_str());

    let r = vec![table_count, filter_count, data];
    assert(views(r@) =~= spec_clickhouse_sql(ir));
    r
}

} // verus!
