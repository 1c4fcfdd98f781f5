//! Properties that hold across the filter compiler, the query IR compiler
//! and the SQL generator.

use vstd::prelude::*;
use crate::clickhouse::{
    compare_sql, fragment_sql, fragments, limit_sql, member_list, order_by_sql, quoted, where_sql,
};
use crate::error::ErrorModel;
use crate::filter_ir::{
    Comparison, ConstraintModel, FilterModel, excluded, has_blank, included, spec_compare_list,
    spec_filter_ir, spec_parse_compare,
};
use crate::indexed::lookup;
use crate::query::{LimitQuery, SortQuery, spec_parse_limit, spec_parse_sort};
use crate::query_ir::SortModel;
use crate::schema::{FilterType, ParamValue, headers_of, projection_of, spec_sort};
use crate::text::{
    decimal, free_of, is_digit, join_seq, lemma_decimal, lemma_join_split, lemma_split_concat,
    lemma_split_free, lemma_split_join, split_on, unsigned_body,
};

verus! {

/// A filter `<op>.<v>` on a compare field, where `v` holds no comma,
/// compiles to the single comparison `(op, v)`, the operand kept verbatim
/// (dots included), and emits `<column> <symbol> <v>`, with `v`
/// single-quoted exactly when the field is text: `eq.5` gives `<column> = 5`.
pub proof fn law_compare_filter(
    name: Seq<char>,
    c: Comparison,
    v: Seq<char>,
    e: Seq<(String, ParamValue)>,
)
    requires
        lookup(e, name) is Some,
        lookup(e, name)->0.filter_type == FilterType::Compare,
        free_of(v, ','),
    ensures
        ({
            let p = lookup(e, name)->0;
            let f = FilterModel {
                column: p.column@,
                constraint: ConstraintModel::CompareList(seq![(c, v)]),
                is_text: p.is_text,
            };
            &&& spec_filter_ir(name, c.spec_keyword() + "."@ + v, e) == Ok::<
                FilterModel,
                ErrorModel,
            >(f)
            &&& fragment_sql(f) == p.column@ + " "@ + c.spec_sql() + " "@ + quoted(v, p.is_text)
            &&& c == Comparison::Equal ==> fragment_sql(f) == p.column@ + " = "@ + quoted(
                v,
                p.is_text,
            )
        }),
{
    reveal_strlit("eq");
    reveal_strlit("neq");
    reveal_strlit("lt");
    reveal_strlit("lte");
    reveal_strlit("gt");
    reveal_strlit("gte");
    reveal_strlit(".");
    reveal_strlit(",");
    reveal_strlit(" ");
    reveal_strlit("=");
    reveal_strlit(" = ");
    let p = lookup(e, name)->0;
    let k = c.spec_keyword();
    let q = k + "."@ + v;
    assert(q =~= k + seq!['.'] + v);
    assert(free_of(k, '.')) by {
        match c {
            Comparison::Equal => {},
            Comparison::NotEqual => {},
            Comparison::LessThan => {},
            Comparison::LessThanOrEqual => {},
            Comparison::GreaterThan => {},
            Comparison::GreaterThanOrEqual => {},
        }
    }
    assert(free_of(q, ',')) by {
        assert forall|i: int| 0 <= i < q.len() implies q[i] != ',' by {
            if i >= k.len() + 1 {
                assert(q[i] == v[i - k.len() - 1]);
            }
        }
    }
    lemma_split_free(q, ',');
    lemma_split_free(k, '.');
    lemma_split_concat(k, v, '.');
    let parts = split_on(q, '.');
    assert(parts =~= seq![k] + split_on(v, '.'));
    assert(parts.drop_first() =~= split_on(v, '.'));
    lemma_join_split(v, '.');
    assert("."@ =~= seq!['.']);
    assert(parts[0] == k);
    assert(Comparison::spec_parse(k) == Some(c)) by {
        match c {
            Comparison::Equal => {},
            Comparison::NotEqual => {
                assert(k.len() != "eq"@.len());
            },
            Comparison::LessThan => {
                assert(k[0] != "eq"@[0]);
                assert(k.len() != "neq"@.len());
            },
            Comparison::LessThanOrEqual => {
                assert(k.len() != "eq"@.len());
                assert(k[0] != "neq"@[0]);
                assert(k.len() != "lt"@.len());
            },
            Comparison::GreaterThan => {
                assert(k[0] != "eq"@[0]);
                assert(k.len() != "neq"@.len());
                assert(k[0] != "lt"@[0]);
                assert(k.len() != "lte"@.len());
            },
            Comparison::GreaterThanOrEqual => {
                assert(k.len() != "eq"@.len());
                assert(k[0] != "neq"@[0]);
                assert(k.len() != "lt"@.len());
                assert(k[0] != "lte"@[0]);
                assert(k.len() != "gt"@.len());
            },
        }
    }
    assert(spec_parse_compare(q) == Some((c, v)));
    assert(seq![q].drop_last() =~= Seq::<Seq<char>>::empty());
    assert(seq![q].last() == q);
    assert(spec_compare_list(Seq::<Seq<char>>::empty()) == Some(
        Seq::<(Comparison, Seq<char>)>::empty(),
    ));
    assert(Seq::<(Comparison, Seq<char>)>::empty().push((c, v)) =~= seq![(c, v)]);
    assert(spec_compare_list(seq![q]) == Some(seq![(c, v)]));
    let f = FilterModel {
        column: p.column@,
        constraint: ConstraintModel::CompareList(seq![(c, v)]),
        is_text: p.is_text,
    };
    let frags = seq![(c, v)].map_values(
        |x: (Comparison, Seq<char>)| compare_sql(p.column@, p.is_text, x),
    );
    assert(frags =~= seq![compare_sql(p.column@, p.is_text, (c, v))]);
    if c == Comparison::Equal {
        assert(p.column@ + " "@ + c.spec_sql() + " "@ =~= p.column@ + " = "@);
    }
}

/// Members joined by commas, none of them blank or holding a comma, compile
/// on an in-array field to the members without `~` as required ones and the
/// members with `~`, stripped of it, to exclude, both in order. The emitted
/// predicate leaves out `hasAll` when nothing is included and `NOT hasAny`
/// when nothing is excluded.
pub proof fn law_in_array_filter(name: Seq<char>, ts: Seq<Seq<char>>, e: Seq<(String, ParamValue)>)
    requires
        lookup(e, name) is Some,
        lookup(e, name)->0.filter_type == FilterType::InArray,
        ts.len() >= 1,
        forall|i: int| 0 <= i < ts.len() ==> (#[trigger] ts[i]).len() > 0 && free_of(ts[i], ','),
    ensures
        ({
            let p = lookup(e, name)->0;
            let (inc, exc) = (included(ts), excluded(ts));
            let f = FilterModel {
                column: p.column@,
                constraint: ConstraintModel::InArray(inc, exc),
                is_text: p.is_text,
            };
            &&& spec_filter_ir(name, join_seq(ts, ","@), e) == Ok::<FilterModel, ErrorModel>(f)
            &&& inc.len() > 0 && exc.len() > 0 ==> fragment_sql(f) == "hasAll("@ + p.column@
                + ", ["@ + member_list(inc, p.is_text) + "])"@ + " AND "@ + "NOT hasAny("@
                + p.column@ + ", ["@ + member_list(exc, p.is_text) + "])"@
            &&& inc.len() == 0 ==> fragment_sql(f) == "NOT hasAny("@ + p.column@ + ", ["@
                + member_list(exc, p.is_text) + "])"@
            &&& exc.len() == 0 ==> fragment_sql(f) == "hasAll("@ + p.column@ + ", ["@
                + member_list(inc, p.is_text) + "])"@
        }),
{
    reveal_strlit(",");
    let p = lookup(e, name)->0;
    assert(","@ =~= seq![',']);
    lemma_split_join(ts, ',');
    assert(!has_blank(ts));
    let (inc, exc) = (included(ts), excluded(ts));
    let has_all = "hasAll("@ + p.column@ + ", ["@ + member_list(inc, p.is_text) + "])"@;
    let not_any = "NOT hasAny("@ + p.column@ + ", ["@ + member_list(exc, p.is_text) + "])"@;
    if inc.len() == 0 {
        assert(Seq::<char>::empty() + Seq::<char>::empty() + not_any =~= not_any);
    }
    if exc.len() == 0 {
        assert(has_all + Seq::<char>::empty() + Seq::<char>::empty() =~= has_all);
    }
}

/// A filter string on an in-array field that holds an empty member between
/// two commas is rejected as such, never read with the member dropped.
pub proof fn law_blank_member(
    name: Seq<char>,
    x: Seq<char>,
    y: Seq<char>,
    e: Seq<(String, ParamValue)>,
)
    requires
        lookup(e, name) is Some,
        lookup(e, name)->0.filter_type == FilterType::InArray,
    ensures
        spec_filter_ir(name, x + ",,"@ + y, e) == Err::<FilterModel, ErrorModel>(
            ErrorModel::BlankMember,
        ),
{
    reveal_strlit(",,");
    let q = x + ",,"@ + y;
    let empty = Seq::<char>::empty();
    assert(q =~= x + seq![','] + (empty + seq![','] + y));
    lemma_split_concat(x, empty + seq![','] + y, ',');
    lemma_split_concat(empty, y, ',');
    lemma_split_free(empty, ',');
    let ts = split_on(q, ',');
    let i = split_on(x, ',').len() as int;
    assert(ts[i] == empty);
    assert(has_blank(ts));
}

/// A sort text `<name>.<direction>`, the name without a dot, reads as that
/// name and direction; the sort resolves to the field's column and emits
/// `ORDER BY <column> <direction>`, and a name that the interface does not
/// declare is rejected as an unknown field.
pub proof fn law_sort(s: SortQuery, e: Seq<(String, ParamValue)>)
    requires
        free_of(s.name@, '.'),
    ensures
        spec_parse_sort(s.name@ + "."@ + s.direction.spec_sql()) == Some(
            (s.name@, s.direction),
        ),
        match lookup(e, s.name@) {
            Some(p) => {
                let m = SortModel { direction: s.direction, column: p.column@ };
                &&& spec_sort(Some(s), e) == Ok::<Option<SortModel>, ErrorModel>(Some(m))
                &&& order_by_sql(Some(m)) == "ORDER BY "@ + p.column@ + " "@
                    + s.direction.spec_sql()
            },
            None => spec_sort(Some(s), e) == Err::<Option<SortModel>, ErrorModel>(
                ErrorModel::UnknownField(s.name@),
            ),
        },
{
    reveal_strlit(".");
    reveal_strlit("asc");
    reveal_strlit("desc");
    let d = s.direction.spec_sql();
    assert(free_of(d, '.'));
    assert(s.name@ + "."@ + d =~= s.name@ + seq!['.'] + d);
    lemma_split_concat(s.name@, d, '.');
    lemma_split_free(s.name@, '.');
    lemma_split_free(d, '.');
    assert(split_on(s.name@ + "."@ + d, '.') =~= seq![s.name@, d]);
}

/// Projection and headers have one item per visible field, in declared
/// order: the result lists, for each item, the position of its field, which
/// is visible, gives the item's column and name, and grows strictly; every
/// visible field is listed.
pub proof fn law_projection_headers(e: Seq<(String, ParamValue)>) -> (idx: Seq<int>)
    ensures
        projection_of(e).len() == idx.len(),
        headers_of(e).len() == idx.len(),
        forall|i: int|
            0 <= i < idx.len() ==> {
                &&& 0 <= #[trigger] idx[i] < e.len()
                &&& e[idx[i]].1.visible
                &&& projection_of(e)[i] == e[idx[i]].1.column@
                &&& headers_of(e)[i] == e[idx[i]].0@
            },
        forall|i: int, j: int| 0 <= i < j < idx.len() ==> idx[i] < idx[j],
        forall|k: int|
            0 <= k < e.len() && (#[trigger] e[k]).1.visible ==> exists|i: int|
                0 <= i < idx.len() && idx[i] == k,
    decreases e.len(),
{
    if e.len() == 0 {
        Seq::empty()
    } else {
        let d = e.drop_last();
        let prev = law_projection_headers(d);
        let last = e.len() - 1;
        if e.last().1.visible {
            let idx = prev.push(last);
            assert(projection_of(e) =~= projection_of(d).push(e.last().1.column@));
            assert(headers_of(e) =~= headers_of(d).push(e.last().0@));
            assert forall|i: int| 0 <= i < idx.len() implies {
                &&& 0 <= #[trigger] idx[i] < e.len()
                &&& e[idx[i]].1.visible
                &&& projection_of(e)[i] == e[idx[i]].1.column@
                &&& headers_of(e)[i] == e[idx[i]].0@
            } by {
                if i < prev.len() {
                    assert(prev[i] == idx[i]);
                    assert(d[prev[i]] == e[idx[i]]);
                }
            }
            assert forall|k: int| 0 <= k < e.len() && (#[trigger] e[k]).1.visible implies exists|
                i: int,
            | 0 <= i < idx.len() && idx[i] == k by {
                if k < last {
                    assert(d[k] == e[k]);
                    let i = choose|i: int| 0 <= i < prev.len() && prev[i] == k;
                    assert(idx[i] == k);
                } else {
                    assert(idx[prev.len() as int] == k);
                }
            }
            idx
        } else {
            assert(projection_of(e) =~= projection_of(d));
            assert(headers_of(e) =~= headers_of(d));
            assert forall|i: int| 0 <= i < prev.len() implies {
                &&& 0 <= #[trigger] prev[i] < e.len()
                &&& e[prev[i]].1.visible
                &&& projection_of(e)[i] == e[prev[i]].1.column@
                &&& headers_of(e)[i] == e[prev[i]].0@
            } by {
                assert(d[prev[i]] == e[prev[i]]);
            }
            assert forall|k: int| 0 <= k < e.len() && (#[trigger] e[k]).1.visible implies exists|
                i: int,
            | 0 <= i < prev.len() && prev[i] == k by {
                assert(k < last);
                assert(d[k] == e[k]);
            }
            prev
        }
    }
}

/// A limit text `<offset>,<count>` of two numbers in decimal reads as that
/// offset and count and emits `LIMIT <offset>, <count>`; a single number
/// reads as a count without offset and emits `LIMIT <count>`.
pub proof fn law_limit(o: u64, n: u64)
    ensures
        spec_parse_limit(decimal(o as nat) + ","@ + decimal(n as nat)) == Some(
            LimitQuery { offset: Some(o), n },
        ),
        spec_parse_limit(decimal(n as nat)) == Some(LimitQuery { offset: None, n }),
        limit_sql(Some(LimitQuery { offset: Some(o), n })) == "LIMIT "@ + decimal(o as nat) + ", "@
            + decimal(n as nat),
        limit_sql(Some(LimitQuery { offset: None, n })) == "LIMIT "@ + decimal(n as nat),
{
    reveal_strlit(",");
    let (a, b) = (decimal(o as nat), decimal(n as nat));
    lemma_decimal(o as nat);
    lemma_decimal(n as nat);
    assert(free_of(a, ',')) by {
        assert forall|i: int| 0 <= i < a.len() implies a[i] != ',' by {
            assert(is_digit(a[i]));
        }
    }
    assert(free_of(b, ',')) by {
        assert forall|i: int| 0 <= i < b.len() implies b[i] != ',' by {
            assert(is_digit(b[i]));
        }
    }
    assert(is_digit(a[0]) && is_digit(b[0]));
    assert(unsigned_body(a) == a);
    assert(unsigned_body(b) == b);
    assert(a + ","@ + b =~= a + seq![','] + b);
    lemma_split_concat(a, b, ',');
    lemma_split_free(a, ',');
    lemma_split_free(b, ',');
    assert(split_on(a + ","@ + b, ',') =~= seq![a, b]);
}

/// The separate predicates of one filter: each comparison of a list on
/// its own, and any other filter as one predicate.
pub open spec fn predicates(f: FilterModel) -> Seq<Seq<char>> {
    match f.constraint {
        ConstraintModel::CompareList(cs) => cs.map_values(
            |c: (Comparison, Seq<char>)| compare_sql(f.column, f.is_text, c),
        ),
        _ => seq![fragment_sql(f)],
    }
}

/// The predicates of all filters, in order.
pub open spec fn all_predicates(fs: Seq<FilterModel>) -> Seq<Seq<char>>
    decreases fs.len(),
{
    if fs.len() == 0 {
        Seq::empty()
    } else {
        all_predicates(fs.drop_last()) + predicates(fs.last())
    }
}

proof fn lemma_join_concat(a: Seq<Seq<char>>, b: Seq<Seq<char>>, sep: Seq<char>)
    requires
        a.len() > 0,
        b.len() > 0,
    ensures
        join_seq(a + b, sep) == join_seq(a, sep) + sep + join_seq(b, sep),
    decreases b.len(),
{
    assert((a + b).drop_last() =~= a + b.drop_last());
    if b.len() == 1 {
        assert(b.drop_last() =~= Seq::<Seq<char>>::empty());
        assert(a + b.drop_last() =~= a);
    } else {
        lemma_join_concat(a, b.drop_last(), sep);
        assert(join_seq(a + b, sep) =~= join_seq(a, sep) + sep + join_seq(b, sep));
    }
}

proof fn lemma_predicates_body(fs: Seq<FilterModel>)
    requires
        fs.len() > 0,
        forall|i: int|
            0 <= i < fs.len() && (#[trigger] fs[i]).constraint is CompareList ==> fs[i].constraint->CompareList_0.len() > 0,
    ensures
        all_predicates(fs).len() > 0,
        join_seq(fragments(fs), " and "@) == join_seq(all_predicates(fs), " and "@),
    decreases fs.len(),
{
    let sep = " and "@;
    let f = fs.last();
    let d = fs.drop_last();
    assert(fs[fs.len() - 1] == f);
    let p = predicates(f);
    assert(p.len() > 0);
    assert(fragment_sql(f) == join_seq(p, sep)) by {
        if !(f.constraint is CompareList) {
            assert(join_seq(seq![fragment_sql(f)], sep) == fragment_sql(f));
        }
    }
    assert(fragments(fs) =~= fragments(d).push(fragment_sql(f)));
    if d.len() == 0 {
        assert(all_predicates(d) == Seq::<Seq<char>>::empty());
        assert(all_predicates(fs) =~= p);
        assert(fragments(fs) =~= seq![fragment_sql(f)]);
    } else {
        assert forall|i: int|
            0 <= i < d.len() && (#[trigger] d[i]).constraint is CompareList implies d[i].constraint->CompareList_0.len() > 0 by {
            assert(d[i] == fs[i]);
        }
        lemma_predicates_body(d);
        assert(fragments(fs).drop_last() =~= fragments(d));
        lemma_join_concat(all_predicates(d), p, sep);
    }
}

/// The `where` clause of a non-empty filter list is `where ` followed by
/// the predicates of every filter, comparisons one by one, in filter order,
/// joined by ` and `: the structure from which a reader recovers the
/// predicates, provided no operand holds ` and ` itself.
pub proof fn law_where_predicates(fs: Seq<FilterModel>)
    requires
        fs.len() > 0,
        forall|i: int|
            0 <= i < fs.len() && (#[trigger] fs[i]).constraint is CompareList ==> fs[i].constraint->CompareList_0.len() > 0,
    ensures
        where_sql(fs) == "where "@ + join_seq(all_predicates(fs), " and "@),
{
    lemma_predicates_body(fs);
}

/// Cuts `s` at each occurrence of `sep`, scanning from the left.
pub open spec fn split_at_sep(s: Seq<char>, sep: Seq<char>) -> Seq<Seq<char>>
    recommends
        sep.len() > 0,
    decreases s.len(),
{
    if sep.len() == 0 || s.len() < sep.len() {
        seq![s]
    } else if s.take(sep.len() as int) == sep {
        seq![Seq::<char>::empty()] + split_at_sep(s.skip(sep.len() as int), sep)
    } else {
        let r = split_at_sep(s.drop_first(), sep);
        r.update(0, seq![s[0]] + r[0])
    }
}

/// No occurrence of `sep` starts inside `p`, even one that runs on into a
/// following `sep`.
pub open spec fn sep_free(p: Seq<char>, sep: Seq<char>) -> bool {
    forall|i: int| 0 <= i < p.len() ==> #[trigger] (p + sep).subrange(i, i + sep.len()) != sep
}

proof fn lemma_split_at_sep_nonempty(s: Seq<char>, sep: Seq<char>)
    ensures
        split_at_sep(s, sep).len() >= 1,
    decreases s.len(),
{
    if sep.len() > 0 && s.len() >= sep.len() {
        if s.take(sep.len() as int) == sep {
        } else {
            lemma_split_at_sep_nonempty(s.drop_first(), sep);
        }
    }
}

proof fn lemma_split_at_sep_piece(p: Seq<char>, sep: Seq<char>, rest: Seq<char>)
    requires
        sep.len() > 0,
        sep_free(p, sep),
    ensures
        split_at_sep(p + sep + rest, sep) == seq![p] + split_at_sep(rest, sep),
    decreases p.len(),
{
    let s = p + sep + rest;
    if p.len() == 0 {
        assert(s.take(sep.len() as int) =~= sep);
        assert(s.skip(sep.len() as int) =~= rest);
        assert(p =~= Seq::<char>::empty());
    } else {
        let z: int = 0;
        assert((p + sep).subrange(z, z + sep.len()) != sep);
        assert(s.take(sep.len() as int) =~= (p + sep).subrange(z, z + sep.len()));
        let q = p.drop_first();
        assert(sep_free(q, sep)) by {
            assert forall|i: int| 0 <= i < q.len() implies #[trigger] (q + sep).subrange(
                i,
                i + sep.len(),
            ) != sep by {
                assert((q + sep).subrange(i, i + sep.len()) =~= (p + sep).subrange(
                    i + 1,
                    i + 1 + sep.len(),
                ));
            }
        }
        lemma_split_at_sep_piece(q, sep, rest);
        assert(s.drop_first() =~= q + sep + rest);
        lemma_split_at_sep_nonempty(rest, sep);
        assert(s[0] == p[0]);
        assert(seq![s[0]] + q =~= p);
        assert((seq![q] + split_at_sep(rest, sep)).update(0, seq![s[0]] + q) =~= seq![p]
            + split_at_sep(rest, sep));
    }
}

proof fn lemma_split_at_sep_last(p: Seq<char>, sep: Seq<char>)
    requires
        sep.len() > 0,
        sep_free(p, sep),
    ensures
        split_at_sep(p, sep) == seq![p],
    decreases p.len(),
{
    if p.len() >= sep.len() {
        let z: int = 0;
        assert((p + sep).subrange(z, z + sep.len()) != sep);
        assert(p.take(sep.len() as int) =~= (p + sep).subrange(z, z + sep.len()));
        let q = p.drop_first();
        assert(sep_free(q, sep)) by {
            assert forall|i: int| 0 <= i < q.len() implies #[trigger] (q + sep).subrange(
                i,
                i + sep.len(),
            ) != sep by {
                assert((q + sep).subrange(i, i + sep.len()) =~= (p + sep).subrange(
                    i + 1,
                    i + 1 + sep.len(),
                ));
            }
        }
        lemma_split_at_sep_last(q, sep);
        assert(seq![p[0]] + q =~= p);
        assert(seq![q].update(0, seq![p[0]] + q) =~= seq![p]);
    }
}

proof fn lemma_split_at_sep_join(ps: Seq<Seq<char>>, sep: Seq<char>)
    requires
        sep.len() > 0,
        ps.len() >= 1,
        forall|i: int| 0 <= i < ps.len() ==> sep_free(#[trigger] ps[i], sep),
    ensures
        split_at_sep(join_seq(ps, sep), sep) == ps,
    decreases ps.len(),
{
    if ps.len() == 1 {
        assert(join_seq(ps, sep) == ps[0]);
        lemma_split_at_sep_last(ps[0], sep);
        assert(seq![ps[0]] =~= ps);
    } else {
        let t = ps.drop_first();
        assert(seq![ps[0]] + t =~= ps);
        lemma_join_concat(seq![ps[0]], t, sep);
        assert(join_seq(seq![ps[0]], sep) == ps[0]);
        assert forall|i: int| 0 <= i < t.len() implies sep_free(#[trigger] t[i], sep) by {
            assert(t[i] == ps[i + 1]);
        }
        lemma_split_at_sep_join(t, sep);
        lemma_split_at_sep_piece(ps[0], sep, join_seq(t, sep));
    }
}

/// Reading a generated `where` clause back: cutting what follows `where `
/// at each ` and ` gives every predicate of every filter, in order, as long
/// as no predicate holds ` and ` or ends in ` and`. A value such as
/// `x and y` breaks the reading.
pub proof fn law_where_round_trip(fs: Seq<FilterModel>)
    requires
        fs.len() > 0,
        forall|i: int|
            0 <= i < fs.len() && (#[trigger] fs[i]).constraint is CompareList ==> fs[i].constraint->CompareList_0.len() > 0,
        forall|i: int|
            0 <= i < all_predicates(fs).len() ==> sep_free(
                #[trigger] all_predicates(fs)[i],
                " and "@,
            ),
    ensures
        where_sql(fs).take(6) == "where "@,
        split_at_sep(where_sql(fs).skip(6), " and "@) == all_predicates(fs),
{
    reveal_strlit("where ");
    reveal_strlit(" and ");
    lemma_predicates_body(fs);
    let body = join_seq(all_predicates(fs), " and "@);
    assert(where_sql(fs) == "where "@ + body);
    assert(("where "@ + body).take(6) =~= "where "@);
    assert(("where "@ + body).skip(6) =~= body);
    lemma_split_at_sep_join(all_predicates(fs), " and "@);
}

} // verus!
