use beryl::clickhouse::{clickhouse_sql, filter_sql, filters_where, limit_clause};
use beryl::config::{EndpointConfig, InterfaceConfig, ParamValueConfig, SchemaConfig, SqlSelectConfig};
use beryl::error::QueryError;
use beryl::filter_ir::{Comparison, Constraint, FilterIr};
use beryl::metadata::endpoint_metadata;
use beryl::middleware::{VerifyApiKey, X_BERYL_SECRET};
use beryl::query::{ApiQueryOpt, LimitQuery, Query, SortDirection, SortQuery};
use beryl::schema::{Endpoint, FilterType, Interface, ParamValue, Schema, SqlSelect};
use beryl::text::{parse_i64, parse_u64, split_chars};
use indexmap::IndexMap;

fn field(column: &str, filter_type: FilterType, visible: bool, is_text: bool) -> ParamValue {
    ParamValue {
        column: column.to_string(),
        filter_type,
        visible,
        is_text,
        is_template_var: false,
    }
}

fn interface(fields: Vec<(&str, ParamValue)>) -> Interface {
    let mut m = IndexMap::new();
    for (k, v) in fields {
        m.insert(k.to_string(), v);
    }
    Interface(m)
}

fn endpoint(name: &str, table: &str, fields: Vec<(&str, ParamValue)>) -> Endpoint {
    Endpoint {
        name: name.to_string(),
        sql_select: SqlSelect::Table { name: table.to_string() },
        primary: None,
        interface: interface(fields),
    }
}

fn filters(pairs: Vec<(&str, &str)>) -> IndexMap<String, String> {
    let mut m = IndexMap::new();
    for (k, v) in pairs {
        m.insert(k.to_string(), v.to_string());
    }
    m
}

fn query(pairs: Vec<(&str, &str)>) -> Query {
    Query { filters: filters(pairs), sort: None, limit: None }
}

fn squash(s: &str) -> String {
    s.split_whitespace().collect::<Vec<_>>().join(" ")
}

fn sales_schema() -> Schema {
    Schema {
        annotations: IndexMap::new(),
        endpoints: vec![endpoint(
            "sales",
            "sales_table",
            vec![
                ("date", field("date", FilterType::ExactMatch, true, true)),
                ("amount", field("amount", FilterType::Compare, true, false)),
                ("region", field("region", FilterType::InArray, true, true)),
            ],
        )],
    }
}

#[test]
fn compare_eq_non_text() {
    let i = interface(vec![("n", field("n_col", FilterType::Compare, true, false))]);
    let f = FilterIr::from_schema_query("n", "eq.5", &i).unwrap();
    match &f.constraint {
        Constraint::CompareList(cs) => {
            assert_eq!(cs.len(), 1);
            assert_eq!(cs[0].comparison, Comparison::Equal);
            assert_eq!(cs[0].n, "5");
        },
        _ => panic!("expected a comparison list"),
    }
    assert_eq!(filter_sql(&f), "n_col = 5");
}

#[test]
fn compare_eq_text() {
    let i = interface(vec![("n", field("n_col", FilterType::Compare, true, true))]);
    let f = FilterIr::from_schema_query("n", "eq.5", &i).unwrap();
    assert_eq!(filter_sql(&f), "n_col = '5'");
}

#[test]
fn compare_list_keeps_dots_in_operand() {
    let i = interface(vec![("x", field("x", FilterType::Compare, true, false))]);
    let f = FilterIr::from_schema_query("x", "gt.1.5,lte.10", &i).unwrap();
    assert_eq!(filter_sql(&f), "x > 1.5 and x <= 10");
}

#[test]
fn compare_every_operator() {
    let i = interface(vec![("x", field("x", FilterType::Compare, true, false))]);
    let f = FilterIr::from_schema_query("x", "eq.1,neq.2,lt.3,lte.4,gt.5,gte.6", &i).unwrap();
    assert_eq!(filter_sql(&f), "x = 1 and x <> 2 and x < 3 and x <= 4 and x > 5 and x >= 6");
}

#[test]
fn compare_bad_operator() {
    let i = interface(vec![("x", field("x", FilterType::Compare, true, false))]);
    let r = FilterIr::from_schema_query("x", "eq.1,between.2", &i);
    assert!(matches!(r, Err(QueryError::BadComparison)));
}

#[test]
fn unknown_filter_field() {
    let i = interface(vec![("x", field("x", FilterType::Compare, true, false))]);
    let r = FilterIr::from_schema_query("y", "eq.1", &i);
    assert_eq!(r.err(), Some(QueryError::UnknownField { name: "y".to_string() }));
}

#[test]
fn in_array_include_and_exclude() {
    let i = interface(vec![("tag", field("tags", FilterType::InArray, true, true))]);
    let f = FilterIr::from_schema_query("tag", "a,b,~c", &i).unwrap();
    match &f.constraint {
        Constraint::InArray { in_members, not_in_members } => {
            assert_eq!(in_members, &vec!["a".to_string(), "b".to_string()]);
            assert_eq!(not_in_members, &vec!["c".to_string()]);
        },
        _ => panic!("expected an in-array constraint"),
    }
    assert_eq!(filter_sql(&f), "hasAll(tags, ['a', 'b']) AND NOT hasAny(tags, ['c'])");
}

#[test]
fn in_array_unquoted_when_not_text() {
    let i = interface(vec![("id", field("ids", FilterType::InArray, true, false))]);
    let f = FilterIr::from_schema_query("id", "1,2,~3", &i).unwrap();
    assert_eq!(filter_sql(&f), "hasAll(ids, [1, 2]) AND NOT hasAny(ids, [3])");
}

#[test]
fn in_array_only_exclusions() {
    let i = interface(vec![("tag", field("tags", FilterType::InArray, true, true))]);
    let f = FilterIr::from_schema_query("tag", "~x,~y", &i).unwrap();
    assert_eq!(filter_sql(&f), "NOT hasAny(tags, ['x', 'y'])");
}

#[test]
fn in_array_only_inclusions() {
    let i = interface(vec![("tag", field("tags", FilterType::InArray, true, true))]);
    let f = FilterIr::from_schema_query("tag", "x", &i).unwrap();
    assert_eq!(filter_sql(&f), "hasAll(tags, ['x'])");
}

#[test]
fn in_array_blank_member_rejected() {
    let i = interface(vec![("tag", field("tags", FilterType::InArray, true, true))]);
    for q in ["a,,b", "", "a,", ",a"] {
        let r = FilterIr::from_schema_query("tag", q, &i);
        assert!(matches!(r, Err(QueryError::BlankMember)), "{}", q);
    }
}

#[test]
fn exact_match_quoting() {
    let i = interface(vec![
        ("t", field("t", FilterType::ExactMatch, true, true)),
        ("n", field("n", FilterType::ExactMatch, true, false)),
    ]);
    let t = FilterIr::from_schema_query("t", "abc", &i).unwrap();
    let n = FilterIr::from_schema_query("n", "42", &i).unwrap();
    assert_eq!(filter_sql(&t), "t = 'abc'");
    assert_eq!(filter_sql(&n), "n = 42");
}

#[test]
fn string_match_lowercases() {
    let i = interface(vec![("name", field("name_col", FilterType::StringMatch, true, true))]);
    let f = FilterIr::from_schema_query("name", "FoO Bar", &i).unwrap();
    assert_eq!(filter_sql(&f), "lowerUTF8(name_col) LIKE '%foo bar%'");
}

#[test]
fn limit_with_offset() {
    let l = LimitQuery::parse("10,20").unwrap();
    assert_eq!(l, LimitQuery { offset: Some(10), n: 20 });
    assert_eq!(limit_clause(&Some(l)), "LIMIT 10, 20");
}

#[test]
fn limit_without_offset() {
    let l = LimitQuery::parse("20").unwrap();
    assert_eq!(l, LimitQuery { offset: None, n: 20 });
    assert_eq!(limit_clause(&Some(l)), "LIMIT 20");
    assert_eq!(limit_clause(&None), "");
}

#[test]
fn limit_errors() {
    for s in ["", "a", "1,2,3", "-1", "18446744073709551616", "1,x", "+"] {
        assert!(matches!(LimitQuery::parse(s), Err(QueryError::BadLimit)), "{}", s);
    }
    assert_eq!(LimitQuery::parse("18446744073709551615").unwrap().n, u64::MAX);
    assert_eq!(LimitQuery::parse("+7").unwrap().n, 7);
}

#[test]
fn sort_parse_and_resolve() {
    let s = SortQuery::parse("name.desc").unwrap();
    assert_eq!(s.name, "name");
    assert_eq!(s.direction, SortDirection::Desc);
    let ep = endpoint("e", "t", vec![("name", field("name_col", FilterType::Compare, false, true))]);
    let q = Query { filters: IndexMap::new(), sort: Some(s), limit: None };
    let (ir, _) = ep.query_ir(&q, "t".to_string()).unwrap();
    let sql = clickhouse_sql(ir);
    assert!(sql[2].contains("ORDER BY name_col desc"));
}

#[test]
fn sort_unknown_field() {
    let ep = endpoint("e", "t", vec![("name", field("name", FilterType::Compare, true, true))]);
    let q = Query { filters: IndexMap::new(), sort: Some(SortQuery::parse("age.asc").unwrap()), limit: None };
    let r = ep.query_ir(&q, "t".to_string());
    assert_eq!(r.err(), Some(QueryError::UnknownField { name: "age".to_string() }));
}

#[test]
fn sort_errors() {
    for s in ["name", "name.up", "a.b.asc", ""] {
        assert!(matches!(SortQuery::parse(s), Err(QueryError::BadSort)), "{}", s);
    }
    assert_eq!(SortDirection::Asc.sql_string(), "asc");
    assert_eq!(SortDirection::Desc.sql_string(), "desc");
}

#[test]
fn projection_and_headers_follow_visible_fields() {
    let ep = endpoint(
        "e",
        "t",
        vec![
            ("zeta", field("z_col", FilterType::Compare, true, false)),
            ("hidden", field("h_col", FilterType::Compare, false, false)),
            ("alpha", field("a_col", FilterType::Compare, true, false)),
            ("mid", field("m_col", FilterType::Compare, false, false)),
            ("beta", field("b_col", FilterType::Compare, true, false)),
        ],
    );
    let (ir, headers) = ep.query_ir(&query(vec![]), "t".to_string()).unwrap();
    assert_eq!(ir.projection, vec!["z_col", "a_col", "b_col"]);
    assert_eq!(headers, vec!["zeta", "alpha", "beta"]);
}

#[test]
fn hidden_field_still_filterable() {
    let ep = endpoint("e", "t", vec![("h", field("h_col", FilterType::Compare, false, false))]);
    let (ir, headers) = ep.query_ir(&query(vec![("h", "lt.3")]), "t".to_string()).unwrap();
    assert!(headers.is_empty());
    assert_eq!(filters_where(&ir.filters), "where h_col < 3");
}

#[test]
fn secret_filter_is_skipped() {
    let ep = endpoint("e", "t", vec![("a", field("a", FilterType::Compare, true, false))]);
    let (ir, _) = ep
        .query_ir(&query(vec![(X_BERYL_SECRET, "s3cret"), ("a", "eq.1")]), "t".to_string())
        .unwrap();
    assert_eq!(ir.filters.len(), 1);
    assert_eq!(filters_where(&ir.filters), "where a = 1");
}

#[test]
fn sales_end_to_end() {
    let schema = sales_schema();
    let mut q = query(vec![("amount", "gte.100"), ("region", "us,~eu")]);
    q.limit = Some(LimitQuery::parse("0,10").unwrap());
    let (ir, headers) = schema.gen_query_ir("sales", &q, None).unwrap();
    assert_eq!(headers, vec!["date", "amount", "region"]);
    let sql = clickhouse_sql(ir);
    assert_eq!(sql.len(), 3);
    let where_clause =
        "where amount >= 100 and hasAll(region, ['us']) AND NOT hasAny(region, ['eu'])";
    assert_eq!(sql[0], "SELECT count(*) FROM sales_table");
    assert_eq!(squash(&sql[1]), format!("SELECT count(*) FROM sales_table {}", where_clause));
    assert_eq!(
        squash(&sql[2]),
        format!("SELECT date, amount, region FROM sales_table {} LIMIT 0, 10", where_clause)
    );
}

#[test]
fn no_filters_no_where() {
    let schema = sales_schema();
    let (ir, _) = schema.gen_query_ir("sales", &query(vec![]), None).unwrap();
    let sql = clickhouse_sql(ir);
    assert_eq!(sql[1], "SELECT count(*) FROM sales_table ");
    assert_eq!(sql[2], "SELECT date, amount, region FROM sales_table   ");
}

/// Reads a generated `where` clause back into (column, operator, value)
/// triples, one per comparison, and (column, included, excluded) lists.
fn reparse_where(clause: &str) -> Vec<String> {
    let body = clause.strip_prefix("where ").unwrap();
    let mut out = vec![];
    for part in body.split(" and ") {
        for piece in part.split(" AND ") {
            out.push(piece.to_string());
        }
    }
    out
}

#[test]
fn where_clause_round_trip() {
    let ep = endpoint(
        "e",
        "t",
        vec![
            ("n", field("n", FilterType::Compare, true, false)),
            ("s", field("s", FilterType::ExactMatch, true, true)),
            ("m", field("m", FilterType::StringMatch, true, true)),
            ("a", field("a", FilterType::InArray, true, true)),
        ],
    );
    let q = query(vec![("n", "gt.1,lt.9"), ("s", "x"), ("m", "Ab"), ("a", "p,~q")]);
    let (ir, _) = ep.query_ir(&q, "t".to_string()).unwrap();
    let clause = filters_where(&ir.filters);
    let preds = reparse_where(&clause);
    assert_eq!(
        preds,
        vec![
            "n > 1",
            "n < 9",
            "s = 'x'",
            "lowerUTF8(m) LIKE '%ab%'",
            "hasAll(a, ['p'])",
            "NOT hasAny(a, ['q'])",
        ]
    );
    let mut recovered = vec![];
    for f in &ir.filters {
        match &f.constraint {
            Constraint::CompareList(cs) => {
                for c in cs {
                    recovered.push(format!("{} {} {}", f.column, c.comparison.sql_string(), c.n));
                }
            },
            Constraint::ExactMatch { pattern } => recovered.push(format!("{} = '{}'", f.column, pattern)),
            Constraint::StringMatch { substring } => recovered
                .push(format!("lowerUTF8({}) LIKE '%{}%'", f.column, substring.to_lowercase())),
            Constraint::InArray { in_members, not_in_members } => {
                let q = |v: &Vec<String>| v.iter().map(|m| format!("'{}'", m)).collect::<Vec<_>>().join(", ");
                recovered.push(format!("hasAll({}, [{}])", f.column, q(in_members)));
                recovered.push(format!("NOT hasAny({}, [{}])", f.column, q(not_in_members)));
            },
        }
    }
    assert_eq!(preds, recovered);
}

#[test]
fn endpoint_not_found() {
    let r = sales_schema().gen_query_ir("nope", &query(vec![]), None);
    assert!(matches!(r, Err(QueryError::EndpointNotFound)));
    assert!(sales_schema().get_endpoint("nope").is_none());
    assert_eq!(sales_schema().get_endpoint("sales").unwrap().name, "sales");
}

#[test]
fn template_without_templates_fails() {
    let mut schema = sales_schema();
    schema.endpoints[0].sql_select = SqlSelect::Template { template_path: "t.sql".to_string() };
    let r = schema.gen_query_ir("sales", &query(vec![]), None);
    assert!(matches!(r, Err(QueryError::TemplateRender { .. })));
}

#[test]
fn template_renders_table_name() {
    let mut schema = sales_schema();
    schema.endpoints[0].sql_select = SqlSelect::Template { template_path: "t.sql".to_string() };
    let mut region = field("region", FilterType::InArray, true, true);
    region.is_template_var = true;
    schema.endpoints[0].interface.0.insert("region".to_string(), region);
    let mut tera = tera::Tera::default();
    tera.add_raw_template("t.sql", "sales_{{ region }}").unwrap();
    let (ir, _) = schema.gen_query_ir("sales", &query(vec![("region", "us")]), Some(&tera)).unwrap();
    assert_eq!(ir.table, "sales_us");
    let r = schema.gen_query_ir("sales", &query(vec![]), Some(&tera));
    assert!(matches!(r, Err(QueryError::TemplateRender { .. })));
}

#[test]
fn template_vars_are_marked_filters() {
    let mut ep = endpoint("e", "t", vec![("a", field("a", FilterType::Compare, true, false))]);
    let mut b = field("b", FilterType::Compare, true, false);
    b.is_template_var = true;
    ep.interface.0.insert("b".to_string(), b);
    let vars = ep.template_vars(&query(vec![("a", "1"), ("b", "2"), ("c", "3")]));
    assert_eq!(vars, vec![("b".to_string(), "2".to_string())]);
}

#[test]
fn api_query_parsing() {
    let opt = ApiQueryOpt {
        filters: filters(vec![("a", "eq.1")]),
        sort: Some("a.asc".to_string()),
        limit: Some("5".to_string()),
    };
    let q = Query::from_api(opt).unwrap();
    assert_eq!(q.filters.get("a").unwrap(), "eq.1");
    assert_eq!(q.sort.unwrap().direction, SortDirection::Asc);
    assert_eq!(q.limit, Some(LimitQuery { offset: None, n: 5 }));
    let bad_sort = ApiQueryOpt { filters: IndexMap::new(), sort: Some("a".to_string()), limit: Some("x".to_string()) };
    assert!(matches!(Query::from_api(bad_sort), Err(QueryError::BadSort)));
    let bad_limit = ApiQueryOpt { filters: IndexMap::new(), sort: None, limit: Some("x".to_string()) };
    assert!(matches!(Query::from_api(bad_limit), Err(QueryError::BadLimit)));
}

#[test]
fn single_record_query_builds_eq_filter() {
    let mut schema = sales_schema();
    schema.endpoints[0].primary = Some("amount".to_string());
    let q = schema.single_record_query("sales", "+007").unwrap();
    assert_eq!(q.filters.len(), 1);
    assert_eq!(q.filters.get("amount").unwrap(), "eq.7");
    let q = schema.single_record_query("sales", "-9223372036854775808").unwrap();
    assert_eq!(q.filters.get("amount").unwrap(), "eq.-9223372036854775808");
    assert!(matches!(schema.single_record_query("sales", "x1"), Err(QueryError::BadId)));
    assert!(matches!(schema.single_record_query("none", "1"), Err(QueryError::EndpointNotFound)));
    schema.endpoints[0].primary = None;
    assert!(matches!(schema.single_record_query("sales", "1"), Err(QueryError::NoPrimary)));
}

#[test]
fn config_defaults() {
    let mut m = IndexMap::new();
    m.insert(
        "plain".to_string(),
        ParamValueConfig { column: None, filter_type: None, visible: None, is_text: None, is_template_var: None },
    );
    m.insert(
        "set".to_string(),
        ParamValueConfig {
            column: Some("set_col".to_string()),
            filter_type: Some(FilterType::InArray),
            visible: Some(false),
            is_text: Some(true),
            is_template_var: Some(true),
        },
    );
    let config = SchemaConfig {
        annotations: None,
        endpoints: vec![EndpointConfig {
            name: "e".to_string(),
            sql_select: SqlSelectConfig::Table { name: "t".to_string() },
            primary: Some("plain".to_string()),
            interface: InterfaceConfig(m),
        }],
    };
    let schema = Schema::from_config(config);
    assert!(schema.annotations.is_empty());
    let ep = &schema.endpoints[0];
    assert_eq!(ep.primary, Some("plain".to_string()));
    let plain = ep.interface.0.get("plain").unwrap();
    assert_eq!(plain.column, "plain");
    assert_eq!(plain.filter_type, FilterType::Compare);
    assert!(plain.visible && !plain.is_text && !plain.is_template_var);
    let set = ep.interface.0.get("set").unwrap();
    assert_eq!(set.column, "set_col");
    assert_eq!(set.filter_type, FilterType::InArray);
    assert!(!set.visible && set.is_text && set.is_template_var);
    let keys: Vec<_> = ep.interface.0.keys().cloned().collect();
    assert_eq!(keys, vec!["plain", "set"]);
}

#[test]
fn metadata_of_endpoint() {
    let mut ep = endpoint(
        "e",
        "t",
        vec![
            ("a", field("a", FilterType::Compare, true, false)),
            ("b", field("b", FilterType::InArray, false, false)),
        ],
    );
    ep.primary = Some("a".to_string());
    let m = endpoint_metadata(&ep);
    assert_eq!(m.name, "e");
    assert_eq!(m.fields.iter().map(|f| f.name.clone()).collect::<Vec<_>>(), vec!["a"]);
    assert_eq!(m.filters.len(), 2);
    assert_eq!(m.filters[1].name, "b");
    assert_eq!(m.filters[1].filter_type, FilterType::InArray);
    assert_eq!(m.primary_field, Some("a".to_string()));
}

#[test]
fn api_key_check() {
    let k = VerifyApiKey::new("s3cret".to_string());
    assert!(k.is_authorized(Some("s3cret"), None));
    assert!(k.is_authorized(None, Some("s3cret")));
    assert!(k.is_authorized(Some("no"), Some("s3cret")));
    assert!(!k.is_authorized(Some("no"), Some("nope")));
    assert!(!k.is_authorized(None, None));
}

#[test]
fn text_helpers() {
    assert_eq!(split_chars("a,,b", ','), vec!["a", "", "b"]);
    assert_eq!(split_chars("", ','), vec![""]);
    assert_eq!(parse_u64("00042"), Some(42));
    assert_eq!(parse_u64(""), None);
    assert_eq!(parse_i64("-12"), Some(-12));
    assert_eq!(parse_i64("9223372036854775808"), None);
    assert_eq!(parse_i64("-"), None);
    assert_eq!(Comparison::GreaterThanOrEqual.sql_string(), ">=");
    assert!(matches!(Comparison::parse("lte"), Ok(Comparison::LessThanOrEqual)));
}

#[test]
fn from_str_parsing() {
    assert_eq!("3,4".parse::<LimitQuery>().unwrap(), LimitQuery { offset: Some(3), n: 4 });
    assert_eq!("x.desc".parse::<SortQuery>().unwrap().direction, SortDirection::Desc);
    assert_eq!("asc".parse::<SortDirection>().unwrap(), SortDirection::Asc);
    assert_eq!("neq".parse::<Comparison>().unwrap(), Comparison::NotEqual);
    assert!("ne".parse::<Comparison>().is_err());
}

#[test]
fn repeated_filter_key_keeps_last_value_in_first_place() {
    let ep = endpoint(
        "e",
        "t",
        vec![
            ("a", field("a", FilterType::Compare, true, false)),
            ("b", field("b", FilterType::Compare, true, false)),
        ],
    );
    let (ir, _) = ep
        .query_ir(&query(vec![("a", "eq.1"), ("b", "eq.2"), ("a", "gt.3")]), "t".to_string())
        .unwrap();
    assert_eq!(filters_where(&ir.filters), "where a > 3 and b = 2");
}
