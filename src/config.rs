//! The schema as configured, and how defaults turn it into a `Schema`.

use vstd::prelude::*;
use indexmap::IndexMap;
use crate::indexed::{
    config_entries, config_pairs, insert_entry, keys_unique, param_entries, param_insert,
    param_map_new, text_entries, text_map_new,
};
use crate::schema::{Endpoint, FilterType, Interface, ParamValue, Schema, SqlSelect};

verus! {

/// A field's declaration as configured, before defaults apply.
#[derive(Debug, Clone)]
pub struct ParamValueConfig {
    pub column: Option<String>,
    pub filter_type: Option<FilterType>,
    pub visible: Option<bool>,
    pub is_text: Option<bool>,
    pub is_template_var: Option<bool>,
}

/// An interface as configured: each field with its optional settings.
pub struct InterfaceConfig(pub IndexMap<String, ParamValueConfig>);

/// The table source as configured.
pub enum SqlSelectConfig {
    Table { name: String },
    Template { template_path: String },
}

pub struct EndpointConfig {
    pub name: String,
    pub sql_select: SqlSelectConfig,
    pub primary: Option<String>,
    pub interface: InterfaceConfig,
}

pub struct SchemaConfig {
    pub annotations: Option<IndexMap<String, String>>,
    pub endpoints: Vec<EndpointConfig>,
}

/// A field's declaration with defaults filled in: the column is the field's
/// name, the grammar is `Compare`, the field is visible, not text, and no
/// template variable.
pub open spec fn with_defaults(key: String, c: ParamValueConfig) -> ParamValue {
    ParamValue {
        column: match c.column {
            Some(s) => s,
            None => key,
        },
        filter_type: match c.filter_type {
            Some(f) => f,
            None => FilterType::Compare,
        },
        visible: match c.visible {
            Some(b) => b,
            None => true,
        },
        is_text: match c.is_text {
            Some(b) => b,
            None => false,
        },
        is_template_var: match c.is_template_var {
            Some(b) => b,
            None => false,
        },
    }
}

pub open spec fn entries_with_defaults(e: Seq<(String, ParamValueConfig)>) -> Seq<
    (String, ParamValue),
> {
    e.map_values(|p: (String, ParamValueConfig)| (p.0, with_defaults(p.0, p.1)))
}

pub open spec fn sql_select_of(c: SqlSelectConfig) -> SqlSelect {
    match c {
        SqlSelectConfig::Table { name } => SqlSelect::Table { name },
        SqlSelectConfig::Template { template_path } => SqlSelect::Template { template_path },
    }
}

impl ParamValue {
    /// The declaration of field `key` with defaults filled in.
    pub fn from_config(key: &String, c: &ParamValueConfig) -> (r: ParamValue)
        ensures
            r == with_defaults(*key, *c),
    {
        ParamValue {
            column: match &c.column {
                Some(s) => s.clone(),
                None => key.clone(),
            },
            filter_type: match c.filter_type {
                Some(f) => f,
                None => FilterType::Compare,
            },
            visible: match c.visible {
                Some(b) => b,
                None => true,
            },
            is_text: match c.is_text {
                Some(b) => b,
                None => false,
            },
            is_template_var: match c.is_template_var {
                Some(b) => b,
                None => false,
            },
        }
    }
}

impl Interface {
    /// Every configured field, in order, with defaults filled in.
    pub fn from_config(config: &InterfaceConfig) -> (r: Interface)
        ensures
            r.entries() == entries_with_defaults(config_entries(config.0)),
    {
        let pairs = config_pairs(&config.0);
        let ghost ce = config_entries(config.0);
        let ghost target = entries_with_defaults(ce);
        let mut m = param_map_new();
        let mut i: usize = 0;
        while i < pairs.len()
            invariant
                pairs@ == ce,
                keys_unique(ce),
                target == entries_with_defaults(ce),
                i <= pairs@.len(),
                param_entries(m) == target.take(i as int),
            decreases pairs@.len() - i,
        {
            let (k, c) = &pairs[i];
            let v = ParamValue::from_config(k, c);
            let ghost before = param_entries(m);
            param_insert(&mut m, k.clone(), v);
            assert(!exists|j: int| 0 <= j < before.len() && (#[trigger] before[j]).0@ == k@) by {
                if exists|j: int| 0 <= j < before.len() && (#[trigger] before[j]).0@ == k@ {
                    let j = choose|j: int| 0 <= j < before.len() && (#[trigger] before[j]).0@ == k@;
                    assert(before[j] == target[j]);
                    assert(ce[j].0@ != ce[i as int].0@);
                }
            }
            assert(param_entries(m) =~= target.take(i + 1));
            i += 1;
        }
        assert(target.take(i as int) =~= target);
        Interface(m)
    }
}

impl Endpoint {
    pub fn from_config(config: EndpointConfig) -> (r: Endpoint)
        ensures
            r.name == config.name,
            r.sql_select == sql_select_of(config.sql_select),
            r.primary == config.primary,
            r.interface.entries() == entries_with_defaults(config_entries(config.interface.0)),
    {
        let interface = Interface::from_config(&config.interface);
        let sql_select = match config.sql_select {
            SqlSelectConfig::Table { name } => SqlSelect::Table { name },
            SqlSelectConfig::Template { template_path } => SqlSelect::Template { template_path },
        };
        Endpoint { name: config.name, sql_select, primary: config.primary, interface }
    }
}

impl Schema {
    /// The schema of a configuration: its endpoints in order, and its
    /// annotations, or none.
    pub fn from_config(config: SchemaConfig) -> (r: Schema)
        ensures
            r.endpoints@.len() == config.endpoints@.len(),
            forall|i: int|
                0 <= i < r.endpoints@.len() ==> {
                    let (e, c) = (#[trigger] r.endpoints@[i], config.endpoints@[i]);
                    &&& e.name == c.name
                    &&& e.sql_select == sql_select_of(c.sql_select)
                    &&& e.primary == c.primary
                    &&& e.interface.entries() == entries_with_defaults(
                        config_entries(c.interface.0),
                    )
                },
            match config.annotations {
                Some(a) => text_entries(r.annotations) == text_entries(a),
                None => text_entries(r.annotations).len() == 0,
            },
    {
        let ghost cs = config.endpoints@;
        let mut endpoints: Vec<Endpoint> = Vec::new();
        let mut rest = config.endpoints;
        let annotations = match config.annotations {
            Some(a) => a,
            None => text_map_new(),
        };
        let mut i: usize = 0;
        let n = rest.len();
        assert(cs.skip(0) =~= cs);
        while i < n
            invariant
                n == cs.len(),
                i <= n,
                rest@ == cs.skip(i as int),
                endpoints@.len() == i,
                forall|j: int|
                    0 <= j < i ==> {
                        let (e, c) = (#[trigger] endpoints@[j], cs[j]);
                        &&& e.name == c.name
                        &&& e.sql_select == sql_select_of(c.sql_select)
                        &&& e.primary == c.primary
                        &&& e.interface.entries() == entries_with_defaults(
                            config_entries(c.interface.0),
                        )
                    },
            decreases n - i,
        {
            let c = rest.remove(0);
            assert(c == cs[i as int]);
            assert(rest@ =~= cs.skip(i + 1));
            endpoints.push(Endpoint::from_config(c));
            i += 1;
        }
        Schema { annotations, endpoints }
    }
}

} // verus!
