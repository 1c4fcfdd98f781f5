//! The ordered maps of `indexmap` that schemas and queries are built on,
//! seen through the sequence of their entries.

use vstd::prelude::*;
use indexmap::IndexMap;
use crate::config::ParamValueConfig;
use crate::schema::ParamValue;

verus! {

#[verifier::external_type_specification]
#[verifier::external_body]
#[verifier::reject_recursive_types(K)]
#[verifier::reject_recursive_types(V)]
#[verifier::reject_recursive_types(S)]
pub struct ExIndexMap<K, V, S>(IndexMap<K, V, S>);

/// No two entries share a key.
pub open spec fn keys_unique<V>(e: Seq<(String, V)>) -> bool {
    forall|i: int, j: int| 0 <= i < j < e.len() ==> (#[trigger] e[i]).0@ != (#[trigger] e[j]).0@
}

/// The value of the first entry whose key is `k`.
pub open spec fn lookup<V>(e: Seq<(String, V)>, k: Seq<char>) -> Option<V>
    decreases e.len(),
{
    if e.len() == 0 {
        None
    } else if e[0].0@ == k {
        Some(e[0].1)
    } else {
        lookup(e.drop_first(), k)
    }
}

/// The entries after inserting `v` under `k`: an entry with that key keeps
/// its place and key and takes the new value; otherwise the pair goes last.
pub open spec fn insert_entry<V>(e: Seq<(String, V)>, k: String, v: V) -> Seq<(String, V)> {
    if exists|i: int| 0 <= i < e.len() && (#[trigger] e[i]).0@ == k@ {
        let i = choose|i: int| 0 <= i < e.len() && (#[trigger] e[i]).0@ == k@;
        e.update(i, (e[i].0, v))
    } else {
        e.push((k, v))
    }
}

/// The entries of an interface map, in order.
pub uninterp spec fn param_entries(m: IndexMap<String, ParamValue>) -> Seq<(String, ParamValue)>;

/// The entries of a map from names to text, in order.
pub uninterp spec fn text_entries(m: IndexMap<String, String>) -> Seq<(String, String)>;

/// The entries of an interface configuration map, in order.
pub uninterp spec fn config_entries(m: IndexMap<String, ParamValueConfig>) -> Seq<
    (String, ParamValueConfig),
>;

/// Relies on `IndexMap::get`: the value stored under an equal key, if any.
#[verifier::external_body]
pub(crate) fn param_get<'a>(m: &'a IndexMap<String, ParamValue>, k: &str) -> (r: Option<
    &'a ParamValue,
>)
    ensures
        match r {
            Some(p) => lookup(param_entries(*m), k@) == Some(*p),
            None => lookup(param_entries(*m), k@) is None,
        },
{
    m.get(k)
}

/// Relies on `IndexMap::iter`: the key-value pairs in their order, each
/// key once.
#[verifier::external_body]
pub(crate) fn param_pairs(m: &IndexMap<String, ParamValue>) -> (r: Vec<(String, ParamValue)>)
    ensures
        r@ == param_entries(*m),
        keys_unique(r@),
{
    m.iter().map(|(k, v)| (k.clone(), v.clone())).collect()
}

/// Relies on `IndexMap::new`: an empty map.
#[verifier::external_body]
pub(crate) fn param_map_new() -> (r: IndexMap<String, ParamValue>)
    ensures
        param_entries(r) == Seq::<(String, ParamValue)>::empty(),
{
    IndexMap::new()
}

/// Relies on `IndexMap::insert`: an equal key keeps its place and takes the
/// new value; a new key goes last.
#[verifier::external_body]
pub(crate) fn param_insert(m: &mut IndexMap<String, ParamValue>, k: String, v: ParamValue)
    ensures
        param_entries(*final(m)) == insert_entry(param_entries(*old(m)), k, v),
{
    m.insert(k, v);
}

/// Relies on `IndexMap::iter`: the key-value pairs in their order, each
/// key once.
#[verifier::external_body]
pub(crate) fn text_pairs(m: &IndexMap<String, String>) -> (r: Vec<(String, String)>)
    ensures
        r@ == text_entries(*m),
        keys_unique(r@),
{
    m.iter().map(|(k, v)| (k.clone(), v.clone())).collect()
}

/// Relies on `IndexMap::new`: an empty map.
#[verifier::external_body]
pub(crate) fn text_map_new() -> (r: IndexMap<String, String>)
    ensures
        text_entries(r) == Seq::<(String, String)>::empty(),
{
    IndexMap::new()
}

/// Relies on `IndexMap::insert`: an equal key keeps its place and takes the
/// new value; a new key goes last.
#[verifier::external_body]
pub(crate) fn text_insert(m: &mut IndexMap<String, String>, k: String, v: String)
    ensures
        text_entries(*final(m)) == insert_entry(text_entries(*old(m)), k, v),
{
    m.insert(k, v);
}

/// Relies on `IndexMap::iter`: the key-value pairs in their order, each
/// key once.
#[verifier::external_body]
pub(crate) fn config_pairs(m: &IndexMap<String, ParamValueConfig>) -> (r: Vec<
    (String, ParamValueConfig),
>)
    ensures
        r@ == config_entries(*m),
        keys_unique(r@),
{
    m.iter().map(|(k, v)| (k.clone(), v.clone())).collect()
}

} // verus!
