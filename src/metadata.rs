//! What an endpoint exposes: its visible fields and its filters.

use vstd::prelude::*;
use crate::indexed::param_pairs;
use crate::schema::{Endpoint, FilterType, ParamValue, headers_of};

verus! {

pub struct FieldMetadata {
    pub name: String,
}

pub struct FilterMetadata {
    pub name: String,
    pub filter_type: FilterType,
}

/// An endpoint's name, its visible fields, every filterable field with its
/// grammar, and its primary field.
pub struct Metadata {
    pub name: String,
    pub fields: Vec<FieldMetadata>,
    pub filters: Vec<FilterMetadata>,
    pub primary_field: Option<String>,
}

pub open spec fn field_names(v: Seq<FieldMetadata>) -> Seq<Seq<char>> {
    v.map_values(|f: FieldMetadata| f.name@)
}

pub open spec fn filter_pairs(v: Seq<FilterMetadata>) -> Seq<(Seq<char>, FilterType)> {
    v.map_values(|f: FilterMetadata| (f.name@, f.filter_type))
}

pub open spec fn grammar_pairs(e: Seq<(String, ParamValue)>) -> Seq<(Seq<char>, FilterType)> {
    e.map_values(|p: (String, ParamValue)| (p.0@, p.1.filter_type))
}

/// The metadata that describes an endpoint to its clients.
pub fn endpoint_metadata(endpoint: &Endpoint) -> (r: Metadata)
    ensures
        r.name == endpoint.name,
        r.primary_field == endpoint.primary,
        field_names(r.fields@) == headers_of(endpoint.interface.entries()),
        filter_pairs(r.filters@) == grammar_pairs(endpoint.interface.entries()),
{
    let ghost e = endpoint.interface.entries();
    let entries = param_pairs(&endpoint.interface.0);
    let mut fields: Vec<FieldMetadata> = Vec::new();
    let mut filters: Vec<FilterMetadata> = Vec::new();
    let mut i: usize = 0;
    while i < entries.len()
        invariant
            entries@ == e,
            e == endpoint.interface.entries(),
            i <= entries@.len(),
            field_names(fields@) == headers_of(e.take(i as int)),
            filter_pairs(filters@) == grammar_pairs(e.take(i as int)),
        decreases entries@.len() - i,
    {
        let ghost t = e.take(i + 1);
        assert(t.drop_last() =~= e.take(i as int));
        assert(t.last() == entries@[i as int]);
        let ghost f0 = fields@;
        let ghost g0 = filters@;
        let (k, p) = &entries[i];
        if p.visible {
            fields.push(FieldMetadata { name: k.clone() });
            assert(field_names(fields@) =~= field_names(f0).push(k@));
            assert(headers_of(t) =~= headers_of(e.take(i as int)).push(k@));
        } else {
            assert(headers_of(t) =~= headers_of(e.take(i as int)));
        }
        filters.push(FilterMetadata { name: k.clone(), filter_type: p.filter_type });
        assert(filter_pairs(filters@) =~= filter_pairs(g0).push((k@, p.filter_type)));
        assert(grammar_pairs(t) =~= grammar_pairs(e.take(i as int)).push((k@, p.filter_type)));
        i += 1;
    }
    assert(e.take(i as int) =~= e);
    Metadata {
        name: endpoint.name.clone(),
        fields,
        filters,
        primary_field: match &endpoint.primary {
            Some(p) => Some(p.clone()),
            None => None,
        },
    }
}

} // verus!
