//! Ordered literal substitutions, held in a `LinkedHashMap` of the `linked_hash_map` crate.
use vstd::prelude::*;
use linked_hash_map::LinkedHashMap;

verus! {

#[verifier::external_type_specification]
#[verifier::external_body]
#[verifier::reject_recursive_types(K)]
#[verifier::reject_recursive_types(V)]
#[verifier::reject_recursive_types(S)]
pub struct ExLinkedHashMap<K, V, S>(LinkedHashMap<K, V, S>);

/// Literal substitutions, from text to text, in the order they are applied.
pub type ReplaceMapping = LinkedHashMap<String, String>;

/// The pairs of a mapping in its iteration order, oldest insertion first.
pub uninterp spec fn mapping_entries(m: ReplaceMapping) -> Seq<(Seq<char>, Seq<char>)>;

/// Relies on `LinkedHashMap::iter`, which visits the pairs in order of insertion.
#[verifier::external_body]
pub(crate) fn mapping_pairs(m: &ReplaceMapping) -> (pairs: Vec<(String, String)>)
    ensures
        pairs@.map_values(|p: (String, String)| (p.0@, p.1@)) == mapping_entries(*m),
{
    m.iter().map(|(k, v)| (k.clone(), v.clone())).collect()
}

/// Relies on the `Clone` of `LinkedHashMap`, which inserts a copy of each pair in order.
#[verifier::external_body]
pub(crate) fn mapping_copy(m: &ReplaceMapping) -> (r: ReplaceMapping)
    ensures
        mapping_entries(r) == mapping_entries(*m),
{
    m.clone()
}

} // verus!
