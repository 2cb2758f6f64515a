//! The insertion-ordered maps of a mesh part's named vertices, uvs and normals.
//! They are `indexmap::IndexMap`s; what the part's logic reads and writes of
//! them goes through the items below, whose contracts follow indexmap's source.
use vstd::prelude::*;
use indexmap::IndexMap;
use crate::part::{ComputeNormal, ComputeVertex, Vec2Bits, Vec3Bits};

verus! {

#[verifier::external_type_specification]
#[verifier::external_body]
#[verifier::reject_recursive_types(K)]
#[verifier::reject_recursive_types(V)]
#[verifier::reject_recursive_types(S)]
pub struct ExIndexMap<K, V, S>(IndexMap<K, V, S>);

/// The entries of a map of named positions, in insertion order.
pub uninterp spec fn vec3_entries(m: IndexMap<String, Vec3Bits>) -> Seq<(String, Vec3Bits)>;

/// The entries of a map of named texture coordinates, in insertion order.
pub uninterp spec fn vec2_entries(m: IndexMap<String, Vec2Bits>) -> Seq<(String, Vec2Bits)>;

/// The entries of a map of computed vertices, in insertion order.
pub uninterp spec fn compute_vertex_entries(m: IndexMap<String, ComputeVertex>) -> Seq<(String, ComputeVertex)>;

/// The entries of a map of computed normals, in insertion order.
pub uninterp spec fn compute_normal_entries(m: IndexMap<String, ComputeNormal>) -> Seq<(String, ComputeNormal)>;

/// Some entry has the name `k`.
pub open spec fn has_name<V>(entries: Seq<(String, V)>, k: Seq<char>) -> bool {
    exists|j: int| 0 <= j < entries.len() && (#[trigger] entries[j]).0@ == k
}

/// `IndexMap::len`: the number of entries.
#[verifier::external_body]
pub(crate) fn vec3_len(m: &IndexMap<String, Vec3Bits>) -> (n: usize)
    ensures
        n == vec3_entries(*m).len(),
{
    m.len()
}

/// `IndexMap::get_index`: the entry at position `i`, copied out, if there is one.
#[verifier::external_body]
pub(crate) fn vec3_entry(m: &IndexMap<String, Vec3Bits>, i: usize) -> (e: Option<(String, Vec3Bits)>)
    ensures
        i < vec3_entries(*m).len() ==> e == Some(vec3_entries(*m)[i as int]),
        i >= vec3_entries(*m).len() ==> e is None,
{
    match m.get_index(i) {
        Some((k, v)) => Some((k.clone(), *v)),
        None => None,
    }
}

/// `IndexMap::contains_key`: whether an entry has the name `k`.
#[verifier::external_body]
pub(crate) fn vec3_contains(m: &IndexMap<String, Vec3Bits>, k: &String) -> (r: bool)
    ensures
        r == has_name(vec3_entries(*m), k@),
{
    m.contains_key(k)
}

/// `IndexMap::len`: the number of entries.
#[verifier::external_body]
pub(crate) fn vec2_len(m: &IndexMap<String, Vec2Bits>) -> (n: usize)
    ensures
        n == vec2_entries(*m).len(),
{
    m.len()
}

/// `IndexMap::get_index`: the entry at position `i`, copied out, if there is one.
#[verifier::external_body]
pub(crate) fn vec2_entry(m: &IndexMap<String, Vec2Bits>, i: usize) -> (e: Option<(String, Vec2Bits)>)
    ensures
        i < vec2_entries(*m).len() ==> e == Some(vec2_entries(*m)[i as int]),
        i >= vec2_entries(*m).len() ==> e is None,
{
    match m.get_index(i) {
        Some((k, v)) => Some((k.clone(), *v)),
        None => None,
    }
}

/// `IndexMap::contains_key`: whether an entry has the name `k`.
#[verifier::external_body]
pub(crate) fn vec2_contains(m: &IndexMap<String, Vec2Bits>, k: &String) -> (r: bool)
    ensures
        r == has_name(vec2_entries(*m), k@),
{
    m.contains_key(k)
}

/// `IndexMap::len`: the number of entries.
#[verifier::external_body]
pub(crate) fn compute_vertex_len(m: &IndexMap<String, ComputeVertex>) -> (n: usize)
    ensures
        n == compute_vertex_entries(*m).len(),
{
    m.len()
}

/// `IndexMap::get_index`: the entry at position `i`, copied out, if there is one.
#[verifier::external_body]
pub(crate) fn compute_vertex_entry(m: &IndexMap<String, ComputeVertex>, i: usize) -> (e: Option<(String, ComputeVertex)>)
    ensures
        i < compute_vertex_entries(*m).len() ==> e == Some(compute_vertex_entries(*m)[i as int]),
        i >= compute_vertex_entries(*m).len() ==> e is None,
{
    match m.get_index(i) {
        Some((k, v)) => Some((k.clone(), v.clone())),
        None => None,
    }
}

/// `IndexMap::contains_key`: whether an entry has the name `k`.
#[verifier::external_body]
pub(crate) fn compute_vertex_contains(m: &IndexMap<String, ComputeVertex>, k: &String) -> (r: bool)
    ensures
        r == has_name(compute_vertex_entries(*m), k@),
{
    m.contains_key(k)
}

/// `IndexMap::get_index_mut`: replaces the value at position `i`, keeping its
/// name and every other entry.
#[verifier::external_body]
pub(crate) fn compute_vertex_set_value(m: &mut IndexMap<String, ComputeVertex>, i: usize, v: ComputeVertex)
    requires
        i < compute_vertex_entries(*old(m)).len(),
    ensures
        compute_vertex_entries(*final(m)) == compute_vertex_entries(*old(m)).update(
            i as int,
            (compute_vertex_entries(*old(m))[i as int].0, v),
        ),
{
    if let Some((_, slot)) = m.get_index_mut(i) {
        *slot = v;
    }
}

/// `IndexMap::len`: the number of entries.
#[verifier::external_body]
pub(crate) fn compute_normal_len(m: &IndexMap<String, ComputeNormal>) -> (n: usize)
    ensures
        n == compute_normal_entries(*m).len(),
{
    m.len()
}

/// `IndexMap::get_index`: the entry at position `i`, copied out, if there is one.
#[verifier::external_body]
pub(crate) fn compute_normal_entry(m: &IndexMap<String, ComputeNormal>, i: usize) -> (e: Option<(String, ComputeNormal)>)
    ensures
        i < compute_normal_entries(*m).len() ==> e == Some(compute_normal_entries(*m)[i as int]),
        i >= compute_normal_entries(*m).len() ==> e is None,
{
    match m.get_index(i) {
        Some((k, v)) => Some((k.clone(), v.clone())),
        None => None,
    }
}

/// `IndexMap::contains_key`: whether an entry has the name `k`.
#[verifier::external_body]
pub(crate) fn compute_normal_contains(m: &IndexMap<String, ComputeNormal>, k: &String) -> (r: bool)
    ensures
        r == has_name(compute_normal_entries(*m), k@),
{
    m.contains_key(k)
}

/// `IndexMap::get_index_mut`: replaces the value at position `i`, keeping its
/// name and every other entry.
#[verifier::external_body]
pub(crate) fn compute_normal_set_value(m: &mut IndexMap<String, ComputeNormal>, i: usize, v: ComputeNormal)
    requires
        i < compute_normal_entries(*old(m)).len(),
    ensures
        compute_normal_entries(*final(m)) == compute_normal_entries(*old(m)).update(
            i as int,
            (compute_normal_entries(*old(m))[i as int].0, v),
        ),
{
    if let Some((_, slot)) = m.get_index_mut(i) {
        *slot = v;
    }
}

/// The value of the first entry named `k`.
pub open spec fn value_named<V>(entries: Seq<(String, V)>, k: Seq<char>) -> Option<V>
    decreases entries.len(),
{
    if entries.len() == 0 {
        None
    } else if entries[0].0@ == k {
        Some(entries[0].1)
    } else {
        value_named(entries.drop_first(), k)
    }
}

/// `IndexMap::get`: the value of the entry named `k`, copied out, if there is
/// one (an `IndexMap` holds each name at most once).
#[verifier::external_body]
pub(crate) fn vec2_get(m: &IndexMap<String, Vec2Bits>, k: &String) -> (r: Option<Vec2Bits>)
    ensures
        r == value_named(vec2_entries(*m), k@),
{
    m.get(k).copied()
}

} // verus!
