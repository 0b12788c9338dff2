//! Rows of the tables, made of resources.
pub mod cluster;
pub mod pod;

use crate::dto::{age, plain, Cell, Tone, DASH};
use crate::text::{opt_text, or_empty, text_or_nothing};
use vstd::prelude::*;

verus! {

/// What every resource says of itself.
#[derive(Clone, Debug)]
pub struct ObjectMeta {
    pub uid: Option<String>,
    pub name: String,
    pub namespace: Option<String>,
    /// When it was made, in RFC 3339.
    pub created: Option<String>,
}

/// The name of a resource, as a cell.
pub fn name_cell(meta: &ObjectMeta) -> (r: Cell)
    ensures
        r@ == plain(meta.name@, Tone::Primary),
{
    Cell::new(meta.name.as_str(), Tone::Primary)
}

/// The namespace of a resource; a dash where it has none.
pub open spec fn namespace_text(meta: ObjectMeta) -> Seq<char> {
    match meta.namespace {
        Some(n) => n@,
        None => DASH@,
    }
}

/// The namespace of a resource, as a cell.
pub fn ns_cell(meta: &ObjectMeta) -> (r: Cell)
    ensures
        r@ == plain(namespace_text(*meta), Tone::Muted),
{
    match &meta.namespace {
        Some(n) => Cell::new(n.as_str(), Tone::Muted),
        None => Cell::new(DASH, Tone::Muted),
    }
}

/// The age of a resource, as a cell.
pub fn age_cell(meta: &ObjectMeta) -> (r: Cell)
    ensures
        r@ == age(opt_text(meta.created)),
{
    match &meta.created {
        Some(t) => Cell::age(Some(t.as_str())),
        None => Cell::age(None),
    }
}

/// What a resource is found by; empty where it has no uid.
pub fn uid_of(meta: &ObjectMeta) -> (r: String)
    ensures
        r@ == text_or_nothing(meta.uid),
{
    or_empty(&meta.uid)
}

// ---------------------------------------------------------------------------
// Laws
// ---------------------------------------------------------------------------

/// A resource shows its name, its namespace or a dash, and its age, and is found by its uid.
pub proof fn law_resource_shows_its_metadata(
    meta: ObjectMeta,
    name: Cell,
    namespace: Cell,
    aged: Cell,
    uid: String,
)
    requires
        call_ensures(name_cell, (&meta,), name),
        call_ensures(ns_cell, (&meta,), namespace),
        call_ensures(age_cell, (&meta,), aged),
        call_ensures(uid_of, (&meta,), uid),
    ensures
        name.text@ == meta.name@ && name.tone == Tone::Primary,
        meta.namespace matches Some(n) ==> namespace.text@ == n@,
        meta.namespace is None ==> namespace.text@ == "—"@,
        namespace.tone == Tone::Muted,
        meta.created matches Some(t) ==> aged.text@ == t@,
        meta.created is None ==> aged.text@.len() == 0,
        aged.format matches Some(f) && f@ == "age"@,
        meta.uid matches Some(u) ==> uid@ == u@,
        meta.uid is None ==> uid@.len() == 0,
{
    assert(name@ == plain(meta.name@, Tone::Primary));
    assert(aged@.format == Some("age"@));
    assert(namespace@.tone == Tone::Muted);
}

} // verus!
