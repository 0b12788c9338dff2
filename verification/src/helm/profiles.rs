//! Deployment profiles: saved sets of parameters for an install or upgrade.
//!
//! The profiles are kept in one file of the data directory, which is read and
//! written elsewhere. A file that is missing or cannot be read counts as empty.
use crate::error::{other, AppError, AppResult};
use crate::lists::{
    by_text, drop_entry, in_order, lemma_by_text_ranks, lemma_drop_names_differ,
    lemma_drop_then_find, lemma_named_from, lemma_put_names_differ, lemma_put_then_find,
    lemma_sorted_in_order, lemma_sorted_members, lemma_sorted_names, lemma_sorted_rearranges,
    lemma_without_members, named_at, names_differ, position, put_entry, sort, sorted_by,
    with_entry, without_entry, Named,
};
use crate::paths::{join_path, joined_path};
use crate::text::{alnum, cat3, is_alnum, less, sorts_before};
use vstd::prelude::*;

verus! {

/// The file with the profiles, in the data directory.
pub const PROFILES_FILE: &'static str = "helm-profiles.json";

/// The longest name of a profile.
pub const MAX_PROFILE_NAME: usize = 64;

/// A saved set of parameters.
#[derive(Debug)]
pub struct HelmProfile {
    /// What the profile is found by.
    pub name: String,
    /// `repo/name` or a local absolute path.
    pub chart_ref: String,
    /// Chart version; empty for the latest.
    pub version: String,
    pub namespace: String,
    /// Text of the values file; empty for the chart's defaults.
    pub values: String,
    /// Single values to set. Keys are Helm paths, and stay as they are.
    pub set: Option<Vec<(String, serde_json::Value)>>,
    pub atomic: bool,
    pub force: bool,
    pub create_namespace: bool,
    /// How long to wait; Helm's default where there is none.
    pub timeout_secs: Option<u64>,
    /// When the profile was first saved, in RFC 3339.
    pub created_at: String,
}

impl Named for HelmProfile {
    open spec fn key(&self) -> Seq<char> {
        self.name@
    }

    fn key_str(&self) -> (r: &str) {
        self.name.as_str()
    }
}

/// The path of the file with the profiles.
pub fn profiles_path(dir: &str) -> (r: String)
    ensures
        r@ == joined_path(dir@, PROFILES_FILE@),
{
    join_path(dir, PROFILES_FILE)
}

/// The order of profiles: by name.
pub open spec fn by_name() -> spec_fn(HelmProfile, HelmProfile) -> bool {
    by_text(|p: HelmProfile| p.name@)
}

fn name_before(a: &HelmProfile, b: &HelmProfile) -> (r: bool)
    ensures
        r == by_name()(*a, *b),
{
    less(a.name.as_str(), b.name.as_str())
}

/// The profiles of a file, by name. `stored` is what the file holds, where it is
/// there and could be read.
pub fn load_profiles(stored: Option<Vec<HelmProfile>>) -> (r: Vec<HelmProfile>)
    ensures
        r@ == (match stored {
            Some(v) => sorted_by(v@, by_name()),
            None => Seq::empty(),
        }),
{
    match stored {
        Some(v) => sort(v, name_before, Ghost(by_name())),
        None => Vec::new(),
    }
}

/// What is wrong with a profile name, if anything.
pub open spec fn name_problem(name: Seq<char>) -> Option<Seq<char>> {
    if name.len() == 0 {
        Some("profile name cannot be empty"@)
    } else if name.len() > MAX_PROFILE_NAME {
        Some("profile name exceeds 64 characters"@)
    } else if exists|i: int| 0 <= i < name.len() && !is_name_char(#[trigger] name[i]) {
        Some("profile name may only contain letters, digits, '-' and '_'"@)
    } else {
        None
    }
}

/// A character that a profile name may have.
pub open spec fn is_name_char(c: char) -> bool {
    is_alnum(c) || c == '-' || c == '_'
}

/// Whether a profile may be called so: letters, digits, `-` and `_`, at least one
/// and at most [`MAX_PROFILE_NAME`] of them.
pub fn validate_profile_name(name: &str) -> (r: AppResult<()>)
    ensures
        match (r, name_problem(name@)) {
            (Ok(_), None) => true,
            (Err(e), Some(m)) => e.is_other(m),
            _ => false,
        },
{
    if name.is_empty() {
        return Err(other("profile name cannot be empty"));
    }
    let n = name.unicode_len();
    if n > MAX_PROFILE_NAME {
        return Err(other("profile name exceeds 64 characters"));
    }
    let mut i: usize = 0;
    while i < n
        invariant
            i <= n,
            n == name@.len(),
            0 < n <= MAX_PROFILE_NAME,
            forall|k: int| 0 <= k < i ==> is_name_char(#[trigger] name@[k]),
        decreases n - i,
    {
        let c = name.get_char(i);
        if !(alnum(c) || c == '-' || c == '_') {
            assert(!is_name_char(name@[i as int]));
            return Err(other("profile name may only contain letters, digits, '-' and '_'"));
        }
        i += 1;
    }
    Ok(())
}

/// A profile as it is saved over those that are there: one of the same name gives
/// it the time of its first save.
pub open spec fn dated(s: Seq<HelmProfile>, p: HelmProfile) -> HelmProfile {
    match named_at(s, p.name@) {
        Some(i) => HelmProfile { created_at: s[i].created_at, ..p },
        None => p,
    }
}

/// Saves a profile over those that are there, and returns them all by name. One of
/// the same name is replaced, and the time of its first save kept.
pub fn save_profile(profiles: Vec<HelmProfile>, p: HelmProfile) -> (r: AppResult<Vec<HelmProfile>>)
    ensures
        match (r, name_problem(p.name@)) {
            (Ok(v), None) => v@ == sorted_by(
                with_entry(profiles@, dated(profiles@, p)),
                by_name(),
            ),
            (Err(e), Some(m)) => e.is_other(m),
            _ => false,
        },
{
    match validate_profile_name(p.name.as_str()) {
        Err(e) => {
            return Err(e);
        },
        Ok(_) => {},
    }
    let mut all = profiles;
    let mut saved = p;
    if let Some(i) = position(&all, saved.name.as_str()) {
        saved.created_at = all[i].created_at.clone();
    }
    put_entry(&mut all, saved);
    Ok(sort(all, name_before, Ghost(by_name())))
}

/// Deletes a profile, and returns the others by name.
pub fn delete_profile(profiles: Vec<HelmProfile>, name: &str) -> (r: AppResult<Vec<HelmProfile>>)
    ensures
        match (r, named_at(profiles@, name@)) {
            (Ok(v), Some(_)) => v@ == sorted_by(without_entry(profiles@, name@), by_name()),
            (Err(e), None) => e.is_not_found("profile `"@ + name@ + "`"@),
            _ => false,
        },
{
    let mut all = profiles;
    if drop_entry(&mut all, name) {
        Ok(sort(all, name_before, Ghost(by_name())))
    } else {
        Err(AppError::NotFound(cat3("profile `", name, "`")))
    }
}

// ---------------------------------------------------------------------------
// Laws
// ---------------------------------------------------------------------------

/// Profiles come out in the order of their names, all of them.
pub proof fn law_profiles_are_in_order(s: Seq<HelmProfile>)
    ensures
        in_order(sorted_by(s, by_name()), by_name()),
        sorted_by(s, by_name()).to_multiset() =~= s.to_multiset(),
{
    lemma_by_text_ranks(|p: HelmProfile| p.name@);
    lemma_sorted_in_order(s, by_name());
    lemma_sorted_rearranges(s, by_name());
}

/// No two profiles share a name, whatever is saved or deleted.
pub proof fn law_names_stay_unique(s: Seq<HelmProfile>, p: HelmProfile, name: Seq<char>)
    requires
        names_differ(s),
    ensures
        names_differ(sorted_by(with_entry(s, dated(s, p)), by_name())),
        names_differ(sorted_by(without_entry(s, name), by_name())),
{
    lemma_put_names_differ(s, dated(s, p));
    lemma_sorted_names(with_entry(s, dated(s, p)), by_name());
    lemma_drop_names_differ(s, name);
    lemma_sorted_names(without_entry(s, name), by_name());
}

/// What was saved is found under its name: all of it, but for the time of the
/// first save, which an earlier profile of that name passes on.
pub proof fn law_saved_profile_is_found(s: Seq<HelmProfile>, p: HelmProfile)
    ensures
        ({
            let t = with_entry(s, dated(s, p));
            named_at(t, p.name@) matches Some(i) && t[i] == dated(s, p)
        }),
        dated(s, p).name == p.name,
        dated(s, p).values == p.values,
        named_at(s, p.name@) matches Some(i) ==> dated(s, p).created_at == s[i].created_at,
        named_at(s, p.name@) is None ==> dated(s, p) == p,
{
    lemma_put_then_find(s, dated(s, p), p.name@);
}

/// What was deleted is not found again.
pub proof fn law_deleted_profile_is_gone(s: Seq<HelmProfile>, name: Seq<char>)
    ensures
        named_at(without_entry(s, name), name) is None,
{
    lemma_drop_then_find(s, name);
}

/// A name is accepted exactly where it has one to sixty-four characters, each of them a
/// letter, a digit, a hyphen or an underscore.
pub proof fn law_which_names_are_accepted(name: &str, r: AppResult<()>)
    requires
        call_ensures(validate_profile_name, (name,), r),
    ensures
        r is Ok <==> 1 <= name@.len() <= 64 && (forall|i: int|
            0 <= i < name@.len() ==> is_alnum(#[trigger] name@[i]) || name@[i] == '-' || name@[i]
                == '_'),
{
}

/// Profiles are shown by name, and all that the file holds are shown; a file that cannot be
/// read holds none.
pub proof fn law_loaded_profiles_are_shown_by_name(
    stored: Vec<HelmProfile>,
    r: Vec<HelmProfile>,
    none: Vec<HelmProfile>,
)
    requires
        call_ensures(load_profiles, (Some(stored),), r),
        call_ensures(load_profiles, (None::<Vec<HelmProfile>>,), none),
    ensures
        forall|i: int, j: int|
            #![trigger r@[i], r@[j]]
            0 <= i < j < r@.len() ==> !sorts_before(r@[j].name@, r@[i].name@),
        forall|p: HelmProfile| #[trigger] r@.contains(p) <==> stored@.contains(p),
        none@.len() == 0,
{
    law_profiles_are_in_order(stored@);
    lemma_sorted_members(stored@, by_name());
    assert forall|i: int, j: int| #![trigger r@[i], r@[j]] 0 <= i < j < r@.len() implies !sorts_before(
        r@[j].name@,
        r@[i].name@,
    ) by {
        assert(!by_name()(r@[j], r@[i]));
    }
}

/// A saved profile is there with everything that was saved of it; only the time of the first
/// save is kept from one of the same name. Profiles of other names stay as they are.
pub proof fn law_saving_keeps_the_rest(
    profiles: Vec<HelmProfile>,
    p: HelmProfile,
    r: AppResult<Vec<HelmProfile>>,
    other: HelmProfile,
)
    requires
        call_ensures(save_profile, (profiles, p), r),
        r is Ok,
        names_differ(profiles@),
    ensures
        exists|k: int|
            0 <= k < r->Ok_0@.len() && #[trigger] r->Ok_0@[k] == (HelmProfile {
                created_at: r->Ok_0@[k].created_at,
                ..p
            }) && (forall|i: int|
                0 <= i < profiles@.len() && (#[trigger] profiles@[i]).name@ == p.name@
                    ==> r->Ok_0@[k].created_at == profiles@[i].created_at) && ((forall|i: int|
                0 <= i < profiles@.len() ==> (#[trigger] profiles@[i]).name@ != p.name@)
                ==> r->Ok_0@[k].created_at == p.created_at),
        other.name@ != p.name@ ==> (r->Ok_0@.contains(other) <==> profiles@.contains(other)),
{
    let s = profiles@;
    let d = dated(s, p);
    let t = with_entry(s, d);
    let v = r->Ok_0@;
    lemma_sorted_members(t, by_name());
    lemma_named_from(s, p.name@, 0);
    lemma_put_then_find(s, d, p.name@);
    let i = named_at(t, p.name@)->0;
    lemma_named_from(t, p.name@, 0);
    assert(t[i] == d);
    assert(t.contains(d));
    assert(v.contains(d));
    let k = choose|k: int| 0 <= k < v.len() && v[k] == d;
    match named_at(s, p.name@) {
        Some(n) => {
            assert(s[n].key() == p.name@);
            assert forall|i: int| 0 <= i < s.len() && (#[trigger] s[i]).name@ == p.name@ implies v[k].created_at
                == s[i].created_at by {
                assert(s[i].key() == s[n].key());
                if i < n {
                    assert(s[i].key() != s[n].key());
                }
                if n < i {
                    assert(s[n].key() != s[i].key());
                }
            }
        },
        None => {
            assert forall|i: int| 0 <= i < s.len() && (#[trigger] s[i]).name@ == p.name@ implies v[k].created_at
                == s[i].created_at by {
                assert(s[i].key() != p.name@);
            }
        },
    }
    assert(v[k] == d);
    if other.name@ != p.name@ {
        if s.contains(other) {
            let j = choose|j: int| 0 <= j < s.len() && s[j] == other;
            assert(s[j].key() == other.name@);
            assert(t[j] == other);
            assert(t.contains(other));
        }
        if t.contains(other) {
            let j = choose|j: int| 0 <= j < t.len() && t[j] == other;
            assert(t[j] == s[j]);
            assert(s.contains(other));
        }
    }
}

/// Deleting takes out the profile of that name and no other.
pub proof fn law_deleting_keeps_the_rest(
    profiles: Vec<HelmProfile>,
    name: &str,
    r: AppResult<Vec<HelmProfile>>,
    other: HelmProfile,
)
    requires
        call_ensures(delete_profile, (profiles, name), r),
    ensures
        r is Ok <==> exists|i: int|
            0 <= i < profiles@.len() && (#[trigger] profiles@[i]).name@ == name@,
        r is Ok ==> (r->Ok_0@.contains(other) <==> profiles@.contains(other) && other.name@
            != name@),
{
    let s = profiles@;
    let t = without_entry(s, name@);
    lemma_named_from(s, name@, 0);
    lemma_without_members(s, name@);
    lemma_sorted_members(t, by_name());
    if r is Ok {
        let i = named_at(s, name@)->0;
        assert(s[i].key() == name@);
        assert(s[i].name@ == name@);
        if t.contains(other) {
            let k = choose|k: int| 0 <= k < t.len() && t[k] == other;
            assert(t[k].key() != name@);
        }
        if s.contains(other) && other.name@ != name@ {
            let k = choose|k: int| 0 <= k < s.len() && s[k] == other;
            assert(s[k].key() != name@);
        }
    } else {
        assert forall|i: int| 0 <= i < s.len() implies (#[trigger] s[i]).name@ != name@ by {
            assert(s[i].key() != name@);
        }
    }
}

} // verus!
