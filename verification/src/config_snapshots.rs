//! Versions of ConfigMaps and Secrets, kept as the user looks at them.
//!
//! Kubernetes keeps no earlier versions. Each time one is looked at, its state is
//! recorded; of each resource the last few versions are kept.
use crate::json::{inner, member, member_of, string_of, Json};
use crate::lists::{
    by_text, by_view, drop_entry, lemma_by_text_ranks, lemma_drop_names_differ, lemma_drop_then_find, lemma_drop_then_find_other,
    lemma_put_names_differ, lemma_put_then_find, lemma_sorted_in_order, lemma_sorted_rearranges,
    lemma_sorted_views, named_at, names_differ,
    position, put_entry, sort, sorted_by, views, without_entry, Named,
};
use crate::text::{
    cat4, less, no_texts, or_empty, push_text, same, sorts_before, text_or_nothing, texts,
};
use vstd::prelude::*;

verus! {

/// How many versions of a resource are kept.
pub const MAX_SNAPSHOTS_PER_RESOURCE: usize = 20;

/// One version of a ConfigMap or Secret.
#[derive(Clone, Debug)]
pub struct ConfigSnapshot {
    /// The cluster's number for this version.
    pub resource_version: String,
    /// When it was recorded, in RFC 3339.
    pub timestamp: String,
    /// The keys of its data, in order.
    pub data_keys: Vec<String>,
    /// The resource in YAML; values of Secrets are redacted.
    pub yaml: String,
}

/// What is recorded of a version.
#[verifier::ext_equal]
pub struct SnapshotView {
    pub resource_version: Seq<char>,
    pub timestamp: Seq<char>,
    pub data_keys: Seq<Seq<char>>,
    pub yaml: Seq<char>,
}

impl View for ConfigSnapshot {
    type V = SnapshotView;

    open spec fn view(&self) -> SnapshotView {
        SnapshotView {
            resource_version: self.resource_version@,
            timestamp: self.timestamp@,
            data_keys: texts(self.data_keys@),
            yaml: self.yaml@,
        }
    }
}

/// The versions of one resource, the oldest first.
pub struct History {
    pub resource: String,
    pub snapshots: Vec<ConfigSnapshot>,
}

impl Named for History {
    open spec fn key(&self) -> Seq<char> {
        self.resource@
    }

    fn key_str(&self) -> (r: &str) {
        self.resource.as_str()
    }
}

/// The versions of all resources.
pub struct SnapshotStore {
    pub histories: Vec<History>,
}

/// The versions of the resource `key`, the oldest first.
pub open spec fn history_in(s: Seq<History>, key: Seq<char>) -> Seq<SnapshotView> {
    match named_at(s, key) {
        Some(i) => views(s[i].snapshots@),
        None => Seq::empty(),
    }
}

/// Versions after one more was seen. The same version again is no new one; the
/// oldest goes where there are too many.
pub open spec fn recorded(h: Seq<SnapshotView>, s: SnapshotView) -> Seq<SnapshotView> {
    if h.len() > 0 && h.last().resource_version == s.resource_version {
        h
    } else {
        let all = h.push(s);
        if all.len() > MAX_SNAPSHOTS_PER_RESOURCE {
            all.skip(all.len() - MAX_SNAPSHOTS_PER_RESOURCE)
        } else {
            all
        }
    }
}

/// The first version called `v`, from `from` on.
pub open spec fn version_from(h: Seq<SnapshotView>, v: Seq<char>, from: int) -> Option<int>
    decreases h.len() - from,
{
    if from < 0 || from >= h.len() {
        None
    } else if h[from].resource_version == v {
        Some(from)
    } else {
        version_from(h, v, from + 1)
    }
}

fn copy_keys(v: &Vec<String>) -> (r: Vec<String>)
    ensures
        texts(r@) == texts(v@),
{
    let mut out = no_texts();
    let mut i: usize = 0;
    assert(texts(out@) =~= texts(v@).take(0));
    while i < v.len()
        invariant
            i <= v@.len(),
            texts(out@) == texts(v@).take(i as int),
        decreases v@.len() - i,
    {
        push_text(&mut out, v[i].as_str());
        i += 1;
        assert(texts(out@) =~= texts(v@).take(i as int));
    }
    assert(texts(v@).take(i as int) =~= texts(v@));
    out
}

fn copy_snapshot(s: &ConfigSnapshot) -> (r: ConfigSnapshot)
    ensures
        r@ == s@,
{
    ConfigSnapshot {
        resource_version: s.resource_version.clone(),
        timestamp: s.timestamp.clone(),
        data_keys: copy_keys(&s.data_keys),
        yaml: s.yaml.clone(),
    }
}

fn copy_snapshots(v: &Vec<ConfigSnapshot>) -> (r: Vec<ConfigSnapshot>)
    ensures
        views(r@) == views(v@),
{
    let mut out: Vec<ConfigSnapshot> = Vec::new();
    let mut i: usize = 0;
    assert(views(out@) =~= views(v@).take(0));
    while i < v.len()
        invariant
            i <= v@.len(),
            views(out@) == views(v@).take(i as int),
        decreases v@.len() - i,
    {
        let ghost before = views(out@);
        out.push(copy_snapshot(&v[i]));
        assert(views(out@) =~= before.push(views(v@)[i as int]));
        i += 1;
        assert(views(out@) =~= views(v@).take(i as int));
    }
    assert(views(v@).take(i as int) =~= views(v@));
    out
}

/// Adds a version to those of its resource.
fn append(v: &mut Vec<ConfigSnapshot>, s: ConfigSnapshot)
    ensures
        views(final(v)@) == recorded(views(old(v)@), s@),
{
    let ghost before = views(v@);
    let ghost added = s@;
    let n = v.len();
    if n > 0 {
        assert(before.last() == v@[n - 1]@);
        if same(v[n - 1].resource_version.as_str(), s.resource_version.as_str()) {
            return;
        }
    }
    v.push(s);
    let ghost all = before.push(added);
    assert(views(v@) =~= all);
    let ghost mut gone: int = 0;
    assert(all.skip(0) =~= all);
    while v.len() > MAX_SNAPSHOTS_PER_RESOURCE
        invariant
            0 <= gone <= all.len(),
            views(v@) == all.skip(gone),
            gone == 0 || all.len() - gone >= MAX_SNAPSHOTS_PER_RESOURCE,
        decreases v@.len(),
    {
        assert(all.skip(gone).len() == v@.len());
        let ghost now = views(v@);
        v.remove(0);
        assert(views(v@) =~= now.skip(1));
        assert(now.skip(1) =~= all.skip(gone + 1));
        proof {
            gone = gone + 1;
        }
    }
    assert(all.skip(gone).len() == v@.len());
}

impl SnapshotStore {
    /// The versions of the resource `key`, the oldest first.
    pub open spec fn history(self, key: Seq<char>) -> Seq<SnapshotView> {
        history_in(self.histories@, key)
    }

    /// Each resource has one history.
    pub open spec fn well_formed(self) -> bool {
        names_differ(self.histories@)
    }

    /// A store with no versions.
    pub fn new() -> (r: SnapshotStore)
        ensures
            r.well_formed(),
            r.histories@.len() == 0,
            forall|key: Seq<char>| #[trigger] r.history(key) == Seq::<SnapshotView>::empty(),
    {
        SnapshotStore { histories: Vec::new() }
    }

    /// Records a version of the resource `key`. The same version as the last one is
    /// left out.
    pub fn record(&mut self, key: String, snapshot: ConfigSnapshot)
        ensures
            final(self).history(key@) == recorded(old(self).history(key@), snapshot@),
            forall|other: Seq<char>|
                other != key@ ==> #[trigger] final(self).history(other) == old(self).history(other),
            old(self).well_formed() ==> final(self).well_formed(),
            final(self).histories@.len() == old(self).histories@.len() + (if named_at(
                old(self).histories@,
                key@,
            ) is Some {
                0int
            } else {
                1
            }),
    {
        let ghost start = self.histories@;
        let mut snapshots = match position(&self.histories, key.as_str()) {
            Some(i) => copy_snapshots(&self.histories[i].snapshots),
            None => {
                let v: Vec<ConfigSnapshot> = Vec::new();
                assert(views(v@) =~= Seq::<SnapshotView>::empty());
                v
            },
        };
        append(&mut snapshots, snapshot);
        let h = History { resource: key, snapshots };
        let ghost put = h;
        put_entry(&mut self.histories, h);
        proof {
            lemma_put_then_find(start, put, put.key());
            assert forall|other: Seq<char>| other != key@ implies #[trigger] self.history(other)
                == old(self).history(other) by {
                lemma_put_then_find(start, put, other);
            }
            if names_differ(start) {
                lemma_put_names_differ(start, put);
            }
        }
    }

    /// The versions of the resource `key`, the oldest first.
    pub fn list(&self, key: &str) -> (r: Vec<ConfigSnapshot>)
        ensures
            views(r@) == self.history(key@),
    {
        match position(&self.histories, key) {
            Some(i) => copy_snapshots(&self.histories[i].snapshots),
            None => {
                let v: Vec<ConfigSnapshot> = Vec::new();
                assert(views(v@) =~= Seq::<SnapshotView>::empty());
                v
            },
        }
    }

    /// One version of the resource `key`, if it is kept.
    pub fn get(&self, key: &str, resource_version: &str) -> (r: Option<ConfigSnapshot>)
        ensures
            match (r, version_from(self.history(key@), resource_version@, 0)) {
                (Some(s), Some(i)) => s@ == self.history(key@)[i],
                (None, None) => true,
                _ => false,
            },
    {
        let v = match position(&self.histories, key) {
            Some(i) => &self.histories[i].snapshots,
            None => {
                return None;
            },
        };
        let ghost h = views(v@);
        let mut i: usize = 0;
        while i < v.len()
            invariant
                i <= v@.len(),
                h == views(v@),
                h == self.history(key@),
                version_from(h, resource_version@, 0) == version_from(
                    h,
                    resource_version@,
                    i as int,
                ),
            decreases v@.len() - i,
        {
            assert(h[i as int] == v@[i as int]@);
            if same(v[i].resource_version.as_str(), resource_version) {
                return Some(copy_snapshot(&v[i]));
            }
            i += 1;
        }
        None
    }

    /// Forgets all versions of the resource `key`.
    pub fn clear(&mut self, key: &str)
        ensures
            final(self).histories@ == without_entry(old(self).histories@, key@),
            final(self).history(key@) == Seq::<SnapshotView>::empty(),
            old(self).well_formed() ==> forall|other: Seq<char>|
                other != key@ ==> #[trigger] final(self).history(other) == old(self).history(other),
            old(self).well_formed() ==> final(self).well_formed(),
    {
        let ghost start = self.histories@;
        drop_entry(&mut self.histories, key);
        proof {
            lemma_drop_then_find(start, key@);
            if names_differ(start) {
                lemma_drop_names_differ(start, key@);
                assert forall|other: Seq<char>| other != key@ implies #[trigger] self.history(other)
                    == old(self).history(other) by {
                    lemma_drop_then_find_other(start, key@, other);
                }
            }
        }
    }

    /// How many resources have versions.
    pub fn resource_count(&self) -> (r: usize)
        ensures
            r == self.histories@.len(),
    {
        self.histories.len()
    }
}

impl Default for SnapshotStore {
    fn default() -> (r: SnapshotStore)
        ensures
            r.well_formed(),
            r.histories@.len() == 0,
    {
        SnapshotStore::new()
    }
}

// ---------------------------------------------------------------------------
// Looking at a resource
// ---------------------------------------------------------------------------

/// What the versions of a resource are kept under: its kind, namespace and name.
pub open spec fn version_key(kind: Seq<char>, namespace: Seq<char>, name: Seq<char>) -> Seq<char> {
    kind + namespace + "/"@ + name
}

/// What the versions of a ConfigMap are kept under.
pub fn configmap_key(namespace: &str, name: &str) -> (r: String)
    ensures
        r@ == version_key("configmaps:"@, namespace@, name@),
{
    cat4("configmaps:", namespace, "/", name)
}

/// What the versions of a Secret are kept under.
pub fn secret_key(namespace: &str, name: &str) -> (r: String)
    ensures
        r@ == version_key("secrets:"@, namespace@, name@),
{
    cat4("secrets:", namespace, "/", name)
}

/// The order of keys.
pub open spec fn key_order() -> spec_fn(Seq<char>, Seq<char>) -> bool {
    |a: Seq<char>, b: Seq<char>| sorts_before(a, b)
}

fn key_before(a: &String, b: &String) -> (r: bool)
    ensures
        r == by_view(key_order())(*a, *b),
{
    less(a.as_str(), b.as_str())
}

/// A version, from what the cluster says of the resource. A resource without a
/// version number has an empty one.
pub fn make_snapshot(
    resource_version: &Option<String>,
    keys: Vec<String>,
    timestamp: String,
    yaml: String,
) -> (r: ConfigSnapshot)
    ensures
        r@ == (SnapshotView {
            resource_version: text_or_nothing(*resource_version),
            timestamp: timestamp@,
            data_keys: sorted_by(texts(keys@), key_order()),
            yaml: yaml@,
        }),
{
    proof {
        lemma_sorted_views(keys@, key_order());
        assert(views(keys@) =~= texts(keys@));
        let t = sorted_by(keys@, by_view(key_order()));
        assert(views(t) =~= texts(t));
    }
    ConfigSnapshot {
        resource_version: or_empty(resource_version),
        timestamp,
        data_keys: sort(keys, key_before, Ghost(by_view(key_order()))),
        yaml,
    }
}

/// What stands in the place of a value of a Secret.
pub const REDACTED: &'static str = "<redacted>";

/// A part of a Secret that holds values.
pub open spec fn is_value_section(name: Seq<char>) -> bool {
    name == "data"@ || name == "stringData"@
}

/// `r` has the keys of `j`, each with a value that is hidden. What has no keys stays.
pub open spec fn has_hidden_values(r: Json, j: Json) -> bool {
    match j {
        Json::Object(o) => {
            &&& r matches Json::Object(p)
            &&& p@.len() == o@.len()
            &&& forall|i: int|
                0 <= i < o@.len() ==> (#[trigger] p@[i]).0 == o@[i].0 && string_of(Some(p@[i].1))
                    == Some(REDACTED@)
        },
        _ => r == j,
    }
}

/// `r` is the Secret `j` with its values hidden, and nothing else changed.
pub open spec fn is_redacted(r: Json, j: Json) -> bool {
    match j {
        Json::Object(o) => {
            &&& r matches Json::Object(p)
            &&& p@.len() == o@.len()
            &&& forall|i: int|
                0 <= i < o@.len() ==> (#[trigger] p@[i]).0 == o@[i].0 && if is_value_section(
                    o@[i].0@,
                ) {
                    has_hidden_values(p@[i].1, o@[i].1)
                } else {
                    p@[i].1 == o@[i].1
                }
        },
        _ => r == j,
    }
}

fn hide_values(j: Json) -> (r: Json)
    ensures
        has_hidden_values(r, j),
{
    match j {
        Json::Object(o) => {
            let ghost all = o@;
            let mut out: Vec<(String, Json)> = Vec::new();
            for e in it: o
                invariant
                    it.seq() == all,
                    out@.len() == it.index(),
                    forall|k: int|
                        0 <= k < out@.len() ==> (#[trigger] out@[k]).0 == all[k].0 && string_of(
                            Some(out@[k].1),
                        ) == Some(REDACTED@),
            {
                out.push((e.0, Json::Str(REDACTED.to_owned())));
            }
            Json::Object(out)
        },
        _ => j,
    }
}

/// A Secret with its values hidden: `data` and `stringData` keep their keys, and
/// whatever else it says stays as it is.
pub fn redact_secret(j: Json) -> (r: Json)
    ensures
        is_redacted(r, j),
{
    match j {
        Json::Object(o) => {
            let ghost all = o@;
            let mut out: Vec<(String, Json)> = Vec::new();
            for e in it: o
                invariant
                    it.seq() == all,
                    out@.len() == it.index(),
                    forall|k: int|
                        0 <= k < out@.len() ==> (#[trigger] out@[k]).0 == all[k].0 && (
                        if is_value_section(all[k].0@) {
                            has_hidden_values(out@[k].1, all[k].1)
                        } else {
                            out@[k].1 == all[k].1
                        }),
            {
                let (name, value) = e;
                if same(name.as_str(), "data") || same(name.as_str(), "stringData") {
                    out.push((name, hide_values(value)));
                } else {
                    out.push((name, value));
                }
            }
            Json::Object(out)
        },
        _ => j,
    }
}

/// Records the state of a ConfigMap that is looked at, and returns all its
/// versions.
pub fn snapshot_configmap(
    store: &mut SnapshotStore,
    namespace: &str,
    name: &str,
    snapshot: ConfigSnapshot,
) -> (r: Vec<ConfigSnapshot>)
    ensures
        ({
            let key = version_key("configmaps:"@, namespace@, name@);
            &&& final(store).history(key) == recorded(old(store).history(key), snapshot@)
            &&& views(r@) == final(store).history(key)
            &&& forall|other: Seq<char>|
                other != key ==> #[trigger] final(store).history(other) == old(store).history(other)
        }),
        old(store).well_formed() ==> final(store).well_formed(),
{
    let key = configmap_key(namespace, name);
    let place = key.clone();
    store.record(key, snapshot);
    store.list(place.as_str())
}

/// Records the state of a Secret that is looked at, and returns all its versions.
pub fn snapshot_secret(
    store: &mut SnapshotStore,
    namespace: &str,
    name: &str,
    snapshot: ConfigSnapshot,
) -> (r: Vec<ConfigSnapshot>)
    ensures
        ({
            let key = version_key("secrets:"@, namespace@, name@);
            &&& final(store).history(key) == recorded(old(store).history(key), snapshot@)
            &&& views(r@) == final(store).history(key)
            &&& forall|other: Seq<char>|
                other != key ==> #[trigger] final(store).history(other) == old(store).history(other)
        }),
        old(store).well_formed() ==> final(store).well_formed(),
{
    let key = secret_key(namespace, name);
    let place = key.clone();
    store.record(key, snapshot);
    store.list(place.as_str())
}

// ---------------------------------------------------------------------------
// Laws
// ---------------------------------------------------------------------------

/// What a run of versions leaves of a resource.
pub open spec fn recorded_all(h: Seq<SnapshotView>, run: Seq<SnapshotView>) -> Seq<SnapshotView>
    decreases run.len(),
{
    if run.len() == 0 {
        h
    } else {
        recorded(recorded_all(h, run.drop_last()), run.last())
    }
}

/// Two versions that follow each other in a history differ.
pub open spec fn steps_differ(h: Seq<SnapshotView>) -> bool {
    forall|i: int, j: int|
        #![trigger h[i], h[j]]
        0 <= i && j == i + 1 && j < h.len() ==> h[i].resource_version != h[j].resource_version
}

/// However often a resource is looked at, no more than the limit of its versions is
/// kept, the last one seen is the last one kept, and two that follow each other
/// differ.
pub proof fn law_history_is_bounded(run: Seq<SnapshotView>)
    ensures
        recorded_all(Seq::empty(), run).len() <= MAX_SNAPSHOTS_PER_RESOURCE,
        run.len() > 0 ==> recorded_all(Seq::empty(), run).len() > 0 && recorded_all(
            Seq::empty(),
            run,
        ).last().resource_version == run.last().resource_version,
        steps_differ(recorded_all(Seq::empty(), run)),
    decreases run.len(),
{
    if run.len() > 0 {
        law_history_is_bounded(run.drop_last());
        let h = recorded_all(Seq::empty(), run.drop_last());
        let s = run.last();
        let t = recorded(h, s);
        if h.len() > 0 && h.last().resource_version == s.resource_version {
        } else {
            let all = h.push(s);
            assert forall|i: int, j: int|
                #![trigger all[i], all[j]]
                0 <= i && j == i + 1 && j < all.len() implies all[i].resource_version
                != all[j].resource_version by {
                assert(all[i] == h[i]);
                if j < h.len() {
                    assert(all[j] == h[j]);
                }
            }
            if all.len() > MAX_SNAPSHOTS_PER_RESOURCE {
                let gone = all.len() - MAX_SNAPSHOTS_PER_RESOURCE;
                assert forall|i: int, j: int|
                    #![trigger t[i], t[j]]
                    0 <= i && j == i + 1 && j < t.len() implies t[i].resource_version
                    != t[j].resource_version by {
                    assert(t[i] == all[i + gone]);
                    assert(t[j] == all[j + gone]);
                }
            }
        }
    }
}

/// Looking at the same version twice is looking at it once.
pub proof fn law_same_version_is_recorded_once(h: Seq<SnapshotView>, s: SnapshotView)
    ensures
        recorded(recorded(h, s), s) == recorded(h, s),
{
    let t = recorded(h, s);
    assert(t.len() > 0 && t.last().resource_version == s.resource_version);
}

/// The versions of a ConfigMap are never mixed up with those of a Secret, nor with
/// those of a resource of another name or, as no namespace has a slash in its name, in
/// another namespace.
pub proof fn law_resources_are_kept_apart(
    namespace: Seq<char>,
    name: Seq<char>,
    namespace2: Seq<char>,
    name2: Seq<char>,
)
    requires
        !namespace.contains('/'),
        !namespace2.contains('/'),
    ensures
        version_key("configmaps:"@, namespace, name) != version_key(
            "secrets:"@,
            namespace2,
            name2,
        ),
        version_key("configmaps:"@, namespace, name) == version_key(
            "configmaps:"@,
            namespace2,
            name2,
        ) ==> namespace == namespace2 && name == name2,
        version_key("secrets:"@, namespace, name) == version_key("secrets:"@, namespace2, name2)
            ==> namespace == namespace2 && name == name2,
{
    reveal_strlit("configmaps:");
    reveal_strlit("secrets:");
    assert(version_key("configmaps:"@, namespace, name)[0] == 'c');
    assert(version_key("secrets:"@, namespace2, name2)[0] == 's');
    if version_key("configmaps:"@, namespace, name) == version_key(
        "configmaps:"@,
        namespace2,
        name2,
    ) {
        lemma_keys_differ("configmaps:"@, namespace, name, namespace2, name2);
    }
    if version_key("secrets:"@, namespace, name) == version_key("secrets:"@, namespace2, name2) {
        lemma_keys_differ("secrets:"@, namespace, name, namespace2, name2);
    }
}

proof fn lemma_keys_differ(
    kind: Seq<char>,
    namespace: Seq<char>,
    name: Seq<char>,
    namespace2: Seq<char>,
    name2: Seq<char>,
)
    requires
        !namespace.contains('/'),
        !namespace2.contains('/'),
        version_key(kind, namespace, name) == version_key(kind, namespace2, name2),
    ensures
        namespace == namespace2,
        name == name2,
{
    reveal_strlit("/");
    let a = version_key(kind, namespace, name);
    let b = version_key(kind, namespace2, name2);
    let (k, n, m) = (kind.len() as int, namespace.len() as int, namespace2.len() as int);
    assert(a[k + n] == '/');
    assert(b[k + m] == '/');
    if n < m {
        assert(b[k + n] == namespace2[n]);
    } else if m < n {
        assert(a[k + m] == namespace[m]);
    }
    assert(namespace =~= a.subrange(k, k + n));
    assert(namespace2 =~= b.subrange(k, k + m));
    assert(name =~= a.skip(k + n + 1));
    assert(name2 =~= b.skip(k + m + 1));
}

proof fn lemma_member_of(s: Seq<(String, Json)>, key: Seq<char>) -> (i: int)
    requires
        member_of(s, key) is Some,
    ensures
        0 <= i < s.len(),
        s[i].0@ == key,
        member_of(s, key) == Some(s[i].1),
    decreases s.len(),
{
    if s[0].0@ == key {
        0
    } else {
        lemma_member_of(s.drop_first(), key) + 1
    }
}

/// No value of a Secret shows once it is redacted: whatever key of its data is asked
/// for, what comes back is the mark of a hidden value.
pub proof fn law_values_of_secrets_are_hidden(
    r: Json,
    j: Json,
    section: Seq<char>,
    key: Seq<char>,
)
    requires
        is_redacted(r, j),
        is_value_section(section),
        inner(member(r, section), key) is Some,
    ensures
        string_of(inner(member(r, section), key)) == Some(REDACTED@),
{
    let p = r->Object_0@;
    let i = lemma_member_of(p, section);
    assert(p[i].0 == j->Object_0@[i].0);
    let values = p[i].1->Object_0@;
    let k = lemma_member_of(values, key);
    assert(values[k].0@ == key);
}

/// A new version is added behind the others; with twenty of them kept, the oldest goes.
/// The version that is there already is not added again.
pub proof fn law_new_version_is_added(h: Seq<SnapshotView>, s: SnapshotView)
    requires
        h.len() <= 20,
    ensures
        h.len() > 0 && h.last().resource_version == s.resource_version ==> recorded(h, s) == h,
        (h.len() == 0 || h.last().resource_version != s.resource_version) && h.len() < 20
            ==> recorded(h, s) == h.push(s),
        (h.len() == 0 || h.last().resource_version != s.resource_version) && h.len() == 20
            ==> recorded(h, s) == h.skip(1).push(s),
{
    if h.len() == 20 && h.last().resource_version != s.resource_version {
        assert(h.push(s).skip(1) =~= h.skip(1).push(s));
    }
}

/// A version that is asked for is the one of that number, and it is found where it is kept.
pub proof fn law_version_asked_for_is_found(
    store: SnapshotStore,
    key: &str,
    version: &str,
    r: Option<ConfigSnapshot>,
)
    requires
        call_ensures(SnapshotStore::get, (&store, key, version), r),
    ensures
        r matches Some(s) ==> s.resource_version@ == version@ && store.history(key@).contains(s@),
        r is None ==> forall|i: int|
            0 <= i < store.history(key@).len() ==> (#[trigger] store.history(
                key@,
            )[i]).resource_version != version@,
{
    let h = store.history(key@);
    lemma_version_from(h, version@, 0);
    if let Some(s) = r {
        let i = version_from(h, version@, 0)->0;
        assert(h[i] == s@);
    }
}

proof fn lemma_version_from(h: Seq<SnapshotView>, v: Seq<char>, from: int)
    requires
        0 <= from,
    ensures
        match version_from(h, v, from) {
            Some(i) => from <= i < h.len() && h[i].resource_version == v,
            None => forall|i: int| from <= i < h.len() ==> (#[trigger] h[i]).resource_version != v,
        },
    decreases h.len() - from,
{
    if from < h.len() && h[from].resource_version != v {
        lemma_version_from(h, v, from + 1);
    }
}

/// A version holds what it was made of: its number, when it was recorded, the YAML, and
/// the keys, all of them, in order.
pub proof fn law_version_holds_what_it_was_made_of(
    resource_version: Option<String>,
    keys: Vec<String>,
    timestamp: String,
    yaml: String,
    r: ConfigSnapshot,
)
    requires
        call_ensures(make_snapshot, (&resource_version, keys, timestamp, yaml), r),
    ensures
        resource_version matches Some(v) ==> r.resource_version@ == v@,
        resource_version is None ==> r.resource_version@.len() == 0,
        r.timestamp@ == timestamp@,
        r.yaml@ == yaml@,
        texts(r.data_keys@).to_multiset() == texts(keys@).to_multiset(),
        forall|i: int, j: int|
            #![trigger r.data_keys@[i], r.data_keys@[j]]
            0 <= i < j < r.data_keys@.len() ==> !sorts_before(r.data_keys@[j]@, r.data_keys@[i]@),
{
    let k = texts(keys@);
    let t = texts(r.data_keys@);
    assert(r@.data_keys == t);
    assert(t.len() == r.data_keys@.len());
    lemma_sorted_rearranges(k, key_order());
    lemma_by_text_ranks(|s: Seq<char>| s);
    assert(key_order() =~= by_text(|s: Seq<char>| s));
    lemma_sorted_in_order(k, key_order());
    assert forall|i: int, j: int|
        #![trigger r.data_keys@[i], r.data_keys@[j]]
        0 <= i < j < r.data_keys@.len() implies !sorts_before(
        r.data_keys@[j]@,
        r.data_keys@[i]@,
    ) by {
        assert(t[i] == r.data_keys@[i]@);
        assert(t[j] == r.data_keys@[j]@);
    }
}

/// A redacted Secret keeps all that it says but its values: every member but `data` and
/// `stringData` stays as it is, and of these the keys stay, each with `<redacted>` in the
/// place of its value.
pub proof fn law_only_values_are_redacted(members: Vec<(String, Json)>, r: Json, i: int)
    requires
        call_ensures(redact_secret, (Json::Object(members),), r),
        0 <= i < members@.len(),
    ensures
        r matches Json::Object(out) && {
            &&& out@.len() == members@.len()
            &&& out@[i].0@ == members@[i].0@
            &&& members@[i].0@ != "data"@ && members@[i].0@ != "stringData"@ ==> out@[i].1
                == members@[i].1
            &&& members@[i].0@ == "data"@ || members@[i].0@ == "stringData"@ ==> (
            members@[i].1 matches Json::Object(values) ==> (out@[i].1 matches Json::Object(hidden)
                && hidden@.len() == values@.len() && forall|k: int|
                0 <= k < values@.len() ==> (#[trigger] hidden@[k]).0@ == values@[k].0@
                    && (hidden@[k].1 matches Json::Str(t) && t@ == "<redacted>"@)))
        },
{
    let out = r->Object_0;
    assert(out@[i].0 == members@[i].0);
    if is_value_section(members@[i].0@) {
        if let Json::Object(values) = members@[i].1 {
            let hidden = out@[i].1->Object_0;
            assert forall|k: int| 0 <= k < values@.len() implies (#[trigger] hidden@[k]).0@
                == values@[k].0@ && (hidden@[k].1 matches Json::Str(t) && t@ == "<redacted>"@) by {
                assert(hidden@[k].0 == values@[k].0);
            }
        }
    }
}

/// The versions of a ConfigMap and of a Secret are kept under their kind, namespace and
/// name.
pub proof fn law_versions_are_kept_under_their_resource(
    namespace: &str,
    name: &str,
    of_configmap: String,
    of_secret: String,
)
    requires
        call_ensures(configmap_key, (namespace, name), of_configmap),
        call_ensures(secret_key, (namespace, name), of_secret),
    ensures
        of_configmap@ == "configmaps:"@ + namespace@ + "/"@ + name@,
        of_secret@ == "secrets:"@ + namespace@ + "/"@ + name@,
{
}

} // verus!
