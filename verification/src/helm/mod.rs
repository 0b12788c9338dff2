//! Helm releases, read from the Secrets that Helm stores them in.
//!
//! Each revision of a release is a Secret of its own, whose `release` value is
//! the release document, gzipped and base64-encoded.
pub mod local;
pub mod manifest;
pub mod market;
pub mod ops;
pub mod profiles;

use crate::dto::{age, plain, sort_at, status, text_at, Cell, CellView, Row, Tone, DASH};
use crate::encoding::{base64_bytes, base64_decode, gunzip_text, gunzipped};
use crate::error::{other, AppError, AppResult};
use crate::json::{pair_texts, Json};
use crate::lists::{
    by_down_and_up, by_text, by_view, in_order, lemma_by_down_and_up_ranks, lemma_by_text_ranks,
    lemma_named_from, lemma_put_names_differ, lemma_sorted_in_order, lemma_sorted_members,
    lemma_sorted_names, lemma_sorted_rearranges, lemma_sorted_views, named_at, names_differ, placed,
    position, sort, sorted_by, views, Named,
};
use crate::text::{
    cat2, cat3, cat4, cat5, contains, dec, dec_i64, dec_int, dec_u64, has_part, less, lowercase,
    opt_text, or_empty, same, sorts_before, text_or_nothing, trim, trimmed,
};
pub use manifest::{is_secret_doc, redact_doc, redact_secret_manifests};
use manifest::redacted_manifest;
use vstd::prelude::*;

verus! {

/// The Secret type Helm uses for release storage.
pub const RELEASE_SECRET_TYPE: &'static str = "helm.sh/release.v1";

/// A decoded Helm release.
#[derive(Debug)]
pub struct Release {
    pub name: String,
    pub namespace: String,
    /// Chart name and version, as `helm list` shows it ("traefik-27.0.2").
    pub chart: String,
    pub app_version: String,
    pub revision: i64,
    /// deployed, superseded, failed, pending-install, ...
    pub status: String,
    /// Time of the last deployment, or empty.
    pub updated: String,
    /// e.g. "Install complete".
    pub description: String,
    /// Time of the first deployment, or empty.
    pub first_deployed: String,
    /// The values that the user set.
    pub config: Json,
    /// The rendered manifest, with the values of Secrets redacted.
    pub manifest: String,
}

/// A Secret that may hold a release.
#[derive(Clone, Debug)]
pub struct ReleaseSecret {
    pub secret_type: Option<String>,
    pub namespace: Option<String>,
    /// The `release` value.
    pub release: Option<Vec<u8>>,
}

/// The release document, as far as it is read. What the document leaves out is
/// empty or zero.
#[derive(Debug)]
pub struct ReleaseDoc {
    pub name: String,
    pub namespace: String,
    pub version: i64,
    pub status: String,
    pub first_deployed: String,
    pub last_deployed: String,
    pub description: String,
    pub chart_name: String,
    pub chart_version: String,
    pub app_version: String,
    pub config: Json,
    pub manifest: String,
}

// ---------------------------------------------------------------------------
// Decoding
// ---------------------------------------------------------------------------

/// The text, or a dash where it is empty.
pub open spec fn dash_if_empty(s: Seq<char>) -> Seq<char> {
    if s.len() == 0 {
        DASH@
    } else {
        s
    }
}

/// The text, or a dash where it is empty.
pub fn or_dash(s: String) -> (r: String)
    ensures
        r@ == dash_if_empty(s@),
{
    if s.as_str().is_empty() {
        DASH.to_owned()
    } else {
        s
    }
}

/// The release document that a Secret holds, as text: its value decoded from
/// base64 and unzipped.
pub open spec fn document_of(s: ReleaseSecret) -> Option<Seq<char>> {
    if opt_text(s.secret_type) == Some(RELEASE_SECRET_TYPE@) {
        match s.release {
            Some(raw) => match base64_bytes(raw@) {
                Some(gz) => gunzipped(gz),
                None => None,
            },
            None => None,
        }
    } else {
        None
    }
}

/// The text of the release document in a Secret, or nothing where the Secret
/// holds no release or it cannot be read.
pub fn release_text(s: &ReleaseSecret) -> (r: Option<String>)
    ensures
        opt_text(r) == document_of(*s),
{
    let is_release = match &s.secret_type {
        Some(t) => same(t.as_str(), RELEASE_SECRET_TYPE),
        None => false,
    };
    if !is_release {
        return None;
    }
    match &s.release {
        Some(raw) => match base64_decode(raw.as_slice()) {
            Some(gz) => gunzip_text(gz.as_slice()),
            None => None,
        },
        None => None,
    }
}

/// Chart name and version as `helm list` shows them.
pub open spec fn chart_label(name: Seq<char>, version: Seq<char>) -> Seq<char> {
    if name.len() == 0 {
        DASH@
    } else if version.len() == 0 {
        name
    } else {
        name + "-"@ + version
    }
}

/// The release that a document describes. `secret_namespace` is that of the
/// Secret it was read from, for documents that name none.
pub fn decode_release(doc: ReleaseDoc, secret_namespace: &Option<String>) -> (r: Release)
    ensures
        r.name == doc.name,
        r.namespace@ == (if doc.namespace@.len() == 0 {
            text_or_nothing(*secret_namespace)
        } else {
            doc.namespace@
        }),
        r.chart@ == chart_label(doc.chart_name@, doc.chart_version@),
        r.app_version@ == dash_if_empty(doc.app_version@),
        r.revision == doc.version,
        r.status@ == dash_if_empty(doc.status@),
        r.updated == doc.last_deployed,
        r.first_deployed == doc.first_deployed,
        r.description@ == dash_if_empty(doc.description@),
        r.config == doc.config,
        r.manifest@ == redacted_manifest(doc.manifest@),
{
    let chart = if doc.chart_name.as_str().is_empty() {
        DASH.to_owned()
    } else if doc.chart_version.as_str().is_empty() {
        doc.chart_name
    } else {
        cat3(doc.chart_name.as_str(), "-", doc.chart_version.as_str())
    };
    let namespace = if doc.namespace.as_str().is_empty() {
        or_empty(secret_namespace)
    } else {
        doc.namespace
    };
    Release {
        name: doc.name,
        namespace,
        chart,
        app_version: or_dash(doc.app_version),
        revision: doc.version,
        status: or_dash(doc.status),
        updated: doc.last_deployed,
        description: or_dash(doc.description),
        first_deployed: doc.first_deployed,
        config: doc.config,
        manifest: redact_secret_manifests(doc.manifest.as_str()),
    }
}

// ---------------------------------------------------------------------------
// One revision
// ---------------------------------------------------------------------------

/// The first release, from `from` on, at this revision.
pub open spec fn revision_from(s: Seq<Release>, revision: i64, from: int) -> Option<int>
    decreases s.len() - from,
{
    if from < 0 || from >= s.len() {
        None
    } else if s[from].revision == revision {
        Some(from)
    } else {
        revision_from(s, revision, from + 1)
    }
}

fn find_revision(s: &Vec<Release>, revision: i64) -> (r: Option<usize>)
    ensures
        match r {
            Some(i) => revision_from(s@, revision, 0) == Some(i as int) && i < s@.len(),
            None => revision_from(s@, revision, 0) is None,
        },
{
    let mut i: usize = 0;
    while i < s.len()
        invariant
            i <= s@.len(),
            revision_from(s@, revision, 0) == revision_from(s@, revision, i as int),
        decreases s@.len() - i,
    {
        if s[i].revision == revision {
            return Some(i);
        }
        i += 1;
    }
    None
}

/// What is said where a revision is missing.
pub open spec fn no_revision_text(revision: i64, name: Seq<char>, ns: Seq<char>) -> Seq<char> {
    "revision "@ + dec_int(revision as int) + " of Helm release "@ + name + (" not found in "@ + ns)
}

fn no_revision(revision: i64, name: &str, namespace: &str) -> (r: AppError)
    ensures
        r.is_not_found(no_revision_text(revision, name@, namespace@)),
{
    let n = dec_i64(revision);
    let place = cat2(" not found in ", namespace);
    AppError::NotFound(
        cat5("revision ", n.as_str(), " of Helm release ", name, place.as_str()),
    )
}

/// The rendered manifest of one revision, out of the decoded revisions of the
/// release `name`.
pub fn helm_manifest_revision(
    releases: &Vec<Release>,
    name: &str,
    namespace: &str,
    revision: i64,
) -> (r: AppResult<String>)
    ensures
        match (r, revision_from(releases@, revision, 0)) {
            (Ok(m), Some(i)) => m@ == releases@[i].manifest@ && trimmed(m@).len() > 0,
            (Err(e), Some(i)) => trimmed(releases@[i].manifest@).len() == 0 && e.is_other(
                "revision "@ + dec_int(revision as int) + " of "@ + name@
                    + " has no rendered manifest"@,
            ),
            (Err(e), None) => e.is_not_found(no_revision_text(revision, name@, namespace@)),
            (Ok(_), None) => false,
        },
{
    match find_revision(releases, revision) {
        None => Err(no_revision(revision, name, namespace)),
        Some(i) => {
            let m = releases[i].manifest.as_str();
            if trim(m).is_empty() {
                let n = dec_i64(revision);
                let text = cat5("revision ", n.as_str(), " of ", name, " has no rendered manifest");
                Err(other(text.as_str()))
            } else {
                Ok(m.to_owned())
            }
        },
    }
}

/// The values that the user set at one revision, out of the decoded revisions of
/// the release `name`.
pub fn helm_values_revision(
    releases: Vec<Release>,
    name: &str,
    namespace: &str,
    revision: i64,
) -> (r: AppResult<Json>)
    ensures
        match (r, revision_from(releases@, revision, 0)) {
            (Ok(v), Some(i)) => v == releases@[i].config,
            (Err(e), None) => e.is_not_found(no_revision_text(revision, name@, namespace@)),
            _ => false,
        },
{
    match find_revision(&releases, revision) {
        None => Err(no_revision(revision, name, namespace)),
        Some(i) => {
            let mut all = releases;
            let release = all.remove(i);
            Ok(release.config)
        },
    }
}

/// The tone of a release status.
pub open spec fn tone_of(s: Seq<char>) -> Tone {
    if s == "deployed"@ {
        Tone::Good
    } else if s == "superseded"@ || s == "uninstalled"@ {
        Tone::Muted
    } else if s == "failed"@ {
        Tone::Bad
    } else {
        Tone::Warn
    }
}

/// The tone of a release status: deployed is the healthy resting state,
/// superseded is history, and anything failed or in flight wants attention.
pub fn status_tone(status: &str) -> (r: Tone)
    ensures
        r == tone_of(status@),
{
    if same(status, "deployed") {
        Tone::Good
    } else if same(status, "superseded") || same(status, "uninstalled") {
        Tone::Muted
    } else if same(status, "failed") {
        Tone::Bad
    } else {
        Tone::Warn
    }
}

// ---------------------------------------------------------------------------
// Values
// ---------------------------------------------------------------------------

/// A key, in lower case, names a credential.
pub open spec fn names_credential(lower: Seq<char>) -> bool {
    has_part(lower, "password"@) || has_part(lower, "secret"@) || has_part(lower, "token"@)
        || has_part(lower, "key"@)
}

/// Whether a key, in lower case, names a credential.
pub fn is_sensitive_lower(lower: &str) -> (r: bool)
    ensures
        r == names_credential(lower@),
{
    contains(lower, "password") || contains(lower, "secret") || contains(lower, "token")
        || contains(lower, "key")
}

/// Whether a values key names a credential, whose value must not be shown.
pub fn is_sensitive_key(key: &str) -> (r: bool)
    ensures
        r == names_credential(lowercase(key@)),
{
    let lower = key.to_lowercase();
    is_sensitive_lower(lower.as_str())
}

/// The path of a part of a value.
pub open spec fn path_to(prefix: Seq<char>, part: Seq<char>) -> Seq<char> {
    if prefix.len() == 0 {
        part
    } else {
        prefix + "."@ + part
    }
}

/// The values in `j` by path, in the order of the document. What stands under a
/// key that names a credential is redacted as a whole.
pub open spec fn flat(prefix: Seq<char>, j: Json) -> Seq<(Seq<char>, Seq<char>)>
    decreases j,
{
    match j {
        Json::Object(m) => flat_members(prefix, m@),
        Json::Array(a) => flat_elements(prefix, a@),
        Json::Str(s) => seq![(prefix, s@)],
        Json::Null => seq![(prefix, DASH@)],
        Json::Bool(b) => seq![
            (
                prefix,
                (if b {
                    "true"@
                } else {
                    "false"@
                }),
            ),
        ],
        Json::Number(n) => seq![(prefix, n.text@)],
    }
}

pub open spec fn flat_members(prefix: Seq<char>, s: Seq<(String, Json)>) -> Seq<
    (Seq<char>, Seq<char>),
>
    decreases s,
{
    if s.len() == 0 {
        Seq::empty()
    } else {
        let e = s.last();
        let path = path_to(prefix, e.0@);
        flat_members(prefix, s.drop_last()) + (if names_credential(lowercase(e.0@)) {
            seq![(path, "<redacted>"@)]
        } else {
            flat(path, e.1)
        })
    }
}

pub open spec fn flat_elements(prefix: Seq<char>, s: Seq<Json>) -> Seq<(Seq<char>, Seq<char>)>
    decreases s,
{
    if s.len() == 0 {
        Seq::empty()
    } else {
        let path = path_to(prefix, dec((s.len() - 1) as nat));
        flat_elements(prefix, s.drop_last()) + flat(path, s.last())
    }
}

fn add_pair(out: &mut Vec<(String, String)>, path: &str, text: &str)
    ensures
        pair_texts(final(out)@) == pair_texts(old(out)@) + seq![(path@, text@)],
{
    let ghost before = out@;
    out.push((path.to_owned(), text.to_owned()));
    assert(pair_texts(out@) =~= pair_texts(before) + seq![(path@, text@)]);
}

fn path_under(prefix: &str, part: &str) -> (r: String)
    ensures
        r@ == path_to(prefix@, part@),
{
    if prefix.is_empty() {
        part.to_owned()
    } else {
        cat3(prefix, ".", part)
    }
}

fn flatten_into(prefix: &str, value: &Json, out: &mut Vec<(String, String)>)
    ensures
        pair_texts(final(out)@) == pair_texts(old(out)@) + flat(prefix@, *value),
    decreases *value,
{
    let ghost before = pair_texts(out@);
    match value {
        Json::Object(m) => {
            let mut i: usize = 0;
            assert(pair_texts(out@) =~= before + flat_members(prefix@, m@.take(0)));
            while i < m.len()
                invariant
                    i <= m@.len(),
                    *value == Json::Object(*m),
                    pair_texts(out@) == before + flat_members(prefix@, m@.take(i as int)),
                decreases m@.len() - i,
            {
                assert(m@.take(i + 1).drop_last() =~= m@.take(i as int));
                let key = m[i].0.as_str();
                let path = path_under(prefix, key);
                if is_sensitive_key(key) {
                    add_pair(out, path.as_str(), "<redacted>");
                } else {
                    assert(decreases_to!(*value => value->Object_0));
                    assert(decreases_to!(*m => m@));
                    assert(decreases_to!(m@ => m@[i as int]));
                    assert(decreases_to!(m@[i as int] => m@[i as int].1));
                    flatten_into(path.as_str(), &m[i].1, out);
                }
                i += 1;
                assert(pair_texts(out@) =~= before + flat_members(prefix@, m@.take(i as int)));
            }
            assert(m@.take(i as int) =~= m@);
        },
        Json::Array(a) => {
            let mut i: usize = 0;
            assert(pair_texts(out@) =~= before + flat_elements(prefix@, a@.take(0)));
            while i < a.len()
                invariant
                    i <= a@.len(),
                    *value == Json::Array(*a),
                    pair_texts(out@) == before + flat_elements(prefix@, a@.take(i as int)),
                decreases a@.len() - i,
            {
                assert(a@.take(i + 1).drop_last() =~= a@.take(i as int));
                let n = dec_u64(i as u64);
                let path = path_under(prefix, n.as_str());
                assert(decreases_to!(*value => value->Array_0));
                assert(decreases_to!(*a => a@));
                assert(decreases_to!(a@ => a@[i as int]));
                flatten_into(path.as_str(), &a[i], out);
                i += 1;
                assert(pair_texts(out@) =~= before + flat_elements(prefix@, a@.take(i as int)));
            }
            assert(a@.take(i as int) =~= a@);
        },
        Json::Str(s) => {
            add_pair(out, prefix, s.as_str());
        },
        Json::Null => {
            add_pair(out, prefix, DASH);
        },
        Json::Bool(b) => {
            add_pair(
                out,
                prefix,
                if *b {
                    "true"
                } else {
                    "false"
                },
            );
        },
        Json::Number(n) => {
            add_pair(out, prefix, n.text.as_str());
        },
    }
}

/// Pairs in the order of their paths.
pub open spec fn by_path() -> spec_fn((Seq<char>, Seq<char>), (Seq<char>, Seq<char>)) -> bool {
    |a: (Seq<char>, Seq<char>), b: (Seq<char>, Seq<char>)| sorts_before(a.0, b.0)
}

fn path_less(a: &(String, String), b: &(String, String)) -> (r: bool)
    ensures
        r == by_view(by_path())(*a, *b),
{
    less(a.0.as_str(), b.0.as_str())
}

/// The values of a release as pairs of path and text, sorted by path, with
/// everything under a key that names a credential redacted. Objects and arrays
/// only: anything else has no paths.
pub fn flatten_values(config: &Json) -> (r: Vec<(String, String)>)
    ensures
        pair_texts(r@) == (match *config {
            Json::Object(_) | Json::Array(_) => sorted_by(flat(Seq::empty(), *config), by_path()),
            _ => Seq::empty(),
        }),
{
    let mut out: Vec<(String, String)> = Vec::new();
    assert(pair_texts(out@) =~= Seq::empty());
    let nested = match config {
        Json::Object(_) => true,
        Json::Array(_) => true,
        _ => false,
    };
    if !nested {
        return out;
    }
    flatten_into("", config, &mut out);
    proof {
        reveal_strlit("");
        assert(""@ =~= Seq::<char>::empty());
        assert(pair_texts(out@) =~= flat(Seq::empty(), *config));
        lemma_sorted_views(out@, by_path());
        assert(views(out@) =~= pair_texts(out@));
        let sorted = sorted_by(out@, by_view(by_path()));
        assert(views(sorted) =~= pair_texts(sorted));
    }
    sort(out, path_less, Ghost(by_view(by_path())))
}

// ---------------------------------------------------------------------------
// Rows
// ---------------------------------------------------------------------------

/// The cells of a release: NAME, NAMESPACE, CHART, APP VERSION, REVISION, STATUS,
/// UPDATED.
pub open spec fn release_cells(r: Release) -> Seq<CellView> {
    seq![
        plain(r.name@, Tone::Primary),
        plain(r.namespace@, Tone::Muted),
        plain(r.chart@, Tone::Secondary),
        plain(r.app_version@, Tone::Secondary),
        CellView {
            sort: Some(r.revision),
            ..plain(dec_int(r.revision as int), Tone::Secondary)
        },
        status(r.status@, tone_of(r.status@)),
        age(
            if r.updated@.len() == 0 {
                None
            } else {
                Some(r.updated@)
            },
        ),
    ]
}

/// The row of a release. It is identified by the release, not by the Secret of
/// one revision.
pub fn map_release(r: &Release) -> (row: Row)
    ensures
        row.uid@ == "helm:"@ + r.namespace@ + "/"@ + r.name@,
        row.name@ == r.name@,
        opt_text(row.namespace) == Some(r.namespace@),
        views(row.cells@) == release_cells(*r),
        row.pod is None,
        row.labels is None,
        row.involved is None,
{
    let n = dec_i64(r.revision);
    let updated = r.updated.as_str();
    let mut cells: Vec<Cell> = Vec::new();
    cells.push(Cell::new(r.name.as_str(), Tone::Primary));
    cells.push(Cell::new(r.namespace.as_str(), Tone::Muted));
    cells.push(Cell::new(r.chart.as_str(), Tone::Secondary));
    cells.push(Cell::new(r.app_version.as_str(), Tone::Secondary));
    cells.push(Cell::new(n.as_str(), Tone::Secondary).with_sort(r.revision));
    cells.push(Cell::status(r.status.as_str(), status_tone(r.status.as_str())));
    cells.push(
        Cell::age(
            if updated.is_empty() {
                None
            } else {
                Some(updated)
            },
        ),
    );
    assert(views(cells@) =~= release_cells(*r));
    Row {
        uid: cat4("helm:", r.namespace.as_str(), "/", r.name.as_str()),
        name: r.name.clone(),
        namespace: Some(r.namespace.clone()),
        cells,
        pod: None,
        labels: None,
        involved: None,
    }
}

/// The revision that a row shows.
pub open spec fn row_revision(r: Row) -> int {
    sort_at(r, 4)
}

/// The newest row of each release so far, after one more row.
pub open spec fn with_newer(kept: Seq<Row>, row: Row) -> Seq<Row> {
    match named_at(kept, row.uid@) {
        Some(i) => if row_revision(kept[i]) >= row_revision(row) {
            kept
        } else {
            kept.update(i, row)
        },
        None => kept.push(row),
    }
}

/// The newest row of each release.
pub open spec fn newest(rows: Seq<Row>) -> Seq<Row>
    decreases rows.len(),
{
    if rows.len() == 0 {
        rows
    } else {
        with_newer(newest(rows.drop_last()), rows.last())
    }
}

/// The most recently updated release first; by name where that does not tell.
pub open spec fn by_update() -> spec_fn(Row, Row) -> bool {
    by_down_and_up(|r: Row| text_at(r, 6), |r: Row| r.name@)
}

fn updated_later(a: &Row, b: &Row) -> (r: bool)
    ensures
        r == by_update()(*a, *b),
{
    let x = a.cell_text(6);
    let y = b.cell_text(6);
    less(y.as_str(), x.as_str()) || (same(x.as_str(), y.as_str()) && less(
        a.name.as_str(),
        b.name.as_str(),
    ))
}

/// Keeps only the newest revision of each release, the most recently updated
/// release first.
pub fn latest_only(rows: Vec<Row>) -> (r: Vec<Row>)
    ensures
        r@ == sorted_by(newest(rows@), by_update()),
{
    let ghost all = rows@;
    let mut kept: Vec<Row> = Vec::new();
    assert(all.take(0) =~= Seq::<Row>::empty());
    for row in it: rows
        invariant
            it.seq() == all,
            kept@ == newest(all.take(it.index())),
    {
        assert(all.take(it.index() + 1).drop_last() =~= all.take(it.index()));
        match position(&kept, row.uid.as_str()) {
            Some(i) => {
                if kept[i].sort_key(4) < row.sort_key(4) {
                    kept.set(i, row);
                }
            },
            None => {
                kept.push(row);
            },
        }
    }
    assert(all.take(all.len() as int) =~= all);
    sort(kept, updated_later, Ghost(by_update()))
}

// ---------------------------------------------------------------------------
// Laws
// ---------------------------------------------------------------------------

/// The value under a key that names a credential never shows, whatever it is:
/// exchanging it changes nothing in what is shown.
pub proof fn law_credentials_do_not_show(
    prefix: Seq<char>,
    before: Seq<(String, Json)>,
    key: String,
    one: Json,
    another: Json,
    after: Seq<(String, Json)>,
)
    requires
        names_credential(lowercase(key@)),
    ensures
        flat_members(prefix, before + seq![(key, one)] + after) == flat_members(
            prefix,
            before + seq![(key, another)] + after,
        ),
    decreases after.len(),
{
    let s = before + seq![(key, one)] + after;
    let t = before + seq![(key, another)] + after;
    if after.len() == 0 {
        assert(s.drop_last() =~= before);
        assert(t.drop_last() =~= before);
        assert(s.last() == (key, one));
        assert(t.last() == (key, another));
    } else {
        law_credentials_do_not_show(prefix, before, key, one, another, after.drop_last());
        assert(s.drop_last() =~= before + seq![(key, one)] + after.drop_last());
        assert(t.drop_last() =~= before + seq![(key, another)] + after.drop_last());
        assert(s.last() == after.last());
        assert(t.last() == after.last());
    }
}

proof fn lemma_with_newer(kept: Seq<Row>, row: Row)
    requires
        names_differ(kept),
    ensures
        names_differ(with_newer(kept, row)),
        forall|i: int|
            0 <= i < kept.len() ==> exists|j: int|
                #![trigger with_newer(kept, row)[j]]
                0 <= j < with_newer(kept, row).len() && with_newer(kept, row)[j].uid@
                    == (#[trigger] kept[i]).uid@ && row_revision(with_newer(kept, row)[j])
                    >= row_revision(kept[i]),
        exists|j: int|
            #![trigger with_newer(kept, row)[j]]
            0 <= j < with_newer(kept, row).len() && with_newer(kept, row)[j].uid@ == row.uid@
                && row_revision(with_newer(kept, row)[j]) >= row_revision(row),
{
    let t = with_newer(kept, row);
    lemma_named_from(kept, row.uid@, 0);
    lemma_put_names_differ(kept, row);
    assert forall|i: int| 0 <= i < kept.len() implies exists|j: int|
        #![trigger t[j]]
        0 <= j < t.len() && t[j].uid@ == (#[trigger] kept[i]).uid@ && row_revision(t[j])
            >= row_revision(kept[i]) by {
        assert(t[i].uid@ == kept[i].uid@);
    }
    match named_at(kept, row.uid@) {
        Some(i) => {
            assert(t[i].uid@ == row.uid@);
        },
        None => {
            assert(t[kept.len() as int] == row);
        },
    }
}

/// One row per release, at its newest revision: no two rows kept are of the same
/// release, and for every row there was one of its release is kept that is at
/// least as new.
pub proof fn law_one_row_per_release(rows: Seq<Row>)
    ensures
        names_differ(newest(rows)),
        forall|i: int|
            0 <= i < rows.len() ==> exists|j: int|
                #![trigger newest(rows)[j]]
                0 <= j < newest(rows).len() && newest(rows)[j].uid@ == (#[trigger] rows[i]).uid@
                    && row_revision(newest(rows)[j]) >= row_revision(rows[i]),
    decreases rows.len(),
{
    if rows.len() > 0 {
        let front = rows.drop_last();
        let kept = newest(front);
        law_one_row_per_release(front);
        lemma_with_newer(kept, rows.last());
        assert forall|i: int| 0 <= i < rows.len() implies exists|j: int|
            #![trigger newest(rows)[j]]
            0 <= j < newest(rows).len() && newest(rows)[j].uid@ == (#[trigger] rows[i]).uid@
                && row_revision(newest(rows)[j]) >= row_revision(rows[i]) by {
            if i < front.len() {
                assert(front[i] == rows[i]);
                let k = choose|k: int|
                    #![trigger kept[k]]
                    0 <= k < kept.len() && kept[k].uid@ == rows[i].uid@ && row_revision(kept[k])
                        >= row_revision(rows[i]);
                let j = choose|j: int|
                    #![trigger newest(rows)[j]]
                    0 <= j < newest(rows).len() && newest(rows)[j].uid@ == kept[k].uid@
                        && row_revision(newest(rows)[j]) >= row_revision(kept[k]);
                assert(newest(rows)[j].uid@ == rows[i].uid@);
            }
        }
    }
}

/// The rows kept come out newest update first, and the sort loses none of them.
pub proof fn law_newest_update_first(rows: Seq<Row>)
    ensures
        in_order(sorted_by(newest(rows), by_update()), by_update()),
        sorted_by(newest(rows), by_update()).to_multiset() =~= newest(rows).to_multiset(),
{
    lemma_by_down_and_up_ranks(|r: Row| text_at(r, 6), |r: Row| r.name@);
    lemma_sorted_in_order(newest(rows), by_update());
    lemma_sorted_rearranges(newest(rows), by_update());
}

/// A key names a credential as soon as it holds one of four words, in letters of either
/// case, and no other key does.
pub proof fn law_credential_words(key: &str, r: bool)
    requires
        call_ensures(is_sensitive_key, (key,), r),
    ensures
        r <==> has_part(lowercase(key@), "password"@) || has_part(lowercase(key@), "secret"@)
            || has_part(lowercase(key@), "token"@) || has_part(lowercase(key@), "key"@),
{
}

/// The text that a value shows as, where it holds no others.
spec fn leaf_text(j: Json) -> Option<Seq<char>> {
    match j {
        Json::Object(_) => None,
        Json::Array(_) => None,
        Json::Str(s) => Some(s@),
        Json::Null => Some("—"@),
        Json::Bool(b) => Some(
            if b {
                "true"@
            } else {
                "false"@
            },
        ),
        Json::Number(n) => Some(n.text@),
    }
}

/// A single value shows as the one pair of its key and its own text: a string as it is, a
/// boolean as `true` or `false`, a number as it is written, and null as a dash.
pub proof fn law_a_value_shows_its_text(key: String, value: Json, m: Vec<(String, Json)>, r: Vec<
    (String, String),
>)
    requires
        m@ == seq![(key, value)],
        call_ensures(flatten_values, (&Json::Object(m),), r),
        !has_part(lowercase(key@), "password"@),
        !has_part(lowercase(key@), "secret"@),
        !has_part(lowercase(key@), "token"@),
        !has_part(lowercase(key@), "key"@),
    ensures
        match value {
            Json::Bool(b) => r@.len() == 1 && r@[0].0@ == key@ && r@[0].1@ == (if b {
                "true"@
            } else {
                "false"@
            }),
            Json::Str(s) => r@.len() == 1 && r@[0].0@ == key@ && r@[0].1@ == s@,
            Json::Number(n) => r@.len() == 1 && r@[0].0@ == key@ && r@[0].1@ == n.text@,
            Json::Null => r@.len() == 1 && r@[0].0@ == key@ && r@[0].1@ == "—"@,
            Json::Object(o) => o@.len() == 0 ==> r@.len() == 0,
            Json::Array(a) => a@.len() == 0 ==> r@.len() == 0,
        },
{
    let all = flat(Seq::empty(), Json::Object(m));
    lemma_one_member(Seq::empty(), key, value);
    assert(all == flat(key@, value));
    assert(pair_texts(r@).len() == r@.len());
    lemma_sorted_rearranges(all, by_path());
    if leaf_text(value) is Some {
        assert(all =~= seq![(key@, leaf_text(value)->0)]);
        lemma_sorted_one(all, by_path());
        assert(pair_texts(r@)[0] == (r@[0].0@, r@[0].1@));
    }
}

proof fn lemma_sorted_one<T>(s: Seq<T>, before: spec_fn(T, T) -> bool)
    requires
        s.len() == 1,
    ensures
        sorted_by(s, before) == s,
{
    reveal_with_fuel(sorted_by, 2);
    assert(s.drop_last() =~= Seq::empty());
    assert(sorted_by(s, before) == placed(Seq::empty(), s[0], before));
    assert(sorted_by(s, before) =~= s);
}

proof fn lemma_one_member(prefix: Seq<char>, key: String, value: Json)
    ensures
        flat_members(prefix, seq![(key, value)]) == (if names_credential(lowercase(key@)) {
            seq![(path_to(prefix, key@), "<redacted>"@)]
        } else {
            flat(path_to(prefix, key@), value)
        }),
{
    let s = seq![(key, value)];
    assert(s.drop_last() =~= Seq::empty());
    assert(flat_members(prefix, s.drop_last()) =~= Seq::empty());
    assert(s.last() == (key, value));
    assert(flat_members(prefix, s) =~= (if names_credential(lowercase(key@)) {
        seq![(path_to(prefix, key@), "<redacted>"@)]
    } else {
        flat(path_to(prefix, key@), value)
    }));
}

/// A key that names a credential shows with nothing of its value.
pub proof fn law_a_credential_shows_redacted(
    key: String,
    value: Json,
    m: Vec<(String, Json)>,
    r: Vec<(String, String)>,
)
    requires
        m@ == seq![(key, value)],
        call_ensures(flatten_values, (&Json::Object(m),), r),
        has_part(lowercase(key@), "password"@) || has_part(lowercase(key@), "secret"@) || has_part(
            lowercase(key@),
            "token"@,
        ) || has_part(lowercase(key@), "key"@),
    ensures
        r@.len() == 1,
        r@[0].0@ == key@,
        r@[0].1@ == "<redacted>"@,
{
    let all = flat(Seq::empty(), Json::Object(m));
    lemma_one_member(Seq::empty(), key, value);
    assert(pair_texts(r@).len() == r@.len());
    lemma_sorted_one(all, by_path());
    assert(pair_texts(r@)[0] == (r@[0].0@, r@[0].1@));
}

proof fn lemma_members_concat(prefix: Seq<char>, a: Seq<(String, Json)>, b: Seq<(String, Json)>)
    ensures
        flat_members(prefix, a + b) == flat_members(prefix, a) + flat_members(prefix, b),
    decreases b.len(),
{
    if b.len() == 0 {
        assert(a + b =~= a);
        assert(flat_members(prefix, a) + flat_members(prefix, b) =~= flat_members(prefix, a));
    } else {
        lemma_members_concat(prefix, a, b.drop_last());
        assert((a + b).drop_last() =~= a + b.drop_last());
        assert((a + b).last() == b.last());
        assert(flat_members(prefix, a + b) =~= flat_members(prefix, a) + flat_members(prefix, b));
    }
}

/// The values of an object are those of its members, all of them and nothing else: those
/// of two objects put together are those of the one and those of the other.
pub proof fn law_values_of_members_add_up(
    a: Vec<(String, Json)>,
    b: Vec<(String, Json)>,
    both: Vec<(String, Json)>,
    of_a: Vec<(String, String)>,
    of_b: Vec<(String, String)>,
    r: Vec<(String, String)>,
)
    requires
        both@ == a@ + b@,
        call_ensures(flatten_values, (&Json::Object(a),), of_a),
        call_ensures(flatten_values, (&Json::Object(b),), of_b),
        call_ensures(flatten_values, (&Json::Object(both),), r),
    ensures
        pair_texts(r@).to_multiset() == pair_texts(of_a@).to_multiset().add(
            pair_texts(of_b@).to_multiset(),
        ),
{
    let x = flat(Seq::empty(), Json::Object(a));
    let y = flat(Seq::empty(), Json::Object(b));
    lemma_members_concat(Seq::empty(), a@, b@);
    lemma_sorted_rearranges(x, by_path());
    lemma_sorted_rearranges(y, by_path());
    lemma_sorted_rearranges(x + y, by_path());
    vstd::seq_lib::lemma_multiset_commutative(x, y);
}

/// The values come out in the order of their paths.
pub proof fn law_values_are_in_the_order_of_their_paths(config: Json, r: Vec<(String, String)>)
    requires
        call_ensures(flatten_values, (&config,), r),
    ensures
        forall|i: int, j: int|
            #![trigger r@[i], r@[j]]
            0 <= i < j < r@.len() ==> !sorts_before(r@[j].0@, r@[i].0@),
{
    let all = flat(Seq::empty(), config);
    let t = pair_texts(r@);
    assert(t.len() == r@.len());
    lemma_by_text_ranks(|p: (Seq<char>, Seq<char>)| p.0);
    assert(by_path() =~= by_text(|p: (Seq<char>, Seq<char>)| p.0));
    lemma_sorted_in_order(all, by_path());
    assert forall|i: int, j: int| #![trigger r@[i], r@[j]] 0 <= i < j < r@.len() implies !sorts_before(
        r@[j].0@,
        r@[i].0@,
    ) by {
        assert(t[i] == (r@[i].0@, r@[i].1@));
        assert(t[j] == (r@[j].0@, r@[j].1@));
    }
}

proof fn lemma_under(p: Seq<char>, q: Seq<char>, j: Json)
    requires
        q.len() > 0,
    ensures
        flat(p + "."@ + q, j).len() == flat(q, j).len(),
        forall|i: int|
            0 <= i < flat(q, j).len() ==> #[trigger] flat(p + "."@ + q, j)[i] == (
                p + "."@ + flat(q, j)[i].0,
                flat(q, j)[i].1,
            ),
    decreases j, 0nat,
{
    match j {
        Json::Object(m) => {
            assert(decreases_to!(j => j->Object_0));
            assert(decreases_to!(m => m@));
            lemma_members_under(p, q, m@);
        },
        Json::Array(a) => {
            assert(decreases_to!(j => j->Array_0));
            assert(decreases_to!(a => a@));
            lemma_elements_under(p, q, a@);
        },
        _ => {},
    }
}

proof fn lemma_members_under(p: Seq<char>, q: Seq<char>, s: Seq<(String, Json)>)
    requires
        q.len() > 0,
    ensures
        flat_members(p + "."@ + q, s).len() == flat_members(q, s).len(),
        forall|i: int|
            0 <= i < flat_members(q, s).len() ==> #[trigger] flat_members(p + "."@ + q, s)[i] == (
                p + "."@ + flat_members(q, s)[i].0,
                flat_members(q, s)[i].1,
            ),
    decreases s, 1nat,
{
    if s.len() > 0 {
        let front = s.drop_last();
        let e = s.last();
        assert(decreases_to!(s => s.subrange(0, s.len() - 1)));
        assert(front =~= s.subrange(0, s.len() - 1));
        lemma_members_under(p, q, front);
        let path = path_to(q, e.0@);
        assert(path_to(p + "."@ + q, e.0@) =~= p + "."@ + path);
        if !names_credential(lowercase(e.0@)) {
            assert(decreases_to!(s => s[s.len() - 1]));
            assert(decreases_to!(s[s.len() - 1] => s[s.len() - 1].1));
            lemma_under(p, path, e.1);
        }
    }
}

proof fn lemma_elements_under(p: Seq<char>, q: Seq<char>, s: Seq<Json>)
    requires
        q.len() > 0,
    ensures
        flat_elements(p + "."@ + q, s).len() == flat_elements(q, s).len(),
        forall|i: int|
            0 <= i < flat_elements(q, s).len() ==> #[trigger] flat_elements(p + "."@ + q, s)[i] == (
                p + "."@ + flat_elements(q, s)[i].0,
                flat_elements(q, s)[i].1,
            ),
    decreases s, 1nat,
{
    if s.len() > 0 {
        let front = s.drop_last();
        assert(decreases_to!(s => s.subrange(0, s.len() - 1)));
        assert(front =~= s.subrange(0, s.len() - 1));
        lemma_elements_under(p, q, front);
        let part = dec((s.len() - 1) as nat);
        let path = path_to(q, part);
        assert(path_to(p + "."@ + q, part) =~= p + "."@ + path);
        assert(decreases_to!(s => s[s.len() - 1]));
        lemma_under(p, path, s.last());
    }
}

proof fn lemma_members_of_nothing(p: Seq<char>, s: Seq<(String, Json)>)
    requires
        p.len() > 0,
        forall|i: int| 0 <= i < s.len() ==> (#[trigger] s[i]).0@.len() > 0,
    ensures
        flat_members(p, s).len() == flat_members(Seq::empty(), s).len(),
        forall|i: int|
            0 <= i < flat_members(p, s).len() ==> #[trigger] flat_members(p, s)[i] == (
                p + "."@ + flat_members(Seq::empty(), s)[i].0,
                flat_members(Seq::empty(), s)[i].1,
            ),
    decreases s.len(),
{
    if s.len() > 0 {
        let front = s.drop_last();
        assert forall|i: int| 0 <= i < front.len() implies (#[trigger] front[i]).0@.len() > 0 by {
            assert(front[i] == s[i]);
        }
        lemma_members_of_nothing(p, front);
        let e = s.last();
        assert(s[s.len() - 1].0@.len() > 0);
        if !names_credential(lowercase(e.0@)) {
            lemma_under(p, e.0@, e.1);
        }
    }
}

proof fn lemma_elements_of_nothing(p: Seq<char>, s: Seq<Json>)
    requires
        p.len() > 0,
    ensures
        flat_elements(p, s).len() == flat_elements(Seq::empty(), s).len(),
        forall|i: int|
            0 <= i < flat_elements(p, s).len() ==> #[trigger] flat_elements(p, s)[i] == (
                p + "."@ + flat_elements(Seq::empty(), s)[i].0,
                flat_elements(Seq::empty(), s)[i].1,
            ),
    decreases s.len(),
{
    if s.len() > 0 {
        lemma_elements_of_nothing(p, s.drop_last());
        let part = dec((s.len() - 1) as nat);
        assert(part.len() > 0);
        lemma_under(p, part, s.last());
    }
}

/// What stands under a key shows under that key: each value of the object or list there,
/// with the key and a dot before its path. Keys of no letters are left aside: they have no
/// path of their own.
pub proof fn law_nested_values_show_under_their_key(
    key: String,
    value: Json,
    m: Vec<(String, Json)>,
    inner: Vec<(String, String)>,
    r: Vec<(String, String)>,
)
    requires
        m@ == seq![(key, value)],
        call_ensures(flatten_values, (&value,), inner),
        call_ensures(flatten_values, (&Json::Object(m),), r),
        key@.len() > 0,
        !has_part(lowercase(key@), "password"@),
        !has_part(lowercase(key@), "secret"@),
        !has_part(lowercase(key@), "token"@),
        !has_part(lowercase(key@), "key"@),
        match value {
            Json::Object(o) => forall|i: int| 0 <= i < o@.len() ==> (#[trigger] o@[i]).0@.len() > 0,
            Json::Array(_) => true,
            _ => false,
        },
    ensures
        r@.len() == inner@.len(),
        forall|i: int|
            0 <= i < inner@.len() ==> pair_texts(r@).contains(
                (key@ + "."@ + (#[trigger] inner@[i]).0@, inner@[i].1@),
            ),
{
    lemma_one_member(Seq::empty(), key, value);
    let whole = flat(key@, value);
    let part = flat(Seq::empty(), value);
    match value {
        Json::Object(o) => lemma_members_of_nothing(key@, o@),
        Json::Array(a) => lemma_elements_of_nothing(key@, a@),
        _ => {},
    }
    lemma_sorted_members(whole, by_path());
    lemma_sorted_members(part, by_path());
    assert(pair_texts(r@).len() == r@.len());
    assert(pair_texts(inner@).len() == inner@.len());
    assert forall|i: int| 0 <= i < inner@.len() implies pair_texts(r@).contains(
        (key@ + "."@ + (#[trigger] inner@[i]).0@, inner@[i].1@),
    ) by {
        let pair = (inner@[i].0@, inner@[i].1@);
        assert(pair_texts(inner@)[i] == pair);
        assert(pair_texts(inner@).contains(pair));
        let k = choose|k: int| 0 <= k < part.len() && part[k] == pair;
        assert(whole[k] == (key@ + "."@ + pair.0, pair.1));
        assert(whole.contains((key@ + "."@ + pair.0, pair.1)));
    }
}

/// The elements of a list show under their positions, counted from zero.
pub proof fn law_elements_show_under_their_positions(a: Vec<Json>, r: Vec<(String, String)>, i: int)
    requires
        call_ensures(flatten_values, (&Json::Array(a),), r),
        0 <= i < a@.len(),
    ensures
        match a@[i] {
            Json::Bool(b) => pair_texts(r@).contains(
                (
                    dec(i as nat),
                    if b {
                        "true"@
                    } else {
                        "false"@
                    },
                ),
            ),
            Json::Str(s) => pair_texts(r@).contains((dec(i as nat), s@)),
            Json::Number(n) => pair_texts(r@).contains((dec(i as nat), n.text@)),
            Json::Null => pair_texts(r@).contains((dec(i as nat), "—"@)),
            _ => true,
        },
{
    let all = flat(Seq::empty(), Json::Array(a));
    lemma_sorted_members(all, by_path());
    if leaf_text(a@[i]) is Some {
        lemma_element_leaf(a@, i);
    }
}

proof fn lemma_element_leaf(s: Seq<Json>, i: int)
    requires
        0 <= i < s.len(),
        leaf_text(s[i]) is Some,
    ensures
        flat_elements(Seq::empty(), s).contains((dec(i as nat), leaf_text(s[i])->0)),
    decreases s.len(),
{
    broadcast use vstd::seq_lib::lemma_seq_concat_contains_all_elements;

    let part = dec((s.len() - 1) as nat);
    if i == s.len() - 1 {
        let last = flat(part, s.last());
        assert(last[0] == (part, leaf_text(s[i])->0));
        assert(last.contains((part, leaf_text(s[i])->0)));
    } else {
        assert(s.drop_last()[i] == s[i]);
        lemma_element_leaf(s.drop_last(), i);
    }
}

/// The row of a release shows what the release is, each thing in its column.
pub proof fn law_release_row_shows_the_release(r: Release, row: Row)
    requires
        call_ensures(map_release, (&r,), row),
    ensures
        row.name@ == r.name@,
        opt_text(row.namespace) == Some(r.namespace@),
        row.uid@ == "helm:"@ + r.namespace@ + "/"@ + r.name@,
        row.cells@.len() == 7,
        row.cells@[0].text@ == r.name@,
        row.cells@[1].text@ == r.namespace@,
        row.cells@[2].text@ == r.chart@,
        row.cells@[3].text@ == r.app_version@,
        row.cells@[4].text@ == dec_int(r.revision as int),
        row.cells@[4].sort == Some(r.revision),
        row.cells@[5].text@ == r.status@,
        row.cells@[5].dot,
        row.cells@[6].text@ == r.updated@,
        row.cells@[6].format matches Some(f) && f@ == "age"@,
        r.status@ == "deployed"@ ==> row.cells@[5].tone == Tone::Good,
        r.status@ == "failed"@ ==> row.cells@[5].tone == Tone::Bad,
        r.status@ == "superseded"@ || r.status@ == "uninstalled"@ ==> row.cells@[5].tone
            == Tone::Muted,
        r.status@ != "deployed"@ && r.status@ != "failed"@ && r.status@ != "superseded"@ && r.status@
            != "uninstalled"@ ==> row.cells@[5].tone == Tone::Warn,
{
    reveal_strlit("deployed");
    reveal_strlit("failed");
    reveal_strlit("superseded");
    reveal_strlit("uninstalled");
    assert("deployed"@.len() == 8 && "failed"@.len() == 6 && "superseded"@.len() == 10
        && "uninstalled"@.len() == 11);
    let v = views(row.cells@);
    assert(v.len() == row.cells@.len());
    assert forall|i: int| 0 <= i < v.len() implies v[i] == (#[trigger] row.cells@[i])@ by {}
    assert(v[0] == row.cells@[0]@);
    assert(v[1] == row.cells@[1]@);
    assert(v[2] == row.cells@[2]@);
    assert(v[3] == row.cells@[3]@);
    assert(v[4] == row.cells@[4]@);
    assert(v[5] == row.cells@[5]@);
    assert(v[6] == row.cells@[6]@);
    if r.updated@.len() == 0 {
        assert(r.updated@ =~= Seq::empty());
    }
}

proof fn lemma_newest_members(rows: Seq<Row>)
    ensures
        forall|j: int|
            0 <= j < newest(rows).len() ==> rows.contains(#[trigger] newest(rows)[j]),
    decreases rows.len(),
{
    if rows.len() > 0 {
        let front = rows.drop_last();
        lemma_newest_members(front);
        let kept = newest(front);
        lemma_named_from(kept, rows.last().uid@, 0);
        assert forall|j: int| 0 <= j < newest(rows).len() implies rows.contains(
            #[trigger] newest(rows)[j],
        ) by {
            assert(rows[rows.len() - 1] == rows.last());
            if newest(rows)[j] != rows.last() {
                assert(newest(rows)[j] == kept[j]);
                let k = choose|k: int| 0 <= k < front.len() && front[k] == kept[j];
                assert(rows[k] == kept[j]);
            }
        }
    }
}

/// Of each release one row is shown, at the highest revision there is: every row shown was
/// there, no two are of one release, and each that was there has one of its release shown
/// whose revision is not lower.
pub proof fn law_highest_revision_is_shown(rows: Vec<Row>, r: Vec<Row>, i: int)
    requires
        call_ensures(latest_only, (rows,), r),
        0 <= i < rows@.len(),
        forall|k: int|
            0 <= k < rows@.len() ==> (#[trigger] rows@[k]).cells@.len() == 7
                && rows@[k].cells@[4].sort is Some,
    ensures
        exists|j: int|
            #![trigger r@[j]]
            0 <= j < r@.len() && r@[j].uid@ == rows@[i].uid@ && rows@.contains(r@[j])
                && r@[j].cells@[4].sort->0 >= rows@[i].cells@[4].sort->0,
        forall|j: int| 0 <= j < r@.len() ==> rows@.contains(#[trigger] r@[j]),
        forall|j: int, k: int|
            #![trigger r@[j], r@[k]]
            0 <= j < k < r@.len() ==> r@[j].uid@ != r@[k].uid@,
{
    let kept = newest(rows@);
    law_one_row_per_release(rows@);
    lemma_newest_members(rows@);
    lemma_sorted_members(kept, by_update());
    lemma_sorted_names(kept, by_update());
    assert(rows@[i].uid@ == rows@[i].uid@);
    let k = choose|k: int|
        #![trigger kept[k]]
        0 <= k < kept.len() && kept[k].uid@ == rows@[i].uid@ && row_revision(kept[k])
            >= row_revision(rows@[i]);
    assert(kept.contains(kept[k]));
    assert(r@.contains(kept[k]));
    let j = choose|j: int| 0 <= j < r@.len() && r@[j] == kept[k];
    assert(rows@.contains(kept[k]));
    let x = choose|x: int| 0 <= x < rows@.len() && rows@[x] == kept[k];
    assert(rows@[x].cells@[4].sort is Some);
    assert(r@[j].uid@ == rows@[i].uid@);
    assert forall|j: int, k: int|
        #![trigger r@[j], r@[k]]
        0 <= j < k < r@.len() implies r@[j].uid@ != r@[k].uid@ by {
        assert(r@[j].key() != r@[k].key());
    }
}

/// The releases are shown by when they were last updated, the latest first, and by name
/// where that is the same.
pub proof fn law_latest_update_is_shown_first(rows: Vec<Row>, r: Vec<Row>, i: int, j: int)
    requires
        call_ensures(latest_only, (rows,), r),
        0 <= i < j < r@.len(),
        r@[i].cells@.len() == 7,
        r@[j].cells@.len() == 7,
    ensures
        !sorts_before(r@[i].cells@[6].text@, r@[j].cells@[6].text@),
        r@[i].cells@[6].text@ == r@[j].cells@[6].text@ ==> !sorts_before(r@[j].name@, r@[i].name@),
{
    law_newest_update_first(rows@);
    assert(!by_update()(r@[j], r@[i]));
}

/// The manifest of a revision is that of a release at this very revision, and the values
/// are too; where there is no release at it, neither is given.
pub proof fn law_a_revision_is_that_revision(
    releases: Vec<Release>,
    name: &str,
    namespace: &str,
    revision: i64,
    manifest: AppResult<String>,
    values: AppResult<Json>,
)
    requires
        call_ensures(helm_manifest_revision, (&releases, name, namespace, revision), manifest),
        call_ensures(helm_values_revision, (releases, name, namespace, revision), values),
    ensures
        manifest matches Ok(m) ==> exists|i: int|
            #![trigger releases@[i]]
            0 <= i < releases@.len() && releases@[i].revision == revision && releases@[i].manifest@
                == m@,
        values matches Ok(v) ==> exists|i: int|
            #![trigger releases@[i]]
            0 <= i < releases@.len() && releases@[i].revision == revision && releases@[i].config
                == v,
        values is Err <==> (forall|i: int|
            0 <= i < releases@.len() ==> (#[trigger] releases@[i]).revision != revision),
        values matches Err(e) ==> e.is_not_found(
            "revision "@ + dec_int(revision as int) + " of Helm release "@ + name@ + (
            " not found in "@ + namespace@),
        ),
        values is Err ==> manifest is Err,
        (forall|i: int|
            0 <= i < releases@.len() && (#[trigger] releases@[i]).revision == revision ==> trimmed(
                releases@[i].manifest@,
            ).len() > 0) && values is Ok ==> manifest is Ok,
{
    lemma_revision_from(releases@, revision, 0);
}

proof fn lemma_revision_from(s: Seq<Release>, revision: i64, from: int)
    requires
        0 <= from,
    ensures
        match revision_from(s, revision, from) {
            Some(i) => from <= i < s.len() && s[i].revision == revision,
            None => forall|i: int| from <= i < s.len() ==> (#[trigger] s[i]).revision != revision,
        },
    decreases s.len() - from,
{
    if from < s.len() && s[from].revision != revision {
        lemma_revision_from(s, revision, from + 1);
    }
}

/// What a document says of a release is what the release is: the chart with its version,
/// and a dash for what it does not say.
pub proof fn law_release_is_what_its_document_says(
    doc: ReleaseDoc,
    namespace: Option<String>,
    r: Release,
)
    requires
        call_ensures(decode_release, (doc, &namespace), r),
    ensures
        doc.chart_name@.len() > 0 && doc.chart_version@.len() > 0 ==> r.chart@ == doc.chart_name@
            + "-"@ + doc.chart_version@,
        doc.chart_name@.len() > 0 && doc.chart_version@.len() == 0 ==> r.chart@ == doc.chart_name@,
        doc.chart_name@.len() == 0 ==> r.chart@ == "—"@,
        r.status@ == doc.status@ || (doc.status@.len() == 0 && r.status@ == "—"@),
        r.app_version@ == doc.app_version@ || (doc.app_version@.len() == 0 && r.app_version@
            == "—"@),
        r.description@ == doc.description@ || (doc.description@.len() == 0 && r.description@
            == "—"@),
        doc.namespace@.len() > 0 ==> r.namespace@ == doc.namespace@,
        doc.namespace@.len() == 0 ==> (namespace matches Some(n) ==> r.namespace@ == n@),
{
}

/// A release is read from a Secret of Helm's type alone, and from its value alone.
pub proof fn law_release_is_read_from_its_secret(s: ReleaseSecret, r: Option<String>)
    requires
        call_ensures(release_text, (&s,), r),
    ensures
        r matches Some(t) ==> {
            &&& s.secret_type matches Some(k) && k@ == "helm.sh/release.v1"@
            &&& s.release matches Some(raw) && base64_bytes(raw@) matches Some(gz) && gunzipped(gz)
                == Some(t@)
        },
        (s.secret_type matches Some(k) && k@ == "helm.sh/release.v1"@) && (
        s.release matches Some(raw) && base64_bytes(raw@) matches Some(gz) && gunzipped(gz) is Some)
            ==> r is Some,
{
}

/// A deployed release reads as good, a failed one as bad, one that is history as muted, and one
/// on its way as a warning; what is not said shows as a dash.
pub proof fn law_tone_of_a_release(status: &str, text: String, r: Tone, shown: String)
    requires
        call_ensures(status_tone, (status,), r),
        call_ensures(or_dash, (text,), shown),
    ensures
        status@ == "deployed"@ <==> r == Tone::Good,
        status@ == "failed"@ <==> r == Tone::Bad,
        status@ == "superseded"@ || status@ == "uninstalled"@ <==> r == Tone::Muted,
        r == Tone::Good || r == Tone::Bad || r == Tone::Muted || r == Tone::Warn,
        text@.len() > 0 ==> shown@ == text@,
        text@.len() == 0 ==> shown@ == "—"@,
{
    reveal_strlit("deployed");
    reveal_strlit("failed");
    reveal_strlit("superseded");
    reveal_strlit("uninstalled");
    assert("deployed"@.len() == 8 && "failed"@.len() == 6 && "superseded"@.len() == 10
        && "uninstalled"@.len() == 11);
}

} // verus!
