//! The library of local charts: packages (`.tgz`, `.tar.gz`) and unpacked chart
//! directories below one root.
//!
//! Files are read and written elsewhere. This module says what they are, what may
//! be done with them, and what a package holds.
use crate::argv::{push_three, push_two};
use crate::error::{other, AppError, AppResult};
use crate::lists::{
    by_text, by_text_down, by_view, in_order, lemma_by_text_ranks, lemma_named_from,
    lemma_sorted_in_order, lemma_sorted_members, lemma_sorted_rearranges, lemma_sorted_views,
    named_at, position, sort, sorted_by, views, Named,
};
use crate::paths::{
    at_root, file_name, file_stem, goes_up, has_parent_dir, has_two_steps, is_directly_in,
    is_within, join_path, joined_path, lemma_parent, name_of, parent_of, stem_of, steps, within,
};
use crate::tarball::{
    byte_chars, chars_of_bytes, entry_view, entry_views, read_entries, read_entry, tgz_entries,
    tgz_text, utf8_text, Member, MemberView,
};
use crate::text::{
    cat2, cat3, cat4, char_from, dec, dec_u64, ends_with, has_suffix, last_char, lemma_char_from,
    lemma_last_piece, less, no_texts, or_empty, pieces, same, sorts_before, split_once,
    starts_with, strip_suffix, texts,
};
use crate::time::{rfc3339, rfc3339_text};
use vstd::prelude::*;
use vstd::utf8::{decode_utf8, valid_utf8};

verus! {

/// How a chart sits in the library.
#[derive(Clone, Copy, Debug, PartialEq, Eq, Structural)]
pub enum LocalChartKind {
    /// A package that `helm package` made.
    Tgz,
    /// An unpacked chart directory.
    Dir,
}

/// One chart in the library.
#[derive(Clone, Debug)]
pub struct LocalChartEntry {
    /// The name of the package without its extension, or of the directory.
    pub id: String,
    pub kind: LocalChartKind,
    pub name: String,
    pub version: String,
    pub app_version: String,
    pub description: String,
    pub icon: String,
    pub path: String,
    pub size_bytes: u64,
    /// When it was last written, in RFC 3339. Charts are listed by this.
    pub modified_at: String,
}

impl Named for LocalChartEntry {
    open spec fn key(&self) -> Seq<char> {
        self.id@
    }

    fn key_str(&self) -> (r: &str) {
        self.id.as_str()
    }
}

/// What is read of a `Chart.yaml`. What it leaves out is empty.
#[derive(Debug)]
pub struct ChartYaml {
    pub name: String,
    pub version: String,
    pub app_version: String,
    pub description: String,
    pub icon: String,
}

/// An entry of the library, from the chart's metadata and what the file system
/// says of it. `modified_secs` is a Unix time.
pub fn entry_from_meta(
    kind: LocalChartKind,
    meta: ChartYaml,
    path: String,
    size_bytes: u64,
    modified_secs: i64,
    id: String,
) -> (r: LocalChartEntry)
    ensures
        r.id == id,
        r.kind == kind,
        r.name == meta.name,
        r.version == meta.version,
        r.app_version == meta.app_version,
        r.description == meta.description,
        r.icon == meta.icon,
        r.path == path,
        r.size_bytes == size_bytes,
        r.modified_at@ == (match rfc3339_text(modified_secs) {
            Some(t) => t,
            None => Seq::empty(),
        }),
{
    let time = rfc3339(modified_secs);
    let modified_at = or_empty(&time);
    LocalChartEntry {
        id,
        kind,
        name: meta.name,
        version: meta.version,
        app_version: meta.app_version,
        description: meta.description,
        icon: meta.icon,
        path,
        size_bytes,
        modified_at,
    }
}

// ---------------------------------------------------------------------------
// Files of the library
// ---------------------------------------------------------------------------

/// The root of the library, in the data directory.
pub fn charts_dir(data_dir: &str) -> (r: String)
    ensures
        r@ == joined_path(data_dir@, "charts"@),
{
    join_path(data_dir, "charts")
}

/// A file name is that of a package, in either of its two spellings.
pub open spec fn is_package_name(name: Seq<char>) -> bool {
    (has_suffix(name, ".tgz"@) && name.len() > 4) || has_suffix(name, ".tar.gz"@)
}

/// Whether a file of the library is a package.
pub fn is_archive_name(name: &str) -> (r: bool)
    ensures
        r == is_package_name(name@),
{
    let n = name.unicode_len();
    (ends_with(name, ".tgz") && n > 4) || ends_with(name, ".tar.gz")
}

/// The id of the package in the file called `name`.
pub open spec fn package_id(name: Seq<char>) -> Seq<char> {
    if has_suffix(name, ".tar.gz"@) {
        name.take(name.len() - ".tar.gz"@.len())
    } else {
        stem_of(name)
    }
}

/// The id of the package in the file called `name`: its name without the
/// extension, whichever of the two it is.
pub fn archive_id(name: &str) -> (r: String)
    ensures
        r@ == package_id(name@),
{
    match strip_suffix(name, ".tar.gz") {
        Some(id) => id.to_owned(),
        None => file_stem(name),
    }
}

/// The files that an id may stand for, in the order in which they are tried: a
/// directory is called as its id, a package has one of the extensions.
pub fn candidate_names(id: &str) -> (r: Vec<String>)
    ensures
        texts(r@) == seq![id@, id@ + ".tgz"@, id@ + ".tar.gz"@],
{
    let tgz = cat2(id, ".tgz");
    let tar_gz = cat2(id, ".tar.gz");
    let mut v = no_texts();
    push_three(&mut v, id, tgz.as_str(), tar_gz.as_str());
    assert(texts(v@) =~= seq![id@, id@ + ".tgz"@, id@ + ".tar.gz"@]);
    v
}

/// The order of the listing: the last written first.
pub open spec fn by_age() -> spec_fn(LocalChartEntry, LocalChartEntry) -> bool {
    by_text_down(|e: LocalChartEntry| e.modified_at@)
}

fn written_later(a: &LocalChartEntry, b: &LocalChartEntry) -> (r: bool)
    ensures
        r == by_age()(*a, *b),
{
    less(b.modified_at.as_str(), a.modified_at.as_str())
}

/// The listing of the charts found, the last written first.
pub fn scan_local_charts(found: Vec<LocalChartEntry>) -> (r: Vec<LocalChartEntry>)
    ensures
        r@ == sorted_by(found@, by_age()),
{
    sort(found, written_later, Ghost(by_age()))
}

/// The chart with this id in the listing, which alone says what ids there are.
pub fn resolve(listing: Vec<LocalChartEntry>, id: &str) -> (r: AppResult<LocalChartEntry>)
    ensures
        match (r, named_at(listing@, id@)) {
            (Ok(e), Some(i)) => e == listing@[i],
            (Err(e), None) => e.is_not_found("chart `"@ + id@ + "`"@),
            _ => false,
        },
{
    match position(&listing, id) {
        Some(i) => {
            let mut all = listing;
            Ok(all.remove(i))
        },
        None => Err(AppError::NotFound(cat3("chart `", id, "`"))),
    }
}

// ---------------------------------------------------------------------------
// Import and removal
// ---------------------------------------------------------------------------

/// The largest package that is imported.
pub const MAX_CHART_BYTES: u64 = 52_428_800;

/// The most that is read of one file of a chart.
pub const MAX_MEMBER_BYTES: u64 = 10_485_760;

/// A file name that a package is imported under: a bare name with one of the
/// extensions.
pub open spec fn import_name(filename: Seq<char>) -> Result<Seq<char>, Seq<char>> {
    match name_of(filename) {
        None => Err("invalid filename"@),
        Some(base) => if has_suffix(base, ".tgz"@) || has_suffix(base, ".tar.gz"@) {
            Ok(base)
        } else {
            Err("only .tgz / .tar.gz accepted"@)
        },
    }
}

/// The name under which a package is imported: the last part of `filename`,
/// which has to have one of the extensions.
pub fn sanitize_filename(filename: &str) -> (r: AppResult<String>)
    ensures
        match (r, import_name(filename@)) {
            (Ok(n), Ok(m)) => n@ == m,
            (Err(e), Err(m)) => e.is_other(m),
            _ => false,
        },
{
    match file_name(filename) {
        None => Err(other("invalid filename")),
        Some(base) => {
            if ends_with(base.as_str(), ".tgz") || ends_with(base.as_str(), ".tar.gz") {
                Ok(base)
            } else {
                Err(other("only .tgz / .tar.gz accepted"))
            }
        },
    }
}

/// Bytes start as a gzip file does.
pub open spec fn is_gzip(bytes: Seq<u8>) -> bool {
    bytes.len() >= 2 && bytes[0] == 0x1f && bytes[1] == 0x8b
}

/// What a package to be imported is refused for, or the name it is written under.
pub open spec fn import_decision(filename: Seq<char>, bytes: Seq<u8>) -> Result<
    Seq<char>,
    Seq<char>,
> {
    match import_name(filename) {
        Err(m) => Err(m),
        Ok(name) => if bytes.len() > MAX_CHART_BYTES {
            Err("chart exceeds "@ + dec(MAX_CHART_BYTES as nat) + " byte limit"@)
        } else if !is_gzip(bytes) {
            Err("not a gzip archive"@)
        } else {
            Ok(name)
        },
    }
}

/// Whether a package may be imported, and the name it is written under. The file
/// written is read again with [`chart_yaml_text`], and removed if that fails.
pub fn import_chart_bytes(filename: &str, bytes: &[u8]) -> (r: AppResult<String>)
    ensures
        match (r, import_decision(filename@, bytes@)) {
            (Ok(n), Ok(m)) => n@ == m,
            (Err(e), Err(m)) => e.is_other(m),
            _ => false,
        },
{
    let name = match sanitize_filename(filename) {
        Ok(n) => n,
        Err(e) => {
            return Err(e);
        },
    };
    if bytes.len() as u64 > MAX_CHART_BYTES {
        let n = dec_u64(MAX_CHART_BYTES);
        let text = cat3("chart exceeds ", n.as_str(), " byte limit");
        return Err(other(text.as_str()));
    }
    if bytes.len() < 2 || bytes[0] != 0x1f || bytes[1] != 0x8b {
        return Err(other("not a gzip archive"));
    }
    Ok(name)
}

/// The first of the candidate files that exists, as far as `existing` says so of
/// each.
pub open spec fn first_existing(existing: Seq<bool>, from: int) -> Option<int>
    decreases existing.len() - from,
{
    if from < 0 || from >= existing.len() {
        None
    } else if existing[from] {
        Some(from)
    } else {
        first_existing(existing, from + 1)
    }
}

/// The file to remove for an id: the first of its candidates that exists.
/// `existing` says of each, in the order of [`candidate_names`], whether it does.
pub fn removal_target(id: &str, existing: &Vec<bool>) -> (r: AppResult<usize>)
    ensures
        match (r, first_existing(existing@, 0)) {
            (Ok(i), Some(j)) => i == j,
            (Err(e), None) => e.is_not_found("chart `"@ + id@ + "` not found"@),
            _ => false,
        },
{
    let mut i: usize = 0;
    while i < existing.len()
        invariant
            i <= existing@.len(),
            first_existing(existing@, 0) == first_existing(existing@, i as int),
        decreases existing@.len() - i,
    {
        if existing[i] {
            return Ok(i);
        }
        i += 1;
    }
    Err(AppError::NotFound(cat3("chart `", id, "` not found")))
}

/// Whether a chart may be removed: it lies directly in the root of the library.
/// Both paths have their links resolved.
pub fn remove_chart(root: &str, target: &str) -> (r: AppResult<()>)
    ensures
        match r {
            Ok(_) => parent_of(target@) == Some(root@),
            Err(e) => parent_of(target@) != Some(root@) && e.is_other(
                "refusing to delete outside chart library"@,
            ),
        },
{
    if is_directly_in(target, root) {
        Ok(())
    } else {
        Err(other("refusing to delete outside chart library"))
    }
}

// ---------------------------------------------------------------------------
// Packages
// ---------------------------------------------------------------------------

/// One file or directory of a chart.
#[derive(Clone, Debug)]
pub struct LocalChartFile {
    /// As the package stores it, or from the chart directory on.
    pub path: String,
    pub size_bytes: u64,
    pub is_dir: bool,
}

/// What the listing of a chart shows of one file.
#[verifier::ext_equal]
pub struct FileView {
    pub path: Seq<char>,
    pub size_bytes: u64,
    pub is_dir: bool,
}

impl View for LocalChartFile {
    type V = FileView;

    open spec fn view(&self) -> FileView {
        FileView { path: self.path@, size_bytes: self.size_bytes, is_dir: self.is_dir }
    }
}

/// A chart in detail. Files that it does not have are empty.
#[derive(Debug)]
pub struct LocalChartDetail {
    pub entry: LocalChartEntry,
    /// In the order of their paths.
    pub files: Vec<LocalChartFile>,
    pub chart_yaml: String,
    pub values_yaml: String,
    pub readme: String,
}

/// The path of a member as text; empty where it is none.
pub open spec fn member_path(path: Seq<u8>) -> Seq<char> {
    if valid_utf8(path) {
        decode_utf8(path)
    } else {
        Seq::empty()
    }
}

fn path_text(m: &Member) -> (r: String)
    ensures
        r@ == member_path(m.path@),
{
    match utf8_text(m.path.as_slice()) {
        Some(t) => t.to_owned(),
        None => String::new(),
    }
}

/// A member is the chart's `Chart.yaml`: directly in the single directory at the
/// top.
pub open spec fn is_chart_yaml(path: Seq<u8>) -> bool {
    name_of(byte_chars(path)) == Some("Chart.yaml"@) && steps(byte_chars(path)) == 2
}

/// A member path without its first part: the directory at the top is called as
/// the chart, whatever the package is called.
pub open spec fn below_top(path: Seq<char>) -> Seq<char> {
    match char_from(path, '/', 0) {
        Some(i) => path.skip(i + 1),
        None => path,
    }
}

/// A member path without its first part.
pub fn chart_root_rel<'a>(rel: &'a str) -> (r: &'a str)
    ensures
        r@ == below_top(rel@),
{
    match split_once(rel, '/') {
        Some((_, rest)) => rest,
        None => rel,
    }
}

/// A member goes by the name `inner`: its whole path, or the path below the
/// directory at the top.
pub open spec fn goes_by(path: Seq<u8>, inner: Seq<char>) -> bool {
    member_path(path) == inner || below_top(member_path(path)) == inner
}

/// What a search through the members of a package comes to.
pub enum Search {
    /// The member is at this position.
    Found(int),
    /// A member before it could not be read.
    Failed(Seq<char>),
    /// There is none.
    Missing,
}

/// A search for the first member that fits, from `from` on.
pub open spec fn search(
    s: Seq<Result<MemberView, Seq<char>>>,
    fits: spec_fn(MemberView) -> bool,
    from: int,
) -> Search
    decreases s.len() - from,
{
    if from < 0 || from >= s.len() {
        Search::Missing
    } else {
        match s[from] {
            Err(e) => Search::Failed(e),
            Ok(m) => if fits(m) {
                Search::Found(from)
            } else {
                search(s, fits, from + 1)
            },
        }
    }
}

/// The text of the `Chart.yaml` in a package.
pub open spec fn chart_yaml_of(bytes: Seq<u8>) -> Result<Seq<char>, Seq<char>> {
    match tgz_entries(bytes) {
        Err(e) => Err("tar entries: "@ + e),
        Ok(s) => match search(s, |m: MemberView| is_chart_yaml(m.path), 0) {
            Search::Failed(e) => Err("tar entry: "@ + e),
            Search::Missing => Err("no Chart.yaml in archive"@),
            Search::Found(i) => match tgz_text(bytes, i as usize, u64::MAX) {
                Ok(t) => Ok(t),
                Err(e) => Err("read Chart.yaml: "@ + e),
            },
        },
    }
}

/// The position of the `Chart.yaml` among the entries of a package. A file without
/// one is no chart.
pub fn find_chart_yaml(entries: &Vec<Result<Member, String>>) -> (r: AppResult<usize>)
    ensures
        match (r, search(entry_views(entries@), |m: MemberView| is_chart_yaml(m.path), 0)) {
            (Ok(i), Search::Found(j)) => i == j,
            (Err(e), Search::Failed(t)) => e.is_other("tar entry: "@ + t),
            (Err(e), Search::Missing) => e.is_other("no Chart.yaml in archive"@),
            _ => false,
        },
{
    let ghost all = entry_views(entries@);
    let ghost fits = |m: MemberView| is_chart_yaml(m.path);
    let mut i: usize = 0;
    while i < entries.len()
        invariant
            i <= entries@.len(),
            all == entry_views(entries@),
            fits == (|m: MemberView| is_chart_yaml(m.path)),
            search(all, fits, 0) == search(all, fits, i as int),
        decreases entries@.len() - i,
    {
        assert(all[i as int] == entry_view(entries@[i as int]));
        match &entries[i] {
            Err(e) => {
                let text = cat2("tar entry: ", e.as_str());
                return Err(other(text.as_str()));
            },
            Ok(m) => {
                let path = chars_of_bytes(m.path.as_slice());
                let named = match file_name(path.as_str()) {
                    Some(n) => same(n.as_str(), "Chart.yaml"),
                    None => false,
                };
                if named && has_two_steps(path.as_str()) {
                    assert(search(all, fits, 0) == Search::Found(i as int));
                    return Ok(i);
                }
            },
        }
        i += 1;
    }
    Err(other("no Chart.yaml in archive"))
}

/// The text of the `Chart.yaml` in a package. A file without one is no chart.
pub fn chart_yaml_text(bytes: &[u8]) -> (r: AppResult<String>)
    ensures
        match (r, chart_yaml_of(bytes@)) {
            (Ok(t), Ok(u)) => t@ == u,
            (Err(e), Err(m)) => e.is_other(m),
            _ => false,
        },
{
    let entries = match read_entries(bytes) {
        Ok(v) => v,
        Err(e) => {
            let text = cat2("tar entries: ", e.as_str());
            return Err(other(text.as_str()));
        },
    };
    match find_chart_yaml(&entries) {
        Ok(i) => match read_entry(bytes, i, u64::MAX) {
            Ok(t) => Ok(t),
            Err(e) => {
                let text = cat2("read Chart.yaml: ", e.as_str());
                Err(other(text.as_str()))
            },
        },
        Err(e) => Err(e),
    }
}

/// The member of a package called `inner`, as text.
pub open spec fn member_of_package(bytes: Seq<u8>, inner: Seq<char>) -> Result<
    Seq<char>,
    AppErrorView,
> {
    match tgz_entries(bytes) {
        Err(e) => Err(AppErrorView::Other("tar entries: "@ + e)),
        Ok(s) => match search(s, |m: MemberView| goes_by(m.path, inner), 0) {
            Search::Failed(e) => Err(AppErrorView::Other("tar entry: "@ + e)),
            Search::Missing => Err(AppErrorView::NotFound("no member `"@ + inner + "`"@)),
            Search::Found(i) => if s[i]->Ok_0.is_dir {
                Err(AppErrorView::Other("is a directory"@))
            } else {
                match tgz_text(bytes, i as usize, MAX_MEMBER_BYTES) {
                    Ok(t) => Ok(t),
                    Err(e) => Err(AppErrorView::Other("read "@ + inner + ": "@ + e)),
                }
            },
        },
    }
}

/// The two errors that reading a chart comes to.
pub enum AppErrorView {
    NotFound(Seq<char>),
    Other(Seq<char>),
}

/// An error is the one expected.
pub open spec fn is_error(e: AppError, v: AppErrorView) -> bool {
    match v {
        AppErrorView::NotFound(m) => e.is_not_found(m),
        AppErrorView::Other(m) => e.is_other(m),
    }
}

/// The position of the member that goes by the name `inner` among the entries of a
/// package. A directory is not one to be read.
pub fn find_member(entries: &Vec<Result<Member, String>>, inner: &str) -> (r: AppResult<usize>)
    ensures
        match (r, search(entry_views(entries@), |m: MemberView| goes_by(m.path, inner@), 0)) {
            (Ok(i), Search::Found(j)) => i == j && !entry_views(entries@)[j]->Ok_0.is_dir,
            (Err(e), Search::Found(j)) => entry_views(entries@)[j]->Ok_0.is_dir && e.is_other(
                "is a directory"@,
            ),
            (Err(e), Search::Failed(t)) => e.is_other("tar entry: "@ + t),
            (Err(e), Search::Missing) => e.is_not_found("no member `"@ + inner@ + "`"@),
            _ => false,
        },
{
    let ghost all = entry_views(entries@);
    let ghost fits = |m: MemberView| goes_by(m.path, inner@);
    let mut i: usize = 0;
    while i < entries.len()
        invariant
            i <= entries@.len(),
            all == entry_views(entries@),
            fits == (|m: MemberView| goes_by(m.path, inner@)),
            search(all, fits, 0) == search(all, fits, i as int),
        decreases entries@.len() - i,
    {
        assert(all[i as int] == entry_view(entries@[i as int]));
        match &entries[i] {
            Err(e) => {
                let text = cat2("tar entry: ", e.as_str());
                return Err(other(text.as_str()));
            },
            Ok(m) => {
                let rel = path_text(m);
                if same(rel.as_str(), inner) || same(chart_root_rel(rel.as_str()), inner) {
                    assert(search(all, fits, 0) == Search::Found(i as int));
                    if m.is_dir {
                        return Err(other("is a directory"));
                    }
                    return Ok(i);
                }
            },
        }
        i += 1;
    }
    Err(AppError::NotFound(cat3("no member `", inner, "`")))
}

/// Reads one member of a package, which goes by its whole path or by the path
/// below the directory at the top. More than [`MAX_MEMBER_BYTES`] of it are left
/// out.
pub fn read_member(bytes: &[u8], inner: &str) -> (r: AppResult<String>)
    ensures
        match (r, member_of_package(bytes@, inner@)) {
            (Ok(t), Ok(u)) => t@ == u,
            (Err(e), Err(v)) => is_error(e, v),
            _ => false,
        },
{
    let entries = match read_entries(bytes) {
        Ok(v) => v,
        Err(e) => {
            let text = cat2("tar entries: ", e.as_str());
            return Err(other(text.as_str()));
        },
    };
    match find_member(&entries, inner) {
        Ok(i) => match read_entry(bytes, i, MAX_MEMBER_BYTES) {
            Ok(t) => Ok(t),
            Err(e) => {
                let text = cat4("read ", inner, ": ", e.as_str());
                Err(other(text.as_str()))
            },
        },
        Err(e) => Err(e),
    }
}

/// The files among the entries of a package: those with a path.
pub open spec fn files_of(s: Seq<Result<MemberView, Seq<char>>>) -> Result<
    Seq<FileView>,
    Seq<char>,
>
    decreases s.len(),
{
    if s.len() == 0 {
        Ok(Seq::empty())
    } else {
        match (files_of(s.drop_last()), s.last()) {
            (Err(e), _) => Err(e),
            (Ok(_), Err(e)) => Err(e),
            (Ok(front), Ok(m)) => Ok(
                if member_path(m.path).len() == 0 {
                    front
                } else {
                    front.push(
                        FileView {
                            path: member_path(m.path),
                            size_bytes: m.size,
                            is_dir: m.is_dir,
                        },
                    )
                },
            ),
        }
    }
}

/// The order of the files of a chart.
pub open spec fn by_file_path() -> spec_fn(FileView, FileView) -> bool {
    by_text(|f: FileView| f.path)
}

fn path_before(a: &LocalChartFile, b: &LocalChartFile) -> (r: bool)
    ensures
        r == by_view(by_file_path())(*a, *b),
{
    less(a.path.as_str(), b.path.as_str())
}

/// The files of a chart in the order of their paths.
pub fn sort_files(files: Vec<LocalChartFile>) -> (r: Vec<LocalChartFile>)
    ensures
        views(r@) == sorted_by(views(files@), by_file_path()),
{
    proof {
        lemma_sorted_views(files@, by_file_path());
    }
    sort(files, path_before, Ghost(by_view(by_file_path())))
}

/// The files of a package, or the error of reading it.
pub open spec fn package_files(bytes: Seq<u8>) -> Result<Seq<FileView>, Seq<char>> {
    match tgz_entries(bytes) {
        Err(e) => Err("tar entries: "@ + e),
        Ok(s) => match files_of(s) {
            Err(e) => Err("tar entry: "@ + e),
            Ok(files) => Ok(sorted_by(files, by_file_path())),
        },
    }
}

proof fn lemma_files_fail_at(s: Seq<Result<MemberView, Seq<char>>>, i: int)
    requires
        0 <= i < s.len(),
        s[i] is Err,
        files_of(s.take(i)) is Ok,
    ensures
        files_of(s) == Err::<Seq<FileView>, Seq<char>>(s[i]->Err_0),
    decreases s.len(),
{
    if i == s.len() - 1 {
        assert(s.drop_last() =~= s.take(i));
    } else {
        assert(s.drop_last().take(i) =~= s.take(i));
        lemma_files_fail_at(s.drop_last(), i);
    }
}

/// The files among the entries of a package, in the order of their paths.
pub fn list_files(entries: &Vec<Result<Member, String>>) -> (r: AppResult<Vec<LocalChartFile>>)
    ensures
        match (r, files_of(entry_views(entries@))) {
            (Ok(v), Ok(files)) => views(v@) == sorted_by(files, by_file_path()),
            (Err(e), Err(t)) => e.is_other("tar entry: "@ + t),
            _ => false,
        },
{
    let ghost all = entry_views(entries@);
    let mut out: Vec<LocalChartFile> = Vec::new();
    let mut i: usize = 0;
    assert(views(out@) =~= Seq::empty());
    assert(all.take(0) =~= Seq::empty());
    while i < entries.len()
        invariant
            i <= entries@.len(),
            all == entry_views(entries@),
            files_of(all.take(i as int)) == Ok::<Seq<FileView>, Seq<char>>(views(out@)),
        decreases entries@.len() - i,
    {
        assert(all[i as int] == entry_view(entries@[i as int]));
        assert(all.take(i + 1).drop_last() =~= all.take(i as int));
        match &entries[i] {
            Err(e) => {
                proof {
                    lemma_files_fail_at(all, i as int);
                }
                let text = cat2("tar entry: ", e.as_str());
                return Err(other(text.as_str()));
            },
            Ok(m) => {
                let rel = path_text(m);
                if !rel.as_str().is_empty() {
                    let ghost before = out@;
                    out.push(
                        LocalChartFile { path: rel, size_bytes: m.size, is_dir: m.is_dir },
                    );
                    assert(views(out@) =~= views(before).push(out@.last()@));
                }
            },
        }
        i += 1;
    }
    assert(all.take(i as int) =~= all);
    Ok(sort_files(out))
}

/// The files of a package, in the order of their paths.
pub fn tgz_files(bytes: &[u8]) -> (r: AppResult<Vec<LocalChartFile>>)
    ensures
        match (r, package_files(bytes@)) {
            (Ok(v), Ok(files)) => views(v@) == files,
            (Err(e), Err(m)) => e.is_other(m),
            _ => false,
        },
{
    match read_entries(bytes) {
        Ok(entries) => list_files(&entries),
        Err(e) => {
            let text = cat2("tar entries: ", e.as_str());
            Err(other(text.as_str()))
        },
    }
}

/// A package in detail. The files that are shown are empty where they cannot be
/// read; a package without a README is nothing unusual.
pub fn package_detail(entry: LocalChartEntry, bytes: &[u8]) -> (r: AppResult<LocalChartDetail>)
    ensures
        match (r, package_files(bytes@)) {
            (Ok(d), Ok(files)) => {
                &&& d.entry == entry
                &&& views(d.files@) == files
                &&& d.chart_yaml@ == text_if_ok(member_of_package(bytes@, "Chart.yaml"@))
                &&& d.values_yaml@ == text_if_ok(member_of_package(bytes@, "values.yaml"@))
                &&& d.readme@ == text_if_ok(member_of_package(bytes@, "README.md"@))
            },
            (Err(e), Err(m)) => e.is_other(m),
            _ => false,
        },
{
    let files = match tgz_files(bytes) {
        Ok(v) => v,
        Err(e) => {
            return Err(e);
        },
    };
    let chart_yaml = member_or_empty(bytes, "Chart.yaml");
    let values_yaml = member_or_empty(bytes, "values.yaml");
    let readme = member_or_empty(bytes, "README.md");
    Ok(LocalChartDetail { entry, files, chart_yaml, values_yaml, readme })
}

/// The text, or nothing in place of an error.
pub open spec fn text_if_ok(r: Result<Seq<char>, AppErrorView>) -> Seq<char> {
    match r {
        Ok(t) => t,
        Err(_) => Seq::empty(),
    }
}

fn member_or_empty(bytes: &[u8], inner: &str) -> (r: String)
    ensures
        r@ == text_if_ok(member_of_package(bytes@, inner@)),
{
    match read_member(bytes, inner) {
        Ok(t) => t,
        Err(_) => String::new(),
    }
}

// ---------------------------------------------------------------------------
// Chart directories
// ---------------------------------------------------------------------------

/// The path of `name` in the directory `rel` of a chart, which is empty for the
/// chart itself.
pub open spec fn child_path(rel: Seq<char>, name: Seq<char>) -> Seq<char> {
    if rel.len() == 0 {
        name
    } else {
        rel + "/"@ + name
    }
}

/// What is listed of `name` in the directory `rel` of a chart: a directory with no
/// size of its own, a file with its size.
pub fn dir_file(rel: &str, name: &str, size_bytes: u64, is_dir: bool) -> (r: LocalChartFile)
    ensures
        r@ == (FileView {
            path: child_path(rel@, name@),
            size_bytes: if is_dir {
                0
            } else {
                size_bytes
            },
            is_dir,
        }),
{
    let path = if rel.is_empty() {
        name.to_owned()
    } else {
        cat3(rel, "/", name)
    };
    LocalChartFile {
        path,
        size_bytes: if is_dir {
            0
        } else {
            size_bytes
        },
        is_dir,
    }
}

/// Whether a path may be read out of a chart: it is relative and goes up nowhere.
pub fn safe_inner_path<'a>(inner: &'a str) -> (r: AppResult<&'a str>)
    ensures
        match r {
            Ok(p) => p@ == inner@ && !at_root(inner@) && !goes_up(inner@),
            Err(e) => (at_root(inner@) || goes_up(inner@)) && e.is_other(
                "invalid chart member path"@,
            ),
        },
{
    if starts_with(inner, "/") || has_parent_dir(inner) {
        Err(other("invalid chart member path"))
    } else {
        Ok(inner)
    }
}

/// Whether a file may be read out of a chart directory: it lies in it. Both paths
/// have their links resolved.
pub fn confine(base: &str, target: &str) -> (r: AppResult<()>)
    ensures
        match r {
            Ok(_) => is_within(target@, base@),
            Err(e) => !is_within(target@, base@) && e.is_other("invalid chart member path"@),
        },
{
    if within(target, base) {
        Ok(())
    } else {
        Err(other("invalid chart member path"))
    }
}

// ---------------------------------------------------------------------------
// Helm on local charts
// ---------------------------------------------------------------------------

/// What `helm` is run with to lint a chart.
pub fn lint_argv(path: &str) -> (r: Vec<String>)
    ensures
        texts(r@) == seq!["lint"@, path@],
{
    let mut v = no_texts();
    push_two(&mut v, "lint", path);
    assert(texts(v@) =~= seq!["lint"@, path@]);
    v
}

/// What `helm` is run with to verify a package.
pub fn verify_argv(path: &str) -> (r: Vec<String>)
    ensures
        texts(r@) == seq!["verify"@, path@],
{
    let mut v = no_texts();
    push_two(&mut v, "verify", path);
    assert(texts(v@) =~= seq!["verify"@, path@]);
    v
}

/// What `helm` is run with to lint the chart `id` of the listing.
pub fn lint_chart(listing: Vec<LocalChartEntry>, id: &str) -> (r: AppResult<Vec<String>>)
    ensures
        match (r, named_at(listing@, id@)) {
            (Ok(v), Some(i)) => texts(v@) == seq!["lint"@, listing@[i].path@],
            (Err(e), None) => e.is_not_found("chart `"@ + id@ + "`"@),
            _ => false,
        },
{
    match resolve(listing, id) {
        Ok(e) => Ok(lint_argv(e.path.as_str())),
        Err(e) => Err(e),
    }
}

/// What `helm` is run with to verify the chart `id` of the listing. Only a package
/// can be verified.
pub fn verify_chart(listing: Vec<LocalChartEntry>, id: &str) -> (r: AppResult<Vec<String>>)
    ensures
        match (r, named_at(listing@, id@)) {
            (Ok(v), Some(i)) => listing@[i].kind == LocalChartKind::Tgz && texts(v@) == seq![
                "verify"@,
                listing@[i].path@,
            ],
            (Err(e), Some(i)) => listing@[i].kind == LocalChartKind::Dir && e.is_other(
                "verify requires a packaged chart (.tgz)"@,
            ),
            (Err(e), None) => e.is_not_found("chart `"@ + id@ + "`"@),
            (Ok(_), None) => false,
        },
{
    match resolve(listing, id) {
        Ok(e) => {
            if e.kind == LocalChartKind::Dir {
                Err(other("verify requires a packaged chart (.tgz)"))
            } else {
                Ok(verify_argv(e.path.as_str()))
            }
        },
        Err(e) => Err(e),
    }
}

/// What is done with the dependencies of a chart.
#[derive(Clone, Copy, Debug, PartialEq, Eq, Structural)]
pub enum DepsAction {
    List,
    Build,
    Update,
}

impl DepsAction {
    /// The word for an action.
    pub open spec fn word(self) -> Seq<char> {
        match self {
            DepsAction::List => "list"@,
            DepsAction::Build => "build"@,
            DepsAction::Update => "update"@,
        }
    }

    /// The word for an action.
    pub fn verb(self) -> (r: &'static str)
        ensures
            r@ == self.word(),
    {
        match self {
            DepsAction::List => "list",
            DepsAction::Build => "build",
            DepsAction::Update => "update",
        }
    }

    /// The action that a word stands for.
    pub fn from_verb(word: &str) -> (r: Option<DepsAction>)
        ensures
            match r {
                Some(a) => a.word() == word@,
                None => forall|a: DepsAction| a.word() != word@,
            },
    {
        if same(word, "list") {
            Some(DepsAction::List)
        } else if same(word, "build") {
            Some(DepsAction::Build)
        } else if same(word, "update") {
            Some(DepsAction::Update)
        } else {
            None
        }
    }

    /// Whether an action writes to the chart, and is put on record.
    pub fn writes(self) -> (r: bool)
        ensures
            r == (self != DepsAction::List),
    {
        match self {
            DepsAction::List => false,
            _ => true,
        }
    }
}

/// What `helm` is run with to package a chart directory.
pub fn package_argv(dir: &str, dest: &str) -> (r: Vec<String>)
    ensures
        texts(r@) == seq!["package"@, dir@, "--destination"@, dest@],
{
    let mut v = no_texts();
    push_two(&mut v, "package", dir);
    push_two(&mut v, "--destination", dest);
    assert(texts(v@) =~= seq!["package"@, dir@, "--destination"@, dest@]);
    v
}

/// What `helm` is run with for the dependencies of a chart.
pub fn deps_argv(path: &str, action: DepsAction) -> (r: Vec<String>)
    ensures
        texts(r@) == seq!["dependency"@, action.word(), path@],
{
    let mut v = no_texts();
    push_three(&mut v, "dependency", action.verb(), path);
    assert(texts(v@) =~= seq!["dependency"@, action.word(), path@]);
    v
}

/// What `helm` is run with for the dependencies of the chart `id` of the listing.
pub fn chart_deps(listing: Vec<LocalChartEntry>, id: &str, action: DepsAction) -> (r: AppResult<
    Vec<String>,
>)
    ensures
        match (r, named_at(listing@, id@)) {
            (Ok(v), Some(i)) => texts(v@) == seq![
                "dependency"@,
                action.word(),
                listing@[i].path@,
            ],
            (Err(e), None) => e.is_not_found("chart `"@ + id@ + "`"@),
            _ => false,
        },
{
    match resolve(listing, id) {
        Ok(e) => Ok(deps_argv(e.path.as_str(), action)),
        Err(e) => Err(e),
    }
}

/// The name of the chart `id` of the listing, and what `helm` is run with to
/// package it into `root`. What is packaged already is refused.
pub fn package_chart(listing: Vec<LocalChartEntry>, root: &str, id: &str) -> (r: AppResult<
    (String, Vec<String>),
>)
    ensures
        match (r, named_at(listing@, id@)) {
            (Ok((name, v)), Some(i)) => {
                &&& listing@[i].kind == LocalChartKind::Dir
                &&& name@ == listing@[i].name@
                &&& texts(v@) == seq!["package"@, listing@[i].path@, "--destination"@, root@]
            },
            (Err(e), Some(i)) => listing@[i].kind == LocalChartKind::Tgz && e.is_other(
                "chart is already packaged"@,
            ),
            (Err(e), None) => e.is_not_found("chart `"@ + id@ + "`"@),
            (Ok(_), None) => false,
        },
{
    match resolve(listing, id) {
        Ok(e) => {
            if e.kind == LocalChartKind::Tgz {
                Err(other("chart is already packaged"))
            } else {
                let argv = package_argv(e.path.as_str(), root);
                Ok((e.name, argv))
            }
        },
        Err(e) => Err(e),
    }
}

/// The first package of a chart in the listing, from `from` on.
pub open spec fn package_from(s: Seq<LocalChartEntry>, name: Seq<char>, from: int) -> Option<int>
    decreases s.len() - from,
{
    if from < 0 || from >= s.len() {
        None
    } else if s[from].kind == LocalChartKind::Tgz && s[from].name@ == name {
        Some(from)
    } else {
        package_from(s, name, from + 1)
    }
}

/// The package that `helm package` has just made of the chart called `name`: the
/// last written of that name in the listing made afterwards.
pub fn packaged_chart(listing: Vec<LocalChartEntry>, name: &str) -> (r: AppResult<LocalChartEntry>)
    ensures
        match (r, package_from(listing@, name@, 0)) {
            (Ok(e), Some(i)) => e == listing@[i],
            (Err(e), None) => e.is_other(
                "helm package produced no readable archive for `"@ + name@ + "`"@,
            ),
            _ => false,
        },
{
    let mut i: usize = 0;
    while i < listing.len()
        invariant
            i <= listing@.len(),
            package_from(listing@, name@, 0) == package_from(listing@, name@, i as int),
        decreases listing@.len() - i,
    {
        if listing[i].kind == LocalChartKind::Tgz && same(listing[i].name.as_str(), name) {
            let mut all = listing;
            return Ok(all.remove(i));
        }
        i += 1;
    }
    let text = cat3("helm package produced no readable archive for `", name, "`");
    Err(other(text.as_str()))
}

// ---------------------------------------------------------------------------
// Laws
// ---------------------------------------------------------------------------

/// The listing holds every chart found, the last written first.
pub proof fn law_listing_is_newest_first(found: Seq<LocalChartEntry>)
    ensures
        in_order(sorted_by(found, by_age()), by_age()),
        sorted_by(found, by_age()).to_multiset() =~= found.to_multiset(),
{
    lemma_by_text_ranks(|e: LocalChartEntry| e.modified_at@);
    lemma_sorted_in_order(found, by_age());
    lemma_sorted_rearranges(found, by_age());
}

/// A package that may be imported is listed under its name: the extensions that
/// are accepted are those that the listing looks for. (A file called `.tgz` alone
/// has no name to be listed by.)
pub proof fn law_what_is_imported_is_listed(filename: Seq<char>)
    requires
        import_name(filename) is Ok,
        import_name(filename)->Ok_0 != ".tgz"@,
    ensures
        is_package_name(import_name(filename)->Ok_0),
{
    let name = import_name(filename)->Ok_0;
    reveal_strlit(".tgz");
    if has_suffix(name, ".tgz"@) && name.len() <= 4 {
        assert(name =~= ".tgz"@);
    }
}

/// A package is found again by its id: of the files that an id may stand for, one
/// is the package it was taken from.
pub proof fn law_package_is_found_by_its_id(name: Seq<char>)
    requires
        is_package_name(name),
    ensures
        name == package_id(name) + ".tgz"@ || name == package_id(name) + ".tar.gz"@,
{
    reveal_strlit(".tgz");
    reveal_strlit(".tar.gz");
    if has_suffix(name, ".tar.gz"@) {
        assert(name =~= package_id(name) + ".tar.gz"@);
    } else {
        let n = name.len() as int;
        assert(name.subrange(n - 4, n) =~= ".tgz"@);
        let tail = name.subrange(n - 4, n);
        assert(name[n - 4] == tail[0] && name[n - 3] == tail[1]);
        assert(name[n - 2] == tail[2] && name[n - 1] == tail[3]);
        let a = name.drop_last();
        let b = a.drop_last();
        let c = b.drop_last();
        assert(last_char(c, '.') == Some(n - 4));
        assert(last_char(b, '.') == Some(n - 4));
        assert(last_char(a, '.') == Some(n - 4));
        assert(last_char(name, '.') == Some(n - 4));
        assert(name =~= package_id(name) + ".tgz"@);
    }
}

/// A file is listed as a package where it has a name and one of the two extensions behind it;
/// its id is what stands before the extension, and one of the files tried for that id is the
/// file.
pub proof fn law_a_package_goes_by_its_name(
    stem: Seq<char>,
    tgz: &str,
    tar_gz: &str,
    is_tgz: bool,
    is_tar_gz: bool,
    id: String,
    long_id: String,
)
    requires
        tgz@ == stem + ".tgz"@,
        tar_gz@ == stem + ".tar.gz"@,
        stem.len() > 0,
        call_ensures(is_archive_name, (tgz,), is_tgz),
        call_ensures(is_archive_name, (tar_gz,), is_tar_gz),
        call_ensures(archive_id, (tgz,), id),
        call_ensures(archive_id, (tar_gz,), long_id),
    ensures
        is_tgz && is_tar_gz,
        id@ == stem,
        long_id@ == stem,
{
    reveal_strlit(".tgz");
    reveal_strlit(".tar.gz");
    assert(".tgz"@.len() == 4);
    assert(".tar.gz"@.len() == 7);
    assert(tgz@.skip(tgz@.len() - 4) =~= ".tgz"@);
    assert(tar_gz@.skip(tar_gz@.len() - 7) =~= ".tar.gz"@);
    assert(tar_gz@.take(tar_gz@.len() - 7) =~= stem);
    if has_suffix(tgz@, ".tar.gz"@) {
        assert(tgz@.skip(tgz@.len() - 7)[4] == tgz@[tgz@.len() - 3]);
        assert(".tar.gz"@[4] == '.');
        assert(tgz@[tgz@.len() - 3] == ".tgz"@[1]);
        assert(false);
    }
    law_package_is_found_by_its_id(tgz@);
    let p = package_id(tgz@);
    if tgz@ == p + ".tgz"@ {
        assert(tgz@.take(tgz@.len() - 4) =~= p);
        assert(tgz@.take(tgz@.len() - 4) =~= stem);
    } else {
        assert(tgz@.skip(tgz@.len() - 7) =~= ".tar.gz"@);
        assert(tgz@[tgz@.len() - 3] == ".tar.gz"@[4]);
        assert(tgz@[tgz@.len() - 3] == ".tgz"@[1]);
        assert(".tar.gz"@[4] == '.');
        assert(".tgz"@[1] == 't');
    }
}

/// No other file is listed as a package.
pub proof fn law_only_packages_are_listed(name: &str, r: bool)
    requires
        call_ensures(is_archive_name, (name,), r),
    ensures
        r <==> (has_suffix(name@, ".tgz"@) && name@ != ".tgz"@) || has_suffix(name@, ".tar.gz"@),
{
    reveal_strlit(".tgz");
    assert(".tgz"@.len() == 4);
    if has_suffix(name@, ".tgz"@) && name@.len() == 4 {
        assert(name@.skip(0) =~= name@);
    }
}

/// The listing shows every chart found, and none below one that was written earlier.
pub proof fn law_last_written_is_listed_first(
    found: Vec<LocalChartEntry>,
    r: Vec<LocalChartEntry>,
    i: int,
    j: int,
)
    requires
        call_ensures(scan_local_charts, (found,), r),
        0 <= i < j < r@.len(),
    ensures
        !sorts_before(r@[i].modified_at@, r@[j].modified_at@),
        found@.contains(r@[i]),
        r@.len() == found@.len(),
{
    law_listing_is_newest_first(found@);
    lemma_sorted_members(found@, by_age());
    assert(!by_age()(r@[j], r@[i]));
    assert(r@.contains(r@[i]));
}

/// A chart is imported under the last part of the file's name, and only where that has one of
/// the extensions, the file starts as gzip does and has no more than fifty mebibytes.
pub proof fn law_which_packages_are_imported(
    filename: &str,
    dir: Seq<char>,
    base: Seq<char>,
    bytes: &[u8],
    r: AppResult<String>,
)
    requires
        call_ensures(import_chart_bytes, (filename, bytes), r),
        filename@ == dir + seq!['/'] + base,
        !base.contains('/'),
        base.len() > 0,
        base != "."@,
        base != ".."@,
    ensures
        r is Ok <==> {
            &&& has_suffix(base, ".tgz"@) || has_suffix(base, ".tar.gz"@)
            &&& bytes@.len() <= 50 * 1024 * 1024
            &&& bytes@.len() >= 2
            &&& bytes@[0] == 31
            &&& bytes@[1] == 139
        },
        r is Ok ==> r->Ok_0@ == base,
{
    lemma_last_piece(dir, base, '/');
    let ps = pieces(filename@, '/');
    assert(ps.last() == base);
}

proof fn lemma_first_existing(existing: Seq<bool>, from: int)
    requires
        0 <= from,
    ensures
        match first_existing(existing, from) {
            Some(i) => from <= i < existing.len() && existing[i] && forall|j: int|
                from <= j < i ==> !#[trigger] existing[j],
            None => forall|j: int| from <= j < existing.len() ==> !#[trigger] existing[j],
        },
    decreases existing.len() - from,
{
    if from < existing.len() && !existing[from] {
        lemma_first_existing(existing, from + 1);
    }
}

/// What is removed for an id is the first of its files that exists; where none does, that is
/// said.
pub proof fn law_the_first_existing_file_is_removed(
    id: &str,
    existing: Vec<bool>,
    r: AppResult<usize>,
)
    requires
        call_ensures(removal_target, (id, &existing), r),
    ensures
        r is Ok ==> r->Ok_0 < existing@.len() && existing@[r->Ok_0 as int] && (forall|j: int|
            0 <= j < r->Ok_0 ==> !#[trigger] existing@[j]),
        r is Err <==> forall|j: int| 0 <= j < existing@.len() ==> !#[trigger] existing@[j],
{
    lemma_first_existing(existing@, 0);
}

/// A chart is removed only where it lies directly in the root of the library.
pub proof fn law_only_charts_of_the_library_are_removed(
    root: &str,
    target: &str,
    name: Seq<char>,
    r: AppResult<()>,
)
    requires
        call_ensures(remove_chart, (root, target), r),
        root@.len() > 0,
        target@ == root@ + seq!['/'] + name,
        name.len() > 0,
    ensures
        r is Ok <==> !name.contains('/'),
{
    lemma_parent(root@, name);
}

proof fn lemma_search(
    s: Seq<Result<MemberView, Seq<char>>>,
    fits: spec_fn(MemberView) -> bool,
    from: int,
)
    requires
        0 <= from,
    ensures
        match search(s, fits, from) {
            Search::Found(i) => from <= i < s.len() && s[i] is Ok && fits(s[i]->Ok_0) && forall|
                j: int,
            |
                from <= j < i ==> (#[trigger] s[j]) is Ok && !fits(s[j]->Ok_0),
            Search::Failed(e) => exists|i: int|
                #![trigger s[i]]
                from <= i < s.len() && s[i] == Err::<MemberView, Seq<char>>(e),
            Search::Missing => forall|j: int|
                from <= j < s.len() ==> (#[trigger] s[j]) is Ok && !fits(s[j]->Ok_0),
        },
    decreases s.len() - from,
{
    if from < s.len() {
        if s[from] is Ok && !fits(s[from]->Ok_0) {
            lemma_search(s, fits, from + 1);
        }
    }
}

/// The `Chart.yaml` of a package is the first member of that name one level down; the first
/// one wins, and without one the package is refused.
pub proof fn law_the_chart_yaml_is_one_level_down(
    entries: Vec<Result<Member, String>>,
    r: AppResult<usize>,
)
    requires
        call_ensures(find_chart_yaml, (&entries,), r),
    ensures
        r is Ok ==> {
            let i = r->Ok_0 as int;
            &&& i < entries@.len()
            &&& entries@[i] is Ok
            &&& name_of(byte_chars(entries@[i]->Ok_0.path@)) == Some("Chart.yaml"@)
            &&& steps(byte_chars(entries@[i]->Ok_0.path@)) == 2
        },
        (exists|i: int|
            0 <= i < entries@.len() && (#[trigger] entries@[i]) is Ok && name_of(
                byte_chars(entries@[i]->Ok_0.path@),
            ) == Some("Chart.yaml"@) && steps(byte_chars(entries@[i]->Ok_0.path@)) == 2 && (forall|
                j: int,
            |
                0 <= j < i ==> (#[trigger] entries@[j]) is Ok)) ==> r is Ok,
{
    let s = entry_views(entries@);
    let fits = |m: MemberView| is_chart_yaml(m.path);
    lemma_search(s, fits, 0);
    assert(s.len() == entries@.len());
    assert forall|i: int| 0 <= i < s.len() implies #[trigger] s[i] == entry_view(entries@[i]) by {}
    if exists|i: int|
        0 <= i < entries@.len() && (#[trigger] entries@[i]) is Ok && name_of(
            byte_chars(entries@[i]->Ok_0.path@),
        ) == Some("Chart.yaml"@) && steps(byte_chars(entries@[i]->Ok_0.path@)) == 2 && (forall|
            j: int,
        |
            0 <= j < i ==> (#[trigger] entries@[j]) is Ok) {
        let i = choose|i: int|
            0 <= i < entries@.len() && (#[trigger] entries@[i]) is Ok && name_of(
                byte_chars(entries@[i]->Ok_0.path@),
            ) == Some("Chart.yaml"@) && steps(byte_chars(entries@[i]->Ok_0.path@)) == 2 && (forall|
                j: int,
            |
                0 <= j < i ==> (#[trigger] entries@[j]) is Ok);
        assert(s[i] is Ok && fits(s[i]->Ok_0));
        lemma_search_reaches(s, fits, 0, i);
    }
}

proof fn lemma_search_reaches(
    s: Seq<Result<MemberView, Seq<char>>>,
    fits: spec_fn(MemberView) -> bool,
    from: int,
    i: int,
)
    requires
        0 <= from <= i < s.len(),
        s[i] is Ok,
        fits(s[i]->Ok_0),
        forall|j: int| from <= j < i ==> (#[trigger] s[j]) is Ok,
    ensures
        search(s, fits, from) is Found,
    decreases i - from,
{
    if from < i {
        assert(s[from] is Ok);
        if !fits(s[from]->Ok_0) {
            lemma_search_reaches(s, fits, from + 1, i);
        }
    }
}

/// A member is found under its whole path, and under its path without the directory at the
/// top.
pub proof fn law_a_member_goes_by_two_names(
    entries: Vec<Result<Member, String>>,
    inner: &str,
    top: Seq<char>,
    r: AppResult<usize>,
    i: int,
)
    requires
        call_ensures(find_member, (&entries, inner), r),
        0 <= i < entries@.len(),
        forall|j: int| 0 <= j <= i ==> (#[trigger] entries@[j]) is Ok,
        !top.contains('/'),
        valid_utf8(entries@[i]->Ok_0.path@),
        ({
            let path = decode_utf8(entries@[i]->Ok_0.path@);
            path == inner@ || path == top + seq!['/'] + inner@
        }),
        forall|j: int|
            0 <= j < entries@.len() && (#[trigger] entries@[j]) is Ok ==> !entries@[j]->Ok_0.is_dir,
    ensures
        r is Ok,
        r->Ok_0 <= i,
{
    let s = entry_views(entries@);
    let fits = |m: MemberView| goes_by(m.path, inner@);
    let path = decode_utf8(entries@[i]->Ok_0.path@);
    assert(s.len() == entries@.len());
    assert forall|j: int| 0 <= j < s.len() implies #[trigger] s[j] == entry_view(entries@[j]) by {}
    if path == top + seq!['/'] + inner@ {
        lemma_char_from(path, '/', 0);
        assert(path[top.len() as int] == '/');
        let k = char_from(path, '/', 0)->0;
        if k < top.len() {
            assert(top[k] == '/');
        }
        assert(path.skip(k + 1) =~= inner@);
    }
    assert(s[i] is Ok && fits(s[i]->Ok_0));
    lemma_search_reaches(s, fits, 0, i);
    lemma_search(s, fits, 0);
    let f = search(s, fits, 0)->Found_0;
    assert(s[f] is Ok);
    assert(!s[f]->Ok_0.is_dir);
    if f > i {
        assert(!fits(s[i]->Ok_0));
    }
}

proof fn lemma_files_of(s: Seq<Result<MemberView, Seq<char>>>)
    ensures
        files_of(s) is Ok <==> forall|i: int| 0 <= i < s.len() ==> (#[trigger] s[i]) is Ok,
        files_of(s) is Ok ==> forall|f: FileView| #[trigger]
            files_of(s)->Ok_0.contains(f) <==> f.path.len() > 0 && exists|i: int|
                0 <= i < s.len() && member_path((#[trigger] s[i])->Ok_0.path) == f.path
                    && s[i]->Ok_0.size == f.size_bytes && s[i]->Ok_0.is_dir == f.is_dir,
    decreases s.len(),
{
    if s.len() > 0 {
        let t = s.drop_last();
        lemma_files_of(t);
        assert(forall|i: int| 0 <= i < t.len() ==> t[i] == s[i]);
        assert(s[s.len() - 1] == s.last());
        if files_of(s) is Ok {
            assert(files_of(t) is Ok && s.last() is Ok);
            assert forall|i: int| 0 <= i < s.len() implies (#[trigger] s[i]) is Ok by {
                if i < t.len() {
                    assert(t[i] is Ok);
                }
            }
            let front = files_of(t)->Ok_0;
            let all = files_of(s)->Ok_0;
            let m = s.last()->Ok_0;
            assert forall|f: FileView| #[trigger]
                all.contains(f) <==> f.path.len() > 0 && exists|i: int|
                    0 <= i < s.len() && member_path((#[trigger] s[i])->Ok_0.path) == f.path
                        && s[i]->Ok_0.size == f.size_bytes && s[i]->Ok_0.is_dir == f.is_dir by {
                let last = FileView {
                    path: member_path(m.path),
                    size_bytes: m.size,
                    is_dir: m.is_dir,
                };
                if all.contains(f) {
                    let k = choose|k: int| 0 <= k < all.len() && all[k] == f;
                    if k < front.len() {
                        assert(front[k] == f);
                        assert(front.contains(f));
                        let i = choose|i: int|
                            0 <= i < t.len() && member_path((#[trigger] t[i])->Ok_0.path) == f.path
                                && t[i]->Ok_0.size == f.size_bytes && t[i]->Ok_0.is_dir == f.is_dir;
                        assert(s[i] == t[i]);
                    } else {
                        assert(f == last);
                        assert(s[s.len() - 1]->Ok_0 == m);
                    }
                }
                if f.path.len() > 0 && exists|i: int|
                    0 <= i < s.len() && member_path((#[trigger] s[i])->Ok_0.path) == f.path
                        && s[i]->Ok_0.size == f.size_bytes && s[i]->Ok_0.is_dir == f.is_dir {
                    let i = choose|i: int|
                        0 <= i < s.len() && member_path((#[trigger] s[i])->Ok_0.path) == f.path
                            && s[i]->Ok_0.size == f.size_bytes && s[i]->Ok_0.is_dir == f.is_dir;
                    if i < t.len() {
                        assert(t[i] == s[i]);
                        assert(front.contains(f));
                        let k = choose|k: int| 0 <= k < front.len() && front[k] == f;
                        assert(all[k] == f);
                    } else {
                        assert(f =~= last);
                        assert(all[all.len() - 1] == f);
                    }
                }
            }
        } else {
            if files_of(t) is Err {
                let i = choose|i: int| 0 <= i < t.len() && !((#[trigger] t[i]) is Ok);
                assert(!(s[i] is Ok));
            } else {
                assert(!(s[s.len() - 1] is Ok));
            }
        }
    }
}

/// A package lists every member with a path, with its size and whether it is a directory, and
/// nothing else; it fails exactly where an entry could not be read.
pub proof fn law_every_member_is_listed(
    entries: Vec<Result<Member, String>>,
    r: AppResult<Vec<LocalChartFile>>,
    path: Seq<char>,
    size: u64,
    is_dir: bool,
)
    requires
        call_ensures(list_files, (&entries,), r),
        path.len() > 0,
    ensures
        r is Ok <==> forall|i: int| 0 <= i < entries@.len() ==> (#[trigger] entries@[i]) is Ok,
        r is Ok ==> ((exists|k: int|
            0 <= k < r->Ok_0@.len() && (#[trigger] r->Ok_0@[k]).path@ == path
                && r->Ok_0@[k].size_bytes == size && r->Ok_0@[k].is_dir == is_dir) <==> exists|
            i: int,
        |
            0 <= i < entries@.len() && valid_utf8((#[trigger] entries@[i])->Ok_0.path@)
                && decode_utf8(entries@[i]->Ok_0.path@) == path && entries@[i]->Ok_0.size == size
                && entries@[i]->Ok_0.is_dir == is_dir),
        r is Ok ==> forall|i: int, j: int|
            #![trigger r->Ok_0@[i], r->Ok_0@[j]]
            0 <= i < j < r->Ok_0@.len() ==> !sorts_before(r->Ok_0@[j].path@, r->Ok_0@[i].path@),
{
    let s = entry_views(entries@);
    lemma_files_of(s);
    assert(s.len() == entries@.len());
    assert forall|i: int| 0 <= i < s.len() implies #[trigger] s[i] == entry_view(entries@[i]) by {}
    if forall|i: int| 0 <= i < entries@.len() ==> (#[trigger] entries@[i]) is Ok {
        assert forall|i: int| 0 <= i < s.len() implies (#[trigger] s[i]) is Ok by {
            assert(entries@[i] is Ok);
        }
    }
    if r is Ok {
        assert forall|i: int| 0 <= i < entries@.len() implies (#[trigger] entries@[i]) is Ok by {
            assert(s[i] is Ok);
        }
        let v = views(r->Ok_0@);
        let files = files_of(s)->Ok_0;
        let f = FileView { path, size_bytes: size, is_dir };
        assert(v.len() == r->Ok_0@.len());
        lemma_sorted_members(files, by_file_path());
        lemma_by_text_ranks(|f: FileView| f.path);
        lemma_sorted_in_order(files, by_file_path());
        assert(v.contains(f) <==> files.contains(f));
        assert forall|i: int, j: int|
            #![trigger r->Ok_0@[i], r->Ok_0@[j]]
            0 <= i < j < r->Ok_0@.len() implies !sorts_before(
            r->Ok_0@[j].path@,
            r->Ok_0@[i].path@,
        ) by {
            assert(v[i] == r->Ok_0@[i]@ && v[j] == r->Ok_0@[j]@);
            assert(!by_file_path()(v[j], v[i]));
        }
        if exists|k: int|
            0 <= k < r->Ok_0@.len() && (#[trigger] r->Ok_0@[k]).path@ == path
                && r->Ok_0@[k].size_bytes == size && r->Ok_0@[k].is_dir == is_dir {
            let k = choose|k: int|
                0 <= k < r->Ok_0@.len() && (#[trigger] r->Ok_0@[k]).path@ == path
                    && r->Ok_0@[k].size_bytes == size && r->Ok_0@[k].is_dir == is_dir;
            assert(v[k] == r->Ok_0@[k]@);
            assert(v[k] =~= f);
            assert(v.contains(f));
            let i = choose|i: int|
                0 <= i < s.len() && member_path((#[trigger] s[i])->Ok_0.path) == f.path
                    && s[i]->Ok_0.size == f.size_bytes && s[i]->Ok_0.is_dir == f.is_dir;
            assert(entries@[i] is Ok);
            assert(valid_utf8(entries@[i]->Ok_0.path@));
        }
        if exists|i: int|
            0 <= i < entries@.len() && valid_utf8((#[trigger] entries@[i])->Ok_0.path@)
                && decode_utf8(entries@[i]->Ok_0.path@) == path && entries@[i]->Ok_0.size == size
                && entries@[i]->Ok_0.is_dir == is_dir {
            let i = choose|i: int|
                0 <= i < entries@.len() && valid_utf8((#[trigger] entries@[i])->Ok_0.path@)
                    && decode_utf8(entries@[i]->Ok_0.path@) == path && entries@[i]->Ok_0.size == size
                    && entries@[i]->Ok_0.is_dir == is_dir;
            assert(s[i] is Ok);
            assert(member_path(s[i]->Ok_0.path) == f.path);
            assert(files.contains(f));
            let k = choose|k: int| 0 <= k < v.len() && v[k] == f;
            assert(v[k] == r->Ok_0@[k]@);
        }
    }
}

/// A file of a chart directory goes by its path from the chart on; a directory has no size of
/// its own.
pub proof fn law_a_file_goes_by_its_path(
    rel: &str,
    name: &str,
    size: u64,
    is_dir: bool,
    r: LocalChartFile,
)
    requires
        call_ensures(dir_file, (rel, name, size, is_dir), r),
    ensures
        rel@.len() == 0 ==> r.path@ == name@,
        rel@.len() > 0 ==> r.path@ == rel@ + "/"@ + name@,
        r.is_dir == is_dir,
        is_dir ==> r.size_bytes == 0,
        !is_dir ==> r.size_bytes == size,
{
}

/// A path that is read out of a chart starts with no slash, and none of its parts is two
/// dots.
pub proof fn law_only_paths_inside_are_read<'a>(inner: &'a str, r: AppResult<&'a str>)
    requires
        call_ensures(safe_inner_path, (inner,), r),
    ensures
        r is Ok ==> r->Ok_0@ == inner@,
        inner@.len() > 0 && inner@[0] == '/' ==> r is Err,
        goes_up(inner@) ==> r is Err,
        inner@.len() > 0 && inner@[0] != '/' && !goes_up(inner@) ==> r is Ok,
{
    reveal_strlit("/");
    assert("/"@ =~= seq!['/']);
    if inner@.len() > 0 {
        assert(inner@.take(1) =~= seq![inner@[0]]);
        assert(inner@.take(1)[0] == inner@[0] && "/"@[0] == '/');
    }
}

/// Each action has its own word, and is found again by it.
pub proof fn law_words_of_actions(a: DepsAction, word: &'static str, back: Option<DepsAction>)
    requires
        call_ensures(DepsAction::verb, (a,), word),
        call_ensures(DepsAction::from_verb, (word,), back),
    ensures
        a == DepsAction::List ==> word@ == "list"@,
        a == DepsAction::Build ==> word@ == "build"@,
        a == DepsAction::Update ==> word@ == "update"@,
        back == Some(a),
{
    reveal_strlit("list");
    reveal_strlit("build");
    reveal_strlit("update");
    assert("list"@.len() == 4 && "build"@.len() == 5 && "update"@.len() == 6);
    if back is None {
        assert(a.word() != word@);
    }
}

proof fn lemma_package_from(s: Seq<LocalChartEntry>, name: Seq<char>, from: int)
    requires
        0 <= from,
    ensures
        match package_from(s, name, from) {
            Some(i) => from <= i < s.len() && s[i].kind == LocalChartKind::Tgz && s[i].name@ == name
                && forall|j: int|
                from <= j < i ==> !((#[trigger] s[j]).kind == LocalChartKind::Tgz && s[j].name@
                    == name),
            None => forall|j: int|
                from <= j < s.len() ==> !((#[trigger] s[j]).kind == LocalChartKind::Tgz
                    && s[j].name@ == name),
        },
    decreases s.len() - from,
{
    if from < s.len() && !(s[from].kind == LocalChartKind::Tgz && s[from].name@ == name) {
        lemma_package_from(s, name, from + 1);
    }
}

/// What was just packaged is the first package of the chart's name in the listing, never a
/// directory and never another chart.
pub proof fn law_the_packaged_chart_is_the_first_of_its_name(
    listing: Vec<LocalChartEntry>,
    name: &str,
    r: AppResult<LocalChartEntry>,
)
    requires
        call_ensures(packaged_chart, (listing, name), r),
    ensures
        r is Ok ==> exists|i: int|
            0 <= i < listing@.len() && #[trigger] listing@[i] == r->Ok_0 && listing@[i].kind
                == LocalChartKind::Tgz && listing@[i].name@ == name@ && (forall|j: int|
                0 <= j < i ==> !((#[trigger] listing@[j]).kind == LocalChartKind::Tgz
                    && listing@[j].name@ == name@)),
        r is Err <==> forall|j: int|
            0 <= j < listing@.len() ==> !((#[trigger] listing@[j]).kind == LocalChartKind::Tgz
                && listing@[j].name@ == name@),
{
    lemma_package_from(listing@, name@, 0);
    if r is Ok {
        let i = package_from(listing@, name@, 0)->0;
        assert(listing@[i] == r->Ok_0);
    }
}

/// An entry says what the metadata and the file system say of the chart.
pub proof fn law_entry_says_what_is_known(
    kind: LocalChartKind,
    meta: ChartYaml,
    path: String,
    size: u64,
    secs: i64,
    id: String,
    r: LocalChartEntry,
)
    requires
        call_ensures(entry_from_meta, (kind, meta, path, size, secs, id), r),
    ensures
        r.id@ == id@ && r.kind == kind && r.path@ == path@ && r.size_bytes == size,
        r.name@ == meta.name@ && r.version@ == meta.version@,
        r.app_version@ == meta.app_version@ && r.description@ == meta.description@,
        r.icon@ == meta.icon@,
        rfc3339_text(secs) matches Some(t) ==> r.modified_at@ == t,
{
}

/// An id stands for the directory of its name, and else for a package with either extension.
pub proof fn law_which_files_an_id_stands_for(id: &str, data_dir: &str, r: Vec<String>, root: String)
    requires
        call_ensures(candidate_names, (id,), r),
        call_ensures(charts_dir, (data_dir,), root),
    ensures
        r@.len() == 3,
        r@[0]@ == id@,
        r@[1]@ == id@ + ".tgz"@,
        r@[2]@ == id@ + ".tar.gz"@,
        root@ == joined_path(data_dir@, "charts"@),
{
    let t = texts(r@);
    assert(t.len() == r@.len());
    assert(t[0] == r@[0]@ && t[1] == r@[1]@ && t[2] == r@[2]@);
}

/// A chart is found by its id: the first of the listing that has it.
pub proof fn law_chart_is_found_by_its_id(
    listing: Vec<LocalChartEntry>,
    id: &str,
    r: AppResult<LocalChartEntry>,
    i: int,
)
    requires
        call_ensures(resolve, (listing, id), r),
    ensures
        0 <= i < listing@.len() && listing@[i].id@ == id@ && (forall|k: int|
            0 <= k < i ==> (#[trigger] listing@[k]).id@ != id@) ==> (r matches Ok(e) && e
            == listing@[i]),
        (forall|k: int| 0 <= k < listing@.len() ==> (#[trigger] listing@[k]).id@ != id@) ==> r is Err,
{
    lemma_chart_at(listing@, id@, i);
}

proof fn lemma_chart_at(s: Seq<LocalChartEntry>, id: Seq<char>, i: int)
    ensures
        0 <= i < s.len() && s[i].id@ == id && (forall|k: int|
            0 <= k < i ==> (#[trigger] s[k]).id@ != id) ==> named_at(s, id) == Some(i),
        (forall|k: int| 0 <= k < s.len() ==> (#[trigger] s[k]).id@ != id) ==> named_at(s, id) is None,
{
    lemma_named_from(s, id, 0);
    let n = named_at(s, id);
    if n is Some {
        assert(s[n->0].key() == id);
        assert(s[n->0].id@ == id);
    }
    if 0 <= i < s.len() && s[i].id@ == id {
        assert(s[i].key() == id);
    }
}

/// Each command of `helm` is run on the path of the chart asked for: a package can be verified
/// and a directory packaged, and neither the other way round.
pub proof fn law_helm_runs_on_the_chart_asked_for(
    listing: Vec<LocalChartEntry>,
    id: &str,
    root: &str,
    action: DepsAction,
    i: int,
    lint: AppResult<Vec<String>>,
    verify: AppResult<Vec<String>>,
    deps: AppResult<Vec<String>>,
    package: AppResult<(String, Vec<String>)>,
    word: &'static str,
)
    requires
        call_ensures(lint_chart, (listing, id), lint),
        call_ensures(verify_chart, (listing, id), verify),
        call_ensures(chart_deps, (listing, id, action), deps),
        call_ensures(package_chart, (listing, root, id), package),
        call_ensures(DepsAction::verb, (action,), word),
        0 <= i < listing@.len(),
        listing@[i].id@ == id@,
        forall|k: int| 0 <= k < i ==> (#[trigger] listing@[k]).id@ != id@,
    ensures
        lint matches Ok(v) && texts(v@) == seq!["lint"@, listing@[i].path@],
        deps matches Ok(v) && texts(v@) == seq!["dependency"@, word@, listing@[i].path@],
        listing@[i].kind == LocalChartKind::Tgz ==> (verify matches Ok(v) && texts(v@) == seq![
            "verify"@,
            listing@[i].path@,
        ]) && package is Err,
        listing@[i].kind == LocalChartKind::Dir ==> verify is Err && (package matches Ok((name, v))
            && name@ == listing@[i].name@ && texts(v@) == seq![
            "package"@,
            listing@[i].path@,
            "--destination"@,
            root@,
        ]),
{
    lemma_chart_at(listing@, id@, i);
}

/// Listing the dependencies writes nothing; the other actions do.
pub proof fn law_which_actions_write(action: DepsAction, r: bool)
    requires
        call_ensures(DepsAction::writes, (action,), r),
    ensures
        action == DepsAction::List ==> !r,
        action == DepsAction::Build || action == DepsAction::Update ==> r,
{
}

/// A package shows its `Chart.yaml`, its values and its README, each as it is read from the
/// package, and nothing where it cannot be; it is listed with its files.
pub proof fn law_package_shows_its_files(
    entry: LocalChartEntry,
    bytes: &[u8],
    r: AppResult<LocalChartDetail>,
    chart: &str,
    values: &str,
    readme: &str,
    chart_text: AppResult<String>,
    values_text: AppResult<String>,
    readme_text: AppResult<String>,
    files: AppResult<Vec<LocalChartFile>>,
)
    requires
        call_ensures(package_detail, (entry, bytes), r),
        chart@ == "Chart.yaml"@,
        values@ == "values.yaml"@,
        readme@ == "README.md"@,
        call_ensures(read_member, (bytes, chart), chart_text),
        call_ensures(read_member, (bytes, values), values_text),
        call_ensures(read_member, (bytes, readme), readme_text),
        call_ensures(tgz_files, (bytes,), files),
    ensures
        r is Ok <==> files is Ok,
        r matches Ok(d) ==> {
            &&& d.entry == entry
            &&& views(d.files@) == views(files->Ok_0@)
            &&& (chart_text matches Ok(t) ==> d.chart_yaml@ == t@)
            &&& (values_text matches Ok(t) ==> d.values_yaml@ == t@)
            &&& (readme_text matches Ok(t) ==> d.readme@ == t@)
            &&& (chart_text is Err ==> d.chart_yaml@.len() == 0)
            &&& (values_text is Err ==> d.values_yaml@.len() == 0)
            &&& (readme_text is Err ==> d.readme@.len() == 0)
        },
{
}

/// A member is read from the place where it is found, at most ten mebibytes of it.
pub proof fn law_member_is_read_where_it_is_found(
    bytes: &[u8],
    inner: &str,
    entries: Vec<Result<Member, String>>,
    at: AppResult<usize>,
    r: AppResult<String>,
)
    requires
        call_ensures(read_member, (bytes, inner), r),
        tgz_entries(bytes@) == Ok::<Seq<Result<MemberView, Seq<char>>>, Seq<char>>(
            entry_views(entries@),
        ),
        call_ensures(find_member, (&entries, inner), at),
    ensures
        at is Err ==> r is Err,
        at matches Ok(i) ==> match tgz_text(bytes@, i, 10_485_760) {
            Ok(t) => r matches Ok(x) && x@ == t,
            Err(_) => r is Err,
        },
{
}

/// The `Chart.yaml` is read whole from the place where it is found.
pub proof fn law_chart_yaml_is_read_where_it_is_found(
    bytes: &[u8],
    entries: Vec<Result<Member, String>>,
    at: AppResult<usize>,
    r: AppResult<String>,
)
    requires
        call_ensures(chart_yaml_text, (bytes,), r),
        tgz_entries(bytes@) == Ok::<Seq<Result<MemberView, Seq<char>>>, Seq<char>>(
            entry_views(entries@),
        ),
        call_ensures(find_chart_yaml, (&entries,), at),
    ensures
        at is Err ==> r is Err,
        at matches Ok(i) ==> match tgz_text(bytes@, i, u64::MAX) {
            Ok(t) => r matches Ok(x) && x@ == t,
            Err(_) => r is Err,
        },
{
}

} // verus!
