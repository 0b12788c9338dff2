//! Helm chart repositories and the charts in them.
//!
//! The list of repositories and the cached index of each are kept in files, and
//! indexes are fetched over the network; both happen elsewhere. This module holds
//! the rules: which repositories there may be, what a refresh leaves behind, and
//! what a search finds.
use crate::argv::{has_option, push_two};
use crate::error::{other, AppError, AppResult};
use crate::lists::{
    by_down_and_up, by_view, drop_entry, in_order, lemma_by_down_and_up_ranks,
    lemma_drop_then_find, lemma_named_from, lemma_sorted_in_order, lemma_sorted_members,
    lemma_sorted_rearranges, lemma_sorted_views, named_at, position, sort, sorted_by, views,
    without_entry, Named,
};
use crate::paths::{join_path, joined_path};
use crate::text::{
    cat2, cat3, cat4, cat5, copy_opt, contains, contains_char, ends_with, has_part, has_prefix,
    has_suffix, is_space, join, joined, less, lowercase, no_texts, occurs_at, opt_text, push_text,
    same, sorts_before, starts_with, text_or_nothing, texts, trim, trim_end_char, trimmed,
    without_end,
};
use vstd::prelude::*;

verus! {

/// How long a cached index is fresh, in seconds.
pub const INDEX_TTL: u64 = 3600;

/// A chart repository.
#[derive(Clone, Debug)]
pub struct HelmRepo {
    pub name: String,
    pub url: String,
    pub description: String,
    /// When the index was last refreshed, if ever.
    pub last_refreshed: Option<String>,
    /// Why the last refresh failed, if it did.
    pub last_error: Option<String>,
}

/// What a repository's entry says.
#[verifier::ext_equal]
pub struct RepoView {
    pub name: Seq<char>,
    pub url: Seq<char>,
    pub description: Seq<char>,
    pub last_refreshed: Option<Seq<char>>,
    pub last_error: Option<Seq<char>>,
}

impl View for HelmRepo {
    type V = RepoView;

    open spec fn view(&self) -> RepoView {
        RepoView {
            name: self.name@,
            url: self.url@,
            description: self.description@,
            last_refreshed: opt_text(self.last_refreshed),
            last_error: opt_text(self.last_error),
        }
    }
}

impl Named for HelmRepo {
    open spec fn key(&self) -> Seq<char> {
        self.name@
    }

    fn key_str(&self) -> (r: &str) {
        self.name.as_str()
    }
}

/// The entry of a repository that was never refreshed.
pub open spec fn fresh_repo(name: Seq<char>, url: Seq<char>, description: Seq<char>) -> RepoView {
    RepoView { name, url, description, last_refreshed: None, last_error: None }
}

fn new_repo(name: &str, url: &str, description: &str) -> (r: HelmRepo)
    ensures
        r@ == fresh_repo(name@, url@, description@),
{
    HelmRepo {
        name: name.to_owned(),
        url: url.to_owned(),
        description: description.to_owned(),
        last_refreshed: None,
        last_error: None,
    }
}

fn copy_repo(repo: &HelmRepo) -> (r: HelmRepo)
    ensures
        r@ == repo@,
{
    HelmRepo {
        name: repo.name.clone(),
        url: repo.url.clone(),
        description: repo.description.clone(),
        last_refreshed: copy_opt(&repo.last_refreshed),
        last_error: copy_opt(&repo.last_error),
    }
}

// ---------------------------------------------------------------------------
// Indexes
// ---------------------------------------------------------------------------

#[derive(Clone, Debug)]
pub struct Maintainer {
    pub name: String,
    pub email: String,
    pub url: String,
}

/// One version of a chart.
#[derive(Clone, Debug)]
pub struct ChartVersion {
    pub name: String,
    pub version: String,
    pub app_version: String,
    pub description: String,
    pub home: String,
    pub keywords: Vec<String>,
    pub maintainers: Vec<Maintainer>,
    /// Where the package is; `helm pull` uses the first.
    pub urls: Vec<String>,
    /// When this version was published, in RFC 3339.
    pub created: String,
    pub annotations: Vec<(String, String)>,
}

/// An index as far as it is read.
#[derive(Clone, Debug)]
pub struct HelmIndex {
    pub api_version: String,
    pub generated: String,
    /// The versions of each chart, the newest first; charts in the order of their
    /// names.
    pub entries: Vec<(String, Vec<ChartVersion>)>,
}

/// A chart of a repository, in its newest version.
#[derive(Clone, Debug)]
pub struct ChartSummary {
    pub repo: String,
    pub name: String,
    pub version: String,
    pub app_version: String,
    pub description: String,
    pub keywords: Vec<String>,
    pub home: String,
    pub maintainers: Vec<Maintainer>,
}

/// What a summary says of a maintainer: name, email and URL.
pub open spec fn maintainer_texts(s: Seq<Maintainer>) -> Seq<(Seq<char>, Seq<char>, Seq<char>)> {
    Seq::new(s.len(), |i: int| (s[i].name@, s[i].email@, s[i].url@))
}

/// What a summary says.
#[verifier::ext_equal]
pub struct SummaryView {
    pub repo: Seq<char>,
    pub name: Seq<char>,
    pub version: Seq<char>,
    pub app_version: Seq<char>,
    pub description: Seq<char>,
    pub keywords: Seq<Seq<char>>,
    pub home: Seq<char>,
    pub maintainers: Seq<(Seq<char>, Seq<char>, Seq<char>)>,
}

impl View for ChartSummary {
    type V = SummaryView;

    open spec fn view(&self) -> SummaryView {
        SummaryView {
            repo: self.repo@,
            name: self.name@,
            version: self.version@,
            app_version: self.app_version@,
            description: self.description@,
            keywords: texts(self.keywords@),
            home: self.home@,
            maintainers: maintainer_texts(self.maintainers@),
        }
    }
}

/// A version of a chart, as its list of versions shows it.
#[derive(Clone, Debug)]
pub struct ChartVersionEntry {
    pub version: String,
    pub app_version: String,
    pub created: String,
    pub urls: Vec<String>,
}

// ---------------------------------------------------------------------------
// Files
// ---------------------------------------------------------------------------

/// The kinds of systems that keep their files in different places.
#[derive(Clone, Copy, Debug, PartialEq, Eq, Structural)]
pub enum Platform {
    Apple,
    Linux,
    Windows,
    Unknown,
}

/// A directory below one that may be known.
pub open spec fn below(dir: Option<&str>, path: Seq<char>) -> Option<Seq<char>> {
    match dir {
        Some(d) => Some(joined_path(d@, path)),
        None => None,
    }
}

fn dir_below(dir: Option<&str>, path: &str) -> (r: Option<String>)
    ensures
        opt_text(r) == below(dir, path@),
{
    match dir {
        Some(d) => Some(join_path(d, path)),
        None => None,
    }
}

/// Where the configuration is kept. `own` is the directory that the environment
/// names for it: `XDG_CONFIG_HOME` on Linux, `APPDATA` on Windows.
pub fn config_dir(platform: Platform, own: Option<&str>, home: Option<&str>) -> (r: Option<String>)
    ensures
        opt_text(r) == (match platform {
            Platform::Apple => below(home, "Library/Application Support/k7s"@),
            Platform::Linux => if own is Some {
                below(own, "k7s"@)
            } else {
                below(home, ".config/k7s"@)
            },
            Platform::Windows => below(own, "k7s"@),
            Platform::Unknown => None,
        }),
{
    match platform {
        Platform::Apple => dir_below(home, "Library/Application Support/k7s"),
        Platform::Linux => {
            if own.is_some() {
                dir_below(own, "k7s")
            } else {
                dir_below(home, ".config/k7s")
            }
        },
        Platform::Windows => dir_below(own, "k7s"),
        Platform::Unknown => None,
    }
}

/// Where indexes are cached. `own` is the directory that the environment names
/// for caches: `XDG_CACHE_HOME` on Linux, `LOCALAPPDATA` on Windows.
pub fn cache_dir(platform: Platform, own: Option<&str>, home: Option<&str>) -> (r: Option<String>)
    ensures
        opt_text(r) == (match platform {
            Platform::Apple => below(home, "Library/Caches/k7s/helm-index"@),
            Platform::Linux => if own is Some {
                below(own, "k7s/helm-index"@)
            } else {
                below(home, ".cache/k7s/helm-index"@)
            },
            Platform::Windows => below(own, "k7s/cache/helm-index"@),
            Platform::Unknown => None,
        }),
{
    match platform {
        Platform::Apple => dir_below(home, "Library/Caches/k7s/helm-index"),
        Platform::Linux => {
            if own.is_some() {
                dir_below(own, "k7s/helm-index")
            } else {
                dir_below(home, ".cache/k7s/helm-index")
            }
        },
        Platform::Windows => dir_below(own, "k7s/cache/helm-index"),
        Platform::Unknown => None,
    }
}

/// The path of the file with the repositories, in the configuration directory.
pub fn repos_path(dir: Option<&str>) -> (r: AppResult<String>)
    ensures
        match (r, dir) {
            (Ok(p), Some(d)) => p@ == joined_path(d@, "helm-repos.json"@),
            (Err(e), None) => e.is_other(
                "cannot resolve config directory (no HOME / XDG_CONFIG_HOME)"@,
            ),
            _ => false,
        },
{
    match dir {
        Some(d) => Ok(join_path(d, "helm-repos.json")),
        None => Err(other("cannot resolve config directory (no HOME / XDG_CONFIG_HOME)")),
    }
}

/// A character that has no place in a file name.
pub open spec fn is_separator(c: char) -> bool {
    c == '/' || c == '\\' || c == ':'
}

/// A repository name as part of a file name.
pub open spec fn flattened(name: Seq<char>) -> Seq<char> {
    Seq::new(
        name.len(),
        |i: int|
            if is_separator(name[i]) {
                '_'
            } else {
                name[i]
            },
    )
}

fn flatten(name: &str) -> (r: String)
    ensures
        r@ == flattened(name@),
{
    let n = name.unicode_len();
    let mut out = String::new();
    let mut i: usize = 0;
    assert(out@ =~= flattened(name@).take(0));
    while i < n
        invariant
            i <= n,
            n == name@.len(),
            out@ == flattened(name@).take(i as int),
        decreases n - i,
    {
        let c = name.get_char(i);
        if c == '/' || c == '\\' || c == ':' {
            out.push('_');
        } else {
            out.push(c);
        }
        i += 1;
        assert(out@ =~= flattened(name@).take(i as int));
    }
    assert(flattened(name@).take(i as int) =~= flattened(name@));
    out
}

/// The path of the cached index of a repository, in the cache directory.
pub fn index_path(dir: Option<&str>, repo: &str) -> (r: AppResult<String>)
    ensures
        match (r, dir) {
            (Ok(p), Some(d)) => p@ == joined_path(d@, flattened(repo@) + ".yaml"@),
            (Err(e), None) => e.is_other("cannot resolve cache directory"@),
            _ => false,
        },
{
    match dir {
        Some(d) => {
            let safe = flatten(repo);
            let file = cat2(safe.as_str(), ".yaml");
            Ok(join_path(d, file.as_str()))
        },
        None => Err(other("cannot resolve cache directory")),
    }
}

impl HelmRepo {
    /// Where the cached index of the repository is, given the cache directory.
    pub fn index_file_hint(&self, dir: Option<&str>) -> (r: Option<String>)
        ensures
            opt_text(r) == below(dir, flattened(self.name@) + ".yaml"@),
    {
        match index_path(dir, self.name.as_str()) {
            Ok(p) => Some(p),
            Err(_) => None,
        }
    }
}

/// A cached index is fresh: its age is not known, or no more than the limit.
pub open spec fn is_fresh(age: Option<(u64, u32)>) -> bool {
    match age {
        Some((secs, nanos)) => secs < INDEX_TTL || (secs == INDEX_TTL && nanos == 0),
        None => true,
    }
}

/// Whether a cached index is fresh, by its age in seconds and nanoseconds.
pub fn index_is_fresh(age: Option<(u64, u32)>) -> (r: bool)
    ensures
        r == is_fresh(age),
{
    match age {
        Some((secs, nanos)) => secs < INDEX_TTL || (secs == INDEX_TTL && nanos == 0),
        None => true,
    }
}

// ---------------------------------------------------------------------------
// Repositories
// ---------------------------------------------------------------------------

/// The repositories that everybody starts with.
pub open spec fn seeds() -> Seq<RepoView> {
    seq![
        fresh_repo(
            "bitnami"@,
            "https://charts.bitnami.com/bitnami"@,
            "Bitnami catalog (broad coverage, well-tested defaults)"@,
        ),
        fresh_repo(
            "stable"@,
            "https://charts.helm.sh/stable"@,
            "Helm stable chart repository (community-maintained, frozen)"@,
        ),
    ]
}

/// The repositories that everybody starts with.
pub fn seed_repos() -> (r: Vec<HelmRepo>)
    ensures
        views(r@) == seeds(),
{
    let mut v: Vec<HelmRepo> = Vec::new();
    v.push(
        new_repo(
            "bitnami",
            "https://charts.bitnami.com/bitnami",
            "Bitnami catalog (broad coverage, well-tested defaults)",
        ),
    );
    v.push(
        new_repo(
            "stable",
            "https://charts.helm.sh/stable",
            "Helm stable chart repository (community-maintained, frozen)",
        ),
    );
    assert(views(v@) =~= seeds());
    v
}

/// One of some repositories is called `name`.
pub open spec fn has_repo(s: Seq<RepoView>, name: Seq<char>) -> bool {
    exists|i: int| 0 <= i < s.len() && (#[trigger] s[i]).name == name
}

/// Repositories with those of `more` that are missing, by name.
pub open spec fn completed(s: Seq<RepoView>, more: Seq<RepoView>) -> Seq<RepoView>
    decreases more.len(),
{
    if more.len() == 0 {
        s
    } else {
        let front = completed(s, more.drop_last());
        if has_repo(front, more.last().name) {
            front
        } else {
            front.push(more.last())
        }
    }
}

fn is_repo(repos: &Vec<HelmRepo>, name: &str) -> (r: bool)
    ensures
        r == has_repo(views(repos@), name@),
{
    let ghost all = views(repos@);
    let mut i: usize = 0;
    while i < repos.len()
        invariant
            i <= repos@.len(),
            all == views(repos@),
            forall|k: int| 0 <= k < i ==> (#[trigger] all[k]).name != name@,
        decreases repos@.len() - i,
    {
        assert(all[i as int] == repos@[i as int]@);
        if same(repos[i].name.as_str(), name) {
            return true;
        }
        i += 1;
    }
    false
}

/// Adds the repositories that everybody starts with, as far as they are missing;
/// those that are there stay as they are. The result says whether any was added,
/// and the list has to be written.
pub fn seed_default_repos(repos: &mut Vec<HelmRepo>) -> (r: bool)
    ensures
        views(final(repos)@) == completed(views(old(repos)@), seeds()),
        r == (final(repos)@.len() != old(repos)@.len()),
{
    let ghost start = views(repos@);
    let list = seed_repos();
    let ghost all = seeds();
    let mut added = false;
    let before: usize = repos.len();
    assert(all.take(0) =~= Seq::empty());
    assert(start.len() == repos@.len());
    for seed in it: list
        invariant
            views(it.seq()) == all,
            views(repos@) == completed(start, all.take(it.index())),
            repos@.len() >= before,
            added == (repos@.len() != before),
    {
        assert(all.take(it.index() + 1).drop_last() =~= all.take(it.index()));
        assert(seed@ == all[it.index()]);
        if !is_repo(repos, seed.name.as_str()) {
            let ghost old_views = views(repos@);
            repos.push(seed);
            added = true;
            assert(views(repos@) =~= old_views.push(all[it.index()]));
        }
    }
    assert(all.take(all.len() as int) =~= all);
    added
}

/// The order of the listing: the last refreshed first, and by name.
pub open spec fn by_refresh() -> spec_fn(HelmRepo, HelmRepo) -> bool {
    by_down_and_up(|r: HelmRepo| text_or_nothing(r.last_refreshed), |r: HelmRepo| r.name@)
}

fn opt_str<'a>(o: &'a Option<String>) -> (r: &'a str)
    ensures
        r@ == text_or_nothing(*o),
{
    match o {
        Some(s) => s.as_str(),
        None => {
            proof {
                reveal_strlit("");
                assert(""@ =~= Seq::<char>::empty());
            }
            ""
        },
    }
}

fn refreshed_later(a: &HelmRepo, b: &HelmRepo) -> (r: bool)
    ensures
        r == by_refresh()(*a, *b),
{
    let x = opt_str(&a.last_refreshed);
    let y = opt_str(&b.last_refreshed);
    less(y, x) || (same(x, y) && less(a.name.as_str(), b.name.as_str()))
}

/// The repositories, the last refreshed first, and by name where that does not
/// tell.
pub fn list_repos(repos: Vec<HelmRepo>) -> (r: Vec<HelmRepo>)
    ensures
        r@ == sorted_by(repos@, by_refresh()),
{
    sort(repos, refreshed_later, Ghost(by_refresh()))
}

/// Why a repository cannot be added, if it cannot. Names are compared without
/// regard to case.
pub open spec fn add_problem(s: Seq<HelmRepo>, name: Seq<char>, url: Seq<char>) -> Option<Seq<char>> {
    if name.len() == 0 {
        Some("repo name cannot be empty"@)
    } else if url.len() == 0 {
        Some("repo url cannot be empty"@)
    } else if name.contains('/') || name.contains(' ') || name.contains('\\') {
        Some("repo name must not contain '/', ' ', or '\\'"@)
    } else if has_name_alike(s, name) {
        Some("repo '"@ + name + "' already exists"@)
    } else {
        None
    }
}

/// One of some repositories is called `name`, but for the case of letters.
pub open spec fn has_name_alike(s: Seq<HelmRepo>, name: Seq<char>) -> bool {
    exists|i: int| 0 <= i < s.len() && lowercase((#[trigger] s[i]).name@) == lowercase(name)
}

/// The URL of a repository as it is kept.
pub open spec fn kept_url(url: Seq<char>) -> Seq<char> {
    without_end(trimmed(url), '/')
}

fn is_name_taken(repos: &Vec<HelmRepo>, name: &str) -> (r: bool)
    ensures
        r == has_name_alike(repos@, name@),
{
    let wanted = name.to_lowercase();
    let mut i: usize = 0;
    while i < repos.len()
        invariant
            i <= repos@.len(),
            wanted@ == lowercase(name@),
            forall|k: int| 0 <= k < i ==> lowercase((#[trigger] repos@[k]).name@) != lowercase(name@),
        decreases repos@.len() - i,
    {
        let lower = repos[i].name.as_str().to_lowercase();
        if same(lower.as_str(), wanted.as_str()) {
            return true;
        }
        i += 1;
    }
    false
}

/// Adds a repository. Blanks around the name and the URL and slashes at the end of
/// the URL are dropped; a name that is taken, in whatever case, is refused.
pub fn add_repo(repos: &mut Vec<HelmRepo>, name: &str, url: &str, description: &str) -> (r: AppResult<
    HelmRepo,
>)
    ensures
        match (r, add_problem(old(repos)@, trimmed(name@), kept_url(url@))) {
            (Ok(repo), None) => {
                &&& repo@ == fresh_repo(trimmed(name@), kept_url(url@), description@)
                &&& views(final(repos)@) == views(old(repos)@).push(repo@)
            },
            (Err(e), Some(m)) => e.is_other(m) && *final(repos) == *old(repos),
            _ => false,
        },
{
    let name = trim(name);
    let url = trim_end_char(trim(url), '/');
    if name.is_empty() {
        return Err(other("repo name cannot be empty"));
    }
    if url.is_empty() {
        return Err(other("repo url cannot be empty"));
    }
    if contains_char(name, '/') || contains_char(name, ' ') || contains_char(name, '\\') {
        return Err(other("repo name must not contain '/', ' ', or '\\'"));
    }
    if is_name_taken(repos, name) {
        let text = cat3("repo '", name, "' already exists");
        return Err(other(text.as_str()));
    }
    let ghost before = views(repos@);
    let repo = new_repo(name, url, description);
    repos.push(new_repo(name, url, description));
    assert(views(repos@) =~= before.push(repo@));
    Ok(repo)
}

/// Removes a repository. The result says whether it was there, and the list has to
/// be written; one that is not there is no error.
pub fn remove_repo(repos: &mut Vec<HelmRepo>, name: &str) -> (r: bool)
    ensures
        final(repos)@ == without_entry(old(repos)@, name@),
        r == (named_at(old(repos)@, name@) is Some),
{
    drop_entry(repos, name)
}

// ---------------------------------------------------------------------------
// Refreshing
// ---------------------------------------------------------------------------

/// What is said of a repository that is not there.
pub open spec fn no_repo_text(name: Seq<char>) -> Seq<char> {
    "repo '"@ + name + "' not found"@
}

fn no_repo(name: &str) -> (r: AppError)
    ensures
        r.is_not_found(no_repo_text(name@)),
{
    AppError::NotFound(cat3("repo '", name, "' not found"))
}

/// The URL of a repository that is to be refreshed.
pub fn repo_url(repos: &Vec<HelmRepo>, name: &str) -> (r: AppResult<String>)
    ensures
        match (r, named_at(repos@, name@)) {
            (Ok(u), Some(i)) => u@ == repos@[i].url@,
            (Err(e), None) => e.is_not_found(no_repo_text(name@)),
            _ => false,
        },
{
    match position(repos, name) {
        Some(i) => Ok(repos[i].url.clone()),
        None => Err(no_repo(name)),
    }
}

/// What is said of a registry that has no index.
pub const OCI_HAS_NO_INDEX: &'static str =
    "OCI registries have no index.yaml — search not supported, install via the OCI URL directly";

/// Where the index of the repository at `url` is.
pub fn index_url(url: &str) -> (r: AppResult<String>)
    ensures
        match r {
            Ok(u) => !has_prefix(url@, "oci://"@) && u@ == (if has_suffix(url@, "index.yaml"@) {
                url@
            } else {
                without_end(url@, '/') + "/index.yaml"@
            }),
            Err(e) => has_prefix(url@, "oci://"@) && e.is_other(OCI_HAS_NO_INDEX@),
        },
{
    if starts_with(url, "oci://") {
        return Err(other(OCI_HAS_NO_INDEX));
    }
    if ends_with(url, "index.yaml") {
        Ok(url.to_owned())
    } else {
        Ok(cat2(trim_end_char(url, '/'), "/index.yaml"))
    }
}

/// Whether an index was served, by the status of the answer.
pub fn index_served(index_url: &str, success: bool, status: &str) -> (r: AppResult<()>)
    ensures
        match r {
            Ok(_) => success,
            Err(e) => !success && e.is_other("fetch "@ + index_url@ + ": HTTP "@ + status@),
        },
{
    if success {
        Ok(())
    } else {
        let text = cat4("fetch ", index_url, ": HTTP ", status);
        Err(other(text.as_str()))
    }
}

/// A repository as a refresh at the time `now` leaves it.
pub open spec fn after_success(repo: RepoView, now: Seq<char>) -> RepoView {
    RepoView { last_refreshed: Some(now), last_error: None, ..repo }
}

/// A repository as a failed refresh leaves it.
pub open spec fn after_failure(repo: RepoView, error: Seq<char>) -> RepoView {
    RepoView { last_error: Some(error), ..repo }
}

/// Takes down that a repository was refreshed at the time `now`.
pub fn record_refresh(repos: &mut Vec<HelmRepo>, name: &str, now: &str) -> (r: AppResult<HelmRepo>)
    ensures
        match (r, named_at(old(repos)@, name@)) {
            (Ok(repo), Some(i)) => {
                &&& repo@ == after_success(old(repos)@[i]@, now@)
                &&& views(final(repos)@) == views(old(repos)@).update(i, repo@)
            },
            (Err(e), None) => e.is_not_found(no_repo_text(name@)) && *final(repos) == *old(repos),
            _ => false,
        },
{
    match position(repos, name) {
        None => Err(no_repo(name)),
        Some(i) => {
            let ghost before = views(repos@);
            let repo = &repos[i];
            let updated = HelmRepo {
                name: repo.name.clone(),
                url: repo.url.clone(),
                description: repo.description.clone(),
                last_refreshed: Some(now.to_owned()),
                last_error: None,
            };
            let kept = copy_repo(&updated);
            repos.set(i, kept);
            assert(views(repos@) =~= before.update(i as int, updated@));
            Ok(updated)
        },
    }
}

impl HelmRepo {
    /// The error that a repository is reported with: its own where it has one,
    /// else the one given.
    pub fn error_or(self, fallback: AppError) -> (r: AppError)
        ensures
            match opt_text(self.last_error) {
                Some(m) => r.is_other("repo '"@ + self.name@ + "': "@ + m),
                None => r == fallback,
            },
    {
        match self.last_error {
            Some(m) => AppError::Other(cat4("repo '", self.name.as_str(), "': ", m.as_str())),
            None => fallback,
        }
    }
}

/// Takes down that the refresh of a repository failed, and returns the error that
/// is reported.
pub fn record_failure(repos: &mut Vec<HelmRepo>, name: &str, error: AppError) -> (r: AppError)
    ensures
        match named_at(old(repos)@, name@) {
            Some(i) => {
                &&& views(final(repos)@) == views(old(repos)@).update(
                    i,
                    after_failure(old(repos)@[i]@, error.text()),
                )
                &&& r.is_other("repo '"@ + name@ + "': "@ + error.text())
            },
            None => r.is_not_found(no_repo_text(name@)) && *final(repos) == *old(repos),
        },
{
    match position(repos, name) {
        None => no_repo(name),
        Some(i) => {
            let ghost before = views(repos@);
            let repo = &repos[i];
            let updated = HelmRepo {
                name: repo.name.clone(),
                url: repo.url.clone(),
                description: repo.description.clone(),
                last_refreshed: copy_opt(&repo.last_refreshed),
                last_error: Some(error.message()),
            };
            let kept = copy_repo(&updated);
            repos.set(i, kept);
            assert(views(repos@) =~= before.update(i as int, updated@));
            updated.error_or(error)
        },
    }
}

/// The repositories called as `names`, those that are there, in that order.
pub open spec fn found_repos(repos: Seq<HelmRepo>, names: Seq<Seq<char>>) -> Seq<RepoView>
    decreases names.len(),
{
    if names.len() == 0 {
        Seq::empty()
    } else {
        let front = found_repos(repos, names.drop_last());
        match named_at(repos, names.last()) {
            Some(i) => front.push(repos[i]@),
            None => front,
        }
    }
}

/// What refreshing all repositories is answered with: each of them as it is
/// afterwards, those that failed with their error.
pub fn update_all_indexes(repos: &Vec<HelmRepo>, names: &Vec<String>) -> (r: Vec<HelmRepo>)
    ensures
        views(r@) == found_repos(repos@, texts(names@)),
{
    let ghost all = texts(names@);
    let mut out: Vec<HelmRepo> = Vec::new();
    let mut k: usize = 0;
    assert(views(out@) =~= Seq::empty());
    assert(all.take(0) =~= Seq::empty());
    while k < names.len()
        invariant
            k <= names@.len(),
            all == texts(names@),
            views(out@) == found_repos(repos@, all.take(k as int)),
        decreases names@.len() - k,
    {
        assert(all.take(k + 1).drop_last() =~= all.take(k as int));
        assert(all[k as int] == names@[k as int]@);
        if let Some(i) = position(repos, names[k].as_str()) {
            let ghost before = views(out@);
            out.push(copy_repo(&repos[i]));
            assert(views(out@) =~= before.push(repos@[i as int]@));
        }
        k += 1;
    }
    assert(all.take(k as int) =~= all);
    out
}

// ---------------------------------------------------------------------------
// Search
// ---------------------------------------------------------------------------

/// What a search looks at: name, keywords and description, in lower case.
pub open spec fn searched_text(v: ChartVersion) -> Seq<char> {
    lowercase(v.name@) + " "@ + lowercase(joined(texts(v.keywords@), " "@)) + " "@ + lowercase(
        v.description@,
    )
}

/// A chart is found by a query.
pub open spec fn is_match(v: ChartVersion, query: Seq<char>) -> bool {
    let q = lowercase(trimmed(query));
    q.len() == 0 || has_part(searched_text(v), q)
}

/// The summary of a chart called `name` in the repository `repo`.
pub open spec fn summary_of(repo: Seq<char>, name: Seq<char>, v: ChartVersion) -> SummaryView {
    SummaryView {
        repo,
        name,
        version: v.version@,
        app_version: v.app_version@,
        description: v.description@,
        keywords: texts(v.keywords@),
        home: v.home@,
        maintainers: maintainer_texts(v.maintainers@),
    }
}

/// What a query finds among the charts of one index: of each chart with a version
/// the first.
pub open spec fn found_in(
    repo: Seq<char>,
    entries: Seq<(String, Vec<ChartVersion>)>,
    query: Seq<char>,
) -> Seq<SummaryView>
    decreases entries.len(),
{
    if entries.len() == 0 {
        Seq::empty()
    } else {
        let front = found_in(repo, entries.drop_last(), query);
        let (name, versions) = entries.last();
        if versions@.len() > 0 && is_match(versions@[0], query) {
            front.push(summary_of(repo, name@, versions@[0]))
        } else {
            front
        }
    }
}

/// What a query finds in the indexes of repositories.
pub open spec fn found_charts(indexes: Seq<(String, HelmIndex)>, query: Seq<char>) -> Seq<
    SummaryView,
>
    decreases indexes.len(),
{
    if indexes.len() == 0 {
        Seq::empty()
    } else {
        found_charts(indexes.drop_last(), query) + found_in(
            indexes.last().0@,
            indexes.last().1.entries@,
            query,
        )
    }
}

/// The charts of one index: of each chart with a version the first.
pub open spec fn all_in(repo: Seq<char>, entries: Seq<(String, Vec<ChartVersion>)>) -> Seq<
    SummaryView,
>
    decreases entries.len(),
{
    if entries.len() == 0 {
        Seq::empty()
    } else {
        let front = all_in(repo, entries.drop_last());
        let (name, versions) = entries.last();
        if versions@.len() > 0 {
            front.push(summary_of(repo, name@, versions@[0]))
        } else {
            front
        }
    }
}

/// The charts in the indexes of repositories.
pub open spec fn all_charts(indexes: Seq<(String, HelmIndex)>) -> Seq<SummaryView>
    decreases indexes.len(),
{
    if indexes.len() == 0 {
        Seq::empty()
    } else {
        all_charts(indexes.drop_last()) + all_in(indexes.last().0@, indexes.last().1.entries@)
    }
}

proof fn lemma_empty_query_finds_all_in(
    repo: Seq<char>,
    entries: Seq<(String, Vec<ChartVersion>)>,
    query: Seq<char>,
)
    requires
        lowercase(trimmed(query)).len() == 0,
    ensures
        found_in(repo, entries, query) == all_in(repo, entries),
    decreases entries.len(),
{
    if entries.len() > 0 {
        lemma_empty_query_finds_all_in(repo, entries.drop_last(), query);
    }
}

proof fn lemma_empty_query_finds_all(indexes: Seq<(String, HelmIndex)>, query: Seq<char>)
    requires
        lowercase(trimmed(query)).len() == 0,
    ensures
        found_charts(indexes, query) == all_charts(indexes),
    decreases indexes.len(),
{
    if indexes.len() > 0 {
        lemma_empty_query_finds_all(indexes.drop_last(), query);
        lemma_empty_query_finds_all_in(
            indexes.last().0@,
            indexes.last().1.entries@,
            query,
        );
    }
}

fn matches_query(v: &ChartVersion, q: &str) -> (r: bool)
    ensures
        r == (q@.len() == 0 || has_part(searched_text(*v), q@)),
{
    if q.is_empty() {
        return true;
    }
    let words = join(&v.keywords, " ");
    let name = v.name.as_str().to_lowercase();
    let keywords = words.as_str().to_lowercase();
    let description = v.description.as_str().to_lowercase();
    let text = cat5(name.as_str(), " ", keywords.as_str(), " ", description.as_str());
    contains(text.as_str(), q)
}

fn copy_texts(v: &Vec<String>) -> (r: Vec<String>)
    ensures
        texts(r@) == texts(v@),
{
    let mut out = no_texts();
    let mut i: usize = 0;
    assert(texts(out@) =~= texts(v@).take(0));
    while i < v.len()
        invariant
            i <= v@.len(),
            texts(out@) == texts(v@).take(i as int),
        decreases v@.len() - i,
    {
        push_text(&mut out, v[i].as_str());
        i += 1;
        assert(texts(out@) =~= texts(v@).take(i as int));
    }
    assert(texts(v@).take(i as int) =~= texts(v@));
    out
}

fn copy_maintainers(v: &Vec<Maintainer>) -> (r: Vec<Maintainer>)
    ensures
        maintainer_texts(r@) == maintainer_texts(v@),
{
    let mut out: Vec<Maintainer> = Vec::new();
    let mut i: usize = 0;
    while i < v.len()
        invariant
            i <= v@.len(),
            out@.len() == i,
            forall|k: int|
                0 <= k < i ==> (#[trigger] maintainer_texts(out@)[k]) == maintainer_texts(v@)[k],
        decreases v@.len() - i,
    {
        let m = &v[i];
        let ghost before = out@;
        out.push(
            Maintainer { name: m.name.clone(), email: m.email.clone(), url: m.url.clone() },
        );
        i += 1;
        assert forall|k: int| 0 <= k < i implies (#[trigger] maintainer_texts(out@)[k])
            == maintainer_texts(v@)[k] by {
            if k < i - 1 {
                assert(maintainer_texts(before)[k] == maintainer_texts(v@)[k]);
            }
        }
    }
    assert(maintainer_texts(out@) =~= maintainer_texts(v@));
    out
}

fn summarize(repo: &str, name: &str, v: &ChartVersion) -> (r: ChartSummary)
    ensures
        r@ == summary_of(repo@, name@, *v),
{
    ChartSummary {
        repo: repo.to_owned(),
        name: name.to_owned(),
        version: v.version.clone(),
        app_version: v.app_version.clone(),
        description: v.description.clone(),
        keywords: copy_texts(&v.keywords),
        home: v.home.clone(),
        maintainers: copy_maintainers(&v.maintainers),
    }
}

fn search_index(repo: &str, index: &HelmIndex, q: &str, out: &mut Vec<ChartSummary>, Ghost(query): Ghost<Seq<char>>)
    requires
        q@ == lowercase(trimmed(query)),
    ensures
        views(final(out)@) == views(old(out)@) + found_in(
            repo@,
            index.entries@,
            query,
        ),
{
    let ghost start = views(out@);
    let entries = &index.entries;
    let mut i: usize = 0;
    assert(views(out@) =~= start + found_in(repo@, entries@.take(0), query));
    while i < entries.len()
        invariant
            i <= entries@.len(),
            q@ == lowercase(trimmed(query)),
            views(out@) == start + found_in(repo@, entries@.take(i as int), query),
        decreases entries@.len() - i,
    {
        assert(entries@.take(i + 1).drop_last() =~= entries@.take(i as int));
        let versions = &entries[i].1;
        if versions.len() > 0 && matches_query(&versions[0], q) {
            let ghost before = views(out@);
            let s = summarize(repo, entries[i].0.as_str(), &versions[0]);
            let ghost added = s@;
            out.push(s);
            assert(views(out@) =~= before.push(added));
        }
        i += 1;
        assert(views(out@) =~= start + found_in(repo@, entries@.take(i as int), query));
    }
    assert(entries@.take(i as int) =~= entries@);
}

/// The order of what a search finds: the highest version first, and by name.
pub open spec fn by_version() -> spec_fn(SummaryView, SummaryView) -> bool {
    by_down_and_up(|s: SummaryView| s.version, |s: SummaryView| s.name)
}

fn version_later(a: &ChartSummary, b: &ChartSummary) -> (r: bool)
    ensures
        r == by_view(by_version())(*a, *b),
{
    less(b.version.as_str(), a.version.as_str()) || (same(a.version.as_str(), b.version.as_str())
        && less(a.name.as_str(), b.name.as_str()))
}

/// Searches the indexes of repositories. `indexes` are those that are fresh, each
/// with the name of its repository. The query is looked for without regard to case
/// in name, keywords and description of the newest version of each chart; an empty
/// one finds every chart.
pub fn search_charts(indexes: &Vec<(String, HelmIndex)>, query: &str) -> (r: Vec<ChartSummary>)
    ensures
        views(r@) == sorted_by(found_charts(indexes@, query@), by_version()),
        trimmed(query@).len() == 0 ==> views(r@) == sorted_by(all_charts(indexes@), by_version()),
{
    let q = trim(query).to_lowercase();
    proof {
        if trimmed(query@).len() == 0 {
            lemma_empty_query_finds_all(indexes@, query@);
        }
    }
    let mut out: Vec<ChartSummary> = Vec::new();
    let mut i: usize = 0;
    assert(views(out@) =~= found_charts(indexes@.take(0), query@));
    while i < indexes.len()
        invariant
            i <= indexes@.len(),
            q@ == lowercase(trimmed(query@)),
            views(out@) == found_charts(indexes@.take(i as int), query@),
        decreases indexes@.len() - i,
    {
        assert(indexes@.take(i + 1).drop_last() =~= indexes@.take(i as int));
        search_index(
            indexes[i].0.as_str(),
            &indexes[i].1,
            q.as_str(),
            &mut out,
            Ghost(query@),
        );
        i += 1;
    }
    assert(indexes@.take(i as int) =~= indexes@);
    proof {
        lemma_sorted_views(out@, by_version());
    }
    sort(out, version_later, Ghost(by_view(by_version())))
}

// ---------------------------------------------------------------------------
// Versions
// ---------------------------------------------------------------------------

/// The first chart called `name`, from `from` on.
pub open spec fn chart_from(
    entries: Seq<(String, Vec<ChartVersion>)>,
    name: Seq<char>,
    from: int,
) -> Option<int>
    decreases entries.len() - from,
{
    if from < 0 || from >= entries.len() {
        None
    } else if entries[from].0@ == name {
        Some(from)
    } else {
        chart_from(entries, name, from + 1)
    }
}

/// An entry of the list of versions is that of `v`.
pub open spec fn is_entry_of(e: ChartVersionEntry, v: ChartVersion) -> bool {
    &&& e.version@ == v.version@
    &&& e.app_version@ == v.app_version@
    &&& e.created@ == v.created@
    &&& texts(e.urls@) == texts(v.urls@)
}

/// The entries of a list of versions are those of `vs`, one for one.
pub open spec fn are_entries_of(es: Seq<ChartVersionEntry>, vs: Seq<ChartVersion>) -> bool {
    es.len() == vs.len() && forall|k: int|
        0 <= k < es.len() ==> is_entry_of(#[trigger] es[k], vs[k])
}

fn version_entries(vs: &Vec<ChartVersion>) -> (r: Vec<ChartVersionEntry>)
    ensures
        are_entries_of(r@, vs@),
{
    let mut out: Vec<ChartVersionEntry> = Vec::new();
    let mut i: usize = 0;
    while i < vs.len()
        invariant
            i <= vs@.len(),
            out@.len() == i,
            forall|k: int| 0 <= k < i ==> is_entry_of(#[trigger] out@[k], vs@[k]),
        decreases vs@.len() - i,
    {
        let v = &vs[i];
        out.push(
            ChartVersionEntry {
                version: v.version.clone(),
                app_version: v.app_version.clone(),
                created: v.created.clone(),
                urls: copy_texts(&v.urls),
            },
        );
        i += 1;
    }
    out
}

/// The versions of a chart of a repository, in the order of its index. `index` is
/// the index of the repository, where it is there and fresh.
pub fn chart_versions(
    repos: &Vec<HelmRepo>,
    index: Option<&HelmIndex>,
    repo: &str,
    chart: &str,
) -> (r: AppResult<Vec<ChartVersionEntry>>)
    ensures
        match named_at(repos@, repo@) {
            None => r is Err && r->Err_0.is_not_found(no_repo_text(repo@)),
            Some(_) => match index {
                None => r is Err && r->Err_0.is_other(
                    "index for repo '"@ + repo@ + "' is stale or missing — refresh it first"@,
                ),
                Some(idx) => match chart_from(idx.entries@, chart@, 0) {
                    None => r is Err && r->Err_0.is_not_found(
                        "chart '"@ + chart@ + "' not in repo '"@ + repo@ + "'"@,
                    ),
                    Some(i) => r is Ok && are_entries_of(r->Ok_0@, idx.entries@[i].1@),
                },
            },
        },
{
    if position(repos, repo).is_none() {
        return Err(no_repo(repo));
    }
    let idx = match index {
        Some(idx) => idx,
        None => {
            let text = cat3(
                "index for repo '",
                repo,
                "' is stale or missing — refresh it first",
            );
            return Err(other(text.as_str()));
        },
    };
    let entries = &idx.entries;
    let mut i: usize = 0;
    while i < entries.len()
        invariant
            i <= entries@.len(),
            *entries == idx.entries,
            index == Some(idx),
            named_at(repos@, repo@) is Some,
            chart_from(entries@, chart@, 0) == chart_from(entries@, chart@, i as int),
        decreases entries@.len() - i,
    {
        if same(entries[i].0.as_str(), chart) {
            return Ok(version_entries(&entries[i].1));
        }
        i += 1;
    }
    Err(AppError::NotFound(cat5("chart '", chart, "' not in repo '", repo, "'")))
}

// ---------------------------------------------------------------------------
// Export
// ---------------------------------------------------------------------------

/// What `helm` is run with to download a chart.
pub fn pull_argv(repo: &str, chart: &str, version: &str, output_dir: &str) -> (r: Vec<String>)
    ensures
        texts(r@) == seq![
            "pull"@,
            repo@ + "/"@ + chart@,
            "--version"@,
            version@,
            "--destination"@,
            output_dir@,
            "--untar=false"@,
        ],
{
    let name = cat3(repo, "/", chart);
    let mut v = no_texts();
    push_two(&mut v, "pull", name.as_str());
    push_two(&mut v, "--version", version);
    push_two(&mut v, "--destination", output_dir);
    push_text(&mut v, "--untar=false");
    assert(texts(v@) =~= seq![
        "pull"@,
        repo@ + "/"@ + chart@,
        "--version"@,
        version@,
        "--destination"@,
        output_dir@,
        "--untar=false"@,
    ]);
    v
}

/// Where a chart was downloaded to, from how `helm pull` ended.
pub fn export_chart(chart: &str, version: &str, output_dir: &str, success: bool, stderr: &str) -> (r:
    AppResult<String>)
    ensures
        match r {
            Ok(p) => success && p@ == joined_path(
                output_dir@,
                chart@ + "-"@ + version@ + ".tgz"@,
            ),
            Err(e) => !success && e.is_other("helm pull failed: "@ + stderr@),
        },
{
    if !success {
        let text = cat2("helm pull failed: ", stderr);
        return Err(other(text.as_str()));
    }
    let file = cat4(chart, "-", version, ".tgz");
    Ok(join_path(output_dir, file.as_str()))
}

// ---------------------------------------------------------------------------
// Laws
// ---------------------------------------------------------------------------

proof fn lemma_completed(s: Seq<RepoView>, more: Seq<RepoView>)
    ensures
        completed(s, more).len() >= s.len(),
        completed(s, more).take(s.len() as int) == s,
        forall|i: int| 0 <= i < more.len() ==> has_repo(completed(s, more), (#[trigger] more[i]).name),
    decreases more.len(),
{
    if more.len() == 0 {
        assert(s.take(s.len() as int) =~= s);
    } else {
        let front = completed(s, more.drop_last());
        let all = completed(s, more);
        lemma_completed(s, more.drop_last());
        assert(all.take(s.len() as int) =~= front.take(s.len() as int));
        assert forall|i: int| 0 <= i < more.len() implies has_repo(all, (#[trigger] more[i]).name) by {
            if i < more.len() - 1 {
                assert(more.drop_last()[i] == more[i]);
                let k = choose|k: int| 0 <= k < front.len() && (#[trigger] front[k]).name == more[i].name;
                assert(all[k].name == more[i].name);
            } else if !has_repo(front, more.last().name) {
                assert(all[front.len() as int].name == more.last().name);
            }
        }
    }
}

/// Seeding leaves what is there as it is, and afterwards every repository that
/// everybody starts with is there.
pub proof fn law_seeding_keeps_what_is_there(s: Seq<RepoView>)
    ensures
        completed(s, seeds()).len() >= s.len(),
        completed(s, seeds()).take(s.len() as int) == s,
        forall|i: int|
            0 <= i < seeds().len() ==> has_repo(completed(s, seeds()), (#[trigger] seeds()[i]).name),
{
    lemma_completed(s, seeds());
}

proof fn lemma_completed_again(s: Seq<RepoView>, more: Seq<RepoView>)
    requires
        forall|i: int| 0 <= i < more.len() ==> has_repo(s, (#[trigger] more[i]).name),
    ensures
        completed(s, more) == s,
    decreases more.len(),
{
    if more.len() > 0 {
        assert forall|i: int| 0 <= i < more.drop_last().len() implies has_repo(
            s,
            (#[trigger] more.drop_last()[i]).name,
        ) by {
            assert(more[i] == more.drop_last()[i]);
        }
        lemma_completed_again(s, more.drop_last());
        assert(has_repo(s, more[more.len() - 1].name));
    }
}

/// Seeding twice is seeding once.
pub proof fn law_seeding_is_idempotent(s: Seq<RepoView>)
    ensures
        completed(completed(s, seeds()), seeds()) == completed(s, seeds()),
{
    lemma_completed(s, seeds());
    lemma_completed_again(completed(s, seeds()), seeds());
}

/// Repositories whose names are all different, whatever their case, stay so when
/// one is added.
pub proof fn law_names_stay_different(s: Seq<HelmRepo>, repo: HelmRepo, url: Seq<char>)
    requires
        forall|i: int, j: int|
            #![trigger s[i], s[j]]
            0 <= i < j < s.len() ==> lowercase(s[i].name@) != lowercase(s[j].name@),
        add_problem(s, repo.name@, url) is None,
    ensures
        forall|i: int, j: int|
            #![trigger s.push(repo)[i], s.push(repo)[j]]
            0 <= i < j < s.push(repo).len() ==> lowercase(s.push(repo)[i].name@) != lowercase(
                s.push(repo)[j].name@,
            ),
{
    let t = s.push(repo);
    assert forall|i: int, j: int|
        #![trigger t[i], t[j]]
        0 <= i < j < t.len() implies lowercase(t[i].name@) != lowercase(t[j].name@) by {
        assert(t[i] == s[i]);
        if j < s.len() {
            assert(t[j] == s[j]);
        }
    }
}

/// The listing holds every repository, the last refreshed first and by name where
/// that does not tell.
pub proof fn law_listing_is_in_order(s: Seq<HelmRepo>)
    ensures
        in_order(sorted_by(s, by_refresh()), by_refresh()),
        sorted_by(s, by_refresh()).to_multiset() =~= s.to_multiset(),
{
    lemma_by_down_and_up_ranks(
        |r: HelmRepo| text_or_nothing(r.last_refreshed),
        |r: HelmRepo| r.name@,
    );
    lemma_sorted_in_order(s, by_refresh());
    lemma_sorted_rearranges(s, by_refresh());
}

/// Removing a repository that is gone already changes nothing, and a removed one is
/// not found any more.
pub proof fn law_removing_is_idempotent(s: Seq<HelmRepo>, name: Seq<char>)
    ensures
        without_entry(without_entry(s, name), name) == without_entry(s, name),
        named_at(without_entry(s, name), name) is None,
    decreases s.len(),
{
    lemma_drop_then_find(s, name);
    if s.len() > 0 {
        law_removing_is_idempotent(s.drop_last(), name);
        if s.last().key() != name {
            let t = without_entry(s.drop_last(), name);
            assert(t.push(s.last()).drop_last() =~= t);
        }
    }
}

/// A repository that was added is found under its name, and can be refreshed.
pub proof fn law_added_repo_is_found(s: Seq<HelmRepo>, repo: HelmRepo, url: Seq<char>)
    requires
        add_problem(s, repo.name@, url) is None,
    ensures
        named_at(s.push(repo), repo.name@) == Some(s.len() as int),
{
    let t = s.push(repo);
    lemma_named_from(t, repo.name@, 0);
    assert(t[s.len() as int] == repo);
    assert forall|i: int| 0 <= i < s.len() implies (#[trigger] t[i]).key() != repo.name@ by {
        assert(t[i] == s[i]);
    }
}

/// A search finds every chart whose newest version matches, and shows that version.
pub proof fn law_matching_charts_are_found(
    indexes: Seq<(String, HelmIndex)>,
    query: Seq<char>,
    i: int,
    k: int,
)
    requires
        0 <= i < indexes.len(),
        0 <= k < indexes[i].1.entries@.len(),
        indexes[i].1.entries@[k].1@.len() > 0,
        is_match(indexes[i].1.entries@[k].1@[0], query),
    ensures
        sorted_by(found_charts(indexes, query), by_version()).contains(
            summary_of(
                indexes[i].0@,
                indexes[i].1.entries@[k].0@,
                indexes[i].1.entries@[k].1@[0],
            ),
        ),
{
    let e = indexes[i].1.entries@[k];
    let x = summary_of(indexes[i].0@, e.0@, e.1@[0]);
    let found = found_charts(indexes, query);
    lemma_match_is_found(indexes, query, i, k);
    lemma_sorted_rearranges(found, by_version());
    found.to_multiset_ensures();
    sorted_by(found, by_version()).to_multiset_ensures();
    assert(found.to_multiset().count(x) > 0);
}

proof fn lemma_match_is_found_in(
    repo: Seq<char>,
    entries: Seq<(String, Vec<ChartVersion>)>,
    query: Seq<char>,
    k: int,
)
    requires
        0 <= k < entries.len(),
        entries[k].1@.len() > 0,
        is_match(entries[k].1@[0], query),
    ensures
        found_in(repo, entries, query).contains(
            summary_of(repo, entries[k].0@, entries[k].1@[0]),
        ),
    decreases entries.len(),
{
    let x = summary_of(repo, entries[k].0@, entries[k].1@[0]);
    let front = found_in(repo, entries.drop_last(), query);
    let all = found_in(repo, entries, query);
    if k < entries.len() - 1 {
        lemma_match_is_found_in(repo, entries.drop_last(), query, k);
        let j = choose|j: int| 0 <= j < front.len() && front[j] == x;
        assert(all[j] == x);
    } else {
        assert(all[front.len() as int] == x);
    }
}

proof fn lemma_match_is_found(
    indexes: Seq<(String, HelmIndex)>,
    query: Seq<char>,
    i: int,
    k: int,
)
    requires
        0 <= i < indexes.len(),
        0 <= k < indexes[i].1.entries@.len(),
        indexes[i].1.entries@[k].1@.len() > 0,
        is_match(indexes[i].1.entries@[k].1@[0], query),
    ensures
        found_charts(indexes, query).contains(
            summary_of(
                indexes[i].0@,
                indexes[i].1.entries@[k].0@,
                indexes[i].1.entries@[k].1@[0],
            ),
        ),
    decreases indexes.len(),
{
    let e = indexes[i].1.entries@[k];
    let x = summary_of(indexes[i].0@, e.0@, e.1@[0]);
    let front = found_charts(indexes.drop_last(), query);
    let all = found_charts(indexes, query);
    if i < indexes.len() - 1 {
        lemma_match_is_found(indexes.drop_last(), query, i, k);
        let j = choose|j: int| 0 <= j < front.len() && front[j] == x;
        assert(all[j] == x);
    } else {
        let last = found_in(indexes[i].0@, indexes[i].1.entries@, query);
        lemma_match_is_found_in(indexes[i].0@, indexes[i].1.entries@, query, k);
        let j = choose|j: int| 0 <= j < last.len() && last[j] == x;
        assert(all[front.len() + j] == x);
    }
}

/// What a search finds comes out by version, the highest first, and by name where
/// that does not tell; sorting loses nothing.
pub proof fn law_search_is_in_order(s: Seq<SummaryView>)
    ensures
        in_order(sorted_by(s, by_version()), by_version()),
        sorted_by(s, by_version()).to_multiset() =~= s.to_multiset(),
{
    lemma_by_down_and_up_ranks(|v: SummaryView| v.version, |v: SummaryView| v.name);
    lemma_sorted_in_order(s, by_version());
    lemma_sorted_rearranges(s, by_version());
}

/// A cached index is fresh for an hour, and where its age is not known.
pub proof fn law_an_index_is_fresh_for_an_hour(secs: u64, nanos: u32, r: bool, unknown: bool)
    requires
        call_ensures(index_is_fresh, (Some((secs, nanos)),), r),
        call_ensures(index_is_fresh, (None::<(u64, u32)>,), unknown),
        nanos < 1_000_000_000,
    ensures
        r <==> secs * 1_000_000_000 + nanos <= 3_600_000_000_000,
        unknown,
{
}

/// Each system keeps its files in its own place.
pub proof fn law_files_are_kept_where_the_system_keeps_them(
    own: Option<&str>,
    home: &str,
    config: Option<String>,
    cache: Option<String>,
    linux_config: Option<String>,
    linux_cache: Option<String>,
    windows_config: Option<String>,
    windows_cache: Option<String>,
)
    requires
        call_ensures(config_dir, (Platform::Apple, own, Some(home)), config),
        call_ensures(cache_dir, (Platform::Apple, own, Some(home)), cache),
        call_ensures(config_dir, (Platform::Linux, own, Some(home)), linux_config),
        call_ensures(cache_dir, (Platform::Linux, own, Some(home)), linux_cache),
        call_ensures(config_dir, (Platform::Windows, own, Some(home)), windows_config),
        call_ensures(cache_dir, (Platform::Windows, own, Some(home)), windows_cache),
    ensures
        opt_text(config) == Some(joined_path(home@, "Library/Application Support/k7s"@)),
        opt_text(cache) == Some(joined_path(home@, "Library/Caches/k7s/helm-index"@)),
        own is None ==> opt_text(linux_config) == Some(joined_path(home@, ".config/k7s"@)),
        own is None ==> opt_text(linux_cache) == Some(joined_path(home@, ".cache/k7s/helm-index"@)),
        own is Some ==> opt_text(linux_config) == Some(joined_path(own->0@, "k7s"@)),
        own is Some ==> opt_text(linux_cache) == Some(joined_path(own->0@, "k7s/helm-index"@)),
        own is Some ==> opt_text(windows_config) == Some(joined_path(own->0@, "k7s"@)),
        own is Some ==> opt_text(windows_cache) == Some(joined_path(own->0@, "k7s/cache/helm-index"@)),
        own is None ==> windows_config is None && windows_cache is None,
{
}

/// The cached index of a repository is a `.yaml` file directly in the cache directory: each
/// slash, backslash and colon of the name is an underscore in it, and nothing else of the
/// name changes.
pub proof fn law_an_index_is_a_file_of_the_cache(dir: &str, name: &str, r: AppResult<String>)
    requires
        call_ensures(index_path, (Some(dir), name), r),
    ensures
        r is Ok,
        exists|file: Seq<char>| #[trigger]
            joined_path(dir@, file + ".yaml"@) == r->Ok_0@ && file.len() == name@.len() && (forall|
                i: int,
            |
                0 <= i < file.len() ==> #[trigger] file[i] == (if name@[i] == '/' || name@[i] == '\\'
                    || name@[i] == ':' {
                    '_'
                } else {
                    name@[i]
                })),
{
    let file = flattened(name@);
    assert(joined_path(dir@, file + ".yaml"@) == r->Ok_0@);
}

/// Everybody starts with two repositories, never refreshed and without an error.
pub proof fn law_everybody_starts_with_two_repositories(r: Vec<HelmRepo>)
    requires
        call_ensures(seed_repos, (), r),
    ensures
        r@.len() == 2,
        r@[0].name@ == "bitnami"@ && r@[0].url@ == "https://charts.bitnami.com/bitnami"@,
        r@[1].name@ == "stable"@ && r@[1].url@ == "https://charts.helm.sh/stable"@,
        forall|i: int|
            0 <= i < r@.len() ==> (#[trigger] r@[i]).last_refreshed is None && r@[i].last_error is None,
{
    let v = views(r@);
    assert(v.len() == r@.len());
    assert(v[0] == r@[0]@);
    assert(v[1] == r@[1]@);
    assert forall|i: int| 0 <= i < r@.len() implies (#[trigger] r@[i]).last_refreshed is None
        && r@[i].last_error is None by {
        assert(v[i] == r@[i]@);
    }
}

/// In the listing one refreshed later does not stand below one refreshed earlier, nor below
/// one never refreshed; those refreshed at the same time stand by name.
pub proof fn law_last_refreshed_is_listed_first(repos: Vec<HelmRepo>, r: Vec<HelmRepo>, i: int, j: int)
    requires
        call_ensures(list_repos, (repos,), r),
        0 <= i < j < r@.len(),
    ensures
        r@[j].last_refreshed is Some && r@[j].last_refreshed->0@.len() > 0
            ==> r@[i].last_refreshed is Some && !sorts_before(
            r@[i].last_refreshed->0@,
            r@[j].last_refreshed->0@,
        ),
        opt_text(r@[i].last_refreshed) == opt_text(r@[j].last_refreshed) ==> !sorts_before(
            r@[j].name@,
            r@[i].name@,
        ),
        repos@.contains(r@[i]),
        r@.len() == repos@.len(),
{
    law_listing_is_in_order(repos@);
    lemma_sorted_members(repos@, by_refresh());
    assert(!by_refresh()(r@[j], r@[i]));
    assert(r@.contains(r@[i]));
}

/// A name that is empty, has a slash, a blank or a backslash in it, or is taken in whatever
/// case is refused, and so is an empty URL; nothing else is.
pub proof fn law_which_repositories_may_be_added(s: Seq<HelmRepo>, name: Seq<char>, url: Seq<char>)
    ensures
        add_problem(s, name, url) is None <==> {
            &&& name.len() > 0
            &&& url.len() > 0
            &&& forall|i: int|
                0 <= i < name.len() ==> #[trigger] name[i] != '/' && name[i] != ' ' && name[i]
                    != '\\'
            &&& forall|i: int|
                0 <= i < s.len() ==> lowercase((#[trigger] s[i]).name@) != lowercase(name)
        },
{
    if add_problem(s, name, url) is None {
        assert forall|i: int| 0 <= i < name.len() implies #[trigger] name[i] != '/' && name[i] != ' '
            && name[i] != '\\' by {
            assert(name.contains(name[i]));
        }
    }
}

/// A repository is kept with a URL that ends in no slash.
pub proof fn law_kept_urls_end_in_no_slash(url: Seq<char>)
    ensures
        kept_url(url).len() > 0 ==> kept_url(url).last() != '/',
        url.len() > 0 && !is_space(url[0]) && !is_space(url.last()) && url.last() != '/' ==> kept_url(
            url,
        ) == url,
{
    lemma_without_end_ends(trimmed(url), '/');
}

proof fn lemma_without_end_ends(s: Seq<char>, c: char)
    ensures
        without_end(s, c).len() > 0 ==> without_end(s, c).last() != c,
    decreases s.len(),
{
    if s.len() > 0 && s.last() == c {
        lemma_without_end_ends(s.drop_last(), c);
    }
}

/// A refresh that succeeds is dated and clears the error; one that fails leaves the date of
/// the last success and says why. Neither changes anything else of the entry.
pub proof fn law_a_refresh_is_taken_down(repo: RepoView, now: Seq<char>, error: Seq<char>)
    ensures
        after_success(repo, now).last_refreshed == Some(now),
        after_success(repo, now).last_error is None,
        after_failure(repo, error).last_refreshed == repo.last_refreshed,
        after_failure(repo, error).last_error == Some(error),
        forall|r: RepoView|
            r == after_success(repo, now) || r == after_failure(repo, error) ==> #[trigger] r.name
                == repo.name && r.url == repo.url && r.description == repo.description,
{
}

/// The URL that is refreshed is that of the repository of the name; a name that none has is
/// reported.
pub proof fn law_the_named_repository_is_refreshed(repos: Vec<HelmRepo>, name: &str, r: AppResult<
    String,
>)
    requires
        call_ensures(repo_url, (&repos, name), r),
    ensures
        r is Ok ==> exists|i: int|
            0 <= i < repos@.len() && (#[trigger] repos@[i]).name@ == name@ && repos@[i].url@
                == r->Ok_0@,
        r is Err <==> forall|i: int| 0 <= i < repos@.len() ==> (#[trigger] repos@[i]).name@ != name@,
        r is Err ==> r->Err_0.is_not_found("repo '"@ + name@ + "' not found"@),
{
    lemma_named_from(repos@, name@, 0);
    if r is Ok {
        let i = named_at(repos@, name@)->0;
        assert(repos@[i].key() == name@);
        assert(repos@[i].name@ == name@);
    } else {
        assert forall|i: int| 0 <= i < repos@.len() implies (#[trigger] repos@[i]).name@ != name@ by {
            assert(repos@[i].key() != name@);
        }
    }
}

/// The index is at the URL itself where it is named there, and below it otherwise.
pub proof fn law_an_index_is_at_its_url(url: &str, base: Seq<char>, r: AppResult<String>)
    requires
        call_ensures(index_url, (url,), r),
        !has_prefix(url@, "oci://"@),
    ensures
        url@ == base + "index.yaml"@ ==> r is Ok && r->Ok_0@ == url@,
        !has_suffix(url@, "index.yaml"@) && url@.len() > 0 && url@.last() != '/' ==> r is Ok
            && r->Ok_0@ == url@ + "/index.yaml"@,
        !has_suffix(url@, "index.yaml"@) && url@ == base + "/"@ && base.len() > 0 && base.last()
            != '/' ==> r is Ok && r->Ok_0@ == base + "/index.yaml"@,
{
    reveal_strlit("/");
    assert("/"@.len() == 1);
    if url@ == base + "index.yaml"@ {
        assert(url@.skip(url@.len() - "index.yaml"@.len()) =~= "index.yaml"@);
    }
    if url@ == base + "/"@ {
        assert(url@.last() == '/');
        assert(url@.drop_last() =~= base);
        reveal_with_fuel(without_end, 3);
    }
}

proof fn lemma_found_repos(repos: Seq<HelmRepo>, names: Seq<Seq<char>>)
    ensures
        forall|i: int|
            0 <= i < found_repos(repos, names).len() ==> names.contains(
                (#[trigger] found_repos(repos, names)[i]).name,
            ) && exists|k: int| 0 <= k < repos.len() && #[trigger] repos[k]@ == found_repos(
                repos,
                names,
            )[i],
        forall|n: int, k: int|
            #![trigger names[n], repos[k]]
            0 <= n < names.len() && 0 <= k < repos.len() && repos[k].name@ == names[n] && (forall|
                m: int,
            |
                0 <= m < k ==> (#[trigger] repos[m]).name@ != names[n]) ==> found_repos(
                repos,
                names,
            ).contains(repos[k]@),
    decreases names.len(),
{
    if names.len() > 0 {
        let front = found_repos(repos, names.drop_last());
        let all = found_repos(repos, names);
        lemma_found_repos(repos, names.drop_last());
        lemma_named_from(repos, names.last(), 0);
        let at = named_at(repos, names.last());
        assert(forall|x: Seq<char>| names.drop_last().contains(x) ==> names.contains(x)) by {
            assert forall|x: Seq<char>| names.drop_last().contains(x) implies names.contains(x) by {
                let i = choose|i: int| 0 <= i < names.drop_last().len() && names.drop_last()[i] == x;
                assert(names[i] == x);
            }
        }
        assert(names.contains(names.last())) by {
            assert(names[names.len() - 1] == names.last());
        }
        assert forall|i: int| 0 <= i < all.len() implies names.contains((#[trigger] all[i]).name)
            && exists|k: int| 0 <= k < repos.len() && #[trigger] repos[k]@ == all[i] by {
            if i < front.len() {
                assert(all[i] == front[i]);
            } else {
                let k = at->0;
                assert(repos[k].key() == names.last());
                assert(repos[k]@ == all[i]);
            }
        }
        assert forall|n: int, k: int|
            #![trigger names[n], repos[k]]
            0 <= n < names.len() && 0 <= k < repos.len() && repos[k].name@ == names[n] && (forall|
                m: int,
            |
                0 <= m < k ==> (#[trigger] repos[m]).name@ != names[n]) implies all.contains(
            repos[k]@,
        ) by {
            if n < names.len() - 1 {
                assert(names.drop_last()[n] == names[n]);
                assert(front.contains(repos[k]@));
                let i = choose|i: int| 0 <= i < front.len() && front[i] == repos[k]@;
                assert(all[i] == repos[k]@);
            } else {
                assert(repos[k].key() == names.last());
                assert(at is Some);
                if at->0 < k {
                    assert(repos[at->0].key() == names.last());
                    assert(repos[at->0].name@ == names[n]);
                }
                assert(at->0 == k);
                assert(all[all.len() - 1] == repos[k]@);
            }
        }
    }
}

/// Refreshing all is answered with each repository that was asked for and is there, as it is
/// afterwards, and with no other.
pub proof fn law_every_repository_is_answered_for(
    repos: Vec<HelmRepo>,
    names: Vec<String>,
    r: Vec<HelmRepo>,
    n: int,
    k: int,
)
    requires
        call_ensures(update_all_indexes, (&repos, &names), r),
        0 <= n < names@.len(),
        0 <= k < repos@.len(),
        repos@[k].name@ == names@[n]@,
        forall|m: int| 0 <= m < k ==> (#[trigger] repos@[m]).name@ != names@[n]@,
    ensures
        views(r@).contains(repos@[k]@),
        forall|i: int|
            0 <= i < r@.len() ==> exists|m: int|
                0 <= m < repos@.len() && #[trigger] repos@[m]@ == (#[trigger] r@[i])@,
{
    let t = texts(names@);
    lemma_found_repos(repos@, t);
    assert(t[n] == names@[n]@);
    assert(found_repos(repos@, t).contains(repos@[k]@));
    let v = views(r@);
    assert(v.len() == r@.len());
    assert forall|i: int| 0 <= i < r@.len() implies exists|m: int|
        0 <= m < repos@.len() && #[trigger] repos@[m]@ == (#[trigger] r@[i])@ by {
        assert(v[i] == r@[i]@);
        assert(v[i] == found_repos(repos@, t)[i]);
    }
}

proof fn lemma_found_is_match(
    repo: Seq<char>,
    entries: Seq<(String, Vec<ChartVersion>)>,
    query: Seq<char>,
    x: SummaryView,
)
    requires
        found_in(repo, entries, query).contains(x),
    ensures
        exists|k: int|
            #![trigger entries[k]]
            0 <= k < entries.len() && entries[k].1@.len() > 0 && is_match(entries[k].1@[0], query)
                && x == summary_of(repo, entries[k].0@, entries[k].1@[0]),
    decreases entries.len(),
{
    if entries.len() > 0 {
        let front = found_in(repo, entries.drop_last(), query);
        let all = found_in(repo, entries, query);
        let i = choose|i: int| 0 <= i < all.len() && all[i] == x;
        if i < front.len() {
            assert(front[i] == x);
            assert(front.contains(x));
            lemma_found_is_match(repo, entries.drop_last(), query, x);
            let k = choose|k: int|
                #![trigger entries.drop_last()[k]]
                0 <= k < entries.drop_last().len() && entries.drop_last()[k].1@.len() > 0
                    && is_match(entries.drop_last()[k].1@[0], query) && x == summary_of(
                    repo,
                    entries.drop_last()[k].0@,
                    entries.drop_last()[k].1@[0],
                );
            assert(entries[k] == entries.drop_last()[k]);
        } else {
            let k = entries.len() - 1;
            assert(entries[k] == entries.last());
        }
    }
}

proof fn lemma_found_is_of_an_index(
    indexes: Seq<(String, HelmIndex)>,
    query: Seq<char>,
    x: SummaryView,
)
    requires
        found_charts(indexes, query).contains(x),
    ensures
        exists|i: int|
            #![trigger indexes[i]]
            0 <= i < indexes.len() && found_in(indexes[i].0@, indexes[i].1.entries@, query).contains(
                x,
            ),
    decreases indexes.len(),
{
    if indexes.len() > 0 {
        let front = found_charts(indexes.drop_last(), query);
        let last = found_in(indexes.last().0@, indexes.last().1.entries@, query);
        let all = found_charts(indexes, query);
        let i = choose|i: int| 0 <= i < all.len() && all[i] == x;
        if i < front.len() {
            assert(front[i] == x);
            assert(front.contains(x));
            lemma_found_is_of_an_index(indexes.drop_last(), query, x);
            let k = choose|k: int|
                #![trigger indexes.drop_last()[k]]
                0 <= k < indexes.drop_last().len() && found_in(
                    indexes.drop_last()[k].0@,
                    indexes.drop_last()[k].1.entries@,
                    query,
                ).contains(x);
            assert(indexes[k] == indexes.drop_last()[k]);
        } else {
            assert(last[i - front.len()] == x);
            assert(last.contains(x));
            assert(indexes[indexes.len() - 1] == indexes.last());
        }
    }
}

/// What a search shows is the first version of a chart of one of the indexes, under the name
/// of its repository.
pub proof fn law_a_search_shows_charts_of_the_indexes(
    indexes: Vec<(String, HelmIndex)>,
    query: &str,
    r: Vec<ChartSummary>,
    n: int,
)
    requires
        call_ensures(search_charts, (&indexes, query), r),
        0 <= n < r@.len(),
    ensures
        exists|i: int, k: int|
            #![trigger indexes@[i].1.entries@[k]]
            {
                &&& 0 <= i < indexes@.len()
                &&& 0 <= k < indexes@[i].1.entries@.len()
                &&& indexes@[i].1.entries@[k].1@.len() > 0
                &&& r@[n].repo@ == indexes@[i].0@
                &&& r@[n].name@ == indexes@[i].1.entries@[k].0@
                &&& r@[n].version@ == indexes@[i].1.entries@[k].1@[0].version@
                &&& r@[n].app_version@ == indexes@[i].1.entries@[k].1@[0].app_version@
                &&& r@[n].description@ == indexes@[i].1.entries@[k].1@[0].description@
                &&& r@[n].home@ == indexes@[i].1.entries@[k].1@[0].home@
                &&& texts(r@[n].keywords@) == texts(indexes@[i].1.entries@[k].1@[0].keywords@)
            },
{
    let v = views(r@);
    let all = found_charts(indexes@, query@);
    assert(v.len() == r@.len());
    assert(v[n] == r@[n]@);
    assert(v.contains(v[n]));
    lemma_sorted_members(all, by_version());
    assert(all.contains(v[n]));
    lemma_found_is_of_an_index(indexes@, query@, v[n]);
    let i = choose|i: int|
        #![trigger indexes@[i]]
        0 <= i < indexes@.len() && found_in(
            indexes@[i].0@,
            indexes@[i].1.entries@,
            query@,
        ).contains(v[n]);
    let entries = indexes@[i].1.entries@;
    lemma_found_is_match(indexes@[i].0@, entries, query@, v[n]);
    let k = choose|k: int|
        #![trigger entries[k]]
        0 <= k < entries.len() && entries[k].1@.len() > 0 && is_match(entries[k].1@[0], query@)
            && v[n] == summary_of(indexes@[i].0@, entries[k].0@, entries[k].1@[0]);
    assert(indexes@[i].1.entries@[k] == entries[k]);
}

/// A search finds a chart whose name, description or one of whose keywords holds the query,
/// whatever the case of letters, and shows its first version.
pub proof fn law_a_search_finds_what_holds_the_query(
    indexes: Vec<(String, HelmIndex)>,
    query: &str,
    r: Vec<ChartSummary>,
    i: int,
    k: int,
)
    requires
        call_ensures(search_charts, (&indexes, query), r),
        0 <= i < indexes@.len(),
        0 <= k < indexes@[i].1.entries@.len(),
        indexes@[i].1.entries@[k].1@.len() > 0,
        ({
            let v = indexes@[i].1.entries@[k].1@[0];
            let q = lowercase(trimmed(query@));
            ||| trimmed(query@).len() == 0
            ||| has_part(lowercase(v.name@), q)
            ||| has_part(lowercase(v.description@), q)
            ||| has_part(lowercase(joined(texts(v.keywords@), " "@)), q)
        }),
    ensures
        exists|n: int|
            0 <= n < r@.len() && (#[trigger] r@[n]).repo@ == indexes@[i].0@ && r@[n].name@
                == indexes@[i].1.entries@[k].0@ && r@[n].version@
                == indexes@[i].1.entries@[k].1@[0].version@,
{
    let x = indexes@[i].1.entries@[k].1@[0];
    let q = lowercase(trimmed(query@));
    let name = lowercase(x.name@);
    let keys = lowercase(joined(texts(x.keywords@), " "@));
    let about = lowercase(x.description@);
    let v = views(r@);
    let s = summary_of(indexes@[i].0@, indexes@[i].1.entries@[k].0@, x);
    assert(v.len() == r@.len());
    if trimmed(query@).len() == 0 {
        lemma_all_are_found(indexes@, i, k);
    } else {
        if has_part(name, q) {
            lemma_part_of_more(Seq::empty(), name, " "@ + keys + " "@ + about, q);
            assert(Seq::<char>::empty() + name + (" "@ + keys + " "@ + about) =~= searched_text(x));
        } else if has_part(about, q) {
            lemma_part_of_more(name + " "@ + keys + " "@, about, Seq::empty(), q);
            assert(name + " "@ + keys + " "@ + about + Seq::<char>::empty() =~= searched_text(x));
        } else {
            lemma_part_of_more(name + " "@, keys, " "@ + about, q);
            assert(name + " "@ + keys + (" "@ + about) =~= searched_text(x));
        }
        lemma_match_is_found(indexes@, query@, i, k);
    }
    let all = if trimmed(query@).len() == 0 {
        all_charts(indexes@)
    } else {
        found_charts(indexes@, query@)
    };
    lemma_sorted_members(all, by_version());
    assert(all.contains(s));
    assert(v.contains(s));
    let n = choose|n: int| 0 <= n < v.len() && v[n] == s;
    assert(v[n] == r@[n]@);
}

proof fn lemma_part_of_more(before: Seq<char>, s: Seq<char>, after: Seq<char>, p: Seq<char>)
    requires
        has_part(s, p),
    ensures
        has_part(before + s + after, p),
{
    let all = before + s + after;
    let i = choose|i: int| #[trigger] occurs_at(s, p, i);
    assert(all.subrange(before.len() + i, before.len() + i + p.len()) =~= s.subrange(
        i,
        i + p.len(),
    ));
    assert(occurs_at(all, p, before.len() + i));
}

proof fn lemma_all_are_in(repo: Seq<char>, entries: Seq<(String, Vec<ChartVersion>)>, k: int)
    requires
        0 <= k < entries.len(),
        entries[k].1@.len() > 0,
    ensures
        all_in(repo, entries).contains(summary_of(repo, entries[k].0@, entries[k].1@[0])),
    decreases entries.len(),
{
    broadcast use vstd::seq_lib::lemma_seq_contains_after_push;

    if k < entries.len() - 1 {
        assert(entries.drop_last()[k] == entries[k]);
        lemma_all_are_in(repo, entries.drop_last(), k);
    }
}

proof fn lemma_all_are_found(indexes: Seq<(String, HelmIndex)>, i: int, k: int)
    requires
        0 <= i < indexes.len(),
        0 <= k < indexes[i].1.entries@.len(),
        indexes[i].1.entries@[k].1@.len() > 0,
    ensures
        all_charts(indexes).contains(
            summary_of(
                indexes[i].0@,
                indexes[i].1.entries@[k].0@,
                indexes[i].1.entries@[k].1@[0],
            ),
        ),
    decreases indexes.len(),
{
    broadcast use vstd::seq_lib::lemma_seq_concat_contains_all_elements;

    if i < indexes.len() - 1 {
        assert(indexes.drop_last()[i] == indexes[i]);
        lemma_all_are_found(indexes.drop_last(), i, k);
    } else {
        lemma_all_are_in(indexes[i].0@, indexes[i].1.entries@, k);
    }
}

/// What a search shows stands by version, the highest first, and by name where that does not
/// tell.
pub proof fn law_highest_version_is_shown_first(
    indexes: Vec<(String, HelmIndex)>,
    query: &str,
    r: Vec<ChartSummary>,
    i: int,
    j: int,
)
    requires
        call_ensures(search_charts, (&indexes, query), r),
        0 <= i < j < r@.len(),
    ensures
        !sorts_before(r@[i].version@, r@[j].version@),
        r@[i].version@ == r@[j].version@ ==> !sorts_before(r@[j].name@, r@[i].name@),
{
    let v = views(r@);
    law_search_is_in_order(found_charts(indexes@, query@));
    assert(v.len() == r@.len());
    assert(v[i] == r@[i]@);
    assert(v[j] == r@[j]@);
    assert(!by_version()(v[j], v[i]));
}

proof fn lemma_chart_from(entries: Seq<(String, Vec<ChartVersion>)>, name: Seq<char>, from: int)
    requires
        0 <= from,
    ensures
        match chart_from(entries, name, from) {
            Some(i) => from <= i < entries.len() && entries[i].0@ == name,
            None => forall|j: int| from <= j < entries.len() ==> (#[trigger] entries[j]).0@ != name,
        },
    decreases entries.len() - from,
{
    if from < entries.len() && entries[from].0@ != name {
        lemma_chart_from(entries, name, from + 1);
    }
}

/// The versions of a chart are all those of its entry in the index, in that order, each with
/// what the index says of it.
pub proof fn law_every_version_is_listed(
    repos: Vec<HelmRepo>,
    index: &HelmIndex,
    repo: &str,
    chart: &str,
    r: AppResult<Vec<ChartVersionEntry>>,
)
    requires
        call_ensures(chart_versions, (&repos, Some(index), repo, chart), r),
        exists|i: int| 0 <= i < repos@.len() && (#[trigger] repos@[i]).name@ == repo@,
    ensures
        r is Err <==> forall|j: int|
            0 <= j < index.entries@.len() ==> (#[trigger] index.entries@[j]).0@ != chart@,
        r is Ok ==> exists|j: int|
            0 <= j < index.entries@.len() && (#[trigger] index.entries@[j]).0@ == chart@
                && r->Ok_0@.len() == index.entries@[j].1@.len() && (forall|k: int|
                0 <= k < r->Ok_0@.len() ==> (#[trigger] r->Ok_0@[k]).version@
                    == index.entries@[j].1@[k].version@ && r->Ok_0@[k].app_version@
                    == index.entries@[j].1@[k].app_version@ && r->Ok_0@[k].created@
                    == index.entries@[j].1@[k].created@ && texts(r->Ok_0@[k].urls@) == texts(
                    index.entries@[j].1@[k].urls@,
                )),
{
    lemma_named_from(repos@, repo@, 0);
    lemma_chart_from(index.entries@, chart@, 0);
    let i = choose|i: int| 0 <= i < repos@.len() && (#[trigger] repos@[i]).name@ == repo@;
    assert(repos@[i].key() == repo@);
}

/// A chart is downloaded from its repository in the version asked for, as it is, and lies in
/// the directory under its name and version.
pub proof fn law_chart_is_downloaded_as_asked(
    repo: &str,
    chart: &str,
    version: &str,
    dir: &str,
    stderr: &str,
    argv: Vec<String>,
    done: AppResult<String>,
    failed: AppResult<String>,
)
    requires
        call_ensures(pull_argv, (repo, chart, version, dir), argv),
        call_ensures(export_chart, (chart, version, dir, true, stderr), done),
        call_ensures(export_chart, (chart, version, dir, false, stderr), failed),
    ensures
        texts(argv@).take(2) == seq!["pull"@, repo@ + "/"@ + chart@],
        has_option(texts(argv@), "--version"@, version@),
        has_option(texts(argv@), "--destination"@, dir@),
        texts(argv@).contains("--untar=false"@),
        done matches Ok(p) && p@ == joined_path(dir@, chart@ + "-"@ + version@ + ".tgz"@),
        failed matches Err(e) && e.is_other("helm pull failed: "@ + stderr@),
{
    let t = texts(argv@);
    assert(t[2] == "--version"@ && t[3] == version@);
    assert(t[4] == "--destination"@ && t[5] == dir@);
    assert(t[6] == "--untar=false"@);
}

/// The repositories are kept in one file of the configuration directory.
pub proof fn law_repositories_are_kept_in_one_file(dir: &str, r: AppResult<String>, none: AppResult<
    String,
>)
    requires
        call_ensures(repos_path, (Some(dir),), r),
        call_ensures(repos_path, (None::<&str>,), none),
    ensures
        r matches Ok(p) && p@ == joined_path(dir@, "helm-repos.json"@),
        none is Err,
{
}

/// An index counts only where it was served, and a repository is reported with its own error
/// before any other.
pub proof fn law_errors_of_a_refresh(
    url: &str,
    status: &str,
    repo: HelmRepo,
    fallback: AppError,
    served: AppResult<()>,
    refused: AppResult<()>,
    r: AppError,
)
    requires
        call_ensures(index_served, (url, true, status), served),
        call_ensures(index_served, (url, false, status), refused),
        call_ensures(HelmRepo::error_or, (repo, fallback), r),
    ensures
        served is Ok,
        refused matches Err(e) && e.is_other("fetch "@ + url@ + ": HTTP "@ + status@),
        repo.last_error matches Some(m) ==> r.is_other("repo '"@ + repo.name@ + "': "@ + m@),
        repo.last_error is None ==> r == fallback,
{
}

} // verus!
