//! Copying images between registries, archives and layouts with `skopeo`.
//!
//! What is decided before the command is spawned and after it has ended stands
//! here: references, credentials, argument lists and results. Credentials go
//! into an auth file, never onto the argument list.
use crate::argv::{has_option, option_words, push_if, push_option, word_if};
use crate::encoding::{base64_encode, base64_text};
use crate::error::{other, AppError, AppResult};
use crate::image::export::{save_path_problem, validate_save_path};
use crate::image::repo::{find_registry, ImageRegistry};
use crate::lists::{lemma_named_from, named_at, Named};
use crate::text::{
    ascii_lower, cat2, cat3, cat4, cat5, char_from, contains_char, find_char, has_prefix,
    lemma_char_from, no_texts, opt_text, push_text, same, split_once, strip_prefix, texts,
    to_ascii_lower, trim_end_char, trim_start_char, without_end, without_start,
};
use vstd::prelude::*;
use vstd::utf8::encode_utf8;

verus! {

/// Event with one line of output of a running copy.
pub const IMAGE_SYNC_LOG_EVENT: &'static str = "image-sync-log";

/// Event at the end of a copy.
pub const IMAGE_SYNC_DONE_EVENT: &'static str = "image-sync-done";

/// Wall-clock budget of one copy, in seconds.
pub const COPY_TIMEOUT_SECS: u64 = 3600;

/// The result of a completed copy.
#[derive(Clone, Debug)]
pub struct ImageSyncResult {
    /// The source (e.g. `docker://nginx:1.25`).
    pub source: String,
    /// The destination (`docker://harbor.internal/library/nginx:1.25`).
    pub destination: String,
    /// True if the command exited with success.
    pub success: bool,
    /// Number of lines it printed.
    pub lines: usize,
    /// Summary for people.
    pub summary: String,
}

/// Whether `skopeo` is usable on this host.
#[derive(Clone, Debug)]
pub struct SkopeoAvailability {
    pub available: bool,
    /// Path of the command, where it was found.
    pub path: Option<String>,
    /// What `skopeo --version` printed, or how to install it.
    pub version: Option<String>,
}

/// The result of exporting an image from a registry to a local archive.
#[derive(Clone, Debug)]
pub struct ExportRegistryResult {
    /// The source (e.g. `docker://harbor.local/nginx:1.25`).
    pub source: String,
    /// Local file path the archive was saved to.
    pub saved_path: String,
    /// Whether the command exited with success.
    pub success: bool,
    /// Number of lines it printed.
    pub lines: usize,
    /// Summary for people.
    pub summary: String,
}

// ---------------------------------------------------------------------------
// References
// ---------------------------------------------------------------------------

/// The bare `host[:port]` of a registry address.
pub open spec fn host_of(url: Seq<char>) -> Seq<char> {
    let bare = if has_prefix(url, "https://"@) {
        url.skip("https://"@.len() as int)
    } else if has_prefix(url, "http://"@) {
        url.skip("http://"@.len() as int)
    } else {
        url
    };
    without_end(bare, '/')
}

/// A registry address without its scheme and its trailing slashes.
pub fn registry_host(url: &str) -> (r: String)
    ensures
        r@ == host_of(url@),
{
    let bare = match strip_prefix(url, "https://") {
        Some(x) => x,
        None => match strip_prefix(url, "http://") {
            Some(x) => x,
            None => url,
        },
    };
    trim_end_char(bare, '/').to_owned()
}

/// The reference of a tag in a registry; one without a tag is copied by digest.
pub open spec fn reference_of(host: Seq<char>, repo: Seq<char>, tag: Seq<char>) -> Seq<char> {
    let base = "docker://"@ + host + "/"@ + without_start(repo, '/');
    if tag.len() == 0 {
        base
    } else {
        base + ":"@ + tag
    }
}

/// The `docker://host/repo:tag` reference of a copy's destination.
pub fn dest_reference(host: &str, repo: &str, tag: &str) -> (r: String)
    ensures
        r@ == reference_of(host@, repo@, tag@),
{
    let path = trim_start_char(repo, '/');
    let base = cat4("docker://", host, "/", path);
    if tag.is_empty() {
        base
    } else {
        cat3(base.as_str(), ":", tag)
    }
}

/// The first part of a path is a registry: it holds a dot or a colon, or is
/// `localhost`.
pub open spec fn is_host(first: Seq<char>) -> bool {
    first.contains('.') || first.contains(':') || ascii_lower(first) == "localhost"@
}

/// The registry that a source is read from, where it is read from one. What
/// names no registry is on Docker Hub.
pub open spec fn source_host(reference: Seq<char>) -> Option<Seq<char>> {
    if has_prefix(reference, "docker://"@) {
        let rest = reference.skip("docker://"@.len() as int);
        match char_from(rest, '/', 0) {
            None => if rest.len() == 0 {
                None
            } else {
                Some("docker.io"@)
            },
            Some(i) => if i == 0 {
                None
            } else if is_host(rest.take(i)) {
                Some(rest.take(i))
            } else {
                Some("docker.io"@)
            },
        }
    } else {
        None
    }
}

/// The registry that a `docker://` source is read from, as the key of its
/// credentials; other sources have none.
pub fn docker_transport_host<'a>(reference: &'a str) -> (r: Option<&'a str>)
    ensures
        match r {
            Some(h) => source_host(reference@) == Some(h@),
            None => source_host(reference@) is None,
        },
{
    let rest = match strip_prefix(reference, "docker://") {
        Some(x) => x,
        None => {
            return None;
        },
    };
    match find_char(rest, '/') {
        None => {
            if rest.is_empty() {
                None
            } else {
                Some("docker.io")
            }
        },
        Some(i) => {
            if i == 0 {
                return None;
            }
            let first = rest.substring_char(0, i);
            assert(first@ =~= rest@.take(i as int));
            let lower = to_ascii_lower(first);
            if contains_char(first, '.') || contains_char(first, ':') || same(
                lower.as_str(),
                "localhost",
            ) {
                Some(first)
            } else {
                Some("docker.io")
            }
        },
    }
}

// ---------------------------------------------------------------------------
// Credentials
// ---------------------------------------------------------------------------

/// Credentials for a registry.
pub enum AuthCreds<'a> {
    /// `user:pass` in one text, split at the first colon.
    Raw(&'a str),
    /// User and password apart.
    Split { user: &'a str, pass: &'a str },
}

/// The user and password of credentials; anonymous ones have none.
pub open spec fn user_and_pass(c: AuthCreds<'_>) -> Option<(Seq<char>, Seq<char>)> {
    match c {
        AuthCreds::Raw(s) => match char_from(s@, ':', 0) {
            None => None,
            Some(i) => if i == 0 {
                None
            } else {
                Some((s@.take(i), s@.skip(i + 1)))
            },
        },
        AuthCreds::Split { user, pass } => if user@.len() == 0 {
            None
        } else {
            Some((user@, pass@))
        },
    }
}

impl<'a> AuthCreds<'a> {
    /// User and password, or nothing where the credentials are empty or name no
    /// user.
    pub fn user_pass(&self) -> (r: Option<(&str, &str)>)
        ensures
            match r {
                Some((u, p)) => user_and_pass(*self) == Some((u@, p@)),
                None => user_and_pass(*self) is None,
            },
    {
        match self {
            AuthCreds::Raw(s) => {
                proof {
                    crate::text::lemma_char_from(s@, ':', 0);
                }
                match split_once(s, ':') {
                    None => None,
                    Some((user, pass)) => {
                        if user.is_empty() {
                            None
                        } else {
                            Some((user, pass))
                        }
                    },
                }
            },
            AuthCreds::Split { user, pass } => {
                if user.is_empty() {
                    None
                } else {
                    Some((user, pass))
                }
            },
        }
    }
}

/// The auth file for one registry, with its credentials encoded as `auth`.
pub open spec fn auth_file(host: Seq<char>, auth: Seq<char>) -> Seq<char> {
    "{\"auths\":{\""@ + host + "\":{\"auth\":\""@ + auth + "\"}}}"@
}

/// The auth file for one registry, with its credentials encoded as `auth`, in the
/// format that Docker and `skopeo` read.
pub fn auth_file_text(host: &str, auth: &str) -> (r: String)
    ensures
        r@ == auth_file(host@, auth@),
{
    cat5("{\"auths\":{\"", host, "\":{\"auth\":\"", auth, "\"}}}")
}

/// The auth file for one registry.
pub open spec fn auth_document(host: Seq<char>, user: Seq<char>, pass: Seq<char>) -> Seq<char> {
    auth_file(host, base64_text(encode_utf8(user + ":"@ + pass)))
}

/// The contents of the auth file for one registry. Anonymous access needs none.
pub fn authfile_body(host: &str, creds: &AuthCreds<'_>) -> (r: Option<String>)
    ensures
        opt_text(r) == (match user_and_pass(*creds) {
            Some((user, pass)) => Some(auth_document(host@, user, pass)),
            None => None,
        }),
{
    match creds.user_pass() {
        None => None,
        Some((user, pass)) => {
            let plain = cat3(user, ":", pass);
            let auth = base64_encode(plain.as_str().as_bytes());
            Some(auth_file_text(host, auth.as_str()))
        },
    }
}

// ---------------------------------------------------------------------------
// Argument lists
// ---------------------------------------------------------------------------

/// The words every copy begins with: retries, and images for linux whatever the
/// host runs.
pub open spec fn copy_words() -> Seq<Seq<char>> {
    seq!["copy"@, "--retry-times"@, "3"@, "--override-os"@, "linux"@]
}

fn base_argv() -> (r: Vec<String>)
    ensures
        texts(r@) == copy_words(),
{
    let mut v = no_texts();
    push_text(&mut v, "copy");
    push_text(&mut v, "--retry-times");
    push_text(&mut v, "3");
    push_text(&mut v, "--override-os");
    push_text(&mut v, "linux");
    assert(texts(v@) =~= copy_words());
    v
}

/// The words of a copy between two places.
pub open spec fn copy_argv_words(
    source: Seq<char>,
    dest: Seq<char>,
    src_authfile: Option<&str>,
    dest_authfile: Option<&str>,
    insecure_src: bool,
    insecure_dest: bool,
) -> Seq<Seq<char>> {
    copy_words() + option_words("--src-authfile"@, src_authfile) + word_if(
        insecure_src,
        "--src-tls-verify=false"@,
    ) + option_words("--dest-authfile"@, dest_authfile) + word_if(
        insecure_dest,
        "--dest-tls-verify=false"@,
    ) + seq![source, dest]
}

/// The argument list of a copy. The path of the command itself is not part of
/// it.
pub fn build_argv(
    _skopeo: &str,
    source: &str,
    dest: &str,
    src_authfile: Option<&str>,
    dest_authfile: Option<&str>,
    insecure_src: bool,
    insecure_dest: bool,
) -> (r: Vec<String>)
    ensures
        texts(r@) == copy_argv_words(
            source@,
            dest@,
            src_authfile,
            dest_authfile,
            insecure_src,
            insecure_dest,
        ),
{
    let mut argv = base_argv();
    push_option(&mut argv, "--src-authfile", src_authfile);
    push_if(&mut argv, insecure_src, "--src-tls-verify=false");
    push_option(&mut argv, "--dest-authfile", dest_authfile);
    push_if(&mut argv, insecure_dest, "--dest-tls-verify=false");
    let ghost before = texts(argv@);
    push_text(&mut argv, source);
    push_text(&mut argv, dest);
    assert(texts(argv@) =~= before + seq![source@, dest@]);
    argv
}

/// The words of a copy into a local archive.
pub open spec fn export_argv_words(
    source: Seq<char>,
    dest: Seq<char>,
    src_authfile: Option<&str>,
    insecure_src: bool,
) -> Seq<Seq<char>> {
    copy_words() + option_words("--src-authfile"@, src_authfile) + word_if(
        insecure_src,
        "--src-tls-verify=false"@,
    ) + seq![source, dest]
}

/// The argument list of a copy into a local archive.
pub fn build_export_argv(
    _skopeo: &str,
    source: &str,
    dest: &str,
    src_authfile: Option<&str>,
    insecure_src: bool,
) -> (r: Vec<String>)
    ensures
        texts(r@) == export_argv_words(source@, dest@, src_authfile, insecure_src),
{
    let mut argv = base_argv();
    push_option(&mut argv, "--src-authfile", src_authfile);
    push_if(&mut argv, insecure_src, "--src-tls-verify=false");
    let ghost before = texts(argv@);
    push_text(&mut argv, source);
    push_text(&mut argv, dest);
    assert(texts(argv@) =~= before + seq![source@, dest@]);
    argv
}

// ---------------------------------------------------------------------------
// Copying into a registry
// ---------------------------------------------------------------------------

/// What is said where `skopeo` is missing.
pub open spec fn no_skopeo_text() -> Seq<char> {
    "skopeo CLI not found in PATH — install skopeo (brew install skopeo / apt install skopeo) and retry"@
}

/// The path of `skopeo`, or what is said where it is missing.
pub fn require_skopeo(path: Option<String>) -> (r: AppResult<String>)
    ensures
        match r {
            Ok(p) => path == Some(p),
            Err(e) => path is None && e.is_other(no_skopeo_text()),
        },
{
    match path {
        Some(p) => Ok(p),
        None => Err(
            other(
                "skopeo CLI not found in PATH — install skopeo (brew install skopeo / apt install skopeo) and retry",
            ),
        ),
    }
}

/// What is known about `skopeo` on this host: where it is, and what it said of
/// its version.
pub fn skopeo_availability(path: Option<String>, version: Option<String>) -> (r: SkopeoAvailability)
    ensures
        match path {
            Some(p) => r.available && r.path == path && r.version == version,
            None => !r.available && r.path is None && opt_text(r.version) == Some(
                "skopeo not found on PATH — install it (brew install skopeo / apt install skopeo) and retry"@,
            ),
        },
{
    match path {
        Some(p) => SkopeoAvailability { available: true, path: Some(p), version },
        None => SkopeoAvailability {
            available: false,
            path: None,
            version: Some(
                "skopeo not found on PATH — install it (brew install skopeo / apt install skopeo) and retry".to_owned(),
            ),
        },
    }
}

/// What a copy needs before its command can be run: the command, the
/// destination, and the auth files that are to be written.
#[derive(Debug)]
pub struct CopyPlan {
    pub skopeo: String,
    pub destination: String,
    pub src_auth: Option<String>,
    pub dest_auth: Option<String>,
}

/// The auth file for reading a source with `creds`, where it is read from a
/// registry and credentials are given.
pub open spec fn source_auth(source: Seq<char>, creds: Option<&str>) -> Option<Seq<char>> {
    match (source_host(source), creds) {
        (Some(host), Some(c)) => match user_and_pass(AuthCreds::Raw(c)) {
            Some((user, pass)) => Some(auth_document(host, user, pass)),
            None => None,
        },
        _ => None,
    }
}

/// The auth file for a configured registry.
pub open spec fn registry_auth(reg: ImageRegistry) -> Option<Seq<char>> {
    if reg.username@.len() == 0 {
        None
    } else {
        Some(auth_document(host_of(reg.url@), reg.username@, reg.password@))
    }
}

fn auth_for_registry(reg: &ImageRegistry) -> (r: Option<String>)
    ensures
        opt_text(r) == registry_auth(*reg),
{
    let host = registry_host(reg.url.as_str());
    authfile_body(
        host.as_str(),
        &AuthCreds::Split { user: reg.username.as_str(), pass: reg.password.as_str() },
    )
}

/// Decides how to copy `source` into the configured registry `dest_registry`.
/// `skopeo` is the path of the command, where it was found.
pub fn plan_copy(
    skopeo: Option<String>,
    registries: &Vec<ImageRegistry>,
    source: &str,
    dest_registry: &str,
    dest_repo: &str,
    dest_tag: &str,
    src_creds: Option<&str>,
) -> (r: AppResult<CopyPlan>)
    ensures
        match r {
            Ok(p) => {
                &&& skopeo == Some(p.skopeo)
                &&& named_at(registries@, dest_registry@) matches Some(i) && {
                    &&& p.destination@ == reference_of(
                        host_of(registries@[i].url@),
                        dest_repo@,
                        dest_tag@,
                    )
                    &&& opt_text(p.dest_auth) == registry_auth(registries@[i])
                }
                &&& opt_text(p.src_auth) == source_auth(source@, src_creds)
            },
            Err(e) => if skopeo is None {
                e.is_other(no_skopeo_text())
            } else {
                &&& named_at(registries@, dest_registry@) is None
                &&& e.is_not_found(
                    "destination registry '"@ + dest_registry@
                        + "' is not configured — add it via the registries UI (or image_registry_upsert) first"@,
                )
            },
        },
{
    let skopeo = match require_skopeo(skopeo) {
        Ok(s) => s,
        Err(e) => {
            return Err(e);
        },
    };
    match find_registry(registries, dest_registry) {
        None => Err(
            AppError::NotFound(
                cat3(
                    "destination registry '",
                    dest_registry,
                    "' is not configured — add it via the registries UI (or image_registry_upsert) first",
                ),
            ),
        ),
        Some(i) => {
            let reg = &registries[i];
            let host = registry_host(reg.url.as_str());
            let src_auth = match (docker_transport_host(source), src_creds) {
                (Some(h), Some(c)) => authfile_body(h, &AuthCreds::Raw(c)),
                _ => None,
            };
            Ok(
                CopyPlan {
                    skopeo,
                    destination: dest_reference(host.as_str(), dest_repo, dest_tag),
                    src_auth,
                    dest_auth: auth_for_registry(reg),
                },
            )
        },
    }
}

/// The error of a copy that did not end in time.
pub fn copy_timed_out(source: &str) -> (r: AppError)
    ensures
        r.is_other(
            "skopeo copy timed out after 3600s (source "@ + source@
                + ") — retry, or raise COPY_TIMEOUT for exceptionally large images"@,
        ),
{
    let m = cat3(
        "skopeo copy timed out after 3600s (source ",
        source,
        ") — retry, or raise COPY_TIMEOUT for exceptionally large images",
    );
    other(m.as_str())
}

/// The result of a copy that ended: `status` is its exit status as text.
pub fn finish_copy(
    source: &str,
    destination: &str,
    dest_registry: &str,
    dest_repo: &str,
    dest_tag: &str,
    success: bool,
    status: &str,
    lines: usize,
) -> (r: ImageSyncResult)
    ensures
        r.source@ == source@,
        r.destination@ == destination@,
        r.success == success,
        r.lines == lines,
        r.summary@ == (if success {
            "copied "@ + source@ + " → "@ + dest_registry@ + ("/"@ + dest_repo@ + ":"@ + dest_tag@)
        } else {
            "skopeo copy failed: "@ + status@
        }),
{
    let summary = if success {
        let place = cat4("/", dest_repo, ":", dest_tag);
        cat5("copied ", source, " → ", dest_registry, place.as_str())
    } else {
        cat2("skopeo copy failed: ", status)
    };
    ImageSyncResult {
        source: source.to_owned(),
        destination: destination.to_owned(),
        success,
        lines,
        summary,
    }
}

/// What the caller of a copy gets: the result, or its summary as an error.
pub fn copy_outcome(result: ImageSyncResult) -> (r: AppResult<ImageSyncResult>)
    ensures
        match r {
            Ok(x) => result.success && x == result,
            Err(e) => !result.success && e.is_other(result.summary@),
        },
{
    if result.success {
        Ok(result)
    } else {
        Err(AppError::Other(result.summary))
    }
}

// ---------------------------------------------------------------------------
// Exporting from a registry
// ---------------------------------------------------------------------------

/// What an export needs before its command can be run.
#[derive(Debug)]
pub struct ExportPlan {
    pub skopeo: String,
    pub source: String,
    pub destination: String,
    pub src_auth: Option<String>,
}

/// Decides how to export a tag of the configured registry `registry_name` to a
/// local archive.
pub fn plan_export(
    skopeo: Option<String>,
    registries: &Vec<ImageRegistry>,
    registry_name: &str,
    repo: &str,
    tag: &str,
    save_path: &str,
) -> (r: AppResult<ExportPlan>)
    ensures
        match r {
            Ok(p) => {
                &&& save_path_problem(save_path@) is None
                &&& skopeo == Some(p.skopeo)
                &&& named_at(registries@, registry_name@) matches Some(i) && {
                    &&& p.source@ == "docker://"@ + host_of(registries@[i].url@) + "/"@
                        + without_start(repo@, '/') + (":"@ + tag@)
                    &&& opt_text(p.src_auth) == registry_auth(registries@[i])
                }
                &&& p.destination@ == "docker-archive:"@ + save_path@
            },
            Err(e) => if save_path_problem(save_path@) is Some {
                e.is_other(save_path_problem(save_path@)->0)
            } else if skopeo is None {
                e.is_other(no_skopeo_text())
            } else {
                &&& named_at(registries@, registry_name@) is None
                &&& e.is_not_found(
                    "registry '"@ + registry_name@
                        + "' is not configured — add it via the registries UI first"@,
                )
            },
        },
{
    match validate_save_path(save_path) {
        Err(e) => {
            return Err(e);
        },
        Ok(_) => {},
    }
    let skopeo = match require_skopeo(skopeo) {
        Ok(s) => s,
        Err(e) => {
            return Err(e);
        },
    };
    match find_registry(registries, registry_name) {
        None => Err(
            AppError::NotFound(
                cat3(
                    "registry '",
                    registry_name,
                    "' is not configured — add it via the registries UI first",
                ),
            ),
        ),
        Some(i) => {
            let reg = &registries[i];
            let host = registry_host(reg.url.as_str());
            let end = cat2(":", tag);
            Ok(
                ExportPlan {
                    skopeo,
                    source: cat5(
                        "docker://",
                        host.as_str(),
                        "/",
                        trim_start_char(repo, '/'),
                        end.as_str(),
                    ),
                    destination: cat2("docker-archive:", save_path),
                    src_auth: auth_for_registry(reg),
                },
            )
        },
    }
}

/// The error of an export that did not end in time.
pub fn export_timed_out(source: &str) -> (r: AppError)
    ensures
        r.is_other("skopeo export timed out after 3600s (source "@ + source@ + ")"@),
{
    let m = cat3("skopeo export timed out after 3600s (source ", source, ")");
    other(m.as_str())
}

/// The result of an export that ended: `status` is its exit status as text.
pub fn finish_registry_export(
    source: &str,
    save_path: &str,
    success: bool,
    status: &str,
    lines: usize,
) -> (r: ExportRegistryResult)
    ensures
        r.source@ == source@,
        r.saved_path@ == save_path@,
        r.success == success,
        r.lines == lines,
        r.summary@ == (if success {
            "exported "@ + source@ + " → "@ + save_path@
        } else {
            "skopeo copy failed: "@ + status@
        }),
{
    let summary = if success {
        cat4("exported ", source, " → ", save_path)
    } else {
        cat2("skopeo copy failed: ", status)
    };
    ExportRegistryResult {
        source: source.to_owned(),
        saved_path: save_path.to_owned(),
        success,
        lines,
        summary,
    }
}

/// What the caller of an export gets: the result, or its summary as an error.
pub fn registry_export_outcome(result: ExportRegistryResult) -> (r: AppResult<ExportRegistryResult>)
    ensures
        match r {
            Ok(x) => result.success && x == result,
            Err(e) => !result.success && e.is_other(result.summary@),
        },
{
    if result.success {
        Ok(result)
    } else {
        Err(AppError::Other(result.summary))
    }
}

// ---------------------------------------------------------------------------
// Laws
// ---------------------------------------------------------------------------

/// The source and the destination are the last two words of every copy.
pub proof fn law_places_come_last(
    source: Seq<char>,
    dest: Seq<char>,
    src_authfile: Option<&str>,
    dest_authfile: Option<&str>,
    insecure_src: bool,
    insecure_dest: bool,
)
    ensures
        ({
            let copy = copy_argv_words(
                source,
                dest,
                src_authfile,
                dest_authfile,
                insecure_src,
                insecure_dest,
            );
            let export = export_argv_words(source, dest, src_authfile, insecure_src);
            &&& copy[copy.len() - 2] == source && copy[copy.len() - 1] == dest
            &&& export[export.len() - 2] == source && export[export.len() - 1] == dest
        }),
{
}

/// No credentials stand on the argument list of a copy: every word on it is a
/// fixed one, one of the two places, or the path of an auth file.
pub proof fn law_argv_holds_no_credentials(
    source: Seq<char>,
    dest: Seq<char>,
    src_authfile: Option<&str>,
    dest_authfile: Option<&str>,
    insecure_src: bool,
    insecure_dest: bool,
    k: int,
)
    requires
        0 <= k < copy_argv_words(
            source,
            dest,
            src_authfile,
            dest_authfile,
            insecure_src,
            insecure_dest,
        ).len(),
    ensures
        ({
            let w = copy_argv_words(
                source,
                dest,
                src_authfile,
                dest_authfile,
                insecure_src,
                insecure_dest,
            )[k];
            ||| copy_words().contains(w)
            ||| w == "--src-authfile"@
            ||| w == "--dest-authfile"@
            ||| w == "--src-tls-verify=false"@
            ||| w == "--dest-tls-verify=false"@
            ||| w == source
            ||| w == dest
            ||| (src_authfile matches Some(p) && w == p@)
            ||| (dest_authfile matches Some(p) && w == p@)
        }),
{
    let all = copy_argv_words(
        source,
        dest,
        src_authfile,
        dest_authfile,
        insecure_src,
        insecure_dest,
    );
    if k < 5 {
        assert(all[k] == copy_words()[k]);
    }
}

/// No credentials stand on the argument list of an export either.
pub proof fn law_export_argv_holds_no_credentials(
    source: Seq<char>,
    dest: Seq<char>,
    src_authfile: Option<&str>,
    insecure_src: bool,
    k: int,
)
    requires
        0 <= k < export_argv_words(source, dest, src_authfile, insecure_src).len(),
    ensures
        ({
            let w = export_argv_words(source, dest, src_authfile, insecure_src)[k];
            ||| copy_words().contains(w)
            ||| w == "--src-authfile"@
            ||| w == "--src-tls-verify=false"@
            ||| w == source
            ||| w == dest
            ||| (src_authfile matches Some(p) && w == p@)
        }),
{
    let fixed = copy_words();
    let words = export_argv_words(source, dest, src_authfile, insecure_src);
    if k < fixed.len() {
        assert(words[k] == fixed[k]);
    }
}

/// The host of a registry is its address without the scheme and without slashes at its end.
pub proof fn law_host_is_the_address_without_its_scheme(url: &str, host: Seq<char>, r: String)
    requires
        call_ensures(registry_host, (url,), r),
        host.len() > 0,
        host.last() != '/',
        !has_prefix(host, "https://"@),
        !has_prefix(host, "http://"@),
    ensures
        url@ == host || url@ == "https://"@ + host || url@ == "http://"@ + host || url@ == "https://"@
            + host + "/"@ || url@ == "http://"@ + host + "/"@ ==> r@ == host,
{
    reveal_strlit("https://");
    reveal_strlit("http://");
    reveal_strlit("/");
    assert("https://"@.len() == 8 && "http://"@.len() == 7 && "/"@.len() == 1);
    reveal_with_fuel(without_end, 2);
    let slashed = host + "/"@;
    assert(slashed.drop_last() =~= host);
    assert(slashed.last() == '/');
    assert(("https://"@ + host).skip(8) =~= host);
    assert(("http://"@ + host).skip(7) =~= host);
    assert(("https://"@ + host + "/"@).skip(8) =~= slashed);
    assert(("http://"@ + host + "/"@).skip(7) =~= slashed);
    assert(("https://"@ + host).take(8) =~= "https://"@);
    assert(("http://"@ + host).take(7) =~= "http://"@);
    assert(("https://"@ + host + "/"@).take(8) =~= "https://"@);
    assert(("http://"@ + host + "/"@).take(7) =~= "http://"@);
    assert("http://"@[4] == ':' && "https://"@[4] == 's');
    if has_prefix(url@, "https://"@) {
        assert(url@.take(8)[4] == url@[4]);
    }
    if url@ == "http://"@ + host || url@ == "http://"@ + host + "/"@ {
        assert(url@[4] == ':');
    }
}

/// A tag is copied to its repository on the host, under its name.
pub proof fn law_reference_names_host_repository_and_tag(
    host: &str,
    repo: &str,
    tag: &str,
    r: String,
)
    requires
        call_ensures(dest_reference, (host, repo, tag), r),
        repo@.len() > 0,
        repo@[0] != '/',
    ensures
        tag@.len() > 0 ==> r@ == "docker://"@ + host@ + "/"@ + repo@ + ":"@ + tag@,
        tag@.len() == 0 ==> r@ == "docker://"@ + host@ + "/"@ + repo@,
{
}

/// A source is read from the registry that it names before its first slash, and from Docker
/// Hub where that is no registry; what is no `docker://` source is read from none.
pub proof fn law_source_is_read_from_its_registry<'a>(
    reference: &'a str,
    first: Seq<char>,
    rest: Seq<char>,
    r: Option<&'a str>,
)
    requires
        call_ensures(docker_transport_host, (reference,), r),
        !first.contains('/'),
        first.len() > 0,
    ensures
        reference@ == "docker://"@ + first + seq!['/'] + rest && (first.contains('.')
            || first.contains(':') || first == "localhost"@) ==> r is Some && r->0@ == first,
        reference@ == "docker://"@ + first + seq!['/'] + rest && !(first.contains('.')
            || first.contains(':') || ascii_lower(first) == "localhost"@) ==> r is Some && r->0@
            == "docker.io"@,
        reference@ == "docker://"@ + first ==> r is Some && r->0@ == "docker.io"@,
        !has_prefix(reference@, "docker://"@) ==> r is None,
{
    reveal_strlit("docker://");
    reveal_strlit("localhost");
    let n = "docker://"@.len() as int;
    assert(n == 9);
    if first == "localhost"@ {
        assert(ascii_lower(first) =~= first);
    }
    if reference@ == "docker://"@ + first + seq!['/'] + rest {
        let t = reference@.skip(n);
        assert(reference@.take(n) =~= "docker://"@);
        assert(t =~= first + seq!['/'] + rest);
        lemma_first_slash(first, rest);
        assert(t.take(first.len() as int) =~= first);
    }
    if reference@ == "docker://"@ + first {
        assert(reference@.take(n) =~= "docker://"@);
        assert(reference@.skip(n) =~= first);
        lemma_char_from(first, '/', 0);
        if char_from(first, '/', 0) is Some {
            assert(first.contains(first[char_from(first, '/', 0)->0]));
        }
    }
}

proof fn lemma_first_slash(first: Seq<char>, rest: Seq<char>)
    requires
        !first.contains('/'),
    ensures
        char_from(first + seq!['/'] + rest, '/', 0) == Some(first.len() as int),
{
    let t = first + seq!['/'] + rest;
    lemma_char_from(t, '/', 0);
    assert(t[first.len() as int] == '/');
    let i = char_from(t, '/', 0)->0;
    if i < first.len() {
        assert(first[i] == '/');
        assert(first.contains(first[i]));
    }
}

/// Credentials in one text are split at the first colon; without a user there are none.
pub proof fn law_credentials_are_split_at_the_first_colon(
    raw: &str,
    user: Seq<char>,
    pass: Seq<char>,
    r: Option<(&str, &str)>,
    of_pair: Option<(&str, &str)>,
    u: &str,
    p: &str,
)
    requires
        call_ensures(AuthCreds::user_pass, (&AuthCreds::Raw(raw),), r),
        call_ensures(AuthCreds::user_pass, (&AuthCreds::Split { user: u, pass: p },), of_pair),
    ensures
        raw@ == user + seq![':'] + pass && !user.contains(':') && user.len() > 0 ==> (
        r matches Some((a, b)) && a@ == user && b@ == pass),
        raw@ == seq![':'] + pass ==> r is None,
        !raw@.contains(':') ==> r is None,
        u@.len() > 0 ==> (of_pair matches Some((a, b)) && a@ == u@ && b@ == p@),
        u@.len() == 0 ==> of_pair is None,
{
    lemma_char_from(raw@, ':', 0);
    let at = char_from(raw@, ':', 0);
    if at is Some {
        assert(raw@.contains(raw@[at->0]));
    }
    if raw@ == user + seq![':'] + pass && !user.contains(':') && user.len() > 0 {
        assert(raw@[user.len() as int] == ':');
        let i = at->0;
        if i < user.len() {
            assert(user[i] == ':');
            assert(user.contains(user[i]));
        }
        assert(raw@.take(i) =~= user);
        assert(raw@.skip(i + 1) =~= pass);
    }
    if raw@ == seq![':'] + pass {
        assert(raw@[0] == ':');
    }
}

/// The auth file holds the credentials of one host, joined by a colon and encoded in base 64.
pub proof fn law_auth_file_is_of_its_host(
    host: &str,
    user: &str,
    pass: &str,
    r: Option<String>,
    anonymous: Option<String>,
    none: &str,
)
    requires
        call_ensures(authfile_body, (host, &AuthCreds::Split { user, pass }), r),
        call_ensures(authfile_body, (host, &AuthCreds::Split { user: none, pass }), anonymous),
        user@.len() > 0,
        none@.len() == 0,
    ensures
        opt_text(r) == Some(
            "{\"auths\":{\""@ + host@ + "\":{\"auth\":\""@ + base64_text(
                encode_utf8(user@ + ":"@ + pass@),
            ) + "\"}}}"@,
        ),
        anonymous is None,
{
}

/// A copy retries three times, takes images for linux, reads and writes with the auth files
/// given for either side, and leaves out the check of certificates exactly for the side that
/// asks for it.
pub proof fn law_copy_does_what_was_asked_for(
    skopeo: &str,
    source: &str,
    dest: &str,
    src_authfile: Option<&str>,
    dest_authfile: Option<&str>,
    insecure_src: bool,
    insecure_dest: bool,
    r: Vec<String>,
)
    requires
        call_ensures(
            build_argv,
            (skopeo, source, dest, src_authfile, dest_authfile, insecure_src, insecure_dest),
            r,
        ),
    ensures
        texts(r@).take(5) == seq!["copy"@, "--retry-times"@, "3"@, "--override-os"@, "linux"@],
        src_authfile matches Some(f) ==> has_option(texts(r@), "--src-authfile"@, f@),
        dest_authfile matches Some(f) ==> has_option(texts(r@), "--dest-authfile"@, f@),
        insecure_src ==> texts(r@).contains("--src-tls-verify=false"@),
        insecure_dest ==> texts(r@).contains("--dest-tls-verify=false"@),
        r@.len() == 7 + (if src_authfile is Some {
            2int
        } else {
            0
        }) + (if insecure_src {
            1int
        } else {
            0
        }) + (if dest_authfile is Some {
            2int
        } else {
            0
        }) + (if insecure_dest {
            1int
        } else {
            0
        }),
        texts(r@).last() == dest@,
        texts(r@)[r@.len() - 2] == source@,
{
    let t = texts(r@);
    assert(t.len() == r@.len());
    assert(t.take(5) =~= copy_words());
    let a = 5 + option_words("--src-authfile"@, src_authfile).len();
    let b = a + word_if(insecure_src, "--src-tls-verify=false"@).len();
    let c = b + option_words("--dest-authfile"@, dest_authfile).len();
    if src_authfile is Some {
        assert(t[5] == "--src-authfile"@ && t[6] == src_authfile->0@);
    }
    if insecure_src {
        assert(t[a as int] == "--src-tls-verify=false"@);
    }
    if dest_authfile is Some {
        assert(t[b as int] == "--dest-authfile"@ && t[b as int + 1] == dest_authfile->0@);
    }
    if insecure_dest {
        assert(t[c as int] == "--dest-tls-verify=false"@);
    }
}

/// An export into an archive reads as a copy does.
pub proof fn law_export_does_what_was_asked_for(
    skopeo: &str,
    source: &str,
    dest: &str,
    src_authfile: Option<&str>,
    insecure_src: bool,
    r: Vec<String>,
)
    requires
        call_ensures(build_export_argv, (skopeo, source, dest, src_authfile, insecure_src), r),
    ensures
        texts(r@).take(5) == seq!["copy"@, "--retry-times"@, "3"@, "--override-os"@, "linux"@],
        src_authfile matches Some(f) ==> has_option(texts(r@), "--src-authfile"@, f@),
        insecure_src ==> texts(r@).contains("--src-tls-verify=false"@),
        r@.len() == 7 + (if src_authfile is Some {
            2int
        } else {
            0
        }) + (if insecure_src {
            1int
        } else {
            0
        }),
        texts(r@).last() == dest@,
        texts(r@)[r@.len() - 2] == source@,
{
    let t = texts(r@);
    assert(t.len() == r@.len());
    assert(t.take(5) =~= copy_words());
    let a = 5 + option_words("--src-authfile"@, src_authfile).len();
    if src_authfile is Some {
        assert(t[5] == "--src-authfile"@ && t[6] == src_authfile->0@);
    }
    if insecure_src {
        assert(t[a as int] == "--src-tls-verify=false"@);
    }
}

/// A copy goes to the configured registry of the name, with the credentials of that registry,
/// and reads the source with those given for it.
pub proof fn law_copy_goes_to_the_registry_asked_for(
    skopeo: Option<String>,
    registries: Vec<ImageRegistry>,
    source: &str,
    dest_registry: &str,
    dest_repo: &str,
    dest_tag: &str,
    src_creds: Option<&str>,
    r: AppResult<CopyPlan>,
    i: int,
    url: &str,
    host: &str,
    held: String,
    destination: String,
    user: &str,
    pass: &str,
    auth: Option<String>,
)
    requires
        call_ensures(
            plan_copy,
            (skopeo, &registries, source, dest_registry, dest_repo, dest_tag, src_creds),
            r,
        ),
        0 <= i < registries@.len(),
        registries@[i].name@ == dest_registry@,
        forall|k: int| 0 <= k < i ==> (#[trigger] registries@[k]).name@ != dest_registry@,
        url@ == registries@[i].url@,
        call_ensures(registry_host, (url,), held),
        host@ == held@,
        call_ensures(dest_reference, (host, dest_repo, dest_tag), destination),
        user@ == registries@[i].username@,
        pass@ == registries@[i].password@,
        call_ensures(authfile_body, (host, &AuthCreds::Split { user, pass }), auth),
    ensures
        r is Ok <==> skopeo is Some,
        r is Ok ==> r->Ok_0.skopeo == skopeo->0 && r->Ok_0.destination@ == destination@ && opt_text(
            r->Ok_0.dest_auth,
        ) == opt_text(auth),
        r is Ok && src_creds is None ==> r->Ok_0.src_auth is None,
{
    lemma_named_from(registries@, dest_registry@, 0);
    assert(registries@[i].key() == dest_registry@);
    let n = named_at(registries@, dest_registry@);
    assert(n is Some);
    if n->0 < i {
        assert(registries@[n->0].key() != dest_registry@) by {
            assert(registries@[n->0].name@ != dest_registry@);
        }
    }
    assert(n == Some(i));
}

/// A source is read with the credentials given for it, under the name of its registry.
pub proof fn law_source_is_read_with_its_credentials(
    skopeo: Option<String>,
    registries: Vec<ImageRegistry>,
    source: &str,
    dest_registry: &str,
    dest_repo: &str,
    dest_tag: &str,
    creds: &str,
    r: AppResult<CopyPlan>,
    host: Option<&str>,
    auth: Option<String>,
)
    requires
        call_ensures(
            plan_copy,
            (skopeo, &registries, source, dest_registry, dest_repo, dest_tag, Some(creds)),
            r,
        ),
        call_ensures(docker_transport_host, (source,), host),
        host is Some ==> call_ensures(authfile_body, (host->0, &AuthCreds::Raw(creds)), auth),
    ensures
        r is Ok && host is Some ==> opt_text(r->Ok_0.src_auth) == opt_text(auth),
        r is Ok && host is None ==> r->Ok_0.src_auth is None,
{
}

/// An export reads the tag of the repository on the configured registry of the name, and
/// writes an archive at the path asked for, where a file may be saved there.
pub proof fn law_export_reads_from_the_registry_asked_for(
    skopeo: Option<String>,
    registries: Vec<ImageRegistry>,
    registry_name: &str,
    repo: &str,
    tag: &str,
    save_path: &str,
    r: AppResult<ExportPlan>,
    i: int,
    url: &str,
    host: String,
    checked: AppResult<()>,
)
    requires
        call_ensures(plan_export, (skopeo, &registries, registry_name, repo, tag, save_path), r),
        0 <= i < registries@.len(),
        registries@[i].name@ == registry_name@,
        forall|k: int| 0 <= k < i ==> (#[trigger] registries@[k]).name@ != registry_name@,
        url@ == registries@[i].url@,
        call_ensures(registry_host, (url,), host),
        call_ensures(validate_save_path, (save_path,), checked),
        repo@.len() > 0,
        repo@[0] != '/',
    ensures
        r is Ok <==> checked is Ok && skopeo is Some,
        r is Ok ==> r->Ok_0.source@ == "docker://"@ + host@ + "/"@ + repo@ + (":"@ + tag@)
            && r->Ok_0.destination@ == "docker-archive:"@ + save_path@,
        r is Ok && registries@[i].username@.len() == 0 ==> r->Ok_0.src_auth is None,
{
    lemma_named_from(registries@, registry_name@, 0);
    assert(registries@[i].key() == registry_name@);
    let n = named_at(registries@, registry_name@);
    assert(n is Some);
    if n->0 < i {
        assert(registries@[n->0].name@ != registry_name@);
    }
    assert(n == Some(i));
}

/// A copy is reported as what it was, and one that failed is an error to its caller.
pub proof fn law_copy_is_reported(
    source: &str,
    destination: &str,
    registry: &str,
    repo: &str,
    tag: &str,
    success: bool,
    status: &str,
    lines: usize,
    r: ImageSyncResult,
    outcome: AppResult<ImageSyncResult>,
)
    requires
        call_ensures(
            finish_copy,
            (source, destination, registry, repo, tag, success, status, lines),
            r,
        ),
        call_ensures(copy_outcome, (r,), outcome),
    ensures
        r.source@ == source@ && r.destination@ == destination@ && r.lines == lines,
        success ==> (outcome matches Ok(x) && x == r),
        !success ==> (outcome matches Err(e) && e.is_other("skopeo copy failed: "@ + status@)),
{
}

/// An export is reported as what it was, and one that failed is an error to its caller.
pub proof fn law_registry_export_is_reported(
    source: &str,
    path: &str,
    success: bool,
    status: &str,
    lines: usize,
    r: ExportRegistryResult,
    outcome: AppResult<ExportRegistryResult>,
)
    requires
        call_ensures(finish_registry_export, (source, path, success, status, lines), r),
        call_ensures(registry_export_outcome, (r,), outcome),
    ensures
        r.source@ == source@ && r.saved_path@ == path@ && r.lines == lines,
        success ==> (outcome matches Ok(x) && x == r),
        !success ==> (outcome matches Err(e) && e.is_other("skopeo copy failed: "@ + status@)),
{
}

/// `skopeo` is available exactly where it was found.
pub proof fn law_skopeo_is_there_where_it_was_found(
    path: Option<String>,
    version: Option<String>,
    r: SkopeoAvailability,
    required: AppResult<String>,
)
    requires
        call_ensures(skopeo_availability, (path, version), r),
        call_ensures(require_skopeo, (path,), required),
    ensures
        r.available <==> path is Some,
        r.path == path,
        required is Ok <==> path is Some,
        required matches Ok(p) ==> path == Some(p),
{
}

} // verus!
