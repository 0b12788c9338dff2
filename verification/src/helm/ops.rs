//! Helm release operations: install, upgrade, uninstall, rollback, through the
//! `helm` command line tool.
//!
//! The tool is run elsewhere. This module says what it is run with, and what its
//! outcome means.
use crate::argv::{
    has_option, nonempty, option_words, push_if, push_option, push_three, push_two, word_if,
};
use crate::error::{other, AppError, AppResult};
use crate::json::{
    int_or_zero, int_value, json_display, json_list, member, parse_json_list, plain_text, string_or,
    text_or_default, value_json, value_plain_text, Json,
};
use crate::lists::views;
use crate::text::{
    cat2, cat3, cat5, dec, dec_i64, dec_int, dec_u64, has_prefix, has_suffix, no_texts, opt_text, push_text,
    same, strip_prefix, texts, trim, trimmed,
};
use vstd::prelude::*;

verus! {

/// Event with one line of output of a running `helm`.
pub const HELM_LOG_EVENT: &'static str = "helm-op-log";

/// Event at the end of an operation, with its result.
pub const HELM_DONE_EVENT: &'static str = "helm-op-done";

/// How long `helm` waits where nothing else is asked for.
pub const DEFAULT_HELM_TIMEOUT: &'static str = "5m0s";

/// The release name that templates are rendered under. Nothing is installed;
/// a fixed name keeps the output the same from run to run.
pub const TEMPLATE_RELEASE_PLACEHOLDER: &'static str = "preview";

/// What is said where there is no `helm` to run.
pub const HELM_MISSING: &'static str =
    "helm CLI not found in PATH — install Helm 3 (https://helm.sh/docs/intro/install/) and retry";

/// What the user asked for. Each becomes one run of `helm`.
#[derive(Debug)]
pub enum HelmOp {
    Install(InstallArgs),
    Upgrade(UpgradeArgs),
    Uninstall(UninstallArgs),
    Rollback(RollbackArgs),
}

#[derive(Debug)]
pub struct InstallArgs {
    pub release: String,
    /// `repo/name`, an OCI URL, or a local absolute path.
    pub chart: String,
    /// Chart version; empty for the latest.
    pub version: String,
    pub namespace: String,
    /// Contents of the kubeconfig; the active context where there is none.
    pub kubeconfig: Option<String>,
    /// Contents of the values file, or `__file:` and the path of one; empty for
    /// the chart's defaults.
    pub values: String,
    /// Render templates without applying them.
    pub dry_run: bool,
    /// Create the namespace if it does not exist.
    pub create_namespace: bool,
    /// Single values to set over the others.
    pub set: Option<Vec<(String, serde_json::Value)>>,
    /// Roll back on failure.
    pub atomic: bool,
    /// How long to wait, in place of the default.
    pub timeout_secs: Option<u64>,
}

#[derive(Debug)]
pub struct UpgradeArgs {
    pub release: String,
    pub chart: String,
    pub version: String,
    pub namespace: String,
    pub kubeconfig: Option<String>,
    pub values: String,
    pub dry_run: bool,
    /// Take over the values of the release as it is.
    pub reuse_values: bool,
    /// Roll back to the revision before on failure.
    pub rollback_on_failure: bool,
    pub create_namespace: bool,
    pub set: Option<Vec<(String, serde_json::Value)>>,
    pub atomic: bool,
    /// Replace resources where they cannot be changed in place.
    pub force: bool,
    pub timeout_secs: Option<u64>,
}

#[derive(Clone, Debug)]
pub struct UninstallArgs {
    pub release: String,
    pub namespace: String,
    pub kubeconfig: Option<String>,
    /// Keep the history, so that a rollback remains possible.
    pub keep_history: bool,
}

#[derive(Clone, Debug)]
pub struct RollbackArgs {
    pub release: String,
    pub namespace: String,
    /// The revision to go back to; the previous one where none is named.
    pub revision: Option<i64>,
    pub kubeconfig: Option<String>,
}

/// Result of an operation.
#[derive(Clone, Debug)]
pub struct HelmOpResult {
    pub op: &'static str,
    pub release: String,
    pub namespace: String,
    /// `helm` ended well.
    pub success: bool,
    /// Lines of output.
    pub lines: usize,
    pub summary: String,
}

// ---------------------------------------------------------------------------
// Finding helm
// ---------------------------------------------------------------------------

/// The path of `helm`, or the error `missing` where it was not found.
pub fn require_helm(found: Option<String>, missing: &str) -> (r: AppResult<String>)
    ensures
        match (r, found) {
            (Ok(p), Some(f)) => p == f,
            (Err(e), None) => e.is_other(missing@),
            _ => false,
        },
{
    match found {
        Some(p) => Ok(p),
        None => Err(other(missing)),
    }
}

/// Whether `helm` is handed an environment variable of ours.
pub fn is_passed_on(name: &str) -> (r: bool)
    ensures
        r == (name@ == "KUBECONFIG"@ || name@ == "HELM_CONFIG"@ || name@ == "HOME"@),
{
    same(name, "KUBECONFIG") || same(name, "HELM_CONFIG") || same(name, "HOME")
}

// ---------------------------------------------------------------------------
// Operations
// ---------------------------------------------------------------------------

/// The text for `--timeout`. Zero is "not set": `helm` would wait forever.
pub open spec fn timeout_text(secs: Option<u64>) -> Seq<char> {
    match secs {
        Some(s) => if s > 0 {
            dec(s as nat) + "s"@
        } else {
            DEFAULT_HELM_TIMEOUT@
        },
        None => DEFAULT_HELM_TIMEOUT@,
    }
}

/// The text for `--timeout`: the default where the wait is not set or zero, which
/// to `helm` would mean forever.
pub fn timeout_arg(secs: Option<u64>) -> (r: String)
    ensures
        r@ == timeout_text(secs),
{
    match secs {
        Some(s) => {
            if s > 0 {
                let n = dec_u64(s);
                cat2(n.as_str(), "s")
            } else {
                DEFAULT_HELM_TIMEOUT.to_owned()
            }
        },
        None => DEFAULT_HELM_TIMEOUT.to_owned(),
    }
}

/// How long an operation may wait, where it says so.
pub open spec fn timeout_of(op: HelmOp) -> Option<u64> {
    match op {
        HelmOp::Install(a) => a.timeout_secs,
        HelmOp::Upgrade(a) => a.timeout_secs,
        _ => None,
    }
}

/// How long an operation may wait, where it says so. Only an install or an
/// upgrade can.
pub fn install_or_upgrade_timeout_secs(op: &HelmOp) -> (r: Option<u64>)
    ensures
        r == timeout_of(*op),
{
    match op {
        HelmOp::Install(a) => a.timeout_secs,
        HelmOp::Upgrade(a) => a.timeout_secs,
        _ => None,
    }
}

/// What an operation is called.
pub open spec fn label_of(op: HelmOp) -> &'static str {
    match op {
        HelmOp::Install(_) => "install",
        HelmOp::Upgrade(_) => "upgrade",
        HelmOp::Uninstall(_) => "uninstall",
        HelmOp::Rollback(_) => "rollback",
    }
}

/// What an operation is called.
pub fn op_label(op: &HelmOp) -> (r: &'static str)
    ensures
        r == label_of(*op),
{
    match op {
        HelmOp::Install(_) => "install",
        HelmOp::Upgrade(_) => "upgrade",
        HelmOp::Uninstall(_) => "uninstall",
        HelmOp::Rollback(_) => "rollback",
    }
}

/// The release that an operation is about.
pub open spec fn release_of(op: HelmOp) -> Seq<char> {
    match op {
        HelmOp::Install(a) => a.release@,
        HelmOp::Upgrade(a) => a.release@,
        HelmOp::Uninstall(a) => a.release@,
        HelmOp::Rollback(a) => a.release@,
    }
}

/// The namespace that an operation is about.
pub open spec fn namespace_of(op: HelmOp) -> Seq<char> {
    match op {
        HelmOp::Install(a) => a.namespace@,
        HelmOp::Upgrade(a) => a.namespace@,
        HelmOp::Uninstall(a) => a.namespace@,
        HelmOp::Rollback(a) => a.namespace@,
    }
}

/// The release and the namespace that an operation is about.
pub fn op_release_ns(op: &HelmOp) -> (r: (String, String))
    ensures
        r.0@ == release_of(*op),
        r.1@ == namespace_of(*op),
{
    match op {
        HelmOp::Install(a) => (a.release.clone(), a.namespace.clone()),
        HelmOp::Upgrade(a) => (a.release.clone(), a.namespace.clone()),
        HelmOp::Uninstall(a) => (a.release.clone(), a.namespace.clone()),
        HelmOp::Rollback(a) => (a.release.clone(), a.namespace.clone()),
    }
}

fn cloned_text(o: &Option<String>) -> (r: Option<String>)
    ensures
        opt_text(r) == opt_text(*o),
{
    match o {
        Some(s) => Some(s.clone()),
        None => None,
    }
}

/// The kubeconfig that an operation brings, if any.
pub fn op_kubeconfig(op: &HelmOp) -> (r: Option<String>)
    ensures
        opt_text(r) == (match *op {
            HelmOp::Install(a) => opt_text(a.kubeconfig),
            HelmOp::Upgrade(a) => opt_text(a.kubeconfig),
            HelmOp::Uninstall(a) => opt_text(a.kubeconfig),
            HelmOp::Rollback(a) => opt_text(a.kubeconfig),
        }),
{
    match op {
        HelmOp::Install(a) => cloned_text(&a.kubeconfig),
        HelmOp::Upgrade(a) => cloned_text(&a.kubeconfig),
        HelmOp::Uninstall(a) => cloned_text(&a.kubeconfig),
        HelmOp::Rollback(a) => cloned_text(&a.kubeconfig),
    }
}

// ---------------------------------------------------------------------------
// Values
// ---------------------------------------------------------------------------

/// What stands before the path of a values file that was written already.
pub open spec fn file_mark() -> Seq<char> {
    "__file:"@
}

/// The values have to be written to a file, for `helm` to read them.
pub open spec fn needs_file(values: Seq<char>) -> bool {
    trimmed(values).len() > 0 && !has_prefix(values, file_mark())
}

/// Whether the values have to be written to a file: there are some, and they are
/// not the path of a file already.
pub fn values_need_file(values: &str) -> (r: bool)
    ensures
        r == needs_file(values@),
{
    !trim(values).is_empty() && strip_prefix(values, "__file:").is_none()
}

/// The values of an operation that have to be written to a file before it runs.
pub fn values_to_write(op: &HelmOp) -> (r: Option<String>)
    ensures
        opt_text(r) == (match *op {
            HelmOp::Install(a) => if needs_file(a.values@) {
                Some(a.values@)
            } else {
                None
            },
            HelmOp::Upgrade(a) => if needs_file(a.values@) {
                Some(a.values@)
            } else {
                None
            },
            _ => None,
        }),
{
    let values = match op {
        HelmOp::Install(a) => a.values.as_str(),
        HelmOp::Upgrade(a) => a.values.as_str(),
        _ => {
            return None;
        },
    };
    if values_need_file(values) {
        Some(values.to_owned())
    } else {
        None
    }
}

/// The words for the values: the file that they are in. `written` is the file
/// they were written to; without it they are left out.
pub open spec fn values_words(values: Seq<char>, written: Option<&str>) -> Seq<Seq<char>> {
    if trimmed(values).len() == 0 {
        Seq::empty()
    } else if has_prefix(values, file_mark()) {
        seq!["--values"@, values.skip(file_mark().len() as int)]
    } else {
        option_words("--values"@, written)
    }
}

/// Adds the words for the values. `written` is the file they were written to.
pub fn push_values_args(argv: &mut Vec<String>, values: &str, written: Option<&str>)
    ensures
        texts(final(argv)@) == texts(old(argv)@) + values_words(values@, written),
{
    if trim(values).is_empty() {
        assert(texts(argv@) =~= texts(argv@) + values_words(values@, written));
        return;
    }
    match strip_prefix(values, "__file:") {
        Some(path) => push_two(argv, "--values", path),
        None => push_option(argv, "--values", written),
    }
}

/// The words that set single values.
pub open spec fn set_words(set: Seq<(String, serde_json::Value)>) -> Seq<Seq<char>>
    decreases set.len(),
{
    if set.len() == 0 {
        Seq::empty()
    } else {
        set_words(set.drop_last()) + set_pair(
            set.last().0@,
            plain_text(value_json(set.last().1)),
        )
    }
}

/// The words that set one value, which is `text` as plain text.
pub open spec fn set_pair(key: Seq<char>, text: Seq<char>) -> Seq<Seq<char>> {
    seq!["--set"@, key + "="@ + text]
}

/// Adds the words that set one value, which is `text` as plain text.
pub fn push_set_arg(argv: &mut Vec<String>, key: &str, text: &str)
    ensures
        texts(final(argv)@) == texts(old(argv)@) + set_pair(key@, text@),
{
    let pair = cat3(key, "=", text);
    push_two(argv, "--set", pair.as_str());
}

/// The words that set single values, where there are any.
pub open spec fn opt_set_words(set: Option<Vec<(String, serde_json::Value)>>) -> Seq<Seq<char>> {
    match set {
        Some(s) => set_words(s@),
        None => Seq::empty(),
    }
}

/// Adds the words that set single values: `--set key=value` for each. Objects and
/// arrays are set as their JSON text.
pub fn push_set_args(argv: &mut Vec<String>, set: &Option<Vec<(String, serde_json::Value)>>)
    ensures
        texts(final(argv)@) == texts(old(argv)@) + opt_set_words(*set),
{
    let ghost before = texts(argv@);
    if let Some(s) = set {
        let mut i: usize = 0;
        assert(texts(argv@) =~= before + set_words(s@.take(0)));
        while i < s.len()
            invariant
                i <= s@.len(),
                texts(argv@) == before + set_words(s@.take(i as int)),
            decreases s@.len() - i,
        {
            assert(s@.take(i + 1).drop_last() =~= s@.take(i as int));
            let text = value_plain_text(&s[i].1);
            push_set_arg(argv, s[i].0.as_str(), text.as_str());
            i += 1;
            assert(texts(argv@) =~= before + set_words(s@.take(i as int)));
        }
        assert(s@.take(i as int) =~= s@);
    }
    assert(texts(argv@) =~= before + opt_set_words(*set));
}

// ---------------------------------------------------------------------------
// Argument lists
// ---------------------------------------------------------------------------

/// A flag with its value, where the value is not empty.
pub open spec fn nonempty_words(flag: Seq<char>, value: Seq<char>) -> Seq<Seq<char>> {
    if value.len() == 0 {
        Seq::empty()
    } else {
        seq![flag, value]
    }
}

fn push_nonempty(v: &mut Vec<String>, flag: &str, value: &str)
    ensures
        texts(final(v)@) == texts(old(v)@) + nonempty_words(flag@, value@),
{
    push_option(v, flag, nonempty(value));
}

/// The words of a dry run, which alone would print little.
pub open spec fn dry_run_words(wanted: bool) -> Seq<Seq<char>> {
    word_if(wanted, "--dry-run"@) + word_if(wanted, "--debug"@)
}

/// The words of an operation, before how long it waits.
pub open spec fn op_words(op: HelmOp, written: Option<&str>) -> Seq<Seq<char>> {
    match op {
        HelmOp::Install(a) => seq!["install"@, a.release@, a.chart@] + nonempty_words(
            "--version"@,
            a.version@,
        ) + seq!["--namespace"@, a.namespace@] + word_if(
            a.create_namespace,
            "--create-namespace"@,
        ) + dry_run_words(a.dry_run) + opt_set_words(a.set) + word_if(a.atomic, "--atomic"@)
            + values_words(a.values@, written),
        HelmOp::Upgrade(a) => seq!["upgrade"@, a.release@, a.chart@] + nonempty_words(
            "--version"@,
            a.version@,
        ) + seq!["--namespace"@, a.namespace@] + word_if(a.reuse_values, "--reuse-values"@)
            + word_if(a.rollback_on_failure, "--rollback-on-failure"@) + dry_run_words(a.dry_run)
            + opt_set_words(a.set) + word_if(a.atomic, "--atomic"@) + word_if(a.force, "--force"@)
            + word_if(a.create_namespace, "--create-namespace"@) + values_words(
            a.values@,
            written,
        ),
        HelmOp::Uninstall(a) => seq!["uninstall"@, a.release@] + seq![
            "--namespace"@,
            a.namespace@,
        ] + word_if(a.keep_history, "--keep-history"@),
        HelmOp::Rollback(a) => seq!["rollback"@, a.release@] + (match a.revision {
            Some(n) => seq![dec_int(n as int)],
            None => Seq::empty(),
        }) + seq!["--namespace"@, a.namespace@],
    }
}

fn push_dry_run(v: &mut Vec<String>, wanted: bool)
    ensures
        texts(final(v)@) == texts(old(v)@) + dry_run_words(wanted),
{
    let ghost before = texts(v@);
    push_if(v, wanted, "--dry-run");
    push_if(v, wanted, "--debug");
    assert(texts(v@) =~= before + dry_run_words(wanted));
}

fn install_argv(a: &InstallArgs, written: Option<&str>) -> (r: Vec<String>)
    ensures
        texts(r@) == seq!["install"@, a.release@, a.chart@] + nonempty_words(
            "--version"@,
            a.version@,
        ) + seq!["--namespace"@, a.namespace@] + word_if(
            a.create_namespace,
            "--create-namespace"@,
        ) + dry_run_words(a.dry_run) + opt_set_words(a.set) + word_if(a.atomic, "--atomic"@)
            + values_words(a.values@, written),
{
    let mut argv = no_texts();
    push_three(&mut argv, "install", a.release.as_str(), a.chart.as_str());
    assert(texts(argv@) =~= seq!["install"@, a.release@, a.chart@]);
    push_nonempty(&mut argv, "--version", a.version.as_str());
    push_two(&mut argv, "--namespace", a.namespace.as_str());
    push_if(&mut argv, a.create_namespace, "--create-namespace");
    push_dry_run(&mut argv, a.dry_run);
    push_set_args(&mut argv, &a.set);
    push_if(&mut argv, a.atomic, "--atomic");
    push_values_args(&mut argv, a.values.as_str(), written);
    argv
}

fn upgrade_argv(a: &UpgradeArgs, written: Option<&str>) -> (r: Vec<String>)
    ensures
        texts(r@) == seq!["upgrade"@, a.release@, a.chart@] + nonempty_words(
            "--version"@,
            a.version@,
        ) + seq!["--namespace"@, a.namespace@] + word_if(a.reuse_values, "--reuse-values"@)
            + word_if(a.rollback_on_failure, "--rollback-on-failure"@) + dry_run_words(a.dry_run)
            + opt_set_words(a.set) + word_if(a.atomic, "--atomic"@) + word_if(a.force, "--force"@)
            + word_if(a.create_namespace, "--create-namespace"@) + values_words(
            a.values@,
            written,
        ),
{
    let mut argv = no_texts();
    push_three(&mut argv, "upgrade", a.release.as_str(), a.chart.as_str());
    assert(texts(argv@) =~= seq!["upgrade"@, a.release@, a.chart@]);
    push_nonempty(&mut argv, "--version", a.version.as_str());
    push_two(&mut argv, "--namespace", a.namespace.as_str());
    push_if(&mut argv, a.reuse_values, "--reuse-values");
    push_if(&mut argv, a.rollback_on_failure, "--rollback-on-failure");
    push_dry_run(&mut argv, a.dry_run);
    push_set_args(&mut argv, &a.set);
    push_if(&mut argv, a.atomic, "--atomic");
    push_if(&mut argv, a.force, "--force");
    push_if(&mut argv, a.create_namespace, "--create-namespace");
    push_values_args(&mut argv, a.values.as_str(), written);
    argv
}

fn rollback_argv(a: &RollbackArgs) -> (r: Vec<String>)
    ensures
        texts(r@) == seq!["rollback"@, a.release@] + (match a.revision {
            Some(n) => seq![dec_int(n as int)],
            None => Seq::empty(),
        }) + seq!["--namespace"@, a.namespace@],
{
    let mut argv = no_texts();
    push_two(&mut argv, "rollback", a.release.as_str());
    if let Some(n) = a.revision {
        let text = dec_i64(n);
        push_text(&mut argv, text.as_str());
    }
    push_two(&mut argv, "--namespace", a.namespace.as_str());
    assert(texts(argv@) =~= seq!["rollback"@, a.release@] + (match a.revision {
        Some(n) => seq![dec_int(n as int)],
        None => Seq::empty(),
    }) + seq!["--namespace"@, a.namespace@]);
    argv
}

/// What an operation is called and what `helm` is run with. `written` is the file
/// that the values were written to, where they had to be (see
/// [`values_to_write`]). `helm` always waits until what it did is ready.
pub fn build_argv(op: &HelmOp, written: Option<&str>) -> (r: (&'static str, Vec<String>))
    ensures
        r.0 == label_of(*op),
        texts(r.1@) == op_words(*op, written) + seq![
            "--wait"@,
            "--timeout"@,
            timeout_text(timeout_of(*op)),
        ],
{
    let mut argv = match op {
        HelmOp::Install(a) => install_argv(a, written),
        HelmOp::Upgrade(a) => upgrade_argv(a, written),
        HelmOp::Uninstall(a) => {
            let mut v = no_texts();
            push_two(&mut v, "uninstall", a.release.as_str());
            push_two(&mut v, "--namespace", a.namespace.as_str());
            push_if(&mut v, a.keep_history, "--keep-history");
            assert(texts(v@) =~= op_words(*op, written));
            v
        },
        HelmOp::Rollback(a) => rollback_argv(a),
    };
    let timeout = timeout_arg(install_or_upgrade_timeout_secs(op));
    push_three(&mut argv, "--wait", "--timeout", timeout.as_str());
    (op_label(op), argv)
}

// ---------------------------------------------------------------------------
// Outcomes
// ---------------------------------------------------------------------------

/// The result of an operation, from how `helm` ended (`status` is how that is
/// shown) and how many lines it printed.
pub fn op_result(op: &HelmOp, success: bool, status: &str, lines: usize) -> (r: HelmOpResult)
    ensures
        r.op == label_of(*op),
        r.release@ == release_of(*op),
        r.namespace@ == namespace_of(*op),
        r.success == success,
        r.lines == lines,
        r.summary@ == (if success {
            label_of(*op)@ + " ok"@
        } else {
            label_of(*op)@ + " failed: "@ + status@
        }),
{
    let label = op_label(op);
    let (release, namespace) = op_release_ns(op);
    let summary = if success {
        cat2(label, " ok")
    } else {
        cat3(label, " failed: ", status)
    };
    HelmOpResult { op: label, release, namespace, success, lines, summary }
}

/// What the caller of an operation gets: its result, or its summary as the error
/// where `helm` failed.
pub fn op_outcome(result: HelmOpResult) -> (r: AppResult<HelmOpResult>)
    ensures
        match r {
            Ok(x) => result.success && x == result,
            Err(e) => !result.success && e.is_other(result.summary@),
        },
{
    if result.success {
        Ok(result)
    } else {
        Err(AppError::Other(result.summary))
    }
}

/// What `helm` printed, or what it complained about. `what` says what it was run
/// for.
pub fn tool_output(what: &str, success: bool, stdout: &str, stderr: &str) -> (r: AppResult<String>)
    ensures
        match r {
            Ok(s) => success && s@ == stdout@,
            Err(e) => !success && e.is_other(what@ + ": "@ + stderr@),
        },
{
    if success {
        Ok(stdout.to_owned())
    } else {
        let text = cat3(what, ": ", stderr);
        Err(other(text.as_str()))
    }
}

// ---------------------------------------------------------------------------
// History
// ---------------------------------------------------------------------------

/// One revision of a release.
#[derive(Clone, Debug)]
pub struct RevisionEntry {
    pub revision: i64,
    pub updated: String,
    pub status: String,
    pub chart: String,
    pub app_version: String,
    pub description: String,
}

/// What a history lists of one revision.
#[verifier::ext_equal]
pub struct RevisionView {
    pub revision: i64,
    pub updated: Seq<char>,
    pub status: Seq<char>,
    pub chart: Seq<char>,
    pub app_version: Seq<char>,
    pub description: Seq<char>,
}

impl View for RevisionEntry {
    type V = RevisionView;

    open spec fn view(&self) -> RevisionView {
        RevisionView {
            revision: self.revision,
            updated: self.updated@,
            status: self.status@,
            chart: self.chart@,
            app_version: self.app_version@,
            description: self.description@,
        }
    }
}

/// One revision, out of its JSON: what is missing is zero or empty.
pub open spec fn revision_of(j: Json) -> RevisionView {
    RevisionView {
        revision: int_or_zero(member(j, "revision"@)),
        updated: string_or(member(j, "updated"@), ""@),
        status: string_or(member(j, "status"@), ""@),
        chart: string_or(member(j, "chart"@), ""@),
        app_version: string_or(member(j, "app_version"@), ""@),
        description: string_or(member(j, "description"@), ""@),
    }
}

/// Revisions, out of their JSON.
pub open spec fn revisions_of(s: Seq<Json>) -> Seq<RevisionView> {
    Seq::new(s.len(), |i: int| revision_of(s[i]))
}

fn revision_entry(j: &Json) -> (r: RevisionEntry)
    ensures
        r@ == revision_of(*j),
{
    RevisionEntry {
        revision: int_value(j.get("revision")),
        updated: text_or_default(j.get("updated"), ""),
        status: text_or_default(j.get("status"), ""),
        chart: text_or_default(j.get("chart"), ""),
        app_version: text_or_default(j.get("app_version"), ""),
        description: text_or_default(j.get("description"), ""),
    }
}

/// The revisions in a list of their JSON.
pub fn revision_entries(list: &Vec<Json>) -> (r: Vec<RevisionEntry>)
    ensures
        views(r@) == revisions_of(list@),
{
    let mut out: Vec<RevisionEntry> = Vec::new();
    let mut i: usize = 0;
    while i < list.len()
        invariant
            i <= list@.len(),
            out@.len() == i,
            forall|k: int| 0 <= k < i ==> #[trigger] out@[k]@ == revision_of(list@[k]),
        decreases list@.len() - i,
    {
        out.push(revision_entry(&list[i]));
        i += 1;
    }
    assert(views(out@) =~= revisions_of(list@));
    out
}

/// What `helm` is run with to list the revisions of a release.
pub fn history_argv(release: &str, namespace: &str) -> (r: Vec<String>)
    ensures
        texts(r@) == seq![
            "history"@,
            release@,
            "--namespace"@,
            namespace@,
            "--output"@,
            "json"@,
            "--max"@,
            "50"@,
        ],
{
    let mut argv = no_texts();
    push_two(&mut argv, "history", release);
    push_two(&mut argv, "--namespace", namespace);
    push_two(&mut argv, "--output", "json");
    push_two(&mut argv, "--max", "50");
    assert(texts(argv@) =~= seq![
        "history"@,
        release@,
        "--namespace"@,
        namespace@,
        "--output"@,
        "json"@,
        "--max"@,
        "50"@,
    ]);
    argv
}

/// The revisions of a release, from how `helm history` ended and what it printed.
pub fn release_history(success: bool, stdout: &str, stderr: &str) -> (r: AppResult<Vec<RevisionEntry>>)
    ensures
        match r {
            Ok(v) => success && match json_list(stdout@) {
                Ok(list) => views(v@) == revisions_of(list),
                Err(_) => false,
            },
            Err(e) => if success {
                match json_list(stdout@) {
                    Ok(_) => false,
                    Err(m) => e.is_other("parse helm history: "@ + m),
                }
            } else {
                e.is_other("helm history: "@ + stderr@)
            },
        },
{
    if !success {
        let text = cat2("helm history: ", stderr);
        return Err(other(text.as_str()));
    }
    match parse_json_list(stdout) {
        Ok(list) => Ok(revision_entries(&list)),
        Err(m) => {
            let text = cat2("parse helm history: ", m.as_str());
            Err(other(text.as_str()))
        },
    }
}

// ---------------------------------------------------------------------------
// Files of one operation
// ---------------------------------------------------------------------------

/// The text of a random UUID: hexadecimal digits in lower case, in groups of 8, 4, 4,
/// 4 and 12 with dashes between them, the third of them beginning with a 4.
pub open spec fn is_uuid_text(s: Seq<char>) -> bool {
    &&& s.len() == 36
    &&& s[14] == '4'
    &&& forall|i: int|
        0 <= i < 36 ==> if i == 8 || i == 13 || i == 18 || i == 23 {
            #[trigger] s[i] == '-'
        } else {
            '0' <= s[i] <= '9' || 'a' <= s[i] <= 'f'
        }
}

/// `uuid::Uuid::new_v4`, as text. It is random: what is claimed is its shape. That no
/// two are ever the same cannot be promised, only that it is not to be expected.
#[verifier::external_body]
fn random_uuid() -> (r: String)
    ensures
        is_uuid_text(r@),
{
    uuid::Uuid::new_v4().to_string()
}

/// The name of a file of one operation, told apart from others by `unique`.
pub open spec fn temp_name_of(kind: Seq<char>, unique: Seq<char>, ext: Seq<char>) -> Seq<char> {
    kind + "-"@ + unique + "."@ + ext
}

/// The name of a file of one operation, told apart from others by `unique`.
pub fn temp_name(kind: &str, unique: &str, ext: &str) -> (r: String)
    ensures
        r@ == temp_name_of(kind@, unique@, ext@),
{
    cat5(kind, "-", unique, ".", ext)
}

/// A name for a file that one operation alone uses.
pub fn fresh_temp_name(kind: &str, ext: &str) -> (r: String)
    ensures
        exists|u: Seq<char>| is_uuid_text(u) && r@ == #[trigger] temp_name_of(kind@, u, ext@),
{
    let unique = random_uuid();
    temp_name(kind, unique.as_str(), ext)
}

// ---------------------------------------------------------------------------
// Values and templates of a chart
// ---------------------------------------------------------------------------

/// What `helm` is run with to show the default values of a chart.
pub fn show_values_argv(chart: &str, version: &str) -> (r: Vec<String>)
    ensures
        texts(r@) == seq!["show"@, "values"@, chart@] + nonempty_words("--version"@, version@),
{
    let mut argv = no_texts();
    push_three(&mut argv, "show", "values", chart);
    assert(texts(argv@) =~= seq!["show"@, "values"@, chart@]);
    push_nonempty(&mut argv, "--version", version);
    argv
}

/// The words that render the templates of a chart.
pub open spec fn template_words(
    chart: Seq<char>,
    version: Seq<char>,
    values_path: Option<&str>,
) -> Seq<Seq<char>> {
    seq!["template"@, TEMPLATE_RELEASE_PLACEHOLDER@, chart] + nonempty_words("--version"@, version)
        + option_words("--values"@, values_path)
}

/// What `helm` is run with to render the templates of a chart. An empty version
/// means the latest, no values mean the chart's own. Nothing here waits: nothing
/// is installed.
pub fn template_argv(chart_ref: &str, version: &str, values_path: Option<&str>) -> (r: Vec<String>)
    ensures
        texts(r@) == template_words(chart_ref@, version@, values_path),
{
    let mut argv = no_texts();
    push_three(&mut argv, "template", TEMPLATE_RELEASE_PLACEHOLDER, chart_ref);
    assert(texts(argv@) =~= seq!["template"@, TEMPLATE_RELEASE_PLACEHOLDER@, chart_ref@]);
    push_nonempty(&mut argv, "--version", version);
    push_option(&mut argv, "--values", values_path);
    argv
}

/// The same with a kubeconfig, where there is one.
pub fn render_argv(
    chart_ref: &str,
    version: &str,
    values_path: Option<&str>,
    kubeconfig_path: Option<&str>,
) -> (r: Vec<String>)
    ensures
        texts(r@) == template_words(chart_ref@, version@, values_path) + option_words(
            "--kubeconfig"@,
            kubeconfig_path,
        ),
{
    let mut argv = template_argv(chart_ref, version, values_path);
    push_option(&mut argv, "--kubeconfig", kubeconfig_path);
    argv
}

// ---------------------------------------------------------------------------
// Laws
// ---------------------------------------------------------------------------

/// `helm` never waits forever: no operation asks for a timeout of zero.
pub proof fn law_wait_is_bounded(secs: Option<u64>)
    ensures
        timeout_text(secs) != "0s"@,
{
    reveal_strlit("0s");
    reveal_strlit("s");
    reveal_strlit("5m0s");
    match secs {
        Some(s) => {
            if s > 0 {
                let t = dec(s as nat) + "s"@;
                if t == "0s"@ {
                    assert(t.len() == dec(s as nat).len() + 1);
                    assert(dec(s as nat)[0] == t[0]);
                    if s >= 10 {
                        assert(dec((s as nat) / 10).len() >= 1) by {
                            reveal_with_fuel(dec, 2);
                        }
                    }
                }
            } else {
                assert(DEFAULT_HELM_TIMEOUT@.len() == 4);
            }
        },
        None => {
            assert(DEFAULT_HELM_TIMEOUT@.len() == 4);
        },
    }
}

/// The values of an operation reach `helm` in a file and no other way: either
/// they name one, or they have to be written to one, or there are none.
pub proof fn law_values_go_through_a_file(values: Seq<char>, written: Option<&str>)
    ensures
        values_words(values, written) == Seq::<Seq<char>>::empty() || (values_words(
            values,
            written,
        ).len() == 2 && values_words(values, written)[0] == "--values"@),
        needs_file(values) && written is Some ==> values_words(values, written) == seq![
            "--values"@,
            written->0@,
        ],
{
}

/// Operations whose random texts differ do not share a file.
pub proof fn law_temp_names_differ(kind: Seq<char>, ext: Seq<char>, a: Seq<char>, b: Seq<char>)
    requires
        a != b,
    ensures
        temp_name_of(kind, a, ext) != temp_name_of(kind, b, ext),
{
    let x = temp_name_of(kind, a, ext);
    let y = temp_name_of(kind, b, ext);
    reveal_strlit("-");
    reveal_strlit(".");
    if x == y {
        let n = kind.len() as int + 1;
        assert(a =~= x.subrange(n, x.len() - ext.len() - 1));
        assert(b =~= y.subrange(n, y.len() - ext.len() - 1));
    }
}

// The words that are no flags of their own.
spec fn is_fixed_word(w: Seq<char>) -> bool {
    w == "install"@ || w == "upgrade"@ || w == "uninstall"@ || w == "rollback"@ || w
        == "--version"@ || w == "--namespace"@ || w == "--set"@ || w == "--values"@
}

spec fn is_flag(w: Seq<char>) -> bool {
    w == "--dry-run"@ || w == "--debug"@ || w == "--create-namespace"@ || w == "--atomic"@ || w
        == "--force"@ || w == "--reuse-values"@ || w == "--rollback-on-failure"@ || w
        == "--keep-history"@
}

proof fn lemma_flags_differ()
    ensures
        forall|w: Seq<char>| #[trigger] is_flag(w) ==> !is_fixed_word(w) && !w.contains('='),
        "--dry-run"@ != "--debug"@,
        "--dry-run"@ != "--create-namespace"@,
        "--dry-run"@ != "--atomic"@,
        "--dry-run"@ != "--force"@,
        "--dry-run"@ != "--reuse-values"@,
        "--dry-run"@ != "--rollback-on-failure"@,
        "--dry-run"@ != "--keep-history"@,
        "--debug"@ != "--create-namespace"@,
        "--debug"@ != "--atomic"@,
        "--debug"@ != "--force"@,
        "--debug"@ != "--reuse-values"@,
        "--debug"@ != "--rollback-on-failure"@,
        "--debug"@ != "--keep-history"@,
        "--create-namespace"@ != "--atomic"@,
        "--create-namespace"@ != "--force"@,
        "--create-namespace"@ != "--reuse-values"@,
        "--create-namespace"@ != "--rollback-on-failure"@,
        "--create-namespace"@ != "--keep-history"@,
        "--atomic"@ != "--force"@,
        "--atomic"@ != "--reuse-values"@,
        "--atomic"@ != "--rollback-on-failure"@,
        "--atomic"@ != "--keep-history"@,
        "--force"@ != "--reuse-values"@,
        "--force"@ != "--rollback-on-failure"@,
        "--force"@ != "--keep-history"@,
        "--reuse-values"@ != "--rollback-on-failure"@,
        "--reuse-values"@ != "--keep-history"@,
        "--rollback-on-failure"@ != "--keep-history"@,
{
    reveal_strlit("--dry-run");
    assert("--dry-run"@.len() == 9);
    reveal_strlit("--debug");
    assert("--debug"@.len() == 7);
    reveal_strlit("--create-namespace");
    assert("--create-namespace"@.len() == 18);
    reveal_strlit("--atomic");
    assert("--atomic"@.len() == 8);
    reveal_strlit("--force");
    assert("--force"@.len() == 7);
    reveal_strlit("--reuse-values");
    assert("--reuse-values"@.len() == 14);
    reveal_strlit("--rollback-on-failure");
    assert("--rollback-on-failure"@.len() == 21);
    reveal_strlit("--keep-history");
    assert("--keep-history"@.len() == 14);
    reveal_strlit("install");
    assert("install"@.len() == 7);
    reveal_strlit("upgrade");
    assert("upgrade"@.len() == 7);
    reveal_strlit("uninstall");
    assert("uninstall"@.len() == 9);
    reveal_strlit("rollback");
    assert("rollback"@.len() == 8);
    reveal_strlit("--version");
    assert("--version"@.len() == 9);
    reveal_strlit("--namespace");
    assert("--namespace"@.len() == 11);
    reveal_strlit("--set");
    assert("--set"@.len() == 5);
    reveal_strlit("--values");
    assert("--values"@.len() == 8);
    assert("--dry-run"@[0] != "uninstall"@[0]);
    assert("--dry-run"@[2] != "--version"@[2]);
    assert("--debug"@[2] != "--force"@[2]);
    assert("--debug"@[0] != "install"@[0]);
    assert("--debug"@[0] != "upgrade"@[0]);
    assert("--atomic"@[0] != "rollback"@[0]);
    assert("--atomic"@[2] != "--values"@[2]);
    assert("--force"@[0] != "install"@[0]);
    assert("--force"@[0] != "upgrade"@[0]);
    assert("--reuse-values"@[2] != "--keep-history"@[2]);
}

proof fn lemma_set_words(s: Seq<(String, serde_json::Value)>)
    ensures
        set_words(s).len() == 2 * s.len(),
        forall|i: int|
            #![trigger s[i]]
            0 <= i < s.len() ==> set_words(s)[2 * i] == "--set"@ && set_words(s)[2 * i + 1]
                == s[i].0@ + "="@ + plain_text(value_json(s[i].1)),
    decreases s.len(),
{
    if s.len() > 0 {
        let front = s.drop_last();
        lemma_set_words(front);
        assert forall|i: int| #![trigger s[i]] 0 <= i < s.len() implies set_words(s)[2 * i]
            == "--set"@ && set_words(s)[2 * i + 1] == s[i].0@ + "="@ + plain_text(
            value_json(s[i].1),
        ) by {
            if i < front.len() {
                assert(front[i] == s[i]);
            }
        }
    }
}

proof fn lemma_set_words_hold_no_flag(s: Seq<(String, serde_json::Value)>, w: Seq<char>)
    requires
        w != "--set"@,
        !w.contains('='),
    ensures
        !set_words(s).contains(w),
{
    reveal_strlit("=");
    lemma_set_words(s);
    if set_words(s).contains(w) {
        let k = choose|k: int| 0 <= k < set_words(s).len() && set_words(s)[k] == w;
        let i = k / 2;
        assert(s[i] == s[i]);
        assert(k == 2 * i || k == 2 * i + 1);
        if k == 2 * i + 1 {
            let pair = s[i].0@ + "="@ + plain_text(value_json(s[i].1));
            assert(pair[s[i].0@.len() as int] == '=');
            assert(w.contains('='));
        }
    }
}

/// A dry run is one: the words that `helm` is run with hold `--dry-run`, before it is
/// told to wait.
pub proof fn law_dry_run_changes_nothing(
    op: HelmOp,
    written: Option<&str>,
    r: (&'static str, Vec<String>),
)
    requires
        call_ensures(build_argv, (&op, written), r),
        match op {
            HelmOp::Install(a) => a.dry_run,
            HelmOp::Upgrade(a) => a.dry_run,
            _ => false,
        },
    ensures
        exists|i: int| 0 <= i < r.1@.len() - 3 && (#[trigger] r.1@[i])@ == "--dry-run"@,
{
    broadcast use vstd::seq_lib::lemma_seq_concat_contains_all_elements;

    let w = "--dry-run"@;
    assert(word_if(true, w).contains(w)) by {
        assert(word_if(true, w)[0] == w);
    }
    assert(op_words(op, written).contains(w));
    assert(texts(r.1@).len() == r.1@.len());
    let i = choose|i: int|
        0 <= i < op_words(op, written).len() && op_words(op, written)[i] == w;
    assert(texts(r.1@)[i] == r.1@[i]@);
}

/// An install is run with the flags that were asked for and no others. The words that
/// the user chose are taken not to be the flag themselves.
pub proof fn law_install_flags_are_those_asked_for(
    a: InstallArgs,
    written: Option<&str>,
    r: (&'static str, Vec<String>),
    flag: Seq<char>,
)
    requires
        call_ensures(build_argv, (&HelmOp::Install(a), written), r),
        flag != a.release@,
        flag != a.chart@,
        flag != a.version@,
        flag != a.namespace@,
        !has_suffix(a.values@, flag),
        written matches Some(p) ==> p@ != flag,
    ensures
        flag == "--dry-run"@ || flag == "--debug"@ ==> (texts(r.1@).take(r.1@.len() - 3).contains(
            flag,
        ) <==> a.dry_run),
        flag == "--create-namespace"@ ==> (texts(r.1@).take(r.1@.len() - 3).contains(flag)
            <==> a.create_namespace),
        flag == "--atomic"@ ==> (texts(r.1@).take(r.1@.len() - 3).contains(flag) <==> a.atomic),
        flag == "--force"@ || flag == "--reuse-values"@ || flag == "--rollback-on-failure"@ || flag
            == "--keep-history"@ ==> !texts(r.1@).take(r.1@.len() - 3).contains(flag),
{
    broadcast use vstd::seq_lib::lemma_seq_concat_contains_all_elements;

    let op = HelmOp::Install(a);
    assert(texts(r.1@).len() == r.1@.len());
    assert(texts(r.1@).take(r.1@.len() - 3) =~= op_words(op, written));
    lemma_flags_differ();
    if is_flag(flag) {
        lemma_option_holds_no_flag(a.values@, written, flag);
        if let Some(s) = a.set {
            lemma_set_words_hold_no_flag(s@, flag);
        }
        lemma_word_if(a.create_namespace, "--create-namespace"@, flag);
        lemma_word_if(a.dry_run, "--dry-run"@, flag);
        lemma_word_if(a.dry_run, "--debug"@, flag);
        lemma_word_if(a.atomic, "--atomic"@, flag);
        assert(!seq!["install"@, a.release@, a.chart@].contains(flag));
        assert(!seq!["--namespace"@, a.namespace@].contains(flag));
        assert(!nonempty_words("--version"@, a.version@).contains(flag));
    }
}

/// An upgrade is run with the flags that were asked for and no others. The words that
/// the user chose are taken not to be the flag themselves.
pub proof fn law_upgrade_flags_are_those_asked_for(
    a: UpgradeArgs,
    written: Option<&str>,
    r: (&'static str, Vec<String>),
    flag: Seq<char>,
)
    requires
        call_ensures(build_argv, (&HelmOp::Upgrade(a), written), r),
        flag != a.release@,
        flag != a.chart@,
        flag != a.version@,
        flag != a.namespace@,
        !has_suffix(a.values@, flag),
        written matches Some(p) ==> p@ != flag,
    ensures
        flag == "--dry-run"@ || flag == "--debug"@ ==> (texts(r.1@).take(r.1@.len() - 3).contains(
            flag,
        ) <==> a.dry_run),
        flag == "--create-namespace"@ ==> (texts(r.1@).take(r.1@.len() - 3).contains(flag)
            <==> a.create_namespace),
        flag == "--atomic"@ ==> (texts(r.1@).take(r.1@.len() - 3).contains(flag) <==> a.atomic),
        flag == "--force"@ ==> (texts(r.1@).take(r.1@.len() - 3).contains(flag) <==> a.force),
        flag == "--reuse-values"@ ==> (texts(r.1@).take(r.1@.len() - 3).contains(flag)
            <==> a.reuse_values),
        flag == "--rollback-on-failure"@ ==> (texts(r.1@).take(r.1@.len() - 3).contains(flag)
            <==> a.rollback_on_failure),
        flag == "--keep-history"@ ==> !texts(r.1@).take(r.1@.len() - 3).contains(flag),
{
    broadcast use vstd::seq_lib::lemma_seq_concat_contains_all_elements;

    let op = HelmOp::Upgrade(a);
    assert(texts(r.1@).len() == r.1@.len());
    assert(texts(r.1@).take(r.1@.len() - 3) =~= op_words(op, written));
    lemma_flags_differ();
    if is_flag(flag) {
        lemma_option_holds_no_flag(a.values@, written, flag);
        if let Some(s) = a.set {
            lemma_set_words_hold_no_flag(s@, flag);
        }
        lemma_word_if(a.create_namespace, "--create-namespace"@, flag);
        lemma_word_if(a.reuse_values, "--reuse-values"@, flag);
        lemma_word_if(a.rollback_on_failure, "--rollback-on-failure"@, flag);
        lemma_word_if(a.dry_run, "--dry-run"@, flag);
        lemma_word_if(a.dry_run, "--debug"@, flag);
        lemma_word_if(a.atomic, "--atomic"@, flag);
        lemma_word_if(a.force, "--force"@, flag);
        assert(!seq!["upgrade"@, a.release@, a.chart@].contains(flag));
        assert(!seq!["--namespace"@, a.namespace@].contains(flag));
        assert(!nonempty_words("--version"@, a.version@).contains(flag));
    }
}

proof fn lemma_option_holds_no_flag(values: Seq<char>, written: Option<&str>, flag: Seq<char>)
    requires
        flag != "--values"@,
        !has_suffix(values, flag),
        written matches Some(p) ==> p@ != flag,
    ensures
        !values_words(values, written).contains(flag),
{
    reveal_strlit("__file:");
    if has_prefix(values, file_mark()) {
        let path = values.skip(file_mark().len() as int);
        if path == flag {
            assert(values.skip(values.len() - flag.len()) =~= flag);
        }
    }
}

proof fn lemma_word_if(wanted: bool, word: Seq<char>, w: Seq<char>)
    ensures
        word_if(wanted, word).contains(w) <==> wanted && word == w,
{
    if wanted {
        assert(word_if(wanted, word)[0] == word);
    }
}

/// An uninstall keeps the history exactly where that was asked for. The words that the
/// user chose are taken not to be the flag themselves.
pub proof fn law_history_is_kept_where_asked_for(
    a: UninstallArgs,
    written: Option<&str>,
    r: (&'static str, Vec<String>),
)
    requires
        call_ensures(build_argv, (&HelmOp::Uninstall(a), written), r),
        a.release@ != "--keep-history"@,
        a.namespace@ != "--keep-history"@,
    ensures
        texts(r.1@).contains("--keep-history"@) <==> a.keep_history,
        !texts(r.1@).contains("--dry-run"@) || a.release@ == "--dry-run"@ || a.namespace@
            == "--dry-run"@,
{
    broadcast use vstd::seq_lib::lemma_seq_concat_contains_all_elements;

    lemma_flags_differ();
    assert(is_flag("--keep-history"@) && is_flag("--dry-run"@));
    lemma_word_if(a.keep_history, "--keep-history"@, "--keep-history"@);
    lemma_word_if(a.keep_history, "--keep-history"@, "--dry-run"@);
    reveal_strlit("--wait");
    reveal_strlit("--timeout");
    reveal_strlit("5m0s");
    reveal_strlit("--keep-history");
    reveal_strlit("--dry-run");
    assert("--timeout"@[2] != "--dry-run"@[2]);
    assert(DEFAULT_HELM_TIMEOUT@.len() == 4);
    assert("--wait"@.len() == 6);
    assert("--timeout"@.len() == 9);
    assert("--keep-history"@.len() == 14);
    assert("--dry-run"@.len() == 9);
    assert(!seq!["uninstall"@, a.release@].contains("--keep-history"@));
    assert(!seq!["--namespace"@, a.namespace@].contains("--keep-history"@));
    let end = seq!["--wait"@, "--timeout"@, timeout_text(None)];
    assert(!end.contains("--keep-history"@));
    assert(!end.contains("--dry-run"@));
}

proof fn lemma_install_head(a: InstallArgs, written: Option<&str>)
    ensures
        ({
            let w = op_words(HelmOp::Install(a), written);
            let n = nonempty_words("--version"@, a.version@).len() as int;
            &&& w.len() >= 5 + n
            &&& w[0] == "install"@
            &&& w[1] == a.release@
            &&& w[2] == a.chart@
            &&& a.version@.len() > 0 ==> w[3] == "--version"@ && w[4] == a.version@
            &&& w[3 + n] == "--namespace"@
            &&& w[3 + n + 1] == a.namespace@
        }),
{
    let head = seq!["install"@, a.release@, a.chart@] + nonempty_words("--version"@, a.version@)
        + seq!["--namespace"@, a.namespace@];
    let b = head + word_if(a.create_namespace, "--create-namespace"@);
    let c = b + dry_run_words(a.dry_run);
    let d = c + opt_set_words(a.set);
    let e = d + word_if(a.atomic, "--atomic"@);
    let f = e + values_words(a.values@, written);
    assert(f == op_words(HelmOp::Install(a), written));
    let n = head.len() as int;
    assert(b.take(n) =~= head);
    assert(c.take(n) =~= b.take(n));
    assert(d.take(n) =~= c.take(n));
    assert(e.take(n) =~= d.take(n));
    assert(f.take(n) =~= e.take(n));
    assert forall|i: int| 0 <= i < n implies f[i] == head[i] by {
        assert(f.take(n)[i] == head[i]);
    }
}

proof fn lemma_upgrade_head(a: UpgradeArgs, written: Option<&str>)
    ensures
        ({
            let w = op_words(HelmOp::Upgrade(a), written);
            let n = nonempty_words("--version"@, a.version@).len() as int;
            &&& w.len() >= 5 + n
            &&& w[0] == "upgrade"@
            &&& w[1] == a.release@
            &&& w[2] == a.chart@
            &&& a.version@.len() > 0 ==> w[3] == "--version"@ && w[4] == a.version@
            &&& w[3 + n] == "--namespace"@
            &&& w[3 + n + 1] == a.namespace@
        }),
{
    let head = seq!["upgrade"@, a.release@, a.chart@] + nonempty_words("--version"@, a.version@)
        + seq!["--namespace"@, a.namespace@];
    let b = head + word_if(a.reuse_values, "--reuse-values"@);
    let c = b + word_if(a.rollback_on_failure, "--rollback-on-failure"@);
    let d = c + dry_run_words(a.dry_run);
    let e = d + opt_set_words(a.set);
    let f = e + word_if(a.atomic, "--atomic"@);
    let g = f + word_if(a.force, "--force"@);
    let h = g + word_if(a.create_namespace, "--create-namespace"@);
    let j = h + values_words(a.values@, written);
    assert(j == op_words(HelmOp::Upgrade(a), written));
    let n = head.len() as int;
    assert(b.take(n) =~= head);
    assert(c.take(n) =~= b.take(n));
    assert(d.take(n) =~= c.take(n));
    assert(e.take(n) =~= d.take(n));
    assert(f.take(n) =~= e.take(n));
    assert(g.take(n) =~= f.take(n));
    assert(h.take(n) =~= g.take(n));
    assert(j.take(n) =~= h.take(n));
    assert forall|i: int| 0 <= i < n implies j[i] == head[i] by {
        assert(j.take(n)[i] == head[i]);
    }
}

proof fn lemma_uninstall_head(a: UninstallArgs, written: Option<&str>)
    ensures
        ({
            let w = op_words(HelmOp::Uninstall(a), written);
            &&& w.len() >= 4
            &&& w[0] == "uninstall"@
            &&& w[1] == a.release@
            &&& w[2] == "--namespace"@
            &&& w[3] == a.namespace@
        }),
{
}

proof fn lemma_rollback_head(a: RollbackArgs, written: Option<&str>)
    ensures
        ({
            let w = op_words(HelmOp::Rollback(a), written);
            let n: int = if a.revision is Some {
                3
            } else {
                2
            };
            &&& w.len() == n + 2
            &&& w[0] == "rollback"@
            &&& w[1] == a.release@
            &&& a.revision matches Some(k) ==> w[2] == dec_int(k as int)
            &&& w[n] == "--namespace"@
            &&& w[n + 1] == a.namespace@
        }),
{
}

proof fn lemma_words_stay(op: HelmOp, written: Option<&str>, r: (&'static str, Vec<String>))
    requires
        call_ensures(build_argv, (&op, written), r),
    ensures
        r.1@.len() == op_words(op, written).len() + 3,
        forall|i: int|
            0 <= i < op_words(op, written).len() ==> (#[trigger] r.1@[i])@ == op_words(op, written)[i],
        r.0 == label_of(op),
{
    let t = texts(r.1@);
    assert(t.len() == r.1@.len());
    assert forall|i: int| 0 <= i < op_words(op, written).len() implies (#[trigger] r.1@[i])@
        == op_words(op, written)[i] by {
        assert(t[i] == r.1@[i]@);
    }
}

/// An operation does what it is called: the first word is the name of the operation,
/// the second the release it was asked for, the third the chart where it takes one.
pub proof fn law_operation_is_the_one_asked_for(
    op: HelmOp,
    written: Option<&str>,
    r: (&'static str, Vec<String>),
)
    requires
        call_ensures(build_argv, (&op, written), r),
    ensures
        r.1@.len() >= 2,
        r.1@[0]@ == r.0@,
        match op {
            HelmOp::Install(a) => r.0@ == "install"@ && r.1@[1]@ == a.release@ && r.1@.len() >= 3
                && r.1@[2]@ == a.chart@,
            HelmOp::Upgrade(a) => r.0@ == "upgrade"@ && r.1@[1]@ == a.release@ && r.1@.len() >= 3
                && r.1@[2]@ == a.chart@,
            HelmOp::Uninstall(a) => r.0@ == "uninstall"@ && r.1@[1]@ == a.release@,
            HelmOp::Rollback(a) => r.0@ == "rollback"@ && r.1@[1]@ == a.release@ && (
            a.revision matches Some(n) ==> r.1@.len() >= 3 && r.1@[2]@ == dec_int(n as int)),
        },
{
    lemma_words_stay(op, written, r);
    match op {
        HelmOp::Install(a) => lemma_install_head(a, written),
        HelmOp::Upgrade(a) => lemma_upgrade_head(a, written),
        HelmOp::Uninstall(a) => lemma_uninstall_head(a, written),
        HelmOp::Rollback(a) => lemma_rollback_head(a, written),
    }
}

/// Every operation works in the namespace it was asked for, and an install or upgrade
/// takes the version of the chart it was asked for.
pub proof fn law_namespace_and_version_are_passed_on(
    op: HelmOp,
    written: Option<&str>,
    r: (&'static str, Vec<String>),
)
    requires
        call_ensures(build_argv, (&op, written), r),
    ensures
        match op {
            HelmOp::Install(a) => has_option(texts(r.1@), "--namespace"@, a.namespace@) && (
            a.version@.len() > 0 ==> has_option(texts(r.1@), "--version"@, a.version@)),
            HelmOp::Upgrade(a) => has_option(texts(r.1@), "--namespace"@, a.namespace@) && (
            a.version@.len() > 0 ==> has_option(texts(r.1@), "--version"@, a.version@)),
            HelmOp::Uninstall(a) => has_option(texts(r.1@), "--namespace"@, a.namespace@),
            HelmOp::Rollback(a) => has_option(texts(r.1@), "--namespace"@, a.namespace@),
        },
{
    let t = texts(r.1@);
    assert(t.len() == r.1@.len());
    lemma_words_stay(op, written, r);
    match op {
        HelmOp::Install(a) => {
            lemma_install_head(a, written);
            let n = nonempty_words("--version"@, a.version@).len() as int;
            assert(t[3 + n] == r.1@[3 + n]@ && t[3 + n + 1] == r.1@[3 + n + 1]@);
            assert(t[3] == r.1@[3]@ && t[4] == r.1@[4]@);
        },
        HelmOp::Upgrade(a) => {
            lemma_upgrade_head(a, written);
            let n = nonempty_words("--version"@, a.version@).len() as int;
            assert(t[3 + n] == r.1@[3 + n]@ && t[3 + n + 1] == r.1@[3 + n + 1]@);
            assert(t[3] == r.1@[3]@ && t[4] == r.1@[4]@);
        },
        HelmOp::Uninstall(a) => {
            lemma_uninstall_head(a, written);
            assert(t[2] == r.1@[2]@ && t[3] == r.1@[3]@);
        },
        HelmOp::Rollback(a) => {
            lemma_rollback_head(a, written);
            let n: int = if a.revision is Some {
                3
            } else {
                2
            };
            assert(t[n] == r.1@[n]@ && t[n + 1] == r.1@[n + 1]@);
        },
    }
}

/// Every operation waits until what it did is ready: as long as it was asked to, where
/// it was, and five minutes otherwise.
pub proof fn law_operations_wait(op: HelmOp, written: Option<&str>, r: (&'static str, Vec<String>))
    requires
        call_ensures(build_argv, (&op, written), r),
    ensures
        r.1@.len() >= 3,
        r.1@[r.1@.len() - 3]@ == "--wait"@,
        r.1@[r.1@.len() - 2]@ == "--timeout"@,
        match op {
            HelmOp::Install(a) => match a.timeout_secs {
                Some(n) => if n > 0 {
                    r.1@[r.1@.len() - 1]@ == dec(n as nat) + "s"@
                } else {
                    r.1@[r.1@.len() - 1]@ == "5m0s"@
                },
                None => r.1@[r.1@.len() - 1]@ == "5m0s"@,
            },
            HelmOp::Upgrade(a) => match a.timeout_secs {
                Some(n) => if n > 0 {
                    r.1@[r.1@.len() - 1]@ == dec(n as nat) + "s"@
                } else {
                    r.1@[r.1@.len() - 1]@ == "5m0s"@
                },
                None => r.1@[r.1@.len() - 1]@ == "5m0s"@,
            },
            _ => r.1@[r.1@.len() - 1]@ == "5m0s"@,
        },
{
    let t = texts(r.1@);
    assert(t.len() == r.1@.len());
    let n = t.len() as int;
    assert(t[n - 3] == r.1@[n - 3]@);
    assert(t[n - 2] == r.1@[n - 2]@);
    assert(t[n - 1] == r.1@[n - 1]@);
}

/// Each value that is set singly is passed on as `--set key=value`, in the order in which
/// they were given: of two for one key the later counts.
pub proof fn law_set_values_are_passed_on(
    op: HelmOp,
    written: Option<&str>,
    r: (&'static str, Vec<String>),
    set: Vec<(String, serde_json::Value)>,
) -> (at: int)
    requires
        call_ensures(build_argv, (&op, written), r),
        match op {
            HelmOp::Install(a) => a.set == Some(set),
            HelmOp::Upgrade(a) => a.set == Some(set),
            _ => false,
        },
    ensures
        0 <= at <= at + 2 * set@.len() <= r.1@.len() - 3,
        forall|i: int|
            #![trigger set@[i]]
            0 <= i < set@.len() ==> r.1@[at + 2 * i]@ == "--set"@ && r.1@[at + 2 * i + 1]@
                == set@[i].0@ + "="@ + (match value_json(set@[i].1) {
                Json::Str(s) => s@,
                Json::Null => "null"@,
                Json::Bool(b) => if b {
                    "true"@
                } else {
                    "false"@
                },
                Json::Number(n) => n.text@,
                j => json_display(j),
            }),
{
    let t = texts(r.1@);
    assert(t.len() == r.1@.len());
    lemma_set_words(set@);
    let at: int = match op {
        HelmOp::Install(a) => (seq!["install"@, a.release@, a.chart@] + nonempty_words(
            "--version"@,
            a.version@,
        ) + seq!["--namespace"@, a.namespace@] + word_if(
            a.create_namespace,
            "--create-namespace"@,
        ) + dry_run_words(a.dry_run)).len() as int,
        HelmOp::Upgrade(a) => (seq!["upgrade"@, a.release@, a.chart@] + nonempty_words(
            "--version"@,
            a.version@,
        ) + seq!["--namespace"@, a.namespace@] + word_if(a.reuse_values, "--reuse-values"@)
            + word_if(a.rollback_on_failure, "--rollback-on-failure"@) + dry_run_words(
            a.dry_run,
        )).len() as int,
        _ => 0,
    };
    assert forall|i: int| #![trigger set@[i]] 0 <= i < set@.len() implies r.1@[at + 2 * i]@
        == "--set"@ && r.1@[at + 2 * i + 1]@ == set@[i].0@ + "="@ + plain_text(
        value_json(set@[i].1),
    ) by {
        assert(t[at + 2 * i] == set_words(set@)[2 * i]);
        assert(t[at + 2 * i + 1] == set_words(set@)[2 * i + 1]);
        assert(t[at + 2 * i] == r.1@[at + 2 * i]@);
        assert(t[at + 2 * i + 1] == r.1@[at + 2 * i + 1]@);
    }
    at
}

/// The values of an install or upgrade reach `helm`: where there are any, the last words
/// before it is told to wait name the file that they are in. Blank values name none, and
/// are not written anywhere.
pub proof fn law_values_reach_helm(
    op: HelmOp,
    values: Seq<char>,
    to_write: Option<String>,
    written: Option<&str>,
    r: (&'static str, Vec<String>),
)
    requires
        call_ensures(values_to_write, (&op,), to_write),
        call_ensures(build_argv, (&op, written), r),
        match op {
            HelmOp::Install(a) => a.values@ == values,
            HelmOp::Upgrade(a) => a.values@ == values,
            _ => false,
        },
    ensures
        to_write matches Some(s) ==> s@ == values,
        trimmed(values).len() == 0 ==> to_write is None,
        trimmed(values).len() > 0 && has_prefix(values, "__file:"@) ==> {
            &&& to_write is None
            &&& r.1@.len() >= 5
            &&& r.1@[r.1@.len() - 5]@ == "--values"@
            &&& "__file:"@ + r.1@[r.1@.len() - 4]@ == values
        },
        trimmed(values).len() > 0 && !has_prefix(values, "__file:"@) ==> {
            &&& to_write is Some
            &&& written matches Some(p) ==> {
                &&& r.1@.len() >= 5
                &&& r.1@[r.1@.len() - 5]@ == "--values"@
                &&& r.1@[r.1@.len() - 4]@ == p@
            }
        },
{
    reveal_strlit("__file:");
    let t = texts(r.1@);
    assert(t.len() == r.1@.len());
    let n = t.len() as int;
    let w = values_words(values, written);
    let front = op_words(op, written);
    assert(n == front.len() + 3);
    if w.len() == 2 {
        assert(front[front.len() - 2] == w[0]);
        assert(front[front.len() - 1] == w[1]);
        assert(t[n - 5] == w[0]);
        assert(t[n - 4] == w[1]);
        assert(t[n - 5] == r.1@[n - 5]@);
        assert(t[n - 4] == r.1@[n - 4]@);
    }
    if has_prefix(values, "__file:"@) {
        assert("__file:"@ + values.skip(7) =~= values);
    }
}

/// The result names the release and the namespace of the operation, and says what became
/// of it.
pub proof fn law_result_is_of_the_operation(
    op: HelmOp,
    success: bool,
    status: &str,
    lines: usize,
    r: HelmOpResult,
)
    requires
        call_ensures(op_result, (&op, success, status, lines), r),
    ensures
        match op {
            HelmOp::Install(a) => r.op@ == "install"@ && r.release@ == a.release@ && r.namespace@
                == a.namespace@,
            HelmOp::Upgrade(a) => r.op@ == "upgrade"@ && r.release@ == a.release@ && r.namespace@
                == a.namespace@,
            HelmOp::Uninstall(a) => r.op@ == "uninstall"@ && r.release@ == a.release@
                && r.namespace@ == a.namespace@,
            HelmOp::Rollback(a) => r.op@ == "rollback"@ && r.release@ == a.release@ && r.namespace@
                == a.namespace@,
        },
        r.success <==> success,
        success ==> r.summary@ == r.op@ + " ok"@,
        !success ==> r.summary@ == r.op@ + " failed: "@ + status@,
{
}

/// A revision of the history shows what `helm` said of it, each thing in its place.
pub proof fn law_revision_shows_what_helm_said(list: Vec<Json>, r: Vec<RevisionEntry>, i: int)
    requires
        call_ensures(revision_entries, (&list,), r),
        0 <= i < list@.len(),
    ensures
        r@.len() == list@.len(),
        member(list@[i], "revision"@) matches Some(Json::Number(n)) ==> (
        n.int matches Some(k) ==> r@[i].revision == k),
        member(list@[i], "updated"@) matches Some(Json::Str(s)) ==> r@[i].updated@ == s@,
        member(list@[i], "status"@) matches Some(Json::Str(s)) ==> r@[i].status@ == s@,
        member(list@[i], "chart"@) matches Some(Json::Str(s)) ==> r@[i].chart@ == s@,
        member(list@[i], "app_version"@) matches Some(Json::Str(s)) ==> r@[i].app_version@ == s@,
        member(list@[i], "description"@) matches Some(Json::Str(s)) ==> r@[i].description@ == s@,
{
    assert(views(r@).len() == r@.len());
    assert(views(r@)[i] == r@[i]@);
    assert(views(r@)[i] == revision_of(list@[i]));
}

/// Rendering a chart installs nothing: it is run as `helm template`, on the chart, the
/// version, the values and the kubeconfig that were asked for.
pub proof fn law_rendering_is_a_template_run(
    chart: &str,
    version: &str,
    values: Option<&str>,
    kubeconfig: Option<&str>,
    r: Vec<String>,
)
    requires
        call_ensures(render_argv, (chart, version, values, kubeconfig), r),
    ensures
        r@.len() >= 3,
        r@[0]@ == "template"@,
        r@[1]@ == "preview"@,
        r@[2]@ == chart@,
        version@.len() > 0 ==> has_option(texts(r@), "--version"@, version@),
        values matches Some(p) ==> has_option(texts(r@), "--values"@, p@),
        kubeconfig matches Some(p) ==> has_option(texts(r@), "--kubeconfig"@, p@),
        r@.len() == 3 + (if version@.len() > 0 {
            2int
        } else {
            0
        }) + (if values is Some {
            2int
        } else {
            0
        }) + (if kubeconfig is Some {
            2int
        } else {
            0
        }),
{
    let t = texts(r@);
    assert(t.len() == r@.len());
    assert(t[0] == r@[0]@ && t[1] == r@[1]@ && t[2] == r@[2]@);
    let n = nonempty_words("--version"@, version@).len() as int;
    let m = option_words("--values"@, values).len() as int;
    if version@.len() > 0 {
        assert(t[3] == "--version"@ && t[4] == version@);
    }
    if let Some(p) = values {
        assert(t[3 + n] == "--values"@ && t[3 + n + 1] == p@);
    }
    if let Some(p) = kubeconfig {
        assert(t[3 + n + m] == "--kubeconfig"@ && t[3 + n + m + 1] == p@);
    }
}

/// How long an operation waits, what it is called, what it is about and which kubeconfig it
/// uses are those of the operation itself.
pub proof fn law_operation_is_described_as_it_is(
    op: HelmOp,
    wait: Option<u64>,
    label: &'static str,
    about: (String, String),
    config: Option<String>,
)
    requires
        call_ensures(install_or_upgrade_timeout_secs, (&op,), wait),
        call_ensures(op_label, (&op,), label),
        call_ensures(op_release_ns, (&op,), about),
        call_ensures(op_kubeconfig, (&op,), config),
    ensures
        match op {
            HelmOp::Install(a) => {
                &&& wait == a.timeout_secs && label@ == "install"@
                &&& about.0@ == a.release@ && about.1@ == a.namespace@
                &&& opt_text(config) == opt_text(a.kubeconfig)
            },
            HelmOp::Upgrade(a) => {
                &&& wait == a.timeout_secs && label@ == "upgrade"@
                &&& about.0@ == a.release@ && about.1@ == a.namespace@
                &&& opt_text(config) == opt_text(a.kubeconfig)
            },
            HelmOp::Uninstall(a) => {
                &&& wait is None && label@ == "uninstall"@
                &&& about.0@ == a.release@ && about.1@ == a.namespace@
                &&& opt_text(config) == opt_text(a.kubeconfig)
            },
            HelmOp::Rollback(a) => {
                &&& wait is None && label@ == "rollback"@
                &&& about.0@ == a.release@ && about.1@ == a.namespace@
                &&& opt_text(config) == opt_text(a.kubeconfig)
            },
        },
{
}

/// A wait of no time is the default one, for `helm` would wait forever.
pub proof fn law_zero_wait_is_the_default(secs: u64, r: String, unset: String)
    requires
        call_ensures(timeout_arg, (Some(secs),), r),
        call_ensures(timeout_arg, (None::<u64>,), unset),
    ensures
        unset@ == "5m0s"@,
        secs == 0 ==> r@ == "5m0s"@,
        secs > 0 ==> r@ == dec(secs as nat) + "s"@,
{
}

/// A failed run is an error with what was said, and a run that succeeded none.
pub proof fn law_failed_runs_are_errors(
    what: &str,
    success: bool,
    stdout: &str,
    stderr: &str,
    output: AppResult<String>,
    result: HelmOpResult,
    outcome: AppResult<HelmOpResult>,
)
    requires
        call_ensures(tool_output, (what, success, stdout, stderr), output),
        call_ensures(op_outcome, (result,), outcome),
    ensures
        success ==> (output matches Ok(s) && s@ == stdout@),
        !success ==> (output matches Err(e) && e.is_other(what@ + ": "@ + stderr@)),
        result.success ==> (outcome matches Ok(x) && x == result),
        !result.success ==> (outcome matches Err(e) && e.is_other(result.summary@)),
{
}

/// The history of a release is asked for in its namespace, up to fifty revisions, as JSON; the
/// values of a chart in the version asked for.
pub proof fn law_what_is_asked_of_helm(
    release: &str,
    namespace: &str,
    chart: &str,
    version: &str,
    history: Vec<String>,
    values: Vec<String>,
)
    requires
        call_ensures(history_argv, (release, namespace), history),
        call_ensures(show_values_argv, (chart, version), values),
    ensures
        texts(history@).take(2) == seq!["history"@, release@],
        has_option(texts(history@), "--namespace"@, namespace@),
        has_option(texts(history@), "--output"@, "json"@),
        has_option(texts(history@), "--max"@, "50"@),
        history@.len() == 8,
        texts(values@).take(3) == seq!["show"@, "values"@, chart@],
        version@.len() > 0 ==> has_option(texts(values@), "--version"@, version@) && values@.len()
            == 5,
        version@.len() == 0 ==> values@.len() == 3,
{
    let h = texts(history@);
    let v = texts(values@);
    assert(h.len() == history@.len() && v.len() == values@.len());
    assert(h[2] == "--namespace"@ && h[3] == namespace@);
    assert(h[4] == "--output"@ && h[5] == "json"@);
    assert(h[6] == "--max"@ && h[7] == "50"@);
    if version@.len() > 0 {
        assert(v[3] == "--version"@ && v[4] == version@);
    }
}

/// A file that is made is named by its kind, something no other file has, and its extension.
pub proof fn law_files_are_named_by_kind_and_extension(
    kind: &str,
    unique: &str,
    ext: &str,
    r: String,
    fresh: String,
)
    requires
        call_ensures(temp_name, (kind, unique, ext), r),
        call_ensures(fresh_temp_name, (kind, ext), fresh),
    ensures
        r@ == kind@ + "-"@ + unique@ + "."@ + ext@,
        exists|u: Seq<char>|
            #![trigger u.len()]
            u.len() == 36 && fresh@ == kind@ + "-"@ + u + "."@ + ext@ && u[8] == '-' && u[13] == '-'
                && u[18] == '-' && u[23] == '-' && !u.contains('/') && !u.contains('.'),
{
    let u = choose|u: Seq<char>| is_uuid_text(u) && fresh@ == #[trigger] temp_name_of(kind@, u, ext@);
    assert(u.len() == 36);
    assert(u[8] == '-' && u[13] == '-' && u[18] == '-' && u[23] == '-');
    assert forall|i: int| 0 <= i < 36 implies u[i] != '/' && u[i] != '.' by {
        assert(if i == 8 || i == 13 || i == 18 || i == 23 {
            u[i] == '-'
        } else {
            '0' <= u[i] <= '9' || 'a' <= u[i] <= 'f'
        });
    }
}

/// Of the environment only the kubeconfig, the configuration of `helm` and the home directory
/// are passed on.
pub proof fn law_what_is_passed_on(name: &str, r: bool)
    requires
        call_ensures(is_passed_on, (name,), r),
    ensures
        r <==> name@ == "KUBECONFIG"@ || name@ == "HELM_CONFIG"@ || name@ == "HOME"@,
{
}

} // verus!
