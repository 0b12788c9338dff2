//! Structural validation of a kubeconfig.
//!
//! Problems are classified into blocking errors and advisory warnings, per
//! context, so that a file with dangling references or a missing server is
//! reported when it is imported, not when it is used.
use crate::client::{ClusterBody, ContextBody, ContextInfo, Kubeconfig, NamedAuthInfo, NamedContext};
use crate::lists::{lemma_named_from, lemma_views_push, named_at, position, views, Named};
use crate::text::{
    ascii_lower, cat3, cat5, dec, dec_u64, has_prefix, opt_text, starts_with, to_ascii_lower, trim,
    trimmed,
};
use vstd::prelude::*;

verus! {

/// How severe an issue is: an `Error` blocks the import, a `Warning` lets it
/// through but is shown to the user.
#[derive(Debug, Clone, Copy, PartialEq, Eq, Structural)]
pub enum IssueSeverity {
    Error,
    Warning,
}

/// One problem found in a kubeconfig.
#[derive(Debug, Clone)]
pub struct KubeconfigIssue {
    pub severity: IssueSeverity,
    /// Stable machine code ("missingClusterRef", ...).
    pub code: String,
    pub message: String,
    /// The context the issue belongs to; `None` for file-level problems.
    pub context: Option<String>,
}

/// Result of a successful import. `issues` holds advisory warnings only.
#[derive(Debug, Clone)]
pub struct ImportKubeconfigResult {
    pub contexts: Vec<ContextInfo>,
    pub path: String,
    pub issues: Vec<KubeconfigIssue>,
}

/// What an issue says.
pub struct IssueView {
    pub severity: IssueSeverity,
    pub code: Seq<char>,
    pub message: Seq<char>,
    pub context: Option<Seq<char>>,
}

impl View for KubeconfigIssue {
    type V = IssueView;

    open spec fn view(&self) -> IssueView {
        IssueView {
            severity: self.severity,
            code: self.code@,
            message: self.message@,
            context: opt_text(self.context),
        }
    }
}

// ---------------------------------------------------------------------------
// What is wrong with a kubeconfig
// ---------------------------------------------------------------------------

pub open spec fn error_in(context: Seq<char>, code: Seq<char>, message: Seq<char>) -> IssueView {
    IssueView { severity: IssueSeverity::Error, code, message, context: Some(context) }
}

pub open spec fn warning_in(context: Seq<char>, code: Seq<char>, message: Seq<char>) -> IssueView {
    IssueView { severity: IssueSeverity::Warning, code, message, context: Some(context) }
}

/// A server address that names a scheme and nothing behind it, or no scheme
/// that is spoken here.
pub open spec fn is_bad_url(server: Seq<char>) -> bool {
    let lower = ascii_lower(server);
    if has_prefix(lower, "https://"@) {
        trimmed(server).len() <= "https://"@.len()
    } else if has_prefix(lower, "http://"@) {
        trimmed(server).len() <= "http://"@.len()
    } else {
        true
    }
}

/// What is wrong with the reference of a context to its cluster.
pub open spec fn cluster_ref_issues(kc: Kubeconfig, name: Seq<char>, b: ContextBody) -> Seq<
    IssueView,
> {
    if named_at(kc.clusters@, b.cluster@) is Some {
        Seq::empty()
    } else {
        seq![
            error_in(
                name,
                "missingClusterRef"@,
                "cluster '"@ + b.cluster@ + "' not found in clusters"@,
            ),
        ]
    }
}

/// What is wrong with the reference of a context to its user.
pub open spec fn user_ref_issues(kc: Kubeconfig, name: Seq<char>, b: ContextBody) -> Seq<IssueView> {
    match b.user {
        None => seq![
            error_in(name, "missingUserRef"@, "context '"@ + name + "' sets no user"@),
        ],
        Some(user) => if named_at(kc.auth_infos@, user@) is Some {
            Seq::empty()
        } else {
            seq![
                error_in(name, "missingUserRef"@, "user '"@ + user@ + "' not found in users"@),
            ]
        },
    }
}

/// The server can be verified, or the kubeconfig says not to.
pub open spec fn trusts(c: ClusterBody) -> bool {
    c.certificate_authority || c.certificate_authority_data || c.insecure_skip_tls_verify == Some(
        true,
    )
}

/// What is wrong with the server of the cluster that a context refers to.
pub open spec fn server_issues(kc: Kubeconfig, name: Seq<char>, b: ContextBody) -> Seq<IssueView> {
    match named_at(kc.clusters@, b.cluster@) {
        None => Seq::empty(),
        Some(i) => {
            match kc.clusters@[i].cluster {
                Some(c) => match c.server {
                    Some(server) => if is_bad_url(server@) {
                        seq![
                            error_in(
                                name,
                                "badServerUrl"@,
                                "cluster '"@ + b.cluster@ + "' server '"@ + server@
                                    + "' is not a valid http(s) URL"@,
                            ),
                        ]
                    } else if has_prefix(ascii_lower(server@), "https://"@) && !trusts(c) {
                        seq![
                            warning_in(
                                name,
                                "noCaBundle"@,
                                "cluster '"@ + b.cluster@
                                    + "' uses https without a CA bundle — the server certificate cannot be verified (set certificate-authority-data or insecure-skip-tls-verify)"@,
                            ),
                        ]
                    } else {
                        Seq::empty()
                    },
                    None => seq![
                        error_in(
                            name,
                            "missingServer"@,
                            "cluster '"@ + b.cluster@ + "' has no server address"@,
                        ),
                    ],
                },
                None => seq![
                    error_in(
                        name,
                        "missingServer"@,
                        "cluster '"@ + b.cluster@ + "' has no server address"@,
                    ),
                ],
            }
        },
    }
}

/// A user sets some way to authenticate.
pub open spec fn has_credentials(u: NamedAuthInfo) -> bool {
    u.auth_info matches Some(a) && (a.token || a.token_file || a.client_certificate
        || a.client_certificate_data || a.username || a.password || a.auth_provider
        || a.exec_plugin)
}

/// Whether the user that a context refers to has credentials.
pub open spec fn credential_issues(kc: Kubeconfig, name: Seq<char>, b: ContextBody) -> Seq<
    IssueView,
> {
    match b.user {
        None => Seq::empty(),
        Some(user) => match named_at(kc.auth_infos@, user@) {
            None => Seq::empty(),
            Some(i) => if has_credentials(kc.auth_infos@[i]) {
                Seq::empty()
            } else {
                seq![
                    warning_in(
                        name,
                        "noCredentials"@,
                        "user '"@ + user@
                            + "' defines no credentials (token, client cert, basic auth, exec, or auth-provider)"@,
                    ),
                ]
            },
        },
    }
}

/// Everything that is wrong with one context.
pub open spec fn context_issues(kc: Kubeconfig, c: NamedContext) -> Seq<IssueView> {
    match c.context {
        None => seq![
            error_in(
                c.name@,
                "missingContextBody"@,
                "context '"@ + c.name@ + "' has no context section"@,
            ),
        ],
        Some(b) => cluster_ref_issues(kc, c.name@, b) + user_ref_issues(kc, c.name@, b)
            + server_issues(kc, c.name@, b) + credential_issues(kc, c.name@, b),
    }
}

pub open spec fn all_context_issues(kc: Kubeconfig, s: Seq<NamedContext>) -> Seq<IssueView>
    decreases s.len(),
{
    if s.len() == 0 {
        Seq::empty()
    } else {
        all_context_issues(kc, s.drop_last()) + context_issues(kc, s.last())
    }
}

pub open spec fn no_context_issues(kc: Kubeconfig) -> Seq<IssueView> {
    if kc.contexts@.len() == 0 {
        seq![
            IssueView {
                severity: IssueSeverity::Error,
                code: "noContexts"@,
                message: "the file defines no contexts"@,
                context: None,
            },
        ]
    } else {
        Seq::empty()
    }
}

pub open spec fn current_context_issues(kc: Kubeconfig) -> Seq<IssueView> {
    match kc.current_context {
        None => Seq::empty(),
        Some(current) => if named_at(kc.contexts@, current@) is Some {
            Seq::empty()
        } else {
            seq![
                IssueView {
                    severity: IssueSeverity::Warning,
                    code: "danglingCurrentContext"@,
                    message: "current-context '"@ + current@ + "' does not match any context"@,
                    context: None,
                },
            ]
        },
    }
}

/// Everything that is wrong with a kubeconfig.
pub open spec fn issues_of(kc: Kubeconfig) -> Seq<IssueView> {
    no_context_issues(kc) + all_context_issues(kc, kc.contexts@) + current_context_issues(kc)
}

// ---------------------------------------------------------------------------
// Finding it
// ---------------------------------------------------------------------------

/// One issue.
pub fn issue(severity: IssueSeverity, code: &str, message: String, context: Option<&str>) -> (r:
    KubeconfigIssue)
    ensures
        r.severity == severity,
        r.code@ == code@,
        r.message@ == message@,
        opt_text(r.context) == (match context {
            Some(c) => Some(c@),
            None => None,
        }),
{
    let context = match context {
        Some(c) => Some(c.to_owned()),
        None => None,
    };
    KubeconfigIssue { severity, code: code.to_owned(), message, context }
}

fn report(issues: &mut Vec<KubeconfigIssue>, i: KubeconfigIssue)
    ensures
        views(final(issues)@) == views(old(issues)@) + seq![i@],
{
    proof {
        lemma_views_push(issues@, i);
        assert(views(issues@).push(i@) =~= views(issues@) + seq![i@]);
    }
    issues.push(i);
}

fn is_bad(server: &str) -> (r: bool)
    ensures
        r == is_bad_url(server@),
{
    let lower = to_ascii_lower(server);
    let host = trim(server);
    if starts_with(lower.as_str(), "https://") {
        host.unicode_len() <= "https://".unicode_len()
    } else if starts_with(lower.as_str(), "http://") {
        host.unicode_len() <= "http://".unicode_len()
    } else {
        true
    }
}

fn check_refs(issues: &mut Vec<KubeconfigIssue>, kc: &Kubeconfig, name: &str, b: &ContextBody)
    ensures
        views(final(issues)@) == views(old(issues)@) + cluster_ref_issues(*kc, name@, *b)
            + user_ref_issues(*kc, name@, *b),
{
    let ghost start = views(issues@);
    if position(&kc.clusters, b.cluster.as_str()).is_none() {
        report(
            issues,
            issue(
                IssueSeverity::Error,
                "missingClusterRef",
                cat3("cluster '", b.cluster.as_str(), "' not found in clusters"),
                Some(name),
            ),
        );
    }
    assert(views(issues@) =~= start + cluster_ref_issues(*kc, name@, *b));
    match &b.user {
        None => {
            report(
                issues,
                issue(
                    IssueSeverity::Error,
                    "missingUserRef",
                    cat3("context '", name, "' sets no user"),
                    Some(name),
                ),
            );
        },
        Some(user) => {
            if position(&kc.auth_infos, user.as_str()).is_none() {
                report(
                    issues,
                    issue(
                        IssueSeverity::Error,
                        "missingUserRef",
                        cat3("user '", user.as_str(), "' not found in users"),
                        Some(name),
                    ),
                );
            }
        },
    }
    assert(views(issues@) =~= start + cluster_ref_issues(*kc, name@, *b) + user_ref_issues(
        *kc,
        name@,
        *b,
    ));
}

fn check_server(issues: &mut Vec<KubeconfigIssue>, kc: &Kubeconfig, name: &str, b: &ContextBody)
    ensures
        views(final(issues)@) == views(old(issues)@) + server_issues(*kc, name@, *b),
{
    let ghost start = views(issues@);
    let cluster_name = b.cluster.as_str();
    if let Some(i) = position(&kc.clusters, cluster_name) {
        let body = &kc.clusters[i].cluster;
        let server: Option<&str> = match body {
            Some(c) => match &c.server {
                Some(s) => Some(s.as_str()),
                None => None,
            },
            None => None,
        };
        match server {
            None => {
                report(
                    issues,
                    issue(
                        IssueSeverity::Error,
                        "missingServer",
                        cat3("cluster '", cluster_name, "' has no server address"),
                        Some(name),
                    ),
                );
            },
            Some(s) => {
                if is_bad(s) {
                    report(
                        issues,
                        issue(
                            IssueSeverity::Error,
                            "badServerUrl",
                            cat5(
                                "cluster '",
                                cluster_name,
                                "' server '",
                                s,
                                "' is not a valid http(s) URL",
                            ),
                            Some(name),
                        ),
                    );
                } else if starts_with(to_ascii_lower(s).as_str(), "https://") {
                    let trusted = match body {
                        Some(c) => c.certificate_authority || c.certificate_authority_data
                            || match c.insecure_skip_tls_verify {
                            Some(skip) => skip,
                            None => false,
                        },
                        None => false,
                    };
                    if !trusted {
                        report(
                            issues,
                            issue(
                                IssueSeverity::Warning,
                                "noCaBundle",
                                cat3(
                                    "cluster '",
                                    cluster_name,
                                    "' uses https without a CA bundle — the server certificate cannot be verified (set certificate-authority-data or insecure-skip-tls-verify)",
                                ),
                                Some(name),
                            ),
                        );
                    }
                }
            },
        }
    }
    assert(views(issues@) =~= start + server_issues(*kc, name@, *b));
}

fn check_credentials(
    issues: &mut Vec<KubeconfigIssue>,
    kc: &Kubeconfig,
    name: &str,
    b: &ContextBody,
)
    ensures
        views(final(issues)@) == views(old(issues)@) + credential_issues(*kc, name@, *b),
{
    let ghost start = views(issues@);
    if let Some(user) = &b.user {
        if let Some(i) = position(&kc.auth_infos, user.as_str()) {
            let set = match &kc.auth_infos[i].auth_info {
                Some(a) => a.token || a.token_file || a.client_certificate
                    || a.client_certificate_data || a.username || a.password || a.auth_provider
                    || a.exec_plugin,
                None => false,
            };
            if !set {
                report(
                    issues,
                    issue(
                        IssueSeverity::Warning,
                        "noCredentials",
                        cat3(
                            "user '",
                            kc.auth_infos[i].name.as_str(),
                            "' defines no credentials (token, client cert, basic auth, exec, or auth-provider)",
                        ),
                        Some(name),
                    ),
                );
            }
        }
    }
    assert(views(issues@) =~= start + credential_issues(*kc, name@, *b));
}

fn check_context(issues: &mut Vec<KubeconfigIssue>, kc: &Kubeconfig, c: &NamedContext)
    ensures
        views(final(issues)@) == views(old(issues)@) + context_issues(*kc, *c),
{
    let ghost start = views(issues@);
    let name = c.name.as_str();
    match &c.context {
        None => {
            report(
                issues,
                issue(
                    IssueSeverity::Error,
                    "missingContextBody",
                    cat3("context '", name, "' has no context section"),
                    Some(name),
                ),
            );
        },
        Some(b) => {
            check_refs(issues, kc, name, b);
            check_server(issues, kc, name, b);
            check_credentials(issues, kc, name, b);
        },
    }
    assert(views(issues@) =~= start + context_issues(*kc, *c));
}

/// Validates a kubeconfig: reference, address and credential checks of each
/// context, and sanity of the file as a whole. Every problem found is reported.
pub fn validate_kubeconfig(kc: &Kubeconfig) -> (r: Vec<KubeconfigIssue>)
    ensures
        views(r@) == issues_of(*kc),
{
    let mut issues: Vec<KubeconfigIssue> = Vec::new();
    assert(views(issues@) =~= Seq::empty());
    if kc.contexts.len() == 0 {
        report(
            &mut issues,
            issue(
                IssueSeverity::Error,
                "noContexts",
                "the file defines no contexts".to_owned(),
                None,
            ),
        );
    }
    let ghost start = no_context_issues(*kc);
    let mut i: usize = 0;
    assert(views(issues@) =~= start + all_context_issues(*kc, kc.contexts@.take(0)));
    while i < kc.contexts.len()
        invariant
            i <= kc.contexts@.len(),
            views(issues@) == start + all_context_issues(*kc, kc.contexts@.take(i as int)),
        decreases kc.contexts@.len() - i,
    {
        assert(kc.contexts@.take(i + 1).drop_last() =~= kc.contexts@.take(i as int));
        check_context(&mut issues, kc, &kc.contexts[i]);
        i += 1;
        assert(views(issues@) =~= start + all_context_issues(*kc, kc.contexts@.take(i as int)));
    }
    assert(kc.contexts@.take(i as int) =~= kc.contexts@);
    if let Some(current) = &kc.current_context {
        if position(&kc.contexts, current.as_str()).is_none() {
            report(
                &mut issues,
                issue(
                    IssueSeverity::Warning,
                    "danglingCurrentContext",
                    cat3("current-context '", current.as_str(), "' does not match any context"),
                    None,
                ),
            );
        }
    }
    assert(views(issues@) =~= issues_of(*kc));
    issues
}

/// Whether any issue is blocking.
pub open spec fn blocks(issues: Seq<IssueView>) -> bool {
    exists|i: int| 0 <= i < issues.len() && (#[trigger] issues[i]).severity == IssueSeverity::Error
}

/// True when any issue is blocking (the import must not proceed).
pub fn has_errors(issues: &Vec<KubeconfigIssue>) -> (r: bool)
    ensures
        r == blocks(views(issues@)),
{
    let mut i: usize = 0;
    while i < issues.len()
        invariant
            i <= issues@.len(),
            forall|j: int|
                0 <= j < i ==> (#[trigger] views(issues@)[j]).severity != IssueSeverity::Error,
        decreases issues@.len() - i,
    {
        assert(views(issues@)[i as int] == issues@[i as int]@);
        if issues[i].severity == IssueSeverity::Error {
            return true;
        }
        i += 1;
    }
    false
}

/// One line of a summary.
pub open spec fn summary_line(i: IssueView) -> Seq<char> {
    "\n- ["@ + (match i.severity {
        IssueSeverity::Error => "error"@,
        IssueSeverity::Warning => "warning"@,
    }) + "] "@ + (match i.context {
        Some(c) => "context '"@ + c + "': "@,
        None => Seq::empty(),
    }) + i.message
}

pub open spec fn summary_lines(issues: Seq<IssueView>) -> Seq<char>
    decreases issues.len(),
{
    if issues.len() == 0 {
        Seq::empty()
    } else {
        summary_lines(issues.drop_last()) + summary_line(issues.last())
    }
}

/// A summary for people, for error channels that carry no structure.
pub fn summarize_issues(issues: &Vec<KubeconfigIssue>) -> (r: String)
    ensures
        r@ == "kubeconfig validation failed ("@ + dec(issues@.len()) + " issue(s)):"@
            + summary_lines(views(issues@)),
{
    let n = dec_u64(issues.len() as u64);
    let mut out = cat3("kubeconfig validation failed (", n.as_str(), " issue(s)):");
    let ghost head = out@;
    let mut i: usize = 0;
    assert(out@ =~= head + summary_lines(views(issues@).take(0)));
    while i < issues.len()
        invariant
            i <= issues@.len(),
            out@ == head + summary_lines(views(issues@).take(i as int)),
        decreases issues@.len() - i,
    {
        assert(views(issues@).take(i + 1).drop_last() =~= views(issues@).take(i as int));
        let x = &issues[i];
        let sev = match x.severity {
            IssueSeverity::Error => "error",
            IssueSeverity::Warning => "warning",
        };
        let ctx = match &x.context {
            Some(c) => cat3("context '", c.as_str(), "': "),
            None => String::new(),
        };
        let line = cat5("\n- [", sev, "] ", ctx.as_str(), x.message.as_str());
        assert(line@ == summary_line(views(issues@)[i as int]));
        out.append(line.as_str());
        i += 1;
        assert(out@ =~= head + summary_lines(views(issues@).take(i as int)));
    }
    assert(views(issues@).take(i as int) =~= views(issues@));
    out
}

// ---------------------------------------------------------------------------
// Laws
// ---------------------------------------------------------------------------

proof fn lemma_context_reported(kc: Kubeconfig, s: Seq<NamedContext>, c: int, k: int)
    requires
        0 <= c < s.len(),
        0 <= k < context_issues(kc, s[c]).len(),
    ensures
        all_context_issues(kc, s).contains(context_issues(kc, s[c])[k]),
    decreases s.len(),
{
    let all = all_context_issues(kc, s);
    let front = all_context_issues(kc, s.drop_last());
    let x = context_issues(kc, s[c])[k];
    if c == s.len() - 1 {
        assert(all[front.len() + k] == x);
    } else {
        lemma_context_reported(kc, s.drop_last(), c, k);
        let j = choose|j: int| 0 <= j < front.len() && front[j] == x;
        assert(all[j] == x);
    }
}

/// One broken context never masks the others: whatever is wrong with any context
/// is in the report.
pub proof fn law_every_problem_is_reported(kc: Kubeconfig, c: int, k: int)
    requires
        0 <= c < kc.contexts@.len(),
        0 <= k < context_issues(kc, kc.contexts@[c]).len(),
    ensures
        issues_of(kc).contains(context_issues(kc, kc.contexts@[c])[k]),
{
    lemma_context_reported(kc, kc.contexts@, c, k);
    let all = all_context_issues(kc, kc.contexts@);
    let x = context_issues(kc, kc.contexts@[c])[k];
    let j = choose|j: int| 0 <= j < all.len() && all[j] == x;
    assert(issues_of(kc)[no_context_issues(kc).len() + j] == x);
}

/// A context can be used: its cluster and its user are there, and the cluster has an
/// address that can be reached.
pub open spec fn is_usable(kc: Kubeconfig, c: NamedContext) -> bool {
    c.context matches Some(b) && {
        &&& named_at(kc.clusters@, b.cluster@) matches Some(i) && {
            &&& kc.clusters@[i].cluster matches Some(body)
            &&& body.server is Some
            &&& !is_bad_url(body.server->0@)
        }
        &&& b.user matches Some(user) && named_at(kc.auth_infos@, user@) is Some
    }
}

proof fn lemma_unusable_is_reported(kc: Kubeconfig, c: NamedContext) -> (k: int)
    requires
        !is_usable(kc, c),
    ensures
        0 <= k < context_issues(kc, c).len(),
        context_issues(kc, c)[k].severity == IssueSeverity::Error,
{
    match c.context {
        None => 0,
        Some(b) => {
            let refs = cluster_ref_issues(kc, c.name@, b);
            let users = user_ref_issues(kc, c.name@, b);
            let all = context_issues(kc, c);
            if refs.len() > 0 {
                assert(all[0] == refs[0]);
                0
            } else if users.len() > 0 {
                assert(all[0] == users[0]);
                0
            } else {
                assert(all[0] == server_issues(kc, c.name@, b)[0]);
                0
            }
        },
    }
}

/// A kubeconfig whose issues do not block has a context, and every context of it can
/// be used.
pub proof fn law_accepted_contexts_are_usable(kc: Kubeconfig)
    requires
        !blocks(issues_of(kc)),
    ensures
        kc.contexts@.len() > 0,
        forall|c: int|
            0 <= c < kc.contexts@.len() ==> is_usable(kc, #[trigger] kc.contexts@[c]),
{
    if kc.contexts@.len() == 0 {
        assert(issues_of(kc)[0] == no_context_issues(kc)[0]);
    }
    assert forall|c: int| 0 <= c < kc.contexts@.len() implies is_usable(
        kc,
        #[trigger] kc.contexts@[c],
    ) by {
        if !is_usable(kc, kc.contexts@[c]) {
            let k = lemma_unusable_is_reported(kc, kc.contexts@[c]);
            law_every_problem_is_reported(kc, c, k);
            let found = context_issues(kc, kc.contexts@[c])[k];
            let i = choose|i: int| 0 <= i < issues_of(kc).len() && issues_of(kc)[i] == found;
            assert(issues_of(kc)[i].severity == IssueSeverity::Error);
        }
    }
}

/// The first entry of a name, put without recursion.
proof fn lemma_named_first<T: Named>(s: Seq<T>, name: Seq<char>, i: int)
    requires
        0 <= i < s.len(),
        s[i].key() == name,
        forall|k: int| 0 <= k < i ==> (#[trigger] s[k]).key() != name,
    ensures
        named_at(s, name) == Some(i),
{
    lemma_named_from(s, name, 0);
}

proof fn lemma_reported(kc: Kubeconfig, r: Vec<KubeconfigIssue>, c: int, x: IssueView)
    requires
        call_ensures(validate_kubeconfig, (&kc,), r),
        0 <= c < kc.contexts@.len(),
        context_issues(kc, kc.contexts@[c]).contains(x),
    ensures
        views(r@).contains(x),
{
    let s = context_issues(kc, kc.contexts@[c]);
    let k = choose|k: int| 0 <= k < s.len() && s[k] == x;
    law_every_problem_is_reported(kc, c, k);
}

/// A context without a body, without a cluster of the name it refers to, or without a user
/// of the name it refers to, is reported as an error, by its name.
pub proof fn law_dangling_references_are_errors(kc: Kubeconfig, r: Vec<KubeconfigIssue>, c: int)
    requires
        call_ensures(validate_kubeconfig, (&kc,), r),
        0 <= c < kc.contexts@.len(),
    ensures
        kc.contexts@[c].context is None ==> exists|i: int|
            #![trigger r@[i]]
            0 <= i < r@.len() && r@[i].severity == IssueSeverity::Error && r@[i].code@
                == "missingContextBody"@ && opt_text(r@[i].context) == Some(kc.contexts@[c].name@) && r@[i].message@
                == "context '"@ + kc.contexts@[c].name@ + "' has no context section"@,
        kc.contexts@[c].context matches Some(b) ==> ((forall|k: int|
            0 <= k < kc.clusters@.len() ==> (#[trigger] kc.clusters@[k]).name@ != b.cluster@)
            ==> exists|i: int|
            #![trigger r@[i]]
            0 <= i < r@.len() && r@[i].severity == IssueSeverity::Error && r@[i].code@
                == "missingClusterRef"@ && opt_text(r@[i].context) == Some(kc.contexts@[c].name@) && r@[i].message@
                == "cluster '"@ + b.cluster@ + "' not found in clusters"@),
        kc.contexts@[c].context matches Some(b) ==> (b.user is None ==> exists|i: int|
            #![trigger r@[i]]
            0 <= i < r@.len() && r@[i].severity == IssueSeverity::Error && r@[i].code@
                == "missingUserRef"@ && opt_text(r@[i].context) == Some(kc.contexts@[c].name@) && r@[i].message@
                == "context '"@ + kc.contexts@[c].name@ + "' sets no user"@),
        kc.contexts@[c].context matches Some(b) ==> (b.user matches Some(u) ==> ((forall|k: int|
            0 <= k < kc.auth_infos@.len() ==> (#[trigger] kc.auth_infos@[k]).name@ != u@)
            ==> exists|i: int|
            #![trigger r@[i]]
            0 <= i < r@.len() && r@[i].severity == IssueSeverity::Error && r@[i].code@
                == "missingUserRef"@ && opt_text(r@[i].context) == Some(kc.contexts@[c].name@) && r@[i].message@
                == "user '"@ + u@ + "' not found in users"@)),
{
    broadcast use vstd::seq_lib::lemma_seq_concat_contains_all_elements;

    let x = kc.contexts@[c];
    match x.context {
        None => {
            let e = context_issues(kc, x)[0];
            assert(context_issues(kc, x).contains(e));
            lemma_reported(kc, r, c, e);
            lemma_issue_is_there(r, e);
        },
        Some(b) => {
            lemma_named_from(kc.clusters@, b.cluster@, 0);
            let refs = cluster_ref_issues(kc, x.name@, b);
            if refs.len() > 0 {
                assert(refs.contains(refs[0]));
                lemma_reported(kc, r, c, refs[0]);
                lemma_issue_is_there(r, refs[0]);
            }
            let users = user_ref_issues(kc, x.name@, b);
            if let Some(u) = b.user {
                lemma_named_from(kc.auth_infos@, u@, 0);
            }
            if users.len() > 0 {
                assert(users.contains(users[0]));
                lemma_reported(kc, r, c, users[0]);
                lemma_issue_is_there(r, users[0]);
            }
            assert forall|k: int| 0 <= k < kc.clusters@.len() implies (
            #[trigger] kc.clusters@[k]).key() == kc.clusters@[k].name@ by {}
            assert forall|k: int| 0 <= k < kc.auth_infos@.len() implies (
            #[trigger] kc.auth_infos@[k]).key() == kc.auth_infos@[k].name@ by {}
        },
    }
}

proof fn lemma_issue_is_there(r: Vec<KubeconfigIssue>, e: IssueView)
    requires
        views(r@).contains(e),
    ensures
        exists|i: int|
            #![trigger r@[i]]
            0 <= i < r@.len() && r@[i].severity == e.severity && r@[i].code@ == e.code
                && r@[i].message@ == e.message && opt_text(r@[i].context) == e.context,
{
    let v = views(r@);
    assert(v.len() == r@.len());
    let i = choose|i: int| 0 <= i < v.len() && v[i] == e;
    assert(v[i] == r@[i]@);
}

/// The cluster of a context must have an address, which is one of HTTP or HTTPS with
/// something behind the scheme: anything else is an error. One of HTTPS that cannot be
/// verified is a warning. `k` is the first cluster of the name that the context refers to.
pub proof fn law_servers_are_checked(
    kc: Kubeconfig,
    r: Vec<KubeconfigIssue>,
    c: int,
    b: ContextBody,
    k: int,
)
    requires
        call_ensures(validate_kubeconfig, (&kc,), r),
        0 <= c < kc.contexts@.len(),
        kc.contexts@[c].context == Some(b),
        0 <= k < kc.clusters@.len(),
        kc.clusters@[k].name@ == b.cluster@,
        forall|j: int| 0 <= j < k ==> (#[trigger] kc.clusters@[j]).name@ != b.cluster@,
    ensures
        (kc.clusters@[k].cluster matches Some(body) ==> body.server is None) ==> exists|i: int|
            #![trigger r@[i]]
            0 <= i < r@.len() && r@[i].severity == IssueSeverity::Error && r@[i].code@
                == "missingServer"@ && opt_text(r@[i].context) == Some(kc.contexts@[c].name@) && r@[i].message@
                == "cluster '"@ + b.cluster@ + "' has no server address"@,
        kc.clusters@[k].cluster matches Some(body) ==> (body.server matches Some(server) ==> {
            let lower = ascii_lower(server@);
            let sound = (has_prefix(lower, "https://"@) && trimmed(server@).len() > 8) || (
            has_prefix(lower, "http://"@) && trimmed(server@).len() > 7);
            &&& !sound ==> exists|i: int|
                #![trigger r@[i]]
                0 <= i < r@.len() && r@[i].severity == IssueSeverity::Error && r@[i].code@
                    == "badServerUrl"@ && opt_text(r@[i].context) == Some(kc.contexts@[c].name@)
                    && r@[i].message@ == "cluster '"@ + b.cluster@ + "' server '"@ + server@
                    + "' is not a valid http(s) URL"@
            &&& sound && has_prefix(lower, "https://"@) && !body.certificate_authority
                && !body.certificate_authority_data && body.insecure_skip_tls_verify != Some(true)
                ==> exists|i: int|
                #![trigger r@[i]]
                0 <= i < r@.len() && r@[i].severity == IssueSeverity::Warning && r@[i].code@
                    == "noCaBundle"@ && opt_text(r@[i].context) == Some(kc.contexts@[c].name@)
        }),
{
    broadcast use vstd::seq_lib::lemma_seq_concat_contains_all_elements;

    reveal_strlit("https://");
    reveal_strlit("http://");
    assert("https://"@.len() == 8 && "http://"@.len() == 7);
    let x = kc.contexts@[c];
    assert forall|j: int| 0 <= j < k implies (#[trigger] kc.clusters@[j]).key() != b.cluster@ by {
        assert(kc.clusters@[j].name@ != b.cluster@);
    }
    lemma_named_first(kc.clusters@, b.cluster@, k);
    let s = server_issues(kc, x.name@, b);
    if let Some(body) = kc.clusters@[k].cluster {
        if let Some(server) = body.server {
            lemma_two_schemes(ascii_lower(server@));
        }
    }
    if s.len() > 0 {
        assert(s.contains(s[0]));
        lemma_reported(kc, r, c, s[0]);
        lemma_issue_is_there(r, s[0]);
    }
}

proof fn lemma_two_schemes(s: Seq<char>)
    ensures
        !(has_prefix(s, "https://"@) && has_prefix(s, "http://"@)),
{
    reveal_strlit("https://");
    reveal_strlit("http://");
    assert("https://"@.len() == 8 && "http://"@.len() == 7);
    if has_prefix(s, "https://"@) && has_prefix(s, "http://"@) {
        assert(s.take(8)[4] == 's');
        assert(s.take(7)[4] == ':');
    }
}

/// A user that sets no way to authenticate is a warning. `k` is the first user of the name
/// that the context refers to.
pub proof fn law_users_without_credentials_are_warned_of(
    kc: Kubeconfig,
    r: Vec<KubeconfigIssue>,
    c: int,
    b: ContextBody,
    user: String,
    k: int,
)
    requires
        call_ensures(validate_kubeconfig, (&kc,), r),
        0 <= c < kc.contexts@.len(),
        kc.contexts@[c].context == Some(b),
        b.user == Some(user),
        0 <= k < kc.auth_infos@.len(),
        kc.auth_infos@[k].name@ == user@,
        forall|j: int| 0 <= j < k ==> (#[trigger] kc.auth_infos@[j]).name@ != user@,
        kc.auth_infos@[k].auth_info matches Some(a) ==> !a.token && !a.token_file
            && !a.client_certificate && !a.client_certificate_data && !a.username && !a.password
            && !a.auth_provider && !a.exec_plugin,
    ensures
        exists|i: int|
            #![trigger r@[i]]
            0 <= i < r@.len() && r@[i].severity == IssueSeverity::Warning && r@[i].code@
                == "noCredentials"@ && opt_text(r@[i].context) == Some(kc.contexts@[c].name@) && has_prefix(
                r@[i].message@,
                "user '"@ + user@ + "' defines no credentials"@,
            ),
{
    broadcast use vstd::seq_lib::lemma_seq_concat_contains_all_elements;

    let x = kc.contexts@[c];
    assert forall|j: int| 0 <= j < k implies (#[trigger] kc.auth_infos@[j]).key() != user@ by {
        assert(kc.auth_infos@[j].name@ != user@);
    }
    lemma_named_first(kc.auth_infos@, user@, k);
    let s = credential_issues(kc, x.name@, b);
    assert(s.contains(s[0]));
    lemma_reported(kc, r, c, s[0]);
    lemma_issue_is_there(r, s[0]);
    let m = s[0].message;
    let front = "user '"@ + user@ + "' defines no credentials"@;
    reveal_strlit("' defines no credentials");
    reveal_strlit(
        "' defines no credentials (token, client cert, basic auth, exec, or auth-provider)",
    );
    assert(m.take(front.len() as int) =~= front);
}

/// A file without contexts is an error, and a current context that is not there a warning.
pub proof fn law_the_file_as_a_whole_is_checked(kc: Kubeconfig, r: Vec<KubeconfigIssue>)
    requires
        call_ensures(validate_kubeconfig, (&kc,), r),
    ensures
        kc.contexts@.len() == 0 ==> exists|i: int|
            #![trigger r@[i]]
            0 <= i < r@.len() && r@[i].severity == IssueSeverity::Error && r@[i].code@
                == "noContexts"@ && r@[i].context is None && r@[i].message@
                == "the file defines no contexts"@,
        kc.current_context matches Some(current) ==> ((forall|k: int|
            0 <= k < kc.contexts@.len() ==> (#[trigger] kc.contexts@[k]).name@ != current@)
            ==> exists|i: int|
            #![trigger r@[i]]
            0 <= i < r@.len() && r@[i].severity == IssueSeverity::Warning && r@[i].code@
                == "danglingCurrentContext"@ && r@[i].context is None && r@[i].message@
                == "current-context '"@ + current@ + "' does not match any context"@),
{
    broadcast use vstd::seq_lib::lemma_seq_concat_contains_all_elements;

    let a = no_context_issues(kc);
    if a.len() > 0 {
        assert(a.contains(a[0]));
        assert(issues_of(kc).contains(a[0]));
        lemma_issue_is_there(r, a[0]);
    }
    if let Some(current) = kc.current_context {
        lemma_named_from(kc.contexts@, current@, 0);
        assert forall|k: int| 0 <= k < kc.contexts@.len() implies (
        #[trigger] kc.contexts@[k]).key() == kc.contexts@[k].name@ by {}
        let b = current_context_issues(kc);
        if b.len() > 0 {
            assert(b.contains(b[0]));
            assert(issues_of(kc).contains(b[0]));
            lemma_issue_is_there(r, b[0]);
        }
    }
}

/// A context that nothing is wrong with: its cluster has an address of HTTP or HTTPS that
/// can be verified, and its user has credentials.
pub open spec fn is_sound_context(kc: Kubeconfig, c: NamedContext) -> bool {
    c.context matches Some(b) && {
        &&& named_at(kc.clusters@, b.cluster@) matches Some(i) && {
            &&& kc.clusters@[i].cluster matches Some(body)
            &&& body.server matches Some(server)
            &&& {
                ||| has_prefix(ascii_lower(server@), "http://"@) && trimmed(server@).len() > 7
                ||| has_prefix(ascii_lower(server@), "https://"@) && trimmed(server@).len() > 8 && (
                body.certificate_authority || body.certificate_authority_data
                    || body.insecure_skip_tls_verify == Some(true))
            }
        }
        &&& b.user matches Some(user) && named_at(kc.auth_infos@, user@) matches Some(k) && (
        kc.auth_infos@[k].auth_info matches Some(a) && (a.token || a.token_file
            || a.client_certificate || a.client_certificate_data || a.username || a.password
            || a.auth_provider || a.exec_plugin))
    }
}

proof fn lemma_no_issues(kc: Kubeconfig, s: Seq<NamedContext>)
    requires
        forall|c: int| 0 <= c < s.len() ==> is_sound_context(kc, #[trigger] s[c]),
    ensures
        all_context_issues(kc, s).len() == 0,
    decreases s.len(),
{
    reveal_strlit("https://");
    reveal_strlit("http://");
    assert("https://"@.len() == 8 && "http://"@.len() == 7);
    if s.len() > 0 {
        let front = s.drop_last();
        assert forall|c: int| 0 <= c < front.len() implies is_sound_context(
            kc,
            #[trigger] front[c],
        ) by {
            assert(front[c] == s[c]);
        }
        lemma_no_issues(kc, front);
        let x = s[s.len() - 1];
        assert(is_sound_context(kc, x));
        let b = x.context->0;
        let i = named_at(kc.clusters@, b.cluster@)->0;
        let body = kc.clusters@[i].cluster->0;
        lemma_two_schemes(ascii_lower(body.server->0@));
        assert(server_issues(kc, x.name@, b).len() == 0);
        assert(credential_issues(kc, x.name@, b).len() == 0);
        assert(context_issues(kc, x).len() == 0);
    }
}

/// A kubeconfig that nothing is wrong with has no issues: it has contexts, all sound, and
/// its current context, where it names one, is among them.
pub proof fn law_sound_kubeconfig_has_no_issues(kc: Kubeconfig, r: Vec<KubeconfigIssue>)
    requires
        call_ensures(validate_kubeconfig, (&kc,), r),
        kc.contexts@.len() > 0,
        forall|c: int|
            0 <= c < kc.contexts@.len() ==> is_sound_context(kc, #[trigger] kc.contexts@[c]),
        kc.current_context matches Some(current) ==> exists|k: int|
            0 <= k < kc.contexts@.len() && (#[trigger] kc.contexts@[k]).name@ == current@,
    ensures
        r@.len() == 0,
{
    lemma_no_issues(kc, kc.contexts@);
    assert(views(r@).len() == r@.len());
    if let Some(current) = kc.current_context {
        lemma_named_from(kc.contexts@, current@, 0);
        let k = choose|k: int|
            0 <= k < kc.contexts@.len() && (#[trigger] kc.contexts@[k]).name@ == current@;
        assert(kc.contexts@[k].key() == current@);
    }
}

/// Errors block an import, and warnings alone do not.
pub proof fn law_errors_block(issues: Vec<KubeconfigIssue>, r: bool)
    requires
        call_ensures(has_errors, (&issues,), r),
    ensures
        r <==> exists|i: int|
            0 <= i < issues@.len() && (#[trigger] issues@[i]).severity == IssueSeverity::Error,
{
    let v = views(issues@);
    assert(v.len() == issues@.len());
    if r {
        let i = choose|i: int| 0 <= i < v.len() && (#[trigger] v[i]).severity == IssueSeverity::Error;
        assert(v[i] == issues@[i]@);
    }
    if exists|i: int|
        0 <= i < issues@.len() && (#[trigger] issues@[i]).severity == IssueSeverity::Error {
        let i = choose|i: int|
            0 <= i < issues@.len() && (#[trigger] issues@[i]).severity == IssueSeverity::Error;
        assert(v[i] == issues@[i]@);
    }
}

/// A summary has a line for each issue, with its severity, its context where it has one,
/// and what it says.
pub proof fn law_summary_of_one_issue(issues: Vec<KubeconfigIssue>, r: String)
    requires
        call_ensures(summarize_issues, (&issues,), r),
        issues@.len() == 1,
    ensures
        r@ == "kubeconfig validation failed ("@ + dec(1) + " issue(s)):"@ + ("\n- ["@ + (
        if issues@[0].severity == IssueSeverity::Error {
            "error"@
        } else {
            "warning"@
        }) + "] "@ + (match issues@[0].context {
            Some(c) => "context '"@ + c@ + "': "@,
            None => Seq::empty(),
        }) + issues@[0].message@),
{
    let v = views(issues@);
    assert(v.len() == 1);
    assert(v[0] == issues@[0]@);
    assert(v.drop_last() =~= Seq::empty());
    assert(summary_lines(v) =~= summary_line(v[0])) by {
        reveal_with_fuel(summary_lines, 2);
    }
}

/// The lines of a summary follow those of the issues before it.
pub proof fn law_summary_goes_on(
    before: Vec<KubeconfigIssue>,
    all: Vec<KubeconfigIssue>,
    of_before: String,
    r: String,
)
    requires
        call_ensures(summarize_issues, (&before,), of_before),
        call_ensures(summarize_issues, (&all,), r),
        all@.len() > 0,
        before@ == all@.drop_last(),
    ensures
        ({
            let start = "kubeconfig validation failed ("@;
            let i = all@.last();
            let line = "\n- ["@ + (if i.severity == IssueSeverity::Error {
                "error"@
            } else {
                "warning"@
            }) + "] "@ + (match i.context {
                Some(c) => "context '"@ + c@ + "': "@,
                None => Seq::empty(),
            }) + i.message@;
            exists|lines: Seq<char>|
                #![trigger start + dec(before@.len()) + " issue(s)):"@ + lines]
                of_before@ == start + dec(before@.len()) + " issue(s)):"@ + lines && r@ == start
                    + dec(all@.len()) + " issue(s)):"@ + (lines + line)
        }),
{
    let v = views(all@);
    assert(v.len() == all@.len());
    assert(v.drop_last() =~= views(before@));
    assert(v.last() == all@.last()@);
    let lines = summary_lines(views(before@));
    let start = "kubeconfig validation failed ("@;
    assert(of_before@ == start + dec(before@.len()) + " issue(s)):"@ + lines);
}

} // verus!
