//! Node debug shell: a root shell on a node's own system.
//!
//! A privileged pod is pinned to the node, and its shell enters the namespaces of
//! the node's first process. What that takes is decided here, and nothing more is
//! asked for: the pod is removed at the end of the session, and the cluster itself
//! ends it after [`MAX_LIFETIME_SECS`] whatever happens.
use crate::argv::{push_three, push_two};
use crate::error::{other, AppError};
use crate::shell::SHELL_PROBE;
use crate::text::{
    alnum, cat2, cat3, cat4, contains, dec, dec_i64, dec_int, dec_u64, has_part, has_prefix,
    is_alnum,
    lemma_dec_digits, lemma_numbered_differ, lower_char, no_texts, opt_text, or_empty, same,
    text_or_nothing, texts, to_lower_char, trim, trim_end_char, trim_start_char, trimmed,
    without_end, without_start,
};
use vstd::prelude::*;

verus! {

/// The namespace of debug pods.
pub const DEBUG_NAMESPACE: &'static str = "default";

/// The label of every debug pod, and its value.
pub const LABEL_MANAGED: &'static str = "app.kubernetes.io/managed-by";

pub const LABEL_MANAGED_VALUE: &'static str = "k7s";

/// The label that names the node of a debug pod.
pub const LABEL_NODE: &'static str = "k7s.dev/debug-node";

/// The annotation that says what a debug pod is.
pub const DESCRIPTION: &'static str = "k7s.dev/description";

/// Default image of debug pods.
pub const DEFAULT_IMAGE: &'static str = "nicolaka/netshoot";

/// How long a debug pod may live, whatever happens.
pub const MAX_LIFETIME_SECS: i64 = 3600;

/// How long a debug pod may take to start, in seconds.
pub const READY_TIMEOUT_SECS: u64 = 90;

/// How long to wait between looks at a debug pod that starts, in milliseconds.
pub const POLL_MILLIS: u64 = 600;

/// How long a debug pod is given to end: there is nothing to save.
pub const DELETE_GRACE_SECS: u32 = 0;

/// What is known of a debug pod before the first look.
pub const NEVER_SEEN: &'static str = "the pod was never observed";

/// The image of debug pods: the configured one, or the default where that is
/// missing or blank.
pub open spec fn chosen_image(configured: Option<&str>) -> Seq<char> {
    match configured {
        Some(s) => if trimmed(s@).len() == 0 {
            DEFAULT_IMAGE@
        } else {
            s@
        },
        None => DEFAULT_IMAGE@,
    }
}

/// The image of debug pods.
pub fn shell_image(configured: Option<&str>) -> (r: String)
    ensures
        r@ == chosen_image(configured),
{
    match configured {
        Some(s) => if trim(s).is_empty() {
            DEFAULT_IMAGE.to_owned()
        } else {
            s.to_owned()
        },
        None => DEFAULT_IMAGE.to_owned(),
    }
}

// ---------------------------------------------------------------------------
// Names
// ---------------------------------------------------------------------------

/// A node name as part of a pod name: letters in lower case and digits, and dashes
/// for all else.
pub open spec fn label_chars(node: Seq<char>) -> Seq<char> {
    Seq::new(
        node.len(),
        |i: int|
            if is_alnum(node[i]) {
                lower_char(node[i])
            } else {
                '-'
            },
    )
}

fn to_label_chars(node: &str) -> (r: String)
    ensures
        r@ == label_chars(node@),
{
    let n = node.unicode_len();
    let mut out = String::new();
    let mut i: usize = 0;
    assert(out@ =~= label_chars(node@).take(0));
    while i < n
        invariant
            i <= n,
            n == node@.len(),
            out@ == label_chars(node@).take(i as int),
        decreases n - i,
    {
        let c = node.get_char(i);
        if alnum(c) {
            out.push(to_lower_char(c));
        } else {
            out.push('-');
        }
        i += 1;
        assert(out@ =~= label_chars(node@).take(i as int));
    }
    assert(label_chars(node@).take(i as int) =~= label_chars(node@));
    out
}

/// The longest name that a pod can have.
pub const MAX_NAME: usize = 63;

/// How many characters of the node's name there is room for in a pod name.
pub open spec fn room(seq: u64) -> int {
    MAX_NAME - "k7s-debug-"@.len() - 1 - dec(seq as nat).len()
}

/// The part of a pod name that stands for the node.
pub open spec fn node_part(node: Seq<char>, room: int) -> Seq<char> {
    let all = label_chars(node);
    let cut = if all.len() <= room {
        all
    } else {
        all.take(room)
    };
    without_end(without_start(cut, '-'), '-')
}

/// The name of a debug pod.
pub open spec fn name_for(node: Seq<char>, seq: u64) -> Seq<char> {
    "k7s-debug-"@ + node_part(node, room(seq)) + "-"@ + dec(seq as nat)
}

spec fn power_of_ten(k: nat) -> nat
    decreases k,
{
    if k == 0 {
        1
    } else {
        10 * power_of_ten((k - 1) as nat)
    }
}

proof fn lemma_dec_len(n: nat, k: nat)
    requires
        k >= 1,
        n < power_of_ten(k),
    ensures
        1 <= dec(n).len() <= k,
    decreases k,
{
    if n >= 10 {
        if k == 1 {
            assert(power_of_ten(1) == 10 * power_of_ten(0));
        } else {
            lemma_dec_len(n / 10, (k - 1) as nat);
        }
    }
}

proof fn lemma_room(seq: u64)
    ensures
        32 <= room(seq) <= 51,
{
    reveal_strlit("k7s-debug-");
    reveal_with_fuel(power_of_ten, 21);
    assert(power_of_ten(20) == 100_000_000_000_000_000_000);
    lemma_dec_len(seq as nat, 20);
}

/// The name of the debug pod of a session. It names the node, so that a pod left
/// over tells what it is, as far as there is room for it: node names can be longer
/// than pod names, and have characters that these cannot.
pub fn pod_name(node: &str, seq: u64) -> (r: String)
    ensures
        r@ == name_for(node@, seq),
{
    let digits = dec_u64(seq);
    let all = to_label_chars(node);
    proof {
        lemma_room(seq);
        reveal_strlit("k7s-debug-");
    }
    let left: usize = 52 - digits.as_str().unicode_len();
    let n = all.as_str().unicode_len();
    let cut = if n <= left {
        all.as_str()
    } else {
        all.as_str().substring_char(0, left)
    };
    let short = trim_end_char(trim_start_char(cut, '-'), '-');
    cat4("k7s-debug-", short, "-", digits.as_str())
}

/// The words of the command that leaves the pod for the node.
pub open spec fn nsenter_words() -> Seq<Seq<char>> {
    seq![
        "nsenter"@,
        "--target"@,
        "1"@,
        "--mount"@,
        "--uts"@,
        "--ipc"@,
        "--net"@,
        "--pid"@,
        "--"@,
        "/bin/sh"@,
        "-c"@,
        SHELL_PROBE@,
    ]
}

/// The command that leaves the pod for the node: it enters every namespace of the
/// node's first process and starts a shell of the node's own.
pub fn nsenter_cmd() -> (r: Vec<String>)
    ensures
        texts(r@) == nsenter_words(),
{
    let mut v = no_texts();
    push_three(&mut v, "nsenter", "--target", "1");
    push_three(&mut v, "--mount", "--uts", "--ipc");
    push_three(&mut v, "--net", "--pid", "--");
    push_three(&mut v, "/bin/sh", "-c", SHELL_PROBE);
    assert(texts(v@) =~= nsenter_words());
    v
}

// ---------------------------------------------------------------------------
// The pod
// ---------------------------------------------------------------------------

/// Which taints of a node a pod puts up with. Without a key and an effect: all.
#[derive(Clone, Debug)]
pub struct Toleration {
    pub key: Option<String>,
    pub operator: Option<String>,
    pub effect: Option<String>,
}

/// The container of a debug pod.
#[derive(Clone, Debug)]
pub struct DebugContainer {
    pub name: String,
    pub image: String,
    pub command: Vec<String>,
    pub tty: bool,
    pub stdin: bool,
    pub image_pull_policy: String,
    pub privileged: bool,
}

/// A debug pod. What is not here is left to the cluster.
#[derive(Clone, Debug)]
pub struct DebugPod {
    pub name: String,
    pub namespace: String,
    pub labels: Vec<(String, String)>,
    pub annotations: Vec<(String, String)>,
    /// The node it is pinned to, past the scheduler.
    pub node_name: String,
    pub host_pid: bool,
    pub host_network: bool,
    pub host_ipc: bool,
    pub restart_policy: String,
    /// The cluster ends the pod after so many seconds.
    pub active_deadline_seconds: i64,
    pub termination_grace_period_seconds: i64,
    pub tolerations: Vec<Toleration>,
    pub containers: Vec<DebugContainer>,
}

/// A toleration is one of every taint.
pub open spec fn tolerates_all(t: Toleration) -> bool {
    t.key is None && t.effect is None && opt_text(t.operator) == Some("Exists"@)
}

/// The debug pod for a node.
///
/// Each privilege is needed: the namespaces of the host, so that the node's first
/// process can be entered, and a privileged container to do it. The pod runs on any
/// node, whatever its taints, is never started again, and does not outlive its
/// deadline.
pub fn debug_pod_spec(node: &str, image: &str, name: &str) -> (r: DebugPod)
    ensures
        r.name@ == name@,
        r.namespace@ == DEBUG_NAMESPACE@,
        r.labels@.len() == 2,
        r.labels@[0].0@ == LABEL_MANAGED@ && r.labels@[0].1@ == LABEL_MANAGED_VALUE@,
        r.labels@[1].0@ == LABEL_NODE@ && r.labels@[1].1@ == node@,
        r.annotations@.len() == 1,
        r.annotations@[0].0@ == DESCRIPTION@,
        r.annotations@[0].1@ == "Interactive debug shell on node "@ + node@
            + ", created by k7s. Safe to delete."@,
        r.node_name@ == node@,
        r.host_pid,
        r.host_network,
        r.host_ipc,
        r.restart_policy@ == "Never"@,
        r.active_deadline_seconds == MAX_LIFETIME_SECS,
        r.termination_grace_period_seconds == 0,
        r.tolerations@.len() == 1 && tolerates_all(r.tolerations@[0]),
        r.containers@.len() == 1,
        r.containers@[0].name@ == "debug"@,
        r.containers@[0].image@ == image@,
        texts(r.containers@[0].command@) == seq!["sleep"@, dec_int(MAX_LIFETIME_SECS as int)],
        r.containers@[0].tty,
        r.containers@[0].stdin,
        r.containers@[0].image_pull_policy@ == "IfNotPresent"@,
        r.containers@[0].privileged,
{
    let mut labels: Vec<(String, String)> = Vec::new();
    labels.push((LABEL_MANAGED.to_owned(), LABEL_MANAGED_VALUE.to_owned()));
    labels.push((LABEL_NODE.to_owned(), node.to_owned()));
    let mut annotations: Vec<(String, String)> = Vec::new();
    annotations.push(
        (
            DESCRIPTION.to_owned(),
            cat3("Interactive debug shell on node ", node, ", created by k7s. Safe to delete."),
        ),
    );
    let mut tolerations: Vec<Toleration> = Vec::new();
    tolerations.push(Toleration { key: None, operator: Some("Exists".to_owned()), effect: None });
    let lifetime = dec_i64(MAX_LIFETIME_SECS);
    let mut command = no_texts();
    push_two(&mut command, "sleep", lifetime.as_str());
    assert(texts(command@) =~= seq!["sleep"@, dec_int(MAX_LIFETIME_SECS as int)]);
    let mut containers: Vec<DebugContainer> = Vec::new();
    containers.push(
        DebugContainer {
            name: "debug".to_owned(),
            image: image.to_owned(),
            command,
            tty: true,
            stdin: true,
            image_pull_policy: "IfNotPresent".to_owned(),
            privileged: true,
        },
    );
    DebugPod {
        name: name.to_owned(),
        namespace: DEBUG_NAMESPACE.to_owned(),
        labels,
        annotations,
        node_name: node.to_owned(),
        host_pid: true,
        host_network: true,
        host_ipc: true,
        restart_policy: "Never".to_owned(),
        active_deadline_seconds: MAX_LIFETIME_SECS,
        termination_grace_period_seconds: 0,
        tolerations,
        containers,
    }
}

/// The selector of the debug pods of a node.
pub fn node_selector(node: &str) -> (r: String)
    ensures
        r@ == LABEL_MANAGED@ + "="@ + LABEL_MANAGED_VALUE@ + (","@ + LABEL_NODE@ + "="@ + node@),
{
    let of_node = cat4(",", LABEL_NODE, "=", node);
    cat4(LABEL_MANAGED, "=", LABEL_MANAGED_VALUE, of_node.as_str())
}

// ---------------------------------------------------------------------------
// Starting
// ---------------------------------------------------------------------------

/// What is said of a pod that no kubelet has taken up.
pub const STILL_PENDING: &'static str =
    "the pod is still Pending. If the node is NotReady its kubelet can't start the pod, and no amount of waiting will change that.";

/// Why a debug pod does not run yet. What its container waits for says more than
/// its phase.
pub open spec fn reason_for(phase: Seq<char>, waiting: Option<(Seq<char>, Seq<char>)>) -> Seq<char> {
    match waiting {
        Some((reason, message)) => "the debug container is stuck in "@ + reason
            + (if message.len() == 0 {
            Seq::empty()
        } else {
            " — "@ + message
        }),
        None => if phase == "Pending"@ {
            STILL_PENDING@
        } else {
            "the debug pod is "@ + phase + ", not Running"@
        },
    }
}

/// What a container waits for: reason and message.
pub open spec fn waiting_texts(w: Option<(&str, &str)>) -> Option<(Seq<char>, Seq<char>)> {
    match w {
        Some((reason, message)) => Some((reason@, message@)),
        None => None,
    }
}

/// Why a debug pod does not run yet, as something that can be acted on.
pub fn pending_reason(phase: &str, waiting: Option<(&str, &str)>) -> (r: String)
    ensures
        r@ == reason_for(phase@, waiting_texts(waiting)),
{
    match waiting {
        Some((reason, message)) => {
            if message.is_empty() {
                let text = cat2("the debug container is stuck in ", reason);
                assert(text@ =~= reason_for(phase@, waiting_texts(waiting)));
                text
            } else {
                let text = cat4("the debug container is stuck in ", reason, " — ", message);
                assert(text@ =~= reason_for(phase@, waiting_texts(waiting)));
                text
            }
        },
        None => {
            if same(phase, "Pending") {
                STILL_PENDING.to_owned()
            } else {
                cat3("the debug pod is ", phase, ", not Running")
            }
        },
    }
}

/// What a look at a debug pod shows.
pub enum PodLook {
    /// Its phase, and what its first container waits for, if it does: reason and
    /// message.
    Seen(Option<String>, Option<(Option<String>, Option<String>)>),
    /// The error of the request.
    Failed(String),
}

/// What is done after a look at a debug pod.
pub enum PodWait {
    /// It runs.
    Ready,
    /// Wait and look again; this is what it is waited for.
    Wait(String),
    Fail(AppError),
}

/// An error says that the pod is not there.
pub open spec fn is_missing(error: Seq<char>) -> bool {
    has_part(error, "404"@) || has_part(error, "not found"@) || has_part(error, "NotFound"@)
}

/// What a container waits for, with empty texts for what is not said.
pub open spec fn waiting_of(w: Option<(Option<String>, Option<String>)>) -> Option<
    (Seq<char>, Seq<char>),
> {
    match w {
        Some((reason, message)) => Some((text_or_nothing(reason), text_or_nothing(message))),
        None => None,
    }
}

/// What is done after a look at the debug pod `name`. A pod that was just made may
/// not be visible yet; any other error is final.
pub fn after_look(name: &str, look: PodLook) -> (r: PodWait)
    ensures
        match look {
            PodLook::Seen(phase, waiting) => if text_or_nothing(phase) == "Running"@ {
                r is Ready
            } else {
                r matches PodWait::Wait(t) && t@ == reason_for(
                    text_or_nothing(phase),
                    waiting_of(waiting),
                )
            },
            PodLook::Failed(error) => if is_missing(error@) {
                r matches PodWait::Wait(t) && t@ == "pod "@ + name@
                    + " not yet visible (API cache lag)"@
            } else {
                r matches PodWait::Fail(AppError::Kube(m)) && m == error
            },
        },
{
    match look {
        PodLook::Seen(phase, waiting) => {
            let phase = or_empty(&phase);
            if same(phase.as_str(), "Running") {
                return PodWait::Ready;
            }
            match waiting {
                Some((reason, message)) => {
                    let reason = or_empty(&reason);
                    let message = or_empty(&message);
                    PodWait::Wait(
                        pending_reason(phase.as_str(), Some((reason.as_str(), message.as_str()))),
                    )
                },
                None => PodWait::Wait(pending_reason(phase.as_str(), None)),
            }
        },
        PodLook::Failed(error) => {
            if contains(error.as_str(), "404") || contains(error.as_str(), "not found") || contains(
                error.as_str(),
                "NotFound",
            ) {
                PodWait::Wait(cat3("pod ", name, " not yet visible (API cache lag)"))
            } else {
                PodWait::Fail(AppError::Kube(error))
            }
        },
    }
}

/// The error where a debug pod took too long: what it was last waited for.
pub fn timed_out(last: &str) -> (r: AppError)
    ensures
        r.is_other("timed out starting the debug pod: "@ + last@),
{
    let text = cat2("timed out starting the debug pod: ", last);
    other(text.as_str())
}

// ---------------------------------------------------------------------------
// Laws
// ---------------------------------------------------------------------------

/// A character that a pod name can have.
pub open spec fn is_label_char(c: char) -> bool {
    ('a' <= c && c <= 'z') || ('0' <= c && c <= '9') || c == '-'
}

proof fn lemma_lower_alnum(c: char)
    requires
        is_alnum(c),
    ensures
        is_label_char(lower_char(c)),
{
}

proof fn lemma_without_start_members(s: Seq<char>)
    ensures
        without_start(s, '-').len() <= s.len(),
        forall|i: int|
            0 <= i < without_start(s, '-').len() ==> s.contains(#[trigger] without_start(s, '-')[i]),
    decreases s.len(),
{
    if s.len() > 0 && s[0] == '-' {
        let t = s.drop_first();
        lemma_without_start_members(t);
        let w = without_start(s, '-');
        assert(w == without_start(t, '-'));
        assert forall|i: int| 0 <= i < w.len() implies s.contains(#[trigger] w[i]) by {
            assert(t.contains(without_start(t, '-')[i]));
            let k = choose|k: int| 0 <= k < t.len() && t[k] == w[i];
            assert(s[k + 1] == w[i]);
        }
    }
}

proof fn lemma_without_end_members(s: Seq<char>)
    ensures
        without_end(s, '-').len() <= s.len(),
        forall|i: int|
            0 <= i < without_end(s, '-').len() ==> s.contains(#[trigger] without_end(s, '-')[i]),
    decreases s.len(),
{
    if s.len() > 0 && s.last() == '-' {
        let t = s.drop_last();
        lemma_without_end_members(t);
        let w = without_end(s, '-');
        assert(w == without_end(t, '-'));
        assert forall|i: int| 0 <= i < w.len() implies s.contains(#[trigger] w[i]) by {
            assert(t.contains(without_end(t, '-')[i]));
            let k = choose|k: int| 0 <= k < t.len() && t[k] == w[i];
            assert(s[k] == w[i]);
        }
    }
}

/// The name of a debug pod is one that the cluster accepts, whatever the node is
/// called: at most 63 characters, all of them small letters, digits and dashes, the
/// first a letter and the last a digit.
pub proof fn law_pod_name_is_legal(node: Seq<char>, seq: u64)
    ensures
        name_for(node, seq).len() <= MAX_NAME,
        forall|i: int|
            0 <= i < name_for(node, seq).len() ==> is_label_char(#[trigger] name_for(node, seq)[i]),
        name_for(node, seq)[0] == 'k',
        '0' <= name_for(node, seq).last() && name_for(node, seq).last() <= '9',
{
    reveal_strlit("k7s-debug-");
    reveal_strlit("-");
    lemma_room(seq);
    lemma_dec_digits(seq as nat);
    let all = label_chars(node);
    let cut = if all.len() <= room(seq) {
        all
    } else {
        all.take(room(seq))
    };
    let start = without_start(cut, '-');
    let part = node_part(node, room(seq));
    lemma_without_start_members(cut);
    lemma_without_end_members(start);
    let d = dec(seq as nat);
    let name = name_for(node, seq);
    assert(name.len() == 10 + part.len() + 1 + d.len());
    assert forall|i: int| 0 <= i < name.len() implies is_label_char(#[trigger] name[i]) by {
        if i < 10 {
            assert(name[i] == "k7s-debug-"@[i]);
        } else if i < 10 + part.len() {
            assert(name[i] == part[i - 10]);
            let k = choose|k: int| 0 <= k < start.len() && start[k] == part[i - 10];
            let m = choose|m: int| 0 <= m < cut.len() && cut[m] == start[k];
            assert(cut[m] == all[m]);
            if is_alnum(node[m]) {
                lemma_lower_alnum(node[m]);
            }
        } else if i == 10 + part.len() {
            assert(name[i] == '-');
        } else {
            assert(name[i] == d[i - 11 - part.len()]);
        }
    }
    assert(name[0] == "k7s-debug-"@[0]);
    assert(name.last() == d.last());
}

/// Two debug pods with different numbers have different names, whatever their nodes
/// are called.
pub proof fn law_pod_names_differ(node: Seq<char>, seq: u64, node2: Seq<char>, seq2: u64)
    requires
        seq != seq2,
    ensures
        name_for(node, seq) != name_for(node2, seq2),
{
    let front = "k7s-debug-"@ + node_part(node, room(seq));
    let front2 = "k7s-debug-"@ + node_part(node2, room(seq2));
    lemma_numbered_differ(front, seq as nat, front2, seq2 as nat);
}

proof fn lemma_dashes_go(s: Seq<char>)
    ensures
        without_start(s, '-').len() > 0 ==> without_start(s, '-')[0] != '-',
        without_end(s, '-').len() > 0 ==> without_end(s, '-').last() != '-' && without_end(s, '-')[0]
            == s[0],
    decreases s.len(),
{
    if s.len() > 0 {
        lemma_dashes_go(s.drop_first());
        lemma_dashes_go(s.drop_last());
    }
}

/// What stands for the node in the name of a debug pod neither begins nor ends with a
/// dash, even where a long name was cut.
pub proof fn law_node_part_has_no_loose_dash(node: Seq<char>, seq: u64)
    requires
        node_part(node, room(seq)).len() > 0,
    ensures
        node_part(node, room(seq))[0] != '-',
        node_part(node, room(seq)).last() != '-',
{
    let all = label_chars(node);
    let cut = if all.len() <= room(seq) {
        all
    } else {
        all.take(room(seq))
    };
    lemma_dashes_go(cut);
    lemma_dashes_go(without_start(cut, '-'));
    lemma_without_end_members(without_start(cut, '-'));
}

/// The image of debug pods is the configured one, unless that is blank.
pub proof fn law_configured_image_is_used(configured: Option<&str>, r: String)
    requires
        call_ensures(shell_image, (configured,), r),
    ensures
        configured matches Some(s) ==> (trimmed(s@).len() > 0 ==> r@ == s@),
        configured matches Some(s) ==> (trimmed(s@).len() == 0 ==> r@ == "nicolaka/netshoot"@),
        configured is None ==> r@ == "nicolaka/netshoot"@,
{
}

/// The shell of a node enters all namespaces of the node's first process.
pub proof fn law_shell_enters_the_node(r: Vec<String>)
    requires
        call_ensures(nsenter_cmd, (), r),
    ensures
        texts(r@) == seq![
            "nsenter"@,
            "--target"@,
            "1"@,
            "--mount"@,
            "--uts"@,
            "--ipc"@,
            "--net"@,
            "--pid"@,
            "--"@,
            "/bin/sh"@,
            "-c"@,
            "if command -v bash >/dev/null 2>&1; then exec bash; else exec sh; fi"@,
        ],
{
}

/// A debug pod runs on the node it is for, with the namespaces of the host and a privileged
/// container of the image asked for. It is not started again, puts up with every taint, and
/// ends after an hour at the latest.
pub proof fn law_debug_pod_is_for_its_node(node: &str, image: &str, name: &str, r: DebugPod)
    requires
        call_ensures(debug_pod_spec, (node, image, name), r),
    ensures
        r.name@ == name@,
        r.namespace@ == "default"@,
        r.node_name@ == node@,
        r.host_pid && r.host_network && r.host_ipc,
        r.restart_policy@ == "Never"@,
        r.active_deadline_seconds == 3600,
        r.tolerations@.len() == 1,
        r.tolerations@[0].key is None,
        r.tolerations@[0].effect is None,
        r.tolerations@[0].operator matches Some(o) && o@ == "Exists"@,
        r.containers@.len() == 1,
        r.containers@[0].image@ == image@,
        r.containers@[0].privileged,
        r.containers@[0].stdin && r.containers@[0].tty,
        r.containers@[0].command@.len() == 2,
        r.containers@[0].command@[0]@ == "sleep"@,
        r.containers@[0].command@[1]@ == dec_int(3600),
        r.labels@[0].0@ == "app.kubernetes.io/managed-by"@ && r.labels@[0].1@ == "k7s"@,
        r.labels@[1].0@ == "k7s.dev/debug-node"@ && r.labels@[1].1@ == node@,
{
    let t = texts(r.containers@[0].command@);
    assert(t.len() == r.containers@[0].command@.len());
    assert(t[0] == r.containers@[0].command@[0]@);
    assert(t[1] == r.containers@[0].command@[1]@);
}

/// The name of a debug pod holds the name of its node as it is, where that is short, of
/// small letters and digits, and dashes between them.
pub proof fn law_debug_pod_is_named_after_its_node(node: &str, seq: u64, r: String)
    requires
        call_ensures(pod_name, (node, seq), r),
        0 < node@.len() <= 32,
        forall|i: int|
            0 <= i < node@.len() ==> 'a' <= #[trigger] node@[i] <= 'z' || '0' <= node@[i] <= '9'
                || node@[i] == '-',
        node@[0] != '-',
        node@.last() != '-',
    ensures
        r@ == "k7s-debug-"@ + node@ + "-"@ + dec(seq as nat),
{
    lemma_room(seq);
    let all = label_chars(node@);
    assert(all =~= node@) by {
        assert forall|i: int| 0 <= i < node@.len() implies all[i] == node@[i] by {
            let c = node@[i];
            assert(c != '-' ==> is_alnum(c) && lower_char(c) == c);
        }
    }
}

/// What a container waits for is what is said of a pod that does not run; one that is only
/// pending is said to be so.
pub proof fn law_what_is_waited_for_is_said(
    phase: &str,
    waiting: Option<(&str, &str)>,
    r: String,
)
    requires
        call_ensures(pending_reason, (phase, waiting), r),
    ensures
        waiting matches Some(w) ==> (w.1@.len() > 0 ==> r@ == "the debug container is stuck in "@
            + w.0@ + (" — "@ + w.1@)),
        waiting matches Some(w) ==> (w.1@.len() == 0 ==> r@ == "the debug container is stuck in "@
            + w.0@),
        waiting is None && phase@ != "Pending"@ ==> r@ == "the debug pod is "@ + phase@
            + ", not Running"@,
        waiting is None && phase@ == "Pending"@ ==> has_prefix(r@, "the pod is still Pending."@),
{
    if let Some(w) = waiting {
        if w.1@.len() == 0 {
            assert("the debug container is stuck in "@ + w.0@ + Seq::<char>::empty()
                =~= "the debug container is stuck in "@ + w.0@);
        }
    }
    if waiting is None && phase@ == "Pending"@ {
        reveal_strlit("the pod is still Pending.");
        reveal_strlit(
            "the pod is still Pending. If the node is NotReady its kubelet can't start the pod, and no amount of waiting will change that.",
        );
        assert(r@.take("the pod is still Pending."@.len() as int)
            =~= "the pod is still Pending."@);
    }
}

/// A debug pod is used as soon as it runs and not before; it is waited for where it is not
/// there yet, and any other error ends the wait.
pub proof fn law_only_a_running_pod_is_used(name: &str, look: PodLook, r: PodWait)
    requires
        call_ensures(after_look, (name, look), r),
    ensures
        r is Ready <==> (look matches PodLook::Seen(phase, _) && (phase matches Some(p) && p@
            == "Running"@)),
        look matches PodLook::Failed(e) ==> (r is Wait <==> has_part(e@, "404"@) || has_part(
            e@,
            "not found"@,
        ) || has_part(e@, "NotFound"@)),
        look is Seen ==> !(r is Fail),
{
    reveal_strlit("Running");
    assert("Running"@.len() == 7);
}

} // verus!
