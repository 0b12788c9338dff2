//! Draining a node: cordon it, and evict the pods that it runs.
//!
//! Pods are evicted, not deleted, so that their disruption budgets are honoured. A
//! pod that its budget holds back is reported and left alone.
//!
//! The requests are made elsewhere. This module says which pods are evicted, and
//! keeps count.
use crate::lists::views;
use crate::text::{cat2, cat3, or_empty, same, text_or_nothing, texts};
use vstd::prelude::*;

verus! {

/// What a node is changed by so that nothing new is scheduled onto it.
pub const CORDON_PATCH: &'static str = "{\"spec\":{\"unschedulable\":true}}";

/// The annotation of a pod that the kubelet runs by itself.
pub const MIRROR_ANNOTATION: &'static str = "kubernetes.io/config.mirror";

/// A pod, as far as draining looks at it.
#[derive(Clone, Debug)]
pub struct DrainPod {
    pub name: String,
    pub namespace: Option<String>,
    /// The kinds of its owners.
    pub owner_kinds: Vec<String>,
    /// The names of its annotations.
    pub annotations: Vec<String>,
    pub phase: Option<String>,
    /// It is being deleted.
    pub deleting: bool,
}

/// A pod that could not be evicted, and why.
#[derive(Clone, Debug)]
pub struct DrainFailure {
    pub pod: String,
    pub message: String,
    /// Its disruption budget held it back.
    pub blocked_by_pdb: bool,
}

/// What is reported of a pod that could not be evicted.
#[verifier::ext_equal]
pub struct FailureView {
    pub pod: Seq<char>,
    pub message: Seq<char>,
    pub blocked_by_pdb: bool,
}

impl View for DrainFailure {
    type V = FailureView;

    open spec fn view(&self) -> FailureView {
        FailureView {
            pod: self.pod@,
            message: self.message@,
            blocked_by_pdb: self.blocked_by_pdb,
        }
    }
}

/// How far draining a node has come.
#[derive(Clone, Debug)]
pub struct DrainProgress {
    pub node: String,
    pub evicted: usize,
    /// How many pods are to be evicted.
    pub total: usize,
    pub failures: Vec<DrainFailure>,
    /// Every pod was tried.
    pub done: bool,
}

// ---------------------------------------------------------------------------
// Which pods
// ---------------------------------------------------------------------------

/// The selector of the pods that a node runs.
pub fn pods_on_node(node: &str) -> (r: String)
    ensures
        r@ == "spec.nodeName="@ + node@,
{
    cat2("spec.nodeName=", node)
}

fn has_text(v: &Vec<String>, t: &str) -> (r: bool)
    ensures
        r == texts(v@).contains(t@),
{
    let ghost all = texts(v@);
    let mut i: usize = 0;
    while i < v.len()
        invariant
            i <= v@.len(),
            all == texts(v@),
            forall|k: int| 0 <= k < i ==> #[trigger] all[k] != t@,
        decreases v@.len() - i,
    {
        assert(all[i as int] == v@[i as int]@);
        if same(v[i].as_str(), t) {
            return true;
        }
        i += 1;
    }
    false
}

/// A DaemonSet owns the pod, and would put it straight back on the node.
pub open spec fn of_daemonset(pod: DrainPod) -> bool {
    texts(pod.owner_kinds@).contains("DaemonSet"@)
}

/// The kubelet runs the pod by itself; it cannot be evicted.
pub open spec fn is_mirror(pod: DrainPod) -> bool {
    texts(pod.annotations@).contains(MIRROR_ANNOTATION@)
}

/// The pod has ended; there is nothing to disrupt.
pub open spec fn has_ended(pod: DrainPod) -> bool {
    match pod.phase {
        Some(p) => p@ == "Succeeded"@ || p@ == "Failed"@,
        None => false,
    }
}

/// The pod is evicted when its node is drained.
pub open spec fn to_be_evicted(pod: DrainPod) -> bool {
    !of_daemonset(pod) && !is_mirror(pod) && !has_ended(pod) && !pod.deleting
}

/// Whether a DaemonSet owns the pod.
pub fn is_daemonset_pod(pod: &DrainPod) -> (r: bool)
    ensures
        r == of_daemonset(*pod),
{
    has_text(&pod.owner_kinds, "DaemonSet")
}

/// Whether the kubelet runs the pod by itself.
pub fn is_mirror_pod(pod: &DrainPod) -> (r: bool)
    ensures
        r == is_mirror(*pod),
{
    has_text(&pod.annotations, MIRROR_ANNOTATION)
}

/// Whether the pod has ended.
pub fn is_finished(pod: &DrainPod) -> (r: bool)
    ensures
        r == has_ended(*pod),
{
    match &pod.phase {
        Some(p) => same(p.as_str(), "Succeeded") || same(p.as_str(), "Failed"),
        None => false,
    }
}

/// Whether the pod is being deleted already.
pub fn is_terminating(pod: &DrainPod) -> (r: bool)
    ensures
        r == pod.deleting,
{
    pod.deleting
}

/// Whether the pod is evicted when its node is drained.
pub fn is_evictable(pod: &DrainPod) -> (r: bool)
    ensures
        r == to_be_evicted(*pod),
{
    !is_daemonset_pod(pod) && !is_mirror_pod(pod) && !is_finished(pod) && !is_terminating(pod)
}

/// The pods of a node that are evicted, in their order.
pub open spec fn targets_of(pods: Seq<DrainPod>) -> Seq<DrainPod> {
    pods.filter(|p: DrainPod| to_be_evicted(p))
}

/// Starts to drain a node: how far it has come, and the pods to evict.
pub fn start_drain(node: &str, pods: Vec<DrainPod>) -> (r: (DrainProgress, Vec<DrainPod>))
    ensures
        r.1@ == targets_of(pods@),
        r.0.node@ == node@,
        r.0.evicted == 0,
        r.0.total == r.1@.len(),
        r.0.failures@.len() == 0,
        !r.0.done,
{
    let ghost all = pods@;
    let ghost keep = |p: DrainPod| to_be_evicted(p);
    let mut targets: Vec<DrainPod> = Vec::new();
    proof {
        reveal(Seq::filter);
        assert(all.take(0).filter(keep) =~= Seq::<DrainPod>::empty());
    }
    for pod in it: pods
        invariant
            it.seq() == all,
            keep == (|p: DrainPod| to_be_evicted(p)),
            targets@ == all.take(it.index()).filter(keep),
    {
        proof {
            reveal(Seq::filter);
            assert(all.take(it.index() + 1).drop_last() =~= all.take(it.index()));
        }
        if is_evictable(&pod) {
            targets.push(pod);
        }
    }
    assert(all.take(all.len() as int) =~= all);
    let total = targets.len();
    (
        DrainProgress {
            node: node.to_owned(),
            evicted: 0,
            total,
            failures: Vec::new(),
            done: false,
        },
        targets,
    )
}

/// What is reported where the pods of a node cannot be listed.
pub fn could_not_list(node: &str, error: &str) -> (r: DrainProgress)
    ensures
        r.node@ == node@,
        r.evicted == 0,
        r.total == 0,
        views(r.failures@) == seq![
            FailureView {
                pod: Seq::empty(),
                message: "could not list pods: "@ + error@,
                blocked_by_pdb: false,
            },
        ],
        r.done,
{
    let mut failures: Vec<DrainFailure> = Vec::new();
    failures.push(
        DrainFailure {
            pod: String::new(),
            message: cat2("could not list pods: ", error),
            blocked_by_pdb: false,
        },
    );
    assert(views(failures@) =~= seq![
        FailureView {
            pod: Seq::empty(),
            message: "could not list pods: "@ + error@,
            blocked_by_pdb: false,
        },
    ]);
    DrainProgress { node: node.to_owned(), evicted: 0, total: 0, failures, done: true }
}

// ---------------------------------------------------------------------------
// Eviction
// ---------------------------------------------------------------------------

/// Whether a disruption budget held a pod back, by the code that the API answered
/// with. Other errors have no code, or another one.
pub fn is_pdb_block(code: Option<u16>) -> (r: bool)
    ensures
        r == (code == Some(429u16)),
{
    match code {
        Some(c) => c == 429,
        None => false,
    }
}

/// What came of evicting a pod.
pub enum Eviction {
    Done,
    /// The code that the API answered with, if it did, and the text of the error.
    Refused(Option<u16>, String),
}

/// What is reported of a pod that was not evicted.
pub open spec fn failure_of(pod: DrainPod, code: Option<u16>, error: Seq<char>) -> FailureView {
    FailureView {
        pod: text_or_nothing(pod.namespace) + "/"@ + pod.name@,
        message: if code == Some(429u16) {
            "blocked by a PodDisruptionBudget: "@ + error
        } else {
            error
        },
        blocked_by_pdb: code == Some(429u16),
    }
}

/// Counts what came of evicting a pod.
pub fn record_eviction(p: &mut DrainProgress, pod: &DrainPod, outcome: Eviction)
    requires
        old(p).evicted + old(p).failures@.len() < old(p).total,
    ensures
        match outcome {
            Eviction::Done => {
                &&& final(p).evicted == old(p).evicted + 1
                &&& final(p).failures == old(p).failures
            },
            Eviction::Refused(code, error) => {
                &&& final(p).evicted == old(p).evicted
                &&& views(final(p).failures@) == views(old(p).failures@).push(
                    failure_of(*pod, code, error@),
                )
            },
        },
        final(p).evicted + final(p).failures@.len() == old(p).evicted + old(p).failures@.len() + 1,
        final(p).node == old(p).node,
        final(p).total == old(p).total,
        final(p).done == old(p).done,
{
    match outcome {
        Eviction::Done => {
            p.evicted = p.evicted + 1;
        },
        Eviction::Refused(code, error) => {
            let blocked = is_pdb_block(code);
            let ns = or_empty(&pod.namespace);
            let f = DrainFailure {
                pod: cat3(ns.as_str(), "/", pod.name.as_str()),
                message: if blocked {
                    cat2("blocked by a PodDisruptionBudget: ", error.as_str())
                } else {
                    error
                },
                blocked_by_pdb: blocked,
            };
            let ghost before = views(p.failures@);
            let ghost added = f@;
            p.failures.push(f);
            assert(views(p.failures@) =~= before.push(added));
        },
    }
}

/// Ends draining a node: every pod was tried.
pub fn finish_drain(p: &mut DrainProgress)
    ensures
        *final(p) == (DrainProgress { done: true, ..*old(p) }),
{
    p.done = true;
}

// ---------------------------------------------------------------------------
// Laws
// ---------------------------------------------------------------------------

/// Exactly the pods that are to be evicted are tried: each of them, and no other.
pub proof fn law_targets_are_the_evictable_pods(pods: Seq<DrainPod>, p: DrainPod)
    ensures
        targets_of(pods).contains(p) <==> pods.contains(p) && to_be_evicted(p),
{
    let keep = |q: DrainPod| to_be_evicted(q);
    assert(targets_of(pods) == pods.filter(keep));
    if targets_of(pods).contains(p) {
        let i = choose|i: int| 0 <= i < targets_of(pods).len() && targets_of(pods)[i] == p;
        pods.lemma_filter_pred(keep, i);
        pods.lemma_filter_contains_rev(keep, p);
    }
    if pods.contains(p) && to_be_evicted(p) {
        let i = choose|i: int| 0 <= i < pods.len() && pods[i] == p;
        pods.lemma_filter_contains(keep, i);
    }
}

/// A pod is evicted unless a DaemonSet owns it, the kubelet runs it by itself, it has
/// ended, or it is being deleted already.
pub proof fn law_who_is_evicted(pod: DrainPod, r: bool)
    requires
        call_ensures(is_evictable, (&pod,), r),
    ensures
        r <==> {
            &&& forall|i: int|
                0 <= i < pod.owner_kinds@.len() ==> (#[trigger] pod.owner_kinds@[i])@
                    != "DaemonSet"@
            &&& forall|i: int|
                0 <= i < pod.annotations@.len() ==> (#[trigger] pod.annotations@[i])@
                    != "kubernetes.io/config.mirror"@
            &&& pod.phase matches Some(p) ==> p@ != "Succeeded"@ && p@ != "Failed"@
            &&& !pod.deleting
        },
{
    lemma_texts_hold(pod.owner_kinds@, "DaemonSet"@);
    lemma_texts_hold(pod.annotations@, "kubernetes.io/config.mirror"@);
}

proof fn lemma_texts_hold(v: Seq<String>, t: Seq<char>)
    ensures
        texts(v).contains(t) <==> exists|i: int| 0 <= i < v.len() && (#[trigger] v[i])@ == t,
{
    if texts(v).contains(t) {
        let i = choose|i: int| 0 <= i < texts(v).len() && texts(v)[i] == t;
        assert(v[i]@ == t);
    }
    if exists|i: int| 0 <= i < v.len() && (#[trigger] v[i])@ == t {
        let i = choose|i: int| 0 <= i < v.len() && (#[trigger] v[i])@ == t;
        assert(texts(v)[i] == t);
    }
}

/// To drain a node is to evict every pod on it that is not spared, in their order, and no
/// other; nothing is counted as done before it is tried.
pub proof fn law_drain_tries_every_pod_not_spared(
    node: &str,
    pods: Vec<DrainPod>,
    r: (DrainProgress, Vec<DrainPod>),
)
    requires
        call_ensures(start_drain, (node, pods), r),
    ensures
        r.1@ == pods@.filter(
            |pod: DrainPod|
                {
                    &&& forall|i: int|
                        0 <= i < pod.owner_kinds@.len() ==> (#[trigger] pod.owner_kinds@[i])@
                            != "DaemonSet"@
                    &&& forall|i: int|
                        0 <= i < pod.annotations@.len() ==> (#[trigger] pod.annotations@[i])@
                            != "kubernetes.io/config.mirror"@
                    &&& pod.phase matches Some(p) ==> p@ != "Succeeded"@ && p@ != "Failed"@
                    &&& !pod.deleting
                },
        ),
        r.0.total == r.1@.len(),
        r.0.evicted == 0,
        r.0.failures@.len() == 0,
        !r.0.done,
{
    let f = |p: DrainPod| to_be_evicted(p);
    let g = |pod: DrainPod|
        {
            &&& forall|i: int|
                0 <= i < pod.owner_kinds@.len() ==> (#[trigger] pod.owner_kinds@[i])@
                    != "DaemonSet"@
            &&& forall|i: int|
                0 <= i < pod.annotations@.len() ==> (#[trigger] pod.annotations@[i])@
                    != "kubernetes.io/config.mirror"@
            &&& pod.phase matches Some(p) ==> p@ != "Succeeded"@ && p@ != "Failed"@
            &&& !pod.deleting
        };
    assert forall|p: DrainPod| #[trigger] f(p) == g(p) by {
        lemma_texts_hold(p.owner_kinds@, "DaemonSet"@);
        lemma_texts_hold(p.annotations@, "kubernetes.io/config.mirror"@);
    }
    assert(f =~= g);
}

/// A pod that its disruption budget holds back is reported as such, and any other error
/// as it is, each under the namespace and name of the pod.
pub proof fn law_failures_say_what_held_a_pod_back(
    pod: DrainPod,
    code: Option<u16>,
    error: Seq<char>,
)
    ensures
        failure_of(pod, code, error).blocked_by_pdb <==> code == Some(429u16),
        code == Some(429u16) ==> failure_of(pod, code, error).message
            == "blocked by a PodDisruptionBudget: "@ + error,
        code != Some(429u16) ==> failure_of(pod, code, error).message == error,
        pod.namespace matches Some(n) ==> failure_of(pod, code, error).pod == n@ + "/"@ + pod.name@,
{
}

/// Each reason to spare a pod is told by itself: a DaemonSet that owns it, the annotation of
/// the kubelet, a phase that has ended, and that it is going already.
pub proof fn law_reasons_to_spare_a_pod(
    pod: DrainPod,
    daemon: bool,
    mirror: bool,
    finished: bool,
    terminating: bool,
)
    requires
        call_ensures(is_daemonset_pod, (&pod,), daemon),
        call_ensures(is_mirror_pod, (&pod,), mirror),
        call_ensures(is_finished, (&pod,), finished),
        call_ensures(is_terminating, (&pod,), terminating),
    ensures
        daemon <==> exists|i: int|
            0 <= i < pod.owner_kinds@.len() && (#[trigger] pod.owner_kinds@[i])@ == "DaemonSet"@,
        mirror <==> exists|i: int|
            0 <= i < pod.annotations@.len() && (#[trigger] pod.annotations@[i])@
                == "kubernetes.io/config.mirror"@,
        finished <==> (pod.phase matches Some(p) && (p@ == "Succeeded"@ || p@ == "Failed"@)),
        terminating == pod.deleting,
{
    lemma_texts_hold(pod.owner_kinds@, "DaemonSet"@);
    lemma_texts_hold(pod.annotations@, "kubernetes.io/config.mirror"@);
}

/// The pods of a node are asked for by its name; where they cannot be listed the drain is over,
/// with nothing evicted and the reason told. Only a refusal for too many requests is taken for
/// a budget's.
pub proof fn law_drain_that_cannot_list_is_over(
    node: &str,
    error: &str,
    code: Option<u16>,
    fields: String,
    r: DrainProgress,
    blocked: bool,
)
    requires
        call_ensures(pods_on_node, (node,), fields),
        call_ensures(could_not_list, (node, error), r),
        call_ensures(is_pdb_block, (code,), blocked),
    ensures
        fields@ == "spec.nodeName="@ + node@,
        r.done && r.evicted == 0 && r.total == 0 && r.node@ == node@,
        r.failures@.len() == 1,
        r.failures@[0].message@ == "could not list pods: "@ + error@,
        !r.failures@[0].blocked_by_pdb,
        blocked <==> code == Some(429u16),
{
    let v = views(r.failures@);
    assert(v.len() == r.failures@.len());
    assert(v[0] == r.failures@[0]@);
}

} // verus!
