//! Rows of pods: NAME, NAMESPACE, READY, RESTARTS, CPU, MEM, AGE, STATUS.
use crate::dto::{age, plain, status, Cell, CellView, PodMeta, PodResources, Row, Tone, DASH};
use crate::lists::{views, TextMap};
use crate::mappers::{age_cell, name_cell, namespace_text, ns_cell, uid_of, ObjectMeta};
use crate::numbers::{
    lemma_wrapped_again, lemma_wrapped_i32_again, wrapped, wrapped_i32, wrapping_sum,
    wrapping_sum_i32,
};
use crate::text::{
    cat3, copy_opt, dec, dec_i64, dec_int, dec_u64, no_texts, opt_text, or_empty, push_text, same,
    text_or_nothing, texts,
};
use vstd::prelude::*;

verus! {

/// A container of a pod: its name, and what it requests and may use.
#[derive(Clone, Debug)]
pub struct Container {
    pub name: String,
    pub cpu_request_millis: Option<i64>,
    pub cpu_limit_millis: Option<i64>,
    pub mem_request_bytes: Option<i64>,
    pub mem_limit_bytes: Option<i64>,
}

/// How a container is.
#[derive(Clone, Debug)]
pub struct ContainerStatus {
    pub ready: bool,
    pub restart_count: i32,
    /// Why it waits, if it does.
    pub waiting_reason: Option<String>,
    /// Why it ended, if it did.
    pub terminated_reason: Option<String>,
}

/// What a pod is to be.
#[derive(Clone, Debug)]
pub struct PodSpec {
    pub node_name: Option<String>,
    pub containers: Vec<Container>,
}

/// How a pod is.
#[derive(Clone, Debug)]
pub struct PodStatus {
    pub phase: Option<String>,
    pub reason: Option<String>,
    pub container_statuses: Vec<ContainerStatus>,
}

/// A pod, as far as its row shows it.
#[derive(Debug)]
pub struct Pod {
    pub meta: ObjectMeta,
    pub labels: Option<TextMap>,
    pub spec: Option<PodSpec>,
    pub status: Option<PodStatus>,
}

// ---------------------------------------------------------------------------
// Status
// ---------------------------------------------------------------------------

/// A reason that is given: there, and not empty.
pub open spec fn given(o: Option<String>) -> Option<Seq<char>> {
    match o {
        Some(s) => if s@.len() > 0 {
            Some(s@)
        } else {
            None
        },
        None => None,
    }
}

/// What is wrong with a container, if anything: why it waits, or why it ended other
/// than by completing.
pub open spec fn container_problem(c: ContainerStatus) -> Option<Seq<char>> {
    match given(c.waiting_reason) {
        Some(r) => Some(r),
        None => match given(c.terminated_reason) {
            Some(r) => if r != "Completed"@ {
                Some(r)
            } else {
                None
            },
            None => None,
        },
    }
}

/// What is wrong with the first container that something is wrong with, from `from`
/// on.
pub open spec fn problem_from(s: Seq<ContainerStatus>, from: int) -> Option<Seq<char>>
    decreases s.len() - from,
{
    if from < 0 || from >= s.len() {
        None
    } else {
        match container_problem(s[from]) {
            Some(r) => Some(r),
            None => problem_from(s, from + 1),
        }
    }
}

/// The word for how a pod is.
pub open spec fn status_word(pod: Pod) -> Seq<char> {
    match pod.status {
        None => "Unknown"@,
        Some(st) => match given(st.reason) {
            Some(r) => r,
            None => match problem_from(st.container_statuses@, 0) {
                Some(r) => r,
                None => match st.phase {
                    Some(p) => p@,
                    None => "Unknown"@,
                },
            },
        },
    }
}

fn given_text(o: &Option<String>) -> (r: Option<String>)
    ensures
        opt_text(r) == given(*o),
{
    match o {
        Some(s) => {
            if s.as_str().is_empty() {
                None
            } else {
                Some(s.clone())
            }
        },
        None => None,
    }
}

fn problem_of(c: &ContainerStatus) -> (r: Option<String>)
    ensures
        opt_text(r) == container_problem(*c),
{
    if let Some(w) = given_text(&c.waiting_reason) {
        return Some(w);
    }
    match given_text(&c.terminated_reason) {
        Some(t) => {
            if same(t.as_str(), "Completed") {
                None
            } else {
                Some(t)
            }
        },
        None => None,
    }
}

/// The word for how a pod is: the reason of the pod itself first, then what is
/// wrong with a container, then its phase.
pub fn pod_status(pod: &Pod) -> (r: String)
    ensures
        r@ == status_word(*pod),
{
    let st = match &pod.status {
        Some(st) => st,
        None => {
            return "Unknown".to_owned();
        },
    };
    if let Some(r) = given_text(&st.reason) {
        return r;
    }
    let v = &st.container_statuses;
    let mut i: usize = 0;
    while i < v.len()
        invariant
            i <= v@.len(),
            pod.status == Some(*st),
            *v == st.container_statuses,
            given(st.reason) is None,
            problem_from(v@, 0) == problem_from(v@, i as int),
        decreases v@.len() - i,
    {
        if let Some(r) = problem_of(&v[i]) {
            return r;
        }
        i += 1;
    }
    match &st.phase {
        Some(p) => p.clone(),
        None => "Unknown".to_owned(),
    }
}

/// How a pod's containers are.
pub open spec fn statuses_of(pod: Pod) -> Seq<ContainerStatus> {
    match pod.status {
        Some(st) => st.container_statuses@,
        None => Seq::empty(),
    }
}

/// The containers of a pod.
pub open spec fn containers_of(pod: Pod) -> Seq<Container> {
    match pod.spec {
        Some(s) => s.containers@,
        None => Seq::empty(),
    }
}

/// How many containers are ready.
pub open spec fn ready_count(s: Seq<ContainerStatus>) -> nat
    decreases s.len(),
{
    if s.len() == 0 {
        0
    } else {
        ready_count(s.drop_last()) + (if s.last().ready {
            1nat
        } else {
            0
        })
    }
}

/// How many of a pod's containers are ready, and of how many.
pub open spec fn ready_text(pod: Pod) -> Seq<char> {
    dec(ready_count(statuses_of(pod))) + "/"@ + dec(containers_of(pod).len())
}

/// Not all containers of a pod are ready, or it has none.
pub open spec fn is_degraded(pod: Pod) -> bool {
    ready_count(statuses_of(pod)) != containers_of(pod).len() || containers_of(pod).len() == 0
}

/// How many of a pod's containers are ready and of how many, and whether that is
/// not all of them.
pub fn pod_ready(pod: &Pod) -> (r: (String, bool))
    ensures
        r.0@ == ready_text(*pod),
        r.1 == is_degraded(*pod),
{
    let total: usize = match &pod.spec {
        Some(s) => s.containers.len(),
        None => 0,
    };
    let mut ready: usize = 0;
    if let Some(st) = &pod.status {
        let v = &st.container_statuses;
        let mut i: usize = 0;
        while i < v.len()
            invariant
                i <= v@.len(),
                ready <= i,
                ready == ready_count(v@.take(i as int)),
            decreases v@.len() - i,
        {
            assert(v@.take(i + 1).drop_last() =~= v@.take(i as int));
            if v[i].ready {
                ready += 1;
            }
            i += 1;
        }
        assert(v@.take(i as int) =~= v@);
    }
    let a = dec_u64(ready as u64);
    let b = dec_u64(total as u64);
    (cat3(a.as_str(), "/", b.as_str()), ready != total || total == 0)
}

/// How often containers were restarted.
pub open spec fn restart_sum(s: Seq<ContainerStatus>) -> int
    decreases s.len(),
{
    if s.len() == 0 {
        0
    } else {
        restart_sum(s.drop_last()) + s.last().restart_count
    }
}

/// How often a pod's containers were restarted.
pub open spec fn restarts_of(pod: Pod) -> int {
    wrapped_i32(restart_sum(statuses_of(pod)))
}

/// How often a pod's containers were restarted, all together.
pub fn pod_restarts(pod: &Pod) -> (r: i32)
    ensures
        r == restarts_of(*pod),
{
    let mut sum: i32 = 0;
    if let Some(st) = &pod.status {
        let v = &st.container_statuses;
        let mut i: usize = 0;
        while i < v.len()
            invariant
                i <= v@.len(),
                sum == wrapped_i32(restart_sum(v@.take(i as int))),
            decreases v@.len() - i,
        {
            proof {
                assert(v@.take(i + 1).drop_last() =~= v@.take(i as int));
                lemma_wrapped_i32_again(
                    restart_sum(v@.take(i as int)),
                    v@[i as int].restart_count as int,
                );
            }
            sum = wrapping_sum_i32(sum, v[i].restart_count);
            i += 1;
        }
        assert(v@.take(i as int) =~= v@);
    }
    sum
}

// ---------------------------------------------------------------------------
// Resources
// ---------------------------------------------------------------------------

/// The sum of the numbers that are there.
pub open spec fn given_sum(s: Seq<Option<i64>>) -> int
    decreases s.len(),
{
    if s.len() == 0 {
        0
    } else {
        given_sum(s.drop_last()) + (match s.last() {
            Some(n) => n as int,
            None => 0,
        })
    }
}

/// One number for all: their sum, once any is there.
pub open spec fn total_if_any(s: Seq<Option<i64>>) -> Option<i64> {
    if exists|i: int| 0 <= i < s.len() && #[trigger] s[i] is Some {
        Some(wrapped(given_sum(s)) as i64)
    } else {
        None
    }
}

/// One number for all: their sum, where each is there.
pub open spec fn total_if_all(s: Seq<Option<i64>>) -> Option<i64> {
    if s.len() > 0 && forall|i: int| 0 <= i < s.len() ==> #[trigger] s[i] is Some {
        Some(wrapped(given_sum(s)) as i64)
    } else {
        None
    }
}

/// What the containers request of the processor.
pub open spec fn cpu_requests(s: Seq<Container>) -> Seq<Option<i64>> {
    Seq::new(s.len(), |i: int| s[i].cpu_request_millis)
}

/// What the containers may use of the processor.
pub open spec fn cpu_limits(s: Seq<Container>) -> Seq<Option<i64>> {
    Seq::new(s.len(), |i: int| s[i].cpu_limit_millis)
}

/// What the containers request of the memory.
pub open spec fn mem_requests(s: Seq<Container>) -> Seq<Option<i64>> {
    Seq::new(s.len(), |i: int| s[i].mem_request_bytes)
}

/// What the containers may use of the memory.
pub open spec fn mem_limits(s: Seq<Container>) -> Seq<Option<i64>> {
    Seq::new(s.len(), |i: int| s[i].mem_limit_bytes)
}

/// What a pod requests and may use. A limit of the pod is one only where every
/// container has one.
pub open spec fn resources_of(pod: Pod) -> PodResources {
    let s = containers_of(pod);
    PodResources {
        cpu_request_millis: total_if_any(cpu_requests(s)),
        cpu_limit_millis: total_if_all(cpu_limits(s)),
        mem_request_bytes: total_if_any(mem_requests(s)),
        mem_limit_bytes: total_if_all(mem_limits(s)),
    }
}

/// A sum of numbers, some of which may be missing.
struct Total {
    sum: i64,
    any: bool,
    all: bool,
}

impl Total {
    spec fn is_of(self, s: Seq<Option<i64>>) -> bool {
        &&& self.sum == wrapped(given_sum(s))
        &&& self.any <==> exists|i: int| 0 <= i < s.len() && #[trigger] s[i] is Some
        &&& self.all <==> forall|i: int| 0 <= i < s.len() ==> #[trigger] s[i] is Some
    }

    fn new() -> (r: Total)
        ensures
            r.is_of(Seq::empty()),
    {
        Total { sum: 0, any: false, all: true }
    }

    fn add_one(&mut self, n: Option<i64>, Ghost(s): Ghost<Seq<Option<i64>>>)
        requires
            old(self).is_of(s),
        ensures
            final(self).is_of(s.push(n)),
    {
        let ghost t = s.push(n);
        assert(t.drop_last() =~= s);
        match n {
            Some(k) => {
                proof {
                    lemma_wrapped_again(given_sum(s), k as int);
                }
                self.sum = wrapping_sum(self.sum, k);
                self.any = true;
                assert(t[s.len() as int] is Some);
                proof {
                    if self.all {
                        assert forall|i: int| 0 <= i < t.len() implies #[trigger] t[i] is Some by {
                            if i < s.len() {
                                assert(s[i] is Some);
                            }
                        }
                    } else {
                        let i = choose|i: int| 0 <= i < s.len() && !(#[trigger] s[i] is Some);
                        assert(!(t[i] is Some));
                    }
                }
            },
            None => {
                self.all = false;
                assert(!(t[s.len() as int] is Some));
                proof {
                    if self.any {
                        let i = choose|i: int| 0 <= i < s.len() && #[trigger] s[i] is Some;
                        assert(t[i] is Some);
                    } else {
                        assert forall|i: int| 0 <= i < t.len() implies !(#[trigger] t[i] is Some) by {
                            if i < s.len() {
                                assert(!(s[i] is Some));
                            }
                        }
                    }
                }
            },
        }
    }
}

/// What a pod requests and may use: the sums over its containers. A request of the
/// pod is there once any container has one; a limit only where every container has
/// one, since one without is a pod without.
pub fn pod_resources(pod: &Pod) -> (r: PodResources)
    ensures
        r == resources_of(*pod),
{
    let none = PodResources {
        cpu_request_millis: None,
        cpu_limit_millis: None,
        mem_request_bytes: None,
        mem_limit_bytes: None,
    };
    let v = match &pod.spec {
        Some(s) => &s.containers,
        None => {
            return none;
        },
    };
    if v.len() == 0 {
        return none;
    }
    let ghost all = v@;
    let mut cpu_req = Total::new();
    let mut cpu_lim = Total::new();
    let mut mem_req = Total::new();
    let mut mem_lim = Total::new();
    let mut i: usize = 0;
    proof {
        assert(cpu_requests(all.take(0)) =~= Seq::empty());
        assert(cpu_limits(all.take(0)) =~= Seq::empty());
        assert(mem_requests(all.take(0)) =~= Seq::empty());
        assert(mem_limits(all.take(0)) =~= Seq::empty());
    }
    while i < v.len()
        invariant
            i <= v@.len(),
            all == v@,
            cpu_req.is_of(cpu_requests(all.take(i as int))),
            cpu_lim.is_of(cpu_limits(all.take(i as int))),
            mem_req.is_of(mem_requests(all.take(i as int))),
            mem_lim.is_of(mem_limits(all.take(i as int))),
        decreases v@.len() - i,
    {
        let c = &v[i];
        proof {
            let a = all.take(i as int);
            let b = all.take(i + 1);
            assert(cpu_requests(b) =~= cpu_requests(a).push(c.cpu_request_millis));
            assert(cpu_limits(b) =~= cpu_limits(a).push(c.cpu_limit_millis));
            assert(mem_requests(b) =~= mem_requests(a).push(c.mem_request_bytes));
            assert(mem_limits(b) =~= mem_limits(a).push(c.mem_limit_bytes));
        }
        cpu_req.add_one(c.cpu_request_millis, Ghost(cpu_requests(all.take(i as int))));
        cpu_lim.add_one(c.cpu_limit_millis, Ghost(cpu_limits(all.take(i as int))));
        mem_req.add_one(c.mem_request_bytes, Ghost(mem_requests(all.take(i as int))));
        mem_lim.add_one(c.mem_limit_bytes, Ghost(mem_limits(all.take(i as int))));
        i += 1;
    }
    assert(all.take(i as int) =~= all);
    PodResources {
        cpu_request_millis: if cpu_req.any {
            Some(cpu_req.sum)
        } else {
            None
        },
        cpu_limit_millis: if cpu_lim.all {
            Some(cpu_lim.sum)
        } else {
            None
        },
        mem_request_bytes: if mem_req.any {
            Some(mem_req.sum)
        } else {
            None
        },
        mem_limit_bytes: if mem_lim.all {
            Some(mem_lim.sum)
        } else {
            None
        },
    }
}

// ---------------------------------------------------------------------------
// Rows
// ---------------------------------------------------------------------------

/// The names of containers.
pub open spec fn container_names(s: Seq<Container>) -> Seq<Seq<char>> {
    Seq::new(s.len(), |i: int| s[i].name@)
}

/// The node of a pod; a dash where it has none.
pub open spec fn node_text(pod: Pod) -> Seq<char> {
    match pod.spec {
        Some(s) => match s.node_name {
            Some(n) => n@,
            None => DASH@,
        },
        None => DASH@,
    }
}

/// The cells of a pod. `tone` is that of its status.
pub open spec fn pod_cells(pod: Pod, tone: Tone) -> Seq<CellView> {
    seq![
        plain(pod.meta.name@, Tone::Primary),
        plain(namespace_text(pod.meta), Tone::Muted),
        plain(
            ready_text(pod),
            if is_degraded(pod) {
                Tone::Warn
            } else {
                Tone::Secondary
            },
        ),
        plain(
            dec_int(restarts_of(pod)),
            if restarts_of(pod) > 5 {
                Tone::Bad
            } else {
                Tone::Secondary
            },
        ),
        plain(DASH@, Tone::Secondary),
        plain(DASH@, Tone::Secondary),
        age(opt_text(pod.meta.created)),
        status(status_word(pod), tone),
    ]
}

fn names_of(pod: &Pod) -> (r: Vec<String>)
    ensures
        texts(r@) == container_names(containers_of(*pod)),
{
    let mut out = no_texts();
    if let Some(s) = &pod.spec {
        let v = &s.containers;
        let mut i: usize = 0;
        assert(texts(out@) =~= container_names(v@).take(0));
        while i < v.len()
            invariant
                i <= v@.len(),
                texts(out@) == container_names(v@).take(i as int),
            decreases v@.len() - i,
        {
            push_text(&mut out, v[i].name.as_str());
            i += 1;
            assert(texts(out@) =~= container_names(v@).take(i as int));
        }
        assert(container_names(v@).take(i as int) =~= container_names(v@));
    }
    assert(texts(out@) =~= container_names(containers_of(*pod)));
    out
}

/// The row of a pod. `tone` is that of its status, which [`pod_status`] gives. The
/// usage of processor and memory is filled in from elsewhere.
pub fn map_pod(pod: Pod, tone: Tone) -> (r: Row)
    ensures
        r.uid@ == text_or_nothing(pod.meta.uid),
        r.name@ == pod.meta.name@,
        opt_text(r.namespace) == opt_text(pod.meta.namespace),
        views(r.cells@) == pod_cells(pod, tone),
        r.labels == pod.labels,
        r.involved is None,
        r.pod matches Some(m) && {
            &&& m.node@ == node_text(pod)
            &&& texts(m.containers@) == container_names(containers_of(pod))
            &&& m.status@ == status_word(pod)
            &&& m.ready@ == ready_text(pod)
            &&& m.restarts == restarts_of(pod)
            &&& m.creation_ts@ == text_or_nothing(pod.meta.created)
            &&& m.status_tone == tone
            &&& m.resources == resources_of(pod)
        },
{
    let word = pod_status(&pod);
    let (ready, degraded) = pod_ready(&pod);
    let restarts = pod_restarts(&pod);
    let containers = names_of(&pod);
    let node = match &pod.spec {
        Some(s) => match &s.node_name {
            Some(n) => n.clone(),
            None => DASH.to_owned(),
        },
        None => DASH.to_owned(),
    };
    let resources = pod_resources(&pod);
    let restart_text = dec_i64(restarts as i64);
    let mut cells: Vec<Cell> = Vec::new();
    cells.push(name_cell(&pod.meta));
    cells.push(ns_cell(&pod.meta));
    cells.push(
        Cell::new(
            ready.as_str(),
            if degraded {
                Tone::Warn
            } else {
                Tone::Secondary
            },
        ),
    );
    cells.push(
        Cell::new(
            restart_text.as_str(),
            if restarts > 5 {
                Tone::Bad
            } else {
                Tone::Secondary
            },
        ),
    );
    cells.push(Cell::new(DASH, Tone::Secondary));
    cells.push(Cell::new(DASH, Tone::Secondary));
    cells.push(age_cell(&pod.meta));
    cells.push(Cell::status(word.as_str(), tone));
    assert(views(cells@) =~= pod_cells(pod, tone));
    let uid = uid_of(&pod.meta);
    let creation_ts = or_empty(&pod.meta.created);
    let namespace = copy_opt(&pod.meta.namespace);
    Row {
        uid,
        name: pod.meta.name,
        namespace,
        cells,
        pod: Some(
            PodMeta {
                node,
                containers,
                status: word,
                ready,
                restarts,
                creation_ts,
                status_tone: tone,
                resources,
            },
        ),
        labels: pod.labels,
        involved: None,
    }
}

// ---------------------------------------------------------------------------
// Laws
// ---------------------------------------------------------------------------

/// A pod has no limit as soon as one of its containers has none, whatever the
/// others have.
pub proof fn law_one_without_limit_is_a_pod_without(pod: Pod, i: int)
    requires
        0 <= i < containers_of(pod).len(),
    ensures
        containers_of(pod)[i].cpu_limit_millis is None ==> resources_of(pod).cpu_limit_millis is None,
        containers_of(pod)[i].mem_limit_bytes is None ==> resources_of(pod).mem_limit_bytes is None,
{
    let s = containers_of(pod);
    assert(cpu_limits(s)[i] == s[i].cpu_limit_millis);
    assert(mem_limits(s)[i] == s[i].mem_limit_bytes);
}

/// What is wrong with a container shows before the phase of the pod, unless the pod
/// itself gives a reason.
pub proof fn law_problem_shows_before_phase(pod: Pod, i: int)
    requires
        pod.status is Some,
        given(pod.status->0.reason) is None,
        0 <= i < statuses_of(pod).len(),
        container_problem(statuses_of(pod)[i]) is Some,
    ensures
        exists|k: int|
            0 <= k <= i && container_problem(#[trigger] statuses_of(pod)[k]) == Some(
                status_word(pod),
            ),
{
    lemma_problem_from(statuses_of(pod), 0, i);
}

proof fn lemma_problem_from(s: Seq<ContainerStatus>, from: int, i: int)
    requires
        0 <= from <= i < s.len(),
        container_problem(s[i]) is Some,
    ensures
        problem_from(s, from) is Some,
        exists|k: int|
            from <= k <= i && container_problem(#[trigger] s[k]) == problem_from(s, from),
    decreases i - from,
{
    if container_problem(s[from]) is None {
        lemma_problem_from(s, from + 1, i);
        let k = choose|k: int|
            from + 1 <= k <= i && container_problem(#[trigger] s[k]) == problem_from(s, from + 1);
        assert(container_problem(s[k]) == problem_from(s, from));
    } else {
        assert(container_problem(s[from]) == problem_from(s, from));
    }
}

/// A pod that gives a reason itself shows it, and one without a status is unknown.
pub proof fn law_reason_of_the_pod_shows_first(pod: Pod, r: String)
    requires
        call_ensures(pod_status, (&pod,), r),
    ensures
        pod.status is None ==> r@ == "Unknown"@,
        pod.status matches Some(st) ==> (st.reason matches Some(t) ==> (t@.len() > 0 ==> r@ == t@)),
{
}

proof fn lemma_no_problem_before(s: Seq<ContainerStatus>, i: int)
    requires
        0 <= i <= s.len(),
        forall|k: int| 0 <= k < i ==> container_problem(#[trigger] s[k]) is None,
    ensures
        problem_from(s, 0) == problem_from(s, i),
    decreases i,
{
    if i > 0 {
        lemma_no_problem_before(s, i - 1);
        assert(container_problem(s[i - 1]) is None);
    }
}

/// Where the pod gives no reason itself, the first container with something wrong is what
/// shows: why it waits, or else why it ended, unless it completed. Before it stand only
/// containers that do not wait for a reason and did not end for one but completing.
pub proof fn law_first_container_in_trouble_shows(pod: Pod, r: String, i: int)
    requires
        call_ensures(pod_status, (&pod,), r),
        pod.status is Some,
        pod.status->0.reason matches Some(t) ==> t@.len() == 0,
        0 <= i < pod.status->0.container_statuses@.len(),
        forall|k: int|
            #![trigger pod.status->0.container_statuses@[k]]
            0 <= k < i ==> {
                let c = pod.status->0.container_statuses@[k];
                &&& c.waiting_reason matches Some(t) ==> t@.len() == 0
                &&& c.terminated_reason matches Some(t) ==> t@.len() == 0 || t@ == "Completed"@
            },
    ensures
        pod.status->0.container_statuses@[i].waiting_reason matches Some(t) ==> (t@.len() > 0
            ==> r@ == t@),
        (pod.status->0.container_statuses@[i].waiting_reason matches Some(t) ==> t@.len() == 0) ==> (
        pod.status->0.container_statuses@[i].terminated_reason matches Some(t) ==> (t@.len() > 0
            && t@ != "Completed"@ ==> r@ == t@)),
{
    let s = pod.status->0.container_statuses@;
    assert forall|k: int| 0 <= k < i implies container_problem(#[trigger] s[k]) is None by {
        assert(pod.status->0.container_statuses@[k] == s[k]);
    }
    lemma_no_problem_before(s, i);
}

/// A pod with nothing wrong shows its phase: it gives no reason, no container waits for
/// one, and none ended for one but completing.
pub proof fn law_sound_pod_shows_its_phase(pod: Pod, r: String)
    requires
        call_ensures(pod_status, (&pod,), r),
        pod.status is Some,
        pod.status->0.reason matches Some(t) ==> t@.len() == 0,
        forall|k: int|
            #![trigger pod.status->0.container_statuses@[k]]
            0 <= k < pod.status->0.container_statuses@.len() ==> {
                let c = pod.status->0.container_statuses@[k];
                &&& c.waiting_reason matches Some(t) ==> t@.len() == 0
                &&& c.terminated_reason matches Some(t) ==> t@.len() == 0 || t@ == "Completed"@
            },
    ensures
        r@ == (match pod.status->0.phase {
            Some(p) => p@,
            None => "Unknown"@,
        }),
{
    let s = pod.status->0.container_statuses@;
    assert forall|k: int| 0 <= k < s.len() implies container_problem(#[trigger] s[k]) is None by {
        assert(pod.status->0.container_statuses@[k] == s[k]);
    }
    lemma_no_problem_before(s, s.len() as int);
}

proof fn lemma_ready_count(s: Seq<ContainerStatus>)
    ensures
        ready_count(s) == s.filter(|c: ContainerStatus| c.ready).len(),
    decreases s.len(),
{
    reveal(Seq::filter);
    if s.len() > 0 {
        lemma_ready_count(s.drop_last());
    }
}

/// The ready count is the number of containers that say they are ready, of those that the
/// pod is to have. It is short of them where the two differ, or where there are none.
pub proof fn law_ready_counts_the_ready(pod: Pod, r: (String, bool))
    requires
        call_ensures(pod_ready, (&pod,), r),
    ensures
        ({
            let ready: nat = match pod.status {
                Some(st) => st.container_statuses@.filter(|c: ContainerStatus| c.ready).len(),
                None => 0,
            };
            let wanted: nat = match pod.spec {
                Some(s) => s.containers@.len(),
                None => 0,
            };
            &&& r.0@ == dec(ready) + "/"@ + dec(wanted)
            &&& r.1 <==> ready != wanted || wanted == 0
        }),
{
    lemma_ready_count(statuses_of(pod));
}

/// The restarts of a pod are those of its containers together, as far as they can be
/// counted.
pub proof fn law_restarts_add_up(pod: Pod, r: i32)
    requires
        call_ensures(pod_restarts, (&pod,), r),
    ensures
        pod.status is None ==> r == 0,
        pod.status matches Some(st) ==> {
            let sum = st.container_statuses@.fold_left(
                0int,
                |n: int, c: ContainerStatus| n + c.restart_count,
            );
            i32::MIN <= sum <= i32::MAX ==> r == sum
        },
{
    if let Some(st) = pod.status {
        lemma_restart_sum(st.container_statuses@);
    }
}

proof fn lemma_restart_sum(s: Seq<ContainerStatus>)
    ensures
        restart_sum(s) == s.fold_left(0int, |n: int, c: ContainerStatus| n + c.restart_count),
    decreases s.len(),
{
    if s.len() > 0 {
        lemma_restart_sum(s.drop_last());
    }
}

/// The sum of what containers say, of those that say something.
spec fn sum_of_said(s: Seq<Container>, f: spec_fn(Container) -> Option<i64>) -> int {
    s.fold_left(
        0int,
        |n: int, c: Container|
            n + match f(c) {
                Some(k) => k as int,
                None => 0,
            },
    )
}

proof fn lemma_given_sum(s: Seq<Container>, f: spec_fn(Container) -> Option<i64>)
    ensures
        given_sum(Seq::new(s.len(), |i: int| f(s[i]))) == sum_of_said(s, f),
    decreases s.len(),
{
    if s.len() > 0 {
        let front = s.drop_last();
        let all = Seq::new(s.len(), |i: int| f(s[i]));
        lemma_given_sum(front, f);
        assert(all.drop_last() =~= Seq::new(front.len(), |i: int| f(front[i])));
    }
}

/// A pod requests what its containers request together, once any of them requests
/// something, and may use what they may use together, where each of them is limited.
/// Sums out of range are left aside.
pub proof fn law_resources_add_up(pod: Pod, spec: PodSpec, r: PodResources)
    requires
        call_ensures(pod_resources, (&pod,), r),
        pod.spec == Some(spec),
    ensures
        ({
            let s = spec.containers@;
            let cpu = s.fold_left(
                0int,
                |n: int, c: Container|
                    n + match c.cpu_request_millis {
                        Some(k) => k as int,
                        None => 0,
                    },
            );
            let mem = s.fold_left(
                0int,
                |n: int, c: Container|
                    n + match c.mem_request_bytes {
                        Some(k) => k as int,
                        None => 0,
                    },
            );
            let cpu_limit = s.fold_left(
                0int,
                |n: int, c: Container|
                    n + match c.cpu_limit_millis {
                        Some(k) => k as int,
                        None => 0,
                    },
            );
            let mem_limit = s.fold_left(
                0int,
                |n: int, c: Container|
                    n + match c.mem_limit_bytes {
                        Some(k) => k as int,
                        None => 0,
                    },
            );
            &&& r.cpu_request_millis is Some <==> exists|i: int|
                0 <= i < s.len() && (#[trigger] s[i]).cpu_request_millis is Some
            &&& r.mem_request_bytes is Some <==> exists|i: int|
                0 <= i < s.len() && (#[trigger] s[i]).mem_request_bytes is Some
            &&& r.cpu_limit_millis is Some <==> s.len() > 0 && forall|i: int|
                0 <= i < s.len() ==> (#[trigger] s[i]).cpu_limit_millis is Some
            &&& r.mem_limit_bytes is Some <==> s.len() > 0 && forall|i: int|
                0 <= i < s.len() ==> (#[trigger] s[i]).mem_limit_bytes is Some
            &&& r.cpu_request_millis matches Some(n) ==> i64::MIN <= cpu <= i64::MAX ==> n == cpu
            &&& r.mem_request_bytes matches Some(n) ==> i64::MIN <= mem <= i64::MAX ==> n == mem
            &&& r.cpu_limit_millis matches Some(n) ==> i64::MIN <= cpu_limit <= i64::MAX ==> n
                == cpu_limit
            &&& r.mem_limit_bytes matches Some(n) ==> i64::MIN <= mem_limit <= i64::MAX ==> n
                == mem_limit
        }),
{
    let s = spec.containers@;
    let a = |c: Container| c.cpu_request_millis;
    let b = |c: Container| c.mem_request_bytes;
    let c = |c: Container| c.cpu_limit_millis;
    let d = |c: Container| c.mem_limit_bytes;
    lemma_given_sum(s, a);
    lemma_given_sum(s, b);
    lemma_given_sum(s, c);
    lemma_given_sum(s, d);
    assert(cpu_requests(s) =~= Seq::new(s.len(), |i: int| a(s[i])));
    assert(mem_requests(s) =~= Seq::new(s.len(), |i: int| b(s[i])));
    assert(cpu_limits(s) =~= Seq::new(s.len(), |i: int| c(s[i])));
    assert(mem_limits(s) =~= Seq::new(s.len(), |i: int| d(s[i])));
    assert forall|i: int| 0 <= i < s.len() implies cpu_requests(s)[i] == (
    #[trigger] s[i]).cpu_request_millis && mem_requests(s)[i] == s[i].mem_request_bytes
        && cpu_limits(s)[i] == s[i].cpu_limit_millis && mem_limits(s)[i] == s[i].mem_limit_bytes by {}
    let fa = |n: int, x: Container|
        n + match x.cpu_request_millis {
            Some(k) => k as int,
            None => 0,
        };
    let ga = |n: int, x: Container|
        n + match a(x) {
            Some(k) => k as int,
            None => 0,
        };
    assert(fa =~= ga);
    let fb = |n: int, x: Container|
        n + match x.mem_request_bytes {
            Some(k) => k as int,
            None => 0,
        };
    let gb = |n: int, x: Container|
        n + match b(x) {
            Some(k) => k as int,
            None => 0,
        };
    assert(fb =~= gb);
    let fc = |n: int, x: Container|
        n + match x.cpu_limit_millis {
            Some(k) => k as int,
            None => 0,
        };
    let gc = |n: int, x: Container|
        n + match c(x) {
            Some(k) => k as int,
            None => 0,
        };
    assert(fc =~= gc);
    let fd = |n: int, x: Container|
        n + match x.mem_limit_bytes {
            Some(k) => k as int,
            None => 0,
        };
    let gd = |n: int, x: Container|
        n + match d(x) {
            Some(k) => k as int,
            None => 0,
        };
    assert(fd =~= gd);
}

/// The row of a pod shows what the pod is, each thing in its column: its name and
/// namespace, how many containers are ready, how often they were restarted, how old it is,
/// and how it is.
pub proof fn law_pod_row_shows_the_pod(
    pod: Pod,
    tone: Tone,
    row: Row,
    word: String,
    ready: (String, bool),
    restarts: i32,
)
    requires
        call_ensures(map_pod, (pod, tone), row),
        call_ensures(pod_status, (&pod,), word),
        call_ensures(pod_ready, (&pod,), ready),
        call_ensures(pod_restarts, (&pod,), restarts),
    ensures
        row.cells@.len() == 8,
        row.cells@[0].text@ == pod.meta.name@,
        pod.meta.namespace matches Some(n) ==> row.cells@[1].text@ == n@,
        row.cells@[2].text@ == ready.0@,
        row.cells@[2].tone == (if ready.1 {
            Tone::Warn
        } else {
            Tone::Secondary
        }),
        row.cells@[3].text@ == dec_int(restarts as int),
        row.cells@[3].tone == (if restarts > 5 {
            Tone::Bad
        } else {
            Tone::Secondary
        }),
        pod.meta.created matches Some(t) ==> row.cells@[6].text@ == t@,
        row.cells@[6].format matches Some(f) && f@ == "age"@,
        row.cells@[7].text@ == word@,
        row.cells@[7].tone == tone,
        row.pod matches Some(m) && {
            &&& m.status@ == word@
            &&& m.ready@ == ready.0@
            &&& m.restarts == restarts
            &&& m.status_tone == tone
            &&& pod.spec matches Some(s) ==> {
                &&& m.containers@.len() == s.containers@.len()
                &&& forall|i: int|
                    0 <= i < s.containers@.len() ==> (#[trigger] m.containers@[i])@
                        == s.containers@[i].name@
                &&& s.node_name matches Some(n) ==> m.node@ == n@
            }
        },
{
    let v = views(row.cells@);
    assert(v.len() == row.cells@.len());
    assert(v[0] == row.cells@[0]@);
    assert(v[1] == row.cells@[1]@);
    assert(v[2] == row.cells@[2]@);
    assert(v[3] == row.cells@[3]@);
    assert(v[6] == row.cells@[6]@);
    assert(v[7] == row.cells@[7]@);
    if let Some(s) = pod.spec {
        let names = row.pod->0.containers@;
        assert(texts(names).len() == names.len());
        assert forall|i: int| 0 <= i < s.containers@.len() implies (#[trigger] names[i])@
            == s.containers@[i].name@ by {
            assert(texts(names)[i] == names[i]@);
            assert(container_names(s.containers@)[i] == s.containers@[i].name@);
        }
    }
}

} // verus!
