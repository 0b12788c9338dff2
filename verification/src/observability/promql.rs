//! History from a Prometheus in the cluster: which Service that is, what it is
//! asked, and how its series become samples.
pub use crate::encoding::urlencode;
use crate::lists::TextMap;
use crate::observability::exporter::{virtual_iface_prefixes, virtual_ifaces, NodeSample};
use crate::observability::metrics::PodSample;
use crate::text::{
    cat2, cat3, cat4, cat5, dec_i64, dec_int, has_part, has_prefix, join, joined,
    lemma_sorts_irreflexive, lemma_sorts_total, lemma_sorts_transitive, less, no_texts,
    occurs_at, or_empty, push_text, same, sorts_before, starts_with, text_or_nothing, texts,
};
use vstd::prelude::*;

verus! {

// ---------------------------------------------------------------------------
// The Service
// ---------------------------------------------------------------------------

/// A Prometheus that can be asked, through the API server's service proxy.
#[derive(Clone, Debug)]
pub struct PromService {
    pub namespace: String,
    pub name: String,
    pub port: i32,
}

/// What a [`PromService`] says.
pub struct PromView {
    pub namespace: Seq<char>,
    pub name: Seq<char>,
    pub port: i32,
}

impl View for PromService {
    type V = PromView;

    open spec fn view(&self) -> PromView {
        PromView { namespace: self.namespace@, name: self.name@, port: self.port }
    }
}

impl PromService {
    /// The path of an endpoint of the Prometheus, through the service proxy.
    pub fn path(&self, endpoint: &str, query: &str) -> (r: String)
        ensures
            r@ == "/api/v1/namespaces/"@ + self.namespace@ + "/services/"@ + self.name@ + ":"@
                + dec_int(self.port as int) + "/proxy/api/v1/"@ + endpoint@ + "?"@ + query@,
    {
        let port = dec_i64(self.port as i64);
        let service = cat4(
            "/api/v1/namespaces/",
            self.namespace.as_str(),
            "/services/",
            self.name.as_str(),
        );
        let proxy = cat4(service.as_str(), ":", port.as_str(), "/proxy/api/v1/");
        cat4(proxy.as_str(), endpoint, "?", query)
    }
}

/// A port of a Service.
#[derive(Clone, Debug)]
pub struct ServicePort {
    pub port: i32,
    pub name: Option<String>,
}

/// A Service, as far as it tells whether it is a Prometheus.
#[derive(Clone, Debug)]
pub struct Service {
    pub name: String,
    pub namespace: Option<String>,
    pub labels: TextMap,
    pub ports: Option<Vec<ServicePort>>,
}

/// Whether a label says that a Service is a Prometheus.
pub open spec fn is_labelled(labels: Map<Seq<char>, Seq<char>>) -> bool {
    ||| labels.contains_key("app"@) && labels["app"@] == "prometheus"@
    ||| labels.contains_key("app.kubernetes.io/name"@) && labels["app.kubernetes.io/name"@]
        == "prometheus"@
}

/// How well a Service looks like a Prometheus by its name and labels: an exact
/// name beats a prefix, which beats a label.
pub open spec fn name_score(name: Seq<char>, labels: Map<Seq<char>, Seq<char>>) -> Option<i32> {
    if name == "prometheus"@ {
        Some(3)
    } else if has_prefix(name, "prometheus"@) {
        Some(2)
    } else if is_labelled(labels) {
        Some(1)
    } else {
        None
    }
}

/// Whether a port is the well-known one of a Prometheus.
pub open spec fn is_known_port(p: ServicePort) -> bool {
    p.port == 9090
}

/// Whether a port is named like that of a web server.
pub open spec fn is_web_port(p: ServicePort) -> bool {
    p.name matches Some(n) && (n@ == "web"@ || n@ == "http"@ || n@ == "http-web"@)
}

/// `i` is the first of `ports` with the property `p`.
pub open spec fn is_first(ports: Seq<ServicePort>, p: spec_fn(ServicePort) -> bool, i: int) -> bool {
    &&& 0 <= i < ports.len()
    &&& p(ports[i])
    &&& forall|j: int| 0 <= j < i ==> !p(#[trigger] ports[j])
}

/// None of `ports` has the property `p`.
pub open spec fn has_none(ports: Seq<ServicePort>, p: spec_fn(ServicePort) -> bool) -> bool {
    forall|j: int| 0 <= j < ports.len() ==> !p(#[trigger] ports[j])
}

/// `i` is the port that a Prometheus is asked at: the well-known one, or else one
/// named like that of a web server, or else the first.
pub open spec fn is_asked_port(ports: Seq<ServicePort>, i: int) -> bool {
    let known = |p: ServicePort| is_known_port(p);
    let web = |p: ServicePort| is_web_port(p);
    ||| is_first(ports, known, i)
    ||| has_none(ports, known) && is_first(ports, web, i)
    ||| has_none(ports, known) && has_none(ports, web) && ports.len() > 0 && i == 0
}

fn asked_port(ports: &Vec<ServicePort>) -> (r: Option<usize>)
    ensures
        match r {
            Some(i) => is_asked_port(ports@, i as int),
            None => ports@.len() == 0,
        },
{
    let ghost known = |p: ServicePort| is_known_port(p);
    let ghost web = |p: ServicePort| is_web_port(p);
    let mut i: usize = 0;
    while i < ports.len()
        invariant
            i <= ports@.len(),
            known == (|p: ServicePort| is_known_port(p)),
            forall|j: int| 0 <= j < i ==> !known(#[trigger] ports@[j]),
        decreases ports@.len() - i,
    {
        if ports[i].port == 9090 {
            assert(is_first(ports@, known, i as int));
            return Some(i);
        }
        i += 1;
    }
    assert(has_none(ports@, known));
    i = 0;
    while i < ports.len()
        invariant
            i <= ports@.len(),
            known == (|p: ServicePort| is_known_port(p)),
            web == (|p: ServicePort| is_web_port(p)),
            has_none(ports@, known),
            forall|j: int| 0 <= j < i ==> !web(#[trigger] ports@[j]),
        decreases ports@.len() - i,
    {
        if let Some(n) = &ports[i].name {
            if same(n.as_str(), "web") || same(n.as_str(), "http") || same(n.as_str(), "http-web") {
                assert(is_first(ports@, web, i as int));
                return Some(i);
            }
        }
        i += 1;
    }
    assert(has_none(ports@, web));
    if ports.len() > 0 {
        Some(0)
    } else {
        None
    }
}

/// What a Service is worth that is asked at `port`: the name counts before the
/// port.
pub open spec fn total_score(name_score: i32, port: i32) -> int {
    name_score * 2 + (if port == 9090 {
        1int
    } else {
        0int
    })
}

/// `found` is how well `s` looks like a Prometheus, and how it is asked.
pub open spec fn is_score(s: Service, found: Option<(int, PromView)>) -> bool {
    match (name_score(s.name@, s.labels@), s.ports) {
        (Some(n), Some(ports)) => if ports@.len() == 0 {
            found is None
        } else {
            &&& found matches Some((score, p))
            &&& p.namespace == text_or_nothing(s.namespace)
            &&& p.name == s.name@
            &&& exists|i: int|
                #[trigger] is_asked_port(ports@, i) && p.port == ports@[i].port && score
                    == total_score(n, ports@[i].port)
        },
        _ => found is None,
    }
}

/// What a score says.
pub open spec fn score_view(o: Option<(i32, PromService)>) -> Option<(int, PromView)> {
    match o {
        Some((n, p)) => Some((n as int, p@)),
        None => None,
    }
}

fn labelled(labels: &TextMap, key: &str) -> (r: bool)
    ensures
        r == (labels@.contains_key(key@) && labels@[key@] == "prometheus"@),
{
    match labels.get(key) {
        Some(v) => same(v.as_str(), "prometheus"),
        None => false,
    }
}

/// How well a Service looks like a Prometheus, and how it is asked; nothing where
/// it does not look like one.
pub fn score(s: &Service) -> (r: Option<(i32, PromService)>)
    ensures
        is_score(*s, score_view(r)),
{
    let n: i32 = if same(s.name.as_str(), "prometheus") {
        3
    } else if starts_with(s.name.as_str(), "prometheus") {
        2
    } else if labelled(&s.labels, "app") || labelled(&s.labels, "app.kubernetes.io/name") {
        1
    } else {
        return None;
    };
    assert(name_score(s.name@, s.labels@) == Some(n));
    let ports = match &s.ports {
        Some(p) => p,
        None => {
            return None;
        },
    };
    match asked_port(ports) {
        Some(i) => {
            let port = ports[i].port;
            let extra: i32 = if port == 9090 {
                1
            } else {
                0
            };
            Some(
                (
                    n * 2 + extra,
                    PromService {
                        namespace: or_empty(&s.namespace),
                        name: s.name.clone(),
                        port,
                    },
                ),
            )
        },
        None => None,
    }
}

/// Whether `a` is preferred to `b`: by the higher score, then by the namespace
/// that sorts first, then by the name that does.
pub open spec fn beats(a: (int, PromView), b: (int, PromView)) -> bool {
    ||| a.0 > b.0
    ||| a.0 == b.0 && sorts_before(a.1.namespace, b.1.namespace)
    ||| a.0 == b.0 && a.1.namespace == b.1.namespace && sorts_before(a.1.name, b.1.name)
}

proof fn lemma_beats(a: (int, PromView), b: (int, PromView), c: (int, PromView))
    ensures
        beats(a, b) ==> !beats(b, a),
        beats(a, b) && !beats(c, b) ==> beats(a, c),
{
    let (an, bn, cn) = (a.1.namespace, b.1.namespace, c.1.namespace);
    let (am, bm, cm) = (a.1.name, b.1.name, c.1.name);
    lemma_sorts_irreflexive(an);
    lemma_sorts_irreflexive(bn);
    lemma_sorts_irreflexive(am);
    lemma_sorts_total(an, bn);
    lemma_sorts_total(bn, cn);
    lemma_sorts_total(an, cn);
    lemma_sorts_total(bm, cm);
    lemma_sorts_total(am, cm);
    if sorts_before(an, bn) && sorts_before(bn, an) {
        lemma_sorts_transitive(an, bn, an);
    }
    if sorts_before(am, bm) && sorts_before(bm, am) {
        lemma_sorts_transitive(am, bm, am);
    }
    if sorts_before(an, bn) && sorts_before(bn, cn) {
        lemma_sorts_transitive(an, bn, cn);
    }
    if sorts_before(am, bm) && sorts_before(bm, cm) {
        lemma_sorts_transitive(am, bm, cm);
    }
}

/// `i` is the preferred one of `scores`: none beats it, and it beats every one
/// before it.
pub open spec fn is_pick(scores: Seq<Option<(int, PromView)>>, i: int) -> bool {
    &&& 0 <= i < scores.len()
    &&& scores[i] is Some
    &&& forall|j: int|
        0 <= j < scores.len() && (#[trigger] scores[j]) is Some ==> !beats(
            scores[j]->0,
            scores[i]->0,
        )
    &&& forall|j: int|
        0 <= j < i && (#[trigger] scores[j]) is Some ==> beats(scores[i]->0, scores[j]->0)
}

/// What an optional [`PromService`] says.
pub open spec fn prom_view(o: Option<PromService>) -> Option<PromView> {
    match o {
        Some(p) => Some(p@),
        None => None,
    }
}

/// `p` is the Prometheus among `services` that `scores` prefer.
pub open spec fn is_discovered(
    services: Seq<Service>,
    scores: Seq<Option<(int, PromView)>>,
    p: Option<PromView>,
) -> bool {
    &&& scores.len() == services.len()
    &&& forall|i: int| 0 <= i < services.len() ==> is_score(services[i], #[trigger] scores[i])
    &&& match p {
        Some(v) => exists|i: int| #[trigger] is_pick(scores, i) && (scores[i]->0).1 == v,
        None => forall|i: int| 0 <= i < scores.len() ==> (#[trigger] scores[i]) is None,
    }
}

/// The Prometheus of a cluster: the Service that looks most like one. Ties go by
/// namespace and name, so that the choice does not depend on the listing.
pub fn discover(services: &Vec<Service>) -> (r: Option<PromService>)
    ensures
        exists|scores: Seq<Option<(int, PromView)>>|
            #[trigger] is_discovered(services@, scores, prom_view(r)),
{
    let mut best: Option<(i32, PromService)> = None;
    let ghost mut scores: Seq<Option<(int, PromView)>> = Seq::empty();
    let ghost mut at: int = 0;
    let mut i: usize = 0;
    while i < services.len()
        invariant
            i <= services@.len(),
            scores.len() == i,
            forall|k: int| 0 <= k < i ==> is_score(services@[k], #[trigger] scores[k]),
            match best {
                Some(b) => is_pick(scores, at) && scores[at] == score_view(best),
                None => forall|k: int| 0 <= k < i ==> (#[trigger] scores[k]) is None,
            },
        decreases services@.len() - i,
    {
        let found = score(&services[i]);
        let ghost before = scores;
        let ghost was = score_view(best);
        proof {
            scores = scores.push(score_view(found));
            assert forall|k: int| 0 <= k < i implies #[trigger] scores[k] == before[k] by {}
        }
        if let Some((n, p)) = found {
            let better = match &best {
                None => true,
                Some((m, b)) => {
                    if n > *m {
                        true
                    } else if n < *m {
                        false
                    } else if less(p.namespace.as_str(), b.namespace.as_str()) {
                        true
                    } else {
                        same(p.namespace.as_str(), b.namespace.as_str()) && less(
                            p.name.as_str(),
                            b.name.as_str(),
                        )
                    }
                },
            };
            let ghost new = (n as int, p@);
            if better {
                proof {
                    lemma_beats(new, new, new);
                    assert forall|j: int|
                        0 <= j < scores.len() && (#[trigger] scores[j]) is Some implies !beats(
                        scores[j]->0,
                        new,
                    ) && (j < i ==> beats(new, scores[j]->0)) by {
                        if j < i {
                            assert(before[j] is Some);
                            lemma_beats(new, was->0, before[j]->0);
                            lemma_beats(new, before[j]->0, new);
                        }
                    }
                    at = i as int;
                }
                best = Some((n, p));
            } else {
                proof {
                    assert(!beats(new, was->0));
                }
            }
        }
        i += 1;
    }
    match best {
        Some((_, p)) => {
            assert(is_discovered(services@, scores, Some(p@)));
            Some(p)
        },
        None => {
            assert(is_discovered(services@, scores, None));
            None
        },
    }
}

// ---------------------------------------------------------------------------
// Queries
// ---------------------------------------------------------------------------

/// Each of `prefixes` as a pattern of the names that begin with it.
pub open spec fn prefix_patterns(prefixes: Seq<Seq<char>>) -> Seq<Seq<char>> {
    Seq::new(prefixes.len(), |i: int| prefixes[i] + ".*"@)
}

/// The pattern of the interfaces that do not count: the ones that a scrape does
/// not count.
pub open spec fn virtual_pattern() -> Seq<char> {
    joined(prefix_patterns(virtual_ifaces()), "|"@)
}

/// The pattern of the interfaces that do not count.
pub fn virtual_ifaces_pattern() -> (r: String)
    ensures
        r@ == virtual_pattern(),
{
    let prefixes = virtual_iface_prefixes();
    let mut patterns = no_texts();
    let mut i: usize = 0;
    while i < prefixes.len()
        invariant
            i <= prefixes@.len(),
            texts(prefixes@) == virtual_ifaces(),
            texts(patterns@) == prefix_patterns(virtual_ifaces()).take(i as int),
        decreases prefixes@.len() - i,
    {
        let p = cat2(prefixes[i].as_str(), ".*");
        assert(virtual_ifaces()[i as int] == prefixes@[i as int]@);
        push_text(&mut patterns, p.as_str());
        assert(texts(patterns@) =~= prefix_patterns(virtual_ifaces()).take(i + 1));
        i += 1;
    }
    assert(prefix_patterns(virtual_ifaces()).take(i as int) =~= prefix_patterns(virtual_ifaces()));
    join(&patterns, "|")
}

/// A named query: what its series becomes, and its PromQL.
pub open spec fn is_query(q: (&'static str, String), name: Seq<char>, promql: Seq<char>) -> bool {
    q.0@ == name && q.1@ == promql
}

/// The label that a node's series carry.
pub open spec fn node_label(node: Seq<char>) -> Seq<char> {
    "node=\""@ + node + "\""@
}

pub open spec fn net_query(metric: Seq<char>, node: Seq<char>) -> Seq<char> {
    "sum(rate("@ + metric + "{"@ + node_label(node) + ",device!~\""@ + virtual_pattern()
        + "\"}[2m]))"@
}

/// The query of each series of a node's charts, by the name of the series.
pub open spec fn node_query(node: Seq<char>, i: int) -> (Seq<char>, Seq<char>) {
    let n = node_label(node);
    if i == 0 {
        (
            "cpu"@,
            "100 - (avg(rate(node_cpu_seconds_total{mode=\"idle\","@ + n + "}[2m])) * 100)"@,
        )
    } else if i == 1 {
        (
            "mem_used"@,
            "node_memory_MemTotal_bytes{"@ + n + "} - node_memory_MemAvailable_bytes{"@ + n + "}"@,
        )
    } else if i == 2 {
        ("mem_total"@, "node_memory_MemTotal_bytes{"@ + n + "}"@)
    } else if i == 3 {
        ("rx"@, net_query("node_network_receive_bytes_total"@, node))
    } else if i == 4 {
        ("tx"@, net_query("node_network_transmit_bytes_total"@, node))
    } else if i == 5 {
        ("load1"@, "node_load1{"@ + n + "}"@)
    } else if i == 6 {
        ("load5"@, "node_load5{"@ + n + "}"@)
    } else {
        ("load15"@, "node_load15{"@ + n + "}"@)
    }
}

fn net_promql(metric: &str, node: &str) -> (r: String)
    ensures
        r@ == net_query(metric@, node@),
{
    let n = cat3("node=\"", node, "\"");
    let pattern = virtual_ifaces_pattern();
    let head = cat5("sum(rate(", metric, "{", n.as_str(), ",device!~\"");
    cat3(head.as_str(), pattern.as_str(), "\"}[2m]))")
}

/// The queries behind the charts of a node.
pub fn node_queries(node: &str) -> (r: Vec<(&'static str, String)>)
    ensures
        r@.len() == 8,
        forall|i: int|
            0 <= i < 8 ==> is_query(
                #[trigger] r@[i],
                node_query(node@, i).0,
                node_query(node@, i).1,
            ),
{
    let n = cat3("node=\"", node, "\"");
    let n = n.as_str();
    let mut v: Vec<(&'static str, String)> = Vec::new();
    v.push(
        (
            "cpu",
            cat3(
                "100 - (avg(rate(node_cpu_seconds_total{mode=\"idle\",",
                n,
                "}[2m])) * 100)",
            ),
        ),
    );
    v.push(
        (
            "mem_used",
            cat5(
                "node_memory_MemTotal_bytes{",
                n,
                "} - node_memory_MemAvailable_bytes{",
                n,
                "}",
            ),
        ),
    );
    v.push(("mem_total", cat3("node_memory_MemTotal_bytes{", n, "}")));
    v.push(("rx", net_promql("node_network_receive_bytes_total", node)));
    v.push(("tx", net_promql("node_network_transmit_bytes_total", node)));
    v.push(("load1", cat3("node_load1{", n, "}")));
    v.push(("load5", cat3("node_load5{", n, "}")));
    v.push(("load15", cat3("node_load15{", n, "}")));
    v
}

/// The labels that a pod's series carry.
pub open spec fn pod_selector(namespace: Seq<char>, pod: Seq<char>) -> Seq<char> {
    "pod=\""@ + pod + "\",namespace=\""@ + namespace + "\""@
}

/// The queries behind the charts of a pod.
pub fn pod_queries(namespace: &str, pod: &str) -> (r: Vec<(&'static str, String)>)
    ensures
        r@.len() == 2,
        is_query(
            r@[0],
            "cpu_millis"@,
            "sum(rate(container_cpu_usage_seconds_total{"@ + pod_selector(namespace@, pod@)
                + "}[5m])) * 1000"@,
        ),
        is_query(
            r@[1],
            "mem_bytes"@,
            "sum(container_memory_working_set_bytes{"@ + pod_selector(namespace@, pod@) + "})"@,
        ),
{
    let sel = cat5("pod=\"", pod, "\",namespace=\"", namespace, "\"");
    let mut v: Vec<(&'static str, String)> = Vec::new();
    v.push(
        (
            "cpu_millis",
            cat3(
                "sum(rate(container_cpu_usage_seconds_total{",
                sel.as_str(),
                "}[5m])) * 1000",
            ),
        ),
    );
    v.push(("mem_bytes", cat3("sum(container_memory_working_set_bytes{", sel.as_str(), "})")));
    v
}

/// How far apart the samples of a pod's history are, in seconds.
pub const POD_STEP_SECS: i64 = 30;

/// When a history starts that reaches back `window` seconds from `now`; nothing
/// where that time cannot be told.
pub fn history_start(now: i64, window: i64) -> (r: Option<i64>)
    ensures
        match r {
            Some(s) => s == now - window,
            None => !(i64::MIN <= now - window <= i64::MAX),
        },
{
    now.checked_sub(window)
}

// ---------------------------------------------------------------------------
// Samples
// ---------------------------------------------------------------------------

/// The value that a series has at `ts`; the last one where it has several.
pub open spec fn value_at<V>(points: Seq<(i64, V)>, ts: i64) -> Option<V>
    decreases points.len(),
{
    if points.len() == 0 {
        None
    } else if points.last().0 == ts {
        Some(points.last().1)
    } else {
        value_at(points.drop_last(), ts)
    }
}

/// The value that the series called `name` have at `ts`; the last one where
/// several have one.
pub open spec fn value_in<V>(
    series: Seq<(&'static str, Vec<(i64, V)>)>,
    name: Seq<char>,
    ts: i64,
) -> Option<V>
    decreases series.len(),
{
    if series.len() == 0 {
        None
    } else if series.last().0@ == name && value_at(series.last().1@, ts) is Some {
        value_at(series.last().1@, ts)
    } else {
        value_in(series.drop_last(), name, ts)
    }
}

/// The value that the series called `name` have at `ts`, or `zero`.
pub open spec fn value_or<V>(
    series: Seq<(&'static str, Vec<(i64, V)>)>,
    name: Seq<char>,
    ts: i64,
    zero: V,
) -> V {
    match value_in(series, name, ts) {
        Some(v) => v,
        None => zero,
    }
}

/// Whether some series has a value at `ts`.
pub open spec fn has_point<V>(series: Seq<(&'static str, Vec<(i64, V)>)>, ts: i64) -> bool {
    exists|i: int, k: int|
        0 <= i < series.len() && 0 <= k < series[i].1@.len() && (#[trigger] series[i].1@[k]).0 == ts
}

/// `times` are the times at which some series has a value: each once, in order.
pub open spec fn are_times<V>(times: Seq<i64>, series: Seq<(&'static str, Vec<(i64, V)>)>) -> bool {
    &&& forall|a: int, b: int| 0 <= a < b < times.len() ==> times[a] < times[b]
    &&& forall|ts: i64| #[trigger] times.contains(ts) <==> has_point(series, ts)
}

/// Whether some of the first `n` points of a series is at `ts`.
pub open spec fn has_time<V>(points: Seq<(i64, V)>, n: int, ts: i64) -> bool {
    exists|k: int| 0 <= k < n && k < points.len() && (#[trigger] points[k]).0 == ts
}

/// Puts `ts` in its place among `times`, where it is not there yet.
fn put_time(times: &mut Vec<i64>, ts: i64)
    requires
        forall|a: int, b: int| 0 <= a < b < old(times)@.len() ==> old(times)@[a] < old(times)@[b],
    ensures
        forall|a: int, b: int|
            0 <= a < b < final(times)@.len() ==> final(times)@[a] < final(times)@[b],
        forall|t: i64| #[trigger]
            final(times)@.contains(t) <==> (old(times)@.contains(t) || t == ts),
{
    let ghost before = times@;
    let mut i: usize = 0;
    while i < times.len() && times[i] < ts
        invariant
            i <= times@.len(),
            times@ == before,
            forall|a: int| 0 <= a < i ==> times@[a] < ts,
        decreases times@.len() - i,
    {
        i += 1;
    }
    if i < times.len() && times[i] == ts {
        proof {
            assert(before[i as int] == ts);
            assert(before.contains(ts));
        }
        return ;
    }
    times.insert(i, ts);
    proof {
        let after = times@;
        assert(after =~= before.insert(i as int, ts));
        assert forall|t: i64| #[trigger] after.contains(t) <==> (before.contains(t) || t == ts) by {
            if after.contains(t) {
                let k = choose|k: int| 0 <= k < after.len() && after[k] == t;
                if k < i {
                    assert(before[k] == t);
                } else if k > i {
                    assert(before[k - 1] == t);
                }
            }
            if before.contains(t) {
                let k = choose|k: int| 0 <= k < before.len() && before[k] == t;
                if k < i {
                    assert(after[k] == t);
                } else {
                    assert(after[k + 1] == t);
                }
            }
            if t == ts {
                assert(after[i as int] == ts);
            }
        }
    }
}

fn times_of<V>(series: &Vec<(&'static str, Vec<(i64, V)>)>) -> (r: Vec<i64>)
    ensures
        are_times(r@, series@),
{
    let mut times: Vec<i64> = Vec::new();
    let mut i: usize = 0;
    while i < series.len()
        invariant
            i <= series@.len(),
            forall|a: int, b: int| 0 <= a < b < times@.len() ==> times@[a] < times@[b],
            forall|ts: i64| #[trigger]
                times@.contains(ts) <==> exists|s: int, k: int|
                    0 <= s < i && 0 <= k < series@[s].1@.len() && (#[trigger] series@[s].1@[k]).0
                        == ts,
        decreases series@.len() - i,
    {
        let points = &series[i].1;
        let ghost before = times@;
        let mut j: usize = 0;
        while j < points.len()
            invariant
                i < series@.len(),
                *points == series@[i as int].1,
                j <= points@.len(),
                forall|a: int, b: int| 0 <= a < b < times@.len() ==> times@[a] < times@[b],
                forall|ts: i64| #[trigger]
                    times@.contains(ts) <==> (before.contains(ts) || has_time(
                        points@,
                        j as int,
                        ts,
                    )),
            decreases points@.len() - j,
        {
            let ghost now = times@;
            put_time(&mut times, points[j].0);
            proof {
                assert forall|ts: i64| #[trigger]
                    times@.contains(ts) <==> (before.contains(ts) || has_time(
                        points@,
                        j + 1,
                        ts,
                    )) by {
                    assert(times@.contains(ts) <==> (now.contains(ts) || ts == points@[j as int].0));
                    if has_time(points@, j + 1, ts) && !has_time(points@, j as int, ts) {
                        let k = choose|k: int|
                            0 <= k < j + 1 && k < points@.len() && (#[trigger] points@[k]).0 == ts;
                        assert(k == j);
                    }
                    if ts == points@[j as int].0 {
                        assert(points@[j as int].0 == ts);
                    }
                }
            }
            j += 1;
        }
        proof {
            assert forall|ts: i64| #[trigger]
                times@.contains(ts) <==> exists|s: int, k: int|
                    0 <= s < i + 1 && 0 <= k < series@[s].1@.len() && (
                    #[trigger] series@[s].1@[k]).0 == ts by {
                if times@.contains(ts) {
                    if before.contains(ts) {
                        let (s, k) = choose|s: int, k: int|
                            0 <= s < i && 0 <= k < series@[s].1@.len() && (
                            #[trigger] series@[s].1@[k]).0 == ts;
                        assert(series@[s].1@[k].0 == ts);
                    } else {
                        let k = choose|k: int|
                            0 <= k < j && k < points@.len() && (#[trigger] points@[k]).0 == ts;
                        assert(series@[i as int].1@[k].0 == ts);
                    }
                }
                if exists|s: int, k: int|
                    0 <= s < i + 1 && 0 <= k < series@[s].1@.len() && (
                    #[trigger] series@[s].1@[k]).0 == ts {
                    let (s, k) = choose|s: int, k: int|
                        0 <= s < i + 1 && 0 <= k < series@[s].1@.len() && (
                        #[trigger] series@[s].1@[k]).0 == ts;
                    if s < i {
                        assert(before.contains(ts));
                    } else {
                        assert(points@[k].0 == ts);
                        assert(has_time(points@, j as int, ts));
                    }
                }
            }
        }
        i += 1;
    }
    times
}

fn point_at<V: Copy>(points: &Vec<(i64, V)>, ts: i64) -> (r: Option<V>)
    ensures
        r == value_at(points@, ts),
{
    let mut i: usize = points.len();
    assert(points@.take(i as int) =~= points@);
    while i > 0
        invariant
            i <= points@.len(),
            value_at(points@, ts) == value_at(points@.take(i as int), ts),
        decreases i,
    {
        i -= 1;
        assert(points@.take(i + 1).drop_last() =~= points@.take(i as int));
        if points[i].0 == ts {
            return Some(points[i].1);
        }
    }
    None
}

fn value_of<V: Copy>(
    series: &Vec<(&'static str, Vec<(i64, V)>)>,
    name: &str,
    ts: i64,
    zero: V,
) -> (r: V)
    ensures
        r == value_or(series@, name@, ts, zero),
{
    let mut i: usize = series.len();
    assert(series@.take(i as int) =~= series@);
    while i > 0
        invariant
            i <= series@.len(),
            value_in(series@, name@, ts) == value_in(series@.take(i as int), name@, ts),
        decreases i,
    {
        i -= 1;
        assert(series@.take(i + 1).drop_last() =~= series@.take(i as int));
        if same(series[i].0, name) {
            if let Some(v) = point_at(&series[i].1, ts) {
                return v;
            }
        }
    }
    zero
}

/// `s` is the sample at `ts` of the series of a node: each value from its own
/// series, `zero` where that has none there, and no filesystems.
pub open spec fn is_node_sample<V>(
    s: NodeSample<V>,
    series: Seq<(&'static str, Vec<(i64, V)>)>,
    ts: i64,
    zero: V,
) -> bool {
    &&& s.ts == ts
    &&& s.cpu_percent == value_or(series, "cpu"@, ts, zero)
    &&& s.mem_used_bytes == value_or(series, "mem_used"@, ts, zero)
    &&& s.mem_total_bytes == value_or(series, "mem_total"@, ts, zero)
    &&& s.net_rx_bps == value_or(series, "rx"@, ts, zero)
    &&& s.net_tx_bps == value_or(series, "tx"@, ts, zero)
    &&& s.load1 == value_or(series, "load1"@, ts, zero)
    &&& s.load5 == value_or(series, "load5"@, ts, zero)
    &&& s.load15 == value_or(series, "load15"@, ts, zero)
    &&& s.filesystems@.len() == 0
}

/// Joins the series of a node on their times: one sample for each time at which
/// some series has a value, in order.
pub fn assemble<V: Copy>(series: &Vec<(&'static str, Vec<(i64, V)>)>, zero: V) -> (r: Vec<
    NodeSample<V>,
>)
    ensures
        exists|times: Seq<i64>|
            #[trigger] are_times(times, series@) && r@.len() == times.len() && forall|i: int|
                0 <= i < r@.len() ==> is_node_sample(#[trigger] r@[i], series@, times[i], zero),
{
    let times = times_of(series);
    let mut out: Vec<NodeSample<V>> = Vec::new();
    let mut i: usize = 0;
    while i < times.len()
        invariant
            i <= times@.len(),
            out@.len() == i,
            forall|k: int|
                0 <= k < i ==> is_node_sample(#[trigger] out@[k], series@, times@[k], zero),
        decreases times@.len() - i,
    {
        let ts = times[i];
        out.push(
            NodeSample {
                ts,
                cpu_percent: value_of(series, "cpu", ts, zero),
                mem_used_bytes: value_of(series, "mem_used", ts, zero),
                mem_total_bytes: value_of(series, "mem_total", ts, zero),
                net_rx_bps: value_of(series, "rx", ts, zero),
                net_tx_bps: value_of(series, "tx", ts, zero),
                load1: value_of(series, "load1", ts, zero),
                load5: value_of(series, "load5", ts, zero),
                load15: value_of(series, "load15", ts, zero),
                filesystems: Vec::new(),
            },
        );
        i += 1;
    }
    assert(are_times(times@, series@));
    out
}

/// `s` is the sample at `ts` of the series of a pod.
pub open spec fn is_pod_sample(
    s: PodSample,
    series: Seq<(&'static str, Vec<(i64, i64)>)>,
    ts: i64,
) -> bool {
    &&& s.ts == ts
    &&& s.cpu_millis == value_or(series, "cpu_millis"@, ts, 0)
    &&& s.mem_bytes == value_or(series, "mem_bytes"@, ts, 0)
}

/// Joins the series of a pod on their times, as [`assemble`] does those of a
/// node.
pub fn assemble_pod(series: &Vec<(&'static str, Vec<(i64, i64)>)>) -> (r: Vec<PodSample>)
    ensures
        exists|times: Seq<i64>|
            #[trigger] are_times(times, series@) && r@.len() == times.len() && forall|i: int|
                0 <= i < r@.len() ==> is_pod_sample(#[trigger] r@[i], series@, times[i]),
{
    let times = times_of(series);
    let mut out: Vec<PodSample> = Vec::new();
    let mut i: usize = 0;
    while i < times.len()
        invariant
            i <= times@.len(),
            out@.len() == i,
            forall|k: int| 0 <= k < i ==> is_pod_sample(#[trigger] out@[k], series@, times@[k]),
        decreases times@.len() - i,
    {
        let ts = times[i];
        out.push(
            PodSample {
                ts,
                cpu_millis: value_of(series, "cpu_millis", ts, 0),
                mem_bytes: value_of(series, "mem_bytes", ts, 0),
            },
        );
        i += 1;
    }
    assert(are_times(times@, series@));
    out
}

// ---------------------------------------------------------------------------
// Laws
// ---------------------------------------------------------------------------

/// An exact name outranks a prefix, and a prefix outranks a label, whatever the
/// ports are.
pub proof fn law_name_counts_before_port(
    a: Service,
    found_a: (int, PromView),
    b: Service,
    found_b: (int, PromView),
)
    requires
        is_score(a, Some(found_a)),
        is_score(b, Some(found_b)),
        name_score(a.name@, a.labels@)->0 > name_score(b.name@, b.labels@)->0,
    ensures
        found_a.0 > found_b.0,
        beats(found_a, found_b),
{
}

/// The choice does not depend on the order of the listing: of two Services that
/// look like a Prometheus and differ in namespace or name, one beats the other,
/// and never both.
pub proof fn law_choice_is_decided(a: (int, PromView), b: (int, PromView))
    ensures
        !(beats(a, b) && beats(b, a)),
        a.1.namespace != b.1.namespace || a.1.name != b.1.name ==> beats(a, b) || beats(b, a),
{
    lemma_beats(a, b, a);
    lemma_sorts_total(a.1.namespace, b.1.namespace);
    lemma_sorts_total(a.1.name, b.1.name);
}

/// There is one choice: no two Services can both be the preferred one.
pub proof fn law_choice_is_unique(scores: Seq<Option<(int, PromView)>>, i: int, j: int)
    requires
        is_pick(scores, i),
        is_pick(scores, j),
    ensures
        i == j,
{
    assert(scores[i] is Some && scores[j] is Some);
}

proof fn lemma_part(before: Seq<char>, part: Seq<char>, after: Seq<char>)
    ensures
        has_part(before + part + after, part),
{
    let s = before + part + after;
    assert(s.subrange(before.len() as int, (before.len() + part.len()) as int) =~= part);
    assert(occurs_at(s, part, before.len() as int));
}

/// Every query of a node's charts asks for the series of that node.
pub proof fn law_queries_ask_for_the_node(node: Seq<char>, i: int)
    requires
        0 <= i < 8,
    ensures
        has_part(node_query(node, i).1, node_label(node)),
{
    let n = node_label(node);
    if i == 0 {
        lemma_part(
            "100 - (avg(rate(node_cpu_seconds_total{mode=\"idle\","@,
            n,
            "}[2m])) * 100)"@,
        );
    } else if i == 1 {
        let rest = "} - node_memory_MemAvailable_bytes{"@ + n + "}"@;
        lemma_part("node_memory_MemTotal_bytes{"@, n, rest);
        assert(node_query(node, i).1 =~= "node_memory_MemTotal_bytes{"@ + n + rest);
    } else if i == 2 {
        lemma_part("node_memory_MemTotal_bytes{"@, n, "}"@);
    } else if i == 3 || i == 4 {
        let metric = if i == 3 {
            "node_network_receive_bytes_total"@
        } else {
            "node_network_transmit_bytes_total"@
        };
        let head = "sum(rate("@ + metric + "{"@;
        let rest = ",device!~\""@ + virtual_pattern() + "\"}[2m]))"@;
        lemma_part(head, n, rest);
        assert(node_query(node, i).1 =~= head + n + rest);
    } else if i == 5 {
        lemma_part("node_load1{"@, n, "}"@);
    } else if i == 6 {
        lemma_part("node_load5{"@, n, "}"@);
    } else {
        lemma_part("node_load15{"@, n, "}"@);
    }
}

/// A gap in one series shifts no other: what a sample says of a series is what
/// that series has at the sample's own time, whatever the other series hold.
pub proof fn law_gaps_shift_nothing<V>(
    series: Seq<(&'static str, Vec<(i64, V)>)>,
    other: (&'static str, Vec<(i64, V)>),
    name: Seq<char>,
    ts: i64,
)
    requires
        other.0@ != name,
    ensures
        value_in(series.push(other), name, ts) == value_in(series, name, ts),
{
    assert(series.push(other).drop_last() =~= series);
}

/// A Service with a port looks like a Prometheus where it is called so, its name begins so, or
/// one of two labels says so; without a port none does.
pub proof fn law_which_services_look_like_a_prometheus(s: Service, r: Option<(i32, PromService)>)
    requires
        call_ensures(score, (&s,), r),
    ensures
        r is Some <==> {
            &&& s.ports is Some && s.ports->0@.len() > 0
            &&& {
                ||| has_prefix(s.name@, "prometheus"@)
                ||| s.labels@.contains_key("app"@) && s.labels@["app"@] == "prometheus"@
                ||| s.labels@.contains_key("app.kubernetes.io/name"@)
                    && s.labels@["app.kubernetes.io/name"@] == "prometheus"@
            }
        },
        r matches Some((n, p)) ==> p.name@ == s.name@ && (s.namespace matches Some(ns)
            ==> p.namespace@ == ns@),
{
    if s.name@ == "prometheus"@ {
        assert(s.name@.take("prometheus"@.len() as int) =~= "prometheus"@);
    }
    assert(is_score(s, score_view(r)));
}

/// The well-known port is asked before one with the name of a web server's, and that before
/// any other; of several the first.
pub proof fn law_which_port_is_asked(
    s: Service,
    ports: Vec<ServicePort>,
    n: i32,
    p: PromService,
    i: int,
)
    requires
        call_ensures(score, (&s,), Some((n, p))),
        s.ports == Some(ports),
        0 <= i < ports@.len(),
    ensures
        ports@[i].port == 9090 ==> p.port == 9090,
        (forall|j: int| 0 <= j < ports@.len() ==> (#[trigger] ports@[j]).port != 9090) && (forall|
            j: int,
        |
            0 <= j < i ==> ((#[trigger] ports@[j]).name matches Some(n) ==> n@ != "web"@ && n@
                != "http"@ && n@ != "http-web"@)) && (ports@[i].name matches Some(n) && (n@
            == "web"@ || n@ == "http"@ || n@ == "http-web"@)) ==> p.port == ports@[i].port,
        (forall|j: int|
            0 <= j < ports@.len() ==> (#[trigger] ports@[j]).port != 9090 && (ports@[j].name matches Some(
                n,
            ) ==> n@ != "web"@ && n@ != "http"@ && n@ != "http-web"@)) ==> p.port
            == ports@[0].port,
{
    assert(is_score(s, score_view(Some((n, p)))));
    let known = |p: ServicePort| is_known_port(p);
    let web = |p: ServicePort| is_web_port(p);
    let k = choose|k: int| #[trigger]
        is_asked_port(ports@, k) && p.port == ports@[k].port;
    assert(is_asked_port(ports@, k) && p.port == ports@[k].port);
    if ports@[i].port == 9090 {
        assert(known(ports@[i]));
        assert(!has_none(ports@, known));
    }
    if forall|j: int| 0 <= j < ports@.len() ==> (#[trigger] ports@[j]).port != 9090 {
        assert(!is_first(ports@, known, k));
        if (forall|j: int|
            0 <= j < i ==> ((#[trigger] ports@[j]).name matches Some(n) ==> n@ != "web"@ && n@
                != "http"@ && n@ != "http-web"@)) && (ports@[i].name matches Some(n) && (n@
            == "web"@ || n@ == "http"@ || n@ == "http-web"@)) {
            assert(web(ports@[i]));
            assert(!has_none(ports@, web));
            assert(is_first(ports@, web, k));
            if k < i {
                assert(web(ports@[k]));
            }
            if i < k {
                assert(!web(ports@[i]));
            }
        }
        if forall|j: int|
            0 <= j < ports@.len() ==> ((#[trigger] ports@[j]).name matches Some(n) ==> n@ != "web"@
                && n@ != "http"@ && n@ != "http-web"@) {
            assert(!is_first(ports@, web, k));
        }
    }
}

/// The Service that is discovered is one of the cluster that looks like a Prometheus, and none
/// that does looks more like one; where none does, none is discovered.
pub proof fn law_the_best_service_is_discovered(
    services: Vec<Service>,
    r: Option<PromService>,
    i: int,
    found: Option<(i32, PromService)>,
)
    requires
        call_ensures(discover, (&services,), r),
        0 <= i < services@.len(),
        call_ensures(score, (&services@[i],), found),
    ensures
        found is Some ==> r is Some,
        r matches Some(p) ==> exists|k: int|
            0 <= k < services@.len() && (#[trigger] services@[k]).name@ == p.name@,
        services@[i].name@ == "prometheus"@ && found is Some ==> r is Some && r->0.name@
            == "prometheus"@,
        has_prefix(services@[i].name@, "prometheus"@) && found is Some ==> r is Some && has_prefix(
            r->0.name@,
            "prometheus"@,
        ),
{
    let scores = choose|scores: Seq<Option<(int, PromView)>>| #[trigger]
        is_discovered(services@, scores, prom_view(r));
    assert(is_discovered(services@, scores, prom_view(r)));
    assert(is_score(services@[i], scores[i]));
    assert(is_score(services@[i], score_view(found)));
    assert(scores[i] is Some <==> found is Some);
    if r is Some {
        let k = choose|k: int| #[trigger] is_pick(scores, k) && (scores[k]->0).1 == r->0@;
        assert(is_score(services@[k], scores[k]));
        assert(services@[k].name@ == r->0.name@);
        if found is Some {
            assert(!beats(scores[i]->0, scores[k]->0));
            assert("prometheus"@.take("prometheus"@.len() as int) =~= "prometheus"@);
        }
    }
}

/// The interfaces that a query leaves out are those that a scrape leaves out.
pub proof fn law_queries_leave_out_virtual_interfaces(r: String)
    requires
        call_ensures(virtual_ifaces_pattern, (), r),
    ensures
        r@ == joined(
            seq![
                "lo.*"@,
                "veth.*"@,
                "docker.*"@,
                "br-.*"@,
                "cni.*"@,
                "flannel.*"@,
                "kube-ipvs.*"@,
                "tunl.*"@,
                "dummy.*"@,
                "virbr.*"@,
                "tap.*"@,
                "vxlan.*"@,
                "nodelocaldns.*"@,
                "cali.*"@,
                "wg.*"@,
            ],
            "|"@,
        ),
{
    lemma_interface_patterns();
    let p = prefix_patterns(virtual_ifaces());
    assert(p =~= seq![
        "lo.*"@,
        "veth.*"@,
        "docker.*"@,
        "br-.*"@,
        "cni.*"@,
        "flannel.*"@,
        "kube-ipvs.*"@,
        "tunl.*"@,
        "dummy.*"@,
        "virbr.*"@,
        "tap.*"@,
        "vxlan.*"@,
        "nodelocaldns.*"@,
        "cali.*"@,
        "wg.*"@,
    ]);
}

proof fn lemma_interface_patterns()
    ensures
        "lo"@ + ".*"@ == "lo.*"@,
        "veth"@ + ".*"@ == "veth.*"@,
        "docker"@ + ".*"@ == "docker.*"@,
        "br-"@ + ".*"@ == "br-.*"@,
        "cni"@ + ".*"@ == "cni.*"@,
        "flannel"@ + ".*"@ == "flannel.*"@,
        "kube-ipvs"@ + ".*"@ == "kube-ipvs.*"@,
        "tunl"@ + ".*"@ == "tunl.*"@,
        "dummy"@ + ".*"@ == "dummy.*"@,
        "virbr"@ + ".*"@ == "virbr.*"@,
        "tap"@ + ".*"@ == "tap.*"@,
        "vxlan"@ + ".*"@ == "vxlan.*"@,
        "nodelocaldns"@ + ".*"@ == "nodelocaldns.*"@,
        "cali"@ + ".*"@ == "cali.*"@,
        "wg"@ + ".*"@ == "wg.*"@,
{
    reveal_strlit(".*");
    reveal_strlit("lo");
    reveal_strlit("lo.*");
    reveal_strlit("veth");
    reveal_strlit("veth.*");
    reveal_strlit("docker");
    reveal_strlit("docker.*");
    reveal_strlit("br-");
    reveal_strlit("br-.*");
    reveal_strlit("cni");
    reveal_strlit("cni.*");
    reveal_strlit("flannel");
    reveal_strlit("flannel.*");
    reveal_strlit("kube-ipvs");
    reveal_strlit("kube-ipvs.*");
    reveal_strlit("tunl");
    reveal_strlit("tunl.*");
    reveal_strlit("dummy");
    reveal_strlit("dummy.*");
    reveal_strlit("virbr");
    reveal_strlit("virbr.*");
    reveal_strlit("tap");
    reveal_strlit("tap.*");
    reveal_strlit("vxlan");
    reveal_strlit("vxlan.*");
    reveal_strlit("nodelocaldns");
    reveal_strlit("nodelocaldns.*");
    reveal_strlit("cali");
    reveal_strlit("cali.*");
    reveal_strlit("wg");
    reveal_strlit("wg.*");
}

/// The queries of a node ask for its processor time, its memory, what its real interfaces
/// carry, and its load, under the names that its samples are made of.
pub proof fn law_queries_of_a_node(node: &str, r: Vec<(&'static str, String)>, virtuals: String)
    requires
        call_ensures(node_queries, (node,), r),
        call_ensures(virtual_ifaces_pattern, (), virtuals),
    ensures
        ({
            let n = "node=\""@ + node@ + "\""@;
            &&& r@.len() == 8
            &&& r@[0].0@ == "cpu"@ && r@[0].1@
                == "100 - (avg(rate(node_cpu_seconds_total{mode=\"idle\","@ + n
                + "}[2m])) * 100)"@
            &&& r@[1].0@ == "mem_used"@ && r@[1].1@ == "node_memory_MemTotal_bytes{"@ + n
                + "} - node_memory_MemAvailable_bytes{"@ + n + "}"@
            &&& r@[2].0@ == "mem_total"@ && r@[2].1@ == "node_memory_MemTotal_bytes{"@ + n + "}"@
            &&& r@[3].0@ == "rx"@ && r@[3].1@ == "sum(rate("@ + "node_network_receive_bytes_total"@
                + "{"@ + n + ",device!~\""@ + virtuals@ + "\"}[2m]))"@
            &&& r@[4].0@ == "tx"@ && r@[4].1@ == "sum(rate("@ + "node_network_transmit_bytes_total"@
                + "{"@ + n + ",device!~\""@ + virtuals@ + "\"}[2m]))"@
            &&& r@[5].0@ == "load1"@ && r@[5].1@ == "node_load1{"@ + n + "}"@
            &&& r@[6].0@ == "load5"@ && r@[6].1@ == "node_load5{"@ + n + "}"@
            &&& r@[7].0@ == "load15"@ && r@[7].1@ == "node_load15{"@ + n + "}"@
        }),
{
    assert forall|i: int| 0 <= i < 8 implies is_query(
        #[trigger] r@[i],
        node_query(node@, i).0,
        node_query(node@, i).1,
    ) by {}
    assert(is_query(r@[0], node_query(node@, 0).0, node_query(node@, 0).1));
    assert(is_query(r@[1], node_query(node@, 1).0, node_query(node@, 1).1));
    assert(is_query(r@[2], node_query(node@, 2).0, node_query(node@, 2).1));
    assert(is_query(r@[3], node_query(node@, 3).0, node_query(node@, 3).1));
    assert(is_query(r@[4], node_query(node@, 4).0, node_query(node@, 4).1));
    assert(is_query(r@[5], node_query(node@, 5).0, node_query(node@, 5).1));
    assert(is_query(r@[6], node_query(node@, 6).0, node_query(node@, 6).1));
    assert(is_query(r@[7], node_query(node@, 7).0, node_query(node@, 7).1));
}

proof fn lemma_value_at<V>(points: Seq<(i64, V)>, k: int)
    requires
        0 <= k < points.len(),
        forall|l: int| k < l < points.len() ==> (#[trigger] points[l]).0 != points[k].0,
    ensures
        value_at(points, points[k].0) == Some(points[k].1),
    decreases points.len(),
{
    if k < points.len() - 1 {
        assert(points[points.len() - 1].0 != points[k].0);
        let t = points.drop_last();
        assert(t[k] == points[k]);
        assert forall|l: int| k < l < t.len() implies (#[trigger] t[l]).0 != t[k].0 by {
            assert(t[l] == points[l]);
        }
        lemma_value_at(t, k);
    }
}

proof fn lemma_value_in<V>(series: Seq<(&'static str, Vec<(i64, V)>)>, i: int, ts: i64)
    requires
        0 <= i < series.len(),
        value_at(series[i].1@, ts) is Some,
        forall|j: int| 0 <= j < series.len() && j != i ==> (#[trigger] series[j]).0@ != series[i].0@,
    ensures
        value_in(series, series[i].0@, ts) == value_at(series[i].1@, ts),
    decreases series.len(),
{
    if i < series.len() - 1 {
        let t = series.drop_last();
        assert(t[i] == series[i]);
        assert(series[series.len() - 1].0@ != series[i].0@);
        assert forall|j: int| 0 <= j < t.len() && j != i implies (#[trigger] t[j]).0@ != t[i].0@ by {
            assert(t[j] == series[j]);
        }
        lemma_value_in(t, i, ts);
    }
}

/// A point of a series stands in the sample of its time, in the place that the name of the
/// series says; there is one sample for each time, and they stand in order.
pub proof fn law_every_point_stands_in_its_sample<V: Copy>(
    series: Vec<(&'static str, Vec<(i64, V)>)>,
    zero: V,
    r: Vec<NodeSample<V>>,
    i: int,
    k: int,
)
    requires
        call_ensures(assemble::<V>, (&series, zero), r),
        0 <= i < series@.len(),
        0 <= k < series@[i].1@.len(),
        forall|j: int|
            0 <= j < series@.len() && j != i ==> (#[trigger] series@[j]).0@ != series@[i].0@,
        forall|l: int|
            k < l < series@[i].1@.len() ==> (#[trigger] series@[i].1@[l]).0 != series@[i].1@[k].0,
    ensures
        exists|n: int|
            #![trigger r@[n]]
            0 <= n < r@.len() && r@[n].ts == series@[i].1@[k].0 && ({
                let name = series@[i].0@;
                let v = series@[i].1@[k].1;
                &&& name == "cpu"@ ==> r@[n].cpu_percent == v
                &&& name == "mem_used"@ ==> r@[n].mem_used_bytes == v
                &&& name == "mem_total"@ ==> r@[n].mem_total_bytes == v
                &&& name == "rx"@ ==> r@[n].net_rx_bps == v
                &&& name == "tx"@ ==> r@[n].net_tx_bps == v
                &&& name == "load1"@ ==> r@[n].load1 == v
                &&& name == "load5"@ ==> r@[n].load5 == v
                &&& name == "load15"@ ==> r@[n].load15 == v
            }),
        forall|a: int, b: int|
            #![trigger r@[a], r@[b]]
            0 <= a < b < r@.len() ==> r@[a].ts < r@[b].ts,
{
    let s = series@;
    let ts = s[i].1@[k].0;
    let times = choose|times: Seq<i64>| #[trigger]
        are_times(times, s) && r@.len() == times.len() && forall|i: int|
            0 <= i < r@.len() ==> is_node_sample(#[trigger] r@[i], s, times[i], zero);
    assert(s[i].1@[k].0 == ts);
    assert(has_point(s, ts));
    assert(times.contains(ts));
    let n = choose|n: int| 0 <= n < times.len() && times[n] == ts;
    lemma_value_at(s[i].1@, k);
    lemma_value_in(s, i, ts);
    assert(is_node_sample(r@[n], s, times[n], zero));
    assert forall|a: int, b: int| #![trigger r@[a], r@[b]] 0 <= a < b < r@.len() implies r@[a].ts
        < r@[b].ts by {
        assert(is_node_sample(r@[a], s, times[a], zero));
        assert(is_node_sample(r@[b], s, times[b], zero));
        assert(times[a] < times[b]);
    }
}

/// A point of a pod's series stands in the sample of its time, in the place that the name of
/// the series says.
pub proof fn law_every_point_of_a_pod_stands_in_its_sample(
    series: Vec<(&'static str, Vec<(i64, i64)>)>,
    r: Vec<PodSample>,
    i: int,
    k: int,
)
    requires
        call_ensures(assemble_pod, (&series,), r),
        0 <= i < series@.len(),
        0 <= k < series@[i].1@.len(),
        forall|j: int|
            0 <= j < series@.len() && j != i ==> (#[trigger] series@[j]).0@ != series@[i].0@,
        forall|l: int|
            k < l < series@[i].1@.len() ==> (#[trigger] series@[i].1@[l]).0 != series@[i].1@[k].0,
    ensures
        exists|n: int|
            #![trigger r@[n]]
            0 <= n < r@.len() && r@[n].ts == series@[i].1@[k].0 && (series@[i].0@ == "cpu_millis"@
                ==> r@[n].cpu_millis == series@[i].1@[k].1) && (series@[i].0@ == "mem_bytes"@
                ==> r@[n].mem_bytes == series@[i].1@[k].1),
        forall|a: int, b: int|
            #![trigger r@[a], r@[b]]
            0 <= a < b < r@.len() ==> r@[a].ts < r@[b].ts,
{
    let s = series@;
    let ts = s[i].1@[k].0;
    let times = choose|times: Seq<i64>| #[trigger]
        are_times(times, s) && r@.len() == times.len() && forall|i: int|
            0 <= i < r@.len() ==> is_pod_sample(#[trigger] r@[i], s, times[i]);
    assert(s[i].1@[k].0 == ts);
    assert(has_point(s, ts));
    assert(times.contains(ts));
    let n = choose|n: int| 0 <= n < times.len() && times[n] == ts;
    lemma_value_at(s[i].1@, k);
    lemma_value_in(s, i, ts);
    assert(is_pod_sample(r@[n], s, times[n]));
    assert forall|a: int, b: int| #![trigger r@[a], r@[b]] 0 <= a < b < r@.len() implies r@[a].ts
        < r@[b].ts by {
        assert(is_pod_sample(r@[a], s, times[a]));
        assert(is_pod_sample(r@[b], s, times[b]));
        assert(times[a] < times[b]);
    }
}

/// A Prometheus is asked through the proxy of the API server, at its namespace, name and port.
pub proof fn law_prometheus_is_asked_through_the_proxy(
    p: PromService,
    endpoint: &str,
    query: &str,
    r: String,
)
    requires
        call_ensures(PromService::path, (&p, endpoint, query), r),
    ensures
        r@ == "/api/v1/namespaces/"@ + p.namespace@ + "/services/"@ + p.name@ + ":"@ + dec_int(
            p.port as int,
        ) + "/proxy/api/v1/"@ + endpoint@ + "?"@ + query@,
{
}

/// The queries of a pod ask for its processor time in millicores and its memory.
pub proof fn law_queries_of_a_pod(namespace: &str, pod: &str, r: Vec<(&'static str, String)>)
    requires
        call_ensures(pod_queries, (namespace, pod), r),
    ensures
        ({
            let p = "pod=\""@ + pod@ + "\",namespace=\""@ + namespace@ + "\""@;
            &&& r@.len() == 2
            &&& r@[0].0@ == "cpu_millis"@
            &&& r@[0].1@ == "sum(rate(container_cpu_usage_seconds_total{"@ + p + "}[5m])) * 1000"@
            &&& r@[1].0@ == "mem_bytes"@
            &&& r@[1].1@ == "sum(container_memory_working_set_bytes{"@ + p + "})"@
        }),
{
}

/// A history reaches back as far as asked for.
pub proof fn law_history_reaches_back(now: i64, window: i64, r: Option<i64>)
    requires
        call_ensures(history_start, (now, window), r),
    ensures
        r matches Some(s) ==> s + window == now,
        0 <= window <= now ==> r is Some,
{
}

} // verus!
