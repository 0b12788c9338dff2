//! Live statistics of a node from its node-exporter: which pod that is, and when
//! the user hears of a failure.
use crate::error::{AppError, AppResult};
use crate::text::{cat2, cat3, cat4, contains, dec, dec_u64, has_part, or_empty, text_or_nothing};
use vstd::prelude::*;

verus! {

/// The port that a node-exporter listens on.
pub const EXPORTER_PORT: u16 = 9100;

/// Why a node has no plots, as the user is told.
#[derive(Clone, Debug)]
pub struct NodeStatsError {
    pub node: String,
    pub message: String,
}

/// A pod, as far as it tells whether it is a node-exporter: its name, and the
/// ports of its containers.
#[derive(Clone, Debug)]
pub struct ExporterPod {
    pub namespace: Option<String>,
    pub name: String,
    pub ports: Vec<i32>,
}

/// Which pods to list for the exporter of `node`: the running ones on it.
pub fn exporter_fields(node: &str) -> (r: String)
    ensures
        r@ == "spec.nodeName="@ + node@ + ",status.phase=Running"@,
{
    cat3("spec.nodeName=", node, ",status.phase=Running")
}

/// Whether a pod is a node-exporter: one that serves the port and is named like
/// one. Every distribution names it differently, but they all serve this port.
pub open spec fn is_exporter(p: ExporterPod) -> bool {
    p.ports@.contains(EXPORTER_PORT as i32) && has_part(p.name@, "node-exporter"@)
}

fn serves(ports: &Vec<i32>, port: i32) -> (r: bool)
    ensures
        r == ports@.contains(port),
{
    let mut i: usize = 0;
    while i < ports.len()
        invariant
            i <= ports@.len(),
            forall|k: int| 0 <= k < i ==> ports@[k] != port,
        decreases ports@.len() - i,
    {
        if ports[i] == port {
            return true;
        }
        i += 1;
    }
    false
}

/// `i` is the first node-exporter of `pods`.
pub open spec fn is_first_exporter(pods: Seq<ExporterPod>, i: int) -> bool {
    &&& 0 <= i < pods.len()
    &&& is_exporter(pods[i])
    &&& forall|j: int| 0 <= j < i ==> !is_exporter(#[trigger] pods[j])
}

/// The namespace and name of the node-exporter among the pods of `node`.
pub fn find_exporter(pods: &Vec<ExporterPod>, node: &str) -> (r: AppResult<(String, String)>)
    ensures
        match r {
            Ok((ns, name)) => exists|i: int|
                #[trigger] is_first_exporter(pods@, i) && ns@ == text_or_nothing(pods@[i].namespace)
                    && name@ == pods@[i].name@,
            Err(e) => {
                &&& forall|i: int| 0 <= i < pods@.len() ==> !is_exporter(#[trigger] pods@[i])
                &&& e.is_not_found(
                    "no node-exporter pod found on "@ + node@
                        + " \u{2014} install one, or its port isn't 9100"@,
                )
            },
        },
{
    let mut i: usize = 0;
    while i < pods.len()
        invariant
            i <= pods@.len(),
            forall|j: int| 0 <= j < i ==> !is_exporter(#[trigger] pods@[j]),
        decreases pods@.len() - i,
    {
        let p = &pods[i];
        if serves(&p.ports, EXPORTER_PORT as i32) && contains(p.name.as_str(), "node-exporter") {
            assert(is_first_exporter(pods@, i as int));
            return Ok((or_empty(&p.namespace), p.name.clone()));
        }
        i += 1;
    }
    Err(
        AppError::NotFound(
            cat3(
                "no node-exporter pod found on ",
                node,
                " \u{2014} install one, or its port isn't 9100",
            ),
        ),
    )
}

/// Where the forwarded exporter serves its metrics.
pub fn metrics_url(local_port: u16) -> (r: String)
    ensures
        r@ == "http://127.0.0.1:"@ + dec(local_port as nat) + "/metrics"@,
{
    let port = dec_u64(local_port as u64);
    cat3("http://127.0.0.1:", port.as_str(), "/metrics")
}

/// How the forward to the exporter ended before it was ready.
pub fn forward_failed(pod: &str, error: Option<&str>) -> (r: String)
    ensures
        r@ == (match error {
            Some(e) => "could not forward to "@ + pod@ + ": "@ + e@,
            None => "port-forward ended before it was ready"@,
        }),
{
    match error {
        Some(e) => cat4("could not forward to ", pod, ": ", e),
        None => "port-forward ended before it was ready".to_owned(),
    }
}

/// What a turn of the poll loop brought.
#[derive(Clone, Debug)]
pub enum Turn {
    /// The forward died, with this error.
    ForwardDied(String),
    /// The exporter was scraped.
    Scraped,
    /// The scrape failed, with this error.
    ScrapeFailed(String),
}

/// What to do after a turn of the poll loop.
#[derive(Clone, Debug)]
pub enum AfterTurn {
    /// Go on.
    Continue,
    /// Tell the user this, and go on.
    Report(String),
    /// Tell the user this, and end: the pod went away.
    End(String),
}

/// Decides what to do after a turn of the poll loop. `reported` says whether the
/// last failure of a scrape was told; the second result says whether it is now.
/// A failure is told once, until a scrape succeeds again.
pub fn after_turn(pod: &str, turn: &Turn, reported: bool) -> (r: (AfterTurn, bool))
    ensures
        match turn {
            Turn::ForwardDied(e) => r.0 matches AfterTurn::End(m) && m@ == "port-forward to "@ + pod@
                + " failed: "@ + e@ && r.1 == reported,
            Turn::Scraped => r.0 is Continue && !r.1,
            Turn::ScrapeFailed(e) => {
                &&& r.1
                &&& if reported {
                    r.0 is Continue
                } else {
                    r.0 matches AfterTurn::Report(m) && m@ == "scrape failed: "@ + e@
                }
            },
        },
{
    match turn {
        Turn::ForwardDied(e) => (
            AfterTurn::End(cat4("port-forward to ", pod, " failed: ", e.as_str())),
            reported,
        ),
        Turn::Scraped => (AfterTurn::Continue, false),
        Turn::ScrapeFailed(e) => {
            if reported {
                (AfterTurn::Continue, true)
            } else {
                (AfterTurn::Report(cat2("scrape failed: ", e.as_str())), true)
            }
        },
    }
}

/// Reads the status of a scrape; `shown` is the status as text.
pub fn scrape_status(status: u16, shown: &str) -> (r: Result<(), String>)
    ensures
        match r {
            Ok(_) => crate::instances::is_success(status),
            Err(e) => !crate::instances::is_success(status) && e@ == "HTTP "@ + shown@,
        },
{
    if crate::instances::success(status) {
        Ok(())
    } else {
        Err(cat2("HTTP ", shown))
    }
}

// ---------------------------------------------------------------------------
// Laws
// ---------------------------------------------------------------------------

/// The exporter of a node is the first of its pods that serves port 9100 and has
/// `node-exporter` in its name; another is not taken, and where there is none that is said.
pub proof fn law_exporter_is_known_by_port_and_name(
    pods: Vec<ExporterPod>,
    node: &str,
    r: AppResult<(String, String)>,
    i: int,
)
    requires
        call_ensures(find_exporter, (&pods, node), r),
        0 <= i < pods@.len(),
        pods@[i].ports@.contains(9100),
        has_part(pods@[i].name@, "node-exporter"@),
        forall|j: int|
            0 <= j < i ==> !((#[trigger] pods@[j]).ports@.contains(9100) && has_part(
                pods@[j].name@,
                "node-exporter"@,
            )),
    ensures
        r matches Ok((ns, name)) && name@ == pods@[i].name@ && (pods@[i].namespace matches Some(n)
            ==> ns@ == n@),
{
    assert(is_exporter(pods@[i]));
    if r is Ok {
        let k = choose|k: int| #[trigger]
            is_first_exporter(pods@, k) && r->Ok_0.0@ == text_or_nothing(pods@[k].namespace)
                && r->Ok_0.1@ == pods@[k].name@;
        if k < i {
            assert(is_exporter(pods@[k]));
        }
        if i < k {
            assert(!is_exporter(pods@[i]));
        }
        assert(k == i);
    }
}

/// Without a pod that serves the port and has the name there is no exporter.
pub proof fn law_no_other_pod_is_the_exporter(
    pods: Vec<ExporterPod>,
    node: &str,
    r: AppResult<(String, String)>,
)
    requires
        call_ensures(find_exporter, (&pods, node), r),
        forall|j: int|
            0 <= j < pods@.len() ==> !((#[trigger] pods@[j]).ports@.contains(9100) && has_part(
                pods@[j].name@,
                "node-exporter"@,
            )),
    ensures
        r is Err,
{
    if r is Ok {
        let k = choose|k: int| #[trigger]
            is_first_exporter(pods@, k) && r->Ok_0.0@ == text_or_nothing(pods@[k].namespace)
                && r->Ok_0.1@ == pods@[k].name@;
        assert(is_exporter(pods@[k]));
    }
}

/// A failure of scraping is told once, until a scrape succeeds again.
pub proof fn law_failure_is_told_once(
    pod: &str,
    e1: String,
    e2: String,
    first: (AfterTurn, bool),
    second: (AfterTurn, bool),
    well: (AfterTurn, bool),
    again: (AfterTurn, bool),
)
    requires
        call_ensures(after_turn, (pod, &Turn::ScrapeFailed(e1), false), first),
        call_ensures(after_turn, (pod, &Turn::ScrapeFailed(e2), first.1), second),
        call_ensures(after_turn, (pod, &Turn::Scraped, second.1), well),
        call_ensures(after_turn, (pod, &Turn::ScrapeFailed(e1), well.1), again),
    ensures
        first.0 matches AfterTurn::Report(m) && m@ == "scrape failed: "@ + e1@,
        second.0 is Continue,
        well.0 is Continue,
        again.0 matches AfterTurn::Report(m) && m@ == "scrape failed: "@ + e1@,
{
}

/// The exporter is looked for among the running pods of the node, and scraped through the
/// forwarded port; only a success is a scrape.
pub proof fn law_where_a_node_is_scraped(
    node: &str,
    port: u16,
    status: u16,
    shown: &str,
    fields: String,
    url: String,
    r: Result<(), String>,
)
    requires
        call_ensures(exporter_fields, (node,), fields),
        call_ensures(metrics_url, (port,), url),
        call_ensures(scrape_status, (status, shown), r),
    ensures
        fields@ == "spec.nodeName="@ + node@ + ",status.phase=Running"@,
        url@ == "http://127.0.0.1:"@ + dec(port as nat) + "/metrics"@,
        r is Ok <==> 200 <= status < 300,
{
}

} // verus!
