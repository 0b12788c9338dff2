//! Resource dependency graph: how Kubernetes resources relate to each other.
use crate::lists::{distinct, lemma_distinct, lemma_views_push, lookup, views, TextMap};
use crate::text::{copy_opt, opt_text, or_empty, same, text_or_nothing};
use vstd::prelude::*;

verus! {

// ---------------------------------------------------------------------------
// The graph
// ---------------------------------------------------------------------------

/// A resource in the graph.
#[derive(Clone, Debug, PartialEq, Eq, Hash)]
pub struct GraphNode {
    pub kind: String,
    pub name: String,
    pub namespace: Option<String>,
}

/// A relation between two resources.
#[derive(Clone, Debug)]
pub struct GraphEdge {
    pub from: GraphNode,
    pub to: GraphNode,
    pub relation: String,
}

/// The resources of a cluster and how they relate.
#[derive(Clone, Debug)]
pub struct DependencyGraph {
    pub nodes: Vec<GraphNode>,
    pub edges: Vec<GraphEdge>,
}

/// What a node says: kind, name and namespace.
pub struct NodeView {
    pub kind: Seq<char>,
    pub name: Seq<char>,
    pub namespace: Option<Seq<char>>,
}

/// What an edge says.
pub struct EdgeView {
    pub from: NodeView,
    pub to: NodeView,
    pub relation: Seq<char>,
}

impl View for GraphNode {
    type V = NodeView;

    open spec fn view(&self) -> NodeView {
        NodeView { kind: self.kind@, name: self.name@, namespace: opt_text(self.namespace) }
    }
}

impl View for GraphEdge {
    type V = EdgeView;

    open spec fn view(&self) -> EdgeView {
        EdgeView { from: self.from@, to: self.to@, relation: self.relation@ }
    }
}

/// Deduplication key of a node.
pub type NodeKey = (String, String, Option<String>);

/// The key under which a node is known.
pub fn make_key(kind: &str, name: &str, ns: &Option<String>) -> (r: NodeKey)
    ensures
        r.0@ == kind@,
        r.1@ == name@,
        opt_text(r.2) == opt_text(*ns),
{
    (kind.to_owned(), name.to_owned(), copy_opt(ns))
}

// ---------------------------------------------------------------------------
// What the cluster lists
// ---------------------------------------------------------------------------

/// An owner reference.
#[derive(Clone, Debug)]
pub struct Owner {
    pub kind: String,
    pub name: String,
}

/// A workload as listed: its metadata.
#[derive(Clone, Debug)]
pub struct Listed {
    pub name: Option<String>,
    pub namespace: Option<String>,
    pub owners: Vec<Owner>,
    pub labels: Option<TextMap>,
}

/// A Service as listed.
#[derive(Clone, Debug)]
pub struct ListedService {
    pub name: Option<String>,
    pub namespace: Option<String>,
    pub selector: Option<TextMap>,
}

/// An Ingress as listed. Each rule holds the paths of its `http` section, if it
/// has one, and each path the name of its backend Service, if it has one.
#[derive(Clone, Debug)]
pub struct ListedIngress {
    pub name: Option<String>,
    pub namespace: Option<String>,
    pub rules: Vec<Option<Vec<Option<String>>>>,
}

/// Everything the graph is built from, kind by kind.
#[derive(Clone, Debug)]
pub struct ClusterObjects {
    pub deployments: Vec<Listed>,
    pub replica_sets: Vec<Listed>,
    pub stateful_sets: Vec<Listed>,
    pub daemon_sets: Vec<Listed>,
    pub pods: Vec<Listed>,
    pub services: Vec<ListedService>,
    pub ingresses: Vec<ListedIngress>,
}

// ---------------------------------------------------------------------------
// What the graph is
// ---------------------------------------------------------------------------

pub open spec fn node_of(kind: Seq<char>, name: Seq<char>, ns: Option<String>) -> NodeView {
    NodeView { kind, name, namespace: opt_text(ns) }
}

/// The nodes of listed workloads of one kind.
pub open spec fn workload_nodes(kind: Seq<char>, s: Seq<Listed>) -> Seq<NodeView> {
    Seq::new(s.len(), |i: int| node_of(kind, text_or_nothing(s[i].name), s[i].namespace))
}

pub open spec fn service_nodes(s: Seq<ListedService>) -> Seq<NodeView> {
    Seq::new(s.len(), |i: int| node_of("Service"@, text_or_nothing(s[i].name), s[i].namespace))
}

pub open spec fn ingress_nodes(s: Seq<ListedIngress>) -> Seq<NodeView> {
    Seq::new(s.len(), |i: int| node_of("Ingress"@, text_or_nothing(s[i].name), s[i].namespace))
}

/// Every listed object as a node, in the order in which the kinds are listed.
pub open spec fn listed_nodes(c: ClusterObjects) -> Seq<NodeView> {
    workload_nodes("Deployment"@, c.deployments@) + workload_nodes("ReplicaSet"@, c.replica_sets@)
        + workload_nodes("StatefulSet"@, c.stateful_sets@) + workload_nodes(
        "DaemonSet"@,
        c.daemon_sets@,
    ) + workload_nodes("Pod"@, c.pods@) + service_nodes(c.services@) + ingress_nodes(c.ingresses@)
}

/// Which owners of an object become edges: all of them, or those of one kind.
pub open spec fn counts_as_owner(o: Owner, only: Option<Seq<char>>) -> bool {
    only matches Some(kind) ==> o.kind@ == kind
}

/// The `owns` edges of one object, in the order of its owner references.
pub open spec fn owner_edges(
    kind: Seq<char>,
    name: Seq<char>,
    ns: Option<String>,
    owners: Seq<Owner>,
    only: Option<Seq<char>>,
) -> Seq<EdgeView>
    decreases owners.len(),
{
    if owners.len() == 0 {
        Seq::empty()
    } else {
        let o = owners.last();
        let before = owner_edges(kind, name, ns, owners.drop_last(), only);
        if counts_as_owner(o, only) {
            before.push(
                EdgeView {
                    from: node_of(o.kind@, o.name@, ns),
                    to: node_of(kind, name, ns),
                    relation: "owns"@,
                },
            )
        } else {
            before
        }
    }
}

/// The `owns` edges of all objects of a kind.
pub open spec fn all_owner_edges(kind: Seq<char>, s: Seq<Listed>, only: Option<Seq<char>>) -> Seq<
    EdgeView,
>
    decreases s.len(),
{
    if s.len() == 0 {
        Seq::empty()
    } else {
        let x = s.last();
        all_owner_edges(kind, s.drop_last(), only) + owner_edges(
            kind,
            text_or_nothing(x.name),
            x.namespace,
            x.owners@,
            only,
        )
    }
}

/// `selector` asks for nothing that `labels` does not have.
pub open spec fn selects(selector: TextMap, labels: TextMap) -> bool {
    forall|i: int|
        0 <= i < selector.entries@.len() ==> lookup(
            labels.entries@,
            (#[trigger] selector.entries@[i]).0@,
        ) == Some(selector.entries@[i].1@)
}

/// A Service with this selector in this namespace stands in front of `pod`.
pub open spec fn backs(selector: TextMap, ns: Option<String>, pod: Listed) -> bool {
    &&& text_or_nothing(pod.namespace) == text_or_nothing(ns)
    &&& pod.labels is Some
    &&& selects(selector, pod.labels->0)
}

/// The `selects` edges of one Service with this selector.
pub open spec fn selected_edges(
    name: Seq<char>,
    ns: Option<String>,
    selector: TextMap,
    pods: Seq<Listed>,
) -> Seq<EdgeView>
    decreases pods.len(),
{
    if pods.len() == 0 {
        Seq::empty()
    } else {
        let before = selected_edges(name, ns, selector, pods.drop_last());
        let pod = pods.last();
        if backs(selector, ns, pod) {
            before.push(
                EdgeView {
                    from: node_of("Service"@, name, ns),
                    to: node_of("Pod"@, text_or_nothing(pod.name), ns),
                    relation: "selects"@,
                },
            )
        } else {
            before
        }
    }
}

/// The `selects` edges of one Service. One without a selector, or with an empty
/// one, selects nothing.
pub open spec fn one_service_edges(svc: ListedService, pods: Seq<Listed>) -> Seq<EdgeView> {
    match svc.selector {
        Some(sel) => if sel.entries@.len() == 0 {
            Seq::empty()
        } else {
            selected_edges(text_or_nothing(svc.name), svc.namespace, sel, pods)
        },
        None => Seq::empty(),
    }
}

pub open spec fn service_edges(s: Seq<ListedService>, pods: Seq<Listed>) -> Seq<EdgeView>
    decreases s.len(),
{
    if s.len() == 0 {
        Seq::empty()
    } else {
        service_edges(s.drop_last(), pods) + one_service_edges(s.last(), pods)
    }
}

/// The `routes` edges of the paths of one rule: one for each backend Service
/// that has a name.
pub open spec fn path_edges(
    name: Seq<char>,
    ns: Option<String>,
    paths: Seq<Option<String>>,
) -> Seq<EdgeView>
    decreases paths.len(),
{
    if paths.len() == 0 {
        Seq::empty()
    } else {
        let before = path_edges(name, ns, paths.drop_last());
        match paths.last() {
            Some(svc) => if svc@.len() == 0 {
                before
            } else {
                before.push(
                    EdgeView {
                        from: node_of("Ingress"@, name, ns),
                        to: node_of("Service"@, svc@, ns),
                        relation: "routes"@,
                    },
                )
            },
            None => before,
        }
    }
}

pub open spec fn rule_edges(
    name: Seq<char>,
    ns: Option<String>,
    rules: Seq<Option<Vec<Option<String>>>>,
) -> Seq<EdgeView>
    decreases rules.len(),
{
    if rules.len() == 0 {
        Seq::empty()
    } else {
        let before = rule_edges(name, ns, rules.drop_last());
        match rules.last() {
            Some(paths) => before + path_edges(name, ns, paths@),
            None => before,
        }
    }
}

pub open spec fn ingress_edges(s: Seq<ListedIngress>) -> Seq<EdgeView>
    decreases s.len(),
{
    if s.len() == 0 {
        Seq::empty()
    } else {
        let x = s.last();
        ingress_edges(s.drop_last()) + rule_edges(text_or_nothing(x.name), x.namespace, x.rules@)
    }
}

/// Every edge, in the order in which the kinds are listed.
pub open spec fn listed_edges(c: ClusterObjects) -> Seq<EdgeView> {
    all_owner_edges("ReplicaSet"@, c.replica_sets@, Some("Deployment"@)) + all_owner_edges(
        "Pod"@,
        c.pods@,
        None,
    ) + service_edges(c.services@, c.pods@) + ingress_edges(c.ingresses@)
}

// ---------------------------------------------------------------------------
// Building it
// ---------------------------------------------------------------------------

fn same_opt(a: &Option<String>, b: &Option<String>) -> (r: bool)
    ensures
        r == (opt_text(*a) == opt_text(*b)),
{
    match (a, b) {
        (Some(x), Some(y)) => same(x.as_str(), y.as_str()),
        (None, None) => true,
        _ => false,
    }
}

fn make_node(kind: &str, name: &str, ns: &Option<String>) -> (r: GraphNode)
    ensures
        r@ == node_of(kind@, name@, *ns),
{
    let key = make_key(kind, name, ns);
    GraphNode { kind: key.0, name: key.1, namespace: key.2 }
}

/// Adds a node unless it is there already.
fn add_node(nodes: &mut Vec<GraphNode>, kind: &str, name: &str, ns: &Option<String>)
    ensures
        views(final(nodes)@) == (if views(old(nodes)@).contains(node_of(kind@, name@, *ns)) {
            views(old(nodes)@)
        } else {
            views(old(nodes)@).push(node_of(kind@, name@, *ns))
        }),
{
    let ghost all = nodes@;
    let ghost n = node_of(kind@, name@, *ns);
    let mut i: usize = 0;
    while i < nodes.len()
        invariant
            nodes@ == all,
            i <= all.len(),
            n == node_of(kind@, name@, *ns),
            forall|j: int| 0 <= j < i ==> views(all)[j] != n,
        decreases all.len() - i,
    {
        assert(views(all)[i as int] == all[i as int]@);
        if same(nodes[i].kind.as_str(), kind) && same(nodes[i].name.as_str(), name) && same_opt(
            &nodes[i].namespace,
            ns,
        ) {
            assert(views(all)[i as int] == n);
            return;
        }
        i += 1;
    }
    let node = make_node(kind, name, ns);
    proof {
        lemma_views_push(all, node);
    }
    nodes.push(node);
}

proof fn lemma_distinct_next(s: Seq<NodeView>, x: NodeView)
    ensures
        distinct(s.push(x)) == (if distinct(s).contains(x) {
            distinct(s)
        } else {
            distinct(s).push(x)
        }),
{
    assert(s.push(x).drop_last() =~= s);
}

fn add_edge(edges: &mut Vec<GraphEdge>, from: GraphNode, to: GraphNode, relation: &str)
    ensures
        views(final(edges)@) == views(old(edges)@).push(
            EdgeView { from: from@, to: to@, relation: relation@ },
        ),
{
    let e = GraphEdge { from, to, relation: relation.to_owned() };
    proof {
        lemma_views_push(edges@, e);
    }
    edges.push(e);
}

fn add_owner_edges(
    edges: &mut Vec<GraphEdge>,
    kind: &str,
    name: &str,
    ns: &Option<String>,
    owners: &Vec<Owner>,
    only: Option<&str>,
)
    ensures
        views(final(edges)@) == views(old(edges)@) + owner_edges(
            kind@,
            name@,
            *ns,
            owners@,
            (match only {
                Some(k) => Some(k@),
                None => None,
            }),
        ),
{
    let ghost before = views(edges@);
    let ghost wanted: Option<Seq<char>> = match only {
        Some(k) => Some(k@),
        None => None,
    };
    let mut i: usize = 0;
    assert(views(edges@) =~= before + owner_edges(kind@, name@, *ns, owners@.take(0), wanted));
    while i < owners.len()
        invariant
            i <= owners@.len(),
            wanted == (match only {
                Some(k) => Some(k@),
                None => None,
            }),
            views(edges@) == before + owner_edges(
                kind@,
                name@,
                *ns,
                owners@.take(i as int),
                wanted,
            ),
        decreases owners@.len() - i,
    {
        assert(owners@.take(i + 1).drop_last() =~= owners@.take(i as int));
        let wants = match only {
            Some(k) => same(owners[i].kind.as_str(), k),
            None => true,
        };
        if wants {
            let from = make_node(owners[i].kind.as_str(), owners[i].name.as_str(), ns);
            let to = make_node(kind, name, ns);
            add_edge(edges, from, to, "owns");
        }
        i += 1;
        assert(views(edges@) =~= before + owner_edges(
            kind@,
            name@,
            *ns,
            owners@.take(i as int),
            wanted,
        ));
    }
    assert(owners@.take(i as int) =~= owners@);
}

/// Adds the nodes of one kind, and their `owns` edges if `owned` says so.
fn add_workloads(
    nodes: &mut Vec<GraphNode>,
    edges: &mut Vec<GraphEdge>,
    kind: &str,
    list: &Vec<Listed>,
    owned: bool,
    only: Option<&str>,
    Ghost(done): Ghost<Seq<NodeView>>,
)
    requires
        views(old(nodes)@) == distinct(done),
    ensures
        views(final(nodes)@) == distinct(done + workload_nodes(kind@, list@)),
        views(final(edges)@) == (if owned {
            views(old(edges)@) + all_owner_edges(
                kind@,
                list@,
                (match only {
                    Some(k) => Some(k@),
                    None => None,
                }),
            )
        } else {
            views(old(edges)@)
        }),
{
    let ghost before = views(edges@);
    let ghost wanted: Option<Seq<char>> = match only {
        Some(k) => Some(k@),
        None => None,
    };
    let mut i: usize = 0;
    proof {
        assert(done + workload_nodes(kind@, list@.take(0)) =~= done);
        assert(before + all_owner_edges(kind@, list@.take(0), wanted) =~= before);
    }
    while i < list.len()
        invariant
            i <= list@.len(),
            wanted == (match only {
                Some(k) => Some(k@),
                None => None,
            }),
            views(nodes@) == distinct(done + workload_nodes(kind@, list@.take(i as int))),
            views(edges@) == (if owned {
                before + all_owner_edges(kind@, list@.take(i as int), wanted)
            } else {
                before
            }),
        decreases list@.len() - i,
    {
        let x = &list[i];
        let name = or_empty(&x.name);
        proof {
            let upto = done + workload_nodes(kind@, list@.take(i as int));
            let n = node_of(kind@, name@, x.namespace);
            lemma_distinct_next(upto, n);
            assert(done + workload_nodes(kind@, list@.take(i + 1)) =~= upto.push(n));
            assert(list@.take(i + 1).drop_last() =~= list@.take(i as int));
        }
        add_node(nodes, kind, name.as_str(), &x.namespace);
        if owned {
            let ghost e = views(edges@);
            add_owner_edges(edges, kind, name.as_str(), &x.namespace, &x.owners, only);
            assert(views(edges@) =~= before + all_owner_edges(kind@, list@.take(i + 1), wanted));
        }
        i += 1;
    }
    assert(list@.take(i as int) =~= list@);
}

fn selector_matches(selector: &TextMap, labels: &TextMap) -> (r: bool)
    ensures
        r == selects(*selector, *labels),
{
    let mut i: usize = 0;
    while i < selector.entries.len()
        invariant
            i <= selector.entries@.len(),
            forall|j: int|
                0 <= j < i ==> lookup(labels.entries@, (#[trigger] selector.entries@[j]).0@) == Some(
                    selector.entries@[j].1@,
                ),
        decreases selector.entries@.len() - i,
    {
        let found = match labels.get(selector.entries[i].0.as_str()) {
            Some(v) => same(v.as_str(), selector.entries[i].1.as_str()),
            None => false,
        };
        if !found {
            assert(lookup(labels.entries@, selector.entries@[i as int].0@) != Some(
                selector.entries@[i as int].1@,
            ));
            return false;
        }
        i += 1;
    }
    true
}

fn add_selected(
    edges: &mut Vec<GraphEdge>,
    name: &str,
    ns: &Option<String>,
    selector: &TextMap,
    pods: &Vec<Listed>,
)
    ensures
        views(final(edges)@) == views(old(edges)@) + selected_edges(name@, *ns, *selector, pods@),
{
    let ghost before = views(edges@);
    let mut i: usize = 0;
    assert(views(edges@) =~= before + selected_edges(name@, *ns, *selector, pods@.take(0)));
    while i < pods.len()
        invariant
            i <= pods@.len(),
            views(edges@) == before + selected_edges(
                name@,
                *ns,
                *selector,
                pods@.take(i as int),
            ),
        decreases pods@.len() - i,
    {
        assert(pods@.take(i + 1).drop_last() =~= pods@.take(i as int));
        let pod = &pods[i];
        let here = or_empty(&pod.namespace);
        let there = or_empty(ns);
        let hit = same(here.as_str(), there.as_str()) && match &pod.labels {
            Some(labels) => selector_matches(selector, labels),
            None => false,
        };
        if hit {
            let pod_name = or_empty(&pod.name);
            let from = make_node("Service", name, ns);
            let to = make_node("Pod", pod_name.as_str(), ns);
            add_edge(edges, from, to, "selects");
        }
        i += 1;
        assert(views(edges@) =~= before + selected_edges(
            name@,
            *ns,
            *selector,
            pods@.take(i as int),
        ));
    }
    assert(pods@.take(i as int) =~= pods@);
}

fn add_services(
    nodes: &mut Vec<GraphNode>,
    edges: &mut Vec<GraphEdge>,
    list: &Vec<ListedService>,
    pods: &Vec<Listed>,
    Ghost(done): Ghost<Seq<NodeView>>,
)
    requires
        views(old(nodes)@) == distinct(done),
    ensures
        views(final(nodes)@) == distinct(done + service_nodes(list@)),
        views(final(edges)@) == views(old(edges)@) + service_edges(list@, pods@),
{
    let ghost before = views(edges@);
    let mut i: usize = 0;
    proof {
        assert(done + service_nodes(list@.take(0)) =~= done);
        assert(before + service_edges(list@.take(0), pods@) =~= before);
    }
    while i < list.len()
        invariant
            i <= list@.len(),
            views(nodes@) == distinct(done + service_nodes(list@.take(i as int))),
            views(edges@) == before + service_edges(list@.take(i as int), pods@),
        decreases list@.len() - i,
    {
        let x = &list[i];
        let name = or_empty(&x.name);
        proof {
            let upto = done + service_nodes(list@.take(i as int));
            let n = node_of("Service"@, name@, x.namespace);
            lemma_distinct_next(upto, n);
            assert(done + service_nodes(list@.take(i + 1)) =~= upto.push(n));
            assert(list@.take(i + 1).drop_last() =~= list@.take(i as int));
        }
        add_node(nodes, "Service", name.as_str(), &x.namespace);
        if let Some(selector) = &x.selector {
            if selector.entries.len() > 0 {
                add_selected(edges, name.as_str(), &x.namespace, selector, pods);
            }
        }
        i += 1;
        assert(views(edges@) =~= before + service_edges(list@.take(i as int), pods@));
    }
    assert(list@.take(i as int) =~= list@);
}

fn add_paths(
    edges: &mut Vec<GraphEdge>,
    name: &str,
    ns: &Option<String>,
    paths: &Vec<Option<String>>,
)
    ensures
        views(final(edges)@) == views(old(edges)@) + path_edges(name@, *ns, paths@),
{
    let ghost before = views(edges@);
    let mut i: usize = 0;
    assert(views(edges@) =~= before + path_edges(name@, *ns, paths@.take(0)));
    while i < paths.len()
        invariant
            i <= paths@.len(),
            views(edges@) == before + path_edges(name@, *ns, paths@.take(i as int)),
        decreases paths@.len() - i,
    {
        assert(paths@.take(i + 1).drop_last() =~= paths@.take(i as int));
        if let Some(svc) = &paths[i] {
            if !svc.as_str().is_empty() {
                let from = make_node("Ingress", name, ns);
                let to = make_node("Service", svc.as_str(), ns);
                add_edge(edges, from, to, "routes");
            }
        }
        i += 1;
        assert(views(edges@) =~= before + path_edges(name@, *ns, paths@.take(i as int)));
    }
    assert(paths@.take(i as int) =~= paths@);
}

fn add_rules(
    edges: &mut Vec<GraphEdge>,
    name: &str,
    ns: &Option<String>,
    rules: &Vec<Option<Vec<Option<String>>>>,
)
    ensures
        views(final(edges)@) == views(old(edges)@) + rule_edges(name@, *ns, rules@),
{
    let ghost before = views(edges@);
    let mut i: usize = 0;
    assert(views(edges@) =~= before + rule_edges(name@, *ns, rules@.take(0)));
    while i < rules.len()
        invariant
            i <= rules@.len(),
            views(edges@) == before + rule_edges(name@, *ns, rules@.take(i as int)),
        decreases rules@.len() - i,
    {
        assert(rules@.take(i + 1).drop_last() =~= rules@.take(i as int));
        if let Some(paths) = &rules[i] {
            add_paths(edges, name, ns, paths);
        }
        i += 1;
        assert(views(edges@) =~= before + rule_edges(name@, *ns, rules@.take(i as int)));
    }
    assert(rules@.take(i as int) =~= rules@);
}

fn add_ingresses(
    nodes: &mut Vec<GraphNode>,
    edges: &mut Vec<GraphEdge>,
    list: &Vec<ListedIngress>,
    Ghost(done): Ghost<Seq<NodeView>>,
)
    requires
        views(old(nodes)@) == distinct(done),
    ensures
        views(final(nodes)@) == distinct(done + ingress_nodes(list@)),
        views(final(edges)@) == views(old(edges)@) + ingress_edges(list@),
{
    let ghost before = views(edges@);
    let mut i: usize = 0;
    proof {
        assert(done + ingress_nodes(list@.take(0)) =~= done);
        assert(before + ingress_edges(list@.take(0)) =~= before);
    }
    while i < list.len()
        invariant
            i <= list@.len(),
            views(nodes@) == distinct(done + ingress_nodes(list@.take(i as int))),
            views(edges@) == before + ingress_edges(list@.take(i as int)),
        decreases list@.len() - i,
    {
        let x = &list[i];
        let name = or_empty(&x.name);
        proof {
            let upto = done + ingress_nodes(list@.take(i as int));
            let n = node_of("Ingress"@, name@, x.namespace);
            lemma_distinct_next(upto, n);
            assert(done + ingress_nodes(list@.take(i + 1)) =~= upto.push(n));
            assert(list@.take(i + 1).drop_last() =~= list@.take(i as int));
        }
        add_node(nodes, "Ingress", name.as_str(), &x.namespace);
        add_rules(edges, name.as_str(), &x.namespace, &x.rules);
        i += 1;
        assert(views(edges@) =~= before + ingress_edges(list@.take(i as int)));
    }
    assert(list@.take(i as int) =~= list@);
}

/// Builds the graph of everything the cluster lists: one node for each object,
/// `owns` edges from owner references, `selects` edges from Services to the pods
/// that their selectors match, and `routes` edges from Ingresses to the Services
/// behind them.
pub fn build_dependency_graph(c: &ClusterObjects) -> (r: DependencyGraph)
    ensures
        views(r.nodes@) == distinct(listed_nodes(*c)),
        views(r.edges@) == listed_edges(*c),
{
    let mut nodes: Vec<GraphNode> = Vec::new();
    let mut edges: Vec<GraphEdge> = Vec::new();
    let ghost mut done: Seq<NodeView> = Seq::empty();
    proof {
        assert(views(nodes@) =~= distinct(done));
    }
    add_workloads(
        &mut nodes,
        &mut edges,
        "Deployment",
        &c.deployments,
        false,
        None,
        Ghost(done),
    );
    proof {
        done = workload_nodes("Deployment"@, c.deployments@);
        assert(Seq::<NodeView>::empty() + done =~= done);
    }
    add_workloads(
        &mut nodes,
        &mut edges,
        "ReplicaSet",
        &c.replica_sets,
        true,
        Some("Deployment"),
        Ghost(done),
    );
    proof {
        done = done + workload_nodes("ReplicaSet"@, c.replica_sets@);
    }
    add_workloads(
        &mut nodes,
        &mut edges,
        "StatefulSet",
        &c.stateful_sets,
        false,
        None,
        Ghost(done),
    );
    proof {
        done = done + workload_nodes("StatefulSet"@, c.stateful_sets@);
    }
    add_workloads(
        &mut nodes,
        &mut edges,
        "DaemonSet",
        &c.daemon_sets,
        false,
        None,
        Ghost(done),
    );
    proof {
        done = done + workload_nodes("DaemonSet"@, c.daemon_sets@);
    }
    add_workloads(&mut nodes, &mut edges, "Pod", &c.pods, true, None, Ghost(done));
    proof {
        done = done + workload_nodes("Pod"@, c.pods@);
    }
    add_services(&mut nodes, &mut edges, &c.services, &c.pods, Ghost(done));
    proof {
        done = done + service_nodes(c.services@);
    }
    add_ingresses(&mut nodes, &mut edges, &c.ingresses, Ghost(done));
    assert(views(edges@) =~= listed_edges(*c));
    DependencyGraph { nodes, edges }
}

// ---------------------------------------------------------------------------
// Laws
// ---------------------------------------------------------------------------

/// No resource stands in the graph twice, every listed object stands in it, and
/// nothing else does.
pub proof fn law_each_object_once(c: ClusterObjects)
    ensures
        distinct(listed_nodes(c)).no_duplicates(),
        forall|n: NodeView|
            distinct(listed_nodes(c)).contains(n) <==> #[trigger] listed_nodes(c).contains(n),
{
    lemma_distinct(listed_nodes(c));
}

proof fn lemma_selected_target(
    name: Seq<char>,
    ns: Option<String>,
    selector: TextMap,
    pods: Seq<Listed>,
    k: int,
)
    requires
        0 <= k < selected_edges(name, ns, selector, pods).len(),
    ensures
        ({
            let e = selected_edges(name, ns, selector, pods)[k];
            &&& e.from == node_of("Service"@, name, ns)
            &&& e.relation == "selects"@
            &&& exists|i: int|
                #![trigger pods[i]]
                0 <= i < pods.len() && backs(selector, ns, pods[i]) && e.to == node_of(
                    "Pod"@,
                    text_or_nothing(pods[i].name),
                    ns,
                )
        }),
    decreases pods.len(),
{
    let front = pods.drop_last();
    let before = selected_edges(name, ns, selector, front);
    if k < before.len() {
        lemma_selected_target(name, ns, selector, front, k);
        let e = selected_edges(name, ns, selector, pods)[k];
        let i = choose|i: int|
            #![trigger front[i]]
            0 <= i < front.len() && backs(selector, ns, front[i]) && e.to == node_of(
                "Pod"@,
                text_or_nothing(front[i].name),
                ns,
            );
        assert(pods[i] == front[i]);
    } else {
        assert(pods[pods.len() - 1] == pods.last());
    }
}

/// Every `selects` edge leads from its Service to a listed pod of the same
/// namespace that has all the labels the Service asks for.
pub proof fn law_selected_pods_match(svc: ListedService, pods: Seq<Listed>, k: int)
    requires
        0 <= k < one_service_edges(svc, pods).len(),
    ensures
        svc.selector is Some,
        ({
            let e = one_service_edges(svc, pods)[k];
            &&& e.relation == "selects"@
            &&& e.from == node_of("Service"@, text_or_nothing(svc.name), svc.namespace)
            &&& exists|i: int|
                #![trigger pods[i]]
                0 <= i < pods.len() && backs(svc.selector->0, svc.namespace, pods[i]) && e.to
                    == node_of("Pod"@, text_or_nothing(pods[i].name), svc.namespace)
        }),
{
    lemma_selected_target(
        text_or_nothing(svc.name),
        svc.namespace,
        svc.selector->0,
        pods,
        k,
    );
}

proof fn lemma_matching_pod_selected(
    name: Seq<char>,
    ns: Option<String>,
    selector: TextMap,
    pods: Seq<Listed>,
    i: int,
)
    requires
        0 <= i < pods.len(),
        backs(selector, ns, pods[i]),
    ensures
        selected_edges(name, ns, selector, pods).contains(
            EdgeView {
                from: node_of("Service"@, name, ns),
                to: node_of("Pod"@, text_or_nothing(pods[i].name), ns),
                relation: "selects"@,
            },
        ),
    decreases pods.len(),
{
    let before = selected_edges(name, ns, selector, pods.drop_last());
    let all = selected_edges(name, ns, selector, pods);
    let e = EdgeView {
        from: node_of("Service"@, name, ns),
        to: node_of("Pod"@, text_or_nothing(pods[i].name), ns),
        relation: "selects"@,
    };
    if i == pods.len() - 1 {
        assert(all == before.push(e));
        assert(all[before.len() as int] == e);
    } else {
        lemma_matching_pod_selected(name, ns, selector, pods.drop_last(), i);
        let k = before.index_of(e);
        assert(all[k] == e);
    }
}

/// A Service that asks for at least one label has a `selects` edge to every listed
/// pod of its namespace that has all the labels it asks for.
pub proof fn law_matching_pods_are_selected(svc: ListedService, pods: Seq<Listed>, i: int)
    requires
        0 <= i < pods.len(),
        svc.selector is Some,
        svc.selector->0.entries@.len() > 0,
        backs(svc.selector->0, svc.namespace, pods[i]),
    ensures
        one_service_edges(svc, pods).contains(
            EdgeView {
                from: node_of("Service"@, text_or_nothing(svc.name), svc.namespace),
                to: node_of("Pod"@, text_or_nothing(pods[i].name), svc.namespace),
                relation: "selects"@,
            },
        ),
{
    lemma_matching_pod_selected(
        text_or_nothing(svc.name),
        svc.namespace,
        svc.selector->0,
        pods,
        i,
    );
}

proof fn lemma_owner_edges(
    kind: Seq<char>,
    name: Seq<char>,
    ns: Option<String>,
    owners: Seq<Owner>,
    only: Option<Seq<char>>,
    e: EdgeView,
)
    ensures
        owner_edges(kind, name, ns, owners, only).contains(e) <==> exists|i: int|
            #![trigger owners[i]]
            0 <= i < owners.len() && counts_as_owner(owners[i], only) && e == (EdgeView {
                from: node_of(owners[i].kind@, owners[i].name@, ns),
                to: node_of(kind, name, ns),
                relation: "owns"@,
            }),
    decreases owners.len(),
{
    broadcast use vstd::seq_lib::lemma_seq_contains_after_push;

    let all = owner_edges(kind, name, ns, owners, only);
    if owners.len() > 0 {
        let front = owners.drop_last();
        lemma_owner_edges(kind, name, ns, front, only, e);
        assert(owners[owners.len() - 1] == owners.last());
        if owner_edges(kind, name, ns, front, only).contains(e) {
            let i = choose|i: int|
                #![trigger front[i]]
                0 <= i < front.len() && counts_as_owner(front[i], only) && e == (EdgeView {
                    from: node_of(front[i].kind@, front[i].name@, ns),
                    to: node_of(kind, name, ns),
                    relation: "owns"@,
                });
            assert(owners[i] == front[i]);
        }
        if exists|i: int|
            #![trigger owners[i]]
            0 <= i < owners.len() && counts_as_owner(owners[i], only) && e == (EdgeView {
                from: node_of(owners[i].kind@, owners[i].name@, ns),
                to: node_of(kind, name, ns),
                relation: "owns"@,
            }) {
            let i = choose|i: int|
                #![trigger owners[i]]
                0 <= i < owners.len() && counts_as_owner(owners[i], only) && e == (EdgeView {
                    from: node_of(owners[i].kind@, owners[i].name@, ns),
                    to: node_of(kind, name, ns),
                    relation: "owns"@,
                });
            if i < front.len() {
                assert(front[i] == owners[i]);
            }
        }
    }
}

spec fn is_owner_edge(e: EdgeView, kind: Seq<char>, x: Listed, o: Owner) -> bool {
    &&& e.relation == "owns"@
    &&& e.from.kind == o.kind@
    &&& e.from.name == o.name@
    &&& e.from.namespace == opt_text(x.namespace)
    &&& e.to.kind == kind
    &&& e.to.name == text_or_nothing(x.name)
    &&& e.to.namespace == opt_text(x.namespace)
}

proof fn lemma_all_owner_edges(
    kind: Seq<char>,
    s: Seq<Listed>,
    only: Option<Seq<char>>,
    e: EdgeView,
)
    ensures
        all_owner_edges(kind, s, only).contains(e) <==> exists|p: int, i: int|
            #![trigger s[p].owners@[i]]
            0 <= p < s.len() && 0 <= i < s[p].owners@.len() && counts_as_owner(
                s[p].owners@[i],
                only,
            ) && is_owner_edge(e, kind, s[p], s[p].owners@[i]),
    decreases s.len(),
{
    broadcast use vstd::seq_lib::lemma_seq_concat_contains_all_elements;

    if s.len() > 0 {
        let front = s.drop_last();
        let x = s.last();
        lemma_all_owner_edges(kind, front, only, e);
        let name = text_or_nothing(x.name);
        lemma_owner_edges(kind, name, x.namespace, x.owners@, only, e);
        assert(s[s.len() - 1] == x);
        if all_owner_edges(kind, front, only).contains(e) {
            let (p, i) = choose|p: int, i: int|
                #![trigger front[p].owners@[i]]
                0 <= p < front.len() && 0 <= i < front[p].owners@.len() && counts_as_owner(
                    front[p].owners@[i],
                    only,
                ) && is_owner_edge(e, kind, front[p], front[p].owners@[i]);
            assert(s[p].owners@[i] == front[p].owners@[i]);
        }
        if owner_edges(kind, name, x.namespace, x.owners@, only).contains(e) {
            let i = choose|i: int|
                #![trigger x.owners@[i]]
                0 <= i < x.owners@.len() && counts_as_owner(x.owners@[i], only) && e == (EdgeView {
                    from: node_of(x.owners@[i].kind@, x.owners@[i].name@, x.namespace),
                    to: node_of(kind, name, x.namespace),
                    relation: "owns"@,
                });
            assert(s[s.len() - 1].owners@[i] == x.owners@[i]);
        }
        if exists|p: int, i: int|
            #![trigger s[p].owners@[i]]
            0 <= p < s.len() && 0 <= i < s[p].owners@.len() && counts_as_owner(
                s[p].owners@[i],
                only,
            ) && is_owner_edge(e, kind, s[p], s[p].owners@[i]) {
            let (p, i) = choose|p: int, i: int|
                #![trigger s[p].owners@[i]]
                0 <= p < s.len() && 0 <= i < s[p].owners@.len() && counts_as_owner(
                    s[p].owners@[i],
                    only,
                ) && is_owner_edge(e, kind, s[p], s[p].owners@[i]);
            if p < front.len() {
                assert(front[p].owners@[i] == s[p].owners@[i]);
            } else {
                assert(x.owners@[i] == s[p].owners@[i]);
                assert(e == (EdgeView {
                    from: node_of(x.owners@[i].kind@, x.owners@[i].name@, x.namespace),
                    to: node_of(kind, name, x.namespace),
                    relation: "owns"@,
                }));
            }
        }
    }
}

/// A Service leads to a pod: it asks for at least one label, the pod stands in its
/// namespace, and has every label that it asks for.
spec fn leads_to(svc: ListedService, pod: Listed) -> bool {
    &&& svc.selector is Some
    &&& svc.selector->0.entries@.len() > 0
    &&& text_or_nothing(svc.namespace) == text_or_nothing(pod.namespace)
    &&& pod.labels is Some
    &&& forall|i: int|
        0 <= i < svc.selector->0.entries@.len() ==> {
            let wanted = #[trigger] svc.selector->0.entries@[i];
            pod.labels->0@.contains_key(wanted.0@) && pod.labels->0@[wanted.0@] == wanted.1@
        }
}

spec fn is_select_edge(e: EdgeView, svc: ListedService, pod: Listed) -> bool {
    &&& e.relation == "selects"@
    &&& e.from.kind == "Service"@
    &&& e.from.name == text_or_nothing(svc.name)
    &&& e.from.namespace == opt_text(svc.namespace)
    &&& e.to.kind == "Pod"@
    &&& e.to.name == text_or_nothing(pod.name)
    &&& e.to.namespace == opt_text(svc.namespace)
}

proof fn lemma_leads_to(svc: ListedService, pod: Listed)
    ensures
        leads_to(svc, pod) <==> svc.selector is Some && svc.selector->0.entries@.len() > 0 && backs(
            svc.selector->0,
            svc.namespace,
            pod,
        ),
{
    if svc.selector is Some && pod.labels is Some {
        let sel = svc.selector->0.entries@;
        let labels = pod.labels->0;
        assert forall|i: int| 0 <= i < sel.len() implies (lookup(labels.entries@, (#[trigger] sel[i]).0@)
            == Some(sel[i].1@) <==> labels@.contains_key(sel[i].0@) && labels@[sel[i].0@]
            == sel[i].1@) by {
            assert(labels@.contains_key(sel[i].0@) <==> lookup(labels.entries@, sel[i].0@) is Some);
        }
        if selects(svc.selector->0, labels) {
            assert forall|i: int| 0 <= i < sel.len() implies labels@.contains_key(
                (#[trigger] sel[i]).0@,
            ) && labels@[sel[i].0@] == sel[i].1@ by {
                assert(lookup(labels.entries@, svc.selector->0.entries@[i].0@) == Some(sel[i].1@));
            }
        }
        if leads_to(svc, pod) {
            assert forall|i: int| 0 <= i < sel.len() implies lookup(
                labels.entries@,
                (#[trigger] sel[i]).0@,
            ) == Some(sel[i].1@) by {
                assert(labels@.contains_key(svc.selector->0.entries@[i].0@));
            }
        }
    }
}

proof fn lemma_one_service_edges(svc: ListedService, pods: Seq<Listed>, e: EdgeView)
    ensures
        one_service_edges(svc, pods).contains(e) <==> exists|p: int|
            #![trigger pods[p]]
            0 <= p < pods.len() && leads_to(svc, pods[p]) && is_select_edge(e, svc, pods[p]),
{
    let all = one_service_edges(svc, pods);
    if all.contains(e) {
        let k = choose|k: int| 0 <= k < all.len() && all[k] == e;
        law_selected_pods_match(svc, pods, k);
        let p = choose|p: int|
            #![trigger pods[p]]
            0 <= p < pods.len() && backs(svc.selector->0, svc.namespace, pods[p]) && e.to
                == node_of("Pod"@, text_or_nothing(pods[p].name), svc.namespace);
        lemma_leads_to(svc, pods[p]);
        assert(is_select_edge(e, svc, pods[p]));
    }
    if exists|p: int|
        #![trigger pods[p]]
        0 <= p < pods.len() && leads_to(svc, pods[p]) && is_select_edge(e, svc, pods[p]) {
        let p = choose|p: int|
            #![trigger pods[p]]
            0 <= p < pods.len() && leads_to(svc, pods[p]) && is_select_edge(e, svc, pods[p]);
        lemma_leads_to(svc, pods[p]);
        law_matching_pods_are_selected(svc, pods, p);
        assert(e == (EdgeView {
            from: node_of("Service"@, text_or_nothing(svc.name), svc.namespace),
            to: node_of("Pod"@, text_or_nothing(pods[p].name), svc.namespace),
            relation: "selects"@,
        }));
    }
}

proof fn lemma_service_edges(s: Seq<ListedService>, pods: Seq<Listed>, e: EdgeView)
    ensures
        service_edges(s, pods).contains(e) <==> exists|k: int, p: int|
            #![trigger s[k], pods[p]]
            0 <= k < s.len() && 0 <= p < pods.len() && leads_to(s[k], pods[p]) && is_select_edge(
                e,
                s[k],
                pods[p],
            ),
    decreases s.len(),
{
    broadcast use vstd::seq_lib::lemma_seq_concat_contains_all_elements;

    if s.len() > 0 {
        let front = s.drop_last();
        lemma_service_edges(front, pods, e);
        lemma_one_service_edges(s.last(), pods, e);
        assert(s[s.len() - 1] == s.last());
        if service_edges(front, pods).contains(e) {
            let (k, p) = choose|k: int, p: int|
                #![trigger front[k], pods[p]]
                0 <= k < front.len() && 0 <= p < pods.len() && leads_to(front[k], pods[p])
                    && is_select_edge(e, front[k], pods[p]);
            assert(s[k] == front[k]);
        }
        if exists|k: int, p: int|
            #![trigger s[k], pods[p]]
            0 <= k < s.len() && 0 <= p < pods.len() && leads_to(s[k], pods[p]) && is_select_edge(
                e,
                s[k],
                pods[p],
            ) {
            let (k, p) = choose|k: int, p: int|
                #![trigger s[k], pods[p]]
                0 <= k < s.len() && 0 <= p < pods.len() && leads_to(s[k], pods[p])
                    && is_select_edge(e, s[k], pods[p]);
            if k < front.len() {
                assert(front[k] == s[k]);
            }
        }
    }
}

spec fn is_route_edge(e: EdgeView, x: ListedIngress, path: Option<String>) -> bool {
    &&& path is Some
    &&& path->0@.len() > 0
    &&& e.relation == "routes"@
    &&& e.from.kind == "Ingress"@
    &&& e.from.name == text_or_nothing(x.name)
    &&& e.from.namespace == opt_text(x.namespace)
    &&& e.to.kind == "Service"@
    &&& e.to.name == path->0@
    &&& e.to.namespace == opt_text(x.namespace)
}

proof fn lemma_path_edges(x: ListedIngress, paths: Seq<Option<String>>, e: EdgeView)
    ensures
        path_edges(text_or_nothing(x.name), x.namespace, paths).contains(e) <==> exists|i: int|
            0 <= i < paths.len() && is_route_edge(e, x, #[trigger] paths[i]),
    decreases paths.len(),
{
    broadcast use vstd::seq_lib::lemma_seq_contains_after_push;

    if paths.len() > 0 {
        let front = paths.drop_last();
        lemma_path_edges(x, front, e);
        assert(paths[paths.len() - 1] == paths.last());
        let name = text_or_nothing(x.name);
        if path_edges(name, x.namespace, front).contains(e) {
            let i = choose|i: int|
                0 <= i < front.len() && is_route_edge(e, x, #[trigger] front[i]);
            assert(paths[i] == front[i]);
        }
        if exists|i: int| 0 <= i < paths.len() && is_route_edge(e, x, #[trigger] paths[i]) {
            let i = choose|i: int|
                0 <= i < paths.len() && is_route_edge(e, x, #[trigger] paths[i]);
            if i < front.len() {
                assert(front[i] == paths[i]);
            } else {
                assert(e == (EdgeView {
                    from: node_of("Ingress"@, name, x.namespace),
                    to: node_of("Service"@, paths[i]->0@, x.namespace),
                    relation: "routes"@,
                }));
            }
        }
    }
}

proof fn lemma_rule_edges(x: ListedIngress, rules: Seq<Option<Vec<Option<String>>>>, e: EdgeView)
    ensures
        rule_edges(text_or_nothing(x.name), x.namespace, rules).contains(e) <==> exists|k: int, i: int|
            #![trigger rules[k]->0@[i]]
            0 <= k < rules.len() && rules[k] is Some && 0 <= i < rules[k]->0@.len()
                && is_route_edge(e, x, rules[k]->0@[i]),
    decreases rules.len(),
{
    broadcast use vstd::seq_lib::lemma_seq_concat_contains_all_elements;

    if rules.len() > 0 {
        let front = rules.drop_last();
        lemma_rule_edges(x, front, e);
        assert(rules[rules.len() - 1] == rules.last());
        let name = text_or_nothing(x.name);
        if rules.last() is Some {
            let paths = rules.last()->0@;
            lemma_path_edges(x, paths, e);
            if path_edges(name, x.namespace, paths).contains(e) {
                let i = choose|i: int|
                    0 <= i < paths.len() && is_route_edge(e, x, #[trigger] paths[i]);
                assert(rules[rules.len() - 1]->0@[i] == paths[i]);
            }
        }
        if rule_edges(name, x.namespace, front).contains(e) {
            let (k, i) = choose|k: int, i: int|
                #![trigger front[k]->0@[i]]
                0 <= k < front.len() && front[k] is Some && 0 <= i < front[k]->0@.len()
                    && is_route_edge(e, x, front[k]->0@[i]);
            assert(rules[k]->0@[i] == front[k]->0@[i]);
        }
        if exists|k: int, i: int|
            #![trigger rules[k]->0@[i]]
            0 <= k < rules.len() && rules[k] is Some && 0 <= i < rules[k]->0@.len()
                && is_route_edge(e, x, rules[k]->0@[i]) {
            let (k, i) = choose|k: int, i: int|
                #![trigger rules[k]->0@[i]]
                0 <= k < rules.len() && rules[k] is Some && 0 <= i < rules[k]->0@.len()
                    && is_route_edge(e, x, rules[k]->0@[i]);
            if k < front.len() {
                assert(front[k]->0@[i] == rules[k]->0@[i]);
            } else {
                assert(is_route_edge(e, x, rules.last()->0@[i]));
            }
        }
    }
}

proof fn lemma_ingress_edges(s: Seq<ListedIngress>, e: EdgeView)
    ensures
        ingress_edges(s).contains(e) <==> exists|n: int, k: int, i: int|
            #![trigger s[n].rules@[k]->0@[i]]
            0 <= n < s.len() && 0 <= k < s[n].rules@.len() && s[n].rules@[k] is Some && 0 <= i
                < s[n].rules@[k]->0@.len() && is_route_edge(e, s[n], s[n].rules@[k]->0@[i]),
    decreases s.len(),
{
    broadcast use vstd::seq_lib::lemma_seq_concat_contains_all_elements;

    if s.len() > 0 {
        let front = s.drop_last();
        let x = s.last();
        lemma_ingress_edges(front, e);
        lemma_rule_edges(x, x.rules@, e);
        assert(s[s.len() - 1] == x);
        if ingress_edges(front).contains(e) {
            let (n, k, i) = choose|n: int, k: int, i: int|
                #![trigger front[n].rules@[k]->0@[i]]
                0 <= n < front.len() && 0 <= k < front[n].rules@.len() && front[n].rules@[k] is Some
                    && 0 <= i < front[n].rules@[k]->0@.len() && is_route_edge(
                    e,
                    front[n],
                    front[n].rules@[k]->0@[i],
                );
            assert(s[n].rules@[k]->0@[i] == front[n].rules@[k]->0@[i]);
        }
        if rule_edges(text_or_nothing(x.name), x.namespace, x.rules@).contains(e) {
            let (k, i) = choose|k: int, i: int|
                #![trigger x.rules@[k]->0@[i]]
                0 <= k < x.rules@.len() && x.rules@[k] is Some && 0 <= i < x.rules@[k]->0@.len()
                    && is_route_edge(e, x, x.rules@[k]->0@[i]);
            assert(s[s.len() - 1].rules@[k]->0@[i] == x.rules@[k]->0@[i]);
        }
        if exists|n: int, k: int, i: int|
            #![trigger s[n].rules@[k]->0@[i]]
            0 <= n < s.len() && 0 <= k < s[n].rules@.len() && s[n].rules@[k] is Some && 0 <= i
                < s[n].rules@[k]->0@.len() && is_route_edge(e, s[n], s[n].rules@[k]->0@[i]) {
            let (n, k, i) = choose|n: int, k: int, i: int|
                #![trigger s[n].rules@[k]->0@[i]]
                0 <= n < s.len() && 0 <= k < s[n].rules@.len() && s[n].rules@[k] is Some && 0 <= i
                    < s[n].rules@[k]->0@.len() && is_route_edge(e, s[n], s[n].rules@[k]->0@[i]);
            if n < front.len() {
                assert(front[n].rules@[k]->0@[i] == s[n].rules@[k]->0@[i]);
            } else {
                assert(x.rules@[k]->0@[i] == s[n].rules@[k]->0@[i]);
            }
        }
    }
}

proof fn lemma_relations_differ()
    ensures
        "owns"@ != "selects"@,
        "owns"@ != "routes"@,
        "selects"@ != "routes"@,
        "Pod"@ != "ReplicaSet"@,
{
    reveal_strlit("owns");
    reveal_strlit("selects");
    reveal_strlit("routes");
    reveal_strlit("Pod");
    reveal_strlit("ReplicaSet");
    assert("owns"@.len() == 4 && "selects"@.len() == 7 && "routes"@.len() == 6 && "Pod"@.len() == 3
        && "ReplicaSet"@.len() == 10);
}

proof fn lemma_edge_kinds(c: ClusterObjects, e: EdgeView)
    ensures
        listed_edges(c).contains(e) <==> {
            ||| all_owner_edges("ReplicaSet"@, c.replica_sets@, Some("Deployment"@)).contains(e)
            ||| all_owner_edges("Pod"@, c.pods@, None).contains(e)
            ||| service_edges(c.services@, c.pods@).contains(e)
            ||| ingress_edges(c.ingresses@).contains(e)
        },
{
    broadcast use vstd::seq_lib::lemma_seq_concat_contains_all_elements;

}

/// Every owner reference of a listed pod, of whatever kind, is an `owns` edge from the
/// owner to the pod.
pub proof fn law_owners_own_their_pods(c: ClusterObjects, g: DependencyGraph, p: int, i: int)
    requires
        call_ensures(build_dependency_graph, (&c,), g),
        0 <= p < c.pods@.len(),
        0 <= i < c.pods@[p].owners@.len(),
    ensures
        views(g.edges@).contains(
            EdgeView {
                from: NodeView {
                    kind: c.pods@[p].owners@[i].kind@,
                    name: c.pods@[p].owners@[i].name@,
                    namespace: opt_text(c.pods@[p].namespace),
                },
                to: NodeView {
                    kind: "Pod"@,
                    name: text_or_nothing(c.pods@[p].name),
                    namespace: opt_text(c.pods@[p].namespace),
                },
                relation: "owns"@,
            },
        ),
{
    let o = c.pods@[p].owners@[i];
    let e = EdgeView {
        from: node_of(o.kind@, o.name@, c.pods@[p].namespace),
        to: node_of("Pod"@, text_or_nothing(c.pods@[p].name), c.pods@[p].namespace),
        relation: "owns"@,
    };
    assert(is_owner_edge(e, "Pod"@, c.pods@[p], c.pods@[p].owners@[i]));
    lemma_all_owner_edges("Pod"@, c.pods@, None, e);
    lemma_edge_kinds(c, e);
}

/// Every Deployment that a listed ReplicaSet names as an owner is an `owns` edge to it.
pub proof fn law_deployments_own_their_replica_sets(
    c: ClusterObjects,
    g: DependencyGraph,
    p: int,
    i: int,
)
    requires
        call_ensures(build_dependency_graph, (&c,), g),
        0 <= p < c.replica_sets@.len(),
        0 <= i < c.replica_sets@[p].owners@.len(),
        c.replica_sets@[p].owners@[i].kind@ == "Deployment"@,
    ensures
        views(g.edges@).contains(
            EdgeView {
                from: NodeView {
                    kind: "Deployment"@,
                    name: c.replica_sets@[p].owners@[i].name@,
                    namespace: opt_text(c.replica_sets@[p].namespace),
                },
                to: NodeView {
                    kind: "ReplicaSet"@,
                    name: text_or_nothing(c.replica_sets@[p].name),
                    namespace: opt_text(c.replica_sets@[p].namespace),
                },
                relation: "owns"@,
            },
        ),
{
    let x = c.replica_sets@[p];
    let e = EdgeView {
        from: node_of("Deployment"@, x.owners@[i].name@, x.namespace),
        to: node_of("ReplicaSet"@, text_or_nothing(x.name), x.namespace),
        relation: "owns"@,
    };
    assert(is_owner_edge(e, "ReplicaSet"@, c.replica_sets@[p], c.replica_sets@[p].owners@[i]));
    lemma_all_owner_edges("ReplicaSet"@, c.replica_sets@, Some("Deployment"@), e);
    lemma_edge_kinds(c, e);
}

/// Every `owns` edge comes from an owner reference: of a pod, or of a ReplicaSet to a
/// Deployment.
pub proof fn law_owns_edges_come_from_owner_references(
    c: ClusterObjects,
    g: DependencyGraph,
    e: EdgeView,
)
    requires
        call_ensures(build_dependency_graph, (&c,), g),
        views(g.edges@).contains(e),
        e.relation == "owns"@,
    ensures
        e.from.namespace == e.to.namespace,
        e.to.kind == "Pod"@ || (e.to.kind == "ReplicaSet"@ && e.from.kind == "Deployment"@),
        e.to.kind == "Pod"@ ==> exists|p: int, i: int|
            #![trigger c.pods@[p].owners@[i]]
            0 <= p < c.pods@.len() && 0 <= i < c.pods@[p].owners@.len() && e.to.name
                == text_or_nothing(c.pods@[p].name) && e.to.namespace == opt_text(
                c.pods@[p].namespace,
            ) && e.from.kind == c.pods@[p].owners@[i].kind@ && e.from.name
                == c.pods@[p].owners@[i].name@,
        e.to.kind == "ReplicaSet"@ ==> exists|p: int, i: int|
            #![trigger c.replica_sets@[p].owners@[i]]
            0 <= p < c.replica_sets@.len() && 0 <= i < c.replica_sets@[p].owners@.len()
                && e.to.name == text_or_nothing(c.replica_sets@[p].name) && e.to.namespace
                == opt_text(c.replica_sets@[p].namespace) && e.from.kind
                == c.replica_sets@[p].owners@[i].kind@ && e.from.name
                == c.replica_sets@[p].owners@[i].name@,
{
    lemma_relations_differ();
    lemma_edge_kinds(c, e);
    lemma_all_owner_edges("ReplicaSet"@, c.replica_sets@, Some("Deployment"@), e);
    lemma_all_owner_edges("Pod"@, c.pods@, None, e);
    lemma_service_edges(c.services@, c.pods@, e);
    lemma_ingress_edges(c.ingresses@, e);
}

/// A Service has a `selects` edge to every listed pod that it leads to: one in its
/// namespace with all the labels it asks for, where it asks for any.
pub proof fn law_services_select_their_pods(c: ClusterObjects, g: DependencyGraph, k: int, p: int)
    requires
        call_ensures(build_dependency_graph, (&c,), g),
        0 <= k < c.services@.len(),
        0 <= p < c.pods@.len(),
        c.services@[k].selector is Some,
        c.services@[k].selector->0.entries@.len() > 0,
        text_or_nothing(c.services@[k].namespace) == text_or_nothing(c.pods@[p].namespace),
        c.pods@[p].labels is Some,
        forall|i: int|
            0 <= i < c.services@[k].selector->0.entries@.len() ==> {
                let wanted = #[trigger] c.services@[k].selector->0.entries@[i];
                c.pods@[p].labels->0@.contains_key(wanted.0@) && c.pods@[p].labels->0@[wanted.0@]
                    == wanted.1@
            },
    ensures
        views(g.edges@).contains(
            EdgeView {
                from: NodeView {
                    kind: "Service"@,
                    name: text_or_nothing(c.services@[k].name),
                    namespace: opt_text(c.services@[k].namespace),
                },
                to: NodeView {
                    kind: "Pod"@,
                    name: text_or_nothing(c.pods@[p].name),
                    namespace: opt_text(c.services@[k].namespace),
                },
                relation: "selects"@,
            },
        ),
{
    let svc = c.services@[k];
    let e = EdgeView {
        from: node_of("Service"@, text_or_nothing(svc.name), svc.namespace),
        to: node_of("Pod"@, text_or_nothing(c.pods@[p].name), svc.namespace),
        relation: "selects"@,
    };
    assert(leads_to(svc, c.pods@[p]));
    assert(is_select_edge(e, c.services@[k], c.pods@[p]));
    lemma_service_edges(c.services@, c.pods@, e);
    lemma_edge_kinds(c, e);
}

/// Every `selects` edge leads from a listed Service to a listed pod of its namespace that
/// has every label the Service asks for.
pub proof fn law_selects_edges_lead_to_matching_pods(
    c: ClusterObjects,
    g: DependencyGraph,
    e: EdgeView,
)
    requires
        call_ensures(build_dependency_graph, (&c,), g),
        views(g.edges@).contains(e),
        e.relation == "selects"@,
    ensures
        e.from.kind == "Service"@,
        e.to.kind == "Pod"@,
        exists|k: int, p: int|
            #![trigger c.services@[k], c.pods@[p]]
            0 <= k < c.services@.len() && 0 <= p < c.pods@.len() && e.from.name == text_or_nothing(
                c.services@[k].name,
            ) && e.from.namespace == opt_text(c.services@[k].namespace) && e.to.name
                == text_or_nothing(c.pods@[p].name) && text_or_nothing(c.pods@[p].namespace)
                == text_or_nothing(c.services@[k].namespace) && c.services@[k].selector is Some
                && c.services@[k].selector->0.entries@.len() > 0 && c.pods@[p].labels is Some
                && forall|i: int|
                0 <= i < c.services@[k].selector->0.entries@.len() ==> {
                    let wanted = #[trigger] c.services@[k].selector->0.entries@[i];
                    c.pods@[p].labels->0@.contains_key(wanted.0@)
                        && c.pods@[p].labels->0@[wanted.0@] == wanted.1@
                },
{
    lemma_relations_differ();
    lemma_edge_kinds(c, e);
    lemma_all_owner_edges("ReplicaSet"@, c.replica_sets@, Some("Deployment"@), e);
    lemma_all_owner_edges("Pod"@, c.pods@, None, e);
    lemma_service_edges(c.services@, c.pods@, e);
    lemma_ingress_edges(c.ingresses@, e);
    let (k, p) = choose|k: int, p: int|
        #![trigger c.services@[k], c.pods@[p]]
        0 <= k < c.services@.len() && 0 <= p < c.pods@.len() && leads_to(
            c.services@[k],
            c.pods@[p],
        ) && is_select_edge(e, c.services@[k], c.pods@[p]);
    assert(leads_to(c.services@[k], c.pods@[p]));
}

/// An Ingress has a `routes` edge to each Service that one of its paths names.
pub proof fn law_ingresses_route_to_their_services(
    c: ClusterObjects,
    g: DependencyGraph,
    n: int,
    k: int,
    i: int,
)
    requires
        call_ensures(build_dependency_graph, (&c,), g),
        0 <= n < c.ingresses@.len(),
        0 <= k < c.ingresses@[n].rules@.len(),
        c.ingresses@[n].rules@[k] is Some,
        0 <= i < c.ingresses@[n].rules@[k]->0@.len(),
        c.ingresses@[n].rules@[k]->0@[i] is Some,
        c.ingresses@[n].rules@[k]->0@[i]->0@.len() > 0,
    ensures
        views(g.edges@).contains(
            EdgeView {
                from: NodeView {
                    kind: "Ingress"@,
                    name: text_or_nothing(c.ingresses@[n].name),
                    namespace: opt_text(c.ingresses@[n].namespace),
                },
                to: NodeView {
                    kind: "Service"@,
                    name: c.ingresses@[n].rules@[k]->0@[i]->0@,
                    namespace: opt_text(c.ingresses@[n].namespace),
                },
                relation: "routes"@,
            },
        ),
{
    let x = c.ingresses@[n];
    let e = EdgeView {
        from: node_of("Ingress"@, text_or_nothing(x.name), x.namespace),
        to: node_of("Service"@, x.rules@[k]->0@[i]->0@, x.namespace),
        relation: "routes"@,
    };
    assert(is_route_edge(e, c.ingresses@[n], c.ingresses@[n].rules@[k]->0@[i]));
    lemma_ingress_edges(c.ingresses@, e);
    lemma_edge_kinds(c, e);
}

/// Every `routes` edge leads from a listed Ingress to a Service that one of its paths
/// names, and there are no edges but those that own, select or route.
pub proof fn law_routes_edges_follow_the_paths(c: ClusterObjects, g: DependencyGraph, e: EdgeView)
    requires
        call_ensures(build_dependency_graph, (&c,), g),
        views(g.edges@).contains(e),
    ensures
        e.relation == "owns"@ || e.relation == "selects"@ || e.relation == "routes"@,
        e.relation == "routes"@ ==> e.from.kind == "Ingress"@ && e.to.kind == "Service"@
            && e.from.namespace == e.to.namespace && exists|n: int, k: int, i: int|
            #![trigger c.ingresses@[n].rules@[k]->0@[i]]
            0 <= n < c.ingresses@.len() && 0 <= k < c.ingresses@[n].rules@.len()
                && c.ingresses@[n].rules@[k] is Some && 0 <= i < c.ingresses@[n].rules@[k]->0@.len()
                && c.ingresses@[n].rules@[k]->0@[i] is Some && e.to.name
                == c.ingresses@[n].rules@[k]->0@[i]->0@ && e.to.name.len() > 0 && e.from.name
                == text_or_nothing(c.ingresses@[n].name) && e.from.namespace == opt_text(
                c.ingresses@[n].namespace,
            ),
{
    lemma_relations_differ();
    lemma_edge_kinds(c, e);
    lemma_all_owner_edges("ReplicaSet"@, c.replica_sets@, Some("Deployment"@), e);
    lemma_all_owner_edges("Pod"@, c.pods@, None, e);
    lemma_service_edges(c.services@, c.pods@, e);
    lemma_ingress_edges(c.ingresses@, e);
}

/// An object of this name and namespace is listed.
pub open spec fn is_listed(s: Seq<Listed>, n: NodeView) -> bool {
    exists|i: int|
        0 <= i < s.len() && text_or_nothing((#[trigger] s[i]).name) == n.name && opt_text(
            s[i].namespace,
        ) == n.namespace
}

proof fn lemma_workload_nodes(kind: Seq<char>, s: Seq<Listed>, n: NodeView)
    ensures
        workload_nodes(kind, s).contains(n) <==> n.kind == kind && is_listed(s, n),
{
    let all = workload_nodes(kind, s);
    if all.contains(n) {
        let i = choose|i: int| 0 <= i < all.len() && all[i] == n;
        assert(text_or_nothing(s[i].name) == n.name);
    }
    if n.kind == kind && is_listed(s, n) {
        let i = choose|i: int|
            0 <= i < s.len() && text_or_nothing((#[trigger] s[i]).name) == n.name && opt_text(
                s[i].namespace,
            ) == n.namespace;
        assert(all[i] == n);
    }
}

/// The nodes of the graph are the listed objects: each of them once, under its kind, name
/// and namespace, and nothing else.
#[verifier::rlimit(40)]
pub proof fn law_nodes_are_the_listed_objects(c: ClusterObjects, g: DependencyGraph, n: NodeView)
    requires
        call_ensures(build_dependency_graph, (&c,), g),
    ensures
        views(g.nodes@).no_duplicates(),
        views(g.nodes@).contains(n) <==> {
            ||| n.kind == "Deployment"@ && is_listed(c.deployments@, n)
            ||| n.kind == "ReplicaSet"@ && is_listed(c.replica_sets@, n)
            ||| n.kind == "StatefulSet"@ && is_listed(c.stateful_sets@, n)
            ||| n.kind == "DaemonSet"@ && is_listed(c.daemon_sets@, n)
            ||| n.kind == "Pod"@ && is_listed(c.pods@, n)
            ||| n.kind == "Service"@ && exists|i: int|
                0 <= i < c.services@.len() && text_or_nothing((#[trigger] c.services@[i]).name)
                    == n.name && opt_text(c.services@[i].namespace) == n.namespace
            ||| n.kind == "Ingress"@ && exists|i: int|
                0 <= i < c.ingresses@.len() && text_or_nothing((#[trigger] c.ingresses@[i]).name)
                    == n.name && opt_text(c.ingresses@[i].namespace) == n.namespace
        },
{
    broadcast use vstd::seq_lib::lemma_seq_concat_contains_all_elements;

    law_each_object_once(c);
    assert(views(g.nodes@).contains(n) <==> listed_nodes(c).contains(n));
    lemma_workload_nodes("Deployment"@, c.deployments@, n);
    lemma_workload_nodes("ReplicaSet"@, c.replica_sets@, n);
    lemma_workload_nodes("StatefulSet"@, c.stateful_sets@, n);
    lemma_workload_nodes("DaemonSet"@, c.daemon_sets@, n);
    lemma_workload_nodes("Pod"@, c.pods@, n);
    let svcs = service_nodes(c.services@);
    if svcs.contains(n) {
        let i = choose|i: int| 0 <= i < svcs.len() && svcs[i] == n;
        assert(text_or_nothing(c.services@[i].name) == n.name);
    }
    if n.kind == "Service"@ && exists|i: int|
        0 <= i < c.services@.len() && text_or_nothing((#[trigger] c.services@[i]).name) == n.name
            && opt_text(c.services@[i].namespace) == n.namespace {
        let i = choose|i: int|
            0 <= i < c.services@.len() && text_or_nothing((#[trigger] c.services@[i]).name)
                == n.name && opt_text(c.services@[i].namespace) == n.namespace;
        assert(svcs[i] == n);
    }
    let ings = ingress_nodes(c.ingresses@);
    if ings.contains(n) {
        let i = choose|i: int| 0 <= i < ings.len() && ings[i] == n;
        assert(text_or_nothing(c.ingresses@[i].name) == n.name);
    }
    if n.kind == "Ingress"@ && exists|i: int|
        0 <= i < c.ingresses@.len() && text_or_nothing((#[trigger] c.ingresses@[i]).name) == n.name
            && opt_text(c.ingresses@[i].namespace) == n.namespace {
        let i = choose|i: int|
            0 <= i < c.ingresses@.len() && text_or_nothing((#[trigger] c.ingresses@[i]).name)
                == n.name && opt_text(c.ingresses@[i].namespace) == n.namespace;
        assert(ings[i] == n);
    }
}

} // verus!
