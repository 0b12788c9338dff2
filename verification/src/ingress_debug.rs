//! Ingress route debugger: traces the routing chain from Ingress rules through
//! Service backends to endpoint Pods, and reports the health of each hop.
use crate::endpoints::{capped, count_ready_addresses, service_addresses, Slice};
use crate::lists::{lemma_views_push, views};
use crate::text::{
    cat2, cat4, cat5, copy_opt, dec, dec_u64, has_prefix, no_texts, opt_text, or_empty, push_text,
    same, text_or_nothing, texts,
};
use vstd::prelude::*;

verus! {

/// One hop in the routing chain.
#[derive(Clone, Debug)]
pub struct RouteHop {
    pub kind: String,
    pub name: String,
    pub namespace: String,
    /// "ok", "warning", or "error".
    pub status: String,
    pub detail: String,
}

/// One rule path with its routing chain.
#[derive(Clone, Debug)]
pub struct IngressRoute {
    pub host: String,
    pub path: String,
    pub path_type: String,
    pub hops: Vec<RouteHop>,
    /// Worst status of all hops: "ok", "warning", or "error".
    pub overall_status: String,
}

/// The whole debug result of an Ingress.
#[derive(Clone, Debug)]
pub struct IngressDebugResult {
    pub ingress: String,
    pub namespace: String,
    pub ingress_class: Option<String>,
    pub tls: bool,
    pub routes: Vec<IngressRoute>,
}

/// What a hop says.
pub struct HopView {
    pub kind: Seq<char>,
    pub name: Seq<char>,
    pub namespace: Seq<char>,
    pub status: Seq<char>,
    pub detail: Seq<char>,
}

/// What a route says.
pub struct RouteView {
    pub host: Seq<char>,
    pub path: Seq<char>,
    pub path_type: Seq<char>,
    pub hops: Seq<HopView>,
    pub overall_status: Seq<char>,
}

impl View for RouteHop {
    type V = HopView;

    open spec fn view(&self) -> HopView {
        HopView {
            kind: self.kind@,
            name: self.name@,
            namespace: self.namespace@,
            status: self.status@,
            detail: self.detail@,
        }
    }
}

impl View for IngressRoute {
    type V = RouteView;

    open spec fn view(&self) -> RouteView {
        RouteView {
            host: self.host@,
            path: self.path@,
            path_type: self.path_type@,
            hops: views(self.hops@),
            overall_status: self.overall_status@,
        }
    }
}

/// The Service behind a path: its name, and its port as shown.
#[derive(Clone, Debug)]
pub struct BackendService {
    pub name: String,
    pub port: String,
}

/// A path of a rule.
#[derive(Clone, Debug)]
pub struct RulePath {
    pub path: Option<String>,
    pub path_type: String,
    pub service: Option<BackendService>,
}

/// A rule: its host and the paths of its `http` section.
#[derive(Clone, Debug)]
pub struct Rule {
    pub host: Option<String>,
    pub http: Option<Vec<RulePath>>,
}

/// An Ingress, as far as the debugger reads it.
#[derive(Clone, Debug)]
pub struct IngressSpec {
    pub name: Option<String>,
    pub namespace: Option<String>,
    pub class: Option<String>,
    /// How many TLS entries it has.
    pub tls_entries: usize,
    pub rules: Vec<Rule>,
}

/// A Service that was found.
#[derive(Clone, Debug)]
pub struct FoundService {
    pub service_type: Option<String>,
    pub cluster_ip: Option<String>,
}

// ---------------------------------------------------------------------------
// What the result is
// ---------------------------------------------------------------------------

pub open spec fn any_status(hops: Seq<HopView>, status: Seq<char>) -> bool {
    exists|i: int| 0 <= i < hops.len() && (#[trigger] hops[i]).status == status
}

/// Error if any hop failed, warning if any hop warned, otherwise ok.
pub open spec fn worst(hops: Seq<HopView>) -> Seq<char> {
    if any_status(hops, "error"@) {
        "error"@
    } else if any_status(hops, "warning"@) {
        "warning"@
    } else {
        "ok"@
    }
}

/// `o`, or `default` where `o` is missing or empty.
pub open spec fn text_or(o: Option<String>, default: Seq<char>) -> Seq<char> {
    match o {
        Some(s) => if s@.len() == 0 {
            default
        } else {
            s@
        },
        None => default,
    }
}

pub open spec fn ingress_hop(
    name: Seq<char>,
    ns: Seq<char>,
    host: Seq<char>,
    path: Seq<char>,
) -> HopView {
    HopView {
        kind: "Ingress"@,
        name,
        namespace: ns,
        status: "ok"@,
        detail: "host="@ + host + ", path="@ + path,
    }
}

pub open spec fn endpoints_hop(ns: Seq<char>, service: Seq<char>, ready: nat) -> HopView {
    HopView {
        kind: "Endpoints"@,
        name: service,
        namespace: ns,
        status: if ready > 0 {
            "ok"@
        } else {
            "error"@
        },
        detail: if ready > 0 {
            dec(ready) + " endpoint(s) ready"@
        } else {
            "no endpoints — Service has no backing Pods"@
        },
    }
}

pub open spec fn service_hop(
    ns: Seq<char>,
    svc: BackendService,
    found: Option<FoundService>,
) -> HopView {
    HopView {
        kind: "Service"@,
        name: svc.name@,
        namespace: ns,
        status: if found is Some {
            "ok"@
        } else {
            "error"@
        },
        detail: match found {
            Some(f) => "type="@ + (match f.service_type {
                Some(t) => t@,
                None => "ClusterIP"@,
            }) + ", clusterIP="@ + text_or_nothing(f.cluster_ip) + (", port="@ + svc.port@),
            None => "Service not found"@,
        },
    }
}

/// The hops of one path, given what looking up its Service brought.
pub open spec fn path_hops(
    name: Seq<char>,
    ns: Seq<char>,
    host: Seq<char>,
    p: RulePath,
    found: Option<FoundService>,
    slices: Seq<Slice>,
) -> Seq<HopView> {
    let first = ingress_hop(name, ns, host, text_or(p.path, "/"@));
    match p.service {
        None => seq![
            first,
            HopView {
                kind: "Service"@,
                name: "(none)"@,
                namespace: ns,
                status: "error"@,
                detail: "no backend service defined"@,
            },
        ],
        Some(svc) => if found is Some {
            seq![
                first,
                service_hop(ns, svc, found),
                endpoints_hop(
                    ns,
                    svc.name@,
                    capped(service_addresses(slices, svc.name@), usize::MAX as int) as nat,
                ),
            ]
        } else {
            seq![first, service_hop(ns, svc, found)]
        },
    }
}

pub open spec fn path_route(
    name: Seq<char>,
    ns: Seq<char>,
    host: Seq<char>,
    p: RulePath,
    found: Option<FoundService>,
    slices: Seq<Slice>,
) -> RouteView {
    let hops = path_hops(name, ns, host, p, found, slices);
    RouteView {
        host,
        path: text_or(p.path, "/"@),
        path_type: p.path_type@,
        hops,
        overall_status: worst(hops),
    }
}

/// How many of the paths have a backend Service.
pub open spec fn with_service(paths: Seq<RulePath>) -> nat
    decreases paths.len(),
{
    if paths.len() == 0 {
        0
    } else {
        with_service(paths.drop_last()) + (if paths.last().service is Some {
            1nat
        } else {
            0
        })
    }
}

/// The paths of a rule; one without an `http` section has none.
pub open spec fn rule_paths(r: Rule) -> Seq<RulePath> {
    match r.http {
        Some(paths) => paths@,
        None => Seq::empty(),
    }
}

/// How many paths of the rules have a backend Service.
pub open spec fn backends(rules: Seq<Rule>) -> nat
    decreases rules.len(),
{
    if rules.len() == 0 {
        0
    } else {
        backends(rules.drop_last()) + with_service(rule_paths(rules.last()))
    }
}

/// The routes of the paths of one rule. `found` holds what the lookups brought,
/// one for each path with a backend Service, in order; `at` is where this rule's
/// begin.
pub open spec fn rule_routes(
    name: Seq<char>,
    ns: Seq<char>,
    host: Seq<char>,
    paths: Seq<RulePath>,
    found: Seq<Option<FoundService>>,
    at: int,
    slices: Seq<Slice>,
) -> Seq<RouteView>
    decreases paths.len(),
{
    if paths.len() == 0 {
        Seq::empty()
    } else {
        let front = paths.drop_last();
        let hit = if paths.last().service is Some {
            found[at + with_service(front)]
        } else {
            None
        };
        rule_routes(name, ns, host, front, found, at, slices).push(
            path_route(name, ns, host, paths.last(), hit, slices),
        )
    }
}

pub open spec fn all_routes(
    name: Seq<char>,
    ns: Seq<char>,
    rules: Seq<Rule>,
    found: Seq<Option<FoundService>>,
    slices: Seq<Slice>,
) -> Seq<RouteView>
    decreases rules.len(),
{
    if rules.len() == 0 {
        Seq::empty()
    } else {
        let r = rules.last();
        all_routes(name, ns, rules.drop_last(), found, slices) + rule_routes(
            name,
            ns,
            text_or(r.host, "*"@),
            rule_paths(r),
            found,
            backends(rules.drop_last()) as int,
            slices,
        )
    }
}

/// The namespace an Ingress is in: its own, or the one it was asked for in.
pub open spec fn ingress_namespace(ing: IngressSpec, asked: Seq<char>) -> Seq<char> {
    match ing.namespace {
        Some(ns) => ns@,
        None => asked,
    }
}

// ---------------------------------------------------------------------------
// Computing it
// ---------------------------------------------------------------------------

fn has_status(hops: &Vec<RouteHop>, status: &str) -> (r: bool)
    ensures
        r == any_status(views(hops@), status@),
{
    let mut i: usize = 0;
    while i < hops.len()
        invariant
            i <= hops@.len(),
            forall|j: int| 0 <= j < i ==> (#[trigger] views(hops@)[j]).status != status@,
        decreases hops@.len() - i,
    {
        assert(views(hops@)[i as int] == hops@[i as int]@);
        if same(hops[i].status.as_str(), status) {
            return true;
        }
        i += 1;
    }
    false
}

/// The overall status of a chain: error if any hop failed, warning if any hop
/// warned, otherwise ok.
pub fn overall_status(hops: &Vec<RouteHop>) -> (r: String)
    ensures
        r@ == worst(views(hops@)),
{
    if has_status(hops, "error") {
        "error".to_owned()
    } else if has_status(hops, "warning") {
        "warning".to_owned()
    } else {
        "ok".to_owned()
    }
}

fn or_default(o: &Option<String>, default: &str) -> (r: String)
    ensures
        r@ == text_or(*o, default@),
{
    match o {
        Some(s) => if s.as_str().is_empty() {
            default.to_owned()
        } else {
            s.clone()
        },
        None => default.to_owned(),
    }
}

fn push_hop(hops: &mut Vec<RouteHop>, kind: &str, name: &str, ns: &str, status: &str, detail: String)
    ensures
        views(final(hops)@) == views(old(hops)@).push(
            HopView {
                kind: kind@,
                name: name@,
                namespace: ns@,
                status: status@,
                detail: detail@,
            },
        ),
{
    let h = RouteHop {
        kind: kind.to_owned(),
        name: name.to_owned(),
        namespace: ns.to_owned(),
        status: status.to_owned(),
        detail,
    };
    proof {
        lemma_views_push(hops@, h);
    }
    hops.push(h);
}

fn service_detail(svc: &BackendService, found: &FoundService) -> (r: String)
    ensures
        r@ == "type="@ + (match found.service_type {
            Some(t) => t@,
            None => "ClusterIP"@,
        }) + ", clusterIP="@ + text_or_nothing(found.cluster_ip) + (", port="@ + svc.port@),
{
    let kind = match &found.service_type {
        Some(t) => t.clone(),
        None => "ClusterIP".to_owned(),
    };
    let ip = or_empty(&found.cluster_ip);
    let port = cat2(", port=", svc.port.as_str());
    cat5("type=", kind.as_str(), ", clusterIP=", ip.as_str(), port.as_str())
}

/// The route of one path, given what looking up its backend Service brought.
pub fn debug_path(
    name: &str,
    ns: &str,
    host: &str,
    p: &RulePath,
    found: &Option<FoundService>,
    slices: &Vec<Slice>,
) -> (r: IngressRoute)
    ensures
        r@ == path_route(name@, ns@, host@, *p, *found, slices@),
{
    let path = or_default(&p.path, "/");
    let mut hops: Vec<RouteHop> = Vec::new();
    push_hop(
        &mut hops,
        "Ingress",
        name,
        ns,
        "ok",
        cat4("host=", host, ", path=", path.as_str()),
    );
    match &p.service {
        None => {
            push_hop(
                &mut hops,
                "Service",
                "(none)",
                ns,
                "error",
                "no backend service defined".to_owned(),
            );
        },
        Some(svc) => {
            match found {
                Some(f) => {
                    let detail = service_detail(svc, f);
                    push_hop(&mut hops, "Service", svc.name.as_str(), ns, "ok", detail);
                    let ready: usize = count_ready_addresses(slices, svc.name.as_str());
                    if ready > 0 {
                        let n = dec_u64(ready as u64);
                        push_hop(
                            &mut hops,
                            "Endpoints",
                            svc.name.as_str(),
                            ns,
                            "ok",
                            cat2(n.as_str(), " endpoint(s) ready"),
                        );
                    } else {
                        push_hop(
                            &mut hops,
                            "Endpoints",
                            svc.name.as_str(),
                            ns,
                            "error",
                            "no endpoints — Service has no backing Pods".to_owned(),
                        );
                    }
                },
                None => {
                    push_hop(
                        &mut hops,
                        "Service",
                        svc.name.as_str(),
                        ns,
                        "error",
                        "Service not found".to_owned(),
                    );
                },
            }
        },
    }
    let ghost want = path_hops(name@, ns@, host@, *p, *found, slices@);
    assert(views(hops@) =~= want);
    let overall = overall_status(&hops);
    let r = IngressRoute {
        host: host.to_owned(),
        path,
        path_type: p.path_type.clone(),
        overall_status: overall,
        hops,
    };
    assert(r@.hops == want);
    r
}

proof fn lemma_backends_take(rules: Seq<Rule>, i: int)
    requires
        0 <= i <= rules.len(),
    ensures
        backends(rules.take(i)) <= backends(rules),
    decreases rules.len(),
{
    if i == rules.len() {
        assert(rules.take(i) =~= rules);
    } else {
        lemma_backends_take(rules.drop_last(), i);
        assert(rules.drop_last().take(i) =~= rules.take(i));
    }
}

proof fn lemma_with_service_take(paths: Seq<RulePath>, i: int)
    requires
        0 <= i <= paths.len(),
    ensures
        with_service(paths.take(i)) <= with_service(paths),
    decreases paths.len(),
{
    if i == paths.len() {
        assert(paths.take(i) =~= paths);
    } else {
        lemma_with_service_take(paths.drop_last(), i);
        assert(paths.drop_last().take(i) =~= paths.take(i));
    }
}

fn debug_rule(
    routes: &mut Vec<IngressRoute>,
    name: &str,
    ns: &str,
    rule: &Rule,
    found: &Vec<Option<FoundService>>,
    at: usize,
    slices: &Vec<Slice>,
) -> (next: usize)
    requires
        at + with_service(rule_paths(*rule)) <= found@.len(),
    ensures
        next == at + with_service(rule_paths(*rule)),
        views(final(routes)@) == views(old(routes)@) + rule_routes(
            name@,
            ns@,
            text_or(rule.host, "*"@),
            rule_paths(*rule),
            found@,
            at as int,
            slices@,
        ),
{
    let host = or_default(&rule.host, "*");
    let ghost before = views(routes@);
    let ghost ps = rule_paths(*rule);
    let limit: usize = found.len();
    let mut next: usize = at;
    assert(before + rule_routes(name@, ns@, host@, ps.take(0), found@, at as int, slices@)
        =~= before);
    if let Some(paths) = &rule.http {
        let mut i: usize = 0;
        while i < paths.len()
            invariant
                i <= paths@.len(),
                paths@ == ps,
                host@ == text_or(rule.host, "*"@),
                limit == found@.len(),
                at + with_service(ps) <= found@.len(),
                next == at + with_service(ps.take(i as int)),
                views(routes@) == before + rule_routes(
                    name@,
                    ns@,
                    host@,
                    ps.take(i as int),
                    found@,
                    at as int,
                    slices@,
                ),
            decreases paths@.len() - i,
        {
            proof {
                assert(ps.take(i + 1).drop_last() =~= ps.take(i as int));
                lemma_with_service_take(ps, i + 1);
            }
            let p = &paths[i];
            let route = if p.service.is_some() {
                let route = debug_path(name, ns, host.as_str(), p, &found[next], slices);
                next += 1;
                route
            } else {
                debug_path(name, ns, host.as_str(), p, &None, slices)
            };
            proof {
                lemma_views_push(routes@, route);
            }
            routes.push(route);
            i += 1;
            assert(views(routes@) =~= before + rule_routes(
                name@,
                ns@,
                host@,
                ps.take(i as int),
                found@,
                at as int,
                slices@,
            ));
        }
        assert(ps.take(i as int) =~= ps);
    } else {
        assert(ps.take(0) =~= ps);
    }
    next
}

/// The names of the Services behind some paths, in order.
pub open spec fn path_lookups(paths: Seq<RulePath>) -> Seq<Seq<char>>
    decreases paths.len(),
{
    if paths.len() == 0 {
        Seq::empty()
    } else {
        match paths.last().service {
            Some(svc) => path_lookups(paths.drop_last()).push(svc.name@),
            None => path_lookups(paths.drop_last()),
        }
    }
}

/// The names of the Services behind the paths of some rules, in order.
pub open spec fn rule_lookups(rules: Seq<Rule>) -> Seq<Seq<char>>
    decreases rules.len(),
{
    if rules.len() == 0 {
        Seq::empty()
    } else {
        rule_lookups(rules.drop_last()) + path_lookups(rule_paths(rules.last()))
    }
}

fn push_lookups(out: &mut Vec<String>, paths: &Vec<RulePath>)
    ensures
        texts(final(out)@) == texts(old(out)@) + path_lookups(paths@),
        final(out)@.len() == old(out)@.len() + with_service(paths@),
{
    let ghost before = texts(out@);
    let mut i: usize = 0;
    assert(texts(out@) =~= before + path_lookups(paths@.take(0)));
    while i < paths.len()
        invariant
            i <= paths@.len(),
            texts(out@) == before + path_lookups(paths@.take(i as int)),
            out@.len() == before.len() + with_service(paths@.take(i as int)),
        decreases paths@.len() - i,
    {
        assert(paths@.take(i + 1).drop_last() =~= paths@.take(i as int));
        if let Some(svc) = &paths[i].service {
            push_text(out, svc.name.as_str());
        }
        i += 1;
        assert(texts(out@) =~= before + path_lookups(paths@.take(i as int)));
    }
    assert(paths@.take(i as int) =~= paths@);
}

/// The Services to look up before an Ingress can be traced: one for each path
/// that has a backend Service, in order.
pub fn lookups(ing: &IngressSpec) -> (r: Vec<String>)
    ensures
        texts(r@) == rule_lookups(ing.rules@),
        r@.len() == backends(ing.rules@),
{
    let mut out: Vec<String> = no_texts();
    let mut i: usize = 0;
    assert(texts(out@) =~= rule_lookups(ing.rules@.take(0)));
    while i < ing.rules.len()
        invariant
            i <= ing.rules@.len(),
            texts(out@) == rule_lookups(ing.rules@.take(i as int)),
            out@.len() == backends(ing.rules@.take(i as int)),
        decreases ing.rules@.len() - i,
    {
        assert(ing.rules@.take(i + 1).drop_last() =~= ing.rules@.take(i as int));
        if let Some(paths) = &ing.rules[i].http {
            push_lookups(&mut out, paths);
        }
        i += 1;
        assert(texts(out@) =~= rule_lookups(ing.rules@.take(i as int)));
    }
    assert(ing.rules@.take(i as int) =~= ing.rules@);
    out
}

/// Traces every rule path of an Ingress through its backend Service to the
/// endpoints behind it.
///
/// `asked` is the namespace the Ingress was looked for in, `found` what looking
/// up the backend Services brought, one entry for each of [`lookups`], and
/// `slices` the EndpointSlices of the namespace.
pub fn debug_ingress(
    ing: &IngressSpec,
    asked: &str,
    found: &Vec<Option<FoundService>>,
    slices: &Vec<Slice>,
) -> (r: IngressDebugResult)
    requires
        found@.len() == backends(ing.rules@),
    ensures
        r.ingress@ == text_or_nothing(ing.name),
        r.namespace@ == ingress_namespace(*ing, asked@),
        opt_text(r.ingress_class) == opt_text(ing.class),
        r.tls == (ing.tls_entries > 0),
        views(r.routes@) == all_routes(
            text_or_nothing(ing.name),
            ingress_namespace(*ing, asked@),
            ing.rules@,
            found@,
            slices@,
        ),
{
    let name = or_empty(&ing.name);
    let ns = match &ing.namespace {
        Some(n) => n.clone(),
        None => asked.to_owned(),
    };
    let mut routes: Vec<IngressRoute> = Vec::new();
    let mut next: usize = 0;
    let mut i: usize = 0;
    assert(views(routes@) =~= all_routes(name@, ns@, ing.rules@.take(0), found@, slices@));
    while i < ing.rules.len()
        invariant
            i <= ing.rules@.len(),
            found@.len() == backends(ing.rules@),
            next == backends(ing.rules@.take(i as int)),
            views(routes@) == all_routes(
                name@,
                ns@,
                ing.rules@.take(i as int),
                found@,
                slices@,
            ),
        decreases ing.rules@.len() - i,
    {
        proof {
            assert(ing.rules@.take(i + 1).drop_last() =~= ing.rules@.take(i as int));
            lemma_backends_take(ing.rules@, i + 1);
        }
        next = debug_rule(
            &mut routes,
            name.as_str(),
            ns.as_str(),
            &ing.rules[i],
            found,
            next,
            slices,
        );
        i += 1;
    }
    assert(ing.rules@.take(i as int) =~= ing.rules@);
    IngressDebugResult {
        ingress: name,
        namespace: ns,
        ingress_class: copy_opt(&ing.class),
        tls: ing.tls_entries > 0,
        routes,
    }
}

// ---------------------------------------------------------------------------
// Laws
// ---------------------------------------------------------------------------

/// A route is healthy exactly where its path has a backend Service, the Service
/// was found, and an address behind it is ready; otherwise it is in error.
pub proof fn law_route_health(
    name: Seq<char>,
    ns: Seq<char>,
    host: Seq<char>,
    p: RulePath,
    found: Option<FoundService>,
    slices: Seq<Slice>,
)
    ensures
        ({
            let healthy = p.service is Some && found is Some && service_addresses(
                slices,
                p.service->0.name@,
            ) > 0;
            path_route(name, ns, host, p, found, slices).overall_status == (if healthy {
                "ok"@
            } else {
                "error"@
            })
        }),
{
    reveal_strlit("ok");
    reveal_strlit("error");
    reveal_strlit("warning");
    let hops = path_hops(name, ns, host, p, found, slices);
    assert("ok"@[0] != "error"@[0]);
    assert("ok"@[0] != "warning"@[0]);
    let healthy = p.service is Some && found is Some && service_addresses(
        slices,
        p.service->0.name@,
    ) > 0;
    if healthy {
        assert(hops[0].status == "ok"@ && hops[1].status == "ok"@ && hops[2].status == "ok"@);
    } else if p.service is Some && found is Some {
        assert(hops[2].status == "error"@);
    } else {
        assert(hops[1].status == "error"@);
    }
}

/// The worst status wins: one failed hop makes the chain an error whatever the
/// other hops say.
pub proof fn law_error_wins(hops: Seq<HopView>, i: int)
    requires
        0 <= i < hops.len(),
        hops[i].status == "error"@,
    ensures
        worst(hops) == "error"@,
{
}

/// A route is traced hop by hop: from the Ingress to the Service that its path names, and
/// on to the addresses behind it. It fails where no Service is named, where the Service was
/// not found, or where no address is ready, and is sound otherwise.
pub proof fn law_route_is_traced_hop_by_hop(
    name: &str,
    ns: &str,
    host: &str,
    p: RulePath,
    found: Option<FoundService>,
    slices: Vec<Slice>,
    service: &str,
    ready: usize,
    r: IngressRoute,
)
    requires
        call_ensures(debug_path, (name, ns, host, &p, &found, &slices), r),
        p.service matches Some(svc) ==> svc.name@ == service@,
        call_ensures(count_ready_addresses, (&slices, service), ready),
    ensures
        r.host@ == host@,
        r.path_type@ == p.path_type@,
        p.path matches Some(t) ==> (t@.len() > 0 ==> r.path@ == t@),
        p.path is None ==> r.path@ == "/"@,
        r.hops@.len() >= 2,
        r.hops@[0].kind@ == "Ingress"@,
        r.hops@[0].name@ == name@,
        r.hops@[0].status@ == "ok"@,
        r.hops@[0].detail@ == "host="@ + host@ + ", path="@ + r.path@,
        r.hops@[1].kind@ == "Service"@,
        forall|i: int| 0 <= i < r.hops@.len() ==> (#[trigger] r.hops@[i]).namespace@ == ns@,
        p.service is None ==> r.hops@.len() == 2 && r.hops@[1].status@ == "error"@
            && r.hops@[1].detail@ == "no backend service defined"@ && r.overall_status@ == "error"@,
        p.service is Some ==> r.hops@[1].name@ == service@,
        p.service is Some && found is None ==> r.hops@.len() == 2 && r.hops@[1].status@ == "error"@
            && r.hops@[1].detail@ == "Service not found"@ && r.overall_status@ == "error"@,
        p.service is Some && found is Some ==> {
            &&& r.hops@.len() == 3
            &&& r.hops@[1].status@ == "ok"@
            &&& r.hops@[2].kind@ == "Endpoints"@
            &&& r.hops@[2].name@ == service@
            &&& ready > 0 ==> r.hops@[2].status@ == "ok"@ && r.overall_status@ == "ok"@
                && r.hops@[2].detail@ == dec(ready as nat) + " endpoint(s) ready"@
            &&& ready == 0 ==> r.hops@[2].status@ == "error"@ && r.overall_status@ == "error"@
                && r.hops@[2].detail@ == "no endpoints — Service has no backing Pods"@
            &&& (found->0.service_type matches Some(t) ==> (found->0.cluster_ip matches Some(ip)
                ==> r.hops@[1].detail@ == "type="@ + t@ + ", clusterIP="@ + ip@ + (", port="@
                + p.service->0.port@)))
            &&& (found->0.service_type is None ==> has_prefix(
                r.hops@[1].detail@,
                "type="@ + "ClusterIP"@ + ", clusterIP="@,
            ))
        },
{
    law_route_health(name@, ns@, host@, p, found, slices@);
    let v = views(r.hops@);
    assert(v.len() == r.hops@.len());
    assert(v[0] == r.hops@[0]@);
    assert(v[1] == r.hops@[1]@);
    assert(v.len() >= 3 ==> v[2] == r.hops@[2]@);
    if p.service is Some && found is Some && found->0.service_type is None {
        let front = "type="@ + "ClusterIP"@ + ", clusterIP="@;
        assert(r.hops@[1].detail@.take(front.len() as int) =~= front);
    }
    assert forall|i: int| 0 <= i < r.hops@.len() implies (#[trigger] r.hops@[i]).namespace@
        == ns@ by {
        assert(v[i] == r.hops@[i]@);
    }
}

/// The overall status of a chain is the worst of its hops.
pub proof fn law_worst_hop_decides(hops: Vec<RouteHop>, r: String)
    requires
        call_ensures(overall_status, (&hops,), r),
    ensures
        (exists|i: int| 0 <= i < hops@.len() && (#[trigger] hops@[i]).status@ == "error"@) ==> r@
            == "error"@,
        (forall|i: int| 0 <= i < hops@.len() ==> (#[trigger] hops@[i]).status@ != "error"@) && (
        exists|i: int| 0 <= i < hops@.len() && (#[trigger] hops@[i]).status@ == "warning"@) ==> r@
            == "warning"@,
        (forall|i: int|
            0 <= i < hops@.len() ==> (#[trigger] hops@[i]).status@ != "error"@ && hops@[i].status@
                != "warning"@) ==> r@ == "ok"@,
{
    let v = views(hops@);
    assert(v.len() == hops@.len());
    assert forall|i: int| 0 <= i < v.len() implies (#[trigger] v[i]).status == hops@[i].status@ by {
        assert(v[i] == hops@[i]@);
    }
    if exists|i: int| 0 <= i < hops@.len() && (#[trigger] hops@[i]).status@ == "error"@ {
        let i = choose|i: int| 0 <= i < hops@.len() && (#[trigger] hops@[i]).status@ == "error"@;
        assert(v[i].status == "error"@);
    }
    if exists|i: int| 0 <= i < hops@.len() && (#[trigger] hops@[i]).status@ == "warning"@ {
        let i = choose|i: int| 0 <= i < hops@.len() && (#[trigger] hops@[i]).status@ == "warning"@;
        assert(v[i].status == "warning"@);
    }
}

/// How many paths some rules have.
pub open spec fn path_count(rules: Seq<Rule>) -> int {
    rules.fold_left(
        0int,
        |n: int, r: Rule|
            n + (match r.http {
                Some(paths) => paths@.len() as int,
                None => 0,
            }),
    )
}

proof fn lemma_rule_routes(
    name: Seq<char>,
    ns: Seq<char>,
    host: Seq<char>,
    paths: Seq<RulePath>,
    found: Seq<Option<FoundService>>,
    at: int,
    slices: Seq<Slice>,
)
    ensures
        rule_routes(name, ns, host, paths, found, at, slices).len() == paths.len(),
        forall|i: int|
            0 <= i < paths.len() ==> #[trigger] rule_routes(name, ns, host, paths, found, at, slices)[i]
                == path_route(
                name,
                ns,
                host,
                paths[i],
                if paths[i].service is Some {
                    found[at + with_service(paths.take(i))]
                } else {
                    None
                },
                slices,
            ),
    decreases paths.len(),
{
    if paths.len() > 0 {
        let front = paths.drop_last();
        lemma_rule_routes(name, ns, host, front, found, at, slices);
        let all = rule_routes(name, ns, host, paths, found, at, slices);
        assert forall|i: int| 0 <= i < paths.len() implies #[trigger] all[i] == path_route(
            name,
            ns,
            host,
            paths[i],
            if paths[i].service is Some {
                found[at + with_service(paths.take(i))]
            } else {
                None
            },
            slices,
        ) by {
            if i < front.len() {
                assert(front.take(i) =~= paths.take(i));
                assert(front[i] == paths[i]);
            } else {
                assert(paths.take(i) =~= front);
            }
        }
    }
}

proof fn lemma_all_routes(
    name: Seq<char>,
    ns: Seq<char>,
    rules: Seq<Rule>,
    found: Seq<Option<FoundService>>,
    slices: Seq<Slice>,
    k: int,
    i: int,
)
    ensures
        all_routes(name, ns, rules, found, slices).len() == path_count(rules),
        0 <= k < rules.len() && 0 <= i < rule_paths(rules[k]).len() ==> {
            let p = rule_paths(rules[k])[i];
            let at = path_count(rules.take(k)) + i;
            &&& 0 <= at < path_count(rules)
            &&& all_routes(name, ns, rules, found, slices)[at] == path_route(
                name,
                ns,
                text_or(rules[k].host, "*"@),
                p,
                if p.service is Some {
                    found[(backends(rules.take(k)) + with_service(rule_paths(rules[k]).take(i))) as int]
                } else {
                    None
                },
                slices,
            )
        },
        path_count(rules) >= 0,
    decreases rules.len(),
{
    if rules.len() > 0 {
        let front = rules.drop_last();
        let x = rules.last();
        lemma_all_routes(name, ns, front, found, slices, k, i);
        let more = rule_routes(
            name,
            ns,
            text_or(x.host, "*"@),
            rule_paths(x),
            found,
            backends(front) as int,
            slices,
        );
        lemma_rule_routes(
            name,
            ns,
            text_or(x.host, "*"@),
            rule_paths(x),
            found,
            backends(front) as int,
            slices,
        );
        assert(path_count(rules) == path_count(front) + rule_paths(x).len());
        if 0 <= k < rules.len() && 0 <= i < rule_paths(rules[k]).len() {
            if k < front.len() {
                assert(front[k] == rules[k]);
                assert(front.take(k) =~= rules.take(k));
            } else {
                assert(rules.take(k) =~= front);
                assert(more[i] == more[i]);
            }
        }
    }
}

proof fn lemma_rule_lookups(rules: Seq<Rule>, k: int, i: int)
    ensures
        rule_lookups(rules).len() == backends(rules),
        0 <= k < rules.len() && 0 <= i < rule_paths(rules[k]).len() && rule_paths(
            rules[k],
        )[i].service is Some ==> {
            let at = backends(rules.take(k)) + with_service(rule_paths(rules[k]).take(i));
            &&& 0 <= at < backends(rules)
            &&& rule_lookups(rules)[at as int] == rule_paths(rules[k])[i].service->0.name@
        },
    decreases rules.len(),
{
    if rules.len() > 0 {
        let front = rules.drop_last();
        let x = rules.last();
        lemma_rule_lookups(front, k, i);
        lemma_path_lookups(rule_paths(x), i);
        if 0 <= k < rules.len() && 0 <= i < rule_paths(rules[k]).len() && rule_paths(
            rules[k],
        )[i].service is Some {
            if k < front.len() {
                assert(front[k] == rules[k]);
                assert(front.take(k) =~= rules.take(k));
            } else {
                assert(rules.take(k) =~= front);
            }
        }
    }
}

proof fn lemma_path_lookups(paths: Seq<RulePath>, i: int)
    ensures
        path_lookups(paths).len() == with_service(paths),
        0 <= i < paths.len() && paths[i].service is Some ==> {
            &&& 0 <= with_service(paths.take(i)) < with_service(paths)
            &&& path_lookups(paths)[with_service(paths.take(i)) as int] == paths[i].service->0.name@
        },
    decreases paths.len(),
{
    if paths.len() > 0 {
        let front = paths.drop_last();
        lemma_path_lookups(front, i);
        if 0 <= i < paths.len() && paths[i].service is Some {
            if i < front.len() {
                assert(front.take(i) =~= paths.take(i));
            } else {
                assert(paths.take(i) =~= front);
            }
        }
    }
}

/// Every path of every rule has its route, in order, as it is traced from what was found
/// under the name of its Service. The host of a rule that names none is any host.
pub proof fn law_every_path_has_its_route(
    ing: IngressSpec,
    asked: &str,
    names: Vec<String>,
    found: Vec<Option<FoundService>>,
    slices: Vec<Slice>,
    r: IngressDebugResult,
    k: int,
    i: int,
    at: int,
)
    requires
        call_ensures(lookups, (&ing,), names),
        call_ensures(debug_ingress, (&ing, asked, &found, &slices), r),
        0 <= k < ing.rules@.len(),
        ing.rules@[k].http is Some,
        0 <= i < ing.rules@[k].http->0@.len(),
        at == path_count(ing.rules@.take(k)) + i,
    ensures
        r.routes@.len() == path_count(ing.rules@),
        0 <= at < r.routes@.len(),
        ing.rules@[k].host matches Some(h) ==> (h@.len() > 0 ==> r.routes@[at].host@ == h@),
        ing.rules@[k].host is None ==> r.routes@[at].host@ == "*"@,
        r.routes@[at].path_type@ == ing.rules@[k].http->0@[i].path_type@,
        ing.rules@[k].http->0@[i].path matches Some(t) ==> (t@.len() > 0 ==> r.routes@[at].path@
            == t@),
        ing.rules@[k].http->0@[i].path is None ==> r.routes@[at].path@ == "/"@,
        ing.rules@[k].http->0@[i].service is None ==> r.routes@[at].overall_status@ == "error"@,
        ing.rules@[k].http->0@[i].service matches Some(svc) ==> r.routes@[at].hops@.len() >= 2
            && r.routes@[at].hops@[1].name@ == svc.name@ && exists|n: int|
            #![trigger names@[n]]
            0 <= n < names@.len() && names@[n]@ == svc.name@ && (r.routes@[at].hops@[1].status@
                == "ok"@ <==> found@[n] is Some),
{
    let name = text_or_nothing(ing.name);
    let ns = ingress_namespace(ing, asked@);
    let rules = ing.rules@;
    let p = rule_paths(rules[k])[i];
    let v = views(r.routes@);
    assert(v.len() == r.routes@.len());
    lemma_all_routes(name, ns, rules, found@, slices@, k, i);
    lemma_rule_lookups(rules, k, i);
    let n = backends(rules.take(k)) + with_service(rule_paths(rules[k]).take(i));
    let hit = if p.service is Some {
        found@[n as int]
    } else {
        None
    };
    let host = text_or(rules[k].host, "*"@);
    assert(v[at] == path_route(name, ns, host, p, hit, slices@));
    assert(v[at] == r.routes@[at]@);
    law_route_health(name, ns, host, p, hit, slices@);
    let hops = views(r.routes@[at].hops@);
    assert(hops.len() == r.routes@[at].hops@.len());
    assert(hops.len() >= 2);
    assert(hops[1] == r.routes@[at].hops@[1]@);
    reveal_strlit("ok");
    reveal_strlit("error");
    assert("ok"@.len() == 2 && "error"@.len() == 5);
    if p.service is Some {
        assert(texts(names@).len() == names@.len());
        assert(texts(names@)[n as int] == names@[n as int]@);
    }
}

/// An Ingress has TLS as soon as it has one entry for it, and the report is under its name
/// and namespace.
pub proof fn law_report_is_of_the_ingress(
    ing: IngressSpec,
    asked: &str,
    found: Vec<Option<FoundService>>,
    slices: Vec<Slice>,
    r: IngressDebugResult,
)
    requires
        call_ensures(debug_ingress, (&ing, asked, &found, &slices), r),
    ensures
        r.tls <==> ing.tls_entries >= 1,
        ing.name matches Some(n) ==> r.ingress@ == n@,
        ing.namespace matches Some(n) ==> r.namespace@ == n@,
        ing.namespace is None ==> r.namespace@ == asked@,
        ing.class matches Some(c) ==> opt_text(r.ingress_class) == Some(c@),
        ing.class is None ==> r.ingress_class is None,
{
}

} // verus!
