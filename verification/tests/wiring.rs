//! How objects refer to each other, kubeconfigs, kinds, and what is held for a
//! connection.
use k7s_kube::client::{
    contexts_from_kubeconfig, default_kubeconfig_path, first_kubeconfig_path, list_contexts,
    AuthInfo, ClusterBody, ContextBody, Kubeconfig, KubeconfigPath, NamedAuthInfo, NamedCluster,
    NamedContext,
};
use k7s_kube::dependency_graph::{
    build_dependency_graph, make_key, ClusterObjects, Listed, ListedIngress, ListedService, Owner,
};
use k7s_kube::endpoints::{
    addresses_for, count_ready_addresses, map_slice, Slice, SliceEndpoint, TargetRef,
    SERVICE_NAME_LABEL,
};
use k7s_kube::error::AppError;
use k7s_kube::ingress_debug::{
    debug_ingress, lookups, overall_status, BackendService, FoundService, IngressSpec, RouteHop,
    Rule, RulePath,
};
use k7s_kube::instances::{answered, normalise_instance, not_found, pick_auth, reachable, Auth};
use k7s_kube::kind::ResourceKind;
use k7s_kube::kubeconfig_check::{
    has_errors, summarize_issues, validate_kubeconfig, KubeconfigIssue,
};
use k7s_kube::lists::TextMap;
use k7s_kube::manager::{ClientManager, ConnectionInfo, ForwardDto, ImportedContext};
use k7s_kube::paths::{file_stem, has_parent_dir, is_directly_in, join_path, user_config_dir};
use k7s_kube::tools::{tool_candidates, which_answer};

// ---- graph of objects ----

#[test]
fn graph_node_dedup_key() {
    let a = make_key("Pod", "nginx", &Some("default".into()));
    let b = make_key("Pod", "nginx", &Some("default".into()));
    assert_eq!(a, b);
}

#[test]
fn graph_node_dedup_different_ns() {
    let a = make_key("Pod", "nginx", &Some("default".into()));
    let b = make_key("Pod", "nginx", &Some("kube-system".into()));
    assert_ne!(a, b);
}

#[test]
fn graph_node_dedup_different_kind() {
    let a = make_key("Pod", "nginx", &Some("default".into()));
    let b = make_key("Service", "nginx", &Some("default".into()));
    assert_ne!(a, b);
}

#[test]
fn graph_node_dedup_cluster_scoped() {
    let a = make_key("Node", "node1", &None);
    let b = make_key("Node", "node1", &None);
    assert_eq!(a, b);
}

#[test]
fn graph_node_dedup_mixed_scope() {
    let a = make_key("Node", "node1", &None);
    let b = make_key("Node", "node1", &Some("default".into()));
    assert_ne!(a, b);
}

fn labels(entries: &[(&str, &str)]) -> Option<TextMap> {
    let mut map = TextMap::new();
    for (k, v) in entries {
        map.insert(k, v);
    }
    Some(map)
}

fn listed(name: &str, owner: Option<(&str, &str)>, own: Option<TextMap>) -> Listed {
    Listed {
        name: Some(name.into()),
        namespace: Some("default".into()),
        owners: owner
            .into_iter()
            .map(|o| Owner { kind: o.0.into(), name: o.1.into() })
            .collect(),
        labels: own,
    }
}

#[test]
fn a_graph_joins_owners_selectors_and_routes() {
    let objects = ClusterObjects {
        deployments: vec![listed("web", None, None)],
        replica_sets: vec![listed("web-1", Some(("Deployment", "web")), None)],
        stateful_sets: vec![],
        daemon_sets: vec![],
        pods: vec![
            listed("web-1-a", Some(("ReplicaSet", "web-1")), labels(&[("app", "web"), ("x", "y")])),
            listed("other", None, labels(&[("app", "other")])),
        ],
        services: vec![ListedService {
            name: Some("web".into()),
            namespace: Some("default".into()),
            selector: labels(&[("app", "web")]),
        }],
        ingresses: vec![ListedIngress {
            name: Some("edge".into()),
            namespace: Some("default".into()),
            rules: vec![Some(vec![Some("web".into()), None]), None],
        }],
    };
    let graph = build_dependency_graph(&objects);
    let edges: Vec<(String, String, String)> = graph
        .edges
        .iter()
        .map(|e| {
            (
                format!("{}/{}", e.from.kind, e.from.name),
                e.relation.clone(),
                format!("{}/{}", e.to.kind, e.to.name),
            )
        })
        .collect();
    let has = |a: &str, r: &str, b: &str| {
        edges.contains(&(a.to_string(), r.to_string(), b.to_string()))
    };
    assert!(has("Deployment/web", "owns", "ReplicaSet/web-1"), "{edges:?}");
    assert!(has("ReplicaSet/web-1", "owns", "Pod/web-1-a"), "{edges:?}");
    assert!(has("Service/web", "selects", "Pod/web-1-a"), "{edges:?}");
    assert!(has("Ingress/edge", "routes", "Service/web"), "{edges:?}");
    assert!(!has("Service/web", "selects", "Pod/other"));
    assert_eq!(edges.len(), 4);
    let mut keys: Vec<_> =
        graph.nodes.iter().map(|n| make_key(&n.kind, &n.name, &n.namespace)).collect();
    let before = keys.len();
    keys.sort();
    keys.dedup();
    assert_eq!(keys.len(), before, "each object is one node");
}

// ---- endpoints ----

fn endpoint(address: &str, ready: Option<bool>) -> SliceEndpoint {
    SliceEndpoint { addresses: vec![address.into()], ready, node_name: None, target: None }
}

fn make_slice(
    name: &str,
    namespace: &str,
    service: &str,
    ready_count: usize,
    total_count: usize,
) -> Slice {
    Slice {
        name: name.into(),
        namespace: Some(namespace.into()),
        labels: labels(&[("kubernetes.io/service-name", service)]),
        ports: vec![],
        endpoints: (0..total_count)
            .map(|i| endpoint(&format!("10.0.0.{i}"), Some(i < ready_count)))
            .collect(),
        created: None,
    }
}

#[test]
fn map_slice_counts_ready_addresses() {
    let s = make_slice("nginx-1", "default", "nginx", 2, 3);
    let row = map_slice(&s);
    assert_eq!(row.name, "nginx-1");
    assert_eq!(row.namespace, "default");
    assert_eq!(row.service, "nginx");
    assert_eq!(row.ready, 2);
    assert_eq!(row.total, 3);
    assert_eq!(row.addresses.len(), 3);
}

#[test]
fn map_slice_uses_endpoint_port_when_present() {
    let mut s = make_slice("with-port", "default", "svc", 1, 1);
    s.ports = vec![Some(8080)];
    let row = map_slice(&s);
    assert_eq!(row.addresses, vec!["10.0.0.0:8080".to_string()]);
}

#[test]
fn map_slice_with_zero_addresses_reports_zero() {
    let s = make_slice("empty", "default", "svc", 0, 0);
    let row = map_slice(&s);
    assert_eq!(row.ready, 0);
    assert_eq!(row.total, 0);
    assert!(row.addresses.is_empty());
}

/// `ready` left out means ready: only an explicit false is "not serving".
#[test]
fn map_slice_treats_nil_ready_as_true() {
    let mut s = make_slice("nil-ready", "default", "svc", 1, 2);
    s.endpoints[1].ready = None;
    let row = map_slice(&s);
    // One explicit true + one left out: both ready, counted per address.
    assert_eq!(row.ready, 2);
    assert_eq!(row.total, 2);
}

#[test]
fn sanitise_path_rejects_dotdot() {
    for seg in "/a/../b".split('/') {
        if seg == ".." {
            assert!(has_parent_dir("/a/../b"));
            return; // expected
        }
    }
    panic!("should have hit a .. segment");
}

#[test]
fn map_slice_omits_service_when_label_missing() {
    let mut s = make_slice("no-label", "default", "x", 1, 1);
    s.labels = None;
    let row = map_slice(&s);
    assert_eq!(row.service, "");
}

#[test]
fn addresses_name_what_they_point_to() {
    let mut s = make_slice("n", "default", "svc", 0, 1);
    s.endpoints[0].node_name = Some("node1".into());
    s.endpoints[0].target =
        Some(TargetRef { kind: Some("Pod".into()), name: Some("web-1".into()) });
    let all = addresses_for(&s);
    assert_eq!(all.len(), 1);
    assert_eq!(all[0].address, "10.0.0.0");
    assert!(!all[0].ready);
    assert_eq!(all[0].node_name, "node1");
    assert_eq!(all[0].target_ref_kind, "Pod");
    assert_eq!(all[0].target_ref_name, "web-1");
    assert_eq!(SERVICE_NAME_LABEL, "kubernetes.io/service-name");
}

// ---- ingress routes ----

fn hop(status: &str) -> RouteHop {
    RouteHop {
        kind: "Test".into(),
        name: "x".into(),
        namespace: "default".into(),
        status: status.into(),
        detail: String::new(),
    }
}

/// All hops ok => overall ok.
#[test]
fn overall_ok_when_all_hops_ok() {
    let hops = vec![hop("ok"), hop("ok"), hop("ok")];
    assert_eq!(overall_status(&hops), "ok");
}

/// Any warning => overall warning.
#[test]
fn overall_warning_on_any_warning() {
    let hops = vec![hop("ok"), hop("warning"), hop("ok")];
    assert_eq!(overall_status(&hops), "warning");
}

/// Any error => overall error, even if a warning is also present.
#[test]
fn overall_error_on_any_error() {
    let hops = vec![hop("ok"), hop("warning"), hop("error")];
    assert_eq!(overall_status(&hops), "error");
}

/// Error takes precedence over warning.
#[test]
fn error_beats_warning() {
    let hops = vec![hop("warning"), hop("error")];
    assert_eq!(overall_status(&hops), "error");
}

/// Empty hops => ok (no failures).
#[test]
fn overall_ok_for_empty_hops() {
    assert_eq!(overall_status(&vec![]), "ok");
}

/// Single error hop => error.
#[test]
fn single_error_hop() {
    let hops = vec![hop("error")];
    assert_eq!(overall_status(&hops), "error");
}

fn slice_of(name: &str, svc: &str, addresses: Vec<&str>, ready: Option<bool>) -> Slice {
    Slice {
        name: name.into(),
        namespace: Some("default".into()),
        labels: labels(&[("kubernetes.io/service-name", svc)]),
        ports: vec![],
        endpoints: addresses.into_iter().map(|a| endpoint(a, ready)).collect(),
        created: None,
    }
}

/// count_ready_addresses filters by service name label and ready condition.
#[test]
fn count_ready_filters_correctly() {
    let slices = vec![
        slice_of("svc-a-1", "svc-a", vec!["10.0.0.1", "10.0.0.2"], Some(true)),
        slice_of("svc-a-2", "svc-a", vec!["10.0.0.3"], Some(false)),
        slice_of("svc-b-1", "svc-b", vec!["10.0.1.1"], Some(true)),
    ];
    // svc-a: 2 ready (the third is not-ready).
    assert_eq!(count_ready_addresses(&slices, "svc-a"), 2);
    // svc-b: 1 ready.
    assert_eq!(count_ready_addresses(&slices, "svc-b"), 1);
    // svc-c: not present.
    assert_eq!(count_ready_addresses(&slices, "svc-c"), 0);
}

#[test]
fn a_route_is_followed_to_its_endpoints() {
    let path = |svc: Option<&str>| RulePath {
        path: Some("/app".into()),
        path_type: "Prefix".into(),
        service: svc.map(|s| BackendService { name: s.into(), port: "80".into() }),
    };
    let ing = IngressSpec {
        name: Some("edge".into()),
        namespace: None,
        class: Some("nginx".into()),
        tls_entries: 1,
        rules: vec![
            Rule {
                host: Some("a.example".into()),
                http: Some(vec![path(Some("up")), path(None), path(Some("gone"))]),
            },
            Rule { host: None, http: None },
        ],
    };
    assert_eq!(lookups(&ing), vec!["up", "gone"]);
    let found = vec![
        Some(FoundService { service_type: None, cluster_ip: Some("10.1.0.1".into()) }),
        None,
    ];
    let slices = vec![slice_of("up-1", "up", vec!["10.0.0.1"], Some(true))];
    let result = debug_ingress(&ing, "asked", &found, &slices);
    assert_eq!(result.ingress, "edge");
    assert_eq!(result.namespace, "asked");
    assert!(result.tls);
    assert_eq!(result.routes.len(), 3);
    assert_eq!(result.routes[0].overall_status, "ok");
    assert_eq!(result.routes[0].hops[0].detail, "host=a.example, path=/app");
    assert_eq!(result.routes[0].hops[1].detail, "type=ClusterIP, clusterIP=10.1.0.1, port=80");
    assert_eq!(result.routes[0].hops[2].detail, "1 endpoint(s) ready");
    assert_eq!(result.routes[1].overall_status, "error");
    assert_eq!(result.routes[1].hops[1].detail, "no backend service defined");
    assert_eq!(result.routes[2].hops.len(), 2);
    assert_eq!(result.routes[2].hops[1].detail, "Service not found");
}

// ---- kubeconfigs ----

/// The kubeconfig that a text holds.
fn config(yaml: &str) -> Kubeconfig {
    let kc = kube::config::Kubeconfig::from_yaml(yaml).expect("test yaml parses");
    Kubeconfig {
        contexts: kc
            .contexts
            .into_iter()
            .map(|c| NamedContext {
                name: c.name,
                context: c.context.map(|b| ContextBody { cluster: b.cluster, user: b.user }),
            })
            .collect(),
        clusters: kc
            .clusters
            .into_iter()
            .map(|c| NamedCluster {
                name: c.name,
                cluster: c.cluster.map(|b| ClusterBody {
                    server: b.server,
                    certificate_authority: b.certificate_authority.is_some(),
                    certificate_authority_data: b.certificate_authority_data.is_some(),
                    insecure_skip_tls_verify: b.insecure_skip_tls_verify,
                }),
            })
            .collect(),
        auth_infos: kc
            .auth_infos
            .into_iter()
            .map(|a| NamedAuthInfo {
                name: a.name,
                auth_info: a.auth_info.map(|i| AuthInfo {
                    token: i.token.is_some(),
                    token_file: i.token_file.is_some(),
                    client_certificate: i.client_certificate.is_some(),
                    client_certificate_data: i.client_certificate_data.is_some(),
                    username: i.username.is_some(),
                    password: i.password.is_some(),
                    auth_provider: i.auth_provider.is_some(),
                    exec_plugin: i.exec.is_some(),
                }),
            })
            .collect(),
        current_context: kc.current_context,
    }
}

fn codes(issues: &[KubeconfigIssue]) -> Vec<&str> {
    issues.iter().map(|i| i.code.as_str()).collect()
}

#[test]
fn good_file_has_no_issues() {
    let kc = config(
        r#"
apiVersion: v1
kind: Config
current-context: prod
clusters:
  - name: prod
    cluster:
      server: https://k8s.example.com:6443
      certificate-authority-data: Zm9v
contexts:
  - name: prod
    context: { cluster: prod, user: prod-user }
users:
  - name: prod-user
    user: { token: s3cret }
"#,
    );
    assert!(validate_kubeconfig(&kc).is_empty());
}

#[test]
fn empty_contexts_is_an_error() {
    let kc = config("apiVersion: v1\nkind: Config\nclusters: []\ncontexts: []\nusers: []\n");
    let issues = validate_kubeconfig(&kc);
    assert!(has_errors(&issues));
    assert!(codes(&issues).contains(&"noContexts"));
}

#[test]
fn dangling_cluster_and_user_refs_are_errors() {
    let kc = config(
        r#"
clusters: []
contexts:
  - name: c1
    context: { cluster: nope, user: also-nope }
users: []
"#,
    );
    let issues = validate_kubeconfig(&kc);
    assert!(has_errors(&issues));
    let c = codes(&issues);
    assert!(c.contains(&"missingClusterRef") && c.contains(&"missingUserRef"));
    assert_eq!(issues[0].context.as_deref(), Some("c1"));
}

#[test]
fn missing_server_is_an_error() {
    let kc = config(
        r#"
clusters:
  - name: c
    cluster: {}
contexts:
  - name: c1
    context: { cluster: c, user: u }
users:
  - name: u
    user: { token: t }
"#,
    );
    let issues = validate_kubeconfig(&kc);
    assert!(codes(&issues).contains(&"missingServer"));
}

#[test]
fn bad_server_url_is_an_error() {
    let kc = config(
        r#"
clusters:
  - name: c
    cluster: { server: "not-a-url" }
contexts:
  - name: c1
    context: { cluster: c, user: u }
users:
  - name: u
    user: { token: t }
"#,
    );
    let issues = validate_kubeconfig(&kc);
    assert!(codes(&issues).contains(&"badServerUrl"));
}

#[test]
fn https_without_ca_warns_but_does_not_block() {
    let kc = config(
        r#"
clusters:
  - name: c
    cluster: { server: https://k8s.example.com }
contexts:
  - name: c1
    context: { cluster: c, user: u }
users:
  - name: u
    user: { token: t }
"#,
    );
    let issues = validate_kubeconfig(&kc);
    assert!(!has_errors(&issues));
    assert!(codes(&issues).contains(&"noCaBundle"));
}

#[test]
fn insecure_skip_tls_verify_suppresses_ca_warning() {
    let kc = config(
        r#"
clusters:
  - name: c
    cluster: { server: https://k8s.example.com, insecure-skip-tls-verify: true }
contexts:
  - name: c1
    context: { cluster: c, user: u }
users:
  - name: u
    user: { token: t }
"#,
    );
    assert!(validate_kubeconfig(&kc).is_empty());
}

#[test]
fn user_without_credentials_warns() {
    let kc = config(
        r#"
clusters:
  - name: c
    cluster: { server: https://k8s.example.com }
contexts:
  - name: c1
    context: { cluster: c, user: u }
users:
  - name: u
    user: {}
"#,
    );
    let issues = validate_kubeconfig(&kc);
    assert!(!has_errors(&issues));
    assert!(codes(&issues).contains(&"noCredentials"));
}

#[test]
fn exec_plugin_counts_as_credentials() {
    let kc = config(
        r#"
clusters:
  - name: c
    cluster: { server: https://k8s.example.com, insecure-skip-tls-verify: true }
contexts:
  - name: c1
    context: { cluster: c, user: u }
users:
  - name: u
    user:
      exec:
        apiVersion: client.authentication.k8s.io/v1
        command: my-auth-plugin
        interactiveMode: Never
"#,
    );
    assert!(validate_kubeconfig(&kc).is_empty());
}

#[test]
fn dangling_current_context_warns() {
    let kc = config(
        r#"
current-context: missing
clusters:
  - name: c
    cluster: { server: https://k8s.example.com }
contexts:
  - name: c1
    context: { cluster: c, user: u }
users:
  - name: u
    user: { token: t }
"#,
    );
    let issues = validate_kubeconfig(&kc);
    assert!(!has_errors(&issues));
    assert!(codes(&issues).contains(&"danglingCurrentContext"));
}

#[test]
fn summarize_lists_every_issue() {
    let kc = config(
        r#"
clusters: []
contexts:
  - name: c1
    context: { cluster: nope, user: nobody }
users: []
"#,
    );
    let issues = validate_kubeconfig(&kc);
    let summary = summarize_issues(&issues);
    assert!(
        summary.starts_with("kubeconfig validation failed (2 issue(s)):"),
        "got: {summary}"
    );
    assert!(summary.contains("[error] context 'c1': cluster 'nope' not found"));
    assert!(summary.contains("[error] context 'c1': user 'nobody' not found"));
}

/// An imported file contributes each of its contexts, tagged with its cluster.
#[test]
fn reads_contexts_from_a_kubeconfig_file() {
    let kc = config(
        r#"
apiVersion: v1
kind: Config
current-context: alpha
clusters:
  - name: alpha-cluster
    cluster: { server: https://alpha.example:6443 }
  - name: beta-cluster
    cluster: { server: https://beta.example:6443 }
contexts:
  - name: alpha
    context: { cluster: alpha-cluster, user: alpha-user }
  - name: beta
    context: { cluster: beta-cluster, user: beta-user }
users:
  - name: alpha-user
    user: {}
  - name: beta-user
    user: {}
"#,
    );
    let contexts = contexts_from_kubeconfig(&kc);
    let names: Vec<&str> = contexts.iter().map(|c| c.name.as_str()).collect();
    assert_eq!(names, ["alpha", "beta"]);
    assert_eq!(contexts[0].cluster, "alpha-cluster");
    // current-context belongs to the *default* kubeconfig; an imported file
    // never claims to be current.
    assert!(contexts.iter().all(|c| !c.current));
    // The default kubeconfig marks its current context.
    let listed = list_contexts(&Some(kc));
    assert!(listed[0].current && !listed[1].current);
    assert!(list_contexts(&None).is_empty());
}

#[test]
fn the_kubeconfig_variable_comes_before_the_home() {
    assert_eq!(first_kubeconfig_path("::/a:/b", ':').as_deref(), Some("/a"));
    assert_eq!(first_kubeconfig_path("::", ':'), None);
    assert!(matches!(
        default_kubeconfig_path(Some("/x/config:/y"), Some("/home/u"), None, false),
        KubeconfigPath::At(p) if p == "/x/config"
    ));
    assert!(matches!(
        default_kubeconfig_path(None, Some("/home/u"), None, false),
        KubeconfigPath::Below(p) if p == "/home/u"
    ));
    assert!(matches!(
        default_kubeconfig_path(Some("C:\\k;D:\\k"), None, Some("C:\\u"), true),
        KubeconfigPath::At(p) if p == "C:\\k"
    ));
    assert!(matches!(
        default_kubeconfig_path(Some(""), None, None, false),
        KubeconfigPath::Unknown
    ));
}

// ---- kinds ----

#[test]
fn kinds_are_found_by_id_and_by_name() {
    let k = ResourceKind::from_id("deployments").unwrap();
    assert_eq!(k, ResourceKind::Deployments);
    assert_eq!(k.kind_name(), "Deployment");
    assert_eq!(k.group(), "apps");
    assert!(k.is_namespaced());
    assert_eq!(ResourceKind::from_kind_name("Ingress"), Some(ResourceKind::Ingresses));
    assert!(!ResourceKind::Nodes.is_namespaced());
    assert!(!ResourceKind::Ingressclasses.is_namespaced());
    assert_eq!(ResourceKind::from_id("unicorns"), None);
    let api = ResourceKind::Deployments.api_resource();
    assert_eq!(api.api_version, "apps/v1");
    assert_eq!(api.plural, "deployments");
    assert_eq!(ResourceKind::Pods.api_resource().api_version, "v1");
}

// ---- what is held for a connection ----

fn info(context: &str) -> ConnectionInfo {
    ConnectionInfo { context: context.into(), server: "https://x".into(), version: "v1".into() }
}

fn forward(id: &str, port: u16) -> ForwardDto {
    ForwardDto {
        id: id.into(),
        namespace: "ns".into(),
        pod: "p".into(),
        service: None,
        remote_port: 80,
        service_port: None,
        local_port: port,
        error: None,
    }
}

#[test]
fn no_task_is_forgotten_without_being_stopped() {
    let mut m: ClientManager<u8, u8> = ClientManager::new();
    assert!(m.client().is_none());
    m.set_connected(7, info("a"), 3);
    assert_eq!(m.client(), Some(&7));
    assert_eq!(m.watcher_count(), 3);
    m.push_task(1);
    assert!(m.add_log("l", 2).abort.is_empty());
    assert_eq!(m.add_log("l", 3).abort, vec![2]);
    m.add_shell("s", 4);
    assert_eq!(m.shell("s"), Some(4));
    assert_eq!(m.remove_shell("s").abort, vec![4]);
    m.add_forward(forward("f", 8080), 5);
    assert_eq!(m.add_forward(forward("f", 8081), 6).abort, vec![5]);
    assert_eq!(m.list_forwards().len(), 1);
    assert_eq!(m.list_forwards()[0].local_port, 8081);
    assert!(m.set_forward_error("f", "gone".into()));
    assert!(!m.set_forward_error("g", "gone".into()));
    assert_eq!(m.list_forwards()[0].error.as_deref(), Some("gone"));
    m.add_node_scraper("n", 8);
    assert!(m.has_node_scraper("n"));
    m.set_custom_kinds(vec!["a".into(), "b".into()]);
    assert_eq!(m.custom_kind("b"), Some(1));
    m.add_custom_watcher("b", 9);
    assert!(m.has_custom_watcher("b"));
    let mut stopped = m.reset().abort;
    stopped.sort();
    assert_eq!(stopped, vec![1, 3, 6, 8, 9]);
    assert_eq!(m.live_count(), 0);
    assert!(m.client().is_none());
    assert!(m.connection_info().is_none());
}

#[test]
fn imports_outlive_a_connection() {
    let mut m: ClientManager<u8, u8> = ClientManager::new();
    m.add_import(
        "dev".into(),
        ImportedContext { path: "/k".into(), cluster: "c".into(), kubeconfig: Some(1) },
    );
    m.reset();
    assert_eq!(m.import_path("dev").as_deref(), Some("/k"));
    assert_eq!(m.import_kubeconfig("dev"), Some(&1));
    assert_eq!(m.import_path("prod"), None);
    assert_eq!(m.imports().len(), 1);
    m.add_import(
        "dev".into(),
        ImportedContext { path: "/k2".into(), cluster: "c".into(), kubeconfig: None },
    );
    assert_eq!(m.imports().len(), 1);
    assert_eq!(m.import_path("dev").as_deref(), Some("/k2"));
}

// ---- instances, tools and paths ----

#[test]
fn an_instance_needs_a_name_and_an_address() {
    assert!(matches!(
        normalise_instance("  ", "http://x"),
        Err(AppError::Other(m)) if m == "name cannot be empty"
    ));
    assert!(matches!(
        normalise_instance("a", " / "),
        Err(AppError::Other(m)) if m == "url cannot be empty"
    ));
    assert_eq!(
        normalise_instance(" a ", " http://x// ").unwrap(),
        ("a".to_string(), "http://x".to_string())
    );
    assert!(matches!(
        not_found("registry", "r"),
        AppError::NotFound(m) if m == "registry 'r' not found"
    ));
}

#[test]
fn a_token_comes_before_a_password() {
    assert!(matches!(pick_auth("", "", ""), Auth::Anonymous));
    assert!(matches!(pick_auth("t", "u", "p"), Auth::Bearer(t) if t == "t"));
    assert!(matches!(pick_auth("", "u", "p"), Auth::Basic(u, p) if u == "u" && p == "p"));
}

#[test]
fn an_answer_that_is_no_success_is_an_error() {
    assert!(answered("http://x", 204, "204 No Content").is_ok());
    assert!(answered("http://x", 500, "500 Internal Server Error")
        .unwrap_err()
        .message()
        .contains("500 Internal Server Error"));
    assert!(reachable("http://x", 200, "200 OK").is_ok());
    assert!(reachable("http://x", 503, "503 Service Unavailable").is_err());
}

#[test]
fn tools_are_looked_for_in_the_usual_places() {
    assert_eq!(
        tool_candidates("helm"),
        vec!["/usr/local/bin/helm", "/opt/homebrew/bin/helm", "/usr/bin/helm"]
    );
    assert_eq!(which_answer(true, "/bin/helm\n").as_deref(), Some("/bin/helm"));
    assert_eq!(which_answer(false, "/bin/helm\n"), None);
    assert_eq!(which_answer(true, " \n"), None);
}

#[test]
fn stores_live_below_the_home() {
    assert!(user_config_dir(Some("/home/u"), None, false).unwrap().starts_with("/home/u/"));
    assert!(user_config_dir(None, Some("C:/u"), false).unwrap().starts_with("C:/u/"));
    assert_ne!(
        user_config_dir(Some("/home/u"), None, false).unwrap(),
        user_config_dir(Some("/home/u"), None, true).unwrap()
    );
    assert_eq!(
        user_config_dir(None, None, false).unwrap_err().message(),
        "no HOME or USERPROFILE"
    );
    assert_eq!(join_path("/a", "b"), "/a/b");
    assert_eq!(join_path("/a/", "b"), "/a/b");
    assert_eq!(file_stem("demo-1.0.0.tgz"), "demo-1.0.0");
    assert!(is_directly_in("/a/b", "/a"));
    assert!(!is_directly_in("/a/b/c", "/a"));
}
