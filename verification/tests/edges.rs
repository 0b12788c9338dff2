//! What holds across calls, and answers that the other files do not reach.
use k7s_kube::client::{ClusterBody, ContextBody, Kubeconfig, NamedCluster, NamedContext};
use k7s_kube::config_snapshots::{configmap_key, secret_key, ConfigSnapshot, SnapshotStore};
use k7s_kube::dependency_graph::{
    build_dependency_graph, ClusterObjects, Listed, ListedService,
};
use k7s_kube::endpoints::{addresses_for, map_slice, Slice, SliceEndpoint};
use k7s_kube::error::AppError;
use k7s_kube::helm::market::{cache_dir, HelmRepo, Platform};
use k7s_kube::image::export::{begin_export, export_command, validate_image_ref, ExportStart};
use k7s_kube::image::import::{begin_import, ImportStart};
use k7s_kube::image::scan::check_scanners_sync;
use k7s_kube::image::sync::{
    export_timed_out, finish_registry_export, registry_export_outcome, COPY_TIMEOUT_SECS,
};
use k7s_kube::instances::answered_with;
use k7s_kube::kubeconfig_check::{has_errors, validate_kubeconfig};
use k7s_kube::lists::TextMap;
use k7s_kube::logs::detect_level;
use k7s_kube::manager::{ClientManager, ConnectionInfo, ForwardDto};
use k7s_kube::nodeshell::pod_name;
use k7s_kube::observability::alerting::{list_silences, rules_url, silences_url};

fn text_map(entries: &[(&str, &str)]) -> TextMap {
    let mut m = TextMap::new();
    for (k, v) in entries {
        m.insert(k, v);
    }
    m
}

fn pod(name: &str, namespace: &str, labels: &[(&str, &str)]) -> Listed {
    Listed {
        name: Some(name.into()),
        namespace: Some(namespace.into()),
        owners: Vec::new(),
        labels: Some(text_map(labels)),
    }
}

fn service(name: &str, selector: Option<TextMap>) -> ListedService {
    ListedService { name: Some(name.into()), namespace: Some("prod".into()), selector }
}

#[test]
fn a_service_selects_every_pod_that_fits_and_no_other() {
    let c = ClusterObjects {
        deployments: Vec::new(),
        replica_sets: Vec::new(),
        stateful_sets: Vec::new(),
        daemon_sets: Vec::new(),
        pods: vec![
            pod("a", "prod", &[("app", "web"), ("tier", "front")]),
            pod("b", "prod", &[("app", "web")]),
            pod("c", "prod", &[("app", "db")]),
            pod("d", "test", &[("app", "web")]),
            pod("a", "prod", &[]),
        ],
        services: vec![
            service("web", Some(text_map(&[("app", "web")]))),
            service("all", Some(text_map(&[]))),
            service("none", None),
        ],
        ingresses: Vec::new(),
    };
    let g = build_dependency_graph(&c);
    let to: Vec<&str> = g.edges.iter().map(|e| e.to.name.as_str()).collect();
    assert_eq!(to, vec!["a", "b"]);
    assert!(g.edges.iter().all(|e| e.relation == "selects" && e.from.name == "web"));
    assert_eq!(g.nodes.iter().filter(|n| n.kind == "Pod" && n.name == "a").count(), 1);
    assert_eq!(g.nodes.len(), 7);
}

#[test]
fn both_views_of_a_slice_count_the_same() {
    let ep = |addresses: &[&str], ready: Option<bool>| SliceEndpoint {
        addresses: addresses.iter().map(|a| a.to_string()).collect(),
        ready,
        node_name: None,
        target: None,
    };
    let s = Slice {
        name: "s".into(),
        namespace: None,
        labels: None,
        ports: vec![Some(-1)],
        endpoints: vec![
            ep(&["10.0.0.1", "10.0.0.2"], Some(false)),
            ep(&["10.0.0.3", "10.0.0.4", "10.0.0.5"], None),
            ep(&[], Some(true)),
        ],
        created: None,
    };
    let row = map_slice(&s);
    let rows = addresses_for(&s);
    assert_eq!((row.ready, row.total), (3, 5));
    assert_eq!(rows.len(), 5);
    assert_eq!(rows.iter().filter(|r| r.ready).count(), 3);
    assert_eq!(row.addresses[0], "10.0.0.1:-1");
}

#[test]
fn accepted_references_are_one_argument() {
    for bad in ["", "a b", "a;b", "a&b", "a|b", "a$b", "a`b", "a(b", "a\nb", "a\\b", "é"] {
        assert!(validate_image_ref(bad).is_err(), "{bad:?}");
    }
    let odd = export_command("containerd", "/bin/sh").unwrap();
    let plain = export_command("containerd", "nginx").unwrap();
    assert_eq!(odd.last().unwrap(), "/bin/sh");
    assert_eq!(odd[..odd.len() - 1], plain[..plain.len() - 1]);
}

#[test]
fn pods_of_different_runs_have_different_names() {
    assert_ne!(pod_name("n-1", 1), pod_name("n", 11));
    assert_ne!(pod_name("n", 1), pod_name("n", 2));
    let name = |node: &str, seq: u64| match begin_import("docker://1", node, seq, None) {
        ImportStart::Planned(p) => p.pod_name,
        ImportStart::Refused(_) => panic!("refused"),
    };
    assert_eq!(name("n", 7), "k7s-imgimp-n-7");
    assert_ne!(name("n-1", 1), name("n", 11));
    let saved = |node: &str, seq: u64| {
        match begin_export("docker://1", node, "nginx", "/tmp/x.tar", seq, Some("img")) {
            Ok(ExportStart::Planned(p)) => (p.pod_name, p.pod_image),
            _ => panic!("refused"),
        }
    };
    assert_eq!(saved("n", 7), ("k7s-imgexp-n-7".to_string(), "img".to_string()));
}

#[test]
fn a_kubeconfig_that_is_accepted_can_be_used() {
    let mut kc = Kubeconfig {
        contexts: vec![NamedContext {
            name: "a".into(),
            context: Some(ContextBody { cluster: "c".into(), user: None }),
        }],
        clusters: vec![NamedCluster {
            name: "c".into(),
            cluster: Some(ClusterBody {
                server: Some("https://x".into()),
                certificate_authority: true,
                certificate_authority_data: false,
                insecure_skip_tls_verify: None,
            }),
        }],
        auth_infos: Vec::new(),
        current_context: None,
    };
    let issues = validate_kubeconfig(&kc);
    assert!(has_errors(&issues));
    assert_eq!(issues[0].code, "missingUserRef");
    assert_eq!(issues[0].message, "context 'a' sets no user");
    kc.contexts[0].context = None;
    let issues = validate_kubeconfig(&kc);
    assert_eq!(issues.len(), 1);
    assert_eq!(issues[0].code, "missingContextBody");
}

#[test]
fn a_level_is_one_of_four() {
    assert_eq!(detect_level("{\"level\":\"critical\"}"), "ERROR");
    assert_eq!(detect_level("{\"level\":\"odd\"} ERROR"), "");
    assert_eq!(detect_level("TERROR in the night"), "");
    assert_eq!(detect_level("trace: x"), "DEBUG");
}

#[test]
fn histories_are_kept_apart() {
    assert_eq!(configmap_key("ns", "a"), "configmaps:ns/a");
    assert_eq!(secret_key("ns", "a"), "secrets:ns/a");
    assert_ne!(configmap_key("n", "s/a"), configmap_key("ns", "a"));
    let snap = |v: &str| ConfigSnapshot {
        resource_version: v.into(),
        timestamp: String::new(),
        data_keys: Vec::new(),
        yaml: String::new(),
    };
    let mut store = SnapshotStore::new();
    store.record(configmap_key("ns", "a"), snap("1"));
    store.record(secret_key("ns", "a"), snap("2"));
    store.clear(&configmap_key("ns", "a"));
    assert_eq!(store.resource_count(), 1);
    assert_eq!(store.list(&secret_key("ns", "a"))[0].resource_version, "2");
}

#[test]
fn every_task_is_stopped_in_the_end() {
    let mut m: ClientManager<u8, u8> = ClientManager::new();
    m.set_connected(
        1,
        ConnectionInfo { context: "c".into(), server: "s".into(), version: "v".into() },
        2,
    );
    let mut stopped: Vec<u64> = Vec::new();
    m.push_task(1);
    for (id, task) in [("x", 2), ("y", 3), ("x", 4)] {
        stopped.extend(m.add_log(id, task).abort);
    }
    stopped.extend(m.add_custom_watcher("k", 5).abort);
    stopped.extend(m.add_node_scraper("n", 6).abort);
    let dto = ForwardDto {
        id: "f".into(),
        namespace: "ns".into(),
        pod: "p".into(),
        service: None,
        remote_port: 80,
        service_port: None,
        local_port: 8080,
        error: None,
    };
    stopped.extend(m.add_forward(dto, 7).abort);
    assert_eq!(stopped, vec![2]);
    assert_eq!(m.live_count(), 7);
    let e = m.remove_log("y");
    assert_eq!((e.abort, e.watch), (vec![3], Some(6)));
    let e = m.remove_log("y");
    assert_eq!((e.abort, e.watch), (vec![], None));
    let e = m.remove_forward("f");
    assert_eq!((e.abort, e.watch, e.forwards), (vec![7], Some(5), true));
    assert!(!m.remove_forward("f").forwards);
    assert_eq!(m.remove_custom_watcher("k").abort, vec![5]);
    assert_eq!(m.remove_node_scraper("n").abort, vec![6]);
    assert_eq!(m.reset().abort, vec![1, 4]);
    assert_eq!(m.live_count(), 0);
}

#[test]
fn scanners_are_there_where_they_were_found() {
    let s = check_scanners_sync(Some("/bin/trivy".into()), None);
    assert!(s.trivy && !s.grype);
    assert_eq!(s.trivy_path.as_deref(), Some("/bin/trivy"));
}

#[test]
fn an_export_from_a_registry_ends_with_its_summary() {
    let ok = finish_registry_export("docker://h/r:t", "/tmp/x.tar", true, "exit status: 0", 4);
    assert_eq!(ok.summary, "exported docker://h/r:t → /tmp/x.tar");
    assert_eq!((ok.lines, ok.saved_path.as_str()), (4, "/tmp/x.tar"));
    assert!(registry_export_outcome(ok).is_ok());
    let failed = finish_registry_export("docker://h/r:t", "/tmp/x.tar", false, "exit status: 1", 0);
    match registry_export_outcome(failed) {
        Err(AppError::Other(m)) => assert_eq!(m, "skopeo copy failed: exit status: 1"),
        _ => panic!("not an error"),
    }
    let late = export_timed_out("docker://h/r:t").message();
    assert_eq!(
        late,
        format!("skopeo export timed out after {COPY_TIMEOUT_SECS}s (source docker://h/r:t)")
    );
}

#[test]
fn a_refused_request_is_answered_with_its_text() {
    assert!(answered_with("http://x", 200, "200 OK", "").is_ok());
    let e = answered_with("http://x", 500, "500 Internal Server Error", "boom").unwrap_err();
    assert!(e.message().contains("http://x"));
    assert!(e.message().contains("500"));
    assert!(e.message().contains("boom"));
}

#[test]
fn silences_are_listed_from_their_address() {
    assert_eq!(silences_url("http://am"), "http://am/api/v2/silences");
    assert!(rules_url("http://p").starts_with("http://p/api/v1/rules"));
    let raw: Vec<serde_json::Value> =
        serde_json::from_str(r#"[{"id":"s1","status":{"state":"active"}}]"#).unwrap();
    let s = list_silences(raw);
    assert_eq!(s.len(), 1);
    assert_eq!(s[0].id, "s1");
}

#[test]
fn indexes_are_cached_where_the_platform_caches() {
    assert_eq!(
        cache_dir(Platform::Linux, None, Some("/home/u")).as_deref(),
        Some("/home/u/.cache/k7s/helm-index")
    );
    assert_eq!(
        cache_dir(Platform::Linux, Some("/c"), None).as_deref(),
        Some("/c/k7s/helm-index")
    );
    assert_eq!(cache_dir(Platform::Unknown, Some("/c"), Some("/h")), None);
    let repo = HelmRepo {
        name: "a/b:c".into(),
        url: String::new(),
        description: String::new(),
        last_refreshed: None,
        last_error: None,
    };
    assert_eq!(repo.index_file_hint(Some("/c")).as_deref(), Some("/c/a_b_c.yaml"));
    assert_eq!(repo.index_file_hint(None), None);
}
