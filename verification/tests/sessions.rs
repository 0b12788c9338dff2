//! Snapshots of configuration, drains, shells into containers and into nodes.
use k7s_kube::config_snapshots::{
    configmap_key, secret_key, snapshot_configmap, snapshot_secret, ConfigSnapshot, SnapshotStore,
    MAX_SNAPSHOTS_PER_RESOURCE,
};
use k7s_kube::drain::{
    could_not_list, finish_drain, is_evictable, is_pdb_block, pods_on_node, record_eviction,
    start_drain, DrainPod, Eviction, CORDON_PATCH,
};
use k7s_kube::error::AppError;
use k7s_kube::nodeshell::{
    after_look, debug_pod_spec, node_selector, nsenter_cmd, pending_reason, pod_name, shell_image,
    timed_out, PodLook, PodWait, DEFAULT_IMAGE, LABEL_MANAGED, LABEL_MANAGED_VALUE, LABEL_NODE,
    MAX_LIFETIME_SECS,
};
use k7s_kube::shell::{
    closed_event, out_event, shell_cmd, shell_step, ShellEvent, SHELL_PROBE,
};

// ---- snapshots ----

fn make_snapshot(rv: &str) -> ConfigSnapshot {
    ConfigSnapshot {
        resource_version: rv.into(),
        timestamp: "2025-01-01T00:00:00Z".into(),
        data_keys: vec!["key-a".into(), "key-b".into()],
        yaml: "data:\n  key-a: val1\n  key-b: val2\n".into(),
    }
}

#[test]
fn record_and_list() {
    let mut store = SnapshotStore::new();
    store.record("configmaps:ns/cm".into(), make_snapshot("100"));
    store.record("configmaps:ns/cm".into(), make_snapshot("200"));
    let list = store.list("configmaps:ns/cm");
    assert_eq!(list.len(), 2);
    assert_eq!(list[0].resource_version, "100");
    assert_eq!(list[1].resource_version, "200");
}

#[test]
fn dedup_by_resource_version() {
    let mut store = SnapshotStore::new();
    store.record("configmaps:ns/cm".into(), make_snapshot("100"));
    store.record("configmaps:ns/cm".into(), make_snapshot("100"));
    let list = store.list("configmaps:ns/cm");
    assert_eq!(list.len(), 1, "duplicate resource_version should be deduped");
}

#[test]
fn ring_buffer_eviction() {
    let mut store = SnapshotStore::new();
    for i in 0..25 {
        store.record("configmaps:ns/cm".into(), make_snapshot(&i.to_string()));
    }
    let list = store.list("configmaps:ns/cm");
    assert_eq!(list.len(), MAX_SNAPSHOTS_PER_RESOURCE);
    // Oldest (0..4) should have been evicted.
    assert_eq!(list[0].resource_version, "5");
    assert_eq!(list[19].resource_version, "24");
}

#[test]
fn get_by_resource_version() {
    let mut store = SnapshotStore::new();
    store.record("secrets:ns/s".into(), make_snapshot("10"));
    store.record("secrets:ns/s".into(), make_snapshot("20"));
    let snap = store.get("secrets:ns/s", "10");
    assert!(snap.is_some());
    assert_eq!(snap.unwrap().resource_version, "10");
    assert!(store.get("secrets:ns/s", "99").is_none());
}

#[test]
fn separate_keys_are_independent() {
    let mut store = SnapshotStore::new();
    store.record("configmaps:ns/a".into(), make_snapshot("1"));
    store.record("configmaps:ns/b".into(), make_snapshot("2"));
    assert_eq!(store.list("configmaps:ns/a").len(), 1);
    assert_eq!(store.list("configmaps:ns/b").len(), 1);
    assert_eq!(store.resource_count(), 2);
}

#[test]
fn clear_removes_key() {
    let mut store = SnapshotStore::new();
    store.record("configmaps:ns/cm".into(), make_snapshot("1"));
    store.clear("configmaps:ns/cm");
    assert!(store.list("configmaps:ns/cm").is_empty());
}

#[test]
fn snapshots_are_kept_by_kind_and_name() {
    let mut store = SnapshotStore::new();
    assert_eq!(configmap_key("ns", "x"), "configmaps:ns/x");
    assert_eq!(secret_key("ns", "x"), "secrets:ns/x");
    let made = k7s_kube::config_snapshots::make_snapshot(
        &None,
        vec!["b".into(), "a".into()],
        "now".into(),
        "yaml".into(),
    );
    assert_eq!(made.resource_version, "");
    assert_eq!(made.data_keys, vec!["a", "b"]);
    assert_eq!(snapshot_configmap(&mut store, "ns", "x", made).len(), 1);
    assert_eq!(snapshot_configmap(&mut store, "ns", "x", make_snapshot("7")).len(), 2);
    assert_eq!(snapshot_secret(&mut store, "ns", "x", make_snapshot("7")).len(), 1);
    assert_eq!(store.resource_count(), 2);
}

// ---- drain ----

fn pod(name: &str, namespace: &str, phase: &str) -> DrainPod {
    DrainPod {
        name: name.into(),
        namespace: Some(namespace.into()),
        owner_kinds: vec![],
        annotations: vec![],
        phase: Some(phase.into()),
        deleting: false,
    }
}

/// A plain Deployment-owned pod is what a drain is for.
#[test]
fn ordinary_pod_is_evictable() {
    let mut p = pod("api", "prod", "Running");
    p.owner_kinds.push("ReplicaSet".into());
    assert!(is_evictable(&p));
}

/// DaemonSet pods are skipped: the controller would recreate them on the same
/// cordoned node, so evicting them is pure churn.
#[test]
fn daemonset_pods_are_skipped() {
    let mut p = pod("node-exporter", "monitoring", "Running");
    p.owner_kinds.push("DaemonSet".into());
    assert!(!is_evictable(&p));
}

/// Mirror pods are the kubelet's; the API server can't evict them.
#[test]
fn mirror_pods_are_skipped() {
    let mut p = pod("kube-apiserver-node1", "kube-system", "Running");
    p.annotations.push("kubernetes.io/config.mirror".into());
    assert!(!is_evictable(&p));
}

/// Completed pods have nothing to disrupt.
#[test]
fn finished_pods_are_skipped() {
    for phase in ["Succeeded", "Failed"] {
        let p = pod("job-1", "prod", phase);
        assert!(!is_evictable(&p), "{phase} pods should be skipped");
    }
}

/// A pod already being deleted is left alone: the disruption has happened,
/// and re-evicting it would fail and be reported as a drain failure.
#[test]
fn terminating_pods_are_skipped() {
    let mut p = pod("api", "prod", "Running");
    p.deleting = true;
    assert!(!is_evictable(&p));
}

/// A pod with no owner (created by hand) still drains: leaving it would silently fail
/// to empty the node.
#[test]
fn standalone_pod_is_evictable() {
    let p = pod("debug", "default", "Running");
    assert!(is_evictable(&p));
}

/// 429 means a disruption budget held the eviction back; anything else is a real error.
#[test]
fn pdb_block_is_detected_by_status_code() {
    assert!(is_pdb_block(Some(429)));
    assert!(!is_pdb_block(Some(404)));
    assert!(!is_pdb_block(None));
}

#[test]
fn a_drain_counts_what_it_evicts_and_keeps_what_failed() {
    assert_eq!(CORDON_PATCH, r#"{"spec":{"unschedulable":true}}"#);
    assert_eq!(pods_on_node("n1"), "spec.nodeName=n1");
    let mut daemon = pod("ds", "kube-system", "Running");
    daemon.owner_kinds.push("DaemonSet".into());
    let pods = vec![pod("a", "x", "Running"), daemon, pod("b", "x", "Pending"), pod("c", "x", "Failed")];
    let (mut p, targets) = start_drain("n1", pods);
    assert_eq!(p.node, "n1");
    assert_eq!((p.evicted, p.total, p.done), (0, 2, false));
    assert_eq!(targets.len(), 2);
    assert_eq!(targets[0].name, "a");
    assert_eq!(targets[1].name, "b");
    record_eviction(&mut p, &targets[0], Eviction::Done);
    record_eviction(&mut p, &targets[1], Eviction::Refused(Some(429), "budget".into()));
    finish_drain(&mut p);
    assert_eq!((p.evicted, p.total, p.done), (1, 2, true));
    assert_eq!(p.failures.len(), 1);
    assert_eq!(p.failures[0].pod, "x/b");
    assert_eq!(p.failures[0].message, "blocked by a PodDisruptionBudget: budget");
    assert!(p.failures[0].blocked_by_pdb);
}

#[test]
fn a_drain_that_cannot_list_is_over() {
    let p = could_not_list("n1", "forbidden");
    assert!(p.done);
    assert_eq!(p.total, 0);
    assert_eq!(p.failures.len(), 1);
    assert!(p.failures[0].message.contains("forbidden"));
}

// ---- shells into containers ----

/// No override → the bash-or-sh probe, unchanged.
#[test]
fn empty_override_uses_the_default_probe() {
    let probe = vec!["/bin/sh".to_string(), "-c".to_string(), SHELL_PROBE.to_string()];
    assert_eq!(shell_cmd(""), probe);
    assert_eq!(shell_cmd("   "), probe);
}

/// An override runs through `sh -c`, not as a bare argv: people type command
/// lines ("env TERM=xterm bash -l"), and exec'ing that directly would look for
/// a binary whose name contains spaces.
#[test]
fn override_runs_through_a_shell() {
    assert_eq!(shell_cmd("/bin/zsh"), vec!["/bin/sh", "-c", "exec /bin/zsh"]);
    assert_eq!(
        shell_cmd("env TERM=xterm bash -l"),
        vec!["/bin/sh", "-c", "exec env TERM=xterm bash -l"]
    );
}

/// `exec` replaces the shell, so the session ends when the command does:
/// without it, an extra /bin/sh would linger between the user and their shell.
#[test]
fn override_is_exec_ed() {
    let cmd = shell_cmd("bash");
    assert!(cmd[2].starts_with("exec "), "override must replace the wrapping shell");
}

/// Surrounding whitespace from the settings field doesn't reach the container.
#[test]
fn override_is_trimmed() {
    assert_eq!(shell_cmd("  bash  "), vec!["/bin/sh", "-c", "exec bash"]);
}

#[test]
fn a_session_ends_once_a_side_closes() {
    assert_eq!(out_event("7"), "shell-out:7");
    assert_eq!(closed_event("7"), "shell-closed:7");
    assert!(shell_step(ShellEvent::Read(3)).is_none());
    assert!(shell_step(ShellEvent::Input).is_none());
    assert!(shell_step(ShellEvent::Resized).is_none());
    assert!(matches!(shell_step(ShellEvent::Read(0)), Some(Ok(m)) if m == "session ended"));
    assert!(matches!(shell_step(ShellEvent::InputFailed), Some(Ok(m)) if m == "stdin closed"));
    assert!(matches!(shell_step(ShellEvent::InputClosed), Some(Ok(m)) if m == "input closed"));
    assert!(
        matches!(shell_step(ShellEvent::ReadFailed("reset".into())), Some(Err(AppError::Other(m))) if m == "reset")
    );
}

// ---- shells into nodes ----

#[test]
fn pod_name_is_a_legal_dns_label() {
    let n = pod_name("murphy-yi", 7);
    assert_eq!(n, "k7s-debug-murphy-yi-7");
    assert!(n.len() <= 63);
}

/// Nodes are routinely named as FQDNs, and a dot is illegal in a pod name.
#[test]
fn pod_name_replaces_illegal_characters() {
    let n = pod_name("host.dc1.example.com", 1);
    assert!(!n.contains('.'), "dots must not survive into a pod name: {n}");
    assert_eq!(n, "k7s-debug-host-dc1-example-com-1");
}

/// A 253-char node name must not produce a pod the API server rejects.
#[test]
fn pod_name_stays_within_the_limit() {
    let n = pod_name(&"a".repeat(253), 999);
    assert!(n.len() <= 63, "got {} chars: {n}", n.len());
    assert!(n.ends_with("-999"));
}

/// Truncation must not leave a trailing dash, which is also not a legal name.
#[test]
fn pod_name_never_ends_with_a_dash_before_the_sequence() {
    let n = pod_name("node--------------", 3);
    assert!(!n.contains("--3"), "trailing dash survived: {n}");
}

#[test]
fn uppercase_node_names_are_lowercased() {
    assert_eq!(pod_name("MURPHY-YI", 1), "k7s-debug-murphy-yi-1");
}

/// The privileges below are the entire security surface of this feature. If one
/// of them changes, it should be a deliberate edit to this test too.
#[test]
fn spec_requests_exactly_the_privileges_the_shell_needs() {
    let pod = debug_pod_spec("murphy-yi", DEFAULT_IMAGE, "k7s-debug-murphy-yi-1");
    assert_eq!(pod.node_name, "murphy-yi");
    assert!(pod.host_pid, "nsenter --target 1 needs the host PID namespace");
    assert!(pod.host_network);
    assert!(pod.host_ipc);
    assert_eq!(pod.restart_policy, "Never");
    assert!(pod.containers[0].privileged);
}

/// The one guarantee that survives the app being killed.
#[test]
fn spec_always_carries_a_server_side_deadline() {
    let pod = debug_pod_spec("n", DEFAULT_IMAGE, "p");
    assert_eq!(pod.active_deadline_seconds, MAX_LIFETIME_SECS);
    assert_eq!(pod.termination_grace_period_seconds, 0);
}

/// Debugging a cordoned or NoExecute-tainted node is the common case, not the
/// exotic one: a spec that can't land there is much less useful.
#[test]
fn spec_tolerates_every_taint() {
    let pod = debug_pod_spec("n", DEFAULT_IMAGE, "p");
    let tol = &pod.tolerations[0];
    assert_eq!(tol.operator.as_deref(), Some("Exists"));
    assert!(tol.key.is_none(), "a keyed toleration would only match some taints");
    assert!(tol.effect.is_none(), "no effect means all effects");
}

/// The pod is labelled so orphans are findable, by the sweep and by a human.
#[test]
fn spec_is_labelled_for_cleanup() {
    let pod = debug_pod_spec("murphy-yi", DEFAULT_IMAGE, "p");
    let label = |key: &str| pod.labels.iter().find(|l| l.0 == key).map(|l| l.1.as_str());
    assert_eq!(label(LABEL_MANAGED), Some(LABEL_MANAGED_VALUE));
    assert_eq!(label(LABEL_NODE), Some("murphy-yi"));
    assert!(node_selector("murphy-yi").contains("k7s.dev/debug-node=murphy-yi"));
}

/// The container must outlive its own entrypoint, or exec has nothing to attach
/// to, but not outlive the deadline, which would be a confusing double timeout.
#[test]
fn container_sleeps_for_exactly_the_pod_lifetime() {
    let pod = debug_pod_spec("n", DEFAULT_IMAGE, "p");
    assert_eq!(
        pod.containers[0].command,
        vec!["sleep".to_string(), MAX_LIFETIME_SECS.to_string()]
    );
}

#[test]
fn nsenter_enters_every_host_namespace() {
    let cmd = nsenter_cmd().join(" ");
    for flag in ["--target 1", "--mount", "--uts", "--ipc", "--net", "--pid"] {
        assert!(cmd.contains(flag), "missing {flag} in: {cmd}");
    }
}

/// Same reasoning as the pod shell: only exec a binary we've confirmed exists.
#[test]
fn nsenter_probes_before_exec_ing_bash() {
    let cmd = nsenter_cmd().join(" ");
    assert!(cmd.contains("command -v bash"));
    assert!(cmd.contains("exec sh"));
}

/// A NotReady node is the single most likely reason this hangs, so it must not
/// be reported as a generic timeout.
#[test]
fn pending_reason_calls_out_a_dead_kubelet() {
    let msg = pending_reason("Pending", None);
    assert!(msg.contains("NotReady"), "got: {msg}");
}

/// A single-arch image on a mixed-arch cluster surfaces here.
#[test]
fn pending_reason_prefers_the_container_waiting_reason() {
    let msg = pending_reason("Pending", Some(("ImagePullBackOff", "no match for platform")));
    assert!(msg.contains("ImagePullBackOff"));
    assert!(msg.contains("no match for platform"));
}

#[test]
fn pending_reason_handles_an_empty_waiting_message() {
    let msg = pending_reason("Pending", Some(("CreateContainerError", "")));
    assert!(msg.contains("CreateContainerError"));
    assert!(!msg.contains(" — "), "no dangling separator: {msg}");
}

#[test]
fn a_blank_image_setting_means_the_default() {
    assert_eq!(shell_image(None), DEFAULT_IMAGE);
    assert_eq!(shell_image(Some("  ")), DEFAULT_IMAGE);
    assert_eq!(shell_image(Some("busybox")), "busybox");
}

#[test]
fn waiting_for_the_debug_pod_ends_when_it_runs_or_cannot() {
    assert!(matches!(
        after_look("p", PodLook::Seen(Some("Running".into()), None)),
        PodWait::Ready
    ));
    assert!(matches!(
        after_look("p", PodLook::Seen(Some("Pending".into()), None)),
        PodWait::Wait(m) if m == pending_reason("Pending", None)
    ));
    assert!(matches!(
        after_look("p", PodLook::Failed("pods \"p\" not found".into())),
        PodWait::Wait(m) if m == "pod p not yet visible (API cache lag)"
    ));
    assert!(matches!(
        after_look("p", PodLook::Failed("forbidden".into())),
        PodWait::Fail(AppError::Kube(m)) if m == "forbidden"
    ));
    assert!(timed_out("still pulling").message().contains("still pulling"));
}
