//! Rows of nodes, events and pods; lines of logs; usage.
use k7s_kube::dto::{Row, Tone, DASH};
use k7s_kube::lists::TextMap;
use k7s_kube::logs::{
    close_reason, closed_event, contains_word, detect_level, export_containers, export_params,
    failed_line, fetch_export_logs, line_event, log_params, nothing_to_stream, parse_log_line,
    stream_step, tagged_line, LogStreamOptions, StreamEvent,
};
use k7s_kube::error::AppError;
use k7s_kube::mappers::cluster::{
    map_event, map_namespace, map_node, namespace_phase, sort_events, Condition, Event,
    InvolvedObject, Moment, Namespace, Node, EPOCH,
};
use k7s_kube::mappers::pod::{map_pod, Container, ContainerStatus, Pod, PodSpec, PodStatus};
use k7s_kube::mappers::ObjectMeta;
use k7s_kube::observability::metrics::{
    cluster_use, count_ready_nodes, counted, next_misses, parse_cpu_millis, parse_mem_bytes,
    pod_usage, should_probe, total, NodeCapacity, NodeReading, PodReading, PollIntervals,
};

fn meta(name: &str, namespace: Option<&str>, uid: &str, created: Option<&str>) -> ObjectMeta {
    ObjectMeta {
        uid: Some(uid.into()),
        name: name.into(),
        namespace: namespace.map(String::from),
        created: created.map(String::from),
    }
}

// ---- nodes ----

fn node(labels: &[&str], conditions: &[(&str, &str)]) -> Node {
    Node {
        meta: meta("n1", None, "nn1", None),
        label_keys: labels.iter().map(|l| l.to_string()).collect(),
        conditions: conditions
            .iter()
            .map(|c| Condition { type_: c.0.into(), status: c.1.into() })
            .collect(),
        kubelet_version: Some("v1.31.2".into()),
    }
}

/// A Ready node shows a green status cell with a dot.
#[test]
fn ready_node() {
    let row = map_node(&node(&["node-role.kubernetes.io/worker"], &[("Ready", "True")]));
    // Columns: NAME,STATUS,ROLES,CPU,MEMORY,VERSION (no namespace)
    assert_eq!(row.namespace, None);
    assert_eq!(row.cells[1].text, "Ready");
    assert_eq!(row.cells[1].tone, Tone::Good);
    assert!(row.cells[1].dot);
    assert_eq!(row.cells[2].text, "worker");
    assert_eq!(row.cells[5].text, "v1.31.2");
}

/// A node with MemoryPressure=True shows a warning status.
#[test]
fn node_memory_pressure_warns() {
    let row = map_node(&node(&[], &[("Ready", "True"), ("MemoryPressure", "True")]));
    assert_eq!(row.cells[1].text, "Ready \u{26a0}");
    assert_eq!(row.cells[1].tone, Tone::Warn);
}

/// A node with no pressures and Ready=True shows green status.
#[test]
fn node_healthy_shows_ready() {
    let row = map_node(&node(
        &[],
        &[
            ("Ready", "True"),
            ("MemoryPressure", "False"),
            ("DiskPressure", "False"),
            ("PIDPressure", "False"),
        ],
    ));
    assert_eq!(row.cells[1].text, "Ready");
    assert_eq!(row.cells[1].tone, Tone::Good);
}

/// A node that is NotReady shows red regardless of pressure conditions.
#[test]
fn node_notready_overrides_pressure() {
    let row = map_node(&node(&[], &[("Ready", "False"), ("MemoryPressure", "True")]));
    assert_eq!(row.cells[1].text, "NotReady");
    assert_eq!(row.cells[1].tone, Tone::Bad);
}

#[test]
fn nodes_that_are_ready_are_counted() {
    let up = node(&[], &[("Ready", "True")]).conditions;
    let down = node(&[], &[("Ready", "Unknown")]).conditions;
    assert_eq!(count_ready_nodes(&vec![up.clone(), down, up, vec![]]), (2, 4));
}

// ---- namespaces ----

#[test]
fn a_namespace_shows_its_phase() {
    let ns = Namespace {
        meta: meta("prod", None, "u", Some("2026-07-01T00:00:00Z")),
        phase: Some("Active".into()),
    };
    assert_eq!(namespace_phase(&ns), "Active");
    let row = map_namespace(&ns, Tone::Good);
    assert_eq!(row.name, "prod");
    assert!(row.cells.iter().any(|c| c.text == "Active" && c.tone == Tone::Good && c.dot));
}

// ---- events ----

fn moment(text: &str) -> Moment {
    let at = chrono::DateTime::parse_from_rfc3339(text).unwrap();
    Moment { text: text.into(), millis: at.timestamp_millis() }
}

/// An event with a given type/reason and last-seen time.
fn event(type_: &str, reason: &str, last: &str) -> Event {
    Event {
        meta: meta(&format!("obj.{reason}"), Some("prod"), reason, None),
        type_: Some(type_.into()),
        reason: Some(reason.into()),
        message: Some("something happened".into()),
        count: Some(3),
        last_timestamp: Some(moment(last)),
        event_time: None,
        creation_time: None,
        involved_object: InvolvedObject {
            kind: Some("Pod".into()),
            name: Some("my-pod".into()),
            namespace: Some("prod".into()),
            api_version: None,
        },
    }
}

/// Columns TYPE, REASON, OBJECT, NAMESPACE, AGE, COUNT, MESSAGE; Warning tones red.
#[test]
fn warning_event_columns() {
    let row = map_event(&event("Warning", "FailedMount", "2026-07-16T09:00:00Z"));
    assert_eq!(row.cells[0].text, "Warning");
    assert_eq!(row.cells[0].tone, Tone::Bad);
    assert_eq!(row.cells[1].text, "FailedMount");
    assert_eq!(row.cells[2].text, "Pod/my-pod", "OBJECT is kind/name");
    assert_eq!(row.cells[3].text, "prod");
    assert_eq!(row.cells[4].format, Some("age"), "AGE is formatted by the frontend");
    assert!(row.cells[4].sort.is_some(), "AGE carries the last-seen sort key");
    assert_eq!(row.cells[5].text, "×3");
}

/// The involved object is threaded onto the row for click-through: the
/// object's own kind/name/namespace, not the event's display-string cell.
#[test]
fn event_carries_involved_object() {
    let inv = map_event(&event("Warning", "FailedMount", "2026-07-16T09:00:00Z"))
        .involved
        .expect("involved present");
    assert_eq!(inv.kind, "Pod");
    assert_eq!(inv.name, "my-pod");
    assert_eq!(inv.namespace.as_deref(), Some("prod"));
}

/// Normal events read green.
#[test]
fn normal_event_tone() {
    let row = map_event(&event("Normal", "Pulled", "2026-07-16T09:00:00Z"));
    assert_eq!(row.cells[0].tone, Tone::Good);
}

/// The feed puts every Warning above every Normal, and newest first within each.
#[test]
fn feed_orders_warnings_then_newest() {
    let rows = vec![
        map_event(&event("Normal", "NewNormal", "2026-07-16T09:00:00Z")),
        map_event(&event("Warning", "OldWarn", "2026-07-16T08:00:00Z")),
        map_event(&event("Normal", "OldNormal", "2026-07-16T07:00:00Z")),
        map_event(&event("Warning", "NewWarn", "2026-07-16T08:30:00Z")),
    ];
    let sorted = sort_events(rows, 500);
    let reasons: Vec<&str> = sorted.iter().map(|r| r.cells[1].text.as_str()).collect();
    assert_eq!(reasons, ["NewWarn", "OldWarn", "NewNormal", "OldNormal"]);
}

/// The cap bounds the payload, keeping the highest-priority rows.
#[test]
fn feed_truncates_to_cap() {
    let rows = vec![
        map_event(&event("Warning", "Keep", "2026-07-16T09:00:00Z")),
        map_event(&event("Normal", "Drop", "2026-07-16T08:00:00Z")),
    ];
    let sorted = sort_events(rows, 1);
    assert_eq!(sorted.len(), 1);
    assert_eq!(sorted[0].cells[1].text, "Keep");
}

/// lastTimestamp is preferred, but events that only carry eventTime still sort.
#[test]
fn event_time_fallback() {
    let e = Event {
        meta: meta("e", Some("prod"), "u", None),
        type_: Some("Normal".into()),
        reason: Some("Started".into()),
        message: None,
        count: None,
        last_timestamp: None,
        event_time: Some(moment("2026-07-16T09:00:00.000000Z")),
        creation_time: None,
        involved_object: InvolvedObject {
            kind: Some("Pod".into()),
            name: Some("p".into()),
            namespace: None,
            api_version: None,
        },
    };
    let row = map_event(&e);
    assert!(row.cells[4].sort.is_some());
    assert_eq!(row.cells[5].text, "×1", "missing count defaults to 1");
}

#[test]
fn an_event_without_any_time_dates_from_the_start() {
    let mut e = event("Normal", "Old", "2026-07-16T09:00:00Z");
    e.last_timestamp = None;
    let row = map_event(&e);
    assert_eq!(row.cells[4].text, EPOCH);
    assert_eq!(row.cells[4].sort, Some(0));
}

// ---- pods ----

fn container(name: &str) -> Container {
    Container {
        name: name.into(),
        cpu_request_millis: None,
        cpu_limit_millis: None,
        mem_request_bytes: None,
        mem_limit_bytes: None,
    }
}

fn running(ready: bool, restart_count: i32) -> ContainerStatus {
    ContainerStatus { ready, restart_count, waiting_reason: None, terminated_reason: None }
}

/// A healthy Running pod: status Good with a dot, ready/restarts Secondary.
#[test]
fn healthy_running_pod() {
    let pod = Pod {
        meta: meta("ok-pod", Some("prod"), "u1", Some("2026-07-01T00:00:00Z")),
        labels: None,
        spec: Some(PodSpec {
            node_name: Some("n1".into()),
            containers: vec![container("app"), container("side")],
        }),
        status: Some(PodStatus {
            phase: Some("Running".into()),
            reason: None,
            container_statuses: vec![running(true, 0), running(true, 0)],
        }),
    };
    let row = map_pod(pod, Tone::Good);
    // Columns: NAME,NAMESPACE,READY,RESTARTS,CPU,MEM,AGE,STATUS
    assert_eq!(row.cells[2].tone, Tone::Secondary, "2/2 ready is not degraded");
    assert_eq!(row.cells[3].tone, Tone::Secondary, "0 restarts");
    assert_eq!(row.cells[7].tone, Tone::Good);
    assert!(row.cells[7].dot, "status cell has a leading dot");
    assert_eq!(row.pod.as_ref().unwrap().status, "Running");
}

/// CrashLoopBackOff: status Bad, degraded ready Warn, high restarts Bad.
#[test]
fn crashloop_pod() {
    let mut auth = running(false, 14);
    auth.waiting_reason = Some("CrashLoopBackOff".into());
    let pod = Pod {
        meta: meta("crash", Some("prod"), "u2", Some("2026-07-15T09:00:00Z")),
        labels: None,
        spec: Some(PodSpec {
            node_name: Some("n2".into()),
            containers: vec![container("auth"), container("side")],
        }),
        status: Some(PodStatus {
            phase: Some("Running".into()),
            reason: None,
            container_statuses: vec![auth, running(true, 0)],
        }),
    };
    let row = map_pod(pod, Tone::Bad);
    assert_eq!(row.cells[2].text, "1/2");
    assert_eq!(row.cells[2].tone, Tone::Warn, "1/2 ready is degraded");
    assert_eq!(row.cells[3].text, "14");
    assert_eq!(row.cells[3].tone, Tone::Bad, "restarts > 5");
    assert_eq!(row.cells[7].text, "CrashLoopBackOff");
    assert_eq!(row.cells[7].tone, Tone::Bad);
}

/// Pending pod: status Warn, CPU/MEM em-dash placeholders.
#[test]
fn pending_pod() {
    let pod = Pod {
        meta: meta("canary", Some("staging"), "u3", Some("2026-07-15T11:59:00Z")),
        labels: None,
        spec: Some(PodSpec {
            node_name: None,
            containers: vec![container("a"), container("b"), container("c")],
        }),
        status: Some(PodStatus {
            phase: Some("Pending".into()),
            reason: None,
            container_statuses: vec![],
        }),
    };
    let row = map_pod(pod, Tone::Warn);
    assert_eq!(row.cells[2].text, "0/3");
    assert_eq!(row.cells[2].tone, Tone::Warn);
    assert_eq!(row.cells[4].text, "—", "CPU is a placeholder");
    assert_eq!(row.cells[5].text, "—", "MEM is a placeholder");
    assert_eq!(row.cells[7].tone, Tone::Warn);
    assert_eq!(DASH, "—");
}

/// What is reserved and what is the most, as quantities.
fn sized(name: &str, requests: [Option<&str>; 2], limits: [Option<&str>; 2]) -> Container {
    let cpu = |q: Option<&str>| q.map(|q| parse_cpu_millis(q).unwrap());
    let memory = |q: Option<&str>| q.map(|q| parse_mem_bytes(q).unwrap());
    Container {
        name: name.into(),
        cpu_request_millis: cpu(requests[0]),
        cpu_limit_millis: cpu(limits[0]),
        mem_request_bytes: memory(requests[1]),
        mem_limit_bytes: memory(limits[1]),
    }
}

fn pod_of(name: &str, uid: &str, containers: Vec<Container>) -> Pod {
    Pod {
        meta: meta(name, Some("prod"), uid, None),
        labels: None,
        spec: Some(PodSpec { node_name: None, containers }),
        status: None,
    }
}

/// Pod resources sum across the regular containers, so the Metrics overlay
/// lines up with the (likewise summed) usage feed.
#[test]
fn pod_resources_sum_across_containers() {
    let pod = pod_of(
        "two",
        "r1",
        vec![
            sized("app", [Some("250m"), Some("256Mi")], [Some("500m"), Some("512Mi")]),
            sized("side", [Some("100m"), Some("64Mi")], [Some("200m"), Some("128Mi")]),
        ],
    );
    let r = map_pod(pod, Tone::Muted).pod.unwrap().resources;
    assert_eq!(r.cpu_request_millis, Some(350));
    assert_eq!(r.cpu_limit_millis, Some(700));
    assert_eq!(r.mem_request_bytes, Some((256 + 64) * 1024 * 1024));
    assert_eq!(r.mem_limit_bytes, Some((512 + 128) * 1024 * 1024));
}

/// One uncapped container makes the pod uncapped: the limit total drops to
/// None (no ceiling line), while the request total still sums what's set.
#[test]
fn pod_resources_uncapped_container_has_no_limit() {
    let pod = pod_of(
        "mixed",
        "r2",
        vec![
            sized("app", [Some("250m"), None], [Some("500m"), None]),
            sized("side", [Some("100m"), None], [None, None]),
        ],
    );
    let r = map_pod(pod, Tone::Muted).pod.unwrap().resources;
    assert_eq!(r.cpu_request_millis, Some(350), "requests still sum");
    assert_eq!(r.cpu_limit_millis, None, "an uncapped container means no ceiling");
    assert_eq!(r.mem_request_bytes, None, "no memory requests set");
    assert_eq!(r.mem_limit_bytes, None);
}

/// A pod with no resources at all reports all-None rather than zeros, so the
/// overlay draws nothing instead of a misleading line at zero.
#[test]
fn pod_resources_absent_are_none() {
    let r = map_pod(pod_of("bare", "r3", vec![container("app")]), Tone::Muted).pod.unwrap().resources;
    assert_eq!(r.cpu_request_millis, None);
    assert_eq!(r.cpu_limit_millis, None);
    assert_eq!(r.mem_request_bytes, None);
    assert_eq!(r.mem_limit_bytes, None);
}

/// A pod carries its labels so the selector filter can match it.
#[test]
fn pod_carries_labels() {
    let mut labels = TextMap::new();
    labels.insert("app", "wiki");
    let pod = Pod {
        meta: meta("wiki-x", Some("wiki"), "p2", None),
        labels: Some(labels),
        spec: Some(PodSpec { node_name: None, containers: vec![container("app")] }),
        status: Some(PodStatus {
            phase: Some("Running".into()),
            reason: None,
            container_statuses: vec![],
        }),
    };
    let labels = map_pod(pod, Tone::Good).labels.expect("labels present");
    assert_eq!(labels.get("app").as_deref(), Some("wiki"));
}

fn check_pod_row(row: &Row, restarts: i32) {
    assert!(!row.uid.is_empty());
    assert!(!row.name.is_empty());
    assert!(row.namespace.is_some());
    assert_eq!(row.cells.len(), 8);
    for cell in &row.cells {
        assert!(!cell.text.is_empty(), "empty cell text in pod row");
    }
    assert_eq!(row.cells[0].tone, Tone::Primary);
    let meta = row.pod.as_ref().unwrap();
    assert_eq!(meta.status, row.cells[7].text);
    assert_eq!(meta.restarts, restarts);
}

/// Whatever the phase and the number of restarts, a pod has its eight cells.
#[test]
fn every_pod_has_eight_cells() {
    for phase in ["Running", "Pending", "Failed", "Succeeded", "Unknown"] {
        for restarts in [0, 1, 5, 6, 999] {
            let mut status = running(phase == "Running", restarts);
            if phase == "Pending" {
                status.waiting_reason = Some("ContainerCreating".into());
            } else if phase != "Running" {
                status.terminated_reason = Some("Error".into());
            }
            let pod = Pod {
                meta: meta("p", Some("ns"), "test-uid", Some("2025-01-15T10:30:00Z")),
                labels: None,
                spec: Some(PodSpec { node_name: Some("node1".into()), containers: vec![] }),
                status: Some(PodStatus {
                    phase: Some(phase.into()),
                    reason: None,
                    container_statuses: vec![status],
                }),
            };
            check_pod_row(&map_pod(pod, Tone::Muted), restarts);
        }
    }
}

// ---- logs ----

#[test]
fn parses_rfc3339_prefix_into_hms_millis() {
    let line = parse_log_line("2026-07-15T13:04:05.678901234Z hello world");
    assert_eq!(line.ts, "13:04:05.678");
    assert_eq!(line.msg, "hello world");
}

#[test]
fn line_without_timestamp_keeps_full_message() {
    let line = parse_log_line("no timestamp here");
    assert_eq!(line.ts, "");
    assert_eq!(line.msg, "no timestamp here");
    assert_eq!(line.level, "");
}

#[test]
fn detects_klog_style_levels() {
    assert_eq!(parse_log_line("2026-07-15T13:04:05Z INFO started ok").level, "INFO");
    assert_eq!(parse_log_line("2026-07-15T13:04:05Z ERROR boom").level, "ERROR");
    assert_eq!(parse_log_line("2026-07-15T13:04:05Z WARN careful").level, "WARN");
    assert_eq!(parse_log_line("2026-07-15T13:04:05Z DEBUG noisy").level, "DEBUG");
}

#[test]
fn detects_json_level_field() {
    let l = parse_log_line(r#"2026-07-15T13:04:05Z {"level":"error","msg":"nope"}"#);
    assert_eq!(l.level, "ERROR");
    let w = parse_log_line(r#"2026-07-15T13:04:05Z {"ts":1,"level": "warning"}"#);
    assert_eq!(w.level, "WARN");
}

#[test]
fn word_boundary_avoids_false_positives() {
    // "TERROR" should not be read as ERROR; "information" not as INFO-token
    // via boundaries (it still normalizes via json only). Here plain text:
    assert_eq!(detect_level("the TERROR of substrings"), "");
    assert_eq!(detect_level("reticulating splines"), "");
}

#[test]
fn fatal_and_panic_map_to_error() {
    assert_eq!(detect_level("FATAL could not bind"), "ERROR");
    assert_eq!(detect_level("PANIC nil deref"), "ERROR");
    assert_eq!(detect_level("TRACE entering fn"), "DEBUG");
}

/// The default read follows the running container, seeded by tail.
#[test]
fn default_params_follow_the_current_container() {
    let lp = log_params("app", &LogStreamOptions { tail: Some(200), ..Default::default() });
    assert!(lp.follow);
    assert!(!lp.previous);
    assert_eq!(lp.tail_lines, Some(200));
    assert_eq!(lp.container.as_deref(), Some("app"));
    assert!(lp.timestamps, "the parser needs the RFC3339 prefix");
}

/// A previous read must not follow: that container is dead and will never emit
/// another line, so following it would hang the task instead of ending it.
#[test]
fn previous_never_follows() {
    let lp = log_params("app", &LogStreamOptions { previous: true, ..Default::default() });
    assert!(lp.previous);
    assert!(!lp.follow, "a terminated container is a snapshot, not a stream");
}

/// The API rejects since_time and since_seconds together, so only one is set.
#[test]
fn since_time_and_since_seconds_are_never_both_sent() {
    let lp = log_params(
        "app",
        &LogStreamOptions {
            since_time: Some("2026-07-17T12:00:00Z".into()),
            since_seconds: Some(300),
            ..Default::default()
        },
    );
    assert!(lp.since_time.is_some());
    assert_eq!(lp.since_seconds, None, "sending both is a 400");
}

/// The resume anchor wins, because it's more precise, and it's always inside
/// the window the user picked, so this can't show them older lines than asked.
#[test]
fn the_resume_anchor_wins_over_the_window() {
    let lp = log_params(
        "app",
        &LogStreamOptions {
            since_time: Some("2026-07-17T12:00:00Z".into()),
            ..Default::default()
        },
    );
    assert!(lp.since_time.is_some());
}

/// A window with no anchor is the plain "last 5 minutes" case.
#[test]
fn a_window_alone_sets_since_seconds() {
    let lp = log_params("app", &LogStreamOptions { since_seconds: Some(300), ..Default::default() });
    assert_eq!(lp.since_seconds, Some(300));
    assert!(lp.since_time.is_none());
}

/// A malformed resume anchor is ignored rather than failing the stream: the
/// worst case is re-showing a few lines, which beats no logs at all.
#[test]
fn a_malformed_anchor_is_ignored() {
    let lp = log_params(
        "app",
        &LogStreamOptions { since_time: Some("nonsense".into()), ..Default::default() },
    );
    assert!(lp.since_time.is_none());
    assert!(lp.follow);
}

#[test]
fn an_anchor_is_read_to_the_nanosecond() {
    let lp = log_params(
        "app",
        &LogStreamOptions {
            since_time: Some("2026-07-17T12:00:00.000000007Z".into()),
            ..Default::default()
        },
    );
    assert_eq!(lp.since_time, Some((1_784_289_600, 7)));
}

#[test]
fn an_export_neither_follows_nor_cuts() {
    let lp = export_params("app", Some(60), true);
    assert!(!lp.follow);
    assert!(lp.previous);
    assert_eq!(lp.tail_lines, None);
    assert_eq!(lp.since_seconds, Some(60));
    assert_eq!(export_containers(vec![], vec!["a".into(), "b".into()]), vec!["a", "b"]);
    assert_eq!(export_containers(vec!["b".into()], vec!["a".into(), "b".into()]), vec!["b"]);
    let logs = vec![("a".to_string(), "one\ntwo\n".to_string()), ("b".to_string(), "three".to_string())];
    let (text, lines) = fetch_export_logs(&logs);
    assert_eq!(text, "===== container: a =====\none\ntwo\n===== container: b =====\nthree\n");
    assert_eq!(lines, 5);
    let (text, lines) = fetch_export_logs(&vec![("a".to_string(), "one\ntwo\n".to_string())]);
    assert_eq!(text, "one\ntwo\n");
    assert_eq!(lines, 2);
}

#[test]
fn part_of_a_word_is_no_word() {
    assert!(contains_word("an ERROR.", "ERROR"));
    assert!(!contains_word("TERROR", "ERROR"));
    assert!(!contains_word("ERRORS", "ERROR"));
}

#[test]
fn lines_are_handed_on_in_batches_and_none_is_lost() {
    let mut batch = vec![];
    let step = stream_step(&mut batch, StreamEvent::Line(tagged_line("first", "app")));
    assert!(step.emit.is_none() && step.close.is_none());
    let step = stream_step(&mut batch, StreamEvent::Line(tagged_line("second", "app")));
    assert!(step.emit.is_none() && step.close.is_none());
    let step = stream_step(&mut batch, StreamEvent::Tick);
    let sent = step.emit.unwrap();
    assert_eq!(sent.len(), 2);
    assert_eq!(sent[0].msg, "first");
    assert_eq!(sent[1].msg, "second");
    assert_eq!(sent[1].container, "app");
    assert!(batch.is_empty());
    let step = stream_step(&mut batch, StreamEvent::Tick);
    assert!(step.emit.is_none());
    stream_step(&mut batch, StreamEvent::Line(tagged_line("last", "app")));
    let step = stream_step(&mut batch, StreamEvent::Ended);
    assert_eq!(step.emit.unwrap().len(), 1);
    assert!(matches!(step.close, Some(Ok(_))));
    stream_step(&mut batch, StreamEvent::Line(tagged_line("cut", "app")));
    let step = stream_step(&mut batch, StreamEvent::Failed("reset".into()));
    assert_eq!(step.emit.unwrap().len(), 1);
    assert!(matches!(step.close, Some(Err(_))));
}

#[test]
fn a_stream_says_why_it_closed() {
    assert_eq!(line_event("3"), "log-line:3");
    assert_eq!(closed_event("3"), "log-closed:3");
    assert_eq!(close_reason(&Ok("stream ended".into())), "stream ended");
    assert!(close_reason(&Err(AppError::Other("reset".into()))).contains("reset"));
    assert_eq!(nothing_to_stream(&vec![]).as_deref(), Some("no containers"));
    assert_eq!(nothing_to_stream(&vec!["app".into()]), None);
    let line = failed_line("app", "no access");
    assert_eq!(line.level, "ERROR");
    assert_eq!(line.container, "app");
    assert!(line.msg.contains("no access"));
}

// ---- usage ----

#[test]
fn cpu_quantity_parsing() {
    assert_eq!(parse_cpu_millis("212m"), Some(212));
    assert_eq!(parse_cpu_millis("2"), Some(2000));
    assert_eq!(parse_cpu_millis("1.5"), Some(1500));
    assert_eq!(parse_cpu_millis("500000000n"), Some(500)); // 0.5 cores
    assert_eq!(parse_cpu_millis("500000u"), Some(500));
    assert_eq!(parse_cpu_millis(""), Some(0));
}

#[test]
fn mem_quantity_parsing() {
    assert_eq!(parse_mem_bytes("486Mi"), Some(486 * 1024 * 1024));
    assert_eq!(parse_mem_bytes("2Gi"), Some(2 * 1024 * 1024 * 1024));
    assert_eq!(parse_mem_bytes("1000k"), Some(1_000_000));
    assert_eq!(parse_mem_bytes("1048576"), Some(1_048_576));
    assert_eq!(parse_mem_bytes(""), Some(0));
}

/// Where the exact reading answers, it is what binary fractions give too.
#[test]
fn exact_readings_agree_with_binary_fractions() {
    for text in ["0.1", "1.25", "3.999", "-2", "+7", "12345.678", ".5", "7."] {
        let expected = (text.parse::<f64>().unwrap() * 1000.0).round() as i64;
        assert_eq!(parse_cpu_millis(text), Some(expected), "{text}");
    }
    for (text, factor) in [("1.5Ki", 1024.0), ("0.3Gi", 1073741824.0), ("2.7M", 1e6)] {
        let number = text.trim_end_matches(|c: char| c.is_ascii_alphabetic());
        let expected = (number.parse::<f64>().unwrap() * factor).round() as i64;
        if let Some(n) = parse_mem_bytes(text) {
            assert_eq!(n, expected, "{text}");
        }
    }
    assert_eq!(parse_cpu_millis("1e3"), None);
    assert_eq!(parse_cpu_millis("none"), None);
    assert_eq!(parse_cpu_millis("0.5m"), None);
    assert_eq!(counted(None, 9), 9);
    assert_eq!(counted(Some(4), 9), 4);
}

#[test]
fn usage_is_summed_per_pod_and_per_cluster() {
    assert_eq!(total(&vec![1, 2, 3]), 6);
    let usage = pod_usage(
        &vec![PodReading {
            namespace: "prod".into(),
            name: "api".into(),
            cpu_millis: vec![100, 20],
            mem_bytes: vec![1000, 24],
        }],
        42,
    );
    assert_eq!(usage.len(), 1);
    assert_eq!(usage[0].key, "prod/api");
    assert_eq!((usage[0].cpu_millis, usage[0].mem_bytes, usage[0].ts), (120, 1024, 42));
    let used = cluster_use(
        &vec![NodeReading { name: "n1".into(), cpu_millis: 500, mem_bytes: 10 }],
        &vec![
            NodeCapacity { name: "n1".into(), cpu_millis: 2000, mem_bytes: 100 },
            NodeCapacity { name: "n2".into(), cpu_millis: 4000, mem_bytes: 100 },
        ],
    );
    assert_eq!((used.used_cpu, used.used_mem), (500, 10));
    assert_eq!((used.capacity_cpu, used.capacity_mem), (2000, 100), "only nodes that are used count");
}

#[test]
fn a_cluster_without_metrics_is_asked_less_often_but_again() {
    assert!(should_probe(0));
    let mut misses = 0;
    let mut asked = 0;
    for _ in 0..200 {
        if should_probe(misses) {
            asked += 1;
        }
        misses = next_misses(misses, false);
    }
    assert_eq!(asked, 50);
    assert_eq!(next_misses(misses, true), 0);
    let every = PollIntervals::default();
    assert_eq!((every.metrics, every.status), (15, 10));
}
