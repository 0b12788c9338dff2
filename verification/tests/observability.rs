//! Metrics of nodes and pods, queries, alerts, dashboards and audit logs.
use k7s_kube::error::AppError;
use k7s_kube::instances::Auth;
use k7s_kube::json::Json;
use k7s_kube::lists::TextMap;
use k7s_kube::observability::exporter::{
    filesystems, is_physical_iface, label, parse, Family, MountValue, Reading, Sampler,
};
use k7s_kube::observability::metrics_config::{translate, Samples, Series};
use k7s_kube::observability::nodestats::{
    after_turn, exporter_fields, find_exporter, forward_failed, metrics_url, scrape_status,
    AfterTurn, ExporterPod, Turn,
};
use k7s_kube::observability::promql::{
    assemble, assemble_pod, discover, history_start, node_queries, pod_queries, score, urlencode,
    virtual_ifaces_pattern, PromService, Service, ServicePort,
};
use k7s_kube::observability::saved_queries::{cache_key, QueryCache, SavedQuery, DEFAULT_TTL_SECS};
use k7s_kube::observability::{alerting, audit, grafana, metrics_config, saved_queries};
use std::collections::BTreeMap;

fn value(text: &str) -> serde_json::Value {
    serde_json::from_str(text).unwrap()
}

// ---------------------------------------------------------------------------
// The exporter of nodes
// ---------------------------------------------------------------------------

/// A cut-down scrape in the exact shape node-exporter emits, including the
/// scientific notation it uses for large values.
fn scrape(cpu_idle: f64, cpu_user: f64, rx: f64, tx: f64) -> String {
    format!(
        r#"# HELP node_cpu_seconds_total Seconds the CPUs spent in each mode.
# TYPE node_cpu_seconds_total counter
node_cpu_seconds_total{{cpu="0",mode="idle"}} {cpu_idle}
node_cpu_seconds_total{{cpu="0",mode="user"}} {cpu_user}
node_cpu_seconds_total{{cpu="1",mode="idle"}} {cpu_idle}
node_cpu_seconds_total{{cpu="1",mode="user"}} {cpu_user}
node_memory_MemTotal_bytes 6.6421248e+10
node_memory_MemAvailable_bytes 3.3210624e+10
node_network_receive_bytes_total{{device="eth0"}} {rx}
node_network_transmit_bytes_total{{device="eth0"}} {tx}
node_network_receive_bytes_total{{device="lo"}} 9.9e+11
node_network_receive_bytes_total{{device="veth1234"}} 8.8e+11
node_load1 1.5
node_load5 2
node_load15 0.25
node_filesystem_size_bytes{{device="/dev/nvme0n1",fstype="ext4",mountpoint="/"}} 1.0e+12
node_filesystem_avail_bytes{{device="/dev/nvme0n1",fstype="ext4",mountpoint="/"}} 4.0e+11
node_filesystem_size_bytes{{device="tmpfs",fstype="tmpfs",mountpoint="/dev/shm"}} 1.0e+10
node_filesystem_avail_bytes{{device="tmpfs",fstype="tmpfs",mountpoint="/dev/shm"}} 1.0e+10
"#
    )
}

/// The readings of a scrape as numbers, summed by the name of what they read. What
/// is no number, or no finite one, counts for nothing.
fn numbers(readings: &[Reading]) -> BTreeMap<String, f64> {
    let mut sums = BTreeMap::new();
    for r in readings {
        let name = match &r.family {
            Family::Cpu(mode) => format!("cpu {mode}"),
            Family::MemTotal => "mem total".to_string(),
            Family::MemAvailable => "mem available".to_string(),
            Family::NetRx => "rx".to_string(),
            Family::NetTx => "tx".to_string(),
            Family::Load1 => "load1".to_string(),
            Family::Load5 => "load5".to_string(),
            Family::Load15 => "load15".to_string(),
            Family::FsSize(m) => format!("size {m}"),
            Family::FsAvail(m) => format!("avail {m}"),
        };
        match r.value.parse::<f64>() {
            Ok(n) if n.is_finite() => *sums.entry(name).or_insert(0.0) += n,
            _ => {}
        }
    }
    sums
}

#[test]
fn parses_the_families_we_plot() {
    let s = numbers(&parse(&scrape(100.0, 50.0, 1000.0, 500.0)));
    // Summed across both cores.
    assert_eq!(s["cpu idle"], 200.0);
    assert_eq!(s["cpu user"], 100.0);
    assert_eq!(s["mem total"], 6.6421248e10, "scientific notation must parse");
    assert_eq!(s["mem available"], 3.3210624e10);
    assert_eq!(s["load1"], 1.5);
    assert_eq!(s["load5"], 2.0);
    assert_eq!(s["load15"], 0.25);
}

/// Virtual interfaces are excluded: a pod's traffic crosses both its veth and
/// the real NIC, so counting both would double it, and the total would lurch
/// whenever a pod came or went.
#[test]
fn counts_only_physical_interfaces() {
    let s = numbers(&parse(&scrape(100.0, 50.0, 1000.0, 500.0)));
    assert_eq!(s["rx"], 1000.0, "lo and veth must not be summed in");
    assert_eq!(s["tx"], 500.0);
}

#[test]
fn iface_classification() {
    for real in ["eth0", "enp5s0", "wlan0", "bond0", "eno1"] {
        assert!(is_physical_iface(real), "{real} is a real NIC");
    }
    for virt in ["lo", "veth9a8b", "docker0", "flannel.1", "cni0", "br-abc", "cali123"] {
        assert!(!is_physical_iface(virt), "{virt} is virtual");
    }
}

/// tmpfs is RAM; showing it as disk usage would be a lie.
#[test]
fn keeps_only_real_filesystems() {
    let s = numbers(&parse(&scrape(100.0, 50.0, 1000.0, 500.0)));
    assert!(s.contains_key("size /"));
    assert!(!s.contains_key("size /dev/shm"), "tmpfs is not storage");
    assert_eq!((s["size /"], s["avail /"]), (1.0e12, 4.0e11));
}

/// Kernel interfaces mounted with a real fstype still aren't storage: they'd
/// otherwise appear as empty bars.
#[test]
fn kernel_mounts_are_not_storage() {
    let m = [
        "node_filesystem_size_bytes{fstype=\"nfsd\",mountpoint=\"/proc/fs/nfsd\"} 0\n",
        "node_filesystem_avail_bytes{fstype=\"nfsd\",mountpoint=\"/proc/fs/nfsd\"} 0\n",
        "node_filesystem_size_bytes{fstype=\"efivarfs\",mountpoint=\"/sys/firmware/efi/efivars\"} 262144\n",
        "node_filesystem_avail_bytes{fstype=\"efivarfs\",mountpoint=\"/sys/firmware/efi/efivars\"} 131072\n",
        "node_filesystem_size_bytes{fstype=\"ext4\",mountpoint=\"/\"} 1000\n",
        "node_filesystem_avail_bytes{fstype=\"ext4\",mountpoint=\"/\"} 400\n",
    ]
    .join("");
    let s = numbers(&parse(&m));
    assert_eq!(s.len(), 2, "only / is storage");
    assert!(s.contains_key("size /"));
}

/// Labels are read by key, not by position: the exporter is free to reorder
/// them, and values can contain commas.
#[test]
fn label_lookup_is_positional_agnostic() {
    assert_eq!(label(r#"cpu="3",mode="iowait""#, "mode"), Some("iowait".into()));
    assert_eq!(label(r#"mode="iowait",cpu="3""#, "mode"), Some("iowait".into()));
    assert_eq!(
        label(r#"device="/dev/x",mountpoint="/mnt/a,b",fstype="ext4""#, "mountpoint"),
        Some("/mnt/a,b".into()),
        "a comma inside a value must not split the label"
    );
    assert_eq!(label(r#"cpu="0""#, "mode"), None);
}

/// Junk lines are skipped rather than poisoning a sample.
#[test]
fn malformed_lines_are_ignored() {
    let s = numbers(&parse("node_load1 NaN\nnode_load5 +Inf\ngarbage\nnode_load15 0.5\n"));
    assert_eq!(s.get("load1"), None, "NaN must not land in the series");
    assert_eq!(s.get("load5"), None, "+Inf must not land in the series");
    assert_eq!(s["load15"], 0.5);
}

/// The first scrape of a session only establishes a baseline.
#[test]
fn first_scrape_only_establishes_a_baseline() {
    let mut s = Sampler::new();
    assert!(s.push(0, parse(&scrape(100.0, 50.0, 1000.0, 500.0))).is_none());
    let (before, passed) = s.push(2500, Vec::new()).unwrap();
    assert_eq!(numbers(&before)["rx"], 1000.0);
    assert_eq!(passed, 2500);
}

/// Two scrapes at the same instant, or a clock that went back, give no rate.
#[test]
fn zero_interval_is_dropped() {
    let mut s = Sampler::new();
    s.push(5000, parse(&scrape(100.0, 50.0, 0.0, 0.0)));
    assert!(s.push(5000, parse(&scrape(101.0, 51.0, 0.0, 0.0))).is_none());
    assert!(s.push(4000, Vec::new()).is_none());
    assert_eq!(s.push(i64::MAX, Vec::new()).unwrap().1, (i64::MAX - 4000) as u64);
}

#[test]
fn a_filesystem_needs_its_size_and_what_is_free() {
    let m = |mount: &str, value: u64| MountValue { mount: mount.into(), value };
    let fs = filesystems(
        vec![m("/var", 10), m("/", 20), m("/lost", 1), m("/var", 30)],
        vec![m("/", 5), m("/var", 6), m("/other", 7), m("/var", 8)],
    );
    let shown: Vec<(&str, u64, u64)> =
        fs.iter().map(|f| (f.mountpoint.as_str(), f.size, f.avail)).collect();
    assert_eq!(shown, vec![("/", 20, 5), ("/var", 30, 8)]);
}

#[test]
fn an_exporter_is_found_by_its_port() {
    assert_eq!(exporter_fields("n1"), "spec.nodeName=n1,status.phase=Running");
    let pods = vec![
        ExporterPod { namespace: Some("a".into()), name: "web".into(), ports: vec![80] },
        ExporterPod { namespace: Some("mon".into()), name: "node-exporter-1".into(), ports: vec![1, 9100] },
    ];
    assert_eq!(find_exporter(&pods, "n1").unwrap(), ("mon".to_string(), "node-exporter-1".to_string()));
    assert!(matches!(find_exporter(&vec![], "n1"), Err(AppError::NotFound(m)) if m.contains("n1")));
    assert_eq!(metrics_url(4242), "http://127.0.0.1:4242/metrics");
    assert_eq!(forward_failed("ne-1", Some("reset")), "could not forward to ne-1: reset");
    assert!(scrape_status(200, "200 OK").is_ok());
    assert!(scrape_status(500, "500 X").unwrap_err().contains("500 X"));
}

#[test]
fn a_failed_scrape_is_reported_once() {
    let failed = Turn::ScrapeFailed("timeout".into());
    let (first, reported) = after_turn("ne-1", &failed, false);
    assert!(matches!(first, AfterTurn::Report(m) if m == "scrape failed: timeout"));
    let (second, reported) = after_turn("ne-1", &failed, reported);
    assert!(matches!(second, AfterTurn::Continue));
    let (_, reported) = after_turn("ne-1", &Turn::Scraped, reported);
    assert!(!reported);
    let (end, _) = after_turn("ne-1", &Turn::ForwardDied("eof".into()), reported);
    assert!(matches!(end, AfterTurn::End(m) if m == "port-forward to ne-1 failed: eof"));
}

// ---------------------------------------------------------------------------
// PromQL
// ---------------------------------------------------------------------------

fn svc(name: &str, namespace: &str, labels: &[(&str, &str)], ports: &[i32]) -> Service {
    let mut own = TextMap::new();
    for (k, v) in labels {
        own.insert(k, v);
    }
    Service {
        name: name.into(),
        namespace: Some(namespace.into()),
        labels: own,
        ports: Some(ports.iter().map(|p| ServicePort { port: *p, name: None }).collect()),
    }
}

/// The obvious Service wins, and its 9090 port is what gets addressed.
#[test]
fn scores_a_conventional_prometheus() {
    let (_, p) = score(&svc("prometheus", "panoptes", &[], &[9090, 9002])).expect("recognised");
    assert_eq!(
        (p.namespace.as_str(), p.name.as_str(), p.port),
        ("panoptes", "prometheus", 9090)
    );
}

/// A Service is not Prometheus just because it exists.
#[test]
fn ignores_unrelated_services() {
    assert!(score(&svc("grafana", "panoptes", &[], &[3000])).is_none());
}

/// Labelled but oddly named still counts: operator-installed Prometheus is
/// usually `kube-prometheus-stack-prometheus` or similar.
#[test]
fn recognises_by_label() {
    let s = svc("kps-server", "monitoring", &[("app.kubernetes.io/name", "prometheus")], &[9090]);
    assert!(score(&s).is_some());
}

/// An exact name beats a prefix, which beats a label, so a cluster running
/// several candidates picks the same one every time.
#[test]
fn exact_name_outranks_prefix_and_label() {
    let exact = score(&svc("prometheus", "a", &[], &[9090])).unwrap().0;
    let prefix = score(&svc("prometheus-operated", "a", &[], &[9090])).unwrap().0;
    let labelled = score(&svc("mon", "a", &[("app", "prometheus")], &[9090])).unwrap().0;
    assert!(exact > prefix && prefix > labelled);
    let all = vec![
        svc("mon", "a", &[("app", "prometheus")], &[9090]),
        svc("prometheus-operated", "a", &[], &[9090]),
        svc("prometheus", "b", &[], &[9090]),
    ];
    assert_eq!(discover(&all).unwrap().namespace, "b");
    assert!(discover(&vec![]).is_none());
}

/// The proxy path is the shape the API server expects, including the
/// `name:port` form that selects the service port.
#[test]
fn builds_the_service_proxy_path() {
    let p = PromService {
        namespace: "panoptes".into(),
        name: "prometheus".into(),
        port: 9090,
    };
    assert_eq!(
        p.path("query_range", "query=up&start=1&end=2&step=30"),
        "/api/v1/namespaces/panoptes/services/prometheus:9090/proxy/api/v1/query_range?query=up&start=1&end=2&step=30"
    );
}

/// PromQL is mostly punctuation; every byte of it has to survive the query
/// string intact.
#[test]
fn encodes_promql_punctuation() {
    assert_eq!(
        urlencode("node_load1{node=\"murphy-yi\"}"),
        "node_load1%7Bnode%3D%22murphy-yi%22%7D"
    );
    assert_eq!(urlencode("rate(x[2m]) * 100"), "rate%28x%5B2m%5D%29%20%2A%20100");
    assert_eq!(urlencode("é"), "%C3%A9");
}

/// Series are joined on timestamp, not zipped by position: a gap in one
/// series must not shift every later value of the others onto the wrong time.
#[test]
fn assembles_on_timestamp_not_position() {
    let out = assemble(
        &vec![
            ("cpu", vec![(1_000, 10.0), (2_000, 20.0), (3_000, 30.0)]),
            // load1 is missing the middle point.
            ("load1", vec![(1_000, 0.1), (3_000, 0.3)]),
        ],
        0.0,
    );
    assert_eq!(out.len(), 3);
    assert_eq!(out[0].ts, 1_000);
    assert_eq!(out[1].ts, 2_000);
    assert_eq!(
        (out[1].cpu_percent, out[1].load1),
        (20.0, 0.0),
        "gap leaves a default, not a shift"
    );
    assert_eq!((out[2].cpu_percent, out[2].load15), (30.0, 0.0));
    assert_eq!(out[2].load1, 0.3, "the later load value stays on its own timestamp");
}

/// Backfilled points carry no filesystems: the UI shows those as current
/// usage, and a historical value would read as if it were now.
#[test]
fn backfill_carries_no_filesystems() {
    let out = assemble(&vec![("cpu", vec![(1_000, 5.0)])], 0.0);
    assert!(out[0].filesystems.is_empty());
}

/// The queries key on node name, which survives the IP churn.
#[test]
fn queries_key_on_node_name() {
    let qs = node_queries("murphy-yi");
    assert!(qs.iter().all(|(_, q)| q.contains("node=\"murphy-yi\"")));
    assert!(qs.iter().any(|(k, _)| *k == "cpu"));
    // Virtual interfaces are excluded, or the network totals double-count.
    let rx = &qs.iter().find(|(k, _)| *k == "rx").unwrap().1;
    assert!(rx.contains("device!~"), "rx must exclude virtual interfaces");
    assert!(rx.contains("veth"));
    assert!(rx.contains(&virtual_ifaces_pattern()));
}

#[test]
fn the_history_of_a_pod_is_joined_by_time() {
    let queries = pod_queries("prod", "api");
    assert!(queries.iter().all(|(_, q)| q.contains("prod") && q.contains("api")));
    let keys: Vec<&'static str> = queries.iter().map(|(k, _)| *k).collect();
    let out = assemble_pod(&vec![
        (keys[0], vec![(2_000, 20), (1_000, 10)]),
        (keys[1], vec![(2_000, 7)]),
    ]);
    assert_eq!(out.len(), 2);
    assert_eq!((out[0].ts, out[0].cpu_millis, out[0].mem_bytes), (1_000, 10, 0));
    assert_eq!((out[1].ts, out[1].cpu_millis, out[1].mem_bytes), (2_000, 20, 7));
    assert_eq!(history_start(100, 30), Some(70));
    assert_eq!(history_start(i64::MIN, 1), None);
}

// ---------------------------------------------------------------------------
// Query endpoints
// ---------------------------------------------------------------------------

#[test]
fn urlencode_passes_safe_chars() {
    assert_eq!(metrics_config::urlencode("rate(node_cpu[5m])"), "rate%28node_cpu%5B5m%5D%29");
}

#[test]
fn urlencode_keeps_alnum_and_dash() {
    assert_eq!(metrics_config::urlencode("kube_pod-info"), "kube_pod-info");
}

/// The samples of a series as numbers, in milliseconds.
fn samples(s: &Series) -> Vec<(i64, f64)> {
    let time = |t: &str| (t.parse::<f64>().unwrap() * 1000.0) as i64;
    match &s.samples {
        Samples::Range(v) => {
            v.iter().map(|x| (time(&x.ts), x.value.parse().unwrap())).collect()
        }
        Samples::Instant(t, v) => vec![(
            t.as_deref().map(time).unwrap_or(0),
            v.as_deref().and_then(|v| v.parse().ok()).unwrap_or(0.0),
        )],
        Samples::Nothing => vec![],
    }
}

fn translated(body: &str) -> metrics_config::QueryResult {
    let v = value(body);
    let kind = v["data"]["resultType"].as_str().unwrap().to_string();
    translate(kind, v["data"]["result"].clone())
}

#[test]
fn translate_matrix_parses_timestamps_and_values() {
    let r = translated(
        r#"{
            "status": "success",
            "data": {
                "resultType": "matrix",
                "result": [
                    {
                        "metric": {"__name__": "up", "job": "apiserver"},
                        "values": [
                            [1700000000.0, "1"],
                            [1700000060.0, "0"],
                            [1700000120.0, "1"]
                        ]
                    }
                ]
            }
        }"#,
    );
    assert_eq!(r.result_type, "matrix");
    assert_eq!(r.series.len(), 1);
    let s = &r.series[0];
    assert_eq!(s.metric.get("job").as_deref(), Some("apiserver"));
    let points = samples(s);
    assert_eq!(points.len(), 3);
    // Timestamps are converted from seconds to milliseconds.
    assert_eq!(points[0].0, 1_700_000_000_000);
    assert_eq!(points[1].1, 0.0);
    assert_eq!(points[2].1, 1.0);
}

#[test]
fn translate_vector_uses_single_sample_per_series() {
    let r = translated(
        r#"{
            "data": {
                "resultType": "vector",
                "result": [
                    {
                        "metric": {"foo": "bar"},
                        "value": [1.7e9, "42"]
                    }
                ]
            }
        }"#,
    );
    assert_eq!(r.series.len(), 1);
    let points = samples(&r.series[0]);
    assert_eq!(points.len(), 1);
    // 1.7e9 seconds → 1.7e12 ms.
    assert_eq!(points[0].0, 1_700_000_000_000);
    assert_eq!(points[0].1, 42.0);
}

#[test]
fn translate_handles_empty_result() {
    let r = translated(r#"{"data": {"resultType": "matrix", "result": []}}"#);
    assert!(r.series.is_empty());
    assert_eq!(r.result_type, "matrix");
}

#[test]
fn a_query_endpoint_is_kept_without_its_password() {
    let mut f = metrics_config::MetricsFile { metrics: vec![], passwords: TextMap::new() };
    let m = metrics_config::upsert(&mut f, " p ", "http://prom/ ", "u", "pw", "d").unwrap();
    assert_eq!((m.name.as_str(), m.url.as_str()), ("p", "http://prom"));
    assert_eq!(metrics_config::find(&f, "p").unwrap().password, "pw");
    assert_eq!(metrics_config::list(&f).len(), 1);
    assert!(matches!(metrics_config::auth(&m), Auth::Basic(u, p) if u == "u" && p == "pw"));
    assert!(matches!(metrics_config::find(&f, "q"), Err(AppError::NotFound(_))));
    assert!(metrics_config::upsert(&mut f, "", "http://prom", "", "", "").is_err());
    assert_eq!(metrics_config::query_url("http://prom", "up{}"), "http://prom/api/v1/query?query=up%7B%7D");
    assert_eq!(
        metrics_config::query_range_url("http://prom", "up", 1_999, 5_000, 15),
        "http://prom/api/v1/query_range?query=up&start=1&end=5&step=15"
    );
    assert!(metrics_config::remove(&mut f, "p"));
    assert!(!metrics_config::remove(&mut f, "p"));
    assert_eq!(f.passwords.get("p"), None);
}

// ---------------------------------------------------------------------------
// Saved queries
// ---------------------------------------------------------------------------

fn fake(name: &str, q: &str) -> SavedQuery {
    SavedQuery {
        name: name.to_string(),
        promql: q.to_string(),
        note: String::new(),
        cache_seconds: 0,
    }
}

#[test]
fn cache_key_is_distinct_per_query() {
    assert_ne!(cache_key("p1", "up"), cache_key("p1", "up{job=\"a\"}"));
    assert_ne!(cache_key("p1", "up"), cache_key("p2", "up"));
}

#[test]
fn cache_seconds_default_is_module_ttl() {
    let _ = DEFAULT_TTL_SECS;
    assert_eq!(DEFAULT_TTL_SECS, 30);
}

#[test]
fn upsert_replaces_existing() {
    let a = fake("cpu", "rate(node_cpu[5m])");
    let b = SavedQuery {
        name: a.name.clone(),
        promql: a.promql.clone(),
        ..a.clone()
    };
    assert_eq!(a.name, b.name);
    let mut all = vec![];
    saved_queries::upsert(&mut all, a).unwrap();
    saved_queries::upsert(&mut all, fake("cpu", "up")).unwrap();
    assert_eq!(all.len(), 1);
    assert_eq!(all[0].promql, "up");
    assert!(saved_queries::upsert(&mut all, fake(" ", "up")).is_err());
    assert!(saved_queries::upsert(&mut all, fake("x", " ")).is_err());
}

#[test]
fn remove_is_idempotent() {
    let mut cache: QueryCache<u8> = QueryCache::new();
    cache.clear_cache();
    cache.clear_cache(); // calling twice is fine
    let mut all = vec![fake("cpu", "up")];
    assert!(saved_queries::remove(&mut all, "cpu"));
    assert!(!saved_queries::remove(&mut all, "cpu"));
}

#[test]
fn fake_preserves_fields() {
    let q = SavedQuery {
        name: "mem".into(),
        promql: "node_memory_Active_bytes".into(),
        note: "active memory".into(),
        cache_seconds: 60,
    };
    assert_eq!(q.name, "mem");
    assert_eq!(q.cache_seconds, 60);
}

#[test]
fn a_result_is_replayed_while_it_is_fresh() {
    let second: u128 = 1_000_000_000;
    let mut q = fake("cpu", "up");
    q.cache_seconds = 10;
    let mut cache: QueryCache<u8> = QueryCache::new();
    assert!(cache.run_saved(&q, "p1", false, 0).is_none());
    cache.keep_result(&q, "p1", 7, 0);
    assert_eq!(cache.run_saved(&q, "p1", false, 9 * second), Some(&7));
    assert!(cache.run_saved(&q, "p1", false, 11 * second).is_none());
    assert!(cache.run_saved(&q, "p1", true, second).is_none());
    assert!(cache.run_saved(&q, "p2", false, second).is_none());
    q.cache_seconds = 0;
    assert!(cache.run_saved(&q, "p1", false, second).is_none());
    cache.clear_cache();
    q.cache_seconds = 10;
    assert!(cache.run_saved(&q, "p1", false, second).is_none());
}

// ---------------------------------------------------------------------------
// Alerts
// ---------------------------------------------------------------------------

fn sample_alert_json() -> serde_json::Value {
    value(
        r#"{
            "fingerprint": "abc123",
            "status": { "state": "active" },
            "labels": {
                "alertname": "HighCpu",
                "severity": "warning",
                "instance": "node-1"
            },
            "annotations": {
                "summary": "CPU > 80%",
                "description": "node-1 CPU is at 95% for 10m"
            },
            "startsAt": "2024-01-01T00:00:00Z"
        }"#,
    )
}

#[test]
fn map_alert_extracts_top_level_fields() {
    let a = alerting::map_alert(sample_alert_json());
    assert_eq!(a.fingerprint, "abc123");
    assert_eq!(a.name, "HighCpu");
    assert_eq!(a.severity, "warning");
    assert_eq!(a.state, "active");
    assert_eq!(a.summary, "CPU > 80%");
    assert_eq!(a.active_at, "2024-01-01T00:00:00Z");
}

#[test]
fn map_alert_tolerates_missing_annotations() {
    let mut v = sample_alert_json();
    v.as_object_mut().unwrap().remove("annotations");
    let a = alerting::map_alert(v);
    assert_eq!(a.summary, "");
    assert_eq!(a.description, "");
}

#[test]
fn map_alert_tolerates_missing_status_state() {
    let mut v = sample_alert_json();
    v.as_object_mut().unwrap().remove("status");
    let a = alerting::map_alert(v);
    assert_eq!(a.state, "unknown");
}

#[test]
fn map_silence_joins_matchers() {
    let v = value(
        r#"{
            "id": "silence-1",
            "matchers": [
                {"name": "alertname", "value": "HighCpu", "isRegex": false},
                {"name": "instance", "value": "node-.*", "isRegex": true}
            ],
            "createdBy": "alice",
            "comment": "investigating",
            "startsAt": "2024-01-01T00:00:00Z",
            "endsAt": "2024-01-01T01:00:00Z",
            "status": {"state": "active"}
        }"#,
    );
    let s = alerting::map_silence(v);
    assert_eq!(s.id, "silence-1");
    assert_eq!(s.matchers, vec!["alertname=HighCpu", "instance=~node-.*"]);
    assert_eq!(s.created_by, "alice");
}

#[test]
fn map_silence_defaults_missing_matchers() {
    let v = value(
        r#"{
            "id": "silence-2",
            "createdBy": "bob",
            "comment": "tmp",
            "startsAt": "2024-01-01T00:00:00Z",
            "endsAt": "2024-01-01T01:00:00Z",
            "status": {"state": "expired"}
        }"#,
    );
    let s = alerting::map_silence(v);
    assert!(s.matchers.is_empty());
    assert_eq!(s.status, "expired");
}

#[test]
fn a_silence_is_asked_for_as_it_will_be_listed() {
    let request = alerting::CreateSilenceRequest {
        matchers: vec![alerting::SilenceMatcher {
            name: "instance".into(),
            value: "node-.*".into(),
            is_regex: true,
        }],
        comment: "c".into(),
        created_by: "me".into(),
        starts_at: String::new(),
        ends_at: "later".into(),
    };
    let body = alerting::silence_body(&request, "now");
    assert_eq!(body.get("startsAt").and_then(Json::as_str), Some("now"));
    assert_eq!(body.get("endsAt").and_then(Json::as_str), Some("later"));
    match body.get("matchers") {
        Some(Json::Array(m)) => {
            assert_eq!(m.len(), 1);
            assert_eq!(m[0].get("name").and_then(Json::as_str), Some("instance"));
            assert!(matches!(m[0].get("isRegex"), Some(Json::Bool(true))));
        }
        _ => panic!("no matchers"),
    }
}

#[test]
fn alerting_rules_are_listed_by_group() {
    let groups = alerting::prometheus_rules(value(
        r#"{"data":{"groups":[{"name":"g","file":"f","interval":30,
            "rules":[{"type":"recording","name":"r"},
                     {"type":"alerting","name":"a","query":"up == 0","duration":1.5,
                      "labels":{"severity":"page"},"annotations":{"summary":"s"}}]},{}]}}"#,
    ));
    assert_eq!(groups.len(), 2);
    assert_eq!(groups[0].interval.as_deref(), Some("30"));
    assert_eq!(groups[0].rules.len(), 1);
    assert_eq!(groups[0].rules[0].severity, "page");
    assert_eq!(groups[0].rules[0].duration.as_deref(), Some("1.5"));
    assert_eq!(groups[0].rules[0].state, "inactive");
    assert_eq!(groups[1].name, "?");
    assert!(alerting::prometheus_rules(serde_json::Value::Null).is_empty());
}

#[test]
fn an_alert_manager_is_found_with_its_token() {
    let mut f = alerting::AlertManagerFile { managers: vec![], tokens: TextMap::new() };
    let m = alerting::upsert(&mut f, "am", "http://am/", "tok", "").unwrap();
    assert!(matches!(alerting::auth(&m), Auth::Bearer(t) if t == "tok"));
    assert_eq!(alerting::find(&f, "am").unwrap().bearer_token, "tok");
    assert_eq!(alerting::list(&f).len(), 1);
    assert!(matches!(alerting::find(&f, "x"), Err(AppError::NotFound(_))));
    assert!(alerting::alerts_url("http://am").starts_with("http://am/api/v2/alerts"));
    assert!(alerting::silence_url("http://am", "id").ends_with("/id"));
    let all = alerting::list_alerts(vec![sample_alert_json(), serde_json::Value::Null]);
    assert_eq!(all.len(), 2);
    assert!(alerting::remove(&mut f, "am"));
    assert!(!alerting::remove(&mut f, "am"));
}

// ---------------------------------------------------------------------------
// Dashboards
// ---------------------------------------------------------------------------

#[test]
fn urlencode_safe_chars() {
    assert_eq!(grafana::urlencode("Prometheus"), "Prometheus");
    assert_eq!(grafana::urlencode("My/DS 1"), "My%2FDS%201");
}

#[test]
fn presets_have_unique_ids() {
    let p = grafana::preset_dashboards();
    let mut ids: Vec<_> = p.iter().map(|d| d.id.clone()).collect();
    ids.sort();
    ids.dedup();
    assert_eq!(ids.len(), p.len());
}

#[test]
fn a_dashboard_is_embedded_with_its_window() {
    let mut f = grafana::GrafanaFile {
        grafanas: vec![],
        api_tokens: TextMap::new(),
        passwords: TextMap::new(),
    };
    let g = grafana::upsert(&mut f, "g", "http://g/", "u", "pw", "tok", "My DS", "").unwrap();
    assert!(matches!(grafana::auth(&g), Auth::Bearer(t) if t == "tok"));
    assert_eq!(
        grafana::dashboard_url(&f, "g", "abc", 1_000, 2_999).unwrap(),
        "http://g/d/abc?from=1&to=2&var-datasource=My%20DS&kiosk"
    );
    assert!(matches!(grafana::dashboard_url(&f, "h", "abc", 1, 2), Err(AppError::NotFound(_))));
    assert_eq!(
        grafana::search_url("http://g", "a b"),
        "http://g/api/search?query=a%20b&type=dash-db"
    );
    let found = grafana::search_dashboards(vec![value(r#"{"uid":"u","title":"t","tags":["x",1]}"#)]);
    assert_eq!(found[0].uid, "u");
    assert_eq!(found[0].tags, vec!["x"]);
}

// ---------------------------------------------------------------------------
// Audit logs
// ---------------------------------------------------------------------------

fn audit_query(resource: &str, user: &str) -> audit::AuditQuery {
    audit::AuditQuery {
        instance: "l".into(),
        namespace: "prod".into(),
        resource: resource.into(),
        user: user.into(),
        since_seconds: audit::default_since(),
        limit: audit::default_limit(),
    }
}

#[test]
fn audit_events_are_read_and_filtered() {
    let line = r#"{"verb":"delete","objectRef":{"resource":"Pods","namespace":"prod","name":"api"},"user":{"username":"alice"},"sourceIPs":["10.0.0.1","x"],"responseStatus":{"code":200},"stage":"ResponseComplete","auditID":"1","stageTimestamp":"t"}"#;
    let event = audit::parse_audit_line(line).unwrap();
    assert_eq!(event.verb, "delete");
    assert_eq!(event.resource, "Pods");
    assert_eq!(event.source_ip, "10.0.0.1");
    assert_eq!(event.status_code, 200);
    assert_eq!(event.timestamp, "t");
    assert_eq!(event.raw, line);
    assert!(audit::parse_audit_line("no json").is_none());
    let escaped = serde_json::Value::from(line).to_string();
    let body = format!(r#"{{"data":{{"result":[{{"values":[["1",{escaped}],["2","junk"]]}},{{}}]}}}}"#);
    assert_eq!(audit::query_audit_events(value(&body), &audit_query("", "")).len(), 1);
    assert_eq!(audit::query_audit_events(value(&body), &audit_query("pod", "ALI")).len(), 1);
    assert!(audit::query_audit_events(value(&body), &audit_query("secret", "")).is_empty());
    assert!(audit::query_audit_events(value(&body), &audit_query("", "bob")).is_empty());
    assert!(audit::query_audit_events(serde_json::Value::Null, &audit_query("", "")).is_empty());
}

#[test]
fn an_audit_query_asks_for_one_namespace_and_window() {
    assert_eq!(audit::logql(""), r#"{job="kube-apiserver-audit"}"#);
    assert_eq!(audit::logql("prod"), r#"{job="kube-apiserver-audit", namespace="prod"}"#);
    assert_eq!(audit::window_start(5_000_000_000, 2), Some(3_000_000_000));
    assert_eq!(audit::window_start(0, i64::MAX), None);
    let url = audit::query_url("http://l", &audit_query("", ""), 1, 2);
    assert!(url.starts_with("http://l/loki/api/v1/query_range?query=%7Bjob=%22kube-apiserver-audit%22,%20namespace="));
    assert!(url.ends_with("&start=1&end=2&direction=backward"));
    let mut f = audit::LokiFile { instances: vec![], passwords: TextMap::new() };
    let c = audit::upsert(&mut f, "l", "http://l/", "u", "pw", "").unwrap();
    assert!(matches!(audit::auth(&c), Auth::Basic(u, p) if u == "u" && p == "pw"));
    assert_eq!(audit::find(&f, "l").unwrap().password, "pw");
    assert_eq!(audit::list(&f).len(), 1);
    assert!(audit::test_connect(&audit::ready_url("http://l"), 200, "200 OK").is_ok());
    assert!(audit::test_connect("http://l", 500, "500 X").is_err());
    assert!(audit::remove(&mut f, "l"));
}
