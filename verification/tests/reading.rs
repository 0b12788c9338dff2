//! Documents and archives whose contents are known, and sums at the ends of their
//! range.
use k7s_kube::config_snapshots::redact_secret;
use k7s_kube::error::AppError;
use k7s_kube::helm::local::{find_chart_yaml, find_member, list_files};
use k7s_kube::helm::market::{
    add_repo, remove_repo, repo_url, search_charts, ChartVersion, HelmIndex, HelmRepo,
};
use k7s_kube::helm::ops::{push_set_arg, push_set_args};
use k7s_kube::image::repo::{upsert_registry, RegistryFile};
use k7s_kube::image::sync::{auth_file_text, build_export_argv};
use k7s_kube::json::{Json, JsonNumber};
use k7s_kube::lists::TextMap;
use k7s_kube::logs::anchor;
use k7s_kube::mappers::pod::{
    pod_resources, pod_restarts, Container, ContainerStatus, Pod, PodSpec, PodStatus,
};
use k7s_kube::mappers::ObjectMeta;
use k7s_kube::numbers::{count_i32, wrapping_sum, wrapping_sum_i32};
use k7s_kube::observability::alerting::{
    read_alert, read_rules, read_silence, upsert, AlertManagerFile,
};
use k7s_kube::observability::audit::{read_events, AuditQuery};
use k7s_kube::observability::grafana::read_dashboard;
use k7s_kube::observability::metrics::{cpu_parts, mem_parts, next_misses, total};
use k7s_kube::observability::metrics_config::{self, read_result, MetricsFile, Samples};
use k7s_kube::tarball::Member;

fn text(s: &str) -> Json {
    Json::Str(s.into())
}

fn number(n: i64) -> Json {
    Json::Number(JsonNumber { int: Some(n), text: n.to_string() })
}

fn object(members: Vec<(&str, Json)>) -> Json {
    Json::Object(members.into_iter().map(|(k, v)| (k.to_string(), v)).collect())
}

fn other_text<T: std::fmt::Debug>(r: Result<T, AppError>) -> String {
    match r {
        Err(AppError::Other(m)) => m,
        x => panic!("expected an error, got {x:?}"),
    }
}

// ---------------------------------------------------------------------------
// Documents
// ---------------------------------------------------------------------------

#[test]
fn an_alert_is_read_from_its_document() {
    let doc = object(vec![
        ("fingerprint", text("f1")),
        (
            "labels",
            object(vec![
                ("alertname", text("Down")),
                ("severity", text("critical")),
                ("shard", number(3)),
            ]),
        ),
        ("annotations", object(vec![("summary", text("it is down"))])),
        (
            "status",
            object(vec![(
                "inhibitedBy",
                Json::Array(vec![text("a"), number(1), text("b")]),
            )]),
        ),
        ("startsAt", text("2026-01-01T00:00:00Z")),
    ]);
    let a = read_alert(&doc);
    assert_eq!(a.fingerprint, "f1");
    assert_eq!(a.name, "Down");
    assert_eq!(a.severity, "critical");
    assert_eq!(a.state, "unknown");
    assert_eq!(a.summary, "it is down");
    assert_eq!(a.description, "");
    assert_eq!(a.inhibited_by, "a, b");
    assert_eq!(a.labels.get("shard").as_deref(), Some(""));
    assert_eq!(a.active_at, "2026-01-01T00:00:00Z");
    assert_eq!(a.generator_url, "");
}

#[test]
fn a_silence_shows_the_matchers_that_have_a_name_and_a_value() {
    let doc = object(vec![
        ("id", text("s1")),
        (
            "matchers",
            Json::Array(vec![
                object(vec![("name", text("job")), ("value", text("api"))]),
                object(vec![
                    ("name", text("pod")),
                    ("value", text("web-.*")),
                    ("isRegex", Json::Bool(true)),
                ]),
                object(vec![("name", text("no value"))]),
            ]),
        ),
        ("status", object(vec![("state", text("active"))])),
    ]);
    let s = read_silence(&doc);
    assert_eq!(s.id, "s1");
    assert_eq!(s.matchers, vec!["job=api", "pod=~web-.*"]);
    assert_eq!(s.status, "active");
    assert_eq!(s.comment, "");
}

#[test]
fn only_alert_rules_are_shown() {
    let rule = |kind: &str, name: &str| {
        object(vec![
            ("type", text(kind)),
            ("name", text(name)),
            ("duration", number(300)),
        ])
    };
    let doc = object(vec![(
        "data",
        object(vec![(
            "groups",
            Json::Array(vec![
                object(vec![
                    ("name", text("g")),
                    ("interval", number(30)),
                    (
                        "rules",
                        Json::Array(vec![
                            rule("recording", "r"),
                            rule("alerting", "a"),
                            rule("alerting", "b"),
                        ]),
                    ),
                ]),
                object(vec![]),
            ]),
        )]),
    )]);
    let groups = read_rules(&doc);
    assert_eq!(groups.len(), 2);
    assert_eq!(groups[0].interval.as_deref(), Some("30"));
    let names: Vec<&str> = groups[0].rules.iter().map(|r| r.name.as_str()).collect();
    assert_eq!(names, vec!["a", "b"]);
    assert_eq!(groups[0].rules[0].duration.as_deref(), Some("300"));
    assert_eq!(groups[0].rules[0].state, "inactive");
    assert_eq!(groups[1].name, "?");
    assert!(groups[1].rules.is_empty());
}

#[test]
fn events_are_filtered_whatever_the_case() {
    let line = |resource: &str, user: &str| {
        let l = format!(
            "{{\"objectRef\":{{\"resource\":\"{resource}\"}},\"user\":{{\"username\":\"{user}\"}}}}"
        );
        Json::Array(vec![text("1"), text(&l)])
    };
    let doc = object(vec![(
        "data",
        object(vec![(
            "result",
            Json::Array(vec![object(vec![(
                "values",
                Json::Array(vec![
                    line("Pods", "ALICE"),
                    line("pods", "bob"),
                    line("secrets", "alice"),
                    Json::Array(vec![text("1"), text("no document")]),
                    Json::Array(vec![text("1")]),
                ]),
            )])]),
        )]),
    )]);
    let q = AuditQuery {
        instance: "loki".into(),
        namespace: String::new(),
        resource: "POD".into(),
        user: "alice".into(),
        since_seconds: 3600,
        limit: 200,
    };
    let events = read_events(&doc, &q);
    assert_eq!(events.len(), 1);
    assert_eq!(events[0].resource, "Pods");
    assert_eq!(events[0].user, "ALICE");
}

#[test]
fn a_dashboard_without_a_type_is_one() {
    let d = read_dashboard(&object(vec![
        ("uid", text("u")),
        ("tags", Json::Array(vec![text("x"), Json::Null])),
    ]));
    assert_eq!(d.uid, "u");
    assert_eq!(d.kind, "dash-db");
    assert_eq!(d.tags, vec!["x"]);
    assert_eq!(d.title, "");
}

#[test]
fn a_range_drops_what_is_no_sample() {
    let pair = |t: Json, v: Json| Json::Array(vec![t, v]);
    let doc = Json::Array(vec![
        object(vec![(
            "values",
            Json::Array(vec![
                pair(number(1), text("0.5")),
                pair(text("2"), text("0.5")),
                pair(number(3), number(1)),
                Json::Null,
            ]),
        )]),
        object(vec![("value", pair(number(7), text("42")))]),
        object(vec![]),
    ]);
    let r = read_result("matrix".into(), &doc);
    assert_eq!(r.result_type, "matrix");
    assert_eq!(r.series.len(), 3);
    match &r.series[0].samples {
        Samples::Range(v) => {
            assert_eq!(v.len(), 1);
            assert_eq!((v[0].ts.as_str(), v[0].value.as_str()), ("1", "0.5"));
        }
        x => panic!("expected a range, got {x:?}"),
    }
    match &r.series[1].samples {
        Samples::Instant(ts, value) => {
            assert_eq!(ts.as_deref(), Some("7"));
            assert_eq!(value.as_deref(), Some("42"));
        }
        x => panic!("expected an instant, got {x:?}"),
    }
    assert!(matches!(r.series[2].samples, Samples::Nothing));
    assert!(read_result("scalar".into(), &Json::Null).series.is_empty());
}

#[test]
fn a_redacted_secret_shows_its_keys_and_no_value() {
    let secret = object(vec![
        ("type", text("Opaque")),
        ("data", object(vec![("user", text("YWxpY2U=")), ("pass", number(1))])),
        ("stringData", object(vec![("token", text("t"))])),
    ]);
    let shown = redact_secret(secret);
    let value = |section: &str, key: &str| match shown.get(section).and_then(|s| s.get(key)) {
        Some(Json::Str(s)) => s.clone(),
        x => panic!("expected a text, got {x:?}"),
    };
    assert_eq!(value("data", "user"), "<redacted>");
    assert_eq!(value("data", "pass"), "<redacted>");
    assert_eq!(value("stringData", "token"), "<redacted>");
    assert!(matches!(shown.get("type"), Some(Json::Str(s)) if s == "Opaque"));
    assert!(matches!(redact_secret(Json::Null), Json::Null));
}

// ---------------------------------------------------------------------------
// Packages
// ---------------------------------------------------------------------------

fn member(path: &str, size: u64, is_dir: bool) -> Result<Member, String> {
    Ok(Member { path: path.as_bytes().to_vec(), size, is_dir })
}

#[test]
fn the_chart_is_the_one_at_the_top() {
    let entries = vec![
        member("demo/charts/sub/Chart.yaml", 1, false),
        member("Chart.yaml", 1, false),
        member("demo/Chart.yaml", 1, false),
        Err("broken".to_string()),
    ];
    assert_eq!(find_chart_yaml(&entries).unwrap(), 2);
    assert_eq!(
        other_text(find_chart_yaml(&entries[..2].iter().map(copy).collect())),
        "no Chart.yaml in archive"
    );
    let broken = vec![Err("broken".to_string()), member("demo/Chart.yaml", 1, false)];
    assert_eq!(other_text(find_chart_yaml(&broken)), "tar entry: broken");
}

fn copy(e: &Result<Member, String>) -> Result<Member, String> {
    match e {
        Ok(m) => Ok(Member { path: m.path.clone(), size: m.size, is_dir: m.is_dir }),
        Err(t) => Err(t.clone()),
    }
}

#[test]
fn a_member_goes_by_either_path() {
    let entries = vec![
        member("demo/templates", 0, true),
        member("demo/values.yaml", 5, false),
    ];
    assert_eq!(find_member(&entries, "values.yaml").unwrap(), 1);
    assert_eq!(find_member(&entries, "demo/values.yaml").unwrap(), 1);
    assert_eq!(other_text(find_member(&entries, "templates")), "is a directory");
    assert!(matches!(
        find_member(&entries, "README.md"),
        Err(AppError::NotFound(m)) if m == "no member `README.md`"
    ));
}

#[test]
fn files_are_listed_in_the_order_of_their_paths() {
    let entries = vec![
        member("demo/values.yaml", 5, false),
        member("demo/Chart.yaml", 7, false),
        Ok(Member { path: vec![0xff], size: 1, is_dir: false }),
        member("demo", 0, true),
    ];
    let files = list_files(&entries).unwrap();
    let paths: Vec<&str> = files.iter().map(|f| f.path.as_str()).collect();
    assert_eq!(paths, vec!["demo", "demo/Chart.yaml", "demo/values.yaml"]);
    assert!(files[0].is_dir);
    assert_eq!(files[1].size_bytes, 7);
    let broken = vec![member("demo", 0, true), Err("broken".to_string())];
    assert_eq!(other_text(list_files(&broken)), "tar entry: broken");
}

// ---------------------------------------------------------------------------
// Argument lists and files
// ---------------------------------------------------------------------------

#[test]
fn values_are_set_as_plain_text() {
    let mut argv = Vec::new();
    push_set_arg(&mut argv, "image.tag", "1.25");
    assert_eq!(argv, vec!["--set", "image.tag=1.25"]);
    let value = |t: &str| serde_json::from_str::<serde_json::Value>(t).unwrap();
    let set = vec![
        ("a".to_string(), value("\"x y\"")),
        ("b".to_string(), value("3")),
        ("c".to_string(), value("true")),
        ("d".to_string(), value("null")),
        ("e".to_string(), value("0.50")),
        ("f".to_string(), value("{ \"k\": [1, 2] }")),
    ];
    let mut argv = Vec::new();
    push_set_args(&mut argv, &Some(set));
    let pairs: Vec<&str> = argv.iter().skip(1).step_by(2).map(|s| s.as_str()).collect();
    assert_eq!(pairs, vec!["a=x y", "b=3", "c=true", "d=null", "e=0.5", "f={\"k\":[1,2]}"]);
}

#[test]
fn an_auth_file_names_one_registry() {
    assert_eq!(
        auth_file_text("reg.local", "dTpw"),
        "{\"auths\":{\"reg.local\":{\"auth\":\"dTpw\"}}}"
    );
}

#[test]
fn an_export_has_no_credentials_on_its_argument_list() {
    let argv = build_export_argv("skopeo", "docker://r/a:1", "docker-archive:/t", Some("/f"), true);
    assert_eq!(
        argv,
        vec![
            "copy",
            "--retry-times",
            "3",
            "--override-os",
            "linux",
            "--src-authfile",
            "/f",
            "--src-tls-verify=false",
            "docker://r/a:1",
            "docker-archive:/t",
        ]
    );
}

#[test]
fn stored_addresses_end_neither_in_a_slash_nor_in_the_api() {
    let mut f = AlertManagerFile { managers: Vec::new(), tokens: TextMap::new() };
    let m = upsert(&mut f, "am", " https://am.local// ", "", "").unwrap();
    assert_eq!(m.url, "https://am.local");
    let mut f = RegistryFile { registries: Vec::new(), passwords: TextMap::new() };
    let r = upsert_registry(&mut f, "r", "https://r.local/v2/", "", "", false, "").unwrap();
    assert_eq!(r.url, "https://r.local");
    let r = upsert_registry(&mut f, "r", "https://reg//v2", "", "", false, "").unwrap();
    assert_eq!(r.url, "https://reg");
    let r = upsert_registry(&mut f, "r", "https://reg/v2//v2/", "", "", false, "").unwrap();
    assert_eq!(r.url, "https://reg");
    assert_eq!(
        other_text(upsert_registry(&mut f, "r", "/v2", "", "", false, "")),
        "registry url cannot be empty"
    );
    let mut f = MetricsFile { metrics: Vec::new(), passwords: TextMap::new() };
    for url in ["https://prom/api/v1", " https://prom/api/v1/ ", "https://prom//"] {
        let c = metrics_config::upsert(&mut f, "p", url, "", "", "").unwrap();
        assert_eq!(c.url, "https://prom");
    }
    assert!(metrics_config::upsert(&mut f, "p", "/api/v1", "", "", "").is_err());
}

// ---------------------------------------------------------------------------
// Repositories
// ---------------------------------------------------------------------------

fn version(name: &str, version: &str, description: &str) -> ChartVersion {
    ChartVersion {
        name: name.into(),
        version: version.into(),
        app_version: String::new(),
        description: description.into(),
        home: String::new(),
        keywords: Vec::new(),
        maintainers: Vec::new(),
        urls: Vec::new(),
        created: String::new(),
        annotations: Vec::new(),
    }
}

#[test]
fn a_blank_query_finds_every_chart_with_a_version() {
    let index = HelmIndex {
        api_version: "v1".into(),
        generated: String::new(),
        entries: vec![
            ("empty".into(), Vec::new()),
            ("nginx".into(), vec![version("nginx", "2.0.0", "A Web Server"), version("nginx", "1.0.0", "")]),
            ("redis".into(), vec![version("redis", "3.0.0", "a cache")]),
        ],
    };
    let indexes = vec![("bitnami".to_string(), index)];
    let names = |query: &str| -> Vec<(String, String)> {
        search_charts(&indexes, query).into_iter().map(|c| (c.name, c.version)).collect()
    };
    let redis = ("redis".to_string(), "3.0.0".to_string());
    let nginx = ("nginx".to_string(), "2.0.0".to_string());
    assert_eq!(names("  "), vec![redis, nginx.clone()]);
    assert_eq!(names("WEB server"), vec![nginx]);
    assert!(names("1.0.0").is_empty());
}

#[test]
fn an_added_repository_is_found_and_a_removed_one_is_gone() {
    let mut repos: Vec<HelmRepo> = Vec::new();
    add_repo(&mut repos, " mine ", "https://charts.local/", "").unwrap();
    assert_eq!(repo_url(&repos, "mine").unwrap(), "https://charts.local");
    assert_eq!(
        other_text(add_repo(&mut repos, "Mine", "https://charts.local", "")),
        "repo 'Mine' already exists"
    );
    assert!(remove_repo(&mut repos, "mine"));
    assert!(!remove_repo(&mut repos, "mine"));
    assert!(repo_url(&repos, "mine").is_err());
}

// ---------------------------------------------------------------------------
// Times and sums
// ---------------------------------------------------------------------------

#[test]
fn a_time_to_go_on_from_has_to_be_one_that_the_api_takes() {
    assert_eq!(anchor(Some((7, 999_999_999))), Some((7, 999_999_999)));
    assert_eq!(anchor(Some((7, 1_000_000_000))), None);
    assert_eq!(anchor(Some((253_402_207_200, 0))), Some((253_402_207_200, 0)));
    assert_eq!(anchor(Some((253_402_207_201, 0))), None);
    assert_eq!(anchor(Some((-377_705_023_201, 0))), Some((-377_705_023_201, 0)));
    assert_eq!(anchor(Some((-377_705_023_202, 0))), None);
    assert_eq!(anchor(None), None);
}

#[test]
fn sums_wrap_around_at_the_ends_of_their_range() {
    assert_eq!(wrapping_sum(i64::MAX, 1), i64::MIN);
    assert_eq!(wrapping_sum(-3, 5), 2);
    assert_eq!(wrapping_sum_i32(i32::MIN, -1), i32::MAX);
    assert_eq!(count_i32(3), 3);
    assert_eq!(count_i32(0x8000_0000), i32::MIN);
    assert_eq!(total(&vec![i64::MAX, 2, -1]), i64::MIN);
    assert_eq!(next_misses(u32::MAX, false), 0);
}

#[test]
fn pods_add_up_what_their_containers_say() {
    let container = |n: &str, cpu: Option<i64>| Container {
        name: n.into(),
        cpu_request_millis: cpu,
        cpu_limit_millis: cpu,
        mem_request_bytes: None,
        mem_limit_bytes: Some(i64::MAX),
    };
    let status = |restarts: i32| ContainerStatus {
        ready: true,
        restart_count: restarts,
        waiting_reason: None,
        terminated_reason: None,
    };
    let pod = Pod {
        meta: ObjectMeta { name: "p".into(), namespace: None, uid: None, created: None },
        labels: None,
        spec: Some(PodSpec {
            node_name: None,
            containers: vec![container("a", Some(250)), container("b", None)],
        }),
        status: Some(PodStatus {
            phase: None,
            reason: None,
            container_statuses: vec![status(4), status(3)],
        }),
    };
    assert_eq!(pod_restarts(&pod), 7);
    let r = pod_resources(&pod);
    assert_eq!(r.cpu_request_millis, Some(250));
    assert_eq!(r.cpu_limit_millis, None);
    assert_eq!(r.mem_request_bytes, None);
    assert_eq!(r.mem_limit_bytes, Some(-2));
}

#[test]
fn quantities_come_apart_into_number_and_unit() {
    assert_eq!(cpu_parts(" 1.5 "), ("1.5", 1000, 1));
    assert_eq!(cpu_parts("212m"), ("212", 1, 1));
    assert_eq!(cpu_parts("500u"), ("500", 1, 1000));
    assert_eq!(cpu_parts("7n"), ("7", 1, 1_000_000));
    assert_eq!(mem_parts("1.25Gi"), ("1.25", 1_073_741_824));
    assert_eq!(mem_parts("3k"), ("3", 1000));
    assert_eq!(mem_parts("128"), ("128", 1));
}
