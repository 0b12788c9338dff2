//! Releases, operations, local charts, chart repositories and profiles.
use base64::Engine;
use flate2::write::GzEncoder;
use flate2::Compression;
use k7s_kube::dto::{Row, Tone};
use k7s_kube::error::AppError;
use k7s_kube::helm::local::{
    archive_id, candidate_names, chart_deps, chart_yaml_text, charts_dir, confine, deps_argv,
    dir_file, entry_from_meta, import_chart_bytes, is_archive_name, lint_argv, lint_chart,
    package_argv, package_chart, package_detail, packaged_chart, read_member, removal_target,
    remove_chart, resolve, safe_inner_path, scan_local_charts, sort_files, verify_argv,
    verify_chart, ChartYaml, DepsAction, LocalChartEntry, LocalChartKind, MAX_CHART_BYTES,
};
use k7s_kube::helm::market::{
    add_repo, chart_versions, config_dir, export_chart, index_is_fresh, index_path, index_served,
    index_url, list_repos, pull_argv, record_failure, record_refresh, remove_repo, repo_url,
    repos_path, search_charts, seed_default_repos, seed_repos, update_all_indexes, ChartVersion,
    HelmIndex, HelmRepo, Platform, INDEX_TTL, OCI_HAS_NO_INDEX,
};
use k7s_kube::helm::ops::{
    build_argv, fresh_temp_name, history_argv, is_passed_on, op_kubeconfig, op_outcome,
    op_release_ns, op_result, release_history, render_argv, require_helm, show_values_argv,
    temp_name, template_argv, tool_output, values_to_write, HelmOp, InstallArgs, RollbackArgs,
    UninstallArgs, UpgradeArgs, HELM_MISSING,
};
use k7s_kube::helm::profiles::{
    delete_profile, load_profiles, profiles_path, save_profile, validate_profile_name, HelmProfile,
};
use k7s_kube::helm::{
    decode_release, flatten_values, helm_manifest_revision, helm_values_revision, is_secret_doc,
    latest_only, map_release, redact_secret_manifests, release_text, status_tone, Release,
    ReleaseDoc, ReleaseSecret, RELEASE_SECRET_TYPE,
};
use k7s_kube::json::{parse_json, Json};
use std::io::Write;

// ---------------------------------------------------------------------------
// Releases
// ---------------------------------------------------------------------------

/// A release Secret as a cluster hands one over: the value is base64 text of a gzip
/// stream of JSON.
fn release_secret(name: &str, ns: &str, revision: i64, status: &str, updated: &str) -> ReleaseSecret {
    let body = format!(
        r##"{{"name":"{name}","namespace":"{ns}","version":{revision},
            "info":{{"status":"{status}","last_deployed":"{updated}","description":"Install complete"}},
            "chart":{{"metadata":{{"name":"traefik","version":"27.0.2","appVersion":"v3.0.0"}}}},
            "manifest":"# Source: traefik/templates/svc.yaml\napiVersion: v1\nkind: Service\n"}}"##
    );
    let mut gz = GzEncoder::new(Vec::new(), Compression::default());
    gz.write_all(body.as_bytes()).unwrap();
    let value = base64::engine::general_purpose::STANDARD.encode(gz.finish().unwrap());
    ReleaseSecret {
        secret_type: Some(RELEASE_SECRET_TYPE.into()),
        namespace: Some(ns.into()),
        release: Some(value.into_bytes()),
    }
}

/// The release that a Secret holds, if it holds one.
fn decoded(s: &ReleaseSecret) -> Option<Release> {
    let text = release_text(s)?;
    let v: serde_json::Value = serde_json::from_str(&text).ok()?;
    let t = |v: &serde_json::Value| v.as_str().unwrap_or_default().to_string();
    let doc = ReleaseDoc {
        name: t(&v["name"]),
        namespace: t(&v["namespace"]),
        version: v["version"].as_i64().unwrap_or_default(),
        status: t(&v["info"]["status"]),
        first_deployed: t(&v["info"]["first_deployed"]),
        last_deployed: t(&v["info"]["last_deployed"]),
        description: t(&v["info"]["description"]),
        chart_name: t(&v["chart"]["metadata"]["name"]),
        chart_version: t(&v["chart"]["metadata"]["version"]),
        app_version: t(&v["chart"]["metadata"]["appVersion"]),
        config: parse_json(&v["config"].to_string()).unwrap(),
        manifest: t(&v["manifest"]),
    };
    Some(decode_release(doc, &s.namespace))
}

fn release_row(name: &str, ns: &str, revision: i64, status: &str, updated: &str) -> Row {
    map_release(&decoded(&release_secret(name, ns, revision, status, updated)).unwrap())
}

/// The full Helm encoding chain round-trips into the columns we show.
#[test]
fn decodes_a_release() {
    let s = release_secret("traefik", "kube-system", 1, "deployed", "2026-06-28T09:30:13Z");
    let r = decoded(&s).expect("should decode");
    assert_eq!(r.name, "traefik");
    assert_eq!(r.namespace, "kube-system");
    assert_eq!(r.chart, "traefik-27.0.2", "chart reads as helm list prints it");
    assert_eq!(r.app_version, "v3.0.0");
    assert_eq!(r.revision, 1);
    assert_eq!(r.status, "deployed");
}

/// Non-Helm Secrets are not releases, and must not be decoded or shown.
#[test]
fn ignores_ordinary_secrets() {
    let s = ReleaseSecret {
        secret_type: Some("Opaque".into()),
        namespace: Some("prod".into()),
        release: None,
    };
    assert!(decoded(&s).is_none());
    let mut other = release_secret("x", "prod", 1, "deployed", "");
    other.secret_type = Some("Opaque".into());
    assert!(decoded(&other).is_none());
}

/// Garbage in the release key is skipped, not surfaced as a broken row.
#[test]
fn undecodable_release_is_skipped() {
    let value = base64::engine::general_purpose::STANDARD.decode("Ym0keUxXZDZhWEE9").unwrap();
    let s = ReleaseSecret {
        secret_type: Some(RELEASE_SECRET_TYPE.into()),
        namespace: Some("prod".into()),
        release: Some(value),
    };
    assert!(release_text(&s).is_none());
    assert!(decoded(&s).is_none());
    assert!(decoded(&s).map(|r| map_release(&r)).is_none());
}

/// A credential value is redacted by key name, and the value string never
/// appears in the output at all, not just hidden behind a placeholder.
#[test]
fn flatten_redacts_credentials() {
    let cfg = parse_json(
        r#"{
            "dbPassword": "hunter2",
            "api": { "token": "t0psecret", "url": "https://x" },
            "tls": { "key": "PRIVATE", "crt": "public-cert" },
            "clientSecret": "shh"
        }"#,
    )
    .unwrap();
    let flat = flatten_values(&cfg);
    let dumped = format!("{flat:?}");
    for leaked in ["hunter2", "t0psecret", "PRIVATE", "shh"] {
        assert!(!dumped.contains(leaked), "credential '{leaked}' must not survive flattening");
    }
    // The keys are still listed, as <redacted>, so the shape stays visible.
    let redacted: Vec<_> =
        flat.iter().filter(|(_, v)| v == "<redacted>").map(|(k, _)| k.as_str()).collect();
    assert!(redacted.contains(&"dbPassword"));
    assert!(redacted.contains(&"api.token"));
    assert!(redacted.contains(&"tls.key"));
    assert!(redacted.contains(&"clientSecret"));
    // A non-sensitive sibling under the same parent is untouched.
    assert!(flat.iter().any(|(k, v)| k == "api.url" && v == "https://x"));
    assert!(flat.iter().any(|(k, v)| k == "tls.crt" && v == "public-cert"));
}

/// Nested objects dot together, arrays index, and the output is sorted.
#[test]
fn flatten_paths_and_order() {
    let cfg = parse_json(
        r#"{
            "replicaCount": 2,
            "resources": { "limits": { "cpu": "500m" } },
            "hosts": ["a.example", "b.example"]
        }"#,
    )
    .unwrap();
    let flat = flatten_values(&cfg);
    assert_eq!(
        flat,
        vec![
            ("hosts.0".to_string(), "a.example".to_string()),
            ("hosts.1".to_string(), "b.example".to_string()),
            ("replicaCount".to_string(), "2".to_string()),
            ("resources.limits.cpu".to_string(), "500m".to_string()),
        ]
    );
}

/// No overrides → no rows; the caller renders "chart defaults" instead.
#[test]
fn flatten_empty_config_is_empty() {
    assert!(flatten_values(&parse_json("{}").unwrap()).is_empty());
    assert!(flatten_values(&Json::Null).is_empty());
}

/// Status colouring: deployed is healthy, superseded is just history, failed
/// is red, and anything pending is an operation in flight.
#[test]
fn status_tones() {
    assert_eq!(status_tone("deployed"), Tone::Good);
    assert_eq!(status_tone("superseded"), Tone::Muted);
    assert_eq!(status_tone("failed"), Tone::Bad);
    assert_eq!(status_tone("pending-upgrade"), Tone::Warn);
}

/// The headline behaviour: an upgraded release is one row, at its newest
/// revision, not one row per revision Secret.
#[test]
fn keeps_only_the_newest_revision() {
    let rows = vec![
        release_row("traefik", "kube-system", 1, "superseded", "2026-06-01T00:00:00Z"),
        release_row("traefik", "kube-system", 3, "deployed", "2026-06-03T00:00:00Z"),
        release_row("traefik", "kube-system", 2, "superseded", "2026-06-02T00:00:00Z"),
    ];
    let out = latest_only(rows);
    assert_eq!(out.len(), 1, "three revision secrets are one release");
    assert_eq!(out[0].cells[4].text, "3", "and it shows the newest revision");
    assert_eq!(out[0].cells[5].text, "deployed");
}

/// Releases in different namespaces with the same name are different releases.
#[test]
fn same_name_in_two_namespaces_stays_two_rows() {
    let rows = vec![
        release_row("redis", "prod", 1, "deployed", "2026-06-01T00:00:00Z"),
        release_row("redis", "staging", 1, "deployed", "2026-06-02T00:00:00Z"),
    ];
    assert_eq!(latest_only(rows).len(), 2);
}

/// Newest deployment first.
#[test]
fn sorts_newest_first() {
    let rows = vec![
        release_row("old", "prod", 1, "deployed", "2026-06-01T00:00:00Z"),
        release_row("new", "prod", 1, "deployed", "2026-06-09T00:00:00Z"),
    ];
    let out = latest_only(rows);
    assert_eq!(out[0].name, "new");
}

/// Revisions sort numerically, so 10 beats 9.
#[test]
fn revision_ordering_is_numeric_not_lexical() {
    let rows = vec![
        release_row("app", "prod", 9, "superseded", "2026-06-01T00:00:00Z"),
        release_row("app", "prod", 10, "deployed", "2026-06-02T00:00:00Z"),
    ];
    assert_eq!(latest_only(rows)[0].cells[4].text, "10");
}

#[test]
fn a_revision_is_found_by_its_number() {
    let all = |n: i64| {
        vec![
            decoded(&release_secret("app", "prod", 1, "superseded", "")).unwrap(),
            decoded(&release_secret("app", "prod", n, "deployed", "")).unwrap(),
        ]
    };
    assert!(helm_manifest_revision(&all(2), "app", "prod", 2).unwrap().contains("kind: Service"));
    assert!(matches!(
        helm_manifest_revision(&all(2), "app", "prod", 3),
        Err(AppError::NotFound(_))
    ));
    assert!(matches!(helm_values_revision(all(2), "app", "prod", 1), Ok(Json::Null)));
    assert!(matches!(
        helm_values_revision(all(2), "app", "prod", 9),
        Err(AppError::NotFound(_))
    ));
}

// ---- manifest redaction ----

/// A Secret rendered by a chart doesn't get to show its values here when
/// every other view redacts them.
#[test]
fn redacts_secret_values_in_the_manifest() {
    let m = "# Source: c/templates/secret.yaml\napiVersion: v1\nkind: Secret\nmetadata:\n  name: creds\ndata:\n  password: aHVudGVyMg==\n  token: c2VjcmV0\n";
    let out = redact_secret_manifests(m);
    assert!(!out.contains("aHVudGVyMg=="), "secret value must not survive");
    assert!(!out.contains("c2VjcmV0"));
    assert!(out.contains("password: <redacted>"));
    assert!(out.contains("token: <redacted>"));
    // The provenance comment is why this is line-wise rather than a YAML
    // round-trip; losing it would make the manifest much harder to read.
    assert!(out.contains("# Source: c/templates/secret.yaml"));
}

/// stringData too: same values, different key.
#[test]
fn redacts_string_data() {
    let m = "kind: Secret\nstringData:\n  password: hunter2\n";
    assert!(redact_secret_manifests(m).contains("password: <redacted>"));
}

/// Non-Secret documents are passed through untouched: a ConfigMap's data is
/// exactly what you opened the manifest to read.
#[test]
fn leaves_other_documents_alone() {
    let m = "kind: ConfigMap\ndata:\n  log_level: debug\n";
    assert!(redact_secret_manifests(m).contains("log_level: debug"));
}

/// Only the Secret document in a multi-document manifest is touched.
#[test]
fn redacts_only_the_secret_document() {
    let m = "kind: ConfigMap\ndata:\n  keep: yes\n---\nkind: Secret\ndata:\n  hide: c2VjcmV0\n";
    let out = redact_secret_manifests(m);
    assert!(out.contains("keep: yes"));
    assert!(out.contains("hide: <redacted>"));
    assert!(!out.contains("c2VjcmV0"));
}

/// "kind: Secret" nested inside a pod spec's volume doesn't make the document
/// a Secret, and must not trigger redaction of a Deployment.
#[test]
fn nested_secret_reference_is_not_a_secret_document() {
    let m = "kind: Deployment\nspec:\n  template:\n    spec:\n      volumes:\n        - secret:\n            kind: Secret\n";
    assert!(!is_secret_doc(m));
}

/// A value may run over several lines, or stand in the line of its section.
#[test]
fn values_over_several_lines_are_redacted() {
    let m = "kind: Secret\nstringData:\n  key: |\n    BEGIN\n    hunter2\n  next: two\ntype: Opaque\n";
    let out = redact_secret_manifests(m);
    assert!(!out.contains("hunter2") && !out.contains("BEGIN") && !out.contains("two"), "{out}");
    assert!(out.contains("type: Opaque"));
    let out = redact_secret_manifests("kind: Secret\ndata: {a: aHVudGVyMg==}\n");
    assert!(!out.contains("aHVudGVyMg=="), "{out}");
    let out = redact_secret_manifests("kind: Secret\ndata: {a: one,\n  b: two}\ntype: Opaque\n");
    assert_eq!(out, "kind: Secret\ndata: <redacted>\n  <redacted>\ntype: Opaque\n");
}

/// Comments without a colon stay, as do unindented ones, and none ends a section of
/// values.
#[test]
fn comments_among_values_stay() {
    let m = "kind: Secret\ndata:\n#c\n  # first\n  a: x\n  # second\n\n  b: y\n# type: none\n  c: z\ntype: Opaque\n";
    assert_eq!(
        redact_secret_manifests(m),
        "kind: Secret\ndata:\n#c\n  # first\n  a: <redacted>\n  # second\n\n  b: <redacted>\n# type: none\n  c: <redacted>\ntype: Opaque\n"
    );
    let m = "kind: Secret\nstringData:\n  run: |\n    # hunter2\n    go\n";
    assert_eq!(
        redact_secret_manifests(m),
        "kind: Secret\nstringData:\n  run: <redacted>\n    <redacted>\n    <redacted>\n"
    );
}

/// What a comment says behind a colon is hidden as a value is, at the keys or before
/// the first of them. It tells nothing of where the keys stand.
#[test]
fn commented_out_values_are_redacted() {
    let m = "kind: Secret\nstringData:\n    # password: hunter2\n  a: x\n  # token: abc:def\n  #old: y\n    # z: deep\n  b: w\n";
    assert_eq!(
        redact_secret_manifests(m),
        "kind: Secret\nstringData:\n    # password: <redacted>\n  a: <redacted>\n  # token: <redacted>\n  #old: <redacted>\n    <redacted>\n  b: <redacted>\n"
    );
    let m = "kind: Secret\n# Source: c/secret.yaml\ndata: {}\n  # note: none yet\ntype: Opaque\n";
    assert_eq!(redact_secret_manifests(m), m);
}

/// A section without values stays as it is.
#[test]
fn empty_sections_stay() {
    for line in ["data: {}", "data: { } # none", "data: null", "stringData: ~", "data:"] {
        let m = format!("kind: Secret\n{line}\ntype: Opaque\n");
        assert_eq!(redact_secret_manifests(&m), m);
    }
}

/// Quotes around a scalar and a comment behind it change nothing in what it says.
#[test]
fn quoted_and_commented_scalars_are_read() {
    for kind in ["kind: \"Secret\"", "kind: 'Secret'", "kind: Secret # note", "\"kind\":  Secret", "kind : Secret"] {
        for key in ["data:", "\"data\":", "'stringData': # values", "stringData :"] {
            let m = format!("{kind}\n{key}\n  a: x\n");
            assert!(is_secret_doc(&m), "{m}");
            assert_eq!(redact_secret_manifests(&m), format!("{kind}\n{key}\n  a: <redacted>\n"));
        }
    }
    for kind in ["kind: SecretList", "kind: Secret#note", "kind:Secret", "  kind: Secret", "# kind: Secret", "kinds: Secret"] {
        let m = format!("{kind}\ndata:\n  a: x\n");
        assert!(!is_secret_doc(&m), "{m}");
        assert_eq!(redact_secret_manifests(&m), m);
    }
}

#[test]
fn redacting_twice_is_redacting_once() {
    for m in [
        "",
        "kind: Secret\ndata:\n  a: x\n    more\n  bare\n# c\n  : y\n\n---\nkind: ConfigMap\ndata:\n  a: x\n---\nkind: Secret\nstringData: {a: b}\n  c\n",
        "kind: Secret\ndata:\n  # a: x\n  # b\n  c: y\ndata: {}\n  # d: z\n",
        "kind: Secret\r\ndata:\r\n  a: x\r\ntype: Opaque",
    ] {
        let once = redact_secret_manifests(m);
        assert_eq!(redact_secret_manifests(&once), once);
        let count = |s: &str| s.split("\n---").count();
        assert_eq!(count(&once), count(m));
    }
}

// ---------------------------------------------------------------------------
// Operations
// ---------------------------------------------------------------------------

fn install_args() -> InstallArgs {
    InstallArgs {
        release: "rel".into(),
        chart: "demo".into(),
        version: String::new(),
        namespace: "default".into(),
        kubeconfig: None,
        values: String::new(),
        dry_run: false,
        create_namespace: false,
        set: None,
        atomic: false,
        timeout_secs: None,
    }
}

/// `--keep-history` must appear only when the user asked to keep it:
/// helm's own default is to delete release history.
#[test]
fn uninstall_argv_keep_history_only_when_requested() {
    let keep = HelmOp::Uninstall(UninstallArgs {
        release: "rel".into(),
        namespace: "ns".into(),
        kubeconfig: None,
        keep_history: true,
    });
    let (_, argv) = build_argv(&keep, None);
    assert!(argv.contains(&"--keep-history".into()));

    let drop_history = HelmOp::Uninstall(UninstallArgs {
        release: "rel".into(),
        namespace: "ns".into(),
        kubeconfig: None,
        keep_history: false,
    });
    let (_, argv) = build_argv(&drop_history, None);
    assert!(!argv.contains(&"--keep-history".into()));
}

/// Inline values land in a file whose path goes on the argv.
#[test]
fn install_argv_uses_guarded_values_file() {
    let op = HelmOp::Install(InstallArgs {
        release: "rel".into(),
        chart: "ingress-nginx/ingress-nginx".into(),
        version: String::new(),
        namespace: "ns".into(),
        kubeconfig: None,
        values: "replicaCount: 2".into(),
        dry_run: false,
        create_namespace: false,
        set: None,
        atomic: false,
        timeout_secs: None,
    });
    assert_eq!(values_to_write(&op).as_deref(), Some("replicaCount: 2"));
    let (_, argv) = build_argv(&op, Some("/tmp/v.yaml"));
    assert!(argv.contains(&"--values".into()));
    assert!(argv.contains(&"/tmp/v.yaml".into()));
    assert!(!argv.iter().any(|w| w.contains("replicaCount")));
}

/// The sentinel path passes straight through without creating a file.
#[test]
fn install_argv_file_sentinel_passthrough() {
    let op = HelmOp::Install(InstallArgs {
        release: "rel".into(),
        chart: "foo/bar".into(),
        version: String::new(),
        namespace: "ns".into(),
        kubeconfig: None,
        values: "__file:/tmp/pre-written.yaml".into(),
        dry_run: false,
        create_namespace: false,
        set: None,
        atomic: false,
        timeout_secs: None,
    });
    let (_, argv) = build_argv(&op, None);
    assert!(argv.contains(&"/tmp/pre-written.yaml".into()));
    assert!(values_to_write(&op).is_none());
}

#[test]
fn argv_honors_new_flags() {
    let mut a = install_args();
    a.set = Some(vec![("replicaCount".to_string(), serde_json::Value::from(3))]);
    a.atomic = true;
    a.timeout_secs = Some(600);
    let (_label, argv) = build_argv(&HelmOp::Install(a), None);
    assert!(argv.contains(&"--set".into()));
    assert!(argv.windows(2).any(|w| w == ["--set", "replicaCount=3"]));
    assert!(argv.contains(&"--atomic".into()));
    assert!(argv.windows(2).any(|w| w == ["--timeout", "600s"]));
}

#[test]
fn argv_default_timeout_unchanged() {
    let (_label, argv) = build_argv(&HelmOp::Install(install_args()), None);
    assert!(argv.windows(2).any(|w| w == ["--timeout", "5m0s"]));
}

/// `Some(0)` is "unset", not "wait forever": `--timeout 0s` would make
/// helm block indefinitely, so it clamps to the default like `None`.
#[test]
fn argv_timeout_zero_clamps_to_default() {
    let mut a = install_args();
    a.timeout_secs = Some(0);
    let (_label, argv) = build_argv(&HelmOp::Install(a), None);
    assert!(argv.windows(2).any(|w| w == ["--timeout", "5m0s"]), "argv: {argv:?}");
    assert!(!argv.contains(&"0s".into()));
}

#[test]
fn upgrade_argvs_add_force_and_create_ns() {
    let a = UpgradeArgs {
        release: "rel".into(),
        chart: "demo".into(),
        version: String::new(),
        namespace: "default".into(),
        kubeconfig: None,
        values: String::new(),
        dry_run: false,
        reuse_values: false,
        rollback_on_failure: false,
        force: true,
        create_namespace: true,
        atomic: false,
        timeout_secs: None,
        set: None,
    };
    let (_label, argv) = build_argv(&HelmOp::Upgrade(a), None);
    assert!(argv.contains(&"--force".into()));
    assert!(argv.contains(&"--create-namespace".into()));
}

/// `helm template` argv: version/values flags appear only when asked for.
#[test]
fn template_argv_flags() {
    let argv = template_argv("repo/app", "1.2.3", Some("/tmp/v.yaml"));
    assert_eq!(argv[0], "template");
    assert!(argv.contains(&"--version".into()) && argv.contains(&"1.2.3".into()));
    assert!(argv.windows(2).any(|w| w == ["--values".to_string(), "/tmp/v.yaml".to_string()]));
    let bare = template_argv("/data/charts/demo-1.0.0", "", None);
    assert!(!bare.contains(&"--version".into()) && !bare.contains(&"--values".into()));
}

#[test]
fn a_rollback_names_its_revision_where_it_has_one() {
    let op = |revision: Option<i64>| {
        HelmOp::Rollback(RollbackArgs {
            release: "rel".into(),
            namespace: "ns".into(),
            revision,
            kubeconfig: Some("k".into()),
        })
    };
    let (label, argv) = build_argv(&op(Some(4)), None);
    assert_eq!(label, "rollback");
    assert_eq!(argv[..3], ["rollback", "rel", "4"]);
    assert!(argv.windows(2).any(|w| w == ["--namespace", "ns"]));
    let (_, argv) = build_argv(&op(None), None);
    assert!(!argv.contains(&"4".to_string()));
    assert_eq!(op_kubeconfig(&op(None)).as_deref(), Some("k"));
    assert_eq!(op_release_ns(&op(None)), ("rel".to_string(), "ns".to_string()));
    assert!(values_to_write(&op(None)).is_none());
}

#[test]
fn a_failed_operation_is_an_error_with_its_summary() {
    let op = HelmOp::Install(install_args());
    let done = op_result(&op, true, "exit status: 0", 12);
    assert_eq!((done.lines, done.summary.as_str()), (12, "install ok"));
    assert!(op_outcome(done).is_ok());
    let failed = op_result(&op, false, "exit status: 1", 3);
    assert!(matches!(
        op_outcome(failed),
        Err(AppError::Other(m)) if m == "install failed: exit status: 1"
    ));
    assert!(matches!(
        require_helm(None, HELM_MISSING),
        Err(AppError::Other(m)) if m == HELM_MISSING
    ));
    assert_eq!(require_helm(Some("/bin/helm".into()), HELM_MISSING).unwrap(), "/bin/helm");
    assert!(is_passed_on("HOME") && !is_passed_on("PATH"));
}

#[test]
fn history_is_read_from_what_helm_prints() {
    assert_eq!(history_argv("rel", "ns")[..2], ["history", "rel"]);
    let printed = r#"[{"revision":2,"updated":"u","status":"deployed","chart":"c-1","app_version":"1","description":"d"},{}]"#;
    let entries = release_history(true, printed, "").unwrap();
    assert_eq!(entries.len(), 2);
    assert_eq!(entries[0].revision, 2);
    assert_eq!(entries[0].chart, "c-1");
    assert_eq!(entries[1].revision, 0);
    assert_eq!(entries[1].status, "");
    assert!(matches!(
        release_history(false, "", "no release"),
        Err(AppError::Other(m)) if m == "helm history: no release"
    ));
    assert!(release_history(true, "{", "").unwrap_err().message().starts_with("parse helm history: "));
    assert_eq!(
        show_values_argv("repo/app", "1.2"),
        vec!["show", "values", "repo/app", "--version", "1.2"]
    );
    assert_eq!(
        render_argv("c", "", None, Some("/k")),
        vec!["template", "preview", "c", "--kubeconfig", "/k"]
    );
    assert_eq!(tool_output("helm template", true, "out", "").unwrap(), "out");
    assert!(matches!(
        tool_output("helm template", false, "", "bad"),
        Err(AppError::Other(m)) if m == "helm template: bad"
    ));
}

// ---------------------------------------------------------------------------
// Local charts
// ---------------------------------------------------------------------------

/// A `.tgz` in memory, as `helm package` produces one: a single top-level `<name>/`
/// dir containing Chart.yaml (+ extras).
fn tgz_bytes(name: &str, version: &str, extra: &[(&str, &str)]) -> Vec<u8> {
    let mut builder = tar::Builder::new(Vec::new());
    let chart_yaml =
        format!("apiVersion: v2\nname: {name}\nversion: {version}\ndescription: test chart\n");
    let mut append = |path: String, data: &[u8]| {
        let mut header = tar::Header::new_gnu();
        header.set_size(data.len() as u64);
        header.set_mode(0o644);
        header.set_cksum();
        builder.append_data(&mut header, path, data).unwrap();
    };
    append(format!("{name}/Chart.yaml"), chart_yaml.as_bytes());
    for (p, d) in extra {
        append(format!("{name}/{p}"), d.as_bytes());
    }
    let tarball = builder.into_inner().unwrap();
    let mut gz = GzEncoder::new(Vec::new(), Compression::default());
    gz.write_all(&tarball).unwrap();
    gz.finish().unwrap()
}

fn chart_meta(text: &str) -> ChartYaml {
    let v: yaml_serde::Value = yaml_serde::from_str(text).unwrap();
    let t = |key: &str| v.get(key).and_then(|x| x.as_str()).unwrap_or_default().to_string();
    ChartYaml {
        name: t("name"),
        version: t("version"),
        app_version: t("appVersion"),
        description: t("description"),
        icon: t("icon"),
    }
}

/// The entry of a file of the library, where it is a readable package.
fn tgz_entry(filename: &str, bytes: &[u8], at: i64) -> Option<LocalChartEntry> {
    if !is_archive_name(filename) {
        return None;
    }
    let meta = chart_meta(&chart_yaml_text(bytes).ok()?);
    Some(entry_from_meta(
        LocalChartKind::Tgz,
        meta,
        format!("/charts/{filename}"),
        bytes.len() as u64,
        at,
        archive_id(filename),
    ))
}

/// The entry of a directory with this `Chart.yaml`.
fn dir_entry(name: &str, chart_yaml: &str, at: i64) -> LocalChartEntry {
    entry_from_meta(
        LocalChartKind::Dir,
        chart_meta(chart_yaml),
        format!("/charts/{name}"),
        chart_yaml.len() as u64,
        at,
        name.to_string(),
    )
}

#[test]
fn scan_finds_tgz_and_dir_charts() {
    let found = vec![
        tgz_entry("demo-app-1.0.0.tgz", &tgz_bytes("demo-app", "1.0.0", &[]), 10).unwrap(),
        dir_entry("my-chart", "apiVersion: v2\nname: my-chart\nversion: 2.0.0\n", 20),
    ];
    let mut entries = scan_local_charts(found);
    assert_eq!(entries[0].name, "my-chart", "the last written comes first");
    entries.sort_by(|a, b| a.name.cmp(&b.name));
    assert_eq!(entries.len(), 2);
    assert_eq!(entries[0].name, "demo-app");
    assert_eq!(entries[0].version, "1.0.0");
    assert!(matches!(entries[0].kind, LocalChartKind::Tgz));
    assert_eq!(entries[1].name, "my-chart");
    assert!(matches!(entries[1].kind, LocalChartKind::Dir));
    assert_eq!(entries[0].modified_at, "1970-01-01T00:00:10+00:00");
}

#[test]
fn scan_skips_bad_tgz_rather_than_failing() {
    // One corrupt file must not break the whole listing.
    assert!(tgz_entry("garbage.tgz", b"not a gzip at all", 0).is_none());
    assert!(scan_local_charts(vec![]).is_empty());
}

#[test]
fn import_rejects_non_gzip_and_oversize() {
    // not gzip
    assert!(import_chart_bytes("evil.tgz", b"plain text").is_err());
    // wrong extension
    let good = tgz_bytes("demo", "1.0.0", &[]);
    assert!(import_chart_bytes("evil.exe", &good).is_err());
    assert_eq!(MAX_CHART_BYTES, 50 * 1024 * 1024);
    let mut large = vec![0u8; 50 * 1024 * 1024 + 1];
    large[0] = 0x1f;
    large[1] = 0x8b;
    assert!(matches!(
        import_chart_bytes("large.tgz", &large),
        Err(AppError::Other(m)) if m == "chart exceeds 52428800 byte limit"
    ));
    assert!(matches!(
        import_chart_bytes("..", &good),
        Err(AppError::Other(m)) if m == "invalid filename"
    ));
}

#[test]
fn import_then_scan_then_remove_roundtrip() {
    let bytes = tgz_bytes("demo", "1.0.0", &[("values.yaml", "replicaCount: 1\n")]);
    let file = import_chart_bytes("demo-1.0.0.tgz", &bytes).unwrap();
    let entry = tgz_entry(&file, &bytes, 0).unwrap();
    assert_eq!(entry.name, "demo");
    assert_eq!(scan_local_charts(vec![entry.clone()]).len(), 1);

    // traversal id must be refused
    assert!(remove_chart("/charts", "/etc").is_err());
    assert_eq!(candidate_names(&entry.id), vec!["demo-1.0.0", "demo-1.0.0.tgz", "demo-1.0.0.tar.gz"]);
    let at = removal_target(&entry.id, &vec![false, true, false]).unwrap();
    assert_eq!(at, 1);
    remove_chart("/charts", "/charts/demo-1.0.0.tgz").unwrap();
    assert!(matches!(
        removal_target(&entry.id, &vec![false, false, false]),
        Err(AppError::NotFound(_))
    ));
}

#[test]
fn detail_lists_files_and_reads_values() {
    let bytes = tgz_bytes(
        "demo",
        "1.0.0",
        &[
            ("values.yaml", "replicaCount: 2\n"),
            ("templates/deploy.yaml", "apiVersion: apps/v1\n"),
        ],
    );
    let file = import_chart_bytes("demo-1.0.0.tgz", &bytes).unwrap();
    let listing = scan_local_charts(vec![tgz_entry(&file, &bytes, 0).unwrap()]);
    let entry = resolve(listing, "demo-1.0.0").unwrap();

    let d = package_detail(entry, &bytes).unwrap();
    assert_eq!(d.entry.name, "demo");
    assert_eq!(d.values_yaml, "replicaCount: 2\n");
    assert!(d.chart_yaml.contains("name: demo"));
    assert_eq!(d.readme, "");
    assert!(d.files.iter().any(|f| f.path.ends_with("templates/deploy.yaml")));

    // inner file read, and traversal refusal
    let tpl = read_member(&bytes, safe_inner_path("templates/deploy.yaml").unwrap()).unwrap();
    assert!(tpl.contains("apps/v1"));
    assert!(safe_inner_path("../../../etc/passwd").is_err());
    assert!(read_member(&bytes, "nope.yaml").is_err());
}

#[test]
fn dir_chart_detail_and_traversal_refusal() {
    let files = sort_files(vec![
        dir_file("", "values.yaml", 16, false),
        dir_file("", "templates", 0, true),
        dir_file("templates", "deploy.yaml", 20, false),
        dir_file("", "Chart.yaml", 47, false),
    ]);
    assert!(files.iter().any(|f| f.path == "templates/deploy.yaml" && !f.is_dir));
    assert!(files.iter().any(|f| f.path == "templates" && f.is_dir));
    assert_eq!(files[0].path, "Chart.yaml");

    // absolute and `..` members are refused before any join
    assert!(safe_inner_path("/etc/passwd").is_err());
    assert!(safe_inner_path("../../../etc/passwd").is_err());
    assert!(safe_inner_path("templates/deploy.yaml").is_ok());
    // a `..`-free member that is a symlink out of the chart dir must
    // still be refused once its links are resolved.
    assert!(confine("/charts/my-chart", "/etc/passwd").is_err());
    assert!(confine("/charts/my-chart", "/charts/my-chart-2/x").is_err());
    assert!(confine("/charts/my-chart", "/charts/my-chart/templates/deploy.yaml").is_ok());
}

/// `helm lint <path>` / `helm verify <path>`, no flags, nothing else.
#[test]
fn lint_and_verify_argv_are_exact() {
    let p = "/data/charts/demo-1.0.0.tgz";
    assert_eq!(
        lint_argv(p),
        vec!["lint".to_string(), "/data/charts/demo-1.0.0.tgz".to_string()]
    );
    assert_eq!(
        verify_argv(p),
        vec!["verify".to_string(), "/data/charts/demo-1.0.0.tgz".to_string()]
    );
}

/// `helm verify` inspects a packaged archive's provenance: there is
/// nothing to verify on an unpacked dir chart, so the request is
/// refused *before* any helm invocation.
#[test]
fn verify_chart_refuses_dir_charts() {
    let listing =
        vec![dir_entry("my-chart", "apiVersion: v2\nname: my-chart\nversion: 1.0.0\n", 0)];
    let err = verify_chart(listing, "my-chart").unwrap_err();
    assert!(
        err.message().contains("requires a packaged chart"),
        "unexpected error: {}",
        err.message()
    );
}

/// Both commands resolve ids through the scan listing: an unknown id is
/// a NotFound, again before any helm invocation.
#[test]
fn lint_and_verify_unknown_id_is_not_found() {
    assert!(matches!(lint_chart(vec![], "nope").unwrap_err(), AppError::NotFound(_)));
    assert!(matches!(verify_chart(vec![], "nope").unwrap_err(), AppError::NotFound(_)));
}

/// `helm package <dir> --destination <root>` and
/// `helm dependency <list|build|update> <path>`: exact positional argv.
#[test]
fn package_and_deps_argv_are_exact() {
    let dir = "/data/charts/my-chart";
    let dest = "/data/charts";
    assert_eq!(
        package_argv(dir, dest),
        vec![
            "package".to_string(),
            "/data/charts/my-chart".to_string(),
            "--destination".to_string(),
            "/data/charts".to_string(),
        ]
    );
    let p = "/data/charts/demo-1.0.0.tgz";
    assert_eq!(
        deps_argv(p, DepsAction::List),
        vec![
            "dependency".to_string(),
            "list".to_string(),
            "/data/charts/demo-1.0.0.tgz".to_string()
        ]
    );
    assert_eq!(
        deps_argv(p, DepsAction::Build),
        vec![
            "dependency".to_string(),
            "build".to_string(),
            "/data/charts/demo-1.0.0.tgz".to_string()
        ]
    );
    assert_eq!(
        deps_argv(p, DepsAction::Update),
        vec![
            "dependency".to_string(),
            "update".to_string(),
            "/data/charts/demo-1.0.0.tgz".to_string()
        ]
    );
}

/// The wire form of a deps action is the bare lowercase verb: the
/// frontend sends `"build"`, not `"Build"`. An unknown verb must be
/// rejected, not silently mapped to some default.
#[test]
fn deps_action_serde_roundtrip_is_lowercase() {
    for (wire, expected) in
        [("list", DepsAction::List), ("build", DepsAction::Build), ("update", DepsAction::Update)]
    {
        let parsed = DepsAction::from_verb(wire).unwrap_or_else(|| panic!("{wire} must be read"));
        assert_eq!(parsed, expected);
        assert_eq!(parsed.verb(), wire);
    }
    assert!(DepsAction::from_verb("frobnicate").is_none());
    assert!(DepsAction::from_verb("Build").is_none());
    assert!(!DepsAction::List.writes() && DepsAction::Build.writes() && DepsAction::Update.writes());
}

/// `helm package` packages an unpacked dir; a `.tgz` is already the
/// finished artefact, so the request is refused *before* any helm
/// invocation.
#[test]
fn package_chart_refuses_already_packaged() {
    let bytes = tgz_bytes("demo", "1.0.0", &[]);
    let file = import_chart_bytes("demo-1.0.0.tgz", &bytes).unwrap();
    let entry = tgz_entry(&file, &bytes, 0).unwrap();
    let id = entry.id.clone();
    let err = package_chart(vec![entry], "/charts", &id).unwrap_err();
    assert!(
        err.message().contains("already packaged"),
        "unexpected error: {}",
        err.message()
    );
}

/// Both commands resolve ids through the scan listing: an unknown id is
/// a NotFound, again before any helm invocation.
#[test]
fn package_and_deps_unknown_id_is_not_found() {
    assert!(matches!(package_chart(vec![], "/charts", "nope").unwrap_err(), AppError::NotFound(_)));
    assert!(matches!(
        chart_deps(vec![], "nope", DepsAction::List).unwrap_err(),
        AppError::NotFound(_)
    ));
}

#[test]
fn a_packaged_directory_is_found_in_the_new_listing() {
    let dir = dir_entry("demo", "apiVersion: v2\nname: demo\nversion: 1.0.0\n", 0);
    let (name, argv) = package_chart(vec![dir.clone()], "/charts", "demo").unwrap();
    assert_eq!(name, "demo");
    assert_eq!(argv, vec!["package", "/charts/demo", "--destination", "/charts"]);
    let made = tgz_entry("demo-1.0.0.tgz", &tgz_bytes("demo", "1.0.0", &[]), 5).unwrap();
    let listing = scan_local_charts(vec![dir.clone(), made]);
    assert_eq!(packaged_chart(listing, "demo").unwrap().id, "demo-1.0.0");
    assert!(packaged_chart(vec![dir], "demo")
        .unwrap_err()
        .message()
        .contains("no readable archive for `demo`"));
}

#[test]
fn import_tar_gz_roundtrips_through_scan() {
    // Same bytes as .tgz: only the accepted filename differs. Import
    // accepting .tar.gz while scan ignores it would make the chart
    // silently vanish from the listing.
    let bytes = tgz_bytes("demo", "2.0.0", &[]);
    let file = import_chart_bytes("demo-2.0.0.tar.gz", &bytes).unwrap();
    let entry = tgz_entry(&file, &bytes, 0).unwrap();
    assert_eq!(entry.name, "demo");
    assert_eq!(entry.id, "demo-2.0.0");
    assert_eq!(scan_local_charts(vec![entry.clone()]).len(), 1);
    assert_eq!(removal_target(&entry.id, &vec![false, false, true]).unwrap(), 2);
    remove_chart("/charts", "/charts/demo-2.0.0.tar.gz").unwrap();
}

/// The library root: exactly `<data_dir>/charts`.
#[test]
fn charts_dir_joins_charts_under_data_dir() {
    assert_eq!(charts_dir("/home/u/.k7s"), "/home/u/.k7s/charts");
}

// ---------------------------------------------------------------------------
// Chart repositories
// ---------------------------------------------------------------------------

fn version(name: &str, version: &str, description: &str) -> ChartVersion {
    ChartVersion {
        name: name.into(),
        version: version.into(),
        app_version: "1".into(),
        description: description.into(),
        home: String::new(),
        keywords: vec!["web".into()],
        maintainers: vec![],
        urls: vec!["u".into()],
        created: "c".into(),
        annotations: vec![],
    }
}

fn index(entries: Vec<(&str, Vec<ChartVersion>)>) -> HelmIndex {
    HelmIndex {
        api_version: "v1".into(),
        generated: String::new(),
        entries: entries.into_iter().map(|(n, v)| (n.to_string(), v)).collect(),
    }
}

#[test]
fn repositories_are_seeded_once_and_keep_different_names() {
    let mut repos: Vec<HelmRepo> = vec![];
    assert!(seed_default_repos(&mut repos));
    assert_eq!(repos.len(), seed_repos().len());
    assert!(!seed_default_repos(&mut repos));
    assert_eq!(repos.len(), 2);
    let added = add_repo(&mut repos, " mine ", "https://charts.example/ ", "d").unwrap();
    assert_eq!(added.name, "mine");
    assert!(add_repo(&mut repos, "MINE", "https://other.example", "d").is_err());
    assert!(add_repo(&mut repos, "", "https://other.example", "d").is_err());
    assert!(add_repo(&mut repos, "x", "", "d").is_err());
    assert_eq!(repos.len(), 3);
    assert_eq!(repo_url(&repos, "mine").unwrap(), added.url);
    assert!(matches!(repo_url(&repos, "other"), Err(AppError::NotFound(_))));
    let names: Vec<String> = list_repos(repos.clone()).into_iter().map(|r| r.name).collect();
    assert_eq!(names, ["bitnami", "mine", "stable"]);
    assert!(remove_repo(&mut repos, "mine"));
    assert!(!remove_repo(&mut repos, "mine"));
}

#[test]
fn an_index_is_asked_for_beside_the_repository() {
    assert_eq!(index_url("https://x/charts/").unwrap(), "https://x/charts/index.yaml");
    assert_eq!(index_url("https://x/index.yaml").unwrap(), "https://x/index.yaml");
    assert!(matches!(
        index_url("oci://x/charts"),
        Err(AppError::Other(m)) if m == OCI_HAS_NO_INDEX
    ));
    assert!(index_served("https://x", true, "200 OK").is_ok());
    assert!(index_served("https://x", false, "404 Not Found").is_err());
    assert!(index_is_fresh(Some((INDEX_TTL - 1, 999_999_999))));
    assert!(index_is_fresh(Some((INDEX_TTL, 0))));
    assert!(!index_is_fresh(Some((INDEX_TTL, 1))));
    assert!(index_is_fresh(None), "a clock that was set back makes nothing stale");
    assert_eq!(
        config_dir(Platform::Linux, None, Some("/home/u")).as_deref(),
        Some("/home/u/.config/k7s")
    );
    assert_eq!(config_dir(Platform::Linux, Some("/x"), Some("/home/u")).as_deref(), Some("/x/k7s"));
    assert_eq!(config_dir(Platform::Unknown, Some("/x"), Some("/home/u")), None);
    assert_eq!(repos_path(Some("/c")).unwrap(), "/c/helm-repos.json");
    assert!(repos_path(None).is_err());
    assert!(index_path(None, "r").is_err());
    assert_eq!(index_path(Some("/c"), "r").unwrap(), "/c/r.yaml");
}

#[test]
fn a_refresh_and_a_failure_are_noted() {
    let mut repos = seed_repos();
    let done = record_refresh(&mut repos, "bitnami", "2026-01-01T00:00:00Z").unwrap();
    assert_eq!(done.last_refreshed.as_deref(), Some("2026-01-01T00:00:00Z"));
    assert_eq!(done.last_error, None);
    assert!(matches!(record_refresh(&mut repos, "gone", "now"), Err(AppError::NotFound(_))));
    let e = record_failure(&mut repos, "stable", AppError::Other("no route".into()));
    assert_eq!(e.message(), "repo 'stable': no route");
    let all = update_all_indexes(&repos, &vec!["bitnami".into(), "stable".into()]);
    assert_eq!(all.len(), 2);
    assert_eq!(all[1].last_error.as_deref(), Some("no route"));
}

#[test]
fn charts_are_searched_in_every_index() {
    let indexes = vec![
        (
            "a".to_string(),
            index(vec![
                ("nginx", vec![version("nginx", "2.0.0", "a server"), version("nginx", "1.0.0", "")]),
                ("redis", vec![version("redis", "1.5.0", "a cache")]),
            ]),
        ),
        ("b".to_string(), index(vec![("nginx", vec![version("nginx", "3.0.0", "a server")])])),
    ];
    let found = search_charts(&indexes, "NGINX");
    let got: Vec<(&str, &str)> =
        found.iter().map(|c| (c.repo.as_str(), c.version.as_str())).collect();
    assert_eq!(got, [("b", "3.0.0"), ("a", "2.0.0")]);
    assert_eq!(search_charts(&indexes, "").len(), 3);
    assert!(search_charts(&indexes, "postgres").is_empty());
}

#[test]
fn versions_of_a_chart_come_from_its_index() {
    let repos = seed_repos();
    let idx = index(vec![("nginx", vec![version("nginx", "2.0.0", ""), version("nginx", "1.0.0", "")])]);
    let all = chart_versions(&repos, Some(&idx), "stable", "nginx").unwrap();
    assert_eq!(all.len(), 2);
    assert_eq!(all[0].version, "2.0.0");
    assert!(matches!(
        chart_versions(&repos, Some(&idx), "other", "nginx"),
        Err(AppError::NotFound(_))
    ));
    assert!(matches!(
        chart_versions(&repos, Some(&idx), "stable", "redis"),
        Err(AppError::NotFound(m)) if m == "chart 'redis' not in repo 'stable'"
    ));
    assert!(matches!(
        chart_versions(&repos, None, "stable", "nginx"),
        Err(AppError::Other(m)) if m.contains("stale or missing")
    ));
    assert_eq!(
        export_chart("nginx", "2.0.0", "/out", true, "").unwrap(),
        "/out/nginx-2.0.0.tgz"
    );
    assert!(matches!(
        export_chart("nginx", "2.0.0", "/out", false, "denied"),
        Err(AppError::Other(m)) if m == "helm pull failed: denied"
    ));
    assert_eq!(pull_argv("stable", "nginx", "2.0.0", "/out")[..2], ["pull", "stable/nginx"]);
}

// ---------------------------------------------------------------------------
// Profiles
// ---------------------------------------------------------------------------

/// A fully-populated profile exercising every field, including the
/// set map and the optional timeout.
fn full_profile(name: &str, created_at: &str) -> HelmProfile {
    HelmProfile {
        name: name.into(),
        chart_ref: "bitnami/nginx".into(),
        version: "15.4.0".into(),
        namespace: "web".into(),
        values: "replicaCount: 1\n".into(),
        set: Some(vec![
            ("replicaCount".into(), serde_json::Value::from(3)),
            ("image.tag".into(), serde_json::Value::from("v2.1.0")),
            ("ingress.hosts".into(), serde_json::Value::from(vec!["a.example", "b.example"])),
        ]),
        atomic: true,
        force: false,
        create_namespace: true,
        timeout_secs: Some(300),
        created_at: created_at.into(),
    }
}

fn assert_same(a: &HelmProfile, b: &HelmProfile) {
    assert_eq!(format!("{a:?}"), format!("{b:?}"));
}

/// A fresh data dir has no profiles yet, and that's not an error.
#[test]
fn missing_file_loads_empty() {
    assert!(load_profiles(None).is_empty());
    assert!(profiles_path("/data").ends_with("helm-profiles.json"));
}

/// What cannot be read counts as empty, and the next save recovers it.
#[test]
fn corrupt_file_loads_empty_and_save_recovers() {
    let stored = serde_json::from_str::<serde_json::Value>("{not json at all");
    assert!(stored.is_err());
    let profiles = load_profiles(None);
    assert!(profiles.is_empty());

    let out = save_profile(profiles, full_profile("recovered", "2026-01-01T00:00:00Z")).unwrap();
    assert_eq!(out.len(), 1);
    assert_same(&out[0], &full_profile("recovered", "2026-01-01T00:00:00Z"));
    let loaded = load_profiles(Some(out));
    assert_same(&loaded[0], &full_profile("recovered", "2026-01-01T00:00:00Z"));
}

/// Saving over an existing name replaces it (one entry left) and keeps
/// the original `created_at`: the profile's birthday is when it was
/// first saved, not last edited.
#[test]
fn upsert_overwrites_and_preserves_created_at() {
    let v1 = full_profile("prod", "2026-01-01T00:00:00Z");
    let stored = save_profile(vec![], v1).unwrap();

    let mut v2 = full_profile("prod", "2026-08-28T00:00:00Z");
    v2.chart_ref = "bitnami/nginx".to_string();
    v2.version = String::new(); // latest
    v2.timeout_secs = None;
    let out = save_profile(stored, v2).unwrap();

    assert_eq!(out.len(), 1, "same name upserts, not appends");
    assert_eq!(out[0].version, "", "the edit took");
    assert_eq!(
        out[0].created_at, "2026-01-01T00:00:00Z",
        "original created_at survives an overwrite"
    );
}

/// Different names append; the returned (and stored) list is sorted
/// by name regardless of save order.
#[test]
fn save_appends_and_sorts_by_name() {
    let stored = save_profile(vec![], full_profile("zed", "2026-01-03T00:00:00Z")).unwrap();
    let stored = save_profile(stored, full_profile("alpha", "2026-01-01T00:00:00Z")).unwrap();
    let stored = save_profile(stored, full_profile("mid", "2026-01-02T00:00:00Z")).unwrap();

    let names: Vec<_> = load_profiles(Some(stored)).iter().map(|p| p.name.clone()).collect();
    assert_eq!(names, vec!["alpha", "mid", "zed"]);
}

/// Saving validates the name before anything is stored.
#[test]
fn save_rejects_invalid_name() {
    let p = full_profile("bad name!", "2026-01-01T00:00:00Z");
    assert!(save_profile(vec![], p).is_err());

    let mut p = full_profile("x", "2026-01-01T00:00:00Z");
    p.name = String::new();
    assert!(save_profile(vec![], p).is_err());
}

/// Deleting a missing profile is a NotFound, not a silent success.
#[test]
fn delete_missing_is_not_found() {
    let err = delete_profile(vec![], "ghost").unwrap_err();
    assert!(matches!(err, AppError::NotFound(_)), "got: {err:?}");
}

/// Delete removes exactly the named profile and returns the rest.
#[test]
fn delete_removes_named_and_returns_rest() {
    let mut stored = vec![];
    for n in ["alpha", "mid", "zed"] {
        stored = save_profile(stored, full_profile(n, "2026-01-01T00:00:00Z")).unwrap();
    }
    let out = delete_profile(stored, "mid").unwrap();
    let names: Vec<_> = out.iter().map(|p| p.name.as_str()).collect();
    assert_eq!(names, vec!["alpha", "zed"]);
    assert_eq!(load_profiles(Some(out)).len(), 2);
}

/// Every field survives a save → load round-trip, including the set
/// map (keys untouched: `image.tag` must not become `imageTag`) and
/// the optional timeout.
#[test]
fn round_trip_preserves_all_fields() {
    let stored = save_profile(vec![], full_profile("full", "2026-03-04T05:06:07Z")).unwrap();

    let loaded = load_profiles(Some(stored));
    assert_eq!(loaded.len(), 1);
    assert_same(&loaded[0], &full_profile("full", "2026-03-04T05:06:07Z"));

    let set = loaded[0].set.as_ref().unwrap();
    let value = |key: &str| set.iter().find(|e| e.0 == key).map(|e| e.1.clone());
    assert_eq!(value("image.tag"), Some(serde_json::Value::from("v2.1.0")));
    assert_eq!(value("replicaCount"), Some(serde_json::Value::from(3)));
    assert_eq!(loaded[0].timeout_secs, Some(300));
}

#[test]
fn name_validation_boundaries() {
    assert!(validate_profile_name("").is_err(), "empty refused");
    assert!(validate_profile_name("   ").is_err(), "blank refused");
    let max = "a".repeat(64);
    assert!(validate_profile_name(&max).is_ok(), "64 chars allowed");
    let over = "a".repeat(65);
    assert!(validate_profile_name(&over).is_err(), "65 chars refused");
    assert!(validate_profile_name("a b").is_err(), "space refused");
    assert!(validate_profile_name("a/b").is_err(), "slash refused");
    assert!(validate_profile_name("a.b").is_err(), "dot refused");
    assert!(validate_profile_name("配置").is_err(), "non-ascii refused");
    assert!(validate_profile_name("Prod-Web_2").is_ok());
}

/// Concurrent operations must not share a file: their random parts are distinct.
#[test]
fn temp_files_for_concurrent_ops_are_distinct() {
    let a = fresh_temp_name("kc", "yaml");
    let b = fresh_temp_name("kc", "yaml");
    assert_ne!(a, b);
}

#[test]
fn a_temp_name_shows_what_the_file_is_for() {
    assert_eq!(temp_name("values", "u", "yaml"), "values-u.yaml");
    let name = fresh_temp_name("kc", "yaml");
    assert!(name.starts_with("kc-") && name.ends_with(".yaml"));
    assert_eq!(name.len(), 3 + 36 + 5);
    assert_eq!(name.as_bytes()[3 + 14], b'4');
}
