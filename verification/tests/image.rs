//! Images on nodes, in registries and in archives.
use base64::Engine;
use k7s_kube::error::AppError;
use k7s_kube::image::archive::{archive_transport, inspect_archive, inspect_argv};
use k7s_kube::image::export::{
    begin_export, begin_list, export_command, export_outcome, finish_export, finish_list,
    list_command, parse_listed_images, validate_save_path, ExportStart,
};
use k7s_kube::image::import::{
    begin_import, detect_runtime, finish_import, load_command, load_outcome, parse_loaded_images,
    sanitize_for_name, ImportStart,
};
use k7s_kube::image::repo::{
    after_answer, catalog_status, catalog_url, list_registries, manifest, manifest_url,
    next_link_value, next_page, page_status, parse_bearer, probe_result, remove_registry,
    resolve_next, tags_url, token_of, token_url, upsert_registry, urlencode, AuthStep,
    ImageRegistry, RegistryFile, MAX_PAGES, PAGINATION_LIMIT,
};
use k7s_kube::image::scan::{build_image_ref, check_scanners};
use k7s_kube::image::sync::{
    authfile_body, build_argv, build_export_argv, copy_outcome, copy_timed_out, dest_reference,
    docker_transport_host, finish_copy, plan_copy, plan_export, registry_host, require_skopeo,
    skopeo_availability, AuthCreds,
};
use k7s_kube::lists::TextMap;

// ---------------------------------------------------------------------------
// Images exported from nodes
// ---------------------------------------------------------------------------

#[test]
fn export_command_containerd() {
    let argv = export_command("containerd", "nginx:1.25").unwrap();
    let cmd = argv.join(" ");
    assert!(cmd.contains("ctr --address /run/containerd/containerd.sock"));
    assert!(cmd.contains("images export"));
    assert!(cmd.contains("nginx:1.25"));
    assert_eq!(argv[0], "nsenter");
    // image_ref must be a discrete argv element (no /bin/sh -c wrapper),
    // so it cannot break out into a separate command.
    assert!(!argv.iter().any(|a| a == "/bin/sh" || a == "-c"));
    assert_eq!(argv.last().unwrap(), "nginx:1.25");
}

#[test]
fn export_command_docker() {
    let argv = export_command("docker", "nginx:1.25").unwrap();
    let cmd = argv.join(" ");
    assert!(cmd.contains("docker save"));
    assert!(cmd.contains("nginx:1.25"));
    assert_eq!(argv[0], "nsenter");
    assert!(!argv.iter().any(|a| a == "/bin/sh" || a == "-c"));
    assert_eq!(argv.last().unwrap(), "nginx:1.25");
}

#[test]
fn export_command_unknown_runtime_errors() {
    assert!(export_command("cri-o", "nginx:1.25").is_err());
}

#[test]
fn export_command_rejects_shell_metacharacters() {
    // A ref containing shell metacharacters must be rejected before it
    // ever reaches the runtime: defense in depth against command
    // injection, even though image_ref is now a discrete argv element.
    for evil in [
        "nginx; id",
        "nginx && cat /etc/shadow",
        "nginx`id`",
        "nginx$(id)",
        "nginx|sh",
    ] {
        assert!(
            export_command("containerd", evil).is_err(),
            "expected '{evil}' to be rejected"
        );
        assert!(
            export_command("docker", evil).is_err(),
            "expected '{evil}' to be rejected"
        );
    }
}

#[test]
fn export_command_allows_digest_refs() {
    // @sha256:… digest refs are legitimate and must pass validation.
    let argv = export_command(
        "containerd",
        "registry.example.com/library/nginx@sha256:abcdef1234567890",
    )
    .unwrap();
    assert_eq!(
        argv.last().unwrap(),
        "registry.example.com/library/nginx@sha256:abcdef1234567890"
    );
}

#[test]
fn validate_save_path_accepts_normal_absolute() {
    assert!(validate_save_path("/home/user/exports/nginx.tar").is_ok());
    assert!(validate_save_path("/tmp/img.tar").is_ok());
    assert!(validate_save_path("/Users/me/Downloads/img.tar").is_ok());
}

#[test]
fn validate_save_path_rejects_traversal_and_relative() {
    assert!(validate_save_path("").is_err());
    assert!(validate_save_path("relative/img.tar").is_err());
    assert!(validate_save_path("/home/../etc/passwd").is_err());
    assert!(validate_save_path("/home/./x/../y/img.tar").is_err());
}

#[test]
fn validate_save_path_rejects_system_dirs() {
    assert!(validate_save_path("/etc/x/img.tar").is_err());
    assert!(validate_save_path("/usr/local/img.tar").is_err());
    assert!(validate_save_path("/bin/img.tar").is_err());
    assert!(validate_save_path("/boot/img.tar").is_err());
}

#[test]
fn list_command_unknown_runtime_errors() {
    assert!(list_command("cri-o").is_err());
}

#[test]
fn parse_docker_images_list() {
    let output = r#"{"Repository":"nginx","Tag":"1.25","ID":"sha256:abc123","Size":"12345678"}
{"Repository":"busybox","Tag":"latest","ID":"sha256:def456","Size":"1234567"}"#;
    let images = parse_listed_images(output, "docker");
    assert_eq!(images, vec!["nginx:1.25", "busybox:latest"]);
}

#[test]
fn parse_containerd_images_list() {
    // `ctr images list -q` outputs bare refs, one per line.
    let output = "docker.io/library/nginx:1.25\ndocker.io/library/busybox:latest\n";
    let images = parse_listed_images(output, "containerd");
    assert_eq!(
        images,
        vec![
            "docker.io/library/nginx:1.25",
            "docker.io/library/busybox:latest"
        ]
    );
}

// ---------------------------------------------------------------------------
// Images loaded onto nodes
// ---------------------------------------------------------------------------

// ---- detect_runtime ----

#[test]
fn detect_containerd() {
    assert_eq!(detect_runtime("containerd://1.7.22").unwrap(), "containerd");
}

#[test]
fn detect_docker() {
    assert_eq!(detect_runtime("docker://20.10.24").unwrap(), "docker");
}

#[test]
fn detect_trims_whitespace() {
    assert_eq!(
        detect_runtime("  containerd://1.6  ").unwrap(),
        "containerd"
    );
}

#[test]
fn detect_crio_is_unsupported() {
    let err = detect_runtime("cri-o://1.29.0").unwrap_err();
    assert!(err.message().contains("unsupported"));
}

#[test]
fn detect_empty_is_unsupported() {
    assert!(detect_runtime("").is_err());
}

// ---- load_command ----

#[test]
fn load_command_containerd_uses_ctr_and_nsenter() {
    let argv = load_command("containerd").unwrap();
    // nsenter prefix mirrors the node-shell exactly.
    assert_eq!(argv[0], "nsenter");
    assert_eq!(argv[1], "--target");
    assert_eq!(argv[2], "1");
    let cmd = argv.join(" ");
    assert!(cmd.contains("ctr --address /run/containerd/containerd.sock"));
    assert!(cmd.contains("images import --no-unpack -"));
}

#[test]
fn load_command_docker_uses_docker_load() {
    let argv = load_command("docker").unwrap();
    let cmd = argv.join(" ");
    assert!(cmd.contains("docker load"));
}

#[test]
fn load_command_unknown_runtime_errors() {
    assert!(load_command("cri-o").is_err());
}

// ---- parse_loaded_images ----

#[test]
fn parse_docker_loaded_image_lines() {
    let out = "Loaded image: nginx:1.25\nLoaded image: busybox:latest\n";
    let imgs = parse_loaded_images(out);
    assert_eq!(imgs, vec!["nginx:1.25", "busybox:latest"]);
}

#[test]
fn parse_docker_loaded_image_id() {
    let out = "Loaded image ID: sha256:abc123def456\n";
    let imgs = parse_loaded_images(out);
    assert_eq!(imgs, vec!["sha256:abc123def456"]);
}

#[test]
fn parse_containerd_bare_refs() {
    let out = "docker.io/library/nginx:1.25\ndocker.io/library/busybox:latest\n";
    let imgs = parse_loaded_images(out);
    assert_eq!(
        imgs,
        vec![
            "docker.io/library/nginx:1.25",
            "docker.io/library/busybox:latest"
        ]
    );
}

#[test]
fn parse_filters_progress_noise() {
    let out = "\
unpacking sha256:abc (7.3MB)…
elapsed: 2.3s
done. | eff40ce |
docker.io/library/nginx:1.25";
    let imgs = parse_loaded_images(out);
    // Only the bare ref survives; the unpacking/elapsed/done lines are noise.
    assert_eq!(imgs, vec!["docker.io/library/nginx:1.25"]);
}

#[test]
fn parse_dedups_repeated_refs() {
    let out = "docker.io/library/nginx:1.25\ndocker.io/library/nginx:1.25\n";
    let imgs = parse_loaded_images(out);
    assert_eq!(imgs, vec!["docker.io/library/nginx:1.25"]);
}

#[test]
fn parse_empty_output() {
    assert!(parse_loaded_images("").is_empty());
}

#[test]
fn parse_keeps_digest_refs() {
    let out = "nginx@sha256:abcdef0123456789\n";
    let imgs = parse_loaded_images(out);
    assert_eq!(imgs, vec!["nginx@sha256:abcdef0123456789"]);
}

#[test]
fn an_image_is_listed_once_however_often_it_was_loaded() {
    let out = "docker.io/library/a:1\nelapsed: 2.3s\ndocker.io/library/b:1\ndocker.io/library/a:1\n";
    assert_eq!(parse_loaded_images(out), vec!["docker.io/library/a:1", "docker.io/library/b:1"]);
}

// ---- sanitize_for_name ----

#[test]
fn sanitize_replaces_dots_and_uppercase() {
    assert_eq!(
        sanitize_for_name("Host.DC1.Example.COM"),
        "host-dc1-example-com"
    );
}

#[test]
fn sanitize_trims_leading_trailing_dashes() {
    assert_eq!(sanitize_for_name("---node-1---"), "node-1");
}

// ---------------------------------------------------------------------------
// Registries
// ---------------------------------------------------------------------------

#[test]
fn parses_bearer_challenge() {
    let s =
        r#"Bearer realm="https://r.example/token", service="r", scope="repository:foo:pull""#;
    let c = parse_bearer(s).unwrap();
    assert_eq!(c.realm, "https://r.example/token");
    assert_eq!(c.service, "r");
    assert_eq!(c.scope, "repository:foo:pull");
}

#[test]
fn urlencodes_scope() {
    assert_eq!(
        urlencode("repository:foo/bar:pull"),
        "repository%3Afoo%2Fbar%3Apull"
    );
}

#[test]
fn bearer_challenge_without_realm_returns_none() {
    assert!(parse_bearer("Basic realm=\"x\"").is_none());
}

#[test]
fn bearer_challenge_picks_first_value_of_each_key() {
    // Multiple `realm=` keys aren't a thing, but verifying we
    // overwrite sanely is cheap.
    let s = r#"Bearer realm="https://r/", realm="https://r2/", service="s""#;
    let c = parse_bearer(s).unwrap();
    assert_eq!(c.realm, "https://r2/");
    assert_eq!(c.service, "s");
}

#[test]
fn urlencode_passes_through_safe_chars() {
    assert_eq!(urlencode("a-b_c.d~e"), "a-b_c.d~e");
}

#[test]
fn next_link_value_finds_rel_next() {
    // The distribution-style header: relative URL, quoted rel.
    assert_eq!(
        next_link_value(r#"</v2/_catalog?last=foo&n=100>; rel="next""#),
        Some("/v2/_catalog?last=foo&n=100".into())
    );
    // Absolute URL, unquoted rel.
    assert_eq!(
        next_link_value(r#"<https://reg.io/v2/x/tags/list?last=a>; rel=next"#),
        Some("https://reg.io/v2/x/tags/list?last=a".into())
    );
}

#[test]
fn next_link_value_ignores_other_relations() {
    assert_eq!(next_link_value(r#"</v2/_catalog>; rel="first""#), None);
    // Multiple relations: only the `next` one is picked.
    assert_eq!(
        next_link_value(
            r#"</v2/_catalog?cursor=1>; rel="first", </v2/_catalog?cursor=2>; rel="next""#
        ),
        Some("/v2/_catalog?cursor=2".into())
    );
    assert_eq!(next_link_value(""), None);
}

#[test]
fn resolve_next_joins_relative_targets() {
    // Path+query form (distribution): joined onto the registry base.
    assert_eq!(
        resolve_next("https://reg.local", "/v2/_catalog?last=foo"),
        "https://reg.local/v2/_catalog?last=foo"
    );
    // Absolute URLs pass through untouched.
    assert_eq!(
        resolve_next("https://reg.local", "https://other.io/v2/_catalog?n=1"),
        "https://other.io/v2/_catalog?n=1"
    );
}

// ---------------------------------------------------------------------------
// References of images
// ---------------------------------------------------------------------------

#[test]
fn build_image_ref_joins_host_repo_tag() {
    assert_eq!(
        build_image_ref("https://harbor.example.com", "library/nginx", "1.25"),
        "docker://harbor.example.com/library/nginx:1.25"
    );
}

#[test]
fn build_image_ref_omits_colon_when_tag_empty() {
    assert_eq!(
        build_image_ref("https://reg.local", "app", ""),
        "docker://reg.local/app"
    );
}

#[test]
fn build_image_ref_dedupes_leading_slash_in_repo() {
    assert_eq!(
        build_image_ref("http://reg.local:5000", "/library/nginx", "v1"),
        "docker://reg.local:5000/library/nginx:v1"
    );
}

#[test]
fn build_image_ref_strips_scheme_and_trailing_slash() {
    assert_eq!(
        build_image_ref("https://reg.local/", "myapp", "latest"),
        "docker://reg.local/myapp:latest"
    );
    assert_eq!(
        build_image_ref("http://reg.local:5000/", "myapp", "v2"),
        "docker://reg.local:5000/myapp:v2"
    );
}

#[test]
fn build_image_ref_no_scheme_passthrough() {
    assert_eq!(
        build_image_ref("reg.local:5000", "myapp", "v1"),
        "docker://reg.local:5000/myapp:v1"
    );
}

// ---------------------------------------------------------------------------
// Copies between registries
// ---------------------------------------------------------------------------

#[test]
fn registry_host_strips_scheme_and_trailing_slash() {
    assert_eq!(
        registry_host("https://harbor.example.com"),
        "harbor.example.com"
    );
    assert_eq!(registry_host("http://reg.local:5000"), "reg.local:5000");
    assert_eq!(registry_host("https://reg.local/"), "reg.local");
    // No scheme: pass through (only trailing slash stripped).
    assert_eq!(registry_host("reg.local:5000/"), "reg.local:5000");
}

#[test]
fn dest_reference_joins_host_repo_tag() {
    assert_eq!(
        dest_reference("harbor.local", "library/nginx", "1.25"),
        "docker://harbor.local/library/nginx:1.25"
    );
}

#[test]
fn dest_reference_omits_colon_when_tag_empty() {
    // An empty tag copies by digest (skopeo resolves it from the source).
    assert_eq!(
        dest_reference("reg.local", "app", ""),
        "docker://reg.local/app"
    );
}

#[test]
fn dest_reference_dedupes_leading_slash_in_repo() {
    // Some callers pass "/library/nginx"; avoid "docker://host//library/nginx".
    assert_eq!(
        dest_reference("reg.local", "/library/nginx", "v1"),
        "docker://reg.local/library/nginx:v1"
    );
}

#[test]
fn build_argv_uses_authfile_not_creds() {
    // Credentials now go through a temp auth file, never on the argv.
    let authfile = "/tmp/k7s-test-src-auth.json";
    let dest_authfile = "/tmp/k7s-test-dest-auth.json";
    let argv = build_argv(
        "skopeo",
        "docker://nginx:1",
        "docker://h/app:1",
        Some(authfile),
        Some(dest_authfile),
        false,
        false,
    );
    assert!(argv.contains(&"--src-authfile".into()));
    assert!(argv.contains(&"/tmp/k7s-test-src-auth.json".into()));
    assert!(argv.contains(&"--dest-authfile".into()));
    assert!(argv.contains(&"/tmp/k7s-test-dest-auth.json".into()));
    // No raw credentials or *-creds flags must ever appear.
    assert!(!argv.iter().any(|a| a.starts_with("--src-creds")));
    assert!(!argv.iter().any(|a| a.starts_with("--dest-creds")));
}

#[test]
fn build_argv_omits_authfile_flags_when_none() {
    let argv = build_argv(
        "skopeo",
        "docker://nginx:1",
        "docker://h/app:1",
        None,
        None,
        false,
        false,
    );
    assert!(!argv.iter().any(|a| a.starts_with("--src-authfile")));
    assert!(!argv.iter().any(|a| a.starts_with("--dest-authfile")));
    assert!(!argv.iter().any(|a| a.starts_with("--src-creds")));
    assert!(!argv.iter().any(|a| a.starts_with("--dest-creds")));
}

#[test]
fn build_argv_respects_insecure_flags() {
    let argv = build_argv(
        "skopeo",
        "docker://nginx:1",
        "docker://h/app:1",
        None,
        None,
        true,
        true,
    );
    assert!(argv.contains(&"--src-tls-verify=false".into()));
    assert!(argv.contains(&"--dest-tls-verify=false".into()));
}

#[test]
fn build_argv_forces_linux_os() {
    // Regression guard: linux must always be forced so a macOS host
    // doesn't copy a darwin image, while the architecture is left to the
    // source manifest (no --override-arch).
    let argv = build_argv(
        "skopeo",
        "docker://nginx:1",
        "docker://h/app:1",
        None,
        None,
        false,
        false,
    );
    assert!(argv.contains(&"--override-os".into()));
    assert!(argv.contains(&"linux".into()));
    assert!(!argv.iter().any(|a| a == "--override-arch"));
}

#[test]
fn build_argv_puts_source_and_dest_last() {
    // skopeo parses positionally: flags first, then <source> <destination>.
    let argv = build_argv(
        "skopeo",
        "docker://nginx:1",
        "docker://h/app:1",
        None,
        None,
        false,
        false,
    );
    assert_eq!(argv[argv.len() - 2], "docker://nginx:1");
    assert_eq!(argv[argv.len() - 1], "docker://h/app:1");
}

#[test]
fn export_argv_docker_archive_dest() {
    let authfile = "/tmp/k7s-test-export-auth.json";
    let argv = build_export_argv(
        "skopeo",
        "docker://harbor.local/library/nginx:1.25",
        "docker-archive:/tmp/nginx.tar",
        Some(authfile),
        false,
    );
    assert_eq!(
        argv[argv.len() - 2],
        "docker://harbor.local/library/nginx:1.25"
    );
    assert_eq!(argv[argv.len() - 1], "docker-archive:/tmp/nginx.tar");
    assert!(argv.contains(&"--src-authfile".into()));
    assert!(argv.contains(&"/tmp/k7s-test-export-auth.json".into()));
    // No raw credentials on the argv.
    assert!(!argv.iter().any(|a| a.starts_with("--src-creds")));
}

#[test]
fn export_argv_no_authfile_when_none() {
    let argv = build_export_argv(
        "skopeo",
        "docker://reg.local/nginx:1",
        "docker-archive:/tmp/x.tar",
        None,
        false,
    );
    assert!(!argv.iter().any(|a| a.starts_with("--src-authfile")));
    assert!(!argv.iter().any(|a| a.starts_with("--src-creds")));
}

#[test]
fn export_argv_insecure_flag() {
    let argv = build_export_argv(
        "skopeo",
        "docker://reg.local/nginx:1",
        "docker-archive:/tmp/x.tar",
        None,
        true,
    );
    assert!(argv.contains(&"--src-tls-verify=false".into()));
}

#[test]
fn build_export_argv_forces_linux_os() {
    // Regression guard: linux must be forced, arch must not be (see
    // build_argv_forces_linux_os).
    let argv = build_export_argv(
        "skopeo",
        "docker://nginx:1",
        "docker-archive:/tmp/nginx.tar",
        None,
        false,
    );
    assert!(argv.contains(&"--override-os".into()));
    assert!(argv.contains(&"linux".into()));
    assert!(!argv.iter().any(|a| a == "--override-arch"));
}

#[test]
fn docker_transport_host_extracts_registry() {
    // Hub shorthands normalise to docker.io: the key Docker/skopeo
    // authfiles actually use for the Hub.
    assert_eq!(
        docker_transport_host("docker://nginx:1.25"),
        Some("docker.io")
    );
    assert_eq!(
        docker_transport_host("docker://library/nginx:1.25"),
        Some("docker.io")
    );
    // A first segment without `.`/`:` (and not localhost) is a Hub
    // namespace, not a registry host.
    assert_eq!(
        docker_transport_host("docker://registry-a/foo:v1"),
        Some("docker.io")
    );
    // Real hosts (dotted, ported, or localhost) pass through.
    assert_eq!(
        docker_transport_host("docker://registry.local/foo:v1"),
        Some("registry.local")
    );
    assert_eq!(
        docker_transport_host("docker://host:5000/lib/x:tag"),
        Some("host:5000")
    );
    assert_eq!(
        docker_transport_host("docker://localhost/foo"),
        Some("localhost")
    );
    // Non-docker transports have no registry host to authenticate against.
    assert_eq!(docker_transport_host("docker-archive:/tmp/x.tar"), None);
    assert_eq!(docker_transport_host("oci:/layout:tag"), None);
    assert_eq!(docker_transport_host("dir:/path"), None);
}

#[test]
fn authcreds_raw_splits_on_first_colon() {
    assert_eq!(
        AuthCreds::Raw("admin:s3cret").user_pass(),
        Some(("admin", "s3cret"))
    );
    // Password may itself contain colons.
    assert_eq!(
        AuthCreds::Raw("user:pass:with:colons").user_pass(),
        Some(("user", "pass:with:colons"))
    );
    // Empty / no-username creds are anonymous.
    assert_eq!(AuthCreds::Raw("").user_pass(), None);
    assert_eq!(AuthCreds::Raw(":onlypass").user_pass(), None);
    assert_eq!(AuthCreds::Raw("noseparator").user_pass(), None);
}

#[test]
fn authcreds_split_handles_empty_user() {
    assert_eq!(
        AuthCreds::Split {
            user: "u",
            pass: "p"
        }
        .user_pass(),
        Some(("u", "p"))
    );
    assert_eq!(
        AuthCreds::Split {
            user: "",
            pass: "p"
        }
        .user_pass(),
        None
    );
}

/// Empty or anonymous credentials need no auth file at all.
#[test]
fn write_skopeo_authfile_returns_none_for_anonymous() {
    assert!(authfile_body("reg.local", &AuthCreds::Raw("")).is_none());
    assert!(authfile_body("reg.local", &AuthCreds::Split { user: "", pass: "" }).is_none());
}

/// The auth value is base64("admin:s3cret"), in the structure of a Docker auth file.
#[test]
fn write_skopeo_authfile_writes_valid_docker_format() {
    let body =
        authfile_body("harbor.local", &AuthCreds::Split { user: "admin", pass: "s3cret" })
            .expect("auth file should be created for real creds");
    let expected_auth = base64::engine::general_purpose::STANDARD.encode("admin:s3cret");
    assert!(body.contains(r#""harbor.local""#), "body missing host: {body}");
    assert!(body.contains(&expected_auth), "body missing base64 auth: {body}");
    let parsed: serde_json::Value = serde_json::from_str(&body).unwrap();
    assert_eq!(
        parsed["auths"]["harbor.local"]["auth"].as_str(),
        Some(expected_auth.as_str())
    );
}

// ---------------------------------------------------------------------------
// Runs on nodes
// ---------------------------------------------------------------------------

#[test]
fn an_import_ends_with_the_images_it_loaded() {
    let plan = match begin_import("containerd://1.7", "Node.1", 4, None) {
        ImportStart::Planned(p) => p,
        ImportStart::Refused(r) => panic!("refused: {:?}", r.error),
    };
    assert_eq!(plan.runtime, "containerd");
    assert!(plan.pod_name.contains("node-1") && plan.pod_name.ends_with("-4"));
    assert_eq!(plan.pod_image, "nicolaka/netshoot");
    let outcome = load_outcome(Some(Some("Success")), "", "Loaded image: a:1\n");
    let r = finish_import(&plan.runtime, outcome);
    assert_eq!(r.images, vec!["a:1"]);
    assert!(r.error.is_none());
    let r = finish_import("docker", load_outcome(Some(Some("Failure")), "exit 1", "denied"));
    assert_eq!(r.error.as_deref(), Some("image load failed: exit 1 (output: denied)"));
    assert!(r.images.is_empty());
    match begin_import("cri-o://1.29", "n", 0, None) {
        ImportStart::Refused(r) => assert!(r.error.unwrap().contains("unsupported")),
        ImportStart::Planned(_) => panic!("planned"),
    }
}

#[test]
fn an_export_names_where_the_image_went() {
    let start = begin_export("docker://20", "n", "nginx:1", "/tmp/x.tar", 2, Some("busybox"));
    match start.unwrap() {
        ExportStart::Planned(p) => {
            assert_eq!(p.runtime, "docker");
            assert_eq!(p.argv, export_command("docker", "nginx:1").unwrap());
            assert_eq!(p.pod_image, "busybox");
        }
        ExportStart::Refused(_) => panic!("refused"),
    }
    assert!(begin_export("docker://20", "n", "nginx; id", "/tmp/x.tar", 2, None).is_err());
    assert!(matches!(
        begin_export("cri-o://1", "n", "nginx:1", "/tmp/x.tar", 2, None),
        Ok(ExportStart::Refused(r)) if r.error.is_some()
    ));
    let outcome = export_outcome(Some(Some("Success")), "", 42, "/tmp/x.tar");
    let r = finish_export("docker", "nginx:1", "/tmp/x.tar", outcome);
    assert_eq!(r.output, "exported 42 bytes to /tmp/x.tar");
    assert_eq!(r.images, vec!["nginx:1"]);
    let failed = export_outcome(Some(Some("Failure")), "no space", 0, "/tmp/x.tar");
    let r = finish_export("docker", "nginx:1", "/tmp/x.tar", failed);
    assert_eq!(r.error.as_deref(), Some("image export failed: no space"));
}

#[test]
fn a_listing_is_read_as_its_runtime_prints_it() {
    let plan = begin_list("containerd://1.7", "n", None).unwrap();
    assert_eq!(plan.argv, list_command("containerd").unwrap());
    assert!(begin_list("", "n", None).is_err());
    assert_eq!(finish_list("containerd", Some(Some("Success")), "", "a:1\nb:2\n").unwrap(), vec!["a:1", "b:2"]);
    assert!(finish_list("containerd", Some(Some("Failure")), "exit 1", "").is_err());
}

// ---------------------------------------------------------------------------
// Registries and archives
// ---------------------------------------------------------------------------

fn no_registries() -> RegistryFile {
    RegistryFile { registries: vec![], passwords: TextMap::new() }
}

#[test]
fn a_registry_keeps_its_password_apart() {
    let mut f = no_registries();
    let r = upsert_registry(&mut f, " hub ", " https://reg.io/v2/ ", "me", "pw", false, "d").unwrap();
    assert_eq!((r.name.as_str(), r.url.as_str()), ("hub", "https://reg.io"));
    assert_eq!(f.passwords.get("hub").as_deref(), Some("pw"));
    assert_eq!(list_registries(&f)[0].password, "pw");
    upsert_registry(&mut f, "hub", "https://reg.io", "me", "", true, "d").unwrap();
    assert_eq!(list_registries(&f).len(), 1);
    assert_eq!(f.passwords.get("hub"), None);
    assert!(upsert_registry(&mut f, "", "https://reg.io", "", "", false, "").is_err());
    assert!(upsert_registry(&mut f, "x", " ", "", "", false, "").is_err());
    assert!(remove_registry(&mut f, "hub"));
    assert!(!remove_registry(&mut f, "hub"));
}

#[test]
fn registries_are_asked_page_by_page() {
    assert_eq!(catalog_url("https://r"), "https://r/v2/_catalog?n=100");
    assert_eq!(tags_url("https://r", "a/b"), "https://r/v2/a/b/tags/list?n=100");
    assert_eq!(manifest_url("https://r", "a", "1"), "https://r/v2/a/manifests/1");
    let link = Some(r#"</v2/_catalog?last=x>; rel="next""#);
    assert_eq!(
        next_page("https://r", link, 10, 1).as_deref(),
        Some("https://r/v2/_catalog?last=x")
    );
    assert_eq!(next_page("https://r", None, 10, 1), None);
    assert_eq!(next_page("https://r", link, PAGINATION_LIMIT, 1), None);
    assert_eq!(next_page("https://r", link, 10, MAX_PAGES), None);
    assert!(probe_result("https://r", 401, "401 Unauthorized").is_ok());
    assert!(matches!(
        probe_result("https://r", 500, "500 X"),
        Err(AppError::Other(m)) if m == "GET https://r/v2/: HTTP 500 X"
    ));
    assert!(catalog_status("r", 200, "200 OK").is_ok());
    assert!(catalog_status("r", 404, "404 Not Found").unwrap_err().message().contains("type a repository name"));
    assert!(matches!(
        page_status("tags", 500, "500 X"),
        Err(AppError::Other(m)) if m == "tags: HTTP 500 X"
    ));
}

#[test]
fn a_challenge_is_answered_with_a_token() {
    let header = r#"Bearer realm="https://r/token",service="s",scope="repository:a:pull""#;
    let url = token_url(&parse_bearer(header).unwrap());
    assert!(url.starts_with("https://r/token?"));
    assert!(url.contains("scope=repository%3Aa%3Apull"));
    assert!(matches!(after_answer(401, Some(header)), AuthStep::FetchToken(u) if u == url));
    assert!(matches!(after_answer(200, Some(header)), AuthStep::Keep));
    assert!(matches!(after_answer(401, None), AuthStep::Keep));
    assert_eq!(token_of(None, Some("t".into())).unwrap(), "t");
    assert_eq!(token_of(Some("a".into()), Some("t".into())).unwrap(), "a");
    assert!(token_of(None, None).is_err());
}

#[test]
fn a_manifest_is_read_with_its_layers() {
    let text = r#"{"schemaVersion":2,"mediaType":"m","config":{"digest":"sha256:c","size":10},
        "layers":[{"digest":"sha256:l","size":5,"mediaType":"t"},{}]}"#;
    let m = manifest(text, None).unwrap();
    assert_eq!((m.schema_version, m.size), (2, 15));
    assert_eq!(m.digest, "sha256:c");
    assert_eq!(m.layers.len(), 2);
    assert_eq!(m.layers[0].digest, "sha256:l");
    assert_eq!(m.raw, text);
    assert_eq!(manifest(text, Some("sha256:x")).unwrap().digest, "sha256:x");
    assert!(manifest("{", None).unwrap_err().message().starts_with("decode manifest: "));
}

#[test]
fn an_archive_is_inspected_by_its_transport() {
    assert_eq!(archive_transport("/x/a.tar"), "docker-archive:/x/a.tar");
    assert_eq!(inspect_argv("/x/a.tar"), vec!["inspect", "--config", "docker-archive:/x/a.tar"]);
    let info = inspect_archive(true, r#"{"Name":"n","RepoTags":["a:1"],"Os":"linux"}"#, "").unwrap();
    assert_eq!(info.name, "n");
    assert_eq!(info.repo_tags, vec!["a:1"]);
    assert_eq!(info.os, "linux");
    assert_eq!(info.digest, "");
    assert!(matches!(
        inspect_archive(false, "", "no such file"),
        Err(AppError::Other(m)) if m == "skopeo inspect failed: no such file"
    ));
    assert!(inspect_archive(true, "nonsense", "").is_err());
}

fn registry(name: &str, url: &str) -> ImageRegistry {
    let mut f = no_registries();
    upsert_registry(&mut f, name, url, "u", "p", false, "").unwrap()
}

#[test]
fn a_copy_needs_skopeo_and_a_known_registry() {
    let known = vec![registry("mine", "https://harbor.local/")];
    let plan =
        plan_copy(Some("/bin/skopeo".into()), &known, "docker://nginx:1", "mine", "/app", "1", Some("a:b"))
            .unwrap();
    assert_eq!(plan.destination, "docker://harbor.local/app:1");
    assert!(plan.src_auth.unwrap().contains("docker.io"));
    assert!(plan.dest_auth.unwrap().contains("harbor.local"));
    assert!(plan_copy(None, &known, "docker://nginx:1", "mine", "app", "1", None).is_err());
    assert_eq!(require_skopeo(Some("/bin/skopeo".into())).unwrap(), "/bin/skopeo");
    assert!(matches!(require_skopeo(None), Err(AppError::Other(m)) if m.starts_with("skopeo CLI not found")));
    assert!(matches!(
        plan_copy(Some("s".into()), &known, "docker://nginx:1", "other", "app", "1", None),
        Err(AppError::NotFound(_))
    ));
    let done = finish_copy("docker://nginx:1", &plan.destination, "mine", "app", "1", true, "", 7);
    assert_eq!(done.summary, "copied docker://nginx:1 → mine/app:1");
    assert!(copy_outcome(done).is_ok());
    let failed = finish_copy("s", "d", "mine", "app", "1", false, "exit status: 1", 0);
    assert!(copy_outcome(failed).is_err());
    assert!(copy_timed_out("s").message().contains("3600s"));
    let export = plan_export(Some("s".into()), &known, "mine", "app", "1", "/tmp/a.tar").unwrap();
    assert_eq!(export.source, "docker://harbor.local/app:1");
    assert_eq!(export.destination, "docker-archive:/tmp/a.tar");
    assert!(plan_export(Some("s".into()), &known, "mine", "app", "1", "/etc/a.tar").is_err());
    assert!(!skopeo_availability(None, None).available);
    let scanners = check_scanners(Some("/bin/trivy".into()), None);
    assert!(scanners.trivy && !scanners.grype);
}
