# k7s_kube

The Kubernetes side of a desktop cluster tool: what is decided and computed between
the user and a cluster. The library is written in Verus, and every function of it is
verified against its contract.

- `src/` is the library. It makes no requests and touches no files: it takes plain
  values (listings, documents, texts, answers of services) and says what they mean and
  what to do next.
  - `client`, `kubeconfig_check`, `manager`: kubeconfigs, and what runs for a connection
  - `kind`, `mappers`, `dto`, `dependency_graph`, `endpoints`, `ingress_debug`: resources,
    their rows, and how they refer to each other
  - `logs`, `shell`, `nodeshell`, `drain`, `config_snapshots`: sessions
  - `helm`: releases, their manifests, operations, charts on disk and in repositories,
    profiles
  - `image`: images on nodes, in registries and in archives
  - `observability`: metrics, history, alerts, dashboards, audit logs, saved queries
  - `text`, `lists`, `numbers`, `json`, `encoding`, `time`, `tarball`, `paths`, `argv`,
    `tools`, `instances`, `error`, `events`: what the others are made of
- `app/` is ordinary Rust around it: requests, files, child processes, floating point,
  and copies of the library's types that are serialised.
- `tests/` runs the library with the crates it calls.

Laws that relate several functions are public proof functions whose names begin with
`law_`, at the end of the file of the functions that they are about.

What the library calls of other crates stands behind small functions marked
`external_body`, each with a comment that says what is taken on trust: `serde_json` in
`json`, `base64` and `flate2` in `encoding`, `tar` in `tarball`, `chrono` and `jiff` in
`time`, `kube` in `kind`, `uuid` in `helm`, and three functions of `std` in `text` and
`tarball`.
