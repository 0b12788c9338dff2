//! Kubernetes integration logic.
pub mod argv;
pub mod observability;
pub mod paths;
pub mod tarball;
pub mod text;
pub mod time;
pub mod tools;
pub mod lists;
pub mod dependency_graph;
pub mod error;
pub mod endpoints;
pub mod ingress_debug;
pub mod client;
pub mod kubeconfig_check;
pub mod encoding;
pub mod instances;
pub mod json;
pub mod helm;
pub mod image;
pub mod mappers;
pub mod nodeshell;
pub mod numbers;
pub mod shell;
pub mod dto;
pub mod config_snapshots;
pub mod drain;
pub mod events;
pub mod kind;
pub mod logs;
pub mod manager;
