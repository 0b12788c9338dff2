//! Metrics, alerts, dashboards and audit logs.
pub mod alerting;
pub mod audit;
pub mod exporter;
pub mod grafana;
pub mod metrics;
pub mod metrics_config;
pub mod nodestats;
pub mod promql;
pub mod saved_queries;
