//! Image scanners: which are there, the results they share, and the references
//! they are given.
pub use crate::image::sync::registry_host;
use crate::image::sync::{dest_reference, host_of, reference_of};
use vstd::prelude::*;

verus! {

/// Event with one line of output of a running scan.
pub const IMAGE_SCAN_LOG_EVENT: &'static str = "image-scan-log";

/// Event at the end of a scan.
pub const IMAGE_SCAN_DONE_EVENT: &'static str = "image-scan-done";

/// Which scanner to use.
#[derive(Clone, Debug)]
pub enum ScanEngine {
    Trivy,
    Grype,
}

/// Which scanners are there.
#[derive(Clone, Debug)]
pub struct ScanAvailability {
    pub trivy: bool,
    pub grype: bool,
    /// Path of trivy, where it was found.
    pub trivy_path: Option<String>,
    /// Path of grype, where it was found.
    pub grype_path: Option<String>,
}

/// The result of a completed scan.
#[derive(Clone, Debug)]
pub struct ScanResult {
    /// The image that was scanned.
    pub target: String,
    /// Which scanner produced the result: `trivy` or `grype`.
    pub engine: String,
    /// Counts by severity.
    pub summary: ScanSummary,
    /// The findings.
    pub vulnerabilities: Vec<Vulnerability>,
    /// When the scan ended.
    pub scanned_at: String,
}

/// Counts by severity.
#[derive(Clone, Debug, Default)]
pub struct ScanSummary {
    pub critical: u32,
    pub high: u32,
    pub medium: u32,
    pub low: u32,
    pub total: u32,
}

/// A finding.
#[derive(Clone, Debug)]
pub struct Vulnerability {
    /// Identifier (e.g. `CVE-2023-12345`).
    pub id: String,
    /// `CRITICAL`, `HIGH`, `MEDIUM` or `LOW`.
    pub severity: String,
    /// Affected package.
    pub pkg_name: String,
    /// Installed version.
    pub installed_version: String,
    /// Version with the fix, where there is one.
    pub fixed_version: Option<String>,
    /// Short title.
    pub title: String,
    /// Longer description.
    pub description: String,
    /// Where to read more.
    pub references: Vec<String>,
}

/// Which scanners are there, given where they were found.
pub fn check_scanners(trivy_path: Option<String>, grype_path: Option<String>) -> (r: ScanAvailability)
    ensures
        r.trivy == trivy_path is Some,
        r.grype == grype_path is Some,
        r.trivy_path == trivy_path,
        r.grype_path == grype_path,
{
    ScanAvailability {
        trivy: trivy_path.is_some(),
        grype: grype_path.is_some(),
        trivy_path,
        grype_path,
    }
}

/// The same as [`check_scanners`].
pub fn check_scanners_sync(trivy_path: Option<String>, grype_path: Option<String>) -> (r:
    ScanAvailability)
    ensures
        r.trivy == trivy_path is Some,
        r.grype == grype_path is Some,
        r.trivy_path == trivy_path,
        r.grype_path == grype_path,
{
    check_scanners(trivy_path, grype_path)
}

/// The `docker://host/repo:tag` reference of a tag in the registry at
/// `registry_url`.
pub fn build_image_ref(registry_url: &str, repo: &str, tag: &str) -> (r: String)
    ensures
        r@ == reference_of(host_of(registry_url@), repo@, tag@),
{
    let host = registry_host(registry_url);
    dest_reference(host.as_str(), repo, tag)
}

// ---------------------------------------------------------------------------
// Laws
// ---------------------------------------------------------------------------

/// A scan is of the tag of the repository on the host of the registry.
pub proof fn law_scan_is_of_the_tag_asked_for(
    registry_url: &str,
    repo: &str,
    tag: &str,
    r: String,
    host: String,
)
    requires
        call_ensures(build_image_ref, (registry_url, repo, tag), r),
        call_ensures(registry_host, (registry_url,), host),
        repo@.len() > 0,
        repo@[0] != '/',
        tag@.len() > 0,
    ensures
        r@ == "docker://"@ + host@ + "/"@ + repo@ + ":"@ + tag@,
{
}

} // verus!
