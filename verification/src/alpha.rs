//! Alpha-access marker data: whether the reactor is allowed to run at all.
//! Reading and writing the marker file is the driver's business; the data
//! and the gating decision live here.

use vstd::prelude::*;

verus! {

/// Telemetry options granted with access.
#[derive(Debug, Clone, Copy, PartialEq, Eq, Structural)]
pub struct AlphaTelemetryConfig {
    pub session_summary: bool,
}

/// Constraints attached to access.
#[derive(Debug, Clone, Copy, PartialEq, Eq, Structural)]
pub struct AlphaConstraints {
    pub no_screen_recording: bool,
    pub no_public_demos: bool,
}

/// The access marker. The reactor is fully suppressed unless a marker is
/// present and enabled.
#[derive(Debug, Clone)]
pub struct AlphaAccess {
    pub enabled: bool,
    pub cohort_id: Option<String>,
    pub issued_at: u64,
    pub telemetry: Option<AlphaTelemetryConfig>,
    pub constraints: Option<AlphaConstraints>,
}

impl AlphaAccess {
    /// A freshly granted local marker.
    pub fn granted(issued_at: u64) -> (r: AlphaAccess)
        ensures
            r.enabled,
            r.cohort_id matches Some(c) && c@ == "local-dev"@,
            r.issued_at == issued_at,
            r.telemetry == Some(AlphaTelemetryConfig { session_summary: false }),
            r.constraints == Some(
                AlphaConstraints { no_screen_recording: false, no_public_demos: true },
            ),
    {
        AlphaAccess {
            enabled: true,
            cohort_id: Some("local-dev".to_owned()),
            issued_at,
            telemetry: Some(AlphaTelemetryConfig { session_summary: false }),
            constraints: Some(
                AlphaConstraints { no_screen_recording: false, no_public_demos: true },
            ),
        }
    }
}

/// Whether a loaded marker permits the reactor to run: only a present,
/// enabled marker does.
pub fn permits_reactor(marker: &Option<AlphaAccess>) -> (r: bool)
    ensures
        r == (marker matches Some(a) && a.enabled),
{
    match marker {
        Some(a) => a.enabled,
        None => false,
    }
}

} // verus!
