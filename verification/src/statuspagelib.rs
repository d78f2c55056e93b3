//! Status values of the upstream status page and the request URL it is
//! addressed by.
//!
//! The HTTP client that actually talks to the status page lives outside this
//! crate; here stand the value conversions and the URL construction it uses.

use vstd::prelude::*;
use vstd::string::StringExecFns;
use crate::datastructures::ServerLastStatus;

verus! {

/// Status of one component as the status page understands it.
#[derive(Debug, Clone, Copy, PartialEq, Eq, Structural)]
pub enum ComponentStatus {
    Operational,
    UnderMaintenance,
    DegradedPerformance,
    PartialOutage,
    MajorOutage,
}

/// Wire name of a status-page status.
pub open spec fn spec_component_status_str(s: ComponentStatus) -> Seq<char> {
    match s {
        ComponentStatus::Operational => "operational"@,
        ComponentStatus::UnderMaintenance => "under_maintenance"@,
        ComponentStatus::DegradedPerformance => "degraded_performance"@,
        ComponentStatus::PartialOutage => "partial_outage"@,
        ComponentStatus::MajorOutage => "major_outage"@,
    }
}

/// Status-page status named by a wire string, if any.
pub open spec fn spec_component_status_from_str(s: Seq<char>) -> Option<ComponentStatus> {
    if s == "operational"@ {
        Some(ComponentStatus::Operational)
    } else if s == "under_maintenance"@ {
        Some(ComponentStatus::UnderMaintenance)
    } else if s == "degraded_performance"@ {
        Some(ComponentStatus::DegradedPerformance)
    } else if s == "partial_outage"@ {
        Some(ComponentStatus::PartialOutage)
    } else if s == "major_outage"@ {
        Some(ComponentStatus::MajorOutage)
    } else {
        None
    }
}

/// The status-page status that stands for a confirmed agent status.
///
/// `Unknown` has no upstream counterpart and is never reported.
pub open spec fn spec_component_status_of(s: ServerLastStatus) -> ComponentStatus {
    match s {
        ServerLastStatus::Operational => ComponentStatus::Operational,
        ServerLastStatus::DegradedPerformance => ComponentStatus::DegradedPerformance,
        ServerLastStatus::PartialOutage => ComponentStatus::PartialOutage,
        _ => ComponentStatus::MajorOutage,
    }
}

/// A wire string that names no status-page status.
#[derive(Clone, Debug)]
pub struct UnknownStatusError {
    pub value: String,
}

impl ComponentStatus {
    /// Wire name of this status.
    pub fn as_str(&self) -> (r: &'static str)
        ensures
            r@ == spec_component_status_str(*self),
    {
        match self {
            ComponentStatus::Operational => "operational",
            ComponentStatus::UnderMaintenance => "under_maintenance",
            ComponentStatus::DegradedPerformance => "degraded_performance",
            ComponentStatus::PartialOutage => "partial_outage",
            ComponentStatus::MajorOutage => "major_outage",
        }
    }

    /// Status named by a wire string; unrecognised strings are an error.
    pub fn try_from(value: &str) -> (r: Result<ComponentStatus, UnknownStatusError>)
        ensures
            match spec_component_status_from_str(value@) {
                Some(s) => r matches Ok(v) && v == s,
                None => r matches Err(e) && e.value@ == value@,
            },
    {
        if crate::strutil::str_eq(value, "operational") {
            Ok(ComponentStatus::Operational)
        } else if crate::strutil::str_eq(value, "under_maintenance") {
            Ok(ComponentStatus::UnderMaintenance)
        } else if crate::strutil::str_eq(value, "degraded_performance") {
            Ok(ComponentStatus::DegradedPerformance)
        } else if crate::strutil::str_eq(value, "partial_outage") {
            Ok(ComponentStatus::PartialOutage)
        } else if crate::strutil::str_eq(value, "major_outage") {
            Ok(ComponentStatus::MajorOutage)
        } else {
            Err(UnknownStatusError { value: String::from_str(value) })
        }
    }

    /// The status reported for a plain reachable / unreachable result.
    pub fn from_bool(b: bool) -> (r: ComponentStatus)
        ensures
            r == (if b {
                ComponentStatus::Operational
            } else {
                ComponentStatus::MajorOutage
            }),
    {
        if b {
            ComponentStatus::Operational
        } else {
            ComponentStatus::MajorOutage
        }
    }

    /// The status-page status for a confirmed agent status.
    ///
    /// `Unknown` is never confirmed, so it cannot be reported.
    pub fn from_last_status(status: &ServerLastStatus) -> (r: ComponentStatus)
        requires
            *status != ServerLastStatus::Unknown,
        ensures
            r == spec_component_status_of(*status),
    {
        match status {
            ServerLastStatus::Operational => ComponentStatus::Operational,
            ServerLastStatus::DegradedPerformance => ComponentStatus::DegradedPerformance,
            ServerLastStatus::PartialOutage => ComponentStatus::PartialOutage,
            _ => ComponentStatus::MajorOutage,
        }
    }
}

/// The status that stands for a status-page status when warm-starting from
/// the upstream record of a component.
pub open spec fn spec_last_status_of(s: ComponentStatus) -> ServerLastStatus {
    match s {
        ComponentStatus::Operational => ServerLastStatus::Operational,
        ComponentStatus::DegradedPerformance => ServerLastStatus::DegradedPerformance,
        ComponentStatus::PartialOutage => ServerLastStatus::PartialOutage,
        _ => ServerLastStatus::Outage,
    }
}

impl ServerLastStatus {
    /// The agent status that stands for a status-page status.
    pub fn from_component_status(status: &ComponentStatus) -> (r: ServerLastStatus)
        ensures
            r == spec_last_status_of(*status),
    {
        match status {
            ComponentStatus::Operational => ServerLastStatus::Operational,
            ComponentStatus::DegradedPerformance => ServerLastStatus::DegradedPerformance,
            ComponentStatus::PartialOutage => ServerLastStatus::PartialOutage,
            _ => ServerLastStatus::Outage,
        }
    }
}

/// The status-page endpoint for one component of one page.
pub fn build_request_url(component_id: &str, page: &str) -> (r: String)
    ensures
        r@ == "https://api.statuspage.io/v1/pages/"@ + page@ + "/components/"@ + component_id@,
{
    let mut url = String::from_str("https://api.statuspage.io/v1/pages/");
    url.append(page);
    url.append("/components/");
    url.append(component_id);
    url
}

} // verus!
