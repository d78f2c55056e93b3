//! Shared data types: the per-component status value, the status derivation
//! rule for multi-address components, the payload of the push-ingestion API,
//! and the boundary trait for the upstream status-page reporter.

use vstd::prelude::*;
use crate::statuspagelib::ComponentStatus;

verus! {

/// Confirmed health of a monitored component.
///
/// `Unknown` is only used before the first successful determination.
#[derive(Debug, Clone, Copy, PartialEq, Eq, Structural)]
pub enum ServerLastStatus {
    Operational,
    Outage,
    DegradedPerformance,
    PartialOutage,
    Unknown,
}

/// Wire name of a status, as the status page and the cache file spell it.
pub open spec fn spec_status_str(s: ServerLastStatus) -> Seq<char> {
    match s {
        ServerLastStatus::Operational => "operational"@,
        ServerLastStatus::Outage => "major_outage"@,
        ServerLastStatus::DegradedPerformance => "degraded_performance"@,
        ServerLastStatus::PartialOutage => "partial_outage"@,
        ServerLastStatus::Unknown => "unknown"@,
    }
}

/// Status named by a wire string; any unrecognised string means `Unknown`.
pub open spec fn spec_status_from_str(s: Seq<char>) -> ServerLastStatus {
    if s == "operational"@ {
        ServerLastStatus::Operational
    } else if s == "major_outage"@ {
        ServerLastStatus::Outage
    } else if s == "partial_outage"@ {
        ServerLastStatus::PartialOutage
    } else if s == "degraded_performance"@ {
        ServerLastStatus::DegradedPerformance
    } else {
        ServerLastStatus::Unknown
    }
}

/// Number of healthy addresses in one probe round.
pub open spec fn count_healthy(v: Seq<bool>) -> int
    decreases v.len(),
{
    if v.len() == 0 {
        0
    } else {
        count_healthy(v.drop_last()) + (if v.last() {
            1int
        } else {
            0int
        })
    }
}

/// Overall status derived from the vector of per-address probe results.
///
/// An empty round gives `Unknown`; all healthy gives `Operational`; none
/// healthy gives `Outage`. A mixed result on exactly two addresses is a
/// `PartialOutage`; on more addresses the component is only
/// `DegradedPerformance` when the healthy count reaches two thirds
/// (computed as `n / 3 * 2` in integer arithmetic), else `PartialOutage`.
pub open spec fn spec_derive_status(v: Seq<bool>) -> ServerLastStatus {
    if v.len() == 0 {
        ServerLastStatus::Unknown
    } else if count_healthy(v) == v.len() {
        ServerLastStatus::Operational
    } else if count_healthy(v) == 0 {
        ServerLastStatus::Outage
    } else if v.len() == 2 {
        ServerLastStatus::PartialOutage
    } else if count_healthy(v) >= v.len() as int / 3 * 2 {
        ServerLastStatus::DegradedPerformance
    } else {
        ServerLastStatus::PartialOutage
    }
}

pub proof fn lemma_count_healthy_bounds(v: Seq<bool>)
    ensures
        0 <= count_healthy(v) <= v.len(),
    decreases v.len(),
{
    if v.len() > 0 {
        lemma_count_healthy_bounds(v.drop_last());
    }
}

/// Law: the healthy count reaches the round's length exactly when every
/// address is healthy, and zero exactly when none is — so the derivation's
/// count conditions say "all true" and "all false".
pub proof fn lemma_count_healthy_characterisation(v: Seq<bool>)
    ensures
        (count_healthy(v) == v.len()) <==> (forall|i: int| 0 <= i < v.len() ==> #[trigger] v[i]),
        (count_healthy(v) == 0) <==> (forall|i: int| 0 <= i < v.len() ==> !(#[trigger] v[i])),
    decreases v.len(),
{
    if v.len() > 0 {
        let d = v.drop_last();
        lemma_count_healthy_characterisation(d);
        lemma_count_healthy_bounds(d);
        assert(v.last() == v[v.len() - 1]);
        if count_healthy(v) == v.len() {
            assert(count_healthy(d) == d.len() && v.last());
            assert forall|i: int| 0 <= i < v.len() implies #[trigger] v[i] by {
                if i < v.len() - 1 {
                    assert(d[i]);
                }
            }
        }
        if forall|i: int| 0 <= i < v.len() ==> #[trigger] v[i] {
            assert forall|i: int| 0 <= i < d.len() implies #[trigger] d[i] by {
                assert(v[i]);
            }
            assert(count_healthy(d) == d.len());
            assert(v[v.len() - 1]);
            assert(count_healthy(v) == v.len());
        }
        if count_healthy(v) == 0 {
            assert(count_healthy(d) == 0 && !v.last());
            assert forall|i: int| 0 <= i < v.len() implies !(#[trigger] v[i]) by {
                if i < v.len() - 1 {
                    assert(!d[i]);
                }
            }
        }
        if forall|i: int| 0 <= i < v.len() ==> !(#[trigger] v[i]) {
            assert forall|i: int| 0 <= i < d.len() implies !(#[trigger] d[i]) by {
                assert(!v[i]);
            }
            assert(count_healthy(d) == 0);
            assert(!v[v.len() - 1]);
            assert(count_healthy(v) == 0);
        }
    }
}

impl ServerLastStatus {
    /// Wire name of this status.
    pub fn as_str(&self) -> (r: &'static str)
        ensures
            r@ == spec_status_str(*self),
    {
        match self {
            ServerLastStatus::Operational => "operational",
            ServerLastStatus::Outage => "major_outage",
            ServerLastStatus::DegradedPerformance => "degraded_performance",
            ServerLastStatus::PartialOutage => "partial_outage",
            ServerLastStatus::Unknown => "unknown",
        }
    }

    /// Status named by a wire string; unrecognised strings give `Unknown`.
    pub fn from_str(value: &str) -> (r: ServerLastStatus)
        ensures
            r == spec_status_from_str(value@),
    {
        if crate::strutil::str_eq(value, "operational") {
            ServerLastStatus::Operational
        } else if crate::strutil::str_eq(value, "major_outage") {
            ServerLastStatus::Outage
        } else if crate::strutil::str_eq(value, "partial_outage") {
            ServerLastStatus::PartialOutage
        } else if crate::strutil::str_eq(value, "degraded_performance") {
            ServerLastStatus::DegradedPerformance
        } else {
            ServerLastStatus::Unknown
        }
    }
}

impl From<Vec<bool>> for ServerLastStatus {
    /// Applies the status derivation rule to one round of probe results.
    fn from(v: Vec<bool>) -> (r: ServerLastStatus)
        ensures
            r == spec_derive_status(v@),
    {
        let n = v.len();
        if n == 0 {
            return ServerLastStatus::Unknown;
        }
        let mut healthy: usize = 0;
        let mut i: usize = 0;
        while i < n
            invariant
                n == v@.len(),
                i <= n,
                healthy <= i,
                healthy == count_healthy(v@.take(i as int)),
            decreases n - i,
        {
            proof {
                assert(v@.take(i as int + 1).drop_last() =~= v@.take(i as int));
                assert(v@.take(i as int + 1).last() == v@[i as int]);
            }
            if v[i] {
                healthy += 1;
            }
            i += 1;
        }
        proof {
            assert(v@.take(n as int) =~= v@);
        }
        if healthy == n {
            ServerLastStatus::Operational
        } else if healthy == 0 {
            ServerLastStatus::Outage
        } else if n == 2 {
            ServerLastStatus::PartialOutage
        } else {
            if healthy >= n / 3 * 2 {
                ServerLastStatus::DegradedPerformance
            } else {
                ServerLastStatus::PartialOutage
            }
        }
    }
}

impl vstd::std_specs::convert::FromSpecImpl<Vec<bool>> for ServerLastStatus {
    open spec fn obeys_from_spec() -> bool {
        true
    }

    open spec fn from_spec(v: Vec<bool>) -> ServerLastStatus {
        spec_derive_status(v@)
    }
}

/// Body of the push-ingestion API: a bare status string.
#[derive(Clone, Debug)]
pub struct TransferData {
    pub status: String,
}

impl TransferData {
    pub fn new(status: String) -> (r: Self)
        ensures
            r.status@ == status@,
    {
        Self { status }
    }

    /// Payload reported for a component that is not in the store.
    pub fn not_found() -> (r: Self)
        ensures
            r.status@ == "NOT_FOUND"@,
    {
        Self { status: "NOT_FOUND".to_owned() }
    }

    pub fn status(&self) -> (r: &str)
        ensures
            r@ == self.status@,
    {
        self.status.as_str()
    }
}

/// Failure reported by an upstream reporter.
#[derive(Clone, Debug)]
pub struct UpstreamError {
    pub message: String,
}

/// Boundary of the upstream status-page reporter: something that can be asked
/// for a component's status and told about a confirmed status change.
pub trait UpstreamTrait {
    fn get_component_status(&self, component: &str, page: &str) -> Result<(), UpstreamError>;

    fn set_component_status(
        &self,
        component: &str,
        page: &str,
        status: ComponentStatus,
    ) -> Result<(), UpstreamError>;
}

/// Reporter used when no status page is configured: accepts everything and
/// does nothing.
#[derive(Clone, Copy, Debug)]
pub struct EmptyUpstream {}

impl UpstreamTrait for EmptyUpstream {
    fn get_component_status(&self, component: &str, page: &str) -> (r: Result<(), UpstreamError>)
        ensures
            r is Ok,
    {
        Ok(())
    }

    fn set_component_status(
        &self,
        component: &str,
        page: &str,
        status: ComponentStatus,
    ) -> (r: Result<(), UpstreamError>)
        ensures
            r is Ok,
    {
        Ok(())
    }
}

} // verus!
