//! Probe kinds with their wire-level success predicates, and the tracked
//! per-component state with the hysteresis rule that turns probe rounds into
//! confirmed status changes.
//!
//! The sockets themselves live outside this crate: the network code performs
//! one attempt and reports what happened as a [`ProbeEvent`]; the functions
//! here decide what that event means.

use vstd::prelude::*;
use vstd::string::StringExecFns;
use crate::configure::{Component, Service};
use crate::datastructures::ServerLastStatus;
use crate::strutil::lower;

verus! {

/// The protocol a single address is probed with.
#[derive(Copy, Clone, Debug, PartialEq, Eq, Structural)]
pub enum ServiceType {
    HTTP,
    SSH,
    TeamSpeak,
    Tcping,
    ICMP,
}

/// The probe kind named by a configuration string, compared without regard
/// to ASCII case; `None` for an unknown name.
pub open spec fn spec_service_type_of(s: Seq<char>) -> Option<ServiceType> {
    let l = lower(s);
    if l == "teamspeak"@ || l == "ts"@ {
        Some(ServiceType::TeamSpeak)
    } else if l == "ssh"@ {
        Some(ServiceType::SSH)
    } else if l == "http"@ {
        Some(ServiceType::HTTP)
    } else if l == "tcping"@ {
        Some(ServiceType::Tcping)
    } else if l == "icmp"@ || l == "ping"@ {
        Some(ServiceType::ICMP)
    } else {
        None
    }
}

/// The fixed handshake datagram the voice-query probe sends.
pub const TEAMSPEAK_HANDSHAKE: [u8; 34] = [
    0x54, 0x53, 0x33, 0x49, 0x4e, 0x49, 0x54, 0x31, 0x00, 0x65, 0x00, 0x00, 0x88, 0x0e, 0xf9,
    0x67, 0xa5, 0x00, 0x61, 0x3f, 0x9e, 0x69, 0x66, 0x78, 0x8d, 0x48, 0x00, 0x00, 0x00, 0x00,
    0x00, 0x00, 0x00, 0x00,
];

/// The client banner the SSH probe writes before reading the server banner.
pub const SSH_CLIENT_BANNER: [u8; 21] = [
    0x53, 0x53, 0x48, 0x2d, 0x32, 0x2e, 0x30, 0x2d, 0x4f, 0x70, 0x65, 0x6e, 0x53, 0x53, 0x48,
    0x5f, 0x38, 0x2e, 0x37, 0x0d, 0x0a,
];

/// Whether the bytes contain the ASCII substring "SSH".
pub open spec fn contains_ssh(b: Seq<u8>) -> bool {
    exists|i: int|
        0 <= i && i + 2 < b.len() && #[trigger] b[i] == 83 && b[i + 1] == 83 && b[i + 2] == 72
}

/// Decides the SSH probe's success criterion on the banner bytes read from
/// the connection.
pub fn banner_contains_ssh(buf: &[u8]) -> (r: bool)
    ensures
        r == contains_ssh(buf@),
{
    if buf.len() < 3 {
        return false;
    }
    let mut i: usize = 0;
    while i < buf.len() - 2
        invariant
            buf@.len() >= 3,
            forall|j: int|
                0 <= j && j < i ==> !(#[trigger] buf@[j] == 83 && buf@[j + 1] == 83 && buf@[j + 2]
                    == 72),
        decreases buf.len() - i,
    {
        if buf[i] == 83 && buf[i + 1] == 83 && buf[i + 2] == 72 {
            return true;
        }
        i += 1;
    }
    false
}

/// A probe attempt that could not be carried out: socket setup, TLS setup,
/// or an I/O failure outside the documented transient conditions.
#[derive(Clone, Copy, Debug, PartialEq, Eq, Structural)]
pub struct ProbeError {}

/// What the network handed back for one probe attempt against one address.
#[derive(Clone, Debug)]
pub enum ProbeEvent {
    /// The attempt ran into its timeout.
    TimedOut,
    ConnectionRefused,
    ConnectionReset,
    ConnectionAborted,
    /// The TCP connect completed (raw TCP probe).
    Connected,
    /// An HTTP exchange completed with this status code.
    HttpStatus(u16),
    /// A reply datagram of this many bytes arrived (voice-query probe).
    UdpReply(usize),
    /// Banner bytes were read from the connection (SSH probe).
    Banner(Vec<u8>),
    /// An ICMP echo reply arrived (`true`) or the wait ended empty (`false`).
    IcmpEcho(bool),
    /// Any other I/O or TLS error.
    OtherError,
}

/// What one probe event means for one probe kind: reachable, unreachable, or
/// a probe-infrastructure error.
///
/// A timeout and the documented transient connection failures are normal
/// "unreachable" results for every kind. An event that does not belong to
/// the kind is an error.
pub open spec fn spec_probe_outcome(kind: ServiceType, ev: ProbeEvent) -> Result<bool, ProbeError> {
    match ev {
        ProbeEvent::TimedOut => Ok(false),
        ProbeEvent::ConnectionRefused => Ok(false),
        ProbeEvent::ConnectionReset => Ok(false),
        ProbeEvent::ConnectionAborted => Ok(false),
        ProbeEvent::Connected => if kind == ServiceType::Tcping {
            Ok(true)
        } else {
            Err(ProbeError {})
        },
        ProbeEvent::HttpStatus(code) => if kind == ServiceType::HTTP {
            Ok(200 <= code && code < 300)
        } else {
            Err(ProbeError {})
        },
        ProbeEvent::UdpReply(amt) => if kind == ServiceType::TeamSpeak {
            Ok(amt != 0)
        } else {
            Err(ProbeError {})
        },
        ProbeEvent::Banner(bytes) => if kind == ServiceType::SSH {
            Ok(contains_ssh(bytes@))
        } else {
            Err(ProbeError {})
        },
        ProbeEvent::IcmpEcho(reply) => if kind == ServiceType::ICMP {
            Ok(reply)
        } else {
            Err(ProbeError {})
        },
        ProbeEvent::OtherError => Err(ProbeError {}),
    }
}

/// Law: for every probe kind, a timeout-elapsed outcome and each documented
/// transient condition (connection refused, reset, aborted) is a normal
/// "unreachable" result, never an error.
pub proof fn lemma_transient_outcomes_are_unreachable(kind: ServiceType)
    ensures
        spec_probe_outcome(kind, ProbeEvent::TimedOut) == Ok::<bool, ProbeError>(false),
        spec_probe_outcome(kind, ProbeEvent::ConnectionRefused) == Ok::<bool, ProbeError>(false),
        spec_probe_outcome(kind, ProbeEvent::ConnectionReset) == Ok::<bool, ProbeError>(false),
        spec_probe_outcome(kind, ProbeEvent::ConnectionAborted) == Ok::<bool, ProbeError>(false),
{
}

/// Decides what one probe event means for one probe kind.
pub fn probe_outcome(kind: ServiceType, ev: &ProbeEvent) -> (r: Result<bool, ProbeError>)
    ensures
        r == spec_probe_outcome(kind, *ev),
{
    match ev {
        ProbeEvent::TimedOut => Ok(false),
        ProbeEvent::ConnectionRefused => Ok(false),
        ProbeEvent::ConnectionReset => Ok(false),
        ProbeEvent::ConnectionAborted => Ok(false),
        ProbeEvent::Connected => if kind == ServiceType::Tcping {
            Ok(true)
        } else {
            Err(ProbeError {})
        },
        ProbeEvent::HttpStatus(code) => if kind == ServiceType::HTTP {
            Ok(200 <= *code && *code < 300)
        } else {
            Err(ProbeError {})
        },
        ProbeEvent::UdpReply(amt) => if kind == ServiceType::TeamSpeak {
            Ok(*amt != 0)
        } else {
            Err(ProbeError {})
        },
        ProbeEvent::Banner(bytes) => if kind == ServiceType::SSH {
            Ok(banner_contains_ssh(bytes.as_slice()))
        } else {
            Err(ProbeError {})
        },
        ProbeEvent::IcmpEcho(reply) => if kind == ServiceType::ICMP {
            Ok(*reply)
        } else {
            Err(ProbeError {})
        },
        ProbeEvent::OtherError => Err(ProbeError {}),
    }
}

/// Collapses a probe outcome into the per-address boolean of a round: an
/// address counts as healthy only for a clean reachable result; an
/// infrastructure error makes the address count as unreachable for the
/// round and the cycle continues.
pub fn outcome_as_healthy(r: &Result<bool, ProbeError>) -> (b: bool)
    ensures
        b == (r matches Ok(true)),
{
    match r {
        Ok(v) => *v,
        Err(_) => false,
    }
}

/// A configured address whose probe kind was not recognised.
#[derive(Clone, Debug)]
pub struct UnknownServiceError {
    pub service_type: String,
    pub address: String,
}

/// The resolved address at place `j` matches the configured one: same
/// endpoint, and the probe kind its configured name names.
pub open spec fn spec_resolved_matches(v: Seq<PingAbleService>, addrs: Seq<Service>, j: int) -> bool {
    &&& v[j].remote_address@ == addrs[j].address@
    &&& Some(v[j].service_type) == spec_service_type_of(addrs[j].service_type@)
}

/// One probe-able address, resolved: endpoint plus probe kind.
#[derive(Clone, Debug)]
pub struct PingAbleService {
    pub remote_address: String,
    pub service_type: ServiceType,
}

impl PingAbleService {
    pub fn remote_address(&self) -> (r: &str)
        ensures
            r@ == self.remote_address@,
    {
        self.remote_address.as_str()
    }

    pub fn service_type(&self) -> (r: ServiceType)
        ensures
            r == self.service_type,
    {
        self.service_type
    }

    /// Resolves a configured address: the probe kind name is matched without
    /// regard to ASCII case; an unknown name is an error naming the entry.
    pub fn try_from(value: &Service) -> (r: Result<PingAbleService, UnknownServiceError>)
        ensures
            match spec_service_type_of(value.service_type@) {
                Some(t) => r matches Ok(p) && p.service_type == t && p.remote_address@
                    == value.address@,
                None => r matches Err(e) && e.service_type@ == value.service_type@ && e.address@
                    == value.address@,
            },
    {
        let lowered = crate::strutil::ascii_lowercase(value.service_type.as_str());
        let l = lowered.as_str();
        let kind: Option<ServiceType> = if crate::strutil::str_eq(l, "teamspeak")
            || crate::strutil::str_eq(l, "ts") {
            Some(ServiceType::TeamSpeak)
        } else if crate::strutil::str_eq(l, "ssh") {
            Some(ServiceType::SSH)
        } else if crate::strutil::str_eq(l, "http") {
            Some(ServiceType::HTTP)
        } else if crate::strutil::str_eq(l, "tcping") {
            Some(ServiceType::Tcping)
        } else if crate::strutil::str_eq(l, "icmp") || crate::strutil::str_eq(l, "ping") {
            Some(ServiceType::ICMP)
        } else {
            None
        };
        match kind {
            Some(service_type) => Ok(
                PingAbleService { remote_address: value.address.clone(), service_type },
            ),
            None => Err(
                UnknownServiceError {
                    service_type: value.service_type.clone(),
                    address: value.address.clone(),
                },
            ),
        }
    }
}

/// Status string of a component as the status page reports it.
#[derive(Clone, Debug)]
pub struct ComponentResponse {
    pub status: String,
}

impl ComponentResponse {
    pub fn status(&self) -> (r: &str)
        ensures
            r@ == self.status@,
    {
        self.status.as_str()
    }
}

/// One application of the hysteresis rule, given the confirmed status, the
/// pending counter, the candidate status of this round, and the confirmation
/// threshold: the new confirmed status, the new counter, and whether a
/// confirmed change is to be reported.
///
/// An agreeing round resets the counter. A disagreeing round below the
/// threshold only raises the counter; at the threshold it commits the
/// candidate and resets the counter.
pub open spec fn spec_hysteresis_step(
    current: ServerLastStatus,
    count: u64,
    candidate: ServerLastStatus,
    threshold: u64,
) -> (ServerLastStatus, u64, bool) {
    if candidate == current {
        (current, 0u64, false)
    } else if count >= threshold {
        (candidate, 0u64, true)
    } else {
        (current, (count + 1) as u64, false)
    }
}

/// The hysteresis rule applied `k` times with the same candidate: the final
/// confirmed status and counter, and how many confirmed changes were
/// reported along the way.
pub open spec fn spec_hysteresis_iter(
    current: ServerLastStatus,
    count: u64,
    candidate: ServerLastStatus,
    threshold: u64,
    k: nat,
) -> (ServerLastStatus, u64, nat)
    decreases k,
{
    if k == 0 {
        (current, count, 0nat)
    } else {
        let (st, ct, evs) = spec_hysteresis_iter(current, count, candidate, threshold, (k - 1) as nat);
        let (st2, ct2, ev) = spec_hysteresis_step(st, ct, candidate, threshold);
        (st2, ct2, evs + (if ev {
            1nat
        } else {
            0nat
        }))
    }
}

/// Law: reapplying the candidate that already is the confirmed status, any
/// number of times, never changes the status, leaves the counter at zero,
/// and reports nothing.
pub proof fn lemma_reapply_same_status_idempotent(
    current: ServerLastStatus,
    count: u64,
    threshold: u64,
    k: nat,
)
    requires
        k >= 1,
    ensures
        spec_hysteresis_iter(current, count, current, threshold, k) == (current, 0u64, 0nat),
    decreases k,
{
    if k == 1 {
        assert(spec_hysteresis_iter(current, count, current, threshold, 0nat) == (
            current,
            count,
            0nat,
        ));
    } else {
        lemma_reapply_same_status_idempotent(current, count, threshold, (k - 1) as nat);
    }
}

/// Law: a disagreeing candidate applied for `k <= threshold` consecutive
/// rounds, starting from a settled component, leaves the confirmed status
/// unchanged, raises the counter to exactly `k`, and reports nothing.
pub proof fn lemma_short_run_confirms_nothing(
    current: ServerLastStatus,
    candidate: ServerLastStatus,
    threshold: u64,
    k: nat,
)
    requires
        candidate != current,
        k <= threshold,
    ensures
        spec_hysteresis_iter(current, 0u64, candidate, threshold, k) == (current, k as u64, 0nat),
    decreases k,
{
    if k > 0 {
        lemma_short_run_confirms_nothing(current, candidate, threshold, (k - 1) as nat);
    }
}

/// Law: a disagreeing candidate needs exactly `threshold + 1` consecutive
/// rounds to flip the status; the run commits the candidate, resets the
/// counter, and reports exactly one confirmed change.
pub proof fn lemma_confirmation_needs_full_run(
    current: ServerLastStatus,
    candidate: ServerLastStatus,
    threshold: u64,
)
    requires
        candidate != current,
    ensures
        spec_hysteresis_iter(current, 0u64, candidate, threshold, threshold as nat + 1) == (
            candidate,
            0u64,
            1nat,
        ),
{
    lemma_short_run_confirms_nothing(current, candidate, threshold, threshold as nat);
}

/// Law: a run of disagreeing rounds that stops short of the threshold and is
/// followed by one agreeing round leaves the component settled again: status
/// unchanged, counter at zero, nothing reported.
pub proof fn lemma_agreeing_round_resets(
    current: ServerLastStatus,
    candidate: ServerLastStatus,
    threshold: u64,
    k: nat,
)
    requires
        candidate != current,
        k <= threshold,
    ensures
        ({
            let (st, ct, evs) = spec_hysteresis_iter(current, 0u64, candidate, threshold, k);
            &&& evs == 0nat
            &&& spec_hysteresis_step(st, ct, current, threshold) == (current, 0u64, false)
        }),
{
    lemma_short_run_confirms_nothing(current, candidate, threshold, k);
}

/// The tracked state of one monitored component: its confirmed status, the
/// addresses it is probed at, its reporting identity, and the pending
/// counter of the hysteresis rule.
#[derive(Clone, Debug)]
pub struct ServiceWrapper {
    pub last_status: ServerLastStatus,
    pub services: Vec<PingAbleService>,
    pub report_uuid: String,
    pub page: String,
    pub count: u64,
}

impl ServiceWrapper {
    pub fn report_uuid(&self) -> (r: &str)
        ensures
            r@ == self.report_uuid@,
    {
        self.report_uuid.as_str()
    }

    pub fn last_status(&self) -> (r: &ServerLastStatus)
        ensures
            r == &self.last_status,
    {
        &self.last_status
    }

    /// A component is in ongoing recheck while its pending counter is
    /// nonzero; only such components are probed on the sub-rounds after the
    /// first one of a cycle.
    pub fn ongoing_recheck(&self) -> (r: bool)
        ensures
            r == (self.count > 0),
    {
        self.count > 0
    }

    /// Applies one round's candidate status under the hysteresis rule and
    /// says whether the change became confirmed and is to be reported.
    pub fn update_last_status_condition(
        &mut self,
        last_status: ServerLastStatus,
        condition: u64,
    ) -> (r: bool)
        ensures
            ({
                let (st, ct, ev) = spec_hysteresis_step(
                    old(self).last_status,
                    old(self).count,
                    last_status,
                    condition,
                );
                &&& final(self).last_status == st
                &&& final(self).count == ct
                &&& r == ev
                &&& final(self).services == old(self).services
                &&& final(self).report_uuid == old(self).report_uuid
                &&& final(self).page == old(self).page
            }),
    {
        if self.last_status != last_status {
            if self.count >= condition {
                self.last_status = last_status;
                self.count = 0;
                true
            } else {
                self.count = self.count + 1;
                false
            }
        } else {
            self.count = 0;
            false
        }
    }

    /// Forgives an unconfirmed pending run at a cycle boundary.
    pub fn reset_count(&mut self)
        ensures
            final(self).count == 0,
            final(self).last_status == old(self).last_status,
            final(self).services == old(self).services,
            final(self).report_uuid == old(self).report_uuid,
            final(self).page == old(self).page,
    {
        self.count = 0
    }

    pub fn new(
        services: Vec<PingAbleService>,
        last_status: ServerLastStatus,
        identify_id: String,
        page: String,
    ) -> (r: Self)
        ensures
            r.services == services,
            r.last_status == last_status,
            r.report_uuid@ == identify_id@,
            r.page@ == page@,
            r.count == 0,
    {
        Self { last_status, services, report_uuid: identify_id, page, count: 0 }
    }

    /// Builds the tracked state of one component around a given starting
    /// status, resolving every configured address; a component with an
    /// address of unknown kind is rejected as a whole.
    pub fn new_with_last_status(s: &Component, last_status: ServerLastStatus) -> (r: Result<
        Self,
        UnknownServiceError,
    >)
        ensures
            (forall|i: int|
                0 <= i && i < s.addresses@.len() ==> spec_service_type_of(
                    s.addresses@[i].service_type@,
                ) is Some) <==> r is Ok,
            r matches Ok(w) ==> {
                &&& w.services@.len() == s.addresses@.len()
                &&& forall|i: int|
                    0 <= i && i < s.addresses@.len() ==> #[trigger] spec_resolved_matches(
                        w.services@,
                        s.addresses@,
                        i,
                    )
                &&& w.last_status == last_status
                &&& w.report_uuid@ == s.identity_id@
                &&& w.page@ == lower(s.page@)
                &&& w.count == 0
            },
    {
        let mut v: Vec<PingAbleService> = Vec::new();
        let n = s.addresses.len();
        let mut i: usize = 0;
        while i < n
            invariant
                n == s.addresses@.len(),
                i <= n,
                v@.len() == i,
                forall|j: int|
                    0 <= j && j < i ==> spec_service_type_of(s.addresses@[j].service_type@) is Some,
                forall|j: int|
                    0 <= j && j < i ==> #[trigger] spec_resolved_matches(v@, s.addresses@, j),
            decreases n - i,
        {
            let service = &s.addresses[i];
            match PingAbleService::try_from(service) {
                Ok(p) => {
                    let ghost pre = v@;
                    v.push(p);
                    proof {
                        assert forall|j: int| 0 <= j && j < i + 1 implies #[trigger] spec_resolved_matches(
                            v@,
                            s.addresses@,
                            j,
                        ) by {
                            if j < i {
                                assert(spec_resolved_matches(pre, s.addresses@, j));
                                assert(v@[j] == pre[j]);
                            } else {
                                assert(v@[j] == p);
                            }
                        }
                    }
                },
                Err(e) => {
                    return Err(e);
                },
            }
            i += 1;
        }
        Ok(
            Self::new(
                v,
                last_status,
                s.identity_id.clone(),
                crate::strutil::ascii_lowercase(s.page.as_str()),
            ),
        )
    }

    pub fn page(&self) -> (r: &str)
        ensures
            r@ == self.page@,
    {
        self.page.as_str()
    }

    /// The address the component is named by in diagnostics: its first
    /// probe-able address, or its report identity when it has none.
    pub fn remote_address(&self) -> (r: String)
        ensures
            (self.services@.len() > 0 ==> r@ == self.services@[0].remote_address@),
            (self.services@.len() == 0 ==> r@ == self.report_uuid@),
    {
        if self.services.len() > 0 {
            let s: &PingAbleService = &self.services[0];
            s.remote_address.clone()
        } else {
            self.report_uuid.clone()
        }
    }

    /// Whether any address of the component is probed over ICMP.
    pub fn has_icmp_ping(&self) -> (r: bool)
        ensures
            r == (exists|i: int|
                0 <= i && i < self.services@.len() && self.services@[i].service_type
                    == ServiceType::ICMP),
    {
        let n = self.services.len();
        let mut i: usize = 0;
        while i < n
            invariant
                n == self.services@.len(),
                i <= n,
                forall|j: int|
                    0 <= j && j < i ==> self.services@[j].service_type != ServiceType::ICMP,
            decreases n - i,
        {
            if self.services[i].service_type == ServiceType::ICMP {
                return true;
            }
            i += 1;
        }
        false
    }
}

} // verus!
