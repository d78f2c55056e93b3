//! The check cycle's decisions: which components a sub-round probes, how a
//! round of candidate statuses is applied under the hysteresis rule, what is
//! reported upstream, and how a warm start is seeded from the cache.
//!
//! The timing itself (intervals, concurrent probe dispatch, the background
//! cache writer) lives outside this crate and calls these functions between
//! the waits.

use vstd::prelude::*;
use crate::cache::ComponentCache;
use crate::configure::Component;
use crate::connlib::{spec_hysteresis_step, spec_resolved_matches, spec_service_type_of};
use crate::connlib::ServiceWrapper;
use crate::datastructures::{spec_status_from_str, ServerLastStatus};
use crate::strutil::lower;

verus! {

/// Whether a sub-round probes this component: the first sub-round of a
/// cycle probes every component, later sub-rounds only those in ongoing
/// recheck.
pub fn should_probe(w: &ServiceWrapper, first_round: bool) -> (r: bool)
    ensures
        r == (first_round || w.count > 0),
{
    first_round || w.ongoing_recheck()
}

/// A confirmed status change, ready to be reported upstream.
#[derive(Clone, Debug)]
pub struct ConfirmedChange {
    pub report_uuid: String,
    pub page: String,
    pub status: ServerLastStatus,
}

/// One round of candidate statuses applied to the tracked components, in
/// order: each probed component steps under the hysteresis rule, skipped
/// components (`None`) stay as they are, and the confirmed changes are
/// collected for reporting.
pub open spec fn spec_apply_round(
    ss: Seq<ServiceWrapper>,
    rs: Seq<Option<ServerLastStatus>>,
    threshold: u64,
) -> (Seq<ServiceWrapper>, Seq<ConfirmedChange>)
    decreases ss.len(),
{
    if ss.len() == 0 {
        (Seq::empty(), Seq::empty())
    } else {
        let (prev_ss, prev_ev) = spec_apply_round(ss.drop_last(), rs.drop_last(), threshold);
        let w = ss.last();
        match rs.last() {
            None => (prev_ss.push(w), prev_ev),
            Some(cand) => {
                let (st, ct, ev) = spec_hysteresis_step(w.last_status, w.count, cand, threshold);
                let w2 = ServiceWrapper {
                    last_status: st,
                    services: w.services,
                    report_uuid: w.report_uuid,
                    page: w.page,
                    count: ct,
                };
                if ev {
                    (
                        prev_ss.push(w2),
                        prev_ev.push(
                            ConfirmedChange {
                                report_uuid: w.report_uuid,
                                page: w.page,
                                status: st,
                            },
                        ),
                    )
                } else {
                    (prev_ss.push(w2), prev_ev)
                }
            },
        }
    }
}

/// Applies one sub-round's results to the tracked components and returns
/// the confirmed changes to report, in component order.
pub fn apply_results(
    services: &mut Vec<ServiceWrapper>,
    results: &Vec<Option<ServerLastStatus>>,
    threshold: u64,
) -> (events: Vec<ConfirmedChange>)
    requires
        old(services)@.len() == results@.len(),
    ensures
        final(services)@ == spec_apply_round(old(services)@, results@, threshold).0,
        events@ == spec_apply_round(old(services)@, results@, threshold).1,
{
    let mut events: Vec<ConfirmedChange> = Vec::new();
    let n = services.len();
    let mut i: usize = 0;
    proof {
        assert(old(services)@.take(0) =~= Seq::<ServiceWrapper>::empty());
        assert(results@.take(0) =~= Seq::<Option<ServerLastStatus>>::empty());
    }
    while i < n
        invariant
            n == old(services)@.len(),
            results@.len() == n,
            i <= n,
            services@.len() == n,
            forall|j: int| i <= j < n ==> services@[j] == old(services)@[j],
            services@.take(i as int) == spec_apply_round(
                old(services)@.take(i as int),
                results@.take(i as int),
                threshold,
            ).0,
            events@ == spec_apply_round(
                old(services)@.take(i as int),
                results@.take(i as int),
                threshold,
            ).1,
        decreases n - i,
    {
        proof {
            assert(old(services)@.take(i as int + 1).drop_last() =~= old(services)@.take(i as int));
            assert(results@.take(i as int + 1).drop_last() =~= results@.take(i as int));
            assert(old(services)@.take(i as int + 1).last() == old(services)@[i as int]);
            assert(results@.take(i as int + 1).last() == results@[i as int]);
        }
        let ghost pre = services@;
        match results[i] {
            None => {
                proof {
                    assert(services@.take(i as int + 1) =~= services@.take(i as int).push(
                        services@[i as int],
                    ));
                }
            },
            Some(cand) => {
                let confirmed = services[i].update_last_status_condition(cand, threshold);
                if confirmed {
                    let uuid = services[i].report_uuid.clone();
                    let page = services[i].page.clone();
                    let status = services[i].last_status;
                    events.push(ConfirmedChange { report_uuid: uuid, page, status });
                }
                proof {
                    assert(services@.take(i as int) =~= pre.take(i as int));
                    assert(services@.take(i as int + 1) =~= services@.take(i as int).push(
                        services@[i as int],
                    ));
                }
            },
        }
        i += 1;
    }
    proof {
        assert(old(services)@.take(n as int) =~= old(services)@);
        assert(results@.take(n as int) =~= results@);
        assert(services@.take(n as int) =~= services@);
    }
    events
}

/// Forgives every unconfirmed pending run at the end of a cycle: all
/// counters return to zero, nothing else changes.
pub fn reset_all_counts(services: &mut Vec<ServiceWrapper>)
    ensures
        final(services)@.len() == old(services)@.len(),
        forall|j: int|
            0 <= j < old(services)@.len() ==> #[trigger] final(services)@[j] == (ServiceWrapper {
                count: 0u64,
                ..old(services)@[j]
            }),
{
    let n = services.len();
    let mut i: usize = 0;
    while i < n
        invariant
            n == old(services)@.len(),
            i <= n,
            services@.len() == n,
            forall|j: int| i <= j < n ==> services@[j] == old(services)@[j],
            forall|j: int|
                0 <= j < i ==> #[trigger] services@[j] == (ServiceWrapper {
                    count: 0u64,
                    ..old(services)@[j]
                }),
        decreases n - i,
    {
        services[i].reset_count();
        i += 1;
    }
}

/// The status a cache snapshot holds for a component identity: the first
/// entry with that identity, read as a wire status string.
pub open spec fn spec_cache_status_for(cache: Seq<ComponentCache>, id: Seq<char>) -> Option<
    ServerLastStatus,
>
    decreases cache.len(),
{
    if cache.len() == 0 {
        None
    } else if cache[0].id@ == id {
        Some(spec_status_from_str(cache[0].last_status@))
    } else {
        spec_cache_status_for(cache.drop_first(), id)
    }
}

/// Looks a component identity up in the cache entries.
pub fn cache_status_for(cache: &Vec<ComponentCache>, id: &str) -> (r: Option<ServerLastStatus>)
    ensures
        r == spec_cache_status_for(cache@, id@),
{
    let n = cache.len();
    let mut i: usize = 0;
    proof {
        assert(cache@.skip(0) =~= cache@);
    }
    while i < n
        invariant
            n == cache@.len(),
            i <= n,
            spec_cache_status_for(cache@, id@) == spec_cache_status_for(
                cache@.skip(i as int),
                id@,
            ),
        decreases n - i,
    {
        proof {
            assert(cache@.skip(i as int)[0] == cache@[i as int]);
            assert(cache@.skip(i as int).drop_first() =~= cache@.skip(i as int + 1));
        }
        if crate::strutil::str_eq(cache[i].id.as_str(), id) {
            return Some(ServerLastStatus::from_str(cache[i].last_status.as_str()));
        }
        i += 1;
    }
    proof {
        assert(cache@.skip(n as int) =~= Seq::<ComponentCache>::empty());
    }
    None
}

/// A component every one of whose addresses names a known probe kind.
pub open spec fn spec_component_resolvable(c: Component) -> bool {
    forall|i: int|
        0 <= i < c.addresses@.len() ==> spec_service_type_of(
            #[trigger] c.addresses@[i].service_type@,
        ) is Some
}

/// The components that survive resolution, in order: those with an address
/// of unknown kind are dropped.
pub open spec fn spec_kept(components: Seq<Component>) -> Seq<Component>
    decreases components.len(),
{
    if components.len() == 0 {
        Seq::empty()
    } else {
        let prev = spec_kept(components.drop_last());
        if spec_component_resolvable(components.last()) {
            prev.push(components.last())
        } else {
            prev
        }
    }
}

/// The tracked component at place `j` of a warm start is the resolved form
/// of the kept component at place `j`, seeded from the cache: its status
/// and warm mark come from the cache entry with its identity, or stand at
/// `Unknown` and cold when the cache has none.
pub open spec fn spec_tracked_matches(
    ss: Seq<ServiceWrapper>,
    warm: Seq<bool>,
    kept: Seq<Component>,
    cache: Seq<ComponentCache>,
    j: int,
) -> bool {
    let c = kept[j];
    let w = ss[j];
    &&& w.report_uuid@ == c.identity_id@
    &&& w.page@ == lower(c.page@)
    &&& w.count == 0
    &&& w.services@.len() == c.addresses@.len()
    &&& forall|k: int|
        0 <= k < c.addresses@.len() ==> #[trigger] spec_resolved_matches(w.services@, c.addresses@, k)
    &&& match spec_cache_status_for(cache, c.identity_id@) {
        Some(st) => w.last_status == st && warm[j],
        None => w.last_status == ServerLastStatus::Unknown && !warm[j],
    }
}

/// A warm start: the tracked components, and beside each a mark saying
/// whether its status was seeded from the cache, so that the initial live
/// determination can be skipped for it.
pub struct WarmStart {
    pub services: Vec<ServiceWrapper>,
    pub warm: Vec<bool>,
}

/// Builds the tracked components from the configured ones, merged with the
/// entries of a usable cache snapshot: cached statuses pre-seed the
/// components they name; components with an address of unknown probe kind
/// are dropped.
pub fn build_tracked(components: &Vec<Component>, cache: &Vec<ComponentCache>) -> (r: WarmStart)
    ensures
        r.services@.len() == spec_kept(components@).len(),
        r.warm@.len() == r.services@.len(),
        forall|j: int|
            0 <= j < r.services@.len() ==> #[trigger] spec_tracked_matches(
                r.services@,
                r.warm@,
                spec_kept(components@),
                cache@,
                j,
            ),
{
    let mut services: Vec<ServiceWrapper> = Vec::new();
    let mut warm: Vec<bool> = Vec::new();
    let n = components.len();
    let mut i: usize = 0;
    proof {
        assert(spec_kept(components@.take(0)) =~= Seq::<Component>::empty());
    }
    while i < n
        invariant
            n == components@.len(),
            i <= n,
            services@.len() == spec_kept(components@.take(i as int)).len(),
            warm@.len() == services@.len(),
            forall|j: int|
                0 <= j < services@.len() ==> #[trigger] spec_tracked_matches(
                    services@,
                    warm@,
                    spec_kept(components@.take(i as int)),
                    cache@,
                    j,
                ),
        decreases n - i,
    {
        proof {
            assert(components@.take(i as int + 1).drop_last() =~= components@.take(i as int));
            assert(components@.take(i as int + 1).last() == components@[i as int]);
        }
        let c = &components[i];
        let ghost pre_services = services@;
        let ghost pre_warm = warm@;
        let ghost pre_kept = spec_kept(components@.take(i as int));
        let (status, is_warm) = match cache_status_for(cache, c.report_id()) {
            Some(st) => (st, true),
            None => (ServerLastStatus::Unknown, false),
        };
        match ServiceWrapper::new_with_last_status(c, status) {
            Ok(w) => {
                services.push(w);
                warm.push(is_warm);
                proof {
                    assert(spec_component_resolvable(components@[i as int]));
                    assert(spec_kept(components@.take(i as int + 1)) =~= pre_kept.push(
                        components@[i as int],
                    ));
                    assert forall|j: int| 0 <= j < services@.len() implies
                        #[trigger] spec_tracked_matches(
                        services@,
                        warm@,
                        spec_kept(components@.take(i as int + 1)),
                        cache@,
                        j,
                    ) by {
                        if j < pre_services.len() {
                            assert(spec_tracked_matches(pre_services, pre_warm, pre_kept, cache@, j));
                            assert(services@[j] == pre_services[j]);
                            assert(warm@[j] == pre_warm[j]);
                            assert(spec_kept(components@.take(i as int + 1))[j] == pre_kept[j]);
                        } else {
                            assert(services@[j] == w);
                            assert(warm@[j] == is_warm);
                        }
                    }
                }
            },
            Err(_) => {
                proof {
                    assert(!spec_component_resolvable(components@[i as int]));
                    assert(spec_kept(components@.take(i as int + 1)) =~= pre_kept);
                }
            },
        }
        i += 1;
    }
    proof {
        assert(components@.take(n as int) =~= components@);
    }
    WarmStart { services, warm }
}

} // verus!
