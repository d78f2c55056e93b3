//! The crash-safe cache: a versioned, timestamped snapshot of every tracked
//! component's confirmed status.
//!
//! Reading and writing the cache file itself happens outside this crate; the
//! functions here turn tracked state into the snapshot text and the snapshot
//! text back into entries, with the version and staleness checks of the
//! pre-read.

use vstd::prelude::*;
use vstd::string::StringExecFns;
use crate::connlib::ServiceWrapper;
use crate::datastructures::spec_status_str;
use crate::jsontext;
use crate::jsontext::SnapshotView;

verus! {

/// The snapshot format this agent writes and accepts.
pub const CURRENT_VERSION: u64 = 2;

/// How old a snapshot may be, in seconds, and still seed a warm start.
pub const DEADLINE: u64 = 600;

/// Seconds since the Unix epoch.
pub fn get_current_timestamp() -> u64 {
    crate::database::get_current_timestamp()
}

/// A snapshot written by another format version.
#[derive(Clone, Debug)]
pub struct VersionNotMatchError {
    pub current_version: u64,
}

impl VersionNotMatchError {
    pub fn from_pre_read(data: &PreReadCacheData) -> (r: Self)
        ensures
            r.current_version == data.version,
    {
        Self { current_version: data.version }
    }

    /// What went wrong, in words.
    pub fn message(&self) -> (r: String)
        ensures
            r@ == "Version not match, except "@ + jsontext::spec_u64_digits(CURRENT_VERSION)
                + " but "@ + jsontext::spec_u64_digits(self.current_version) + " found"@,
    {
        let mut out: Vec<char> = Vec::new();
        jsontext::push_str_chars(&mut out, "Version not match, except ");
        jsontext::push_u64_digits(&mut out, CURRENT_VERSION);
        jsontext::push_str_chars(&mut out, " but ");
        jsontext::push_u64_digits(&mut out, self.current_version);
        jsontext::push_str_chars(&mut out, " found");
        crate::strutil::chars_to_string(&out)
    }
}

/// A snapshot older than the staleness deadline.
#[derive(Debug, Clone)]
pub struct OutdatedError {}

impl OutdatedError {
    pub fn new() -> (r: Self) {
        Self {}
    }

    /// What went wrong, in words.
    pub fn message(&self) -> (r: String)
        ensures
            r@ == "OutdatedError"@,
    {
        String::from_str("OutdatedError")
    }
}

/// Why a snapshot text could not be used.
#[derive(Clone, Debug)]
pub enum CacheError {
    /// The text is not a snapshot, or its body is malformed.
    Malformed,
    /// The snapshot was written by another format version.
    VersionNotMatch(VersionNotMatchError),
    /// The snapshot is older than the staleness deadline.
    Outdated(OutdatedError),
}

/// The lightweight pre-read of a snapshot: format version and write
/// timestamp, found without examining the snapshot body.
#[derive(Debug, Clone)]
pub struct PreReadCacheData {
    pub version: u64,
    pub timestamp: u64,
}

impl PreReadCacheData {
    pub fn version(&self) -> (r: u64)
        ensures
            r == self.version,
    {
        self.version
    }

    pub fn timestamp(&self) -> (r: u64)
        ensures
            r == self.timestamp,
    {
        self.timestamp
    }
}

/// One snapshot entry: a component's identity and its confirmed status.
#[derive(Debug, Clone)]
pub struct ComponentCache {
    pub id: String,
    pub last_status: String,
}

impl ComponentCache {
    pub fn id(&self) -> (r: &str)
        ensures
            r@ == self.id@,
    {
        self.id.as_str()
    }

    pub fn last_status(&self) -> (r: &str)
        ensures
            r@ == self.last_status@,
    {
        self.last_status.as_str()
    }

    /// The snapshot entry of one tracked component.
    pub fn from_service(service: &ServiceWrapper) -> (r: Self)
        ensures
            r.id@ == service.report_uuid@,
            r.last_status@ == spec_status_str(service.last_status),
    {
        Self {
            id: service.report_uuid.clone(),
            last_status: String::from_str(service.last_status.as_str()),
        }
    }
}

/// A whole snapshot: format version, write timestamp, and one entry per
/// tracked component.
#[derive(Debug, Clone)]
pub struct CacheData {
    pub version: u64,
    pub timestamp: u64,
    pub data: Vec<ComponentCache>,
}

/// The mathematical content of a snapshot's entries.
pub open spec fn spec_entries(data: Seq<ComponentCache>) -> Seq<(Seq<char>, Seq<char>)> {
    data.map_values(|c: ComponentCache| (c.id@, c.last_status@))
}

/// The entry at place `j` records the component at place `j`: same identity,
/// and the wire name of its confirmed status.
pub open spec fn spec_entry_records(
    data: Seq<ComponentCache>,
    services: Seq<ServiceWrapper>,
    j: int,
) -> bool {
    &&& data[j].id@ == services[j].report_uuid@
    &&& data[j].last_status@ == spec_status_str(services[j].last_status)
}

impl CacheData {
    pub fn data(&self) -> (r: &Vec<ComponentCache>)
        ensures
            r == &self.data,
    {
        &self.data
    }

    /// Captures the current snapshot of the tracked components: the running
    /// format version, the given timestamp, and one entry per component.
    pub fn from_services(services: &Vec<ServiceWrapper>, now: u64) -> (r: Self)
        ensures
            r.version == CURRENT_VERSION,
            r.timestamp == now,
            r.data@.len() == services@.len(),
            forall|j: int|
                0 <= j < services@.len() ==> #[trigger] spec_entry_records(r.data@, services@, j),
    {
        let mut data: Vec<ComponentCache> = Vec::new();
        let n = services.len();
        let mut i: usize = 0;
        while i < n
            invariant
                n == services@.len(),
                i <= n,
                data@.len() == i,
                forall|j: int| 0 <= j < i ==> #[trigger] spec_entry_records(data@, services@, j),
            decreases n - i,
        {
            let ghost pre = data@;
            data.push(ComponentCache::from_service(&services[i]));
            proof {
                assert forall|j: int| 0 <= j < i + 1 implies #[trigger] spec_entry_records(
                    data@,
                    services@,
                    j,
                ) by {
                    if j < i {
                        assert(spec_entry_records(pre, services@, j));
                        assert(data@[j] == pre[j]);
                    }
                }
            }
            i += 1;
        }
        Self { version: CURRENT_VERSION, timestamp: now, data }
    }
}

/// Writes the snapshot text that `load_cache` reads back.
pub fn write_cache(data: &CacheData) -> (r: String)
    ensures
        r@ == jsontext::spec_render_snapshot(data.version, data.timestamp, spec_entries(
            data.data@,
        )),
{
    let mut pairs: Vec<(String, String)> = Vec::new();
    let n = data.data.len();
    let mut i: usize = 0;
    while i < n
        invariant
            n == data.data@.len(),
            i <= n,
            pairs@.len() == i,
            jsontext::string_entries_view(pairs@) == spec_entries(data.data@).take(i as int),
        decreases n - i,
    {
        let ghost pre = pairs@;
        let c = &data.data[i];
        pairs.push((c.id.clone(), c.last_status.clone()));
        proof {
            assert(jsontext::string_entries_view(pairs@) =~= jsontext::string_entries_view(
                pre,
            ).push((data.data@[i as int].id@, data.data@[i as int].last_status@)));
            assert(spec_entries(data.data@).take(i as int + 1) =~= spec_entries(
                data.data@,
            ).take(i as int).push((data.data@[i as int].id@, data.data@[i as int].last_status@)));
        }
        i += 1;
    }
    proof {
        assert(spec_entries(data.data@).take(n as int) =~= spec_entries(data.data@));
    }
    let out = jsontext::render_snapshot(data.version, data.timestamp, &pairs);
    crate::strutil::chars_to_string(&out)
}

/// The lightweight pre-read of a snapshot text.
pub fn pre_read_cache(content: &str) -> (r: Result<PreReadCacheData, CacheError>)
    ensures
        match jsontext::spec_parse_header(content@) {
            Some(h) => r matches Ok(p) && p.version == h.0 && p.timestamp == h.1,
            None => r matches Err(e) && e is Malformed,
        },
{
    let chars = crate::strutil::str_chars(content);
    match jsontext::parse_header(&chars) {
        Some((version, timestamp)) => Ok(PreReadCacheData { version, timestamp }),
        None => Err(CacheError::Malformed),
    }
}

/// Reads a snapshot text: the pre-read header first, then the version and
/// staleness checks, and only then the body. A version mismatch is reported
/// regardless of age; a snapshot older than the deadline is rejected even
/// when well formed.
pub fn load_cache(content: &str, now: u64) -> (r: Result<CacheData, CacheError>)
    ensures
        match jsontext::spec_parse_header(content@) {
            None => r matches Err(e) && e is Malformed,
            Some(h) => {
                if h.0 != CURRENT_VERSION {
                    r matches Err(e) && (e matches CacheError::VersionNotMatch(v)
                        && v.current_version == h.0)
                } else if now - h.1 > DEADLINE {
                    r matches Err(e) && e is Outdated
                } else {
                    match jsontext::spec_parse_snapshot(content@) {
                        None => r matches Err(e) && e is Malformed,
                        Some(sv) => r matches Ok(d) && d.version == sv.version && d.timestamp
                            == sv.timestamp && spec_entries(d.data@) == sv.entries,
                    }
                }
            },
        },
{
    let chars = crate::strutil::str_chars(content);
    let (version, timestamp) = match jsontext::parse_header(&chars) {
        Some(h) => h,
        None => {
            return Err(CacheError::Malformed);
        },
    };
    if version != CURRENT_VERSION {
        return Err(CacheError::VersionNotMatch(VersionNotMatchError { current_version: version }));
    }
    if now > DEADLINE && timestamp < now - DEADLINE {
        return Err(CacheError::Outdated(OutdatedError::new()));
    }
    let (v2, t2, raw) = match jsontext::parse_snapshot(&chars) {
        Some(p) => p,
        None => {
            return Err(CacheError::Malformed);
        },
    };
    let mut data: Vec<ComponentCache> = Vec::new();
    let n = raw.len();
    let mut i: usize = 0;
    while i < n
        invariant
            n == raw@.len(),
            i <= n,
            data@.len() == i,
            spec_entries(data@) == jsontext::entries_view(raw@).take(i as int),
        decreases n - i,
    {
        let ghost pre = data@;
        let entry = &raw[i];
        let id = crate::strutil::chars_to_string(&entry.0);
        let last_status = crate::strutil::chars_to_string(&entry.1);
        data.push(ComponentCache { id, last_status });
        proof {
            assert(spec_entries(data@) =~= spec_entries(pre).push(
                (raw@[i as int].0@, raw@[i as int].1@),
            ));
            assert(jsontext::entries_view(raw@).take(i as int + 1) =~= jsontext::entries_view(
                raw@,
            ).take(i as int).push((raw@[i as int].0@, raw@[i as int].1@)));
        }
        i += 1;
    }
    proof {
        assert(jsontext::entries_view(raw@).take(n as int) =~= jsontext::entries_view(raw@));
    }
    Ok(CacheData { version: v2, timestamp: t2, data })
}

/// Law: a snapshot written with the running format version and read back
/// within the staleness deadline is accepted, with the very version,
/// timestamp and entries that were written; the rejection of other versions
/// and of stale snapshots is part of `load_cache`'s contract.
pub proof fn lemma_cache_round_trip(data: CacheData)
    requires
        data.version == CURRENT_VERSION,
    ensures
        ({
            let text = jsontext::spec_render_snapshot(data.version, data.timestamp, spec_entries(
                data.data@,
            ));
            &&& jsontext::spec_parse_header(text) == Some((data.version, data.timestamp))
            &&& jsontext::spec_parse_snapshot(text) == Some(
                SnapshotView {
                    version: data.version,
                    timestamp: data.timestamp,
                    entries: spec_entries(data.data@),
                },
            )
        }),
{
    jsontext::lemma_snapshot_round_trip(data.version, data.timestamp, spec_entries(data.data@));
}

} // verus!
