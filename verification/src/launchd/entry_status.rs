use vstd::prelude::*;
use crate::launchd::enums::{DomainType, SessionType, session_type_from_name};
use crate::launchd::label_map::LabelMap;
use crate::launchd::plist::LaunchdPlist;

verus! {

/// How long a cached status is good for, in milliseconds.
pub const ENTRY_INFO_QUERY_TTL_MS: u64 = 15000;

/// What launchd and the plists say about a job, and when it was asked.
#[derive(Debug, PartialEq, Eq, Hash)]
pub struct LaunchdEntryStatus {
    pub plist: Option<LaunchdPlist>,
    pub limit_load_to_session_type: SessionType,
    pub domain: DomainType,
    /// The XPC response holds the pid as an i64.
    pub pid: i64,
    /// When the status was built, in milliseconds since the epoch.
    pub tick_ms: u64,
}

impl Clone for LaunchdEntryStatus {
    fn clone(&self) -> (r: Self)
        ensures
            r == *self,
    {
        LaunchdEntryStatus {
            plist: match &self.plist {
                Some(p) => Some(p.clone()),
                None => None,
            },
            limit_load_to_session_type: self.limit_load_to_session_type,
            domain: self.domain,
            pid: self.pid,
            tick_ms: self.tick_ms,
        }
    }
}

impl LaunchdEntryStatus {
    /// The status of a job nothing is known of, built at `now_ms`.
    pub fn default_at(now_ms: u64) -> (r: Self)
        ensures
            r.limit_load_to_session_type == SessionType::Unknown,
            r.domain == DomainType::Unknown,
            r.plist is None,
            r.pid == 0,
            r.tick_ms == now_ms,
    {
        LaunchdEntryStatus {
            limit_load_to_session_type: SessionType::Unknown,
            domain: DomainType::Unknown,
            plist: None,
            pid: 0,
            tick_ms: now_ms,
        }
    }
}

/// Build the status of a job from launchd's answer: the domain it was found
/// in (if any), and from its service entry its pid and the session type it
/// is limited to (if present); plus its plist, if one was found on disk.
pub fn build_entry_status(
    domain: Option<DomainType>,
    pid: Option<i64>,
    limit_load_to_session_type: Option<String>,
    plist: Option<LaunchdPlist>,
    now_ms: u64,
) -> (r: LaunchdEntryStatus)
    ensures
        r.domain == (match domain {
            Some(d) => d,
            None => DomainType::Unknown,
        }),
        r.pid == (match pid {
            Some(p) => p,
            None => 0,
        }),
        r.limit_load_to_session_type == (match limit_load_to_session_type {
            Some(s) => session_type_from_name(s@),
            None => SessionType::Unknown,
        }),
        r.plist == plist,
        r.tick_ms == now_ms,
{
    let session = match &limit_load_to_session_type {
        Some(s) => SessionType::from_name(s.as_str()),
        None => SessionType::Unknown,
    };
    LaunchdEntryStatus {
        limit_load_to_session_type: session,
        domain: match domain {
            Some(d) => d,
            None => DomainType::Unknown,
        },
        plist,
        pid: match pid {
            Some(p) => p,
            None => 0,
        },
        tick_ms: now_ms,
    }
}

/// Whether a status built at `tick` is too old at `now`.
pub open spec fn is_expired(tick: u64, now: u64) -> bool {
    now - tick > ENTRY_INFO_QUERY_TTL_MS
}

/// The cached status of each job.
pub type EntryStatusCache = LabelMap<LaunchdEntryStatus>;

/// No cached status was built after `now`.
pub open spec fn built_by(cache: Map<Seq<char>, LaunchdEntryStatus>, now: u64) -> bool {
    forall|k: Seq<char>| #[trigger] cache.contains_key(k) ==> cache[k].tick_ms <= now
}

/// What a lookup of a label gives at `now`: the cached status while it is
/// within its time to live, else nothing.
pub open spec fn cached_status(cache: Map<Seq<char>, LaunchdEntryStatus>, label: Seq<char>, now: u64) -> Option<
    LaunchdEntryStatus,
> {
    if cache.contains_key(label) && !is_expired(cache[label].tick_ms, now) {
        Some(cache[label])
    } else {
        None
    }
}

/// Get the cached status of a job. A status older than the time to live is
/// dropped from the cache; a missing or dropped status is `None`, and the
/// caller asks launchd and records the answer with `record_entry_status`.
pub fn get_entry_status(cache: &mut EntryStatusCache, label: &str, now_ms: u64) -> (r: Option<
    LaunchdEntryStatus,
>)
    requires
        built_by(old(cache)@, now_ms),
    ensures
        r == cached_status(old(cache)@, label@, now_ms),
        match r {
            Some(s) => {
                &&& old(cache)@.contains_key(label@)
                &&& s == old(cache)@[label@]
                &&& !is_expired(s.tick_ms, now_ms)
                &&& final(cache)@ == old(cache)@
            },
            None => {
                &&& !old(cache)@.contains_key(label@) || is_expired(
                    old(cache)@[label@].tick_ms,
                    now_ms,
                )
                &&& final(cache)@ == old(cache)@.remove(label@)
            },
        },
{
    let expired = match cache.get(label) {
        Some(item) => {
            if now_ms - item.tick_ms > ENTRY_INFO_QUERY_TTL_MS {
                true
            } else {
                return Some(item.clone());
            }
        },
        None => false,
    };
    if expired {
        cache.remove(label);
    } else {
        proof {
            assert(cache@.remove(label@) =~= cache@);
        }
    }
    None
}

/// Record a freshly built status of a job in the cache.
pub fn record_entry_status(cache: &mut EntryStatusCache, label: String, status: LaunchdEntryStatus)
    ensures
        final(cache)@ == old(cache)@.insert(label@, status),
{
    cache.insert(label, status);
}

/// Forget the cached status of a job, so that the next read asks launchd
/// again (done before a command changes the job).
pub fn invalidate_entry_status(cache: &mut EntryStatusCache, label: &str)
    ensures
        final(cache)@ == old(cache)@.remove(label@),
{
    cache.remove(label);
}

/// A status recorded for a label, then looked up within its time to live,
/// is the status recorded; once it has expired the lookup gives nothing, and
/// recording a label leaves the lookups of other labels as they were.
pub proof fn law_cached_status_is_last_recorded(
    cache: Map<Seq<char>, LaunchdEntryStatus>,
    label: Seq<char>,
    status: LaunchdEntryStatus,
    other: Seq<char>,
    now: u64,
)
    requires
        other != label,
    ensures
        !is_expired(status.tick_ms, now) ==> cached_status(cache.insert(label, status), label, now) == Some(
            status,
        ),
        is_expired(status.tick_ms, now) ==> cached_status(cache.insert(label, status), label, now) is None,
        cached_status(cache.insert(label, status), other, now) == cached_status(cache, other, now),
{
}

} // verus!
