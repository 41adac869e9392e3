use vstd::prelude::*;
use crate::launchd::config::LaunchdEntryConfig;
use crate::launchd::enums::{SessionType, session_type_from_name};
use crate::launchd::label_map::LabelMap;

verus! {

/// LimitLoadToSessionType key in an XPC response.
pub type LimitLoadToSessionType = SessionType;

/// What is known of a job: its plist (if found on disk) and the session
/// type it is limited to.
#[derive(Debug, PartialEq, Eq)]
pub struct LaunchdEntryInfo {
    pub entry_config: Option<LaunchdEntryConfig>,
    pub limit_load_to_session_type: LimitLoadToSessionType,
}

impl Clone for LaunchdEntryInfo {
    fn clone(&self) -> (r: Self)
        ensures
            r == *self,
    {
        LaunchdEntryInfo {
            entry_config: match &self.entry_config {
                Some(c) => Some(c.clone()),
                None => None,
            },
            limit_load_to_session_type: self.limit_load_to_session_type,
        }
    }
}

/// The info of each job asked about so far.
pub type EntryInfoCache = LabelMap<LaunchdEntryInfo>;

/// What a lookup of a label gives: the cached info, which never expires, or
/// nothing.
pub open spec fn cached_info(cache: Map<Seq<char>, LaunchdEntryInfo>, label: Seq<char>) -> Option<
    LaunchdEntryInfo,
> {
    if cache.contains_key(label) {
        Some(cache[label])
    } else {
        None
    }
}

/// The cached info of a job, if it was asked about before. On `None` the
/// caller asks launchd, builds the info with `build_entry_info` and records
/// it with `record_entry_info`.
pub fn find_entry_info(cache: &EntryInfoCache, label: &str) -> (r: Option<LaunchdEntryInfo>)
    ensures
        r == cached_info(cache@, label@),
{
    match cache.get(label) {
        Some(i) => Some(i.clone()),
        None => None,
    }
}

/// Build the info of a job from the session type launchd reports for it (a
/// string, when the reply has one) and its plist.
pub fn build_entry_info(
    limit_load_to_session_type: Option<String>,
    entry_config: Option<LaunchdEntryConfig>,
) -> (r: LaunchdEntryInfo)
    ensures
        r.limit_load_to_session_type == (match limit_load_to_session_type {
            Some(s) => session_type_from_name(s@),
            None => SessionType::Unknown,
        }),
        r.entry_config == entry_config,
{
    let t = match &limit_load_to_session_type {
        Some(s) => SessionType::from_name(s.as_str()),
        None => SessionType::Unknown,
    };
    LaunchdEntryInfo { limit_load_to_session_type: t, entry_config }
}

/// Record the info of a job in the cache.
pub fn record_entry_info(cache: &mut EntryInfoCache, label: String, info: LaunchdEntryInfo)
    ensures
        final(cache)@ == old(cache)@.insert(label@, info),
{
    cache.insert(label, info);
}

/// The info recorded for a label is what every later lookup of it gives,
/// until another info is recorded for it; recording a label leaves the
/// lookups of other labels as they were.
pub proof fn law_recorded_info_is_found(
    cache: Map<Seq<char>, LaunchdEntryInfo>,
    label: Seq<char>,
    info: LaunchdEntryInfo,
    other: Seq<char>,
)
    requires
        other != label,
    ensures
        cached_info(cache.insert(label, info), label) == Some(info),
        cached_info(cache.insert(label, info), other) == cached_info(cache, other),
{
}

} // verus!
