use vstd::prelude::*;
use crate::launchd::job_type_filter::JobTypeFilter;
use crate::launchd::label_map::LabelMap;
pub use crate::launchd::plist::{LaunchdEntryLocation, LaunchdEntryType, entry_job_type_filter, entry_filter_bits};
use crate::text::{seq_starts_with, str_starts_with};
use crate::launchd::plist::lemma_not_prefix;

verus! {

/// Plist directory of the agents installed for every user.
pub const GLOBAL_LAUNCH_AGENTS: &'static str = "/Library/LaunchAgents";

/// Plist directory of the agents macOS ships.
pub const SYSTEM_LAUNCH_AGENTS: &'static str = "/System/Library/LaunchAgents";

/// Plist directory of the daemons that administrators install.
pub const ADMIN_LAUNCH_DAEMONS: &'static str = "/Library/LaunchDaemons";

/// Plist directory of the daemons macOS ships.
pub const GLOBAL_LAUNCH_DAEMONS: &'static str = "/System/Library/LaunchDaemons";

/// A job's plist and what it says about the job, as first found on disk.
#[derive(Debug, PartialEq, Eq)]
pub struct LaunchdEntryConfig {
    pub entry_type: LaunchdEntryType,
    pub entry_location: LaunchdEntryLocation,
    pub plist_path: String,
    pub readonly: bool,
}

impl Clone for LaunchdEntryConfig {
    fn clone(&self) -> (r: Self)
        ensures
            r == *self,
    {
        LaunchdEntryConfig {
            entry_type: self.entry_type,
            entry_location: self.entry_location,
            plist_path: self.plist_path.clone(),
            readonly: self.readonly,
        }
    }
}

impl LaunchdEntryConfig {
    /// The filter flags of the job: its scope and its kind.
    pub fn job_type_filter(&self) -> (r: JobTypeFilter)
        ensures
            r.spec_bits() == entry_filter_bits(self.entry_location, self.entry_type, false),
    {
        entry_job_type_filter(self.entry_location, self.entry_type, false)
    }
}

/// The type of the job whose plist lies at a path: a path in a daemon
/// directory is a daemon's.
pub open spec fn config_entry_type(path: Seq<char>) -> LaunchdEntryType {
    if seq_starts_with(path, ADMIN_LAUNCH_DAEMONS@) || seq_starts_with(path, GLOBAL_LAUNCH_DAEMONS@) {
        LaunchdEntryType::Daemon
    } else {
        LaunchdEntryType::Agent
    }
}

/// The location of the job whose plist lies at a path, by the directory
/// the path starts with: the user's launch agents, the admin's `/Library`
/// directories, else the system's `/System/Library` ones.
pub open spec fn config_entry_location(path: Seq<char>, user_launch_agents: Seq<char>) -> LaunchdEntryLocation {
    if seq_starts_with(path, user_launch_agents) {
        LaunchdEntryLocation::User
    } else if seq_starts_with(path, GLOBAL_LAUNCH_AGENTS@) || seq_starts_with(path, ADMIN_LAUNCH_DAEMONS@) {
        LaunchdEntryLocation::Global
    } else {
        LaunchdEntryLocation::System
    }
}

/// Build the label-map entry for a plist file from its label, its path and
/// whether it is read-only; a file without a label has none.
pub fn build_config_entry(
    label: Option<String>,
    path_string: String,
    user_launch_agents: &str,
    readonly: bool,
) -> (r: Option<(String, LaunchdEntryConfig)>)
    ensures
        r is Some <==> label is Some,
        r matches Some(e) ==> e.0@ == label.unwrap()@ && e.1 == (LaunchdEntryConfig {
            entry_type: config_entry_type(path_string@),
            entry_location: config_entry_location(path_string@, user_launch_agents@),
            plist_path: path_string,
            readonly,
        }),
{
    let label = match label {
        Some(l) => l,
        None => return None,
    };
    let entry_type = if str_starts_with(path_string.as_str(), ADMIN_LAUNCH_DAEMONS) || str_starts_with(
        path_string.as_str(),
        GLOBAL_LAUNCH_DAEMONS,
    ) {
        LaunchdEntryType::Daemon
    } else {
        LaunchdEntryType::Agent
    };
    let entry_location = if str_starts_with(path_string.as_str(), user_launch_agents) {
        LaunchdEntryLocation::User
    } else if str_starts_with(path_string.as_str(), GLOBAL_LAUNCH_AGENTS) || str_starts_with(
        path_string.as_str(),
        ADMIN_LAUNCH_DAEMONS,
    ) {
        LaunchdEntryLocation::Global
    } else {
        LaunchdEntryLocation::System
    };
    Some((label, LaunchdEntryConfig { entry_location, entry_type, plist_path: path_string, readonly }))
}

/// Get plist and file meta for an entry by its label.
pub fn for_entry(label_map: &LabelMap<LaunchdEntryConfig>, label: &str) -> (r: Option<LaunchdEntryConfig>)
    ensures
        r is Some <==> label_map@.contains_key(label@),
        r matches Some(c) ==> c == label_map@[label@],
{
    match label_map.get(label) {
        Some(c) => Some(c.clone()),
        None => None,
    }
}

/// Plists under the system's `/System/Library` directories are system jobs,
/// those under the admin's `/Library` directories global ones, each a
/// daemon exactly when it lies in a daemons directory (away from the user's
/// launch agents).
pub proof fn law_config_scopes(path: Seq<char>, user_launch_agents: Seq<char>)
    ensures
        !seq_starts_with(path, user_launch_agents) && seq_starts_with(path, GLOBAL_LAUNCH_DAEMONS@)
            ==> config_entry_location(path, user_launch_agents) == LaunchdEntryLocation::System
            && config_entry_type(path) == LaunchdEntryType::Daemon,
        !seq_starts_with(path, user_launch_agents) && seq_starts_with(path, SYSTEM_LAUNCH_AGENTS@)
            ==> config_entry_location(path, user_launch_agents) == LaunchdEntryLocation::System
            && config_entry_type(path) == LaunchdEntryType::Agent,
        !seq_starts_with(path, user_launch_agents) && seq_starts_with(path, ADMIN_LAUNCH_DAEMONS@)
            ==> config_entry_location(path, user_launch_agents) == LaunchdEntryLocation::Global
            && config_entry_type(path) == LaunchdEntryType::Daemon,
        !seq_starts_with(path, user_launch_agents) && seq_starts_with(path, GLOBAL_LAUNCH_AGENTS@)
            ==> config_entry_location(path, user_launch_agents) == LaunchdEntryLocation::Global
            && config_entry_type(path) == LaunchdEntryType::Agent,
{
    reveal_strlit("/Library/LaunchAgents");
    reveal_strlit("/System/Library/LaunchAgents");
    reveal_strlit("/Library/LaunchDaemons");
    reveal_strlit("/System/Library/LaunchDaemons");
    let ga = GLOBAL_LAUNCH_AGENTS@;
    let sa = SYSTEM_LAUNCH_AGENTS@;
    let ad = ADMIN_LAUNCH_DAEMONS@;
    let gd = GLOBAL_LAUNCH_DAEMONS@;
    if seq_starts_with(path, gd) {
        lemma_not_prefix(path, gd, ga, 1);
        lemma_not_prefix(path, gd, ad, 1);
    }
    if seq_starts_with(path, sa) {
        lemma_not_prefix(path, sa, ga, 1);
        lemma_not_prefix(path, sa, ad, 1);
        lemma_not_prefix(path, sa, gd, 22);
    }
    if seq_starts_with(path, ad) {
        lemma_not_prefix(path, ad, gd, 1);
    }
    if seq_starts_with(path, ga) {
        lemma_not_prefix(path, ga, gd, 1);
        lemma_not_prefix(path, ga, ad, 15);
    }
}

} // verus!
