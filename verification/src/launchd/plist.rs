use vstd::prelude::*;
use crate::launchd::job_type_filter::{JobFlag, JobTypeFilter, flag_bit};
use crate::launchd::label_map::LabelMap;
use crate::text::{seq_starts_with, str_eq, str_starts_with};

verus! {

/// Plist directory of the agents that administrators install.
pub const ADMIN_LAUNCH_AGENTS: &'static str = "/Library/LaunchAgents";

/// Plist directory of the agents macOS ships.
pub const SYSTEM_LAUNCH_AGENTS: &'static str = "/System/Library/LaunchAgents";

/// Plist directory of the daemons that administrators install.
pub const ADMIN_LAUNCH_DAEMONS: &'static str = "/Library/LaunchDaemons";

/// Plist directory of the daemons macOS ships.
pub const SYSTEM_LAUNCH_DAEMONS: &'static str = "/System/Library/LaunchDaemons";

/// The first bytes of a binary plist.
pub const PLIST_MAGIC: &'static str = "bplist00";

/// Who a job runs for.
#[derive(Clone, Copy, Debug, PartialEq, Eq, Hash)]
pub enum LaunchdEntryType {
    /// Runs on behalf of currently logged in user
    Agent,
    /// Global system daemon
    Daemon,
}

/// Where a job's plist is located.
#[derive(Clone, Copy, Debug, PartialEq, Eq, Hash)]
pub enum LaunchdEntryLocation {
    /// macOS system provided agent or daemon
    System,
    /// Admin provided agent or daemon in /Library, named global so that
    /// every filter hotkey is a distinct letter
    Global,
    /// User provided agent
    User,
}

/// The name an entry type is shown by.
pub open spec fn entry_type_name(t: LaunchdEntryType) -> Seq<char> {
    match t {
        LaunchdEntryType::Agent => "Agent"@,
        LaunchdEntryType::Daemon => "Daemon"@,
    }
}

/// The name an entry location is shown by.
pub open spec fn entry_location_name(l: LaunchdEntryLocation) -> Seq<char> {
    match l {
        LaunchdEntryLocation::System => "System"@,
        LaunchdEntryLocation::Global => "Global"@,
        LaunchdEntryLocation::User => "User"@,
    }
}

impl LaunchdEntryType {
    /// The name the entry type is shown by.
    pub fn name(&self) -> (r: &'static str)
        ensures
            r@ == entry_type_name(*self),
    {
        match self {
            LaunchdEntryType::Agent => "Agent",
            LaunchdEntryType::Daemon => "Daemon",
        }
    }
}

impl LaunchdEntryLocation {
    /// The name the entry location is shown by.
    pub fn name(&self) -> (r: &'static str)
        ensures
            r@ == entry_location_name(*self),
    {
        match self {
            LaunchdEntryLocation::System => "System",
            LaunchdEntryLocation::Global => "Global",
            LaunchdEntryLocation::User => "User",
        }
    }
}

/// The scope flag of a location.
pub open spec fn location_flag(l: LaunchdEntryLocation) -> JobFlag {
    match l {
        LaunchdEntryLocation::System => JobFlag::System,
        LaunchdEntryLocation::Global => JobFlag::Global,
        LaunchdEntryLocation::User => JobFlag::User,
    }
}

/// The kind flag of an entry type.
pub open spec fn type_flag(t: LaunchdEntryType) -> JobFlag {
    match t {
        LaunchdEntryType::Agent => JobFlag::Agent,
        LaunchdEntryType::Daemon => JobFlag::Daemon,
    }
}

/// The filter bits of a job: its scope, its kind, and loaded if it is.
pub open spec fn entry_filter_bits(l: LaunchdEntryLocation, t: LaunchdEntryType, loaded: bool) -> u32 {
    flag_bit(location_flag(l)) | flag_bit(type_flag(t)) | (if loaded {
        flag_bit(JobFlag::Loaded)
    } else {
        0
    })
}

proof fn lemma_xor_disjoint(a: u32, b: u32, c: u32)
    requires
        a == 2 || a == 4 || a == 8,
        b == 16 || b == 32,
        c == 0 || c == 64,
    ensures
        (0u32 ^ a) ^ b == a | b,
        ((0u32 ^ a) ^ b) ^ c == (a | b) | c,
{
    assert((0u32 ^ a) ^ b == a | b && ((0u32 ^ a) ^ b) ^ c == (a | b) | c) by (bit_vector)
        requires
            a == 2 || a == 4 || a == 8,
            b == 16 || b == 32,
            c == 0 || c == 64,
    ;
}

/// The filter of a job with this location and type: its scope and kind flags,
/// plus the loaded flag when it is loaded.
pub fn entry_job_type_filter(
    location: LaunchdEntryLocation,
    entry_type: LaunchdEntryType,
    is_loaded: bool,
) -> (r: JobTypeFilter)
    ensures
        r.spec_bits() == entry_filter_bits(location, entry_type, is_loaded),
{
    let mut jtf = JobTypeFilter::empty();
    match location {
        LaunchdEntryLocation::System => jtf.toggle(JobTypeFilter::flag(JobFlag::System)),
        LaunchdEntryLocation::Global => jtf.toggle(JobTypeFilter::flag(JobFlag::Global)),
        LaunchdEntryLocation::User => jtf.toggle(JobTypeFilter::flag(JobFlag::User)),
    };
    match entry_type {
        LaunchdEntryType::Agent => jtf.toggle(JobTypeFilter::flag(JobFlag::Agent)),
        LaunchdEntryType::Daemon => jtf.toggle(JobTypeFilter::flag(JobFlag::Daemon)),
    };
    if is_loaded {
        jtf.toggle(JobTypeFilter::flag(JobFlag::Loaded));
    }
    proof {
        lemma_xor_disjoint(
            flag_bit(location_flag(location)),
            flag_bit(type_flag(entry_type)),
            if is_loaded {
                64
            } else {
                0
            },
        );
        let ab = (0u32 ^ flag_bit(location_flag(location))) ^ flag_bit(type_flag(entry_type));
        assert(ab ^ 0u32 == ab) by (bit_vector);
    }
    jtf
}

/// The filter of a job holds exactly its scope flag, its kind flag, and the
/// loaded flag when it is loaded.
pub proof fn law_entry_filter_flags(
    l: LaunchdEntryLocation,
    t: LaunchdEntryType,
    loaded: bool,
    f: JobFlag,
)
    ensures
        crate::launchd::job_type_filter::bits_have(entry_filter_bits(l, t, loaded), f) <==> (f
            == location_flag(l) || f == type_flag(t) || (loaded && f == JobFlag::Loaded)),
{
    let a = flag_bit(location_flag(l));
    let b = flag_bit(type_flag(t));
    let c: u32 = if loaded {
        64
    } else {
        0
    };
    let x = flag_bit(f);
    assert((((a | b) | c) & x == x) <==> (x == a || x == b || (c == 64 && x == 64)))
        by (bit_vector)
        requires
            a == 2 || a == 4 || a == 8,
            b == 16 || b == 32,
            c == 0 || c == 64,
            x == 2 || x == 4 || x == 8 || x == 16 || x == 32 || x == 64 || x == 128,
    ;
}

/// A job's plist: where it lies and what kind of job it describes.
#[derive(Debug, PartialEq, Eq, Hash)]
pub struct LaunchdPlist {
    pub entry_type: LaunchdEntryType,
    pub entry_location: LaunchdEntryLocation,
    pub plist_path: String,
    pub readonly: bool,
}

impl Clone for LaunchdPlist {
    fn clone(&self) -> (r: Self)
        ensures
            r == *self,
    {
        LaunchdPlist {
            entry_type: self.entry_type,
            entry_location: self.entry_location,
            plist_path: self.plist_path.clone(),
            readonly: self.readonly,
        }
    }
}

impl LaunchdPlist {
    /// The filter flags of the job: its scope, its kind, and loaded if it is.
    pub fn job_type_filter(&self, is_loaded: bool) -> (r: JobTypeFilter)
        ensures
            r.spec_bits() == entry_filter_bits(self.entry_location, self.entry_type, is_loaded),
    {
        entry_job_type_filter(self.entry_location, self.entry_type, is_loaded)
    }
}


/// What `std::path::Path::extension` gives for a path: the part of the file
/// name after its last dot, if there is one.
pub uninterp spec fn std_path_extension(path: Seq<char>) -> Option<Seq<char>>;

/// `std::path::Path::extension`, read back as a string. Its result is
/// named, not stated: std's rules for file names take more than a few lines.
#[verifier::external_body]
fn path_extension(path: &str) -> (r: Option<String>)
    ensures
        r is Some <==> std_path_extension(path@) is Some,
        r matches Some(e) ==> std_path_extension(path@) == Some(e@),
{
    std::path::Path::new(path).extension().map(|e| e.to_string_lossy().to_string())
}

/// Whether a path names a plist file: not a directory, and with the
/// extension `plist`.
pub open spec fn is_plist_path(path: Seq<char>, is_dir: bool) -> bool {
    !is_dir && std_path_extension(path) == Some("plist"@)
}

/// The path, if it names a plist file rather than a directory or another
/// kind of file.
pub fn path_if_plist(path: &str, is_dir: bool) -> (r: Option<String>)
    ensures
        r is Some <==> is_plist_path(path@, is_dir),
        r matches Some(p) ==> p@ == path@,
{
    if is_dir {
        return None;
    }
    match path_extension(path) {
        Some(ext) => {
            if str_eq(ext.as_str(), "plist") {
                Some(path.to_owned())
            } else {
                None
            }
        },
        None => None,
    }
}

/// The type of the job whose plist lies at a path: daemons live in the
/// daemon directories, everything else is an agent.
pub open spec fn entry_type_for_path(path: Seq<char>) -> LaunchdEntryType {
    if seq_starts_with(path, ADMIN_LAUNCH_DAEMONS@) || seq_starts_with(path, SYSTEM_LAUNCH_DAEMONS@) {
        LaunchdEntryType::Daemon
    } else {
        LaunchdEntryType::Agent
    }
}

/// The location of the job whose plist lies at a path.
pub open spec fn entry_location_for_path(path: Seq<char>, user_launch_agents: Seq<char>) -> LaunchdEntryLocation {
    if seq_starts_with(path, user_launch_agents) {
        LaunchdEntryLocation::User
    } else if seq_starts_with(path, ADMIN_LAUNCH_AGENTS@) || seq_starts_with(path, ADMIN_LAUNCH_DAEMONS@) {
        LaunchdEntryLocation::Global
    } else {
        LaunchdEntryLocation::System
    }
}

/// What was read of a plist file on disk: its `Label` (if the file parsed
/// and has one), its path, and whether it is read-only.
pub struct PlistFile {
    pub label: Option<String>,
    pub path: String,
    pub readonly: bool,
}

/// The label-map entry for a plist file, if the file has a label.
pub open spec fn plist_entry(
    label: Option<String>,
    path: String,
    user_launch_agents: Seq<char>,
    readonly: bool,
) -> Option<(Seq<char>, LaunchdPlist)> {
    match label {
        Some(l) => Some(
            (
                l@,
                LaunchdPlist {
                    entry_type: entry_type_for_path(path@),
                    entry_location: entry_location_for_path(path@, user_launch_agents),
                    plist_path: path,
                    readonly,
                },
            ),
        ),
        None => None,
    }
}

/// Build the label-map entry for a plist file: its label, and where it lies
/// and what kind of job it describes, from its path.
pub fn build_label_map_entry(
    label: Option<String>,
    path_string: String,
    user_launch_agents: &str,
    readonly: bool,
) -> (r: Option<(String, LaunchdPlist)>)
    ensures
        r is Some <==> label is Some,
        r matches Some(e) ==> plist_entry(label, path_string, user_launch_agents@, readonly) == Some(
            (e.0@, e.1),
        ),
{
    let label = match label {
        Some(l) => l,
        None => return None,
    };
    let entry_type = if str_starts_with(path_string.as_str(), ADMIN_LAUNCH_DAEMONS) || str_starts_with(
        path_string.as_str(),
        SYSTEM_LAUNCH_DAEMONS,
    ) {
        LaunchdEntryType::Daemon
    } else {
        LaunchdEntryType::Agent
    };
    let entry_location = if str_starts_with(path_string.as_str(), user_launch_agents) {
        LaunchdEntryLocation::User
    } else if str_starts_with(path_string.as_str(), ADMIN_LAUNCH_AGENTS) || str_starts_with(
        path_string.as_str(),
        ADMIN_LAUNCH_DAEMONS,
    ) {
        LaunchdEntryLocation::Global
    } else {
        LaunchdEntryLocation::System
    };
    Some((label, LaunchdPlist { entry_location, entry_type, plist_path: path_string, readonly }))
}

/// The plists of every label found on disk.
pub type PlistMap = LabelMap<LaunchdPlist>;

/// The map after inserting the entries of the plist files in order; a later
/// file with the same label wins.
pub open spec fn insert_all(
    m: Map<Seq<char>, LaunchdPlist>,
    files: Seq<PlistFile>,
    user_launch_agents: Seq<char>,
) -> Map<Seq<char>, LaunchdPlist>
    decreases files.len(),
{
    if files.len() == 0 {
        m
    } else {
        let before = insert_all(m, files.drop_last(), user_launch_agents);
        let f = files.last();
        match plist_entry(f.label, f.path, user_launch_agents, f.readonly) {
            Some(e) => before.insert(e.0, e.1),
            None => before,
        }
    }
}

/// Add the plist files to the map in order, skipping files without a label.
pub fn insert_plists(label_map: &mut PlistMap, plists: &Vec<PlistFile>, user_launch_agents: &str)
    ensures
        final(label_map)@ == insert_all(old(label_map)@, plists@, user_launch_agents@),
{
    let ghost files = plists@;
    let ghost start = label_map@;
    let mut i: usize = 0;
    while i < plists.len()
        invariant
            files == plists@,
            i <= files.len(),
            label_map@ == insert_all(start, files.take(i as int), user_launch_agents@),
        decreases files.len() - i,
    {
        let f = &plists[i];
        let label = match &f.label {
            Some(l) => Some(l.clone()),
            None => None,
        };
        proof {
            assert(files.take(i + 1).drop_last() =~= files.take(i as int));
            assert(files.take(i + 1).last() == f);
        }
        let entry = build_label_map_entry(label, f.path.clone(), user_launch_agents, f.readonly);
        match entry {
            Some((label, plist)) => {
                label_map.insert(label, plist);
            },
            None => {},
        }
        i = i + 1;
    }
    proof {
        assert(files.take(i as int) =~= files);
    }
}

/// The plist of a label, if one was found on disk.
pub fn for_label(label_map: &PlistMap, label: &str) -> (r: Option<LaunchdPlist>)
    ensures
        r is Some <==> label_map@.contains_key(label@),
        r matches Some(p) ==> p == label_map@[label@],
{
    match label_map.get(label) {
        Some(p) => Some(p.clone()),
        None => None,
    }
}

/// Refuse to edit a read-only plist.
pub fn check_writable(plist_meta: &LaunchdPlist) -> (r: Result<(), String>)
    ensures
        r is Ok <==> !plist_meta.readonly,
        r matches Err(e) ==> e@ == "plist is read-only!"@,
{
    if plist_meta.readonly {
        Err("plist is read-only!".to_owned())
    } else {
        Ok(())
    }
}

/// `std::str::from_utf8` succeeds: std documents that it fails exactly when
/// the bytes are not valid UTF-8.
#[verifier::external_body]
fn is_utf8(bytes: &[u8]) -> (r: bool)
    ensures
        r == vstd::utf8::valid_utf8(bytes@),
{
    std::str::from_utf8(bytes).is_ok()
}

/// Whether the first bytes of a plist file mark it binary; the bytes must
/// read as UTF-8.
pub fn magic_is_binary(magic: &[u8]) -> (r: Result<bool, String>)
    ensures
        r is Ok <==> vstd::utf8::valid_utf8(magic@),
        r matches Ok(b) ==> b == (magic@ == crate::text::utf8_of(PLIST_MAGIC@)),
        r matches Err(e) ==> e@ == "Couldn't read magic"@,
{
    if !is_utf8(magic) {
        return Err("Couldn't read magic".to_owned());
    }
    let expected = PLIST_MAGIC.as_bytes();
    if magic.len() != expected.len() {
        return Ok(false);
    }
    let mut i: usize = 0;
    while i < magic.len()
        invariant
            expected@ == crate::text::utf8_of(PLIST_MAGIC@),
            vstd::utf8::valid_utf8(magic@),
            magic@.len() == expected@.len(),
            0 <= i <= magic@.len(),
            forall|j: int| 0 <= j < i ==> magic@[j] == expected@[j],
        decreases magic@.len() - i,
    {
        if magic[i] != expected[i] {
            return Ok(false);
        }
        i = i + 1;
    }
    assert(magic@ =~= expected@);
    Ok(true)
}

/// The directories that hold plists: the user's launch agents, then the
/// admin's and the system's launch agents and daemons. They are read at
/// start and watched for changes.
pub fn plist_dirs(user_launch_agents: &str) -> (r: Vec<String>)
    ensures
        r@.map_values(|s: String| s@) == seq![
            user_launch_agents@,
            ADMIN_LAUNCH_AGENTS@,
            SYSTEM_LAUNCH_AGENTS@,
            ADMIN_LAUNCH_DAEMONS@,
            SYSTEM_LAUNCH_DAEMONS@,
        ],
{
    let mut r: Vec<String> = Vec::new();
    r.push(user_launch_agents.to_string());
    r.push(ADMIN_LAUNCH_AGENTS.to_string());
    r.push(SYSTEM_LAUNCH_AGENTS.to_string());
    r.push(ADMIN_LAUNCH_DAEMONS.to_string());
    r.push(SYSTEM_LAUNCH_DAEMONS.to_string());
    assert(r@.map_values(|s: String| s@) =~= seq![
        user_launch_agents@,
        ADMIN_LAUNCH_AGENTS@,
        SYSTEM_LAUNCH_AGENTS@,
        ADMIN_LAUNCH_DAEMONS@,
        SYSTEM_LAUNCH_DAEMONS@,
    ]);
    r
}

/// Two paths that differ at some position below the length of the first
/// cannot both start with it.
pub(crate) proof fn lemma_not_prefix(path: Seq<char>, a: Seq<char>, b: Seq<char>, i: int)
    requires
        0 <= i < a.len(),
        i < b.len(),
        a[i] != b[i],
        seq_starts_with(path, a),
    ensures
        !seq_starts_with(path, b),
{
    if seq_starts_with(path, b) {
        assert(path.subrange(0, a.len() as int)[i] == path.subrange(0, b.len() as int)[i]);
    }
}

/// The scopes of the plist directories, away from the user's launch agents:
/// a plist under the system's directories is a system job, one under the
/// admin's `/Library` directories a global job, each a daemon exactly when
/// it lies in a daemons directory; a plist under the user's launch agents
/// is a user agent.
pub proof fn law_plist_dirs_scopes(path: Seq<char>, user_launch_agents: Seq<char>)
    ensures
        seq_starts_with(path, user_launch_agents) ==> entry_location_for_path(path, user_launch_agents)
            == LaunchdEntryLocation::User,
        !seq_starts_with(path, user_launch_agents) && seq_starts_with(path, SYSTEM_LAUNCH_DAEMONS@)
            ==> entry_location_for_path(path, user_launch_agents) == LaunchdEntryLocation::System
            && entry_type_for_path(path) == LaunchdEntryType::Daemon,
        !seq_starts_with(path, user_launch_agents) && seq_starts_with(path, SYSTEM_LAUNCH_AGENTS@)
            ==> entry_location_for_path(path, user_launch_agents) == LaunchdEntryLocation::System
            && entry_type_for_path(path) == LaunchdEntryType::Agent,
        !seq_starts_with(path, user_launch_agents) && seq_starts_with(path, ADMIN_LAUNCH_DAEMONS@)
            ==> entry_location_for_path(path, user_launch_agents) == LaunchdEntryLocation::Global
            && entry_type_for_path(path) == LaunchdEntryType::Daemon,
        !seq_starts_with(path, user_launch_agents) && seq_starts_with(path, ADMIN_LAUNCH_AGENTS@)
            ==> entry_location_for_path(path, user_launch_agents) == LaunchdEntryLocation::Global
            && entry_type_for_path(path) == LaunchdEntryType::Agent,
{
    reveal_strlit("/Library/LaunchAgents");
    reveal_strlit("/System/Library/LaunchAgents");
    reveal_strlit("/Library/LaunchDaemons");
    reveal_strlit("/System/Library/LaunchDaemons");
    let aa = ADMIN_LAUNCH_AGENTS@;
    let sa = SYSTEM_LAUNCH_AGENTS@;
    let ad = ADMIN_LAUNCH_DAEMONS@;
    let sd = SYSTEM_LAUNCH_DAEMONS@;
    if seq_starts_with(path, sd) {
        lemma_not_prefix(path, sd, aa, 1);
        lemma_not_prefix(path, sd, ad, 1);
    }
    if seq_starts_with(path, sa) {
        lemma_not_prefix(path, sa, aa, 1);
        lemma_not_prefix(path, sa, ad, 1);
        lemma_not_prefix(path, sa, sd, 22);
    }
    if seq_starts_with(path, ad) {
        lemma_not_prefix(path, ad, sd, 1);
    }
    if seq_starts_with(path, aa) {
        lemma_not_prefix(path, aa, sd, 1);
        lemma_not_prefix(path, aa, ad, 15);
    }
}

} // verus!
