use launchk::launchd::command;
use launchk::launchd::command::{FindStep, QueryError};
use launchk::launchd::config::{build_config_entry, for_entry, LaunchdEntryConfig};
use launchk::launchd::entry_status::{
    build_entry_status, get_entry_status, invalidate_entry_status, record_entry_status,
    EntryStatusCache, LaunchdEntryStatus,
};
use launchk::launchd::enums::{DomainType, SessionType};
use launchk::launchd::job_type_filter::{JobFlag, JobTypeFilter};
use launchk::launchd::label_map::LabelMap;
use launchk::launchd::message;
use launchk::launchd::messages;
use launchk::launchd::plist::{
    build_label_map_entry, check_writable, entry_job_type_filter, for_label, insert_plists,
    magic_is_binary, path_if_plist, plist_dirs, LaunchdEntryLocation, LaunchdEntryType,
    LaunchdPlist, PlistFile, PlistMap,
};
use launchk::launchd::plist_edit::{edit_step, EditAction, EditEvent, EditState, PlistFormat};
use launchk::launchd::query;
use launchk::launchd::service::{build_entry_info, find_entry_info, record_entry_info, EntryInfoCache};
use launchk::launchd::xpc::{XpcDict, XpcValue};

fn flags(fs: &[JobFlag]) -> JobTypeFilter {
    let mut f = JobTypeFilter::empty();
    for x in fs {
        f = f.union(JobTypeFilter::flag(*x));
    }
    f
}

fn plist(location: LaunchdEntryLocation, entry_type: LaunchdEntryType, readonly: bool) -> LaunchdPlist {
    LaunchdPlist {
        entry_type,
        entry_location: location,
        plist_path: "/Library/LaunchDaemons/com.example.job.plist".to_string(),
        readonly,
    }
}

fn str_of(v: Option<&XpcValue>) -> Option<String> {
    match v {
        Some(XpcValue::Str(s)) => Some(s.clone()),
        _ => None,
    }
}

fn u64_of(v: Option<&XpcValue>) -> Option<u64> {
    match v {
        Some(XpcValue::U64(n)) => Some(*n),
        _ => None,
    }
}

fn bool_of(v: Option<&XpcValue>) -> Option<bool> {
    match v {
        Some(XpcValue::Bool(b)) => Some(*b),
        _ => None,
    }
}

fn strs_of(v: Option<&XpcValue>) -> Option<Vec<String>> {
    match v {
        Some(XpcValue::StrArray(s)) => Some(s.clone()),
        _ => None,
    }
}

fn shmem_of(v: Option<&XpcValue>) -> Option<u64> {
    match v {
        Some(XpcValue::Shmem(n)) => Some(*n),
        _ => None,
    }
}

fn sorted(mut v: Vec<String>) -> Vec<String> {
    v.sort();
    v
}

// ---- job type filter ----

#[test]
fn job_type_filter_flag_bits() {
    assert_eq!(JobTypeFilter::flag(JobFlag::System).bits(), 2);
    assert_eq!(JobTypeFilter::flag(JobFlag::Global).bits(), 4);
    assert_eq!(JobTypeFilter::flag(JobFlag::User).bits(), 8);
    assert_eq!(JobTypeFilter::flag(JobFlag::Agent).bits(), 16);
    assert_eq!(JobTypeFilter::flag(JobFlag::Daemon).bits(), 32);
    assert_eq!(JobTypeFilter::flag(JobFlag::Loaded).bits(), 64);
    assert_eq!(JobTypeFilter::flag(JobFlag::Disabled).bits(), 128);
    assert_eq!(JobTypeFilter::empty().bits(), 0);
    assert_eq!(JobTypeFilter::default().bits(), 0);
}

#[test]
fn job_type_filter_launchk_default_is_loaded() {
    assert_eq!(JobTypeFilter::launchk_default(), JobTypeFilter::flag(JobFlag::Loaded));
}

#[test]
fn job_type_filter_from_bits_rejects_unknown_bits() {
    assert_eq!(JobTypeFilter::from_bits(2 | 64).map(|f| f.bits()), Some(66));
    assert!(JobTypeFilter::from_bits(1).is_none());
    assert!(JobTypeFilter::from_bits(256).is_none());
    assert_eq!(JobTypeFilter::from_bits(254).map(|f| f.bits()), Some(254));
}

#[test]
fn job_type_filter_set_operations() {
    let a = flags(&[JobFlag::System, JobFlag::Agent]);
    let b = flags(&[JobFlag::Agent, JobFlag::Loaded]);
    assert_eq!(a.intersection(b), JobTypeFilter::flag(JobFlag::Agent));
    assert_eq!(a.union(b).bits(), 2 | 16 | 64);
    assert!(a.intersects(b));
    assert!(!a.contains(b));
    assert!(a.union(b).contains(b));
    assert!(JobTypeFilter::empty().is_empty());
    assert!(!a.is_empty());
}

#[test]
fn law_toggle_twice_on_values() {
    let x = flags(&[JobFlag::User, JobFlag::Daemon]);
    let o = flags(&[JobFlag::Daemon, JobFlag::Loaded]);
    let once = x.toggle_yield(o);
    assert_eq!(once.bits(), 8 | 64);
    assert_eq!(once.toggle_yield(o), x);
    let mut y = x;
    y.toggle(o);
    y.toggle(o);
    assert_eq!(y, x);
}

#[test]
fn law_scope_type_split_on_values() {
    let x = flags(&[JobFlag::System, JobFlag::User, JobFlag::Agent, JobFlag::Loaded]);
    assert_eq!(x.clear_scope(), flags(&[JobFlag::Agent, JobFlag::Loaded]));
    assert_eq!(x.clear_type(), flags(&[JobFlag::System, JobFlag::User]));
    assert_eq!(x.clear_scope().union(x.clear_type()), x);
}

#[test]
fn job_type_filter_display_and_debug_names() {
    let x = flags(&[JobFlag::System, JobFlag::Daemon, JobFlag::Loaded, JobFlag::Disabled]);
    assert_eq!(x.to_display_string(), "sdl");
    assert_eq!(JobTypeFilter::empty().to_display_string(), "");
    assert_eq!(JobTypeFilter::flag(JobFlag::Global).debug_name(), "GLOBAL");
    assert_eq!(JobTypeFilter::flag(JobFlag::Loaded).debug_name(), "LOADED");
    assert_eq!(x.debug_name(), "");
}

// ---- enums ----

#[test]
fn law_session_type_name_round_trip_on_values() {
    for t in [
        SessionType::Aqua,
        SessionType::StandardIO,
        SessionType::Background,
        SessionType::LoginWindow,
        SessionType::System,
        SessionType::Unknown,
    ] {
        assert_eq!(SessionType::from_name(t.name()), t);
        assert_eq!(SessionType::from(t.name().to_string()), t);
    }
    assert_eq!(SessionType::from_name("aqua"), SessionType::Unknown);
    assert_eq!(SessionType::from_name(""), SessionType::Unknown);
}

#[test]
fn law_domain_type_number_round_trip_on_values() {
    for n in 1u64..=7 {
        assert_eq!(DomainType::from_number(n).number(), n);
        assert_eq!(DomainType::from(n).number(), n);
    }
    assert_eq!(DomainType::from_number(0), DomainType::Unknown);
    assert_eq!(DomainType::from_number(8), DomainType::Unknown);
    assert_eq!(DomainType::Unknown.number(), 8);
    assert_eq!(DomainType::RequestorUserDomain.name(), "RequestorUserDomain");
    assert_eq!(DomainType::from_number(1), DomainType::System);
    assert_eq!(DomainType::from_number(2), DomainType::User);
}

// ---- label map ----

#[test]
fn law_read_after_write_on_values() {
    let mut m: LabelMap<u32> = LabelMap::new();
    m.insert("a".to_string(), 1);
    m.insert("b".to_string(), 2);
    m.insert("a".to_string(), 3);
    assert_eq!(m.len(), 2);
    assert_eq!(m.get("a"), Some(&3));
    assert_eq!(m.get("b"), Some(&2));
    assert_eq!(m.get("c"), None);
    assert!(m.contains_key("b"));
    assert_eq!(m.label_at(0), "a");
    assert_eq!(m.entry_at(1), (&"b".to_string(), &2));
    m.remove("a");
    assert_eq!(m.len(), 1);
    assert!(!m.contains_key("a"));
    m.remove("missing");
    assert_eq!(m.len(), 1);
}

// ---- plists ----

#[test]
fn path_if_plist_keeps_plist_files_only() {
    assert_eq!(
        path_if_plist("/Library/LaunchAgents/com.x.plist", false),
        Some("/Library/LaunchAgents/com.x.plist".to_string())
    );
    assert_eq!(path_if_plist("/Library/LaunchAgents/com.x.plist", true), None);
    assert_eq!(path_if_plist("/Library/LaunchAgents/com.x.txt", false), None);
    assert_eq!(path_if_plist("/Library/LaunchAgents/noext", false), None);
    assert_eq!(path_if_plist("/Library/LaunchAgents/com.x.PLIST", false), None);
}

#[test]
fn build_label_map_entry_classifies_paths() {
    let ua = "/Users/me/Library/LaunchAgents";
    let (label, p) = build_label_map_entry(
        Some("com.me.agent".to_string()),
        "/Users/me/Library/LaunchAgents/com.me.agent.plist".to_string(),
        ua,
        false,
    )
    .unwrap();
    assert_eq!(label, "com.me.agent");
    assert_eq!(p.entry_location, LaunchdEntryLocation::User);
    assert_eq!(p.entry_type, LaunchdEntryType::Agent);
    assert!(!p.readonly);

    let (_, p) = build_label_map_entry(
        Some("com.admin.daemon".to_string()),
        "/Library/LaunchDaemons/com.admin.daemon.plist".to_string(),
        ua,
        true,
    )
    .unwrap();
    assert_eq!(p.entry_location, LaunchdEntryLocation::Global);
    assert_eq!(p.entry_type, LaunchdEntryType::Daemon);
    assert!(p.readonly);

    let (_, p) = build_label_map_entry(
        Some("com.apple.x".to_string()),
        "/System/Library/LaunchDaemons/com.apple.x.plist".to_string(),
        ua,
        true,
    )
    .unwrap();
    assert_eq!(p.entry_location, LaunchdEntryLocation::System);
    assert_eq!(p.entry_type, LaunchdEntryType::Daemon);

    let (_, p) = build_label_map_entry(
        Some("com.apple.y".to_string()),
        "/System/Library/LaunchAgents/com.apple.y.plist".to_string(),
        ua,
        true,
    )
    .unwrap();
    assert_eq!(p.entry_location, LaunchdEntryLocation::System);
    assert_eq!(p.entry_type, LaunchdEntryType::Agent);

    assert!(build_label_map_entry(None, "/Library/LaunchAgents/x.plist".to_string(), ua, false).is_none());
}

#[test]
fn law_entry_filter_flags_on_values() {
    let f = entry_job_type_filter(LaunchdEntryLocation::Global, LaunchdEntryType::Daemon, true);
    assert_eq!(f, flags(&[JobFlag::Global, JobFlag::Daemon, JobFlag::Loaded]));
    let f = entry_job_type_filter(LaunchdEntryLocation::User, LaunchdEntryType::Agent, false);
    assert_eq!(f, flags(&[JobFlag::User, JobFlag::Agent]));
    let p = plist(LaunchdEntryLocation::System, LaunchdEntryType::Agent, true);
    assert_eq!(p.job_type_filter(false), flags(&[JobFlag::System, JobFlag::Agent]));
    assert_eq!(LaunchdEntryType::Daemon.name(), "Daemon");
    assert_eq!(LaunchdEntryLocation::Global.name(), "Global");
}

#[test]
fn insert_plists_later_files_win_and_unlabelled_are_skipped() {
    let ua = "/Users/me/Library/LaunchAgents";
    let files = vec![
        PlistFile {
            label: Some("a".to_string()),
            path: "/Library/LaunchAgents/a.plist".to_string(),
            readonly: false,
        },
        PlistFile { label: None, path: "/Library/LaunchAgents/junk.plist".to_string(), readonly: false },
        PlistFile {
            label: Some("a".to_string()),
            path: "/Users/me/Library/LaunchAgents/a.plist".to_string(),
            readonly: true,
        },
    ];
    let mut m: PlistMap = LabelMap::new();
    insert_plists(&mut m, &files, ua);
    assert_eq!(m.len(), 1);
    let p = for_label(&m, "a").unwrap();
    assert_eq!(p.entry_location, LaunchdEntryLocation::User);
    assert!(p.readonly);
    assert!(for_label(&m, "junk").is_none());
}

#[test]
fn check_writable_refuses_read_only_plists() {
    let ro = plist(LaunchdEntryLocation::System, LaunchdEntryType::Daemon, true);
    assert_eq!(check_writable(&ro), Err("plist is read-only!".to_string()));
    let rw = plist(LaunchdEntryLocation::Global, LaunchdEntryType::Daemon, false);
    assert_eq!(check_writable(&rw), Ok(()));
}

#[test]
fn magic_is_binary_reads_the_first_bytes() {
    assert_eq!(magic_is_binary(b"bplist00"), Ok(true));
    assert_eq!(magic_is_binary(b"<?xml ve"), Ok(false));
    assert_eq!(magic_is_binary(b"bplist0"), Ok(false));
    assert_eq!(magic_is_binary(&[0xff, 0xfe, 0, 0, 0, 0, 0, 0]), Err("Couldn't read magic".to_string()));
}

#[test]
fn plist_dirs_lists_the_five_directories() {
    assert_eq!(
        plist_dirs("/Users/me/Library/LaunchAgents"),
        vec![
            "/Users/me/Library/LaunchAgents".to_string(),
            "/Library/LaunchAgents".to_string(),
            "/System/Library/LaunchAgents".to_string(),
            "/Library/LaunchDaemons".to_string(),
            "/System/Library/LaunchDaemons".to_string(),
        ]
    );
}

// ---- editing plists ----

fn run_edit(p: &LaunchdPlist, events: Vec<EditEvent>) -> Vec<(EditState, String)> {
    let mut state = EditState::Start;
    let mut out = Vec::new();
    for e in events {
        let (s, a) = edit_step(p, "vim", state, e);
        let text = match a {
            EditAction::OpenFile => "open".to_string(),
            EditAction::ReadMagic => "magic".to_string(),
            EditAction::ParsePlist => "parse".to_string(),
            EditAction::WriteTempXml => "temp".to_string(),
            EditAction::RunEditor => "editor".to_string(),
            EditAction::ParseEdit => "reparse".to_string(),
            EditAction::Save(PlistFormat::Binary) => "save binary".to_string(),
            EditAction::Save(PlistFormat::Xml) => "save xml".to_string(),
            EditAction::Finish(Ok(())) => "ok".to_string(),
            EditAction::Finish(Err(e)) => format!("error: {}", e),
        };
        out.push((s, text));
        state = s;
    }
    out
}

#[test]
fn law_written_back_in_its_format_on_values() {
    let p = plist(LaunchdEntryLocation::Global, LaunchdEntryType::Daemon, false);
    let steps = run_edit(
        &p,
        vec![
            EditEvent::Begin,
            EditEvent::FileOpened(true),
            EditEvent::MagicRead(Some(b"bplist00".to_vec())),
            EditEvent::PlistParsed(Ok(())),
            EditEvent::TempWritten(Ok(())),
            EditEvent::EditorExited(Ok(true)),
            EditEvent::EditParsed(Ok(true)),
            EditEvent::Saved(Ok(())),
        ],
    );
    let texts: Vec<&str> = steps.iter().map(|(_, t)| t.as_str()).collect();
    assert_eq!(texts, vec!["open", "magic", "parse", "temp", "editor", "reparse", "save binary", "ok"]);
    assert_eq!(steps[7].0, EditState::Done);

    let steps = run_edit(
        &p,
        vec![
            EditEvent::Begin,
            EditEvent::FileOpened(true),
            EditEvent::MagicRead(Some(b"<?xml ve".to_vec())),
            EditEvent::PlistParsed(Ok(())),
            EditEvent::TempWritten(Ok(())),
            EditEvent::EditorExited(Ok(true)),
            EditEvent::EditParsed(Ok(true)),
        ],
    );
    assert_eq!(steps[6].1, "save xml");
}

#[test]
fn law_read_only_refused_on_values() {
    let p = plist(LaunchdEntryLocation::System, LaunchdEntryType::Agent, true);
    let steps = run_edit(&p, vec![EditEvent::Begin]);
    assert_eq!(steps[0], (EditState::Done, "error: plist is read-only!".to_string()));
}

#[test]
fn edit_errors_carry_their_messages() {
    let p = plist(LaunchdEntryLocation::Global, LaunchdEntryType::Daemon, false);
    let s = run_edit(&p, vec![EditEvent::Begin, EditEvent::FileOpened(false)]);
    assert_eq!(s[1].1, "error: Couldn't read file");
    let s = run_edit(&p, vec![EditEvent::Begin, EditEvent::FileOpened(true), EditEvent::MagicRead(None)]);
    assert_eq!(s[2].1, "error: Couldn't read magic");
    let s = run_edit(
        &p,
        vec![EditEvent::Begin, EditEvent::FileOpened(true), EditEvent::MagicRead(Some(vec![0xff; 8]))],
    );
    assert_eq!(s[2].1, "error: Couldn't read magic");
    let prefix = vec![
        EditEvent::Begin,
        EditEvent::FileOpened(true),
        EditEvent::MagicRead(Some(b"bplist00".to_vec())),
        EditEvent::PlistParsed(Ok(())),
        EditEvent::TempWritten(Ok(())),
    ];
    let mut ev = prefix;
    ev.push(EditEvent::EditorExited(Ok(false)));
    let s = run_edit(&p, ev);
    assert_eq!(s[5].1, "error: vim did not exit successfully");

    let s = run_edit(
        &p,
        vec![
            EditEvent::Begin,
            EditEvent::FileOpened(true),
            EditEvent::MagicRead(Some(b"bplist00".to_vec())),
            EditEvent::PlistParsed(Ok(())),
            EditEvent::TempWritten(Ok(())),
            EditEvent::EditorExited(Err("not found".to_string())),
        ],
    );
    assert_eq!(s[5].1, "error: vim failed: not found");

    let s = run_edit(
        &p,
        vec![
            EditEvent::Begin,
            EditEvent::FileOpened(true),
            EditEvent::MagicRead(Some(b"bplist00".to_vec())),
            EditEvent::PlistParsed(Ok(())),
            EditEvent::TempWritten(Ok(())),
            EditEvent::EditorExited(Ok(true)),
            EditEvent::EditParsed(Ok(false)),
        ],
    );
    assert_eq!(s[6].1, "error: No changes made");

    let s = run_edit(
        &p,
        vec![
            EditEvent::Begin,
            EditEvent::FileOpened(true),
            EditEvent::MagicRead(Some(b"bplist00".to_vec())),
            EditEvent::PlistParsed(Ok(())),
            EditEvent::TempWritten(Ok(())),
            EditEvent::EditorExited(Ok(true)),
            EditEvent::EditParsed(Err("bad xml".to_string())),
        ],
    );
    assert_eq!(s[6].1, "error: Changes not saved: bad xml");
    let s = run_edit(
        &p,
        vec![
            EditEvent::Begin,
            EditEvent::FileOpened(true),
            EditEvent::MagicRead(Some(b"bplist00".to_vec())),
            EditEvent::PlistParsed(Err("parse".to_string())),
        ],
    );
    assert_eq!(s[3], (EditState::Done, "error: parse".to_string()));
}

// ---- config, status and info caches ----

#[test]
fn build_config_entry_classifies_paths() {
    let ua = "/Users/me/Library/LaunchAgents";
    let (l, c) = build_config_entry(
        Some("x".to_string()),
        "/Library/LaunchDaemons/x.plist".to_string(),
        ua,
        false,
    )
    .unwrap();
    assert_eq!(l, "x");
    assert_eq!(c.entry_type, LaunchdEntryType::Daemon);
    assert_eq!(c.entry_location, LaunchdEntryLocation::Global);
    assert_eq!(c.job_type_filter(), flags(&[JobFlag::Global, JobFlag::Daemon]));
    let (_, c) = build_config_entry(
        Some("y".to_string()),
        "/Users/me/Library/LaunchAgents/y.plist".to_string(),
        ua,
        true,
    )
    .unwrap();
    assert_eq!(c.entry_location, LaunchdEntryLocation::User);
    assert_eq!(c.entry_type, LaunchdEntryType::Agent);
    assert!(build_config_entry(None, "/x.plist".to_string(), ua, false).is_none());
    let (_, c) = build_config_entry(
        Some("com.apple.x".to_string()),
        "/System/Library/LaunchDaemons/com.apple.x.plist".to_string(),
        ua,
        true,
    )
    .unwrap();
    assert_eq!(c.entry_location, LaunchdEntryLocation::System);
    assert_eq!(c.entry_type, LaunchdEntryType::Daemon);
    let (_, c) = build_config_entry(
        Some("com.apple.y".to_string()),
        "/System/Library/LaunchAgents/com.apple.y.plist".to_string(),
        ua,
        true,
    )
    .unwrap();
    assert_eq!(c.entry_location, LaunchdEntryLocation::System);
    assert_eq!(c.entry_type, LaunchdEntryType::Agent);

    let mut m: LabelMap<LaunchdEntryConfig> = LabelMap::new();
    m.insert("y".to_string(), c.clone());
    assert_eq!(for_entry(&m, "y"), Some(c));
    assert_eq!(for_entry(&m, "z"), None);
}

#[test]
fn build_entry_status_fills_defaults() {
    let s = build_entry_status(None, None, None, None, 10);
    assert_eq!(s.domain, DomainType::Unknown);
    assert_eq!(s.pid, 0);
    assert_eq!(s.limit_load_to_session_type, SessionType::Unknown);
    assert_eq!(s.plist, None);
    assert_eq!(s.tick_ms, 10);
    let s = build_entry_status(Some(DomainType::User), Some(42), Some("Aqua".to_string()), None, 11);
    assert_eq!(s.domain, DomainType::User);
    assert_eq!(s.pid, 42);
    assert_eq!(s.limit_load_to_session_type, SessionType::Aqua);
    let d = LaunchdEntryStatus::default_at(5);
    assert_eq!(d.tick_ms, 5);
    assert_eq!(d.domain, DomainType::Unknown);
}

#[test]
fn law_cached_status_is_last_recorded_on_values() {
    let mut cache: EntryStatusCache = LabelMap::new();
    let first = build_entry_status(Some(DomainType::System), Some(1), None, None, 1000);
    let second = build_entry_status(Some(DomainType::User), Some(2), None, None, 2000);
    record_entry_status(&mut cache, "job".to_string(), first);
    record_entry_status(&mut cache, "job".to_string(), second.clone());
    assert_eq!(get_entry_status(&mut cache, "job", 3000), Some(second));
    assert_eq!(get_entry_status(&mut cache, "other", 3000), None);
}

#[test]
fn get_entry_status_drops_expired_entries() {
    let mut cache: EntryStatusCache = LabelMap::new();
    let s = build_entry_status(Some(DomainType::System), Some(1), None, None, 1000);
    record_entry_status(&mut cache, "job".to_string(), s.clone());
    assert_eq!(get_entry_status(&mut cache, "job", 16000), Some(s));
    assert_eq!(get_entry_status(&mut cache, "job", 16001), None);
    assert!(!cache.contains_key("job"));
}

#[test]
fn invalidate_entry_status_forgets_the_label() {
    let mut cache: EntryStatusCache = LabelMap::new();
    record_entry_status(&mut cache, "job".to_string(), LaunchdEntryStatus::default_at(1));
    invalidate_entry_status(&mut cache, "job");
    assert!(!cache.contains_key("job"));
}

#[test]
fn entry_info_cache_round_trip() {
    let mut cache: EntryInfoCache = LabelMap::new();
    let info = build_entry_info(Some("Background".to_string()), None);
    assert_eq!(info.limit_load_to_session_type, SessionType::Background);
    assert!(find_entry_info(&cache, "x").is_none());
    record_entry_info(&mut cache, "x".to_string(), info.clone());
    assert_eq!(find_entry_info(&cache, "x"), Some(info.clone()));
    assert_eq!(find_entry_info(&cache, "x"), Some(info));
    assert_eq!(build_entry_info(None, None).limit_load_to_session_type, SessionType::Unknown);
}

// ---- XPC messages ----

#[test]
fn xpc_dict_entries_replace_earlier_values() {
    let d = XpcDict::new()
        .entry("a", XpcValue::U64(1))
        .entry("b", XpcValue::Bool(true))
        .entry("a", XpcValue::Str("x".to_string()));
    assert_eq!(d.len(), 2);
    assert_eq!(str_of(d.get("a")), Some("x".to_string()));
    assert_eq!(bool_of(d.get("b")), Some(true));
    let d = d.entry_if_present("c", None).entry_if_present("d", Some(XpcValue::I64(-1)));
    assert!(d.get("c").is_none());
    assert!(matches!(d.get("d"), Some(XpcValue::I64(-1))));
    let mut keys: Vec<String> = (0..d.len()).map(|i| d.entry_at(i).0.clone()).collect();
    keys.sort();
    assert_eq!(keys, vec!["a", "b", "d"]);
}

#[test]
fn xpc_dict_extend_prefers_the_other_dictionary() {
    let a = XpcDict::new().entry("k", XpcValue::U64(1)).entry("only_a", XpcValue::U64(2));
    let b = XpcDict::new().entry("k", XpcValue::U64(9)).entry("only_b", XpcValue::U64(3));
    let c = a.extend(&b);
    assert_eq!(c.len(), 3);
    assert_eq!(u64_of(c.get("k")), Some(9));
    assert_eq!(u64_of(c.get("only_a")), Some(2));
    assert_eq!(u64_of(c.get("only_b")), Some(3));
}

#[test]
fn xpc_dict_defaults() {
    let d = XpcDict::new()
        .with_session_type_or_default(None)
        .with_handle_or_default(None)
        .with_domain_type_or_default(None)
        .with_domain_port(77);
    assert_eq!(str_of(d.get("session")), Some("Aqua".to_string()));
    assert_eq!(u64_of(d.get("handle")), Some(0));
    assert_eq!(u64_of(d.get("type")), Some(7));
    assert!(matches!(d.get("domain_port"), Some(XpcValue::MachSend(77))));
    let d = XpcDict::new()
        .with_session_type_or_default(Some(SessionType::Background))
        .with_handle_or_default(Some(501))
        .with_domain_type_or_default(Some(DomainType::User));
    assert_eq!(str_of(d.get("session")), Some("Background".to_string()));
    assert_eq!(u64_of(d.get("handle")), Some(501));
    assert_eq!(u64_of(d.get("type")), Some(2));
}

#[test]
fn message_protos_hold_their_fields() {
    let l = message::list_services_proto();
    assert_eq!(l.len(), 4);
    assert_eq!(u64_of(l.get("subsystem")), Some(3));
    assert_eq!(u64_of(l.get("handle")), Some(0));
    assert_eq!(u64_of(l.get("routine")), Some(815));
    assert_eq!(bool_of(l.get("legacy")), Some(true));
    let d = message::dumpstate_proto();
    assert_eq!(u64_of(d.get("routine")), Some(834));
    assert_eq!(u64_of(d.get("type")), Some(1));
    assert_eq!(u64_of(d.get("handle")), Some(0));
    let j = message::dumpjpcategory_proto();
    assert_eq!(u64_of(j.get("routine")), Some(837));
    let p = message::procinfo_proto();
    assert_eq!(p.len(), 2);
    assert_eq!(u64_of(p.get("subsystem")), Some(2));
    assert_eq!(u64_of(p.get("routine")), Some(708));
    let m = messages::list_services_message();
    assert_eq!(m.len(), 5);
    assert_eq!(u64_of(m.get("type")), Some(1));
    let copy = messages::from_msg(&m);
    assert_eq!(copy.len(), 5);
    assert_eq!(bool_of(copy.get("legacy")), Some(true));
}

// ---- routine calls ----

#[test]
fn find_in_all_asks_each_domain_in_turn() {
    let call = command::find_in_all_call("com.x", 3);
    assert_eq!(call.routine, 815);
    assert!(call.domain.is_none());
    assert_eq!(u64_of(call.dict.get("type")), Some(3));
    assert_eq!(u64_of(call.dict.get("handle")), Some(0));
    assert_eq!(str_of(call.dict.get("name")), Some("com.x".to_string()));
    let mut n = 1;
    let mut asked = vec![];
    loop {
        asked.push(n);
        match command::find_in_all_step(n, false) {
            FindStep::Next(m) => n = m,
            FindStep::NotFound => break,
            FindStep::Found(_) => panic!("nothing answered"),
        }
    }
    assert_eq!(asked, vec![1, 2, 3, 4, 5, 6, 7]);
    assert_eq!(command::find_in_all_step(2, true), FindStep::Found(DomainType::User));
}

#[test]
fn list_call_names_the_job_if_given() {
    let c = command::list(DomainType::System, None);
    assert_eq!(c.routine, 815);
    assert_eq!(c.domain, Some(DomainType::System));
    assert_eq!(c.dict.len(), 0);
    let c = command::list(DomainType::User, Some("com.x".to_string()));
    assert_eq!(str_of(c.dict.get("name")), Some("com.x".to_string()));
    assert_eq!(command::disabled_jobs_domain(0), DomainType::System);
    assert_eq!(command::disabled_jobs_domain(501), DomainType::User);
}

#[test]
fn list_all_merges_without_duplicates() {
    let system = vec!["a".to_string(), "b".to_string()];
    let user = vec!["b".to_string(), "c".to_string(), "c".to_string()];
    let other = vec!["d".to_string()];
    assert_eq!(sorted(command::list_all(&vec![system.clone(), user.clone(), other])), vec!["a", "b", "c", "d"]);
    assert_eq!(sorted(command::list_all(&vec![system])), vec!["a", "b"]);
    assert_eq!(command::list_all(&vec![]), Vec::<String>::new());
}

#[test]
fn all_domain_types_in_order() {
    assert_eq!(
        command::all_domain_types(),
        vec![
            DomainType::System,
            DomainType::User,
            DomainType::UserLogin,
            DomainType::Session,
            DomainType::PID,
            DomainType::RequestorUserDomain,
            DomainType::RequestorDomain,
        ]
    );
}

#[test]
fn job_calls_drop_the_cached_status() {
    let mut cache: EntryStatusCache = LabelMap::new();
    record_entry_status(&mut cache, "job".to_string(), LaunchdEntryStatus::default_at(1));
    let c = command::blame(&mut cache, "job", DomainType::User);
    assert!(!cache.contains_key("job"));
    assert_eq!(c.routine, 707);
    assert_eq!(c.domain, Some(DomainType::User));
    assert_eq!(str_of(c.dict.get("name")), Some("job".to_string()));

    record_entry_status(&mut cache, "job".to_string(), LaunchdEntryStatus::default_at(1));
    let c = command::bootout(&mut cache, "job", DomainType::System);
    assert!(!cache.contains_key("job"));
    assert_eq!(c.routine, 801);
    assert_eq!(bool_of(c.dict.get("no-einprogress")), Some(true));

    record_entry_status(&mut cache, "job".to_string(), LaunchdEntryStatus::default_at(1));
    let c = command::bootstrap(&mut cache, "job", DomainType::System, "/Library/LaunchDaemons/job.plist");
    assert!(!cache.contains_key("job"));
    assert_eq!(c.routine, 800);
    assert_eq!(bool_of(c.dict.get("by-cli")), Some(true));
    assert_eq!(strs_of(c.dict.get("paths")), Some(vec!["/Library/LaunchDaemons/job.plist".to_string()]));
}

#[test]
fn enable_and_disable_name_the_job_twice() {
    let e = command::enable("job", DomainType::User);
    assert_eq!(e.routine, 808);
    assert_eq!(str_of(e.dict.get("name")), Some("job".to_string()));
    assert_eq!(strs_of(e.dict.get("names")), Some(vec!["job".to_string()]));
    let d = command::disable("job", DomainType::System);
    assert_eq!(d.routine, 809);
    assert_eq!(d.domain, Some(DomainType::System));
}

#[test]
fn report_calls_share_memory() {
    let d = command::dumpstate();
    assert_eq!(d.routine, 834);
    assert_eq!(d.domain, Some(DomainType::System));
    assert_eq!(shmem_of(d.dict.get("shmem")), Some(0x1400000));
    let j = command::dumpjpcategory();
    assert_eq!(j.routine, 837);
    let p = command::procinfo(123);
    assert_eq!(p.routine, 708);
    assert!(p.domain.is_none());
    assert!(matches!(p.dict.get("pid"), Some(XpcValue::I64(123))));
    let r = command::read_disabled(DomainType::User);
    assert_eq!(r.routine, 828);
    assert_eq!(shmem_of(r.dict.get("shmem")), Some(1_000_000));
}

#[test]
fn reply_decoding_tells_missing_from_wrong_type() {
    let reply = XpcDict::new().entry("reason", XpcValue::Str("ipc (mach)".to_string()));
    assert_eq!(command::blame_reason(&reply).unwrap(), "ipc (mach)");
    assert!(matches!(command::blame_reason(&XpcDict::new()), Err(QueryError::NotFound)));
    let wrong = XpcDict::new().entry("reason", XpcValue::U64(1));
    assert!(matches!(command::blame_reason(&wrong), Err(QueryError::WrongType)));

    let reply = XpcDict::new().entry("bytes-written", XpcValue::U64(512));
    assert_eq!(command::bytes_written(&reply).unwrap(), 512);
    assert!(matches!(command::bytes_written(&XpcDict::new()), Err(QueryError::NotFound)));
    let wrong = XpcDict::new().entry("bytes-written", XpcValue::Bool(true));
    assert!(matches!(command::bytes_written(&wrong), Err(QueryError::WrongType)));
    assert!(matches!(command::reply_string(&wrong, "bytes-written"), Err(QueryError::WrongType)));
}

#[test]
fn read_disabled_hashset_finds_disabled_labels() {
    let text = "disabled services = {\n\t\"com.apple.a\" => disabled\n\t\"com.b\" => enabled\n\t\"org.c_d.e\" => disabled\n\t\"com.apple.a\" => disabled\n}\n";
    let labels = command::read_disabled_hashset(text).unwrap();
    assert_eq!(sorted(labels), vec!["com.apple.a", "org.c_d.e"]);
    assert_eq!(command::read_disabled_hashset("").unwrap(), Vec::<String>::new());
}

#[test]
fn labels_from_captures_takes_the_last_present_group() {
    let caps = vec![
        vec![Some("\"x\" => disabled".to_string()), Some("x".to_string())],
        vec![Some("whole".to_string()), None],
        vec![Some("\"x\" => disabled".to_string()), Some("x".to_string())],
    ];
    assert_eq!(sorted(command::labels_from_captures(&caps)), vec!["whole", "x"]);
}

// ---- older query messages ----

#[test]
fn query_messages_extend_the_list_proto() {
    let m = query::find_in_all_message("job", 4);
    assert_eq!(m.len(), 6);
    assert_eq!(u64_of(m.get("type")), Some(4));
    assert_eq!(str_of(m.get("name")), Some("job".to_string()));
    assert_eq!(u64_of(m.get("routine")), Some(815));
    assert_eq!(query::find_in_all_step(5, false), FindStep::Next(6));
    assert_eq!(query::find_in_all_step(6, false), FindStep::NotFound);
    assert_eq!(query::find_in_all_step(6, true), FindStep::Found(DomainType::RequestorUserDomain));
    let l = query::list(DomainType::User, None);
    assert_eq!(l.len(), 5);
    assert_eq!(u64_of(l.get("type")), Some(2));
    let l = query::list(DomainType::User, Some("job".to_string()));
    assert_eq!(str_of(l.get("name")), Some("job".to_string()));
    let d = query::dumpstate();
    assert_eq!(shmem_of(d.get("shmem")), Some(0x1400000));
    assert_eq!(u64_of(d.get("routine")), Some(834));
    let lists = vec![vec!["a".to_string()], vec!["b".to_string(), "a".to_string()], vec![]];
    assert_eq!(sorted(query::list_all(&lists)), vec!["a", "b"]);
}
