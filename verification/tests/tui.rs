use launchk::launchd::entry_status::{build_entry_status, LaunchdEntryStatus};
use launchk::launchd::enums::DomainType;
use launchk::launchd::job_type_filter::{JobFlag, JobTypeFilter};
use launchk::launchd::label_map::LabelMap;
use launchk::launchd::plist::{LaunchdEntryLocation, LaunchdEntryType, LaunchdPlist, PlistMap};
use launchk::tui::dialog::{show_help, show_notice};
use launchk::tui::omnibox::command::{omnibox_command, omnibox_commands, OmniboxCommand};
use launchk::tui::omnibox::filter_bar::{bar_width_of, job_type_filter_bar, SegmentStyle};
use launchk::tui::omnibox::state::{OmniboxMode, OmniboxState};
use launchk::tui::omnibox::view::{
    command_header, handle_active, handle_idle, handle_job_type_filter, on_event, tick,
    visible_filter, InputEvent, OmniboxError, OmniboxEvent,
};
use launchk::tui::root::{chain_outcome, chain_result, followup, on_omnibox, route_event, EventRoute, Followup, KeyRing, RootAction};
use launchk::tui::service::{service_row, sorted_services};
use launchk::tui::service_list::list_item::ServiceListItem;
use launchk::tui::service_list::view::{
    contains_label, handle_command, handle_state_update, item_job_type_filter, labels_to_present,
    matches_name_filter, present_services, ServiceCommandOutcome, ServiceListFilters, ServiceListState,
};
use launchk::tui::table::column_sizer::ColumnSizer;
use launchk::tui::table::table_headers::TableHeaders;
use launchk::tui::table::table_list_view::{present_row, TableListItem, TableListView};
use launchk::tui::table_list_view::TableListView as EvenTableListView;

fn flags(fs: &[JobFlag]) -> JobTypeFilter {
    let mut f = JobTypeFilter::empty();
    for x in fs {
        f = f.union(JobTypeFilter::flag(*x));
    }
    f
}

fn state(mode: OmniboxMode, label: &str, command: &str, now: u64) -> OmniboxState {
    OmniboxState::default_at(now).with_new(
        Some(mode),
        Some(label.to_string()),
        Some(command.to_string()),
        None,
        now,
    )
}

fn service_columns() -> Vec<(String, Option<usize>)> {
    vec![
        ("Name".to_string(), None),
        ("Session".to_string(), Some(12)),
        ("Job Type".to_string(), Some(14)),
        ("PID".to_string(), Some(6)),
        ("Loaded".to_string(), Some(6)),
    ]
}

fn a_plist(location: LaunchdEntryLocation, entry_type: LaunchdEntryType) -> LaunchdPlist {
    LaunchdPlist {
        entry_type,
        entry_location: location,
        plist_path: "/Library/LaunchAgents/job.plist".to_string(),
        readonly: false,
    }
}

fn item(name: &str, status: LaunchdEntryStatus, f: JobTypeFilter) -> ServiceListItem {
    ServiceListItem { name: name.to_string(), status, job_type_filter: f }
}

// ---- column sizer and tables ----

#[test]
fn column_sizer_splits_the_width() {
    let mut cs = ColumnSizer::new(&service_columns());
    assert_eq!(cs.num_columns(), 5);
    assert_eq!(cs.width_for_index(0).unwrap(), 1);
    assert_eq!(cs.width_for_index(1).unwrap(), 13);
    cs.update_x(100).unwrap();
    assert_eq!(cs.width_for_index(0).unwrap(), 32);
    assert_eq!(cs.width_for_index(1).unwrap(), 18);
    assert_eq!(cs.width_for_index(2).unwrap(), 20);
    assert_eq!(cs.width_for_index(3).unwrap(), 12);
    assert_eq!(cs.width_for_index(4).unwrap(), 12);
    assert_eq!(cs.width_for_index(9).unwrap(), 32);
}

#[test]
fn law_update_x_fits_on_values() {
    let mut cs = ColumnSizer::new(&service_columns());
    cs.update_x(0).unwrap();
    assert_eq!(cs.width_for_index(0).unwrap(), 1);
    cs.update_x(usize::MAX).unwrap();
    assert_eq!(cs.width_for_index(0).unwrap(), 32);
    assert!(cs.width_for_index(1).is_ok());
}

#[test]
fn column_sizer_narrow_width_gives_one_column() {
    let mut cs = ColumnSizer::new(&vec![("A".to_string(), None), ("B".to_string(), None)]);
    cs.update_x(10).unwrap();
    assert_eq!(cs.width_for_index(0).unwrap(), 4);
    assert_eq!(cs.width_for_index(1).unwrap(), 4);
}

#[test]
fn table_headers_pad_each_name() {
    let mut cs = ColumnSizer::new(&vec![("A".to_string(), Some(3)), ("B".to_string(), None)]);
    cs.update_x(10).unwrap();
    let h = TableHeaders::new(vec!["A".to_string(), "B".to_string()]);
    let w0 = cs.width_for_index(0).unwrap();
    let w1 = cs.width_for_index(1).unwrap();
    let text = h.header_text(&cs);
    assert_eq!(text, format!("{:w0$}{:w1$}", "A", "B", w0 = w0, w1 = w1));
}

#[test]
fn present_row_cuts_and_pads_fields() {
    let mut cs = ColumnSizer::new(&vec![("A".to_string(), Some(3)), ("B".to_string(), None)]);
    cs.update_x(10).unwrap();
    let row = present_row(&cs, &vec!["abcdefgh".to_string(), "xy".to_string(), "ignored".to_string()]);
    // the user column is 3 wide with no padding left, so 2 bytes are kept;
    // the dynamic column is 6 wide; the third field has no column
    assert_eq!(row, "ab xy    ");
}

#[test]
fn table_list_view_rows_and_refresh() {
    let mut t = TableListView::new(&service_columns());
    t.layout(100);
    let header = t.header_text();
    assert!(header.starts_with("Name"));
    assert_eq!(header.chars().count(), 32 + 18 + 20 + 12 + 12);
    let status = build_entry_status(Some(DomainType::System), Some(7), None, None, 0);
    let it = item("com.x", status, flags(&[JobFlag::Loaded]));
    let rows = t.replace_and_preserve_selection(vec![it.clone()]).unwrap();
    assert_eq!(rows.len(), 1);
    assert!(rows[0].0.starts_with("com.x"));
    assert_eq!(rows[0].1, it);
    // the same rows again: nothing to refresh
    assert!(t.replace_and_preserve_selection(vec![it.clone()]).is_none());
    assert!(t.should_refresh(12345));
    assert!(!t.should_refresh(12345));
}

#[test]
fn even_table_divides_the_width() {
    let mut t = EvenTableListView::new(vec!["Name".to_string(), "PID".to_string()]);
    t.layout(20);
    assert_eq!(t.column_width(), 10);
    assert_eq!(t.present_row(&vec!["com.example.long".to_string(), "12".to_string()]), "com.examp 12        ");
    assert_eq!(t.header_text(), "Name      PID       ");
}

// ---- service list items ----

#[test]
fn service_list_item_row_fields() {
    let p = a_plist(LaunchdEntryLocation::Global, LaunchdEntryType::Daemon);
    let status = build_entry_status(Some(DomainType::System), Some(42), Some("Aqua".to_string()), Some(p), 0);
    let it = item("com.x", status, flags(&[JobFlag::Global, JobFlag::Daemon, JobFlag::Loaded]));
    assert_eq!(it.as_row(), vec!["com.x", "Aqua", "Daemon", "42", "\u{2714}"]);

    let status = build_entry_status(None, Some(42), None, None, 0);
    let it = item("com.y", status, flags(&[JobFlag::Disabled]));
    assert_eq!(it.as_row(), vec!["com.y", "-", "-", "-", "\u{2718} disabled"]);
}

#[test]
fn name_filter_ignores_ascii_case() {
    assert!(matches_name_filter("com.Apple.Finder", "apple"));
    assert!(matches_name_filter("com.apple.finder", "FIND"));
    assert!(matches_name_filter("anything", ""));
    assert!(!matches_name_filter("com.apple.finder", "dock"));
    assert!(contains_label(&vec!["a".to_string(), "b".to_string()], "b"));
    assert!(!contains_label(&vec![], "b"));
}

#[test]
fn labels_to_present_adds_running_jobs_without_plists() {
    let mut plists: PlistMap = LabelMap::new();
    plists.insert("com.a".to_string(), a_plist(LaunchdEntryLocation::User, LaunchdEntryType::Agent));
    plists.insert("com.b".to_string(), a_plist(LaunchdEntryLocation::User, LaunchdEntryType::Agent));
    let running = vec!["com.b".to_string(), "com.c".to_string(), "org.d".to_string()];
    assert_eq!(labels_to_present(&plists, &running, ""), vec!["com.a", "com.b", "com.c", "org.d"]);
    assert_eq!(labels_to_present(&plists, &running, "COM"), vec!["com.a", "com.b", "com.c"]);
}

#[test]
fn item_job_type_filter_flags() {
    let p = Some(a_plist(LaunchdEntryLocation::User, LaunchdEntryType::Agent));
    assert_eq!(item_job_type_filter(&p, true, true), flags(&[JobFlag::User, JobFlag::Agent, JobFlag::Loaded, JobFlag::Disabled]));
    assert_eq!(item_job_type_filter(&None, true, true), flags(&[JobFlag::Loaded]));
    assert_eq!(item_job_type_filter(&None, false, true), flags(&[JobFlag::Disabled]));
    assert_eq!(item_job_type_filter(&None, false, false), JobTypeFilter::empty());
}

#[test]
fn present_services_filters_and_sorts() {
    let st = ServiceListState {
        running_jobs: vec!["b.running".to_string(), "a.running".to_string()],
        disabled_jobs: vec!["c.disabled".to_string()],
    };
    let status = |_: u8| LaunchdEntryStatus::default_at(0);
    let candidates = vec![
        ("b.running".to_string(), status(0)),
        ("c.disabled".to_string(), status(0)),
        ("a.running".to_string(), status(0)),
        ("d.idle".to_string(), status(0)),
    ];
    let all = present_services(candidates.clone(), &st, JobTypeFilter::empty());
    let names: Vec<&str> = all.iter().map(|i| i.name.as_str()).collect();
    assert_eq!(names, vec!["c.disabled", "d.idle", "a.running", "b.running"]);
    let loaded = present_services(candidates, &st, JobTypeFilter::launchk_default());
    let names: Vec<&str> = loaded.iter().map(|i| i.name.as_str()).collect();
    assert_eq!(names, vec!["a.running", "b.running"]);
}

#[test]
fn handle_state_update_takes_filters_by_mode() {
    let mut f = ServiceListFilters::new();
    assert_eq!(f.label_filter, "");
    assert_eq!(f.job_type_filter, JobTypeFilter::launchk_default());
    let s = state(OmniboxMode::LabelFilter, "abc", "", 0);
    assert_eq!(handle_state_update(&mut f, s), Ok(None));
    assert_eq!(f.label_filter, "abc");
    let s = OmniboxState::default_at(0).with_new(
        Some(OmniboxMode::JobTypeFilter),
        Some("ignored".to_string()),
        None,
        Some(flags(&[JobFlag::System])),
        0,
    );
    handle_state_update(&mut f, s).unwrap();
    assert_eq!(f.label_filter, "abc");
    assert_eq!(f.job_type_filter, flags(&[JobFlag::System]));
    let s = state(OmniboxMode::CommandFilter, "zzz", "x", 0);
    handle_state_update(&mut f, s).unwrap();
    assert_eq!(f.label_filter, "abc");
    let s = state(OmniboxMode::Idle, "", "", 0);
    handle_state_update(&mut f, s).unwrap();
    assert_eq!(f.label_filter, "");
    assert_eq!(f.job_type_filter, JobTypeFilter::launchk_default());
}

#[test]
fn handle_command_outcomes() {
    assert!(matches!(
        handle_command(OmniboxCommand::Blame, None, false),
        ServiceCommandOutcome::Done(Err(OmniboxError::CommandError(m))) if m == "Cannot get highlighted row"
    ));
    let sys = build_entry_status(
        Some(DomainType::System),
        Some(5),
        None,
        Some(a_plist(LaunchdEntryLocation::Global, LaunchdEntryType::Daemon)),
        0,
    );
    let it = item("com.sys", sys, flags(&[JobFlag::Loaded]));
    match handle_command(OmniboxCommand::Edit, Some(&it), false) {
        ServiceCommandOutcome::Done(Ok(Some(OmniboxCommand::Confirm(m, cmds)))) => {
            assert_eq!(m, "This requires root privileges. Sudo and restart?");
            assert_eq!(cmds, vec![OmniboxCommand::Quit, OmniboxCommand::Sudo]);
        },
        other => panic!("{:?}", other),
    }
    assert!(matches!(
        handle_command(OmniboxCommand::Blame, Some(&it), false),
        ServiceCommandOutcome::Blame { name, domain: DomainType::System } if name == "com.sys"
    ));
    assert!(matches!(
        handle_command(OmniboxCommand::EnableRequest, Some(&it), true),
        ServiceCommandOutcome::Done(Ok(Some(OmniboxCommand::Enable(DomainType::System))))
    ));
    assert!(matches!(
        handle_command(OmniboxCommand::ProcInfo, Some(&it), true),
        ServiceCommandOutcome::ProcInfo { pid: 5 }
    ));
    // procinfo does not require root, even on a system job
    assert!(matches!(
        handle_command(OmniboxCommand::ProcInfo, Some(&it), false),
        ServiceCommandOutcome::ProcInfo { pid: 5 }
    ));
    assert!(matches!(
        handle_command(OmniboxCommand::Bootstrap(DomainType::System), Some(&it), true),
        ServiceCommandOutcome::Bootstrap { domain: DomainType::System, .. }
    ));
    let no_pid = item("com.idle", LaunchdEntryStatus::default_at(0), JobTypeFilter::empty());
    assert!(matches!(
        handle_command(OmniboxCommand::ProcInfo, Some(&no_pid), true),
        ServiceCommandOutcome::Done(Err(OmniboxError::CommandError(m))) if m == "No PID for com.idle"
    ));
    assert!(matches!(
        handle_command(OmniboxCommand::Edit, Some(&no_pid), true),
        ServiceCommandOutcome::Done(Err(OmniboxError::CommandError(m))) if m == "Cannot find plist"
    ));
    assert!(matches!(
        handle_command(OmniboxCommand::Help, Some(&no_pid), true),
        ServiceCommandOutcome::Done(Ok(None))
    ));
}

// ---- omnibox ----

#[test]
fn omnibox_commands_table() {
    let all = omnibox_commands();
    assert_eq!(all.len(), 14);
    assert_eq!(all[0].0, "blame");
    assert_eq!(all[11].0, "exit");
    assert_eq!(all[12], ("load", "Load highlighted job", OmniboxCommand::BootstrapRequest));
    assert_eq!(all[13], ("unload", "Unload highlighted job", OmniboxCommand::BootoutRequest));
    assert_eq!(all[11].2, OmniboxCommand::Quit);
    assert_eq!(omnibox_command(7).0, "dumpstate");
}

#[test]
fn idle_keys_start_filters() {
    let s = OmniboxState::default_at(0);
    let l = handle_idle(InputEvent::Char('/'), &s, 5).unwrap();
    assert_eq!(l.mode, OmniboxMode::LabelFilter);
    assert_eq!(l.tick_ms, 5);
    let c = handle_idle(InputEvent::Char(':'), &s, 5).unwrap();
    assert_eq!(c.mode, OmniboxMode::CommandFilter);
    let j = handle_idle(InputEvent::Char('s'), &s, 5).unwrap();
    assert_eq!(j.mode, OmniboxMode::JobTypeFilter);
    assert_eq!(j.job_type_filter, flags(&[JobFlag::System, JobFlag::Loaded]));
    assert!(handle_idle(InputEvent::Char('x'), &s, 5).is_none());
    assert!(handle_job_type_filter(InputEvent::Enter, &s, 5).is_none());
    let off = handle_job_type_filter(InputEvent::Char('l'), &s, 5).unwrap();
    assert_eq!(off.job_type_filter, JobTypeFilter::empty());
}

#[test]
fn law_backspace_undoes_typing_on_values() {
    let s = state(OmniboxMode::LabelFilter, "ab", "", 0);
    let typed = handle_active(InputEvent::Char('c'), &s, 1).unwrap();
    assert_eq!(typed.label_filter, "abc");
    let back = handle_active(InputEvent::Backspace, &typed, 2).unwrap();
    assert_eq!(back.label_filter, "ab");
    let empty = state(OmniboxMode::LabelFilter, "", "", 0);
    assert!(handle_active(InputEvent::Backspace, &empty, 1).is_none());
    let s = state(OmniboxMode::CommandFilter, "", "ed", 0);
    let typed = handle_active(InputEvent::Char('i'), &s, 1).unwrap();
    assert_eq!(typed.command_filter, "edi");
    assert_eq!(handle_active(InputEvent::Backspace, &typed, 1).unwrap().command_filter, "ed");
}

#[test]
fn law_complete_then_submit_on_values() {
    let s = state(OmniboxMode::CommandFilter, "", "dumpj", 0);
    assert_eq!(s.suggest_command().map(|c| c.0), Some("dumpjpcategory"));
    let completed = handle_active(InputEvent::Tab, &s, 1).unwrap();
    assert_eq!(completed.command_filter, "dumpjpcategory");
    let submitted = handle_active(InputEvent::Enter, &completed, 2).unwrap();
    assert_eq!(submitted.mode, OmniboxMode::CommandConfirm(OmniboxCommand::DumpJetsamPropertiesCategory));
    // enter on an incomplete name does nothing
    assert!(handle_active(InputEvent::Enter, &s, 2).is_none());
    // first match wins: "d" suggests "disable"
    let d = state(OmniboxMode::CommandFilter, "", "d", 0);
    assert_eq!(d.suggest_command().map(|c| c.0), Some("disable"));
    let none = state(OmniboxMode::CommandFilter, "", "zzz", 0);
    assert!(none.suggest_command().is_none());
    assert!(handle_active(InputEvent::Tab, &none, 1).is_none());
    let label = state(OmniboxMode::LabelFilter, "d", "", 0);
    assert!(label.suggest_command().is_none());
}

#[test]
fn law_ctrl_u_resets_on_values() {
    let s = state(OmniboxMode::LabelFilter, "abc", "x", 0).with_new(None, None, None, Some(JobTypeFilter::empty()), 3);
    let (focus, new) = on_event(&s, InputEvent::CtrlChar('u'), 9);
    assert!(focus);
    assert_eq!(new.unwrap(), OmniboxState::default_at(9));
}

#[test]
fn law_esc_goes_idle_on_values() {
    let s = state(OmniboxMode::CommandFilter, "abc", "blame", 0);
    let (focus, new) = on_event(&s, InputEvent::Esc, 4);
    assert!(focus);
    let new = new.unwrap();
    assert_eq!(new.mode, OmniboxMode::Idle);
    assert_eq!(new.label_filter, "abc");
    assert_eq!(new.command_filter, "blame");
    let (focus, new) = on_event(&OmniboxState::default_at(0), InputEvent::Char('q'), 1);
    assert!(!focus);
    assert!(new.is_none());
}

#[test]
fn tick_goes_idle_after_a_pause() {
    let s = state(OmniboxMode::LabelFilter, "abc", "", 1000);
    assert!(tick(&s, 2999).is_none());
    let (cmd, idle) = tick(&s, 3000).unwrap();
    assert!(cmd.is_none());
    assert_eq!(idle.mode, OmniboxMode::Idle);
    assert_eq!(idle.label_filter, "abc");
    let c = state(OmniboxMode::CommandFilter, "", "blam", 0);
    let (_, idle) = tick(&c, 5000).unwrap();
    assert_eq!(idle.command_filter, "");
    let confirm = state(OmniboxMode::CommandConfirm(OmniboxCommand::Help), "", "help", 0);
    let (cmd, idle) = tick(&confirm, 0).unwrap();
    assert_eq!(cmd, Some(OmniboxCommand::Help));
    assert_eq!(idle.mode, OmniboxMode::Idle);
    assert_eq!(idle.command_filter, "");
    assert!(tick(&OmniboxState::default_at(0), 100000).is_none());
}

#[test]
fn command_header_and_visible_filter() {
    assert_eq!(command_header(&state(OmniboxMode::LabelFilter, "", "", 0)), "Filter > ");
    assert_eq!(command_header(&state(OmniboxMode::CommandFilter, "", "", 0)), "Command > ");
    assert_eq!(command_header(&state(OmniboxMode::CommandConfirm(OmniboxCommand::Quit), "", "", 0)), "OK! > ");
    assert_eq!(command_header(&state(OmniboxMode::Idle, "x", "", 0)), "Filter > ");
    assert_eq!(command_header(&state(OmniboxMode::Idle, "", "", 0)), "");
    assert_eq!(visible_filter(&state(OmniboxMode::Idle, "label", "", 0)), "label");
    assert_eq!(visible_filter(&state(OmniboxMode::Idle, "label", "cmd", 0)), "cmd");
    assert_eq!(visible_filter(&state(OmniboxMode::CommandFilter, "label", "", 0)), "");
}

#[test]
fn job_type_filter_bar_compact_and_expanded() {
    let s = OmniboxState::default_at(0);
    let bar = job_type_filter_bar(&s, 80);
    let texts: Vec<&str> = bar.iter().map(|b| b.text).collect();
    assert_eq!(texts, vec!["[", "s", "g", "u", "a", "d", "l", "]"]);
    assert_eq!(bar[0].x, 72);
    assert_eq!(bar[7].x, 79);
    assert_eq!(bar[6].style, SegmentStyle::Active);
    assert_eq!(bar[1].style, SegmentStyle::Inactive);
    assert_eq!(bar[0].style, SegmentStyle::Plain);

    let e = s.with_new(Some(OmniboxMode::JobTypeFilter), None, None, None, 0);
    let bar = job_type_filter_bar(&e, 40);
    let joined: String = bar.iter().map(|b| b.text).collect();
    assert_eq!(joined, "[system global user agent daemon loaded]");
    assert_eq!(bar[0].x, 0);
    assert_eq!(bar[7].x, 39);
    for i in 0..7 {
        assert_eq!(bar[i + 1].x, bar[i].x + bar[i].text.len());
    }
    assert_eq!(bar_width_of(&s), 8);
    assert_eq!(bar_width_of(&e), 40);
}

#[test]
fn omnibox_events_clone() {
    let s = state(OmniboxMode::LabelFilter, "abc", "", 7);
    assert_eq!(OmniboxEvent::StateUpdate(s.clone()).clone(), OmniboxEvent::StateUpdate(s));
    let c = OmniboxEvent::Command(OmniboxCommand::Chain(vec![OmniboxCommand::Quit, OmniboxCommand::Help]));
    assert_eq!(c.clone(), c);
    assert_eq!(OmniboxEvent::FocusServiceList.clone(), OmniboxEvent::FocusServiceList);
}

// ---- root layout ----

#[test]
fn route_event_sends_filter_keys_to_the_omnibox() {
    assert_eq!(route_event(InputEvent::Char('/')), EventRoute::Omnibox);
    assert_eq!(route_event(InputEvent::Backspace), EventRoute::Omnibox);
    assert_eq!(route_event(InputEvent::CtrlChar('u')), EventRoute::Omnibox);
    assert_eq!(route_event(InputEvent::Esc), EventRoute::KeyRing);
    assert_eq!(route_event(InputEvent::Char('A')), EventRoute::KeyRing);
    assert_eq!(route_event(InputEvent::Char('x')), EventRoute::Layout);
    assert_eq!(route_event(InputEvent::Enter), EventRoute::Layout);
}

#[test]
fn law_ring_makes_arrows_on_values() {
    for (letter, arrow) in [('A', InputEvent::Up), ('B', InputEvent::Down), ('C', InputEvent::Right), ('D', InputEvent::Left)] {
        let mut ring = KeyRing::new();
        assert_eq!(ring.translate(InputEvent::Esc), InputEvent::Esc);
        assert_eq!(ring.translate(InputEvent::Char('[')), InputEvent::Char('['));
        assert_eq!(ring.translate(InputEvent::Char(letter)), arrow);
        assert_eq!(ring.ring_to_arrows(), None);
    }
    let mut ring = KeyRing::new();
    ring.push_back(InputEvent::Char('A'));
    ring.push_back(InputEvent::Char('['));
    assert_eq!(ring.translate(InputEvent::Char('A')), InputEvent::Char('A'));
}

#[test]
fn on_omnibox_maps_root_commands() {
    assert!(matches!(on_omnibox(OmniboxEvent::Command(OmniboxCommand::Quit)), RootAction::Quit));
    assert!(matches!(on_omnibox(OmniboxEvent::Command(OmniboxCommand::Help)), RootAction::ShowHelp));
    assert!(matches!(on_omnibox(OmniboxEvent::Command(OmniboxCommand::Blame)), RootAction::Nothing));
    assert!(matches!(on_omnibox(OmniboxEvent::FocusServiceList), RootAction::Nothing));
    match on_omnibox(OmniboxEvent::Command(OmniboxCommand::Confirm("Sure?".to_string(), vec![OmniboxCommand::Quit]))) {
        RootAction::ShowPrompt(m, c) => {
            assert_eq!(m, "Sure?");
            assert_eq!(c, vec![OmniboxCommand::Quit]);
        },
        other => panic!("{:?}", other),
    }
}

#[test]
fn load_and_unload_complete_and_confirm() {
    let s = state(OmniboxMode::CommandFilter, "", "lo", 0);
    assert!(handle_active(InputEvent::Enter, &s, 1).is_none());
    let completed = handle_active(InputEvent::Tab, &s, 1).unwrap();
    assert_eq!(completed.command_filter, "load");
    assert_eq!(completed.mode, OmniboxMode::CommandFilter);
    let confirmed = handle_active(InputEvent::Enter, &completed, 2).unwrap();
    assert_eq!(confirmed.mode, OmniboxMode::CommandConfirm(OmniboxCommand::BootstrapRequest));
    let u = state(OmniboxMode::CommandFilter, "", "u", 0);
    let completed = handle_active(InputEvent::Tab, &u, 1).unwrap();
    assert_eq!(completed.command_filter, "unload");
    let confirmed = handle_active(InputEvent::Enter, &completed, 2).unwrap();
    assert_eq!(confirmed.mode, OmniboxMode::CommandConfirm(OmniboxCommand::BootoutRequest));
}

#[test]
fn chain_outcome_collects_errors_in_order() {
    assert_eq!(chain_outcome(vec![Ok(None), Ok(Some(OmniboxCommand::Quit))]), Ok(None));
    assert_eq!(chain_outcome(vec![]), Ok(None));
    assert_eq!(
        chain_outcome(vec![
            Err(OmniboxError::CommandError("a".to_string())),
            Ok(None),
            Err(OmniboxError::StateError),
        ]),
        Err(OmniboxError::Many(vec![OmniboxError::CommandError("a".to_string()), OmniboxError::StateError]))
    );
}

#[test]
fn chain_result_collects_errors() {
    assert_eq!(chain_result(vec![]), Ok(None));
    assert_eq!(
        chain_result(vec![OmniboxError::StateError]),
        Err(OmniboxError::Many(vec![OmniboxError::StateError]))
    );
}

#[test]
fn followup_of_answers() {
    assert!(matches!(followup(&Ok(Some(OmniboxCommand::Sudo))), Followup::SendCommand(OmniboxCommand::Sudo)));
    assert!(matches!(
        followup(&Err(OmniboxError::CommandError("boom".to_string()))),
        Followup::ShowNotice(m) if m == "boom"
    ));
    assert!(matches!(followup(&Ok(None)), Followup::Nothing));
    assert!(matches!(followup(&Err(OmniboxError::StandardError)), Followup::Nothing));
}

// ---- dialogs ----

#[test]
fn show_notice_defaults_the_title() {
    let n = show_notice("hello".to_string(), None);
    assert_eq!(n.title, "Notice");
    assert_eq!(n.content, "hello");
    assert_eq!(show_notice("x".to_string(), Some("T".to_string())).title, "T");
}

#[test]
fn show_help_lists_every_command() {
    let h = show_help();
    assert_eq!(h.title, "Help");
    let lines: Vec<&str> = h.content.lines().collect();
    assert_eq!(lines.len(), 14);
    assert_eq!(lines[0], "blame          : Why launchd launched the service");
    assert_eq!(lines[11], "exit           : Exit");
    assert_eq!(lines[12], "load           : Load highlighted job");
    assert_eq!(lines[13], "unload         : Unload highlighted job");
}

// ---- older service view ----

#[test]
fn sorted_services_filters_by_lowercase() {
    let labels = vec!["com.Zed".to_string(), "com.apple.A".to_string(), "org.x".to_string()];
    assert_eq!(sorted_services(&labels, None), vec!["com.Zed", "com.apple.A", "org.x"]);
    assert_eq!(sorted_services(&labels, Some("COM.")), vec!["com.Zed", "com.apple.A"]);
    assert_eq!(sorted_services(&labels, Some("zed")), vec!["com.Zed"]);
    assert_eq!(sorted_services(&labels, Some("nothing")), Vec::<String>::new());
}

#[test]
fn service_row_halves_the_width() {
    assert_eq!(service_row("com.x", 0, 20), "com.x     -");
    assert_eq!(service_row("com.x", 123, 20), "com.x     123");
    assert_eq!(service_row("com.example.long", -4, 10), "com. -4");
    assert_eq!(service_row("ab", 7, 2), " 7");
}
