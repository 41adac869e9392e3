use vstd::prelude::*;
use crate::launchd::job_type_filter::{JobFlag, JobTypeFilter, flag_bit};
use crate::text::{can_truncate, push_char, str_eq, truncate_bytes, truncate_bytes_spec, utf8_of};
use crate::tui::omnibox::command::{CommandView, OmniboxCommand, command_table};
use crate::tui::omnibox::filter_bar::{bar_flags, flag_label};
use crate::tui::omnibox::state::{ModeView, OmniboxMode, OmniboxState, StateView, suggestion};

verus! {

/// How long the omnibox waits after the last change before it goes back to
/// idle, in milliseconds.
pub const IDLE_AFTER_MS: u64 = 2000;

/// A key press, as the omnibox and the root layout see it.
#[derive(Clone, Copy, Debug, PartialEq, Eq, Structural)]
pub enum InputEvent {
    Char(char),
    CtrlChar(char),
    Backspace,
    Tab,
    Enter,
    Esc,
    Up,
    Down,
    Left,
    Right,
    Other,
}

/// What views that subscribe to the omnibox receive.
#[derive(Debug, PartialEq, Eq)]
pub enum OmniboxEvent {
    FocusServiceList,
    StateUpdate(OmniboxState),
    Command(OmniboxCommand),
}

impl Clone for OmniboxEvent {
    fn clone(&self) -> (r: Self)
        ensures
            match (*self, r) {
                (OmniboxEvent::FocusServiceList, OmniboxEvent::FocusServiceList) => true,
                (OmniboxEvent::StateUpdate(a), OmniboxEvent::StateUpdate(b)) => b@ == a@,
                (OmniboxEvent::Command(a), OmniboxEvent::Command(b)) => b@ == a@,
                _ => false,
            },
    {
        match self {
            OmniboxEvent::FocusServiceList => OmniboxEvent::FocusServiceList,
            OmniboxEvent::StateUpdate(s) => OmniboxEvent::StateUpdate(s.clone()),
            OmniboxEvent::Command(c) => OmniboxEvent::Command(c.clone()),
        }
    }
}

/// Why a view could not carry out an omnibox event.
#[derive(Debug, PartialEq, Eq)]
pub enum OmniboxError {
    StandardError,
    CommandError(String),
    StateError,
    Many(Vec<OmniboxError>),
}

/// What a view answers an omnibox event with: maybe a command to run next.
pub type OmniboxResult = Result<Option<OmniboxCommand>, OmniboxError>;

/// The value of a view's answer: the command to run next, or the message of
/// a command error, or some other error.
pub ghost enum ResultView {
    Answer(Option<CommandView>),
    CommandError(Seq<char>),
    OtherError,
}

/// The value of a view's answer.
pub open spec fn result_view(r: OmniboxResult) -> ResultView {
    match r {
        Ok(Some(c)) => ResultView::Answer(Some(c@)),
        Ok(None) => ResultView::Answer(None),
        Err(OmniboxError::CommandError(m)) => ResultView::CommandError(m@),
        Err(_) => ResultView::OtherError,
    }
}

/// The flag a hotkey toggles in the job type filter.
pub open spec fn hotkey_flag(c: char) -> Option<JobFlag> {
    if c == 's' {
        Some(JobFlag::System)
    } else if c == 'g' {
        Some(JobFlag::Global)
    } else if c == 'u' {
        Some(JobFlag::User)
    } else if c == 'a' {
        Some(JobFlag::Agent)
    } else if c == 'd' {
        Some(JobFlag::Daemon)
    } else if c == 'l' {
        Some(JobFlag::Loaded)
    } else {
        None
    }
}

/// The state after a job type hotkey: the flag toggled, job type mode.
pub open spec fn job_type_filter_step(s: StateView, e: InputEvent, now: u64) -> Option<StateView> {
    match e {
        InputEvent::Char(c) => match hotkey_flag(c) {
            Some(f) => Some(
                StateView {
                    mode: ModeView::JobTypeFilter,
                    tick_ms: now,
                    job_type_bits: s.job_type_bits ^ flag_bit(f),
                    ..s
                },
            ),
            None => None,
        },
        _ => None,
    }
}

/// The state after a key while idle: '/' starts a label filter, ':' a
/// command, a hotkey toggles a job type flag.
pub open spec fn idle_step(s: StateView, e: InputEvent, now: u64) -> Option<StateView> {
    if e == InputEvent::Char('/') {
        Some(StateView { mode: ModeView::LabelFilter, tick_ms: now, label_filter: Seq::empty(), ..s })
    } else if e == InputEvent::Char(':') {
        Some(StateView { mode: ModeView::CommandFilter, tick_ms: now, command_filter: Seq::empty(), ..s })
    } else {
        job_type_filter_step(s, e, now)
    }
}

/// A filter without its last byte, as `String::truncate(len - 1)` leaves it.
pub open spec fn drop_last_byte(s: Seq<char>) -> Seq<char> {
    truncate_bytes_spec(s, utf8_of(s).len() - 1)
}

/// The state after a key while a filter is being typed.
pub open spec fn active_step(s: StateView, e: InputEvent, now: u64) -> Option<StateView> {
    let sug = suggestion(s);
    if s.mode == ModeView::JobTypeFilter {
        job_type_filter_step(s, e, now)
    } else {
        match e {
            InputEvent::Char(c) => if s.mode == ModeView::LabelFilter {
                Some(StateView { tick_ms: now, label_filter: s.label_filter.push(c), ..s })
            } else if s.mode == ModeView::CommandFilter {
                Some(StateView { tick_ms: now, command_filter: s.command_filter.push(c), ..s })
            } else {
                None
            },
            InputEvent::Backspace => if s.mode == ModeView::LabelFilter && s.label_filter.len() > 0 {
                Some(StateView { tick_ms: now, label_filter: drop_last_byte(s.label_filter), ..s })
            } else if s.mode == ModeView::CommandFilter && s.command_filter.len() > 0 {
                Some(StateView { tick_ms: now, command_filter: drop_last_byte(s.command_filter), ..s })
            } else {
                None
            },
            InputEvent::Tab => if s.mode == ModeView::CommandFilter && sug is Some {
                Some(StateView { tick_ms: now, command_filter: command_table()[sug.unwrap()].0, ..s })
            } else {
                None
            },
            InputEvent::Enter => if s.mode == ModeView::CommandFilter && sug is Some
                && command_table()[sug.unwrap()].0 == s.command_filter {
                Some(
                    StateView {
                        mode: ModeView::CommandConfirm(command_table()[sug.unwrap()].2),
                        tick_ms: now,
                        ..s
                    },
                )
            } else {
                None
            },
            _ => None,
        }
    }
}

/// Backspace in a filter drops the last byte of a non-empty filter, which
/// must then be a whole character.
pub open spec fn backspace_ok(s: StateView, e: InputEvent) -> bool {
    e == InputEvent::Backspace ==> {
        &&& (s.mode == ModeView::LabelFilter && s.label_filter.len() > 0) ==> can_truncate(
            s.label_filter,
            utf8_of(s.label_filter).len() - 1,
        )
        &&& (s.mode == ModeView::CommandFilter && s.command_filter.len() > 0) ==> can_truncate(
            s.command_filter,
            utf8_of(s.command_filter).len() - 1,
        )
    }
}

/// What the omnibox does with a key: whether it hands focus back to the
/// service list, and its new state (none when it ignores the key).
pub open spec fn event_step(s: StateView, e: InputEvent, now: u64) -> (bool, Option<StateView>) {
    if e == InputEvent::CtrlChar('u') {
        (
            true,
            Some(
                StateView {
                    mode: ModeView::Idle,
                    tick_ms: now,
                    label_filter: Seq::empty(),
                    command_filter: Seq::empty(),
                    job_type_bits: flag_bit(JobFlag::Loaded),
                },
            ),
        )
    } else if e == InputEvent::Esc {
        (true, Some(StateView { mode: ModeView::Idle, tick_ms: now, ..s }))
    } else if s.mode == ModeView::Idle {
        (false, idle_step(s, e, now))
    } else {
        (false, active_step(s, e, now))
    }
}

/// The hotkey flag of a key, as a filter.
fn hotkey_filter(c: char) -> (r: Option<JobTypeFilter>)
    ensures
        r is Some <==> hotkey_flag(c) is Some,
        r matches Some(f) ==> f.spec_bits() == flag_bit(hotkey_flag(c).unwrap()),
{
    if c == 's' {
        Some(JobTypeFilter::flag(JobFlag::System))
    } else if c == 'g' {
        Some(JobTypeFilter::flag(JobFlag::Global))
    } else if c == 'u' {
        Some(JobTypeFilter::flag(JobFlag::User))
    } else if c == 'a' {
        Some(JobTypeFilter::flag(JobFlag::Agent))
    } else if c == 'd' {
        Some(JobTypeFilter::flag(JobFlag::Daemon))
    } else if c == 'l' {
        Some(JobTypeFilter::flag(JobFlag::Loaded))
    } else {
        None
    }
}

/// Toggle a job type flag for a hotkey.
pub fn handle_job_type_filter(event: InputEvent, state: &OmniboxState, now_ms: u64) -> (r: Option<
    OmniboxState,
>)
    ensures
        r is Some <==> job_type_filter_step(state@, event, now_ms) is Some,
        r matches Some(n) ==> n@ == job_type_filter_step(state@, event, now_ms).unwrap(),
{
    let flag = match event {
        InputEvent::Char(c) => hotkey_filter(c),
        _ => None,
    };
    match flag {
        Some(f) => {
            let jtf = state.job_type_filter.toggle_yield(f);
            Some(state.with_new(Some(OmniboxMode::JobTypeFilter), None, None, Some(jtf), now_ms))
        },
        None => None,
    }
}

/// Handle a key while idle.
pub fn handle_idle(event: InputEvent, state: &OmniboxState, now_ms: u64) -> (r: Option<OmniboxState>)
    ensures
        r is Some <==> idle_step(state@, event, now_ms) is Some,
        r matches Some(n) ==> n@ == idle_step(state@, event, now_ms).unwrap(),
{
    match event {
        InputEvent::Char('/') => Some(
            state.with_new(Some(OmniboxMode::LabelFilter), Some(String::new()), None, None, now_ms),
        ),
        InputEvent::Char(':') => Some(
            state.with_new(Some(OmniboxMode::CommandFilter), None, Some(String::new()), None, now_ms),
        ),
        _ => handle_job_type_filter(event, state, now_ms),
    }
}

/// The filter with one more character.
fn append_char(s: &String, c: char) -> (r: String)
    ensures
        r@ == s@.push(c),
{
    let mut r = s.clone();
    push_char(&mut r, c);
    r
}

/// Handle a key while a filter is being typed.
pub fn handle_active(event: InputEvent, state: &OmniboxState, now_ms: u64) -> (r: Option<
    OmniboxState,
>)
    requires
        backspace_ok(state@, event),
    ensures
        r is Some <==> active_step(state@, event, now_ms) is Some,
        r matches Some(n) ==> n@ == active_step(state@, event, now_ms).unwrap(),
{
    let ghost s = state@;
    let suggested = state.suggest_command();
    match state.mode {
        OmniboxMode::JobTypeFilter => {
            return handle_job_type_filter(event, state, now_ms);
        },
        _ => {},
    }
    let is_label = match state.mode {
        OmniboxMode::LabelFilter => true,
        _ => false,
    };
    let is_command = state.is_command_filter();
    match event {
        InputEvent::Char(c) => {
            if is_label {
                let lf = append_char(&state.label_filter, c);
                Some(state.with_new(None, Some(lf), None, None, now_ms))
            } else if is_command {
                let cf = append_char(&state.command_filter, c);
                Some(state.with_new(None, None, Some(cf), None, now_ms))
            } else {
                None
            }
        },
        InputEvent::Backspace => {
            if is_label && !state.label_filter.as_str().is_empty() {
                let n = state.label_filter.as_str().as_bytes().len();
                let lf = truncate_bytes(state.label_filter.as_str(), n - 1);
                Some(state.with_new(None, Some(lf), None, None, now_ms))
            } else if is_command && !state.command_filter.as_str().is_empty() {
                let n = state.command_filter.as_str().as_bytes().len();
                let cf = truncate_bytes(state.command_filter.as_str(), n - 1);
                Some(state.with_new(None, None, Some(cf), None, now_ms))
            } else {
                None
            }
        },
        InputEvent::Tab => {
            match suggested {
                Some((name, _, _)) => {
                    if is_command {
                        Some(state.with_new(None, None, Some(name.to_owned()), None, now_ms))
                    } else {
                        None
                    }
                },
                None => None,
            }
        },
        InputEvent::Enter => {
            match suggested {
                Some((name, _, cmd)) => {
                    if is_command && str_eq(name, state.command_filter.as_str()) {
                        Some(
                            state.with_new(Some(OmniboxMode::CommandConfirm(cmd)), None, None, None, now_ms),
                        )
                    } else {
                        None
                    }
                },
                None => None,
            }
        },
        _ => None,
    }
}

/// What the omnibox does with a key: whether it hands focus back to the
/// service list, and its new state (none when it ignores the key). A new
/// state is broadcast to the views and replaces the old one.
pub fn on_event(state: &OmniboxState, event: InputEvent, now_ms: u64) -> (r: (bool, Option<
    OmniboxState,
>))
    requires
        backspace_ok(state@, event),
    ensures
        r.0 == event_step(state@, event, now_ms).0,
        r.1 is Some <==> event_step(state@, event, now_ms).1 is Some,
        r.1 matches Some(n) ==> n@ == event_step(state@, event, now_ms).1.unwrap(),
{
    match event {
        InputEvent::CtrlChar('u') => (true, Some(OmniboxState::default_at(now_ms))),
        InputEvent::Esc => (true, Some(state.with_new(Some(OmniboxMode::Idle), None, None, None, now_ms))),
        _ => {
            match state.mode {
                OmniboxMode::Idle => (false, handle_idle(event, state, now_ms)),
                _ => (false, handle_active(event, state, now_ms)),
            }
        },
    }
}


/// What a tick does: a confirmed command is run at once and the omnibox goes
/// idle with an empty command; any other non-idle state goes idle once it
/// has not changed for `IDLE_AFTER_MS` (a command filter is cleared).
pub open spec fn tick_step(s: StateView, now: u64) -> Option<(Option<CommandView>, StateView)> {
    match s.mode {
        ModeView::CommandConfirm(c) => Some(
            (Some(c), StateView { mode: ModeView::Idle, tick_ms: now, command_filter: Seq::empty(), ..s }),
        ),
        ModeView::Idle => None,
        _ => if now - s.tick_ms < IDLE_AFTER_MS {
            None
        } else if s.mode == ModeView::CommandFilter {
            Some((None, StateView { mode: ModeView::Idle, tick_ms: now, command_filter: Seq::empty(), ..s }))
        } else {
            Some((None, StateView { mode: ModeView::Idle, tick_ms: now, ..s }))
        },
    }
}

/// Whether a tick at `now_ms` needs the time the state was made not to lie
/// after it.
pub open spec fn tick_needs_clock(s: StateView) -> bool {
    match s.mode {
        ModeView::CommandConfirm(_) => false,
        ModeView::Idle => false,
        _ => true,
    }
}

/// Move the omnibox back to idle some time after the user stops
/// interacting with it, and run a confirmed command at once. `None` leaves
/// the state as it is; otherwise the caller sends the command (if any), hands
/// focus to the service list, broadcasts the new state and stores it.
pub fn tick(state: &OmniboxState, now_ms: u64) -> (r: Option<(Option<OmniboxCommand>, OmniboxState)>)
    requires
        tick_needs_clock(state@) ==> state.tick_ms <= now_ms,
    ensures
        r is Some <==> tick_step(state@, now_ms) is Some,
        r matches Some(x) ==> {
            let spec_x = tick_step(state@, now_ms).unwrap();
            &&& x.1@ == spec_x.1
            &&& x.0 is Some <==> spec_x.0 is Some
            &&& x.0 matches Some(c) ==> c@ == spec_x.0.unwrap()
        },
{
    match &state.mode {
        OmniboxMode::CommandConfirm(cmd) => {
            let new = state.with_new(Some(OmniboxMode::Idle), None, Some(String::new()), None, now_ms);
            Some((Some(cmd.clone()), new))
        },
        OmniboxMode::Idle => None,
        OmniboxMode::CommandFilter => {
            if now_ms - state.tick_ms < IDLE_AFTER_MS {
                None
            } else {
                Some((None, state.with_new(Some(OmniboxMode::Idle), None, Some(String::new()), None, now_ms)))
            }
        },
        _ => {
            if now_ms - state.tick_ms < IDLE_AFTER_MS {
                None
            } else {
                Some((None, state.with_new(Some(OmniboxMode::Idle), None, None, None, now_ms)))
            }
        },
    }
}

/// The prompt shown before the filter.
pub open spec fn command_header_spec(s: StateView) -> Seq<char> {
    match s.mode {
        ModeView::LabelFilter => "Filter > "@,
        ModeView::CommandFilter => "Command > "@,
        ModeView::CommandConfirm(_) => "OK! > "@,
        _ => if s.command_filter.len() < 1 && s.label_filter.len() > 0 {
            "Filter > "@
        } else {
            ""@
        },
    }
}

/// The prompt shown before the filter.
pub fn command_header(state: &OmniboxState) -> (r: &'static str)
    ensures
        r@ == command_header_spec(state@),
{
    match state.mode {
        OmniboxMode::LabelFilter => "Filter > ",
        OmniboxMode::CommandFilter => "Command > ",
        OmniboxMode::CommandConfirm(_) => "OK! > ",
        _ => {
            if state.command_filter.as_str().is_empty() && !state.label_filter.as_str().is_empty() {
                "Filter > "
            } else {
                ""
            }
        },
    }
}

/// The filter shown: the command filter while there is one or a command is
/// being typed, else the label filter.
pub fn visible_filter(state: &OmniboxState) -> (r: &String)
    ensures
        r@ == (if state.command_filter@.len() > 0 || state.mode@ == ModeView::CommandFilter {
            state.command_filter@
        } else {
            state.label_filter@
        }),
{
    if !state.command_filter.as_str().is_empty() || state.is_command_filter() {
        &state.command_filter
    } else {
        &state.label_filter
    }
}


/// Typing an ASCII character into a filter and deleting it again with
/// backspace gives back the filter one started with.
pub proof fn law_backspace_undoes_typing(s: StateView, c: char, now1: u64, now2: u64)
    requires
        s.mode == ModeView::LabelFilter || s.mode == ModeView::CommandFilter,
        (c as u32) < 128,
    ensures
        active_step(s, InputEvent::Char(c), now1) is Some,
        backspace_ok(active_step(s, InputEvent::Char(c), now1).unwrap(), InputEvent::Backspace),
        active_step(active_step(s, InputEvent::Char(c), now1).unwrap(), InputEvent::Backspace, now2) is Some,
        s.mode == ModeView::LabelFilter ==> active_step(
            active_step(s, InputEvent::Char(c), now1).unwrap(),
            InputEvent::Backspace,
            now2,
        ).unwrap().label_filter == s.label_filter,
        s.mode == ModeView::CommandFilter ==> active_step(
            active_step(s, InputEvent::Char(c), now1).unwrap(),
            InputEvent::Backspace,
            now2,
        ).unwrap().command_filter == s.command_filter,
{
    crate::text::lemma_drop_ascii_char(s.label_filter, c);
    crate::text::lemma_drop_ascii_char(s.command_filter, c);
}

/// Ctrl-U from any state hands focus back to the service list and puts the
/// omnibox in the state a new omnibox starts in.
pub proof fn law_ctrl_u_resets(s: StateView, now: u64)
    ensures
        event_step(s, InputEvent::CtrlChar('u'), now) == (
            true,
            Some(
                StateView {
                    mode: ModeView::Idle,
                    tick_ms: now,
                    label_filter: Seq::<char>::empty(),
                    command_filter: Seq::<char>::empty(),
                    job_type_bits: flag_bit(JobFlag::Loaded),
                },
            ),
        ),
{
}

/// Escape from any state hands focus back to the service list and makes the
/// omnibox idle, keeping its filters.
pub proof fn law_esc_goes_idle(s: StateView, now: u64)
    ensures
        event_step(s, InputEvent::Esc, now) == (true, Some(StateView { mode: ModeView::Idle, tick_ms: now, ..s })),
{
}

/// The state a hotkey leads to from `s`: job type mode, the clock at `now`,
/// the job type bits `bits`, the filters kept.
pub open spec fn after_hotkey(s: StateView, now: u64, bits: u32) -> Option<StateView> {
    Some(StateView { mode: ModeView::JobTypeFilter, tick_ms: now, job_type_bits: bits, ..s })
}

/// Each hotkey toggles the flag that the job type filter bar shows at its
/// letter: while idle or editing the job type filter, the key of the i-th
/// letter of the bar (s, g, u, a, d, l) flips exactly that flag's bit and
/// puts the omnibox in job type mode.
pub proof fn law_hotkeys_toggle_bar_flags(s: StateView, now: u64)
    requires
        s.mode == ModeView::Idle || s.mode == ModeView::JobTypeFilter,
    ensures
        forall|i: int| #![trigger bar_flags()[i]] 0 <= i < 6 ==> {
            &&& flag_label(bar_flags()[i], false).len() == 1
            &&& event_step(s, InputEvent::Char(flag_label(bar_flags()[i], false)[0]), now) == (
                false,
                after_hotkey(s, now, s.job_type_bits ^ flag_bit(bar_flags()[i])),
            )
        },
        event_step(s, InputEvent::Char('s'), now) == (false, after_hotkey(s, now, s.job_type_bits ^ 2u32)),
        event_step(s, InputEvent::Char('g'), now) == (false, after_hotkey(s, now, s.job_type_bits ^ 4u32)),
        event_step(s, InputEvent::Char('u'), now) == (false, after_hotkey(s, now, s.job_type_bits ^ 8u32)),
        event_step(s, InputEvent::Char('a'), now) == (false, after_hotkey(s, now, s.job_type_bits ^ 16u32)),
        event_step(s, InputEvent::Char('d'), now) == (false, after_hotkey(s, now, s.job_type_bits ^ 32u32)),
        event_step(s, InputEvent::Char('l'), now) == (false, after_hotkey(s, now, s.job_type_bits ^ 64u32)),
{
    reveal_strlit("s");
    reveal_strlit("g");
    reveal_strlit("u");
    reveal_strlit("a");
    reveal_strlit("d");
    reveal_strlit("l");
    assert forall|i: int| #![trigger bar_flags()[i]] 0 <= i < 6 implies {
        &&& flag_label(bar_flags()[i], false).len() == 1
        &&& event_step(s, InputEvent::Char(flag_label(bar_flags()[i], false)[0]), now) == (
            false,
            after_hotkey(s, now, s.job_type_bits ^ flag_bit(bar_flags()[i])),
        )
    } by {
        assert(bar_flags()[0] == JobFlag::System);
        assert(bar_flags()[1] == JobFlag::Global);
        assert(bar_flags()[2] == JobFlag::User);
        assert(bar_flags()[3] == JobFlag::Agent);
        assert(bar_flags()[4] == JobFlag::Daemon);
        assert(bar_flags()[5] == JobFlag::Loaded);
    }
}

/// A confirmed command is handed out by the next tick, whenever it comes,
/// and only once: that tick leaves the omnibox idle with an empty command,
/// and an idle omnibox hands out nothing. A filter being typed or edited
/// stays as it is while it changed less than `IDLE_AFTER_MS` ago, and goes
/// idle, with no command, once it has not.
pub proof fn law_confirmed_command_runs_once(s: StateView, now1: u64, now2: u64)
    ensures
        s.mode is CommandConfirm ==> (tick_step(s, now1) matches Some((Some(c), t)) && c == s.mode->CommandConfirm_0
            && t.mode == ModeView::Idle && t.command_filter.len() == 0 && tick_step(t, now2) is None),
        s.mode == ModeView::Idle ==> tick_step(s, now1) is None,
        (s.mode == ModeView::LabelFilter || s.mode == ModeView::CommandFilter || s.mode
            == ModeView::JobTypeFilter) && s.tick_ms <= now1 && now1 < s.tick_ms + 2000 ==> tick_step(s, now1) is None,
        (s.mode == ModeView::LabelFilter || s.mode == ModeView::CommandFilter || s.mode
            == ModeView::JobTypeFilter) && s.tick_ms + 2000 <= now1 ==> (tick_step(s, now1) matches Some((None, t))
            && t.mode == ModeView::Idle && t.label_filter == s.label_filter && t.job_type_bits == s.job_type_bits),
{
}

/// The state that confirming a command from `s` leads to: the command
/// awaits confirmation, the clock at `now`, the filters kept.
pub open spec fn after_confirm(s: StateView, now: u64, c: CommandView) -> Option<StateView> {
    Some(StateView { mode: ModeView::CommandConfirm(c), tick_ms: now, ..s })
}

/// Each name of the command table carries the command that it names: the
/// entry named `disable` requests a disable, `enable` an enable,
/// `bootstrap` and `load` a bootstrap, `bootout` and `unload` a bootout,
/// and so on; so typing a command's name in full and pressing Enter
/// confirms that command.
pub proof fn law_typed_name_confirms_its_command(s: StateView, now: u64)
    requires
        s.mode == ModeView::CommandFilter,
    ensures
        forall|i: int|
            0 <= i < command_table().len() && #[trigger] command_table()[i].0 == "blame"@ ==> command_table()[i].2
                == CommandView::Blame,
        forall|i: int|
            0 <= i < command_table().len() && #[trigger] command_table()[i].0 == "bootstrap"@ ==> command_table()[i].2
                == CommandView::BootstrapRequest,
        forall|i: int|
            0 <= i < command_table().len() && #[trigger] command_table()[i].0 == "bootout"@ ==> command_table()[i].2
                == CommandView::BootoutRequest,
        forall|i: int|
            0 <= i < command_table().len() && #[trigger] command_table()[i].0 == "enable"@ ==> command_table()[i].2
                == CommandView::EnableRequest,
        forall|i: int|
            0 <= i < command_table().len() && #[trigger] command_table()[i].0 == "disable"@ ==> command_table()[i].2
                == CommandView::DisableRequest,
        forall|i: int|
            0 <= i < command_table().len() && #[trigger] command_table()[i].0 == "edit"@ ==> command_table()[i].2
                == CommandView::Edit,
        forall|i: int|
            0 <= i < command_table().len() && #[trigger] command_table()[i].0 == "csrinfo"@ ==> command_table()[i].2
                == CommandView::CSRInfo,
        forall|i: int|
            0 <= i < command_table().len() && #[trigger] command_table()[i].0 == "dumpstate"@ ==> command_table()[i].2
                == CommandView::DumpState,
        forall|i: int|
            0 <= i < command_table().len() && #[trigger] command_table()[i].0 == "dumpjpcategory"@ ==> command_table()[i].2
                == CommandView::DumpJetsamPropertiesCategory,
        forall|i: int|
            0 <= i < command_table().len() && #[trigger] command_table()[i].0 == "procinfo"@ ==> command_table()[i].2
                == CommandView::ProcInfo,
        forall|i: int|
            0 <= i < command_table().len() && #[trigger] command_table()[i].0 == "help"@ ==> command_table()[i].2
                == CommandView::Help,
        forall|i: int|
            0 <= i < command_table().len() && #[trigger] command_table()[i].0 == "exit"@ ==> command_table()[i].2
                == CommandView::Quit,
        forall|i: int|
            0 <= i < command_table().len() && #[trigger] command_table()[i].0 == "load"@ ==> command_table()[i].2
                == CommandView::BootstrapRequest,
        forall|i: int|
            0 <= i < command_table().len() && #[trigger] command_table()[i].0 == "unload"@ ==> command_table()[i].2
                == CommandView::BootoutRequest,
        s.command_filter == "blame"@ ==> active_step(s, InputEvent::Enter, now) == after_confirm(
            s,
            now,
            CommandView::Blame,
        ),
        s.command_filter == "bootstrap"@ ==> active_step(s, InputEvent::Enter, now) == after_confirm(
            s,
            now,
            CommandView::BootstrapRequest,
        ),
        s.command_filter == "bootout"@ ==> active_step(s, InputEvent::Enter, now) == after_confirm(
            s,
            now,
            CommandView::BootoutRequest,
        ),
        s.command_filter == "enable"@ ==> active_step(s, InputEvent::Enter, now) == after_confirm(
            s,
            now,
            CommandView::EnableRequest,
        ),
        s.command_filter == "disable"@ ==> active_step(s, InputEvent::Enter, now) == after_confirm(
            s,
            now,
            CommandView::DisableRequest,
        ),
        s.command_filter == "edit"@ ==> active_step(s, InputEvent::Enter, now) == after_confirm(
            s,
            now,
            CommandView::Edit,
        ),
        s.command_filter == "csrinfo"@ ==> active_step(s, InputEvent::Enter, now) == after_confirm(
            s,
            now,
            CommandView::CSRInfo,
        ),
        s.command_filter == "dumpstate"@ ==> active_step(s, InputEvent::Enter, now) == after_confirm(
            s,
            now,
            CommandView::DumpState,
        ),
        s.command_filter == "dumpjpcategory"@ ==> active_step(s, InputEvent::Enter, now) == after_confirm(
            s,
            now,
            CommandView::DumpJetsamPropertiesCategory,
        ),
        s.command_filter == "procinfo"@ ==> active_step(s, InputEvent::Enter, now) == after_confirm(
            s,
            now,
            CommandView::ProcInfo,
        ),
        s.command_filter == "help"@ ==> active_step(s, InputEvent::Enter, now) == after_confirm(
            s,
            now,
            CommandView::Help,
        ),
        s.command_filter == "exit"@ ==> active_step(s, InputEvent::Enter, now) == after_confirm(
            s,
            now,
            CommandView::Quit,
        ),
        s.command_filter == "load"@ ==> active_step(s, InputEvent::Enter, now) == after_confirm(
            s,
            now,
            CommandView::BootstrapRequest,
        ),
        s.command_filter == "unload"@ ==> active_step(s, InputEvent::Enter, now) == after_confirm(
            s,
            now,
            CommandView::BootoutRequest,
        ),
{
    reveal_strlit("blame");
    reveal_strlit("bootstrap");
    reveal_strlit("bootout");
    reveal_strlit("enable");
    reveal_strlit("disable");
    reveal_strlit("edit");
    reveal_strlit("csrinfo");
    reveal_strlit("dumpstate");
    reveal_strlit("dumpjpcategory");
    reveal_strlit("procinfo");
    reveal_strlit("help");
    reveal_strlit("exit");
    reveal_strlit("load");
    reveal_strlit("unload");
    lemma_name_suggests_itself(0);
    lemma_name_suggests_itself(1);
    lemma_name_suggests_itself(2);
    lemma_name_suggests_itself(3);
    lemma_name_suggests_itself(4);
    lemma_name_suggests_itself(5);
    lemma_name_suggests_itself(6);
    lemma_name_suggests_itself(7);
    lemma_name_suggests_itself(8);
    lemma_name_suggests_itself(9);
    lemma_name_suggests_itself(10);
    lemma_name_suggests_itself(11);
    lemma_name_suggests_itself(12);
    lemma_name_suggests_itself(13);
    let t = command_table();
    assert(t[0].0 == "blame"@ && t[1].0 == "bootstrap"@ && t[2].0 == "bootout"@ && t[3].0 == "enable"@);
    assert(t[4].0 == "disable"@ && t[5].0 == "edit"@ && t[6].0 == "csrinfo"@ && t[7].0 == "dumpstate"@);
    assert(t[8].0 == "dumpjpcategory"@ && t[9].0 == "procinfo"@ && t[10].0 == "help"@ && t[11].0 == "exit"@);
    assert(t[12].0 == "load"@ && t[13].0 == "unload"@);
}

proof fn lemma_name_suggests_itself(i: int)
    requires
        0 <= i < command_table().len(),
    ensures
        crate::tui::omnibox::state::first_prefix_match(command_table()[i].0, 0) == Some(i),
{
    reveal_strlit("blame");
    reveal_strlit("bootstrap");
    reveal_strlit("bootout");
    reveal_strlit("enable");
    reveal_strlit("disable");
    reveal_strlit("edit");
    reveal_strlit("csrinfo");
    reveal_strlit("dumpstate");
    reveal_strlit("dumpjpcategory");
    reveal_strlit("procinfo");
    reveal_strlit("help");
    reveal_strlit("exit");
    reveal_strlit("load");
    reveal_strlit("unload");
    let t = command_table();
    let name = t[i].0;
    assert forall|j: int| 0 <= j < i implies !crate::text::seq_starts_with(#[trigger] command_table()[j].0, name) by {
        if name.len() <= t[j].0.len() {
            assert(t[j].0.subrange(0, name.len() as int)[0] != name[0]
                || t[j].0.subrange(0, name.len() as int)[1] != name[1]
                || t[j].0.subrange(0, name.len() as int)[4] != name[4]);
        }
    }
    assert(t[i].0.subrange(0, name.len() as int) =~= name);
    lemma_first_match_from(name, 0, i);
}

proof fn lemma_first_match_from(name: Seq<char>, k: int, i: int)
    requires
        0 <= k <= i < command_table().len(),
        forall|j: int| k <= j < i ==> !crate::text::seq_starts_with(#[trigger] command_table()[j].0, name),
        crate::text::seq_starts_with(command_table()[i].0, name),
    ensures
        crate::tui::omnibox::state::first_prefix_match(name, k) == Some(i),
    decreases i - k,
{
    if k < i {
        lemma_first_match_from(name, k + 1, i);
    }
}

/// Completing a suggested command with Tab and then pressing Enter confirms
/// exactly that command: a command runs only once its name is typed out.
pub proof fn law_complete_then_submit(s: StateView, now1: u64, now2: u64)
    requires
        s.mode == ModeView::CommandFilter,
        suggestion(s) is Some,
    ensures
        active_step(s, InputEvent::Tab, now1) is Some,
        active_step(active_step(s, InputEvent::Tab, now1).unwrap(), InputEvent::Enter, now2) == Some(
            StateView {
                mode: ModeView::CommandConfirm(command_table()[suggestion(s).unwrap()].2),
                tick_ms: now2,
                command_filter: command_table()[suggestion(s).unwrap()].0,
                ..s
            },
        ),
{
    let i = suggestion(s).unwrap();
    lemma_suggestion_in_table(s.command_filter, 0);
    lemma_name_suggests_itself(i);
    reveal_strlit("blame");
    reveal_strlit("bootstrap");
    reveal_strlit("bootout");
    reveal_strlit("enable");
    reveal_strlit("disable");
    reveal_strlit("edit");
    reveal_strlit("csrinfo");
    reveal_strlit("dumpstate");
    reveal_strlit("dumpjpcategory");
    reveal_strlit("procinfo");
    reveal_strlit("help");
    reveal_strlit("exit");
    reveal_strlit("load");
    reveal_strlit("unload");
    assert(command_table()[i].0.len() > 0);
}

proof fn lemma_suggestion_in_table(filter: Seq<char>, k: int)
    requires
        0 <= k,
    ensures
        crate::tui::omnibox::state::first_prefix_match(filter, k) matches Some(i) ==> k <= i
            < command_table().len(),
    decreases command_table().len() - k,
{
    if k < command_table().len() {
        lemma_suggestion_in_table(filter, k + 1);
    }
}

} // verus!
