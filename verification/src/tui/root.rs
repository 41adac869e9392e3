use vstd::prelude::*;
use crate::tui::omnibox::command::{CommandView, OmniboxCommand, commands_view};
use crate::tui::omnibox::view::{InputEvent, OmniboxError, OmniboxEvent, OmniboxResult};

verus! {

/// Where the root layout sends a key.
#[derive(Clone, Copy, Debug, PartialEq, Eq)]
pub enum EventRoute {
    /// Focus the omnibox and hand it the key.
    Omnibox,
    /// Put the key in the key ring, and hand the layout the arrow it
    /// completes (or the key itself).
    KeyRing,
    /// Hand the key to the focused view.
    Layout,
}

/// Keys the omnibox takes whatever has focus.
pub open spec fn is_omnibox_key(e: InputEvent) -> bool {
    e == InputEvent::Char('/') || e == InputEvent::Char(':') || e == InputEvent::CtrlChar('u')
        || e == InputEvent::Char('s') || e == InputEvent::Char('g') || e == InputEvent::Char('u')
        || e == InputEvent::Char('a') || e == InputEvent::Char('d') || e == InputEvent::Char('l')
        || e == InputEvent::Backspace
}

/// Keys that may be part of an arrow key sent as escape, '[' and a letter
/// (the terminal does so after the editor exits).
pub open spec fn is_ring_key(e: InputEvent) -> bool {
    e == InputEvent::Esc || e == InputEvent::Char('[') || e == InputEvent::Char('A') || e == InputEvent::Char(
        'B',
    ) || e == InputEvent::Char('C') || e == InputEvent::Char('D')
}

/// Where the root layout sends a key.
pub fn route_event(event: InputEvent) -> (r: EventRoute)
    ensures
        r == (if is_omnibox_key(event) {
            EventRoute::Omnibox
        } else if is_ring_key(event) {
            EventRoute::KeyRing
        } else {
            EventRoute::Layout
        }),
{
    match event {
        InputEvent::Char('/') | InputEvent::Char(':') | InputEvent::CtrlChar('u') | InputEvent::Char('s')
        | InputEvent::Char('g') | InputEvent::Char('u') | InputEvent::Char('a') | InputEvent::Char('d')
        | InputEvent::Char('l') | InputEvent::Backspace => EventRoute::Omnibox,
        InputEvent::Esc | InputEvent::Char('[') | InputEvent::Char('A') | InputEvent::Char('B')
        | InputEvent::Char('C') | InputEvent::Char('D') => EventRoute::KeyRing,
        _ => EventRoute::Layout,
    }
}

/// The arrow key that escape, '[' and a letter stand for.
pub open spec fn arrow_of(keys: Seq<InputEvent>) -> Option<InputEvent> {
    if keys[0] == InputEvent::Esc && keys[1] == InputEvent::Char('[') {
        if keys[2] == InputEvent::Char('A') {
            Some(InputEvent::Up)
        } else if keys[2] == InputEvent::Char('B') {
            Some(InputEvent::Down)
        } else if keys[2] == InputEvent::Char('C') {
            Some(InputEvent::Right)
        } else if keys[2] == InputEvent::Char('D') {
            Some(InputEvent::Left)
        } else {
            None
        }
    } else {
        None
    }
}

/// The last keys that may form an arrow key.
pub struct KeyRing {
    keys: Vec<InputEvent>,
}

impl KeyRing {
    /// The keys in the ring, oldest first.
    pub closed spec fn spec_keys(self) -> Seq<InputEvent> {
        self.keys@
    }

    /// An empty ring.
    pub fn new() -> (r: Self)
        ensures
            r.spec_keys() == Seq::<InputEvent>::empty(),
    {
        KeyRing { keys: Vec::new() }
    }

    /// Put a key in the ring.
    pub fn push_back(&mut self, event: InputEvent)
        ensures
            final(self).spec_keys() == old(self).spec_keys().push(event),
    {
        self.keys.push(event);
    }

    /// Once the ring holds three keys: the arrow key they stand for, if
    /// any, and the ring is emptied.
    pub fn ring_to_arrows(&mut self) -> (r: Option<InputEvent>)
        ensures
            old(self).spec_keys().len() < 3 ==> r is None && final(self).spec_keys() == old(
                self,
            ).spec_keys(),
            old(self).spec_keys().len() >= 3 ==> r == arrow_of(old(self).spec_keys())
                && final(self).spec_keys() == Seq::<InputEvent>::empty(),
    {
        if self.keys.len() < 3 {
            None
        } else {
            let res = if self.keys[0] == InputEvent::Esc && self.keys[1] == InputEvent::Char('[') {
                match self.keys[2] {
                    InputEvent::Char('A') => Some(InputEvent::Up),
                    InputEvent::Char('B') => Some(InputEvent::Down),
                    InputEvent::Char('C') => Some(InputEvent::Right),
                    InputEvent::Char('D') => Some(InputEvent::Left),
                    _ => None,
                }
            } else {
                None
            };
            self.keys.clear();
            res
        }
    }

    /// Put a key in the ring and give the key the layout should see: the
    /// arrow key the ring completes, or the key itself.
    pub fn translate(&mut self, event: InputEvent) -> (r: InputEvent)
        ensures
            old(self).spec_keys().len() + 1 < 3 ==> r == event && final(self).spec_keys() == old(
                self,
            ).spec_keys().push(event),
            old(self).spec_keys().len() + 1 >= 3 ==> r == (match arrow_of(
                old(self).spec_keys().push(event),
            ) {
                Some(a) => a,
                None => event,
            }) && final(self).spec_keys() == Seq::<InputEvent>::empty(),
    {
        self.push_back(event);
        match self.ring_to_arrows() {
            Some(a) => a,
            None => event,
        }
    }
}

/// Escape, '[' and a letter sent one after the other to an empty ring come
/// out as the arrow key, and leave the ring empty.
pub proof fn law_ring_makes_arrows(letter: char)
    requires
        letter == 'A' || letter == 'B' || letter == 'C' || letter == 'D',
    ensures
        arrow_of(seq![InputEvent::Esc, InputEvent::Char('['), InputEvent::Char(letter)]) == Some(
            if letter == 'A' {
                InputEvent::Up
            } else if letter == 'B' {
                InputEvent::Down
            } else if letter == 'C' {
                InputEvent::Right
            } else {
                InputEvent::Left
            },
        ),
{
}

/// What the root layout does with an omnibox event.
#[derive(Debug)]
pub enum RootAction {
    /// Run each command in turn and answer with `chain_result` of their errors.
    Chain(Vec<OmniboxCommand>),
    Quit,
    Sudo,
    FocusServiceList,
    /// Ask the message; on yes, send the commands.
    ShowPrompt(String, Vec<OmniboxCommand>),
    ShowCsrInfo,
    DumpState,
    DumpJetsamPropertiesCategory,
    ShowHelp,
    Nothing,
}

/// The value of a root action.
pub ghost enum RootActionView {
    Chain(Seq<CommandView>),
    Quit,
    Sudo,
    FocusServiceList,
    ShowPrompt(Seq<char>, Seq<CommandView>),
    ShowCsrInfo,
    DumpState,
    DumpJetsamPropertiesCategory,
    ShowHelp,
    Nothing,
}

/// The value of a root action.
pub open spec fn root_action_view(a: RootAction) -> RootActionView {
    match a {
        RootAction::Chain(v) => RootActionView::Chain(commands_view(v@)),
        RootAction::Quit => RootActionView::Quit,
        RootAction::Sudo => RootActionView::Sudo,
        RootAction::FocusServiceList => RootActionView::FocusServiceList,
        RootAction::ShowPrompt(m, v) => RootActionView::ShowPrompt(m@, commands_view(v@)),
        RootAction::ShowCsrInfo => RootActionView::ShowCsrInfo,
        RootAction::DumpState => RootActionView::DumpState,
        RootAction::DumpJetsamPropertiesCategory => RootActionView::DumpJetsamPropertiesCategory,
        RootAction::ShowHelp => RootActionView::ShowHelp,
        RootAction::Nothing => RootActionView::Nothing,
    }
}

/// What the root layout does with a command.
pub open spec fn root_command_action(c: CommandView) -> RootActionView {
    match c {
        CommandView::Chain(v) => RootActionView::Chain(v),
        CommandView::Quit => RootActionView::Quit,
        CommandView::Sudo => RootActionView::Sudo,
        CommandView::FocusServiceList => RootActionView::FocusServiceList,
        CommandView::Confirm(m, v) => RootActionView::ShowPrompt(m, v),
        CommandView::CSRInfo => RootActionView::ShowCsrInfo,
        CommandView::DumpState => RootActionView::DumpState,
        CommandView::DumpJetsamPropertiesCategory => RootActionView::DumpJetsamPropertiesCategory,
        CommandView::Help => RootActionView::ShowHelp,
        _ => RootActionView::Nothing,
    }
}

/// Each command that the root layout handles itself has an action of its
/// own: `dumpstate` shows launchd's state dump, `dumpjpcategory` the jetsam
/// category dump, `csrinfo` the CSR flags, `help` the help, and so on; a
/// chain runs its commands, a confirmation shows its prompt with its
/// choices; no two such commands share an action, and the commands on the
/// highlighted job are left to the service list.
pub proof fn law_root_commands_have_their_own_action()
    ensures
        root_command_action(CommandView::DumpState) == RootActionView::DumpState,
        root_command_action(CommandView::DumpJetsamPropertiesCategory) == RootActionView::DumpJetsamPropertiesCategory,
        root_command_action(CommandView::CSRInfo) == RootActionView::ShowCsrInfo,
        root_command_action(CommandView::Help) == RootActionView::ShowHelp,
        root_command_action(CommandView::Quit) == RootActionView::Quit,
        root_command_action(CommandView::Sudo) == RootActionView::Sudo,
        root_command_action(CommandView::FocusServiceList) == RootActionView::FocusServiceList,
        forall|v: Seq<CommandView>| #[trigger] root_command_action(CommandView::Chain(v)) == RootActionView::Chain(v),
        forall|m: Seq<char>, v: Seq<CommandView>|
            #[trigger] root_command_action(CommandView::Confirm(m, v)) == RootActionView::ShowPrompt(m, v),
        forall|c1: CommandView, c2: CommandView|
            #[trigger] root_command_action(c1) != RootActionView::Nothing && #[trigger] root_command_action(c2)
                == root_command_action(c1) ==> c1 == c2,
        root_command_action(CommandView::DisableRequest) == RootActionView::Nothing,
        root_command_action(CommandView::EnableRequest) == RootActionView::Nothing,
        root_command_action(CommandView::BootstrapRequest) == RootActionView::Nothing,
        root_command_action(CommandView::BootoutRequest) == RootActionView::Nothing,
        root_command_action(CommandView::Blame) == RootActionView::Nothing,
        root_command_action(CommandView::ProcInfo) == RootActionView::Nothing,
        root_command_action(CommandView::Edit) == RootActionView::Nothing,
{
}

/// What the root layout does with an omnibox event: commands it handles
/// itself become an action, everything else is left to the service list.
pub fn on_omnibox(event: OmniboxEvent) -> (r: RootAction)
    ensures
        match event {
            OmniboxEvent::Command(c) => root_action_view(r) == root_command_action(c@),
            _ => root_action_view(r) == RootActionView::Nothing,
        },
        event is Command && event->Command_0 is DumpState ==> r is DumpState,
        event is Command && event->Command_0 is DumpJetsamPropertiesCategory ==> r is DumpJetsamPropertiesCategory,
        event is Command && event->Command_0 is CSRInfo ==> r is ShowCsrInfo,
        event is Command && event->Command_0 is Help ==> r is ShowHelp,
        event is Command && event->Command_0 is Quit ==> r is Quit,
        event is Command && event->Command_0 is Sudo ==> r is Sudo,
        event is Command && event->Command_0 is FocusServiceList ==> r is FocusServiceList,
{
    proof {
        law_root_commands_have_their_own_action();
    }
    match event {
        OmniboxEvent::Command(cmd) => match cmd {
            OmniboxCommand::Chain(cmds) => RootAction::Chain(cmds),
            OmniboxCommand::Quit => RootAction::Quit,
            OmniboxCommand::Sudo => RootAction::Sudo,
            OmniboxCommand::FocusServiceList => RootAction::FocusServiceList,
            OmniboxCommand::Confirm(p, c) => RootAction::ShowPrompt(p, c),
            OmniboxCommand::CSRInfo => RootAction::ShowCsrInfo,
            OmniboxCommand::DumpState => RootAction::DumpState,
            OmniboxCommand::DumpJetsamPropertiesCategory => RootAction::DumpJetsamPropertiesCategory,
            OmniboxCommand::Help => RootAction::ShowHelp,
            _ => RootAction::Nothing,
        },
        _ => RootAction::Nothing,
    }
}

/// The answer to a chain of commands: no error, or all of them.
pub fn chain_result(errors: Vec<OmniboxError>) -> (r: OmniboxResult)
    ensures
        errors@.len() == 0 ==> r matches Ok(None),
        errors@.len() > 0 ==> (r matches Err(OmniboxError::Many(v)) && v@ == errors@),
{
    if errors.len() == 0 {
        Ok(None)
    } else {
        Err(OmniboxError::Many(errors))
    }
}

/// The errors among the results of a chain's commands, in order.
pub open spec fn errors_of(results: Seq<OmniboxResult>) -> Seq<OmniboxError>
    decreases results.len(),
{
    if results.len() == 0 {
        Seq::empty()
    } else {
        match results.last() {
            Err(e) => errors_of(results.drop_last()).push(e),
            Ok(_) => errors_of(results.drop_last()),
        }
    }
}

/// The answer to a chain, from the results of its commands, each handled in
/// order whatever the one before gave: no answer if none failed, else every
/// error, in order.
pub fn chain_outcome(results: Vec<OmniboxResult>) -> (r: OmniboxResult)
    ensures
        errors_of(results@).len() == 0 ==> r matches Ok(None),
        errors_of(results@).len() > 0 ==> (r matches Err(OmniboxError::Many(v)) && v@ == errors_of(
            results@,
        )),
{
    let ghost all = results@;
    let mut rest = results;
    let mut errors: Vec<OmniboxError> = Vec::new();
    let mut done: usize = 0;
    let n = rest.len();
    while rest.len() > 0
        invariant
            n == all.len(),
            rest@ == all.skip(done as int),
            done + rest@.len() == all.len(),
            errors@ == errors_of(all.take(done as int)),
        decreases rest@.len(),
    {
        let ghost before = rest@;
        let res = rest.remove(0);
        proof {
            assert(all[done as int] == before[0]);
            assert(all.take(done + 1).drop_last() =~= all.take(done as int));
            assert(all.take(done + 1).last() == res);
            assert(rest@ =~= all.skip(done + 1));
        }
        match res {
            Err(e) => errors.push(e),
            Ok(_) => {},
        }
        done = done + 1;
    }
    assert(all.take(done as int) =~= all);
    chain_result(errors)
}

/// What follows a view's answer to an omnibox event.
#[derive(Debug)]
pub enum Followup {
    /// Send the command to the omnibox's subscribers.
    SendCommand(OmniboxCommand),
    /// Show the error message in a notice.
    ShowNotice(String),
    Nothing,
}

/// What follows a view's answer: a command answered is sent on, a command
/// error is shown; anything else is dropped.
pub fn followup(result: &OmniboxResult) -> (r: Followup)
    ensures
        match *result {
            Ok(Some(c)) => r matches Followup::SendCommand(d) && d@ == c@,
            Err(OmniboxError::CommandError(m)) => r matches Followup::ShowNotice(n) && n@ == m@,
            _ => r matches Followup::Nothing,
        },
{
    match result {
        Ok(Some(c)) => Followup::SendCommand(c.clone()),
        Err(OmniboxError::CommandError(s)) => Followup::ShowNotice(s.clone()),
        _ => Followup::Nothing,
    }
}

} // verus!
