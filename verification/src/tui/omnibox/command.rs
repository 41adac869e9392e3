use vstd::prelude::*;
use crate::launchd::enums::DomainType;

verus! {

/// What the omnibox asks the rest of the TUI to do.
#[derive(Debug, PartialEq, Eq)]
pub enum OmniboxCommand {
    Chain(Vec<OmniboxCommand>),
    /// (message, commands to run on ok)
    Confirm(String, Vec<OmniboxCommand>),
    BootstrapRequest,
    BootoutRequest,
    EnableRequest,
    DisableRequest,
    Blame,
    Bootstrap(DomainType),
    Bootout(DomainType),
    Enable(DomainType),
    Disable(DomainType),
    Edit,
    FocusServiceList,
    CSRInfo,
    DumpState,
    DumpJetsamPropertiesCategory,
    ProcInfo,
    Sudo,
    Help,
    Quit,
}

/// The value of a command, with its lists of commands as sequences.
pub ghost enum CommandView {
    Chain(Seq<CommandView>),
    Confirm(Seq<char>, Seq<CommandView>),
    BootstrapRequest,
    BootoutRequest,
    EnableRequest,
    DisableRequest,
    Blame,
    Bootstrap(DomainType),
    Bootout(DomainType),
    Enable(DomainType),
    Disable(DomainType),
    Edit,
    FocusServiceList,
    CSRInfo,
    DumpState,
    DumpJetsamPropertiesCategory,
    ProcInfo,
    Sudo,
    Help,
    Quit,
}

/// The value of a command.
pub open spec fn command_view(c: OmniboxCommand) -> CommandView
    decreases c, 1nat,
{
    match c {
        OmniboxCommand::Chain(v) => CommandView::Chain(commands_view(v@)),
        OmniboxCommand::Confirm(m, v) => CommandView::Confirm(m@, commands_view(v@)),
        OmniboxCommand::BootstrapRequest => CommandView::BootstrapRequest,
        OmniboxCommand::BootoutRequest => CommandView::BootoutRequest,
        OmniboxCommand::EnableRequest => CommandView::EnableRequest,
        OmniboxCommand::DisableRequest => CommandView::DisableRequest,
        OmniboxCommand::Blame => CommandView::Blame,
        OmniboxCommand::Bootstrap(d) => CommandView::Bootstrap(d),
        OmniboxCommand::Bootout(d) => CommandView::Bootout(d),
        OmniboxCommand::Enable(d) => CommandView::Enable(d),
        OmniboxCommand::Disable(d) => CommandView::Disable(d),
        OmniboxCommand::Edit => CommandView::Edit,
        OmniboxCommand::FocusServiceList => CommandView::FocusServiceList,
        OmniboxCommand::CSRInfo => CommandView::CSRInfo,
        OmniboxCommand::DumpState => CommandView::DumpState,
        OmniboxCommand::DumpJetsamPropertiesCategory => CommandView::DumpJetsamPropertiesCategory,
        OmniboxCommand::ProcInfo => CommandView::ProcInfo,
        OmniboxCommand::Sudo => CommandView::Sudo,
        OmniboxCommand::Help => CommandView::Help,
        OmniboxCommand::Quit => CommandView::Quit,
    }
}

/// The values of a list of commands.
pub open spec fn commands_view(s: Seq<OmniboxCommand>) -> Seq<CommandView>
    decreases s, 0nat,
{
    if s.len() == 0 {
        Seq::empty()
    } else {
        commands_view(s.drop_last()).push(command_view(s.last()))
    }
}

impl View for OmniboxCommand {
    type V = CommandView;

    open spec fn view(&self) -> CommandView {
        command_view(*self)
    }
}

fn clone_commands(v: &Vec<OmniboxCommand>) -> (r: Vec<OmniboxCommand>)
    ensures
        commands_view(r@) == commands_view(v@),
    decreases v@, 0nat,
{
    let mut r: Vec<OmniboxCommand> = Vec::new();
    let mut i: usize = 0;
    while i < v.len()
        invariant
            0 <= i <= v@.len(),
            r@.len() == i,
            commands_view(r@) == commands_view(v@.take(i as int)),
        decreases v@.len() - i,
    {
        assert(decreases_to!(v@ => v@[i as int]));
        let c = clone_command(&v[i]);
        let ghost before = r@;
        r.push(c);
        proof {
            assert(r@.drop_last() =~= before);
            assert(v@.take(i + 1).drop_last() =~= v@.take(i as int));
            assert(v@.take(i + 1).last() == v@[i as int]);
        }
        i = i + 1;
    }
    assert(v@.take(i as int) =~= v@);
    r
}

fn clone_command(c: &OmniboxCommand) -> (r: OmniboxCommand)
    ensures
        r@ == c@,
    decreases *c, 1nat,
{
    match c {
        OmniboxCommand::Chain(v) => {
            assert(decreases_to!(*c => v@));
            OmniboxCommand::Chain(clone_commands(v))
        },
        OmniboxCommand::Confirm(m, v) => {
            assert(decreases_to!(*c => v@));
            OmniboxCommand::Confirm(m.clone(), clone_commands(v))
        },
        OmniboxCommand::BootstrapRequest => OmniboxCommand::BootstrapRequest,
        OmniboxCommand::BootoutRequest => OmniboxCommand::BootoutRequest,
        OmniboxCommand::EnableRequest => OmniboxCommand::EnableRequest,
        OmniboxCommand::DisableRequest => OmniboxCommand::DisableRequest,
        OmniboxCommand::Blame => OmniboxCommand::Blame,
        OmniboxCommand::Bootstrap(d) => OmniboxCommand::Bootstrap(*d),
        OmniboxCommand::Bootout(d) => OmniboxCommand::Bootout(*d),
        OmniboxCommand::Enable(d) => OmniboxCommand::Enable(*d),
        OmniboxCommand::Disable(d) => OmniboxCommand::Disable(*d),
        OmniboxCommand::Edit => OmniboxCommand::Edit,
        OmniboxCommand::FocusServiceList => OmniboxCommand::FocusServiceList,
        OmniboxCommand::CSRInfo => OmniboxCommand::CSRInfo,
        OmniboxCommand::DumpState => OmniboxCommand::DumpState,
        OmniboxCommand::DumpJetsamPropertiesCategory => OmniboxCommand::DumpJetsamPropertiesCategory,
        OmniboxCommand::ProcInfo => OmniboxCommand::ProcInfo,
        OmniboxCommand::Sudo => OmniboxCommand::Sudo,
        OmniboxCommand::Help => OmniboxCommand::Help,
        OmniboxCommand::Quit => OmniboxCommand::Quit,
    }
}

impl Clone for OmniboxCommand {
    fn clone(&self) -> (r: Self)
        ensures
            r@ == self@,
    {
        clone_command(self)
    }
}


/// The commands the omnibox offers: name, description, command.
///
/// `load` and `unload` are the names the README gives loading and unloading
/// a job by. They ask for the same thing as `bootstrap` and `bootout`: a
/// job is loaded from its plist with the bootstrap routine and unloaded with
/// the bootout routine, in the job's domain (see `launchd::command`).
pub open spec fn command_table() -> Seq<(Seq<char>, Seq<char>, CommandView)> {
    seq![
        ("blame"@, "Why launchd launched the service"@, CommandView::Blame),
        ("bootstrap"@, "Bootstrap highlighted service"@, CommandView::BootstrapRequest),
        ("bootout"@, "Stop highlighted service"@, CommandView::BootoutRequest),
        ("enable"@, "Enable highlighted job (enables load)"@, CommandView::EnableRequest),
        ("disable"@, "Disable highlighted job (prevents load)"@, CommandView::DisableRequest),
        ("edit"@, "Edit plist with $EDITOR"@, CommandView::Edit),
        ("csrinfo"@, "See all CSR flags"@, CommandView::CSRInfo),
        ("dumpstate"@, "launchctl dumpstate"@, CommandView::DumpState),
        ("dumpjpcategory"@, "launchctl dumpjpcategory"@, CommandView::DumpJetsamPropertiesCategory),
        ("procinfo"@, "launchctl procinfo for highlighted process"@, CommandView::ProcInfo),
        ("help"@, "Show all commands"@, CommandView::Help),
        ("exit"@, "Exit"@, CommandView::Quit),
        ("load"@, "Load highlighted job"@, CommandView::BootstrapRequest),
        ("unload"@, "Unload highlighted job"@, CommandView::BootoutRequest),
    ]
}

/// Number of commands the omnibox offers.
pub const NUM_OMNIBOX_COMMANDS: usize = 14;

/// The command at a position of the table: its name, its description and
/// the command; `load` and `unload` request a bootstrap and a bootout.
pub fn omnibox_command(i: usize) -> (r: (&'static str, &'static str, OmniboxCommand))
    requires
        i < NUM_OMNIBOX_COMMANDS,
    ensures
        (r.0@, r.1@, r.2@) == command_table()[i as int],
{
    match i {
        0 => ("blame", "Why launchd launched the service", OmniboxCommand::Blame),
        1 => ("bootstrap", "Bootstrap highlighted service", OmniboxCommand::BootstrapRequest),
        2 => ("bootout", "Stop highlighted service", OmniboxCommand::BootoutRequest),
        3 => ("enable", "Enable highlighted job (enables load)", OmniboxCommand::EnableRequest),
        4 => ("disable", "Disable highlighted job (prevents load)", OmniboxCommand::DisableRequest),
        5 => ("edit", "Edit plist with $EDITOR", OmniboxCommand::Edit),
        6 => ("csrinfo", "See all CSR flags", OmniboxCommand::CSRInfo),
        7 => ("dumpstate", "launchctl dumpstate", OmniboxCommand::DumpState),
        8 => ("dumpjpcategory", "launchctl dumpjpcategory", OmniboxCommand::DumpJetsamPropertiesCategory),
        9 => ("procinfo", "launchctl procinfo for highlighted process", OmniboxCommand::ProcInfo),
        10 => ("help", "Show all commands", OmniboxCommand::Help),
        11 => ("exit", "Exit", OmniboxCommand::Quit),
        12 => ("load", "Load highlighted job", OmniboxCommand::BootstrapRequest),
        _ => ("unload", "Unload highlighted job", OmniboxCommand::BootoutRequest),
    }
}

/// Every command the omnibox offers: name, description, command.
pub fn omnibox_commands() -> (r: Vec<(&'static str, &'static str, OmniboxCommand)>)
    ensures
        r@.len() == command_table().len(),
        forall|i: int| 0 <= i < r@.len() ==> (#[trigger] r@[i].0@, r@[i].1@, r@[i].2@) == command_table()[i],
{
    let mut r: Vec<(&'static str, &'static str, OmniboxCommand)> = Vec::new();
    let mut i: usize = 0;
    while i < NUM_OMNIBOX_COMMANDS
        invariant
            0 <= i <= NUM_OMNIBOX_COMMANDS,
            r@.len() == i,
            forall|j: int| 0 <= j < i ==> (#[trigger] r@[j].0@, r@[j].1@, r@[j].2@) == command_table()[j],
        decreases NUM_OMNIBOX_COMMANDS - i,
    {
        r.push(omnibox_command(i));
        i = i + 1;
    }
    r
}

} // verus!
