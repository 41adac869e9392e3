use vstd::prelude::*;
use crate::launchd::job_type_filter::{JobFlag, JobTypeFilter, flag_bit};
use crate::text::{seq_starts_with, str_starts_with};
use crate::tui::omnibox::command::{
    CommandView, NUM_OMNIBOX_COMMANDS, OmniboxCommand, command_table, omnibox_command,
};

verus! {

/// What the omnibox is doing.
#[derive(Debug, PartialEq, Eq)]
pub enum OmniboxMode {
    CommandFilter,
    CommandConfirm(OmniboxCommand),
    LabelFilter,
    JobTypeFilter,
    Idle,
}

/// The value of a mode.
pub ghost enum ModeView {
    CommandFilter,
    CommandConfirm(CommandView),
    LabelFilter,
    JobTypeFilter,
    Idle,
}

impl View for OmniboxMode {
    type V = ModeView;

    open spec fn view(&self) -> ModeView {
        match self {
            OmniboxMode::CommandFilter => ModeView::CommandFilter,
            OmniboxMode::CommandConfirm(c) => ModeView::CommandConfirm(c@),
            OmniboxMode::LabelFilter => ModeView::LabelFilter,
            OmniboxMode::JobTypeFilter => ModeView::JobTypeFilter,
            OmniboxMode::Idle => ModeView::Idle,
        }
    }
}

impl Clone for OmniboxMode {
    fn clone(&self) -> (r: Self)
        ensures
            r@ == self@,
    {
        match self {
            OmniboxMode::CommandFilter => OmniboxMode::CommandFilter,
            OmniboxMode::CommandConfirm(c) => OmniboxMode::CommandConfirm(c.clone()),
            OmniboxMode::LabelFilter => OmniboxMode::LabelFilter,
            OmniboxMode::JobTypeFilter => OmniboxMode::JobTypeFilter,
            OmniboxMode::Idle => OmniboxMode::Idle,
        }
    }
}

/// The state of the omnibox: its mode, when it last changed, its filters.
#[derive(Debug, PartialEq, Eq)]
pub struct OmniboxState {
    pub mode: OmniboxMode,
    /// When the state was made, in milliseconds since the epoch.
    pub tick_ms: u64,
    pub label_filter: String,
    pub command_filter: String,
    pub job_type_filter: JobTypeFilter,
}

/// The value of an omnibox state.
pub ghost struct StateView {
    pub mode: ModeView,
    pub tick_ms: u64,
    pub label_filter: Seq<char>,
    pub command_filter: Seq<char>,
    pub job_type_bits: u32,
}

impl View for OmniboxState {
    type V = StateView;

    open spec fn view(&self) -> StateView {
        StateView {
            mode: self.mode@,
            tick_ms: self.tick_ms,
            label_filter: self.label_filter@,
            command_filter: self.command_filter@,
            job_type_bits: self.job_type_filter.spec_bits(),
        }
    }
}

impl Clone for OmniboxState {
    fn clone(&self) -> (r: Self)
        ensures
            r@ == self@,
    {
        OmniboxState {
            mode: self.mode.clone(),
            tick_ms: self.tick_ms,
            label_filter: self.label_filter.clone(),
            command_filter: self.command_filter.clone(),
            job_type_filter: self.job_type_filter,
        }
    }
}

/// The position in the command table of the first command whose name
/// starts with the filter, looking from position `i` on.
pub open spec fn first_prefix_match(filter: Seq<char>, i: int) -> Option<int>
    decreases command_table().len() - i,
{
    if i < 0 || i >= command_table().len() {
        None
    } else if seq_starts_with(command_table()[i].0, filter) {
        Some(i)
    } else {
        first_prefix_match(filter, i + 1)
    }
}

/// The command suggested for a state: in command mode with a non-empty
/// filter, the first command whose name starts with the filter.
pub open spec fn suggestion(s: StateView) -> Option<int> {
    if s.mode != ModeView::CommandFilter || s.command_filter.len() == 0 {
        None
    } else {
        first_prefix_match(s.command_filter, 0)
    }
}

impl OmniboxState {
    /// The state a new omnibox starts in, made at `now_ms`.
    pub fn default_at(now_ms: u64) -> (r: Self)
        ensures
            r@ == (StateView {
                mode: ModeView::Idle,
                tick_ms: now_ms,
                label_filter: Seq::empty(),
                command_filter: Seq::empty(),
                job_type_bits: flag_bit(JobFlag::Loaded),
            }),
    {
        OmniboxState {
            mode: OmniboxMode::Idle,
            tick_ms: now_ms,
            label_filter: String::new(),
            command_filter: String::new(),
            job_type_filter: JobTypeFilter::launchk_default(),
        }
    }

    /// Produce a new state made at `now_ms`: each part given replaces the
    /// part of `self`, the others are kept.
    pub fn with_new(
        &self,
        mode: Option<OmniboxMode>,
        label_filter: Option<String>,
        command_filter: Option<String>,
        job_type_filter: Option<JobTypeFilter>,
        now_ms: u64,
    ) -> (r: OmniboxState)
        ensures
            r@ == (StateView {
                mode: match mode {
                    Some(m) => m@,
                    None => self.mode@,
                },
                tick_ms: now_ms,
                label_filter: match label_filter {
                    Some(l) => l@,
                    None => self.label_filter@,
                },
                command_filter: match command_filter {
                    Some(c) => c@,
                    None => self.command_filter@,
                },
                job_type_bits: match job_type_filter {
                    Some(j) => j.spec_bits(),
                    None => self.job_type_filter.spec_bits(),
                },
            }),
    {
        OmniboxState {
            tick_ms: now_ms,
            mode: match mode {
                Some(m) => m,
                None => self.mode.clone(),
            },
            label_filter: match label_filter {
                Some(l) => l,
                None => self.label_filter.clone(),
            },
            command_filter: match command_filter {
                Some(c) => c,
                None => self.command_filter.clone(),
            },
            job_type_filter: match job_type_filter {
                Some(j) => j,
                None => self.job_type_filter,
            },
        }
    }

    /// Whether the omnibox is in command mode.
    pub fn is_command_filter(&self) -> (r: bool)
        ensures
            r == (self.mode@ == ModeView::CommandFilter),
    {
        match self.mode {
            OmniboxMode::CommandFilter => true,
            _ => false,
        }
    }

    /// Suggest a command based on the command filter: in command mode with
    /// a non-empty filter, the first command whose name starts with it.
    pub fn suggest_command(&self) -> (r: Option<(&'static str, &'static str, OmniboxCommand)>)
        ensures
            r is Some <==> suggestion(self@) is Some,
            r matches Some(c) ==> (c.0@, c.1@, c.2@) == command_table()[suggestion(self@).unwrap()],
    {
        if !self.is_command_filter() || self.command_filter.as_str().is_empty() {
            return None;
        }
        let mut i: usize = 0;
        while i < NUM_OMNIBOX_COMMANDS
            invariant
                0 <= i <= NUM_OMNIBOX_COMMANDS,
                suggestion(self@) == first_prefix_match(self.command_filter@, i as int),
            decreases NUM_OMNIBOX_COMMANDS - i,
        {
            let c = omnibox_command(i);
            if str_starts_with(c.0, self.command_filter.as_str()) {
                return Some(c);
            }
            i = i + 1;
        }
        None
    }
}

} // verus!
