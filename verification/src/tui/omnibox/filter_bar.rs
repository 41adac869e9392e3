use vstd::prelude::*;
use crate::launchd::job_type_filter::{JobFlag, JobTypeFilter};
use crate::tui::omnibox::state::{ModeView, OmniboxMode, OmniboxState};

verus! {

/// How a piece of the job type filter bar is drawn.
#[derive(Clone, Copy, Debug, PartialEq, Eq, Structural)]
pub enum SegmentStyle {
    /// A bracket.
    Plain,
    /// A flag the filter holds.
    Active,
    /// A flag the filter lacks.
    Inactive,
}

/// A piece of text of the job type filter bar, and the column it starts at.
#[derive(Clone, Copy, Debug)]
pub struct BarSegment {
    pub x: usize,
    pub text: &'static str,
    pub style: SegmentStyle,
}

/// The flags of the bar, from left to right.
pub open spec fn bar_flags() -> Seq<JobFlag> {
    seq![
        JobFlag::System,
        JobFlag::Global,
        JobFlag::User,
        JobFlag::Agent,
        JobFlag::Daemon,
        JobFlag::Loaded,
    ]
}

/// A flag as the bar shows it: its initial, or while the job type filter
/// is edited its name, followed by a space but for the last.
pub open spec fn flag_label(f: JobFlag, expanded: bool) -> Seq<char> {
    match f {
        JobFlag::System => if expanded { "system "@ } else { "s"@ },
        JobFlag::Global => if expanded { "global "@ } else { "g"@ },
        JobFlag::User => if expanded { "user "@ } else { "u"@ },
        JobFlag::Agent => if expanded { "agent "@ } else { "a"@ },
        JobFlag::Daemon => if expanded { "daemon "@ } else { "d"@ },
        JobFlag::Loaded => if expanded { "loaded"@ } else { "l"@ },
        JobFlag::Disabled => Seq::empty(),
    }
}

/// How many columns the bar takes: `[sguadl]`, or with the flags' names.
pub open spec fn bar_width(expanded: bool) -> nat {
    if expanded { 40 } else { 8 }
}

/// The segments of a bar, at the right of a line of `width` columns: an
/// opening bracket, each flag in turn right after the one before, styled
/// by whether the filter holds it, and a closing bracket in the last column.
pub open spec fn bar_layout(segs: Seq<BarSegment>, filter: JobTypeFilter, expanded: bool, width: nat) -> bool {
    &&& segs.len() == 8
    &&& segs[0].x == width - bar_width(expanded)
    &&& segs[0].text@ == "["@
    &&& segs[0].style == SegmentStyle::Plain
    &&& forall|i: int| #![trigger segs[i + 1]] 0 <= i < 6 ==> {
        &&& segs[i + 1].text@ == flag_label(bar_flags()[i], expanded)
        &&& segs[i + 1].x == segs[i].x + segs[i].text@.len()
        &&& segs[i + 1].style == (if filter.has(bar_flags()[i]) {
            SegmentStyle::Active
        } else {
            SegmentStyle::Inactive
        })
    }
    &&& segs[7].text@ == "]"@
    &&& segs[7].x == segs[6].x + segs[6].text@.len()
    &&& segs[7].style == SegmentStyle::Plain
    &&& segs[7].x + 1 == width
}

fn flag_style(filter: &JobTypeFilter, f: JobFlag) -> (r: SegmentStyle)
    ensures
        r == (if filter.has(f) { SegmentStyle::Active } else { SegmentStyle::Inactive }),
{
    if filter.contains(JobTypeFilter::flag(f)) {
        SegmentStyle::Active
    } else {
        SegmentStyle::Inactive
    }
}

/// How many columns the bar of the omnibox takes in its state.
pub fn bar_width_of(state: &OmniboxState) -> (r: usize)
    ensures
        r == bar_width(state.mode@ == ModeView::JobTypeFilter),
{
    match state.mode {
        OmniboxMode::JobTypeFilter => 40,
        _ => 8,
    }
}

/// The job type filter bar of the omnibox on a line of `width` columns;
/// it shows the flags' names while the job type filter is edited.
pub fn job_type_filter_bar(state: &OmniboxState, width: usize) -> (r: Vec<BarSegment>)
    requires
        width >= bar_width(state.mode@ == ModeView::JobTypeFilter),
    ensures
        bar_layout(r@, state.job_type_filter, state.mode@ == ModeView::JobTypeFilter, width as nat),
{
    let expanded = match state.mode {
        OmniboxMode::JobTypeFilter => true,
        _ => false,
    };
    let jtf = &state.job_type_filter;
    proof {
        reveal_strlit("[");
        reveal_strlit("]");
        reveal_strlit("system ");
        reveal_strlit("global ");
        reveal_strlit("user ");
        reveal_strlit("agent ");
        reveal_strlit("daemon ");
        reveal_strlit("loaded");
        reveal_strlit("s");
        reveal_strlit("g");
        reveal_strlit("u");
        reveal_strlit("a");
        reveal_strlit("d");
        reveal_strlit("l");
    }
    let mut r: Vec<BarSegment> = Vec::new();
    if expanded {
        let x = width - 40;
        r.push(BarSegment { x, text: "[", style: SegmentStyle::Plain });
        r.push(BarSegment { x: x + 1, text: "system ", style: flag_style(jtf, JobFlag::System) });
        r.push(BarSegment { x: x + 8, text: "global ", style: flag_style(jtf, JobFlag::Global) });
        r.push(BarSegment { x: x + 15, text: "user ", style: flag_style(jtf, JobFlag::User) });
        r.push(BarSegment { x: x + 20, text: "agent ", style: flag_style(jtf, JobFlag::Agent) });
        r.push(BarSegment { x: x + 26, text: "daemon ", style: flag_style(jtf, JobFlag::Daemon) });
        r.push(BarSegment { x: x + 33, text: "loaded", style: flag_style(jtf, JobFlag::Loaded) });
        r.push(BarSegment { x: x + 39, text: "]", style: SegmentStyle::Plain });
    } else {
        let x = width - 8;
        r.push(BarSegment { x, text: "[", style: SegmentStyle::Plain });
        r.push(BarSegment { x: x + 1, text: "s", style: flag_style(jtf, JobFlag::System) });
        r.push(BarSegment { x: x + 2, text: "g", style: flag_style(jtf, JobFlag::Global) });
        r.push(BarSegment { x: x + 3, text: "u", style: flag_style(jtf, JobFlag::User) });
        r.push(BarSegment { x: x + 4, text: "a", style: flag_style(jtf, JobFlag::Agent) });
        r.push(BarSegment { x: x + 5, text: "d", style: flag_style(jtf, JobFlag::Daemon) });
        r.push(BarSegment { x: x + 6, text: "l", style: flag_style(jtf, JobFlag::Loaded) });
        r.push(BarSegment { x: x + 7, text: "]", style: SegmentStyle::Plain });
    }
    proof {
        let segs = r@;
        assert forall|i: int| #![trigger segs[i + 1]] 0 <= i < 6 implies {
            &&& segs[i + 1].text@ == flag_label(bar_flags()[i], expanded)
            &&& segs[i + 1].x == segs[i].x + segs[i].text@.len()
            &&& segs[i + 1].style == (if jtf.has(bar_flags()[i]) {
                SegmentStyle::Active
            } else {
                SegmentStyle::Inactive
            })
        } by {
            if i == 0 {
            } else if i == 1 {
            } else if i == 2 {
            } else if i == 3 {
            } else if i == 4 {
            } else {
            }
        }
    }
    r
}

} // verus!
