use vstd::prelude::*;
use crate::launchd::entry_status::LaunchdEntryStatus;
use crate::launchd::enums::{SessionType, session_type_name};
use crate::launchd::job_type_filter::{JobFlag, JobTypeFilter, bits_have};
use crate::launchd::plist::entry_type_name;
use crate::text::{decimal, u64_to_string};
use crate::tui::table::table_list_view::TableListItem;

verus! {

/// One job in the service list: its label, its status and its filter flags.
#[derive(Debug, PartialEq, Eq, Hash)]
pub struct ServiceListItem {
    pub name: String,
    pub status: LaunchdEntryStatus,
    pub job_type_filter: JobTypeFilter,
}

impl Clone for ServiceListItem {
    fn clone(&self) -> (r: Self)
        ensures
            r == *self,
    {
        ServiceListItem {
            name: self.name.clone(),
            status: self.status.clone(),
            job_type_filter: self.job_type_filter,
        }
    }
}

/// The session column: the session type, or "-" when unknown.
pub open spec fn session_field(t: SessionType) -> Seq<char> {
    if t == SessionType::Unknown {
        "-"@
    } else {
        session_type_name(t)
    }
}

/// The type column: agent or daemon when the plist is known, else "-".
pub open spec fn type_field(s: LaunchdEntryStatus) -> Seq<char> {
    match s.plist {
        Some(p) => entry_type_name(p.entry_type),
        None => "-"@,
    }
}

/// The pid column: the pid of a loaded job that has one, else "-".
pub open spec fn pid_field(s: LaunchdEntryStatus, bits: u32) -> Seq<char> {
    if s.pid > 0 && bits_have(bits, JobFlag::Loaded) {
        decimal(s.pid as nat)
    } else {
        "-"@
    }
}

/// The loaded column: a check mark or a cross, and "disabled" for a
/// disabled job.
pub open spec fn loaded_field(bits: u32) -> Seq<char> {
    (if bits_have(bits, JobFlag::Loaded) {
        "\u{2714}"@
    } else {
        "\u{2718}"@
    }) + (if bits_have(bits, JobFlag::Disabled) {
        " disabled"@
    } else {
        Seq::empty()
    })
}

impl TableListItem for ServiceListItem {
    open spec fn row_spec(&self) -> Seq<Seq<char>> {
        seq![
            self.name@,
            session_field(self.status.limit_load_to_session_type),
            type_field(self.status),
            pid_field(self.status, self.job_type_filter.spec_bits()),
            loaded_field(self.job_type_filter.spec_bits()),
        ]
    }

    fn as_row(&self) -> (r: Vec<String>)
        ensures
            r@.map_values(|s: String| s@) == self.row_spec(),
    {
        let session_type = match self.status.limit_load_to_session_type {
            SessionType::Unknown => "-".to_owned(),
            other => other.name().to_owned(),
        };
        let entry_type = match &self.status.plist {
            Some(p) => p.entry_type.name().to_owned(),
            None => "-".to_owned(),
        };
        let loaded_flag = self.job_type_filter.intersects(JobTypeFilter::flag(JobFlag::Loaded));
        let pid = if self.status.pid > 0 && loaded_flag {
            u64_to_string(self.status.pid as u64)
        } else {
            "-".to_owned()
        };
        let mut loaded = if loaded_flag {
            "\u{2714}".to_owned()
        } else {
            "\u{2718}".to_owned()
        };
        if self.job_type_filter.intersects(JobTypeFilter::flag(JobFlag::Disabled)) {
            loaded.append(" disabled");
        }
        proof {
            let b = self.job_type_filter.spec_bits();
            assert((b & 64u32 != 0) == (b & 64u32 == 64u32)) by (bit_vector);
            assert((b & 128u32 != 0) == (b & 128u32 == 128u32)) by (bit_vector);
        }
        let mut row: Vec<String> = Vec::new();
        row.push(self.name.clone());
        row.push(session_type);
        row.push(entry_type);
        row.push(pid);
        row.push(loaded);
        assert(row@.map_values(|s: String| s@) =~= self.row_spec());
        row
    }
}

} // verus!
