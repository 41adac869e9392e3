use vstd::prelude::*;
use crate::text::str_eq;

verus! {

/// LimitLoadToSessionType key in an XPC response: the kind of session a job
/// is limited to.
#[derive(Clone, Copy, Debug, PartialEq, Eq, Structural, Hash)]
pub enum SessionType {
    Aqua,
    StandardIO,
    Background,
    LoginWindow,
    System,
    Unknown,
}

/// The name a session type is shown by.
pub open spec fn session_type_name(t: SessionType) -> Seq<char> {
    match t {
        SessionType::Aqua => "Aqua"@,
        SessionType::StandardIO => "StandardIO"@,
        SessionType::Background => "Background"@,
        SessionType::LoginWindow => "LoginWindow"@,
        SessionType::System => "System"@,
        SessionType::Unknown => "Unknown"@,
    }
}

/// The session type a name stands for; any other name is `Unknown`.
pub open spec fn session_type_from_name(s: Seq<char>) -> SessionType {
    if s == "Aqua"@ {
        SessionType::Aqua
    } else if s == "StandardIO"@ {
        SessionType::StandardIO
    } else if s == "Background"@ {
        SessionType::Background
    } else if s == "LoginWindow"@ {
        SessionType::LoginWindow
    } else if s == "System"@ {
        SessionType::System
    } else {
        SessionType::Unknown
    }
}

impl SessionType {
    /// The name the session type is shown by.
    pub fn name(&self) -> (r: &'static str)
        ensures
            r@ == session_type_name(*self),
    {
        match self {
            SessionType::Aqua => "Aqua",
            SessionType::StandardIO => "StandardIO",
            SessionType::Background => "Background",
            SessionType::LoginWindow => "LoginWindow",
            SessionType::System => "System",
            SessionType::Unknown => "Unknown",
        }
    }

    /// The session type a name stands for; any other name is `Unknown`.
    pub fn from_name(s: &str) -> (r: SessionType)
        ensures
            r == session_type_from_name(s@),
    {
        if str_eq(s, "Aqua") {
            SessionType::Aqua
        } else if str_eq(s, "StandardIO") {
            SessionType::StandardIO
        } else if str_eq(s, "Background") {
            SessionType::Background
        } else if str_eq(s, "LoginWindow") {
            SessionType::LoginWindow
        } else if str_eq(s, "System") {
            SessionType::System
        } else {
            SessionType::Unknown
        }
    }
}

impl From<String> for SessionType {
    fn from(value: String) -> (r: SessionType) {
        SessionType::from_name(value.as_str())
    }
}

impl vstd::std_specs::convert::FromSpecImpl<String> for SessionType {
    open spec fn obeys_from_spec() -> bool {
        true
    }

    open spec fn from_spec(v: String) -> SessionType {
        session_type_from_name(v@)
    }
}

/// Reading back the name of a session type gives the session type.
pub proof fn law_session_type_name_round_trip(t: SessionType)
    ensures
        session_type_from_name(session_type_name(t)) == t,
{
    reveal_strlit("Aqua");
    reveal_strlit("StandardIO");
    reveal_strlit("Background");
    reveal_strlit("LoginWindow");
    reveal_strlit("System");
    reveal_strlit("Unknown");
    let names = seq!["Aqua"@, "StandardIO"@, "Background"@, "LoginWindow"@, "System"@, "Unknown"@];
    assert forall|i: int, j: int| 0 <= i < j < 6 implies names[i] != names[j] by {
        if names[i].len() == names[j].len() {
            assert(names[i][0] != names[j][0]);
        }
    }
    assert(names[0] != names[1] && names[0] != names[2] && names[0] != names[3] && names[0] != names[4] && names[0] != names[5]);
    assert(names[1] != names[2] && names[1] != names[3] && names[1] != names[4] && names[1] != names[5]);
    assert(names[2] != names[3] && names[2] != names[4] && names[2] != names[5]);
    assert(names[3] != names[4] && names[3] != names[5] && names[4] != names[5]);
}

/// The launchd domain a query goes to.
#[derive(Clone, Copy, Debug, PartialEq, Eq, Structural, Hash)]
pub enum DomainType {
    System,
    User,
    UserLogin,
    Session,
    PID,
    RequestorUserDomain,
    RequestorDomain,
    Unknown,
}

/// The number launchd knows a domain type by; `Unknown` comes after the
/// others.
pub open spec fn domain_type_number(d: DomainType) -> u64 {
    match d {
        DomainType::System => 1,
        DomainType::User => 2,
        DomainType::UserLogin => 3,
        DomainType::Session => 4,
        DomainType::PID => 5,
        DomainType::RequestorUserDomain => 6,
        DomainType::RequestorDomain => 7,
        DomainType::Unknown => 8,
    }
}

/// The domain type a number stands for; any number but 1 to 7 is `Unknown`.
pub open spec fn domain_type_from_number(v: u64) -> DomainType {
    if v == 1 {
        DomainType::System
    } else if v == 2 {
        DomainType::User
    } else if v == 3 {
        DomainType::UserLogin
    } else if v == 4 {
        DomainType::Session
    } else if v == 5 {
        DomainType::PID
    } else if v == 6 {
        DomainType::RequestorUserDomain
    } else if v == 7 {
        DomainType::RequestorDomain
    } else {
        DomainType::Unknown
    }
}

/// The name a domain type is shown by.
pub open spec fn domain_type_name(d: DomainType) -> Seq<char> {
    match d {
        DomainType::System => "System"@,
        DomainType::User => "User"@,
        DomainType::UserLogin => "UserLogin"@,
        DomainType::Session => "Session"@,
        DomainType::PID => "PID"@,
        DomainType::RequestorUserDomain => "RequestorUserDomain"@,
        DomainType::RequestorDomain => "RequestorDomain"@,
        DomainType::Unknown => "Unknown"@,
    }
}

impl DomainType {
    /// The number launchd knows the domain type by.
    pub fn number(&self) -> (r: u64)
        ensures
            r == domain_type_number(*self),
    {
        match self {
            DomainType::System => 1,
            DomainType::User => 2,
            DomainType::UserLogin => 3,
            DomainType::Session => 4,
            DomainType::PID => 5,
            DomainType::RequestorUserDomain => 6,
            DomainType::RequestorDomain => 7,
            DomainType::Unknown => 8,
        }
    }

    /// The domain type a number stands for; any number but 1 to 7 is `Unknown`.
    pub fn from_number(value: u64) -> (r: DomainType)
        ensures
            r == domain_type_from_number(value),
    {
        match value {
            1 => DomainType::System,
            2 => DomainType::User,
            3 => DomainType::UserLogin,
            4 => DomainType::Session,
            5 => DomainType::PID,
            6 => DomainType::RequestorUserDomain,
            7 => DomainType::RequestorDomain,
            _ => DomainType::Unknown,
        }
    }

    /// The name the domain type is shown by.
    pub fn name(&self) -> (r: &'static str)
        ensures
            r@ == domain_type_name(*self),
    {
        match self {
            DomainType::System => "System",
            DomainType::User => "User",
            DomainType::UserLogin => "UserLogin",
            DomainType::Session => "Session",
            DomainType::PID => "PID",
            DomainType::RequestorUserDomain => "RequestorUserDomain",
            DomainType::RequestorDomain => "RequestorDomain",
            DomainType::Unknown => "Unknown",
        }
    }
}

impl From<u64> for DomainType {
    fn from(value: u64) -> (r: DomainType) {
        DomainType::from_number(value)
    }
}

impl vstd::std_specs::convert::FromSpecImpl<u64> for DomainType {
    open spec fn obeys_from_spec() -> bool {
        true
    }

    open spec fn from_spec(v: u64) -> DomainType {
        domain_type_from_number(v)
    }
}

/// A domain type read back from its number is the same domain type, and a
/// number from 1 to 7 read as a domain type gives back the number.
pub proof fn law_domain_type_number_round_trip(d: DomainType, v: u64)
    ensures
        domain_type_from_number(domain_type_number(d)) == d,
        1 <= v <= 7 ==> domain_type_number(domain_type_from_number(v)) == v,
{
}

} // verus!
