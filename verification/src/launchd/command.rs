use vstd::prelude::*;
use crate::launchd::entry_status::{EntryStatusCache, invalidate_entry_status};
use crate::launchd::enums::{DomainType, domain_type_from_number};
use crate::launchd::xpc::{XpcDict, XpcValue, XpcValueView, key, strings_view};

verus! {

/// Why a launchd query gave nothing back.
#[derive(Debug)]
pub enum QueryError {
    /// The reply lacks the entry asked for, or no domain knows the job.
    NotFound,
    /// The reply's entry is not of the kind asked for.
    WrongType,
    /// A value could not be read; the message says why.
    ValueError(String),
}

/// A call of a launchd routine: its number, the dictionary sent, and the
/// domain whose handle and type the dictionary is completed with, where
/// there is one.
pub struct RoutineCall {
    pub routine: u64,
    pub dict: XpcDict,
    pub domain: Option<DomainType>,
}

/// The routine that lists jobs.
pub const LIST_ROUTINE: u64 = 815;

/// The routine that tells why a job runs.
pub const BLAME_ROUTINE: u64 = 707;

/// The routine that unloads a job.
pub const BOOTOUT_ROUTINE: u64 = 801;

/// The routine that loads a job from its plist.
pub const BOOTSTRAP_ROUTINE: u64 = 800;

/// The routine that enables jobs.
pub const ENABLE_ROUTINE: u64 = 808;

/// The routine that disables jobs.
pub const DISABLE_ROUTINE: u64 = 809;

/// The routine that writes launchd's state.
pub const DUMPSTATE_ROUTINE: u64 = 834;

/// The routine that writes the jetsam properties of each category.
pub const DUMPJPCATEGORY_ROUTINE: u64 = 837;

/// The routine that writes what launchd knows of a process.
pub const PROCINFO_ROUTINE: u64 = 708;

/// The routine that writes the disabled jobs of a domain.
pub const READ_DISABLED_ROUTINE: u64 = 828;

/// Bytes shared for a state report.
pub const REPORT_SHMEM_SIZE: u64 = 0x1400000;

/// Bytes shared for the list of disabled jobs.
pub const DISABLED_SHMEM_SIZE: u64 = 1_000_000;

/// A dictionary of one entry.
pub open spec fn one(k: Seq<char>, v: XpcValueView) -> Map<Seq<char>, XpcValueView> {
    Map::<Seq<char>, XpcValueView>::empty().insert(k, v)
}

/// The number of the last domain type that `find_in_all` asks.
pub const LAST_DOMAIN_NUMBER: u64 = 7;

/// What to do after asking one domain for a job.
#[derive(PartialEq, Eq, Structural, Debug, Clone, Copy)]
pub enum FindStep {
    /// The domain asked knows the job.
    Found(DomainType),
    /// Ask the domain type of this number next.
    Next(u64),
    /// No domain knows the job.
    NotFound,
}

/// The call that asks the domain type of a number for a job; domain types
/// are asked from 1 up to `LAST_DOMAIN_NUMBER`.
pub fn find_in_all_call(label: &str, domain_number: u64) -> (r: RoutineCall)
    ensures
        r.routine == LIST_ROUTINE,
        r.domain is None,
        r.dict@ == Map::<Seq<char>, XpcValueView>::empty()
            .insert(key("handle"), XpcValueView::U64(0))
            .insert(key("type"), XpcValueView::U64(domain_number))
            .insert(key("name"), XpcValueView::Str(label@)),
{
    let dict = XpcDict::new()
        .entry("handle", XpcValue::U64(0))
        .entry("type", XpcValue::U64(domain_number))
        .entry("name", XpcValue::Str(label.to_string()));
    RoutineCall { routine: LIST_ROUTINE, dict, domain: None }
}

/// After asking the domain type of a number: the job is found there if the
/// domain answered, else the next number is asked, up to the last.
pub fn find_in_all_step(domain_number: u64, answered: bool) -> (r: FindStep)
    ensures
        answered ==> r == FindStep::Found(domain_type_from_number(domain_number)),
        !answered && domain_number < LAST_DOMAIN_NUMBER ==> r == FindStep::Next(
            (domain_number + 1) as u64,
        ),
        !answered && domain_number >= LAST_DOMAIN_NUMBER ==> r == FindStep::NotFound,
{
    if answered {
        FindStep::Found(DomainType::from_number(domain_number))
    } else if domain_number < LAST_DOMAIN_NUMBER {
        FindStep::Next(domain_number + 1)
    } else {
        FindStep::NotFound
    }
}

/// The call that lists the jobs of a domain, or only the one named.
pub fn list(domain_type: DomainType, name: Option<String>) -> (r: RoutineCall)
    ensures
        r.routine == LIST_ROUTINE,
        r.domain == Some(domain_type),
        r.dict@ == (match name {
            Some(n) => one(key("name"), XpcValueView::Str(n@)),
            None => Map::<Seq<char>, XpcValueView>::empty(),
        }),
{
    let value = match name {
        Some(n) => Some(XpcValue::Str(n)),
        None => None,
    };
    let dict = XpcDict::new().entry_if_present("name", value);
    RoutineCall { routine: LIST_ROUTINE, dict, domain: Some(domain_type) }
}

/// The domain types whose jobs `list_all` gathers: every domain type, from
/// the system's (1) to the requestor's (`LAST_DOMAIN_NUMBER`).
pub fn all_domain_types() -> (r: Vec<DomainType>)
    ensures
        r@.len() == LAST_DOMAIN_NUMBER,
        forall|i: int| 0 <= i < r@.len() ==> #[trigger] r@[i] == domain_type_from_number((i + 1) as u64),
{
    let mut r: Vec<DomainType> = Vec::new();
    let mut n: u64 = 1;
    while n <= LAST_DOMAIN_NUMBER
        invariant
            1 <= n <= LAST_DOMAIN_NUMBER + 1,
            r@.len() == n - 1,
            forall|i: int| 0 <= i < r@.len() ==> #[trigger] r@[i] == domain_type_from_number((i + 1) as u64),
        decreases LAST_DOMAIN_NUMBER + 1 - n,
    {
        r.push(DomainType::from_number(n));
        n = n + 1;
    }
    r
}

/// The domain whose disabled jobs the service list shows: the system's for
/// root, else the user's.
pub fn disabled_jobs_domain(euid: u32) -> (r: DomainType)
    ensures
        r == (if euid == 0 { DomainType::System } else { DomainType::User }),
{
    if euid == 0 {
        DomainType::System
    } else {
        DomainType::User
    }
}

/// The labels of `from` that `into` lacks, added to its end.
pub(crate) fn add_labels(into: &mut Vec<String>, from: &Vec<String>)
    requires
        strings_view(old(into)@).no_duplicates(),
    ensures
        strings_view(final(into)@).no_duplicates(),
        forall|x: Seq<char>| #[trigger] strings_view(final(into)@).contains(x)
            <==> strings_view(old(into)@).contains(x) || strings_view(from@).contains(x),
{
    let mut i: usize = 0;
    while i < from.len()
        invariant
            i <= from@.len(),
            strings_view(into@).no_duplicates(),
            forall|x: Seq<char>| #[trigger] strings_view(into@).contains(x)
                <==> strings_view(old(into)@).contains(x)
                    || strings_view(from@.subrange(0, i as int)).contains(x),
        decreases from@.len() - i,
    {
        let s = &from[i];
        let mut found = false;
        let mut j: usize = 0;
        while j < into.len()
            invariant
                j <= into@.len(),
                found <==> exists|k: int| 0 <= k < j && into@[k]@ == s@,
            decreases into@.len() - j,
        {
            if crate::text::str_eq(into[j].as_str(), s.as_str()) {
                found = true;
            }
            j = j + 1;
        }
        let ghost before = into@;
        if !found {
            into.push(s.clone());
            proof {
                assert(strings_view(into@) =~= strings_view(before).push(s@));
                assert forall|a: int, b: int|
                    0 <= a < b < strings_view(into@).len() implies strings_view(into@)[a]
                    != strings_view(into@)[b] by {
                    if b == before.len() {
                        assert(strings_view(into@)[a] == before[a]@);
                    }
                }
            }
        }
        proof {
            let p0 = from@.subrange(0, i as int);
            let p1 = from@.subrange(0, i + 1);
            assert(strings_view(p1) =~= strings_view(p0).push(s@));
            let vb = strings_view(before);
            let vi = strings_view(into@);
            assert(vi.contains(s@)) by {
                if found {
                    let k = choose|k: int| 0 <= k < j && before[k]@ == s@;
                    assert(vi[k] == s@);
                } else {
                    assert(vi[before.len() as int] == s@);
                }
            }
            assert forall|x: Seq<char>| vb.contains(x) implies vi.contains(x) by {
                let k = choose|k: int| 0 <= k < vb.len() && vb[k] == x;
                assert(vi[k] == x);
            }
            assert forall|x: Seq<char>| vi.contains(x) implies vb.contains(x) || x == s@ by {
                let k = choose|k: int| 0 <= k < vi.len() && vi[k] == x;
                if k < vb.len() {
                    assert(vb[k] == x);
                }
            }
            assert forall|x: Seq<char>| strings_view(p1).contains(x) <==> strings_view(p0).contains(x)
                || x == s@ by {
                if strings_view(p0).contains(x) {
                    let k = choose|k: int| 0 <= k < p0.len() && strings_view(p0)[k] == x;
                    assert(strings_view(p1)[k] == x);
                }
                if x == s@ {
                    assert(strings_view(p1)[i as int] == x);
                }
            }
        }
        i = i + 1;
    }
    proof {
        assert(from@.subrange(0, from@.len() as int) =~= from@);
    }
}

/// Every label that some domain listed, each once: given the jobs listed
/// for each domain type, the jobs across all of them.
pub fn list_all(lists: &Vec<Vec<String>>) -> (r: Vec<String>)
    ensures
        strings_view(r@).no_duplicates(),
        forall|x: Seq<char>| #[trigger] strings_view(r@).contains(x)
            <==> exists|i: int| 0 <= i < lists@.len() && strings_view(lists@[i]@).contains(x),
{
    let mut r: Vec<String> = Vec::new();
    proof {
        assert(strings_view(r@) =~= Seq::<Seq<char>>::empty());
    }
    let mut i: usize = 0;
    while i < lists.len()
        invariant
            i <= lists@.len(),
            strings_view(r@).no_duplicates(),
            forall|x: Seq<char>| #[trigger] strings_view(r@).contains(x)
                <==> exists|j: int| 0 <= j < i && strings_view(lists@[j]@).contains(x),
        decreases lists@.len() - i,
    {
        add_labels(&mut r, &lists[i]);
        proof {
            assert forall|x: Seq<char>| #[trigger] strings_view(r@).contains(x)
                <==> exists|j: int| 0 <= j < i + 1 && strings_view(lists@[j]@).contains(x) by {
                if exists|j: int| 0 <= j < i + 1 && strings_view(lists@[j]@).contains(x) {
                    let j = choose|j: int| 0 <= j < i + 1 && strings_view(lists@[j]@).contains(x);
                    if j < i {
                        assert(exists|j: int| 0 <= j < i && strings_view(lists@[j]@).contains(x));
                    }
                }
            }
        }
        i = i + 1;
    }
    r
}

/// The call that asks why a job runs; the job's cached status is dropped.
pub fn blame(cache: &mut EntryStatusCache, label: &str, domain_type: DomainType) -> (r:
    RoutineCall)
    ensures
        final(cache)@ == old(cache)@.remove(label@),
        r.routine == BLAME_ROUTINE,
        r.domain == Some(domain_type),
        r.dict@ == one(key("name"), XpcValueView::Str(label@)),
{
    invalidate_entry_status(cache, label);
    let dict = XpcDict::new().entry("name", XpcValue::Str(label.to_string()));
    RoutineCall { routine: BLAME_ROUTINE, dict, domain: Some(domain_type) }
}

/// The string of a reply's entry: `NotFound` where there is none,
/// `WrongType` where it is no string.
pub fn reply_string(reply: &XpcDict, k: &str) -> (r: Result<String, QueryError>)
    ensures
        match r {
            Ok(s) => reply@.contains_key(k@) && reply@[k@] == XpcValueView::Str(s@),
            Err(QueryError::NotFound) => !reply@.contains_key(k@),
            Err(QueryError::WrongType) => reply@.contains_key(k@) && !(reply@[k@] is Str),
            Err(QueryError::ValueError(_)) => false,
        },
{
    match reply.get(k) {
        None => Err(QueryError::NotFound),
        Some(XpcValue::Str(s)) => Ok(s.clone()),
        Some(_) => Err(QueryError::WrongType),
    }
}

/// Why the job runs, from the reply to `blame`.
pub fn blame_reason(reply: &XpcDict) -> (r: Result<String, QueryError>)
    ensures
        match r {
            Ok(s) => reply@.contains_key(key("reason")) && reply@[key("reason")]
                == XpcValueView::Str(s@),
            Err(QueryError::NotFound) => !reply@.contains_key(key("reason")),
            Err(QueryError::WrongType) => reply@.contains_key(key("reason")) && !(
            reply@[key("reason")] is Str),
            Err(QueryError::ValueError(_)) => false,
        },
{
    reply_string(reply, "reason")
}

/// The call that unloads a job; the job's cached status is dropped.
pub fn bootout(cache: &mut EntryStatusCache, label: &str, domain_type: DomainType) -> (r:
    RoutineCall)
    ensures
        final(cache)@ == old(cache)@.remove(label@),
        r.routine == BOOTOUT_ROUTINE,
        r.domain == Some(domain_type),
        r.dict@ == one(key("name"), XpcValueView::Str(label@)).insert(
            key("no-einprogress"),
            XpcValueView::Bool(true),
        ),
{
    invalidate_entry_status(cache, label);
    let dict = XpcDict::new()
        .entry("name", XpcValue::Str(label.to_string()))
        .entry("no-einprogress", XpcValue::Bool(true));
    RoutineCall { routine: BOOTOUT_ROUTINE, dict, domain: Some(domain_type) }
}

/// The call that loads a job from its plist; the job's cached status is
/// dropped.
pub fn bootstrap(
    cache: &mut EntryStatusCache,
    label: &str,
    domain_type: DomainType,
    plist_path: &str,
) -> (r: RoutineCall)
    ensures
        final(cache)@ == old(cache)@.remove(label@),
        r.routine == BOOTSTRAP_ROUTINE,
        r.domain == Some(domain_type),
        r.dict@ == one(key("by-cli"), XpcValueView::Bool(true)).insert(
            key("paths"),
            XpcValueView::StrArray(seq![plist_path@]),
        ),
{
    invalidate_entry_status(cache, label);
    let mut paths: Vec<String> = Vec::new();
    paths.push(plist_path.to_string());
    proof {
        assert(strings_view(paths@) =~= seq![plist_path@]);
    }
    let dict = XpcDict::new()
        .entry("by-cli", XpcValue::Bool(true))
        .entry("paths", XpcValue::StrArray(paths));
    RoutineCall { routine: BOOTSTRAP_ROUTINE, dict, domain: Some(domain_type) }
}

/// The dictionary that names one job, as `enable` and `disable` send it.
pub open spec fn names_dict(label: Seq<char>) -> Map<Seq<char>, XpcValueView> {
    one(key("name"), XpcValueView::Str(label)).insert(
        key("names"),
        XpcValueView::StrArray(seq![label]),
    )
}

fn names_call(routine: u64, label: &str, domain_type: DomainType) -> (r: RoutineCall)
    ensures
        r.routine == routine,
        r.domain == Some(domain_type),
        r.dict@ == names_dict(label@),
{
    let mut names: Vec<String> = Vec::new();
    names.push(label.to_string());
    proof {
        assert(strings_view(names@) =~= seq![label@]);
    }
    let dict = XpcDict::new()
        .entry("name", XpcValue::Str(label.to_string()))
        .entry("names", XpcValue::StrArray(names));
    RoutineCall { routine, dict, domain: Some(domain_type) }
}

/// The call that enables a job.
pub fn enable(label: &str, domain_type: DomainType) -> (r: RoutineCall)
    ensures
        r.routine == ENABLE_ROUTINE,
        r.domain == Some(domain_type),
        r.dict@ == names_dict(label@),
{
    names_call(ENABLE_ROUTINE, label, domain_type)
}

/// The call that disables a job.
pub fn disable(label: &str, domain_type: DomainType) -> (r: RoutineCall)
    ensures
        r.routine == DISABLE_ROUTINE,
        r.domain == Some(domain_type),
        r.dict@ == names_dict(label@),
{
    names_call(DISABLE_ROUTINE, label, domain_type)
}

/// The call that writes launchd's state into a shared region.
pub fn dumpstate() -> (r: RoutineCall)
    ensures
        r.routine == DUMPSTATE_ROUTINE,
        r.domain == Some(DomainType::System),
        r.dict@ == one(key("shmem"), XpcValueView::Shmem(REPORT_SHMEM_SIZE)),
{
    let dict = XpcDict::new().entry("shmem", XpcValue::Shmem(REPORT_SHMEM_SIZE));
    RoutineCall { routine: DUMPSTATE_ROUTINE, dict, domain: Some(DomainType::System) }
}

/// The call that writes the jetsam properties of each category into a
/// shared region.
pub fn dumpjpcategory() -> (r: RoutineCall)
    ensures
        r.routine == DUMPJPCATEGORY_ROUTINE,
        r.domain == Some(DomainType::System),
        r.dict@ == one(key("shmem"), XpcValueView::Shmem(REPORT_SHMEM_SIZE)),
{
    let dict = XpcDict::new().entry("shmem", XpcValue::Shmem(REPORT_SHMEM_SIZE));
    RoutineCall { routine: DUMPJPCATEGORY_ROUTINE, dict, domain: Some(DomainType::System) }
}

/// The call that writes what launchd knows of a process into a shared
/// region.
pub fn procinfo(pid: i64) -> (r: RoutineCall)
    ensures
        r.routine == PROCINFO_ROUTINE,
        r.domain is None,
        r.dict@ == one(key("shmem"), XpcValueView::Shmem(REPORT_SHMEM_SIZE)).insert(
            key("pid"),
            XpcValueView::I64(pid),
        ),
{
    let dict = XpcDict::new()
        .entry("shmem", XpcValue::Shmem(REPORT_SHMEM_SIZE))
        .entry("pid", XpcValue::I64(pid));
    RoutineCall { routine: PROCINFO_ROUTINE, dict, domain: None }
}

/// The call that writes the disabled jobs of a domain into a shared region.
pub fn read_disabled(domain_type: DomainType) -> (r: RoutineCall)
    ensures
        r.routine == READ_DISABLED_ROUTINE,
        r.domain == Some(domain_type),
        r.dict@ == one(key("shmem"), XpcValueView::Shmem(DISABLED_SHMEM_SIZE)),
{
    let dict = XpcDict::new().entry("shmem", XpcValue::Shmem(DISABLED_SHMEM_SIZE));
    RoutineCall { routine: READ_DISABLED_ROUTINE, dict, domain: Some(domain_type) }
}

/// A count of bytes in a reply fits a `usize`, if the reply has one.
pub open spec fn bytes_written_fit(reply: Map<Seq<char>, XpcValueView>) -> bool {
    reply.contains_key(key("bytes-written")) && reply[key("bytes-written")] is U64
        ==> reply[key("bytes-written")]->U64_0 <= usize::MAX
}

/// How many bytes launchd wrote into the shared region, from its reply.
pub fn bytes_written(reply: &XpcDict) -> (r: Result<usize, QueryError>)
    requires
        bytes_written_fit(reply@),
    ensures
        match r {
            Ok(n) => reply@.contains_key(key("bytes-written")) && reply@[key("bytes-written")]
                == XpcValueView::U64(n as u64),
            Err(QueryError::NotFound) => !reply@.contains_key(key("bytes-written")),
            Err(QueryError::WrongType) => reply@.contains_key(key("bytes-written")) && !(
            reply@[key("bytes-written")] is U64),
            Err(QueryError::ValueError(_)) => false,
        },
{
    match reply.get("bytes-written") {
        None => Err(QueryError::NotFound),
        Some(XpcValue::U64(n)) => Ok(*n as usize),
        Some(_) => Err(QueryError::WrongType),
    }
}

#[verifier::external_type_specification]
#[verifier::external_body]
pub struct ExRegex(regex::Regex);

/// Why `regex::Regex::new` refuses a pattern, as its error displays it;
/// `None` where the pattern compiles.
pub uninterp spec fn regex_new_error(pattern: Seq<char>) -> Option<Seq<char>>;

/// The groups of each match of a pattern in a haystack, as
/// `regex::Regex::captures_iter` yields them: the matches in the order they
/// are found, and for each the text of every group, `None` for a group
/// that took no part.
pub uninterp spec fn regex_captures(pattern: Seq<char>, haystack: Seq<char>) -> Seq<
    Seq<Option<Seq<char>>>,
>;

/// A compiled regular expression and the pattern it was compiled from.
pub struct CompiledPattern {
    source: String,
    regex: regex::Regex,
}

impl CompiledPattern {
    /// The pattern it was compiled from.
    pub closed spec fn source(self) -> Seq<char> {
        self.source@
    }
}

/// `regex::Regex::new`: the compiled pattern, or the message of the error
/// it refuses the pattern with. The contract ties both outcomes to the
/// pattern alone; which patterns compile is not stated.
#[verifier::external_body]
fn compile_pattern(pattern: &str) -> (r: Result<CompiledPattern, String>)
    ensures
        match r {
            Ok(p) => regex_new_error(pattern@) is None && p.source() == pattern@,
            Err(e) => regex_new_error(pattern@) == Some(e@),
        },
{
    match regex::Regex::new(pattern) {
        Ok(regex) => Ok(CompiledPattern { source: pattern.to_string(), regex }),
        Err(e) => Err(e.to_string()),
    }
}

/// The groups of one match, with strings as character sequences.
pub open spec fn groups_view(g: Seq<Option<String>>) -> Seq<Option<Seq<char>>> {
    g.map_values(
        |o: Option<String>|
            match o {
                Some(s) => Some(s@),
                None => None,
            },
    )
}

/// The groups of every match, with strings as character sequences.
pub open spec fn captures_view(c: Seq<Vec<Option<String>>>) -> Seq<Seq<Option<Seq<char>>>> {
    c.map_values(|v: Vec<Option<String>>| groups_view(v@))
}

/// `regex::Regex::captures_iter`, each match turned into the text of its
/// groups (`Captures::iter`, `Match::as_str`). The result is the name
/// `regex_captures` of the pattern and the haystack; as the crate documents,
/// each match has at least one group, the whole match, which is present.
#[verifier::external_body]
fn captures_all(p: &CompiledPattern, haystack: &str) -> (r: Vec<Vec<Option<String>>>)
    ensures
        captures_view(r@) == regex_captures(p.source(), haystack@),
        forall|i: int| 0 <= i < r@.len() ==> r@[i]@.len() > 0 && r@[i]@[0] is Some,
{
    let mut all: Vec<Vec<Option<String>>> = Vec::new();
    for caps in p.regex.captures_iter(haystack) {
        all.push(caps.iter().map(|m| m.map(|m| m.as_str().to_string())).collect());
    }
    all
}

/// The last group of a match that took part in it.
pub open spec fn last_group(g: Seq<Option<Seq<char>>>) -> Option<Seq<char>>
    decreases g.len(),
{
    if g.len() == 0 {
        None
    } else if g.last() is Some {
        g.last()
    } else {
        last_group(g.drop_last())
    }
}

/// Some match has `x` as the last group that took part in it.
pub open spec fn last_group_of_some(caps: Seq<Seq<Option<Seq<char>>>>, x: Seq<char>) -> bool {
    exists|i: int| 0 <= i < caps.len() && last_group(caps[i]) == Some(x)
}

fn last_group_exec(g: &Vec<Option<String>>) -> (r: Option<String>)
    ensures
        match r {
            Some(s) => last_group(groups_view(g@)) == Some(s@),
            None => last_group(groups_view(g@)) is None,
        },
{
    let mut n = g.len();
    proof {
        assert(g@.subrange(0, n as int) =~= g@);
    }
    while n > 0
        invariant
            n <= g@.len(),
            last_group(groups_view(g@)) == last_group(groups_view(g@.subrange(0, n as int))),
        decreases n,
    {
        let ghost pre = groups_view(g@.subrange(0, n as int));
        proof {
            assert(pre.last() == groups_view(g@)[n - 1]);
            assert(pre.drop_last() =~= groups_view(g@.subrange(0, n - 1)));
        }
        match &g[n - 1] {
            Some(s) => {
                return Some(s.clone());
            },
            None => {},
        }
        n = n - 1;
    }
    proof {
        assert(groups_view(g@.subrange(0, 0)) =~= Seq::<Option<Seq<char>>>::empty());
    }
    None
}

/// The last group that took part in each match, each label once.
pub fn labels_from_captures(caps: &Vec<Vec<Option<String>>>) -> (r: Vec<String>)
    ensures
        strings_view(r@).no_duplicates(),
        forall|x: Seq<char>| #[trigger] strings_view(r@).contains(x)
            <==> last_group_of_some(captures_view(caps@), x),
{
    let mut lasts: Vec<String> = Vec::new();
    let mut i: usize = 0;
    while i < caps.len()
        invariant
            i <= caps@.len(),
            forall|x: Seq<char>| #[trigger] strings_view(lasts@).contains(x)
                <==> last_group_of_some(captures_view(caps@.subrange(0, i as int)), x),
        decreases caps@.len() - i,
    {
        let ghost before = lasts@;
        let last = last_group_exec(&caps[i]);
        proof {
            assert(captures_view(caps@.subrange(0, i + 1)) =~= captures_view(
                caps@.subrange(0, i as int),
            ).push(groups_view(caps@[i as int]@)));
        }
        match last {
            Some(s) => {
                lasts.push(s);
            },
            None => {},
        }
        proof {
            let c0 = captures_view(caps@.subrange(0, i as int));
            let c1 = captures_view(caps@.subrange(0, i + 1));
            assert forall|x: Seq<char>| #[trigger] strings_view(lasts@).contains(x)
                <==> last_group_of_some(c1, x) by {
                if last_group_of_some(c0, x) {
                    let k = choose|k: int| 0 <= k < c0.len() && last_group(c0[k]) == Some(x);
                    assert(c1[k] == c0[k]);
                }
                if last_group_of_some(c1, x) {
                    let k = choose|k: int| 0 <= k < c1.len() && last_group(c1[k]) == Some(x);
                    if k < c0.len() {
                        assert(c1[k] == c0[k]);
                    }
                }
                if strings_view(before).contains(x) {
                    let k = choose|k: int| 0 <= k < before.len() && strings_view(before)[k] == x;
                    assert(strings_view(lasts@)[k] == x);
                }
                if strings_view(lasts@).contains(x) {
                    let k = choose|k: int| 0 <= k < lasts@.len() && strings_view(lasts@)[k] == x;
                    if k < before.len() {
                        assert(strings_view(before)[k] == x);
                    }
                }
                if last_group(c1[i as int]) == Some(x) {
                    assert(strings_view(lasts@)[before.len() as int] == x);
                }
            }
        }
        i = i + 1;
    }
    proof {
        assert(caps@.subrange(0, caps@.len() as int) =~= caps@);
    }
    let mut r: Vec<String> = Vec::new();
    proof {
        assert(strings_view(r@) =~= Seq::<Seq<char>>::empty());
    }
    add_labels(&mut r, &lasts);
    r
}

/// The pattern of a disabled job in what `read_disabled` writes: its label
/// in quotes, then ` => disabled`.
pub const DISABLED_PATTERN: &'static str = "\"([\\w.]+)\" => disabled";

/// The labels of the disabled jobs in what `read_disabled` wrote, each once;
/// a `ValueError` if the pattern is refused.
pub fn read_disabled_hashset(text: &str) -> (r: Result<Vec<String>, QueryError>)
    ensures
        match r {
            Ok(v) => {
                &&& regex_new_error(DISABLED_PATTERN@) is None
                &&& strings_view(v@).no_duplicates()
                &&& forall|x: Seq<char>| #[trigger] strings_view(v@).contains(x)
                    <==> last_group_of_some(regex_captures(DISABLED_PATTERN@, text@), x)
            },
            Err(QueryError::ValueError(m)) => regex_new_error(DISABLED_PATTERN@) == Some(m@),
            Err(_) => false,
        },
{
    match compile_pattern(DISABLED_PATTERN) {
        Ok(p) => {
            let caps = captures_all(&p, text);
            Ok(labels_from_captures(&caps))
        },
        Err(m) => Err(QueryError::ValueError(m)),
    }
}

} // verus!
