use vstd::prelude::*;
use crate::launchd::enums::{
    DomainType, SessionType, domain_type_number, session_type_name,
};
use crate::launchd::label_map::LabelMap;

verus! {

/// A value in a launchd XPC message, as far as the queries made here need:
/// scalars, strings, lists of strings, and the shared memory region that
/// launchd writes a report into.
pub enum XpcValue {
    Bool(bool),
    U64(u64),
    I64(i64),
    Str(String),
    StrArray(Vec<String>),
    /// A shared memory region of the given size in bytes, allocated by the
    /// caller when the message is sent.
    Shmem(u64),
    /// A send right to a Mach port.
    MachSend(u32),
}

/// What an `XpcValue` holds, with strings as character sequences.
pub enum XpcValueView {
    Bool(bool),
    U64(u64),
    I64(i64),
    Str(Seq<char>),
    StrArray(Seq<Seq<char>>),
    Shmem(u64),
    MachSend(u32),
}

/// The characters of each string of a list.
pub open spec fn strings_view(v: Seq<String>) -> Seq<Seq<char>> {
    v.map_values(|s: String| s@)
}

impl View for XpcValue {
    type V = XpcValueView;

    open spec fn view(&self) -> XpcValueView {
        match self {
            XpcValue::Bool(b) => XpcValueView::Bool(*b),
            XpcValue::U64(n) => XpcValueView::U64(*n),
            XpcValue::I64(n) => XpcValueView::I64(*n),
            XpcValue::Str(s) => XpcValueView::Str(s@),
            XpcValue::StrArray(v) => XpcValueView::StrArray(strings_view(v@)),
            XpcValue::Shmem(n) => XpcValueView::Shmem(*n),
            XpcValue::MachSend(p) => XpcValueView::MachSend(*p),
        }
    }
}

fn clone_strings(v: &Vec<String>) -> (r: Vec<String>)
    ensures
        strings_view(r@) == strings_view(v@),
{
    let mut r: Vec<String> = Vec::new();
    let mut i: usize = 0;
    while i < v.len()
        invariant
            i <= v@.len(),
            r@.len() == i,
            forall|j: int| 0 <= j < i ==> r@[j]@ == v@[j]@,
        decreases v@.len() - i,
    {
        r.push(v[i].clone());
        i = i + 1;
    }
    proof {
        assert(strings_view(r@) =~= strings_view(v@));
    }
    r
}

impl Clone for XpcValue {
    fn clone(&self) -> (r: XpcValue)
        ensures
            r@ == self@,
    {
        match self {
            XpcValue::Bool(b) => XpcValue::Bool(*b),
            XpcValue::U64(n) => XpcValue::U64(*n),
            XpcValue::I64(n) => XpcValue::I64(*n),
            XpcValue::Str(s) => XpcValue::Str(s.clone()),
            XpcValue::StrArray(v) => XpcValue::StrArray(clone_strings(v)),
            XpcValue::Shmem(n) => XpcValue::Shmem(*n),
            XpcValue::MachSend(p) => XpcValue::MachSend(*p),
        }
    }
}

/// A dictionary of an XPC message: a value for each key, a later entry
/// for a key replacing an earlier one.
pub struct XpcDict {
    entries: LabelMap<XpcValue>,
}

impl View for XpcDict {
    type V = Map<Seq<char>, XpcValueView>;

    closed spec fn view(&self) -> Map<Seq<char>, XpcValueView> {
        self.entries@.map_values(|v: XpcValue| v@)
    }
}

/// `s` as a character sequence: the keys and fixed strings of messages.
pub open spec fn key(s: &str) -> Seq<char> {
    s@
}

impl XpcDict {
    /// An empty dictionary.
    pub fn new() -> (r: XpcDict)
        ensures
            r@ == Map::<Seq<char>, XpcValueView>::empty(),
    {
        let r = XpcDict { entries: LabelMap::new() };
        proof {
            assert(r@ =~= Map::<Seq<char>, XpcValueView>::empty());
        }
        r
    }

    /// Number of keys.
    pub fn len(&self) -> (r: usize)
        ensures
            r == self@.len(),
    {
        let n = self.entries.len();
        proof {
            let ls = self.entries.label_seq();
            assert(self@.dom() =~= ls.to_set());
            ls.unique_seq_to_set();
        }
        n
    }

    /// The key and value at a position below `len()`.
    pub fn entry_at(&self, i: usize) -> (r: (&String, &XpcValue))
        requires
            i < self@.len(),
        ensures
            self@.contains_key(r.0@),
            self@[r.0@] == r.1@,
    {
        let _ = self.entries.len();
        proof {
            let ls = self.entries.label_seq();
            assert(self@.dom() =~= ls.to_set());
            ls.unique_seq_to_set();
        }
        self.entries.entry_at(i)
    }

    /// The value of a key, if the dictionary has one.
    pub fn get(&self, k: &str) -> (r: Option<&XpcValue>)
        ensures
            r is Some <==> self@.contains_key(k@),
            r matches Some(v) ==> v@ == self@[k@],
    {
        self.entries.get(k)
    }

    /// Add an entry, replacing the value the key had.
    pub fn entry(self, k: &str, value: XpcValue) -> (r: XpcDict)
        ensures
            r@ == self@.insert(k@, value@),
    {
        let mut entries = self.entries;
        let ghost old_entries = entries@;
        entries.insert(k.to_string(), value);
        let r = XpcDict { entries };
        proof {
            assert(r@ =~= self@.insert(k@, value@));
        }
        r
    }

    /// Add an entry if there is a value for it; else the dictionary is
    /// unchanged.
    pub fn entry_if_present(self, k: &str, value: Option<XpcValue>) -> (r: XpcDict)
        ensures
            value is None ==> r@ == self@,
            value matches Some(v) ==> r@ == self@.insert(k@, v@),
    {
        match value {
            None => self,
            Some(v) => self.entry(k, v),
        }
    }

    /// Add every entry of another dictionary, its values replacing those of
    /// the same keys here.
    pub fn extend(self, other: &XpcDict) -> (r: XpcDict)
        ensures
            r@ == self@.union_prefer_right(other@),
    {
        let n = other.entries.len();
        let ghost ls = other.entries.label_seq();
        let mut r = self;
        let mut i: usize = 0;
        while i < n
            invariant
                n == ls.len(),
                ls == other.entries.label_seq(),
                ls.no_duplicates(),
                forall|k: Seq<char>| #[trigger] other.entries@.contains_key(k) <==> ls.contains(k),
                i <= n,
                r@ == self@.union_prefer_right(
                    other@.restrict(ls.subrange(0, i as int).to_set()),
                ),
            decreases n - i,
        {
            let (label, value) = other.entries.entry_at(i);
            let ghost before = r@;
            r = r.entry(label.as_str(), value.clone());
            proof {
                let s0 = ls.subrange(0, i as int).to_set();
                let s1 = ls.subrange(0, i + 1).to_set();
                assert(ls.subrange(0, i + 1) =~= ls.subrange(0, i as int).push(ls[i as int]));
                ls.subrange(0, i as int).lemma_push_to_set_commute(ls[i as int]);
                assert(s1 =~= s0.insert(ls[i as int]));
                assert(r@ =~= self@.union_prefer_right(other@.restrict(s1)));
            }
            i = i + 1;
        }
        proof {
            assert(ls.subrange(0, n as int) =~= ls);
            assert forall|k: Seq<char>| ls.to_set().contains(k) <==> other@.contains_key(k) by {
                if ls.to_set().contains(k) {
                    assert(ls.contains(k));
                }
            }
            assert(other@.restrict(ls.to_set()) =~= other@);
        }
        r
    }

    /// Add the bootstrap port as the domain port, a send right.
    pub fn with_domain_port(self, bootstrap_port: u32) -> (r: XpcDict)
        ensures
            r@ == self@.insert(key("domain_port"), XpcValueView::MachSend(bootstrap_port)),
    {
        self.entry("domain_port", XpcValue::MachSend(bootstrap_port))
    }

    /// Add the session type, or `Aqua` where none is given.
    pub fn with_session_type_or_default(self, session: Option<SessionType>) -> (r: XpcDict)
        ensures
            r@ == self@.insert(
                key("session"),
                XpcValueView::Str(session_type_name(session.unwrap_or(SessionType::Aqua))),
            ),
    {
        let t = match session {
            Some(t) => t,
            None => SessionType::Aqua,
        };
        self.entry("session", XpcValue::Str(t.name().to_string()))
    }

    /// Add the handle, or 0 where none is given.
    pub fn with_handle_or_default(self, handle: Option<u64>) -> (r: XpcDict)
        ensures
            r@ == self@.insert(key("handle"), XpcValueView::U64(handle.unwrap_or(0))),
    {
        let h = match handle {
            Some(h) => h,
            None => 0,
        };
        self.entry("handle", XpcValue::U64(h))
    }

    /// Add the domain type, or the requestor's domain where none is given.
    pub fn with_domain_type_or_default(self, t: Option<DomainType>) -> (r: XpcDict)
        ensures
            r@ == self@.insert(
                key("type"),
                XpcValueView::U64(domain_type_number(t.unwrap_or(DomainType::RequestorDomain))),
            ),
    {
        let d = match t {
            Some(d) => d,
            None => DomainType::RequestorDomain,
        };
        self.entry("type", XpcValue::U64(d.number()))
    }
}

} // verus!
