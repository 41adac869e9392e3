use vstd::prelude::*;

verus! {

/// Every bit that names a flag of a `JobTypeFilter`.
pub const ALL_BITS: u32 = 254;

/// The bits of the scope flags (system, global, user).
pub const SCOPE_BITS: u32 = 14;

/// The single flags a `JobTypeFilter` is made of.
#[derive(Clone, Copy, Debug, PartialEq, Eq, Hash)]
pub enum JobFlag {
    System,
    Global,
    User,
    Agent,
    Daemon,
    Loaded,
    Disabled,
}

/// The bit of a flag.
pub open spec fn flag_bit(f: JobFlag) -> u32 {
    match f {
        JobFlag::System => 2,
        JobFlag::Global => 4,
        JobFlag::User => 8,
        JobFlag::Agent => 16,
        JobFlag::Daemon => 32,
        JobFlag::Loaded => 64,
        JobFlag::Disabled => 128,
    }
}

/// A flag that says where a job's plist is located.
pub open spec fn is_scope_flag(f: JobFlag) -> bool {
    f == JobFlag::System || f == JobFlag::Global || f == JobFlag::User
}

/// Whether the bits hold the bit of a flag.
pub open spec fn bits_have(bits: u32, f: JobFlag) -> bool {
    bits & flag_bit(f) == flag_bit(f)
}

/// Whether the bits name flags only.
pub open spec fn valid_bits(bits: u32) -> bool {
    bits & !ALL_BITS == 0
}

/// Bitmask for filtering on the job type, which is a mix of scope
/// (where the plist is located), kind (agent or daemon) and state
/// (loaded, disabled).
#[derive(Clone, Copy, Debug, PartialEq, Eq, Hash)]
pub struct JobTypeFilter {
    bits: u32,
}

proof fn lemma_flag_bit_valid(f: JobFlag)
    ensures
        valid_bits(flag_bit(f)),
        flag_bit(f) != 0,
{
    let b = flag_bit(f);
    assert(valid_bits(b) && b != 0) by (bit_vector)
        requires
            b == 2 || b == 4 || b == 8 || b == 16 || b == 32 || b == 64 || b == 128,
    ;
}

proof fn lemma_valid_closed(a: u32, b: u32)
    requires
        valid_bits(a),
        valid_bits(b),
    ensures
        valid_bits(a ^ b),
        valid_bits(a & b),
        valid_bits(a | b),
        valid_bits(a & SCOPE_BITS),
        valid_bits((a >> 4u32) << 4u32),
{
    assert(valid_bits(a ^ b) && valid_bits(a & b) && valid_bits(a | b) && valid_bits(a & SCOPE_BITS)
        && valid_bits((a >> 4u32) << 4u32)) by (bit_vector)
        requires
            a & !ALL_BITS == 0,
            b & !ALL_BITS == 0,
    ;
}

impl JobTypeFilter {
    #[verifier::type_invariant]
    spec fn inv(self) -> bool {
        valid_bits(self.bits)
    }

    /// The bits of the filter.
    pub closed spec fn spec_bits(self) -> u32 {
        self.bits
    }

    /// The filter with these bits.
    pub closed spec fn from_spec_bits(bits: u32) -> JobTypeFilter {
        JobTypeFilter { bits }
    }

    /// A filter is determined by its bits.
    pub proof fn lemma_bits_determine(a: JobTypeFilter, b: JobTypeFilter)
        requires
            a.spec_bits() == b.spec_bits(),
        ensures
            a == b,
    {
    }

    /// The filter with given bits has these bits.
    pub proof fn lemma_from_spec_bits(bits: u32)
        ensures
            Self::from_spec_bits(bits).spec_bits() == bits,
    {
    }

    /// Whether the filter holds a flag.
    pub open spec fn has(self, f: JobFlag) -> bool {
        bits_have(self.spec_bits(), f)
    }

    pub fn bits(&self) -> (r: u32)
        ensures
            r == self.spec_bits(),
            valid_bits(r),
    {
        proof {
            use_type_invariant(self);
        }
        self.bits
    }

    /// The filter with no flag.
    pub fn empty() -> (r: Self)
        ensures
            r.spec_bits() == 0,
    {
        assert(valid_bits(0)) by (bit_vector);
        JobTypeFilter { bits: 0 }
    }

    /// The filter that holds the one flag `f`.
    pub fn flag(f: JobFlag) -> (r: Self)
        ensures
            r.spec_bits() == flag_bit(f),
    {
        proof {
            lemma_flag_bit_valid(f);
        }
        let b: u32 = match f {
            JobFlag::System => 2,
            JobFlag::Global => 4,
            JobFlag::User => 8,
            JobFlag::Agent => 16,
            JobFlag::Daemon => 32,
            JobFlag::Loaded => 64,
            JobFlag::Disabled => 128,
        };
        JobTypeFilter { bits: b }
    }

    /// The filter with these bits, if they name flags only.
    pub fn from_bits(bits: u32) -> (r: Option<Self>)
        ensures
            r is Some <==> valid_bits(bits),
            r matches Some(f) ==> f.spec_bits() == bits,
    {
        if bits & !ALL_BITS == 0 {
            Some(JobTypeFilter { bits })
        } else {
            None
        }
    }

    /// Whether every flag of `other` is in `self`.
    pub fn contains(&self, other: Self) -> (r: bool)
        ensures
            r == (self.spec_bits() & other.spec_bits() == other.spec_bits()),
    {
        self.bits & other.bits == other.bits
    }

    /// Whether `self` and `other` share a flag.
    pub fn intersects(&self, other: Self) -> (r: bool)
        ensures
            r == (self.spec_bits() & other.spec_bits() != 0),
    {
        self.bits & other.bits != 0
    }

    /// Whether the filter holds no flag.
    pub fn is_empty(&self) -> (r: bool)
        ensures
            r == (self.spec_bits() == 0),
    {
        self.bits == 0
    }

    /// The flags in both filters.
    pub fn intersection(self, other: Self) -> (r: Self)
        ensures
            r.spec_bits() == self.spec_bits() & other.spec_bits(),
    {
        proof {
            use_type_invariant(self);
            use_type_invariant(other);
            lemma_valid_closed(self.bits, other.bits);
        }
        JobTypeFilter { bits: self.bits & other.bits }
    }

    /// The flags in either filter.
    pub fn union(self, other: Self) -> (r: Self)
        ensures
            r.spec_bits() == self.spec_bits() | other.spec_bits(),
    {
        proof {
            use_type_invariant(self);
            use_type_invariant(other);
            lemma_valid_closed(self.bits, other.bits);
        }
        JobTypeFilter { bits: self.bits | other.bits }
    }

    /// Flip every flag of `other` in `self`.
    pub fn toggle(&mut self, other: Self)
        ensures
            final(self).spec_bits() == old(self).spec_bits() ^ other.spec_bits(),
    {
        proof {
            use_type_invariant(&*self);
            use_type_invariant(other);
            lemma_valid_closed(self.bits, other.bits);
        }
        let b = self.bits ^ other.bits;
        *self = JobTypeFilter { bits: b };
    }

    /// The filter a new omnibox starts with: loaded jobs only.
    pub fn launchk_default() -> (r: Self)
        ensures
            r.spec_bits() == flag_bit(JobFlag::Loaded),
    {
        Self::flag(JobFlag::Loaded)
    }

    /// `self` with every flag of `other` flipped.
    pub fn toggle_yield(self, other: Self) -> (r: Self)
        ensures
            r.spec_bits() == self.spec_bits() ^ other.spec_bits(),
    {
        let mut s = self;
        s.toggle(other);
        s
    }

    /// `self` without its scope flags (system, global, user).
    pub fn clear_scope(&self) -> (r: Self)
        ensures
            r.spec_bits() == (self.spec_bits() >> 4u32) << 4u32,
    {
        proof {
            use_type_invariant(self);
            lemma_valid_closed(self.bits, self.bits);
        }
        let new_bits = self.bits >> 4u32 << 4u32;
        JobTypeFilter { bits: new_bits }
    }

    /// `self` with its scope flags only.
    pub fn clear_type(&self) -> (r: Self)
        ensures
            r.spec_bits() == self.spec_bits() & SCOPE_BITS,
    {
        let all_scope = Self::flag(JobFlag::System).union(Self::flag(JobFlag::Global)).union(
            Self::flag(JobFlag::User),
        );
        assert((2u32 | 4u32) | 8u32 == SCOPE_BITS) by (bit_vector);
        self.intersection(all_scope)
    }
}


/// The letters that show which flags a filter holds, in the order
/// system, global, user, agent, daemon, loaded.
pub open spec fn display_chars(bits: u32) -> Seq<char> {
    (if bits_have(bits, JobFlag::System) { seq!['s'] } else { Seq::empty() })
        + (if bits_have(bits, JobFlag::Global) { seq!['g'] } else { Seq::empty() })
        + (if bits_have(bits, JobFlag::User) { seq!['u'] } else { Seq::empty() })
        + (if bits_have(bits, JobFlag::Agent) { seq!['a'] } else { Seq::empty() })
        + (if bits_have(bits, JobFlag::Daemon) { seq!['d'] } else { Seq::empty() })
        + (if bits_have(bits, JobFlag::Loaded) { seq!['l'] } else { Seq::empty() })
}

/// The name of a filter that is exactly one of the flags shown in the
/// omnibox, else nothing.
pub open spec fn debug_chars(bits: u32) -> Seq<char> {
    if bits == flag_bit(JobFlag::System) {
        seq!['S', 'Y', 'S', 'T', 'E', 'M']
    } else if bits == flag_bit(JobFlag::Global) {
        seq!['G', 'L', 'O', 'B', 'A', 'L']
    } else if bits == flag_bit(JobFlag::User) {
        seq!['U', 'S', 'E', 'R']
    } else if bits == flag_bit(JobFlag::Agent) {
        seq!['A', 'G', 'E', 'N', 'T']
    } else if bits == flag_bit(JobFlag::Daemon) {
        seq!['D', 'A', 'E', 'M', 'O', 'N']
    } else if bits == flag_bit(JobFlag::Loaded) {
        seq!['L', 'O', 'A', 'D', 'E', 'D']
    } else {
        Seq::empty()
    }
}

impl JobTypeFilter {
    /// The hotkey letters of the flags the filter holds, as the TUI shows them.
    pub fn to_display_string(&self) -> (r: String)
        ensures
            r@ == display_chars(self.spec_bits()),
    {
        let mut display = String::new();
        let ghost b = self.spec_bits();
        proof {
            reveal_strlit("s");
            reveal_strlit("g");
            reveal_strlit("u");
            reveal_strlit("a");
            reveal_strlit("d");
            reveal_strlit("l");
        }
        if self.contains(Self::flag(JobFlag::System)) {
            display.append("s");
        }
        assert(display@ == (if bits_have(b, JobFlag::System) { seq!['s'] } else { Seq::<char>::empty() }));
        if self.contains(Self::flag(JobFlag::Global)) {
            display.append("g");
        }
        if self.contains(Self::flag(JobFlag::User)) {
            display.append("u");
        }
        if self.contains(Self::flag(JobFlag::Agent)) {
            display.append("a");
        }
        if self.contains(Self::flag(JobFlag::Daemon)) {
            display.append("d");
        }
        if self.contains(Self::flag(JobFlag::Loaded)) {
            display.append("l");
        }
        display
    }

    /// The flag's name when the filter is exactly one shown flag, else empty.
    pub fn debug_name(&self) -> (r: &'static str)
        ensures
            r@ == debug_chars(self.spec_bits()),
    {
        proof {
            reveal_strlit("SYSTEM");
            reveal_strlit("GLOBAL");
            reveal_strlit("USER");
            reveal_strlit("AGENT");
            reveal_strlit("DAEMON");
            reveal_strlit("LOADED");
            reveal_strlit("");
        }
        let b = self.bits();
        if b == 2 {
            "SYSTEM"
        } else if b == 4 {
            "GLOBAL"
        } else if b == 8 {
            "USER"
        } else if b == 16 {
            "AGENT"
        } else if b == 32 {
            "DAEMON"
        } else if b == 64 {
            "LOADED"
        } else {
            ""
        }
    }
}

impl Default for JobTypeFilter {
    fn default() -> (r: Self)
        ensures
            r.spec_bits() == 0,
    {
        Self::empty()
    }
}


proof fn lemma_scope_split_bit(x: u32, b: u32)
    requires
        valid_bits(x),
        b == 2 || b == 4 || b == 8 || b == 16 || b == 32 || b == 64 || b == 128,
    ensures
        (((x >> 4u32) << 4u32) & b == b) <==> (b >= 16 && x & b == b),
        ((x & SCOPE_BITS) & b == b) <==> (b < 16 && x & b == b),
{
    assert(((((x >> 4u32) << 4u32) & b == b) <==> (b >= 16 && x & b == b)) && (((x & SCOPE_BITS) & b
        == b) <==> (b < 16 && x & b == b))) by (bit_vector)
        requires
            x & !ALL_BITS == 0,
            b == 2 || b == 4 || b == 8 || b == 16 || b == 32 || b == 64 || b == 128,
    ;
}

/// Toggling the same flags twice gives back the filter one started with.
pub proof fn law_toggle_twice(x: JobTypeFilter, o: JobTypeFilter)
    ensures
        (x.spec_bits() ^ o.spec_bits()) ^ o.spec_bits() == x.spec_bits(),
{
    let a = x.spec_bits();
    let b = o.spec_bits();
    assert((a ^ b) ^ b == a) by (bit_vector);
}

/// Toggling a flag flips exactly that flag and leaves every other flag as it was.
pub proof fn law_toggle_flag(x: JobTypeFilter, f: JobFlag, g: JobFlag)
    requires
        valid_bits(x.spec_bits()),
    ensures
        bits_have(x.spec_bits() ^ flag_bit(f), g) == (if f == g {
            !bits_have(x.spec_bits(), g)
        } else {
            bits_have(x.spec_bits(), g)
        }),
{
    let a = x.spec_bits();
    let bf = flag_bit(f);
    let bg = flag_bit(g);
    assert(((a ^ bf) & bg == bg) == (if bf == bg { a & bg != bg } else { a & bg == bg }))
        by (bit_vector)
        requires
            bf == 2 || bf == 4 || bf == 8 || bf == 16 || bf == 32 || bf == 64 || bf == 128,
            bg == 2 || bg == 4 || bg == 8 || bg == 16 || bg == 32 || bg == 64 || bg == 128,
    ;
}

/// `clear_scope` keeps exactly the non-scope flags and `clear_type` exactly
/// the scope flags, so the two split a filter: together they give it back,
/// and they share no flag.
pub proof fn law_scope_type_split(x: JobTypeFilter, f: JobFlag)
    requires
        valid_bits(x.spec_bits()),
    ensures
        bits_have((x.spec_bits() >> 4u32) << 4u32, f) <==> (!is_scope_flag(f) && x.has(f)),
        bits_have(x.spec_bits() & SCOPE_BITS, f) <==> (is_scope_flag(f) && x.has(f)),
        ((x.spec_bits() >> 4u32) << 4u32) | (x.spec_bits() & SCOPE_BITS) == x.spec_bits(),
        ((x.spec_bits() >> 4u32) << 4u32) & (x.spec_bits() & SCOPE_BITS) == 0,
{
    let a = x.spec_bits();
    lemma_scope_split_bit(a, flag_bit(f));
    assert(((a >> 4u32) << 4u32) | (a & SCOPE_BITS) == a && ((a >> 4u32) << 4u32) & (a & SCOPE_BITS)
        == 0) by (bit_vector)
        requires
            a & !ALL_BITS == 0,
    ;
}

} // verus!
