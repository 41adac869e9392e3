use vstd::prelude::*;
use vstd::string::StringSliceAdditionalSpecFns;

verus! {

/// Lexicographic order of byte strings: the order `str` and `String`
/// compare in.
pub open spec fn bytes_le(a: Seq<u8>, b: Seq<u8>) -> bool
    decreases a.len(),
{
    if a.len() == 0 {
        true
    } else if b.len() == 0 {
        false
    } else if a[0] < b[0] {
        true
    } else if a[0] > b[0] {
        false
    } else {
        bytes_le(a.drop_first(), b.drop_first())
    }
}

/// The UTF-8 bytes of a string, the ones its order goes by.
pub open spec fn utf8_of(s: Seq<char>) -> Seq<u8> {
    vstd::utf8::encode_utf8(s)
}

/// Any two byte strings are ordered one way or the other.
pub proof fn lemma_bytes_le_total(a: Seq<u8>, b: Seq<u8>)
    ensures
        bytes_le(a, b) || bytes_le(b, a),
    decreases a.len(),
{
    if a.len() > 0 && b.len() > 0 && a[0] == b[0] {
        lemma_bytes_le_total(a.drop_first(), b.drop_first());
    }
}

/// The order of byte strings is transitive.
pub proof fn lemma_bytes_le_transitive(a: Seq<u8>, b: Seq<u8>, c: Seq<u8>)
    requires
        bytes_le(a, b),
        bytes_le(b, c),
    ensures
        bytes_le(a, c),
    decreases a.len(),
{
    if a.len() > 0 && b.len() > 0 && c.len() > 0 && a[0] == b[0] && b[0] == c[0] {
        lemma_bytes_le_transitive(a.drop_first(), b.drop_first(), c.drop_first());
    }
}

proof fn lemma_bytes_le_skip(a: Seq<u8>, b: Seq<u8>, i: int)
    requires
        0 <= i <= a.len(),
        i <= b.len(),
        a.take(i) == b.take(i),
    ensures
        bytes_le(a, b) == bytes_le(a.skip(i), b.skip(i)),
    decreases i,
{
    if i > 0 {
        assert(a[0] == a.take(i)[0]);
        assert(b[0] == b.take(i)[0]);
        assert(a.drop_first().take(i - 1) =~= a.take(i).drop_first());
        assert(b.drop_first().take(i - 1) =~= b.take(i).drop_first());
        lemma_bytes_le_skip(a.drop_first(), b.drop_first(), i - 1);
        assert(a.drop_first().skip(i - 1) =~= a.skip(i));
        assert(b.drop_first().skip(i - 1) =~= b.skip(i));
    } else {
        assert(a.skip(0) =~= a);
        assert(b.skip(0) =~= b);
    }
}

/// Whether `a` comes no later than `b` in the order of strings.
pub fn str_le(a: &str, b: &str) -> (r: bool)
    ensures
        r == bytes_le(utf8_of(a@), utf8_of(b@)),
{
    let x = a.as_bytes();
    let y = b.as_bytes();
    let ghost xs = x@;
    let ghost ys = y@;
    assert(xs == utf8_of(a@));
    assert(ys == utf8_of(b@));
    let mut i: usize = 0;
    while i < x.len() && i < y.len()
        invariant
            xs == x@,
            ys == y@,
            xs == utf8_of(a@),
            ys == utf8_of(b@),
            0 <= i <= x@.len(),
            i <= y@.len(),
            xs.take(i as int) == ys.take(i as int),
        decreases x@.len() - i,
    {
        proof {
            assert(xs.skip(i as int)[0] == xs[i as int]);
            assert(ys.skip(i as int)[0] == ys[i as int]);
        }
        if x[i] < y[i] {
            proof {
                lemma_bytes_le_skip(xs, ys, i as int);
            }
            return true;
        } else if x[i] > y[i] {
            proof {
                lemma_bytes_le_skip(xs, ys, i as int);
            }
            return false;
        }
        assert(xs.take(i + 1) =~= xs.take(i as int).push(xs[i as int]));
        assert(ys.take(i + 1) =~= ys.take(i as int).push(ys[i as int]));
        i = i + 1;
    }
    proof {
        lemma_bytes_le_skip(xs, ys, i as int);
    }
    i == x.len()
}

/// Whether two strings hold the same characters.
pub fn str_eq(a: &str, b: &str) -> (r: bool)
    ensures
        r == (a@ == b@),
{
    let x = a.as_bytes();
    let y = b.as_bytes();
    proof {
        vstd::utf8::encode_utf8_decode_utf8(a@);
        vstd::utf8::encode_utf8_decode_utf8(b@);
    }
    if x.len() != y.len() {
        return false;
    }
    let mut i: usize = 0;
    while i < x.len()
        invariant
            x@ == utf8_of(a@),
            y@ == utf8_of(b@),
            x@.len() == y@.len(),
            0 <= i <= x@.len(),
            forall|j: int| 0 <= j < i ==> x@[j] == y@[j],
        decreases x@.len() - i,
    {
        if x[i] != y[i] {
            return false;
        }
        i = i + 1;
    }
    assert(x@ =~= y@);
    true
}

/// ASCII lowercase of one character: 'A' to 'Z' become 'a' to 'z', every
/// other character stays.
pub open spec fn ascii_lower(c: char) -> char {
    if 'A' <= c && c <= 'Z' {
        ((c as u32) + 32) as char
    } else {
        c
    }
}

/// ASCII lowercase of a string.
pub open spec fn ascii_lower_seq(s: Seq<char>) -> Seq<char> {
    s.map_values(|c: char| ascii_lower(c))
}

/// `String::push`: std documents that it appends the character to the end
/// of the string.
#[verifier::external_body]
pub fn push_char(s: &mut String, c: char)
    ensures
        final(s)@ == old(s)@.push(c),
{
    s.push(c)
}

/// Whether `needle` occurs in `haystack` as a contiguous part.
pub open spec fn seq_contains(haystack: Seq<char>, needle: Seq<char>) -> bool {
    exists|i: int|
        0 <= i && i + needle.len() <= haystack.len() && #[trigger] haystack.subrange(
            i,
            i + needle.len(),
        ) == needle
}

/// Whether `s` begins with `prefix`.
pub open spec fn seq_starts_with(s: Seq<char>, prefix: Seq<char>) -> bool {
    prefix.len() <= s.len() && s.subrange(0, prefix.len() as int) == prefix
}

/// `str::to_ascii_lowercase`: std documents that ASCII letters 'A' to 'Z'
/// become 'a' to 'z' and every other character stays as it is.
#[verifier::external_body]
pub fn to_ascii_lowercase(s: &str) -> (r: String)
    ensures
        r@ == ascii_lower_seq(s@),
{
    s.to_ascii_lowercase()
}

/// `str::contains` with a string pattern: std documents that it is true
/// when the pattern matches a sub-slice of the string.
#[verifier::external_body]
pub fn str_contains(haystack: &str, needle: &str) -> (r: bool)
    ensures
        r == seq_contains(haystack@, needle@),
{
    haystack.contains(needle)
}

/// `str::starts_with` with a string pattern: std documents that it is true
/// when the pattern matches a prefix of the string.
#[verifier::external_body]
pub fn str_starts_with(s: &str, prefix: &str) -> (r: bool)
    ensures
        r == seq_starts_with(s@, prefix@),
{
    s.starts_with(prefix)
}


/// The character of a decimal digit.
pub open spec fn digit_char(d: nat) -> char {
    if d == 0 {
        '0'
    } else if d == 1 {
        '1'
    } else if d == 2 {
        '2'
    } else if d == 3 {
        '3'
    } else if d == 4 {
        '4'
    } else if d == 5 {
        '5'
    } else if d == 6 {
        '6'
    } else if d == 7 {
        '7'
    } else if d == 8 {
        '8'
    } else {
        '9'
    }
}

/// The decimal digits of a number, most significant first, as `Display`
/// writes a number.
pub open spec fn decimal(n: nat) -> Seq<char>
    decreases n,
{
    if n < 10 {
        seq![digit_char(n)]
    } else {
        decimal(n / 10).push(digit_char(n % 10))
    }
}

fn digit_str(d: u64) -> (r: &'static str)
    requires
        d < 10,
    ensures
        r@ == seq![digit_char(d as nat)],
{
    proof {
        reveal_strlit("0");
        reveal_strlit("1");
        reveal_strlit("2");
        reveal_strlit("3");
        reveal_strlit("4");
        reveal_strlit("5");
        reveal_strlit("6");
        reveal_strlit("7");
        reveal_strlit("8");
        reveal_strlit("9");
    }
    match d {
        0 => "0",
        1 => "1",
        2 => "2",
        3 => "3",
        4 => "4",
        5 => "5",
        6 => "6",
        7 => "7",
        8 => "8",
        _ => "9",
    }
}

fn push_decimal(out: &mut String, n: u64)
    ensures
        final(out)@ == old(out)@ + decimal(n as nat),
    decreases n,
{
    if n >= 10 {
        push_decimal(out, n / 10);
    }
    out.append(digit_str(n % 10));
    proof {
        if n >= 10 {
            assert(old(out)@ + decimal(n as nat) =~= old(out)@ + decimal((n / 10) as nat) + seq![
                digit_char((n % 10) as nat),
            ]);
        }
    }
}

/// The decimal digits of a number, as `Display` writes it.
pub fn u64_to_string(n: u64) -> (r: String)
    ensures
        r@ == decimal(n as nat),
{
    let mut s = String::new();
    push_decimal(&mut s, n);
    assert(s@ =~= decimal(n as nat));
    s
}


/// A signed number as `Display` writes it: a minus sign before the digits
/// of a negative one.
pub open spec fn signed_decimal(n: int) -> Seq<char> {
    if n < 0 {
        seq!['-'] + decimal((-n) as nat)
    } else {
        decimal(n as nat)
    }
}

/// The decimal form of a signed number, as `Display` writes it.
pub fn i64_to_string(n: i64) -> (r: String)
    ensures
        r@ == signed_decimal(n as int),
{
    if n < 0 {
        let m: u64 = ((-(n + 1)) as u64) + 1;
        let mut s = String::new();
        proof {
            reveal_strlit("-");
        }
        s.append("-");
        push_decimal(&mut s, m);
        assert(s@ =~= signed_decimal(n as int));
        s
    } else {
        u64_to_string(n as u64)
    }
}

/// What `str::to_lowercase` gives for a string: its Unicode lowercase form.
pub uninterp spec fn std_to_lowercase(s: Seq<char>) -> Seq<char>;

/// `str::to_lowercase`; the result is the name `std_to_lowercase` of the
/// string. The Unicode case mapping it applies is not written out here.
#[verifier::external_body]
pub fn to_lowercase(s: &str) -> (r: String)
    ensures
        r@ == std_to_lowercase(s@),
{
    s.to_lowercase()
}

/// What `String::truncate(n)` leaves of a string: its first `n` bytes, or
/// the whole string when it is not longer.
pub open spec fn truncate_bytes_spec(s: Seq<char>, n: int) -> Seq<char> {
    if utf8_of(s).len() <= n {
        s
    } else {
        vstd::utf8::decode_utf8(utf8_of(s).subrange(0, n))
    }
}

/// `String::truncate(n)` does not panic: the string is not longer than `n`
/// bytes, or byte `n` starts a character.
pub open spec fn can_truncate(s: Seq<char>, n: int) -> bool {
    utf8_of(s).len() <= n || vstd::utf8::is_char_boundary(utf8_of(s), n)
}

/// The first `n` bytes of a string, as `String::truncate(n)` keeps them.
pub fn truncate_bytes(s: &str, n: usize) -> (r: String)
    requires
        can_truncate(s@, n as int),
    ensures
        r@ == truncate_bytes_spec(s@, n as int),
{
    if s.as_bytes().len() <= n {
        let r = s.to_owned();
        assert(utf8_of(s@).len() <= n);
        assert(r@ == s@);
        r
    } else {
        let (head, _tail) = s.split_at(n);
        proof {
            vstd::utf8::encode_utf8_decode_utf8(head@);
            assert(head.spec_bytes() == utf8_of(head@));
            assert(utf8_of(head@) =~= utf8_of(s@).subrange(0, n as int));
            assert(head@ == vstd::utf8::decode_utf8(utf8_of(head@)));
            assert(utf8_of(s@).len() > n);
        }
        let r = head.to_owned();
        assert(r@ == head@);
        assert(r@ == vstd::utf8::decode_utf8(utf8_of(s@).subrange(0, n as int)));
        r
    }
}

/// A string padded with spaces to at least `w` characters, as
/// `format!("{:w$}", s)` writes it.
pub open spec fn pad_spec(s: Seq<char>, w: int) -> Seq<char> {
    if s.len() >= w {
        s
    } else {
        s + Seq::new((w - s.len()) as nat, |i: int| ' ')
    }
}

/// Pad a string with spaces to at least `w` characters.
pub fn pad_to_width(s: String, w: usize) -> (r: String)
    ensures
        r@ == pad_spec(s@, w as int),
{
    let mut r = s;
    let ghost orig = r@;
    let mut count = r.as_str().unicode_len();
    proof {
        reveal_strlit(" ");
    }
    if count >= w {
        return r;
    }
    while count < w
        invariant
            count <= w,
            orig.len() <= count,
            count == r@.len(),
            r@ == orig + Seq::new((count - orig.len()) as nat, |i: int| ' '),
        decreases w - count,
    {
        let ghost before = r@;
        proof {
            reveal_strlit(" ");
        }
        r.append(" ");
        assert(" "@ =~= seq![' ']);
        assert(r@ =~= before.push(' '));
        count = count + 1;
        assert(r@ =~= orig + Seq::new((count - orig.len()) as nat, |i: int| ' '));
    }
    r
}


/// The encoding of joined strings is the joined encodings.
pub proof fn lemma_utf8_concat(a: Seq<char>, b: Seq<char>)
    ensures
        utf8_of(a + b) == utf8_of(a) + utf8_of(b),
    decreases a.len(),
{
    if a.len() > 0 {
        lemma_utf8_concat(a.drop_first(), b);
        assert((a + b).drop_first() =~= a.drop_first() + b);
        assert((a + b)[0] == a[0]);
        assert(utf8_of(a + b) =~= vstd::utf8::encode_scalar(a[0] as u32) + utf8_of(a.drop_first() + b));
        assert(utf8_of(a) =~= vstd::utf8::encode_scalar(a[0] as u32) + utf8_of(a.drop_first()));
    } else {
        assert(a + b =~= b);
    }
}

/// Cutting the last byte off a string that ends in an ASCII character
/// gives back the string before that character.
pub proof fn lemma_drop_ascii_char(s: Seq<char>, c: char)
    requires
        (c as u32) < 128,
    ensures
        can_truncate(s.push(c), utf8_of(s.push(c)).len() - 1),
        truncate_bytes_spec(s.push(c), utf8_of(s.push(c)).len() - 1) == s,
{
    let t = s.push(c);
    assert(t =~= s + seq![c]);
    lemma_utf8_concat(s, seq![c]);
    assert(vstd::utf8::is_ascii_chars(seq![c]));
    vstd::utf8::is_ascii_chars_encode_utf8(seq![c]);
    let bs = utf8_of(s);
    let bt = utf8_of(t);
    assert(bt.len() == bs.len() + 1);
    vstd::utf8::encode_utf8_valid_utf8(t);
    vstd::utf8::encode_utf8_valid_utf8(s);
    let last = bt[bs.len() as int];
    assert(last == c as u8);
    assert(!vstd::utf8::is_continuation_byte(last)) by (bit_vector)
        requires
            last < 128u8,
    ;
    vstd::utf8::is_char_boundary_iff_not_is_continuation_byte(bt, bs.len() as int);
    assert(bt.subrange(0, bs.len() as int) =~= bs);
    vstd::utf8::encode_utf8_decode_utf8(s);
}

} // verus!
