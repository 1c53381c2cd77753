//! Text encodings used by the exporters: decimal timestamps and hex identifiers.

use vstd::prelude::*;

verus! {

/// Appends one character to a string (`String::push`).
#[verifier::external_body]
pub(crate) fn push_char(s: &mut String, c: char)
    ensures
        final(s)@ == old(s)@.push(c),
{
    s.push(c);
}

/// The ASCII digit for a value below ten.
pub open spec fn decimal_digit(d: nat) -> char {
    ((48 + d) as u8) as char
}

/// Base-ten rendering of a natural number, most significant digit first, no leading zeros.
pub open spec fn decimal(n: nat) -> Seq<char>
    decreases n,
{
    if n < 10 {
        seq![decimal_digit(n)]
    } else {
        decimal(n / 10).push(decimal_digit(n % 10))
    }
}

/// Appends the decimal rendering of `n` to `buf`.
pub fn push_decimal(buf: &mut String, n: u128)
    ensures
        final(buf)@ == old(buf)@ + decimal(n as nat),
    decreases n,
{
    if n >= 10 {
        push_decimal(buf, n / 10);
    }
    let d: u8 = (n % 10) as u8;
    push_char(buf, (48u8 + d) as char);
    proof {
        assert(decimal(n as nat) == (if n < 10 { Seq::<char>::empty() } else { decimal((n / 10) as nat) }).push(decimal_digit((n % 10) as nat)));
    }
}


/// Text of a timestamp given in nanoseconds relative to the Unix epoch: the decimal
/// count of nanoseconds since the epoch, where instants before the epoch count as zero.
pub open spec fn nanos_text(t: i128) -> Seq<char> {
    if t < 0 {
        decimal(0)
    } else {
        decimal(t as nat)
    }
}

/// Renders a timestamp (nanoseconds relative to the Unix epoch) as decimal nanoseconds
/// since the epoch; instants before the epoch render as `"0"`.
pub fn system_time_to_nanos(time: i128) -> (r: String)
    ensures
        r@ == nanos_text(time),
{
    let mut buf = String::new();
    if time < 0 {
        push_decimal(&mut buf, 0);
    } else {
        push_decimal(&mut buf, time as u128);
    }
    assert(buf@ == nanos_text(time));
    buf
}

/// The lowercase hexadecimal digit for a value below sixteen.
pub open spec fn hex_digit(d: nat) -> char {
    if d < 10 {
        ((48 + d) as u8) as char
    } else {
        ((87 + d) as u8) as char
    }
}

/// Two lowercase hex digits for one byte, high nibble first.
pub open spec fn hex_byte(b: u8) -> Seq<char> {
    seq![hex_digit((b / 16) as nat), hex_digit((b % 16) as nat)]
}

/// Lowercase hex encoding of a byte string, two digits per byte.
pub open spec fn hex_of(bytes: Seq<u8>) -> Seq<char>
    decreases bytes.len(),
{
    if bytes.len() == 0 {
        Seq::empty()
    } else {
        hex_of(bytes.drop_last()) + hex_byte(bytes.last())
    }
}

/// A character is a lowercase hexadecimal digit.
pub open spec fn is_lower_hex_char(c: char) -> bool {
    ('0' <= c && c <= '9') || ('a' <= c && c <= 'f')
}

/// `s` is made of `n` bytes written as lowercase hex: `2 * n` lowercase hex digits.
pub open spec fn is_hex_id(s: Seq<char>, n: nat) -> bool {
    exists|bytes: Seq<u8>| bytes.len() == n && s == #[trigger] hex_of(bytes)
}

pub proof fn lemma_hex_of_shape(bytes: Seq<u8>)
    ensures
        hex_of(bytes).len() == 2 * bytes.len(),
        forall|i: int| 0 <= i < hex_of(bytes).len() ==> is_lower_hex_char(#[trigger] hex_of(bytes)[i]),
    decreases bytes.len(),
{
    if bytes.len() > 0 {
        lemma_hex_of_shape(bytes.drop_last());
        let b = bytes.last();
        assert(b / 16 < 16 && b % 16 < 16);
        let prev = hex_of(bytes.drop_last());
        let tail = hex_byte(b);
        assert forall|i: int| 0 <= i < hex_of(bytes).len() implies is_lower_hex_char(#[trigger] hex_of(bytes)[i]) by {
            if i < prev.len() {
                assert(hex_of(bytes)[i] == prev[i]);
            } else {
                assert(hex_of(bytes)[i] == tail[i - prev.len()]);
            }
        }
    }
}

/// Appends the two lowercase hex digits of `byte` (the `{:02x}` format).
pub fn push_hex_byte(buf: &mut String, byte: u8)
    ensures
        final(buf)@ == old(buf)@ + hex_byte(byte),
{
    let hi: u8 = byte / 16;
    let lo: u8 = byte % 16;
    let c_hi = if hi < 10 { (48u8 + hi) as char } else { (87u8 + hi) as char };
    let c_lo = if lo < 10 { (48u8 + lo) as char } else { (87u8 + lo) as char };
    push_char(buf, c_hi);
    push_char(buf, c_lo);
    assert(final(buf)@ =~= old(buf)@ + hex_byte(byte)) by {
        assert(buf@ == old(buf)@.push(c_hi).push(c_lo));
    }
}

/// `s` with every trailing `'/'` removed (`str::trim_end_matches('/')`).
pub open spec fn trim_trailing_slashes(s: Seq<char>) -> Seq<char>
    decreases s.len(),
{
    if s.len() > 0 && s.last() == '/' {
        trim_trailing_slashes(s.drop_last())
    } else {
        s
    }
}

proof fn lemma_trim_prefix(s: Seq<char>, k: int)
    requires
        0 <= k <= s.len(),
        forall|j: int| k <= j < s.len() ==> s[j] == '/',
    ensures
        trim_trailing_slashes(s) == trim_trailing_slashes(s.subrange(0, k)),
    decreases s.len() - k,
{
    if k < s.len() {
        assert(s.last() == '/');
        assert(s.drop_last().subrange(0, k) =~= s.subrange(0, k));
        lemma_trim_prefix(s.drop_last(), k);
    } else {
        assert(s.subrange(0, k) =~= s);
    }
}

/// Removes every trailing `'/'` from `s`.
pub fn trim_end_slashes(s: &str) -> (r: String)
    ensures
        r@ == trim_trailing_slashes(s@),
{
    let n = s.unicode_len();
    let mut k: usize = n;
    while k > 0 && s.get_char(k - 1) == '/'
        invariant
            n == s@.len(),
            k <= n,
            forall|j: int| k <= j < n ==> s@[j] == '/',
        decreases k,
    {
        k = k - 1;
    }
    proof {
        lemma_trim_prefix(s@, k as int);
        let p = s@.subrange(0, k as int);
        if k > 0 {
            assert(p.last() == s@[k - 1]);
        }
        assert(trim_trailing_slashes(p) == p);
    }
    s.substring_char(0, k).to_owned()
}

} // verus!
