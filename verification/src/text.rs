//! Small string-building helpers with exact contracts.
use vstd::prelude::*;
use vstd::string::{StrSliceExecFns, StringExecFns};

verus! {

/// Calls `String::push`: appends one character.
#[verifier::external_body]
pub(crate) fn push_char(s: &mut String, c: char)
    ensures
        final(s)@ == old(s)@.push(c),
{
    s.push(c);
}

/// The ASCII digit for `d < 10`.
pub open spec fn digit_char(d: nat) -> char {
    (('0' as nat) + d) as char
}

/// The decimal spelling of `n`, without leading zeros.
pub open spec fn decimal(n: nat) -> Seq<char>
    decreases n,
{
    if n < 10 {
        seq![digit_char(n)]
    } else {
        decimal(n / 10).push(digit_char(n % 10))
    }
}

fn digit(d: u64) -> (c: char)
    requires
        d < 10,
    ensures
        c == digit_char(d as nat),
{
    let b: u8 = 48u8 + (d as u8);
    b as char
}

/// Appends the decimal spelling of `n` to `s`.
pub fn push_decimal(s: &mut String, n: u64)
    ensures
        final(s)@ == old(s)@ + decimal(n as nat),
    decreases n,
{
    if n < 10 {
        push_char(s, digit(n));
        assert(old(s)@.push(digit_char(n as nat)) =~= old(s)@ + decimal(n as nat));
    } else {
        push_decimal(s, n / 10);
        push_char(s, digit(n % 10));
        assert(old(s)@ + decimal(n as nat / 10) + seq![digit_char(n as nat % 10)] =~= old(s)@
            + decimal(n as nat));
    }
}

/// Appends the characters `cs[start..end]` to `s`.
pub fn push_chars(s: &mut String, cs: &Vec<char>, start: usize, end: usize)
    requires
        start <= end <= cs.len(),
    ensures
        final(s)@ == old(s)@ + cs@.subrange(start as int, end as int),
{
    let mut i = start;
    while i < end
        invariant
            start <= i <= end <= cs.len(),
            s@ == old(s)@ + cs@.subrange(start as int, i as int),
        decreases end - i,
    {
        push_char(s, cs[i]);
        assert(cs@.subrange(start as int, i + 1) =~= cs@.subrange(start as int, i as int).push(
            cs@[i as int],
        ));
        i += 1;
    }
}

/// Whether two strings hold the same characters.
pub fn str_equal(a: &str, b: &str) -> (r: bool)
    ensures
        r == (a@ == b@),
{
    let n = a.unicode_len();
    let m = b.unicode_len();
    if n != m {
        return false;
    }
    let mut i: usize = 0;
    while i < n
        invariant
            n == a@.len(),
            m == b@.len(),
            n == m,
            i <= n,
            forall|k: int| 0 <= k < i ==> a@[k] == b@[k],
        decreases n - i,
    {
        if a.get_char(i) != b.get_char(i) {
            return false;
        }
        i += 1;
    }
    assert(a@ =~= b@);
    true
}

/// The UTF-16 code units of one character.
pub open spec fn utf16_char(c: char) -> Seq<u16> {
    let u = c as nat;
    if u < 0x10000 {
        seq![u as u16]
    } else {
        let v = (u - 0x10000) as nat;
        seq![(0xD800 + v / 0x400) as u16, (0xDC00 + v % 0x400) as u16]
    }
}

/// The UTF-16 encoding of a character sequence.
pub open spec fn utf16_of(cs: Seq<char>) -> Seq<u16>
    decreases cs.len(),
{
    if cs.len() == 0 {
        Seq::empty()
    } else {
        utf16_of(cs.drop_last()) + utf16_char(cs.last())
    }
}

/// Appends the UTF-16 encoding of `s` to `out`.
pub fn push_utf16(out: &mut Vec<u16>, s: &str)
    ensures
        final(out)@ == old(out)@ + utf16_of(s@),
{
    let n = s.unicode_len();
    let mut i: usize = 0;
    while i < n
        invariant
            n == s@.len(),
            i <= n,
            out@ == old(out)@ + utf16_of(s@.take(i as int)),
        decreases n - i,
    {
        let c = s.get_char(i);
        let u = c as u32;
        assert(s@.take(i + 1).drop_last() =~= s@.take(i as int));
        let ghost before = out@;
        if u < 0x10000 {
            out.push(u as u16);
        } else {
            assert(u <= 0x10FFFF);
            let v = u - 0x10000;
            out.push((0xD800 + v / 0x400) as u16);
            out.push((0xDC00 + v % 0x400) as u16);
        }
        assert(out@ =~= before + utf16_char(c));
        assert(old(out)@ + utf16_of(s@.take(i + 1)) =~= old(out)@ + utf16_of(s@.take(i as int))
            + utf16_char(c));
        i += 1;
    }
    assert(s@.take(n as int) =~= s@);
}

/// The UTF-16 encoding of `s` followed by a terminating zero unit.
pub fn to_wide_nul(s: &str) -> (r: Vec<u16>)
    ensures
        r@ == utf16_of(s@).push(0),
{
    let mut r: Vec<u16> = Vec::new();
    push_utf16(&mut r, s);
    assert(r@ =~= utf16_of(s@));
    r.push(0);
    r
}

} // verus!
