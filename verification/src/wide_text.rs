//! Text as the Win32 `W` functions take it: UTF-16 code units, and the
//! character classes the editor needs.
use vstd::prelude::*;

verus! {

/// The UTF-16 code units of one character: one unit below `U+10000`, else a
/// surrogate pair.
pub open spec fn utf16_of_char(c: char) -> Seq<u16> {
    let v = c as int;
    if v < 0x10000 {
        seq![v as u16]
    } else {
        seq![(0xD800 + (v - 0x10000) / 0x400) as u16, (0xDC00 + (v - 0x10000) % 0x400) as u16]
    }
}

/// The UTF-16 encoding of a character sequence.
pub open spec fn utf16_encode(s: Seq<char>) -> Seq<u16>
    decreases s.len(),
{
    if s.len() == 0 {
        seq![]
    } else {
        utf16_encode(s.drop_last()) + utf16_of_char(s.last())
    }
}

/// A character takes one or two code units.
pub proof fn lemma_utf16_len_bound(s: Seq<char>)
    ensures
        s.len() <= utf16_encode(s).len() <= 2 * s.len(),
    decreases s.len(),
{
    if s.len() > 0 {
        lemma_utf16_len_bound(s.drop_last());
    }
}

/// The little-endian bytes of a sequence of code units.
pub open spec fn le_bytes(units: Seq<u16>) -> Seq<u8>
    decreases units.len(),
{
    if units.len() == 0 {
        seq![]
    } else {
        le_bytes(units.drop_last()) + seq![
            (units.last() % 256) as u8,
            (units.last() / 256) as u8,
        ]
    }
}

/// Unicode `White_Space`, the class `char::is_whitespace` tests.
pub open spec fn spec_is_white_space(c: char) -> bool {
    let v = c as int;
    ||| 0x09 <= v <= 0x0D
    ||| v == 0x20
    ||| v == 0x85
    ||| v == 0xA0
    ||| v == 0x1680
    ||| 0x2000 <= v <= 0x200A
    ||| v == 0x2028
    ||| v == 0x2029
    ||| v == 0x202F
    ||| v == 0x205F
    ||| v == 0x3000
}

/// Whether `c` is white space (Unicode `White_Space`).
pub fn is_white_space(c: char) -> (r: bool)
    ensures
        r == spec_is_white_space(c),
{
    let v = c as u32;
    (0x09 <= v && v <= 0x0D) || v == 0x20 || v == 0x85 || v == 0xA0 || v == 0x1680 || (0x2000
        <= v && v <= 0x200A) || v == 0x2028 || v == 0x2029 || v == 0x202F || v == 0x205F || v
        == 0x3000
}

/// The number of UTF-16 code units of `c`.
fn utf16_units(c: char) -> (n: u32)
    ensures
        n == utf16_of_char(c).len(),
{
    if (c as u32) < 0x10000 {
        1
    } else {
        2
    }
}

/// Appends the UTF-16 code units of `c` to `out`.
fn push_utf16(c: char, out: &mut Vec<u16>)
    ensures
        final(out)@ == old(out)@ + utf16_of_char(c),
{
    let v = c as u32;
    if v < 0x10000 {
        out.push(v as u16);
    } else {
        let w = v - 0x10000;
        out.push((0xD800 + w / 0x400) as u16);
        out.push((0xDC00 + w % 0x400) as u16);
    }
}

/// Wraps `String::push`: appends one character.
#[verifier::external_body]
pub(crate) fn push_char(s: &mut String, c: char)
    ensures
        final(s)@ == old(s)@.push(c),
{
    s.push(c);
}

/// The characters of `s`, in order.
pub fn str_chars(s: &str) -> (v: Vec<char>)
    ensures
        v@ == s@,
{
    let mut v: Vec<char> = Vec::new();
    for ch in it: s.chars()
        invariant
            v@ == it.seq().take(it.index() as int),
    {
        v.push(ch);
    }
    v
}

/// The string made of the first `n` characters of `v`.
pub fn chars_to_string(v: &[char], n: usize) -> (s: String)
    requires
        n <= v@.len(),
    ensures
        s@ == v@.take(n as int),
{
    let mut s = String::new();
    let mut i: usize = 0;
    while i < n
        invariant
            i <= n <= v@.len(),
            s@ == v@.take(i as int),
        decreases n - i,
    {
        assert(v@.take(i + 1) == v@.take(i as int).push(v@[i as int]));
        push_char(&mut s, v[i]);
        i = i + 1;
    }
    s
}

/// The UTF-16 encoding of `s` followed by a terminating zero, as the `W`
/// functions take strings.
pub fn to_wide(s: &str) -> (wide: Vec<u16>)
    ensures
        wide@ == utf16_encode(s@).push(0u16),
{
    let chars = str_chars(s);
    let mut out: Vec<u16> = Vec::new();
    let mut i: usize = 0;
    while i < chars.len()
        invariant
            i <= chars@.len(),
            chars@ == s@,
            out@ == utf16_encode(chars@.take(i as int)),
        decreases chars@.len() - i,
    {
        assert(chars@.take(i + 1).drop_last() =~= chars@.take(i as int));
        push_utf16(chars[i], &mut out);
        i = i + 1;
    }
    assert(chars@.take(i as int) =~= s@);
    out.push(0);
    out
}

/// The number of UTF-16 code units of `s`, as a `u32` (modulo 2^32).
pub fn utf16_len(s: &str) -> (n: u32)
    ensures
        n as int == utf16_encode(s@).len() % 0x1_0000_0000,
{
    let chars = str_chars(s);
    let mut n: u32 = 0;
    let mut i: usize = 0;
    while i < chars.len()
        invariant
            i <= chars@.len(),
            chars@ == s@,
            n as int == utf16_encode(chars@.take(i as int)).len() % 0x1_0000_0000,
        decreases chars@.len() - i,
    {
        let ghost before: int = utf16_encode(chars@.take(i as int)).len() as int;
        let units = utf16_units(chars[i]);
        proof {
            let done = chars@.take(i + 1);
            assert(done.drop_last() =~= chars@.take(i as int));
            assert(done.last() == chars@[i as int]);
            assert(utf16_encode(done).len() == before + units);
        }
        let ghost prev = n;
        n = n.wrapping_add(units);
        proof {
            let m: int = 0x1_0000_0000;
            let q = before / m;
            vstd::arithmetic::div_mod::lemma_fundamental_div_mod(before, m);
            assert(before + units == m * q + (prev + units));
            if prev + units >= m {
                assert(before + units == m * (q + 1) + (prev + units - m)) by (nonlinear_arith)
                    requires
                        before + units == m * q + (prev + units),
                ;
                vstd::arithmetic::div_mod::lemma_mod_multiples_vanish(q + 1, prev + units - m, m);
                vstd::arithmetic::div_mod::lemma_small_mod((prev + units - m) as nat, m as nat);
            } else {
                vstd::arithmetic::div_mod::lemma_mod_multiples_vanish(q, prev + units, m);
                vstd::arithmetic::div_mod::lemma_small_mod((prev + units) as nat, m as nat);
            }
        }
        i = i + 1;
    }
    assert(chars@.take(i as int) =~= s@);
    n
}

/// The bytes of a registry string value (`REG_SZ`): the UTF-16 encoding of
/// `value` with its terminating zero, each unit little-endian.
pub fn registry_string_bytes(value: &str) -> (bytes: Vec<u8>)
    ensures
        bytes@ == le_bytes(utf16_encode(value@).push(0u16)),
{
    let wide = to_wide(value);
    let mut bytes: Vec<u8> = Vec::new();
    let mut i: usize = 0;
    while i < wide.len()
        invariant
            i <= wide@.len(),
            bytes@ == le_bytes(wide@.take(i as int)),
        decreases wide@.len() - i,
    {
        assert(wide@.take(i + 1).drop_last() =~= wide@.take(i as int));
        let w = wide[i];
        bytes.push((w % 256) as u8);
        bytes.push((w / 256) as u8);
        i = i + 1;
    }
    assert(wide@.take(i as int) =~= wide@);
    bytes
}

} // verus!
