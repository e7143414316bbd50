//! Positions in editor terms. The analyzer counts columns in characters;
//! the Language Server Protocol counts them in UTF-16 code units, and text
//! searches give byte offsets. These helpers turn both into UTF-16 units.

use vstd::prelude::*;
use crate::text::chars_of;

verus! {

/// UTF-16 code units of a character: two outside the Basic Multilingual
/// Plane, one inside it.
pub open spec fn utf16_width(c: char) -> nat {
    if (c as u32) >= 0x10000 {
        2
    } else {
        1
    }
}

/// UTF-8 bytes of a character.
pub open spec fn utf8_width(c: char) -> nat {
    if (c as u32) < 0x80 {
        1
    } else if (c as u32) < 0x800 {
        2
    } else if (c as u32) < 0x10000 {
        3
    } else {
        4
    }
}

/// UTF-16 code units of a text.
pub open spec fn utf16_units(s: Seq<char>) -> nat
    decreases s.len(),
{
    if s.len() == 0 {
        0
    } else {
        utf16_units(s.drop_last()) + utf16_width(s.last())
    }
}

/// UTF-8 bytes of a text.
pub open spec fn utf8_units(s: Seq<char>) -> nat
    decreases s.len(),
{
    if s.len() == 0 {
        0
    } else {
        utf8_units(s.drop_last()) + utf8_width(s.last())
    }
}

/// A prefix has no more UTF-16 units than the whole text.
pub proof fn lemma_utf16_prefix(s: Seq<char>, i: int)
    requires
        0 <= i <= s.len(),
    ensures
        utf16_units(s.subrange(0, i)) <= utf16_units(s),
    decreases s.len(),
{
    if i < s.len() {
        assert(s.drop_last().subrange(0, i) =~= s.subrange(0, i));
        lemma_utf16_prefix(s.drop_last(), i);
    } else {
        assert(s.subrange(0, i) =~= s);
    }
}

proof fn lemma_units_step(s: Seq<char>, i: int)
    requires
        0 <= i < s.len(),
    ensures
        utf16_units(s.subrange(0, i + 1)) == utf16_units(s.subrange(0, i)) + utf16_width(s[i]),
        utf8_units(s.subrange(0, i + 1)) == utf8_units(s.subrange(0, i)) + utf8_width(s[i]),
{
    assert(s.subrange(0, i + 1).drop_last() =~= s.subrange(0, i));
}

fn width16(c: char) -> (r: u32)
    ensures
        r == utf16_width(c),
{
    if (c as u32) >= 0x10000 {
        2
    } else {
        1
    }
}

fn width8(c: char) -> (r: usize)
    ensures
        r == utf8_width(c),
{
    let u = c as u32;
    if u < 0x80 {
        1
    } else if u < 0x800 {
        2
    } else if u < 0x10000 {
        3
    } else {
        4
    }
}

/// The UTF-16 units of the first `n` characters of `s`, when they fit in 32
/// bits.
pub fn utf16_units_upto(s: &[char], n: usize) -> (r: Option<u32>)
    requires
        n <= s@.len(),
    ensures
        r is Some <==> utf16_units(s@.subrange(0, n as int)) <= u32::MAX,
        r matches Some(u) ==> u == utf16_units(s@.subrange(0, n as int)),
{
    let ghost t = s@.subrange(0, n as int);
    let mut units: u64 = 0;
    let mut i: usize = 0;
    while i < n
        invariant
            n <= s@.len(),
            t == s@.subrange(0, n as int),
            i <= n,
            units == utf16_units(s@.subrange(0, i as int)),
            units <= u32::MAX,
        decreases n - i,
    {
        proof {
            lemma_units_step(s@, i as int);
        }
        units = units + width16(s[i]) as u64;
        i += 1;
        if units > 0xffff_ffff {
            proof {
                assert(t.subrange(0, i as int) =~= s@.subrange(0, i as int));
                lemma_utf16_prefix(t, i as int);
            }
            return None;
        }
    }
    assert(s@.subrange(0, i as int) =~= t);
    Some(units as u32)
}

/// UTF-16 code-unit length of a whole line.
pub fn utf16_len(line: &str) -> (r: u32)
    requires
        utf16_units(line@) <= u32::MAX,
    ensures
        r == utf16_units(line@),
{
    let cs = chars_of(line);
    let mut units: u32 = 0;
    let mut i: usize = 0;
    while i < cs.len()
        invariant
            cs@ == line@,
            utf16_units(line@) <= u32::MAX,
            i <= cs@.len(),
            units == utf16_units(cs@.subrange(0, i as int)),
        decreases cs.len() - i,
    {
        proof {
            lemma_units_step(cs@, i as int);
            lemma_utf16_prefix(cs@, i + 1);
        }
        units = units + width16(cs[i]);
        i += 1;
    }
    assert(cs@.subrange(0, i as int) =~= cs@);
    units
}

/// The UTF-16 offset of character offset `char_idx` in `line`: the units of
/// the characters before it; an offset past the end counts one unit for
/// each character it lies beyond the end.
pub open spec fn char_offset_units(line: Seq<char>, char_idx: nat) -> nat {
    if char_idx <= line.len() {
        utf16_units(line.subrange(0, char_idx as int))
    } else {
        utf16_units(line) + (char_idx - line.len()) as nat
    }
}

/// Converts a 0-indexed character offset within `line` into UTF-16 code
/// units.
pub fn char_to_utf16(line: &str, char_idx: usize) -> (r: u32)
    requires
        char_offset_units(line@, char_idx as nat) <= u32::MAX,
    ensures
        r == char_offset_units(line@, char_idx as nat),
{
    let cs = chars_of(line);
    let n = cs.len();
    let mut units: u32 = 0;
    let mut i: usize = 0;
    while i < n
        invariant
            cs@ == line@,
            n == cs@.len(),
            char_offset_units(line@, char_idx as nat) <= u32::MAX,
            i <= n,
            i <= char_idx,
            units == utf16_units(cs@.subrange(0, i as int)),
        decreases n - i,
    {
        if i >= char_idx {
            return units;
        }
        proof {
            lemma_units_step(cs@, i as int);
            if char_idx <= n {
                lemma_utf16_prefix(cs@.subrange(0, char_idx as int), i + 1);
                assert(cs@.subrange(0, char_idx as int).subrange(0, i + 1) =~= cs@.subrange(
                    0,
                    i + 1,
                ));
            } else {
                lemma_utf16_prefix(cs@, i + 1);
            }
        }
        units = units + width16(cs[i]);
        i += 1;
    }
    assert(cs@.subrange(0, i as int) =~= cs@);
    if char_idx == i {
        return units;
    }
    let extra = (char_idx - i) as u32;
    units + extra
}

/// The number of leading characters of `s`, from `k` on, whose UTF-8 bytes
/// fit in `b`.
pub open spec fn chars_within(s: Seq<char>, b: nat, k: int) -> int
    decreases s.len() - k,
{
    if k < 0 || k >= s.len() {
        s.len() as int
    } else if utf8_units(s.subrange(0, k + 1)) > b {
        k
    } else {
        chars_within(s, b, k + 1)
    }
}

/// The UTF-16 offset of byte offset `byte_idx` in `line`, rounded down to
/// the start of the character it falls in and clamped to the line's end.
pub open spec fn byte_offset_units(line: Seq<char>, byte_idx: nat) -> nat {
    utf16_units(line.subrange(0, chars_within(line, byte_idx, 0)))
}

proof fn lemma_chars_within(s: Seq<char>, b: nat, k: int)
    requires
        0 <= k <= s.len(),
    ensures
        k <= chars_within(s, b, k) <= s.len(),
    decreases s.len() - k,
{
    if k < s.len() && utf8_units(s.subrange(0, k + 1)) <= b {
        lemma_chars_within(s, b, k + 1);
    }
}

/// Converts a byte offset within `line` into UTF-16 code units, rounding an
/// offset inside a character down to its start.
pub fn byte_to_utf16(line: &str, byte_idx: usize) -> (r: u32)
    requires
        utf16_units(line@) <= u32::MAX,
    ensures
        r == byte_offset_units(line@, byte_idx as nat),
{
    let cs = chars_of(line);
    let n = cs.len();
    let mut units: u32 = 0;
    let mut bytes: usize = 0;
    let mut i: usize = 0;
    while i < n
        invariant
            cs@ == line@,
            n == cs@.len(),
            utf16_units(line@) <= u32::MAX,
            i <= n,
            bytes <= byte_idx,
            units == utf16_units(cs@.subrange(0, i as int)),
            bytes == utf8_units(cs@.subrange(0, i as int)),
            chars_within(cs@, byte_idx as nat, 0) == chars_within(cs@, byte_idx as nat, i as int),
        decreases n - i,
    {
        let w = width8(cs[i]);
        proof {
            lemma_units_step(cs@, i as int);
        }
        if w > byte_idx - bytes {
            return units;
        }
        proof {
            lemma_utf16_prefix(cs@, i + 1);
        }
        units = units + width16(cs[i]);
        bytes = bytes + w;
        i += 1;
    }
    assert(cs@.subrange(0, i as int) =~= cs@);
    units
}

/// A text has at least one and at most two UTF-16 units per character.
pub proof fn lemma_utf16_bounds(s: Seq<char>)
    ensures
        s.len() <= utf16_units(s) <= 2 * s.len(),
    decreases s.len(),
{
    if s.len() > 0 {
        lemma_utf16_bounds(s.drop_last());
    }
}

/// Every character of an ASCII text is one UTF-16 unit.
pub proof fn lemma_ascii_units(s: Seq<char>)
    requires
        forall|i: int| 0 <= i < s.len() ==> (#[trigger] s[i] as u32) < 0x80,
    ensures
        utf16_units(s) == s.len(),
        utf8_units(s) == s.len(),
    decreases s.len(),
{
    if s.len() > 0 {
        assert forall|i: int| 0 <= i < s.drop_last().len() implies (#[trigger] s.drop_last()[i] as u32)
            < 0x80 by {
            assert(s.drop_last()[i] == s[i]);
        }
        lemma_ascii_units(s.drop_last());
        assert((s[s.len() - 1] as u32) < 0x80);
    }
}

/// The character offset at the end of a line is the line's UTF-16 length.
pub proof fn lemma_char_offset_at_end(line: Seq<char>)
    ensures
        char_offset_units(line, line.len()) == utf16_units(line),
{
    assert(line.subrange(0, line.len() as int) =~= line);
}

proof fn lemma_chars_within_all(s: Seq<char>, b: nat, k: int)
    requires
        0 <= k <= s.len(),
        utf8_units(s) <= b,
    ensures
        chars_within(s, b, k) == s.len(),
    decreases s.len() - k,
{
    if k < s.len() {
        lemma_utf8_prefix(s, k + 1);
        lemma_chars_within_all(s, b, k + 1);
    }
}

proof fn lemma_utf8_prefix(s: Seq<char>, i: int)
    requires
        0 <= i <= s.len(),
    ensures
        utf8_units(s.subrange(0, i)) <= utf8_units(s),
    decreases s.len(),
{
    if i < s.len() {
        assert(s.drop_last().subrange(0, i) =~= s.subrange(0, i));
        lemma_utf8_prefix(s.drop_last(), i);
    } else {
        assert(s.subrange(0, i) =~= s);
    }
}

/// A byte offset at or past the end of a line gives the line's UTF-16
/// length.
pub proof fn lemma_byte_offset_past_end(line: Seq<char>, byte_idx: nat)
    requires
        utf8_units(line) <= byte_idx,
    ensures
        byte_offset_units(line, byte_idx) == utf16_units(line),
{
    lemma_chars_within_all(line, byte_idx, 0);
    assert(line.subrange(0, line.len() as int) =~= line);
}

} // verus!
