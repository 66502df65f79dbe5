//! Byte-level text helpers shared by the 8.3 name forms: upper-casing,
//! space-trimming and assembling display strings from stored name bytes.

use vstd::prelude::*;

verus! {

/// The space byte used to pad 8.3 name fields.
pub const PAD: u8 = 32;

/// Upper-case mapping of one byte: ASCII lower-case letters are folded,
/// every other byte is kept.
pub open spec fn spec_to_upper(b: u8) -> u8 {
    if 97 <= b <= 122 {
        (b - 32) as u8
    } else {
        b
    }
}

/// `s` with every byte upper-cased.
pub open spec fn spec_upper_bytes(s: Seq<u8>) -> Seq<u8> {
    s.map_values(|b: u8| spec_to_upper(b))
}

/// `s` truncated to its first `n` bytes and space-padded to exactly `n`.
pub open spec fn spec_pad_field(s: Seq<u8>, n: int) -> Seq<u8> {
    Seq::new(n as nat, |i: int| if i < s.len() { s[i] } else { PAD })
}

/// Length of `s` once trailing spaces are dropped.
pub open spec fn spec_trim_end_len(s: Seq<u8>) -> int
    decreases s.len(),
{
    if s.len() == 0 {
        0
    } else if s[s.len() - 1] == PAD {
        spec_trim_end_len(s.drop_last())
    } else {
        s.len() as int
    }
}

/// Number of leading spaces of `s`.
pub open spec fn spec_trim_start_len(s: Seq<u8>) -> int
    decreases s.len(),
{
    if s.len() == 0 {
        0
    } else if s[0] == PAD {
        1 + spec_trim_start_len(s.drop_first())
    } else {
        0
    }
}

/// `s` without its trailing spaces.
pub open spec fn spec_trim_end(s: Seq<u8>) -> Seq<u8> {
    s.take(spec_trim_end_len(s))
}

/// `s` without its leading and trailing spaces.
pub open spec fn spec_trim(s: Seq<u8>) -> Seq<u8> {
    spec_trim_end(s).skip(spec_trim_start_len(spec_trim_end(s)))
}

/// The byte sequence seen as text, one character per byte.
pub open spec fn spec_chars_of_bytes(s: Seq<u8>) -> Seq<char> {
    s.map_values(|b: u8| b as char)
}

/// Upper-case one byte, folding ASCII lower-case letters only.
pub fn to_upper(b: u8) -> (r: u8)
    ensures
        r == spec_to_upper(b),
{
    if b >= 97 && b <= 122 {
        b - 32
    } else {
        b
    }
}

/// Relies on `String::push`: appends the given character to the string.
#[verifier::external_body]
pub(crate) fn push_char(s: &mut String, c: char)
    ensures
        final(s)@ == old(s)@.push(c),
{
    s.push(c);
}

/// Bounds of spec_trim_end_len: it never exceeds the length.
pub proof fn lemma_trim_end_len_bounds(s: Seq<u8>)
    ensures
        0 <= spec_trim_end_len(s) <= s.len(),
    decreases s.len(),
{
    if s.len() > 0 && s[s.len() - 1] == PAD {
        lemma_trim_end_len_bounds(s.drop_last());
    }
}

/// Bounds of spec_trim_start_len: it never exceeds the length.
pub proof fn lemma_trim_start_len_bounds(s: Seq<u8>)
    ensures
        0 <= spec_trim_start_len(s) <= s.len(),
    decreases s.len(),
{
    if s.len() > 0 && s[0] == PAD {
        lemma_trim_start_len_bounds(s.drop_first());
    }
}

/// Index just past the last non-space byte of the window `s[from..to]`.
pub fn trim_end_in(s: &[u8], from: usize, to: usize) -> (r: usize)
    requires
        from <= to <= s@.len(),
    ensures
        from <= r <= to,
        r - from == spec_trim_end_len(s@.subrange(from as int, to as int)),
{
    let mut e: usize = to;
    while e > from && s[e - 1] == PAD
        invariant
            from <= e <= to <= s@.len(),
            spec_trim_end_len(s@.subrange(from as int, to as int)) == spec_trim_end_len(
                s@.subrange(from as int, e as int),
            ),
        decreases e,
    {
        proof {
            assert(s@.subrange(from as int, e as int).drop_last() =~= s@.subrange(
                from as int,
                e - 1,
            ));
        }
        e = e - 1;
    }
    proof {
        lemma_trim_end_len_bounds(s@.subrange(from as int, to as int));
    }
    e
}

/// Index of the first non-space byte of the window `s[from..to]`.
pub fn trim_start_in(s: &[u8], from: usize, to: usize) -> (r: usize)
    requires
        from <= to <= s@.len(),
    ensures
        from <= r <= to,
        r - from == spec_trim_start_len(s@.subrange(from as int, to as int)),
{
    let mut b: usize = from;
    while b < to && s[b] == PAD
        invariant
            from <= b <= to <= s@.len(),
            spec_trim_start_len(s@.subrange(from as int, to as int)) == (b - from)
                + spec_trim_start_len(s@.subrange(b as int, to as int)),
        decreases to - b,
    {
        proof {
            assert(s@.subrange(b as int, to as int).drop_first() =~= s@.subrange(
                b + 1,
                to as int,
            ));
        }
        b = b + 1;
    }
    proof {
        lemma_trim_start_len_bounds(s@.subrange(from as int, to as int));
    }
    b
}

/// Append the bytes of the window `s[from..to]` to `dst`, one character per
/// byte.
pub fn push_bytes_as_chars(dst: &mut String, s: &[u8], from: usize, to: usize)
    requires
        from <= to <= s@.len(),
    ensures
        final(dst)@ == old(dst)@ + spec_chars_of_bytes(s@.subrange(from as int, to as int)),
{
    let mut i: usize = from;
    while i < to
        invariant
            from <= i <= to <= s@.len(),
            dst@ == old(dst)@ + spec_chars_of_bytes(s@.subrange(from as int, i as int)),
        decreases to - i,
    {
        push_char(dst, s[i] as char);
        proof {
            assert(old(dst)@ + spec_chars_of_bytes(s@.subrange(from as int, i as int)).push(
                s@[i as int] as char,
            ) =~= old(dst)@ + spec_chars_of_bytes(s@.subrange(from as int, i + 1)));
        }
        i = i + 1;
    }
    proof {
        assert(dst@ =~= old(dst)@ + spec_chars_of_bytes(s@.subrange(from as int, to as int)));
    }
}

} // verus!
