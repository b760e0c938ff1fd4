//! Small byte-buffer helpers shared by the codecs: appending slices,
//! prefix tests, newline search, and ASCII text conversion.

use vstd::prelude::*;

verus! {

/// True when every byte is an ASCII code (below 0x80).
pub open spec fn all_ascii(s: Seq<u8>) -> bool {
    forall|i: int| 0 <= i < s.len() ==> s[i] < 0x80
}

/// The characters whose codes are the given bytes (meaningful for ASCII).
pub open spec fn ascii_seq(s: Seq<u8>) -> Seq<char> {
    s.map_values(|b: u8| b as char)
}

/// True when `s` begins with the bytes of `p`.
pub open spec fn starts_with(s: Seq<u8>, p: Seq<u8>) -> bool {
    s.len() >= p.len() && s.subrange(0, p.len() as int) == p
}

/// The index of the first line feed at or after `from`, if any.
pub open spec fn spec_find_nl(s: Seq<u8>, from: int) -> Option<int>
    decreases s.len() - from,
{
    if from < 0 || from >= s.len() {
        None
    } else if s[from] == 0x0A {
        Some(from)
    } else {
        spec_find_nl(s, from + 1)
    }
}

/// `spec_find_nl` finds exactly the first line feed at or after `from`.
pub proof fn lemma_find_nl_characterization(s: Seq<u8>, from: int)
    requires
        0 <= from <= s.len(),
    ensures
        match spec_find_nl(s, from) {
            Some(k) => from <= k < s.len() && s[k] == 0x0A && (forall|i: int|
                from <= i < k ==> s[i] != 0x0A),
            None => forall|i: int| from <= i < s.len() ==> s[i] != 0x0A,
        },
    decreases s.len() - from,
{
    if from < s.len() && s[from] != 0x0A {
        lemma_find_nl_characterization(s, from + 1);
    }
}

/// Appends every byte of `s` to `out`.
pub fn push_bytes(out: &mut Vec<u8>, s: &[u8])
    ensures
        final(out)@ == old(out)@ + s@,
{
    let mut i: usize = 0;
    while i < s.len()
        invariant
            i <= s@.len(),
            out@ == old(out)@ + s@.subrange(0, i as int),
        decreases s@.len() - i,
    {
        out.push(s[i]);
        i = i + 1;
        assert(s@.subrange(0, i as int) =~= s@.subrange(0, i - 1) + seq![s@[i - 1]]);
    }
    assert(s@.subrange(0, s@.len() as int) =~= s@);
}

/// Executable prefix test mirroring `starts_with`.
pub fn slice_starts_with(s: &[u8], p: &[u8]) -> (r: bool)
    ensures
        r == starts_with(s@, p@),
{
    if s.len() < p.len() {
        assert(!starts_with(s@, p@));
        return false;
    }
    let mut i: usize = 0;
    while i < p.len()
        invariant
            i <= p@.len() <= s@.len(),
            forall|j: int| 0 <= j < i ==> s@[j] == p@[j],
        decreases p@.len() - i,
    {
        if s[i] != p[i] {
            assert(s@.subrange(0, p@.len() as int)[i as int] != p@[i as int]);
            return false;
        }
        i = i + 1;
    }
    assert(s@.subrange(0, p@.len() as int) =~= p@);
    true
}

/// Executable search mirroring `spec_find_nl`.
pub fn find_nl(s: &[u8], from: usize) -> (r: Option<usize>)
    requires
        from <= s@.len(),
    ensures
        match r {
            Some(k) => spec_find_nl(s@, from as int) == Some(k as int),
            None => spec_find_nl(s@, from as int) is None,
        },
{
    let mut i: usize = from;
    while i < s.len()
        invariant
            from <= i <= s@.len(),
            spec_find_nl(s@, from as int) == spec_find_nl(s@, i as int),
        decreases s@.len() - i,
    {
        if s[i] == 0x0A {
            return Some(i);
        }
        i = i + 1;
    }
    None
}

/// Executable test mirroring `all_ascii`.
pub fn check_all_ascii(s: &[u8]) -> (r: bool)
    ensures
        r == all_ascii(s@),
{
    let mut i: usize = 0;
    while i < s.len()
        invariant
            i <= s@.len(),
            forall|j: int| 0 <= j < i ==> s@[j] < 0x80,
        decreases s@.len() - i,
    {
        if s[i] >= 0x80 {
            return false;
        }
        i = i + 1;
    }
    true
}

/// Relies on `String::from_utf8`: ASCII bytes are valid UTF-8 and decode to
/// the characters with the same codes, so the conversion never fails here.
#[verifier::external_body]
pub(crate) fn ascii_bytes_to_string(b: Vec<u8>) -> (r: String)
    requires
        all_ascii(b@),
    ensures
        r@ == ascii_seq(b@),
{
    String::from_utf8(b).unwrap_or_default()
}

} // verus!
