//! The NTLMv2 key schedule: UTF-16 encoding, case folding, NTOWFv2, the
//! NTv2 responses, and the per-direction signing and sealing keys.

use vstd::prelude::*;

use crate::encryption::{compute_md4, compute_md5, hmac_md5, md4_of, md5_of, spec_hmac_md5};

verus! {

/// The uppercase folding of a character sequence. The folding depends on
/// the characters alone; it is pinned by the `to_upper` wrapper.
pub uninterp spec fn upper_of(s: Seq<char>) -> Seq<char>;

/// Relies on `str::to_uppercase`: the Unicode uppercase of the string,
/// a function of its characters alone.
#[verifier::external_body]
pub(crate) fn to_upper(s: &str) -> (r: String)
    ensures
        r@ == upper_of(s@),
{
    s.to_uppercase()
}

/// The UTF-16 code units of one character: itself below 0x10000, else the
/// surrogate pair.
pub open spec fn spec_char_utf16(c: char) -> Seq<u16> {
    let v = c as u32;
    if v < 0x10000 {
        seq![v as u16]
    } else {
        seq![
            (0xD800 + (v - 0x10000) / 0x400) as u16,
            (0xDC00 + (v - 0x10000) % 0x400) as u16,
        ]
    }
}

/// The UTF-16 code units of a character sequence.
pub open spec fn spec_utf16_code_units(s: Seq<char>) -> Seq<u16>
    decreases s.len(),
{
    if s.len() == 0 {
        Seq::empty()
    } else {
        spec_char_utf16(s[0]) + spec_utf16_code_units(s.skip(1))
    }
}

/// Code units laid out as little-endian byte pairs.
pub open spec fn spec_units_le(u: Seq<u16>) -> Seq<u8> {
    Seq::new(
        2 * u.len(),
        |i: int|
            if i % 2 == 0 {
                (u[i / 2] % 256) as u8
            } else {
                (u[i / 2] / 256) as u8
            },
    )
}

/// The UTF-16LE bytes of a character sequence, as NTLM hashes strings.
pub open spec fn spec_utf16le(s: Seq<char>) -> Seq<u8> {
    spec_units_le(spec_utf16_code_units(s))
}

/// One character more: the code units of a prefix grow by the character's
/// own units.
proof fn lemma_utf16_units_snoc(s: Seq<char>, i: int)
    requires
        0 <= i < s.len(),
    ensures
        spec_utf16_code_units(s.take(i + 1)) == spec_utf16_code_units(s.take(i))
            + spec_char_utf16(s[i]),
    decreases i,
{
    if i == 0 {
        assert(s.take(1)[0] == s[0]);
        assert(s.take(1).skip(1) =~= Seq::<char>::empty());
        assert(s.take(0) =~= Seq::<char>::empty());
        assert(spec_utf16_code_units(s.take(1)) =~= spec_utf16_code_units(s.take(0))
            + spec_char_utf16(s[0]));
    } else {
        lemma_utf16_units_snoc(s.skip(1), i - 1);
        assert(s.take(i + 1)[0] == s[0]);
        assert(s.take(i)[0] == s[0]);
        assert(s.take(i + 1).skip(1) =~= s.skip(1).take(i));
        assert(s.take(i).skip(1) =~= s.skip(1).take(i - 1));
        assert(s.skip(1)[i - 1] == s[i]);
        assert(spec_utf16_code_units(s.take(i + 1)) =~= spec_utf16_code_units(s.take(i))
            + spec_char_utf16(s[i]));
    }
}

/// Encodes a string as UTF-16LE bytes: each character below 0x10000 is one
/// code unit, the rest become surrogate pairs.
pub fn utf16le_bytes(s: &str) -> (r: Vec<u8>)
    ensures
        r@ == spec_utf16le(s@),
{
    let n = vstd::string::StrSliceExecFns::unicode_len(s);
    let mut units: Vec<u16> = Vec::new();
    let mut i: usize = 0;
    while i < n
        invariant
            i <= n == s@.len(),
            units@ == spec_utf16_code_units(s@.take(i as int)),
        decreases n - i,
    {
        let c = vstd::string::StrSliceExecFns::get_char(s, i);
        let v: u32 = c as u32;
        if v < 0x10000 {
            units.push(v as u16);
        } else {
            units.push((0xD800 + (v - 0x10000) / 0x400) as u16);
            units.push((0xDC00 + (v - 0x10000) % 0x400) as u16);
        }
        proof {
            lemma_utf16_units_snoc(s@, i as int);
            assert(units@ =~= spec_utf16_code_units(s@.take(i + 1)));
        }
        i = i + 1;
    }
    proof {
        assert(s@.take(s@.len() as int) =~= s@);
    }
    let mut out: Vec<u8> = Vec::new();
    let mut i: usize = 0;
    while i < units.len()
        invariant
            i <= units@.len(),
            out@.len() == 2 * i,
            forall|t: int| 0 <= t < 2 * i ==> out@[t] == spec_units_le(units@)[t],
        decreases units@.len() - i,
    {
        let u = units[i];
        out.push((u % 256) as u8);
        out.push((u / 256) as u8);
        i = i + 1;
    }
    assert(out@ =~= spec_units_le(units@));
    out
}

/// NTOWFv2: the HMAC-MD5, under the MD4 of the UTF-16LE password, of the
/// UTF-16LE uppercase user name followed by the domain.
pub open spec fn spec_ntowf_v2(
    password: Seq<char>,
    username: Seq<char>,
    domain: Seq<char>,
) -> Seq<u8> {
    spec_hmac_md5(md4_of(spec_utf16le(password)), spec_utf16le(upper_of(username)) + spec_utf16le(
        domain,
    ))
}

/// Computes NTOWFv2 for an account.
pub fn ntowf_v2(password: &str, username: &str, domain: &str) -> (r: Vec<u8>)
    ensures
        r@ == spec_ntowf_v2(password@, username@, domain@),
        r@.len() == crate::encryption::HASH_SIZE,
{
    let pw = utf16le_bytes(password);
    let key = compute_md4(pw.as_slice());
    let upper = to_upper(username);
    let mut salt = utf16le_bytes(upper.as_str());
    let dom = utf16le_bytes(domain);
    crate::buffer::push_bytes(&mut salt, dom.as_slice());
    hmac_md5(key.as_slice(), salt.as_slice())
}

/// The NTv2 temp blob: the fixed header, the timestamp, the client
/// challenge, a reserved word, the target info copied verbatim, and a
/// trailing reserved word.
pub open spec fn spec_nt_v2_temp(
    timestamp: u64,
    client_challenge: Seq<u8>,
    target_info: Seq<u8>,
) -> Seq<u8> {
    seq![1u8, 1u8, 0u8, 0u8, 0u8, 0u8, 0u8, 0u8] + vstd::bytes::spec_u64_to_le_bytes(timestamp)
        + client_challenge + seq![0u8, 0u8, 0u8, 0u8] + target_info + seq![0u8, 0u8, 0u8, 0u8]
}

/// The NTv2 proof: the HMAC-MD5 of the server challenge and the temp blob
/// under NTOWFv2.
pub open spec fn spec_nt_v2_proof(ntowf: Seq<u8>, server_challenge: Seq<u8>, temp: Seq<u8>) -> Seq<
    u8,
> {
    spec_hmac_md5(ntowf, server_challenge + temp)
}

/// Builds the NTv2 temp blob.
pub fn nt_v2_temp(timestamp: u64, client_challenge: &[u8], target_info: &[u8]) -> (r: Vec<u8>)
    ensures
        r@ == spec_nt_v2_temp(timestamp, client_challenge@, target_info@),
        r@.len() == 24 + client_challenge@.len() + target_info@.len(),
{
    proof {
        vstd::bytes::lemma_auto_spec_u64_to_from_le_bytes();
    }
    let mut out: Vec<u8> = vec![1u8, 1u8, 0u8, 0u8, 0u8, 0u8, 0u8, 0u8];
    let ts = vstd::bytes::u64_to_le_bytes(timestamp);
    crate::buffer::push_bytes(&mut out, ts.as_slice());
    crate::buffer::push_bytes(&mut out, client_challenge);
    let mut reserved: Vec<u8> = vec![0u8, 0u8, 0u8, 0u8];
    crate::buffer::push_bytes(&mut out, reserved.as_slice());
    crate::buffer::push_bytes(&mut out, target_info);
    crate::buffer::push_bytes(&mut out, reserved.as_slice());
    assert(out@ =~= spec_nt_v2_temp(timestamp, client_challenge@, target_info@));
    out
}

/// Computes the NTv2 proof over a built temp blob.
pub fn nt_v2_proof(ntowf: &[u8], server_challenge: &[u8], temp: &[u8]) -> (r: Vec<u8>)
    ensures
        r@ == spec_nt_v2_proof(ntowf@, server_challenge@, temp@),
        r@.len() == crate::encryption::HASH_SIZE,
{
    let mut data: Vec<u8> = Vec::new();
    crate::buffer::push_bytes(&mut data, server_challenge);
    crate::buffer::push_bytes(&mut data, temp);
    hmac_md5(ntowf, data.as_slice())
}

/// The LMv2 response: the HMAC-MD5 of both challenges under NTOWFv2,
/// followed by the client challenge.
pub open spec fn spec_lm_v2_response(
    ntowf: Seq<u8>,
    server_challenge: Seq<u8>,
    client_challenge: Seq<u8>,
) -> Seq<u8> {
    spec_hmac_md5(ntowf, server_challenge + client_challenge) + client_challenge
}

/// Computes the LMv2 response.
pub fn lm_v2_response(ntowf: &[u8], server_challenge: &[u8], client_challenge: &[u8]) -> (r: Vec<
    u8,
>)
    ensures
        r@ == spec_lm_v2_response(ntowf@, server_challenge@, client_challenge@),
        r@.len() == 16 + client_challenge@.len(),
{
    let mut data: Vec<u8> = Vec::new();
    crate::buffer::push_bytes(&mut data, server_challenge);
    crate::buffer::push_bytes(&mut data, client_challenge);
    let mut r = hmac_md5(ntowf, data.as_slice());
    crate::buffer::push_bytes(&mut r, client_challenge);
    r
}

/// The session base key: the HMAC-MD5 of the NTv2 proof under NTOWFv2.
/// Under NTLMv2 it is also the key-exchange key.
pub open spec fn spec_session_base_key(ntowf: Seq<u8>, proof: Seq<u8>) -> Seq<u8> {
    spec_hmac_md5(ntowf, proof)
}

/// Computes the session base key.
pub fn session_base_key(ntowf: &[u8], proof: &[u8]) -> (r: Vec<u8>)
    ensures
        r@ == spec_session_base_key(ntowf@, proof@),
        r@.len() == crate::encryption::HASH_SIZE,
{
    hmac_md5(ntowf, proof)
}

/// The magic constant folded into the client-to-server signing key.
pub open spec fn spec_client_signing_magic() -> Seq<u8> {
    seq![
        0x73u8, 0x65u8, 0x73u8, 0x73u8, 0x69u8, 0x6Fu8, 0x6Eu8, 0x20u8, 0x6Bu8, 0x65u8, 0x79u8,
        0x20u8, 0x74u8, 0x6Fu8, 0x20u8, 0x63u8, 0x6Cu8, 0x69u8, 0x65u8, 0x6Eu8, 0x74u8, 0x2Du8,
        0x74u8, 0x6Fu8, 0x2Du8, 0x73u8, 0x65u8, 0x72u8, 0x76u8, 0x65u8, 0x72u8, 0x20u8, 0x73u8,
        0x69u8, 0x67u8, 0x6Eu8, 0x69u8, 0x6Eu8, 0x67u8, 0x20u8, 0x6Bu8, 0x65u8, 0x79u8, 0x20u8,
        0x6Du8, 0x61u8, 0x67u8, 0x69u8, 0x63u8, 0x20u8, 0x63u8, 0x6Fu8, 0x6Eu8, 0x73u8, 0x74u8,
        0x61u8, 0x6Eu8, 0x74u8, 0x00u8,
    ]
}

/// The magic constant folded into the server-to-client signing key.
pub open spec fn spec_server_signing_magic() -> Seq<u8> {
    seq![
        0x73u8, 0x65u8, 0x73u8, 0x73u8, 0x69u8, 0x6Fu8, 0x6Eu8, 0x20u8, 0x6Bu8, 0x65u8, 0x79u8,
        0x20u8, 0x74u8, 0x6Fu8, 0x20u8, 0x73u8, 0x65u8, 0x72u8, 0x76u8, 0x65u8, 0x72u8, 0x2Du8,
        0x74u8, 0x6Fu8, 0x2Du8, 0x63u8, 0x6Cu8, 0x69u8, 0x65u8, 0x6Eu8, 0x74u8, 0x20u8, 0x73u8,
        0x69u8, 0x67u8, 0x6Eu8, 0x69u8, 0x6Eu8, 0x67u8, 0x20u8, 0x6Bu8, 0x65u8, 0x79u8, 0x20u8,
        0x6Du8, 0x61u8, 0x67u8, 0x69u8, 0x63u8, 0x20u8, 0x63u8, 0x6Fu8, 0x6Eu8, 0x73u8, 0x74u8,
        0x61u8, 0x6Eu8, 0x74u8, 0x00u8,
    ]
}

/// The magic constant folded into the client-to-server sealing key.
pub open spec fn spec_client_sealing_magic() -> Seq<u8> {
    seq![
        0x73u8, 0x65u8, 0x73u8, 0x73u8, 0x69u8, 0x6Fu8, 0x6Eu8, 0x20u8, 0x6Bu8, 0x65u8, 0x79u8,
        0x20u8, 0x74u8, 0x6Fu8, 0x20u8, 0x63u8, 0x6Cu8, 0x69u8, 0x65u8, 0x6Eu8, 0x74u8, 0x2Du8,
        0x74u8, 0x6Fu8, 0x2Du8, 0x73u8, 0x65u8, 0x72u8, 0x76u8, 0x65u8, 0x72u8, 0x20u8, 0x73u8,
        0x65u8, 0x61u8, 0x6Cu8, 0x69u8, 0x6Eu8, 0x67u8, 0x20u8, 0x6Bu8, 0x65u8, 0x79u8, 0x20u8,
        0x6Du8, 0x61u8, 0x67u8, 0x69u8, 0x63u8, 0x20u8, 0x63u8, 0x6Fu8, 0x6Eu8, 0x73u8, 0x74u8,
        0x61u8, 0x6Eu8, 0x74u8, 0x00u8,
    ]
}

/// The magic constant folded into the server-to-client sealing key.
pub open spec fn spec_server_sealing_magic() -> Seq<u8> {
    seq![
        0x73u8, 0x65u8, 0x73u8, 0x73u8, 0x69u8, 0x6Fu8, 0x6Eu8, 0x20u8, 0x6Bu8, 0x65u8, 0x79u8,
        0x20u8, 0x74u8, 0x6Fu8, 0x20u8, 0x73u8, 0x65u8, 0x72u8, 0x76u8, 0x65u8, 0x72u8, 0x2Du8,
        0x74u8, 0x6Fu8, 0x2Du8, 0x63u8, 0x6Cu8, 0x69u8, 0x65u8, 0x6Eu8, 0x74u8, 0x20u8, 0x73u8,
        0x65u8, 0x61u8, 0x6Cu8, 0x69u8, 0x6Eu8, 0x67u8, 0x20u8, 0x6Bu8, 0x65u8, 0x79u8, 0x20u8,
        0x6Du8, 0x61u8, 0x67u8, 0x69u8, 0x63u8, 0x20u8, 0x63u8, 0x6Fu8, 0x6Eu8, 0x73u8, 0x74u8,
        0x61u8, 0x6Eu8, 0x74u8, 0x00u8,
    ]
}

/// A derived key: the MD5 of the exported session key followed by the
/// direction's magic constant.
pub open spec fn spec_derived_key(exported: Seq<u8>, magic: Seq<u8>) -> Seq<u8> {
    md5_of(exported + magic)
}

/// Derives one directional key from the exported session key and a magic
/// constant.
pub fn derive_key(exported: &[u8], magic: &[u8]) -> (r: Vec<u8>)
    ensures
        r@ == spec_derived_key(exported@, magic@),
        r@.len() == crate::encryption::HASH_SIZE,
{
    let mut data: Vec<u8> = Vec::new();
    crate::buffer::push_bytes(&mut data, exported);
    crate::buffer::push_bytes(&mut data, magic);
    compute_md5(data.as_slice())
}

/// Builds the client-to-server signing magic.
pub fn client_signing_magic() -> (r: Vec<u8>)
    ensures
        r@ == spec_client_signing_magic(),
{
    let v: Vec<u8> = vec![
        0x73u8, 0x65, 0x73, 0x73, 0x69, 0x6F, 0x6E, 0x20, 0x6B, 0x65, 0x79, 0x20, 0x74, 0x6F,
        0x20, 0x63, 0x6C, 0x69, 0x65, 0x6E, 0x74, 0x2D, 0x74, 0x6F, 0x2D, 0x73, 0x65, 0x72, 0x76,
        0x65, 0x72, 0x20, 0x73, 0x69, 0x67, 0x6E, 0x69, 0x6E, 0x67, 0x20, 0x6B, 0x65, 0x79, 0x20,
        0x6D, 0x61, 0x67, 0x69, 0x63, 0x20, 0x63, 0x6F, 0x6E, 0x73, 0x74, 0x61, 0x6E, 0x74, 0x00,
    ];
    assert(v@ =~= spec_client_signing_magic());
    v
}

/// Builds the server-to-client signing magic.
pub fn server_signing_magic() -> (r: Vec<u8>)
    ensures
        r@ == spec_server_signing_magic(),
{
    let v: Vec<u8> = vec![
        0x73u8, 0x65, 0x73, 0x73, 0x69, 0x6F, 0x6E, 0x20, 0x6B, 0x65, 0x79, 0x20, 0x74, 0x6F,
        0x20, 0x73, 0x65, 0x72, 0x76, 0x65, 0x72, 0x2D, 0x74, 0x6F, 0x2D, 0x63, 0x6C, 0x69, 0x65,
        0x6E, 0x74, 0x20, 0x73, 0x69, 0x67, 0x6E, 0x69, 0x6E, 0x67, 0x20, 0x6B, 0x65, 0x79, 0x20,
        0x6D, 0x61, 0x67, 0x69, 0x63, 0x20, 0x63, 0x6F, 0x6E, 0x73, 0x74, 0x61, 0x6E, 0x74, 0x00,
    ];
    assert(v@ =~= spec_server_signing_magic());
    v
}

/// Builds the client-to-server sealing magic.
pub fn client_sealing_magic() -> (r: Vec<u8>)
    ensures
        r@ == spec_client_sealing_magic(),
{
    let v: Vec<u8> = vec![
        0x73u8, 0x65, 0x73, 0x73, 0x69, 0x6F, 0x6E, 0x20, 0x6B, 0x65, 0x79, 0x20, 0x74, 0x6F,
        0x20, 0x63, 0x6C, 0x69, 0x65, 0x6E, 0x74, 0x2D, 0x74, 0x6F, 0x2D, 0x73, 0x65, 0x72, 0x76,
        0x65, 0x72, 0x20, 0x73, 0x65, 0x61, 0x6C, 0x69, 0x6E, 0x67, 0x20, 0x6B, 0x65, 0x79, 0x20,
        0x6D, 0x61, 0x67, 0x69, 0x63, 0x20, 0x63, 0x6F, 0x6E, 0x73, 0x74, 0x61, 0x6E, 0x74, 0x00,
    ];
    assert(v@ =~= spec_client_sealing_magic());
    v
}

/// Builds the server-to-client sealing magic.
pub fn server_sealing_magic() -> (r: Vec<u8>)
    ensures
        r@ == spec_server_sealing_magic(),
{
    let v: Vec<u8> = vec![
        0x73u8, 0x65, 0x73, 0x73, 0x69, 0x6F, 0x6E, 0x20, 0x6B, 0x65, 0x79, 0x20, 0x74, 0x6F,
        0x20, 0x73, 0x65, 0x72, 0x76, 0x65, 0x72, 0x2D, 0x74, 0x6F, 0x2D, 0x63, 0x6C, 0x69, 0x65,
        0x6E, 0x74, 0x20, 0x73, 0x65, 0x61, 0x6C, 0x69, 0x6E, 0x67, 0x20, 0x6B, 0x65, 0x79, 0x20,
        0x6D, 0x61, 0x67, 0x69, 0x63, 0x20, 0x63, 0x6F, 0x6E, 0x73, 0x74, 0x61, 0x6E, 0x74, 0x00,
    ];
    assert(v@ =~= spec_server_sealing_magic());
    v
}

/// Relies on `std::time::SystemTime`: the seconds since the Unix epoch at
/// the moment of the call. Nothing is promised of the value.
#[verifier::external_body]
fn unix_seconds() -> u64 {
    match std::time::SystemTime::now().duration_since(std::time::UNIX_EPOCH) {
        Ok(d) => d.as_secs(),
        Err(_) => 0,
    }
}

/// The current time as a Windows FILETIME (100-nanosecond units since
/// 1601), saturating rather than wrapping on any out-of-range clock.
pub fn current_filetime() -> u64 {
    let secs = unix_seconds();
    match secs.checked_add(11644473600) {
        Some(s) => match s.checked_mul(10000000) {
            Some(ft) => ft,
            None => u64::MAX,
        },
        None => u64::MAX,
    }
}

} // verus!
