//! Byte-exact encode and decode of the three NTLM messages. Every message
//! opens with the 8-byte `NTLMSSP\0` signature and a 32-bit type; variable
//! fields are length/maxlen/offset descriptors whose payloads live after
//! the fixed part. Decoding accepts any non-overlapping layout; encoding
//! emits the canonical fields-then-payloads layout.

use vstd::prelude::*;
use vstd::bytes::{
    spec_u16_from_le_bytes, spec_u16_to_le_bytes, spec_u32_from_le_bytes, spec_u32_to_le_bytes,
    spec_u64_from_le_bytes, spec_u64_to_le_bytes, u16_from_le_bytes, u16_to_le_bytes,
    u32_from_le_bytes, u32_to_le_bytes, u64_from_le_bytes, u64_to_le_bytes,
};
use vstd::slice::{slice_subrange, slice_to_vec};

use crate::buffer::push_bytes;
use crate::sspi::SspiError;

verus! {

/// The negotiate-flags bit asking for session-key exchange.
pub const NEGOTIATE_KEY_EXCHANGE: u32 = 0x40000000;
/// The flags this provider negotiates: 56- and 128-bit keys, key exchange,
/// extended session security, always-sign, NTLM, request-target, sign,
/// seal, and Unicode.
pub const NEGOTIATE_FLAGS: u32 = 0xE0088235;

/// Offset of the MIC inside an AUTHENTICATE message, when present.
pub const MIC_OFFSET: usize = 64;

/// The 8-byte message signature `NTLMSSP\0`.
pub open spec fn spec_ntlm_signature() -> Seq<u8> {
    seq![0x4Eu8, 0x54u8, 0x4Cu8, 0x4Du8, 0x53u8, 0x53u8, 0x50u8, 0x00u8]
}

/// Builds the message signature.
pub fn ntlm_signature() -> (r: Vec<u8>)
    ensures
        r@ == spec_ntlm_signature(),
{
    let v: Vec<u8> = vec![0x4Eu8, 0x54, 0x4C, 0x4D, 0x53, 0x53, 0x50, 0x00];
    assert(v@ =~= spec_ntlm_signature());
    v
}

/// A field descriptor: length, maximum length (written equal to the
/// length), and offset from the start of the message.
pub open spec fn spec_field(len: u16, offset: u32) -> Seq<u8> {
    spec_u16_to_le_bytes(len) + spec_u16_to_le_bytes(len) + spec_u32_to_le_bytes(offset)
}

/// Appends one field descriptor.
fn write_field(out: &mut Vec<u8>, len: u16, offset: u32)
    ensures
        final(out)@ == old(out)@ + spec_field(len, offset),
{
    let l = u16_to_le_bytes(len);
    push_bytes(out, l.as_slice());
    push_bytes(out, l.as_slice());
    let o = u32_to_le_bytes(offset);
    push_bytes(out, o.as_slice());
    assert(final(out)@ =~= old(out)@ + spec_field(len, offset));
}

/// The length and offset a descriptor at `pos` holds.
pub open spec fn spec_read_field(s: Seq<u8>, pos: int) -> (u16, u32)
    recommends
        0 <= pos && pos + 8 <= s.len(),
{
    (
        spec_u16_from_le_bytes(s.subrange(pos, pos + 2)),
        spec_u32_from_le_bytes(s.subrange(pos + 4, pos + 8)),
    )
}

/// Reads the length and offset of the descriptor at `pos`.
fn read_field(s: &[u8], pos: usize) -> (r: (u16, u32))
    requires
        pos + 8 <= s@.len(),
    ensures
        r == spec_read_field(s@, pos as int),
{
    let n = s.len();
    assert(pos + 8 <= n);
    let len = u16_from_le_bytes(slice_subrange(s, pos, pos + 2));
    let off = u32_from_le_bytes(slice_subrange(s, pos + 4, pos + 8));
    (len, off)
}

/// A NEGOTIATE message: signature, type 1, flags, and two empty
/// descriptors for the workstation domain and name.
pub open spec fn spec_negotiate_message(flags: u32) -> Seq<u8> {
    spec_ntlm_signature() + spec_u32_to_le_bytes(1) + spec_u32_to_le_bytes(flags) + spec_field(
        0,
        32,
    ) + spec_field(0, 32)
}

/// Writes a NEGOTIATE message.
pub fn write_negotiate_message(flags: u32) -> (r: Vec<u8>)
    ensures
        r@ == spec_negotiate_message(flags),
{
    let mut out = ntlm_signature();
    let t = u32_to_le_bytes(1);
    push_bytes(&mut out, t.as_slice());
    let f = u32_to_le_bytes(flags);
    push_bytes(&mut out, f.as_slice());
    write_field(&mut out, 0, 32);
    write_field(&mut out, 0, 32);
    assert(out@ =~= spec_negotiate_message(flags));
    out
}

/// Parsing a NEGOTIATE message: at least 32 bytes, the signature, type 1;
/// the result is the flags the client offered.
pub open spec fn spec_parse_negotiate(s: Seq<u8>) -> Result<u32, SspiError> {
    if s.len() < 32 {
        Err(SspiError::InvalidToken)
    } else if s.subrange(0, 8) != spec_ntlm_signature() {
        Err(SspiError::InvalidToken)
    } else if spec_u32_from_le_bytes(s.subrange(8, 12)) != 1 {
        Err(SspiError::InvalidToken)
    } else {
        Ok(spec_u32_from_le_bytes(s.subrange(12, 16)))
    }
}

/// Parses a NEGOTIATE message into the offered flags.
pub fn read_negotiate_message(s: &[u8]) -> (r: Result<u32, SspiError>)
    ensures
        r == spec_parse_negotiate(s@),
{
    if s.len() < 32 {
        return Err(SspiError::InvalidToken);
    }
    let sig = ntlm_signature();
    if !crate::buffer::slice_starts_with(s, sig.as_slice()) {
        assert(s@.subrange(0, 8) != spec_ntlm_signature());
        return Err(SspiError::InvalidToken);
    }
    assert(s@.subrange(0, 8) == spec_ntlm_signature());
    let mtype = u32_from_le_bytes(slice_subrange(s, 8, 12));
    if mtype != 1 {
        return Err(SspiError::InvalidToken);
    }
    Ok(u32_from_le_bytes(slice_subrange(s, 12, 16)))
}

/// A CHALLENGE message with an empty target name: signature, type 2, the
/// empty target-name descriptor, flags, the server challenge, a reserved
/// word, the target-info descriptor, then the target info.
pub open spec fn spec_challenge_message(flags: u32, challenge: Seq<u8>, target_info: Seq<u8>) -> Seq<
    u8,
>
    recommends
        challenge.len() == 8,
        target_info.len() <= 0xFFFF,
{
    spec_ntlm_signature() + spec_u32_to_le_bytes(2) + spec_field(0, 48) + spec_u32_to_le_bytes(
        flags,
    ) + challenge + seq![0u8, 0u8, 0u8, 0u8, 0u8, 0u8, 0u8, 0u8] + spec_field(
        target_info.len() as u16,
        48,
    ) + target_info
}

/// Writes a CHALLENGE message.
pub fn write_challenge_message(flags: u32, challenge: &[u8], target_info: &[u8]) -> (r: Vec<u8>)
    requires
        challenge@.len() == 8,
        target_info@.len() <= 0xFFFF,
    ensures
        r@ == spec_challenge_message(flags, challenge@, target_info@),
{
    let mut out = ntlm_signature();
    let t = u32_to_le_bytes(2);
    push_bytes(&mut out, t.as_slice());
    write_field(&mut out, 0, 48);
    let f = u32_to_le_bytes(flags);
    push_bytes(&mut out, f.as_slice());
    push_bytes(&mut out, challenge);
    let reserved: Vec<u8> = vec![0u8, 0u8, 0u8, 0u8, 0u8, 0u8, 0u8, 0u8];
    push_bytes(&mut out, reserved.as_slice());
    write_field(&mut out, target_info.len() as u16, 48);
    push_bytes(&mut out, target_info);
    assert(out@ =~= spec_challenge_message(flags, challenge@, target_info@));
    out
}

/// Parsing a CHALLENGE message: at least 48 bytes, the signature, type 2;
/// the target info must lie inside the message and leave room for the
/// response fields it will be copied into. The result is the flags, the
/// 8-byte server challenge, and the target info bytes.
pub open spec fn spec_parse_challenge(s: Seq<u8>) -> Result<(u32, Seq<u8>, Seq<u8>), SspiError> {
    if s.len() < 48 {
        Err(SspiError::InvalidToken)
    } else if s.subrange(0, 8) != spec_ntlm_signature() {
        Err(SspiError::InvalidToken)
    } else if spec_u32_from_le_bytes(s.subrange(8, 12)) != 2 {
        Err(SspiError::InvalidToken)
    } else {
        let flags = spec_u32_from_le_bytes(s.subrange(20, 24));
        let challenge = s.subrange(24, 32);
        let (ti_len, ti_off) = spec_read_field(s, 40);
        if ti_off + ti_len > s.len() || ti_len > 0xF000 {
            Err(SspiError::InvalidToken)
        } else {
            Ok((flags, challenge, s.subrange(ti_off as int, ti_off + ti_len)))
        }
    }
}

/// Parses a CHALLENGE message into flags, server challenge, target info.
pub fn read_challenge_message(s: &[u8]) -> (r: Result<(u32, Vec<u8>, Vec<u8>), SspiError>)
    ensures
        match r {
            Ok((flags, challenge, ti)) => spec_parse_challenge(s@) == Ok::<_, SspiError>(
                (flags, challenge@, ti@),
            ) && challenge@.len() == 8 && ti@.len() <= 0xF000,
            Err(e) => spec_parse_challenge(s@) == Err::<(u32, Seq<u8>, Seq<u8>), _>(e),
        },
{
    if s.len() < 48 {
        return Err(SspiError::InvalidToken);
    }
    let sig = ntlm_signature();
    if !crate::buffer::slice_starts_with(s, sig.as_slice()) {
        assert(s@.subrange(0, 8) != spec_ntlm_signature());
        return Err(SspiError::InvalidToken);
    }
    assert(s@.subrange(0, 8) == spec_ntlm_signature());
    let mtype = u32_from_le_bytes(slice_subrange(s, 8, 12));
    if mtype != 2 {
        return Err(SspiError::InvalidToken);
    }
    let flags = u32_from_le_bytes(slice_subrange(s, 20, 24));
    let challenge = slice_to_vec(slice_subrange(s, 24, 32));
    let (ti_len, ti_off) = read_field(s, 40);
    if ti_off as usize > s.len() || ti_len as usize > s.len() - ti_off as usize || ti_len > 0xF000 {
        return Err(SspiError::InvalidToken);
    }
    let ti = slice_to_vec(slice_subrange(s, ti_off as usize, ti_off as usize + ti_len as usize));
    Ok((flags, challenge, ti))
}

/// The timestamp attribute-value pair followed by the list terminator:
/// the target info this provider's challenges carry.
pub open spec fn spec_timestamp_target_info(timestamp: u64) -> Seq<u8> {
    spec_u16_to_le_bytes(7) + spec_u16_to_le_bytes(8) + spec_u64_to_le_bytes(timestamp)
        + spec_u16_to_le_bytes(0) + spec_u16_to_le_bytes(0)
}

/// Builds the timestamp-only target info.
pub fn timestamp_target_info(timestamp: u64) -> (r: Vec<u8>)
    ensures
        r@ == spec_timestamp_target_info(timestamp),
        r@.len() == 16,
{
    proof {
        vstd::bytes::lemma_auto_spec_u64_to_from_le_bytes();
    }
    let mut out: Vec<u8> = Vec::new();
    let id = u16_to_le_bytes(7);
    push_bytes(&mut out, id.as_slice());
    let l = u16_to_le_bytes(8);
    push_bytes(&mut out, l.as_slice());
    let ts = u64_to_le_bytes(timestamp);
    push_bytes(&mut out, ts.as_slice());
    let z = u16_to_le_bytes(0);
    push_bytes(&mut out, z.as_slice());
    push_bytes(&mut out, z.as_slice());
    assert(out@ =~= spec_timestamp_target_info(timestamp));
    out
}

/// The timestamp attribute of a target-info list read from position `pos`
/// on, if the list carries one before its terminator.
pub open spec fn spec_find_av_timestamp(ti: Seq<u8>, pos: int) -> Option<u64>
    decreases ti.len() - pos,
{
    if pos < 0 || pos + 4 > ti.len() {
        None
    } else {
        let id = spec_u16_from_le_bytes(ti.subrange(pos, pos + 2));
        let len = spec_u16_from_le_bytes(ti.subrange(pos + 2, pos + 4));
        if id == 0 {
            None
        } else if pos + 4 + len > ti.len() {
            None
        } else if id == 7 && len >= 8 {
            Some(spec_u64_from_le_bytes(ti.subrange(pos + 4, pos + 12)))
        } else {
            spec_find_av_timestamp(ti, pos + 4 + len)
        }
    }
}

/// Finds the timestamp attribute of a target-info list, if any.
pub fn find_av_timestamp(ti: &[u8]) -> (r: Option<u64>)
    ensures
        r == spec_find_av_timestamp(ti@, 0),
{
    let mut pos: usize = 0;
    loop
        invariant
            pos <= ti@.len() + 4,
            spec_find_av_timestamp(ti@, 0) == spec_find_av_timestamp(ti@, pos as int),
        decreases ti@.len() + 4 - pos,
    {
        if pos > ti.len() || ti.len() - pos < 4 {
            return None;
        }
        let id = u16_from_le_bytes(slice_subrange(ti, pos, pos + 2));
        let len = u16_from_le_bytes(slice_subrange(ti, pos + 2, pos + 4));
        if id == 0 {
            return None;
        }
        if len as usize > ti.len() - pos - 4 {
            return None;
        }
        if id == 7 && len >= 8 {
            return Some(u64_from_le_bytes(slice_subrange(ti, pos + 4, pos + 12)));
        }
        pos = pos + 4 + len as usize;
    }
}

/// An AUTHENTICATE message in the canonical layout: signature, type 3, six
/// field descriptors, flags, the 16-byte MIC at offset 64, then the
/// payloads in field order.
pub open spec fn spec_authenticate_message(
    flags: u32,
    lm: Seq<u8>,
    nt: Seq<u8>,
    domain: Seq<u8>,
    user: Seq<u8>,
    workstation: Seq<u8>,
    key: Seq<u8>,
    mic: Seq<u8>,
) -> Seq<u8>
    recommends
        mic.len() == 16,
        lm.len() <= 0xFFFF,
        nt.len() <= 0xFFFF,
        domain.len() <= 0xFFFF,
        user.len() <= 0xFFFF,
        workstation.len() <= 0xFFFF,
        key.len() <= 0xFFFF,
{
    let lm_off: int = 80;
    let nt_off = lm_off + lm.len();
    let dom_off = nt_off + nt.len();
    let user_off = dom_off + domain.len();
    let ws_off = user_off + user.len();
    let key_off = ws_off + workstation.len();
    spec_ntlm_signature() + spec_u32_to_le_bytes(3) + spec_field(lm.len() as u16, lm_off as u32)
        + spec_field(nt.len() as u16, nt_off as u32) + spec_field(
        domain.len() as u16,
        dom_off as u32,
    ) + spec_field(user.len() as u16, user_off as u32) + spec_field(
        workstation.len() as u16,
        ws_off as u32,
    ) + spec_field(key.len() as u16, key_off as u32) + spec_u32_to_le_bytes(flags) + mic + lm + nt
        + domain + user + workstation + key
}

/// Writes an AUTHENTICATE message in the canonical layout.
pub fn write_authenticate_message(
    flags: u32,
    lm: &[u8],
    nt: &[u8],
    domain: &[u8],
    user: &[u8],
    workstation: &[u8],
    key: &[u8],
    mic: &[u8],
) -> (r: Vec<u8>)
    requires
        mic@.len() == 16,
        lm@.len() <= 0xFFFF,
        nt@.len() <= 0xFFFF,
        domain@.len() <= 0xFFFF,
        user@.len() <= 0xFFFF,
        workstation@.len() <= 0xFFFF,
        key@.len() <= 0xFFFF,
        80 + lm@.len() + nt@.len() + domain@.len() + user@.len() + workstation@.len()
            + key@.len() <= 0xFFFFFFFF,
    ensures
        r@ == spec_authenticate_message(
            flags,
            lm@,
            nt@,
            domain@,
            user@,
            workstation@,
            key@,
            mic@,
        ),
        r@.len() == 80 + lm@.len() + nt@.len() + domain@.len() + user@.len() + workstation@.len()
            + key@.len(),
{
    proof {
        vstd::bytes::lemma_auto_spec_u16_to_from_le_bytes();
        vstd::bytes::lemma_auto_spec_u32_to_from_le_bytes();
    }
    let lm_off: u32 = 80;
    let nt_off: u32 = lm_off + lm.len() as u32;
    let dom_off: u32 = nt_off + nt.len() as u32;
    let user_off: u32 = dom_off + domain.len() as u32;
    let ws_off: u32 = user_off + user.len() as u32;
    let key_off: u32 = ws_off + workstation.len() as u32;
    let mut out = ntlm_signature();
    let t = u32_to_le_bytes(3);
    push_bytes(&mut out, t.as_slice());
    write_field(&mut out, lm.len() as u16, lm_off);
    write_field(&mut out, nt.len() as u16, nt_off);
    write_field(&mut out, domain.len() as u16, dom_off);
    write_field(&mut out, user.len() as u16, user_off);
    write_field(&mut out, workstation.len() as u16, ws_off);
    write_field(&mut out, key.len() as u16, key_off);
    let f = u32_to_le_bytes(flags);
    push_bytes(&mut out, f.as_slice());
    push_bytes(&mut out, mic);
    push_bytes(&mut out, lm);
    push_bytes(&mut out, nt);
    push_bytes(&mut out, domain);
    push_bytes(&mut out, user);
    push_bytes(&mut out, workstation);
    push_bytes(&mut out, key);
    assert(out@ =~= spec_authenticate_message(
        flags,
        lm@,
        nt@,
        domain@,
        user@,
        workstation@,
        key@,
        mic@,
    ));
    out
}

/// The parts of a parsed AUTHENTICATE message.
pub struct AuthenticateParse {
    pub flags: u32,
    pub lm: Vec<u8>,
    pub nt: Vec<u8>,
    pub domain: Vec<u8>,
    pub user: Vec<u8>,
    pub workstation: Vec<u8>,
    pub encrypted_key: Option<Vec<u8>>,
    pub mic: Option<Vec<u8>>,
}

/// The mathematical shape of a parsed AUTHENTICATE message.
pub struct AuthenticateParseSpec {
    pub flags: u32,
    pub lm: Seq<u8>,
    pub nt: Seq<u8>,
    pub domain: Seq<u8>,
    pub user: Seq<u8>,
    pub workstation: Seq<u8>,
    pub encrypted_key: Option<Seq<u8>>,
    pub mic: Option<Seq<u8>>,
}

impl View for AuthenticateParse {
    type V = AuthenticateParseSpec;

    open spec fn view(&self) -> AuthenticateParseSpec {
        AuthenticateParseSpec {
            flags: self.flags,
            lm: self.lm@,
            nt: self.nt@,
            domain: self.domain@,
            user: self.user@,
            workstation: self.workstation@,
            encrypted_key: match &self.encrypted_key {
                Some(k) => Some(k@),
                None => None,
            },
            mic: match &self.mic {
                Some(m) => Some(m@),
                None => None,
            },
        }
    }
}

/// The lowest offset any non-empty field points at, or the message length
/// when every field is empty: payloads start there, so a MIC is present
/// exactly when this leaves the 16 bytes at offset 64 free.
pub open spec fn spec_min_payload_offset(s: Seq<u8>) -> int
    recommends
        s.len() >= 64,
{
    let f0 = spec_read_field(s, 12);
    let f1 = spec_read_field(s, 20);
    let f2 = spec_read_field(s, 28);
    let f3 = spec_read_field(s, 36);
    let f4 = spec_read_field(s, 44);
    let f5 = spec_read_field(s, 52);
    let m0 = if f0.0 > 0 {
        f0.1 as int
    } else {
        s.len() as int
    };
    let m1 = if f1.0 > 0 && f1.1 < m0 {
        f1.1 as int
    } else {
        m0
    };
    let m2 = if f2.0 > 0 && f2.1 < m1 {
        f2.1 as int
    } else {
        m1
    };
    let m3 = if f3.0 > 0 && f3.1 < m2 {
        f3.1 as int
    } else {
        m2
    };
    let m4 = if f4.0 > 0 && f4.1 < m3 {
        f4.1 as int
    } else {
        m3
    };
    if f5.0 > 0 && f5.1 < m4 {
        f5.1 as int
    } else {
        m4
    }
}

/// One field of an AUTHENTICATE message lies inside it.
pub open spec fn spec_field_in_bounds(s: Seq<u8>, pos: int) -> bool {
    spec_read_field(s, pos).1 + spec_read_field(s, pos).0 <= s.len()
}

/// The bytes one field of an AUTHENTICATE message points at.
pub open spec fn spec_field_bytes(s: Seq<u8>, pos: int) -> Seq<u8> {
    let (len, off) = spec_read_field(s, pos);
    s.subrange(off as int, off + len)
}

/// Parsing an AUTHENTICATE message: at least 64 bytes, the signature,
/// type 3, every field inside the message, an NT response long enough to
/// hold the proof and the temp header, and — when key exchange was
/// negotiated — a 16-byte encrypted session key. The MIC is present
/// exactly when the payloads leave its region free.
pub open spec fn spec_parse_authenticate(s: Seq<u8>) -> Result<AuthenticateParseSpec, SspiError> {
    if s.len() < 64 {
        Err(SspiError::InvalidToken)
    } else if s.subrange(0, 8) != spec_ntlm_signature() {
        Err(SspiError::InvalidToken)
    } else if spec_u32_from_le_bytes(s.subrange(8, 12)) != 3 {
        Err(SspiError::InvalidToken)
    } else if !(spec_field_in_bounds(s, 12) && spec_field_in_bounds(s, 20) && spec_field_in_bounds(
        s,
        28,
    ) && spec_field_in_bounds(s, 36) && spec_field_in_bounds(s, 44) && spec_field_in_bounds(
        s,
        52,
    )) {
        Err(SspiError::InvalidToken)
    } else {
        let flags = spec_u32_from_le_bytes(s.subrange(60, 64));
        let nt = spec_field_bytes(s, 20);
        let key = spec_field_bytes(s, 52);
        if nt.len() < 44 {
            Err(SspiError::InvalidToken)
        } else if flags & NEGOTIATE_KEY_EXCHANGE != 0 && key.len() != 16 {
            Err(SspiError::InvalidToken)
        } else {
            Ok(
                AuthenticateParseSpec {
                    flags,
                    lm: spec_field_bytes(s, 12),
                    nt,
                    domain: spec_field_bytes(s, 28),
                    user: spec_field_bytes(s, 36),
                    workstation: spec_field_bytes(s, 44),
                    encrypted_key: if flags & NEGOTIATE_KEY_EXCHANGE != 0 {
                        Some(key)
                    } else {
                        None
                    },
                    mic: if spec_min_payload_offset(s) >= 80 && s.len() >= 80 {
                        Some(s.subrange(64, 80))
                    } else {
                        None
                    },
                },
            )
        }
    }
}

/// Reads the bytes one field descriptor points at, checking bounds.
fn read_field_bytes(s: &[u8], pos: usize) -> (r: Option<Vec<u8>>)
    requires
        pos + 8 <= s@.len(),
    ensures
        match r {
            Some(v) => spec_field_in_bounds(s@, pos as int) && v@ == spec_field_bytes(
                s@,
                pos as int,
            ),
            None => !spec_field_in_bounds(s@, pos as int),
        },
{
    let (len, off) = read_field(s, pos);
    if off as usize > s.len() || len as usize > s.len() - off as usize {
        return None;
    }
    Some(slice_to_vec(slice_subrange(s, off as usize, off as usize + len as usize)))
}

/// Parses an AUTHENTICATE message into its parts.
pub fn read_authenticate_message(s: &[u8]) -> (r: Result<AuthenticateParse, SspiError>)
    ensures
        match r {
            Ok(p) => spec_parse_authenticate(s@) == Ok::<_, SspiError>(p@),
            Err(e) => spec_parse_authenticate(s@) == Err::<AuthenticateParseSpec, _>(e),
        },
{
    if s.len() < 64 {
        return Err(SspiError::InvalidToken);
    }
    let sig = ntlm_signature();
    if !crate::buffer::slice_starts_with(s, sig.as_slice()) {
        assert(s@.subrange(0, 8) != spec_ntlm_signature());
        return Err(SspiError::InvalidToken);
    }
    assert(s@.subrange(0, 8) == spec_ntlm_signature());
    let mtype = u32_from_le_bytes(slice_subrange(s, 8, 12));
    if mtype != 3 {
        return Err(SspiError::InvalidToken);
    }
    let lm = read_field_bytes(s, 12);
    let nt = read_field_bytes(s, 20);
    let domain = read_field_bytes(s, 28);
    let user = read_field_bytes(s, 36);
    let workstation = read_field_bytes(s, 44);
    let key = read_field_bytes(s, 52);
    let (lm, nt, domain, user, workstation, key) = match (lm, nt, domain, user, workstation, key) {
        (Some(a), Some(b), Some(c), Some(d), Some(e), Some(f)) => (a, b, c, d, e, f),
        _ => {
            return Err(SspiError::InvalidToken);
        },
    };
    let flags = u32_from_le_bytes(slice_subrange(s, 60, 64));
    if nt.len() < 44 {
        return Err(SspiError::InvalidToken);
    }
    if flags & NEGOTIATE_KEY_EXCHANGE != 0 && key.len() != 16 {
        return Err(SspiError::InvalidToken);
    }
    let min_off = min_payload_offset(s);
    let mic: Option<Vec<u8>> = if min_off >= 80 && s.len() >= 80 {
        Some(slice_to_vec(slice_subrange(s, 64, 80)))
    } else {
        None
    };
    Ok(
        AuthenticateParse {
            flags,
            lm,
            nt,
            domain,
            user,
            workstation,
            encrypted_key: if flags & NEGOTIATE_KEY_EXCHANGE != 0 {
                Some(key)
            } else {
                None
            },
            mic,
        },
    )
}

/// A written NEGOTIATE message parses back to its flags.
pub proof fn lemma_negotiate_round_trip(flags: u32)
    ensures
        spec_parse_negotiate(spec_negotiate_message(flags)) == Ok::<u32, SspiError>(flags),
{
    vstd::bytes::lemma_auto_spec_u16_to_from_le_bytes();
    vstd::bytes::lemma_auto_spec_u32_to_from_le_bytes();
    let s = spec_negotiate_message(flags);
    assert(s.len() == 32);
    assert(s.subrange(0, 8) =~= spec_ntlm_signature());
    assert(s.subrange(8, 12) =~= spec_u32_to_le_bytes(1));
    assert(s.subrange(12, 16) =~= spec_u32_to_le_bytes(flags));
}

/// A written CHALLENGE message parses back to its flags, server challenge,
/// and target info.
pub proof fn lemma_challenge_round_trip(flags: u32, challenge: Seq<u8>, target_info: Seq<u8>)
    requires
        challenge.len() == 8,
        target_info.len() <= 0xF000,
    ensures
        spec_parse_challenge(spec_challenge_message(flags, challenge, target_info)) == Ok::<
            (u32, Seq<u8>, Seq<u8>),
            SspiError,
        >((flags, challenge, target_info)),
{
    vstd::bytes::lemma_auto_spec_u16_to_from_le_bytes();
    vstd::bytes::lemma_auto_spec_u32_to_from_le_bytes();
    let s = spec_challenge_message(flags, challenge, target_info);
    assert(s.len() == 48 + target_info.len());
    assert(s.subrange(0, 8) =~= spec_ntlm_signature());
    assert(s.subrange(8, 12) =~= spec_u32_to_le_bytes(2));
    assert(s.subrange(20, 24) =~= spec_u32_to_le_bytes(flags));
    assert(s.subrange(24, 32) =~= challenge);
    assert(s.subrange(40, 42) =~= spec_u16_to_le_bytes(target_info.len() as u16));
    assert(s.subrange(44, 48) =~= spec_u32_to_le_bytes(48));
    assert(s.subrange(48, 48 + target_info.len() as int) =~= target_info);
}

/// A written AUTHENTICATE message parses back to its parts; the canonical
/// layout always carries its integrity code, and the encrypted key comes
/// back exactly when key exchange is flagged.
#[verifier::rlimit(100)]
pub proof fn lemma_authenticate_round_trip(
    flags: u32,
    lm: Seq<u8>,
    nt: Seq<u8>,
    domain: Seq<u8>,
    user: Seq<u8>,
    workstation: Seq<u8>,
    key: Seq<u8>,
    mic: Seq<u8>,
)
    requires
        mic.len() == 16,
        lm.len() == 24,
        nt.len() >= 44,
        nt.len() <= 0xFFFF,
        domain.len() <= 0xFFFF,
        user.len() <= 0xFFFF,
        workstation.len() <= 0xFFFF,
        80 + lm.len() + nt.len() + domain.len() + user.len() + workstation.len() + key.len()
            <= 0xFFFFFFFF,
        flags & NEGOTIATE_KEY_EXCHANGE != 0 ==> key.len() == 16,
        flags & NEGOTIATE_KEY_EXCHANGE == 0 ==> key.len() == 0,
    ensures
        spec_parse_authenticate(
            spec_authenticate_message(flags, lm, nt, domain, user, workstation, key, mic),
        ) == Ok::<AuthenticateParseSpec, SspiError>(
            AuthenticateParseSpec {
                flags,
                lm,
                nt,
                domain,
                user,
                workstation,
                encrypted_key: if flags & NEGOTIATE_KEY_EXCHANGE != 0 {
                    Some(key)
                } else {
                    None
                },
                mic: Some(mic),
            },
        ),
{
    vstd::bytes::lemma_auto_spec_u16_to_from_le_bytes();
    vstd::bytes::lemma_auto_spec_u32_to_from_le_bytes();
    let s = spec_authenticate_message(flags, lm, nt, domain, user, workstation, key, mic);
    let lm_off: int = 80;
    let nt_off = lm_off + lm.len();
    let dom_off = nt_off + nt.len();
    let user_off = dom_off + domain.len();
    let ws_off = user_off + user.len();
    let key_off = ws_off + workstation.len();
    assert(s.len() == 80 + lm.len() + nt.len() + domain.len() + user.len() + workstation.len()
        + key.len());
    assert(s.subrange(0, 8) =~= spec_ntlm_signature());
    assert(s.subrange(8, 12) =~= spec_u32_to_le_bytes(3));
    assert(s.subrange(12, 14) =~= spec_u16_to_le_bytes(lm.len() as u16));
    assert(s.subrange(16, 20) =~= spec_u32_to_le_bytes(lm_off as u32));
    assert(s.subrange(20, 22) =~= spec_u16_to_le_bytes(nt.len() as u16));
    assert(s.subrange(24, 28) =~= spec_u32_to_le_bytes(nt_off as u32));
    assert(s.subrange(28, 30) =~= spec_u16_to_le_bytes(domain.len() as u16));
    assert(s.subrange(32, 36) =~= spec_u32_to_le_bytes(dom_off as u32));
    assert(s.subrange(36, 38) =~= spec_u16_to_le_bytes(user.len() as u16));
    assert(s.subrange(40, 44) =~= spec_u32_to_le_bytes(user_off as u32));
    assert(s.subrange(44, 46) =~= spec_u16_to_le_bytes(workstation.len() as u16));
    assert(s.subrange(48, 52) =~= spec_u32_to_le_bytes(ws_off as u32));
    assert(s.subrange(52, 54) =~= spec_u16_to_le_bytes(key.len() as u16));
    assert(s.subrange(56, 60) =~= spec_u32_to_le_bytes(key_off as u32));
    assert(s.subrange(60, 64) =~= spec_u32_to_le_bytes(flags));
    assert(s.subrange(64, 80) =~= mic);
    assert(s.subrange(lm_off, lm_off + lm.len()) =~= lm);
    assert(s.subrange(nt_off, nt_off + nt.len()) =~= nt);
    assert(s.subrange(dom_off, dom_off + domain.len()) =~= domain);
    assert(s.subrange(user_off, user_off + user.len()) =~= user);
    assert(s.subrange(ws_off, ws_off + workstation.len()) =~= workstation);
    assert(s.subrange(key_off, key_off + key.len()) =~= key);
    assert(spec_read_field(s, 12) == (lm.len() as u16, lm_off as u32));
    assert(spec_read_field(s, 20) == (nt.len() as u16, nt_off as u32));
    assert(spec_read_field(s, 28) == (domain.len() as u16, dom_off as u32));
    assert(spec_read_field(s, 36) == (user.len() as u16, user_off as u32));
    assert(spec_read_field(s, 44) == (workstation.len() as u16, ws_off as u32));
    assert(spec_read_field(s, 52) == (key.len() as u16, key_off as u32));
    assert(spec_min_payload_offset(s) >= 80);
}

/// Zeroing the integrity-code region of a canonical AUTHENTICATE message
/// yields the same message written with a zeroed code.
pub proof fn lemma_zero_mic_of_authenticate(
    flags: u32,
    lm: Seq<u8>,
    nt: Seq<u8>,
    domain: Seq<u8>,
    user: Seq<u8>,
    workstation: Seq<u8>,
    key: Seq<u8>,
    mic: Seq<u8>,
)
    requires
        mic.len() == 16,
    ensures
        crate::ntlm::spec_zero_mic(
            spec_authenticate_message(flags, lm, nt, domain, user, workstation, key, mic),
        ) == spec_authenticate_message(
            flags,
            lm,
            nt,
            domain,
            user,
            workstation,
            key,
            seq![0u8, 0u8, 0u8, 0u8, 0u8, 0u8, 0u8, 0u8, 0u8, 0u8, 0u8, 0u8, 0u8, 0u8, 0u8, 0u8],
        ),
{
    vstd::bytes::lemma_auto_spec_u16_to_from_le_bytes();
    vstd::bytes::lemma_auto_spec_u32_to_from_le_bytes();
    assert(crate::ntlm::spec_zero_mic(
        spec_authenticate_message(flags, lm, nt, domain, user, workstation, key, mic),
    ) =~= spec_authenticate_message(
        flags,
        lm,
        nt,
        domain,
        user,
        workstation,
        key,
        seq![0u8, 0u8, 0u8, 0u8, 0u8, 0u8, 0u8, 0u8, 0u8, 0u8, 0u8, 0u8, 0u8, 0u8, 0u8, 0u8],
    ));
}

/// Executable mirror of `spec_min_payload_offset`.
fn min_payload_offset(s: &[u8]) -> (r: u64)
    requires
        s@.len() >= 64,
    ensures
        r == spec_min_payload_offset(s@),
{
    let f0 = read_field(s, 12);
    let f1 = read_field(s, 20);
    let f2 = read_field(s, 28);
    let f3 = read_field(s, 36);
    let f4 = read_field(s, 44);
    let f5 = read_field(s, 52);
    let m0: u64 = if f0.0 > 0 {
        f0.1 as u64
    } else {
        s.len() as u64
    };
    let m1: u64 = if f1.0 > 0 && (f1.1 as u64) < m0 {
        f1.1 as u64
    } else {
        m0
    };
    let m2: u64 = if f2.0 > 0 && (f2.1 as u64) < m1 {
        f2.1 as u64
    } else {
        m1
    };
    let m3: u64 = if f3.0 > 0 && (f3.1 as u64) < m2 {
        f3.1 as u64
    } else {
        m2
    };
    let m4: u64 = if f4.0 > 0 && (f4.1 as u64) < m3 {
        f4.1 as u64
    } else {
        m3
    };
    let m5: u64 = if f5.0 > 0 && (f5.1 as u64) < m4 {
        f5.1 as u64
    } else {
        m4
    };
    m5
}

} // verus!
