//! TPKT envelope and X.224 class-0 TPDU framing.
//!
//! A frame is a 4-byte TPKT header (version 3, reserved 0, big-endian total
//! length) followed by an X.224 TPDU header and the payload. Encoding always
//! prepends a 7-byte request-style TPDU header (dst-ref 0, src-ref 0,
//! class 0); decoding accepts both the 3-byte Data header and the 7-byte
//! request-style header.

use vstd::prelude::*;
use vstd::slice::{slice_subrange, slice_to_vec};

verus! {

/// Length of the TPKT envelope header.
pub const TPKT_HEADER_LENGTH: usize = 4;
/// Total header length (TPKT + X.224) of a Data TPDU.
pub const TPDU_DATA_LENGTH: usize = 7;
/// Total header length (TPKT + X.224) of a request-style TPDU.
pub const TPDU_REQUEST_LENGTH: usize = 11;

/// The X.224 TPDU type codes used during an RDP handshake.
#[derive(Copy, Clone, Debug, PartialEq, Eq, Structural)]
pub enum X224TPDUType {
    ConnectionRequest,
    ConnectionConfirm,
    DisconnectRequest,
    Data,
    Error,
}

/// Framing failures: every error the decoder can report.
#[derive(Copy, Clone, Debug, PartialEq, Eq, Structural)]
pub enum FramingError {
    /// The buffer holds fewer bytes than the frame needs.
    Incomplete,
    /// The TPKT version byte is not 3.
    InvalidVersion,
    /// The TPDU type code byte is not one of the five known codes.
    InvalidCode,
    /// The TPKT length field is smaller than the implied header length.
    LengthTooSmall,
}

/// The on-wire byte of a TPDU type code.
pub open spec fn spec_code_byte(code: X224TPDUType) -> u8 {
    match code {
        X224TPDUType::ConnectionRequest => 0xE0,
        X224TPDUType::ConnectionConfirm => 0xD0,
        X224TPDUType::DisconnectRequest => 0x80,
        X224TPDUType::Data => 0xF0,
        X224TPDUType::Error => 0x70,
    }
}

/// The TPDU type code a byte stands for, if any.
pub open spec fn spec_code_from_byte(b: u8) -> Option<X224TPDUType> {
    if b == 0xE0 {
        Some(X224TPDUType::ConnectionRequest)
    } else if b == 0xD0 {
        Some(X224TPDUType::ConnectionConfirm)
    } else if b == 0x80 {
        Some(X224TPDUType::DisconnectRequest)
    } else if b == 0xF0 {
        Some(X224TPDUType::Data)
    } else if b == 0x70 {
        Some(X224TPDUType::Error)
    } else {
        None
    }
}

/// Executable mirror of `spec_code_byte`.
pub fn code_to_u8(code: X224TPDUType) -> (r: u8)
    ensures
        r == spec_code_byte(code),
{
    match code {
        X224TPDUType::ConnectionRequest => 0xE0,
        X224TPDUType::ConnectionConfirm => 0xD0,
        X224TPDUType::DisconnectRequest => 0x80,
        X224TPDUType::Data => 0xF0,
        X224TPDUType::Error => 0x70,
    }
}

/// Executable mirror of `spec_code_from_byte`.
pub fn code_from_u8(b: u8) -> (r: Option<X224TPDUType>)
    ensures
        r == spec_code_from_byte(b),
{
    if b == 0xE0 {
        Some(X224TPDUType::ConnectionRequest)
    } else if b == 0xD0 {
        Some(X224TPDUType::ConnectionConfirm)
    } else if b == 0x80 {
        Some(X224TPDUType::DisconnectRequest)
    } else if b == 0xF0 {
        Some(X224TPDUType::Data)
    } else if b == 0x70 {
        Some(X224TPDUType::Error)
    } else {
        None
    }
}

/// The 4 TPKT header bytes for a frame of `length` bytes in total.
pub open spec fn spec_tpkt_header(length: u16) -> Seq<u8> {
    seq![3u8, 0u8, (length / 256) as u8, (length % 256) as u8]
}

/// The TPKT total-length field of a buffer (its first four bytes).
pub open spec fn spec_tpkt_len(s: Seq<u8>) -> int
    recommends
        s.len() >= 4,
{
    s[2] * 256 + s[3]
}

/// The 7-byte request-style X.224 header: length byte, type code,
/// dst-ref 0, src-ref 0, class 0.
pub open spec fn spec_x224_request_header(len_byte: u8, code: X224TPDUType) -> Seq<u8> {
    seq![len_byte, spec_code_byte(code), 0u8, 0u8, 0u8, 0u8, 0u8]
}

/// The whole encoded frame: TPKT envelope, request-style header, payload.
/// The X.224 length byte counts the TPDU header minus the length byte
/// itself plus the payload, reduced modulo 256.
pub open spec fn spec_encode_x224(code: X224TPDUType, data: Seq<u8>) -> Seq<u8>
    recommends
        data.len() + TPDU_REQUEST_LENGTH <= u16::MAX,
{
    spec_tpkt_header((data.len() + TPDU_REQUEST_LENGTH) as u16) + spec_x224_request_header(
        (((data.len() + TPDU_REQUEST_LENGTH - TPKT_HEADER_LENGTH - 1) % 256) as u8),
        code,
    ) + data
}

/// What decoding a buffer yields: the TPDU type and the payload between the
/// header and the TPKT length, or the exact error. Mirrors the checks in
/// order: TPKT header present and version 3, whole frame present, TPDU
/// header present, known type code, TPKT length at least the header length.
pub open spec fn spec_decode_x224(s: Seq<u8>) -> Result<(X224TPDUType, Seq<u8>), FramingError> {
    if s.len() < 4 {
        Err(FramingError::Incomplete)
    } else if s[0] != 3 {
        Err(FramingError::InvalidVersion)
    } else if s.len() < spec_tpkt_len(s) {
        Err(FramingError::Incomplete)
    } else if s.len() < 6 {
        Err(FramingError::Incomplete)
    } else if spec_code_from_byte(s[5]) is None {
        Err(FramingError::InvalidCode)
    } else {
        let code = spec_code_from_byte(s[5])->Some_0;
        let header_len: int = if code == X224TPDUType::Data {
            TPDU_DATA_LENGTH as int
        } else {
            TPDU_REQUEST_LENGTH as int
        };
        if s.len() < header_len {
            Err(FramingError::Incomplete)
        } else if spec_tpkt_len(s) < header_len {
            Err(FramingError::LengthTooSmall)
        } else {
            Ok((code, s.subrange(header_len, spec_tpkt_len(s))))
        }
    }
}

/// Appends the TPKT header for a frame of `length` total bytes.
pub fn write_tpkt_header(output: &mut Vec<u8>, length: u16)
    ensures
        final(output)@ == old(output)@ + spec_tpkt_header(length),
{
    output.push(3);
    output.push(0);
    output.push((length / 256) as u8);
    output.push((length % 256) as u8);
    assert(final(output)@ =~= old(output)@ + spec_tpkt_header(length));
}

/// Reads the TPKT total-length field, checking the version byte.
pub fn read_tpkt_len(s: &[u8]) -> (r: Result<u64, FramingError>)
    ensures
        match r {
            Ok(len) => s@.len() >= 4 && s@[0] == 3 && len == spec_tpkt_len(s@),
            Err(e) => {
                &&& (e == FramingError::Incomplete || e == FramingError::InvalidVersion)
                &&& (e == FramingError::Incomplete <==> s@.len() < 4)
                &&& (e == FramingError::InvalidVersion <==> s@.len() >= 4 && s@[0] != 3)
            },
        },
{
    if s.len() < 4 {
        return Err(FramingError::Incomplete);
    }
    let version = s[0];
    if version != 3 {
        return Err(FramingError::InvalidVersion);
    }
    let len: u64 = (s[2] as u64) * 256 + (s[3] as u64);
    Ok(len)
}

/// Splits one complete TPDU off the front of `input`: returns its type code
/// and payload and leaves the bytes after the frame in `input`. On an error
/// `input` is unchanged and the frame is unusable; the caller should close
/// the connection.
pub fn decode_x224(input: &mut Vec<u8>) -> (r: Result<(X224TPDUType, Vec<u8>), FramingError>)
    ensures
        match r {
            Ok((code, payload)) => {
                &&& spec_decode_x224(old(input)@) == Ok::<_, FramingError>((code, payload@))
                &&& final(input)@ == old(input)@.subrange(
                    spec_tpkt_len(old(input)@),
                    old(input)@.len() as int,
                )
            },
            Err(e) => {
                &&& spec_decode_x224(old(input)@) == Err::<(X224TPDUType, Seq<u8>), _>(e)
                &&& final(input)@ == old(input)@
            },
        },
{
    let len64 = match read_tpkt_len(input.as_slice()) {
        Ok(l) => l,
        Err(e) => {
            return Err(e);
        },
    };
    let len = len64 as usize;
    if input.len() < len {
        return Err(FramingError::Incomplete);
    }
    if input.len() < 6 {
        return Err(FramingError::Incomplete);
    }
    let code = match code_from_u8(input[5]) {
        Some(c) => c,
        None => {
            return Err(FramingError::InvalidCode);
        },
    };
    let header_len: usize = if code == X224TPDUType::Data {
        TPDU_DATA_LENGTH
    } else {
        TPDU_REQUEST_LENGTH
    };
    if input.len() < header_len {
        return Err(FramingError::Incomplete);
    }
    if len < header_len {
        return Err(FramingError::LengthTooSmall);
    }
    let payload = slice_to_vec(slice_subrange(input.as_slice(), header_len, len));
    let rest = slice_to_vec(slice_subrange(input.as_slice(), len, input.len()));
    *input = rest;
    Ok((code, payload))
}

/// Appends one encoded frame: TPKT envelope, 7-byte request-style X.224
/// header, then the payload.
pub fn encode_x224(code: X224TPDUType, data: &Vec<u8>, output: &mut Vec<u8>)
    requires
        data@.len() + TPDU_REQUEST_LENGTH <= u16::MAX,
    ensures
        final(output)@ == old(output)@ + spec_encode_x224(code, data@),
{
    let length: u16 = (data.len() + TPDU_REQUEST_LENGTH) as u16;
    write_tpkt_header(output, length);
    output.push(((data.len() + TPDU_REQUEST_LENGTH - TPKT_HEADER_LENGTH - 1) % 256) as u8);
    output.push(code_to_u8(code));
    output.push(0);
    output.push(0);
    output.push(0);
    output.push(0);
    output.push(0);
    let mut i: usize = 0;
    while i < data.len()
        invariant
            i <= data@.len(),
            data@.len() + TPDU_REQUEST_LENGTH <= u16::MAX,
            output@ == old(output)@ + spec_tpkt_header((data@.len() + TPDU_REQUEST_LENGTH) as u16)
                + spec_x224_request_header(
                (((data@.len() + TPDU_REQUEST_LENGTH - TPKT_HEADER_LENGTH - 1) % 256) as u8),
                code,
            ) + data@.subrange(0, i as int),
        decreases data@.len() - i,
    {
        output.push(data[i]);
        i = i + 1;
        assert(data@.subrange(0, i as int) =~= data@.subrange(0, i - 1) + seq![data@[i - 1]]);
    }
    assert(data@.subrange(0, data@.len() as int) =~= data@);
}

/// Splitting a reassembly buffer into whole frames: every leading complete
/// TPKT frame is taken off, and the residue starts with an incomplete or
/// non-TPKT prefix.
pub open spec fn spec_split_frames(s: Seq<u8>) -> (Seq<Seq<u8>>, Seq<u8>)
    decreases s.len(),
{
    if s.len() < 4 || s[0] != 3 {
        (Seq::empty(), s)
    } else {
        let len = spec_tpkt_len(s);
        if len < 4 || s.len() < len {
            (Seq::empty(), s)
        } else {
            let rest = spec_split_frames(s.subrange(len, s.len() as int));
            (seq![s.subrange(0, len)] + rest.0, rest.1)
        }
    }
}

/// The framing adapter's reader: takes every complete TPKT frame off the
/// front of an append-only reassembly buffer, leaving the incomplete tail.
pub fn split_complete_frames(buffer: &mut Vec<u8>) -> (r: Vec<Vec<u8>>)
    ensures
        r@.len() == spec_split_frames(old(buffer)@).0.len(),
        forall|i: int|
            0 <= i < r@.len() ==> r@[i]@ == spec_split_frames(old(buffer)@).0[i],
        final(buffer)@ == spec_split_frames(old(buffer)@).1,
{
    let mut out: Vec<Vec<u8>> = Vec::new();
    let mut pos: usize = 0;
    let mut done = false;
    proof {
        assert(buffer@.subrange(0, buffer@.len() as int) =~= buffer@);
    }
    while !done && pos < buffer.len()
        invariant
            pos <= buffer@.len(),
            *buffer == *old(buffer),
            out@.len() + spec_split_frames(buffer@.subrange(pos as int, buffer@.len() as int)).0.len()
                == spec_split_frames(buffer@).0.len(),
            forall|i: int| 0 <= i < out@.len() ==> out@[i]@ == spec_split_frames(buffer@).0[i],
            forall|i: int|
                0 <= i < spec_split_frames(
                    buffer@.subrange(pos as int, buffer@.len() as int),
                ).0.len() ==> spec_split_frames(
                    buffer@.subrange(pos as int, buffer@.len() as int),
                ).0[i] == spec_split_frames(buffer@).0[out@.len() + i],
            spec_split_frames(buffer@.subrange(pos as int, buffer@.len() as int)).1
                == spec_split_frames(buffer@).1,
            done ==> spec_split_frames(buffer@.subrange(pos as int, buffer@.len() as int))
                == (Seq::<Seq<u8>>::empty(), buffer@.subrange(pos as int, buffer@.len() as int)),
        decreases buffer@.len() - pos, 1int - (if done { 1int } else { 0int }),
    {
        let ghost rest_before = buffer@.subrange(pos as int, buffer@.len() as int);
        let remaining = buffer.len() - pos;
        if remaining < 4 || buffer[pos] != 3 {
            done = true;
        } else {
            let len: usize = (buffer[pos + 2] as usize) * 256 + (buffer[pos + 3] as usize);
            proof {
                assert(spec_tpkt_len(rest_before) == len);
            }
            if len < 4 || remaining < len {
                done = true;
            } else {
                let frame = slice_to_vec(slice_subrange(buffer.as_slice(), pos, pos + len));
                proof {
                    assert(frame@ =~= rest_before.subrange(0, len as int));
                    assert(buffer@.subrange(pos + len, buffer@.len() as int)
                        =~= rest_before.subrange(len as int, rest_before.len() as int));
                    let rest_after = buffer@.subrange(pos + len, buffer@.len() as int);
                    assert(spec_split_frames(rest_before).0 == seq![frame@] + spec_split_frames(
                        rest_after,
                    ).0);
                    assert(spec_split_frames(rest_before).0[0] == frame@);
                    assert forall|i: int|
                        0 <= i < spec_split_frames(rest_after).0.len() implies spec_split_frames(
                        rest_after,
                    ).0[i] == spec_split_frames(buffer@).0[out@.len() + 1 + i] by {
                        assert(spec_split_frames(rest_before).0[i + 1] == spec_split_frames(
                            rest_after,
                        ).0[i]);
                    }
                }
                out.push(frame);
                pos = pos + len;
            }
        }
    }
    proof {
        let rest = buffer@.subrange(pos as int, buffer@.len() as int);
        if !done {
            assert(rest.len() == 0);
        }
    }
    let rest = slice_to_vec(slice_subrange(buffer.as_slice(), pos, buffer.len()));
    *buffer = rest;
    out
}

/// A request-style TPDU round-trips: decoding an encoded frame yields the
/// same type code and payload.
pub proof fn lemma_x224_round_trip(code: X224TPDUType, data: Seq<u8>)
    requires
        code != X224TPDUType::Data,
        data.len() + TPDU_REQUEST_LENGTH <= u16::MAX,
    ensures
        spec_decode_x224(spec_encode_x224(code, data)) == Ok::<_, FramingError>((code, data)),
{
    let s = spec_encode_x224(code, data);
    let length = (data.len() + TPDU_REQUEST_LENGTH) as u16;
    assert(s.len() == data.len() + TPDU_REQUEST_LENGTH);
    assert(s[0] == 3);
    assert(s[2] == (length / 256) as u8 && s[3] == (length % 256) as u8);
    assert(spec_tpkt_len(s) == (length / 256) * 256 + (length % 256));
    assert((length / 256) * 256 + (length % 256) == length) by {
        vstd::arithmetic::div_mod::lemma_fundamental_div_mod(length as int, 256);
    }
    assert(s[5] == spec_code_byte(code));
    assert(spec_code_from_byte(spec_code_byte(code)) == Some(code));
    assert(s.subrange(TPDU_REQUEST_LENGTH as int, spec_tpkt_len(s)) =~= data);
}

} // verus!
