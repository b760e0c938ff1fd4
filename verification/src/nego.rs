//! RDP negotiation request/response/failure PDUs, carried as the user data
//! of a ConnectionRequest or ConnectionConfirm TPDU.
//!
//! A request may begin with an ASCII prologue — a routing token
//! (`Cookie: msts=<token>\r\n`) or a cookie (`Cookie: mstshash=<id>\r\n`) —
//! optionally followed by an 8-byte RDP_NEG_REQ. Responses are always 8
//! bytes: a Response carries the selected protocol, a Failure one of six
//! failure codes with the high bit masked off on the wire.

use vstd::prelude::*;
use vstd::bytes::{spec_u32_from_le_bytes, spec_u32_to_le_bytes, u32_from_le_bytes};
use vstd::slice::{slice_subrange, slice_to_vec};

use crate::buffer::{
    all_ascii, ascii_bytes_to_string, ascii_seq, check_all_ascii, find_nl, push_bytes,
    slice_starts_with, spec_find_nl, starts_with,
};
use crate::tpdu::X224TPDUType;

verus! {

/// Bit of the SSL security protocol in the requested-protocols mask.
pub const PROTOCOL_SSL: u32 = 1;
/// Bit of the CredSSP (hybrid) security protocol.
pub const PROTOCOL_HYBRID: u32 = 2;
/// Bit of the RDSTLS security protocol.
pub const PROTOCOL_RDSTLS: u32 = 4;
/// Bit of the extended CredSSP security protocol.
pub const PROTOCOL_HYBRID_EX: u32 = 8;
/// Every defined protocol bit; plain RDP is the empty mask.
pub const PROTOCOL_MASK: u32 = 15;

/// A set of requested or selected security protocols, as the wire bitmask.
/// Plain RDP is the empty mask.
#[derive(Copy, Clone, Debug, PartialEq, Eq, Structural)]
pub struct SecurityProtocol {
    pub bits: u32,
}

/// Flags of a negotiation request (restricted admin, redirected
/// authentication, correlation info present).
#[derive(Copy, Clone, Debug, PartialEq, Eq, Structural)]
pub struct NegotiationRequestFlags {
    pub bits: u8,
}

/// Flags of a negotiation response.
#[derive(Copy, Clone, Debug, PartialEq, Eq, Structural)]
pub struct NegotiationResponseFlags {
    pub bits: u8,
}

impl SecurityProtocol {
    /// True when only defined protocol bits are set.
    pub open spec fn is_valid(self) -> bool {
        self.bits <= PROTOCOL_MASK
    }

    /// The wire mask, if it only uses defined bits.
    pub fn from_bits(bits: u32) -> (r: Option<Self>)
        ensures
            match r {
                Some(p) => bits <= PROTOCOL_MASK && p.bits == bits,
                None => bits > PROTOCOL_MASK,
            },
    {
        if bits <= PROTOCOL_MASK {
            Some(SecurityProtocol { bits })
        } else {
            None
        }
    }
}

impl NegotiationRequestFlags {
    /// True when only defined request flag bits are set.
    pub open spec fn is_valid(self) -> bool {
        self.bits & 0xF4 == 0
    }

    /// The wire byte, if it only uses defined bits.
    pub fn from_bits(bits: u8) -> (r: Option<Self>)
        ensures
            match r {
                Some(f) => bits & 0xF4 == 0 && f.bits == bits,
                None => bits & 0xF4 != 0,
            },
    {
        if bits & 0xF4 == 0 {
            Some(NegotiationRequestFlags { bits })
        } else {
            None
        }
    }
}

impl Default for NegotiationRequestFlags {
    /// No flags set.
    fn default() -> (r: Self)
        ensures
            r.bits == 0,
    {
        NegotiationRequestFlags { bits: 0 }
    }
}

impl NegotiationResponseFlags {
    /// True when only defined response flag bits are set.
    pub open spec fn is_valid(self) -> bool {
        self.bits & 0xE0 == 0
    }

    /// The wire byte, if it only uses defined bits.
    pub fn from_bits(bits: u8) -> (r: Option<Self>)
        ensures
            match r {
                Some(f) => bits & 0xE0 == 0 && f.bits == bits,
                None => bits & 0xE0 != 0,
            },
    {
        if bits & 0xE0 == 0 {
            Some(NegotiationResponseFlags { bits })
        } else {
            None
        }
    }
}

impl Default for NegotiationResponseFlags {
    /// No flags set.
    fn default() -> (r: Self)
        ensures
            r.bits == 0,
    {
        NegotiationResponseFlags { bits: 0 }
    }
}

/// The six defined negotiation failure codes.
#[derive(Copy, Clone, Debug, PartialEq, Eq, Structural)]
pub enum NegotiationFailureCodes {
    SSLRequiredByServer,
    SSLNotAllowedByServer,
    SSLCertNotOnServer,
    InconsistentFlags,
    HybridRequiredByServer,
    SSLWithUserAuthRequiredByServer,
}

/// The wire value of a failure code.
pub open spec fn spec_failure_code(c: NegotiationFailureCodes) -> u32 {
    match c {
        NegotiationFailureCodes::SSLRequiredByServer => 1,
        NegotiationFailureCodes::SSLNotAllowedByServer => 2,
        NegotiationFailureCodes::SSLCertNotOnServer => 3,
        NegotiationFailureCodes::InconsistentFlags => 4,
        NegotiationFailureCodes::HybridRequiredByServer => 5,
        NegotiationFailureCodes::SSLWithUserAuthRequiredByServer => 6,
    }
}

/// The failure code a wire value stands for, if any.
pub open spec fn spec_failure_from_u32(x: u32) -> Option<NegotiationFailureCodes> {
    if x == 1 {
        Some(NegotiationFailureCodes::SSLRequiredByServer)
    } else if x == 2 {
        Some(NegotiationFailureCodes::SSLNotAllowedByServer)
    } else if x == 3 {
        Some(NegotiationFailureCodes::SSLCertNotOnServer)
    } else if x == 4 {
        Some(NegotiationFailureCodes::InconsistentFlags)
    } else if x == 5 {
        Some(NegotiationFailureCodes::HybridRequiredByServer)
    } else if x == 6 {
        Some(NegotiationFailureCodes::SSLWithUserAuthRequiredByServer)
    } else {
        None
    }
}

/// Executable mirror of `spec_failure_code`.
pub fn failure_code_to_u32(c: NegotiationFailureCodes) -> (r: u32)
    ensures
        r == spec_failure_code(c),
{
    match c {
        NegotiationFailureCodes::SSLRequiredByServer => 1,
        NegotiationFailureCodes::SSLNotAllowedByServer => 2,
        NegotiationFailureCodes::SSLCertNotOnServer => 3,
        NegotiationFailureCodes::InconsistentFlags => 4,
        NegotiationFailureCodes::HybridRequiredByServer => 5,
        NegotiationFailureCodes::SSLWithUserAuthRequiredByServer => 6,
    }
}

/// Executable mirror of `spec_failure_from_u32`.
pub fn failure_code_from_u32(x: u32) -> (r: Option<NegotiationFailureCodes>)
    ensures
        r == spec_failure_from_u32(x),
{
    if x == 1 {
        Some(NegotiationFailureCodes::SSLRequiredByServer)
    } else if x == 2 {
        Some(NegotiationFailureCodes::SSLNotAllowedByServer)
    } else if x == 3 {
        Some(NegotiationFailureCodes::SSLCertNotOnServer)
    } else if x == 4 {
        Some(NegotiationFailureCodes::InconsistentFlags)
    } else if x == 5 {
        Some(NegotiationFailureCodes::HybridRequiredByServer)
    } else if x == 6 {
        Some(NegotiationFailureCodes::SSLWithUserAuthRequiredByServer)
    } else {
        None
    }
}

/// The ASCII prologue of a negotiation request: a routing token takes
/// precedence over a cookie.
#[derive(Debug, PartialEq, Eq)]
pub enum NegoData {
    RoutingToken(String),
    Cookie(String),
}

/// The mathematical shape of a prologue: the kind and its characters.
pub enum NegoDataSpec {
    RoutingToken(Seq<char>),
    Cookie(Seq<char>),
}

impl View for NegoData {
    type V = NegoDataSpec;

    open spec fn view(&self) -> NegoDataSpec {
        match self {
            NegoData::RoutingToken(s) => NegoDataSpec::RoutingToken(s@),
            NegoData::Cookie(s) => NegoDataSpec::Cookie(s@),
        }
    }
}

/// Every failure a negotiation codec call can report.
#[derive(Copy, Clone, Debug, PartialEq, Eq, Structural)]
pub enum NegotiationError {
    /// The TPDU carrying the payload has the wrong type code.
    UnexpectedTpduCode,
    /// The payload is shorter than the PDU needs.
    Incomplete,
    /// A prologue prefix does not match (internal to the prologue reader).
    PrologueMismatch,
    /// A prologue prefix matched but no line feed terminates it.
    UnterminatedPrologue,
    /// A prologue value holds non-ASCII bytes.
    InvalidTextEncoding,
    /// Bytes follow the 8-byte RDP_NEG_REQ.
    TrailingBytes,
    /// The request message type byte is not 1.
    InvalidRequestCode,
    /// The request flags byte uses undefined bits.
    InvalidRequestFlags,
    /// The protocol mask uses undefined bits.
    InvalidProtocol,
    /// The response message type byte is neither 2 nor 3.
    InvalidResponseCode,
    /// The response flags byte uses undefined bits.
    InvalidResponseFlags,
    /// The failure code is not one of the six defined values.
    InvalidFailureCode,
    /// The server answered with a negotiation failure.
    NegotiationFailure(NegotiationFailureCodes),
}

/// The bytes of `Cookie: mstshash=`.
pub open spec fn spec_cookie_prefix() -> Seq<u8> {
    seq![
        0x43u8, 0x6Fu8, 0x6Fu8, 0x6Bu8, 0x69u8, 0x65u8, 0x3Au8, 0x20u8, 0x6Du8, 0x73u8, 0x74u8,
        0x73u8, 0x68u8, 0x61u8, 0x73u8, 0x68u8, 0x3Du8,
    ]
}

/// The bytes of `Cookie: msts=`.
pub open spec fn spec_routing_prefix() -> Seq<u8> {
    seq![
        0x43u8, 0x6Fu8, 0x6Fu8, 0x6Bu8, 0x69u8, 0x65u8, 0x3Au8, 0x20u8, 0x6Du8, 0x73u8, 0x74u8,
        0x73u8, 0x3Du8,
    ]
}

/// Executable mirror of `spec_cookie_prefix`.
pub fn cookie_prefix() -> (r: Vec<u8>)
    ensures
        r@ == spec_cookie_prefix(),
{
    let mut v: Vec<u8> = Vec::new();
    v.push(0x43);
    v.push(0x6F);
    v.push(0x6F);
    v.push(0x6B);
    v.push(0x69);
    v.push(0x65);
    v.push(0x3A);
    v.push(0x20);
    v.push(0x6D);
    v.push(0x73);
    v.push(0x74);
    v.push(0x73);
    v.push(0x68);
    v.push(0x61);
    v.push(0x73);
    v.push(0x68);
    v.push(0x3D);
    assert(v@ =~= spec_cookie_prefix());
    v
}

/// Executable mirror of `spec_routing_prefix`.
pub fn routing_prefix() -> (r: Vec<u8>)
    ensures
        r@ == spec_routing_prefix(),
{
    let mut v: Vec<u8> = Vec::new();
    v.push(0x43);
    v.push(0x6F);
    v.push(0x6F);
    v.push(0x6B);
    v.push(0x69);
    v.push(0x65);
    v.push(0x3A);
    v.push(0x20);
    v.push(0x6D);
    v.push(0x73);
    v.push(0x74);
    v.push(0x73);
    v.push(0x3D);
    assert(v@ =~= spec_routing_prefix());
    v
}

/// Reading one CRLF-terminated prologue that starts with `p`: the value
/// bytes between the prefix and the carriage return, and how many bytes the
/// prologue spans. The byte just before the line feed is taken for the
/// carriage return and dropped from the value.
pub open spec fn spec_read_crlf_value(s: Seq<u8>, p: Seq<u8>) -> Result<
    (Seq<u8>, int),
    NegotiationError,
> {
    if !starts_with(s, p) {
        Err(NegotiationError::PrologueMismatch)
    } else {
        match spec_find_nl(s, p.len() as int) {
            None => Err(NegotiationError::UnterminatedPrologue),
            Some(nl) => {
                let end = if nl > p.len() {
                    nl - 1
                } else {
                    p.len() as int
                };
                let val = s.subrange(p.len() as int, end);
                if all_ascii(val) {
                    Ok((val, nl + 1))
                } else {
                    Err(NegotiationError::InvalidTextEncoding)
                }
            },
        }
    }
}

/// Reading the optional prologue: the routing token is tried first, the
/// cookie second; an input matching neither prefix has no prologue. A
/// matching but unterminated or non-ASCII prologue is an error.
pub open spec fn spec_read_nego_data(s: Seq<u8>) -> Result<
    Option<(NegoDataSpec, int)>,
    NegotiationError,
> {
    match spec_read_crlf_value(s, spec_routing_prefix()) {
        Ok((v, n)) => Ok(Some((NegoDataSpec::RoutingToken(ascii_seq(v)), n))),
        Err(NegotiationError::PrologueMismatch) => match spec_read_crlf_value(
            s,
            spec_cookie_prefix(),
        ) {
            Ok((v, n)) => Ok(Some((NegoDataSpec::Cookie(ascii_seq(v)), n))),
            Err(NegotiationError::PrologueMismatch) => Ok(None),
            Err(e) => Err(e),
        },
        Err(e) => Err(e),
    }
}

/// The 8 bytes of an RDP_NEG_REQ / RDP_NEG_RSP / RDP_NEG_FAILURE structure:
/// type, flags, length 8 (little-endian u16), then the 32-bit datum.
pub open spec fn spec_nego_data_bytes(message_type: u8, flags: u8, data: u32) -> Seq<u8> {
    seq![message_type, flags, 8u8, 0u8] + spec_u32_to_le_bytes(data)
}

/// The bytes a negotiation request writes: the cookie prologue, then the
/// RDP_NEG_REQ only when the protocol mask asks for more than plain RDP.
pub open spec fn spec_nego_request_bytes(cookie: Seq<u8>, protocol: u32, flags: u8) -> Seq<u8> {
    spec_cookie_prefix() + cookie + seq![0x0Du8, 0x0Au8] + if protocol > 0 {
        spec_nego_data_bytes(1, flags, protocol)
    } else {
        Seq::empty()
    }
}

/// Parsing a negotiation request: the TPDU must be a ConnectionRequest; the
/// optional prologue is read; if at least 8 bytes remain they must be
/// exactly the RDP_NEG_REQ (type 1, defined flag bits, defined protocol
/// bits, nothing after it); with fewer than 8 bytes the client is legacy
/// and the result defaults to plain RDP with no flags.
pub open spec fn spec_parse_negotiation_request(code: X224TPDUType, s: Seq<u8>) -> Result<
    (Option<NegoDataSpec>, u32, u8),
    NegotiationError,
> {
    if code != X224TPDUType::ConnectionRequest {
        Err(NegotiationError::UnexpectedTpduCode)
    } else {
        match spec_read_nego_data(s) {
            Err(e) => Err(e),
            Ok(opt) => {
                let nego = match opt {
                    Some((d, n)) => Some(d),
                    None => None,
                };
                let consumed = match opt {
                    Some((d, n)) => n,
                    None => 0,
                };
                let rem = s.subrange(consumed, s.len() as int);
                if rem.len() < 8 {
                    Ok((nego, 0, 0))
                } else if rem.len() > 8 {
                    Err(NegotiationError::TrailingBytes)
                } else if rem[0] != 1 {
                    Err(NegotiationError::InvalidRequestCode)
                } else if rem[1] & 0xF4 != 0 {
                    Err(NegotiationError::InvalidRequestFlags)
                } else {
                    let protocol = spec_u32_from_le_bytes(rem.subrange(4, 8));
                    if protocol > PROTOCOL_MASK {
                        Err(NegotiationError::InvalidProtocol)
                    } else {
                        Ok((nego, protocol, rem[1]))
                    }
                }
            },
        }
    }
}

/// Parsing a negotiation response: the TPDU must be a ConnectionConfirm and
/// the payload at least 8 bytes. Type 2 yields the selected protocol and
/// the flags; type 3 surfaces the failure code as an error; any other type
/// is a protocol violation. Bytes after the first 8 are ignored.
pub open spec fn spec_parse_negotiation_response(code: X224TPDUType, s: Seq<u8>) -> Result<
    (u32, u8),
    NegotiationError,
> {
    if code != X224TPDUType::ConnectionConfirm {
        Err(NegotiationError::UnexpectedTpduCode)
    } else if s.len() < 8 {
        Err(NegotiationError::Incomplete)
    } else if s[0] != 2 && s[0] != 3 {
        Err(NegotiationError::InvalidResponseCode)
    } else if s[1] & 0xE0 != 0 {
        Err(NegotiationError::InvalidResponseFlags)
    } else {
        let data = spec_u32_from_le_bytes(s.subrange(4, 8));
        if s[0] == 2 {
            if data > PROTOCOL_MASK {
                Err(NegotiationError::InvalidProtocol)
            } else {
                Ok((data, s[1]))
            }
        } else {
            match spec_failure_from_u32(data) {
                Some(c) => Err(NegotiationError::NegotiationFailure(c)),
                None => Err(NegotiationError::InvalidFailureCode),
            }
        }
    }
}

/// A negotiation request round-trips: parsing a written request with a
/// cookie and a nonzero protocol mask yields the same cookie, protocol
/// mask, and flags. The cookie must be ASCII and free of line feeds,
/// which the prologue framing cannot carry.
pub proof fn lemma_negotiation_request_round_trip(cookie: Seq<u8>, protocol: u32, flags: u8)
    requires
        forall|i: int| 0 <= i < cookie.len() ==> cookie[i] < 0x80,
        forall|i: int| 0 <= i < cookie.len() ==> cookie[i] != 0x0A,
        1 <= protocol <= PROTOCOL_MASK,
        flags & 0xF4 == 0,
    ensures
        spec_parse_negotiation_request(
            X224TPDUType::ConnectionRequest,
            spec_nego_request_bytes(cookie, protocol, flags),
        ) == Ok::<_, NegotiationError>(
            (Some(NegoDataSpec::Cookie(ascii_seq(cookie))), protocol, flags),
        ),
{
    vstd::bytes::lemma_auto_spec_u32_to_from_le_bytes();
    let s = spec_nego_request_bytes(cookie, protocol, flags);
    let plen: int = 17;
    let k: int = plen + cookie.len() + 1;
    assert(s.len() == k + 1 + 8);
    // The routing-token prefix does not match: the byte after `msts` is the
    // `h` of `mstshash`, not `=`.
    assert(s[12] == 0x68 && spec_routing_prefix()[12] == 0x3D);
    assert(s.subrange(0, 13)[12] == s[12]);
    assert(!starts_with(s, spec_routing_prefix()));
    // The cookie prefix matches.
    assert(s.subrange(0, plen) =~= spec_cookie_prefix());
    // The first line feed is the one the writer put after the cookie.
    assert(s[k] == 0x0A);
    assert(forall|i: int| plen <= i < k ==> s[i] != 0x0A);
    lemma_find_nl_unique(s, plen, k);
    // The recovered value is the cookie, the byte before the line feed
    // being the written carriage return.
    assert(s.subrange(plen, k - 1) =~= cookie);
    assert(spec_read_crlf_value(s, spec_cookie_prefix()) == Ok::<_, NegotiationError>(
        (cookie, k + 1),
    ));
    // The remaining 8 bytes are the RDP_NEG_REQ that was written.
    let rem = s.subrange(k + 1, s.len() as int);
    assert(rem =~= spec_nego_data_bytes(1, flags, protocol));
    assert(rem.subrange(4, 8) =~= spec_u32_to_le_bytes(protocol));
}

/// `spec_find_nl` returns exactly the known first line feed.
proof fn lemma_find_nl_unique(s: Seq<u8>, from: int, k: int)
    requires
        0 <= from <= k < s.len(),
        s[k] == 0x0A,
        forall|i: int| from <= i < k ==> s[i] != 0x0A,
    ensures
        spec_find_nl(s, from) == Some(k),
{
    crate::buffer::lemma_find_nl_characterization(s, from);
    match spec_find_nl(s, from) {
        Some(m) => {
            if m < k {
                assert(s[m] != 0x0A);
            }
            if m > k {
                assert(s[k] != 0x0A);
            }
        },
        None => {
            assert(s[k] != 0x0A);
        },
    }
}

/// An input without the 8-byte RDP_NEG_REQ parses to the defaults: plain
/// RDP security and no flags.
pub proof fn lemma_parse_request_defaults(s: Seq<u8>)
    requires
        spec_read_nego_data(s) is Ok,
        ({
            let consumed = match spec_read_nego_data(s)->Ok_0 {
                Some((d, n)) => n,
                None => 0,
            };
            s.len() - consumed < 8
        }),
    ensures
        spec_parse_negotiation_request(X224TPDUType::ConnectionRequest, s) matches Ok(t)
            && t.1 == 0 && t.2 == 0,
{
    // A prologue, when present, ends at a line feed inside the buffer, so
    // the number of bytes it spans is within bounds.
    if starts_with(s, spec_routing_prefix()) {
        crate::buffer::lemma_find_nl_characterization(s, spec_routing_prefix().len() as int);
    }
    if starts_with(s, spec_cookie_prefix()) {
        crate::buffer::lemma_find_nl_characterization(s, spec_cookie_prefix().len() as int);
    }
}

/// Reads one CRLF-terminated prologue beginning with `start` off the front
/// of `stream`, returning its ASCII value and the bytes it spans.
pub fn read_string_with_cr_lf(stream: &[u8], start: &[u8]) -> (r: Result<
    (String, usize),
    NegotiationError,
>)
    ensures
        match r {
            Ok((v, n)) => {
                &&& spec_read_crlf_value(stream@, start@) is Ok
                &&& v@ == ascii_seq(spec_read_crlf_value(stream@, start@)->Ok_0.0)
                &&& n == spec_read_crlf_value(stream@, start@)->Ok_0.1
                &&& n <= stream@.len()
            },
            Err(e) => spec_read_crlf_value(stream@, start@) == Err::<(Seq<u8>, int), _>(e),
        },
{
    if !slice_starts_with(stream, start) {
        return Err(NegotiationError::PrologueMismatch);
    }
    let slen = stream.len();
    let nl = match find_nl(stream, start.len()) {
        Some(k) => k,
        None => {
            return Err(NegotiationError::UnterminatedPrologue);
        },
    };
    proof {
        crate::buffer::lemma_find_nl_characterization(stream@, start@.len() as int);
    }
    assert(nl < slen);
    let end: usize = if nl > start.len() {
        nl - 1
    } else {
        start.len()
    };
    let val = slice_subrange(stream, start.len(), end);
    if !check_all_ascii(val) {
        return Err(NegotiationError::InvalidTextEncoding);
    }
    let s = ascii_bytes_to_string(slice_to_vec(val));
    Ok((s, nl + 1))
}

/// Reads the optional routing-token or cookie prologue. `Ok(None)` means no
/// prologue is present and the position is unchanged; an error means a
/// prologue began but is unterminated or not ASCII.
pub fn read_nego_data(stream: &[u8]) -> (r: Result<
    Option<(NegoData, usize)>,
    NegotiationError,
>)
    ensures
        match r {
            Ok(Some((d, n))) => spec_read_nego_data(stream@) == Ok::<_, NegotiationError>(
                Some((d@, n as int)),
            ) && n <= stream@.len(),
            Ok(None) => spec_read_nego_data(stream@) == Ok::<Option<(NegoDataSpec, int)>,
                NegotiationError,
            >(None),
            Err(e) => spec_read_nego_data(stream@) == Err::<Option<(NegoDataSpec, int)>, _>(e),
        },
{
    let rp = routing_prefix();
    match read_string_with_cr_lf(stream, rp.as_slice()) {
        Ok((v, n)) => {
            return Ok(Some((NegoData::RoutingToken(v), n)));
        },
        Err(NegotiationError::PrologueMismatch) => {},
        Err(e) => {
            return Err(e);
        },
    }
    let cp = cookie_prefix();
    match read_string_with_cr_lf(stream, cp.as_slice()) {
        Ok((v, n)) => Ok(Some((NegoData::Cookie(v), n))),
        Err(NegotiationError::PrologueMismatch) => Ok(None),
        Err(e) => Err(e),
    }
}

/// Parses the payload of a ConnectionRequest TPDU into its optional
/// prologue, requested protocols, and request flags.
pub fn parse_negotiation_request(code: X224TPDUType, buffer: &[u8]) -> (r: Result<
    (Option<NegoData>, SecurityProtocol, NegotiationRequestFlags),
    NegotiationError,
>)
    ensures
        match r {
            Ok((nego, protocol, flags)) => {
                &&& spec_parse_negotiation_request(code, buffer@) == Ok::<_, NegotiationError>(
                    (
                        match nego {
                            Some(d) => Some(d@),
                            None => None,
                        },
                        protocol.bits,
                        flags.bits,
                    ),
                )
                &&& protocol.is_valid()
                &&& flags.is_valid()
            },
            Err(e) => spec_parse_negotiation_request(code, buffer@) == Err::<
                (Option<NegoDataSpec>, u32, u8),
                _,
            >(e),
        },
{
    if code != X224TPDUType::ConnectionRequest {
        return Err(NegotiationError::UnexpectedTpduCode);
    }
    let (nego_data, consumed): (Option<NegoData>, usize) = match read_nego_data(buffer) {
        Ok(Some((d, n))) => (Some(d), n),
        Ok(None) => (None, 0),
        Err(e) => {
            return Err(e);
        },
    };
    let rem = slice_subrange(buffer, consumed, buffer.len());
    if rem.len() < 8 {
        assert(0u8 & 0xF4 == 0) by (bit_vector);
        return Ok((nego_data, SecurityProtocol { bits: 0 }, NegotiationRequestFlags { bits: 0 }));
    }
    if rem.len() > 8 {
        return Err(NegotiationError::TrailingBytes);
    }
    if rem[0] != 1 {
        return Err(NegotiationError::InvalidRequestCode);
    }
    let flags_byte = rem[1];
    if flags_byte & 0xF4 != 0 {
        return Err(NegotiationError::InvalidRequestFlags);
    }
    let protocol_bits = u32_from_le_bytes(slice_subrange(rem, 4, 8));
    if protocol_bits > PROTOCOL_MASK {
        return Err(NegotiationError::InvalidProtocol);
    }
    Ok((
        nego_data,
        SecurityProtocol { bits: protocol_bits },
        NegotiationRequestFlags { bits: flags_byte },
    ))
}

/// Appends one RDP_NEG_* structure: type, flags, length 8, 32-bit datum.
fn write_negotiation_data(buffer: &mut Vec<u8>, message_type: u8, flags: u8, data: u32)
    ensures
        final(buffer)@ == old(buffer)@ + spec_nego_data_bytes(message_type, flags, data),
{
    buffer.push(message_type);
    buffer.push(flags);
    buffer.push(8);
    buffer.push(0);
    let le = vstd::bytes::u32_to_le_bytes(data);
    push_bytes(buffer, le.as_slice());
    assert(final(buffer)@ =~= old(buffer)@ + spec_nego_data_bytes(message_type, flags, data));
}

/// Writes a negotiation request: the cookie prologue, then — only when the
/// protocol mask asks for more than plain RDP — the 8-byte RDP_NEG_REQ.
pub fn write_negotiation_request(
    buffer: &mut Vec<u8>,
    cookie: &String,
    protocol: SecurityProtocol,
    flags: NegotiationRequestFlags,
)
    ensures
        final(buffer)@ == old(buffer)@ + spec_nego_request_bytes(
            vstd::utf8::encode_utf8(cookie@),
            protocol.bits,
            flags.bits,
        ),
{
    let cp = cookie_prefix();
    push_bytes(buffer, cp.as_slice());
    push_bytes(buffer, cookie.as_str().as_bytes());
    buffer.push(0x0D);
    buffer.push(0x0A);
    if protocol.bits > 0 {
        write_negotiation_data(buffer, 1, flags.bits, protocol.bits);
    }
    assert(final(buffer)@ =~= old(buffer)@ + spec_nego_request_bytes(
        vstd::utf8::encode_utf8(cookie@),
        protocol.bits,
        flags.bits,
    ));
}

/// Writes a negotiation response carrying the selected protocol.
pub fn write_negotiation_response(
    buffer: &mut Vec<u8>,
    flags: NegotiationResponseFlags,
    protocol: SecurityProtocol,
)
    ensures
        final(buffer)@ == old(buffer)@ + spec_nego_data_bytes(2, flags.bits, protocol.bits),
{
    write_negotiation_data(buffer, 2, flags.bits, protocol.bits);
}

/// Writes a negotiation failure carrying the failure code, with the high
/// bit masked off on the wire (the defined codes never set it).
pub fn write_negotiation_response_error(buffer: &mut Vec<u8>, error: NegotiationFailureCodes)
    ensures
        final(buffer)@ == old(buffer)@ + spec_nego_data_bytes(3, 0, spec_failure_code(error)),
{
    let code = failure_code_to_u32(error);
    assert(code & 0x7FFFFFFF == code) by (bit_vector)
        requires
            code <= 6,
    ;
    write_negotiation_data(buffer, 3, 0, code & 0x7FFFFFFF);
}

/// Parses the payload of a ConnectionConfirm TPDU into the selected
/// protocol and response flags, or the failure the server reported.
pub fn parse_negotiation_response(code: X224TPDUType, stream: &[u8]) -> (r: Result<
    (SecurityProtocol, NegotiationResponseFlags),
    NegotiationError,
>)
    ensures
        match r {
            Ok((protocol, flags)) => {
                &&& spec_parse_negotiation_response(code, stream@) == Ok::<_, NegotiationError>(
                    (protocol.bits, flags.bits),
                )
                &&& protocol.is_valid()
                &&& flags.is_valid()
            },
            Err(e) => spec_parse_negotiation_response(code, stream@) == Err::<(u32, u8), _>(e),
        },
{
    if code != X224TPDUType::ConnectionConfirm {
        return Err(NegotiationError::UnexpectedTpduCode);
    }
    if stream.len() < 8 {
        return Err(NegotiationError::Incomplete);
    }
    if stream[0] != 2 && stream[0] != 3 {
        return Err(NegotiationError::InvalidResponseCode);
    }
    let flags_byte = stream[1];
    if flags_byte & 0xE0 != 0 {
        return Err(NegotiationError::InvalidResponseFlags);
    }
    let data = u32_from_le_bytes(slice_subrange(stream, 4, 8));
    if stream[0] == 2 {
        if data > PROTOCOL_MASK {
            return Err(NegotiationError::InvalidProtocol);
        }
        Ok((SecurityProtocol { bits: data }, NegotiationResponseFlags { bits: flags_byte }))
    } else {
        match failure_code_from_u32(data) {
            Some(c) => Err(NegotiationError::NegotiationFailure(c)),
            None => Err(NegotiationError::InvalidFailureCode),
        }
    }
}

} // verus!
