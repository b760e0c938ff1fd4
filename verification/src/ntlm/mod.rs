//! The NTLM security provider: a stateful SSPI-style authenticator that
//! drives the NEGOTIATE / CHALLENGE / AUTHENTICATE exchange for either
//! side and then seals and opens every later message with RC4 keystreams
//! and HMAC-MD5 signatures bound to sequence numbers.

pub mod crypto;
pub mod messages;

use vstd::prelude::*;
use vstd::array::array_as_slice;
use vstd::bytes::{spec_u32_to_le_bytes, u32_to_le_bytes};
use vstd::slice::{slice_subrange, slice_to_vec};

use crate::buffer::push_bytes;
use crate::encryption::{
    hmac_md5, random_bytes, spec_hmac_md5, spec_rc4_advance, spec_rc4_init, spec_rc4_keystream,
    xor_seq, Rc4, Rc4Model,
};
use crate::sspi::{Credentials, CredentialsSpec, SspiError, SspiOk};
use self::crypto::{
    client_sealing_magic, client_signing_magic, current_filetime, derive_key, lm_v2_response,
    nt_v2_proof, nt_v2_temp, ntowf_v2, server_sealing_magic, server_signing_magic,
    spec_ntowf_v2, spec_utf16le, utf16le_bytes,
};
use self::messages::{
    find_av_timestamp, read_authenticate_message, read_challenge_message,
    read_negotiate_message, spec_parse_authenticate, spec_parse_challenge, spec_parse_negotiate,
    timestamp_target_info, write_authenticate_message, write_challenge_message,
    write_negotiate_message, AuthenticateParseSpec, MIC_OFFSET, NEGOTIATE_FLAGS,
    NEGOTIATE_KEY_EXCHANGE,
};

verus! {

/// Length of a client or server challenge.
pub const CHALLENGE_SIZE: usize = 8;
/// Length of a sealed-message signature.
pub const SIGNATURE_SIZE: usize = 16;

/// The linear progression of an authentication.
#[derive(Copy, Clone, Debug, PartialEq, Eq, Structural)]
pub enum NtlmState {
    Initial,
    Negotiate,
    Challenge,
    Authenticate,
    Completion,
    Final,
}

/// The NEGOTIATE blob, preserved verbatim for the integrity code.
pub struct NegotiateMessage {
    pub message: Vec<u8>,
}

impl NegotiateMessage {
    /// Wraps a preserved NEGOTIATE blob.
    pub fn new(message: Vec<u8>) -> (r: Self)
        ensures
            r.message == message,
    {
        NegotiateMessage { message }
    }
}

/// The CHALLENGE blob with the parts later steps need.
pub struct ChallengeMessage {
    pub message: Vec<u8>,
    pub target_info: Vec<u8>,
    pub server_challenge: [u8; 8],
    pub timestamp: u64,
}

impl ChallengeMessage {
    /// Wraps a preserved CHALLENGE blob and its parsed parts.
    pub fn new(
        message: Vec<u8>,
        target_info: Vec<u8>,
        server_challenge: [u8; 8],
        timestamp: u64,
    ) -> (r: Self)
        ensures
            r.message == message,
            r.target_info == target_info,
            r.server_challenge == server_challenge,
            r.timestamp == timestamp,
    {
        ChallengeMessage { message, target_info, server_challenge, timestamp }
    }
}

/// A message integrity code and its offset inside the AUTHENTICATE blob.
pub struct Mic {
    pub value: [u8; 16],
    pub offset: u8,
}

impl Mic {
    /// Wraps an integrity code found or placed at `offset`.
    pub fn new(value: [u8; 16], offset: u8) -> (r: Self)
        ensures
            r.value == value,
            r.offset == offset,
    {
        Mic { value, offset }
    }
}

/// The AUTHENTICATE blob with its integrity code and the exported session
/// key that the key schedule ran on.
pub struct AuthenticateMessage {
    pub message: Vec<u8>,
    pub mic: Option<Mic>,
    pub exported_session_key: [u8; 16],
}

impl AuthenticateMessage {
    /// Wraps a preserved AUTHENTICATE blob.
    pub fn new(message: Vec<u8>, mic: Option<Mic>, exported_session_key: [u8; 16]) -> (r: Self)
        ensures
            r.message == message,
            r.mic == mic,
            r.exported_session_key == exported_session_key,
    {
        AuthenticateMessage { message, mic, exported_session_key }
    }
}

/// The mathematical shape of an NTLM context.
pub struct NtlmView {
    pub identity: CredentialsSpec,
    pub version: Seq<u8>,
    pub state: NtlmState,
    pub flags: u32,
    pub negotiate: Option<Seq<u8>>,
    pub challenge: Option<(Seq<u8>, Seq<u8>, Seq<u8>, u64)>,
    pub authenticate: Option<(Seq<u8>, Option<(Seq<u8>, u8)>, Seq<u8>)>,
    pub send_signing_key: Seq<u8>,
    pub recv_signing_key: Seq<u8>,
    pub send_sealing: Option<Rc4Model>,
    pub recv_sealing: Option<Rc4Model>,
}

/// A long-lived NTLM session context for one side of one connection.
pub struct Ntlm {
    /// The account this side authenticates with.
    pub identity: Credentials,
    /// The version blob of this peer; carried along but never emitted,
    /// since the version flag is not negotiated.
    pub version: Vec<u8>,
    /// Where in the linear progression this side stands.
    pub state: NtlmState,
    /// The negotiated flags, once a message has fixed them.
    pub flags: u32,
    /// The three message blobs, preserved verbatim: the integrity code is
    /// a digest over their chain.
    pub negotiate_message: Option<NegotiateMessage>,
    pub challenge_message: Option<ChallengeMessage>,
    pub authenticate_message: Option<AuthenticateMessage>,
    /// The directional keys the handshake derives: signatures are keyed by
    /// the signing keys, the RC4 streams by the sealing keys.
    pub send_signing_key: [u8; 16],
    pub recv_signing_key: [u8; 16],
    pub send_sealing_key: Option<Rc4>,
    pub recv_sealing_key: Option<Rc4>,
}

impl View for Ntlm {
    type V = NtlmView;

    open spec fn view(&self) -> NtlmView {
        NtlmView {
            identity: self.identity@,
            version: self.version@,
            state: self.state,
            flags: self.flags,
            negotiate: match &self.negotiate_message {
                Some(m) => Some(m.message@),
                None => None,
            },
            challenge: match &self.challenge_message {
                Some(m) => Some((m.message@, m.target_info@, m.server_challenge@, m.timestamp)),
                None => None,
            },
            authenticate: match &self.authenticate_message {
                Some(m) => Some(
                    (
                        m.message@,
                        match &m.mic {
                            Some(mic) => Some((mic.value@, mic.offset)),
                            None => None,
                        },
                        m.exported_session_key@,
                    ),
                ),
                None => None,
            },
            send_signing_key: self.send_signing_key@,
            recv_signing_key: self.recv_signing_key@,
            send_sealing: match &self.send_sealing_key {
                Some(r) => Some(r@),
                None => None,
            },
            recv_sealing: match &self.recv_sealing_key {
                Some(r) => Some(r@),
                None => None,
            },
        }
    }
}

/// The signed HMAC-MD5 digest binding a sequence number to a message.
pub open spec fn spec_mac(signing_key: Seq<u8>, seq_num: u32, data: Seq<u8>) -> Seq<u8> {
    spec_hmac_md5(signing_key, spec_u32_to_le_bytes(seq_num) + data)
}

/// The 16-byte signature of a sealed message: version 1, the first 8 bytes
/// of the sealed digest, then the sequence number. `m` is the stream state
/// after the payload itself was sealed.
pub open spec fn spec_signature(
    signing_key: Seq<u8>,
    seq_num: u32,
    plaintext: Seq<u8>,
    m: Rc4Model,
) -> Seq<u8> {
    let digest = spec_mac(signing_key, seq_num, plaintext);
    let ks = spec_rc4_keystream(m, digest.len());
    seq![1u8, 0u8, 0u8, 0u8] + Seq::new(
        8,
        |i: int|
            if i < digest.len() && i < ks.len() {
                digest[i] ^ ks[i]
            } else {
                0u8
            },
    ) + spec_u32_to_le_bytes(seq_num)
}

/// Sealing a message: the ciphertext is the keystream applied to the
/// plaintext; the signature follows, its checksum sealed by the same
/// stream; the result pairs the emitted bytes with the advanced stream.
pub open spec fn spec_seal(
    signing_key: Seq<u8>,
    seq_num: u32,
    plaintext: Seq<u8>,
    m: Rc4Model,
) -> (Seq<u8>, Rc4Model) {
    let ct = xor_seq(plaintext, spec_rc4_keystream(m, plaintext.len()));
    let m2 = spec_rc4_advance(m, plaintext.len());
    let digest = spec_mac(signing_key, seq_num, plaintext);
    let m3 = spec_rc4_advance(m2, digest.len());
    (spec_signature(signing_key, seq_num, plaintext, m2) + ct, m3)
}

/// Opening a sealed message: recover the plaintext, recompute the expected
/// signature, and fail unless the received one matches bit for bit. The
/// stream advances even on a mismatch: the bytes were consumed.
pub open spec fn spec_unseal(
    signing_key: Seq<u8>,
    seq_num: u32,
    input: Seq<u8>,
    m: Rc4Model,
) -> (Option<Seq<u8>>, Rc4Model) {
    if input.len() < 16 {
        (None, m)
    } else {
        let sig_in = input.subrange(0, 16);
        let ct = input.subrange(16, input.len() as int);
        let plain = xor_seq(ct, spec_rc4_keystream(m, ct.len()));
        let m2 = spec_rc4_advance(m, ct.len());
        let digest = spec_mac(signing_key, seq_num, plain);
        let m3 = spec_rc4_advance(m2, digest.len());
        if sig_in == spec_signature(signing_key, seq_num, plain, m2) {
            (Some(plain), m3)
        } else {
            (None, m3)
        }
    }
}

/// Opening undoes sealing: with matched signing keys and stream states, a
/// sealed message opens to the plaintext it was sealed from.
pub proof fn lemma_seal_unseal_round_trip(
    signing_key: Seq<u8>,
    seq_num: u32,
    m: Rc4Model,
    plaintext: Seq<u8>,
)
    ensures
        spec_unseal(signing_key, seq_num, spec_seal(signing_key, seq_num, plaintext, m).0, m).0
            == Some(plaintext),
{
    vstd::bytes::lemma_auto_spec_u32_to_from_le_bytes();
    let (sealed, _) = spec_seal(signing_key, seq_num, plaintext, m);
    let m2 = spec_rc4_advance(m, plaintext.len());
    let sig = spec_signature(signing_key, seq_num, plaintext, m2);
    let ks = spec_rc4_keystream(m, plaintext.len());
    crate::encryption::lemma_rc4_keystream_len(m, plaintext.len());
    assert(sig.len() == 16);
    assert(sealed.len() == 16 + plaintext.len());
    let ct = sealed.subrange(16, sealed.len() as int);
    assert(ct =~= xor_seq(plaintext, ks));
    crate::encryption::lemma_xor_seq_involution(plaintext, ks);
    let plain = xor_seq(ct, spec_rc4_keystream(m, ct.len()));
    assert(plain == plaintext);
    assert(sealed.subrange(0, 16) =~= sig);
}

/// A sealed message opened under a different sequence number is rejected:
/// the signature carries the number it was sealed with.
pub proof fn lemma_unseal_rejects_wrong_seq(
    signing_key: Seq<u8>,
    seq_sealed: u32,
    seq_given: u32,
    m: Rc4Model,
    plaintext: Seq<u8>,
)
    requires
        seq_sealed != seq_given,
    ensures
        spec_unseal(
            signing_key,
            seq_given,
            spec_seal(signing_key, seq_sealed, plaintext, m).0,
            m,
        ).0 is None,
{
    vstd::bytes::lemma_auto_spec_u32_to_from_le_bytes();
    let (sealed, _) = spec_seal(signing_key, seq_sealed, plaintext, m);
    let m2 = spec_rc4_advance(m, plaintext.len());
    let sig = spec_signature(signing_key, seq_sealed, plaintext, m2);
    crate::encryption::lemma_rc4_keystream_len(m, plaintext.len());
    assert(sig.len() == 16);
    let ks = spec_rc4_keystream(m, plaintext.len());
    let ct = sealed.subrange(16, sealed.len() as int);
    assert(ct =~= xor_seq(plaintext, ks));
    crate::encryption::lemma_xor_seq_involution(plaintext, ks);
    let plain = xor_seq(ct, spec_rc4_keystream(m, ct.len()));
    assert(plain == plaintext);
    let sig_in = sealed.subrange(0, 16);
    assert(sig_in =~= sig);
    let expected = spec_signature(signing_key, seq_given, plain, m2);
    if sig_in == expected {
        assert(sig_in.subrange(12, 16) =~= spec_u32_to_le_bytes(seq_sealed));
        assert(expected.subrange(12, 16) =~= spec_u32_to_le_bytes(seq_given));
        assert(spec_u32_to_le_bytes(seq_sealed) == spec_u32_to_le_bytes(seq_given));
        assert(seq_sealed == seq_given);
    }
}

/// A sealed message whose version word is not 1 is rejected, whichever
/// byte of it was altered.
pub proof fn lemma_unseal_rejects_wrong_version(
    signing_key: Seq<u8>,
    seq_num: u32,
    input: Seq<u8>,
    m: Rc4Model,
)
    requires
        input.len() >= 16,
        input.subrange(0, 4) != seq![1u8, 0u8, 0u8, 0u8],
    ensures
        spec_unseal(signing_key, seq_num, input, m).0 is None,
{
    let sig_in = input.subrange(0, 16);
    let ct = input.subrange(16, input.len() as int);
    let plain = xor_seq(ct, spec_rc4_keystream(m, ct.len()));
    let m2 = spec_rc4_advance(m, ct.len());
    let expected = spec_signature(signing_key, seq_num, plain, m2);
    if sig_in == expected {
        assert(expected.subrange(0, 4) =~= seq![1u8, 0u8, 0u8, 0u8]);
        assert(sig_in.subrange(0, 4) =~= input.subrange(0, 4));
    }
}

/// A sealed message whose signature does not end in the given sequence
/// number is rejected, whichever byte of that field was altered.
pub proof fn lemma_unseal_rejects_wrong_seq_field(
    signing_key: Seq<u8>,
    seq_num: u32,
    input: Seq<u8>,
    m: Rc4Model,
)
    requires
        input.len() >= 16,
        input.subrange(12, 16) != spec_u32_to_le_bytes(seq_num),
    ensures
        spec_unseal(signing_key, seq_num, input, m).0 is None,
{
    vstd::bytes::lemma_auto_spec_u32_to_from_le_bytes();
    let sig_in = input.subrange(0, 16);
    let ct = input.subrange(16, input.len() as int);
    let plain = xor_seq(ct, spec_rc4_keystream(m, ct.len()));
    let m2 = spec_rc4_advance(m, ct.len());
    let expected = spec_signature(signing_key, seq_num, plain, m2);
    if sig_in == expected {
        assert(expected.subrange(12, 16) =~= spec_u32_to_le_bytes(seq_num));
        assert(sig_in.subrange(12, 16) =~= input.subrange(12, 16));
    }
}

/// The AUTHENTICATE blob with its integrity-code region zeroed, as the
/// code itself is computed.
pub open spec fn spec_zero_mic(s: Seq<u8>) -> Seq<u8> {
    Seq::new(
        s.len(),
        |i: int|
            if 64 <= i < 80 {
                0u8
            } else {
                s[i]
            },
    )
}

/// The domain characters of an account, an empty sequence when absent.
pub open spec fn spec_domain_chars(c: CredentialsSpec) -> Seq<char> {
    match c.domain {
        Some(d) => d,
        None => Seq::empty(),
    }
}

/// True when the account's names fit the 16-bit length descriptors of an
/// AUTHENTICATE message.
pub open spec fn spec_identity_fits(c: CredentialsSpec) -> bool {
    spec_utf16le(c.username).len() <= 0xFFFF && spec_utf16le(spec_domain_chars(c)).len() <= 0xFFFF
}

/// The exported session key the acceptor recovers from a parsed
/// AUTHENTICATE message under an account: the session base key, or the
/// encrypted key opened with it when key exchange was negotiated.
pub open spec fn spec_accept_exported_key(
    identity: CredentialsSpec,
    parsed: AuthenticateParseSpec,
) -> Seq<u8> {
    let ntowf = spec_ntowf_v2(identity.password, identity.username, spec_domain_chars(identity));
    let base = spec_hmac_md5(ntowf, parsed.nt.subrange(0, 16));
    match parsed.encrypted_key {
        Some(k) => xor_seq(k, spec_rc4_keystream(spec_rc4_init(base), k.len())),
        None => base,
    }
}

/// True when a parsed AUTHENTICATE message's integrity code, if it carries
/// one, matches the chain of the three preserved blobs under the exported
/// session key.
pub open spec fn spec_mic_ok(
    negotiate: Seq<u8>,
    challenge: Seq<u8>,
    auth_blob: Seq<u8>,
    exported: Seq<u8>,
    mic: Option<Seq<u8>>,
) -> bool {
    match mic {
        None => true,
        Some(v) => v == spec_hmac_md5(exported, negotiate + challenge + spec_zero_mic(auth_blob)),
    }
}

/// True when a stored AUTHENTICATE blob's NTv2 proof is the one the
/// account's secret produces over the given server challenge and the
/// response's own temp blob: the password validation of the completion
/// step.
pub open spec fn spec_nt_proof_valid(
    identity: CredentialsSpec,
    server_challenge: Seq<u8>,
    auth_blob: Seq<u8>,
) -> bool {
    match spec_parse_authenticate(auth_blob) {
        Ok(p) => p.nt.subrange(0, 16) == crypto::spec_nt_v2_proof(
            spec_ntowf_v2(identity.password, identity.username, spec_domain_chars(identity)),
            server_challenge,
            p.nt.subrange(16, p.nt.len() as int),
        ),
        Err(_) => false,
    }
}

/// True when a stored AUTHENTICATE blob parses and its NTv2 response
/// opens with the fixed temp header behind the 16-byte proof.
pub open spec fn spec_nt_response_shape_ok(auth_blob: Seq<u8>) -> bool {
    match spec_parse_authenticate(auth_blob) {
        Ok(p) => p.nt.len() >= 44 && p.nt.subrange(16, 24) == seq![
            1u8, 1u8, 0u8, 0u8, 0u8, 0u8, 0u8, 0u8,
        ],
        Err(_) => false,
    }
}

/// Sixteen zero bytes: the integrity-code placeholder.
pub open spec fn spec_zeros16() -> Seq<u8> {
    seq![0u8, 0u8, 0u8, 0u8, 0u8, 0u8, 0u8, 0u8, 0u8, 0u8, 0u8, 0u8, 0u8, 0u8, 0u8, 0u8]
}

/// The AUTHENTICATE message the initiator builds before the integrity code
/// is spliced in: every field is determined by the account, the challenge,
/// and the drawn client challenge and session key.
pub open spec fn spec_initiator_authenticate_base(
    identity: CredentialsSpec,
    flags: u32,
    server_challenge: Seq<u8>,
    target_info: Seq<u8>,
    timestamp: u64,
    client_challenge: Seq<u8>,
    exported: Seq<u8>,
) -> Seq<u8> {
    let ntowf = spec_ntowf_v2(identity.password, identity.username, spec_domain_chars(identity));
    let temp = crypto::spec_nt_v2_temp(timestamp, client_challenge, target_info);
    let nt_proof = crypto::spec_nt_v2_proof(ntowf, server_challenge, temp);
    let nt = nt_proof + temp;
    let lm = crypto::spec_lm_v2_response(ntowf, server_challenge, client_challenge);
    let base = crypto::spec_session_base_key(ntowf, nt_proof);
    let key = if flags & NEGOTIATE_KEY_EXCHANGE != 0 {
        xor_seq(exported, spec_rc4_keystream(spec_rc4_init(base), exported.len()))
    } else {
        Seq::empty()
    };
    messages::spec_authenticate_message(
        flags,
        lm,
        nt,
        spec_utf16le(spec_domain_chars(identity)),
        spec_utf16le(identity.username),
        Seq::empty(),
        key,
        spec_zeros16(),
    )
}

/// The finished AUTHENTICATE message: the base message with the integrity
/// code over the three preserved blobs spliced into its place.
pub open spec fn spec_initiator_authenticate(
    identity: CredentialsSpec,
    negotiate: Seq<u8>,
    challenge: Seq<u8>,
    flags: u32,
    server_challenge: Seq<u8>,
    target_info: Seq<u8>,
    timestamp: u64,
    client_challenge: Seq<u8>,
    exported: Seq<u8>,
) -> Seq<u8> {
    let ntowf = spec_ntowf_v2(identity.password, identity.username, spec_domain_chars(identity));
    let temp = crypto::spec_nt_v2_temp(timestamp, client_challenge, target_info);
    let nt_proof = crypto::spec_nt_v2_proof(ntowf, server_challenge, temp);
    let nt = nt_proof + temp;
    let lm = crypto::spec_lm_v2_response(ntowf, server_challenge, client_challenge);
    let base = crypto::spec_session_base_key(ntowf, nt_proof);
    let key = if flags & NEGOTIATE_KEY_EXCHANGE != 0 {
        xor_seq(exported, spec_rc4_keystream(spec_rc4_init(base), exported.len()))
    } else {
        Seq::empty()
    };
    let auth0 = spec_initiator_authenticate_base(
        identity,
        flags,
        server_challenge,
        target_info,
        timestamp,
        client_challenge,
        exported,
    );
    let mic = spec_hmac_md5(exported, negotiate + challenge + auth0);
    messages::spec_authenticate_message(
        flags,
        lm,
        nt,
        spec_utf16le(spec_domain_chars(identity)),
        spec_utf16le(identity.username),
        Seq::empty(),
        key,
        mic,
    )
}

/// The digest-length facts a handshake rests on: HMAC-MD5 digests are 16
/// bytes. They hold of the outside digest code and are pinned, per call,
/// by the `hmac_md5` ensures; a purely mathematical lemma has to assume
/// them for the instances it touches.
pub open spec fn spec_handshake_digest_lengths(
    identity: CredentialsSpec,
    server_challenge: Seq<u8>,
    client_challenge: Seq<u8>,
    exported: Seq<u8>,
    challenge_ts: u64,
    response_ts: u64,
) -> bool {
    let ntowf = spec_ntowf_v2(identity.password, identity.username, spec_domain_chars(identity));
    let ti = messages::spec_timestamp_target_info(challenge_ts);
    let temp = crypto::spec_nt_v2_temp(response_ts, client_challenge, ti);
    let negotiate = messages::spec_negotiate_message(NEGOTIATE_FLAGS);
    let challenge = messages::spec_challenge_message(NEGOTIATE_FLAGS, server_challenge, ti);
    let auth0 = spec_initiator_authenticate_base(
        identity,
        NEGOTIATE_FLAGS,
        server_challenge,
        ti,
        response_ts,
        client_challenge,
        exported,
    );
    &&& spec_hmac_md5(ntowf, server_challenge + temp).len() == 16
    &&& spec_hmac_md5(ntowf, server_challenge + client_challenge).len() == 16
    &&& spec_hmac_md5(exported, negotiate + challenge + auth0).len() == 16
}

/// A full handshake between a fresh initiator and acceptor sharing one
/// account succeeds, whatever the drawn challenges, session key, and
/// clock readings: the acceptor takes the NEGOTIATE message, the initiator
/// takes the CHALLENGE message, the acceptor takes the AUTHENTICATE
/// message, recovers the exported session key, and passes its integrity
/// check, and the completion step's response check passes — so both sides
/// reach the final state.
#[verifier::rlimit(100)]
pub proof fn lemma_handshake_succeeds(
    identity: CredentialsSpec,
    server_challenge: Seq<u8>,
    client_challenge: Seq<u8>,
    exported: Seq<u8>,
    challenge_ts: u64,
    response_ts: u64,
)
    requires
        spec_identity_fits(identity),
        server_challenge.len() == 8,
        client_challenge.len() == 8,
        exported.len() == 16,
        spec_handshake_digest_lengths(
            identity,
            server_challenge,
            client_challenge,
            exported,
            challenge_ts,
            response_ts,
        ),
    ensures
        ({
            let negotiate = messages::spec_negotiate_message(NEGOTIATE_FLAGS);
            let ti = messages::spec_timestamp_target_info(challenge_ts);
            let challenge = messages::spec_challenge_message(NEGOTIATE_FLAGS, server_challenge, ti);
            let authenticate = spec_initiator_authenticate(
                identity,
                negotiate,
                challenge,
                NEGOTIATE_FLAGS,
                server_challenge,
                ti,
                response_ts,
                client_challenge,
                exported,
            );
            &&& spec_parse_negotiate(negotiate) == Ok::<u32, SspiError>(NEGOTIATE_FLAGS)
            &&& spec_parse_challenge(challenge) == Ok::<(u32, Seq<u8>, Seq<u8>), SspiError>(
                (NEGOTIATE_FLAGS, server_challenge, ti),
            )
            &&& spec_parse_authenticate(authenticate) is Ok
            &&& spec_accept_exported_key(identity, spec_parse_authenticate(authenticate)->Ok_0)
                == exported
            &&& spec_mic_ok(
                negotiate,
                challenge,
                authenticate,
                exported,
                spec_parse_authenticate(authenticate)->Ok_0.mic,
            )
            &&& spec_nt_response_shape_ok(authenticate)
            &&& spec_nt_proof_valid(identity, server_challenge, authenticate)
        }),
{
    vstd::bytes::lemma_auto_spec_u16_to_from_le_bytes();
    vstd::bytes::lemma_auto_spec_u32_to_from_le_bytes();
    vstd::bytes::lemma_auto_spec_u64_to_from_le_bytes();
    let negotiate = messages::spec_negotiate_message(NEGOTIATE_FLAGS);
    let ti = messages::spec_timestamp_target_info(challenge_ts);
    let challenge = messages::spec_challenge_message(NEGOTIATE_FLAGS, server_challenge, ti);
    messages::lemma_negotiate_round_trip(NEGOTIATE_FLAGS);
    assert(ti.len() == 16);
    messages::lemma_challenge_round_trip(NEGOTIATE_FLAGS, server_challenge, ti);

    let ntowf = spec_ntowf_v2(identity.password, identity.username, spec_domain_chars(identity));
    let temp = crypto::spec_nt_v2_temp(response_ts, client_challenge, ti);
    let nt_proof = crypto::spec_nt_v2_proof(ntowf, server_challenge, temp);
    let nt = nt_proof + temp;
    let lm = crypto::spec_lm_v2_response(ntowf, server_challenge, client_challenge);
    let base = crypto::spec_session_base_key(ntowf, nt_proof);
    assert(NEGOTIATE_FLAGS & NEGOTIATE_KEY_EXCHANGE != 0) by (bit_vector);
    let ks = spec_rc4_keystream(spec_rc4_init(base), 16);
    let key = xor_seq(exported, ks);
    let auth0 = spec_initiator_authenticate_base(
        identity,
        NEGOTIATE_FLAGS,
        server_challenge,
        ti,
        response_ts,
        client_challenge,
        exported,
    );
    let mic = spec_hmac_md5(exported, negotiate + challenge + auth0);
    let authenticate = spec_initiator_authenticate(
        identity,
        negotiate,
        challenge,
        NEGOTIATE_FLAGS,
        server_challenge,
        ti,
        response_ts,
        client_challenge,
        exported,
    );
    let dom = spec_utf16le(spec_domain_chars(identity));
    let user = spec_utf16le(identity.username);

    assert(temp.len() == 48);
    assert(nt.len() == 64);
    assert(lm.len() == 24);
    crate::encryption::lemma_rc4_keystream_len(spec_rc4_init(base), 16);
    assert(key.len() == 16);
    messages::lemma_authenticate_round_trip(
        NEGOTIATE_FLAGS,
        lm,
        nt,
        dom,
        user,
        Seq::empty(),
        key,
        mic,
    );
    let parsed = spec_parse_authenticate(authenticate)->Ok_0;

    // The acceptor recovers the exported session key: the key-exchange key
    // it derives equals the initiator's, and exclusive or undoes itself.
    assert(parsed.nt.subrange(0, 16) =~= nt_proof);
    assert(spec_hmac_md5(ntowf, parsed.nt.subrange(0, 16)) == base);
    crate::encryption::lemma_xor_seq_involution(exported, ks);
    assert(spec_accept_exported_key(identity, parsed) == exported);

    // The integrity check recomputes the same digest: zeroing the code
    // region of the finished message gives back the base message.
    messages::lemma_zero_mic_of_authenticate(
        NEGOTIATE_FLAGS,
        lm,
        nt,
        dom,
        user,
        Seq::empty(),
        key,
        mic,
    );
    assert(spec_zero_mic(authenticate) == auth0);
    assert(parsed.mic == Some(mic));
    assert(spec_mic_ok(negotiate, challenge, authenticate, exported, parsed.mic));

    // The completion check sees the fixed temp header behind the proof,
    // and recomputing the proof from the same account and challenge gives
    // back the one the initiator wrote.
    assert(parsed.nt.subrange(16, 24) =~= seq![1u8, 1u8, 0u8, 0u8, 0u8, 0u8, 0u8, 0u8]);
    assert(parsed.nt.subrange(16, parsed.nt.len() as int) =~= temp);
}

/// Copies eight bytes into a challenge array.
fn to_array_8(v: &[u8]) -> (r: [u8; 8])
    requires
        v@.len() == 8,
    ensures
        r@ == v@,
{
    let r: [u8; 8] = [v[0], v[1], v[2], v[3], v[4], v[5], v[6], v[7]];
    assert(r@ =~= v@);
    r
}

/// Copies sixteen bytes into a key array.
fn to_array_16(v: &[u8]) -> (r: [u8; 16])
    requires
        v@.len() == 16,
    ensures
        r@ == v@,
{
    let r: [u8; 16] = [
        v[0], v[1], v[2], v[3], v[4], v[5], v[6], v[7], v[8], v[9], v[10], v[11], v[12], v[13],
        v[14], v[15],
    ];
    assert(r@ =~= v@);
    r
}

/// Zeroes the integrity-code region of an AUTHENTICATE blob.
fn zero_mic_region(s: &[u8]) -> (r: Vec<u8>)
    ensures
        r@ == spec_zero_mic(s@),
{
    let mut r: Vec<u8> = Vec::new();
    let mut i: usize = 0;
    while i < s.len()
        invariant
            i <= s@.len(),
            r@.len() == i,
            forall|t: int| 0 <= t < i ==> r@[t] == spec_zero_mic(s@)[t],
        decreases s@.len() - i,
    {
        if i >= 64 && i < 80 {
            r.push(0);
        } else {
            r.push(s[i]);
        }
        i = i + 1;
    }
    assert(r@ =~= spec_zero_mic(s@));
    r
}

/// Compares two byte slices.
fn bytes_equal(a: &[u8], b: &[u8]) -> (r: bool)
    ensures
        r == (a@ == b@),
{
    if a.len() != b.len() {
        assert(a@ != b@);
        return false;
    }
    let mut i: usize = 0;
    while i < a.len()
        invariant
            i <= a@.len() == b@.len(),
            forall|t: int| 0 <= t < i ==> a@[t] == b@[t],
        decreases a@.len() - i,
    {
        if a[i] != b[i] {
            return false;
        }
        i = i + 1;
    }
    assert(a@ =~= b@);
    true
}

/// Whether a parsed NTv2 response was produced from an account's secret:
/// its proof matches the one recomputed from the password over the same
/// challenge and temp blob.
pub fn verify_nt_response(
    nt_response: &[u8],
    password: &str,
    username: &str,
    domain: &str,
    server_challenge: &[u8],
) -> (r: bool)
    requires
        nt_response@.len() >= 16,
    ensures
        r == (nt_response@.subrange(0, 16) == crate::ntlm::crypto::spec_nt_v2_proof(
            spec_ntowf_v2(password@, username@, domain@),
            server_challenge@,
            nt_response@.subrange(16, nt_response@.len() as int),
        )),
{
    let ntowf = ntowf_v2(password, username, domain);
    let temp = slice_subrange(nt_response, 16, nt_response.len());
    let expected = nt_v2_proof(ntowf.as_slice(), server_challenge, temp);
    let proof_part = slice_subrange(nt_response, 0, 16);
    bytes_equal(proof_part, expected.as_slice())
}

impl Ntlm {
    /// A fresh context for the given account, in the initial state, with
    /// no keys established.
    pub fn new(identity: Credentials, version: Vec<u8>) -> (r: Self)
        ensures
            r.identity == identity,
            r.version == version,
            r.state == NtlmState::Initial,
            r.flags == 0,
            r.negotiate_message is None,
            r.challenge_message is None,
            r.authenticate_message is None,
            r.send_sealing_key is None,
            r.recv_sealing_key is None,
            r.send_signing_key@ =~= Seq::new(16, |i: int| 0u8),
            r.recv_signing_key@ =~= Seq::new(16, |i: int| 0u8),
    {
        let zero: [u8; 16] = [0, 0, 0, 0, 0, 0, 0, 0, 0, 0, 0, 0, 0, 0, 0, 0];
        assert(zero@ =~= Seq::new(16, |i: int| 0u8));
        Ntlm {
            identity,
            version,
            state: NtlmState::Initial,
            flags: 0,
            negotiate_message: None,
            challenge_message: None,
            authenticate_message: None,
            send_signing_key: zero,
            recv_signing_key: zero,
            send_sealing_key: None,
            recv_sealing_key: None,
        }
    }

    /// Seals one message for sending: a 16-byte signature, then the
    /// ciphertext. The send stream advances; a context without a send
    /// sealing key reports `NoCredentials` and is unchanged.
    pub fn encrypt_message(&mut self, input: &[u8], seq_num: u32) -> (r: Result<
        Vec<u8>,
        SspiError,
    >)
        ensures
            match old(self)@.send_sealing {
                None => r == Err::<Vec<u8>, _>(SspiError::NoCredentials) && final(self)@ == old(
                    self,
                )@,
                Some(m) => {
                    &&& r is Ok
                    &&& r->Ok_0@ == spec_seal(old(self)@.send_signing_key, seq_num, input@, m).0
                    &&& final(self)@ == NtlmView {
                        send_sealing: Some(
                            spec_seal(old(self)@.send_signing_key, seq_num, input@, m).1,
                        ),
                        ..old(self)@
                    }
                },
            },
    {
        let mut rc4 = match self.send_sealing_key.take() {
            Some(r) => r,
            None => {
                return Err(SspiError::NoCredentials);
            },
        };
        proof {
            use_type_invariant(&rc4);
        }
        let ghost m = rc4@;
        let ciphertext = rc4.process(input);
        let mut data = u32_to_le_bytes(seq_num);
        push_bytes(&mut data, input);
        let digest = hmac_md5(array_as_slice(&self.send_signing_key), data.as_slice());
        let sealed_digest = rc4.process(digest.as_slice());
        let mut result: Vec<u8> = vec![1u8, 0u8, 0u8, 0u8];
        push_bytes(&mut result, slice_subrange(sealed_digest.as_slice(), 0, 8));
        let seq_le = u32_to_le_bytes(seq_num);
        push_bytes(&mut result, seq_le.as_slice());
        push_bytes(&mut result, ciphertext.as_slice());
        self.send_sealing_key = Some(rc4);
        proof {
            crate::encryption::lemma_rc4_keystream_len(
                spec_rc4_advance(m, input@.len()),
                digest@.len(),
            );
            assert(result@ =~= spec_seal(old(self)@.send_signing_key, seq_num, input@, m).0);
        }
        Ok(result)
    }

    /// Opens one sealed message: recovers the plaintext and fails with
    /// `MessageAltered` unless the recomputed signature matches bit for
    /// bit. The receive stream advances even then — its bytes are spent —
    /// but the authentication state never changes.
    pub fn decrypt_message(&mut self, input: &[u8], seq_num: u32) -> (r: Result<
        Vec<u8>,
        SspiError,
    >)
        ensures
            match old(self)@.recv_sealing {
                None => r == Err::<Vec<u8>, _>(SspiError::NoCredentials) && final(self)@ == old(
                    self,
                )@,
                Some(m) => {
                    &&& final(self)@ == NtlmView {
                        recv_sealing: Some(
                            spec_unseal(old(self)@.recv_signing_key, seq_num, input@, m).1,
                        ),
                        ..old(self)@
                    }
                    &&& match spec_unseal(old(self)@.recv_signing_key, seq_num, input@, m).0 {
                        Some(p) => r is Ok && r->Ok_0@ == p,
                        None => r is Err && (input@.len() < 16 ==> r == Err::<Vec<u8>, _>(
                            SspiError::BufferTooSmall,
                        )) && (input@.len() >= 16 ==> r == Err::<Vec<u8>, _>(
                            SspiError::MessageAltered,
                        )),
                    }
                },
            },
    {
        let mut rc4 = match self.recv_sealing_key.take() {
            Some(r) => r,
            None => {
                return Err(SspiError::NoCredentials);
            },
        };
        proof {
            use_type_invariant(&rc4);
        }
        let ghost m = rc4@;
        if input.len() < SIGNATURE_SIZE {
            self.recv_sealing_key = Some(rc4);
            return Err(SspiError::BufferTooSmall);
        }
        let sig_in = slice_subrange(input, 0, 16);
        let ct = slice_subrange(input, 16, input.len());
        let plain = rc4.process(ct);
        let mut data = u32_to_le_bytes(seq_num);
        push_bytes(&mut data, plain.as_slice());
        let digest = hmac_md5(array_as_slice(&self.recv_signing_key), data.as_slice());
        let sealed_digest = rc4.process(digest.as_slice());
        let mut expected: Vec<u8> = vec![1u8, 0u8, 0u8, 0u8];
        push_bytes(&mut expected, slice_subrange(sealed_digest.as_slice(), 0, 8));
        let seq_le = u32_to_le_bytes(seq_num);
        push_bytes(&mut expected, seq_le.as_slice());
        self.recv_sealing_key = Some(rc4);
        proof {
            crate::encryption::lemma_rc4_keystream_len(
                spec_rc4_advance(m, ct@.len()),
                digest@.len(),
            );
            assert(expected@ =~= spec_signature(
                old(self)@.recv_signing_key,
                seq_num,
                plain@,
                spec_rc4_advance(m, ct@.len()),
            ));
        }
        if bytes_equal(sig_in, expected.as_slice()) {
            Ok(plain)
        } else {
            Err(SspiError::MessageAltered)
        }
    }

    /// Drives the initiator. From the initial state it emits the NEGOTIATE
    /// message and waits for the challenge; from the challenge state it
    /// consumes the CHALLENGE message, computes the NTv2 response, builds
    /// the AUTHENTICATE message with its integrity code, derives the four
    /// directional keys, and is done. Any other state, a malformed
    /// challenge, a missing stored NEGOTIATE blob, or an oversized account
    /// name fails without touching the context.
    pub fn initialize_security_context(&mut self, input: &[u8], output: &mut Vec<u8>) -> (r:
        Result<SspiOk, SspiError>)
        ensures
            old(self).state != NtlmState::Initial && old(self).state != NtlmState::Challenge
                ==> r == Err::<SspiOk, _>(SspiError::OutOfSequence),
            r is Err ==> final(self)@ == old(self)@ && final(output)@ == old(output)@,
            old(self).state == NtlmState::Initial ==> {
                &&& r == Ok::<_, SspiError>(SspiOk::ContinueNeeded)
                &&& final(self).state == NtlmState::Challenge
                &&& final(output)@ == old(output)@ + messages::spec_negotiate_message(
                    NEGOTIATE_FLAGS,
                )
                &&& final(self)@.negotiate == Some(
                    messages::spec_negotiate_message(NEGOTIATE_FLAGS),
                )
            },
            old(self).state == NtlmState::Challenge ==> ((r is Ok) <==> {
                &&& old(self)@.negotiate is Some
                &&& spec_parse_challenge(input@) is Ok
                &&& spec_identity_fits(old(self)@.identity)
            }),
            old(self).state == NtlmState::Challenge && r is Ok ==> {
                &&& r == Ok::<_, SspiError>(SspiOk::CompleteNeeded)
                &&& final(self).state == NtlmState::Final
                &&& final(self)@.authenticate is Some
                &&& final(output)@ == old(output)@ + final(self)@.authenticate->Some_0.0
                &&& final(output)@.len() > old(output)@.len()
                &&& final(self)@.send_sealing is Some
                &&& final(self)@.recv_sealing is Some
                &&& (exists|cc: Seq<u8>, ex: Seq<u8>, ts: u64|
                    #![trigger spec_initiator_authenticate(
                        old(self)@.identity,
                        old(self)@.negotiate->Some_0,
                        input@,
                        spec_parse_challenge(input@)->Ok_0.0,
                        spec_parse_challenge(input@)->Ok_0.1,
                        spec_parse_challenge(input@)->Ok_0.2,
                        ts,
                        cc,
                        ex,
                    )]
                    {
                        &&& cc.len() == 8
                        &&& ex.len() == 16
                        &&& final(self)@.authenticate->Some_0.0 == spec_initiator_authenticate(
                            old(self)@.identity,
                            old(self)@.negotiate->Some_0,
                            input@,
                            spec_parse_challenge(input@)->Ok_0.0,
                            spec_parse_challenge(input@)->Ok_0.1,
                            spec_parse_challenge(input@)->Ok_0.2,
                            ts,
                            cc,
                            ex,
                        )
                        &&& final(self)@.authenticate->Some_0.2 == ex
                        &&& final(self)@.send_signing_key == crypto::spec_derived_key(
                            ex,
                            crypto::spec_client_signing_magic(),
                        )
                        &&& final(self)@.recv_signing_key == crypto::spec_derived_key(
                            ex,
                            crypto::spec_server_signing_magic(),
                        )
                        &&& final(self)@.send_sealing == Some(
                            spec_rc4_init(
                                crypto::spec_derived_key(ex, crypto::spec_client_sealing_magic()),
                            ),
                        )
                        &&& final(self)@.recv_sealing == Some(
                            spec_rc4_init(
                                crypto::spec_derived_key(ex, crypto::spec_server_sealing_magic()),
                            ),
                        )
                    })
            },
    {
        match self.state {
            NtlmState::Initial => {
                let neg = write_negotiate_message(NEGOTIATE_FLAGS);
                push_bytes(output, neg.as_slice());
                self.negotiate_message = Some(NegotiateMessage::new(neg));
                self.state = NtlmState::Challenge;
                Ok(SspiOk::ContinueNeeded)
            },
            NtlmState::Challenge => {
                let ghost identity0 = self.identity@;
                let neg_blob = match &self.negotiate_message {
                    Some(m) => slice_to_vec(m.message.as_slice()),
                    None => {
                        return Err(SspiError::InvalidToken);
                    },
                };
                let (chal_flags, server_challenge, target_info) = match read_challenge_message(
                    input,
                ) {
                    Ok(t) => t,
                    Err(e) => {
                        return Err(e);
                    },
                };
                let user_b = utf16le_bytes(self.identity.username.as_str());
                let domain_b = match &self.identity.domain {
                    Some(d) => utf16le_bytes(d.as_str()),
                    None => {
                        let v: Vec<u8> = Vec::new();
                        assert(v@ =~= spec_utf16le(Seq::<char>::empty()));
                        v
                    },
                };
                if user_b.len() > 0xFFFF || domain_b.len() > 0xFFFF {
                    return Err(SspiError::InvalidToken);
                }
                let timestamp = match find_av_timestamp(target_info.as_slice()) {
                    Some(t) => t,
                    None => current_filetime(),
                };
                let client_challenge = random_bytes(CHALLENGE_SIZE);
                let domain_str: &str = match &self.identity.domain {
                    Some(d) => d.as_str(),
                    None => "",
                };
                proof {
                    reveal_strlit("");
                    assert(""@ =~= Seq::<char>::empty());
                    assert(domain_str@ == spec_domain_chars(identity0));
                }
                let ntowf = ntowf_v2(
                    self.identity.password.as_str(),
                    self.identity.username.as_str(),
                    domain_str,
                );
                let temp = nt_v2_temp(
                    timestamp,
                    client_challenge.as_slice(),
                    target_info.as_slice(),
                );
                let proof_bytes = nt_v2_proof(
                    ntowf.as_slice(),
                    server_challenge.as_slice(),
                    temp.as_slice(),
                );
                let mut nt: Vec<u8> = Vec::new();
                push_bytes(&mut nt, proof_bytes.as_slice());
                push_bytes(&mut nt, temp.as_slice());
                let lm = lm_v2_response(
                    ntowf.as_slice(),
                    server_challenge.as_slice(),
                    client_challenge.as_slice(),
                );
                let base = crypto::session_base_key(ntowf.as_slice(), proof_bytes.as_slice());
                let (exported, key_field): (Vec<u8>, Vec<u8>) = if chal_flags
                    & NEGOTIATE_KEY_EXCHANGE != 0 {
                    let e = random_bytes(16);
                    let mut kx = Rc4::new(base.as_slice());
                    let enc = kx.process(e.as_slice());
                    (e, enc)
                } else {
                    (base, Vec::new())
                };
                let ws: Vec<u8> = Vec::new();
                let zeros16: Vec<u8> = vec![
                    0u8, 0u8, 0u8, 0u8, 0u8, 0u8, 0u8, 0u8, 0u8, 0u8, 0u8, 0u8, 0u8, 0u8, 0u8,
                    0u8,
                ];
                let auth0 = write_authenticate_message(
                    chal_flags,
                    lm.as_slice(),
                    nt.as_slice(),
                    domain_b.as_slice(),
                    user_b.as_slice(),
                    ws.as_slice(),
                    key_field.as_slice(),
                    zeros16.as_slice(),
                );
                let mut mic_data: Vec<u8> = Vec::new();
                push_bytes(&mut mic_data, neg_blob.as_slice());
                push_bytes(&mut mic_data, input);
                push_bytes(&mut mic_data, auth0.as_slice());
                let mic = hmac_md5(exported.as_slice(), mic_data.as_slice());
                let auth = write_authenticate_message(
                    chal_flags,
                    lm.as_slice(),
                    nt.as_slice(),
                    domain_b.as_slice(),
                    user_b.as_slice(),
                    ws.as_slice(),
                    key_field.as_slice(),
                    mic.as_slice(),
                );
                let ghost auth_view = auth@;
                let csm = client_signing_magic();
                let ssm = server_signing_magic();
                let cem = client_sealing_magic();
                let sem = server_sealing_magic();
                let send_sign = derive_key(exported.as_slice(), csm.as_slice());
                let recv_sign = derive_key(exported.as_slice(), ssm.as_slice());
                let send_seal = derive_key(exported.as_slice(), cem.as_slice());
                let recv_seal = derive_key(exported.as_slice(), sem.as_slice());
                push_bytes(output, auth.as_slice());
                self.flags = chal_flags;
                self.challenge_message = Some(
                    ChallengeMessage::new(
                        slice_to_vec(input),
                        target_info,
                        to_array_8(server_challenge.as_slice()),
                        timestamp,
                    ),
                );
                self.authenticate_message = Some(
                    AuthenticateMessage::new(
                        auth,
                        Some(Mic::new(to_array_16(mic.as_slice()), MIC_OFFSET as u8)),
                        to_array_16(exported.as_slice()),
                    ),
                );
                self.send_signing_key = to_array_16(send_sign.as_slice());
                self.recv_signing_key = to_array_16(recv_sign.as_slice());
                self.send_sealing_key = Some(Rc4::new(send_seal.as_slice()));
                self.recv_sealing_key = Some(Rc4::new(recv_seal.as_slice()));
                self.state = NtlmState::Final;
                proof {
                    let cf = spec_parse_challenge(input@)->Ok_0.0;
                    let sc = spec_parse_challenge(input@)->Ok_0.1;
                    let ti = spec_parse_challenge(input@)->Ok_0.2;
                    let cc = client_challenge@;
                    let ex = exported@;
                    assert(nt@ =~= proof_bytes@ + temp@);
                    assert(ws@ =~= Seq::<u8>::empty());
                    assert(zeros16@ =~= spec_zeros16());
                    assert(auth0@ == spec_initiator_authenticate_base(
                        identity0,
                        cf,
                        sc,
                        ti,
                        timestamp,
                        cc,
                        ex,
                    ));
                    assert(mic_data@ =~= neg_blob@ + input@ + auth0@);
                    assert(auth_view == spec_initiator_authenticate(
                        identity0,
                        neg_blob@,
                        input@,
                        cf,
                        sc,
                        ti,
                        timestamp,
                        cc,
                        ex,
                    ));
                    assert(identity0 == old(self)@.identity);
                    assert(neg_blob@ == old(self)@.negotiate->Some_0);
                    assert(cc.len() == 8 && ex.len() == 16);
                    assert(self@.authenticate->Some_0.0 == spec_initiator_authenticate(
                        old(self)@.identity,
                        old(self)@.negotiate->Some_0,
                        input@,
                        spec_parse_challenge(input@)->Ok_0.0,
                        spec_parse_challenge(input@)->Ok_0.1,
                        spec_parse_challenge(input@)->Ok_0.2,
                        timestamp,
                        cc,
                        ex,
                    ));
                    assert(self@.authenticate->Some_0.2 == ex);
                    assert(self@.send_signing_key == crypto::spec_derived_key(
                        ex,
                        crypto::spec_client_signing_magic(),
                    ));
                    assert(self@.recv_signing_key == crypto::spec_derived_key(
                        ex,
                        crypto::spec_server_signing_magic(),
                    ));
                }
                Ok(SspiOk::CompleteNeeded)
            },
            _ => Err(SspiError::OutOfSequence),
        }
    }

    /// Drives the acceptor. From the initial state it consumes the
    /// NEGOTIATE message and emits a CHALLENGE carrying a fresh server
    /// challenge and the current timestamp; from the authenticate state it
    /// consumes the AUTHENTICATE message, recovers the session key,
    /// validates the integrity code when one is carried, and derives the
    /// directional keys. Any other state or a malformed message fails
    /// without touching the context.
    pub fn accept_security_context(&mut self, input: &[u8], output: &mut Vec<u8>) -> (r: Result<
        SspiOk,
        SspiError,
    >)
        ensures
            old(self).state != NtlmState::Initial && old(self).state != NtlmState::Authenticate
                ==> r == Err::<SspiOk, _>(SspiError::OutOfSequence),
            r is Err ==> final(self)@ == old(self)@ && final(output)@ == old(output)@,
            old(self).state == NtlmState::Initial ==> ((r is Ok) <==> spec_parse_negotiate(
                input@,
            ) is Ok),
            old(self).state == NtlmState::Initial && r is Ok ==> {
                &&& r == Ok::<_, SspiError>(SspiOk::ContinueNeeded)
                &&& final(self).state == NtlmState::Authenticate
                &&& final(self)@.negotiate == Some(input@)
                &&& final(self)@.challenge is Some
                &&& final(output)@ == old(output)@ + final(self)@.challenge->Some_0.0
                &&& final(output)@.len() > old(output)@.len()
                &&& (exists|sc: Seq<u8>, ts: u64|
                    #![trigger messages::spec_challenge_message(
                        NEGOTIATE_FLAGS,
                        sc,
                        messages::spec_timestamp_target_info(ts),
                    )]
                    {
                        &&& sc.len() == 8
                        &&& final(self)@.challenge == Some(
                            (
                                messages::spec_challenge_message(
                                    NEGOTIATE_FLAGS,
                                    sc,
                                    messages::spec_timestamp_target_info(ts),
                                ),
                                messages::spec_timestamp_target_info(ts),
                                sc,
                                ts,
                            ),
                        )
                    })
            },
            old(self).state == NtlmState::Authenticate ==> ((r is Ok) <==> {
                &&& old(self)@.negotiate is Some
                &&& old(self)@.challenge is Some
                &&& spec_parse_authenticate(input@) is Ok
                &&& spec_mic_ok(
                    old(self)@.negotiate->Some_0,
                    old(self)@.challenge->Some_0.0,
                    input@,
                    spec_accept_exported_key(
                        old(self)@.identity,
                        spec_parse_authenticate(input@)->Ok_0,
                    ),
                    spec_parse_authenticate(input@)->Ok_0.mic,
                )
            }),
            old(self).state == NtlmState::Authenticate && r is Ok ==> ({
                let ex = spec_accept_exported_key(
                    old(self)@.identity,
                    spec_parse_authenticate(input@)->Ok_0,
                );
                &&& r == Ok::<_, SspiError>(SspiOk::CompleteNeeded)
                &&& final(self).state == NtlmState::Completion
                &&& final(self)@.authenticate is Some
                &&& final(self)@.authenticate->Some_0.0 == input@
                &&& final(self)@.authenticate->Some_0.2 == ex
                &&& final(self)@.send_signing_key == crypto::spec_derived_key(
                    ex,
                    crypto::spec_server_signing_magic(),
                )
                &&& final(self)@.recv_signing_key == crypto::spec_derived_key(
                    ex,
                    crypto::spec_client_signing_magic(),
                )
                &&& final(self)@.send_sealing == Some(
                    spec_rc4_init(
                        crypto::spec_derived_key(ex, crypto::spec_server_sealing_magic()),
                    ),
                )
                &&& final(self)@.recv_sealing == Some(
                    spec_rc4_init(
                        crypto::spec_derived_key(ex, crypto::spec_client_sealing_magic()),
                    ),
                )
                &&& final(output)@ == old(output)@
            }),
    {
        match self.state {
            NtlmState::Initial => {
                let _client_flags = match read_negotiate_message(input) {
                    Ok(f) => f,
                    Err(e) => {
                        return Err(e);
                    },
                };
                let server_challenge = random_bytes(CHALLENGE_SIZE);
                let timestamp = current_filetime();
                let ti = timestamp_target_info(timestamp);
                let chal = write_challenge_message(
                    NEGOTIATE_FLAGS,
                    server_challenge.as_slice(),
                    ti.as_slice(),
                );
                push_bytes(output, chal.as_slice());
                self.negotiate_message = Some(NegotiateMessage::new(slice_to_vec(input)));
                self.challenge_message = Some(
                    ChallengeMessage::new(
                        chal,
                        ti,
                        to_array_8(server_challenge.as_slice()),
                        timestamp,
                    ),
                );
                self.flags = NEGOTIATE_FLAGS;
                self.state = NtlmState::Authenticate;
                proof {
                    assert(server_challenge@.len() == 8);
                    assert(self@.challenge == Some(
                        (
                            messages::spec_challenge_message(
                                NEGOTIATE_FLAGS,
                                server_challenge@,
                                messages::spec_timestamp_target_info(timestamp),
                            ),
                            messages::spec_timestamp_target_info(timestamp),
                            server_challenge@,
                            timestamp,
                        ),
                    ));
                }
                Ok(SspiOk::ContinueNeeded)
            },
            NtlmState::Authenticate => {
                let neg_blob = match &self.negotiate_message {
                    Some(m) => slice_to_vec(m.message.as_slice()),
                    None => {
                        return Err(SspiError::InvalidToken);
                    },
                };
                let chal_blob = match &self.challenge_message {
                    Some(m) => slice_to_vec(m.message.as_slice()),
                    None => {
                        return Err(SspiError::InvalidToken);
                    },
                };
                let parsed = match read_authenticate_message(input) {
                    Ok(p) => p,
                    Err(e) => {
                        return Err(e);
                    },
                };
                let domain_str: &str = match &self.identity.domain {
                    Some(d) => d.as_str(),
                    None => "",
                };
                proof {
                    reveal_strlit("");
                    assert(""@ =~= Seq::<char>::empty());
                }
                let ntowf = ntowf_v2(
                    self.identity.password.as_str(),
                    self.identity.username.as_str(),
                    domain_str,
                );
                let proof_part = slice_subrange(parsed.nt.as_slice(), 0, 16);
                let base = crypto::session_base_key(ntowf.as_slice(), proof_part);
                let exported: Vec<u8> = match &parsed.encrypted_key {
                    Some(k) => {
                        let mut kx = Rc4::new(base.as_slice());
                        kx.process(k.as_slice())
                    },
                    None => base,
                };
                let mic_arr: Option<Mic> = match &parsed.mic {
                    Some(mic) => {
                        let z = zero_mic_region(input);
                        let mut mic_data: Vec<u8> = Vec::new();
                        push_bytes(&mut mic_data, neg_blob.as_slice());
                        push_bytes(&mut mic_data, chal_blob.as_slice());
                        push_bytes(&mut mic_data, z.as_slice());
                        let want = hmac_md5(exported.as_slice(), mic_data.as_slice());
                        if !bytes_equal(mic.as_slice(), want.as_slice()) {
                            return Err(SspiError::MessageAltered);
                        }
                        Some(Mic::new(to_array_16(mic.as_slice()), MIC_OFFSET as u8))
                    },
                    None => None,
                };
                let csm = client_signing_magic();
                let ssm = server_signing_magic();
                let cem = client_sealing_magic();
                let sem = server_sealing_magic();
                let send_sign = derive_key(exported.as_slice(), ssm.as_slice());
                let recv_sign = derive_key(exported.as_slice(), csm.as_slice());
                let send_seal = derive_key(exported.as_slice(), sem.as_slice());
                let recv_seal = derive_key(exported.as_slice(), cem.as_slice());
                self.authenticate_message = Some(
                    AuthenticateMessage::new(
                        slice_to_vec(input),
                        mic_arr,
                        to_array_16(exported.as_slice()),
                    ),
                );
                self.flags = parsed.flags;
                self.send_signing_key = to_array_16(send_sign.as_slice());
                self.recv_signing_key = to_array_16(recv_sign.as_slice());
                self.send_sealing_key = Some(Rc4::new(send_seal.as_slice()));
                self.recv_sealing_key = Some(Rc4::new(recv_seal.as_slice()));
                self.state = NtlmState::Completion;
                Ok(SspiOk::CompleteNeeded)
            },
            _ => Err(SspiError::OutOfSequence),
        }
    }

    /// Finishes the acceptor's authentication: validates the NTv2 response
    /// against the stored account's password. Callable only from the
    /// completion state with all three messages preserved; the stored
    /// AUTHENTICATE blob must parse, its NTv2 response must open with the
    /// fixed temp header, and its proof must equal the one recomputed from
    /// the password over the stored server challenge — else the call fails
    /// with a security error and nothing changes.
    pub fn complete_auth_token(&mut self) -> (r: Result<(), SspiError>)
        ensures
            old(self).state != NtlmState::Completion ==> r == Err::<(), _>(
                SspiError::OutOfSequence,
            ),
            r is Err ==> final(self)@ == old(self)@,
            (r is Ok) <==> (old(self).state == NtlmState::Completion && old(self)@.negotiate
                is Some && old(self)@.challenge is Some && old(self)@.authenticate is Some
                && spec_nt_response_shape_ok(old(self)@.authenticate->Some_0.0)
                && spec_nt_proof_valid(
                old(self)@.identity,
                old(self)@.challenge->Some_0.2,
                old(self)@.authenticate->Some_0.0,
            )),
            r is Ok ==> final(self)@ == (NtlmView { state: NtlmState::Final, ..old(self)@ }),
    {
        if self.state != NtlmState::Completion {
            return Err(SspiError::OutOfSequence);
        }
        if self.negotiate_message.is_none() {
            return Err(SspiError::InvalidToken);
        }
        let server_challenge: [u8; 8] = match &self.challenge_message {
            Some(c) => c.server_challenge,
            None => {
                return Err(SspiError::InvalidToken);
            },
        };
        let blob = match &self.authenticate_message {
            Some(a) => slice_to_vec(a.message.as_slice()),
            None => {
                return Err(SspiError::InvalidToken);
            },
        };
        let parsed = match read_authenticate_message(blob.as_slice()) {
            Ok(p) => p,
            Err(e) => {
                return Err(e);
            },
        };
        let header: Vec<u8> = vec![1u8, 1u8, 0u8, 0u8, 0u8, 0u8, 0u8, 0u8];
        let nt_header = slice_subrange(parsed.nt.as_slice(), 16, 24);
        if !bytes_equal(nt_header, header.as_slice()) {
            return Err(SspiError::MessageAltered);
        }
        let domain_str: &str = match &self.identity.domain {
            Some(d) => d.as_str(),
            None => "",
        };
        proof {
            reveal_strlit("");
            assert(""@ =~= Seq::<char>::empty());
            assert(domain_str@ == spec_domain_chars(self@.identity));
        }
        if !verify_nt_response(
            parsed.nt.as_slice(),
            self.identity.password.as_str(),
            self.identity.username.as_str(),
            domain_str,
            array_as_slice(&server_challenge),
        ) {
            return Err(SspiError::MessageAltered);
        }
        self.state = NtlmState::Final;
        Ok(())
    }
}

} // verus!
