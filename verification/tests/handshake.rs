use rdp_proto::encryption::hmac_md5;
use rdp_proto::ntlm::crypto::{current_filetime, ntowf_v2, utf16le_bytes};
use rdp_proto::ntlm::{verify_nt_response, Ntlm, NtlmState};
use rdp_proto::sspi::{Credentials, SspiError, SspiOk};

fn identity() -> Credentials {
    Credentials::new(
        String::from("User"),
        String::from("Password"),
        Some(String::from("Domain")),
    )
}

fn version() -> Vec<u8> {
    vec![0x06, 0x02, 0xb0, 0x1d, 0x00, 0x00, 0x00, 0x0f]
}

#[test]
fn full_handshake_reaches_final_on_both_sides() {
    let mut initiator = Ntlm::new(identity(), version());
    let mut acceptor = Ntlm::new(identity(), version());

    let mut negotiate = Vec::new();
    assert_eq!(
        initiator.initialize_security_context(&[], &mut negotiate),
        Ok(SspiOk::ContinueNeeded)
    );

    let mut challenge = Vec::new();
    assert_eq!(
        acceptor.accept_security_context(&negotiate, &mut challenge),
        Ok(SspiOk::ContinueNeeded)
    );

    let mut authenticate = Vec::new();
    assert_eq!(
        initiator.initialize_security_context(&challenge, &mut authenticate),
        Ok(SspiOk::CompleteNeeded)
    );
    assert_eq!(initiator.state, NtlmState::Final);

    let mut ignored = Vec::new();
    assert_eq!(
        acceptor.accept_security_context(&authenticate, &mut ignored),
        Ok(SspiOk::CompleteNeeded)
    );
    assert_eq!(acceptor.state, NtlmState::Completion);

    acceptor.complete_auth_token().unwrap();
    assert_eq!(acceptor.state, NtlmState::Final);
}

#[test]
fn handshake_keys_seal_and_open_in_both_directions() {
    let mut initiator = Ntlm::new(identity(), version());
    let mut acceptor = Ntlm::new(identity(), version());

    let mut negotiate = Vec::new();
    initiator.initialize_security_context(&[], &mut negotiate).unwrap();
    let mut challenge = Vec::new();
    acceptor.accept_security_context(&negotiate, &mut challenge).unwrap();
    let mut authenticate = Vec::new();
    initiator.initialize_security_context(&challenge, &mut authenticate).unwrap();
    let mut ignored = Vec::new();
    acceptor.accept_security_context(&authenticate, &mut ignored).unwrap();
    acceptor.complete_auth_token().unwrap();

    let message = b"attack at dawn";
    let sealed = initiator.encrypt_message(message, 0).unwrap();
    let opened = acceptor.decrypt_message(&sealed, 0).unwrap();
    assert_eq!(opened, message.to_vec());

    let reply = b"hold the line";
    let sealed_reply = acceptor.encrypt_message(reply, 0).unwrap();
    let opened_reply = initiator.decrypt_message(&sealed_reply, 0).unwrap();
    assert_eq!(opened_reply, reply.to_vec());
}

#[test]
fn handshake_nt_response_verifies_against_password() {
    let mut initiator = Ntlm::new(identity(), version());
    let mut acceptor = Ntlm::new(identity(), version());

    let mut negotiate = Vec::new();
    initiator.initialize_security_context(&[], &mut negotiate).unwrap();
    let mut challenge = Vec::new();
    acceptor.accept_security_context(&negotiate, &mut challenge).unwrap();
    let mut authenticate = Vec::new();
    initiator.initialize_security_context(&challenge, &mut authenticate).unwrap();
    let mut ignored = Vec::new();
    acceptor.accept_security_context(&authenticate, &mut ignored).unwrap();

    // The NT response the initiator produced validates against the right
    // password and fails against a wrong one.
    let parsed = rdp_proto::ntlm::messages::read_authenticate_message(&authenticate).unwrap();
    let server_challenge = acceptor.challenge_message.as_ref().unwrap().server_challenge;
    assert!(verify_nt_response(
        &parsed.nt,
        "Password",
        "User",
        "Domain",
        &server_challenge
    ));
    assert!(!verify_nt_response(
        &parsed.nt,
        "WrongPassword",
        "User",
        "Domain",
        &server_challenge
    ));
}

#[test]
fn decrypt_without_keys_reports_no_credentials() {
    let mut context = Ntlm::new(identity(), version());
    assert_eq!(
        context.decrypt_message(&[0u8; 20], 0).unwrap_err(),
        SspiError::NoCredentials
    );
    assert_eq!(
        context.encrypt_message(&[0u8; 4], 0).unwrap_err(),
        SspiError::NoCredentials
    );
}

#[test]
fn decrypt_short_message_reports_buffer_too_small() {
    let mut context = Ntlm::new(identity(), version());
    context.recv_sealing_key = Some(rdp_proto::encryption::Rc4::new(&[1u8; 16]));
    assert_eq!(
        context.decrypt_message(&[0u8; 15], 0).unwrap_err(),
        SspiError::BufferTooSmall
    );
}

#[test]
fn hmac_md5_matches_reference_vector() {
    // RFC 2202 test case 1.
    let key = [0x0bu8; 16];
    let digest = hmac_md5(&key, b"Hi There");
    assert_eq!(
        digest,
        vec![
            0x92, 0x94, 0x72, 0x7a, 0x36, 0x38, 0xbb, 0x1c, 0x13, 0xf4, 0x8e, 0xf8, 0x15, 0x8b,
            0xfc, 0x9d
        ]
    );
}

#[test]
fn ntowf_v2_matches_reference_vector() {
    // MS-NLMP NTLMv2 example: user User in Domain with password Password.
    let hash = ntowf_v2("Password", "User", "Domain");
    assert_eq!(
        hash,
        vec![
            0x0c, 0x86, 0x8a, 0x40, 0x3b, 0xfd, 0x7a, 0x93, 0xa3, 0x00, 0x1e, 0xf2, 0x2e, 0xf0,
            0x2e, 0x3f
        ]
    );
}

#[test]
fn utf16le_encodes_ascii_and_supplementary_characters() {
    assert_eq!(utf16le_bytes("A"), vec![0x41, 0x00]);
    assert_eq!(utf16le_bytes("ab"), vec![0x61, 0x00, 0x62, 0x00]);
    // U+10400 encodes as the surrogate pair D801 DC00.
    assert_eq!(utf16le_bytes("\u{10400}"), vec![0x01, 0xD8, 0x00, 0xDC]);
}

#[test]
fn current_filetime_is_past_the_epoch() {
    // 116444736000000000 is the Unix epoch as a FILETIME.
    assert!(current_filetime() >= 116444736000000000);
}
