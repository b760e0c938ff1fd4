use rdp_proto::nego::{
    parse_negotiation_request, parse_negotiation_response, read_nego_data, read_string_with_cr_lf,
    write_negotiation_request, write_negotiation_response, write_negotiation_response_error,
    NegoData, NegotiationError, NegotiationFailureCodes, NegotiationRequestFlags,
    NegotiationResponseFlags, SecurityProtocol, PROTOCOL_SSL,
};
use rdp_proto::tpdu::X224TPDUType;

#[test]
fn negotiation_request_cookie_only() {
    let input = b"Cookie: mstshash=user\r\n";
    let (nego, protocol, flags) =
        parse_negotiation_request(X224TPDUType::ConnectionRequest, input).unwrap();
    assert_eq!(nego, Some(NegoData::Cookie(String::from("user"))));
    assert_eq!(protocol.bits, 0);
    assert_eq!(flags.bits, 0);
}

#[test]
fn negotiation_request_cookie_and_ssl() {
    let mut input = b"Cookie: mstshash=user\r\n".to_vec();
    input.extend_from_slice(&[0x01, 0x00, 0x08, 0x00, 0x01, 0x00, 0x00, 0x00]);
    let (nego, protocol, flags) =
        parse_negotiation_request(X224TPDUType::ConnectionRequest, &input).unwrap();
    assert_eq!(nego, Some(NegoData::Cookie(String::from("user"))));
    assert_eq!(protocol.bits, PROTOCOL_SSL);
    assert_eq!(flags.bits, 0);
}

#[test]
fn negotiation_failure_response_parses_as_error() {
    let input = [0x03, 0x00, 0x08, 0x00, 0x02, 0x00, 0x00, 0x00];
    let err = parse_negotiation_response(X224TPDUType::ConnectionConfirm, &input).unwrap_err();
    assert_eq!(
        err,
        NegotiationError::NegotiationFailure(NegotiationFailureCodes::SSLNotAllowedByServer)
    );
}

#[test]
fn negotiation_request_round_trips() {
    let mut buffer = Vec::new();
    write_negotiation_request(
        &mut buffer,
        &String::from("mycookie"),
        SecurityProtocol { bits: 3 },
        NegotiationRequestFlags { bits: 0x01 },
    );
    let (nego, protocol, flags) =
        parse_negotiation_request(X224TPDUType::ConnectionRequest, &buffer).unwrap();
    assert_eq!(nego, Some(NegoData::Cookie(String::from("mycookie"))));
    assert_eq!(protocol.bits, 3);
    assert_eq!(flags.bits, 0x01);
}

#[test]
fn negotiation_request_without_neg_req_defaults_to_rdp() {
    let input = b"Cookie: mstshash=abc\r\n";
    let (nego, protocol, flags) =
        parse_negotiation_request(X224TPDUType::ConnectionRequest, input).unwrap();
    assert_eq!(nego, Some(NegoData::Cookie(String::from("abc"))));
    assert_eq!(protocol.bits, 0);
    assert_eq!(flags.bits, 0);
}

#[test]
fn negotiation_request_routing_token_takes_precedence() {
    let input = b"Cookie: msts=3640205228.15629.0000\r\n";
    let (nego, protocol, _flags) =
        parse_negotiation_request(X224TPDUType::ConnectionRequest, input).unwrap();
    assert_eq!(
        nego,
        Some(NegoData::RoutingToken(String::from("3640205228.15629.0000")))
    );
    assert_eq!(protocol.bits, 0);
}

#[test]
fn negotiation_request_no_prologue_is_legacy() {
    let input = b"ab";
    let (nego, protocol, flags) =
        parse_negotiation_request(X224TPDUType::ConnectionRequest, input).unwrap();
    assert_eq!(nego, None);
    assert_eq!(protocol.bits, 0);
    assert_eq!(flags.bits, 0);
}

#[test]
fn negotiation_request_wrong_tpdu_code() {
    let err = parse_negotiation_request(X224TPDUType::Data, b"").unwrap_err();
    assert_eq!(err, NegotiationError::UnexpectedTpduCode);
}

#[test]
fn negotiation_request_unterminated_prologue_fails() {
    let input = b"Cookie: mstshash=user";
    let err = parse_negotiation_request(X224TPDUType::ConnectionRequest, input).unwrap_err();
    assert_eq!(err, NegotiationError::UnterminatedPrologue);
}

#[test]
fn negotiation_request_bad_type_byte() {
    let input = [0x05, 0x00, 0x08, 0x00, 0x01, 0x00, 0x00, 0x00];
    let err = parse_negotiation_request(X224TPDUType::ConnectionRequest, &input).unwrap_err();
    assert_eq!(err, NegotiationError::InvalidRequestCode);
}

#[test]
fn negotiation_request_bad_flags() {
    let input = [0x01, 0xF0, 0x08, 0x00, 0x01, 0x00, 0x00, 0x00];
    let err = parse_negotiation_request(X224TPDUType::ConnectionRequest, &input).unwrap_err();
    assert_eq!(err, NegotiationError::InvalidRequestFlags);
}

#[test]
fn negotiation_request_bad_protocol() {
    let input = [0x01, 0x00, 0x08, 0x00, 0xFF, 0x00, 0x00, 0x00];
    let err = parse_negotiation_request(X224TPDUType::ConnectionRequest, &input).unwrap_err();
    assert_eq!(err, NegotiationError::InvalidProtocol);
}

#[test]
fn negotiation_request_trailing_bytes_rejected() {
    let input = [0x01, 0x00, 0x08, 0x00, 0x01, 0x00, 0x00, 0x00, 0xAA];
    let err = parse_negotiation_request(X224TPDUType::ConnectionRequest, &input).unwrap_err();
    assert_eq!(err, NegotiationError::TrailingBytes);
}

#[test]
fn negotiation_request_non_ascii_cookie_fails() {
    let mut input = b"Cookie: mstshash=".to_vec();
    input.push(0xC3);
    input.extend_from_slice(b"\r\n");
    let err = parse_negotiation_request(X224TPDUType::ConnectionRequest, &input).unwrap_err();
    assert_eq!(err, NegotiationError::InvalidTextEncoding);
}

#[test]
fn negotiation_response_round_trips() {
    let mut buffer = Vec::new();
    write_negotiation_response(
        &mut buffer,
        NegotiationResponseFlags { bits: 0x1F },
        SecurityProtocol { bits: 2 },
    );
    assert_eq!(buffer, vec![0x02, 0x1F, 0x08, 0x00, 0x02, 0x00, 0x00, 0x00]);
    let (protocol, flags) =
        parse_negotiation_response(X224TPDUType::ConnectionConfirm, &buffer).unwrap();
    assert_eq!(protocol.bits, 2);
    assert_eq!(flags.bits, 0x1F);
}

#[test]
fn negotiation_failure_round_trips() {
    let mut buffer = Vec::new();
    write_negotiation_response_error(&mut buffer, NegotiationFailureCodes::HybridRequiredByServer);
    assert_eq!(buffer, vec![0x03, 0x00, 0x08, 0x00, 0x05, 0x00, 0x00, 0x00]);
    let err = parse_negotiation_response(X224TPDUType::ConnectionConfirm, &buffer).unwrap_err();
    assert_eq!(
        err,
        NegotiationError::NegotiationFailure(NegotiationFailureCodes::HybridRequiredByServer)
    );
}

#[test]
fn negotiation_response_errors() {
    assert_eq!(
        parse_negotiation_response(X224TPDUType::ConnectionRequest, &[0u8; 8]).unwrap_err(),
        NegotiationError::UnexpectedTpduCode
    );
    assert_eq!(
        parse_negotiation_response(X224TPDUType::ConnectionConfirm, &[0x02, 0x00, 0x08]).unwrap_err(),
        NegotiationError::Incomplete
    );
    assert_eq!(
        parse_negotiation_response(
            X224TPDUType::ConnectionConfirm,
            &[0x07, 0x00, 0x08, 0x00, 0x01, 0x00, 0x00, 0x00]
        )
        .unwrap_err(),
        NegotiationError::InvalidResponseCode
    );
    assert_eq!(
        parse_negotiation_response(
            X224TPDUType::ConnectionConfirm,
            &[0x02, 0xFF, 0x08, 0x00, 0x01, 0x00, 0x00, 0x00]
        )
        .unwrap_err(),
        NegotiationError::InvalidResponseFlags
    );
    assert_eq!(
        parse_negotiation_response(
            X224TPDUType::ConnectionConfirm,
            &[0x02, 0x00, 0x08, 0x00, 0xFF, 0x00, 0x00, 0x00]
        )
        .unwrap_err(),
        NegotiationError::InvalidProtocol
    );
    assert_eq!(
        parse_negotiation_response(
            X224TPDUType::ConnectionConfirm,
            &[0x03, 0x00, 0x08, 0x00, 0x09, 0x00, 0x00, 0x00]
        )
        .unwrap_err(),
        NegotiationError::InvalidFailureCode
    );
}

#[test]
fn from_bits_accepts_only_defined_bits() {
    assert_eq!(SecurityProtocol::from_bits(8).unwrap().bits, 8);
    assert!(SecurityProtocol::from_bits(16).is_none());
    assert_eq!(NegotiationRequestFlags::from_bits(0x0B).unwrap().bits, 0x0B);
    assert!(NegotiationRequestFlags::from_bits(0x04).is_none());
    assert_eq!(NegotiationResponseFlags::from_bits(0x1F).unwrap().bits, 0x1F);
    assert!(NegotiationResponseFlags::from_bits(0x20).is_none());
    assert_eq!(NegotiationRequestFlags::default().bits, 0);
    assert_eq!(NegotiationResponseFlags::default().bits, 0);
}

#[test]
fn read_nego_data_finds_cookie() {
    let (data, len) = read_nego_data(b"Cookie: mstshash=id\r\nrest").unwrap().unwrap();
    assert_eq!(data, NegoData::Cookie(String::from("id")));
    assert_eq!(len, 21);
}

#[test]
fn read_nego_data_no_prologue() {
    assert!(read_nego_data(b"\x01\x00\x08\x00").unwrap().is_none());
}

#[test]
fn read_string_with_cr_lf_reads_value() {
    let (value, len) = read_string_with_cr_lf(b"Cookie: msts=tok\r\nxx", b"Cookie: msts=").unwrap();
    assert_eq!(value, "tok");
    assert_eq!(len, 18);
}

#[test]
fn read_string_with_cr_lf_mismatch() {
    let err = read_string_with_cr_lf(b"Other: x\r\n", b"Cookie: msts=").unwrap_err();
    assert_eq!(err, NegotiationError::PrologueMismatch);
}
