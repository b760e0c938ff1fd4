use rdp_proto::tpdu::{
    decode_x224, encode_x224, read_tpkt_len, write_tpkt_header, FramingError, X224TPDUType,
    TPDU_REQUEST_LENGTH,
};

#[test]
fn x224_round_trips_for_request_tpdu() {
    let payload: Vec<u8> = vec![0x10, 0x20, 0x30, 0x40, 0x55];
    let mut frame = Vec::new();
    encode_x224(X224TPDUType::ConnectionRequest, &payload, &mut frame);
    assert_eq!(frame.len(), TPDU_REQUEST_LENGTH + payload.len());

    let mut buffer = frame.clone();
    let (code, decoded) = decode_x224(&mut buffer).unwrap();
    assert_eq!(code, X224TPDUType::ConnectionRequest);
    assert_eq!(decoded, payload);
    assert!(buffer.is_empty());
}

#[test]
fn x224_round_trips_with_trailing_bytes() {
    let payload: Vec<u8> = vec![0xAA; 17];
    let mut frame = Vec::new();
    encode_x224(X224TPDUType::ConnectionConfirm, &payload, &mut frame);
    frame.extend_from_slice(&[0x03, 0x00]);

    let mut buffer = frame;
    let (code, decoded) = decode_x224(&mut buffer).unwrap();
    assert_eq!(code, X224TPDUType::ConnectionConfirm);
    assert_eq!(decoded, payload);
    assert_eq!(buffer, vec![0x03, 0x00]);
}

#[test]
fn x224_encode_writes_exact_header() {
    let payload: Vec<u8> = vec![0x01, 0x02];
    let mut frame = Vec::new();
    encode_x224(X224TPDUType::ConnectionRequest, &payload, &mut frame);
    assert_eq!(
        frame,
        vec![0x03, 0x00, 0x00, 0x0D, 0x08, 0xE0, 0x00, 0x00, 0x00, 0x00, 0x00, 0x01, 0x02]
    );
}

#[test]
fn decode_x224_rejects_wrong_version() {
    let mut buffer = vec![0x04, 0x00, 0x00, 0x0B, 0x06, 0xE0, 0x00, 0x00, 0x00, 0x00, 0x00];
    assert_eq!(decode_x224(&mut buffer).unwrap_err(), FramingError::InvalidVersion);
}

#[test]
fn decode_x224_rejects_unknown_code() {
    let mut buffer = vec![0x03, 0x00, 0x00, 0x0B, 0x06, 0x11, 0x00, 0x00, 0x00, 0x00, 0x00];
    assert_eq!(decode_x224(&mut buffer).unwrap_err(), FramingError::InvalidCode);
}

#[test]
fn decode_x224_rejects_incomplete_frame() {
    let mut buffer = vec![0x03, 0x00, 0x00, 0x10, 0x06, 0xE0];
    assert_eq!(decode_x224(&mut buffer).unwrap_err(), FramingError::Incomplete);
    assert_eq!(buffer.len(), 6);
}

#[test]
fn decode_x224_rejects_too_small_length() {
    let mut buffer = vec![0x03, 0x00, 0x00, 0x07, 0x06, 0xE0, 0x00, 0x00, 0x00, 0x00, 0x00];
    assert_eq!(decode_x224(&mut buffer).unwrap_err(), FramingError::LengthTooSmall);
}

#[test]
fn tpkt_len_is_big_endian() {
    let mut header = Vec::new();
    write_tpkt_header(&mut header, 0x0102);
    assert_eq!(header, vec![0x03, 0x00, 0x01, 0x02]);
    assert_eq!(read_tpkt_len(&header).unwrap(), 0x0102);
}

#[test]
fn split_complete_frames_takes_whole_frames_only() {
    let mut first = Vec::new();
    encode_x224(X224TPDUType::Data, &vec![0xAA, 0xBB], &mut first);
    let mut second = Vec::new();
    encode_x224(X224TPDUType::ConnectionRequest, &vec![0xCC], &mut second);

    let mut buffer = Vec::new();
    buffer.extend_from_slice(&first);
    buffer.extend_from_slice(&second);
    buffer.extend_from_slice(&[0x03, 0x00, 0x00]);

    let frames = rdp_proto::tpdu::split_complete_frames(&mut buffer);
    assert_eq!(frames, vec![first, second]);
    assert_eq!(buffer, vec![0x03, 0x00, 0x00]);

    let mut garbage = vec![0x07, 0x01, 0x02];
    assert!(rdp_proto::tpdu::split_complete_frames(&mut garbage).is_empty());
    assert_eq!(garbage, vec![0x07, 0x01, 0x02]);
}

#[test]
fn tpkt_len_errors() {
    assert_eq!(read_tpkt_len(&[0x03, 0x00]).unwrap_err(), FramingError::Incomplete);
    assert_eq!(
        read_tpkt_len(&[0x02, 0x00, 0x00, 0x04]).unwrap_err(),
        FramingError::InvalidVersion
    );
}
