use rdp_proto::capture::{
    build_tcpip_frame, pcap_global_header, PcapInterceptor, PeerInfo, TCP_IP_PACKET_MAX_SIZE,
};
use rdp_proto::identities::{IdentitiesProxy, RdpIdentity, RdpIdentityGetter};
use rdp_proto::sspi::{Credentials, SspiError};

fn records() -> Vec<RdpIdentity> {
    vec![
        RdpIdentity {
            proxy: Credentials::new(String::from("alice"), String::from("pa"), None),
            target: Credentials::new(
                String::from("ta"),
                String::from("tp"),
                Some(String::from("D")),
            ),
            destination: String::from("srv-a:3389"),
        },
        RdpIdentity {
            proxy: Credentials::new(String::from("bob"), String::from("pb"), None),
            target: Credentials::new(String::from("tb"), String::from("tq"), None),
            destination: String::from("srv-b:3389"),
        },
    ]
}

#[test]
fn password_by_user_selects_matching_record() {
    let mut proxy = IdentitiesProxy::new(String::from("identities.json"));
    let password = proxy.password_by_user(&records(), &String::from("bob")).unwrap();
    assert_eq!(password, "pb");
    let selected = proxy.get_rdp_identity();
    assert_eq!(selected.destination, "srv-b:3389");
    assert_eq!(selected.target.username, "tb");
}

#[test]
fn password_by_user_unknown_user_fails_without_selecting() {
    let mut proxy = IdentitiesProxy::new(String::from("identities.json"));
    let err = proxy.password_by_user(&records(), &String::from("mallory")).unwrap_err();
    assert_eq!(err, SspiError::NoCredentials);
    assert!(proxy.rdp_identity.is_none());
}

#[test]
fn pcap_global_header_is_the_classic_little_endian_one() {
    let header = pcap_global_header();
    assert_eq!(header.len(), 24);
    assert_eq!(&header[0..4], &[0xD4, 0xC3, 0xB2, 0xA1]);
    assert_eq!(&header[20..24], &[0x01, 0x00, 0x00, 0x00]);
}

#[test]
fn tcpip_frame_has_valid_checksums() {
    let payload = b"captured plaintext";
    let frame = build_tcpip_frame(
        &[10, 0, 0, 1],
        3389,
        &[10, 0, 0, 2],
        50000,
        1000,
        2000,
        payload,
    );
    assert_eq!(frame.len(), 54 + payload.len());
    // Ethernet type is IPv4.
    assert_eq!(&frame[12..14], &[0x08, 0x00]);
    // The IPv4 header sums to 0xFFFF with its checksum in place.
    let ip = &frame[14..34];
    let mut sum: u32 = 0;
    for pair in ip.chunks(2) {
        sum += u32::from(pair[0]) * 256 + u32::from(pair[1]);
    }
    while sum > 0xFFFF {
        sum = (sum & 0xFFFF) + (sum >> 16);
    }
    assert_eq!(sum, 0xFFFF);
    // The TCP segment with its pseudo-header sums to 0xFFFF as well.
    let tcp_len = frame.len() - 34;
    let mut tsum: u32 = 0;
    tsum += u32::from(ip[12]) * 256 + u32::from(ip[13]);
    tsum += u32::from(ip[14]) * 256 + u32::from(ip[15]);
    tsum += u32::from(ip[16]) * 256 + u32::from(ip[17]);
    tsum += u32::from(ip[18]) * 256 + u32::from(ip[19]);
    tsum += 6;
    tsum += tcp_len as u32;
    let mut seg = frame[34..].to_vec();
    if seg.len() % 2 == 1 {
        seg.push(0);
    }
    for pair in seg.chunks(2) {
        tsum += u32::from(pair[0]) * 256 + u32::from(pair[1]);
    }
    while tsum > 0xFFFF {
        tsum = (tsum & 0xFFFF) + (tsum >> 16);
    }
    assert_eq!(tsum, 0xFFFF);
}

#[test]
fn interceptor_builds_one_record_per_segment() {
    let server = PeerInfo::new([192, 168, 0, 10], 3389);
    let client = PeerInfo::new([192, 168, 0, 20], 49152);
    let mut interceptor = PcapInterceptor::new(server, client);

    let out = interceptor.on_new_packet(false, b"hello", 7, 9);
    // One record: 16-byte record header plus a 54-byte frame and 5 bytes.
    assert_eq!(out.len(), 16 + 54 + 5);
    assert_eq!(&out[0..4], &[7, 0, 0, 0]);
    assert_eq!(&out[4..8], &[9, 0, 0, 0]);
    assert_eq!(&out[8..12], &[59, 0, 0, 0]);
    // The client's buffer was drained and the server-side counter advanced.
    assert!(interceptor.client_info.data.is_empty());
    assert_eq!(interceptor.server_info.sequence_number, 5);
    assert_eq!(interceptor.client_info.sequence_number, 0);
}

#[test]
fn interceptor_splits_large_messages() {
    let server = PeerInfo::new([10, 0, 0, 1], 3389);
    let client = PeerInfo::new([10, 0, 0, 2], 50001);
    let mut interceptor = PcapInterceptor::new(server, client);

    let big = vec![0x5Au8; TCP_IP_PACKET_MAX_SIZE + 100];
    let out = interceptor.on_new_packet(true, &big, 1, 2);
    let first_record = 16 + 54 + TCP_IP_PACKET_MAX_SIZE;
    let second_record = 16 + 54 + 100;
    assert_eq!(out.len(), first_record + second_record);
    assert_eq!(interceptor.client_info.sequence_number, (TCP_IP_PACKET_MAX_SIZE + 100) as u32);
}
