//! Plaintext capture: the traffic interceptor's state and the synthesis of
//! the Ethernet/IPv4/TCP frames and pcap records that an observer file
//! receives. Writing the bytes to disk is the caller's business; every
//! byte is built here.

use vstd::prelude::*;
use vstd::slice::slice_subrange;

use crate::buffer::push_bytes;

verus! {

/// The largest payload one synthesized TCP segment carries.
pub const TCP_IP_PACKET_MAX_SIZE: usize = 16384;

/// Big-endian bytes of a 16-bit value.
pub open spec fn spec_be16(x: u16) -> Seq<u8> {
    seq![(x / 256) as u8, (x % 256) as u8]
}

/// Big-endian bytes of a 32-bit value.
pub open spec fn spec_be32(x: u32) -> Seq<u8> {
    seq![
        (x / 0x1000000) as u8,
        ((x / 0x10000) % 256) as u8,
        ((x / 256) % 256) as u8,
        (x % 256) as u8,
    ]
}

/// Little-endian bytes of a 32-bit value, as the pcap format wants them.
pub open spec fn spec_le32(x: u32) -> Seq<u8> {
    seq![
        (x % 256) as u8,
        ((x / 256) % 256) as u8,
        ((x / 0x10000) % 256) as u8,
        (x / 0x1000000) as u8,
    ]
}

/// Appends the big-endian bytes of a 16-bit value.
pub fn push_be16(out: &mut Vec<u8>, x: u16)
    ensures
        final(out)@ == old(out)@ + spec_be16(x),
{
    out.push((x / 256) as u8);
    out.push((x % 256) as u8);
    assert(final(out)@ =~= old(out)@ + spec_be16(x));
}

/// Appends the big-endian bytes of a 32-bit value.
pub fn push_be32(out: &mut Vec<u8>, x: u32)
    ensures
        final(out)@ == old(out)@ + spec_be32(x),
{
    out.push((x / 0x1000000) as u8);
    out.push(((x / 0x10000) % 256) as u8);
    out.push(((x / 256) % 256) as u8);
    out.push((x % 256) as u8);
    assert(final(out)@ =~= old(out)@ + spec_be32(x));
}

/// Appends the little-endian bytes of a 32-bit value.
pub fn push_le32(out: &mut Vec<u8>, x: u32)
    ensures
        final(out)@ == old(out)@ + spec_le32(x),
{
    out.push((x % 256) as u8);
    out.push(((x / 256) % 256) as u8);
    out.push(((x / 0x10000) % 256) as u8);
    out.push((x / 0x1000000) as u8);
    assert(final(out)@ =~= old(out)@ + spec_le32(x));
}

/// One end-around-carry step of a ones'-complement sum.
pub open spec fn spec_fold16(sum: int) -> int {
    sum % 65536 + sum / 65536
}

/// The ones'-complement checksum of a sum of 16-bit words: the carries are
/// folded back in (three rounds cover every sum below 2^31) and the result
/// complemented.
pub open spec fn spec_checksum_of_sum(sum: int) -> u16
    recommends
        0 <= sum < 0x80000000,
{
    (65535 - spec_fold16(spec_fold16(spec_fold16(sum)))) as u16
}

/// Folds and complements a computed word sum.
pub fn checksum_of_sum(sum: u64) -> (r: u16)
    requires
        sum < 0x80000000,
    ensures
        r == spec_checksum_of_sum(sum as int),
{
    let f1 = sum % 65536 + sum / 65536;
    let f2 = f1 % 65536 + f1 / 65536;
    let f3 = f2 % 65536 + f2 / 65536;
    (65535 - f3) as u16
}

/// The sum of the big-endian 16-bit words of a byte sequence read from
/// index `i` on, a trailing odd byte padded with zero.
pub open spec fn spec_sum16(s: Seq<u8>, i: int) -> int
    decreases s.len() - i,
{
    if i < 0 || i >= s.len() {
        0
    } else if i + 1 == s.len() {
        s[i] * 256
    } else {
        s[i] * 256 + s[i + 1] + spec_sum16(s, i + 2)
    }
}

/// The word sum never exceeds one full word per pair of bytes.
pub proof fn lemma_sum16_bound(s: Seq<u8>, i: int)
    requires
        0 <= i <= s.len(),
    ensures
        0 <= spec_sum16(s, i) <= 65535 * (s.len() - i + 1),
    decreases s.len() - i,
{
    if i + 1 < s.len() {
        lemma_sum16_bound(s, i + 2);
    }
}

/// Sums the 16-bit words of a byte slice.
pub fn sum16(s: &[u8]) -> (r: u64)
    requires
        s@.len() <= 65536,
    ensures
        r == spec_sum16(s@, 0),
        r <= 65535 * (s@.len() + 1),
{
    proof {
        lemma_sum16_bound(s@, 0);
    }
    let n = s.len();
    let mut acc: u64 = 0;
    let mut i: usize = 0;
    while i + 2 <= n
        invariant
            i <= n == s@.len() <= 65536,
            acc + spec_sum16(s@, i as int) == spec_sum16(s@, 0),
            acc <= 32768 * i,
        decreases n - i,
    {
        acc = acc + (s[i] as u64) * 256 + s[i + 1] as u64;
        i = i + 2;
    }
    if i < n {
        acc = acc + (s[i] as u64) * 256;
        i = i + 1;
    }
    assert(spec_sum16(s@, i as int) == 0);
    acc
}

/// The IPv4 header checksum of a synthesized packet.
pub open spec fn spec_ip_checksum(total_len: u16, src_ip: Seq<u8>, dst_ip: Seq<u8>) -> u16
    recommends
        src_ip.len() == 4,
        dst_ip.len() == 4,
{
    spec_checksum_of_sum(
        0x4500 + total_len + 0x8006 + spec_sum16(src_ip, 0) + spec_sum16(dst_ip, 0),
    )
}

/// The TCP checksum of a synthesized segment, over the IPv4 pseudo-header,
/// the TCP header with a zero checksum, and the payload.
pub open spec fn spec_tcp_checksum(
    src_ip: Seq<u8>,
    src_port: u16,
    dst_ip: Seq<u8>,
    dst_port: u16,
    seq: u32,
    ack: u32,
    payload: Seq<u8>,
) -> u16 {
    spec_checksum_of_sum(
        spec_sum16(src_ip, 0) + spec_sum16(dst_ip, 0) + 6 + 20 + payload.len() + src_port
            + dst_port + seq / 65536 + seq % 65536 + ack / 65536 + ack % 65536 + 0x5018 + 0x7FFF
            + spec_sum16(payload, 0),
    )
}

/// A whole synthesized Ethernet/IPv4/TCP frame: fixed MAC addresses, the
/// two peers' addresses and ports, the given sequence and acknowledgment
/// numbers, PSH+ACK flags, a 0x7FFF window, and the payload.
pub open spec fn spec_tcpip_frame(
    src_ip: Seq<u8>,
    src_port: u16,
    dst_ip: Seq<u8>,
    dst_port: u16,
    seq: u32,
    ack: u32,
    payload: Seq<u8>,
) -> Seq<u8>
    recommends
        src_ip.len() == 4,
        dst_ip.len() == 4,
        payload.len() <= TCP_IP_PACKET_MAX_SIZE,
{
    let total_len = (40 + payload.len()) as u16;
    seq![0x00u8, 0x15u8, 0x5Du8, 0x01u8, 0x64u8, 0x04u8]
        + seq![0x00u8, 0x15u8, 0x5Du8, 0x01u8, 0x64u8, 0x01u8] + seq![0x08u8, 0x00u8] + seq![
        0x45u8,
        0x00u8,
    ] + spec_be16(total_len) + seq![0u8, 0u8, 0u8, 0u8] + seq![128u8, 6u8] + spec_be16(
        spec_ip_checksum(total_len, src_ip, dst_ip),
    ) + src_ip + dst_ip + spec_be16(src_port) + spec_be16(dst_port) + spec_be32(seq) + spec_be32(
        ack,
    ) + seq![0x50u8, 0x18u8] + spec_be16(0x7FFF) + spec_be16(
        spec_tcp_checksum(src_ip, src_port, dst_ip, dst_port, seq, ack, payload),
    ) + spec_be16(0) + payload
}

/// Builds one synthesized frame.
#[verifier::rlimit(50)]
pub fn build_tcpip_frame(
    src_ip: &[u8],
    src_port: u16,
    dst_ip: &[u8],
    dst_port: u16,
    seq: u32,
    ack: u32,
    payload: &[u8],
) -> (r: Vec<u8>)
    requires
        src_ip@.len() == 4,
        dst_ip@.len() == 4,
        payload@.len() <= TCP_IP_PACKET_MAX_SIZE,
    ensures
        r@ == spec_tcpip_frame(src_ip@, src_port, dst_ip@, dst_port, seq, ack, payload@),
        r@.len() == 54 + payload@.len(),
{
    let total_len: u16 = (40 + payload.len()) as u16;
    let ip_sum: u64 = 0x4500 + total_len as u64 + 0x8006 + sum16(src_ip) + sum16(dst_ip);
    let ip_ck = checksum_of_sum(ip_sum);
    let tcp_sum: u64 = sum16(src_ip) + sum16(dst_ip) + 6 + 20 + payload.len() as u64
        + src_port as u64 + dst_port as u64 + (seq / 65536) as u64 + (seq % 65536) as u64 + (ack
        / 65536) as u64 + (ack % 65536) as u64 + 0x5018 + 0x7FFF + sum16(payload);
    let tcp_ck = checksum_of_sum(tcp_sum);
    let mut out: Vec<u8> = vec![
        0x00u8, 0x15, 0x5D, 0x01, 0x64, 0x04, 0x00, 0x15, 0x5D, 0x01, 0x64, 0x01, 0x08, 0x00,
        0x45, 0x00,
    ];
    push_be16(&mut out, total_len);
    out.push(0);
    out.push(0);
    out.push(0);
    out.push(0);
    out.push(128);
    out.push(6);
    push_be16(&mut out, ip_ck);
    push_bytes(&mut out, src_ip);
    push_bytes(&mut out, dst_ip);
    push_be16(&mut out, src_port);
    push_be16(&mut out, dst_port);
    push_be32(&mut out, seq);
    push_be32(&mut out, ack);
    out.push(0x50);
    out.push(0x18);
    push_be16(&mut out, 0x7FFF);
    push_be16(&mut out, tcp_ck);
    push_be16(&mut out, 0);
    push_bytes(&mut out, payload);
    assert(out@ =~= spec_tcpip_frame(src_ip@, src_port, dst_ip@, dst_port, seq, ack, payload@));
    out
}

/// The 24-byte pcap global header: microsecond magic, version 2.4, zero
/// offsets, a 65535-byte snap length, Ethernet link type.
pub open spec fn spec_pcap_global_header() -> Seq<u8> {
    spec_le32(0xA1B2C3D4) + seq![2u8, 0u8, 4u8, 0u8] + spec_le32(0) + spec_le32(0) + spec_le32(
        65535,
    ) + spec_le32(1)
}

/// Builds the pcap global header.
pub fn pcap_global_header() -> (r: Vec<u8>)
    ensures
        r@ == spec_pcap_global_header(),
{
    let mut out: Vec<u8> = Vec::new();
    push_le32(&mut out, 0xA1B2C3D4);
    out.push(2);
    out.push(0);
    out.push(4);
    out.push(0);
    push_le32(&mut out, 0);
    push_le32(&mut out, 0);
    push_le32(&mut out, 65535);
    push_le32(&mut out, 1);
    assert(out@ =~= spec_pcap_global_header());
    out
}

/// One pcap record: the timestamp, the captured and original lengths
/// (equal here), then the frame itself.
pub open spec fn spec_pcap_record(ts_sec: u32, ts_usec: u32, frame: Seq<u8>) -> Seq<u8>
    recommends
        frame.len() <= u32::MAX,
{
    spec_le32(ts_sec) + spec_le32(ts_usec) + spec_le32(frame.len() as u32) + spec_le32(
        frame.len() as u32,
    ) + frame
}

/// One peer of the intercepted connection: its address and the running
/// reassembly buffer and sequence number.
pub struct PeerInfo {
    pub ip: [u8; 4],
    pub port: u16,
    pub data: Vec<u8>,
    pub sequence_number: u32,
}

impl PeerInfo {
    /// A peer with an empty buffer and a zero sequence number.
    pub fn new(ip: [u8; 4], port: u16) -> (r: Self)
        ensures
            r.ip == ip,
            r.port == port,
            r.data@ == Seq::<u8>::empty(),
            r.sequence_number == 0,
    {
        let data: Vec<u8> = Vec::new();
        assert(data@ =~= Seq::<u8>::empty());
        PeerInfo { ip, port, data, sequence_number: 0 }
    }
}

/// The records one captured message becomes: the payload is cut into
/// segments of at most `TCP_IP_PACKET_MAX_SIZE` bytes, each wrapped in a
/// frame and a record, the sequence number advancing by each segment's
/// length (wrapping around 2^32 as TCP does).
pub open spec fn spec_capture_records(
    src_ip: Seq<u8>,
    src_port: u16,
    dst_ip: Seq<u8>,
    dst_port: u16,
    payload: Seq<u8>,
    seq: u32,
    ack: u32,
    ts_sec: u32,
    ts_usec: u32,
) -> (Seq<u8>, u32)
    decreases payload.len(),
{
    if payload.len() == 0 {
        (Seq::empty(), seq)
    } else {
        let chunk_len: int = if payload.len() <= TCP_IP_PACKET_MAX_SIZE {
            payload.len() as int
        } else {
            TCP_IP_PACKET_MAX_SIZE as int
        };
        let chunk = payload.subrange(0, chunk_len);
        let rest = payload.subrange(chunk_len, payload.len() as int);
        let frame = spec_tcpip_frame(src_ip, src_port, dst_ip, dst_port, seq, ack, chunk);
        let record = spec_pcap_record(ts_sec, ts_usec, frame);
        let seq2 = ((seq + chunk_len) % 0x100000000) as u32;
        let (tail, seq_final) = spec_capture_records(
            src_ip,
            src_port,
            dst_ip,
            dst_port,
            rest,
            seq2,
            ack,
            ts_sec,
            ts_usec,
        );
        (record + tail, seq_final)
    }
}

/// Cuts one captured message into segments and wraps each in a frame and a
/// pcap record; the returned counter is the sequence number after the last
/// segment.
#[verifier::rlimit(100)]
pub fn capture_records(
    src_ip: &[u8],
    src_port: u16,
    dst_ip: &[u8],
    dst_port: u16,
    message: &[u8],
    seq0: u32,
    ack: u32,
    ts_sec: u32,
    ts_usec: u32,
) -> (r: (Vec<u8>, u32))
    requires
        src_ip@.len() == 4,
        dst_ip@.len() == 4,
    ensures
        r.0@ == spec_capture_records(
            src_ip@,
            src_port,
            dst_ip@,
            dst_port,
            message@,
            seq0,
            ack,
            ts_sec,
            ts_usec,
        ).0,
        r.1 == spec_capture_records(
            src_ip@,
            src_port,
            dst_ip@,
            dst_port,
            message@,
            seq0,
            ack,
            ts_sec,
            ts_usec,
        ).1,
{
    let mut seq: u32 = seq0;
    let mut out: Vec<u8> = Vec::new();
    let mut pos: usize = 0;
    proof {
        assert(message@.subrange(0, message@.len() as int) =~= message@);
        assert(out@ + spec_capture_records(
            src_ip@,
            src_port,
            dst_ip@,
            dst_port,
            message@,
            seq0,
            ack,
            ts_sec,
            ts_usec,
        ).0 =~= spec_capture_records(
            src_ip@,
            src_port,
            dst_ip@,
            dst_port,
            message@,
            seq0,
            ack,
            ts_sec,
            ts_usec,
        ).0);
    }
    while pos < message.len()
        invariant
            src_ip@.len() == 4,
            dst_ip@.len() == 4,
            pos <= message@.len(),
            out@ + spec_capture_records(
                src_ip@,
                src_port,
                dst_ip@,
                dst_port,
                message@.subrange(pos as int, message@.len() as int),
                seq,
                ack,
                ts_sec,
                ts_usec,
            ).0 == spec_capture_records(
                src_ip@,
                src_port,
                dst_ip@,
                dst_port,
                message@,
                seq0,
                ack,
                ts_sec,
                ts_usec,
            ).0,
            spec_capture_records(
                src_ip@,
                src_port,
                dst_ip@,
                dst_port,
                message@.subrange(pos as int, message@.len() as int),
                seq,
                ack,
                ts_sec,
                ts_usec,
            ).1 == spec_capture_records(
                src_ip@,
                src_port,
                dst_ip@,
                dst_port,
                message@,
                seq0,
                ack,
                ts_sec,
                ts_usec,
            ).1,
        decreases message@.len() - pos,
    {
        let remaining = message.len() - pos;
        let chunk_len: usize = if remaining <= TCP_IP_PACKET_MAX_SIZE {
            remaining
        } else {
            TCP_IP_PACKET_MAX_SIZE
        };
        let ghost rest_before = message@.subrange(pos as int, message@.len() as int);
        let ghost out_before = out@;
        let ghost seq_before = seq;
        let chunk = slice_subrange(message, pos, pos + chunk_len);
        let frame = build_tcpip_frame(src_ip, src_port, dst_ip, dst_port, seq, ack, chunk);
        push_le32(&mut out, ts_sec);
        push_le32(&mut out, ts_usec);
        push_le32(&mut out, frame.len() as u32);
        push_le32(&mut out, frame.len() as u32);
        push_bytes(&mut out, frame.as_slice());
        let seq_next: u32 = ((seq as u64 + chunk_len as u64) % 0x100000000) as u32;
        proof {
            assert(chunk@ =~= rest_before.subrange(0, chunk_len as int));
            assert(message@.subrange(pos + chunk_len, message@.len() as int)
                =~= rest_before.subrange(chunk_len as int, rest_before.len() as int));
            assert(out@ =~= out_before + spec_pcap_record(ts_sec, ts_usec, frame@));
            assert(seq_next == ((seq_before + chunk_len) % 0x100000000) as u32);
            assert(out_before + (spec_pcap_record(ts_sec, ts_usec, frame@)
                + spec_capture_records(
                src_ip@,
                src_port,
                dst_ip@,
                dst_port,
                rest_before.subrange(chunk_len as int, rest_before.len() as int),
                seq_next,
                ack,
                ts_sec,
                ts_usec,
            ).0) =~= (out_before + spec_pcap_record(ts_sec, ts_usec, frame@))
                + spec_capture_records(
                src_ip@,
                src_port,
                dst_ip@,
                dst_port,
                rest_before.subrange(chunk_len as int, rest_before.len() as int),
                seq_next,
                ack,
                ts_sec,
                ts_usec,
            ).0);
        }
        seq = seq_next;
        pos = pos + chunk_len;
    }
    proof {
        assert(message@.subrange(message@.len() as int, message@.len() as int)
            =~= Seq::<u8>::empty());
        assert(out@ + Seq::<u8>::empty() =~= out@);
    }
    (out, seq)
}

/// What one interceptor step guarantees: the records returned are exactly
/// those of the sender's buffered bytes followed by the new data, the
/// sender's buffer is drained, the receiver's sequence counter has
/// advanced to the value after the last segment, and everything else is
/// untouched.
pub open spec fn spec_intercept_post(
    sender0: PeerInfo,
    receiver0: PeerInfo,
    sender1: PeerInfo,
    receiver1: PeerInfo,
    data: Seq<u8>,
    r: Seq<u8>,
    ts_sec: u32,
    ts_usec: u32,
) -> bool {
    let message = sender0.data@ + data;
    let expected = spec_capture_records(
        sender0.ip@,
        sender0.port,
        receiver0.ip@,
        receiver0.port,
        message,
        receiver0.sequence_number,
        sender0.sequence_number,
        ts_sec,
        ts_usec,
    );
    &&& r == expected.0
    &&& receiver1.sequence_number == expected.1
    &&& sender1.data@ == Seq::<u8>::empty()
    &&& sender1.ip == sender0.ip
    &&& sender1.port == sender0.port
    &&& sender1.sequence_number == sender0.sequence_number
    &&& receiver1.ip == receiver0.ip
    &&& receiver1.port == receiver0.port
    &&& receiver1.data@ == receiver0.data@
}

/// The interceptor: it reassembles each direction's byte stream and turns
/// every captured message into pcap record bytes for the observer file.
pub struct PcapInterceptor {
    pub server_info: PeerInfo,
    pub client_info: PeerInfo,
}

impl PcapInterceptor {
    /// An interceptor for a connection between the two peers.
    pub fn new(server_info: PeerInfo, client_info: PeerInfo) -> (r: Self)
        ensures
            r.server_info == server_info,
            r.client_info == client_info,
    {
        PcapInterceptor { server_info, client_info }
    }

    /// Consumes one intercepted packet: the bytes join the sender's
    /// reassembly buffer, the whole buffer is captured as one message, and
    /// the pcap records to append to the observer file are returned. The
    /// synthesized segments run from the sender's address to the other
    /// peer's; the sequence counter kept on the receiving peer numbers
    /// them and advances by the bytes captured.
    pub fn on_new_packet(
        &mut self,
        is_from_server: bool,
        data: &[u8],
        ts_sec: u32,
        ts_usec: u32,
    ) -> (r: Vec<u8>)
        ensures
            is_from_server ==> spec_intercept_post(
                old(self).server_info,
                old(self).client_info,
                final(self).server_info,
                final(self).client_info,
                data@,
                r@,
                ts_sec,
                ts_usec,
            ),
            !is_from_server ==> spec_intercept_post(
                old(self).client_info,
                old(self).server_info,
                final(self).client_info,
                final(self).server_info,
                data@,
                r@,
                ts_sec,
                ts_usec,
            ),
    {
        if is_from_server {
            intercept(&mut self.server_info, &mut self.client_info, data, ts_sec, ts_usec)
        } else {
            intercept(&mut self.client_info, &mut self.server_info, data, ts_sec, ts_usec)
        }
    }
}

/// Captures one packet flowing from `sender` to `receiver`.
#[verifier::rlimit(100)]
fn intercept(
    sender: &mut PeerInfo,
    receiver: &mut PeerInfo,
    data: &[u8],
    ts_sec: u32,
    ts_usec: u32,
) -> (r: Vec<u8>)
    ensures
        spec_intercept_post(
            *old(sender),
            *old(receiver),
            *final(sender),
            *final(receiver),
            data@,
            r@,
            ts_sec,
            ts_usec,
        ),
{
    let ghost sender_data0: Seq<u8> = sender.data@;
    let mut message: Vec<u8> = Vec::new();
    push_bytes(&mut message, sender.data.as_slice());
    push_bytes(&mut message, data);
    sender.data = Vec::new();
    proof {
        assert(message@ =~= sender_data0 + data@);
    }
    let (out, seq) = capture_records(
        array_ref(&sender.ip),
        sender.port,
        array_ref(&receiver.ip),
        receiver.port,
        message.as_slice(),
        receiver.sequence_number,
        sender.sequence_number,
        ts_sec,
        ts_usec,
    );
    receiver.sequence_number = seq;
    out
}

/// Borrows a four-byte address as a slice.
fn array_ref(a: &[u8; 4]) -> (r: &[u8])
    ensures
        r@ == a@,
{
    vstd::array::array_as_slice(a)
}

} // verus!
