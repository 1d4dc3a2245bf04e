//! The UDP side of the transport: socket addresses, the results of socket
//! calls, and the state of the measurement sender and the feature reporter.
//! The socket calls themselves are made by the firmware.

use vstd::prelude::*;
use vstd::string::StringExecFns;

use crate::protocol::payloads::{cal_resp_bytes, csi_snapshot_bytes, data_bytes, feature_report_bytes};
use crate::protocol::{
    built_into, frame_type, header_at, intact, new_header, node, payload_at, CalResp, CsiSnapshot,
    FeatureReport,
};
use crate::text::{int_text, push_int};
use crate::transport::{
    build_cal_resp, build_csi_snapshot, build_data_frame, build_feature_report, data_payload,
    parse_frame, Ipv4Addr, REPORT_PORT,
};

verus! {

/// Address family of IPv4.
pub const AF_INET: u8 = 2;

/// Size of a socket address.
pub const SOCKADDR_LEN: u8 = 16;

/// A socket address as the network stack lays it out: length, family, port
/// and address in network byte order, and eight bytes of padding.
pub open spec fn socket_address(ip: Ipv4Addr, port: u16) -> Seq<u8> {
    seq![
        SOCKADDR_LEN,
        AF_INET,
        (port / 256) as u8,
        (port % 256) as u8,
        ip.0[0],
        ip.0[1],
        ip.0[2],
        ip.0[3],
        0,
        0,
        0,
        0,
        0,
        0,
        0,
        0,
    ]
}

/// The socket address of `ip:port`.
pub fn sockaddr(ip: Ipv4Addr, port: u16) -> (a: [u8; 16])
    ensures
        a@ == socket_address(ip, port),
{
    let a: [u8; 16] = [
        SOCKADDR_LEN,
        AF_INET,
        (port / 256) as u8,
        (port % 256) as u8,
        ip.0[0],
        ip.0[1],
        ip.0[2],
        ip.0[3],
        0,
        0,
        0,
        0,
        0,
        0,
        0,
        0,
    ];
    assert(a@ =~= socket_address(ip, port));
    a
}

/// The socket address of `port` on every local address.
pub fn sockaddr_any(port: u16) -> (a: [u8; 16])
    ensures
        a@ == socket_address(Ipv4Addr::spec_unspecified(), port),
{
    sockaddr(Ipv4Addr::unspecified(), port)
}

/// The address in a socket address.
pub open spec fn peer_of(a: Seq<u8>) -> (Ipv4Addr, u16) {
    (Ipv4Addr([a[4], a[5], a[6], a[7]]), (256 * a[2] + a[3]) as u16)
}

/// Reads a peer's address.
pub fn peer(a: &[u8; 16]) -> (r: (Ipv4Addr, u16))
    ensures
        r == peer_of(a@),
{
    let r = (Ipv4Addr([a[4], a[5], a[6], a[7]]), 256 * a[2] as u16 + a[3] as u16);
    assert(r.0.0 =~= peer_of(a@).0.0);
    r
}

/// Sending to the address that a peer was heard from reaches that peer.
pub proof fn socket_address_round_trip(ip: Ipv4Addr, port: u16)
    ensures
        peer_of(socket_address(ip, port)) == (ip, port),
{
    assert(peer_of(socket_address(ip, port)).0.0 =~= ip.0);
}

/// Seconds and microseconds of a receive timeout.
#[derive(Clone, Copy, Debug, PartialEq, Eq, Structural)]
pub struct TimeVal {
    pub tv_sec: i32,
    pub tv_usec: i32,
}

/// Splits a timeout of `ms` milliseconds; 0 means to wait forever.
pub fn recv_timeout(ms: i32) -> (tv: TimeVal)
    ensures
        tv.tv_sec * 1_000_000 + tv.tv_usec == ms * 1000,
        ms >= 0 ==> 0 <= tv.tv_usec < 1_000_000,
        ms <= 0 ==> -1_000_000 < tv.tv_usec <= 0,
{
    if ms >= 0 {
        let m: u32 = ms as u32;
        TimeVal { tv_sec: (m / 1000) as i32, tv_usec: (m % 1000 * 1000) as i32 }
    } else {
        let m: u32 = (-(ms as i64)) as u32;
        TimeVal { tv_sec: -((m / 1000) as i32), tv_usec: -((m % 1000 * 1000) as i32) }
    }
}

/// Errors of the UDP binding.
#[derive(Clone, Copy, Debug, PartialEq, Eq, Structural)]
pub enum UdpError {
    Open(i32),
    SetOpt(i32),
    Send(i32),
    Recv(i32),
    /// Frame bigger than the caller's buffer.
    TooSmall,
}

/// The message of an error.
pub open spec fn error_text(e: UdpError) -> Seq<char> {
    match e {
        UdpError::Open(c) => "lwip_socket failed ("@ + int_text(c as int) + ")"@,
        UdpError::SetOpt(c) => "lwip_setsockopt failed ("@ + int_text(c as int) + ")"@,
        UdpError::Send(c) => "lwip_sendto failed ("@ + int_text(c as int) + ")"@,
        UdpError::Recv(c) => "lwip_recvfrom failed ("@ + int_text(c as int) + ")"@,
        UdpError::TooSmall => "frame exceeds buffer"@,
    }
}

fn coded(head: &str, code: i32) -> (s: String)
    ensures
        s@ == head@ + int_text(code as int) + ")"@,
{
    let mut s = head.to_owned();
    push_int(&mut s, code);
    s.append(")");
    s
}

impl UdpError {
    /// The message shown in the log.
    pub fn text(&self) -> (s: String)
        ensures
            s@ == error_text(*self),
    {
        match *self {
            UdpError::Open(c) => coded("lwip_socket failed (", c),
            UdpError::SetOpt(c) => coded("lwip_setsockopt failed (", c),
            UdpError::Send(c) => coded("lwip_sendto failed (", c),
            UdpError::Recv(c) => coded("lwip_recvfrom failed (", c),
            UdpError::TooSmall => "frame exceeds buffer".to_owned(),
        }
    }
}

/// An open datagram socket.
#[derive(Debug, PartialEq, Eq, Structural)]
pub struct UdpSocket {
    pub fd: i32,
}

impl UdpSocket {
    /// Judges the opening of a socket: a negative descriptor is an error.
    pub fn opened(fd: i32) -> (r: Result<Self, UdpError>)
        ensures
            r == (if fd < 0 {
                Err::<UdpSocket, UdpError>(UdpError::Open(fd))
            } else {
                Ok(UdpSocket { fd })
            }),
    {
        if fd < 0 {
            Err(UdpError::Open(fd))
        } else {
            Ok(UdpSocket { fd })
        }
    }

    /// Judges the binding of a socket to its port. After an error the socket
    /// is to be closed.
    pub fn bound(self, rc: i32) -> (r: Result<Self, UdpError>)
        ensures
            r == (if rc < 0 {
                Err::<UdpSocket, UdpError>(UdpError::Open(rc))
            } else {
                Ok(self)
            }),
    {
        if rc < 0 {
            Err(UdpError::Open(rc))
        } else {
            Ok(self)
        }
    }

    /// The descriptor.
    pub fn fd(&self) -> (fd: i32)
        ensures
            fd == self.fd,
    {
        self.fd
    }
}

/// The value of the broadcast option.
pub fn broadcast_option(enabled: bool) -> (v: i32)
    ensures
        v == (if enabled {
            1int
        } else {
            0
        }),
{
    if enabled {
        1
    } else {
        0
    }
}

/// Judges the setting of a socket option.
pub fn after_set_option(rc: i32) -> (r: Result<(), UdpError>)
    ensures
        r == (if rc < 0 {
            Err::<(), UdpError>(UdpError::SetOpt(rc))
        } else {
            Ok(())
        }),
{
    if rc < 0 {
        Err(UdpError::SetOpt(rc))
    } else {
        Ok(())
    }
}

/// Judges a send: the number of bytes sent, or the error.
pub fn after_send(rc: i32) -> (r: Result<usize, UdpError>)
    ensures
        r == (if rc < 0 {
            Err::<usize, UdpError>(UdpError::Send(rc))
        } else {
            Ok(rc as usize)
        }),
{
    if rc < 0 {
        Err(UdpError::Send(rc))
    } else {
        Ok(rc as usize)
    }
}

/// Judges a receive: bytes received and the peer, or nothing on a timeout or
/// an error.
pub fn after_receive(rc: i32, from: &[u8; 16]) -> (r: Option<(usize, Ipv4Addr, u16)>)
    ensures
        r == (if rc < 0 {
            None::<(usize, Ipv4Addr, u16)>
        } else {
            Some((rc as usize, peer_of(from@).0, peer_of(from@).1))
        }),
{
    if rc < 0 {
        None
    } else {
        let (ip, port) = peer(from);
        Some((rc as usize, ip, port))
    }
}

/// The transmitter's measurement sender: where it sends to and which sequence
/// number comes next.
#[derive(Debug)]
pub struct TrafficSender {
    pub dst: Ipv4Addr,
    pub port: u16,
    pub seq: u32,
    pub frames_sent: u64,
}

impl TrafficSender {
    /// A sender to the access point's subnet, at sequence 0.
    pub fn new(port: u16) -> (s: Self)
        ensures
            s == (TrafficSender {
                dst: Ipv4Addr::spec_ap_broadcast(),
                port,
                seq: 0,
                frames_sent: 0,
            }),
    {
        TrafficSender { dst: Ipv4Addr::ap_broadcast(), port, seq: 0, frames_sent: 0 }
    }

    /// Overrides the destination.
    pub fn set_target(&mut self, dst: Ipv4Addr, port: u16)
        ensures
            *final(self) == (TrafficSender { dst, port, ..*old(self) }),
    {
        self.dst = dst;
        self.port = port;
    }

    /// The next sequence number.
    pub fn seq(&self) -> (n: u32)
        ensures
            n == self.seq,
    {
        self.seq
    }

    /// Builds the next measurement frame into `buf`.
    pub fn next_frame(&self, buf: &mut [u8], now_us: u64, tx_power_db: u8, cal: bool) -> (n: usize)
        ensures
            built_into(
                old(buf)@,
                final(buf)@,
                n,
                new_header(frame_type::DATA_FRAME, node::TX, 0, self.seq, now_us, 2),
                data_bytes(data_payload(tx_power_db, cal)),
            ),
    {
        build_data_frame(buf, node::TX, self.seq, now_us, tx_power_db, cal)
    }

    /// Takes the result of sending the frame: the sequence number it carried,
    /// after which the next one is due. A frame that was not sent is not
    /// counted and its sequence number is used again.
    pub fn send(&mut self, rc: i32) -> (r: Result<u32, UdpError>)
        requires
            old(self).frames_sent < u64::MAX,
        ensures
            rc < 0 ==> r == Err::<u32, UdpError>(UdpError::Send(rc)) && *final(self) == *old(self),
            rc >= 0 ==> r == Ok::<u32, UdpError>(old(self).seq) && *final(self) == (TrafficSender {
                seq: if old(self).seq == u32::MAX {
                    0
                } else {
                    (old(self).seq + 1) as u32
                },
                frames_sent: (old(self).frames_sent + 1) as u64,
                ..*old(self)
            }),
    {
        match after_send(rc) {
            Err(e) => Err(e),
            Ok(_) => {
                let seq: u32 = self.seq;
                self.seq = if seq == u32::MAX {
                    0
                } else {
                    seq + 1
                };
                self.frames_sent = self.frames_sent + 1;
                Ok(seq)
            },
        }
    }
}

/// A receiver's reporter: where its reports go.
#[derive(Debug)]
pub struct FeatureReporter {
    pub target: (Ipv4Addr, u16),
    pub reports_sent: u64,
}

impl FeatureReporter {
    /// A reporter to the access point.
    pub fn new() -> (r: Self)
        ensures
            r == (FeatureReporter { target: (Ipv4Addr::spec_ap(), REPORT_PORT), reports_sent: 0 }),
    {
        FeatureReporter { target: (Ipv4Addr::ap(), REPORT_PORT), reports_sent: 0 }
    }

    /// Points reports at a specific address.
    pub fn learn_target(&mut self, ip: Ipv4Addr, port: u16)
        ensures
            *final(self) == (FeatureReporter { target: (ip, port), ..*old(self) }),
    {
        self.target = (ip, port);
    }

    /// Where reports go.
    pub fn target(&self) -> (t: (Ipv4Addr, u16))
        ensures
            t == self.target,
    {
        self.target
    }

    /// Builds a report frame into `buf`.
    pub fn report_frame(
        &self,
        buf: &mut [u8],
        src: u8,
        report: &FeatureReport,
        now_us: u64,
    ) -> (n: usize)
        ensures
            built_into(
                old(buf)@,
                final(buf)@,
                n,
                new_header(frame_type::FEATURE_REPORT, src, node::TX, report.seq, now_us, 79),
                feature_report_bytes(*report),
            ),
    {
        build_feature_report(buf, src, report, now_us)
    }

    /// Takes the result of sending a report: only one that was sent counts.
    pub fn send(&mut self, report: &FeatureReport, rc: i32) -> (r: Result<u32, UdpError>)
        requires
            old(self).reports_sent < u64::MAX,
        ensures
            rc < 0 ==> r == Err::<u32, UdpError>(UdpError::Send(rc)) && *final(self) == *old(self),
            rc >= 0 ==> r == Ok::<u32, UdpError>(report.seq) && *final(self) == (FeatureReporter {
                reports_sent: (old(self).reports_sent + 1) as u64,
                ..*old(self)
            }),
    {
        match after_send(rc) {
            Err(e) => Err(e),
            Ok(_) => {
                self.reports_sent = self.reports_sent + 1;
                Ok(report.seq)
            },
        }
    }

    /// Builds a calibration reply into `buf`.
    pub fn cal_resp_frame(&self, buf: &mut [u8], src: u8, resp: &CalResp, now_us: u64) -> (n: usize)
        ensures
            built_into(
                old(buf)@,
                final(buf)@,
                n,
                new_header(frame_type::CAL_RESP, src, node::TX, resp.stage as u32, now_us, 17),
                cal_resp_bytes(*resp),
            ),
    {
        build_cal_resp(buf, src, resp, now_us)
    }

    /// Judges the sending of a calibration reply.
    pub fn send_cal_resp(rc: i32) -> (r: Result<(), UdpError>)
        ensures
            r == (if rc < 0 {
                Err::<(), UdpError>(UdpError::Send(rc))
            } else {
                Ok(())
            }),
    {
        match after_send(rc) {
            Err(e) => Err(e),
            Ok(_) => Ok(()),
        }
    }

    /// Builds a snapshot frame into `buf`.
    pub fn csi_snapshot_frame(
        &self,
        buf: &mut [u8],
        src: u8,
        snap: &CsiSnapshot,
        now_us: u64,
    ) -> (n: usize)
        ensures
            built_into(
                old(buf)@,
                final(buf)@,
                n,
                new_header(frame_type::CSI_SNAPSHOT, src, node::TX, snap.seq, now_us, 359),
                csi_snapshot_bytes(*snap),
            ),
    {
        build_csi_snapshot(buf, src, snap, now_us)
    }

    /// Judges the sending of a snapshot.
    pub fn send_csi_snapshot(rc: i32) -> (r: Result<(), UdpError>)
        ensures
            r == (if rc < 0 {
                Err::<(), UdpError>(UdpError::Send(rc))
            } else {
                Ok(())
            }),
    {
        match after_send(rc) {
            Err(e) => Err(e),
            Ok(_) => Ok(()),
        }
    }
}

/// Every frame that the sender and the reporter build fits their send buffers:
/// 256 bytes for measurements, 512 for reports, replies and snapshots.
pub proof fn frames_fit_the_send_buffers(
    d: crate::protocol::DataPayload,
    r: FeatureReport,
    c: CalResp,
    s: CsiSnapshot,
)
    ensures
        24 + data_bytes(d).len() <= 256,
        24 + feature_report_bytes(r).len() <= 512,
        24 + cal_resp_bytes(c).len() <= 512,
        24 + csi_snapshot_bytes(s).len() <= 512,
{
    assert(feature_report_bytes(r).len() == 79) by {
        crate::protocol::payloads::feature_report_round_trip(r, Seq::empty());
    }
    assert(cal_resp_bytes(c).len() == 17) by {
        crate::protocol::payloads::cal_resp_round_trip(c, Seq::empty());
    }
    assert(csi_snapshot_bytes(s).len() == 359) by {
        crate::protocol::payloads::csi_snapshot_round_trip(s, Seq::empty());
    }
}

/// A radar frame and where it came from.
#[derive(Debug)]
pub struct ReceivedFrame<'a> {
    pub kind: u8,
    pub src: u8,
    pub seq: u32,
    pub payload: &'a [u8],
    pub peer_ip: Ipv4Addr,
    pub peer_port: u16,
}

/// Takes the result of a receive into `buf`: the radar frame in it, or nothing
/// on a timeout or for bytes that are no intact frame.
pub fn recv_radar_frame<'a>(buf: &'a [u8], rc: i32, from: &[u8; 16]) -> (r: Option<
    ReceivedFrame<'a>,
>)
    requires
        rc <= buf@.len(),
    ensures
        match r {
            Some(f) => {
                &&& rc >= 0
                &&& intact(buf@.subrange(0, rc as int))
                &&& f.kind == header_at(buf@.subrange(0, rc as int)).kind
                &&& f.src == header_at(buf@.subrange(0, rc as int)).src_node
                &&& f.seq == header_at(buf@.subrange(0, rc as int)).seq
                &&& f.payload@ == payload_at(buf@.subrange(0, rc as int))
                &&& (f.peer_ip, f.peer_port) == peer_of(from@)
            },
            None => rc < 0 || !intact(buf@.subrange(0, rc as int)),
        },
{
    match after_receive(rc, from) {
        None => None,
        Some((n, peer_ip, peer_port)) => {
            let frame = vstd::slice::slice_subrange(buf, 0, n);
            match parse_frame(frame) {
                None => None,
                Some((kind, src, seq, payload)) => Some(
                    ReceivedFrame { kind, src, seq, payload, peer_ip, peer_port },
                ),
            }
        },
    }
}

} // verus!
