//! Transport between the three nodes of the radar head.
//!
//! RADAR-TX is the access point; RADAR-RX1 and RADAR-RX2 are stations within a
//! few centimetres of it.
//!
//! * TX to RX measurement traffic is one broadcast per sequence number; both
//!   receivers observe the same packets, so their CSI is sequence-aligned.
//! * RX to TX is a feature report every few frames. The report carries the last
//!   processed `seq`, so TX can pair the two links' observations although the
//!   receivers are not sample-synchronised.

use vstd::prelude::*;
use vstd::string::StringExecFns;

use crate::protocol::payloads::{
    cal_resp_bytes, csi_snapshot_bytes, data_bytes, encode_cal_resp, encode_csi_snapshot,
    encode_data_payload, encode_feature_report, feature_report_bytes,
};
use crate::protocol::{
    build, built_into, data_flags, frame_bytes, frame_type, header_at, intact, new_header, parse,
    payload_at, DataPayload,
};
use crate::text::{nat_text, push_dec};
use crate::wire::F32Bits;

pub mod framer;
pub mod pairer;
pub mod tracker;
pub mod udp;
pub mod window;

pub use crate::protocol::payloads::parse_feature_report;
pub use crate::protocol::{node, CalResp, CsiSnapshot, FeatureReport, Header};
pub use pairer::{PairedFrames, Pairer, StampedReport};
pub use tracker::{SeqEvent, SequenceTracker};
pub use window::WindowCounter;

verus! {

/// UDP port for TX to RX measurement traffic (both receivers listen here).
pub const MEASURE_PORT: u16 = 4444;

/// UDP port for RX to TX feature reports (TX listens here).
pub const REPORT_PORT: u16 = 4445;

/// An IPv4 address.
#[derive(Clone, Copy, Debug, PartialEq, Eq)]
pub struct Ipv4Addr(pub [u8; 4]);

/// An address in dotted decimal.
pub open spec fn dotted(a: Ipv4Addr) -> Seq<char> {
    nat_text(a.0[0] as nat) + "."@ + nat_text(a.0[1] as nat) + "."@ + nat_text(a.0[2] as nat) + "."@
        + nat_text(a.0[3] as nat)
}

impl Ipv4Addr {
    /// The address of no host.
    pub open spec fn spec_unspecified() -> Ipv4Addr {
        Ipv4Addr([0u8, 0u8, 0u8, 0u8])
    }

    /// The transmitter's access point address on its own subnet.
    pub open spec fn spec_ap() -> Ipv4Addr {
        Ipv4Addr([192u8, 168u8, 4u8, 1u8])
    }

    /// Directed broadcast on the access point's subnet.
    pub open spec fn spec_ap_broadcast() -> Ipv4Addr {
        Ipv4Addr([192u8, 168u8, 4u8, 255u8])
    }

    /// The address of no host.
    pub fn unspecified() -> (a: Self)
        ensures
            a == Self::spec_unspecified(),
    {
        let a = Ipv4Addr([0, 0, 0, 0]);
        assert(a.0 =~= Self::spec_unspecified().0);
        a
    }

    /// The transmitter's access point address on its own subnet.
    pub fn ap() -> (a: Self)
        ensures
            a == Self::spec_ap(),
    {
        let a = Ipv4Addr([192, 168, 4, 1]);
        assert(a.0 =~= Self::spec_ap().0);
        a
    }

    /// Directed broadcast on the access point's subnet.
    pub fn ap_broadcast() -> (a: Self)
        ensures
            a == Self::spec_ap_broadcast(),
    {
        let a = Ipv4Addr([192, 168, 4, 255]);
        assert(a.0 =~= Self::spec_ap_broadcast().0);
        a
    }

    /// The four bytes of the address.
    pub fn octets(&self) -> (o: [u8; 4])
        ensures
            o == self.0,
    {
        self.0
    }

    /// Dotted decimal.
    pub fn text(&self) -> (s: String)
        ensures
            s@ == dotted(*self),
    {
        let mut s = "".to_owned();
        push_dec(&mut s, self.0[0] as u64);
        proof {
            reveal_strlit("");
            assert(s@ =~= nat_text(self.0[0] as nat));
        }
        s.append(".");
        push_dec(&mut s, self.0[1] as u64);
        s.append(".");
        push_dec(&mut s, self.0[2] as u64);
        s.append(".");
        push_dec(&mut s, self.0[3] as u64);
        s
    }
}

/// Transport-level telemetry for the dashboard.
#[derive(Clone, Copy, Debug)]
pub struct TransportStats {
    pub tx_frames: u64,
    pub tx_seq: u32,
    pub rx_frames: u64,
    pub rx_drops: u64,
    pub paired_frames: u64,
    /// RX1 loss ratio (0..1) over its whole report stream.
    pub rx1_loss: F32Bits,
    /// RX2 loss ratio (0..1).
    pub rx2_loss: F32Bits,
}

impl Default for TransportStats {
    fn default() -> (t: Self)
        ensures
            t == (TransportStats {
                tx_frames: 0,
                tx_seq: 0,
                rx_frames: 0,
                rx_drops: 0,
                paired_frames: 0,
                rx1_loss: 0,
                rx2_loss: 0,
            }),
    {
        Self {
            tx_frames: 0,
            tx_seq: 0,
            rx_frames: 0,
            rx_drops: 0,
            paired_frames: 0,
            rx1_loss: 0,
            rx2_loss: 0,
        }
    }
}

/// The payload of a measurement packet.
pub open spec fn data_payload(tx_power_db: u8, cal: bool) -> DataPayload {
    DataPayload { tx_power_db, flags: if cal { data_flags::CAL } else { 0 } }
}

/// Builds a measurement packet into `dst`. Returns the number of bytes
/// written, or 0 if `dst` is too small.
pub fn build_data_frame(
    dst: &mut [u8],
    src: u8,
    seq: u32,
    t_us: u64,
    tx_power_db: u8,
    cal: bool,
) -> (n: usize)
    ensures
        built_into(
            old(dst)@,
            final(dst)@,
            n,
            new_header(frame_type::DATA_FRAME, src, 0, seq, t_us, 2),
            data_bytes(data_payload(tx_power_db, cal)),
        ),
{
    let payload = DataPayload { tx_power_db, flags: if cal { data_flags::CAL } else { 0 } };
    let pl = encode_data_payload(&payload);
    let hdr = Header::new(frame_type::DATA_FRAME, src, 0, seq, t_us, pl.len() as u16);
    build(dst, &hdr, pl.as_slice())
}

/// Parses a received radar frame. Returns kind, source, seq and payload.
pub fn parse_frame(buf: &[u8]) -> (r: Option<(u8, u8, u32, &[u8])>)
    ensures
        match r {
            Some((kind, src, seq, payload)) => {
                &&& intact(buf@)
                &&& kind == header_at(buf@).kind
                &&& src == header_at(buf@).src_node
                &&& seq == header_at(buf@).seq
                &&& payload@ == payload_at(buf@)
            },
            None => !intact(buf@),
        },
{
    match parse(buf) {
        Some((hdr, payload)) => Some((hdr.kind, hdr.src_node, hdr.seq, payload)),
        None => None,
    }
}

/// Serializes a feature report as sent by a receiver. Returns the number of
/// bytes written, or 0 if `dst` is too small.
pub fn build_feature_report(dst: &mut [u8], src: u8, report: &FeatureReport, t_us: u64) -> (n:
    usize)
    ensures
        built_into(
            old(dst)@,
            final(dst)@,
            n,
            new_header(frame_type::FEATURE_REPORT, src, node::TX, report.seq, t_us, 79),
            feature_report_bytes(*report),
        ),
{
    let pl = encode_feature_report(report);
    proof {
        crate::protocol::payloads::feature_report_round_trip(*report, Seq::empty());
    }
    let hdr = Header::new(
        frame_type::FEATURE_REPORT,
        src,
        node::TX,
        report.seq,
        t_us,
        pl.len() as u16,
    );
    build(dst, &hdr, pl.as_slice())
}

/// Builds a calibration reply into `dst`. Returns the number of bytes written,
/// or 0 if `dst` is too small. The header `seq` carries the stage, so that the
/// response is traceable in logs; the transmitter matches on the payload.
pub fn build_cal_resp(dst: &mut [u8], src: u8, resp: &CalResp, t_us: u64) -> (n: usize)
    ensures
        built_into(
            old(dst)@,
            final(dst)@,
            n,
            new_header(frame_type::CAL_RESP, src, node::TX, resp.stage as u32, t_us, 17),
            cal_resp_bytes(*resp),
        ),
{
    let pl = encode_cal_resp(resp);
    proof {
        crate::protocol::payloads::cal_resp_round_trip(*resp, Seq::empty());
    }
    let hdr = Header::new(
        frame_type::CAL_RESP,
        src,
        node::TX,
        resp.stage as u32,
        t_us,
        pl.len() as u16,
    );
    build(dst, &hdr, pl.as_slice())
}

/// Builds a CSI snapshot into `dst`. Returns the number of bytes written, or 0
/// if `dst` is too small. The header `seq` mirrors the snapshot's own.
pub fn build_csi_snapshot(dst: &mut [u8], src: u8, snap: &CsiSnapshot, t_us: u64) -> (n: usize)
    ensures
        built_into(
            old(dst)@,
            final(dst)@,
            n,
            new_header(frame_type::CSI_SNAPSHOT, src, node::TX, snap.seq, t_us, 359),
            csi_snapshot_bytes(*snap),
        ),
{
    let pl = encode_csi_snapshot(snap);
    proof {
        crate::protocol::payloads::csi_snapshot_round_trip(*snap, Seq::empty());
    }
    let hdr = Header::new(
        frame_type::CSI_SNAPSHOT,
        src,
        node::TX,
        snap.seq,
        t_us,
        pl.len() as u16,
    );
    build(dst, &hdr, pl.as_slice())
}

/// A measurement packet announces its power, and is marked exactly while
/// calibrating.
pub proof fn measurements_announce_their_power(tx_power_db: u8, cal: bool)
    ensures
        data_payload(tx_power_db, cal).tx_power_db == tx_power_db,
        (data_payload(tx_power_db, cal).flags != 0) == cal,
        data_bytes(data_payload(tx_power_db, cal))[0] == tx_power_db,
        (data_bytes(data_payload(tx_power_db, cal))[1] != 0) == cal,
{
}

/// What any of the builders writes into a large enough buffer is accepted by
/// `parse_frame`, which gives back kind, source, sequence and payload.
pub proof fn built_frame_parses(
    before: Seq<u8>,
    after: Seq<u8>,
    n: usize,
    kind: u8,
    src: u8,
    dst: u8,
    seq: u32,
    t_us: u64,
    payload: Seq<u8>,
)
    requires
        payload.len() <= u16::MAX,
        before.len() >= 24 + payload.len(),
        built_into(
            before,
            after,
            n,
            new_header(kind, src, dst, seq, t_us, payload.len() as u16),
            payload,
        ),
    ensures
        n == 24 + payload.len(),
        intact(after.subrange(0, n as int)),
        header_at(after.subrange(0, n as int)).kind == kind,
        header_at(after.subrange(0, n as int)).src_node == src,
        header_at(after.subrange(0, n as int)).seq == seq,
        payload_at(after.subrange(0, n as int)) == payload,
{
    let h = new_header(kind, src, dst, seq, t_us, payload.len() as u16);
    crate::protocol::header_round_trip(crate::protocol::sealed(h, payload), Seq::empty());
    crate::protocol::frame_round_trip(h, payload, Seq::empty());
    assert(after.subrange(0, n as int) =~= frame_bytes(h, payload) + Seq::<u8>::empty());
}

} // verus!
