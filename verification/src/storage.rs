//! Persistent configuration of the radar head.
//!
//! The boards are permanently mounted, so antenna offsets, channel, TX power
//! and calibration artifacts are device facts kept in non-volatile storage.
//! [`RadarConfig`] is the system config blob, [`RxLink`] says which receiver a
//! per-link artifact belongs to, and [`nvs`] holds the decisions of the
//! storage session.

use vstd::prelude::*;

use crate::protocol::node;
use crate::wire::{
    get_u16, get_u32, put_u16, put_u32, u16_at, u16_bytes, u16_round_trip, u32_at, u32_bytes,
    u32_round_trip,
};

pub mod nvs;

verus! {

/// Schema version of the stored [`RadarConfig`] blob.
pub const CONFIG_VERSION: u32 = 1;

/// One of the two fixed receiver links.
#[derive(Clone, Copy, Debug, PartialEq, Eq, Structural)]
pub enum RxLink {
    Rx1,
    Rx2,
}

/// The node id of a receiver.
pub open spec fn link_node(link: RxLink) -> u8 {
    match link {
        RxLink::Rx1 => node::RX1,
        RxLink::Rx2 => node::RX2,
    }
}

impl RxLink {
    /// Node id in the protocol's sense.
    pub fn node_id(self) -> (id: u8)
        ensures
            id == link_node(self),
    {
        match self {
            RxLink::Rx1 => node::RX1,
            RxLink::Rx2 => node::RX2,
        }
    }
}

/// System-wide configuration, stored as a single blob.
#[derive(Clone, Copy, Debug, PartialEq, Eq)]
pub struct RadarConfig {
    /// [`CONFIG_VERSION`]; lets readers detect a stale layout.
    pub version: u32,
    /// 2.4 GHz Wi-Fi channel the access point operates on.
    pub channel: u8,
    /// Measurement frames per second emitted by the transmitter.
    pub tx_rate_hz: u16,
    /// Feature reports are sent every this many frames.
    pub report_every: u16,
    /// Largest sequence gap tolerated when pairing the receivers' reports.
    pub pair_tolerance: u16,
    /// TX power in dBm; 0 means not commissioned, so automatic.
    pub tx_power_db: u8,
    /// Which role this device plays (one of `node`).
    pub node_role: u8,
    /// Distance TX antenna to RX1 antenna, millimetres.
    pub antenna_offset_txrx1_mm: u16,
    /// Distance TX antenna to RX2 antenna, millimetres.
    pub antenna_offset_txrx2_mm: u16,
    /// Extra subcarrier shift applied at CSI capture.
    pub csi_shift: u8,
    /// 1 feeds the CSI ring from the recorded partition, 0 is normal operation.
    pub sim_mode: u8,
    /// Spare bytes.
    pub reserved: [u8; 2],
}

/// The configuration of a fresh device.
pub open spec fn default_config() -> RadarConfig {
    RadarConfig {
        version: CONFIG_VERSION,
        channel: 6,
        tx_rate_hz: 200,
        report_every: 20,
        pair_tolerance: 10,
        tx_power_db: 0,
        node_role: 0,
        antenna_offset_txrx1_mm: 0,
        antenna_offset_txrx2_mm: 0,
        csi_shift: 0,
        sim_mode: 0,
        reserved: [0u8, 0u8],
    }
}

/// A fresh device measures on channel 6 at 200 frames a second, reports every
/// 20 frames, pairs reports at most 10 apart, and is neither commissioned nor
/// provisioned nor fed from a recording.
pub proof fn fresh_devices_are_uncommissioned()
    ensures
        ({
            let c = default_config();
            &&& c.version == 1 && c.channel == 6 && c.tx_rate_hz == 200
            &&& c.report_every == 20 && c.pair_tolerance == 10
            &&& c.tx_power_db == 0 && c.node_role == 0 && c.sim_mode == 0 && c.csi_shift == 0
        }),
{
}

/// The stored form of a configuration.
pub open spec fn config_bytes(c: RadarConfig) -> Seq<u8> {
    u32_bytes(c.version) + seq![c.channel] + u16_bytes(c.tx_rate_hz) + u16_bytes(c.report_every)
        + u16_bytes(c.pair_tolerance) + seq![c.tx_power_db, c.node_role] + u16_bytes(
        c.antenna_offset_txrx1_mm,
    ) + u16_bytes(c.antenna_offset_txrx2_mm) + seq![
        c.csi_shift,
        c.sim_mode,
        c.reserved[0],
        c.reserved[1],
    ]
}

/// The configuration that `b` starts with.
pub open spec fn config_at(b: Seq<u8>) -> RadarConfig {
    RadarConfig {
        version: u32_at(b, 0),
        channel: b[4],
        tx_rate_hz: u16_at(b, 5),
        report_every: u16_at(b, 7),
        pair_tolerance: u16_at(b, 9),
        tx_power_db: b[11],
        node_role: b[12],
        antenna_offset_txrx1_mm: u16_at(b, 13),
        antenna_offset_txrx2_mm: u16_at(b, 15),
        csi_shift: b[17],
        sim_mode: b[18],
        reserved: [b[19], b[20]],
    }
}

/// What a stored blob decodes to: defaults when it is too short.
pub open spec fn config_of(b: Seq<u8>) -> RadarConfig {
    if b.len() < 21 {
        default_config()
    } else {
        config_at(b)
    }
}

/// A stored configuration is read back unchanged, whatever bytes follow it.
pub proof fn config_round_trip(c: RadarConfig, rest: Seq<u8>)
    ensures
        config_bytes(c).len() == 21,
        config_of(config_bytes(c) + rest) == c,
{
    let b = config_bytes(c) + rest;
    assert(b.subrange(0, 4) =~= u32_bytes(c.version));
    assert(b.subrange(5, 7) =~= u16_bytes(c.tx_rate_hz));
    assert(b.subrange(7, 9) =~= u16_bytes(c.report_every));
    assert(b.subrange(9, 11) =~= u16_bytes(c.pair_tolerance));
    assert(b.subrange(13, 15) =~= u16_bytes(c.antenna_offset_txrx1_mm));
    assert(b.subrange(15, 17) =~= u16_bytes(c.antenna_offset_txrx2_mm));
    u32_round_trip(b, 0, c.version);
    u16_round_trip(b, 5, c.tx_rate_hz);
    u16_round_trip(b, 7, c.report_every);
    u16_round_trip(b, 9, c.pair_tolerance);
    u16_round_trip(b, 13, c.antenna_offset_txrx1_mm);
    u16_round_trip(b, 15, c.antenna_offset_txrx2_mm);
    assert(b[4] == c.channel && b[11] == c.tx_power_db && b[12] == c.node_role);
    assert(b[17] == c.csi_shift && b[18] == c.sim_mode && b[19] == c.reserved[0] && b[20]
        == c.reserved[1]);
    assert(config_at(b).reserved =~= c.reserved);
}

/// Where the settings stand in the stored form.
pub proof fn config_layout(c: RadarConfig)
    ensures
        ({
            let b = config_bytes(c);
            &&& u32_at(b, 0) == c.version
            &&& b[4] == c.channel
            &&& u16_at(b, 5) == c.tx_rate_hz
            &&& u16_at(b, 7) == c.report_every
            &&& u16_at(b, 9) == c.pair_tolerance
            &&& b[11] == c.tx_power_db
            &&& b[12] == c.node_role
            &&& u16_at(b, 13) == c.antenna_offset_txrx1_mm
            &&& u16_at(b, 15) == c.antenna_offset_txrx2_mm
            &&& b[17] == c.csi_shift
            &&& b[18] == c.sim_mode
        }),
{
    config_round_trip(c, Seq::empty());
    assert(config_bytes(c) + Seq::empty() =~= config_bytes(c));
}

/// A configuration without a recorded feed has the same bytes as one written
/// when the recorded-feed switch was still a spare byte: reading such a blob
/// switches the feed off, and setting that byte switches it on and changes
/// nothing else.
pub proof fn spare_byte_became_the_feed_switch(c: RadarConfig, v: u8)
    ensures
        config_bytes(c)[18] == c.sim_mode,
        config_of(config_bytes(c).update(18, v)) == (RadarConfig { sim_mode: v, ..c }),
{
    let d = RadarConfig { sim_mode: v, ..c };
    assert(config_bytes(c).len() == 21);
    assert(config_bytes(c).update(18, v) =~= config_bytes(d) + Seq::empty());
    config_round_trip(d, Seq::empty());
}

impl Default for RadarConfig {
    fn default() -> (c: Self)
        ensures
            c == default_config(),
    {
        let c = RadarConfig {
            version: CONFIG_VERSION,
            channel: 6,
            tx_rate_hz: 200,
            report_every: 20,
            pair_tolerance: 10,
            tx_power_db: 0,
            node_role: 0,
            antenna_offset_txrx1_mm: 0,
            antenna_offset_txrx2_mm: 0,
            csi_shift: 0,
            sim_mode: 0,
            reserved: [0u8, 0u8],
        };
        assert(c.reserved =~= default_config().reserved);
        c
    }
}

impl RadarConfig {
    /// Stored size of a configuration.
    pub const SERIALIZED_LEN: usize = 21;

    /// Little-endian encoding.
    pub fn to_bytes(&self) -> (out: [u8; 21])
        ensures
            out@ == config_bytes(*self),
    {
        let mut v: Vec<u8> = Vec::new();
        put_u32(&mut v, self.version);
        v.push(self.channel);
        put_u16(&mut v, self.tx_rate_hz);
        put_u16(&mut v, self.report_every);
        put_u16(&mut v, self.pair_tolerance);
        v.push(self.tx_power_db);
        v.push(self.node_role);
        put_u16(&mut v, self.antenna_offset_txrx1_mm);
        put_u16(&mut v, self.antenna_offset_txrx2_mm);
        v.push(self.csi_shift);
        v.push(self.sim_mode);
        v.push(self.reserved[0]);
        v.push(self.reserved[1]);
        assert(v@ =~= config_bytes(*self));
        let mut out = [0u8; 21];
        crate::wire::write_at(&mut out, 0, v.as_slice());
        assert(out@ =~= config_bytes(*self));
        out
    }

    /// Decodes a blob. Gives the defaults when it is too short.
    pub fn from_bytes(b: &[u8]) -> (c: Self)
        ensures
            c == config_of(b@),
    {
        if b.len() < 21 {
            return RadarConfig::default();
        }
        let c = RadarConfig {
            version: get_u32(b, 0),
            channel: b[4],
            tx_rate_hz: get_u16(b, 5),
            report_every: get_u16(b, 7),
            pair_tolerance: get_u16(b, 9),
            tx_power_db: b[11],
            node_role: b[12],
            antenna_offset_txrx1_mm: get_u16(b, 13),
            antenna_offset_txrx2_mm: get_u16(b, 15),
            csi_shift: b[17],
            sim_mode: b[18],
            reserved: [b[19], b[20]],
        };
        assert(c.reserved =~= config_at(b@).reserved);
        c
    }
}

} // verus!
