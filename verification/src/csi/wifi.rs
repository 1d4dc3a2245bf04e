//! Metadata words and configuration of the Wi-Fi driver's CSI interface.
//!
//! The driver hands over seven 32-bit words of receive metadata:
//!
//! ```text
//! word0 bits  0..7   rssi (signed)        | 14..15 sig_mode
//! word1 bits  0..6   mcs                  | 7 cwb
//! word2 bits  0..7   noise_floor (signed) | 16..19 channel
//! word3 bits  0..31  timestamp
//! word6 bits  0..11  sig_len
//! ```

use vstd::prelude::*;
use vstd::string::StringExecFns;

use crate::csi::CsiInfo;
use crate::text::{int_text, push_int};
use crate::wire::{i8_of_u8, to_i8};

verus! {

/// CSI acquisition configuration.
#[derive(Clone, Copy, Debug, PartialEq, Eq, Structural)]
pub struct CsiConfig {
    pub lltf_en: bool,
    pub htltf_en: bool,
    pub stbc_htltf2_en: bool,
    pub ltf_merge_en: bool,
    pub channel_filter_en: bool,
    pub manu_scale: bool,
    /// Manual left-shift of the CSI scale, only used with `manu_scale`.
    pub shift: u8,
    pub dump_ack_en: bool,
}

impl Default for CsiConfig {
    /// Merged HT-LTF with the channel filter, automatic scaling, no ACKs.
    fn default() -> (c: Self)
        ensures
            c == (CsiConfig {
                lltf_en: false,
                htltf_en: true,
                stbc_htltf2_en: true,
                ltf_merge_en: true,
                channel_filter_en: true,
                manu_scale: false,
                shift: 0,
                dump_ack_en: false,
            }),
    {
        CsiConfig {
            lltf_en: false,
            htltf_en: true,
            stbc_htltf2_en: true,
            ltf_merge_en: true,
            channel_filter_en: true,
            manu_scale: false,
            shift: 0,
            dump_ack_en: false,
        }
    }
}

/// Error from the driver.
#[derive(Clone, Copy, Debug, PartialEq, Eq, Structural)]
pub enum CsiError {
    /// A driver call did not succeed.
    EspError(i32),
}

impl CsiError {
    /// The driver's code.
    pub fn code(&self) -> (c: i32)
        ensures
            *self == CsiError::EspError(c),
    {
        match self {
            CsiError::EspError(c) => *c,
        }
    }

    /// The message shown in the log.
    pub fn text(&self) -> (s: String)
        ensures
            s@ == "CSI error esp_err_t="@ + int_text(self->EspError_0 as int),
    {
        let mut s = "CSI error esp_err_t=".to_owned();
        push_int(&mut s, self.code());
        s
    }
}

/// Judges a driver call: zero is success.
pub fn check(err: i32) -> (r: Result<(), CsiError>)
    ensures
        r == (if err == 0 {
            Ok::<(), CsiError>(())
        } else {
            Err(CsiError::EspError(err))
        }),
{
    if err == 0 {
        Ok(())
    } else {
        Err(CsiError::EspError(err))
    }
}

/// The `2^k`-valued field of `w` that starts at the bit of weight `low`.
pub open spec fn field(w: u32, low: int, values: int) -> int {
    w as int / low % values
}

/// The metadata in the driver's words and plain fields.
pub open spec fn info_of(
    words: Seq<u32>,
    first_word_invalid: bool,
    mac: [u8; 6],
    rx_seq: u16,
) -> CsiInfo {
    CsiInfo {
        rssi: i8_of_u8(field(words[0], 1, 256) as u8) as i16,
        noise_floor: i8_of_u8(field(words[2], 1, 256) as u8) as i16,
        channel: field(words[2], 0x1_0000, 16) as i8,
        sig_mode: field(words[0], 0x4000, 4) as u8,
        mcs: field(words[1], 1, 128) as u8,
        cwb: field(words[1], 128, 2) as u8,
        timestamp_us: words[3],
        sig_len: field(words[6], 1, 4096) as u16,
        first_word_invalid,
        mac,
        rx_seq,
    }
}

proof fn field_reads(w: u32, below: int, low: int, v: int, values: int, above: int)
    requires
        0 <= below < low,
        0 <= v < values,
        w == below + low * (v + values * above),
    ensures
        field(w, low, values) == v,
{
    let q = v + values * above;
    assert(q * low == low * q) by (nonlinear_arith);
    vstd::arithmetic::div_mod::lemma_fundamental_div_mod_converse(w as int, low, q, below);
    assert(above * values == values * above) by (nonlinear_arith);
    vstd::arithmetic::div_mod::lemma_fundamental_div_mod_converse(q, values, above, v);
}

/// Each field is read from its own bits, whatever stands in the others: the
/// strength and the mode from the first word, the coding and the width from
/// the second, the noise and the channel from the third, the time from the
/// fourth and the length from the last.
pub proof fn fields_are_read_from_their_bits(
    words: Seq<u32>,
    first_word_invalid: bool,
    mac: [u8; 6],
    rx_seq: u16,
    rssi: u8,
    mode: u8,
    mcs: u8,
    cwb: u8,
    noise: u8,
    channel: u8,
    len: u16,
    x: Seq<u16>,
)
    requires
        words.len() == 7,
        x.len() == 6,
        mode < 4 && mcs < 128 && cwb < 2 && channel < 16 && len < 4096,
        x[0] < 64 && x[3] < 256 && x[4] < 4096,
        words[0] == rssi + 256 * x[0] + 0x4000 * mode + 0x1_0000 * x[1],
        words[1] == mcs + 128 * cwb + 256 * x[2],
        words[2] == noise + 256 * x[3] + 0x1_0000 * channel + 0x10_0000 * x[4],
        words[6] == len + 4096 * x[5],
    ensures
        ({
            let i = info_of(words, first_word_invalid, mac, rx_seq);
            &&& i.rssi == i8_of_u8(rssi)
            &&& i.sig_mode == mode
            &&& i.mcs == mcs
            &&& i.cwb == cwb
            &&& i.noise_floor == i8_of_u8(noise)
            &&& i.channel == channel
            &&& i.timestamp_us == words[3]
            &&& i.sig_len == len
            &&& i.first_word_invalid == first_word_invalid && i.mac == mac && i.rx_seq == rx_seq
        }),
{
    field_reads(words[0], 0, 1, rssi as int, 256, x[0] + 64 * mode + 256 * x[1]);
    field_reads(words[0], rssi + 256 * x[0], 0x4000, mode as int, 4, x[1] as int);
    field_reads(words[1], 0, 1, mcs as int, 128, cwb + 2 * x[2]);
    field_reads(words[1], mcs as int, 128, cwb as int, 2, x[2] as int);
    field_reads(words[2], 0, 1, noise as int, 256, x[3] + 256 * channel + 4096 * x[4]);
    field_reads(words[2], noise + 256 * x[3], 0x1_0000, channel as int, 16, x[4] as int);
    field_reads(words[6], 0, 1, len as int, 4096, x[5] as int);
}

/// Decodes the metadata of an observation.
pub fn decode_info(
    words: &[u32; 7],
    first_word_invalid: bool,
    mac: [u8; 6],
    rx_seq: u16,
) -> (info: CsiInfo)
    ensures
        info == info_of(words@, first_word_invalid, mac, rx_seq),
{
    CsiInfo {
        rssi: to_i8((words[0] % 256) as u8) as i16,
        noise_floor: to_i8((words[2] % 256) as u8) as i16,
        channel: (words[2] / 0x1_0000 % 16) as i8,
        sig_mode: (words[0] / 0x4000 % 4) as u8,
        mcs: (words[1] % 128) as u8,
        cwb: (words[1] / 128 % 2) as u8,
        timestamp_us: words[3],
        sig_len: (words[6] % 4096) as u16,
        first_word_invalid,
        mac,
        rx_seq,
    }
}

/// How many samples the capture callback hands to the ring: none for a
/// missing or empty buffer.
pub fn captured_len(has_buffer: bool, len: u16) -> (n: Option<usize>)
    ensures
        n == (if !has_buffer || len == 0 {
            None::<usize>
        } else if len < crate::csi::MAX_CSI_LEN {
            Some(len as usize)
        } else {
            Some(crate::csi::MAX_CSI_LEN)
        }),
{
    if !has_buffer || len == 0 {
        return None;
    }
    let len: usize = len as usize;
    if len < crate::csi::MAX_CSI_LEN {
        Some(len)
    } else {
        Some(crate::csi::MAX_CSI_LEN)
    }
}

} // verus!
