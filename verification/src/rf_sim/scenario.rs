//! Records of a scenario blob.

use vstd::prelude::*;

use crate::dsp::transform::{bin_at, subcarrier_at};
use crate::receiver::sim::{
    record_offset, sim_header_bytes, sim_header_of, sim_header_round_trip, write_header, SimError,
    SimHeader, SIM_FRAME_LEN,
};
use crate::wire::{from_i8, i8_of_u8, put_slice, u8_of_i8};

verus! {

/// Seed of scenarios that name none.
pub const DEFAULT_SEED: u64 = 0xC0_FFEE;

/// Subcarriers of a record.
pub const N_SUBC: usize = 56;

/// Subcarrier number, relative to DC, of the analyzer's index `k`.
pub fn subcarrier_of(k: usize) -> (sub: i32)
    requires
        k < N_SUBC,
    ensures
        sub == subcarrier_at(k as int),
{
    if k < 28 {
        k as i32 - 28
    } else {
        k as i32 - 27
    }
}

/// FFT bin of a subcarrier.
pub fn bin_of(sub: i32) -> (bin: usize)
    requires
        -32 <= sub <= 31,
    ensures
        bin == sub + 32,
{
    (sub + 32) as usize
}

/// The header of a scenario with HT frames on a 20 MHz channel.
pub fn scenario_header(
    channel: u8,
    rate_hz: u32,
    n_frames: u32,
    rssi: i16,
    noise_floor: i16,
    bssid: [u8; 6],
) -> (h: SimHeader)
    ensures
        h == (SimHeader {
            channel,
            rate_hz,
            n_frames,
            rssi,
            noise_floor,
            mac: bssid,
            cwb: 0,
            sig_mode: 1,
        }),
{
    SimHeader {
        channel,
        rate_hz,
        n_frames,
        rssi,
        noise_floor,
        mac: bssid,
        cwb: 0,
        sig_mode: 1,
    }
}

/// `r` is the record of the given samples: each pair stands at its
/// subcarrier's bin, and all other bins are zero.
pub open spec fn is_record(r: Seq<u8>, pairs: Seq<(i8, i8)>) -> bool {
    &&& r.len() == SIM_FRAME_LEN
    &&& forall|k: int|
        0 <= k < 56 ==> r[2 * #[trigger] bin_at(k)] == u8_of_i8(pairs[k].0) && r[2 * bin_at(k) + 1]
            == u8_of_i8(pairs[k].1)
    &&& forall|bin: int|
        0 <= bin < 64 && !(4 <= bin <= 60 && bin != 32) ==> #[trigger] r[2 * bin] == 0 && r[2 * bin
            + 1] == 0
}

/// The receiver's subcarrier selection reads from a record the samples that
/// were written into it.
pub proof fn record_is_read_back(r: Seq<u8>, pairs: Seq<(i8, i8)>, k: int)
    requires
        is_record(r, pairs),
        pairs.len() == 56,
        0 <= k < 56,
    ensures
        (i8_of_u8(r[2 * bin_at(k)]), i8_of_u8(r[2 * bin_at(k) + 1])) == pairs[k],
{
    crate::wire::i8_round_trip(pairs[k].0);
    crate::wire::i8_round_trip(pairs[k].1);
}

/// Writes the samples of one frame into a record.
pub fn write_record(pairs: &[(i8, i8)]) -> (r: [u8; 128])
    requires
        pairs@.len() == 56,
    ensures
        is_record(r@, pairs@),
{
    let mut r = [0u8; 128];
    let mut k: usize = 0;
    while k < 56
        invariant
            k <= 56,
            pairs@.len() == 56,
            forall|j: int|
                0 <= j < k ==> r@[2 * #[trigger] bin_at(j)] == u8_of_i8(pairs@[j].0) && r@[2
                    * bin_at(j) + 1] == u8_of_i8(pairs@[j].1),
            forall|i: int|
                0 <= i < 128 && (i < 8 || i / 2 == 32 || i >= 122) ==> #[trigger] r@[i] == 0,
        decreases 56 - k,
    {
        let at: usize = 2 * bin_of(subcarrier_of(k));
        let ghost before = r@;
        r[at] = from_i8(pairs[k].0);
        r[at + 1] = from_i8(pairs[k].1);
        proof {
            assert forall|j: int| 0 <= j < k + 1 implies r@[2 * #[trigger] bin_at(j)] == u8_of_i8(
                pairs@[j].0,
            ) && r@[2 * bin_at(j) + 1] == u8_of_i8(pairs@[j].1) by {
                if j < k {
                    assert(bin_at(j) < bin_at(k as int));
                    assert(before[2 * bin_at(j)] == u8_of_i8(pairs@[j].0));
                }
            }
        }
        k += 1;
    }
    r
}

/// The blob of a scenario: its header and its records.
pub open spec fn blob_bytes(h: SimHeader, records: Seq<[u8; 128]>) -> Seq<u8>
    decreases records.len(),
{
    if records.len() == 0 {
        sim_header_bytes(h)
    } else {
        blob_bytes(h, records.drop_last()) + records.last()@
    }
}

/// Builds the blob of a scenario.
pub fn generate(h: &SimHeader, records: &[[u8; 128]]) -> (b: Vec<u8>)
    requires
        h.n_frames == records@.len(),
    ensures
        b@ == blob_bytes(*h, records@),
{
    let mut b: Vec<u8> = Vec::new();
    put_slice(&mut b, &write_header(h));
    let mut i: usize = 0;
    while i < records.len()
        invariant
            i <= records@.len(),
            b@ == blob_bytes(*h, records@.subrange(0, i as int)),
        decreases records@.len() - i,
    {
        put_slice(&mut b, &records[i]);
        i += 1;
        assert(records@.subrange(0, i as int).drop_last() =~= records@.subrange(0, i - 1));
    }
    assert(records@.subrange(0, records@.len() as int) =~= records@);
    b
}

/// The replay finds in a blob the header and, where it looks for it, each
/// record.
pub proof fn blob_is_read_back(h: SimHeader, records: Seq<[u8; 128]>, i: u32)
    requires
        i < records.len(),
    ensures
        sim_header_of(blob_bytes(h, records)) == Ok::<SimHeader, SimError>(h),
        blob_bytes(h, records).len() == 32 + 128 * records.len(),
        blob_bytes(h, records).subrange(record_offset(i), record_offset(i) + 128) == records[
            i as int]@,
{
    blob_shape(h, records);
    blob_record(h, records, i as int);
    let rest = blob_bytes(h, records).skip(32);
    assert(blob_bytes(h, records) =~= sim_header_bytes(h) + rest);
    sim_header_round_trip(h, rest);
}

proof fn blob_shape(h: SimHeader, records: Seq<[u8; 128]>)
    ensures
        blob_bytes(h, records).len() == 32 + 128 * records.len(),
        blob_bytes(h, records).subrange(0, 32) == sim_header_bytes(h),
    decreases records.len(),
{
    sim_header_round_trip(h, Seq::empty());
    if records.len() == 0 {
        assert(sim_header_bytes(h).subrange(0, 32) =~= sim_header_bytes(h));
    } else {
        blob_shape(h, records.drop_last());
        assert(blob_bytes(h, records).subrange(0, 32) =~= blob_bytes(
            h,
            records.drop_last(),
        ).subrange(0, 32));
    }
}

proof fn blob_record(h: SimHeader, records: Seq<[u8; 128]>, i: int)
    requires
        0 <= i < records.len(),
    ensures
        blob_bytes(h, records).subrange(32 + 128 * i, 32 + 128 * i + 128) == records[i]@,
    decreases records.len(),
{
    blob_shape(h, records);
    blob_shape(h, records.drop_last());
    let b = blob_bytes(h, records);
    let before = blob_bytes(h, records.drop_last());
    if i == records.len() - 1 {
        assert(b.subrange(32 + 128 * i, 32 + 128 * i + 128) =~= records[i]@);
    } else {
        blob_record(h, records.drop_last(), i);
        assert(b.subrange(32 + 128 * i, 32 + 128 * i + 128) =~= before.subrange(
            32 + 128 * i,
            32 + 128 * i + 128,
        ));
    }
}

} // verus!
