//! Rolling CSI columns behind the dashboard's waterfall and spectrograms.

use std::collections::VecDeque;
use vstd::prelude::*;

use crate::features::slid;
use crate::web::telemetry::{
    encoded, kind, link, matrix_bytes, matrix_ends, EncodeError, SpectrogramFrame, WaterfallFrame,
};

verus! {

/// Columns kept per link.
pub const RING_CAP: usize = 48;

/// The last columns of one link: amplitudes and motion spectrum.
#[derive(Debug)]
pub struct SnapshotRing {
    pub amps: VecDeque<[u8; 56]>,
    pub spec: VecDeque<[u8; 64]>,
}

/// The contents of columns, oldest first.
pub open spec fn columns<const N: usize>(q: Seq<[u8; N]>) -> Seq<Seq<u8>> {
    q.map_values(|c: [u8; N]| c@)
}

/// `s` cut or padded with zeros to `n` values.
pub open spec fn fitted(s: Seq<u8>, n: nat) -> Seq<u8> {
    Seq::new(
        n,
        |i: int|
            if i < s.len() {
                s[i]
            } else {
                0u8
            },
    )
}

/// The columns one after the other.
pub open spec fn flat(cols: Seq<Seq<u8>>) -> Seq<u8>
    decreases cols.len(),
{
    if cols.len() == 0 {
        Seq::empty()
    } else {
        flat(cols.drop_last()) + cols.last()
    }
}

/// Columns of `n` values make a matrix of as many values per column.
pub proof fn flat_length(cols: Seq<Seq<u8>>, n: nat)
    requires
        forall|i: int| 0 <= i < cols.len() ==> (#[trigger] cols[i]).len() == n,
    ensures
        flat(cols).len() == n * cols.len(),
    decreases cols.len(),
{
    if cols.len() > 0 {
        flat_length(cols.drop_last(), n);
        let m = (cols.len() - 1) as nat;
        assert(n * m + n == n * (m + 1)) by (nonlinear_arith);
    } else {
        assert(n * 0 == 0) by (nonlinear_arith);
    }
}

/// The matrix is time-major: the value `k` of the column `t` stands at
/// `t * n + k`.
pub proof fn matrix_is_time_major(cols: Seq<Seq<u8>>, n: nat, t: int, k: int)
    requires
        forall|i: int| 0 <= i < cols.len() ==> (#[trigger] cols[i]).len() == n,
        0 <= t < cols.len(),
        0 <= k < n,
    ensures
        0 <= t * n + k < flat(cols).len(),
        flat(cols)[t * n + k] == cols[t][k],
    decreases cols.len(),
{
    let q = cols.drop_last();
    flat_length(q, n);
    flat_length(cols, n);
    let (m, w) = (q.len() as int, n as int);
    assert(w * (m + 1) == w * m + w && w * m == m * w) by (nonlinear_arith);
    if t < m {
        assert(q[t] == cols[t]);
        matrix_is_time_major(q, n, t, k);
    } else {
        assert(flat(cols)[m * w + k] == cols.last()[k]);
    }
    assert(t * n + k >= 0) by (nonlinear_arith)
        requires
            t >= 0,
            n >= 0,
            k >= 0,
    ;
}

/// A column keeps the values of a snapshot in their places, and is filled up
/// with zeros.
pub proof fn columns_keep_their_values(s: Seq<u8>, n: nat, k: int)
    requires
        0 <= k < n,
    ensures
        fitted(s, n).len() == n,
        k < s.len() ==> fitted(s, n)[k] == s[k],
        k >= s.len() ==> fitted(s, n)[k] == 0,
        s.len() == n ==> fitted(s, n) == s,
{
    if s.len() == n {
        assert(fitted(s, n) =~= s);
    }
}

/// Fusing pairs each column with the one of the other link that is as old,
/// counted from the newest, and takes the mean of each pair of values, cut by
/// at most a half. It does not matter which link comes first.
pub proof fn fusing_aligns_the_newest_columns(
    a: Seq<Seq<u8>>,
    b: Seq<Seq<u8>>,
    age: int,
    k: int,
)
    requires
        0 <= age < a.len(),
        age < b.len(),
        0 <= k < a[a.len() - 1 - age].len(),
        a[a.len() - 1 - age].len() == b[b.len() - 1 - age].len(),
    ensures
        fused(a, b).len() == if a.len() <= b.len() {
            a.len()
        } else {
            b.len()
        },
        ({
            let (x, y) = (a[a.len() - 1 - age][k], b[b.len() - 1 - age][k]);
            let z = fused(a, b)[fused(a, b).len() - 1 - age][k];
            &&& fused(a, b)[fused(a, b).len() - 1 - age].len() == a[a.len() - 1 - age].len()
            &&& 2 * z <= x + y <= 2 * z + 1
            &&& fused(b, a)[fused(b, a).len() - 1 - age][k] == z
        }),
{
}

/// The last `n` columns.
pub open spec fn tail(cols: Seq<Seq<u8>>, n: int) -> Seq<Seq<u8>> {
    cols.subrange(cols.len() - n, cols.len() as int)
}

/// Element-wise mean of two columns, cut to an integer.
pub open spec fn averaged(a: Seq<u8>, b: Seq<u8>) -> Seq<u8> {
    Seq::new(a.len(), |k: int| ((a[k] + b[k]) / 2) as u8)
}

/// The columns of both links, aligned at their newest, averaged.
pub open spec fn fused(a: Seq<Seq<u8>>, b: Seq<Seq<u8>>) -> Seq<Seq<u8>> {
    let n = if a.len() <= b.len() {
        a.len()
    } else {
        b.len()
    };
    Seq::new(n, |t: int| averaged(tail(a, n as int)[t], tail(b, n as int)[t]))
}

/// Averaging keeps between the two links.
pub proof fn average_is_between(a: Seq<u8>, b: Seq<u8>, k: int)
    requires
        0 <= k < a.len(),
        a.len() == b.len(),
    ensures
        a[k] <= b[k] ==> a[k] <= averaged(a, b)[k] <= b[k],
        b[k] <= a[k] ==> b[k] <= averaged(a, b)[k] <= a[k],
{
}

fn fit56(s: &[u8]) -> (a: [u8; 56])
    ensures
        a@ == fitted(s@, 56),
{
    let mut a = [0u8; 56];
    let mut i: usize = 0;
    while i < 56 && i < s.len()
        invariant
            i <= 56,
            i <= s@.len(),
            forall|k: int| 0 <= k < i ==> #[trigger] a@[k] == s@[k],
            forall|k: int| i <= k < 56 ==> #[trigger] a@[k] == 0,
        decreases 56 - i,
    {
        a[i] = s[i];
        i += 1;
    }
    assert(a@ =~= fitted(s@, 56));
    a
}

fn fit64(s: &[u8]) -> (a: [u8; 64])
    ensures
        a@ == fitted(s@, 64),
{
    let mut a = [0u8; 64];
    let mut i: usize = 0;
    while i < 64 && i < s.len()
        invariant
            i <= 64,
            i <= s@.len(),
            forall|k: int| 0 <= k < i ==> #[trigger] a@[k] == s@[k],
            forall|k: int| i <= k < 64 ==> #[trigger] a@[k] == 0,
        decreases 64 - i,
    {
        a[i] = s[i];
        i += 1;
    }
    assert(a@ =~= fitted(s@, 64));
    a
}

impl SnapshotRing {
    /// The amplitude columns, oldest first.
    pub open spec fn amp_columns(self) -> Seq<Seq<u8>> {
        columns(self.amps@)
    }

    /// The spectrum columns, oldest first.
    pub open spec fn spec_columns(self) -> Seq<Seq<u8>> {
        columns(self.spec@)
    }

    /// The rings are within their capacity.
    pub open spec fn wf(self) -> bool {
        self.amps@.len() <= RING_CAP && self.spec@.len() <= RING_CAP
    }

    /// Empty rings.
    pub fn new() -> (r: Self)
        ensures
            r.wf(),
            r.amp_columns() == Seq::<Seq<u8>>::empty(),
            r.spec_columns() == Seq::<Seq<u8>>::empty(),
    {
        let r = SnapshotRing { amps: VecDeque::new(), spec: VecDeque::new() };
        assert(r.amp_columns() =~= Seq::<Seq<u8>>::empty());
        assert(r.spec_columns() =~= Seq::<Seq<u8>>::empty());
        r
    }

    /// Adds the columns of a snapshot; the oldest give way.
    pub fn push(&mut self, amp: &[u8], spec: &[u8])
        requires
            old(self).wf(),
        ensures
            final(self).wf(),
            final(self).amp_columns() == slid(
                old(self).amp_columns(),
                RING_CAP as nat,
                fitted(amp@, 56),
            ),
            final(self).spec_columns() == slid(
                old(self).spec_columns(),
                RING_CAP as nat,
                fitted(spec@, 64),
            ),
            final(self).amp_columns().len() <= 48 && final(self).spec_columns().len() <= 48,
            final(self).amp_columns().last() == fitted(amp@, 56),
            final(self).spec_columns().last() == fitted(spec@, 64),
            old(self).amps@.len() < 48 ==> final(self).amps@.len() == old(self).amps@.len() + 1,
    {
        let a = fit56(amp);
        let s = fit64(spec);
        if self.amps.len() >= RING_CAP {
            self.amps.pop_front();
        }
        if self.spec.len() >= RING_CAP {
            self.spec.pop_front();
        }
        self.amps.push_back(a);
        self.spec.push_back(s);
        assert(self.amp_columns() =~= slid(
            old(self).amp_columns(),
            RING_CAP as nat,
            fitted(amp@, 56),
        ));
        assert(self.spec_columns() =~= slid(
            old(self).spec_columns(),
            RING_CAP as nat,
            fitted(spec@, 64),
        ));
    }
}

fn flat56(q: &VecDeque<[u8; 56]>) -> (data: Vec<u8>)
    ensures
        data@ == flat(columns(q@)),
{
    let mut data: Vec<u8> = Vec::new();
    let mut t: usize = 0;
    let ghost cols = columns(q@);
    assert(cols.subrange(0, 0) =~= Seq::empty());
    while t < q.len()
        invariant
            t <= q@.len(),
            cols == columns(q@),
            data@ == flat(cols.subrange(0, t as int)),
        decreases q@.len() - t,
    {
        crate::wire::put_slice(&mut data, q[t].as_slice());
        t += 1;
        assert(cols.subrange(0, t as int).drop_last() =~= cols.subrange(0, t - 1));
        assert(cols.subrange(0, t as int).last() == q@[t - 1]@);
    }
    assert(cols.subrange(0, cols.len() as int) =~= cols);
    data
}

fn flat64(q: &VecDeque<[u8; 64]>) -> (data: Vec<u8>)
    ensures
        data@ == flat(columns(q@)),
{
    let mut data: Vec<u8> = Vec::new();
    let mut t: usize = 0;
    let ghost cols = columns(q@);
    assert(cols.subrange(0, 0) =~= Seq::empty());
    while t < q.len()
        invariant
            t <= q@.len(),
            cols == columns(q@),
            data@ == flat(cols.subrange(0, t as int)),
        decreases q@.len() - t,
    {
        crate::wire::put_slice(&mut data, q[t].as_slice());
        t += 1;
        assert(cols.subrange(0, t as int).drop_last() =~= cols.subrange(0, t - 1));
        assert(cols.subrange(0, t as int).last() == q@[t - 1]@);
    }
    assert(cols.subrange(0, cols.len() as int) =~= cols);
    data
}

/// What encoding the columns of a ring gives: nothing without columns;
/// otherwise the number of bytes written, or nothing if the buffer ran out.
pub open spec fn ring_encoded(
    kind: u8,
    link: u8,
    width: u8,
    cols: Seq<Seq<u8>>,
    before: Seq<u8>,
    after: Seq<u8>,
    r: Option<usize>,
) -> bool {
    let bytes = matrix_bytes(kind, link, width, cols.len() as u16, 0, flat(cols));
    let ends = matrix_ends(flat(cols).len() as int);
    if cols.len() == 0 {
        r is None && after == before
    } else {
        match r {
            Some(n) => encoded(bytes, ends, before, after, Ok(n)),
            None => exists|e: EncodeError| #[trigger] encoded(bytes, ends, before, after, Err(e)),
        }
    }
}

/// Full rings fit the 4096-byte send buffer, so no column is ever withheld.
pub proof fn full_rings_fit_the_buffer(
    kind: u8,
    link: u8,
    width: u8,
    cols: Seq<Seq<u8>>,
    before: Seq<u8>,
    after: Seq<u8>,
    r: Option<usize>,
)
    requires
        0 < cols.len() <= RING_CAP,
        width <= 64,
        forall|i: int| 0 <= i < cols.len() ==> (#[trigger] cols[i]).len() == width,
        before.len() == 4096,
        ring_encoded(kind, link, width, cols, before, after, r),
    ensures
        r == Some((11 + width * cols.len()) as usize),
{
    flat_length(cols, width as nat);
    assert(width * cols.len() <= 64 * 48) by (nonlinear_arith)
        requires
            width <= 64,
            cols.len() <= 48,
    ;
    let bytes = matrix_bytes(kind, link, width, cols.len() as u16, 0, flat(cols));
    assert(bytes.len() == 11 + width * cols.len());
}

/// Encodes the amplitudes of a ring as a waterfall.
pub fn encode_waterfall(buf: &mut [u8], link: u8, ring: &SnapshotRing) -> (r: Option<usize>)
    requires
        ring.wf(),
    ensures
        ring_encoded(
            kind::WATERFALL,
            link,
            56,
            ring.amp_columns(),
            old(buf)@,
            final(buf)@,
            r,
        ),
{
    let bins: usize = ring.amps.len();
    if bins == 0 {
        return None;
    }
    let data = flat56(&ring.amps);
    proof {
        flat_length(ring.amp_columns(), 56);
    }
    let wf = WaterfallFrame { link, n_sub: 56, bins: bins as u16, scale: 0, data: data.as_slice() };
    match wf.encode(buf) {
        Ok(n) => Some(n),
        Err(e) => None,
    }
}

/// Encodes the spectra of a ring as a spectrogram.
pub fn encode_spec(buf: &mut [u8], link: u8, ring: &SnapshotRing) -> (r: Option<usize>)
    requires
        ring.wf(),
    ensures
        ring_encoded(
            kind::SPECTROGRAM,
            link,
            64,
            ring.spec_columns(),
            old(buf)@,
            final(buf)@,
            r,
        ),
{
    let bins: usize = ring.spec.len();
    if bins == 0 {
        return None;
    }
    let data = flat64(&ring.spec);
    proof {
        flat_length(ring.spec_columns(), 64);
    }
    let sp = SpectrogramFrame {
        link,
        n_freq: 64,
        bins: bins as u16,
        scale: 0,
        data: data.as_slice(),
    };
    match sp.encode(buf) {
        Ok(n) => Some(n),
        Err(e) => None,
    }
}

fn fused_data(r1: &SnapshotRing, r2: &SnapshotRing, n: usize) -> (data: Vec<u8>)
    requires
        r1.wf(),
        r2.wf(),
        n <= r1.spec@.len(),
        n <= r2.spec@.len(),
        n == r1.spec@.len() || n == r2.spec@.len(),
    ensures
        data@ == flat(fused(r1.spec_columns(), r2.spec_columns())),
{
    let off1: usize = r1.spec.len() - n;
    let off2: usize = r2.spec.len() - n;
    let ghost cols = fused(r1.spec_columns(), r2.spec_columns());
    let mut data: Vec<u8> = Vec::new();
    let mut t: usize = 0;
    assert(cols.subrange(0, 0) =~= Seq::empty());
    while t < n
        invariant
            t <= n,
            r1.wf(),
            r2.wf(),
            n <= r1.spec@.len(),
            n <= r2.spec@.len(),
            n == r1.spec@.len() || n == r2.spec@.len(),
            off1 == r1.spec@.len() - n,
            off2 == r2.spec@.len() - n,
            cols == fused(r1.spec_columns(), r2.spec_columns()),
            data@ == flat(cols.subrange(0, t as int)),
        decreases n - t,
    {
        let c1 = r1.spec[off1 + t];
        let c2 = r2.spec[off2 + t];
        let ghost before = data@;
        let mut k: usize = 0;
        while k < 64
            invariant
                k <= 64,
                data@.len() == before.len() + k,
                forall|j: int| 0 <= j < before.len() ==> data@[j] == before[j],
                forall|j: int|
                    0 <= j < k ==> #[trigger] data@[before.len() + j] == ((c1@[j] + c2@[j])
                        / 2) as u8,
            decreases 64 - k,
        {
            data.push(((c1[k] as u16 + c2[k] as u16) / 2) as u8);
            k += 1;
        }
        assert(data@ =~= before + averaged(c1@, c2@)) by {
            assert forall|j: int| 0 <= j < data@.len() implies data@[j] == (before + averaged(
                c1@,
                c2@,
            ))[j] by {
                if j >= before.len() {
                    assert(data@[before.len() + (j - before.len())] == ((c1@[j - before.len()]
                        + c2@[j - before.len()]) / 2) as u8);
                }
            }
        }
        t += 1;
        assert(cols.subrange(0, t as int).drop_last() =~= cols.subrange(0, t - 1));
        assert(cols.subrange(0, t as int).last() == averaged(c1@, c2@));
    }
    assert(cols.subrange(0, n as int) =~= cols);
    data
}

/// Encodes the average of both links' spectra, aligned at their newest.
pub fn encode_fused_spec(buf: &mut [u8], r1: &SnapshotRing, r2: &SnapshotRing) -> (r: Option<usize>)
    requires
        r1.wf(),
        r2.wf(),
    ensures
        ring_encoded(
            kind::SPECTROGRAM,
            link::FUSED,
            64,
            fused(r1.spec_columns(), r2.spec_columns()),
            old(buf)@,
            final(buf)@,
            r,
        ),
{
    let n: usize = if r1.spec.len() <= r2.spec.len() {
        r1.spec.len()
    } else {
        r2.spec.len()
    };
    let ghost cols = fused(r1.spec_columns(), r2.spec_columns());
    assert(cols.len() == n);
    if n == 0 {
        return None;
    }
    let data = fused_data(r1, r2, n);
    proof {
        flat_length(cols, 64);
    }
    let sp = SpectrogramFrame {
        link: link::FUSED,
        n_freq: 64,
        bins: n as u16,
        scale: 0,
        data: data.as_slice(),
    };
    match sp.encode(buf) {
        Ok(k) => Some(k),
        Err(e) => None,
    }
}

} // verus!
