//! Shared constants, configuration and the summary line that a role prints.

use vstd::prelude::*;
use vstd::string::StringExecFns;
use vstd::string::StrSliceExecFns;

use crate::protocol::node;
use crate::text::{
    chars_of, first_place, joined, lacks, parse_number, ranges_of, read_nat, same_chars, same_text,
    split, split_ranges, trim, trim_range, find_char,
};

verus! {

/// Measurement port, TX to RX.
pub const MEASURE_PORT: u16 = crate::transport::MEASURE_PORT;

/// Report port, RX to TX.
pub const REPORT_PORT: u16 = crate::transport::REPORT_PORT;

/// RX1's measurement address. The transmitter unicasts the same frame bytes to
/// each receiver's own loopback address.
pub const RX1_MEASURE_ADDR: &'static str = "127.0.0.2";

/// RX2's measurement address.
pub const RX2_MEASURE_ADDR: &'static str = "127.0.0.3";

/// Where both receivers send their reports.
pub const TX_REPORT_ADDR: &'static str = "127.0.0.1";

/// Default measurement rate (Hz).
pub const DEFAULT_RATE_HZ: u64 = 200;

/// Default run window (seconds).
pub const DEFAULT_DURATION_SECS: u64 = 8;

/// Default seed of the synthetic CSI.
pub const DEFAULT_SEED: u64 = 42;

/// One feature report per this many TX frames.
pub const REPORT_EVERY: u32 = 20;

/// Pairing tolerance in TX sequence units (about half the report window).
pub const PAIR_TOLERANCE: u32 = 10;

/// One snapshot per this many TX frames.
pub const SNAPSHOT_EVERY: u32 = 100;

/// A radar node role.
#[derive(Clone, Copy, Debug, PartialEq, Eq, Structural)]
pub enum Role {
    Tx,
    Rx1,
    Rx2,
}

/// The name of a role.
pub open spec fn role_text(r: Role) -> Seq<char> {
    match r {
        Role::Tx => "tx"@,
        Role::Rx1 => "rx1"@,
        Role::Rx2 => "rx2"@,
    }
}

impl Role {
    pub fn as_str(&self) -> (s: &'static str)
        ensures
            s@ == role_text(*self),
    {
        match self {
            Role::Tx => "tx",
            Role::Rx1 => "rx1",
            Role::Rx2 => "rx2",
        }
    }

    pub fn node_id(&self) -> (n: u8)
        ensures
            n == match *self {
                Role::Tx => node::TX,
                Role::Rx1 => node::RX1,
                Role::Rx2 => node::RX2,
            },
    {
        match self {
            Role::Tx => node::TX,
            Role::Rx1 => node::RX1,
            Role::Rx2 => node::RX2,
        }
    }

    /// The role with a given name.
    pub fn parse(s: &str) -> (r: Option<Role>)
        ensures
            match r {
                Some(role) => s@ == role_text(role),
                None => forall|role: Role| s@ != role_text(role),
            },
    {
        if same_text(s, "tx") {
            Some(Role::Tx)
        } else if same_text(s, "rx1") {
            Some(Role::Rx1)
        } else if same_text(s, "rx2") {
            Some(Role::Rx2)
        } else {
            None
        }
    }
}

/// Distinct roles have distinct names, so a role is read back from its name.
pub proof fn role_names_are_distinct(a: Role, b: Role)
    requires
        role_text(a) == role_text(b),
    ensures
        a == b,
{
    reveal_strlit("tx");
    reveal_strlit("rx1");
    reveal_strlit("rx2");
    assert("rx1"@[2] == '1' && "rx2"@[2] == '2');
    assert("tx"@.len() == 2 && "rx1"@.len() == 3 && "rx2"@.len() == 3);
}

/// Runtime configuration shared by all roles.
#[derive(Clone, Copy, Debug, PartialEq, Eq, Structural)]
pub struct Config {
    pub duration_secs: u64,
    pub rate_hz: u64,
    pub seed: u64,
}

impl Default for Config {
    fn default() -> (c: Self)
        ensures
            c == (Config {
                duration_secs: DEFAULT_DURATION_SECS,
                rate_hz: DEFAULT_RATE_HZ,
                seed: DEFAULT_SEED,
            }),
    {
        Self { duration_secs: DEFAULT_DURATION_SECS, rate_hz: DEFAULT_RATE_HZ, seed: DEFAULT_SEED }
    }
}

/// The timestamp of an instant `elapsed_us` after the start: offset by one
/// second, so that timestamps stay positive.
pub fn t_us_since(elapsed_us: u64) -> (t: u64)
    requires
        elapsed_us <= u64::MAX - 1_000_000,
    ensures
        t == 1_000_000 + elapsed_us,
{
    1_000_000 + elapsed_us
}

/// Name and value of a summary field.
pub struct FieldView {
    pub key: Seq<char>,
    pub value: Seq<char>,
}

/// The map that reading fields one after the other builds: the last field of a
/// name counts. A piece without `=` is no field.
pub open spec fn fields_map(pieces: Seq<Seq<char>>) -> Map<Seq<char>, Seq<char>>
    decreases pieces.len(),
{
    if pieces.len() == 0 {
        Map::empty()
    } else {
        let m = fields_map(pieces.drop_last());
        let p = pieces.last();
        let k = first_place(p, '=');
        if k < p.len() {
            m.insert(
                trim(p.subrange(0, k)),
                trim(p.subrange(k + 1, p.len() as int)),
            )
        } else {
            m
        }
    }
}

/// The fields of a summary line; `None` if the line is not one.
pub open spec fn summary_of(line: Seq<char>) -> Option<Map<Seq<char>, Seq<char>>> {
    let t = trim(line);
    if t.len() >= 8 && t.subrange(0, 8) == "SUMMARY|"@ {
        Some(fields_map(split(t.subrange(8, t.len() as int), '|')))
    } else {
        None
    }
}

/// The fields of a role's summary line.
#[derive(Debug)]
pub struct Summary {
    fields: Vec<(String, String)>,
}

/// The map that a list of name-value pairs stands for.
pub open spec fn pairs_map(f: Seq<(String, String)>) -> Map<Seq<char>, Seq<char>>
    decreases f.len(),
{
    if f.len() == 0 {
        Map::empty()
    } else {
        pairs_map(f.drop_last()).insert(f.last().0@, f.last().1@)
    }
}

impl View for Summary {
    type V = Map<Seq<char>, Seq<char>>;

    closed spec fn view(&self) -> Map<Seq<char>, Seq<char>> {
        pairs_map(self.fields@)
    }
}

/// Reads a role's `SUMMARY|key=value|...` line. Returns `None` for lines that
/// are not summary lines.
pub fn parse_summary(line: &str) -> (r: Option<Summary>)
    ensures
        match r {
            Some(s) => summary_of(line@) == Some(s@),
            None => summary_of(line@) is None,
        },
{
    let chars = chars_of(line);
    let tag = chars_of("SUMMARY|");
    let (a, b) = trim_range(chars.as_slice(), 0, chars.len());
    let ghost t = chars@.subrange(a as int, b as int);
    proof {
        reveal_strlit("SUMMARY|");
        assert(chars@.subrange(0, chars@.len() as int) =~= line@);
        assert(t == trim(line@));
    }
    if b - a < 8 {
        return None;
    }
    let head = vstd::slice::slice_subrange(chars.as_slice(), a, a + 8);
    assert(head@ =~= t.subrange(0, 8));
    if !same_chars(head, tag.as_slice()) {
        return None;
    }
    let ranges = split_ranges(chars.as_slice(), a + 8, b, '|');
    let ghost pieces = split(t.subrange(8, t.len() as int), '|');
    assert(chars@.subrange(a + 8, b as int) =~= t.subrange(8, t.len() as int));
    let mut fields: Vec<(String, String)> = Vec::new();
    let mut i: usize = 0;
    assert(pieces.take(0) =~= Seq::empty());
    while i < ranges.len()
        invariant
            i <= ranges@.len(),
            chars@ == line@,
            ranges_of(ranges@, chars@, pieces),
            pairs_map(fields@) == fields_map(pieces.take(i as int)),
        decreases ranges@.len() - i,
    {
        let (from, to) = ranges[i];
        let ghost p = pieces[i as int];
        assert(chars@.subrange(from as int, to as int) == p);
        let k: usize = find_char(chars.as_slice(), from, to, '=');
        assert(pieces.take(i + 1).drop_last() =~= pieces.take(i as int));
        if k < to - from {
            let (ka, kb) = trim_range(chars.as_slice(), from, from + k);
            let (va, vb) = trim_range(chars.as_slice(), from + k + 1, to);
            let key = line.substring_char(ka, kb).to_owned();
            let value = line.substring_char(va, vb).to_owned();
            let ghost before = fields@;
            fields.push((key, value));
            proof {
                assert(fields@.drop_last() =~= before);
                assert(chars@.subrange(from as int, from + k) =~= p.subrange(0, k as int));
                assert(chars@.subrange(from + k + 1, to as int) =~= p.subrange(
                    k + 1,
                    p.len() as int,
                ));
            }
        }
        i += 1;
    }
    assert(pieces.take(i as int) =~= pieces);
    Some(Summary { fields })
}

/// What a summary holds under a name; empty if nothing.
pub open spec fn field_text(m: Map<Seq<char>, Seq<char>>, key: Seq<char>) -> Seq<char> {
    if m.contains_key(key) {
        m[key]
    } else {
        Seq::empty()
    }
}

/// The number that a summary holds under a name; 0 if none.
pub open spec fn field_number(m: Map<Seq<char>, Seq<char>>, key: Seq<char>) -> nat {
    match read_nat(field_text(m, key), u64::MAX as nat) {
        Some(n) => n,
        None => 0,
    }
}

/// The value of a string field, or the empty string.
pub fn get_str<'a>(map: &'a Summary, key: &str) -> (s: &'a str)
    ensures
        s@ == field_text(map@, key@),
{
    let ghost f = map.fields@;
    let mut i: usize = map.fields.len();
    assert(f.take(i as int) =~= f);
    while i > 0
        invariant
            i <= f.len(),
            f == map.fields@,
            pairs_map(f.take(i as int)).contains_key(key@) == pairs_map(f).contains_key(key@),
            pairs_map(f).contains_key(key@) ==> pairs_map(f.take(i as int))[key@] == pairs_map(
                f,
            )[key@],
        decreases i,
    {
        assert(f.take(i as int).drop_last() =~= f.take(i - 1));
        if same_text(map.fields[i - 1].0.as_str(), key) {
            return map.fields[i - 1].1.as_str();
        }
        i -= 1;
    }
    proof {
        assert(f.take(0) =~= Seq::empty());
        reveal_strlit("");
        assert(""@ =~= Seq::empty());
    }
    ""
}

/// The value of a numeric field, or 0.
pub fn get_u64(map: &Summary, key: &str) -> (n: u64)
    ensures
        n == field_number(map@, key@),
{
    let chars = chars_of(get_str(map, key));
    assert(chars@.subrange(0, chars@.len() as int) =~= chars@);
    match parse_number(chars.as_slice(), 0, chars.len(), u64::MAX) {
        Some(n) => n,
        None => 0,
    }
}

/// `key=value`.
pub open spec fn field_piece(f: FieldView) -> Seq<char> {
    f.key + "="@ + f.value
}

/// The summary line of a list of fields.
pub open spec fn summary_line(fields: Seq<FieldView>) -> Seq<char> {
    "SUMMARY|"@ + joined(fields.map_values(|f: FieldView| field_piece(f)), "|"@)
}

/// Names and values of fields.
pub open spec fn field_views(f: Seq<(&'static str, String)>) -> Seq<FieldView> {
    f.map_values(|p: (&'static str, String)| FieldView { key: p.0@, value: p.1@ })
}

/// Writes a summary line.
pub fn format_summary(fields: &Vec<(&'static str, String)>) -> (line: String)
    ensures
        line@ == summary_line(field_views(fields@)),
{
    let mut line: String = "SUMMARY|".to_owned();
    let ghost all = field_views(fields@).map_values(|f: FieldView| field_piece(f));
    let mut i: usize = 0;
    assert("SUMMARY|"@ =~= "SUMMARY|"@ + joined(all.take(0), "|"@));
    while i < fields.len()
        invariant
            i <= fields@.len(),
            all == field_views(fields@).map_values(|f: FieldView| field_piece(f)),
            line@ == "SUMMARY|"@ + joined(all.take(i as int), "|"@),
        decreases fields@.len() - i,
    {
        let ghost before = line@;
        if i > 0 {
            line.append("|");
        }
        line.append(fields[i].0);
        line.append("=");
        line.append(fields[i].1.as_str());
        proof {
            assert(all.take(i + 1).drop_last() =~= all.take(i as int));
            assert(all[i as int] == fields@[i as int].0@ + "="@ + fields@[i as int].1@);
            assert(line@ =~= "SUMMARY|"@ + joined(all.take(i + 1), "|"@));
        }
        i += 1;
    }
    assert(all.take(i as int) =~= all);
    line
}

/// Fields that survive the trip through a line: names without separators,
/// values without field separators, no white space at the ends.
pub open spec fn plain_field(f: FieldView) -> bool {
    &&& lacks(f.key, '|')
    &&& lacks(f.key, '=')
    &&& lacks(f.value, '|')
    &&& trim(f.key) == f.key
    &&& trim(f.value) == f.value
    &&& f.value.len() > 0 ==> !crate::text::is_space(f.value.last())
}

/// The map of a list of fields: the last field of a name counts.
pub open spec fn view_map(fields: Seq<FieldView>) -> Map<Seq<char>, Seq<char>>
    decreases fields.len(),
{
    if fields.len() == 0 {
        Map::empty()
    } else {
        view_map(fields.drop_last()).insert(fields.last().key, fields.last().value)
    }
}

proof fn joined_pieces_split(parts: Seq<Seq<char>>)
    requires
        parts.len() > 0,
        forall|i: int| 0 <= i < parts.len() ==> lacks(#[trigger] parts[i], '|'),
    ensures
        split(joined(parts, "|"@), '|') == parts,
    decreases parts.len(),
{
    reveal_strlit("|");
    assert("|"@ =~= seq!['|']);
    if parts.len() == 1 {
        assert(lacks(parts[0], '|'));
        crate::text::split_without_separator(parts[0], '|');
        assert(seq![parts[0]] =~= parts);
    } else {
        let front = parts.drop_last();
        assert forall|i: int| 0 <= i < front.len() implies lacks(#[trigger] front[i], '|') by {
            assert(front[i] == parts[i]);
        }
        joined_pieces_split(front);
        assert(lacks(parts[parts.len() - 1], '|'));
        crate::text::split_last_piece(joined(front, "|"@), parts.last(), '|');
        assert(front.push(parts.last()) =~= parts);
    }
}

proof fn pieces_give_fields(fields: Seq<FieldView>)
    requires
        forall|i: int| 0 <= i < fields.len() ==> plain_field(#[trigger] fields[i]),
    ensures
        fields_map(fields.map_values(|f: FieldView| field_piece(f))) == view_map(fields),
    decreases fields.len(),
{
    let pieces = fields.map_values(|f: FieldView| field_piece(f));
    if fields.len() > 0 {
        let front = fields.drop_last();
        assert forall|i: int| 0 <= i < front.len() implies plain_field(#[trigger] front[i]) by {
            assert(front[i] == fields[i]);
        }
        pieces_give_fields(front);
        assert(pieces.drop_last() =~= front.map_values(|f: FieldView| field_piece(f)));
        let f = fields.last();
        assert(plain_field(fields[fields.len() - 1]));
        let p = field_piece(f);
        reveal_strlit("=");
        assert("="@ =~= seq!['=']);
        let k = f.key.len() as int;
        assert(p[k] == '=');
        assert forall|i: int| 0 <= i < k implies p[i] != '=' by {
            assert(p[i] == f.key[i]);
        }
        crate::text::first_place_is_first(p, '=', k);
        assert(p.subrange(0, k) =~= f.key);
        assert(p.subrange(k + 1, p.len() as int) =~= f.value);
    }
}

/// The orchestrator reads back from a summary line exactly the fields that the
/// role wrote into it.
pub proof fn summary_round_trip(fields: Seq<FieldView>)
    requires
        fields.len() > 0,
        forall|i: int| 0 <= i < fields.len() ==> plain_field(#[trigger] fields[i]),
    ensures
        summary_of(summary_line(fields)) == Some(view_map(fields)),
{
    let pieces = fields.map_values(|f: FieldView| field_piece(f));
    let body = joined(pieces, "|"@);
    let line = summary_line(fields);
    reveal_strlit("SUMMARY|");
    reveal_strlit("=");
    assert("="@ =~= seq!['=']);
    let f = fields.last();
    assert(plain_field(fields[fields.len() - 1]));
    let p = field_piece(f);
    assert(pieces.last() == p);
    assert(p.len() > 0);
    assert(body.len() >= p.len() && body.last() == p.last()) by {
        if pieces.len() > 1 {
            assert(body == joined(pieces.drop_last(), "|"@) + "|"@ + pieces.last());
        }
    }
    assert(p.last() == if f.value.len() > 0 { f.value.last() } else { '=' });
    assert(line[0] == 'S');
    assert(line.last() == body.last());
    crate::text::trim_of_trimmed(line);
    assert(line.subrange(0, 8) =~= "SUMMARY|"@);
    assert(line.subrange(8, line.len() as int) =~= body);
    assert forall|i: int| 0 <= i < pieces.len() implies lacks(#[trigger] pieces[i], '|') by {
        let g = fields[i];
        assert(plain_field(g));
        assert(pieces[i] == field_piece(g));
        assert forall|j: int| 0 <= j < pieces[i].len() implies pieces[i][j] != '|' by {
            let k = g.key.len() as int;
            if j < k {
                assert(pieces[i][j] == g.key[j]);
            } else if j > k {
                assert(pieces[i][j] == g.value[j - k - 1]);
            }
        }
    }
    joined_pieces_split(pieces);
    pieces_give_fields(fields);
}

/// A number is a plain field value and reads back as itself.
pub proof fn number_field_is_plain(n: nat)
    requires
        n <= u64::MAX,
    ensures
        lacks(crate::text::nat_text(n), '|'),
        trim(crate::text::nat_text(n)) == crate::text::nat_text(n),
        !crate::text::is_space(crate::text::nat_text(n).last()),
        read_nat(crate::text::nat_text(n), u64::MAX as nat) == Some(n),
{
    let s = crate::text::nat_text(n);
    crate::text::decimal_round_trip(n);
    assert forall|i: int| 0 <= i < s.len() implies s[i] != '|' && !crate::text::is_space(s[i]) && s[i]
        != '+' by {
        assert(crate::text::is_digit(s[i]));
    }
    crate::text::trim_of_trimmed(s);
}

} // verus!
