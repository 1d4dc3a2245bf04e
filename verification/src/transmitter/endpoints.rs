//! HTTP endpoints for calibration control.

use vstd::prelude::*;

use crate::text::{
    chars_of, find_char, first_place, lacks, parse_number, read_nat, same_chars, split, split_ranges,
};
use crate::transmitter::calibrate::CalCommand;

verus! {

/// The query of a URI: what stands between its first two question marks.
pub open spec fn query_of(uri: Seq<char>) -> Option<Seq<char>> {
    let parts = split(uri, '?');
    if parts.len() < 2 {
        None
    } else {
        Some(parts[1])
    }
}

/// The key of a pair: what stands before its first equals sign.
pub open spec fn key_of(pair: Seq<char>) -> Seq<char> {
    pair.subrange(0, first_place(pair, '='))
}

/// The value of a pair: what stands after its first equals sign, or 1.
pub open spec fn value_of(pair: Seq<char>) -> Seq<char> {
    if first_place(pair, '=') < pair.len() {
        pair.subrange(first_place(pair, '=') + 1, pair.len() as int)
    } else {
        "1"@
    }
}

/// What a pair asks for. The outer option tells whether the pair decides; the
/// inner one is the decision, none for a stage that is no number of a byte.
pub open spec fn asked_by(pair: Seq<char>) -> Option<Option<CalCommand>> {
    let (key, value) = (key_of(pair), value_of(pair));
    if key == "stage"@ {
        Some(
            match read_nat(value, 255) {
                Some(n) => Some(CalCommand::StartStage(n as u8)),
                None => None,
            },
        )
    } else if key == "auto"@ && value != "0"@ {
        Some(Some(CalCommand::AutoCommission))
    } else if key == "abort"@ && value != "0"@ {
        Some(Some(CalCommand::Abort))
    } else {
        None
    }
}

/// The command of the first pair from `i` on that decides.
pub open spec fn first_asked(pairs: Seq<Seq<char>>, i: int) -> Option<CalCommand>
    decreases pairs.len() - i,
{
    if i < 0 || i >= pairs.len() {
        None
    } else {
        match asked_by(pairs[i]) {
            Some(cmd) => cmd,
            None => first_asked(pairs, i + 1),
        }
    }
}

/// The command of a calibration URI.
pub open spec fn cal_command_of(uri: Seq<char>) -> Option<CalCommand> {
    match query_of(uri) {
        None => None,
        Some(query) => first_asked(split(query, '&'), 0),
    }
}

/// A URI with one query of one pair asks for what the pair asks for.
proof fn single_pair(path: Seq<char>, pair: Seq<char>)
    requires
        lacks(path, '?'),
        lacks(pair, '?'),
        lacks(pair, '&'),
    ensures
        cal_command_of(path + seq!['?'] + pair) == match asked_by(pair) {
            Some(cmd) => cmd,
            None => None,
        },
{
    crate::text::split_without_separator(path, '?');
    crate::text::split_last_piece(path, pair, '?');
    crate::text::split_without_separator(pair, '&');
    let parts = split(path + seq!['?'] + pair, '?');
    assert(parts =~= seq![path, pair]);
    assert(query_of(path + seq!['?'] + pair) == Some(pair));
    reveal_with_fuel(first_asked, 2);
}

proof fn digits_are_plain(s: Seq<char>)
    requires
        crate::text::all_digits(s),
    ensures
        lacks(s, '?'),
        lacks(s, '&'),
        lacks(s, '='),
        s.len() > 0 ==> s[0] != '+',
{
}

/// `?stage=` and a number asks for the stage of that number, if the number
/// fits a byte; nothing else is started.
pub proof fn stage_requests_are_understood(path: Seq<char>, n: nat)
    requires
        lacks(path, '?'),
    ensures
        cal_command_of(path + "?stage="@ + crate::text::nat_text(n)) == if n <= 255 {
            Some(CalCommand::StartStage(n as u8))
        } else {
            None
        },
{
    let digits = crate::text::nat_text(n);
    reveal_strlit("?stage=");
    reveal_strlit("stage");
    crate::text::decimal_round_trip(n);
    digits_are_plain(digits);
    let pair = "stage"@ + seq!['='] + digits;
    assert(path + "?stage="@ + digits =~= path + seq!['?'] + pair);
    single_pair(path, pair);
    crate::text::first_place_is_first(pair, '=', 5);
    assert(key_of(pair) =~= "stage"@);
    assert(value_of(pair) =~= digits);
}

/// `?auto` and `?abort`, with 1 or without a value, ask for commissioning and
/// for an abort; a URI without a query asks for nothing.
pub proof fn switch_requests_are_understood(path: Seq<char>)
    requires
        lacks(path, '?'),
    ensures
        cal_command_of(path + "?auto=1"@) == Some(CalCommand::AutoCommission),
        cal_command_of(path + "?auto"@) == Some(CalCommand::AutoCommission),
        cal_command_of(path + "?abort=1"@) == Some(CalCommand::Abort),
        cal_command_of(path + "?abort"@) == Some(CalCommand::Abort),
        cal_command_of(path + "?auto=0"@) is None,
        cal_command_of(path + "?abort=0"@) is None,
        cal_command_of(path) is None,
{
    reveal_strlit("?auto=1");
    reveal_strlit("?auto");
    reveal_strlit("?abort=1");
    reveal_strlit("?abort");
    reveal_strlit("?auto=0");
    reveal_strlit("?abort=0");
    reveal_strlit("auto");
    reveal_strlit("abort");
    reveal_strlit("stage");
    reveal_strlit("1");
    reveal_strlit("0");
    assert("auto"@[0] != "stage"@[0] && "abort"@[1] != "auto"@[1] && "abort"@[0] != "stage"@[0]);
    let (auto, abort) = ("auto"@, "abort"@);
    let (auto1, abort1) = (auto + seq!['=', '1'], abort + seq!['=', '1']);
    let (auto0, abort0) = (auto + seq!['=', '0'], abort + seq!['=', '0']);
    assert(path + "?auto=1"@ =~= path + seq!['?'] + auto1);
    assert(path + "?auto=0"@ =~= path + seq!['?'] + auto0);
    assert(path + "?auto"@ =~= path + seq!['?'] + auto);
    assert(path + "?abort=1"@ =~= path + seq!['?'] + abort1);
    assert(path + "?abort=0"@ =~= path + seq!['?'] + abort0);
    assert(path + "?abort"@ =~= path + seq!['?'] + abort);
    single_pair(path, auto1);
    single_pair(path, auto0);
    single_pair(path, auto);
    single_pair(path, abort1);
    single_pair(path, abort0);
    single_pair(path, abort);
    crate::text::first_place_is_first(auto1, '=', 4);
    crate::text::first_place_is_first(auto0, '=', 4);
    crate::text::first_place_is_first(auto, '=', 4);
    crate::text::first_place_is_first(abort1, '=', 5);
    crate::text::first_place_is_first(abort0, '=', 5);
    crate::text::first_place_is_first(abort, '=', 5);
    assert(key_of(auto1) =~= auto && key_of(auto0) =~= auto && key_of(auto) =~= auto);
    assert(key_of(abort1) =~= abort && key_of(abort0) =~= abort && key_of(abort) =~= abort);
    assert(value_of(auto1) =~= "1"@ && value_of(abort1) =~= "1"@);
    assert(value_of(auto0) =~= "0"@ && value_of(abort0) =~= "0"@);
    assert("1"@[0] != "0"@[0]);
    crate::text::split_without_separator(path, '?');
    assert(split(path, '?').len() == 1);
}

/// Of several pairs the first that decides counts: the pairs before it are
/// passed over, and those behind it are not looked at.
pub proof fn first_decision_counts(pairs: Seq<Seq<char>>, more: Seq<Seq<char>>, k: int)
    requires
        0 <= k < pairs.len(),
        asked_by(pairs[k]) is Some,
        forall|i: int| 0 <= i < k ==> asked_by(#[trigger] pairs[i]) is None,
    ensures
        first_asked(pairs, 0) == asked_by(pairs[k])->0,
        first_asked(pairs + more, 0) == first_asked(pairs, 0),
{
    passed_over(pairs, k, 0);
    assert forall|i: int| 0 <= i < k implies asked_by(#[trigger] (pairs + more)[i]) is None by {
        assert((pairs + more)[i] == pairs[i]);
    }
    assert((pairs + more)[k] == pairs[k]);
    passed_over(pairs + more, k, 0);
}

proof fn passed_over(pairs: Seq<Seq<char>>, k: int, i: int)
    requires
        0 <= i <= k < pairs.len(),
        forall|j: int| 0 <= j < k ==> asked_by(#[trigger] pairs[j]) is None,
        asked_by(pairs[k]) is Some,
    ensures
        first_asked(pairs, i) == asked_by(pairs[k])->0,
    decreases k - i,
{
    if i < k {
        assert(asked_by(pairs[i]) is None);
        passed_over(pairs, k, i + 1);
    }
}

fn pair_command(chars: &[char], from: usize, to: usize) -> (r: Option<Option<CalCommand>>)
    requires
        from <= to <= chars@.len(),
    ensures
        r == asked_by(chars@.subrange(from as int, to as int)),
{
    let ghost pair = chars@.subrange(from as int, to as int);
    let k: usize = find_char(chars, from, to, '=');
    let stage = chars_of("stage");
    let auto = chars_of("auto");
    let abort = chars_of("abort");
    let zero = chars_of("0");
    let one = chars_of("1");
    let key = vstd::slice::slice_subrange(chars, from, from + k);
    assert(key@ =~= key_of(pair));
    let has_value = k < to - from;
    if same_chars(key, stage.as_slice()) {
        let n: Option<u64> = if has_value {
            assert(chars@.subrange(from + k + 1, to as int) =~= value_of(pair));
            parse_number(chars, from + k + 1, to, 255)
        } else {
            let v = parse_number(one.as_slice(), 0, one.len(), 255);
            assert(one@.subrange(0, one@.len() as int) =~= value_of(pair));
            v
        };
        return Some(
            match n {
                Some(v) => Some(CalCommand::StartStage(v as u8)),
                None => None,
            },
        );
    }
    let value: &[char] = if has_value {
        vstd::slice::slice_subrange(chars, from + k + 1, to)
    } else {
        one.as_slice()
    };
    assert(value@ =~= value_of(pair));
    let set = !same_chars(value, zero.as_slice());
    if same_chars(key, auto.as_slice()) && set {
        Some(Some(CalCommand::AutoCommission))
    } else if same_chars(key, abort.as_slice()) && set {
        Some(Some(CalCommand::Abort))
    } else {
        None
    }
}

/// Reads the command of a calibration URI.
pub fn parse_cal_uri(uri: &str) -> (r: Option<CalCommand>)
    ensures
        r == cal_command_of(uri@),
{
    let chars = chars_of(uri);
    let parts = split_ranges(chars.as_slice(), 0, chars.len(), '?');
    assert(chars@.subrange(0, chars@.len() as int) =~= uri@);
    if parts.len() < 2 {
        return None;
    }
    let (from, to): (usize, usize) = parts[1];
    let ghost query = split(uri@, '?')[1];
    let ghost pairs = split(query, '&');
    assert(chars@.subrange(from as int, to as int) == query);
    let ranges = split_ranges(chars.as_slice(), from, to, '&');
    let mut i: usize = 0;
    while i < ranges.len()
        invariant
            i <= ranges@.len(),
            crate::text::ranges_of(ranges@, chars@, pairs),
            first_asked(pairs, 0) == first_asked(pairs, i as int),
            cal_command_of(uri@) == first_asked(pairs, 0),
        decreases ranges@.len() - i,
    {
        let (a, b): (usize, usize) = ranges[i];
        assert(chars@.subrange(a as int, b as int) == pairs[i as int]);
        match pair_command(chars.as_slice(), a, b) {
            Some(cmd) => {
                return cmd;
            },
            None => {},
        }
        i += 1;
    }
    None
}

/// How a calibration request is answered.
#[derive(Clone, Copy, Debug, PartialEq, Eq, Structural)]
pub enum CalReply {
    /// 200: the command was queued.
    Queued(CalCommand),
    /// 503: the controller is gone.
    Unavailable,
    /// 400: the URI holds no command.
    Usage,
}

/// Decides how a request is answered; `delivered` tells whether the controller
/// took the command.
pub fn cal_reply(cmd: Option<CalCommand>, delivered: bool) -> (r: CalReply)
    ensures
        r == (match cmd {
            None => CalReply::Usage,
            Some(c) => if delivered {
                CalReply::Queued(c)
            } else {
                CalReply::Unavailable
            },
        }),
{
    match cmd {
        None => CalReply::Usage,
        Some(c) => if delivered {
            CalReply::Queued(c)
        } else {
            CalReply::Unavailable
        },
    }
}

impl CalReply {
    /// The HTTP status of the answer.
    pub fn status(&self) -> (code: u16)
        ensures
            code == (match self {
                CalReply::Queued(_) => 200int,
                CalReply::Unavailable => 503,
                CalReply::Usage => 400,
            }),
    {
        match self {
            CalReply::Queued(_) => 200,
            CalReply::Unavailable => 503,
            CalReply::Usage => 400,
        }
    }
}

} // verus!
