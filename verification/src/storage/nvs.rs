//! Decisions of a non-volatile-storage session.
//!
//! The storage driver is called by the firmware; each of its return codes is
//! handed to one of the functions here, which say what to do next or which
//! error the session ends in.

use vstd::prelude::*;
use vstd::string::StringExecFns;

use crate::arith::{pattern, to_pattern};
use crate::storage::RxLink;
use crate::text::{lower_hex, nat_text, push_dec, push_lower_hex};

verus! {

/// Namespace holding all radar settings.
pub const NAMESPACE: &'static str = "radar";

/// Whole-system configuration blob.
pub const KEY_CONFIG: &'static str = "config";

/// Empty-room baseline of the first receiver.
pub const KEY_BASELINE1: &'static str = "baseline1";

/// Empty-room baseline of the second receiver.
pub const KEY_BASELINE2: &'static str = "baseline2";

/// Occupancy classifier thresholds.
pub const KEY_THRESHOLDS: &'static str = "thresh";

/// Model of received power over transmit power.
pub const KEY_POWER_MODEL: &'static str = "powmodel";

/// Errors of the storage session.
#[derive(Clone, Copy, Debug, PartialEq, Eq, Structural)]
pub enum NvsError {
    /// The partition could not be initialized.
    Init(i32),
    /// The namespace could not be opened.
    Open(i32),
    /// The key does not exist.
    NotFound,
    /// A blob was stored with a different length than expected.
    SizeMismatch { expected: usize, actual: usize },
    /// Any other error from read, write or commit.
    Io(i32),
}

/// A return code of the storage driver.
#[derive(Clone, Copy, Debug, PartialEq, Eq, Structural)]
pub enum NvsCode {
    Success,
    /// The key is absent.
    NotFound(i32),
    /// The partition has no free pages.
    NoFreePages(i32),
    /// The partition was written by a newer layout.
    NewVersionFound(i32),
    Other(i32),
}

/// The number behind a return code that is not success.
pub open spec fn code_number(code: NvsCode) -> i32 {
    match code {
        NvsCode::Success => 0,
        NvsCode::NotFound(e) => e,
        NvsCode::NoFreePages(e) => e,
        NvsCode::NewVersionFound(e) => e,
        NvsCode::Other(e) => e,
    }
}

fn number(code: NvsCode) -> (e: i32)
    ensures
        e == code_number(code),
{
    match code {
        NvsCode::Success => 0,
        NvsCode::NotFound(e) => e,
        NvsCode::NoFreePages(e) => e,
        NvsCode::NewVersionFound(e) => e,
        NvsCode::Other(e) => e,
    }
}

/// What follows the first initialization attempt.
#[derive(Clone, Copy, Debug, PartialEq, Eq, Structural)]
pub enum TakeStep {
    /// Open the namespace.
    Open,
    /// Erase the partition and initialize it once more.
    EraseAndRetry,
}

/// A full partition or one of a newer layout can be recovered by erasing it.
pub open spec fn recoverable(code: NvsCode) -> bool {
    code is NoFreePages || code is NewVersionFound
}

/// Only a store without free pages or of another version is erased and set up
/// anew; success, a missing entry and any other failure leave it alone.
pub proof fn only_stale_stores_are_erased(e: i32)
    ensures
        recoverable(NvsCode::NoFreePages(e)),
        recoverable(NvsCode::NewVersionFound(e)),
        !recoverable(NvsCode::Success),
        !recoverable(NvsCode::NotFound(e)),
        !recoverable(NvsCode::Other(e)),
        code_number(NvsCode::Success) == 0,
        code_number(NvsCode::Other(e)) == e,
{
}

/// Decides what follows the first initialization: `reinit` allows erasing a
/// recoverable partition.
pub fn after_init(code: NvsCode, reinit: bool) -> (r: Result<TakeStep, NvsError>)
    ensures
        r == (if code is Success {
            Ok::<TakeStep, NvsError>(TakeStep::Open)
        } else if reinit && recoverable(code) {
            Ok(TakeStep::EraseAndRetry)
        } else {
            Err(NvsError::Init(code_number(code)))
        }),
{
    match code {
        NvsCode::Success => Ok(TakeStep::Open),
        NvsCode::NoFreePages(e) => if reinit {
            Ok(TakeStep::EraseAndRetry)
        } else {
            Err(NvsError::Init(e))
        },
        NvsCode::NewVersionFound(e) => if reinit {
            Ok(TakeStep::EraseAndRetry)
        } else {
            Err(NvsError::Init(e))
        },
        NvsCode::NotFound(e) => Err(NvsError::Init(e)),
        NvsCode::Other(e) => Err(NvsError::Init(e)),
    }
}

/// Judges the erasure of the partition, and the initialization after it.
pub fn after_recovery_step(code: NvsCode) -> (r: Result<(), NvsError>)
    ensures
        r == (if code is Success {
            Ok::<(), NvsError>(())
        } else {
            Err(NvsError::Init(code_number(code)))
        }),
{
    match code {
        NvsCode::Success => Ok(()),
        _ => Err(NvsError::Init(number(code))),
    }
}

/// Judges the opening of the namespace.
pub fn after_open(code: NvsCode) -> (r: Result<(), NvsError>)
    ensures
        r == (if code is Success {
            Ok::<(), NvsError>(())
        } else {
            Err(NvsError::Open(code_number(code)))
        }),
{
    match code {
        NvsCode::Success => Ok(()),
        _ => Err(NvsError::Open(number(code))),
    }
}

/// Judges the length query that precedes a read: only a blob of exactly the
/// expected length is read.
pub fn after_length_query(code: NvsCode, actual: usize, expected: usize) -> (r: Result<
    (),
    NvsError,
>)
    ensures
        r == (if code is NotFound {
            Err::<(), NvsError>(NvsError::NotFound)
        } else if code !is Success {
            Err(NvsError::Io(code_number(code)))
        } else if actual != expected {
            Err(NvsError::SizeMismatch { expected, actual })
        } else {
            Ok(())
        }),
{
    match code {
        NvsCode::NotFound(_) => Err(NvsError::NotFound),
        NvsCode::Success => if actual != expected {
            Err(NvsError::SizeMismatch { expected, actual })
        } else {
            Ok(())
        },
        _ => Err(NvsError::Io(number(code))),
    }
}

/// Judges a read, a write or a commit.
pub fn after_transfer(code: NvsCode) -> (r: Result<(), NvsError>)
    ensures
        r == (if code is Success {
            Ok::<(), NvsError>(())
        } else {
            Err(NvsError::Io(code_number(code)))
        }),
{
    match code {
        NvsCode::Success => Ok(()),
        _ => Err(NvsError::Io(number(code))),
    }
}

/// Judges the erasure of a key, where an absent key is fine.
pub fn after_erase_key(code: NvsCode) -> (r: Result<(), NvsError>)
    ensures
        r == (if code is Success || code is NotFound {
            Ok::<(), NvsError>(())
        } else {
            Err(NvsError::Io(code_number(code)))
        }),
{
    match code {
        NvsCode::Success => Ok(()),
        NvsCode::NotFound(_) => Ok(()),
        _ => Err(NvsError::Io(number(code))),
    }
}

/// The key of a receiver's baseline.
pub open spec fn baseline_key(link: RxLink) -> Seq<char> {
    match link {
        RxLink::Rx1 => KEY_BASELINE1@,
        RxLink::Rx2 => KEY_BASELINE2@,
    }
}

/// Each receiver's baseline has a place of its own.
pub proof fn baselines_have_their_own_keys()
    ensures
        baseline_key(RxLink::Rx1) == KEY_BASELINE1@,
        baseline_key(RxLink::Rx2) == KEY_BASELINE2@,
        baseline_key(RxLink::Rx1) != baseline_key(RxLink::Rx2),
{
    keys_are_short_and_distinct(1, 2);
}

/// The key of a receiver's baseline.
pub fn link_key(link: RxLink) -> (key: &'static str)
    ensures
        key@ == baseline_key(link),
{
    match link {
        RxLink::Rx1 => KEY_BASELINE1,
        RxLink::Rx2 => KEY_BASELINE2,
    }
}

/// The five keys erased by a calibration reset, in order.
pub open spec fn all_keys() -> Seq<Seq<char>> {
    seq![KEY_CONFIG@, KEY_BASELINE1@, KEY_BASELINE2@, KEY_THRESHOLDS@, KEY_POWER_MODEL@]
}

/// The keys erased by a calibration reset.
pub fn keys_to_clear() -> (keys: Vec<&'static str>)
    ensures
        keys@.len() == all_keys().len(),
        forall|i: int| 0 <= i < keys@.len() ==> #[trigger] keys@[i]@ == all_keys()[i],
{
    let mut keys: Vec<&'static str> = Vec::new();
    keys.push(KEY_CONFIG);
    keys.push(KEY_BASELINE1);
    keys.push(KEY_BASELINE2);
    keys.push(KEY_THRESHOLDS);
    keys.push(KEY_POWER_MODEL);
    keys
}

/// Every key is of the fifteen characters at most that the store allows, and
/// no two artifacts share a key.
pub proof fn keys_are_short_and_distinct(i: int, j: int)
    requires
        0 <= i < j < all_keys().len(),
    ensures
        0 < all_keys()[i].len() <= 15,
        0 < all_keys()[j].len() <= 15,
        all_keys()[i] != all_keys()[j],
{
    reveal_strlit("config");
    reveal_strlit("baseline1");
    reveal_strlit("baseline2");
    reveal_strlit("thresh");
    reveal_strlit("powmodel");
    assert("baseline1"@[8] != "baseline2"@[8]);
    assert("config"@[0] != "thresh"@[0]);
}

/// The message of an error.
pub open spec fn error_text(e: NvsError) -> Seq<char> {
    match e {
        NvsError::Init(c) => "nvs_flash_init failed (0x"@ + lower_hex(pattern(c)) + ")"@,
        NvsError::Open(c) => "nvs_open failed (0x"@ + lower_hex(pattern(c)) + ")"@,
        NvsError::NotFound => "NVS key not found"@,
        NvsError::SizeMismatch { expected, actual } => "NVS blob size "@ + nat_text(actual as nat)
            + " != expected "@ + nat_text(expected as nat),
        NvsError::Io(c) => "NVS io failed (0x"@ + lower_hex(pattern(c)) + ")"@,
    }
}

impl NvsError {
    /// The message shown in the log.
    pub fn text(&self) -> (s: String)
        ensures
            s@ == error_text(*self),
    {
        let mut s: String;
        match *self {
            NvsError::Init(c) => {
                s = "nvs_flash_init failed (0x".to_owned();
                push_lower_hex(&mut s, to_pattern(c));
                s.append(")");
            },
            NvsError::Open(c) => {
                s = "nvs_open failed (0x".to_owned();
                push_lower_hex(&mut s, to_pattern(c));
                s.append(")");
            },
            NvsError::NotFound => {
                s = "NVS key not found".to_owned();
            },
            NvsError::SizeMismatch { expected, actual } => {
                s = "NVS blob size ".to_owned();
                push_dec(&mut s, actual as u64);
                s.append(" != expected ");
                push_dec(&mut s, expected as u64);
            },
            NvsError::Io(c) => {
                s = "NVS io failed (0x".to_owned();
                push_lower_hex(&mut s, to_pattern(c));
                s.append(")");
            },
        }
        s
    }
}

} // verus!
