//! Firmware updates: the results of the flash driver's calls, and the checks
//! of an upload through the dashboard.

use vstd::prelude::*;
use vstd::string::StringExecFns;

use crate::arith::{pattern, to_pattern};
use crate::text::{
    chars_of, lower_hex_padded, nat_text, parse_number, push_dec, push_lower_hex_padded, read_nat,
    trim, trim_range,
};

verus! {

/// Smallest plausible image.
pub const MIN_IMAGE_BYTES: usize = 16;

/// Largest plausible image.
pub const MAX_IMAGE_BYTES: usize = 2_097_152;

/// Errors of the update driver.
#[derive(Clone, Copy, Debug, PartialEq, Eq, Structural)]
pub enum OtaError {
    /// There is no inactive slot.
    NoOtaPartition,
    /// The update could not be begun.
    Begin(i32),
    /// A chunk could not be written.
    Write(i32),
    /// The written image failed validation.
    End(i32),
    /// The boot slot could not be switched.
    SetBoot(i32),
    /// The update could not be aborted.
    Abort(i32),
}

/// The message of an error.
pub open spec fn error_text(e: OtaError) -> Seq<char> {
    match e {
        OtaError::NoOtaPartition => "no inactive OTA partition available"@,
        OtaError::Begin(c) => coded_text("esp_ota_begin failed (0x"@, c),
        OtaError::Write(c) => coded_text("esp_ota_write failed (0x"@, c),
        OtaError::End(c) => coded_text("esp_ota_end failed (0x"@, c),
        OtaError::SetBoot(c) => coded_text("esp_ota_set_boot_partition failed (0x"@, c),
        OtaError::Abort(c) => coded_text("esp_ota_abort failed (0x"@, c),
    }
}

/// A message that ends in a code of eight hexadecimal digits.
pub open spec fn coded_text(head: Seq<char>, code: i32) -> Seq<char> {
    head + lower_hex_padded(pattern(code), 8) + ")"@
}

fn coded(head: &str, code: i32) -> (s: String)
    ensures
        s@ == coded_text(head@, code),
{
    let mut s = head.to_owned();
    push_lower_hex_padded(&mut s, to_pattern(code), 8);
    s.append(")");
    s
}

impl OtaError {
    /// The message shown in the log.
    pub fn text(&self) -> (s: String)
        ensures
            s@ == error_text(*self),
    {
        match *self {
            OtaError::NoOtaPartition => "no inactive OTA partition available".to_owned(),
            OtaError::Begin(c) => coded("esp_ota_begin failed (0x", c),
            OtaError::Write(c) => coded("esp_ota_write failed (0x", c),
            OtaError::End(c) => coded("esp_ota_end failed (0x", c),
            OtaError::SetBoot(c) => coded("esp_ota_set_boot_partition failed (0x", c),
            OtaError::Abort(c) => coded("esp_ota_abort failed (0x", c),
        }
    }
}

/// The size to begin an update with: that of the image, or, where it is not
/// known, the value that erases the slot as chunks arrive.
pub fn begin_size(expected: usize) -> (n: usize)
    ensures
        n == (if expected == 0 {
            (usize::MAX - 1) as usize
        } else {
            expected
        }),
{
    if expected == 0 {
        usize::MAX - 1
    } else {
        expected
    }
}

/// An update in progress: the bytes written so far.
#[derive(Clone, Copy, Debug, PartialEq, Eq, Structural)]
pub struct OtaWriter {
    pub written: usize,
}

impl OtaWriter {
    /// Judges the beginning of an update.
    pub fn begin(has_slot: bool, rc: i32) -> (r: Result<Self, OtaError>)
        ensures
            r == (if !has_slot {
                Err::<OtaWriter, OtaError>(OtaError::NoOtaPartition)
            } else if rc != 0 {
                Err(OtaError::Begin(rc))
            } else {
                Ok(OtaWriter { written: 0 })
            }),
    {
        if !has_slot {
            Err(OtaError::NoOtaPartition)
        } else if rc != 0 {
            Err(OtaError::Begin(rc))
        } else {
            Ok(OtaWriter { written: 0 })
        }
    }

    /// Judges the writing of a chunk; only a written one counts.
    pub fn write(&mut self, len: usize, rc: i32) -> (r: Result<(), OtaError>)
        requires
            old(self).written + len <= usize::MAX,
        ensures
            rc != 0 ==> r == Err::<(), OtaError>(OtaError::Write(rc)) && *final(self) == *old(self),
            rc == 0 ==> r == Ok::<(), OtaError>(()) && final(self).written == old(self).written
                + len,
    {
        if rc != 0 {
            return Err(OtaError::Write(rc));
        }
        self.written = self.written + len;
        Ok(())
    }

    /// Bytes written so far.
    pub fn written(&self) -> (n: usize)
        ensures
            n == self.written,
    {
        self.written
    }

    /// Judges the end of an update: validation first, then the switch of the
    /// boot slot, which is only made after a valid image.
    pub fn finish(self, end_rc: i32, boot_rc: i32) -> (r: Result<(), OtaError>)
        ensures
            r == (if end_rc != 0 {
                Err::<(), OtaError>(OtaError::End(end_rc))
            } else if boot_rc != 0 {
                Err(OtaError::SetBoot(boot_rc))
            } else {
                Ok(())
            }),
    {
        if end_rc != 0 {
            Err(OtaError::End(end_rc))
        } else if boot_rc != 0 {
            Err(OtaError::SetBoot(boot_rc))
        } else {
            Ok(())
        }
    }

    /// Judges the abortion of an update.
    pub fn abort(self, rc: i32) -> (r: Result<(), OtaError>)
        ensures
            r == (if rc != 0 {
                Err::<(), OtaError>(OtaError::Abort(rc))
            } else {
                Ok(())
            }),
    {
        if rc != 0 {
            Err(OtaError::Abort(rc))
        } else {
            Ok(())
        }
    }
}

/// Judges the confirmation of the running image.
pub fn mark_app_valid(rc: i32) -> (r: Result<(), i32>)
    ensures
        r == (if rc == 0 {
            Ok::<(), i32>(())
        } else {
            Err(rc)
        }),
{
    if rc == 0 {
        Ok(())
    } else {
        Err(rc)
    }
}

/// Why an upload is refused.
#[derive(Clone, Copy, Debug, PartialEq, Eq, Structural)]
pub enum UploadError {
    MissingLength,
    UnparseableLength,
    ImplausibleSize(usize),
    Begin(OtaError),
    Write { at: usize, error: OtaError },
    Short { total: usize, expected: usize },
    Finish(OtaError),
}

/// The message of a refused upload.
pub open spec fn upload_text(e: UploadError) -> Seq<char> {
    match e {
        UploadError::MissingLength => "missing Content-Length header"@,
        UploadError::UnparseableLength => "unparseable Content-Length"@,
        UploadError::ImplausibleSize(n) => "implausible image size "@ + nat_text(n as nat),
        UploadError::Begin(error) => "ota begin: "@ + error_text(error),
        UploadError::Write { at, error } => "ota write at "@ + nat_text(at as nat) + ": "@
            + error_text(error),
        UploadError::Short { total, expected } => "short upload: "@ + nat_text(total as nat)
            + " of "@ + nat_text(expected as nat) + " bytes"@,
        UploadError::Finish(error) => "ota finish: "@ + error_text(error),
    }
}

impl UploadError {
    /// The message sent to the client.
    pub fn text(&self) -> (s: String)
        ensures
            s@ == upload_text(*self),
    {
        match *self {
            UploadError::MissingLength => "missing Content-Length header".to_owned(),
            UploadError::UnparseableLength => "unparseable Content-Length".to_owned(),
            UploadError::ImplausibleSize(n) => {
                let mut s = "implausible image size ".to_owned();
                push_dec(&mut s, n as u64);
                s
            },
            UploadError::Begin(error) => {
                let mut s = "ota begin: ".to_owned();
                s.append(error.text().as_str());
                s
            },
            UploadError::Write { at, error } => {
                let mut s = "ota write at ".to_owned();
                push_dec(&mut s, at as u64);
                s.append(": ");
                s.append(error.text().as_str());
                s
            },
            UploadError::Short { total, expected } => {
                let mut s = "short upload: ".to_owned();
                push_dec(&mut s, total as u64);
                s.append(" of ");
                push_dec(&mut s, expected as u64);
                s.append(" bytes");
                s
            },
            UploadError::Finish(error) => {
                let mut s = "ota finish: ".to_owned();
                s.append(error.text().as_str());
                s
            },
        }
    }
}

/// What the length header of an upload gives: the first thing wrong with it,
/// or the image size.
pub open spec fn announced(header: Option<Seq<char>>) -> Result<usize, UploadError> {
    match header {
        None => Err(UploadError::MissingLength),
        Some(text) => match read_nat(trim(text), usize::MAX as nat) {
            None => Err(UploadError::UnparseableLength),
            Some(n) => if MIN_IMAGE_BYTES <= n <= MAX_IMAGE_BYTES {
                Ok(n as usize)
            } else {
                Err(UploadError::ImplausibleSize(n as usize))
            },
        },
    }
}

/// An announced length is taken exactly when it is that of a plausible image,
/// 16 bytes to 2 MiB, and an implausible one is told back.
pub proof fn plausible_lengths_are_taken(n: nat)
    requires
        n <= 0xFFFF_FFFF,
    ensures
        announced(None) == Err::<usize, UploadError>(UploadError::MissingLength),
        16 <= n <= 2_097_152 ==> announced(Some(nat_text(n))) == Ok::<usize, UploadError>(
            n as usize,
        ),
        n < 16 || n > 2_097_152 ==> announced(Some(nat_text(n))) == Err::<usize, UploadError>(
            UploadError::ImplausibleSize(n as usize),
        ),
{
    crate::text::decimal_round_trip(n);
    crate::integration::common::number_field_is_plain(n);
    let t = nat_text(n);
    assert(crate::text::is_digit(t[0]));
    assert(crate::text::unsigned_part(t) == t);
}

/// The view of an optional text.
pub open spec fn text_of(header: Option<&str>) -> Option<Seq<char>> {
    match header {
        Some(s) => Some(s@),
        None => None,
    }
}

/// Checks the length header of an upload.
pub fn check_length(header: Option<&str>) -> (r: Result<usize, UploadError>)
    ensures
        r == announced(text_of(header)),
{
    match header {
        None => Err(UploadError::MissingLength),
        Some(text) => {
            let chars = chars_of(text);
            let (from, to): (usize, usize) = trim_range(chars.as_slice(), 0, chars.len());
            assert(chars@.subrange(0, chars@.len() as int) =~= text@);
            match parse_number(chars.as_slice(), from, to, usize::MAX as u64) {
                None => Err(UploadError::UnparseableLength),
                Some(n) => {
                    let size: usize = n as usize;
                    if size >= MIN_IMAGE_BYTES && size <= MAX_IMAGE_BYTES {
                        Ok(size)
                    } else {
                        Err(UploadError::ImplausibleSize(size))
                    }
                },
            }
        },
    }
}

/// Judges a finished transfer: the image is installed only if all announced
/// bytes arrived.
pub fn check_complete(writer: &OtaWriter, expected: usize) -> (r: Result<(), UploadError>)
    ensures
        r == (if writer.written == expected {
            Ok::<(), UploadError>(())
        } else {
            Err(UploadError::Short { total: writer.written, expected })
        }),
{
    if writer.written == expected {
        Ok(())
    } else {
        Err(UploadError::Short { total: writer.written, expected })
    }
}

} // verus!
