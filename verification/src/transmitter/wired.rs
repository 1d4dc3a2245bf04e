//! Calibration commands down the wired links.

use vstd::prelude::*;

use crate::protocol::payloads::{cal_cmd_bytes, encode_cal_cmd};
use crate::protocol::{build, built_into, frame_type, new_header, node, CalCmd, Header};

verus! {

/// Baud rate of the wired links.
pub const DEFAULT_BAUD: u32 = 460_800;

/// The command side of one wired link.
#[derive(Clone, Copy, Debug, PartialEq, Eq, Structural)]
pub struct CommandLink {
    /// Number of the next command.
    pub seq: u32,
}

impl CommandLink {
    /// A link on which nothing was sent.
    pub fn new() -> (l: Self)
        ensures
            l.seq == 0,
    {
        CommandLink { seq: 0 }
    }

    /// Builds a command frame into `buf` and counts it.
    pub fn cal_cmd_frame(&mut self, buf: &mut [u8], cmd: &CalCmd, now_us: u64) -> (n: usize)
        ensures
            built_into(
                old(buf)@,
                final(buf)@,
                n,
                new_header(frame_type::CAL_CMD, node::TX, 0, old(self).seq, now_us, 8),
                cal_cmd_bytes(*cmd),
            ),
            final(self).seq == (if old(self).seq == u32::MAX {
                0
            } else {
                old(self).seq + 1
            }),
    {
        let pl = encode_cal_cmd(cmd);
        proof {
            crate::protocol::payloads::cal_cmd_round_trip(*cmd, Seq::empty());
        }
        let hdr = Header::new(
            frame_type::CAL_CMD,
            node::TX,
            0,
            self.seq,
            now_us,
            pl.len() as u16,
        );
        self.seq = if self.seq == u32::MAX {
            0
        } else {
            self.seq + 1
        };
        build(buf, &hdr, pl.as_slice())
    }
}

impl Default for CommandLink {
    fn default() -> (l: Self)
        ensures
            l.seq == 0,
    {
        CommandLink::new()
    }
}

} // verus!
