//! Format-level constants of the EOF container wire format.

use vstd::prelude::*;

verus! {

/// First byte of the fixed two-byte magic that opens every container.
pub const EOF_MAGIC_0: u8 = 0xEF;

/// Second byte of the fixed two-byte magic that opens every container.
pub const EOF_MAGIC_1: u8 = 0x00;

/// The only container version this decoder accepts.
pub const EOF_VERSION: u8 = 1;

/// Upper bound on the number of code sections a header may declare.
pub const MAX_CODE_SECTIONS: usize = 1024;

/// Byte width of the fixed-size header.
pub const HEADER_SIZE: usize = 19;

/// Byte width of one row of the types table.
pub const TYPE_RECORD_SIZE: usize = 4;

} // verus!
