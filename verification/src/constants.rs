//! Numbers that callers and the engine agree on.

use vstd::prelude::*;

verus! {

/// Writer flush mode: emit what was taken in, and keep the frame open.
pub const FLUSH_BLOCK: usize = 0;

/// Writer flush mode: emit everything and end the frame.
pub const FLUSH_FRAME: usize = 1;

/// One-shot object flush mode: end the frame.
pub const COMPRESSOBJ_FLUSH_FINISH: i32 = 0;

/// One-shot object flush mode: emit a block and keep the frame open.
pub const COMPRESSOBJ_FLUSH_BLOCK: i32 = 1;

/// The source size that stands for "not known".
pub const CONTENTSIZE_UNKNOWN: u64 = 0xffff_ffff_ffff_ffff;

/// The content size that stands for a header that could not be read.
pub const CONTENTSIZE_ERROR: u64 = 0xffff_ffff_ffff_fffe;

/// The size of the reads that a read of everything is made of.
pub const READALL_SIZE: usize = 1048576;

/// Seek origin: the start of the stream.
pub const SEEK_SET: i32 = 0;

/// Seek origin: the current position.
pub const SEEK_CUR: i32 = 1;

/// Seek origin: the end of the stream.
pub const SEEK_END: i32 = 2;

} // verus!
