//! What a frame header declares.

use crate::exceptions::ZstdError;
use crate::zstd_safe::get_frame_content_size;
use vstd::prelude::*;

verus! {

/// The parameters in the header of a frame.
#[derive(Clone, Copy, Debug, PartialEq, Eq, Structural)]
pub struct FrameParameters {
    /// The size of the content, or the number that stands for "not known".
    pub content_size: u64,
    /// The size of the window that decoding needs.
    pub window_size: u64,
    /// The id of the dictionary that the frame was made with, or zero.
    pub dict_id: u32,
    /// Whether a checksum follows the content.
    pub has_checksum: bool,
}

impl FrameParameters {
    /// The parameters that the fields of a frame header stand for; any
    /// checksum flag but zero means that a checksum follows.
    pub fn from_header(content_size: u64, window_size: u64, dict_id: u32, checksum_flag: u32) -> (parameters:
        FrameParameters)
        ensures
            parameters == (FrameParameters {
                content_size,
                window_size,
                dict_id,
                has_checksum: checksum_flag != 0,
            }),
    {
        FrameParameters { content_size, window_size, dict_id, has_checksum: checksum_flag != 0 }
    }
}

/// The content size that a header declares, as a signed number: -1 where it
/// declares none. A header that cannot be read is refused with
/// `FrameContentSizeError`, and so is a size that the signed number cannot
/// hold.
pub open spec fn signed_content_size(header: Result<Option<u64>, ()>) -> Result<i64, ZstdError> {
    match header {
        Err(_) => Err(ZstdError::FrameContentSizeError),
        Ok(None) => Ok(-1i64),
        Ok(Some(size)) => if size <= i64::MAX {
            Ok(size as i64)
        } else {
            Err(ZstdError::FrameContentSizeError)
        },
    }
}

/// The content size that a header declares, as a signed number.
pub fn content_size_signed(header: Result<Option<u64>, ()>) -> (res: Result<i64, ZstdError>)
    ensures
        res == signed_content_size(header),
{
    match header {
        Err(_) => Err(ZstdError::FrameContentSizeError),
        Ok(None) => Ok(-1),
        Ok(Some(size)) => if size <= i64::MAX as u64 {
            Ok(size as i64)
        } else {
            Err(ZstdError::FrameContentSizeError)
        },
    }
}

/// The content size that the frame header at the start of `data` declares,
/// or -1 where it declares none.
pub fn frame_content_size(data: &[u8]) -> (res: Result<i64, ZstdError>)
    ensures
        res == signed_content_size(crate::zstd_safe::frame_content_size(data@)),
{
    content_size_signed(get_frame_content_size(data))
}

} // verus!
