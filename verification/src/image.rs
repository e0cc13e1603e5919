//! The image file to restore: whether it is compressed, how many bytes it
//! unpacks to, whether it can be mounted as it is, and how it fits the device
//! that it is to be written to.

use vstd::prelude::*;
use crate::text::{ends_with, same_text};

verus! {

/// The content type of a raw disk image compressed with XZ.
pub fn xz_image_type() -> (name: &'static str)
    ensures
        name@ == "application/x-raw-disk-image-xz-compressed"@,
{
    "application/x-raw-disk-image-xz-compressed"
}

/// The slack between image and device, in bytes, up to which no warning is
/// given.
pub const SLACK_LIMIT: u64 = 1_000_000;

/// Whether a content type is that of an XZ-compressed image: it ends in
/// `-xz-compressed`.
pub open spec fn spec_is_xz_compressed(content_type: Seq<char>) -> bool {
    "-xz-compressed"@.is_suffix_of(content_type)
}

/// Whether a file can be mounted as a loop device as it is. Every file can
/// but one whose content type is exactly that of an XZ-compressed raw disk
/// image: types are denied, not allowed, so a type that was guessed wrongly
/// does not keep an image from being mounted. Without a file the answer is
/// no.
pub open spec fn spec_mountable(content_type: Option<Seq<char>>) -> bool {
    match content_type {
        Some(name) => name != "application/x-raw-disk-image-xz-compressed"@,
        None => false,
    }
}

/// Whether a file of this content type can be mounted as it is; `None`
/// stands for no file. See [`spec_mountable`].
pub fn mountable(content_type: Option<&str>) -> (yes: bool)
    ensures
        yes == spec_mountable(
            match content_type {
                Some(name) => Some(name@),
                None => None,
            },
        ),
        content_type matches Some(name) ==> (yes <==> name@
            != "application/x-raw-disk-image-xz-compressed"@),
{
    match content_type {
        Some(name) => !same_text(name, xz_image_type()),
        None => false,
    }
}

/// Whether a content type is that of an XZ-compressed image.
pub fn is_xz_compressed(content_type: &str) -> (yes: bool)
    ensures
        yes == spec_is_xz_compressed(content_type@),
{
    ends_with(content_type, "-xz-compressed")
}

/// An image, ready to be read.
#[derive(Debug, Clone, Copy, PartialEq, Eq, Structural)]
pub struct DiskImage {
    /// Reads have to go through the XZ decoder.
    pub compressed: bool,
    /// The bytes that reading the image gives.
    pub logical_size: u64,
}

/// The size of a compressed image could not be found: the file does not
/// appear to be XZ compressed.
#[derive(Debug, Clone, Copy, PartialEq, Eq, Structural)]
pub struct NotCompressed;

/// The image behind a file of `raw_size` bytes. `unpacked` is what the size
/// probe of the XZ stream said, `None` where it failed.
pub open spec fn spec_open_image(content_type: Seq<char>, raw_size: u64, unpacked: Option<u64>)
    -> Result<DiskImage, NotCompressed> {
    if spec_is_xz_compressed(content_type) {
        match unpacked {
            Some(size) => Ok(DiskImage { compressed: true, logical_size: size }),
            None => Err(NotCompressed),
        }
    } else {
        Ok(DiskImage { compressed: false, logical_size: raw_size })
    }
}

/// The image behind a file. The content type decides: a compressed image
/// has the size that the probe of its XZ stream found, and fails where the
/// probe failed; any other file is read as it is and has its own size.
pub fn open_image(content_type: &str, raw_size: u64, unpacked: Option<u64>) -> (image: Result<
    DiskImage,
    NotCompressed,
>)
    ensures
        image == spec_open_image(content_type@, raw_size, unpacked),
{
    if is_xz_compressed(content_type) {
        match unpacked {
            Some(size) => Ok(DiskImage { compressed: true, logical_size: size }),
            None => Err(NotCompressed),
        }
    } else {
        Ok(DiskImage { compressed: false, logical_size: raw_size })
    }
}

/// The size that the index of the XZ stream in `data` gives for the unpacked
/// data, `None` where `data` does not end in such an index.
pub uninterp spec fn xz_stream_size(data: Seq<u8>) -> Option<u64>;

/// The unpacked size of the XZ stream in `data`.
///
/// Calls `liblzma::uncompressed_size` on a cursor over `data`. It reads the
/// stream footer and the index before it and adds up the sizes that the
/// index lists; nothing is unpacked. The result depends on the bytes alone.
/// A failure of any kind becomes `None`.
#[verifier::external_body]
fn xz_uncompressed_size(data: &[u8]) -> (size: Option<u64>)
    ensures
        size == xz_stream_size(data@),
{
    liblzma::uncompressed_size(std::io::Cursor::new(data)).ok()
}

/// The image held in memory as `data`: as [`open_image`], with the size
/// probe made on `data` where the content type calls for it.
pub fn open_image_bytes(content_type: &str, data: &[u8]) -> (image: Result<
    DiskImage,
    NotCompressed,
>)
    ensures
        image == spec_open_image(
            content_type@,
            data@.len() as u64,
            if spec_is_xz_compressed(content_type@) {
                xz_stream_size(data@)
            } else {
                None
            },
        ),
{
    let unpacked = if is_xz_compressed(content_type) {
        xz_uncompressed_size(data)
    } else {
        None
    };
    open_image(content_type, data.len() as u64, unpacked)
}

impl NotCompressed {
    /// The failure in words, untranslated.
    pub fn message(self) -> (text: &'static str)
        ensures
            text@ == "File does not appear to be compressed"@,
    {
        "File does not appear to be compressed"
    }
}

/// What stands in the way of a restore.
#[derive(Debug, Clone, Copy, PartialEq, Eq, Structural)]
pub enum SizeProblem {
    /// The image holds no bytes, or counts as holding none because its size
    /// could not be found.
    Empty,
    /// The image is larger than the device, by this many bytes.
    TooBig(u64),
}

/// How an image fits a device.
#[derive(Debug, Clone, Copy, PartialEq, Eq, Structural)]
pub struct SizeCheck {
    /// The image has to be unpacked.
    pub compressed: bool,
    /// The bytes that the image unpacks to; 0 where that could not be found.
    pub size: u64,
    /// The size of a compressed image could not be found. This is shown by
    /// itself; the image then counts as empty, which is a problem of its
    /// own.
    pub failure: Option<NotCompressed>,
    /// Why the restore cannot start.
    pub error: Option<SizeProblem>,
    /// The bytes of the device that the image leaves unused, where they are
    /// worth a warning.
    pub warning: Option<u64>,
}

impl SizeCheck {
    /// Whether the restore can start.
    pub fn can_start(&self) -> (yes: bool)
        ensures
            yes == (self.error is None),
    {
        self.error.is_none()
    }
}

/// The size that an image counts as having: its own, or 0 where that could
/// not be found.
pub open spec fn counted_size(opened: Result<DiskImage, NotCompressed>) -> u64 {
    match opened {
        Ok(image) => image.logical_size,
        Err(_) => 0,
    }
}

/// How an image that was opened with the result `opened` fits a device of
/// `block_size` bytes.
pub open spec fn spec_size_check(
    compressed: bool,
    opened: Result<DiskImage, NotCompressed>,
    block_size: u64,
) -> SizeCheck {
    let size = counted_size(opened);
    let failure = match opened {
        Ok(_) => None,
        Err(failure) => Some(failure),
    };
    if size == 0 {
        SizeCheck { compressed, size, failure, error: Some(SizeProblem::Empty), warning: None }
    } else if block_size - size > SLACK_LIMIT {
        SizeCheck {
            compressed,
            size,
            failure,
            error: None,
            warning: Some((block_size - size) as u64),
        }
    } else if size > block_size {
        SizeCheck {
            compressed,
            size,
            failure,
            error: Some(SizeProblem::TooBig((size - block_size) as u64)),
            warning: None,
        }
    } else {
        SizeCheck { compressed, size, failure, error: None, warning: None }
    }
}

/// Checks an image against the device that it is to go to.
///
/// Where the size of a compressed image could not be found, the check says
/// so, and goes on with the image counted as empty. An empty image cannot be
/// restored. An image that leaves more than a megabyte of the device unused
/// is restored with a warning; one that is larger than the device is not
/// restored.
pub fn display_size_warning(
    content_type: &str,
    raw_size: u64,
    unpacked: Option<u64>,
    block_size: u64,
) -> (check: SizeCheck)
    ensures
        check == spec_size_check(
            spec_is_xz_compressed(content_type@),
            spec_open_image(content_type@, raw_size, unpacked),
            block_size,
        ),
        check.failure is Some <==> spec_open_image(content_type@, raw_size, unpacked) is Err,
        check.failure is Some <==> spec_is_xz_compressed(content_type@) && unpacked is None,
        check.failure is Some ==> check.size == 0 && check.error == Some(SizeProblem::Empty),
        check.error is None ==> 0 < check.size <= block_size,
        check.warning matches Some(slack) ==> check.error is None && slack > SLACK_LIMIT
            && check.size + slack == block_size,
{
    let compressed = is_xz_compressed(content_type);
    let (size, failure) = match open_image(content_type, raw_size, unpacked) {
        Ok(image) => (image.logical_size, None),
        Err(failure) => (0, Some(failure)),
    };
    if size == 0 {
        SizeCheck { compressed, size, failure, error: Some(SizeProblem::Empty), warning: None }
    } else if block_size > size && block_size - size > SLACK_LIMIT {
        SizeCheck { compressed, size, failure, error: None, warning: Some(block_size - size) }
    } else if size > block_size {
        SizeCheck {
            compressed,
            size,
            failure,
            error: Some(SizeProblem::TooBig(size - block_size)),
            warning: None,
        }
    } else {
        SizeCheck { compressed, size, failure, error: None, warning: None }
    }
}

} // verus!
