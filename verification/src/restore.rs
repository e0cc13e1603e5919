//! The steps around the copy of an image: where it may go, and what is said
//! when a step fails.

use vstd::prelude::*;
use crate::blocks::FailedQuery;
use crate::graph::DeviceTree;

verus! {

/// A step of a restore that can fail.
#[derive(Debug, Clone, Copy, PartialEq, Eq, Structural)]
pub enum RestoreStage {
    /// Asking for type and size of the image file.
    FileInfo,
    /// Opening the image file.
    OpenFile,
    /// Finding the unpacked size of a compressed image.
    ProbeSize,
    /// Freeing the device.
    EnsureUnused,
    /// Copying the image.
    Copy,
}

/// The heading, untranslated, under which a failure of `stage` is shown;
/// `None` for a step that fails in silence, because the failure is nothing
/// to act on or has been shown where it happened.
pub fn failure_title(stage: RestoreStage) -> (title: Option<&'static str>)
    ensures
        match stage {
            RestoreStage::FileInfo => (title matches Some(t) && t@
                == "Error determining size of file"@),
            RestoreStage::OpenFile => (title matches Some(t) && t@
                == "Error opening file for reading"@),
            RestoreStage::ProbeSize => title is None,
            RestoreStage::EnsureUnused => title is None,
            RestoreStage::Copy => (title matches Some(t) && t@ == "Error restoring disk image"@),
        },
{
    match stage {
        RestoreStage::FileInfo => Some("Error determining size of file"),
        RestoreStage::OpenFile => Some("Error opening file for reading"),
        RestoreStage::ProbeSize => None,
        RestoreStage::EnsureUnused => None,
        RestoreStage::Copy => Some("Error restoring disk image"),
    }
}

/// The operation that the job of a restore names.
pub fn restore_operation() -> (name: &'static str)
    ensures
        name@ == "x-gdu-restore-disk-image"@,
{
    "x-gdu-restore-disk-image"
}

/// The block device that is offered as a target for the object `id`, if
/// any: for a drive the block device of the whole disk; for a block device
/// that is no drive the device itself, if it is one to display.
pub open spec fn spec_destination(
    tree: &DeviceTree,
    id: usize,
    shown: Result<bool, FailedQuery>,
) -> Option<usize> {
    if !tree.has(id) {
        None
    } else if tree.object(id).is_drive {
        tree.root_block(id)
    } else if tree.object(id).is_block && shown == Ok::<bool, FailedQuery>(true) {
        Some(id)
    } else {
        None
    }
}

/// The block device that is offered as a target for the object `id`.
/// `shown` is what [`crate::blocks::should_display`] said of the object.
pub fn destination(tree: &DeviceTree, id: usize, shown: Result<bool, FailedQuery>) -> (block:
    Option<usize>)
    ensures
        block == spec_destination(tree, id, shown),
        block matches Some(target) ==> tree.has(target),
{
    if id >= tree.objects.len() {
        return None;
    }
    let object = &tree.objects[id];
    if object.is_drive {
        match object.drive_block {
            Some(block) => if block < tree.objects.len() {
                Some(block)
            } else {
                None
            },
            None => None,
        }
    } else if object.is_block {
        match shown {
            Ok(true) => Some(id),
            _ => None,
        }
    } else {
        None
    }
}

} // verus!
