//! Questions about one block device or drive, answered from what the storage
//! manager said of it.

use vstd::prelude::*;
use crate::text::{same_text, starts_with};

verus! {

/// Whether one of `values` is `wanted`.
pub open spec fn lists(values: Seq<String>, wanted: Seq<char>) -> bool {
    exists|k: int| 0 <= k < values.len() && (#[trigger] values[k])@ == wanted
}

/// Whether `option` is among the mount options that user space set for a
/// block device.
pub fn has_userspace_mount_option(options: &Vec<String>, option: &str) -> (found: bool)
    ensures
        found == lists(options@, option@),
{
    let mut k: usize = 0;
    while k < options.len()
        invariant
            k <= options.len(),
            forall|j: int| 0 <= j < k ==> (#[trigger] options@[j])@ != option@,
        decreases options.len() - k,
    {
        if same_text(options[k].as_str(), option) {
            return true;
        }
        k += 1;
    }
    false
}

/// Whether a drive takes flash media: one of the media it is compatible with
/// begins with `flash`.
pub fn is_flash(media_compatibility: &Vec<String>) -> (flash: bool)
    ensures
        flash == exists|k: int|
            0 <= k < media_compatibility@.len() && "flash"@.is_prefix_of(
                (#[trigger] media_compatibility@[k])@,
            ),
{
    let mut k: usize = 0;
    while k < media_compatibility.len()
        invariant
            k <= media_compatibility.len(),
            forall|j: int|
                0 <= j < k ==> !"flash"@.is_prefix_of((#[trigger] media_compatibility@[j])@),
        decreases media_compatibility.len() - k,
    {
        if starts_with(media_compatibility[k].as_str(), "flash") {
            return true;
        }
        k += 1;
    }
    false
}

/// One entry of the configuration of a block device.
#[derive(Debug)]
pub struct ConfigurationItem {
    /// The kind of entry, such as `fstab` or `crypttab`.
    pub kind: String,
    /// What the entry gives as the path of the passphrase, if it gives one
    /// that reads as text.
    pub passphrase_path: Option<String>,
}

/// Whether an entry names a file that holds the passphrase: a path that is
/// not empty and does not lie under `/dev`.
pub open spec fn names_passphrase_file(item: ConfigurationItem) -> bool {
    item.passphrase_path matches Some(path) && path@.len() > 0 && !"/dev"@.is_prefix_of(path@)
}

/// Whether entry `at` is the first of `config` that is of kind `kind`.
pub open spec fn is_first_of_kind(config: Seq<ConfigurationItem>, kind: Seq<char>, at: int)
    -> bool {
    &&& 0 <= at < config.len()
    &&& config[at].kind@ == kind
    &&& forall|j: int| 0 <= j < at ==> (#[trigger] config[j]).kind@ != kind
}

/// Whether the configuration of a block device has an entry of kind
/// `config_type`, and whether that entry names a file with the passphrase.
/// The first entry of the kind decides; the second answer is given for
/// `crypttab` only.
pub fn has_configuration(config: &Vec<ConfigurationItem>, config_type: &str) -> (found: (
    bool,
    bool,
))
    ensures
        found.0 == exists|at: int| is_first_of_kind(config@, config_type@, at),
        !found.0 ==> !found.1,
        forall|at: int|
            is_first_of_kind(config@, config_type@, at) ==> found.1 == (config_type@
                == "crypttab"@ && names_passphrase_file(config@[at])),
{
    let mut k: usize = 0;
    while k < config.len()
        invariant
            k <= config.len(),
            forall|j: int| 0 <= j < k ==> (#[trigger] config@[j]).kind@ != config_type@,
        decreases config.len() - k,
    {
        if same_text(config[k].kind.as_str(), config_type) {
            let mut has_passphrase = false;
            if same_text(config_type, "crypttab") {
                has_passphrase = match &config[k].passphrase_path {
                    Some(path) => {
                        let text = path.as_str();
                        text.unicode_len() > 0 && !starts_with(text, "/dev")
                    },
                    None => false,
                };
            }
            assert(is_first_of_kind(config@, config_type@, k as int));
            assert forall|at: int| is_first_of_kind(config@, config_type@, at) implies at
                == k by {
                if at > k {
                    assert(config@[k as int].kind@ == config_type@);
                }
            }
            return (true, has_passphrase);
        }
        k += 1;
    }
    (false, false)
}

/// What the storage manager said of an object that may be offered as the
/// target of a restore. A `None` is a question that failed.
#[derive(Debug)]
pub struct BlockFacts {
    /// User space asked for the device to be hidden.
    pub hidden: bool,
    /// The device file.
    pub device: Option<String>,
    /// The size in bytes.
    pub size: Option<u64>,
    /// The object is a loop device.
    pub is_loop: bool,
    /// The object is a partition.
    pub is_partition: bool,
    /// The drive that the device belongs to, `/` for none.
    pub drive: Option<String>,
    /// The encrypted device that this one is the unlocked form of, `/` for
    /// none.
    pub crypto_backing_device: Option<String>,
}

/// A question about a block device that failed.
#[derive(Debug, Clone, Copy, PartialEq, Eq, Structural)]
pub enum FailedQuery {
    Device,
    Size,
    Drive,
    CryptoBackingDevice,
}

/// Whether a block device is offered, by the questions in their order.
pub open spec fn spec_should_display(facts: BlockFacts) -> Result<bool, FailedQuery> {
    if facts.hidden {
        Ok(false)
    } else if facts.device is None {
        Err(FailedQuery::Device)
    } else if "/dev/ram"@.is_prefix_of(facts.device->0@) || "/dev/zram"@.is_prefix_of(
        facts.device->0@,
    ) {
        Ok(false)
    } else if facts.size is None {
        Err(FailedQuery::Size)
    } else if facts.size->0 == 0 && facts.is_loop {
        Ok(false)
    } else if facts.is_partition {
        Ok(false)
    } else if facts.drive is None {
        Err(FailedQuery::Drive)
    } else if facts.drive->0@ != "/"@ {
        Ok(false)
    } else if facts.crypto_backing_device is None {
        Err(FailedQuery::CryptoBackingDevice)
    } else if facts.crypto_backing_device->0@ != "/"@ {
        Ok(false)
    } else {
        Ok(true)
    }
}

/// Whether a block device is offered as the target of a restore. Left out
/// are devices that are hidden, RAM disks, loop devices of size 0,
/// partitions, devices that are shown with their drive, and unlocked forms
/// of encrypted devices. A device of size 0 that is no loop device is
/// offered: it hints at something that needs attention.
pub fn should_display(facts: &BlockFacts) -> (shown: Result<bool, FailedQuery>)
    ensures
        shown == spec_should_display(*facts),
{
    if facts.hidden {
        return Ok(false);
    }
    let device = match &facts.device {
        Some(device) => device.as_str(),
        None => {
            return Err(FailedQuery::Device);
        },
    };
    if starts_with(device, "/dev/ram") || starts_with(device, "/dev/zram") {
        return Ok(false);
    }
    let size = match facts.size {
        Some(size) => size,
        None => {
            return Err(FailedQuery::Size);
        },
    };
    if size == 0 && facts.is_loop {
        return Ok(false);
    }
    if facts.is_partition {
        return Ok(false);
    }
    let drive = match &facts.drive {
        Some(drive) => drive.as_str(),
        None => {
            return Err(FailedQuery::Drive);
        },
    };
    if !same_text(drive, "/") {
        return Ok(false);
    }
    let backing = match &facts.crypto_backing_device {
        Some(backing) => backing.as_str(),
        None => {
            return Err(FailedQuery::CryptoBackingDevice);
        },
    };
    if !same_text(backing, "/") {
        return Ok(false);
    }
    Ok(true)
}

} // verus!
