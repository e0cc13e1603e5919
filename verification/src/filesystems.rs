//! What can be done with a filesystem of a given type, and the cache of what
//! the storage manager said about it.

use vstd::prelude::*;
use crate::enums::ResizeFlagSet;
use crate::text::same_text;

verus! {

/// Whether the files of a filesystem of this type have owners that can be
/// changed: all do but `ntfs`, `vfat` and `exfat`.
pub fn can_take_ownership(fstype: &str) -> (can: bool)
    ensures
        can == !(fstype@ == "ntfs"@ || fstype@ == "vfat"@ || fstype@ == "exfat"@),
{
    !(same_text(fstype, "ntfs") || same_text(fstype, "vfat") || same_text(fstype, "exfat"))
}

/// The longest label that a filesystem of this type takes, in characters:
/// 15 for `exfat`, 11 for `vfat`, and no limit for any other.
pub fn max_label_length(fstype: &str) -> (length: u32)
    ensures
        length == if fstype@ == "exfat"@ {
            15u32
        } else if fstype@ == "vfat"@ {
            11u32
        } else {
            u32::MAX
        },
{
    if same_text(fstype, "exfat") {
        15
    } else if same_text(fstype, "vfat") {
        11
    } else {
        u32::MAX
    }
}

/// The largest of `sizes`, 0 for none.
pub open spec fn largest(sizes: Seq<u64>) -> u64
    decreases sizes.len(),
{
    if sizes.len() == 0 {
        0
    } else if sizes.last() > largest(sizes.drop_last()) {
        sizes.last()
    } else {
        largest(sizes.drop_last())
    }
}

/// The size from which differences between block devices count: 1 MiB.
pub const SAME_SIZE_SLACK: u64 = 1048576;

/// Whether block devices of these sizes pass as being of one size, and the
/// size that they are measured against. The measure is taken from 0 and
/// never above a size, so it stays 0: the devices pass as long as none is
/// larger than 1 MiB. No devices do not pass, and their measure is the
/// largest number there is.
pub fn is_same_size(sizes: &Vec<u64>) -> (same: (bool, u64))
    ensures
        sizes@.len() == 0 ==> same == (false, u64::MAX),
        sizes@.len() > 0 ==> same == (largest(sizes@) <= SAME_SIZE_SLACK, 0u64),
{
    if sizes.len() == 0 {
        return (false, u64::MAX);
    }
    let mut min_size: u64 = 0;
    let mut max_size: u64 = 0;
    let mut k: usize = 0;
    assert(sizes@.take(0).len() == 0);
    while k < sizes.len()
        invariant
            k <= sizes.len(),
            min_size == 0,
            max_size == largest(sizes@.take(k as int)),
        decreases sizes.len() - k,
    {
        let size = sizes[k];
        proof {
            assert(sizes@.take(k + 1).drop_last() == sizes@.take(k as int));
            assert(sizes@.take(k + 1).last() == size);
        }
        if size > max_size {
            max_size = size;
        }
        if size < min_size {
            min_size = size;
        }
        k += 1;
    }
    assert(sizes@.take(k as int) == sizes@);
    let limit: u128 = min_size as u128 * 101 / 100;
    if (max_size - min_size) as u128 > limit && max_size - min_size > SAME_SIZE_SLACK {
        return (false, min_size);
    }
    (true, min_size)
}

/// What the storage manager said of one type of filesystem.
#[derive(Debug)]
pub struct CacheEntry {
    /// The operation can be done.
    pub available: bool,
    /// The tool that is missing where it cannot.
    pub missing_util: String,
    /// The ways in which the filesystem can be resized.
    pub mode: ResizeFlagSet,
}

impl CacheEntry {
    /// The entry for an answer about resizing; `None` where `mode` holds a
    /// bit that is no way of resizing.
    pub fn resizing(available: bool, mode: u64, missing_util: String) -> (entry: Option<
        CacheEntry,
    >)
        ensures
            match entry {
                Some(entry) => {
                    &&& mode <= u32::MAX
                    &&& ResizeFlagSet::from_bits_spec(mode as u32) == Some(entry.mode)
                    &&& entry.available == available
                    &&& entry.missing_util == missing_util
                },
                None => mode > u32::MAX || ResizeFlagSet::from_bits_spec(mode as u32) is None,
            },
    {
        if mode > u32::MAX as u64 {
            return None;
        }
        match ResizeFlagSet::from_bits(mode as u32) {
            Some(flags) => Some(CacheEntry { available, missing_util, mode: flags }),
            None => None,
        }
    }

    /// The entry for an answer about repairing, formatting or checking.
    pub fn tool(available: bool, missing_util: String) -> (entry: CacheEntry)
        ensures
            entry.available == available,
            entry.missing_util == missing_util,
            entry.mode.bits == 0,
    {
        CacheEntry { available, missing_util, mode: ResizeFlagSet::empty() }
    }
}

/// The entry that was last put in under `fstype`.
pub open spec fn found(entries: Seq<(String, CacheEntry)>, fstype: Seq<char>) -> Option<
    CacheEntry,
>
    decreases entries.len(),
{
    if entries.len() == 0 {
        None
    } else if entries.last().0@ == fstype {
        Some(entries.last().1)
    } else {
        found(entries.drop_last(), fstype)
    }
}

/// Availability and missing tool of the entry that was last put in under
/// `fstype`.
pub open spec fn tool_found(entries: Seq<(String, CacheEntry)>, fstype: Seq<char>) -> Option<
    (bool, String),
> {
    match found(entries, fstype) {
        Some(entry) => Some((entry.available, entry.missing_util)),
        None => None,
    }
}

/// What the storage manager said of each type of filesystem, kept so that
/// it is asked once only. One cache is kept for each operation.
#[derive(Debug)]
pub struct CapabilityCache {
    pub entries: Vec<(String, CacheEntry)>,
}

impl CapabilityCache {
    /// An empty cache.
    pub fn new() -> (cache: CapabilityCache)
        ensures
            cache.entries@.len() == 0,
    {
        CapabilityCache { entries: Vec::new() }
    }

    /// Gets the cache ready for a look-up: drops what it holds if `flush`
    /// is set, and says whether it has to be filled from the storage manager
    /// first, which it has when it is empty.
    pub fn prepare(&mut self, flush: bool) -> (fill: bool)
        ensures
            final(self).entries@ == if flush {
                Seq::empty()
            } else {
                old(self).entries@
            },
            fill == (final(self).entries@.len() == 0),
    {
        if flush {
            self.entries.clear();
        }
        self.entries.len() == 0
    }

    /// Puts in what the manager said of `fstype`, in place of what the cache
    /// held of it.
    pub fn insert(&mut self, fstype: String, entry: CacheEntry)
        ensures
            final(self).entries@ == old(self).entries@.push((fstype, entry)),
            found(final(self).entries@, fstype@) == Some(entry),
            forall|other: Seq<char>|
                other != fstype@ ==> found(final(self).entries@, other) == found(
                    old(self).entries@,
                    other,
                ),
    {
        let ghost before = self.entries@;
        self.entries.push((fstype, entry));
        assert(self.entries@.drop_last() == before);
    }

    /// What the cache holds of `fstype`.
    pub fn get(&self, fstype: &str) -> (entry: Option<&CacheEntry>)
        ensures
            match entry {
                Some(entry) => found(self.entries@, fstype@) == Some(*entry),
                None => found(self.entries@, fstype@) is None,
            },
    {
        let mut k: usize = self.entries.len();
        assert(self.entries@.take(k as int) == self.entries@);
        while k > 0
            invariant
                k <= self.entries.len(),
                found(self.entries@, fstype@) == found(self.entries@.take(k as int), fstype@),
            decreases k,
        {
            k -= 1;
            proof {
                assert(self.entries@.take(k + 1).drop_last() == self.entries@.take(k as int));
                assert(self.entries@.take(k + 1).last() == self.entries@[k as int]);
            }
            if same_text(self.entries[k].0.as_str(), fstype) {
                return Some(&self.entries[k].1);
            }
        }
        None
    }

    /// Whether a filesystem of this type can be resized, in which ways, and
    /// the tool that is missing if not; `None` for a type that the manager
    /// said nothing of.
    pub fn can_resize(&self, fstype: &str) -> (answer: Option<(bool, ResizeFlagSet, String)>)
        ensures
            match answer {
                Some((available, mode, missing_util)) => found(self.entries@, fstype@) == Some(
                    CacheEntry { available, missing_util, mode },
                ),
                None => found(self.entries@, fstype@) is None,
            },
    {
        match self.get(fstype) {
            Some(entry) => Some((entry.available, entry.mode, entry.missing_util.clone())),
            None => None,
        }
    }

    /// What a cache of answers about a tool holds of `fstype`.
    fn tool_answer(&self, fstype: &str) -> (answer: Option<(bool, String)>)
        ensures
            answer == tool_found(self.entries@, fstype@),
    {
        match self.get(fstype) {
            Some(entry) => Some((entry.available, entry.missing_util.clone())),
            None => None,
        }
    }

    /// Whether a filesystem of this type can be repaired, and the tool that
    /// is missing if not; `None` for a type that the manager said nothing
    /// of. The cache is the one that was filled with answers about
    /// repairing.
    pub fn can_repair(&self, fstype: &str) -> (answer: Option<(bool, String)>)
        ensures
            answer == tool_found(self.entries@, fstype@),
    {
        self.tool_answer(fstype)
    }

    /// Whether a filesystem of this type can be made, and the tool that is
    /// missing if not; `None` for a type that the manager said nothing of.
    /// The cache is the one that was filled with answers about formatting.
    pub fn can_format(&self, fstype: &str) -> (answer: Option<(bool, String)>)
        ensures
            answer == tool_found(self.entries@, fstype@),
    {
        self.tool_answer(fstype)
    }

    /// Whether a filesystem of this type can be checked, and the tool that
    /// is missing if not; `None` for a type that the manager said nothing
    /// of. The cache is the one that was filled with answers about checking.
    pub fn can_check(&self, fstype: &str) -> (answer: Option<(bool, String)>)
        ensures
            answer == tool_found(self.entries@, fstype@),
    {
        self.tool_answer(fstype)
    }
}

} // verus!
