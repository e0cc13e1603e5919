//! Partitions of a DOS partition table: primary and extended ones, and the
//! room that a partition has to grow or to shrink.

use vstd::prelude::*;

verus! {

/// What the storage manager said of a partition. A `None` is a question that
/// failed.
#[derive(Debug, Clone, Copy, PartialEq, Eq, Structural)]
pub struct PartitionInfo {
    /// The number of the partition in its table.
    pub number: Option<u32>,
    /// Where the partition begins on the disk, in bytes.
    pub offset: Option<u64>,
    /// The size of the partition, in bytes.
    pub size: Option<u64>,
    /// The partition holds other partitions: it is an extended partition.
    pub is_container: Option<bool>,
    /// The partition lies in an extended partition: it is a logical one.
    pub is_contained: Option<bool>,
}

impl PartitionInfo {
    /// The partition is known to lie in no other.
    pub open spec fn primary(self) -> bool {
        self.is_contained == Some(false)
    }

    /// The partition is known to hold others.
    pub open spec fn extended(self) -> bool {
        self.is_container == Some(true)
    }

    /// The partition is extended and `offset` lies in it; what is not known
    /// of its place counts as 0.
    pub open spec fn surrounds(self, offset: u64) -> bool {
        let begin: int = match self.offset {
            Some(begin) => begin as int,
            None => 0,
        };
        let size: int = match self.size {
            Some(size) => size as int,
            None => 0,
        };
        self.extended() && begin <= offset < begin + size
    }

    /// Whether this is the partition with the number `number`.
    pub open spec fn has_number(self, number: u32) -> bool {
        self.number == Some(number)
    }
}

/// The number of primary partitions among the first `count`.
pub open spec fn primaries(partitions: Seq<PartitionInfo>, count: int) -> nat
    decreases count,
{
    if count <= 0 {
        0
    } else {
        primaries(partitions, count - 1) + if partitions[count - 1].primary() {
            1nat
        } else {
            0nat
        }
    }
}

/// The number of primary partitions of a table: those known to lie in no
/// extended partition.
pub fn count_primary_dos_partitions(partitions: &Vec<PartitionInfo>) -> (count: usize)
    ensures
        count == primaries(partitions@, partitions@.len() as int),
        count <= partitions@.len(),
{
    let mut count: usize = 0;
    let mut k: usize = 0;
    while k < partitions.len()
        invariant
            k <= partitions.len(),
            count == primaries(partitions@, k as int),
            count <= k,
        decreases partitions.len() - k,
    {
        match partitions[k].is_contained {
            Some(false) => {
                count += 1;
            },
            _ => {},
        }
        k += 1;
    }
    count
}

/// Whether a table has an extended partition.
pub fn have_dos_extended(partitions: &Vec<PartitionInfo>) -> (found: bool)
    ensures
        found == exists|k: int|
            0 <= k < partitions@.len() && (#[trigger] partitions@[k]).extended(),
{
    let mut k: usize = 0;
    while k < partitions.len()
        invariant
            k <= partitions.len(),
            forall|j: int| 0 <= j < k ==> !(#[trigger] partitions@[j]).extended(),
        decreases partitions.len() - k,
    {
        match partitions[k].is_container {
            Some(true) => {
                return true;
            },
            _ => {},
        }
        k += 1;
    }
    false
}

/// Whether the byte at `offset` lies in an extended partition of the table.
pub fn is_inside_dos_extended(partitions: &Vec<PartitionInfo>, offset: u64) -> (inside: bool)
    ensures
        inside == exists|k: int|
            0 <= k < partitions@.len() && (#[trigger] partitions@[k]).surrounds(offset),
{
    let mut k: usize = 0;
    while k < partitions.len()
        invariant
            k <= partitions.len(),
            forall|j: int| 0 <= j < k ==> !(#[trigger] partitions@[j]).surrounds(offset),
        decreases partitions.len() - k,
    {
        let partition = &partitions[k];
        match partition.is_container {
            Some(true) => {
                let begin: u64 = match partition.offset {
                    Some(begin) => begin,
                    None => 0,
                };
                let size: u64 = match partition.size {
                    Some(size) => size,
                    None => 0,
                };
                if offset >= begin && offset - begin < size {
                    return true;
                }
            },
            _ => {},
        }
        k += 1;
    }
    false
}

/// Where the room of a partition that ends at `current_end` stops, `limit`
/// being where it stops by what was looked at before: at the end of
/// `other` if that lies behind the partition's end and before the limit,
/// and at the begin of `other` if that lies at or behind the partition's
/// end and before the limit.
pub open spec fn grow_limit_with(limit: int, current_end: int, other: PartitionInfo) -> int {
    let begin = other.offset->0 as int;
    let end = begin + other.size->0;
    let by_end = if end > current_end && end < limit {
        end
    } else {
        limit
    };
    if begin >= current_end && begin < by_end {
        begin
    } else {
        by_end
    }
}

/// Whether `other` leaves the room from `current_end` up to `limit` free: it
/// neither ends nor begins in it.
pub open spec fn free_up_to(other: PartitionInfo, current_end: int, limit: int) -> bool {
    let begin = other.offset->0 as int;
    let end = begin + other.size->0;
    &&& end > current_end ==> limit <= end
    &&& begin >= current_end ==> limit <= begin
}

/// Whether `other` is looked at when the room of partition `number` is
/// worked out: every partition but that one itself.
pub open spec fn is_other(other: PartitionInfo, number: u32) -> bool {
    !other.has_number(number)
}

/// Where the room of the partition `number`, which ends at `current_end`,
/// stops on a disk of `disk_size` bytes, by the first `count` partitions of
/// the table; `None` where one of them does not say where it lies.
pub open spec fn grow_limit(
    partitions: Seq<PartitionInfo>,
    count: int,
    number: u32,
    current_end: int,
    disk_size: u64,
) -> Option<int>
    decreases count,
{
    if count <= 0 {
        Some(disk_size as int)
    } else {
        let other = partitions[count - 1];
        match grow_limit(partitions, count - 1, number, current_end, disk_size) {
            None => None,
            Some(limit) => if !is_other(other, number) {
                Some(limit)
            } else if other.offset is None || other.size is None {
                None
            } else {
                Some(grow_limit_with(limit, current_end, other))
            },
        }
    }
}

/// The size to which `partition` can grow, in bytes from its begin.
pub open spec fn spec_space_to_grow(
    disk_size: u64,
    partition: PartitionInfo,
    partitions: Seq<PartitionInfo>,
) -> Option<u64> {
    if partition.number is None || partition.offset is None || partition.size is None {
        None
    } else {
        match grow_limit(
            partitions,
            partitions.len() as int,
            partition.number->0,
            partition.offset->0 + partition.size->0,
            disk_size,
        ) {
            None => None,
            Some(limit) => Some(
                if limit >= partition.offset->0 {
                    (limit - partition.offset->0) as u64
                } else {
                    0
                },
            ),
        }
    }
}

/// The size to which `partition` can grow: from its begin to the next
/// boundary behind its end, which is the begin or end of another partition
/// of the table or the end of the disk. `None` where the partition or one of
/// the others did not say where it lies.
pub fn calc_space_to_grow(
    disk_size: u64,
    partition: &PartitionInfo,
    partitions: &Vec<PartitionInfo>,
) -> (space: Option<u64>)
    ensures
        space == spec_space_to_grow(disk_size, *partition, partitions@),
        space matches Some(bytes) ==> partition.offset->0 + bytes <= disk_size || bytes == 0,
        space matches Some(bytes) ==> forall|k: int|
            0 <= k < partitions@.len() && is_other(#[trigger] partitions@[k], partition.number->0)
                ==> free_up_to(
                partitions@[k],
                partition.offset->0 + partition.size->0,
                partition.offset->0 + bytes,
            ),
{
    let number = match partition.number {
        Some(number) => number,
        None => {
            return None;
        },
    };
    let offset = match partition.offset {
        Some(offset) => offset,
        None => {
            return None;
        },
    };
    let size = match partition.size {
        Some(size) => size,
        None => {
            return None;
        },
    };
    let current_end: u128 = offset as u128 + size as u128;
    let mut next_pos: u128 = disk_size as u128;
    let mut k: usize = 0;
    while k < partitions.len()
        invariant
            k <= partitions.len(),
            partition.number == Some(number),
            partition.offset == Some(offset),
            partition.size == Some(size),
            current_end == offset + size,
            next_pos <= disk_size,
            forall|j: int|
                0 <= j < k && is_other(#[trigger] partitions@[j], number) ==> free_up_to(
                    partitions@[j],
                    current_end as int,
                    next_pos as int,
                ),
            grow_limit(partitions@, k as int, number, current_end as int, disk_size) == Some(
                next_pos as int,
            ),
        decreases partitions.len() - k,
    {
        let other = &partitions[k];
        let same = match other.number {
            Some(n) => n == number,
            None => false,
        };
        if !same {
            let begin = match other.offset {
                Some(begin) => begin,
                None => {
                    assert(grow_limit(
                        partitions@,
                        partitions@.len() as int,
                        number,
                        current_end as int,
                        disk_size,
                    ) is None) by {
                        lemma_grow_limit_fails(
                            partitions@,
                            k + 1,
                            partitions@.len() as int,
                            number,
                            current_end as int,
                            disk_size,
                        );
                    }
                    return None;
                },
            };
            let length = match other.size {
                Some(length) => length,
                None => {
                    assert(grow_limit(
                        partitions@,
                        partitions@.len() as int,
                        number,
                        current_end as int,
                        disk_size,
                    ) is None) by {
                        lemma_grow_limit_fails(
                            partitions@,
                            k + 1,
                            partitions@.len() as int,
                            number,
                            current_end as int,
                            disk_size,
                        );
                    }
                    return None;
                },
            };
            let end: u128 = begin as u128 + length as u128;
            if end > current_end && end < next_pos {
                next_pos = end;
            }
            if begin as u128 >= current_end && (begin as u128) < next_pos {
                next_pos = begin as u128;
            }
        }
        k += 1;
    }
    if next_pos >= offset as u128 {
        Some((next_pos - offset as u128) as u64)
    } else {
        Some(0)
    }
}

/// Once a partition has failed to say where it lies, looking at more of them
/// does not help.
proof fn lemma_grow_limit_fails(
    partitions: Seq<PartitionInfo>,
    failed: int,
    count: int,
    number: u32,
    current_end: int,
    disk_size: u64,
)
    requires
        failed <= count,
        grow_limit(partitions, failed, number, current_end, disk_size) is None,
    ensures
        grow_limit(partitions, count, number, current_end, disk_size) is None,
    decreases count - failed,
{
    if failed < count {
        lemma_grow_limit_fails(partitions, failed, count - 1, number, current_end, disk_size);
    }
}

/// The least size of an extended partition with the first `count`
/// partitions of the table in it, as the byte behind the last of them that
/// ends in the extended partition; `None` where one of them does not say
/// where it lies.
pub open spec fn shrink_limit(
    partitions: Seq<PartitionInfo>,
    count: int,
    number: u32,
    first: int,
    last: int,
) -> Option<int>
    decreases count,
{
    if count <= 0 {
        Some(first)
    } else {
        let other = partitions[count - 1];
        match shrink_limit(partitions, count - 1, number, first, last) {
            None => None,
            Some(limit) => if !is_other(other, number) {
                Some(limit)
            } else if other.offset is None || other.size is None {
                None
            } else {
                let end = other.offset->0 + other.size->0;
                if end > limit && end <= last {
                    Some(end)
                } else {
                    Some(limit)
                }
            },
        }
    }
}

/// The size to which an extended partition can shrink.
pub open spec fn spec_space_to_shrink_extended(
    partition: PartitionInfo,
    partitions: Seq<PartitionInfo>,
) -> Option<u64> {
    if partition.number is None || partition.offset is None || partition.size is None {
        None
    } else {
        let first = partition.offset->0 + 1;
        match shrink_limit(
            partitions,
            partitions.len() as int,
            partition.number->0,
            first,
            first + partition.size->0,
        ) {
            None => None,
            Some(limit) => Some(
                if limit - partition.offset->0 > u64::MAX {
                    u64::MAX
                } else {
                    (limit - partition.offset->0) as u64
                },
            ),
        }
    }
}

/// The size to which the extended partition `partition` can shrink: up to
/// the end of the last partition that ends in it, and one byte where it
/// holds none. `None` where the partition or one of the others did not say
/// where it lies.
pub fn calc_space_to_shrink_extended(
    partition: &PartitionInfo,
    partitions: &Vec<PartitionInfo>,
) -> (space: Option<u64>)
    requires
        partition.extended(),
    ensures
        space == spec_space_to_shrink_extended(*partition, partitions@),
        space matches Some(bytes) ==> 1 <= bytes <= partition.size->0 + 1,
        space matches Some(bytes) ==> bytes == u64::MAX || (forall|k: int|
            0 <= k < partitions@.len() && is_other(#[trigger] partitions@[k], partition.number->0)
                ==> !(partition.offset->0 + bytes < partitions@[k].offset->0
                + partitions@[k].size->0 <= partition.offset->0 + 1 + partition.size->0)),
{
    let number = match partition.number {
        Some(number) => number,
        None => {
            return None;
        },
    };
    let offset = match partition.offset {
        Some(offset) => offset,
        None => {
            return None;
        },
    };
    let size = match partition.size {
        Some(size) => size,
        None => {
            return None;
        },
    };
    let first: u128 = offset as u128 + 1;
    let maximum: u128 = first + size as u128;
    let mut minimum: u128 = first;
    let mut k: usize = 0;
    while k < partitions.len()
        invariant
            k <= partitions.len(),
            partition.number == Some(number),
            partition.offset == Some(offset),
            partition.size == Some(size),
            first == offset + 1,
            maximum == first + size,
            first <= minimum <= maximum,
            forall|j: int|
                0 <= j < k && is_other(#[trigger] partitions@[j], number) ==> !(minimum
                    < partitions@[j].offset->0 + partitions@[j].size->0 <= maximum),
            shrink_limit(partitions@, k as int, number, first as int, maximum as int) == Some(
                minimum as int,
            ),
        decreases partitions.len() - k,
    {
        let other = &partitions[k];
        let same = match other.number {
            Some(n) => n == number,
            None => false,
        };
        if !same {
            let begin = match other.offset {
                Some(begin) => begin,
                None => {
                    assert(shrink_limit(
                        partitions@,
                        partitions@.len() as int,
                        number,
                        first as int,
                        maximum as int,
                    ) is None) by {
                        lemma_shrink_limit_fails(
                            partitions@,
                            k + 1,
                            partitions@.len() as int,
                            number,
                            first as int,
                            maximum as int,
                        );
                    }
                    return None;
                },
            };
            let length = match other.size {
                Some(length) => length,
                None => {
                    assert(shrink_limit(
                        partitions@,
                        partitions@.len() as int,
                        number,
                        first as int,
                        maximum as int,
                    ) is None) by {
                        lemma_shrink_limit_fails(
                            partitions@,
                            k + 1,
                            partitions@.len() as int,
                            number,
                            first as int,
                            maximum as int,
                        );
                    }
                    return None;
                },
            };
            let end: u128 = begin as u128 + length as u128;
            if end > minimum && end <= maximum {
                minimum = end;
            }
        }
        k += 1;
    }
    if minimum - offset as u128 > u64::MAX as u128 {
        Some(u64::MAX)
    } else {
        Some((minimum - offset as u128) as u64)
    }
}

/// Once a partition has failed to say where it lies, looking at more of them
/// does not help.
proof fn lemma_shrink_limit_fails(
    partitions: Seq<PartitionInfo>,
    failed: int,
    count: int,
    number: u32,
    first: int,
    last: int,
)
    requires
        failed <= count,
        shrink_limit(partitions, failed, number, first, last) is None,
    ensures
        shrink_limit(partitions, count, number, first, last) is None,
    decreases count - failed,
{
    if failed < count {
        lemma_shrink_limit_fails(partitions, failed, count - 1, number, first, last);
    }
}

} // verus!
