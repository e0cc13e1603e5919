//! A snapshot of the storage manager's objects, and the containment graph of
//! one of them: everything that has to be free before the object can go.

use vstd::prelude::*;

verus! {

/// What an object says of its filesystem.
#[derive(Debug, Clone, Copy, PartialEq, Eq, Structural)]
pub enum Filesystem {
    /// The object holds no filesystem.
    Absent,
    /// The object holds a filesystem, mounted at this many places.
    MountPoints(usize),
    /// The object holds a filesystem whose mount points could not be read.
    Unreadable,
}

/// The loop device behind a block.
#[derive(Debug, Clone, Copy, PartialEq, Eq, Structural)]
pub struct LoopDevice {
    /// The object of the loop device itself.
    pub object: usize,
    /// Whether the loop device goes away by itself once nothing uses it.
    pub autoclear: bool,
}

/// One object of the storage manager, by what it answered when it was asked.
///
/// Other objects are named by their index in the [`DeviceTree`]. An index
/// past the end of the tree stands for a lookup that failed.
#[derive(Debug, Clone)]
pub struct StorageObject {
    /// The object is a block device.
    pub is_block: bool,
    /// The object is a drive.
    pub is_drive: bool,
    /// For a drive, the block device of the whole disk.
    pub drive_block: Option<usize>,
    /// The partitions of the object's partition table, in the manager's order.
    pub partition_table: Option<Vec<usize>>,
    /// The unlocked device whose encrypted data sits on this object.
    pub cleartext: Option<usize>,
    /// The object's filesystem.
    pub filesystem: Filesystem,
    /// The object is an encrypted device.
    pub is_encrypted: bool,
    /// The loop device that the object, or the disk it is a partition of, is.
    pub loop_device: Option<LoopDevice>,
}

/// The objects of the storage manager at one moment.
#[derive(Debug, Clone)]
pub struct DeviceTree {
    pub objects: Vec<StorageObject>,
}

impl DeviceTree {
    /// The number of objects in the tree.
    pub open spec fn size(&self) -> nat {
        self.objects@.len()
    }

    /// Whether `id` names an object of the tree.
    pub open spec fn has(&self, id: usize) -> bool {
        id < self.objects@.len()
    }

    /// The object that `id` names.
    pub open spec fn object(&self, id: usize) -> StorageObject
        recommends
            self.has(id),
    {
        self.objects@[id as int]
    }

    /// The partitions that the object `id` reports.
    pub open spec fn partitions(&self, id: usize) -> Seq<usize>
        recommends
            self.has(id),
    {
        match self.object(id).partition_table {
            Some(partitions) => partitions@,
            None => Seq::empty(),
        }
    }

    /// The unlocked device on top of the block device `id`, if the manager
    /// knows one.
    pub open spec fn cleartext_of(&self, id: usize) -> Option<usize>
        recommends
            self.has(id),
    {
        if self.object(id).is_block {
            match self.object(id).cleartext {
                Some(clear) => if self.has(clear) {
                    Some(clear)
                } else {
                    None
                },
                None => None,
            }
        } else {
            None
        }
    }

    /// The block device that `root` stands for: that of the whole disk for a
    /// drive, the object itself for a block device.
    pub open spec fn root_block(&self, root: usize) -> Option<usize> {
        if !self.has(root) {
            None
        } else if self.object(root).is_drive {
            match self.object(root).drive_block {
                Some(block) => if self.has(block) {
                    Some(block)
                } else {
                    None
                },
                None => None,
            }
        } else if self.object(root).is_block {
            Some(root)
        } else {
            None
        }
    }

    /// A list of objects of the tree in which none occurs twice.
    pub open spec fn distinct(&self, list: Seq<usize>) -> bool {
        &&& list.no_duplicates()
        &&& forall|k: int| 0 <= k < list.len() ==> self.has(#[trigger] list[k])
    }

    /// `list`, followed by those of `ids` that name an object and are not in
    /// the list yet, in their order.
    pub open spec fn with_missing(&self, list: Seq<usize>, ids: Seq<usize>) -> Seq<usize>
        decreases ids.len(),
    {
        if ids.len() == 0 {
            list
        } else {
            let before = self.with_missing(list, ids.drop_last());
            if self.has(ids.last()) && !before.contains(ids.last()) {
                before.push(ids.last())
            } else {
                before
            }
        }
    }

    /// `list` after the entries from position `from` on have each been asked
    /// for their unlocked device, new ones going to the end of the list and
    /// being asked in their turn.
    pub open spec fn expanded(&self, list: Seq<usize>, from: int) -> Seq<usize>
        decreases self.size() - list.len(), list.len() - from,
        when self.distinct(list) && 0 <= from
    {
        if from >= list.len() {
            list
        } else {
            match self.cleartext_of(list[from]) {
                Some(clear) => if list.contains(clear) {
                    self.expanded(list, from + 1)
                } else {
                    proof {
                        self.lemma_distinct_fits(list.push(clear));
                    }
                    self.expanded(list.push(clear), from + 1)
                },
                None => self.expanded(list, from + 1),
            }
        }
    }

    /// Everything contained in `root`: its block device, the partitions of
    /// that device, and whatever is unlocked on top of any of them.
    pub open spec fn contained(&self, root: usize) -> Seq<usize> {
        match self.root_block(root) {
            Some(block) => self.expanded(
                self.with_missing(seq![block], self.partitions(block)),
                0,
            ),
            None => Seq::empty(),
        }
    }

    /// A list of distinct objects is no longer than the tree.
    pub proof fn lemma_distinct_fits(&self, list: Seq<usize>)
        requires
            self.distinct(list),
        ensures
            list.len() <= self.size(),
    {
        let size: usize = self.objects.len();
        let all = Set::<usize>::range(0, size);
        vstd::set_lib::range_set_properties::<usize>(0, size);
        assert(list.to_set().subset_of(all)) by {
            assert forall|id: usize| list.to_set().contains(id) implies all.contains(id) by {
                let k = choose|k: int| 0 <= k < list.len() && list[k] == id;
                assert(self.has(list[k]));
            }
        }
        vstd::set_lib::lemma_len_subset(list.to_set(), all);
        list.unique_seq_to_set();
    }

    /// Adding the missing ones of `ids` keeps a list distinct, keeps what it
    /// held, and brings in every one of `ids` that names an object.
    pub proof fn lemma_with_missing(&self, list: Seq<usize>, ids: Seq<usize>)
        requires
            self.distinct(list),
        ensures
            self.distinct(self.with_missing(list, ids)),
            starts_with(self.with_missing(list, ids), list),
            forall|k: int|
                0 <= k < ids.len() && self.has(#[trigger] ids[k]) ==> self.with_missing(
                    list,
                    ids,
                ).contains(ids[k]),
            forall|id: usize| #[trigger]
                self.with_missing(list, ids).contains(id) ==> list.contains(id) || ids.contains(
                    id,
                ),
        decreases ids.len(),
    {
        if ids.len() > 0 {
            let front = ids.drop_last();
            let before = self.with_missing(list, front);
            let after = self.with_missing(list, ids);
            self.lemma_with_missing(list, front);
            assert forall|k: int| 0 <= k < ids.len() && self.has(#[trigger] ids[k]) implies after.contains(
                ids[k],
            ) by {
                if k < front.len() {
                    assert(front[k] == ids[k]);
                    let at = choose|at: int| 0 <= at < before.len() && before[at] == ids[k];
                    assert(after[at] == ids[k]);
                } else if before.contains(ids.last()) {
                } else {
                    assert(after[before.len() as int] == ids.last());
                }
            }
            assert forall|id: usize| #[trigger] after.contains(id) implies list.contains(id)
                || ids.contains(id) by {
                let at = choose|at: int| 0 <= at < after.len() && after[at] == id;
                if at < before.len() {
                    assert(before.contains(id));
                    if !list.contains(id) {
                        let k = choose|k: int| 0 <= k < front.len() && front[k] == id;
                        assert(ids[k] == id);
                    }
                } else {
                    assert(ids[ids.len() - 1] == id);
                }
            }
        }
    }

    /// Expanding a list keeps it distinct, keeps what it held, and leaves no
    /// entry from `from` on whose unlocked device is missing.
    pub proof fn lemma_expanded(&self, list: Seq<usize>, from: int)
        requires
            self.distinct(list),
            0 <= from <= list.len(),
        ensures
            self.distinct(self.expanded(list, from)),
            starts_with(self.expanded(list, from), list),
            forall|k: int|
                from <= k < self.expanded(list, from).len() ==> (#[trigger] self.cleartext_of(
                    self.expanded(list, from)[k],
                ) matches Some(clear) ==> self.expanded(list, from).contains(clear)),
        decreases self.size() - list.len(), list.len() - from,
    {
        if from < list.len() {
            let grown = match self.cleartext_of(list[from]) {
                Some(clear) => if list.contains(clear) {
                    list
                } else {
                    list.push(clear)
                },
                None => list,
            };
            assert(self.distinct(grown));
            self.lemma_distinct_fits(grown);
            self.lemma_expanded(grown, from + 1);
            let done = self.expanded(list, from);
            assert(done == self.expanded(grown, from + 1));
            assert(grown[from] == list[from]);
            assert(done[from] == grown[from]);
            if let Some(clear) = self.cleartext_of(list[from]) {
                if !list.contains(clear) {
                    assert(grown[list.len() as int] == clear);
                }
                let at = choose|at: int| 0 <= at < grown.len() && grown[at] == clear;
                assert(done[at] == grown[at]);
                assert(done.contains(clear));
            }
            assert forall|k: int| from <= k < done.len() implies (#[trigger] self.cleartext_of(
                done[k],
            ) matches Some(clear) ==> done.contains(clear)) by {
                if k == from {
                }
            }
        }
    }

    /// The graph of a root holds no object twice, starts with the root's block
    /// device, goes on with that device's partitions, and is closed: whatever
    /// is unlocked on top of one of its objects is in it too.
    pub proof fn lemma_contained(&self, root: usize)
        ensures
            self.distinct(self.contained(root)),
            self.root_block(root) is None <==> self.contained(root).len() == 0,
            self.root_block(root) matches Some(block) ==> self.contained(root)[0] == block,
            self.root_block(root) matches Some(block) ==> starts_with(
                self.contained(root),
                self.with_missing(seq![block], self.partitions(block)),
            ),
            forall|k: int|
                0 <= k < self.contained(root).len() ==> (#[trigger] self.cleartext_of(
                    self.contained(root)[k],
                ) matches Some(clear) ==> self.contained(root).contains(clear)),
    {
        if let Some(block) = self.root_block(root) {
            let first = seq![block];
            assert(self.distinct(first));
            self.lemma_with_missing(first, self.partitions(block));
            self.lemma_expanded(self.with_missing(first, self.partitions(block)), 0);
        }
    }

    /// Whether entry `at` of `list` has a reason to be listed: it is the
    /// unlocked device on top of an entry before it.
    pub open spec fn derived(&self, list: Seq<usize>, at: int) -> bool {
        exists|j: int| 0 <= j < at && #[trigger] self.cleartext_of(list[j]) == Some(list[at])
    }

    /// Expanding a list adds nothing but unlocked devices on top of entries
    /// that stand before them.
    pub proof fn lemma_expanded_derived(&self, list: Seq<usize>, from: int)
        requires
            self.distinct(list),
            0 <= from <= list.len(),
        ensures
            forall|k: int|
                list.len() <= k < self.expanded(list, from).len() ==> self.derived(
                    self.expanded(list, from),
                    k,
                ),
        decreases self.size() - list.len(), list.len() - from,
    {
        if from < list.len() {
            let grown = match self.cleartext_of(list[from]) {
                Some(clear) => if list.contains(clear) {
                    list
                } else {
                    list.push(clear)
                },
                None => list,
            };
            assert(self.distinct(grown));
            self.lemma_distinct_fits(grown);
            self.lemma_expanded_derived(grown, from + 1);
            self.lemma_expanded(grown, from + 1);
            let done = self.expanded(list, from);
            assert(done == self.expanded(grown, from + 1));
            assert forall|k: int| list.len() <= k < done.len() implies self.derived(done, k) by {
                if k < grown.len() {
                    assert(done[k] == grown[k]);
                    assert(done[from] == grown[from]);
                    assert(self.cleartext_of(done[from]) == Some(done[k]));
                }
            }
        }
    }

    /// Nothing is in the graph of a root without a reason: each entry is the
    /// root's block device, or one of that device's partitions, or the
    /// unlocked device on top of an entry before it.
    pub proof fn lemma_contained_only(&self, root: usize)
        ensures
            forall|k: int|
                0 <= k < self.contained(root).len() ==> {
                    ||| Some(#[trigger] self.contained(root)[k]) == self.root_block(root)
                    ||| self.partitions(self.root_block(root)->0).contains(self.contained(root)[k])
                    ||| self.derived(self.contained(root), k)
                },
    {
        if let Some(block) = self.root_block(root) {
            let first = seq![block];
            let listed = self.with_missing(first, self.partitions(block));
            let graph = self.contained(root);
            assert(self.distinct(first));
            self.lemma_with_missing(first, self.partitions(block));
            self.lemma_expanded(listed, 0);
            self.lemma_expanded_derived(listed, 0);
            assert forall|k: int| 0 <= k < graph.len() implies {
                ||| Some(#[trigger] graph[k]) == self.root_block(root)
                ||| self.partitions(block).contains(graph[k])
                ||| self.derived(graph, k)
            } by {
                if k < listed.len() {
                    assert(graph[k] == listed[k]);
                    assert(listed.contains(listed[k]));
                    assert(first.contains(listed[k]) ==> listed[k] == block);
                }
            }
        }
    }

    /// A disk with partitions, one of which is encrypted and unlocked, and
    /// nothing else unlocked: the graph is the disk, then the partitions in
    /// their order, then the unlocked device.
    pub proof fn lemma_one_unlocked_partition(
        &self,
        root: usize,
        block: usize,
        partitions: Seq<usize>,
        encrypted: int,
        clear: usize,
    )
        requires
            self.root_block(root) == Some(block),
            self.partitions(block) == partitions,
            self.distinct(seq![block] + partitions + seq![clear]),
            0 <= encrypted < partitions.len(),
            self.cleartext_of(partitions[encrypted]) == Some(clear),
            forall|k: int|
                0 <= k < partitions.len() && k != encrypted ==> self.cleartext_of(
                    #[trigger] partitions[k],
                ) is None,
            self.cleartext_of(block) is None,
            self.cleartext_of(clear) is None,
        ensures
            self.contained(root) == seq![block] + partitions + seq![clear],
            self.contained(root).len() == 1 + partitions.len() + 1,
            self.contained(root).no_duplicates(),
    {
        let whole = seq![block] + partitions + seq![clear];
        let disk = seq![block] + partitions;
        assert(disk == whole.drop_last());
        assert(whole == disk.push(clear));
        assert(self.distinct(disk)) by {
            assert forall|i: int, j: int| 0 <= i < disk.len() && 0 <= j < disk.len() && i != j implies disk[i]
                != disk[j] by {
                assert(whole[i] == disk[i] && whole[j] == disk[j]);
            }
            assert forall|k: int| 0 <= k < disk.len() implies self.has(#[trigger] disk[k]) by {
                assert(whole[k] == disk[k]);
            }
        }
        self.lemma_with_all_missing(seq![block], partitions);
        assert(!disk.contains(clear)) by {
            if disk.contains(clear) {
                let at = choose|at: int| 0 <= at < disk.len() && disk[at] == clear;
                assert(whole[at] == clear && whole[disk.len() as int] == clear);
            }
        }
        assert forall|k: int| 0 <= k < whole.len() && k != encrypted + 1 implies self.cleartext_of(
            #[trigger] whole[k],
        ) is None by {
            if 0 < k < disk.len() {
                assert(whole[k] == partitions[k - 1]);
            }
        }
        assert(whole[encrypted + 1] == partitions[encrypted]);
        self.lemma_expanded_settled(whole, encrypted + 2);
        assert(self.expanded(disk, encrypted + 1) == self.expanded(whole, encrypted + 2)) by {
            assert(disk[encrypted + 1] == partitions[encrypted]);
        }
        self.lemma_expanded_skips(disk, 0, encrypted + 1);
    }

    /// Where every one of `ids` names an object and `list` followed by `ids`
    /// is distinct, all of `ids` are added.
    proof fn lemma_with_all_missing(&self, list: Seq<usize>, ids: Seq<usize>)
        requires
            self.distinct(list + ids),
        ensures
            self.with_missing(list, ids) == list + ids,
        decreases ids.len(),
    {
        let both = list + ids;
        if ids.len() == 0 {
            assert(both == list);
        } else {
            let front = ids.drop_last();
            assert(list + front == both.drop_last());
            assert(self.distinct(list + front)) by {
                let shorter = list + front;
                assert forall|k: int| 0 <= k < shorter.len() implies self.has(
                    #[trigger] shorter[k],
                ) by {
                    assert(both[k] == shorter[k]);
                }
            }
            self.lemma_with_all_missing(list, front);
            assert(both.last() == ids.last());
            assert(self.has(both[both.len() - 1]));
            assert(!(list + front).contains(ids.last())) by {
                if (list + front).contains(ids.last()) {
                    let at = choose|at: int|
                        0 <= at < (list + front).len() && (list + front)[at] == ids.last();
                    assert(both[at] == both[both.len() - 1]);
                }
            }
            assert(both == (list + front).push(ids.last()));
        }
    }

    /// Entries without an unlocked device leave the list as it is.
    proof fn lemma_expanded_skips(&self, list: Seq<usize>, from: int, to: int)
        requires
            self.distinct(list),
            0 <= from <= to <= list.len(),
            forall|k: int| from <= k < to ==> self.cleartext_of(#[trigger] list[k]) is None,
        ensures
            self.expanded(list, from) == self.expanded(list, to),
        decreases to - from,
    {
        if from < to {
            self.lemma_expanded_skips(list, from + 1, to);
        }
    }

    /// A list whose remaining entries have no unlocked device is final.
    proof fn lemma_expanded_settled(&self, list: Seq<usize>, from: int)
        requires
            self.distinct(list),
            0 <= from <= list.len(),
            forall|k: int| from <= k < list.len() ==> self.cleartext_of(#[trigger] list[k]) is None,
        ensures
            self.expanded(list, from) == list,
    {
        self.lemma_expanded_skips(list, from, list.len() as int);
    }
}

/// Whether `longer` begins with the entries of `list`.
pub open spec fn starts_with(longer: Seq<usize>, list: Seq<usize>) -> bool {
    &&& list.len() <= longer.len()
    &&& forall|k: int| 0 <= k < list.len() ==> longer[k] == list[k]
}

/// Whether `list` holds `id`.
pub fn holds(list: &Vec<usize>, id: usize) -> (found: bool)
    ensures
        found == list@.contains(id),
{
    let mut k: usize = 0;
    while k < list.len()
        invariant
            k <= list.len(),
            forall|j: int| 0 <= j < k ==> list@[j] != id,
        decreases list.len() - k,
    {
        if list[k] == id {
            return true;
        }
        k += 1;
    }
    false
}

/// Everything contained in or derived from `root`, in the order in which it
/// is found: the block device that `root` stands for, the partitions of that
/// device, then each unlocked device on top of an object already listed.
///
/// A reference that names no object of the tree is passed over. No object is
/// listed twice.
pub fn all_contained_objects(tree: &DeviceTree, root: usize) -> (graph: Vec<usize>)
    ensures
        graph@ == tree.contained(root),
        tree.distinct(graph@),
        tree.root_block(root) is None <==> graph@.len() == 0,
        tree.root_block(root) matches Some(block) ==> graph@[0] == block,
        forall|k: int|
            0 <= k < graph@.len() ==> (#[trigger] tree.cleartext_of(graph@[k]) matches Some(
                clear,
            ) ==> graph@.contains(clear)),
{
    let mut graph: Vec<usize> = Vec::new();
    proof {
        tree.lemma_contained(root);
    }
    if root >= tree.objects.len() {
        return graph;
    }
    let start = &tree.objects[root];
    let block: usize = if start.is_drive {
        match start.drive_block {
            Some(block) => {
                if block >= tree.objects.len() {
                    return graph;
                }
                block
            },
            None => {
                return graph;
            },
        }
    } else if start.is_block {
        root
    } else {
        return graph;
    };
    assert(tree.root_block(root) == Some(block));
    graph.push(block);
    assert(graph@ == seq![block]);
    assert(tree.distinct(graph@));
    match &tree.objects[block].partition_table {
        Some(partitions) => {
            let mut k: usize = 0;
            assert(partitions@.take(0) == Seq::<usize>::empty());
            while k < partitions.len()
                invariant
                    k <= partitions.len(),
                    graph@ == tree.with_missing(seq![block], partitions@.take(k as int)),
                    tree.distinct(seq![block]),
                decreases partitions.len() - k,
            {
                let id = partitions[k];
                assert(partitions@.take(k + 1).drop_last() == partitions@.take(k as int));
                assert(partitions@.take(k + 1).last() == id);
                if id < tree.objects.len() && !holds(&graph, id) {
                    graph.push(id);
                }
                k += 1;
            }
            assert(partitions@.take(k as int) == partitions@);
        },
        None => {},
    }
    let ghost listed = graph@;
    assert(listed == tree.with_missing(seq![block], tree.partitions(block)));
    proof {
        tree.lemma_with_missing(seq![block], tree.partitions(block));
    }
    let mut from: usize = 0;
    while from < graph.len()
        invariant
            from <= graph.len(),
            tree.distinct(graph@),
            tree.expanded(graph@, from as int) == tree.expanded(listed, 0),
        decreases tree.size() - graph.len(), graph.len() - from,
    {
        let id = graph[from];
        let object = &tree.objects[id];
        if object.is_block {
            match object.cleartext {
                Some(clear) => {
                    if clear < tree.objects.len() && !holds(&graph, clear) {
                        proof {
                            tree.lemma_distinct_fits(graph@.push(clear));
                        }
                        graph.push(clear);
                    }
                },
                None => {},
            }
        }
        from += 1;
    }
    graph
}

} // verus!
