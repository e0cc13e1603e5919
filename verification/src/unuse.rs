//! What keeps a device busy, and the order in which to release it: mounted
//! filesystems are unmounted and unlocked devices are locked from the
//! innermost layer outwards, one manager call at a time.

use vstd::prelude::*;
use crate::graph::{all_contained_objects, DeviceTree, Filesystem, LoopDevice, StorageObject};

verus! {

/// A filesystem whose mount points could not be read.
#[derive(Debug, Clone, Copy, PartialEq, Eq, Structural)]
pub struct QueryFailed {
    /// The object that holds the filesystem.
    pub object: usize,
}

/// The next thing to do to free a device.
#[derive(Debug, Clone, Copy, PartialEq, Eq, Structural)]
pub enum UnuseStep {
    /// Nothing is mounted or unlocked any more.
    Done,
    /// Switch off autoclear on this loop device, so that it outlives the
    /// release of its last user.
    DisableAutoclear(usize),
    /// Unmount the filesystem of this object.
    Unmount(usize),
    /// Lock this encrypted device.
    Lock(usize),
}

/// The part of the release in which something went wrong.
#[derive(Debug, Clone, Copy, PartialEq, Eq, Structural)]
pub enum UnuseStage {
    FindFilesystem,
    DisableAutoclear,
    Unmount,
    Lock,
}

impl DeviceTree {
    /// The object is a block device with a filesystem mounted somewhere.
    pub open spec fn mounted(&self, id: usize) -> bool {
        &&& self.has(id)
        &&& self.object(id).is_block
        &&& self.object(id).filesystem matches Filesystem::MountPoints(n)
        &&& n > 0
    }

    /// The object is a block device whose filesystem did not say where it is
    /// mounted.
    pub open spec fn unreadable(&self, id: usize) -> bool {
        &&& self.has(id)
        &&& self.object(id).is_block
        &&& self.object(id).filesystem == Filesystem::Unreadable
    }

    /// The object is an encrypted block device that is unlocked.
    pub open spec fn lockable(&self, id: usize) -> bool {
        &&& self.has(id)
        &&& self.object(id).is_encrypted
        &&& self.cleartext_of(id) is Some
    }

    /// The object is mounted or unlocked.
    pub open spec fn busy(&self, id: usize) -> bool {
        self.mounted(id) || self.lockable(id)
    }

    /// The scan of the first `remaining` entries of `graph`, from the last of
    /// them down, when `filesystem` and `encrypted` have been found further
    /// up. The result holds the filesystem to unmount, the device to lock,
    /// and whether what was found is the only user.
    pub open spec fn scanned(
        &self,
        graph: Seq<usize>,
        remaining: int,
        filesystem: Option<usize>,
        encrypted: Option<usize>,
        deep: bool,
    ) -> Result<(Option<usize>, Option<usize>, bool), QueryFailed>
        decreases remaining,
    {
        if remaining <= 0 {
            Ok((filesystem, encrypted, true))
        } else {
            let id = graph[remaining - 1];
            let found = filesystem is Some || encrypted is Some;
            if self.unreadable(id) {
                Err(QueryFailed { object: id })
            } else if self.busy(id) && found {
                Ok((filesystem, encrypted, false))
            } else if self.mounted(id) && self.lockable(id) {
                Ok((Some(id), encrypted, false))
            } else if self.mounted(id) {
                if deep {
                    self.scanned(graph, remaining - 1, Some(id), encrypted, deep)
                } else {
                    Ok((Some(id), encrypted, true))
                }
            } else if self.lockable(id) {
                if deep {
                    self.scanned(graph, remaining - 1, filesystem, Some(id), deep)
                } else {
                    Ok((filesystem, Some(id), true))
                }
            } else {
                self.scanned(graph, remaining - 1, filesystem, encrypted, deep)
            }
        }
    }

    /// What keeps the objects of `graph` busy: the innermost mounted
    /// filesystem or unlocked device, and whether it is the only one.
    pub open spec fn classified(&self, graph: Seq<usize>, deep: bool) -> Result<
        (Option<usize>, Option<usize>, bool),
        QueryFailed,
    > {
        self.scanned(graph, graph.len() as int, None, None, deep)
    }

    /// What keeps `root` busy.
    pub open spec fn in_full_use(&self, root: usize, deep: bool) -> Result<
        (Option<usize>, Option<usize>, bool),
        QueryFailed,
    > {
        self.classified(self.contained(root), deep)
    }

    /// The loop device whose autoclear flag stands in the way of releasing
    /// `root`: the one behind `root`, if `root` is a block device and the flag
    /// is set.
    pub open spec fn autoclear_loop(&self, root: usize) -> Option<usize> {
        if self.has(root) && self.object(root).is_block {
            match self.object(root).loop_device {
                Some(device) => if device.autoclear {
                    Some(device.object)
                } else {
                    None
                },
                None => None,
            }
        } else {
            None
        }
    }

    /// The next step in freeing `root`.
    pub open spec fn next_step(&self, root: usize) -> Result<UnuseStep, QueryFailed> {
        match self.in_full_use(root, false) {
            Err(failure) => Err(failure),
            Ok((filesystem, encrypted, _)) => {
                if filesystem is None && encrypted is None {
                    Ok(UnuseStep::Done)
                } else {
                    match self.autoclear_loop(root) {
                        Some(device) => match self.in_full_use(device, true) {
                            Err(failure) => Err(failure),
                            Ok((_, _, last)) => if last {
                                Ok(UnuseStep::DisableAutoclear(device))
                            } else {
                                Ok(release(filesystem, encrypted))
                            },
                        },
                        None => Ok(release(filesystem, encrypted)),
                    }
                }
            },
        }
    }

    /// Nothing in the graph of `root` is mounted, unlocked or unreadable.
    pub open spec fn unused(&self, root: usize) -> bool {
        forall|k: int|
            0 <= k < self.contained(root).len() ==> !self.busy(#[trigger] self.contained(root)[k])
                && !self.unreadable(self.contained(root)[k])
    }

    /// A scan that has found nothing yet and meets nothing busy or unreadable
    /// finds nothing.
    pub proof fn lemma_scan_of_idle(&self, graph: Seq<usize>, remaining: int, deep: bool)
        requires
            remaining <= graph.len(),
            forall|k: int|
                0 <= k < remaining ==> !self.busy(#[trigger] graph[k]) && !self.unreadable(
                    graph[k],
                ),
        ensures
            self.scanned(graph, remaining, None, None, deep) == Ok::<_, QueryFailed>(
                (None::<usize>, None::<usize>, true),
            ),
        decreases remaining,
    {
        if remaining > 0 {
            self.lemma_scan_of_idle(graph, remaining - 1, deep);
        }
    }

    /// Once something has been found, a scan changes neither the filesystem
    /// nor the device that it found.
    pub proof fn lemma_scan_keeps_found(
        &self,
        graph: Seq<usize>,
        remaining: int,
        filesystem: Option<usize>,
        encrypted: Option<usize>,
        deep: bool,
    )
        requires
            remaining <= graph.len(),
            filesystem is Some || encrypted is Some,
        ensures
            self.scanned(graph, remaining, filesystem, encrypted, deep) matches Ok(found)
                ==> found.0 == filesystem && found.1 == encrypted,
        decreases remaining,
    {
        if remaining > 0 {
            self.lemma_scan_keeps_found(graph, remaining - 1, filesystem, encrypted, deep);
        }
    }

    /// The scan picks the innermost user. Where `innermost` is the last busy
    /// entry of the graph and nothing after it is unreadable, a scan that
    /// succeeds names that entry: as the filesystem to unmount if it is
    /// mounted, else as the device to lock.
    pub proof fn lemma_innermost_first(&self, graph: Seq<usize>, innermost: int, deep: bool)
        requires
            0 <= innermost < graph.len(),
            self.busy(graph[innermost]),
            !self.unreadable(graph[innermost]),
            forall|k: int|
                innermost < k < graph.len() ==> !self.busy(#[trigger] graph[k])
                    && !self.unreadable(graph[k]),
        ensures
            self.classified(graph, deep) matches Ok(found) ==> {
                &&& self.mounted(graph[innermost]) ==> found.0 == Some(graph[innermost])
                    && found.1 is None
                &&& !self.mounted(graph[innermost]) ==> found.0 is None && found.1 == Some(
                    graph[innermost],
                )
            },
            !deep ==> self.classified(graph, deep) is Ok,
            !deep ==> (self.classified(graph, deep)->Ok_0.2 <==> !(self.mounted(graph[innermost])
                && self.lockable(graph[innermost]))),
    {
        self.lemma_scan_skips_idle(graph, graph.len() as int, innermost + 1, deep);
        let id = graph[innermost];
        if self.mounted(id) && self.lockable(id) {
        } else if self.mounted(id) {
            self.lemma_scan_keeps_found(graph, innermost, Some(id), None, deep);
        } else {
            self.lemma_scan_keeps_found(graph, innermost, None, Some(id), deep);
        }
    }

    /// Whether a deep scan finds a single user. Where `innermost` is the last
    /// busy entry of the graph and no filesystem of the graph is unreadable,
    /// the deep scan succeeds, and says that the user it names is the last
    /// one exactly if that entry is not both mounted and unlocked and no
    /// entry before it is busy.
    pub proof fn lemma_deep_scan_counts(&self, graph: Seq<usize>, innermost: int)
        requires
            0 <= innermost < graph.len(),
            self.busy(graph[innermost]),
            forall|k: int| innermost < k < graph.len() ==> !self.busy(#[trigger] graph[k]),
            forall|k: int| 0 <= k < graph.len() ==> !self.unreadable(#[trigger] graph[k]),
        ensures
            self.classified(graph, true) matches Ok(found) && (found.2 <==> !(self.mounted(
                graph[innermost],
            ) && self.lockable(graph[innermost])) && forall|k: int|
                0 <= k < innermost ==> !self.busy(#[trigger] graph[k])),
    {
        self.lemma_scan_skips_idle(graph, graph.len() as int, innermost + 1, true);
        let id = graph[innermost];
        if self.mounted(id) && self.lockable(id) {
        } else if self.mounted(id) {
            self.lemma_scan_after_first(graph, innermost, Some(id), None);
        } else {
            self.lemma_scan_after_first(graph, innermost, None, Some(id));
        }
    }

    /// With two mounted filesystems in the graph, one on top of the other, and
    /// nothing busy or unreadable after the upper one, the upper one is
    /// unmounted first; a deep scan also says that it is not the last user.
    pub proof fn lemma_cleartext_before_parent(
        &self,
        graph: Seq<usize>,
        parent: int,
        clear: int,
        deep: bool,
    )
        requires
            0 <= parent < clear < graph.len(),
            self.mounted(graph[parent]),
            self.mounted(graph[clear]),
            forall|k: int|
                parent < k < graph.len() && k != clear ==> !self.busy(#[trigger] graph[k])
                    && !self.unreadable(graph[k]),
        ensures
            self.classified(graph, deep) matches Ok(found) && found.0 == Some(graph[clear])
                && found.1 is None,
            deep ==> self.classified(graph, deep)->Ok_0.2 == false,
    {
        self.lemma_scan_skips_idle(graph, graph.len() as int, clear + 1, deep);
        let upper = graph[clear];
        assert(!self.unreadable(upper));
        assert(!self.unreadable(graph[parent]));
        if deep && !self.lockable(upper) {
            self.lemma_scan_stops_at_second(graph, clear, parent, Some(upper), None);
        }
    }

    /// A root with nothing in use needs no step, whatever was done before.
    pub proof fn lemma_unused_is_done(&self, root: usize)
        requires
            self.unused(root),
        ensures
            self.in_full_use(root, false) == Ok::<_, QueryFailed>(
                (None::<usize>, None::<usize>, true),
            ),
            self.next_step(root) == Ok::<_, QueryFailed>(UnuseStep::Done),
    {
        let graph = self.contained(root);
        self.lemma_scan_of_idle(graph, graph.len() as int, false);
    }

    /// A step other than `Done` names something that the graph of `root`
    /// holds and that is in use, or the loop device behind `root`.
    pub proof fn lemma_step_names_user(&self, root: usize)
        ensures
            self.next_step(root) matches Ok(UnuseStep::Unmount(id)) ==> self.contained(
                root,
            ).contains(id) && self.mounted(id),
            self.next_step(root) matches Ok(UnuseStep::Lock(id)) ==> self.contained(root).contains(
                id,
            ) && self.lockable(id),
            self.next_step(root) matches Ok(UnuseStep::DisableAutoclear(id))
                ==> self.autoclear_loop(root) == Some(id) && !self.unused(root),
            self.next_step(root) matches Ok(UnuseStep::Done) ==> self.in_full_use(root, false)
                matches Ok(found) && found.0 is None && found.1 is None,
    {
        let graph = self.contained(root);
        self.lemma_scan_finds_user(graph, graph.len() as int, false);
        if self.unused(root) {
            self.lemma_unused_is_done(root);
        }
    }

    /// What the object `id` adds to the work of freeing everything: one for a
    /// mounted filesystem, one for an unlocked device on top of it, one for
    /// an autoclear flag that may have to go.
    pub open spec fn load_of(&self, id: usize) -> nat {
        (if self.mounted(id) {
            1nat
        } else {
            0nat
        }) + (if self.lockable(id) {
            1nat
        } else {
            0nat
        }) + (if self.autoclears(id) {
            1nat
        } else {
            0nat
        })
    }

    /// The object sits on a loop device that has the autoclear flag.
    pub open spec fn autoclears(&self, id: usize) -> bool {
        &&& self.has(id)
        &&& self.object(id).loop_device matches Some(device)
        &&& device.autoclear
    }

    /// The load of the first `count` objects together.
    pub open spec fn load_below(&self, count: nat) -> nat
        decreases count,
    {
        if count == 0 {
            0
        } else {
            self.load_below((count - 1) as nat) + self.load_of((count - 1) as usize)
        }
    }

    /// The work that is left in the whole tree: an upper bound on the manager
    /// calls that freeing any root can take.
    pub open spec fn load(&self) -> nat {
        self.load_below(self.size())
    }

    /// Whether `self` is the tree `before` after the storage manager has done
    /// what `step` asks for, and nothing else has happened: the filesystem is
    /// mounted nowhere, or the unlocked device is gone, or the loop device and
    /// all that sits on it have lost the autoclear flag.
    pub open spec fn follows(&self, before: &DeviceTree, step: UnuseStep) -> bool {
        &&& self.size() == before.size()
        &&& forall|id: usize|
            before.has(id) ==> #[trigger] self.object(id) == match step {
                UnuseStep::Done => before.object(id),
                UnuseStep::Unmount(target) => if id == target {
                    StorageObject { filesystem: Filesystem::MountPoints(0), ..before.object(id) }
                } else {
                    before.object(id)
                },
                UnuseStep::Lock(target) => if id == target {
                    StorageObject { cleartext: None, ..before.object(id) }
                } else {
                    before.object(id)
                },
                UnuseStep::DisableAutoclear(target) => match before.object(id).loop_device {
                    Some(device) => if device.object == target {
                        StorageObject {
                            loop_device: Some(LoopDevice { object: target, autoclear: false }),
                            ..before.object(id)
                        }
                    } else {
                        before.object(id)
                    },
                    None => before.object(id),
                },
            }
    }

    /// Each step that is asked for brings the end nearer: once the manager
    /// has done it, less work is left than before. Freeing a root therefore
    /// takes no more steps than the load of the tree it starts from.
    pub proof fn lemma_step_makes_progress(&self, before: &DeviceTree, root: usize)
        requires
            before.next_step(root) matches Ok(step) && step != UnuseStep::Done && self.follows(
                before,
                step,
            ),
        ensures
            self.load() < before.load(),
    {
        let step = before.next_step(root)->Ok_0;
        before.lemma_step_names_user(root);
        let changed: usize = match step {
            UnuseStep::Unmount(id) => id,
            UnuseStep::Lock(id) => id,
            _ => root,
        };
        assert(before.has(changed));
        assert(self.object(changed) == self.object(changed));
        assert forall|id: usize| before.has(id) implies #[trigger] self.load_of(id)
            <= before.load_of(id) by {
            assert(self.object(id) == self.object(id));
        }
        assert(self.load_of(changed) < before.load_of(changed));
        self.lemma_load_decreases(before, self.size(), changed);
    }

    /// Where no object has more load than before and one below `count` has
    /// less, the first `count` objects together have less.
    proof fn lemma_load_decreases(&self, before: &DeviceTree, count: nat, changed: usize)
        requires
            count <= self.size() == before.size(),
            forall|id: usize| before.has(id) ==> #[trigger] self.load_of(id) <= before.load_of(id),
        ensures
            self.load_below(count) <= before.load_below(count),
            changed < count && self.load_of(changed) < before.load_of(changed)
                ==> self.load_below(count) < before.load_below(count),
        decreases count,
    {
        if count > 0 {
            self.lemma_load_decreases(before, (count - 1) as nat, changed);
            assert(before.has((count - 1) as usize));
        }
    }

    /// Idle entries at the end of a scan are passed over.
    proof fn lemma_scan_skips_idle(&self, graph: Seq<usize>, remaining: int, to: int, deep: bool)
        requires
            0 <= to <= remaining <= graph.len(),
            forall|k: int|
                to <= k < remaining ==> !self.busy(#[trigger] graph[k]) && !self.unreadable(
                    graph[k],
                ),
        ensures
            self.scanned(graph, remaining, None, None, deep) == self.scanned(
                graph,
                to,
                None,
                None,
                deep,
            ),
        decreases remaining - to,
    {
        if to < remaining {
            self.lemma_scan_skips_idle(graph, remaining - 1, to, deep);
        }
    }

    /// A deep scan that has found one user stops at the next busy entry and
    /// says that the first was not the last.
    proof fn lemma_scan_stops_at_second(
        &self,
        graph: Seq<usize>,
        remaining: int,
        second: int,
        filesystem: Option<usize>,
        encrypted: Option<usize>,
    )
        requires
            0 <= second < remaining <= graph.len(),
            filesystem is Some || encrypted is Some,
            self.busy(graph[second]),
            !self.unreadable(graph[second]),
            forall|k: int|
                second < k < remaining ==> !self.busy(#[trigger] graph[k]) && !self.unreadable(
                    graph[k],
                ),
        ensures
            self.scanned(graph, remaining, filesystem, encrypted, true) == Ok::<_, QueryFailed>(
                (filesystem, encrypted, false),
            ),
        decreases remaining - second,
    {
        if second + 1 < remaining {
            self.lemma_scan_stops_at_second(graph, remaining - 1, second, filesystem, encrypted);
        }
    }

    /// A deep scan that has found one user and meets no unreadable
    /// filesystem says that the user was the last exactly if it meets no
    /// other.
    proof fn lemma_scan_after_first(
        &self,
        graph: Seq<usize>,
        remaining: int,
        filesystem: Option<usize>,
        encrypted: Option<usize>,
    )
        requires
            0 <= remaining <= graph.len(),
            filesystem is Some || encrypted is Some,
            forall|k: int| 0 <= k < remaining ==> !self.unreadable(#[trigger] graph[k]),
        ensures
            self.scanned(graph, remaining, filesystem, encrypted, true) == Ok::<_, QueryFailed>(
                (
                    filesystem,
                    encrypted,
                    forall|k: int| 0 <= k < remaining ==> !self.busy(#[trigger] graph[k]),
                ),
            ),
        decreases remaining,
    {
        if remaining > 0 {
            self.lemma_scan_after_first(graph, remaining - 1, filesystem, encrypted);
            if self.busy(graph[remaining - 1]) {
            } else {
                assert((forall|k: int| 0 <= k < remaining ==> !self.busy(#[trigger] graph[k]))
                    == (forall|k: int|
                    0 <= k < remaining - 1 ==> !self.busy(#[trigger] graph[k])));
            }
        }
    }

    /// What a scan from nothing finds is an entry of the graph that is in
    /// use, and it never finds both a filesystem and a device.
    proof fn lemma_scan_finds_user(&self, graph: Seq<usize>, remaining: int, deep: bool)
        requires
            remaining <= graph.len(),
        ensures
            self.scanned(graph, remaining, None, None, deep) matches Ok(found) ==> {
                &&& found.0 is None || found.1 is None
                &&& found.0 matches Some(id) ==> graph.contains(id) && self.mounted(id)
                &&& found.1 matches Some(id) ==> graph.contains(id) && self.lockable(id)
            },
        decreases remaining,
    {
        if remaining > 0 {
            let id = graph[remaining - 1];
            self.lemma_scan_finds_user(graph, remaining - 1, deep);
            self.lemma_scan_keeps_found(graph, remaining - 1, Some(id), None, deep);
            self.lemma_scan_keeps_found(graph, remaining - 1, None, Some(id), deep);
        }
    }
}

/// What to release when `filesystem` or `encrypted` has been found: a mounted
/// filesystem goes before an unlocked device.
pub open spec fn release(filesystem: Option<usize>, encrypted: Option<usize>) -> UnuseStep {
    match filesystem {
        Some(id) => UnuseStep::Unmount(id),
        None => match encrypted {
            Some(id) => UnuseStep::Lock(id),
            None => UnuseStep::Done,
        },
    }
}

/// Scans `graph` from its last entry to its first for what keeps it busy.
///
/// The first mounted filesystem or unlocked encrypted device met is the one
/// to release. The flag is false where a second user is met after it. A
/// shallow scan (`deep` false) looks no further than the object of the first
/// user. An entry that names no block device is passed over. A filesystem
/// that cannot say where it is mounted ends the scan with a failure.
#[verifier::loop_isolation(false)]
pub fn classify(tree: &DeviceTree, graph: &Vec<usize>, deep: bool) -> (found: Result<
    (Option<usize>, Option<usize>, bool),
    QueryFailed,
>)
    ensures
        found == tree.classified(graph@, deep),
        found matches Ok(user) ==> {
            &&& user.0 is None || user.1 is None
            &&& user.0 matches Some(id) ==> graph@.contains(id) && tree.mounted(id)
            &&& user.1 matches Some(id) ==> graph@.contains(id) && tree.lockable(id)
        },
{
    proof {
        tree.lemma_scan_finds_user(graph@, graph@.len() as int, deep);
    }
    let mut filesystem: Option<usize> = None;
    let mut encrypted: Option<usize> = None;
    let mut remaining: usize = graph.len();
    while remaining > 0
        invariant
            remaining <= graph.len(),
            !deep ==> filesystem is None && encrypted is None,
            tree.scanned(graph@, remaining as int, filesystem, encrypted, deep) == tree.classified(
                graph@,
                deep,
            ),
        decreases remaining,
    {
        let id = graph[remaining - 1];
        remaining -= 1;
        if id >= tree.objects.len() {
            continue;
        }
        let object = &tree.objects[id];
        if !object.is_block {
            continue;
        }
        let found = filesystem.is_some() || encrypted.is_some();
        match object.filesystem {
            Filesystem::Unreadable => {
                return Err(QueryFailed { object: id });
            },
            Filesystem::MountPoints(n) => {
                if n > 0 {
                    if found {
                        return Ok((filesystem, encrypted, false));
                    }
                    filesystem = Some(id);
                }
            },
            Filesystem::Absent => {},
        }
        let unlocked = match object.cleartext {
            Some(clear) => clear < tree.objects.len(),
            None => false,
        };
        if object.is_encrypted && unlocked {
            if filesystem.is_some() || encrypted.is_some() {
                return Ok((filesystem, encrypted, false));
            }
            encrypted = Some(id);
        }
        if (filesystem.is_some() || encrypted.is_some()) && !deep {
            return Ok((filesystem, encrypted, true));
        }
    }
    Ok((filesystem, encrypted, true))
}

/// What keeps `root` busy: the innermost mounted filesystem of its graph, or
/// else the innermost unlocked encrypted device, and whether that is the last
/// user. With `last_out` false the scan ends at the first user.
pub fn is_in_full_use(tree: &DeviceTree, root: usize, last_out: bool) -> (found: Result<
    (Option<usize>, Option<usize>, bool),
    QueryFailed,
>)
    ensures
        found == tree.in_full_use(root, last_out),
        found matches Ok(user) ==> {
            &&& user.0 is None || user.1 is None
            &&& user.0 matches Some(id) ==> tree.contained(root).contains(id) && tree.mounted(id)
            &&& user.1 matches Some(id) ==> tree.contained(root).contains(id) && tree.lockable(
                id,
            )
        },
        tree.unused(root) ==> found == Ok::<_, QueryFailed>((None::<usize>, None::<usize>, true)),
{
    proof {
        if tree.unused(root) {
            tree.lemma_unused_is_done(root);
            tree.lemma_scan_of_idle(
                tree.contained(root),
                tree.contained(root).len() as int,
                last_out,
            );
        }
    }
    let graph = all_contained_objects(tree, root);
    classify(tree, &graph, last_out)
}

/// Whether the use of `root` could be determined.
pub fn is_in_use(tree: &DeviceTree, root: usize) -> (known: bool)
    ensures
        known == tree.in_full_use(root, false) is Ok,
{
    is_in_full_use(tree, root, false).is_ok()
}

/// One turn of freeing `root`: the manager call to make next, by the tree as
/// it stands. The caller makes the call, reads the tree again, and asks again
/// until the answer is [`UnuseStep::Done`].
///
/// A mounted filesystem is unmounted before an unlocked device is locked, the
/// innermost first. Where `root` sits on a loop device with autoclear set and
/// the user found is the last one of that loop device, autoclear goes first:
/// the device would be gone as soon as its last user is.
pub fn unuse_data_iterate(tree: &DeviceTree, root: usize) -> (step: Result<UnuseStep, QueryFailed>)
    ensures
        step == tree.next_step(root),
        tree.unused(root) ==> step == Ok::<_, QueryFailed>(UnuseStep::Done),
        step matches Ok(UnuseStep::Unmount(id)) ==> tree.contained(root).contains(id)
            && tree.mounted(id),
        step matches Ok(UnuseStep::Lock(id)) ==> tree.contained(root).contains(id)
            && tree.lockable(id),
{
    proof {
        tree.lemma_step_names_user(root);
        if tree.unused(root) {
            tree.lemma_unused_is_done(root);
        }
    }
    let (filesystem, encrypted) = match is_in_full_use(tree, root, false) {
        Err(failure) => {
            return Err(failure);
        },
        Ok((filesystem, encrypted, _)) => (filesystem, encrypted),
    };
    if filesystem.is_none() && encrypted.is_none() {
        return Ok(UnuseStep::Done);
    }
    if root < tree.objects.len() && tree.objects[root].is_block {
        match tree.objects[root].loop_device {
            Some(device) => {
                if device.autoclear {
                    match is_in_full_use(tree, device.object, true) {
                        Err(failure) => {
                            return Err(failure);
                        },
                        Ok((_, _, last)) => {
                            if last {
                                return Ok(UnuseStep::DisableAutoclear(device.object));
                            }
                        },
                    }
                }
            },
            None => {},
        }
    }
    match filesystem {
        Some(id) => Ok(UnuseStep::Unmount(id)),
        None => match encrypted {
            Some(id) => Ok(UnuseStep::Lock(id)),
            None => Ok(UnuseStep::Done),
        },
    }
}

/// The first of `roots` that is not free yet, as its place in `roots` and the
/// step it needs, or `None` when all are free. A failure carries the place of
/// the root whose use could not be determined.
pub fn ensure_unused_list(tree: &DeviceTree, roots: &Vec<usize>) -> (pending: Result<
    Option<(usize, UnuseStep)>,
    (usize, QueryFailed),
>)
    ensures
        match pending {
            Ok(None) => forall|k: int|
                0 <= k < roots@.len() ==> tree.next_step(#[trigger] roots@[k]) == Ok::<
                    _,
                    QueryFailed,
                >(UnuseStep::Done),
            Ok(Some((at, step))) => {
                &&& at < roots@.len()
                &&& step != UnuseStep::Done
                &&& tree.next_step(roots@[at as int]) == Ok::<_, QueryFailed>(step)
                &&& forall|k: int|
                    0 <= k < at ==> tree.next_step(#[trigger] roots@[k]) == Ok::<_, QueryFailed>(
                        UnuseStep::Done,
                    )
            },
            Err((at, failure)) => {
                &&& at < roots@.len()
                &&& tree.next_step(roots@[at as int]) == Err::<UnuseStep, _>(failure)
                &&& forall|k: int|
                    0 <= k < at ==> tree.next_step(#[trigger] roots@[k]) == Ok::<_, QueryFailed>(
                        UnuseStep::Done,
                    )
            },
        },
{
    let mut at: usize = 0;
    while at < roots.len()
        invariant
            at <= roots.len(),
            forall|k: int|
                0 <= k < at ==> tree.next_step(#[trigger] roots@[k]) == Ok::<_, QueryFailed>(
                    UnuseStep::Done,
                ),
        decreases roots.len() - at,
    {
        match unuse_data_iterate(tree, roots[at]) {
            Err(failure) => {
                return Err((at, failure));
            },
            Ok(UnuseStep::Done) => {},
            Ok(step) => {
                return Ok(Some((at, step)));
            },
        }
        at += 1;
    }
    Ok(None)
}

/// The step that `root` needs, or `None` when it is free.
pub fn ensure_unused(tree: &DeviceTree, root: usize) -> (pending: Result<
    Option<UnuseStep>,
    QueryFailed,
>)
    ensures
        match pending {
            Ok(None) => tree.next_step(root) == Ok::<_, QueryFailed>(UnuseStep::Done),
            Ok(Some(step)) => step != UnuseStep::Done && tree.next_step(root) == Ok::<
                _,
                QueryFailed,
            >(step),
            Err(failure) => tree.next_step(root) == Err::<UnuseStep, _>(failure),
        },
{
    let mut roots: Vec<usize> = Vec::new();
    roots.push(root);
    assert(roots@[0] == root);
    match ensure_unused_list(tree, &roots) {
        Ok(None) => Ok(None),
        Ok(Some((_, step))) => Ok(Some(step)),
        Err((_, failure)) => Err(failure),
    }
}

impl UnuseStep {
    /// The part of the release that this step belongs to, for the message
    /// shown when the step fails. `Done` makes no call and has none.
    pub fn stage(self) -> (stage: Option<UnuseStage>)
        ensures
            stage == match self {
                UnuseStep::Done => None,
                UnuseStep::DisableAutoclear(_) => Some(UnuseStage::DisableAutoclear),
                UnuseStep::Unmount(_) => Some(UnuseStage::Unmount),
                UnuseStep::Lock(_) => Some(UnuseStage::Lock),
            },
    {
        match self {
            UnuseStep::Done => None,
            UnuseStep::DisableAutoclear(_) => Some(UnuseStage::DisableAutoclear),
            UnuseStep::Unmount(_) => Some(UnuseStage::Unmount),
            UnuseStep::Lock(_) => Some(UnuseStage::Lock),
        }
    }
}

impl UnuseStage {
    /// The message, untranslated, that goes with a failure in this stage.
    pub fn message(self) -> (text: &'static str)
        ensures
            text@ == match self {
                UnuseStage::FindFilesystem => "Failed to find filesystem"@,
                UnuseStage::DisableAutoclear => "Error disabling autoclear for loop device"@,
                UnuseStage::Unmount => "Error unmounting filesystem"@,
                UnuseStage::Lock => "Error locking device"@,
            },
    {
        match self {
            UnuseStage::FindFilesystem => "Failed to find filesystem",
            UnuseStage::DisableAutoclear => "Error disabling autoclear for loop device",
            UnuseStage::Unmount => "Error unmounting filesystem",
            UnuseStage::Lock => "Error locking device",
        }
    }
}

} // verus!
