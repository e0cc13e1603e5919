use gdu_core::copy::{CopyAction, CopyError, CopyEvent, CopySession, BUFFER_SIZE};
use gdu_core::duration::{
    duration_parts, USEC_PER_DAY, USEC_PER_HOUR, USEC_PER_MINUTE, USEC_PER_MONTH, USEC_PER_MSEC,
    USEC_PER_SEC, USEC_PER_YEAR,
};
use gdu_core::estimator::{Estimator, Sample};
use gdu_core::graph::{all_contained_objects, DeviceTree, Filesystem, LoopDevice, StorageObject};
use gdu_core::options::split_options;
use gdu_core::unuse::{classify, unuse_data_iterate, UnuseStep};

/// A small generator of numbers that look random and are the same each time.
struct Numbers(u64);

impl Numbers {
    fn next(&mut self) -> u64 {
        self.0 = self.0.wrapping_mul(6364136223846793005).wrapping_add(1442695040888963407);
        self.0 >> 33
    }

    fn below(&mut self, limit: u64) -> usize {
        (self.next() % limit) as usize
    }

    fn chance(&mut self, one_in: u64) -> bool {
        self.next() % one_in == 0
    }
}

fn some_tree(numbers: &mut Numbers) -> DeviceTree {
    let size = 1 + numbers.below(9);
    let mut objects = Vec::new();
    for _ in 0..size {
        let reference = |numbers: &mut Numbers| numbers.below(size as u64 + 2);
        objects.push(StorageObject {
            is_block: !numbers.chance(5),
            is_drive: numbers.chance(4),
            drive_block: if numbers.chance(2) { Some(reference(numbers)) } else { None },
            partition_table: if numbers.chance(3) {
                Some((0..numbers.below(5)).map(|_| reference(numbers)).collect())
            } else {
                None
            },
            cleartext: if numbers.chance(2) { Some(reference(numbers)) } else { None },
            filesystem: match numbers.below(4) {
                0 => Filesystem::Absent,
                1 => Filesystem::MountPoints(0),
                _ => Filesystem::MountPoints(numbers.below(3)),
            },
            is_encrypted: numbers.chance(2),
            loop_device: if numbers.chance(3) {
                Some(LoopDevice { object: reference(numbers), autoclear: numbers.chance(2) })
            } else {
                None
            },
        });
    }
    DeviceTree { objects }
}

fn cleartext_of(tree: &DeviceTree, id: usize) -> Option<usize> {
    let object = &tree.objects[id];
    match object.cleartext {
        Some(clear) if object.is_block && clear < tree.objects.len() => Some(clear),
        _ => None,
    }
}

#[test]
fn graphs_hold_each_object_once_and_are_closed() {
    let mut numbers = Numbers(7);
    for _ in 0..2000 {
        let tree = some_tree(&mut numbers);
        for root in 0..tree.objects.len() + 1 {
            let graph = all_contained_objects(&tree, root);
            for (place, id) in graph.iter().enumerate() {
                assert!(*id < tree.objects.len());
                assert!(!graph[..place].contains(id));
                if let Some(clear) = cleartext_of(&tree, *id) {
                    assert!(graph.contains(&clear));
                }
            }
            if let Some(first) = graph.first() {
                let start = &tree.objects[root];
                if start.is_drive {
                    assert_eq!(Some(*first), start.drive_block);
                } else {
                    assert!(start.is_block);
                    assert_eq!(*first, root);
                }
                let partitions = tree.objects[*first].partition_table.clone().unwrap_or_default();
                for (place, id) in graph.iter().enumerate().skip(1) {
                    let derived =
                        graph[..place].iter().any(|from| cleartext_of(&tree, *from) == Some(*id));
                    assert!(partitions.contains(id) || derived);
                }
            }
        }
    }
}

#[test]
fn shallow_and_deep_scans_name_the_same_user() {
    let mut numbers = Numbers(11);
    for _ in 0..2000 {
        let tree = some_tree(&mut numbers);
        for root in 0..tree.objects.len() {
            let graph = all_contained_objects(&tree, root);
            let shallow = classify(&tree, &graph, false).expect("nothing is unreadable");
            let deep = classify(&tree, &graph, true).expect("nothing is unreadable");
            assert_eq!((shallow.0, shallow.1), (deep.0, deep.1));
            assert!(shallow.0.is_none() || shallow.1.is_none());
            // a user that is the last in a deep scan is the last in a shallow one
            assert!(!deep.2 || shallow.2);
        }
    }
}

/// What the storage manager does when it is asked for `step`.
fn perform(tree: &mut DeviceTree, step: UnuseStep) {
    match step {
        UnuseStep::Done => {}
        UnuseStep::Unmount(id) => tree.objects[id].filesystem = Filesystem::MountPoints(0),
        UnuseStep::Lock(id) => tree.objects[id].cleartext = None,
        UnuseStep::DisableAutoclear(device) => {
            for object in tree.objects.iter_mut() {
                if let Some(loop_device) = &mut object.loop_device {
                    if loop_device.object == device {
                        loop_device.autoclear = false;
                    }
                }
            }
        }
    }
}

fn load(tree: &DeviceTree) -> usize {
    let size = tree.objects.len();
    tree.objects
        .iter()
        .map(|object| {
            let mounted = object.is_block
                && matches!(object.filesystem, Filesystem::MountPoints(n) if n > 0);
            let unlocked = object.is_block
                && object.is_encrypted
                && object.cleartext.is_some_and(|clear| clear < size);
            let autoclear = object.loop_device.is_some_and(|device| device.autoclear);
            mounted as usize + unlocked as usize + autoclear as usize
        })
        .sum()
}

#[test]
fn freeing_a_root_ends_within_the_load_of_the_tree() {
    let mut numbers = Numbers(13);
    for _ in 0..2000 {
        let mut tree = some_tree(&mut numbers);
        let root = numbers.below(tree.objects.len() as u64);
        let mut left = load(&tree);
        loop {
            let step = unuse_data_iterate(&tree, root).expect("nothing is unreadable");
            if step == UnuseStep::Done {
                break;
            }
            perform(&mut tree, step);
            let now = load(&tree);
            assert!(now < left);
            left = now;
        }
        assert_eq!(classify(&tree, &all_contained_objects(&tree, root), true), Ok((None, None, true)));
        assert_eq!(unuse_data_iterate(&tree, root), Ok(UnuseStep::Done));
    }
}

#[test]
fn whatever_happens_a_copy_cleans_up_once() {
    let mut numbers = Numbers(17);
    for _ in 0..3000 {
        let mut session: CopySession<u32> = CopySession::new();
        let mut asked = vec![session.pending()];
        let mut written: u64 = 0;
        for _ in 0..40 {
            let event = match numbers.below(9) {
                0 => CopyEvent::Opened { capacity: numbers.below(3) as u64 },
                1 => CopyEvent::OpenFailed(1),
                2 => CopyEvent::ReadDone(numbers.below(4) * (BUFFER_SIZE / 2)),
                3 => CopyEvent::ReadInterrupted,
                4 => CopyEvent::ReadFailed(2),
                5 => CopyEvent::WriteDone,
                6 => CopyEvent::WriteFailed(3),
                7 => CopyEvent::FormatDone { ok: numbers.chance(2) },
                _ => CopyEvent::RescanDone { ok: numbers.chance(2) },
            };
            let before = session.pending();
            let failed_before = session.outcome.is_err();
            let done = matches!(event, CopyEvent::WriteDone);
            if let Some(action) = session.handle(event) {
                if let (CopyAction::Write { length }, true) = (before, done) {
                    written += length as u64;
                }
                asked.push(action);
            } else {
                assert_eq!(session.pending(), before);
            }
            assert!(!failed_before || session.outcome.is_err());
            assert_eq!(session.bytes_completed, written);
        }
        let count = |wanted: CopyAction| asked.iter().filter(|action| **action == wanted).count();
        assert!(count(CopyAction::Rescan) <= 1);
        assert!(count(CopyAction::FormatEmpty) <= 1);
        assert!(count(CopyAction::Open) == 1);
        if session.is_finished() {
            assert_eq!(count(CopyAction::Finish), 1);
            match &session.outcome {
                Ok(()) => {
                    assert_eq!(count(CopyAction::Rescan), 1);
                    assert_eq!(count(CopyAction::FormatEmpty), 0);
                }
                Err(CopyError::Read(_)) | Err(CopyError::Write(_)) => {
                    assert_eq!(count(CopyAction::Rescan), 1);
                    assert_eq!(count(CopyAction::FormatEmpty), 1);
                }
                Err(CopyError::Open(_)) | Err(CopyError::EmptyDevice) => {
                    assert_eq!(count(CopyAction::Rescan), 0);
                    assert_eq!(count(CopyAction::FormatEmpty), 0);
                    assert_eq!(written, 0);
                }
            }
        }
    }
}

#[test]
fn joining_the_pieces_gives_the_line_back() {
    for line in ["", ",", "a", "a,b", ",a,,b,", "ro,noauto,x-gvfs-name=My Disk", ",,,"] {
        let chars: Vec<char> = line.chars().collect();
        let pieces = split_options(&chars);
        assert!(!pieces.is_empty());
        assert!(pieces.iter().all(|piece| !piece.contains(&',')));
        let parts: Vec<String> = pieces.iter().map(|piece| piece.iter().collect()).collect();
        assert_eq!(parts.join(","), line);
    }
}

#[test]
fn durations_split_into_units_that_add_up() {
    let mut numbers = Numbers(19);
    for round in 0..5000u64 {
        let usec = if round % 2 == 0 {
            numbers.next().wrapping_mul(numbers.next())
        } else {
            numbers.next() % (3 * USEC_PER_YEAR)
        };
        let parts = duration_parts(usec);
        assert!(parts.months < 12);
        assert!(parts.days <= 30);
        assert!(parts.hours < 24);
        assert!(parts.minutes < 60);
        assert!(parts.seconds < 60);
        assert!(parts.milliseconds < 1000);
        let total = parts.years as u128 * USEC_PER_YEAR as u128
            + parts.months as u128 * USEC_PER_MONTH as u128
            + parts.days as u128 * USEC_PER_DAY as u128
            + parts.hours as u128 * USEC_PER_HOUR as u128
            + parts.minutes as u128 * USEC_PER_MINUTE as u128
            + parts.seconds as u128 * USEC_PER_SEC as u128
            + parts.milliseconds as u128 * USEC_PER_MSEC as u128;
        assert!(total <= usec as u128);
        assert!((usec as u128) < total + USEC_PER_MSEC as u128);
    }
}

#[test]
fn a_steady_copy_is_measured_at_its_speed() {
    for speed in [1u64, 999, 1_000_000, 123_456_789] {
        let mut estimator = Estimator::new(u64::MAX);
        for k in 0..120u64 {
            estimator.record(Sample { time_usec: k * 200_000, value: k * (speed / 5) });
        }
        // each pair moves speed / 5 bytes in a fifth of a second
        assert_eq!(estimator.bytes_per_sec(), speed / 5 * 5);
        assert_eq!(estimator.sample_count(), 50);
    }
}
