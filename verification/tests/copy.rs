use gdu_core::copy::{
    CopyAction, CopyError, CopyEvent, CopyPhase, CopySession, ProgressMeter, BUFFER_SIZE,
    UPDATE_INTERVAL_USEC,
};
use gdu_core::estimator::Reading;

const MIB: usize = 1024 * 1024;

/// What a run of the machine against a source and a device in memory did.
struct Run {
    reads: Vec<usize>,
    written: Vec<u8>,
    formats: usize,
    rescans: usize,
    outcome: Result<(), CopyError<&'static str>>,
    bytes_completed: u64,
}

/// Drives a session: the source is `source`, the device takes what is
/// written, and the write for chunk `fail_write` (from 1) fails, as does the
/// read for chunk `fail_read`. Format and rescan fail where `cleanup_fails`.
fn drive(
    source: &[u8],
    capacity: u64,
    fail_read: Option<usize>,
    fail_write: Option<usize>,
    cleanup_fails: bool,
) -> Run {
    let mut session: CopySession<&'static str> = CopySession::new();
    let mut run = Run {
        reads: Vec::new(),
        written: Vec::new(),
        formats: 0,
        rescans: 0,
        outcome: Ok(()),
        bytes_completed: 0,
    };
    let mut buffer = vec![0u8; BUFFER_SIZE];
    let mut position = 0usize;
    let mut writes = 0usize;
    let mut action = session.pending();
    loop {
        let event = match action {
            CopyAction::Open => CopyEvent::Opened { capacity },
            CopyAction::Read { length } => {
                if fail_read == Some(run.reads.len() + 1) {
                    CopyEvent::ReadFailed("read failed")
                } else {
                    let n = length.min(source.len() - position);
                    buffer[..n].copy_from_slice(&source[position..position + n]);
                    position += n;
                    run.reads.push(n);
                    CopyEvent::ReadDone(n)
                }
            }
            CopyAction::Write { length } => {
                writes += 1;
                if fail_write == Some(writes) {
                    CopyEvent::WriteFailed("write failed")
                } else {
                    run.written.extend_from_slice(&buffer[..length]);
                    CopyEvent::WriteDone
                }
            }
            CopyAction::FormatEmpty => {
                run.formats += 1;
                CopyEvent::FormatDone { ok: !cleanup_fails }
            }
            CopyAction::Rescan => {
                run.rescans += 1;
                CopyEvent::RescanDone { ok: !cleanup_fails }
            }
            CopyAction::Finish => break,
        };
        action = session.handle(event).expect("the driver follows the session");
    }
    assert!(session.is_finished());
    run.bytes_completed = session.bytes_completed;
    run.outcome = session.into_result();
    run
}

fn pattern(length: usize) -> Vec<u8> {
    (0..length).map(|i| (i * 7 + i / 4096) as u8).collect()
}

#[test]
fn copy_of_five_mebibytes_reads_five_buffers_and_the_end() {
    let source = pattern(5 * MIB);
    let run = drive(&source, 5 * MIB as u64, None, None, false);
    assert_eq!(run.reads, vec![MIB, MIB, MIB, MIB, MIB, 0]);
    assert!(run.written == source);
    assert_eq!(run.bytes_completed, 5 * MIB as u64);
    assert_eq!(run.formats, 0);
    assert_eq!(run.rescans, 1);
    assert!(matches!(run.outcome, Ok(())));
}

#[test]
fn copy_writes_a_short_last_read_as_it_is() {
    let source = pattern(2 * MIB + 123);
    let run = drive(&source, 8 * MIB as u64, None, None, false);
    assert_eq!(run.reads, vec![MIB, MIB, 123, 0]);
    assert!(run.written == source);
    assert_eq!(run.bytes_completed, (2 * MIB + 123) as u64);
    assert_eq!(run.rescans, 1);
}

#[test]
fn copy_of_nothing_still_rescans() {
    let run = drive(&[], 4096, None, None, false);
    assert_eq!(run.reads, vec![0]);
    assert!(run.written.is_empty());
    assert_eq!(run.formats, 0);
    assert_eq!(run.rescans, 1);
    assert!(matches!(run.outcome, Ok(())));
}

#[test]
fn copy_write_error_on_third_chunk_formats_and_rescans_once() {
    let source = pattern(5 * MIB);
    let run = drive(&source, 5 * MIB as u64, None, Some(3), false);
    assert_eq!(run.reads, vec![MIB, MIB, MIB]);
    assert!(run.written == source[..2 * MIB]);
    assert_eq!(run.bytes_completed, 2 * MIB as u64);
    assert_eq!(run.formats, 1);
    assert_eq!(run.rescans, 1);
    assert!(matches!(run.outcome, Err(CopyError::Write("write failed"))));
}

#[test]
fn copy_write_error_is_returned_even_if_cleanup_fails() {
    let source = pattern(5 * MIB);
    let run = drive(&source, 5 * MIB as u64, None, Some(3), true);
    assert_eq!(run.formats, 1);
    assert_eq!(run.rescans, 1);
    assert!(matches!(run.outcome, Err(CopyError::Write("write failed"))));
}

#[test]
fn copy_read_error_formats_and_rescans_once() {
    let source = pattern(3 * MIB);
    let run = drive(&source, 5 * MIB as u64, Some(2), None, true);
    assert_eq!(run.reads, vec![MIB]);
    assert_eq!(run.bytes_completed, MIB as u64);
    assert_eq!(run.formats, 1);
    assert_eq!(run.rescans, 1);
    assert!(matches!(run.outcome, Err(CopyError::Read("read failed"))));
}

#[test]
fn copy_success_is_kept_when_the_rescan_fails() {
    let source = pattern(MIB);
    let run = drive(&source, MIB as u64, None, None, true);
    assert_eq!(run.formats, 0);
    assert_eq!(run.rescans, 1);
    assert!(matches!(run.outcome, Ok(())));
}

#[test]
fn copy_to_an_empty_device_ends_at_once() {
    let run = drive(&pattern(10), 0, None, None, false);
    assert!(run.reads.is_empty());
    assert_eq!(run.formats, 0);
    assert_eq!(run.rescans, 0);
    assert!(matches!(run.outcome, Err(CopyError::EmptyDevice)));
}

#[test]
fn copy_that_cannot_open_ends_at_once() {
    let mut session: CopySession<&'static str> = CopySession::new();
    assert_eq!(session.pending(), CopyAction::Open);
    assert_eq!(session.handle(CopyEvent::OpenFailed("busy")), Some(CopyAction::Finish));
    assert!(session.is_finished());
    assert!(matches!(session.into_result(), Err(CopyError::Open("busy"))));
}

#[test]
fn copy_retries_an_interrupted_read() {
    let mut session: CopySession<&'static str> = CopySession::new();
    assert_eq!(
        session.handle(CopyEvent::Opened { capacity: 1 << 20 }),
        Some(CopyAction::Read { length: BUFFER_SIZE })
    );
    assert_eq!(
        session.handle(CopyEvent::ReadInterrupted),
        Some(CopyAction::Read { length: BUFFER_SIZE })
    );
    assert_eq!(session.phase, CopyPhase::Reading);
    assert_eq!(session.bytes_completed, 0);
    assert_eq!(session.handle(CopyEvent::ReadDone(10)), Some(CopyAction::Write { length: 10 }));
    assert_eq!(
        session.handle(CopyEvent::WriteDone),
        Some(CopyAction::Read { length: BUFFER_SIZE })
    );
    assert_eq!(session.bytes_completed, 10);
    assert_eq!(session.capacity, 1 << 20);
}

#[test]
fn copy_passes_over_what_it_does_not_expect() {
    let mut session: CopySession<&'static str> = CopySession::new();
    assert_eq!(session.handle(CopyEvent::WriteDone), None);
    assert_eq!(session.handle(CopyEvent::ReadDone(4)), None);
    assert_eq!(session.handle(CopyEvent::RescanDone { ok: true }), None);
    assert_eq!(session.phase, CopyPhase::Opening);
    session.handle(CopyEvent::Opened { capacity: 9 });
    assert_eq!(session.handle(CopyEvent::ReadDone(BUFFER_SIZE + 1)), None);
    assert_eq!(session.handle(CopyEvent::Opened { capacity: 5 }), None);
    assert_eq!(session.handle(CopyEvent::FormatDone { ok: true }), None);
    assert_eq!(session.phase, CopyPhase::Reading);
    assert_eq!(session.capacity, 9);
    session.handle(CopyEvent::ReadDone(0));
    assert_eq!(session.handle(CopyEvent::ReadFailed("late")), None);
    assert_eq!(session.handle(CopyEvent::RescanDone { ok: false }), Some(CopyAction::Finish));
    assert_eq!(session.handle(CopyEvent::RescanDone { ok: false }), None);
    assert!(matches!(session.into_result(), Ok(())));
}

#[test]
fn buffer_is_one_mebibyte() {
    assert_eq!(BUFFER_SIZE, 1024 * 1024);
    assert_eq!(UPDATE_INTERVAL_USEC, 200_000);
}

#[test]
fn progress_is_reported_at_most_every_interval() {
    let mut meter = ProgressMeter::new(1_000);
    assert!(meter.due(5));
    let first = meter.observe(5, 0);
    assert_eq!(
        first,
        Some(Reading { target_bytes: 1_000, completed_bytes: 0, bytes_per_sec: 0, usec_remaining: 0 })
    );
    assert!(!meter.due(6));
    assert!(!meter.due(5 + UPDATE_INTERVAL_USEC - 1));
    assert_eq!(meter.observe(5 + UPDATE_INTERVAL_USEC - 1, 100), None);
    assert_eq!(meter.last_report, Some(5));
    assert!(meter.due(5 + UPDATE_INTERVAL_USEC));
    assert_eq!(
        meter.observe(5 + UPDATE_INTERVAL_USEC, 100),
        Some(Reading {
            target_bytes: 1_000,
            completed_bytes: 100,
            bytes_per_sec: 500,
            usec_remaining: 1_800_000
        })
    );
    assert_eq!(meter.last_report, Some(5 + UPDATE_INTERVAL_USEC));
    assert!(!meter.due(0));
}

#[test]
fn progress_of_a_running_copy_shows_its_speed() {
    let mut meter = ProgressMeter::new(10 * 1024 * 1024);
    let mut last = None;
    for k in 0..10u64 {
        // a mebibyte every fifth of a second
        last = meter.observe(k * UPDATE_INTERVAL_USEC, k * 1024 * 1024);
    }
    let reading = last.expect("a report is due each time");
    assert_eq!(reading.completed_bytes, 9 * 1024 * 1024);
    assert_eq!(reading.bytes_per_sec, 5 * 1024 * 1024);
    assert_eq!(reading.usec_remaining, 200_000);
}
