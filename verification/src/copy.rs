//! The restore of a disk image onto a block device, as a machine that is told
//! what happened and answers what to do next. Whoever drives it opens the
//! device, reads, writes and calls the storage manager; the machine keeps the
//! order, the count of bytes, and the outcome.

use vstd::prelude::*;
use crate::estimator::{Estimator, Reading};

verus! {

/// The size of the one buffer through which the image goes: 1 MiB.
pub const BUFFER_SIZE: usize = 0x10_0000;

/// The shortest time between two reports of progress, in microseconds.
pub const UPDATE_INTERVAL_USEC: u64 = 200_000;

/// Why a restore failed. `E` is the error of whoever drives the machine.
#[derive(Debug)]
pub enum CopyError<E> {
    /// The device could not be opened, or did not tell its size.
    Open(E),
    /// The device says that it holds no bytes.
    EmptyDevice,
    /// Reading the image failed.
    Read(E),
    /// Writing to the device failed.
    Write(E),
}

/// What happened since the last action.
#[derive(Debug)]
pub enum CopyEvent<E> {
    /// The device is open; the kernel gives it this many bytes.
    Opened { capacity: u64 },
    /// The device could not be opened, or its size could not be read.
    OpenFailed(E),
    /// The read gave this many bytes; none at the end of the image.
    ReadDone(usize),
    /// The read was cut short by a signal before it gave anything.
    ReadInterrupted,
    /// The read failed.
    ReadFailed(E),
    /// All bytes of the last read are on the device.
    WriteDone,
    /// The write failed.
    WriteFailed(E),
    /// The device was formatted as empty, or the attempt failed.
    FormatDone { ok: bool },
    /// The device was scanned again, or the attempt failed.
    RescanDone { ok: bool },
}

/// What to do next.
#[derive(Debug, Clone, Copy, PartialEq, Eq, Structural)]
pub enum CopyAction {
    /// Open the device for restore and ask the kernel for its size.
    Open,
    /// Read up to `length` bytes of the image into the buffer.
    Read { length: usize },
    /// Write the first `length` bytes of the buffer to the device.
    Write { length: usize },
    /// Format the device as empty.
    FormatEmpty,
    /// Have the device scanned again.
    Rescan,
    /// Nothing more: take the outcome.
    Finish,
}

/// Where a restore stands.
#[derive(Debug, Clone, Copy, PartialEq, Eq, Structural)]
pub enum CopyPhase {
    Opening,
    Reading,
    Writing { length: usize },
    Formatting,
    Rescanning,
    Finished,
}

/// One restore.
#[derive(Debug)]
pub struct CopySession<E> {
    /// What the session waits for.
    pub phase: CopyPhase,
    /// The size of the device as the kernel gave it.
    pub capacity: u64,
    /// The bytes written so far.
    pub bytes_completed: u64,
    /// The first failure, if there was one.
    pub outcome: Result<(), CopyError<E>>,
}

/// How often `action` occurs in `actions`.
pub open spec fn occurrences(actions: Seq<CopyAction>, action: CopyAction) -> nat
    decreases actions.len(),
{
    if actions.len() == 0 {
        0
    } else {
        occurrences(actions.drop_last(), action) + if actions.last() == action {
            1nat
        } else {
            0nat
        }
    }
}

/// `a + b`, or the largest `u64` where the sum is larger.
pub open spec fn capped_sum(a: u64, b: usize) -> u64 {
    if a + b > u64::MAX {
        u64::MAX
    } else {
        (a + b) as u64
    }
}

impl<E> CopySession<E> {
    /// A session that has done nothing yet.
    pub open spec fn fresh() -> CopySession<E> {
        CopySession {
            phase: CopyPhase::Opening,
            capacity: 0,
            bytes_completed: 0,
            outcome: Ok(()),
        }
    }

    /// The action that the session waits to hear of.
    pub open spec fn spec_pending(&self) -> CopyAction {
        match self.phase {
            CopyPhase::Opening => CopyAction::Open,
            CopyPhase::Reading => CopyAction::Read { length: BUFFER_SIZE },
            CopyPhase::Writing { length } => CopyAction::Write { length },
            CopyPhase::Formatting => CopyAction::FormatEmpty,
            CopyPhase::Rescanning => CopyAction::Rescan,
            CopyPhase::Finished => CopyAction::Finish,
        }
    }

    /// Whether `event` can follow the action that the session waits for.
    pub open spec fn expects(self, event: CopyEvent<E>) -> bool {
        match (self.phase, event) {
            (CopyPhase::Opening, CopyEvent::Opened { .. }) => true,
            (CopyPhase::Opening, CopyEvent::OpenFailed(_)) => true,
            (CopyPhase::Reading, CopyEvent::ReadDone(n)) => n <= BUFFER_SIZE,
            (CopyPhase::Reading, CopyEvent::ReadInterrupted) => true,
            (CopyPhase::Reading, CopyEvent::ReadFailed(_)) => true,
            (CopyPhase::Writing { .. }, CopyEvent::WriteDone) => true,
            (CopyPhase::Writing { .. }, CopyEvent::WriteFailed(_)) => true,
            (CopyPhase::Formatting, CopyEvent::FormatDone { .. }) => true,
            (CopyPhase::Rescanning, CopyEvent::RescanDone { .. }) => true,
            _ => false,
        }
    }

    /// The session after `event`. An event that the session does not expect
    /// changes nothing.
    pub open spec fn after(self, event: CopyEvent<E>) -> CopySession<E> {
        match (self.phase, event) {
            (CopyPhase::Opening, CopyEvent::Opened { capacity }) => if capacity == 0 {
                CopySession {
                    phase: CopyPhase::Finished,
                    outcome: Err(CopyError::EmptyDevice),
                    ..self
                }
            } else {
                CopySession { phase: CopyPhase::Reading, capacity, ..self }
            },
            (CopyPhase::Opening, CopyEvent::OpenFailed(error)) => CopySession {
                phase: CopyPhase::Finished,
                outcome: Err(CopyError::Open(error)),
                ..self
            },
            (CopyPhase::Reading, CopyEvent::ReadDone(n)) => if n == 0 {
                CopySession { phase: CopyPhase::Rescanning, ..self }
            } else if n <= BUFFER_SIZE {
                CopySession { phase: CopyPhase::Writing { length: n }, ..self }
            } else {
                self
            },
            (CopyPhase::Reading, CopyEvent::ReadInterrupted) => self,
            (CopyPhase::Reading, CopyEvent::ReadFailed(error)) => CopySession {
                phase: CopyPhase::Formatting,
                outcome: Err(CopyError::Read(error)),
                ..self
            },
            (CopyPhase::Writing { length }, CopyEvent::WriteDone) => CopySession {
                phase: CopyPhase::Reading,
                bytes_completed: capped_sum(self.bytes_completed, length),
                ..self
            },
            (CopyPhase::Writing { .. }, CopyEvent::WriteFailed(error)) => CopySession {
                phase: CopyPhase::Formatting,
                outcome: Err(CopyError::Write(error)),
                ..self
            },
            (CopyPhase::Formatting, CopyEvent::FormatDone { .. }) => CopySession {
                phase: CopyPhase::Rescanning,
                ..self
            },
            (CopyPhase::Rescanning, CopyEvent::RescanDone { .. }) => CopySession {
                phase: CopyPhase::Finished,
                ..self
            },
            _ => self,
        }
    }

    /// The session after each of `events` in turn.
    pub open spec fn run(self, events: Seq<CopyEvent<E>>) -> CopySession<E>
        decreases events.len(),
    {
        if events.len() == 0 {
            self
        } else {
            self.run(events.drop_last()).after(events.last())
        }
    }

    /// The actions that the session asks for while `events` come in: the one
    /// it waits for at the start, and one more after each event that it
    /// expected.
    pub open spec fn issued(self, events: Seq<CopyEvent<E>>) -> Seq<CopyAction>
        decreases events.len(),
    {
        if events.len() == 0 {
            seq![self.spec_pending()]
        } else {
            let before = self.run(events.drop_last());
            let asked = self.issued(events.drop_last());
            if before.expects(events.last()) {
                asked.push(before.after(events.last()).spec_pending())
            } else {
                asked
            }
        }
    }

    /// The copy itself, leaving the opening aside, has failed.
    pub open spec fn copy_failed(self) -> bool {
        self.outcome matches Err(error) && (error is Read || error is Write)
    }

    /// The device was never opened, or is empty.
    pub open spec fn open_failed(self) -> bool {
        self.outcome matches Err(error) && (error is Open || error is EmptyDevice)
    }

    /// The number of times that a session in this state has asked for the
    /// device to be formatted.
    pub open spec fn formats(self) -> nat {
        match self.phase {
            CopyPhase::Formatting => 1,
            CopyPhase::Rescanning | CopyPhase::Finished => if self.copy_failed() {
                1
            } else {
                0
            },
            _ => 0,
        }
    }

    /// The number of times that a session in this state has asked for the
    /// device to be scanned again.
    pub open spec fn rescans(self) -> nat {
        match self.phase {
            CopyPhase::Rescanning => 1,
            CopyPhase::Finished => if self.open_failed() {
                0
            } else {
                1
            },
            _ => 0,
        }
    }

    /// What holds of every session that started fresh: a failure is on record
    /// exactly from the phase in which it can have happened.
    pub open spec fn consistent(self) -> bool {
        match self.phase {
            CopyPhase::Opening => self.outcome is Ok && self.bytes_completed == 0,
            CopyPhase::Reading | CopyPhase::Writing { .. } => self.outcome is Ok && self.capacity
                > 0,
            CopyPhase::Formatting => self.copy_failed() && self.capacity > 0,
            CopyPhase::Rescanning => (self.outcome is Ok || self.copy_failed()) && self.capacity
                > 0,
            CopyPhase::Finished => self.outcome is Ok || self.copy_failed() || (self.open_failed()
                && self.bytes_completed == 0),
        }
    }

    /// Whatever comes in, a session asks for the device to be scanned again
    /// once if it ever read from the image, and not at all before; it asks
    /// for the device to be formatted once if reading or writing failed, and
    /// else never; and what it asked for so far shows in its state.
    pub proof fn lemma_cleanup_once(events: Seq<CopyEvent<E>>)
        ensures
            Self::fresh().run(events).consistent(),
            occurrences(Self::fresh().issued(events), CopyAction::Rescan) == Self::fresh().run(
                events,
            ).rescans(),
            occurrences(Self::fresh().issued(events), CopyAction::FormatEmpty)
                == Self::fresh().run(events).formats(),
            occurrences(Self::fresh().issued(events), CopyAction::Finish) == if Self::fresh().run(
                events,
            ).phase is Finished {
                1nat
            } else {
                0nat
            },
            Self::fresh().issued(events).last() == Self::fresh().run(events).spec_pending(),
        decreases events.len(),
    {
        let start = Self::fresh();
        if events.len() == 0 {
            let asked = start.issued(events);
            assert(asked.drop_last() == Seq::<CopyAction>::empty());
            assert(occurrences(asked.drop_last(), CopyAction::Rescan) == 0);
            assert(occurrences(asked.drop_last(), CopyAction::FormatEmpty) == 0);
            assert(occurrences(asked.drop_last(), CopyAction::Finish) == 0);
        } else {
            Self::lemma_cleanup_once(events.drop_last());
            let before = start.run(events.drop_last());
            let asked = start.issued(events.drop_last());
            if before.expects(events.last()) {
                let next = asked.push(before.after(events.last()).spec_pending());
                assert(next.drop_last() == asked);
            }
        }
    }

    /// A restore that is over has asked for exactly one rescan if the device
    /// was opened and held bytes, whether the copy went well or not, and for
    /// one format exactly if the copy failed. Its outcome is that of the
    /// copy: what format and rescan answered plays no part.
    pub proof fn lemma_finished(events: Seq<CopyEvent<E>>)
        requires
            Self::fresh().run(events).phase is Finished,
        ensures
            !Self::fresh().run(events).open_failed() ==> occurrences(
                Self::fresh().issued(events),
                CopyAction::Rescan,
            ) == 1,
            Self::fresh().run(events).open_failed() ==> occurrences(
                Self::fresh().issued(events),
                CopyAction::Rescan,
            ) == 0 && Self::fresh().run(events).bytes_completed == 0,
            occurrences(Self::fresh().issued(events), CopyAction::FormatEmpty) == if Self::fresh().run(
                events,
            ).copy_failed() {
                1nat
            } else {
                0nat
            },
    {
        Self::lemma_cleanup_once(events);
    }

    /// The bytes of the writes that went well while `events` came in.
    pub open spec fn written(events: Seq<CopyEvent<E>>) -> nat
        decreases events.len(),
    {
        if events.len() == 0 {
            0
        } else {
            Self::written(events.drop_last()) + match (
                Self::fresh().run(events.drop_last()).phase,
                events.last(),
            ) {
                (CopyPhase::Writing { length }, CopyEvent::WriteDone) => length as nat,
                _ => 0nat,
            }
        }
    }

    /// The count of bytes completed is the total of the writes that went
    /// well, each of which had the length of the read before it; it stops at
    /// the largest number that the count can hold.
    pub proof fn lemma_bytes_completed(events: Seq<CopyEvent<E>>)
        ensures
            Self::fresh().run(events).bytes_completed == if Self::written(events) > u64::MAX {
                u64::MAX as nat
            } else {
                Self::written(events)
            },
        decreases events.len(),
    {
        if events.len() > 0 {
            Self::lemma_bytes_completed(events.drop_last());
        }
    }

    /// Once a failure is on record, nothing that follows changes it.
    pub proof fn lemma_first_failure_stays(self, event: CopyEvent<E>)
        requires
            self.consistent(),
            self.outcome is Err,
        ensures
            self.after(event).outcome == self.outcome,
            self.after(event).bytes_completed == self.bytes_completed,
    {
    }

    /// A new session. It waits for the device to be opened.
    pub fn new() -> (session: CopySession<E>)
        ensures
            session == Self::fresh(),
    {
        CopySession {
            phase: CopyPhase::Opening,
            capacity: 0,
            bytes_completed: 0,
            outcome: Ok(()),
        }
    }

    /// The action that the session waits to hear of.
    #[verifier::when_used_as_spec(spec_pending)]
    pub fn pending(&self) -> (action: CopyAction)
        ensures
            action == self.spec_pending(),
    {
        match self.phase {
            CopyPhase::Opening => CopyAction::Open,
            CopyPhase::Reading => CopyAction::Read { length: BUFFER_SIZE },
            CopyPhase::Writing { length } => CopyAction::Write { length },
            CopyPhase::Formatting => CopyAction::FormatEmpty,
            CopyPhase::Rescanning => CopyAction::Rescan,
            CopyPhase::Finished => CopyAction::Finish,
        }
    }

    /// Whether the restore is over.
    pub fn is_finished(&self) -> (over: bool)
        ensures
            over == (self.phase is Finished),
    {
        match self.phase {
            CopyPhase::Finished => true,
            _ => false,
        }
    }

    /// Takes in what happened and says what to do next, or `None` for an
    /// event that cannot follow the action that the session waits for; such
    /// an event changes nothing.
    ///
    /// After the device is open and not empty the image is read a buffer at a
    /// time. A read of no bytes ends the copy well. A read that a signal cut
    /// short is made again. Each other read is followed by a write of as many
    /// bytes as were read. The first read or write that fails ends the copy;
    /// the device is then formatted as empty. In either case the device is
    /// scanned again, once, and then the session is over.
    pub fn handle(&mut self, event: CopyEvent<E>) -> (action: Option<CopyAction>)
        ensures
            *final(self) == old(self).after(event),
            action == if old(self).expects(event) {
                Some(final(self).spec_pending())
            } else {
                None
            },
    {
        match (self.phase, event) {
            (CopyPhase::Opening, CopyEvent::Opened { capacity }) => {
                if capacity == 0 {
                    self.phase = CopyPhase::Finished;
                    self.outcome = Err(CopyError::EmptyDevice);
                } else {
                    self.phase = CopyPhase::Reading;
                    self.capacity = capacity;
                }
            },
            (CopyPhase::Opening, CopyEvent::OpenFailed(error)) => {
                self.phase = CopyPhase::Finished;
                self.outcome = Err(CopyError::Open(error));
            },
            (CopyPhase::Reading, CopyEvent::ReadDone(n)) => {
                if n == 0 {
                    self.phase = CopyPhase::Rescanning;
                } else if n <= BUFFER_SIZE {
                    self.phase = CopyPhase::Writing { length: n };
                } else {
                    return None;
                }
            },
            (CopyPhase::Reading, CopyEvent::ReadInterrupted) => {},
            (CopyPhase::Reading, CopyEvent::ReadFailed(error)) => {
                self.phase = CopyPhase::Formatting;
                self.outcome = Err(CopyError::Read(error));
            },
            (CopyPhase::Writing { length }, CopyEvent::WriteDone) => {
                self.phase = CopyPhase::Reading;
                self.bytes_completed = if length as u64 > u64::MAX - self.bytes_completed {
                    u64::MAX
                } else {
                    self.bytes_completed + length as u64
                };
            },
            (CopyPhase::Writing { .. }, CopyEvent::WriteFailed(error)) => {
                self.phase = CopyPhase::Formatting;
                self.outcome = Err(CopyError::Write(error));
            },
            (CopyPhase::Formatting, CopyEvent::FormatDone { .. }) => {
                self.phase = CopyPhase::Rescanning;
            },
            (CopyPhase::Rescanning, CopyEvent::RescanDone { .. }) => {
                self.phase = CopyPhase::Finished;
            },
            _ => {
                return None;
            },
        }
        Some(self.pending())
    }

    /// The outcome of the restore: that of the copy, whatever format and
    /// rescan answered.
    pub fn into_result(self) -> (outcome: Result<(), CopyError<E>>)
        ensures
            outcome == self.outcome,
    {
        self.outcome
    }
}

/// Decides when progress is reported, and keeps the estimator that is fed on
/// each report.
#[derive(Debug)]
pub struct ProgressMeter {
    /// The estimator.
    pub estimator: Estimator,
    /// When progress was last reported.
    pub last_report: Option<u64>,
}

impl ProgressMeter {
    /// Whether a report is due at `now_usec`: at the first call, and then
    /// when the interval has passed since the last report.
    pub open spec fn spec_due(&self, now_usec: u64) -> bool {
        match self.last_report {
            None => true,
            Some(last) => now_usec - last >= UPDATE_INTERVAL_USEC,
        }
    }

    /// A meter for a copy of `target_bytes`; its first report is due at once.
    pub fn new(target_bytes: u64) -> (meter: ProgressMeter)
        ensures
            meter.estimator.wf(),
            meter.estimator@.target_bytes == target_bytes,
            meter.estimator@.completed_bytes == 0,
            meter.estimator@.samples == Seq::<crate::estimator::Sample>::empty(),
            meter.last_report is None,
    {
        ProgressMeter { estimator: Estimator::new(target_bytes), last_report: None }
    }

    /// Whether a report is due at `now_usec`.
    #[verifier::when_used_as_spec(spec_due)]
    pub fn due(&self, now_usec: u64) -> (due: bool)
        ensures
            due == self.spec_due(now_usec),
    {
        match self.last_report {
            None => true,
            Some(last) => now_usec >= last && now_usec - last >= UPDATE_INTERVAL_USEC,
        }
    }

    /// Called before each read. If a report is due, the estimator is given
    /// `bytes_completed` as its reading at `now_usec`, which goes into its
    /// window unless the count has gone back, and its values are returned to
    /// be passed on; else nothing happens.
    pub fn observe(&mut self, now_usec: u64, bytes_completed: u64) -> (report: Option<Reading>)
        requires
            old(self).estimator.wf(),
        ensures
            final(self).estimator.wf(),
            old(self).spec_due(now_usec) ==> {
                &&& final(self).last_report == Some(now_usec)
                &&& final(self).estimator@ == old(self).estimator@.sampled(
                    now_usec,
                    bytes_completed,
                )
                &&& bytes_completed >= old(self).estimator@.completed_bytes ==> final(
                    self).estimator@ == old(self).estimator@.recorded(
                    crate::estimator::Sample { time_usec: now_usec, value: bytes_completed },
                )
                &&& report == Some(
                    Reading {
                        target_bytes: final(self).estimator@.target_bytes,
                        completed_bytes: final(self).estimator@.completed_bytes,
                        bytes_per_sec: final(self).estimator@.bytes_per_sec(),
                        usec_remaining: final(self).estimator@.usec_remaining(),
                    },
                )
            },
            !old(self).spec_due(now_usec) ==> {
                &&& final(self).last_report == old(self).last_report
                &&& final(self).estimator@ == old(self).estimator@
                &&& report is None
            },
    {
        if !self.due(now_usec) {
            return None;
        }
        self.estimator.add_sample_at(now_usec, bytes_completed);
        self.last_report = Some(now_usec);
        Some(self.estimator.reading())
    }
}

} // verus!
