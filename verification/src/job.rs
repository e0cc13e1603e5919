//! What a running restore tells the outside: the figures of a job.

use vstd::prelude::*;
use crate::estimator::Reading;
use crate::text::same_text;

verus! {

/// The part of a job that is done, as `done` out of `of`; `of` is not 0 and
/// `done` is not above it.
#[derive(Debug, Clone, Copy, PartialEq, Eq, Structural)]
pub struct Progress {
    pub done: u64,
    pub of: u64,
}

impl Progress {
    /// The fraction lies between nothing and all.
    pub open spec fn valid(self) -> bool {
        0 <= self.done <= self.of && self.of > 0
    }
}

/// The figures of a job at one moment.
#[derive(Debug, Clone, Copy, PartialEq, Eq, Structural)]
pub struct JobUpdate {
    /// The bytes that the job has to move.
    pub bytes: u64,
    /// The speed, in bytes per second.
    pub rate: u64,
    /// The part that is done.
    pub progress: Progress,
    /// When the job is expected to end, in microseconds since 1970; 0 where
    /// that is not known.
    pub expected_end_time: u64,
}

/// The figures of a job, from the reading of its estimator.
pub open spec fn spec_update_job(reading: Option<Reading>, done: bool, now_usec: u64)
    -> JobUpdate {
    let figures = match reading {
        Some(reading) => reading,
        None => Reading { target_bytes: 0, completed_bytes: 0, bytes_per_sec: 0, usec_remaining: 0 },
    };
    JobUpdate {
        bytes: figures.target_bytes,
        rate: figures.bytes_per_sec,
        progress: if done {
            Progress { done: 1, of: 1 }
        } else if figures.target_bytes != 0 {
            Progress {
                done: if figures.completed_bytes <= figures.target_bytes {
                    figures.completed_bytes
                } else {
                    figures.target_bytes
                },
                of: figures.target_bytes,
            }
        } else {
            Progress { done: 0, of: 1 }
        },
        expected_end_time: if figures.usec_remaining == 0 {
            0
        } else if figures.usec_remaining + now_usec > u64::MAX {
            u64::MAX
        } else {
            (figures.usec_remaining + now_usec) as u64
        },
    }
}

/// The figures to put on a job. Without a reading all counts are 0. A job
/// that is done is done in full; else the part done is the bytes completed
/// out of the target, never more than all, and nothing where the target is
/// 0. The end is expected after the time left, counted from `now_usec`, and
/// is unknown where no time is left.
pub fn update_job(reading: Option<Reading>, done: bool, now_usec: u64) -> (update: JobUpdate)
    ensures
        update == spec_update_job(reading, done, now_usec),
        update.progress.valid(),
{
    let figures = match reading {
        Some(reading) => reading,
        None => Reading { target_bytes: 0, completed_bytes: 0, bytes_per_sec: 0, usec_remaining: 0 },
    };
    let progress = if done {
        Progress { done: 1, of: 1 }
    } else if figures.target_bytes != 0 {
        Progress {
            done: if figures.completed_bytes <= figures.target_bytes {
                figures.completed_bytes
            } else {
                figures.target_bytes
            },
            of: figures.target_bytes,
        }
    } else {
        Progress { done: 0, of: 1 }
    };
    let expected_end_time = if figures.usec_remaining == 0 {
        0
    } else if figures.usec_remaining > u64::MAX - now_usec {
        u64::MAX
    } else {
        figures.usec_remaining + now_usec
    };
    JobUpdate { bytes: figures.target_bytes, rate: figures.bytes_per_sec, progress, expected_end_time }
}

/// A job that this program runs by itself, shown like the jobs of the
/// storage manager.
#[derive(Debug)]
pub struct LocalJob {
    /// What the job does, for the user.
    pub description: String,
    /// More about the job, as markup.
    pub extra_markup: String,
    /// The path of the object that the job works on.
    pub object: String,
    /// The name of the operation.
    pub operation: String,
    /// The bytes that the job has to move.
    pub bytes: u64,
    /// Whether the progress means anything.
    pub progress_valid: bool,
    /// Whether the job can be cancelled.
    pub cancelable: bool,
    /// When the job is expected to end, in microseconds since 1970.
    pub expected_end_time: u64,
    /// The part that is done.
    pub progress: Progress,
    /// The speed, in bytes per second.
    pub rate: u64,
    /// When the job began, in microseconds since 1970.
    pub start_time: u64,
}

impl LocalJob {
    /// Whether this is a job on `object` of which nothing else is known yet:
    /// its texts are empty, its counts 0, and it says of itself neither that
    /// its progress means anything nor that it can be cancelled.
    pub open spec fn fresh(&self, object: Seq<char>) -> bool {
        &&& self.object@ == object
        &&& self.description@.len() == 0
        &&& self.extra_markup@.len() == 0
        &&& self.operation@.len() == 0
        &&& self.bytes == 0
        &&& self.rate == 0
        &&& self.expected_end_time == 0
        &&& self.start_time == 0
        &&& !self.progress_valid
        &&& !self.cancelable
        &&& self.progress == (Progress { done: 0, of: 1 })
    }

    /// A job on `object` of which nothing else is known yet.
    pub fn new(object: String) -> (job: LocalJob)
        ensures
            job.object == object,
            job.fresh(object@),
    {
        LocalJob {
            description: String::new(),
            extra_markup: String::new(),
            object,
            operation: String::new(),
            bytes: 0,
            progress_valid: false,
            cancelable: false,
            expected_end_time: 0,
            progress: Progress { done: 0, of: 1 },
            rate: 0,
            start_time: 0,
        }
    }

    /// Puts new figures on the job; what is not a figure stays.
    pub fn apply(&mut self, update: JobUpdate)
        ensures
            final(self).bytes == update.bytes,
            final(self).rate == update.rate,
            final(self).progress == update.progress,
            final(self).expected_end_time == update.expected_end_time,
            final(self).description == old(self).description,
            final(self).extra_markup == old(self).extra_markup,
            final(self).object == old(self).object,
            final(self).operation == old(self).operation,
            final(self).progress_valid == old(self).progress_valid,
            final(self).cancelable == old(self).cancelable,
            final(self).start_time == old(self).start_time,
    {
        self.bytes = update.bytes;
        self.rate = update.rate;
        self.progress = update.progress;
        self.expected_end_time = update.expected_end_time;
    }
}

/// Where the job on `object` stands in `jobs`, if there is one.
pub open spec fn is_job_on(jobs: Seq<LocalJob>, object: Seq<char>, at: int) -> bool {
    0 <= at < jobs.len() && jobs[at].object@ == object
}

/// No two jobs work on the same object.
pub open spec fn one_job_each(jobs: Seq<LocalJob>) -> bool {
    forall|i: int, j: int|
        0 <= i < j < jobs.len() ==> (#[trigger] jobs[i]).object@ != (#[trigger] jobs[j]).object@
}

/// The jobs that this program runs, at most one on each object. It belongs
/// to whoever starts the jobs and is handed on by them.
#[derive(Debug)]
pub struct JobRegistry {
    jobs: Vec<LocalJob>,
}

impl View for JobRegistry {
    type V = Seq<LocalJob>;

    closed spec fn view(&self) -> Seq<LocalJob> {
        self.jobs@
    }
}

impl JobRegistry {
    /// What holds of every registry: no two jobs work on the same object.
    pub closed spec fn wf(&self) -> bool {
        one_job_each(self.jobs@)
    }

    /// A registry without jobs.
    pub fn new() -> (registry: JobRegistry)
        ensures
            registry.wf(),
            registry@.len() == 0,
    {
        JobRegistry { jobs: Vec::new() }
    }

    /// Where the job on `object` stands.
    pub fn find(&self, object: &str) -> (at: Option<usize>)
        ensures
            match at {
                Some(at) => is_job_on(self@, object@, at as int),
                None => forall|k: int| !is_job_on(self@, object@, k),
            },
    {
        let mut k: usize = 0;
        while k < self.jobs.len()
            invariant
                k <= self.jobs.len(),
                forall|j: int| 0 <= j < k ==> !is_job_on(self.jobs@, object@, j),
            decreases self.jobs.len() - k,
        {
            if same_text(self.jobs[k].object.as_str(), object) {
                return Some(k);
            }
            k += 1;
        }
        None
    }

    /// The job on `object`: the one that the registry holds, or a new one
    /// that it holds from now on. The result is the place of the job.
    pub fn create_local_job(&mut self, object: &str) -> (at: usize)
        requires
            old(self).wf(),
        ensures
            final(self).wf(),
            is_job_on(final(self)@, object@, at as int),
            (exists|k: int| is_job_on(old(self)@, object@, k)) ==> final(self)@ == old(self)@,
            (forall|k: int| !is_job_on(old(self)@, object@, k)) ==> at == old(self)@.len()
                && final(self)@.len() == old(self)@.len() + 1 && final(self)@.drop_last() == old(
                self)@ && final(self)@.last().fresh(object@),
    {
        match self.find(object) {
            Some(at) => at,
            None => {
                let ghost before = self.jobs@;
                assert(before == self@);
                assert(forall|k: int| !is_job_on(before, object@, k));
                self.jobs.push(LocalJob::new(object.to_owned()));
                assert(self.jobs@.drop_last() == before);
                assert forall|i: int, j: int| 0 <= i < j < self.jobs@.len() implies (
                #[trigger] self.jobs@[i]).object@ != (#[trigger] self.jobs@[j]).object@ by {
                    if j == before.len() {
                        assert(!is_job_on(before, object@, i));
                    } else {
                        assert(self.jobs@[i] == before[i] && self.jobs@[j] == before[j]);
                    }
                }
                self.jobs.len() - 1
            },
        }
    }

    /// The job at place `at`.
    pub fn job(&self, at: usize) -> (job: Option<&LocalJob>)
        ensures
            match job {
                Some(job) => at < self@.len() && *job == self@[at as int],
                None => at >= self@.len(),
            },
    {
        if at < self.jobs.len() {
            Some(&self.jobs[at])
        } else {
            None
        }
    }

    /// Puts new figures on the job on `object`, if there is one, and says
    /// whether there was.
    pub fn update(&mut self, object: &str, update: JobUpdate) -> (found: bool)
        requires
            old(self).wf(),
        ensures
            final(self).wf(),
            found == exists|k: int| is_job_on(old(self)@, object@, k),
            final(self)@.len() == old(self)@.len(),
            forall|k: int|
                0 <= k < old(self)@.len() ==> (#[trigger] final(self)@[k]).object == old(self)@[k].object,
            forall|k: int|
                0 <= k < old(self)@.len() && !is_job_on(old(self)@, object@, k)
                    ==> #[trigger] final(self)@[k] == old(self)@[k],
            forall|k: int|
                is_job_on(old(self)@, object@, k) ==> (#[trigger] final(self)@[k]).bytes
                    == update.bytes && final(self)@[k].rate == update.rate && final(self)@[k].progress == update.progress && final(self)@[k].expected_end_time
                    == update.expected_end_time,
    {
        match self.find(object) {
            Some(at) => {
                let ghost before = self.jobs@;
                let mut job = self.jobs.remove(at);
                job.apply(update);
                self.jobs.insert(at, job);
                proof {
                    let after = self.jobs@;
                    assert(after.len() == before.len());
                    assert forall|k: int| 0 <= k < before.len() implies (#[trigger] after[k]).object
                        == before[k].object by {}
                    assert forall|k: int| is_job_on(before, object@, k) implies k == at by {
                        if k < at {
                            assert(before[k].object@ != before[at as int].object@);
                        } else if k > at {
                            assert(before[at as int].object@ != before[k].object@);
                        }
                    }
                    assert forall|i: int, j: int| 0 <= i < j < after.len() implies (
                    #[trigger] after[i]).object@ != (#[trigger] after[j]).object@ by {
                        assert(before[i].object@ != before[j].object@);
                    }
                }
                true
            },
            None => false,
        }
    }

    /// Takes the job on `object` out and says whether there was one.
    pub fn destroy_local_job(&mut self, object: &str) -> (found: bool)
        requires
            old(self).wf(),
        ensures
            final(self).wf(),
            found == exists|k: int| is_job_on(old(self)@, object@, k),
            forall|k: int| !is_job_on(final(self)@, object@, k),
            !found ==> final(self)@ == old(self)@,
            found ==> exists|k: int|
                #[trigger] is_job_on(old(self)@, object@, k) && final(self)@ == old(self)@.remove(k),
    {
        match self.find(object) {
            Some(at) => {
                let ghost before = self.jobs@;
                self.jobs.remove(at);
                proof {
                    let after = self.jobs@;
                    assert(is_job_on(before, object@, at as int));
                    assert forall|i: int, j: int| 0 <= i < j < after.len() implies (
                    #[trigger] after[i]).object@ != (#[trigger] after[j]).object@ by {
                        let from_i = if i < at {
                            i
                        } else {
                            i + 1
                        };
                        let from_j = if j < at {
                            j
                        } else {
                            j + 1
                        };
                        assert(after[i] == before[from_i] && after[j] == before[from_j]);
                        assert(before[from_i].object@ != before[from_j].object@);
                    }
                    assert forall|k: int| !is_job_on(after, object@, k) by {
                        if 0 <= k < after.len() {
                            let from = if k < at {
                                k
                            } else {
                                k + 1
                            };
                            assert(after[k] == before[from]);
                            if from < at {
                                assert(before[from].object@ != before[at as int].object@);
                            } else {
                                assert(before[at as int].object@ != before[from].object@);
                            }
                        }
                    }
                }
                true
            },
            None => false,
        }
    }

    /// Whether the registry holds a job.
    pub fn has_local_jobs(&self) -> (any: bool)
        ensures
            any == (self@.len() > 0),
    {
        self.jobs.len() > 0
    }

    /// Whether the registry holds no job.
    pub fn is_empty(&self) -> (none: bool)
        ensures
            none == (self@.len() == 0),
    {
        self.jobs.len() == 0
    }

    /// Takes all jobs out.
    pub fn local_jobs_clear(&mut self)
        ensures
            final(self).wf(),
            final(self)@.len() == 0,
    {
        self.jobs.clear();
    }
}

} // verus!
