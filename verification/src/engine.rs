//! In-memory job engine.
//!
//! The real download engine is an outside collaborator reached through a
//! capability-set interface: create a job, add a file transfer, set its
//! priority, resume, suspend, complete or cancel it, read its status, and
//! register for its "transferred" event.  This module gives the library a
//! fake engine with exactly that capability set, so the dispatcher and the
//! monitor bridge are verified against precise engine semantics and tests
//! can drive whole job lifecycles in one process.
//!
//! The fake can be scripted: a job may be told to become `Transferred`
//! after a chosen number of status polls, which stands for the engine
//! firing the transferred callback while a bridge waits.

use vstd::prelude::*;
use crate::protocol::{EngineError, JobError, JobId, JobProgress, JobState, JobStatus};

verus! {

/// One file transfer inside a job: remote source, local destination.
#[derive(Clone, Debug)]
pub struct FileTransfer {
    pub url: Vec<u8>,
    pub save_path: Vec<u8>,
}

/// Mathematical image of a `FileTransfer`.
#[verifier::ext_equal]
pub struct FileTransferV {
    pub url: Seq<u8>,
    pub save_path: Seq<u8>,
}

impl View for FileTransfer {
    type V = FileTransferV;

    open spec fn view(&self) -> FileTransferV {
        FileTransferV { url: self.url@, save_path: self.save_path@ }
    }
}

/// One job held by the fake engine.
#[derive(Debug)]
pub struct EngineJob {
    pub id: JobId,
    pub display_name: Vec<u8>,
    pub description: Vec<u8>,
    pub files: Vec<FileTransfer>,
    pub priority: u32,
    pub state: JobState,
    pub progress: JobProgress,
    pub error_count: u32,
    pub last_error: Option<JobError>,
    /// The "transferred" callback is registered.
    pub notify_transferred: bool,
    /// The "error" callback is registered.
    pub notify_error: bool,
    /// The "modification" callback is registered.
    pub notify_modification: bool,
    /// Script: the job becomes `Transferred` after this many more polls.
    pub polls_until_transferred: Option<u32>,
}

/// Mathematical image of an `EngineJob`.
#[verifier::ext_equal]
pub struct EngineJobV {
    pub id: JobId,
    pub display_name: Seq<u8>,
    pub description: Seq<u8>,
    pub files: Seq<FileTransferV>,
    pub priority: u32,
    pub state: JobState,
    pub progress: JobProgress,
    pub error_count: u32,
    pub last_error: Option<JobError>,
    pub notify_transferred: bool,
    pub notify_error: bool,
    pub notify_modification: bool,
    pub polls_until_transferred: Option<u32>,
}

impl View for EngineJob {
    type V = EngineJobV;

    open spec fn view(&self) -> EngineJobV {
        EngineJobV {
            id: self.id,
            display_name: self.display_name@,
            description: self.description@,
            files: self.files@.map_values(|f: FileTransfer| f@),
            priority: self.priority,
            state: self.state,
            progress: self.progress,
            error_count: self.error_count,
            last_error: self.last_error,
            notify_transferred: self.notify_transferred,
            notify_error: self.notify_error,
            notify_modification: self.notify_modification,
            polls_until_transferred: self.polls_until_transferred,
        }
    }
}

/// Progress of a job that has moved no data yet.
pub open spec fn zero_progress() -> JobProgress {
    JobProgress { bytes_total: 0, bytes_transferred: 0, files_total: 0, files_transferred: 0 }
}

/// What a job looks like right after `create_job`.
pub open spec fn is_fresh_job(j: EngineJobV, id: JobId, display_name: Seq<u8>) -> bool {
    &&& j.id == id
    &&& j.display_name == display_name
    &&& j.description == Seq::<u8>::empty()
    &&& j.files == Seq::<FileTransferV>::empty()
    &&& j.priority == 0
    &&& j.state == JobState::Suspended
    &&& j.progress == zero_progress()
    &&& j.error_count == 0
    &&& j.last_error is None
    &&& !j.notify_transferred
    &&& !j.notify_error
    &&& !j.notify_modification
    &&& j.polls_until_transferred is None
}

/// One status poll of a job: the script, if due, makes the job transferred.
pub open spec fn spec_poll_job(j: EngineJobV) -> EngineJobV {
    match j.polls_until_transferred {
        Some(k) => if k == 0 {
            EngineJobV { state: JobState::Transferred, polls_until_transferred: None, ..j }
        } else {
            EngineJobV { polls_until_transferred: Some((k - 1) as u32), ..j }
        },
        None => j,
    }
}

/// The snapshot `get_status` builds from a job: the last error is reported
/// only while the job sits in one of the two error states.
pub open spec fn spec_status_of(j: EngineJobV) -> JobStatus {
    JobStatus {
        state: j.state,
        progress: j.progress,
        error_count: j.error_count,
        error: if j.state == JobState::Error || j.state == JobState::TransientError {
            j.last_error
        } else {
            None
        },
    }
}

/// The in-memory engine: a table of jobs and the ordinal that names the
/// next one.
#[derive(Debug)]
pub struct FakeEngine {
    pub jobs: Vec<EngineJob>,
    pub next_ordinal: u64,
}

impl FakeEngine {
    /// Well-formedness: job identifiers are pairwise distinct, and every
    /// identifier was handed out by the ordinal counter.
    pub open spec fn wf(self) -> bool {
        &&& forall|i: int, j: int|
            0 <= i < j < self.jobs@.len() ==> (#[trigger] self.jobs@[i].id) != (
            #[trigger] self.jobs@[j].id)
        &&& forall|i: int|
            0 <= i < self.jobs@.len() ==> (#[trigger] self.jobs@[i].id).hi == 0
                && self.jobs@[i].id.lo < self.next_ordinal
    }

    /// Some job with this identifier is in the table.
    pub open spec fn has_job(self, id: JobId) -> bool {
        exists|i: int| 0 <= i < self.jobs@.len() && (#[trigger] self.jobs@[i].id) == id
    }

    /// Index of the job with this identifier.
    pub open spec fn job_index(self, id: JobId) -> int {
        choose|i: int| 0 <= i < self.jobs@.len() && (#[trigger] self.jobs@[i].id) == id
    }

    /// The job with this identifier.
    pub open spec fn job_at(self, id: JobId) -> EngineJob {
        self.jobs@[self.job_index(id)]
    }

    /// The identifier the next created job will get.
    pub open spec fn fresh_id(self) -> JobId {
        JobId { hi: 0, lo: self.next_ordinal }
    }

    proof fn lemma_index_unique(self, i: int, id: JobId)
        requires
            self.wf(),
            0 <= i < self.jobs@.len(),
            self.jobs@[i].id == id,
        ensures
            self.has_job(id),
            self.job_index(id) == i,
            self.job_at(id) == self.jobs@[i],
    {
        assert(self.has_job(id));
        let j = self.job_index(id);
        assert(0 <= j < self.jobs@.len() && self.jobs@[j].id == id);
        if i != j {
            assert(self.jobs@[i].id != self.jobs@[j].id);
        }
    }

    /// After replacing the job at `i` by one with the same identifier, the
    /// table still holds the same jobs under the same identifiers, except
    /// that one.
    proof fn lemma_update_frame(pre: FakeEngine, post: FakeEngine, i: int, j2: EngineJob)
        requires
            pre.wf(),
            0 <= i < pre.jobs@.len(),
            post.jobs@ == pre.jobs@.update(i, j2),
            j2.id == pre.jobs@[i].id,
            post.next_ordinal == pre.next_ordinal,
        ensures
            post.wf(),
            forall|jid: JobId| post.has_job(jid) == pre.has_job(jid),
            forall|jid: JobId|
                jid != j2.id && pre.has_job(jid) ==> post.job_at(jid) == pre.job_at(jid),
            pre.job_index(j2.id) == i,
            pre.job_at(j2.id) == pre.jobs@[i],
            post.has_job(j2.id),
            post.job_at(j2.id) == j2,
    {
        assert(forall|k: int|
            0 <= k < post.jobs@.len() ==> (#[trigger] post.jobs@[k].id) == pre.jobs@[k].id);
        assert(post.wf());
        assert forall|jid: JobId| post.has_job(jid) == pre.has_job(jid) by {
            if pre.has_job(jid) {
                let k = pre.job_index(jid);
                assert(post.jobs@[k].id == jid);
                assert(post.has_job(jid));
            }
            if post.has_job(jid) {
                let k = choose|k: int|
                    0 <= k < post.jobs@.len() && (#[trigger] post.jobs@[k].id) == jid;
                assert(pre.jobs@[k].id == jid);
                assert(pre.has_job(jid));
            }
        }
        pre.lemma_index_unique(i, j2.id);
        post.lemma_index_unique(i, j2.id);
        assert forall|jid: JobId|
            jid != j2.id && pre.has_job(jid) implies post.job_at(jid) == pre.job_at(jid) by {
            let k = pre.job_index(jid);
            assert(0 <= k < pre.jobs@.len() && pre.jobs@[k].id == jid);
            assert(k != i);
            post.lemma_index_unique(k, jid);
        }
    }

    /// An engine holding no jobs.
    pub fn new() -> (e: FakeEngine)
        ensures
            e.wf(),
            e.jobs@.len() == 0,
            e.next_ordinal == 0,
    {
        FakeEngine { jobs: Vec::new(), next_ordinal: 0 }
    }

    fn find_index(&self, id: &JobId) -> (r: Option<usize>)
        requires
            self.wf(),
        ensures
            match r {
                Some(i) => i < self.jobs@.len() && self.jobs@[i as int].id == *id
                    && self.has_job(*id) && self.job_index(*id) == i,
                None => !self.has_job(*id),
            },
    {
        let mut i: usize = 0;
        while i < self.jobs.len()
            invariant
                self.wf(),
                i <= self.jobs@.len(),
                forall|k: int| 0 <= k < i ==> (#[trigger] self.jobs@[k].id) != *id,
            decreases self.jobs@.len() - i,
        {
            if self.jobs[i].id == *id {
                proof {
                    self.lemma_index_unique(i as int, *id);
                }
                return Some(i);
            }
            i = i + 1;
        }
        None
    }

    /// Whether a job with this identifier exists.
    pub fn contains_job(&self, id: &JobId) -> (r: bool)
        requires
            self.wf(),
        ensures
            r == self.has_job(*id),
    {
        self.find_index(id).is_some()
    }

    /// Create a new suspended job and hand out its fresh identifier.
    pub fn create_job(&mut self, display_name: Vec<u8>) -> (id: JobId)
        requires
            old(self).wf(),
            old(self).next_ordinal < u64::MAX,
        ensures
            final(self).wf(),
            id == old(self).fresh_id(),
            !old(self).has_job(id),
            final(self).has_job(id),
            is_fresh_job(final(self).job_at(id)@, id, display_name@),
            final(self).jobs@ == old(self).jobs@.push(final(self).job_at(id)),
            final(self).next_ordinal == old(self).next_ordinal + 1,
            forall|jid: JobId| jid != id ==> final(self).has_job(jid) == old(self).has_job(jid),
            forall|jid: JobId|
                jid != id && old(self).has_job(jid) ==> final(self).job_at(jid) == old(
                    self,
                ).job_at(jid),
    {
        let id = JobId { hi: 0, lo: self.next_ordinal };
        let job = EngineJob {
            id,
            display_name,
            description: Vec::new(),
            files: Vec::new(),
            priority: 0,
            state: JobState::Suspended,
            progress: JobProgress {
                bytes_total: 0,
                bytes_transferred: 0,
                files_total: 0,
                files_transferred: 0,
            },
            error_count: 0,
            last_error: None,
            notify_transferred: false,
            notify_error: false,
            notify_modification: false,
            polls_until_transferred: None,
        };
        let ghost pre = *self;
        proof {
            assert(job@.files =~= Seq::<FileTransferV>::empty());
        }
        self.jobs.push(job);
        self.next_ordinal = self.next_ordinal + 1;
        proof {
            let n = pre.jobs@.len() as int;
            assert(self.jobs@[n].id == id);
            assert(forall|k: int| 0 <= k < n ==> (#[trigger] pre.jobs@[k].id) != id);
            self.lemma_index_unique(n, id);
            assert(self.wf());
            assert forall|jid: JobId| jid != id implies self.has_job(jid) == pre.has_job(jid) by {
                if pre.has_job(jid) {
                    let k = pre.job_index(jid);
                    assert(self.jobs@[k].id == jid);
                }
                if self.has_job(jid) {
                    let k = choose|k: int|
                        0 <= k < self.jobs@.len() && (#[trigger] self.jobs@[k].id) == jid;
                    assert(k != n);
                    assert(pre.jobs@[k].id == jid);
                }
            }
            assert forall|jid: JobId|
                jid != id && pre.has_job(jid) implies self.job_at(jid) == pre.job_at(jid) by {
                let k = pre.job_index(jid);
                assert(0 <= k < pre.jobs@.len() && pre.jobs@[k].id == jid);
                self.lemma_index_unique(k, jid);
            }
        }
        id
    }

    /// Add one file transfer to a job.
    pub fn add_file(&mut self, id: &JobId, url: Vec<u8>, save_path: Vec<u8>) -> (r: Result<
        (),
        EngineError,
    >)
        requires
            old(self).wf(),
        ensures
            final(self).wf(),
            final(self).next_ordinal == old(self).next_ordinal,
            forall|jid: JobId| final(self).has_job(jid) == old(self).has_job(jid),
            forall|jid: JobId|
                jid != *id && old(self).has_job(jid) ==> final(self).job_at(jid) == old(
                    self,
                ).job_at(jid),
            old(self).has_job(*id) ==> r is Ok && final(self).job_at(*id)@ == (EngineJobV {
                files: old(self).job_at(*id)@.files.push(
                    FileTransferV { url: url@, save_path: save_path@ },
                ),
                ..old(self).job_at(*id)@
            }),
            !old(self).has_job(*id) ==> r == Err::<(), _>(EngineError::NotFound) && *final(self)
                == *old(self),
    {
        match self.find_index(id) {
            None => Err(EngineError::NotFound),
            Some(i) => {
                let ghost pre = *self;
                let mut j = self.jobs.remove(i);
                let ghost j0 = j;
                j.files.push(FileTransfer { url, save_path });
                proof {
                    assert(j@.files =~= j0@.files.push(
                        FileTransferV { url: url@, save_path: save_path@ },
                    ));
                }
                self.jobs.insert(i, j);
                proof {
                    assert(self.jobs@ =~= pre.jobs@.update(i as int, self.jobs@[i as int]));
                    Self::lemma_update_frame(pre, *self, i as int, self.jobs@[i as int]);
                    assert(final(self).job_at(*id)@ =~= (EngineJobV {
                        files: pre.job_at(*id)@.files.push(
                            FileTransferV { url: url@, save_path: save_path@ },
                        ),
                        ..pre.job_at(*id)@
                    }));
                }
                Ok(())
            },
        }
    }

    /// Set the human-readable description of a job.
    pub fn set_description(&mut self, id: &JobId, description: Vec<u8>) -> (r: Result<
        (),
        EngineError,
    >)
        requires
            old(self).wf(),
        ensures
            final(self).wf(),
            final(self).next_ordinal == old(self).next_ordinal,
            forall|jid: JobId| final(self).has_job(jid) == old(self).has_job(jid),
            forall|jid: JobId|
                jid != *id && old(self).has_job(jid) ==> final(self).job_at(jid) == old(
                    self,
                ).job_at(jid),
            old(self).has_job(*id) ==> r is Ok && final(self).job_at(*id)@ == (EngineJobV {
                description: description@,
                ..old(self).job_at(*id)@
            }),
            !old(self).has_job(*id) ==> r == Err::<(), _>(EngineError::NotFound) && *final(self)
                == *old(self),
    {
        match self.find_index(id) {
            None => Err(EngineError::NotFound),
            Some(i) => {
                let ghost pre = *self;
                let mut j = self.jobs.remove(i);
                j.description = description;
                self.jobs.insert(i, j);
                proof {
                    assert(self.jobs@ =~= pre.jobs@.update(i as int, self.jobs@[i as int]));
                    Self::lemma_update_frame(pre, *self, i as int, self.jobs@[i as int]);
                }
                Ok(())
            },
        }
    }

    /// Set the transfer priority of a job.
    pub fn set_priority(&mut self, id: &JobId, priority: u32) -> (r: Result<(), EngineError>)
        requires
            old(self).wf(),
        ensures
            final(self).wf(),
            final(self).next_ordinal == old(self).next_ordinal,
            forall|jid: JobId| final(self).has_job(jid) == old(self).has_job(jid),
            forall|jid: JobId|
                jid != *id && old(self).has_job(jid) ==> final(self).job_at(jid) == old(
                    self,
                ).job_at(jid),
            old(self).has_job(*id) ==> r is Ok && final(self).job_at(*id)@ == (EngineJobV {
                priority,
                ..old(self).job_at(*id)@
            }),
            !old(self).has_job(*id) ==> r == Err::<(), _>(EngineError::NotFound) && *final(self)
                == *old(self),
    {
        match self.find_index(id) {
            None => Err(EngineError::NotFound),
            Some(i) => {
                let ghost pre = *self;
                let mut j = self.jobs.remove(i);
                j.priority = priority;
                self.jobs.insert(i, j);
                proof {
                    assert(self.jobs@ =~= pre.jobs@.update(i as int, self.jobs@[i as int]));
                    Self::lemma_update_frame(pre, *self, i as int, self.jobs@[i as int]);
                }
                Ok(())
            },
        }
    }

    /// Resume a job: in this model it starts connecting at once.
    pub fn resume(&mut self, id: &JobId) -> (r: Result<(), EngineError>)
        requires
            old(self).wf(),
        ensures
            final(self).wf(),
            final(self).next_ordinal == old(self).next_ordinal,
            forall|jid: JobId| final(self).has_job(jid) == old(self).has_job(jid),
            forall|jid: JobId|
                jid != *id && old(self).has_job(jid) ==> final(self).job_at(jid) == old(
                    self,
                ).job_at(jid),
            old(self).has_job(*id) ==> r is Ok && final(self).job_at(*id)@ == (EngineJobV {
                state: JobState::Connecting,
                ..old(self).job_at(*id)@
            }),
            !old(self).has_job(*id) ==> r == Err::<(), _>(EngineError::NotFound) && *final(self)
                == *old(self),
    {
        match self.find_index(id) {
            None => Err(EngineError::NotFound),
            Some(i) => {
                let ghost pre = *self;
                let mut j = self.jobs.remove(i);
                j.state = JobState::Connecting;
                self.jobs.insert(i, j);
                proof {
                    assert(self.jobs@ =~= pre.jobs@.update(i as int, self.jobs@[i as int]));
                    Self::lemma_update_frame(pre, *self, i as int, self.jobs@[i as int]);
                }
                Ok(())
            },
        }
    }

    /// Suspend a job.
    pub fn suspend(&mut self, id: &JobId) -> (r: Result<(), EngineError>)
        requires
            old(self).wf(),
        ensures
            final(self).wf(),
            final(self).next_ordinal == old(self).next_ordinal,
            forall|jid: JobId| final(self).has_job(jid) == old(self).has_job(jid),
            forall|jid: JobId|
                jid != *id && old(self).has_job(jid) ==> final(self).job_at(jid) == old(
                    self,
                ).job_at(jid),
            old(self).has_job(*id) ==> r is Ok && final(self).job_at(*id)@ == (EngineJobV {
                state: JobState::Suspended,
                ..old(self).job_at(*id)@
            }),
            !old(self).has_job(*id) ==> r == Err::<(), _>(EngineError::NotFound) && *final(self)
                == *old(self),
    {
        match self.find_index(id) {
            None => Err(EngineError::NotFound),
            Some(i) => {
                let ghost pre = *self;
                let mut j = self.jobs.remove(i);
                j.state = JobState::Suspended;
                self.jobs.insert(i, j);
                proof {
                    assert(self.jobs@ =~= pre.jobs@.update(i as int, self.jobs@[i as int]));
                    Self::lemma_update_frame(pre, *self, i as int, self.jobs@[i as int]);
                }
                Ok(())
            },
        }
    }

    /// Complete a job: acknowledge its transferred data.
    pub fn complete(&mut self, id: &JobId) -> (r: Result<(), EngineError>)
        requires
            old(self).wf(),
        ensures
            final(self).wf(),
            final(self).next_ordinal == old(self).next_ordinal,
            forall|jid: JobId| final(self).has_job(jid) == old(self).has_job(jid),
            forall|jid: JobId|
                jid != *id && old(self).has_job(jid) ==> final(self).job_at(jid) == old(
                    self,
                ).job_at(jid),
            old(self).has_job(*id) ==> r is Ok && final(self).job_at(*id)@ == (EngineJobV {
                state: JobState::Acknowledged,
                ..old(self).job_at(*id)@
            }),
            !old(self).has_job(*id) ==> r == Err::<(), _>(EngineError::NotFound) && *final(self)
                == *old(self),
    {
        match self.find_index(id) {
            None => Err(EngineError::NotFound),
            Some(i) => {
                let ghost pre = *self;
                let mut j = self.jobs.remove(i);
                j.state = JobState::Acknowledged;
                self.jobs.insert(i, j);
                proof {
                    assert(self.jobs@ =~= pre.jobs@.update(i as int, self.jobs@[i as int]));
                    Self::lemma_update_frame(pre, *self, i as int, self.jobs@[i as int]);
                }
                Ok(())
            },
        }
    }

    /// Cancel a job: the only termination path besides natural completion.
    /// Afterwards the job's state is terminal, so monitoring of it ends.
    pub fn cancel(&mut self, id: &JobId) -> (r: Result<(), EngineError>)
        requires
            old(self).wf(),
        ensures
            final(self).wf(),
            final(self).next_ordinal == old(self).next_ordinal,
            forall|jid: JobId| final(self).has_job(jid) == old(self).has_job(jid),
            forall|jid: JobId|
                jid != *id && old(self).has_job(jid) ==> final(self).job_at(jid) == old(
                    self,
                ).job_at(jid),
            old(self).has_job(*id) ==> r is Ok && final(self).job_at(*id)@ == (EngineJobV {
                state: JobState::Cancelled,
                ..old(self).job_at(*id)@
            }),
            !old(self).has_job(*id) ==> r == Err::<(), _>(EngineError::NotFound) && *final(self)
                == *old(self),
    {
        match self.find_index(id) {
            None => Err(EngineError::NotFound),
            Some(i) => {
                let ghost pre = *self;
                let mut j = self.jobs.remove(i);
                j.state = JobState::Cancelled;
                self.jobs.insert(i, j);
                proof {
                    assert(self.jobs@ =~= pre.jobs@.update(i as int, self.jobs@[i as int]));
                    Self::lemma_update_frame(pre, *self, i as int, self.jobs@[i as int]);
                }
                Ok(())
            },
        }
    }

    /// Register interest in the job's events: one flag per callback the
    /// caller supplies.
    pub fn register_callbacks(
        &mut self,
        id: &JobId,
        transferred: bool,
        error: bool,
        modification: bool,
    ) -> (r: Result<(), EngineError>)
        requires
            old(self).wf(),
        ensures
            final(self).wf(),
            final(self).next_ordinal == old(self).next_ordinal,
            forall|jid: JobId| final(self).has_job(jid) == old(self).has_job(jid),
            forall|jid: JobId|
                jid != *id && old(self).has_job(jid) ==> final(self).job_at(jid) == old(
                    self,
                ).job_at(jid),
            old(self).has_job(*id) ==> r is Ok && final(self).job_at(*id)@ == (EngineJobV {
                notify_transferred: transferred,
                notify_error: error,
                notify_modification: modification,
                ..old(self).job_at(*id)@
            }),
            !old(self).has_job(*id) ==> r == Err::<(), _>(EngineError::NotFound) && *final(self)
                == *old(self),
    {
        match self.find_index(id) {
            None => Err(EngineError::NotFound),
            Some(i) => {
                let ghost pre = *self;
                let mut j = self.jobs.remove(i);
                j.notify_transferred = transferred;
                j.notify_error = error;
                j.notify_modification = modification;
                self.jobs.insert(i, j);
                proof {
                    assert(self.jobs@ =~= pre.jobs@.update(i as int, self.jobs@[i as int]));
                    Self::lemma_update_frame(pre, *self, i as int, self.jobs@[i as int]);
                }
                Ok(())
            },
        }
    }

    /// Script the fake: the job becomes `Transferred` after this many more
    /// status polls, as if the engine fired the transferred callback then.
    pub fn schedule_transfer_after(&mut self, id: &JobId, polls: u32) -> (r: Result<
        (),
        EngineError,
    >)
        requires
            old(self).wf(),
        ensures
            final(self).wf(),
            final(self).next_ordinal == old(self).next_ordinal,
            forall|jid: JobId| final(self).has_job(jid) == old(self).has_job(jid),
            forall|jid: JobId|
                jid != *id && old(self).has_job(jid) ==> final(self).job_at(jid) == old(
                    self,
                ).job_at(jid),
            old(self).has_job(*id) ==> r is Ok && final(self).job_at(*id)@ == (EngineJobV {
                polls_until_transferred: Some(polls),
                ..old(self).job_at(*id)@
            }),
            !old(self).has_job(*id) ==> r == Err::<(), _>(EngineError::NotFound) && *final(self)
                == *old(self),
    {
        match self.find_index(id) {
            None => Err(EngineError::NotFound),
            Some(i) => {
                let ghost pre = *self;
                let mut j = self.jobs.remove(i);
                j.polls_until_transferred = Some(polls);
                self.jobs.insert(i, j);
                proof {
                    assert(self.jobs@ =~= pre.jobs@.update(i as int, self.jobs@[i as int]));
                    Self::lemma_update_frame(pre, *self, i as int, self.jobs@[i as int]);
                }
                Ok(())
            },
        }
    }

    /// Script the fake: the engine hits a transient error on the job.  It
    /// records the error, counts it, and keeps retrying, so the state stays
    /// in the active set and `get_status` reports the error.
    pub fn hit_transient_error(&mut self, id: &JobId, context: u32, code: u32) -> (r: Result<
        (),
        EngineError,
    >)
        requires
            old(self).wf(),
        ensures
            final(self).wf(),
            final(self).next_ordinal == old(self).next_ordinal,
            forall|jid: JobId| final(self).has_job(jid) == old(self).has_job(jid),
            forall|jid: JobId|
                jid != *id && old(self).has_job(jid) ==> final(self).job_at(jid) == old(
                    self,
                ).job_at(jid),
            old(self).has_job(*id) ==> r is Ok && final(self).job_at(*id)@ == (EngineJobV {
                state: JobState::TransientError,
                error_count: if old(self).job_at(*id)@.error_count < u32::MAX {
                    (old(self).job_at(*id)@.error_count + 1) as u32
                } else {
                    old(self).job_at(*id)@.error_count
                },
                last_error: Some(JobError { context, code }),
                ..old(self).job_at(*id)@
            }),
            !old(self).has_job(*id) ==> r == Err::<(), _>(EngineError::NotFound) && *final(self)
                == *old(self),
    {
        match self.find_index(id) {
            None => Err(EngineError::NotFound),
            Some(i) => {
                let ghost pre = *self;
                let mut j = self.jobs.remove(i);
                j.state = JobState::TransientError;
                if j.error_count < u32::MAX {
                    j.error_count = j.error_count + 1;
                }
                j.last_error = Some(JobError { context, code });
                self.jobs.insert(i, j);
                proof {
                    assert(self.jobs@ =~= pre.jobs@.update(i as int, self.jobs@[i as int]));
                    Self::lemma_update_frame(pre, *self, i as int, self.jobs@[i as int]);
                }
                Ok(())
            },
        }
    }

    /// The engine fires the transferred event: if the callback is
    /// registered, the job becomes `Transferred` at once.
    pub fn fire_transferred(&mut self, id: &JobId) -> (r: Result<(), EngineError>)
        requires
            old(self).wf(),
        ensures
            final(self).wf(),
            final(self).next_ordinal == old(self).next_ordinal,
            forall|jid: JobId| final(self).has_job(jid) == old(self).has_job(jid),
            forall|jid: JobId|
                jid != *id && old(self).has_job(jid) ==> final(self).job_at(jid) == old(
                    self,
                ).job_at(jid),
            old(self).has_job(*id) && old(self).job_at(*id)@.notify_transferred ==> r is Ok
                && final(self).job_at(*id)@ == (EngineJobV {
                state: JobState::Transferred,
                polls_until_transferred: None,
                ..old(self).job_at(*id)@
            }),
            old(self).has_job(*id) && !old(self).job_at(*id)@.notify_transferred ==> r is Ok
                && *final(self) == *old(self),
            !old(self).has_job(*id) ==> r == Err::<(), _>(EngineError::NotFound) && *final(self)
                == *old(self),
    {
        match self.find_index(id) {
            None => Err(EngineError::NotFound),
            Some(i) => {
                proof {
                    self.lemma_index_unique(i as int, *id);
                }
                if !self.jobs[i].notify_transferred {
                    return Ok(());
                }
                let ghost pre = *self;
                let mut j = self.jobs.remove(i);
                j.state = JobState::Transferred;
                j.polls_until_transferred = None;
                self.jobs.insert(i, j);
                proof {
                    assert(self.jobs@ =~= pre.jobs@.update(i as int, self.jobs@[i as int]));
                    Self::lemma_update_frame(pre, *self, i as int, self.jobs@[i as int]);
                }
                Ok(())
            },
        }
    }

    /// Read the current status of a job.  A due script fires first, so a
    /// poll after the scripted moment observes the transferred state.
    pub fn get_status(&mut self, id: &JobId) -> (r: Result<JobStatus, EngineError>)
        requires
            old(self).wf(),
        ensures
            final(self).wf(),
            final(self).next_ordinal == old(self).next_ordinal,
            forall|jid: JobId| final(self).has_job(jid) == old(self).has_job(jid),
            forall|jid: JobId|
                jid != *id && old(self).has_job(jid) ==> final(self).job_at(jid) == old(
                    self,
                ).job_at(jid),
            old(self).has_job(*id) ==> r == Ok::<_, EngineError>(
                spec_status_of(spec_poll_job(old(self).job_at(*id)@)),
            ) && final(self).job_at(*id)@ == spec_poll_job(old(self).job_at(*id)@),
            !old(self).has_job(*id) ==> r == Err::<JobStatus, _>(EngineError::NotFound)
                && *final(self) == *old(self),
    {
        match self.find_index(id) {
            None => Err(EngineError::NotFound),
            Some(i) => {
                let ghost pre = *self;
                let mut j = self.jobs.remove(i);
                match j.polls_until_transferred {
                    Some(k) => {
                        if k == 0 {
                            j.state = JobState::Transferred;
                            j.polls_until_transferred = None;
                        } else {
                            j.polls_until_transferred = Some(k - 1);
                        }
                    },
                    None => {},
                }
                let in_error_state = match j.state {
                    JobState::Error => true,
                    JobState::TransientError => true,
                    _ => false,
                };
                let status = JobStatus {
                    state: j.state,
                    progress: j.progress,
                    error_count: j.error_count,
                    error: if in_error_state {
                        j.last_error
                    } else {
                        None
                    },
                };
                self.jobs.insert(i, j);
                proof {
                    assert(self.jobs@ =~= pre.jobs@.update(i as int, self.jobs@[i as int]));
                    Self::lemma_update_frame(pre, *self, i as int, self.jobs@[i as int]);
                    assert(final(self).job_at(*id)@ =~= spec_poll_job(pre.job_at(*id)@));
                }
                Ok(status)
            },
        }
    }
}

} // verus!
