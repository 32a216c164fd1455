//! Conversion jobs and the table that tracks them through their lifecycle.
use vstd::prelude::*;
use std::time::{Duration, SystemTime, SystemTimeError};
use crate::text::{owned, str_eq};

verus! {

broadcast use vstd::string::group_string_axioms;

/// Where a job stands in its lifecycle.
#[derive(Debug, Clone, Copy, PartialEq, Eq, Structural)]
pub enum JobStatus {
    Queued,
    Processing,
    Completed,
    Failed,
    Cancelled,
}

/// The conversion a job asks for: source and target format.
#[derive(Debug, PartialEq, Eq)]
pub struct JobPayload {
    pub from: String,
    pub to: String,
}

/// One conversion job.
#[derive(Debug, PartialEq, Eq)]
pub struct Job {
    pub id: String,
    pub created_at: u64,
    pub status: JobStatus,
    pub input_name: String,
    pub output_name: Option<String>,
    pub payload: JobPayload,
    pub progress: u8,
    pub error: Option<String>,
}

/// A job as plain values.
pub struct JobView {
    pub id: Seq<char>,
    pub created_at: u64,
    pub status: JobStatus,
    pub input_name: Seq<char>,
    pub output_name: Option<Seq<char>>,
    pub from: Seq<char>,
    pub to: Seq<char>,
    pub progress: u8,
    pub error: Option<Seq<char>>,
}

/// The characters of an optional string.
pub open spec fn opt_view(s: Option<String>) -> Option<Seq<char>> {
    match s {
        Some(x) => Some(x@),
        None => None,
    }
}

impl View for Job {
    type V = JobView;

    open spec fn view(&self) -> JobView {
        JobView {
            id: self.id@,
            created_at: self.created_at,
            status: self.status,
            input_name: self.input_name@,
            output_name: opt_view(self.output_name),
            from: self.payload.from@,
            to: self.payload.to@,
            progress: self.progress,
            error: opt_view(self.error),
        }
    }
}

/// A copy of an optional string.
fn copy_opt(s: &Option<String>) -> (r: Option<String>)
    ensures
        opt_view(r) == opt_view(*s),
{
    match s {
        Some(x) => Some(x.clone()),
        None => None,
    }
}

impl Clone for JobPayload {
    fn clone(&self) -> (r: Self)
        ensures
            r.from@ == self.from@,
            r.to@ == self.to@,
    {
        JobPayload { from: self.from.clone(), to: self.to.clone() }
    }
}

impl Clone for Job {
    fn clone(&self) -> (r: Self)
        ensures
            r@ == self@,
    {
        Job {
            id: self.id.clone(),
            created_at: self.created_at,
            status: self.status,
            input_name: self.input_name.clone(),
            output_name: copy_opt(&self.output_name),
            payload: self.payload.clone(),
            progress: self.progress,
            error: copy_opt(&self.error),
        }
    }
}

/// The name under which a status is stored and reported.
pub open spec fn status_text(status: JobStatus) -> Seq<char> {
    match status {
        JobStatus::Queued => "queued"@,
        JobStatus::Processing => "processing"@,
        JobStatus::Completed => "completed"@,
        JobStatus::Failed => "failed"@,
        JobStatus::Cancelled => "cancelled"@,
    }
}

/// The status a stored name denotes; any unknown name reads as `Queued`.
pub open spec fn status_from_text(s: Seq<char>) -> JobStatus {
    if s == "processing"@ {
        JobStatus::Processing
    } else if s == "completed"@ {
        JobStatus::Completed
    } else if s == "failed"@ {
        JobStatus::Failed
    } else if s == "cancelled"@ {
        JobStatus::Cancelled
    } else {
        JobStatus::Queued
    }
}

/// The stored name of `status`.
pub fn status_name(status: &JobStatus) -> (r: &'static str)
    ensures
        r@ == status_text(*status),
{
    match status {
        JobStatus::Queued => "queued",
        JobStatus::Processing => "processing",
        JobStatus::Completed => "completed",
        JobStatus::Failed => "failed",
        JobStatus::Cancelled => "cancelled",
    }
}

/// The status that the stored name `status` denotes.
pub fn parse_status(status: &str) -> (r: JobStatus)
    ensures
        r == status_from_text(status@),
{
    if str_eq(status, "processing") {
        JobStatus::Processing
    } else if str_eq(status, "completed") {
        JobStatus::Completed
    } else if str_eq(status, "failed") {
        JobStatus::Failed
    } else if str_eq(status, "cancelled") {
        JobStatus::Cancelled
    } else {
        JobStatus::Queued
    }
}

/// Reading back the stored name of a status gives that status.
pub proof fn law_status_names_read_back(status: JobStatus)
    ensures
        status_from_text(status_text(status)) == status,
{
    reveal_strlit("queued");
    reveal_strlit("processing");
    reveal_strlit("completed");
    reveal_strlit("failed");
    reveal_strlit("cancelled");
    match status {
        JobStatus::Queued => {
            assert("queued"@[0] != "processing"@[0]);
            assert("queued"@[0] != "completed"@[0]);
            assert("queued"@[0] != "failed"@[0]);
            assert("queued"@[0] != "cancelled"@[0]);
        },
        JobStatus::Processing => {},
        JobStatus::Completed => {
            assert("completed"@[0] != "processing"@[0]);
        },
        JobStatus::Failed => {
            assert("failed"@[0] != "processing"@[0]);
            assert("failed"@[0] != "completed"@[0]);
        },
        JobStatus::Cancelled => {
            assert("cancelled"@[0] != "processing"@[0]);
            assert("cancelled"@[1] != "completed"@[1]);
            assert("cancelled"@[0] != "failed"@[0]);
        },
    }
}

/// Whether some job of `s` has the id `id`.
pub open spec fn has_job(s: Seq<JobView>, id: Seq<char>) -> bool {
    exists|i: int| 0 <= i < s.len() && (#[trigger] s[i]).id == id
}

/// The job of `s` with the id `id`, if any.
pub open spec fn lookup(s: Seq<JobView>, id: Seq<char>) -> Option<JobView> {
    if has_job(s, id) {
        Some(s[choose|i: int| 0 <= i < s.len() && (#[trigger] s[i]).id == id])
    } else {
        None
    }
}

/// No two jobs of `s` share an id.
pub open spec fn ids_unique(s: Seq<JobView>) -> bool {
    forall|i: int, j: int| 0 <= i < s.len() && 0 <= j < s.len() && i != j ==> (#[trigger] s[i]).id
        != (#[trigger] s[j]).id
}

/// The jobs of `s` stand in order of creation time.
pub open spec fn ordered_by_creation(s: Seq<JobView>) -> bool {
    forall|i: int, j: int|
        0 <= i <= j < s.len() ==> (#[trigger] s[i]).created_at <= (#[trigger] s[j]).created_at
}

/// A fresh job: queued, with no progress, output or error.
pub open spec fn fresh_job(
    id: Seq<char>,
    created_at: u64,
    input_name: Seq<char>,
    from: Seq<char>,
    to: Seq<char>,
) -> JobView {
    JobView {
        id,
        created_at,
        status: JobStatus::Queued,
        input_name,
        output_name: None,
        from,
        to,
        progress: 0,
        error: None,
    }
}

/// Where a job created at `t` joins `s`: after every job created no later than `t`.
pub open spec fn insert_position(s: Seq<JobView>, t: u64) -> int
    decreases s.len(),
{
    if s.len() == 0 {
        0
    } else if s.last().created_at <= t {
        s.len() as int
    } else {
        insert_position(s.drop_last(), t)
    }
}

/// `s` with the saved job `j` put back: unchanged when a job with its id is there
/// already, otherwise `j` joins after every job created no later than it.
pub open spec fn restore_one(s: Seq<JobView>, j: JobView) -> Seq<JobView> {
    if has_job(s, j.id) {
        s
    } else {
        s.insert(insert_position(s, j.created_at), j)
    }
}

/// An empty table with the saved jobs `saved` put back one after the other.
pub open spec fn restore_all(saved: Seq<JobView>) -> Seq<JobView>
    decreases saved.len(),
{
    if saved.len() == 0 {
        Seq::empty()
    } else {
        restore_one(restore_all(saved.drop_last()), saved.last())
    }
}

/// `j` with the status `status`.
pub open spec fn with_status(j: JobView, status: JobStatus) -> JobView {
    JobView { status, ..j }
}

/// `j` with the progress `progress`.
pub open spec fn with_progress(j: JobView, progress: u8) -> JobView {
    JobView { progress, ..j }
}

/// `j` with the output file `name`.
pub open spec fn with_output(j: JobView, name: Seq<char>) -> JobView {
    JobView { output_name: Some(name), ..j }
}

/// `j` failed with the message `error`.
pub open spec fn with_error(j: JobView, error: Seq<char>) -> JobView {
    JobView { status: JobStatus::Failed, error: Some(error), ..j }
}

/// `s` with the job `id` replaced by `f` of it.
pub open spec fn update_job(s: Seq<JobView>, id: Seq<char>, f: spec_fn(JobView) -> JobView) -> Seq<
    JobView,
> {
    s.map_values(|j: JobView| if j.id == id { f(j) } else { j })
}

/// The views of a sequence of jobs.
pub open spec fn views(s: Seq<Job>) -> Seq<JobView> {
    s.map_values(|j: Job| j@)
}

/// `j` put back in the queue when it was being processed.
pub open spec fn requeued(j: JobView) -> JobView {
    if j.status == JobStatus::Processing {
        with_status(j, JobStatus::Queued)
    } else {
        j
    }
}

/// The ids of the jobs of `s`, in order.
pub open spec fn ids_of(s: Seq<JobView>) -> Seq<Seq<char>> {
    s.map_values(|j: JobView| j.id)
}

/// The characters of each string of `v`.
pub open spec fn texts(v: Seq<String>) -> Seq<Seq<char>> {
    v.map_values(|s: String| s@)
}

proof fn lemma_take_push<A>(s: Seq<A>, k: int)
    requires
        0 <= k < s.len(),
    ensures
        s.take(k + 1) == s.take(k).push(s[k]),
{
    assert(s.take(k + 1) =~= s.take(k).push(s[k]));
}

/// Whether a job can no longer change: it completed, failed or was cancelled.
pub open spec fn is_terminal(status: JobStatus) -> bool {
    status == JobStatus::Completed || status == JobStatus::Failed || status == JobStatus::Cancelled
}

/// The creation time at or before which finished jobs expire: `now - retention_seconds`,
/// or 0 when that would be negative.
pub open spec fn expiry_cutoff(now: u64, retention_seconds: u64) -> u64 {
    if now >= retention_seconds {
        (now - retention_seconds) as u64
    } else {
        0
    }
}

/// Whether `j` is a finished job created no later than `cutoff`.
pub open spec fn is_expired(j: JobView, cutoff: u64) -> bool {
    j.created_at <= cutoff && is_terminal(j.status)
}

/// The jobs of a store, in order of creation; their ids are unique.
pub struct JobStore {
    jobs: Vec<Job>,
}

impl View for JobStore {
    type V = Seq<JobView>;

    closed spec fn view(&self) -> Seq<JobView> {
        views(self.jobs@)
    }
}

impl JobStore {
    #[verifier::type_invariant]
    spec fn well_formed(self) -> bool {
        &&& ids_unique(self@)
        &&& ordered_by_creation(self@)
    }

    /// An empty store.
    pub fn new() -> (store: Self)
        ensures
            store@ == Seq::<JobView>::empty(),
    {
        let store = JobStore { jobs: Vec::new() };
        assert(store@ =~= Seq::<JobView>::empty());
        store
    }

    /// The index of the job `id`, if there is one.
    fn index_of(&self, id: &str) -> (r: Option<usize>)
        ensures
            match r {
                Some(i) => i < self@.len() && self@[i as int].id == id@ && lookup(self@, id@) == Some(
                    self@[i as int],
                ),
                None => !has_job(self@, id@) && lookup(self@, id@) is None,
            },
    {
        proof {
            use_type_invariant(self);
        }
        let mut i: usize = 0;
        while i < self.jobs.len()
            invariant
                i <= self.jobs.len(),
                self@.len() == self.jobs.len(),
                ids_unique(self@),
                forall|k: int| 0 <= k < i ==> (#[trigger] self@[k]).id != id@,
            decreases self.jobs.len() - i,
        {
            assert(self@[i as int] == self.jobs@[i as int]@);
            if str_eq(self.jobs[i].id.as_str(), id) {
                assert(has_job(self@, id@));
                let ghost c = choose|k: int| 0 <= k < self@.len() && (#[trigger] self@[k]).id == id@;
                assert(c == i);
                return Some(i);
            }
            i = i + 1;
        }
        None
    }

    /// The job `id`.
    pub fn get(&self, id: &str) -> (r: Option<Job>)
        ensures
            match r {
                Some(j) => lookup(self@, id@) == Some(j@),
                None => lookup(self@, id@) is None,
            },
    {
        match self.index_of(id) {
            Some(i) => {
                assert(self@[i as int] == self.jobs@[i as int]@);
                Some(self.jobs[i].clone())
            },
            None => None,
        }
    }

    /// Every job, in order of creation.
    pub fn list(&self) -> (r: Vec<Job>)
        ensures
            views(r@) == self@,
            ids_unique(self@),
            ordered_by_creation(self@),
    {
        proof {
            use_type_invariant(self);
        }
        let mut out: Vec<Job> = Vec::new();
        let mut i: usize = 0;
        while i < self.jobs.len()
            invariant
                i <= self.jobs.len(),
                self@.len() == self.jobs.len(),
                views(out@) == self@.take(i as int),
            decreases self.jobs.len() - i,
        {
            let j = self.jobs[i].clone();
            assert(self@[i as int] == self.jobs@[i as int]@);
            let ghost prev = out@;
            assert(views(prev).len() == prev.len());
            assert(prev.len() == i);
            out.push(j);
            assert(out@.len() == i + 1);
            assert forall|k: int| 0 <= k < i implies out@[k]@ == self@[k] by {
                assert(views(prev)[k] == self@.take(i as int)[k]);
            }
            assert(views(out@) =~= self@.take(i + 1));
            i = i + 1;
        }
        assert(self@.take(self.jobs.len() as int) =~= self@);
        out
    }

    /// Where a job created at `t` joins the table.
    fn insertion_index(&self, t: u64) -> (p: usize)
        ensures
            p as int == insert_position(self@, t),
            p <= self@.len(),
    {
        let mut i: usize = self.jobs.len();
        assert(self@.take(i as int) =~= self@);
        while i > 0 && self.jobs[i - 1].created_at > t
            invariant
                i <= self.jobs.len(),
                self@.len() == self.jobs.len(),
                insert_position(self@, t) == insert_position(self@.take(i as int), t),
            decreases i,
        {
            assert(self@[i - 1] == self.jobs@[i - 1]@);
            assert(self@.take(i as int).drop_last() =~= self@.take(i - 1));
            i = i - 1;
        }
        if i > 0 {
            assert(self@[i - 1] == self.jobs@[i - 1]@);
        }
        i
    }

    /// Puts the saved job `job` back into the table, unless a job with its id is there
    /// already; it joins after every job created no later than it. Tells whether it was
    /// put back.
    pub fn restore(&mut self, job: Job) -> (r: bool)
        ensures
            r == !has_job(old(self)@, job@.id),
            final(self)@ == restore_one(old(self)@, job@),
    {
        proof {
            use_type_invariant(&*self);
        }
        if self.index_of(job.id.as_str()).is_some() {
            return false;
        }
        let ghost v = job@;
        let p = self.insertion_index(job.created_at);
        let ghost before = self@;
        proof {
            lemma_insert_position_splits(before, v.created_at);
        }
        let mut jobs: Vec<Job> = Vec::new();
        std::mem::swap(&mut jobs, &mut self.jobs);
        assert(views(jobs@) == before);
        jobs.insert(p, job);
        assert(views(jobs@) =~= before.insert(p as int, v));
        self.jobs = jobs;
        true
    }

    /// The table holding the saved jobs `saved`, put back one after the other.
    pub fn from_saved(saved: &Vec<Job>) -> (r: Self)
        ensures
            r@ == restore_all(views(saved@)),
    {
        let mut store = JobStore::new();
        let mut i: usize = 0;
        while i < saved.len()
            invariant
                i <= saved.len(),
                store@ == restore_all(views(saved@).take(i as int)),
            decreases saved.len() - i,
        {
            let job = saved[i].clone();
            proof {
                let t = views(saved@).take(i + 1);
                assert(t.drop_last() =~= views(saved@).take(i as int));
                assert(t.last() == saved@[i as int]@);
            }
            store.restore(job);
            i = i + 1;
        }
        assert(views(saved@).take(saved.len() as int) =~= views(saved@));
        store
    }

    /// Adds a fresh job with the given id and creation time, unless a job with that id
    /// exists already; the new job joins after every job created no later than it.
    pub fn insert_job(
        &mut self,
        id: String,
        created_at: u64,
        input_name: &str,
        from: &str,
        to: &str,
    ) -> (r: Option<Job>)
        ensures
            match r {
                Some(j) => {
                    &&& !has_job(old(self)@, id@)
                    &&& j@ == fresh_job(id@, created_at, input_name@, from@, to@)
                    &&& final(self)@ == old(self)@.insert(insert_position(old(self)@, created_at), j@)
                },
                None => has_job(old(self)@, id@) && final(self)@ == old(self)@,
            },
    {
        let job = Job {
            id,
            created_at,
            status: JobStatus::Queued,
            input_name: owned(input_name),
            output_name: None,
            payload: JobPayload { from: owned(from), to: owned(to) },
            progress: 0,
            error: None,
        };
        let copy = job.clone();
        if self.restore(job) {
            Some(copy)
        } else {
            None
        }
    }

    /// Puts `job` in place of the job at index `i`, whose id and creation time it keeps.
    fn put_back(&mut self, i: usize, job: Job)
        requires
            i < old(self)@.len(),
            job@.id == old(self)@[i as int].id,
            job@.created_at == old(self)@[i as int].created_at,
        ensures
            final(self)@ == old(self)@.update(i as int, job@),
    {
        proof {
            use_type_invariant(&*self);
        }
        let ghost before = self@;
        let ghost v = job@;
        let mut jobs: Vec<Job> = Vec::new();
        std::mem::swap(&mut jobs, &mut self.jobs);
        assert(views(jobs@) == before);
        jobs.set(i, job);
        assert(views(jobs@) =~= before.update(i as int, v));
        assert(ids_unique(views(jobs@))) by {
            assert forall|a: int, b: int|
                0 <= a < jobs@.len() && 0 <= b < jobs@.len() && a != b implies (#[trigger] views(
                jobs@)[a]).id != (#[trigger] views(jobs@)[b]).id by {
                assert(views(jobs@)[a].id == before[a].id);
                assert(views(jobs@)[b].id == before[b].id);
            }
        }
        assert(ordered_by_creation(views(jobs@))) by {
            assert forall|a: int, b: int| 0 <= a <= b < jobs@.len() implies (#[trigger] views(
                jobs@)[a]).created_at <= (#[trigger] views(jobs@)[b]).created_at by {
                assert(views(jobs@)[a].created_at == before[a].created_at);
                assert(views(jobs@)[b].created_at == before[b].created_at);
            }
        }
        self.jobs = jobs;
    }

    /// Sets the status of the job `id`; gives the job as it then stands.
    pub fn update_status(&mut self, id: &str, status: JobStatus) -> (r: Option<Job>)
        ensures
            final(self)@ == update_job(old(self)@, id@, |j: JobView| with_status(j, status)),
            match r {
                Some(j) => lookup(final(self)@, id@) == Some(j@),
                None => lookup(final(self)@, id@) is None,
            },
    {
        proof {
            use_type_invariant(&*self);
        }
        let ghost before = self@;
        match self.index_of(id) {
            Some(i) => {
                let mut job = self.jobs[i].clone();
                assert(job@ == before[i as int]);
                job.status = status;
                let copy = job.clone();
                self.put_back(i, job);
                proof {
                    lemma_update_job_at(before, i as int, |j: JobView| with_status(j, status));
                    lemma_lookup_at(self@, i as int);
                }
                Some(copy)
            },
            None => {
                proof {
                    lemma_update_job_absent(before, id@, |j: JobView| with_status(j, status));
                }
                None
            },
        }
    }

    /// Marks the job `id` as being processed, at progress 10; gives the job as it stood
    /// before.
    pub fn start_job(&mut self, id: &str) -> (r: Option<Job>)
        ensures
            final(self)@ == update_job(old(self)@, id@, |j: JobView| with_progress(with_status(j, JobStatus::Processing), 10)),
            match r {
                Some(j) => lookup(old(self)@, id@) == Some(j@),
                None => lookup(old(self)@, id@) is None,
            },
    {
        proof {
            use_type_invariant(&*self);
        }
        let ghost before = self@;
        match self.index_of(id) {
            Some(i) => {
                let copy = self.jobs[i].clone();
                let mut job = self.jobs[i].clone();
                assert(job@ == before[i as int]);
                job.status = JobStatus::Processing;
                job.progress = 10;
                self.put_back(i, job);
                proof {
                    lemma_update_job_at(before, i as int, |j: JobView| with_progress(with_status(j, JobStatus::Processing), 10));
                    lemma_lookup_at(before, i as int);
                }
                Some(copy)
            },
            None => {
                proof {
                    lemma_update_job_absent(before, id@, |j: JobView| with_progress(with_status(j, JobStatus::Processing), 10));
                }
                None
            },
        }
    }

    /// Marks the job `id` completed, at progress 100, with the output file `output_name`;
    /// gives the job as it then stands.
    pub fn complete_job(&mut self, id: &str, output_name: &str) -> (r: Option<Job>)
        ensures
            final(self)@ == update_job(old(self)@, id@, |j: JobView| with_status(with_progress(with_output(j, output_name@), 100), JobStatus::Completed)),
            match r {
                Some(j) => lookup(final(self)@, id@) == Some(j@),
                None => lookup(final(self)@, id@) is None,
            },
    {
        proof {
            use_type_invariant(&*self);
        }
        let ghost before = self@;
        match self.index_of(id) {
            Some(i) => {
                let mut job = self.jobs[i].clone();
                assert(job@ == before[i as int]);
                job.output_name = Some(owned(output_name));
                job.progress = 100;
                job.status = JobStatus::Completed;
                let copy = job.clone();
                self.put_back(i, job);
                proof {
                    lemma_update_job_at(before, i as int, |j: JobView| with_status(with_progress(with_output(j, output_name@), 100), JobStatus::Completed));
                    lemma_lookup_at(self@, i as int);
                }
                Some(copy)
            },
            None => {
                proof {
                    lemma_update_job_absent(before, id@, |j: JobView| with_status(with_progress(with_output(j, output_name@), 100), JobStatus::Completed));
                }
                None
            },
        }
    }

    /// Sets the progress of the job `id`; gives the job as it then stands.
    pub fn set_progress(&mut self, id: &str, progress: u8) -> (r: Option<Job>)
        ensures
            final(self)@ == update_job(old(self)@, id@, |j: JobView| with_progress(j, progress)),
            match r {
                Some(j) => lookup(final(self)@, id@) == Some(j@),
                None => lookup(final(self)@, id@) is None,
            },
    {
        proof {
            use_type_invariant(&*self);
        }
        let ghost before = self@;
        match self.index_of(id) {
            Some(i) => {
                let mut job = self.jobs[i].clone();
                assert(job@ == before[i as int]);
                job.progress = progress;
                let copy = job.clone();
                self.put_back(i, job);
                proof {
                    lemma_update_job_at(before, i as int, |j: JobView| with_progress(j, progress));
                    lemma_lookup_at(self@, i as int);
                }
                Some(copy)
            },
            None => {
                proof {
                    lemma_update_job_absent(before, id@, |j: JobView| with_progress(j, progress));
                }
                None
            },
        }
    }

    /// Records the output file of the job `id`; gives the job as it then stands.
    pub fn set_output(&mut self, id: &str, output_name: &str) -> (r: Option<Job>)
        ensures
            final(self)@ == update_job(old(self)@, id@, |j: JobView| with_output(j, output_name@)),
            match r {
                Some(j) => lookup(final(self)@, id@) == Some(j@),
                None => lookup(final(self)@, id@) is None,
            },
    {
        proof {
            use_type_invariant(&*self);
        }
        let ghost before = self@;
        match self.index_of(id) {
            Some(i) => {
                let mut job = self.jobs[i].clone();
                assert(job@ == before[i as int]);
                job.output_name = Some(owned(output_name));
                let copy = job.clone();
                self.put_back(i, job);
                proof {
                    lemma_update_job_at(before, i as int, |j: JobView| with_output(j, output_name@));
                    lemma_lookup_at(self@, i as int);
                }
                Some(copy)
            },
            None => {
                proof {
                    lemma_update_job_absent(before, id@, |j: JobView| with_output(j, output_name@));
                }
                None
            },
        }
    }

    /// Marks the job `id` failed with the message `error`; gives the job as it then stands.
    pub fn set_error(&mut self, id: &str, error: &str) -> (r: Option<Job>)
        ensures
            final(self)@ == update_job(old(self)@, id@, |j: JobView| with_error(j, error@)),
            match r {
                Some(j) => lookup(final(self)@, id@) == Some(j@),
                None => lookup(final(self)@, id@) is None,
            },
    {
        proof {
            use_type_invariant(&*self);
        }
        let ghost before = self@;
        match self.index_of(id) {
            Some(i) => {
                let mut job = self.jobs[i].clone();
                assert(job@ == before[i as int]);
                job.error = Some(owned(error));
                job.status = JobStatus::Failed;
                let copy = job.clone();
                self.put_back(i, job);
                proof {
                    lemma_update_job_at(before, i as int, |j: JobView| with_error(j, error@));
                    lemma_lookup_at(self@, i as int);
                }
                Some(copy)
            },
            None => {
                proof {
                    lemma_update_job_absent(before, id@, |j: JobView| with_error(j, error@));
                }
                None
            },
        }
    }

    /// Puts every job that is being processed back in the queue; gives the ids of all queued
    /// jobs, in order of creation.
    pub fn recover_pending(&mut self) -> (r: Vec<String>)
        ensures
            final(self)@ == old(self)@.map_values(|j: JobView| requeued(j)),
            texts(r@) == ids_of(final(self)@.filter(|j: JobView| j.status == JobStatus::Queued)),
    {
        proof {
            use_type_invariant(&*self);
        }
        let ghost before = self@;
        let mut jobs: Vec<Job> = Vec::new();
        std::mem::swap(&mut jobs, &mut self.jobs);
        assert(views(jobs@) == before);
        let mut i: usize = 0;
        while i < jobs.len()
            invariant
                i <= jobs.len(),
                jobs@.len() == before.len(),
                forall|k: int| 0 <= k < i ==> (#[trigger] views(jobs@)[k]) == requeued(before[k]),
                forall|k: int| i <= k < jobs@.len() ==> (#[trigger] views(jobs@)[k]) == before[k],
            decreases jobs.len() - i,
        {
            assert(views(jobs@)[i as int] == before[i as int]);
            assert(jobs@[i as int]@ == before[i as int]);
            if jobs[i].status == JobStatus::Processing {
                let mut job = jobs[i].clone();
                job.status = JobStatus::Queued;
                assert(job@ == requeued(before[i as int]));
                let ghost prev = jobs@;
                jobs.set(i, job);
                assert forall|k: int| 0 <= k < jobs@.len() && k != i implies #[trigger] views(jobs@)[k]
                    == views(prev)[k] by {}
                assert(views(jobs@)[i as int] == requeued(before[i as int]));
            } else {
                assert(requeued(before[i as int]) == before[i as int]);
            }
            i = i + 1;
        }
        let ghost after = views(jobs@);
        assert(after =~= before.map_values(|j: JobView| requeued(j)));
        assert(ids_unique(after)) by {
            assert forall|a: int, b: int| 0 <= a < after.len() && 0 <= b < after.len() && a != b implies (
            #[trigger] after[a]).id != (#[trigger] after[b]).id by {
                assert(after[a].id == before[a].id && after[b].id == before[b].id);
            }
        }
        assert(ordered_by_creation(after)) by {
            assert forall|a: int, b: int| 0 <= a <= b < after.len() implies (
            #[trigger] after[a]).created_at <= (#[trigger] after[b]).created_at by {
                assert(after[a].created_at == before[a].created_at);
                assert(after[b].created_at == before[b].created_at);
            }
        }
        self.jobs = jobs;
        let mut ids: Vec<String> = Vec::new();
        let mut k: usize = 0;
        while k < self.jobs.len()
            invariant
                k <= self.jobs.len(),
                self@ == after,
                self@.len() == self.jobs.len(),
                texts(ids@) == ids_of(after.take(k as int).filter(|j: JobView| j.status == JobStatus::Queued)),
            decreases self.jobs.len() - k,
        {
            proof {
                lemma_take_push(after, k as int);
                after.take(k as int).lemma_filter_push(after[k as int], |j: JobView| j.status == JobStatus::Queued);
            }
            assert(after[k as int] == self.jobs@[k as int]@);
            if self.jobs[k].status == JobStatus::Queued {
                let id = self.jobs[k].id.clone();
                let ghost prev_ids = ids@;
                ids.push(id);
                let ghost got = after.take(k as int).filter(|j: JobView| j.status == JobStatus::Queued);
                assert(texts(ids@) =~= texts(prev_ids).push(after[k as int].id));
                assert(ids_of(got.push(after[k as int])) =~= ids_of(got).push(after[k as int].id));
            }
            k = k + 1;
        }
        assert(after.take(self.jobs.len() as int) =~= after);
        ids
    }

    /// The ids of the jobs marked in `mark`, which marks the jobs satisfying `p`.
    fn ids_marked(&self, mark: &Vec<bool>, Ghost(p): Ghost<spec_fn(JobView) -> bool>) -> (r: Vec<
        String,
    >)
        requires
            mark@.len() == self@.len(),
            forall|k: int| 0 <= k < mark@.len() ==> #[trigger] mark@[k] == p(self@[k]),
        ensures
            texts(r@) == ids_of(self@.filter(p)),
    {
        let ghost s = self@;
        let mut ids: Vec<String> = Vec::new();
        let mut k: usize = 0;
        while k < self.jobs.len()
            invariant
                k <= self.jobs.len(),
                s == self@,
                s.len() == self.jobs.len(),
                mark@.len() == s.len(),
                forall|k: int| 0 <= k < mark@.len() ==> #[trigger] mark@[k] == p(s[k]),
                texts(ids@) == ids_of(s.take(k as int).filter(p)),
            decreases self.jobs.len() - k,
        {
            proof {
                lemma_take_push(s, k as int);
                s.take(k as int).lemma_filter_push(s[k as int], p);
            }
            assert(s[k as int] == self.jobs@[k as int]@);
            if mark[k] {
                let id = self.jobs[k].id.clone();
                let ghost prev_ids = ids@;
                ids.push(id);
                let ghost got = s.take(k as int).filter(p);
                assert(texts(ids@) =~= texts(prev_ids).push(s[k as int].id));
                assert(ids_of(got.push(s[k as int])) =~= ids_of(got).push(s[k as int].id));
            }
            k = k + 1;
        }
        assert(s.take(self.jobs.len() as int) =~= s);
        ids
    }

    /// Keeps the jobs marked in `keep`, which marks the jobs satisfying `p`.
    fn retain_marked(&mut self, keep: &Vec<bool>, Ghost(p): Ghost<spec_fn(JobView) -> bool>)
        requires
            keep@.len() == old(self)@.len(),
            forall|k: int| 0 <= k < keep@.len() ==> #[trigger] keep@[k] == p(old(self)@[k]),
        ensures
            final(self)@ == old(self)@.filter(p),
    {
        proof {
            use_type_invariant(&*self);
        }
        let ghost s = self@;
        let mut jobs: Vec<Job> = Vec::new();
        std::mem::swap(&mut jobs, &mut self.jobs);
        assert(views(jobs@) == s);
        let mut kept: Vec<Job> = Vec::new();
        let mut i: usize = 0;
        while i < jobs.len()
            invariant
                i <= jobs.len(),
                views(jobs@) == s,
                keep@.len() == s.len(),
                forall|k: int| 0 <= k < keep@.len() ==> #[trigger] keep@[k] == p(s[k]),
                ids_unique(s),
                ordered_by_creation(s),
                views(kept@) == s.take(i as int).filter(p),
                ids_unique(views(kept@)),
                ordered_by_creation(views(kept@)),
                forall|a: int, k: int|
                    0 <= a < kept@.len() && i <= k < s.len() ==> (#[trigger] views(kept@)[a]).id
                        != (#[trigger] s[k]).id && views(kept@)[a].created_at <= s[k].created_at,
            decreases jobs.len() - i,
        {
            proof {
                lemma_take_push(s, i as int);
                s.take(i as int).lemma_filter_push(s[i as int], p);
            }
            assert(jobs@[i as int]@ == s[i as int]);
            if keep[i] {
                let job = jobs[i].clone();
                let ghost prev = views(kept@);
                kept.push(job);
                assert(views(kept@) =~= prev.push(s[i as int]));
                assert forall|a: int, k: int|
                    0 <= a < kept@.len() && i + 1 <= k < s.len() implies (#[trigger] views(
                    kept@)[a]).id != (#[trigger] s[k]).id && views(kept@)[a].created_at
                    <= s[k].created_at by {
                    if a == prev.len() {
                        assert(views(kept@)[a] == s[i as int]);
                    } else {
                        assert(views(kept@)[a] == prev[a]);
                    }
                }
                assert(ids_unique(views(kept@))) by {
                    assert forall|a: int, b: int|
                        0 <= a < kept@.len() && 0 <= b < kept@.len() && a != b implies (
                    #[trigger] views(kept@)[a]).id != (#[trigger] views(kept@)[b]).id by {
                        if a == prev.len() {
                            assert(views(kept@)[b] == prev[b]);
                        } else if b == prev.len() {
                            assert(views(kept@)[a] == prev[a]);
                        } else {
                            assert(views(kept@)[a] == prev[a] && views(kept@)[b] == prev[b]);
                        }
                    }
                }
                assert(ordered_by_creation(views(kept@))) by {
                    assert forall|a: int, b: int| 0 <= a <= b < kept@.len() implies (
                    #[trigger] views(kept@)[a]).created_at <= (#[trigger] views(
                        kept@,
                    )[b]).created_at by {
                        if b == prev.len() {
                            if a < prev.len() {
                                assert(views(kept@)[a] == prev[a]);
                            }
                        } else {
                            assert(views(kept@)[a] == prev[a] && views(kept@)[b] == prev[b]);
                        }
                    }
                }
            }
            i = i + 1;
        }
        assert(s.take(jobs.len() as int) =~= s);
        self.jobs = kept;
    }

    /// The ids of the finished jobs created no later than `now - retention_seconds`
    /// (0 when that would be negative), in order of creation.
    pub fn expired_job_ids(&self, now: u64, retention_seconds: u64) -> (r: Vec<String>)
        ensures
            texts(r@) == ids_of(
                self@.filter(|j: JobView| is_expired(j, expiry_cutoff(now, retention_seconds))),
            ),
    {
        let cutoff = now.saturating_sub(retention_seconds);
        let mark = self.expiry_marks(cutoff, false);
        self.ids_marked(&mark, Ghost(|j: JobView| is_expired(j, expiry_cutoff(now, retention_seconds))))
    }

    /// For each job, whether it is expired at `cutoff` (or not, when `invert`).
    fn expiry_marks(&self, cutoff: u64, invert: bool) -> (mark: Vec<bool>)
        ensures
            mark@.len() == self@.len(),
            forall|k: int|
                0 <= k < mark@.len() ==> #[trigger] mark@[k] == (is_expired(self@[k], cutoff)
                    != invert),
    {
        let mut mark: Vec<bool> = Vec::new();
        let mut i: usize = 0;
        while i < self.jobs.len()
            invariant
                i <= self.jobs.len(),
                self@.len() == self.jobs.len(),
                mark@.len() == i,
                forall|k: int|
                    0 <= k < i ==> #[trigger] mark@[k] == (is_expired(self@[k], cutoff) != invert),
            decreases self.jobs.len() - i,
        {
            assert(self@[i as int] == self.jobs@[i as int]@);
            let job = &self.jobs[i];
            let terminal = job.status == JobStatus::Completed || job.status == JobStatus::Failed
                || job.status == JobStatus::Cancelled;
            let expired = job.created_at <= cutoff && terminal;
            mark.push(expired != invert);
            i = i + 1;
        }
        mark
    }

    /// Removes the job `id`, if there is one.
    pub fn delete(&mut self, id: &str)
        ensures
            final(self)@ == old(self)@.filter(|j: JobView| j.id != id@),
    {
        let mut keep: Vec<bool> = Vec::new();
        let mut i: usize = 0;
        while i < self.jobs.len()
            invariant
                i <= self.jobs.len(),
                self@.len() == self.jobs.len(),
                keep@.len() == i,
                forall|k: int| 0 <= k < i ==> #[trigger] keep@[k] == (self@[k].id != id@),
            decreases self.jobs.len() - i,
        {
            assert(self@[i as int] == self.jobs@[i as int]@);
            let same = str_eq(self.jobs[i].id.as_str(), id);
            keep.push(!same);
            i = i + 1;
        }
        self.retain_marked(&keep, Ghost(|j: JobView| j.id != id@));
    }

    /// Removes the finished jobs created no later than `now - retention_seconds` (0 when
    /// that would be negative); gives their ids, in order of creation.
    pub fn remove_expired(&mut self, now: u64, retention_seconds: u64) -> (r: Vec<String>)
        ensures
            texts(r@) == ids_of(
                old(self)@.filter(|j: JobView| is_expired(j, expiry_cutoff(now, retention_seconds))),
            ),
            final(self)@ == old(self)@.filter(
                |j: JobView| !is_expired(j, expiry_cutoff(now, retention_seconds)),
            ),
    {
        let cutoff = now.saturating_sub(retention_seconds);
        let ids = self.expired_job_ids(now, retention_seconds);
        let keep = self.expiry_marks(cutoff, true);
        self.retain_marked(&keep, Ghost(|j: JobView| !is_expired(j, expiry_cutoff(now, retention_seconds))));
        ids
    }

    /// Takes up the job `id` for a run: gives the job as it was found and marks it
    /// processing with progress 10; the error `job not found`, with the table unchanged,
    /// when there is no such job.
    pub fn begin_run(&mut self, id: &str) -> (r: Result<Job, String>)
        ensures
            match r {
                Ok(j) => {
                    &&& lookup(old(self)@, id@) == Some(j@)
                    &&& final(self)@ == update_job(
                        old(self)@,
                        id@,
                        |j: JobView| with_progress(with_status(j, JobStatus::Processing), 10),
                    )
                },
                Err(e) => {
                    &&& lookup(old(self)@, id@) is None
                    &&& e@ == "job not found"@
                    &&& final(self)@ == old(self)@
                },
            },
    {
        let ghost before = self@;
        match self.start_job(id) {
            Some(job) => Ok(job),
            None => {
                proof {
                    lemma_update_job_absent(
                        before,
                        id@,
                        |j: JobView| with_progress(with_status(j, JobStatus::Processing), 10),
                    );
                }
                Err(owned("job not found"))
            },
        }
    }

    /// Records how the run of the job `id` ended: a successful run completes the job with
    /// the output `output_name` and progress 100; a failed one fails it with its error,
    /// which is handed back.
    pub fn finish_run(&mut self, id: &str, output_name: &str, outcome: Result<(), String>) -> (r:
        Result<(), String>)
        ensures
            match outcome {
                Ok(()) => r is Ok && final(self)@ == update_job(
                    old(self)@,
                    id@,
                    |j: JobView|
                        with_status(
                            with_progress(with_output(j, output_name@), 100),
                            JobStatus::Completed,
                        ),
                ),
                Err(e) => r is Err && r->Err_0@ == e@ && final(self)@ == update_job(
                    old(self)@,
                    id@,
                    |j: JobView| with_error(j, e@),
                ),
            },
    {
        match outcome {
            Ok(()) => {
                self.complete_job(id, output_name);
                Ok(())
            },
            Err(e) => {
                self.set_error(id, e.as_str());
                Err(e)
            },
        }
    }

    /// Creates a queued job for converting `input_name` from `from` to `to`, under a new
    /// random id and the current time. When the table holds a job under that id already,
    /// nothing is added and the taken id is handed back as the error.
    pub fn create_job(&mut self, input_name: &str, from: &str, to: &str) -> (r: Result<Job, String>)
        ensures
            match r {
                Ok(j) => {
                    &&& !has_job(old(self)@, j@.id)
                    &&& is_job_id(j@.id)
                    &&& j@ == fresh_job(j@.id, j@.created_at, input_name@, from@, to@)
                    &&& final(self)@ == old(self)@.insert(
                        insert_position(old(self)@, j@.created_at),
                        j@,
                    )
                },
                Err(id) => {
                    &&& is_job_id(id@)
                    &&& has_job(old(self)@, id@)
                    &&& final(self)@ == old(self)@
                },
            },
    {
        let id = new_job_id();
        let drawn = id.clone();
        let now = current_unix_time();
        match self.insert_job(id, now, input_name, from, to) {
            Some(job) => Ok(job),
            None => Err(drawn),
        }
    }
}

/// In a table with unique ids, the job found under the id of entry `i` is that entry.
proof fn lemma_lookup_at(s: Seq<JobView>, i: int)
    requires
        ids_unique(s),
        0 <= i < s.len(),
    ensures
        lookup(s, s[i].id) == Some(s[i]),
{
    assert(has_job(s, s[i].id));
    let c = choose|k: int| 0 <= k < s.len() && (#[trigger] s[k]).id == s[i].id;
    assert(c == i);
}

/// With unique ids, updating the job with the id of entry `i` changes that entry alone.
proof fn lemma_update_job_at(s: Seq<JobView>, i: int, f: spec_fn(JobView) -> JobView)
    requires
        ids_unique(s),
        0 <= i < s.len(),
    ensures
        update_job(s, s[i].id, f) == s.update(i, f(s[i])),
{
    assert(update_job(s, s[i].id, f) =~= s.update(i, f(s[i])));
}

/// Updating a job that is not there changes nothing.
proof fn lemma_update_job_absent(s: Seq<JobView>, id: Seq<char>, f: spec_fn(JobView) -> JobView)
    requires
        !has_job(s, id),
    ensures
        update_job(s, id, f) == s,
        lookup(s, id) is None,
{
    assert forall|k: int| 0 <= k < s.len() implies (#[trigger] s[k]).id != id by {
        if s[k].id == id {
            assert(has_job(s, id));
        }
    }
    assert(update_job(s, id, f) =~= s);
}

/// Splits a table ordered by creation around the place where a job created at `t` joins.
proof fn lemma_insert_position_splits(s: Seq<JobView>, t: u64)
    requires
        ordered_by_creation(s),
    ensures
        0 <= insert_position(s, t) <= s.len(),
        forall|k: int| 0 <= k < insert_position(s, t) ==> (#[trigger] s[k]).created_at <= t,
        forall|k: int| insert_position(s, t) <= k < s.len() ==> (#[trigger] s[k]).created_at > t,
    decreases s.len(),
{
    if s.len() > 0 {
        let d = s.drop_last();
        assert(ordered_by_creation(d)) by {
            assert forall|i: int, j: int| 0 <= i <= j < d.len() implies (#[trigger] d[i]).created_at
                <= (#[trigger] d[j]).created_at by {
                assert(d[i] == s[i] && d[j] == s[j]);
            }
        }
        lemma_insert_position_splits(d, t);
        if s.last().created_at <= t {
            assert forall|k: int| 0 <= k < s.len() implies (#[trigger] s[k]).created_at <= t by {
                assert(s[k].created_at <= s[s.len() - 1].created_at);
            }
        } else {
            assert forall|k: int| insert_position(s, t) <= k < s.len() implies (
            #[trigger] s[k]).created_at > t by {
                if k < s.len() - 1 {
                    assert(d[k] == s[k]);
                }
            }
            assert forall|k: int| 0 <= k < insert_position(s, t) implies (
            #[trigger] s[k]).created_at <= t by {
                assert(d[k] == s[k]);
            }
        }
    }
}

/// The name of the file that a job converting to `to` writes: `converted.` and `to`.
pub open spec fn converted_name(to: Seq<char>) -> Seq<char> {
    "converted."@ + to
}

/// The name of the output file of a job converting to `to`.
pub fn converted_output_name(to: &str) -> (r: String)
    ensures
        r@ == converted_name(to@),
{
    let mut name = owned("converted.");
    name.append(to);
    name
}

/// A job added to a table is found under its id, and every other job is found as before:
/// reading a job back gives what was written.
pub proof fn law_inserted_job_is_found(s: Seq<JobView>, p: int, j: JobView, other: Seq<char>)
    requires
        ids_unique(s),
        !has_job(s, j.id),
        0 <= p <= s.len(),
    ensures
        lookup(s.insert(p, j), j.id) == Some(j),
        other != j.id ==> lookup(s.insert(p, j), other) == lookup(s, other),
{
    let t = s.insert(p, j);
    assert(t[p] == j);
    assert(ids_unique(t)) by {
        assert forall|a: int, b: int| 0 <= a < t.len() && 0 <= b < t.len() && a != b implies (
        #[trigger] t[a]).id != (#[trigger] t[b]).id by {
            if a != p && b != p {
                let a0 = if a < p { a } else { a - 1 };
                let b0 = if b < p { b } else { b - 1 };
                assert(t[a] == s[a0] && t[b] == s[b0]);
            } else if a == p {
                let b0 = if b < p { b } else { b - 1 };
                assert(t[b] == s[b0]);
            } else {
                let a0 = if a < p { a } else { a - 1 };
                assert(t[a] == s[a0]);
            }
        }
    }
    lemma_lookup_at(t, p);
    if other != j.id {
        if has_job(s, other) {
            let i = choose|i: int| 0 <= i < s.len() && (#[trigger] s[i]).id == other;
            lemma_lookup_at(s, i);
            let i2 = if i < p { i } else { i + 1 };
            assert(t[i2] == s[i]);
            lemma_lookup_at(t, i2);
        } else {
            assert(!has_job(t, other)) by {
                if has_job(t, other) {
                    let k = choose|k: int| 0 <= k < t.len() && (#[trigger] t[k]).id == other;
                    let k0 = if k < p { k } else { k - 1 };
                    assert(k != p);
                    assert(t[k] == s[k0]);
                }
            }
        }
    }
}

/// Changing the job `id` by an `f` that keeps ids: reading that job back gives `f` of
/// what was there, and every other job reads as before.
pub proof fn law_updated_job_reads_back(
    s: Seq<JobView>,
    id: Seq<char>,
    f: spec_fn(JobView) -> JobView,
    other: Seq<char>,
)
    requires
        ids_unique(s),
        forall|x: JobView| #[trigger] f(x).id == x.id,
    ensures
        lookup(update_job(s, id, f), id) == match lookup(s, id) {
            Some(j) => Some(f(j)),
            None => None,
        },
        other != id ==> lookup(update_job(s, id, f), other) == lookup(s, other),
{
    let t = update_job(s, id, f);
    assert forall|k: int| 0 <= k < t.len() implies (#[trigger] t[k]).id == s[k].id by {
        assert(f(s[k]).id == s[k].id);
    }
    assert(ids_unique(t)) by {
        assert forall|a: int, b: int| 0 <= a < t.len() && 0 <= b < t.len() && a != b implies (
        #[trigger] t[a]).id != (#[trigger] t[b]).id by {
            assert(t[a].id == s[a].id && t[b].id == s[b].id);
        }
    }
    if has_job(s, id) {
        let i = choose|i: int| 0 <= i < s.len() && (#[trigger] s[i]).id == id;
        lemma_lookup_at(s, i);
        lemma_lookup_at(t, i);
    } else {
        assert(!has_job(t, id)) by {
            if has_job(t, id) {
                let k = choose|k: int| 0 <= k < t.len() && (#[trigger] t[k]).id == id;
                assert(s[k].id == id);
            }
        }
    }
    if other != id {
        if has_job(s, other) {
            let i = choose|i: int| 0 <= i < s.len() && (#[trigger] s[i]).id == other;
            lemma_lookup_at(s, i);
            assert(t[i] == s[i]);
            lemma_lookup_at(t, i);
        } else {
            assert(!has_job(t, other)) by {
                if has_job(t, other) {
                    let k = choose|k: int| 0 <= k < t.len() && (#[trigger] t[k]).id == other;
                    assert(s[k].id == other);
                }
            }
        }
    }
}

/// After recovery no job is being processed; the jobs that were are queued, and every
/// other job is unchanged.
pub proof fn law_recovery_leaves_nothing_processing(s: Seq<JobView>, k: int)
    requires
        0 <= k < s.len(),
    ensures
        s.map_values(|j: JobView| requeued(j))[k].status != JobStatus::Processing,
        s[k].status == JobStatus::Processing ==> s.map_values(|j: JobView| requeued(j))[k]
            == with_status(s[k], JobStatus::Queued),
        s[k].status != JobStatus::Processing ==> s.map_values(|j: JobView| requeued(j))[k] == s[k],
{
}

/// Expiry removes exactly the finished jobs created no later than the cutoff: a job stays
/// if and only if it was there and is not expired.
pub proof fn law_expiry_keeps_exactly_the_unexpired(s: Seq<JobView>, cutoff: u64, j: JobView)
    ensures
        s.filter(|x: JobView| !is_expired(x, cutoff)).contains(j) <==> (s.contains(j)
            && !is_expired(j, cutoff)),
        s.filter(|x: JobView| is_expired(x, cutoff)).contains(j) <==> (s.contains(j) && is_expired(
            j,
            cutoff,
        )),
{
    let keep = |x: JobView| !is_expired(x, cutoff);
    let gone = |x: JobView| is_expired(x, cutoff);
    if s.contains(j) {
        let i = choose|i: int| 0 <= i < s.len() && s[i] == j;
        if keep(j) {
            s.lemma_filter_contains(keep, i);
        } else {
            s.lemma_filter_contains(gone, i);
        }
    }
    if s.filter(keep).contains(j) {
        s.lemma_filter_contains_rev(keep, j);
        let i = choose|i: int| 0 <= i < s.filter(keep).len() && s.filter(keep)[i] == j;
        s.lemma_filter_pred(keep, i);
    }
    if s.filter(gone).contains(j) {
        s.lemma_filter_contains_rev(gone, j);
        let i = choose|i: int| 0 <= i < s.filter(gone).len() && s.filter(gone)[i] == j;
        s.lemma_filter_pred(gone, i);
    }
}

/// `s` with the jobs of the ids `ids` deleted one after the other.
pub open spec fn delete_each(s: Seq<JobView>, ids: Seq<Seq<char>>) -> Seq<JobView>
    decreases ids.len(),
{
    if ids.len() == 0 {
        s
    } else {
        delete_each(s.filter(|j: JobView| j.id != ids[0]), ids.drop_first())
    }
}

/// Filtering with predicates that agree on every element of `s` gives the same sequence.
proof fn lemma_filter_agree(s: Seq<JobView>, a: spec_fn(JobView) -> bool, b: spec_fn(JobView) -> bool)
    requires
        forall|i: int| 0 <= i < s.len() ==> a(#[trigger] s[i]) == b(s[i]),
    ensures
        s.filter(a) == s.filter(b),
    decreases s.len(),
{
    reveal(Seq::filter);
    if s.len() > 0 {
        let d = s.drop_last();
        assert forall|i: int| 0 <= i < d.len() implies a(#[trigger] d[i]) == b(d[i]) by {
            assert(d[i] == s[i]);
        }
        lemma_filter_agree(d, a, b);
        assert(a(s[s.len() - 1]) == b(s[s.len() - 1]));
    }
}

/// Filtering twice keeps what both predicates keep.
proof fn lemma_filter_twice(s: Seq<JobView>, a: spec_fn(JobView) -> bool, b: spec_fn(JobView) -> bool)
    ensures
        s.filter(a).filter(b) == s.filter(|x: JobView| a(x) && b(x)),
    decreases s.len(),
{
    reveal(Seq::filter);
    if s.len() > 0 {
        let d = s.drop_last();
        let e = s.last();
        lemma_filter_twice(d, a, b);
        if a(e) {
            d.filter(a).lemma_filter_push(e, b);
        }
    }
}

/// Filtering with a predicate that holds of every element keeps everything.
proof fn lemma_filter_all(s: Seq<JobView>, a: spec_fn(JobView) -> bool)
    requires
        forall|i: int| 0 <= i < s.len() ==> a(#[trigger] s[i]),
    ensures
        s.filter(a) == s,
    decreases s.len(),
{
    reveal(Seq::filter);
    if s.len() > 0 {
        let d = s.drop_last();
        assert forall|i: int| 0 <= i < d.len() implies a(#[trigger] d[i]) by {
            assert(d[i] == s[i]);
        }
        lemma_filter_all(d, a);
        assert(a(s[s.len() - 1]));
        assert(d.push(s.last()) =~= s);
    }
}

/// Deleting the ids `ids` one after the other keeps the jobs whose id is not among them.
proof fn lemma_delete_each(s: Seq<JobView>, ids: Seq<Seq<char>>)
    ensures
        delete_each(s, ids) == s.filter(|j: JobView| !ids.contains(j.id)),
    decreases ids.len(),
{
    if ids.len() == 0 {
        lemma_filter_all(s, |j: JobView| !ids.contains(j.id));
    } else {
        let first = |j: JobView| j.id != ids[0];
        let rest = |j: JobView| !ids.drop_first().contains(j.id);
        lemma_delete_each(s.filter(first), ids.drop_first());
        lemma_filter_twice(s, first, rest);
        assert forall|x: Seq<char>| ids.contains(x) <==> (x == ids[0] || ids.drop_first().contains(x)) by {
            if ids.contains(x) && x != ids[0] {
                let k = choose|k: int| 0 <= k < ids.len() && ids[k] == x;
                assert(ids.drop_first()[k - 1] == x);
            }
            if ids.drop_first().contains(x) {
                let k = choose|k: int| 0 <= k < ids.drop_first().len() && ids.drop_first()[k] == x;
                assert(ids[k + 1] == x);
            }
            if x == ids[0] {
                assert(ids[0] == x);
            }
        }
        assert((|x: JobView| first(x) && rest(x)) =~= (|j: JobView| !ids.contains(j.id)));
    }
}

/// Deleting, one after the other, the ids that `expired_job_ids` gives leaves the same
/// table as `remove_expired`: exactly the jobs that are not expired.
pub proof fn law_deleting_expired_ids_removes_the_expired(s: Seq<JobView>, cutoff: u64)
    requires
        ids_unique(s),
    ensures
        delete_each(s, ids_of(s.filter(|j: JobView| is_expired(j, cutoff)))) == s.filter(
            |j: JobView| !is_expired(j, cutoff),
        ),
{
    let gone = |j: JobView| is_expired(j, cutoff);
    let ids = ids_of(s.filter(gone));
    lemma_delete_each(s, ids);
    assert forall|i: int| 0 <= i < s.len() implies (|j: JobView| !ids.contains(j.id))(
        #[trigger] s[i],
    ) == (|j: JobView| !is_expired(j, cutoff))(s[i]) by {
        if gone(s[i]) {
            s.lemma_filter_contains(gone, i);
            let k = choose|k: int| 0 <= k < s.filter(gone).len() && s.filter(gone)[k] == s[i];
            assert(ids[k] == s[i].id);
        }
        if ids.contains(s[i].id) {
            let k = choose|k: int| 0 <= k < ids.len() && ids[k] == s[i].id;
            let e = s.filter(gone)[k];
            s.lemma_filter_pred(gone, k);
            assert(s.filter(gone).contains(e));
            s.lemma_filter_contains_rev(gone, e);
            let m = choose|m: int| 0 <= m < s.len() && s[m] == e;
            assert(s[m].id == s[i].id);
        }
    }
    lemma_filter_agree(s, |j: JobView| !ids.contains(j.id), |j: JobView| !is_expired(j, cutoff));
}

/// Saving a table and putting its jobs back, in the order they were listed, gives the
/// same table: jobs survive a restart unchanged and in their order.
pub proof fn law_saved_table_restores_exactly(s: Seq<JobView>)
    requires
        ids_unique(s),
        ordered_by_creation(s),
    ensures
        restore_all(s) == s,
    decreases s.len(),
{
    if s.len() > 0 {
        let d = s.drop_last();
        let j = s.last();
        assert(ids_unique(d)) by {
            assert forall|a: int, b: int|
                0 <= a < d.len() && 0 <= b < d.len() && a != b implies (#[trigger] d[a]).id != (
            #[trigger] d[b]).id by {
                assert(d[a] == s[a] && d[b] == s[b]);
            }
        }
        assert(ordered_by_creation(d)) by {
            assert forall|a: int, b: int| 0 <= a <= b < d.len() implies (#[trigger] d[a]).created_at
                <= (#[trigger] d[b]).created_at by {
                assert(d[a] == s[a] && d[b] == s[b]);
            }
        }
        law_saved_table_restores_exactly(d);
        assert(!has_job(d, j.id)) by {
            if has_job(d, j.id) {
                let k = choose|k: int| 0 <= k < d.len() && (#[trigger] d[k]).id == j.id;
                assert(s[k].id == s[s.len() - 1].id);
            }
        }
        if d.len() > 0 {
            assert(d.last().created_at <= j.created_at) by {
                assert(d.last() == s[d.len() - 1]);
            }
        }
        assert(insert_position(d, j.created_at) == d.len());
        assert(d.insert(d.len() as int, j) =~= s);
    }
}

/// A job id as `create_job` makes them: 32 lowercase hexadecimal digits.
pub open spec fn is_job_id(id: Seq<char>) -> bool {
    &&& id.len() == 32
    &&& forall|i: int| 0 <= i < 32 ==> ('0' <= #[trigger] id[i] <= '9' || 'a' <= id[i] <= 'f')
}

/// A new random job id.
///
/// Trusted: calls `uuid::Uuid::new_v4`, whose value is random, and writes it with
/// `Uuid::simple`, whose `Display` gives 32 lowercase hexadecimal digits (uuid's
/// `format_simple`); nothing else is claimed of the id.
#[verifier::external_body]
fn new_job_id() -> (id: String)
    ensures
        is_job_id(id@),
{
    uuid::Uuid::new_v4().simple().to_string()
}

#[verifier::external_type_specification]
#[verifier::external_body]
pub struct ExSystemTime(SystemTime);

#[verifier::external_type_specification]
#[verifier::external_body]
pub struct ExSystemTimeError(SystemTimeError);

/// The current time of the system clock.
///
/// Trusted: calls `std::time::SystemTime::now`; the clock decides the value, so nothing
/// is stated of it.
#[verifier::external_body]
fn system_time_now() -> SystemTime {
    SystemTime::now()
}

/// The time elapsed from the Unix epoch to `t`, or an error when `t` lies before it.
///
/// Trusted: calls `SystemTime::duration_since` with `UNIX_EPOCH`; nothing is stated of
/// the result, which depends on the clock reading `t`.
#[verifier::external_body]
fn since_unix_epoch(t: &SystemTime) -> Result<Duration, SystemTimeError> {
    t.duration_since(std::time::UNIX_EPOCH)
}

/// The whole seconds of `d`.
///
/// Trusted: calls `Duration::as_secs`; nothing is stated of the number.
#[verifier::external_body]
fn whole_seconds(d: &Duration) -> u64 {
    d.as_secs()
}

/// A reading of the system clock: the whole seconds since the Unix epoch, or nothing when
/// the clock stands before it.
fn clock_reading() -> Option<u64> {
    let now = system_time_now();
    match since_unix_epoch(&now) {
        Ok(elapsed) => Some(whole_seconds(&elapsed)),
        Err(_) => None,
    }
}

/// The time a clock reading gives: its seconds since the Unix epoch, or 0 when the clock
/// stood before the epoch.
pub fn unix_seconds(reading: Option<u64>) -> (r: u64)
    ensures
        r == match reading {
            Some(s) => s,
            None => 0,
        },
{
    match reading {
        Some(s) => s,
        None => 0,
    }
}

/// Seconds since the Unix epoch by the system clock (see `unix_seconds`); the clock
/// decides the value, so no clause states it.
pub fn current_unix_time() -> u64 {
    unix_seconds(clock_reading())
}

} // verus!
