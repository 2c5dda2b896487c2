//! Render jobs: their life cycle as a state machine, and the registry of jobs.
//!
//! A job's render loop is driven from outside: the driver asks `next_action`,
//! performs it (composite, mix, encode), and reports back with
//! `frame_written`, `complete` or `fail`. Cancellation is checked once per
//! frame, when the driver next asks for an action.
use vstd::prelude::*;

use crate::error::Error;
use crate::keyframe::PROGRESS_ONE;
use crate::model::{Composition, Project, Resolution, Track};
use crate::timeline::{total_duration_prefix, total_duration_spec, track_end};

verus! {

#[derive(Debug, Clone, Copy, PartialEq, Eq, Structural)]
pub enum RenderQuality {
    Low,
    Medium,
    High,
    Lossless,
}

#[derive(Debug, Clone)]
pub struct RenderSettings {
    /// Width and height in pixels.
    pub resolution: Resolution,
    /// Frames per second, in thousandths.
    pub frame_rate: u32,
    pub format: String,
    pub quality: RenderQuality,
}

#[derive(Debug, Clone, Copy, PartialEq, Eq, Structural)]
pub enum RenderStatus {
    Queued,
    Rendering,
    Completed,
    Failed,
    Cancelled,
}

/// A snapshot of a job's progress.
#[derive(Debug, Clone)]
pub struct RenderProgress {
    pub job_id: String,
    pub status: RenderStatus,
    /// Parts per million of the frames written.
    pub progress: u32,
    pub message: String,
    pub output_path: Option<String>,
}

/// One render: a private copy of the project, the settings, and progress.
#[derive(Debug)]
pub struct RenderJob {
    pub id: String,
    pub project: Project,
    pub settings: RenderSettings,
    pub output_path: String,
    pub progress: RenderProgress,
    /// Frames written so far.
    pub frames_done: u64,
    /// Frames the whole render writes.
    pub total_frames: u64,
}

/// What the render loop does next.
#[derive(Debug, Clone, Copy, PartialEq, Eq, Structural)]
pub enum RenderAction {
    /// Composite, mix and write frame `index`, at timeline time `time` (microseconds).
    RenderFrame { index: u64, time: u64 },
    /// All frames are written: finalize the output.
    Finalize,
    /// The job is not rendering (cancelled, finished, or not started): stop.
    Stop,
}

/// The part of a job that its life cycle changes.
pub struct JobState {
    pub status: RenderStatus,
    pub progress: int,
    pub frames_done: int,
    pub total: int,
}

/// What happens to a job.
pub enum JobEvent {
    Begin,
    FrameWritten,
    Complete,
    Fail,
    Cancel,
}

pub open spec fn is_terminal(s: RenderStatus) -> bool {
    s == RenderStatus::Completed || s == RenderStatus::Failed || s == RenderStatus::Cancelled
}

/// Progress after `done` of `total` frames, in parts per million.
pub open spec fn fraction_done(done: int, total: int) -> int {
    if total <= 0 {
        0
    } else {
        done * PROGRESS_ONE / total
    }
}

/// The job state machine.
pub open spec fn next_state(s: JobState, e: JobEvent) -> JobState {
    match e {
        JobEvent::Begin => if s.status == RenderStatus::Queued {
            JobState { status: RenderStatus::Rendering, progress: 0, ..s }
        } else {
            s
        },
        JobEvent::FrameWritten => if s.status == RenderStatus::Rendering && s.frames_done
            < s.total {
            JobState {
                progress: fraction_done(s.frames_done + 1, s.total),
                frames_done: s.frames_done + 1,
                ..s
            }
        } else {
            s
        },
        JobEvent::Complete => if s.status == RenderStatus::Rendering && s.frames_done == s.total {
            JobState { status: RenderStatus::Completed, progress: PROGRESS_ONE as int, ..s }
        } else {
            s
        },
        JobEvent::Fail => if !is_terminal(s.status) {
            JobState { status: RenderStatus::Failed, progress: 0, ..s }
        } else {
            s
        },
        JobEvent::Cancel => if !is_terminal(s.status) {
            JobState { status: RenderStatus::Cancelled, ..s }
        } else {
            s
        },
    }
}

/// The state after a sequence of events.
pub open spec fn run_events(s: JobState, events: Seq<JobEvent>) -> JobState
    decreases events.len(),
{
    if events.len() == 0 {
        s
    } else {
        run_events(next_state(s, events[0]), events.drop_first())
    }
}

/// The render loop's next step in state `s`; frame `i` shows time `frame_time_spec(i, rate)`.
pub open spec fn action_spec(s: JobState, rate: int) -> RenderAction {
    if s.status != RenderStatus::Rendering {
        RenderAction::Stop
    } else if s.frames_done < s.total {
        RenderAction::RenderFrame {
            index: s.frames_done as u64,
            time: frame_time_spec(s.frames_done, rate) as u64,
        }
    } else {
        RenderAction::Finalize
    }
}

/// Number of frames for `duration` microseconds at `rate` thousandths of a frame per second, rounded up.
pub open spec fn frame_count_spec(duration: int, rate: int) -> int {
    (duration * rate + 999_999_999) / 1_000_000_000
}

/// Timeline time of frame `i`, in microseconds, rounded down.
pub open spec fn frame_time_spec(i: int, rate: int) -> int {
    i * 1_000_000_000 / rate
}

/// Frames written and progress agree.
pub open spec fn state_wf(s: JobState) -> bool {
    &&& 0 <= s.frames_done <= s.total
    &&& s.status == RenderStatus::Queued ==> s.frames_done == 0
    &&& s.status == RenderStatus::Rendering ==> s.progress == fraction_done(s.frames_done, s.total)
}

impl RenderJob {
    pub open spec fn state(&self) -> JobState {
        JobState {
            status: self.progress.status,
            progress: self.progress.progress as int,
            frames_done: self.frames_done as int,
            total: self.total_frames as int,
        }
    }

    /// `self` is `old` after event `e`. An event that leaves the state as it
    /// is leaves the whole job as it is. Otherwise the job's identity, project,
    /// settings and output path are kept, the message says what happened, and
    /// only completion records an output path: the job's own.
    pub open spec fn after(&self, old: RenderJob, e: JobEvent) -> bool {
        if next_state(old.state(), e) == old.state() {
            *self == old
        } else {
            &&& self.state() == next_state(old.state(), e)
            &&& self.id == old.id
            &&& self.project == old.project
            &&& self.settings == old.settings
            &&& self.output_path == old.output_path
            &&& self.progress.job_id == old.progress.job_id
            &&& (e is Complete ==> self.progress.output_path == Some(old.output_path))
            &&& (!(e is Complete) ==> self.progress.output_path == old.progress.output_path)
            &&& (e is Begin ==> self.progress.message@ == "Starting render..."@)
            &&& (e is FrameWritten ==> self.progress.message@ == "Rendering..."@)
            &&& (e is Complete ==> self.progress.message@ == "Render finished"@)
            &&& (e is Cancel ==> self.progress.message@ == "Render cancelled by user"@)
        }
    }

    pub open spec fn wf(&self) -> bool {
        &&& state_wf(self.state())
        &&& self.progress.job_id@ == self.id@
        &&& (self.progress.output_path is Some <==> self.progress.status == RenderStatus::Completed)
        &&& (self.progress.status == RenderStatus::Completed ==> self.progress.progress == PROGRESS_ONE)
        &&& self.progress.progress <= PROGRESS_ONE
        &&& self.settings.frame_rate > 0
        &&& frame_time_spec(self.total_frames as int, self.settings.frame_rate as int) <= u64::MAX
    }

    fn new(id: String, project: Project, settings: RenderSettings, output_path: String, total_frames: u64) -> (r: RenderJob)
        requires
            settings.frame_rate > 0,
            frame_time_spec(total_frames as int, settings.frame_rate as int) <= u64::MAX,
        ensures
            r.id == id,
            r.progress.job_id == id,
            r.project == project,
            r.settings == settings,
            r.output_path == output_path,
            r.progress.status == RenderStatus::Queued,
            r.progress.progress == 0,
            r.progress.output_path is None,
            r.progress.message@ == "Waiting to start"@,
            r.frames_done == 0,
            r.total_frames == total_frames,
            r.wf(),
    {
        let job_id = id.clone();
        RenderJob {
            id,
            project,
            settings,
            output_path,
            progress: RenderProgress {
                job_id,
                status: RenderStatus::Queued,
                progress: 0,
                message: String::from_str("Waiting to start"),
                output_path: None,
            },
            frames_done: 0,
            total_frames,
        }
    }

    /// The render loop starts stepping time.
    pub fn begin(&mut self)
        requires
            old(self).wf(),
        ensures
            final(self).after(*old(self), JobEvent::Begin),
            final(self).wf(),
    {
        if self.progress.status == RenderStatus::Queued {
            self.progress.status = RenderStatus::Rendering;
            self.progress.progress = 0;
            self.progress.message = String::from_str("Starting render...");
        }
    }

    /// One more frame has been written.
    pub fn frame_written(&mut self)
        requires
            old(self).wf(),
        ensures
            final(self).after(*old(self), JobEvent::FrameWritten),
            final(self).wf(),
    {
        if self.progress.status == RenderStatus::Rendering && self.frames_done < self.total_frames {
            let done = self.frames_done + 1;
            proof {
                assert(done * PROGRESS_ONE <= self.total_frames * PROGRESS_ONE) by (nonlinear_arith)
                    requires
                        done <= self.total_frames,
                ;
                crate::keyframe::lemma_div_le(
                    done * PROGRESS_ONE,
                    PROGRESS_ONE as int,
                    self.total_frames as int,
                );
                assert(done * PROGRESS_ONE <= u64::MAX * PROGRESS_ONE) by (nonlinear_arith)
                    requires
                        done <= u64::MAX,
                ;
            }
            let p = (done as u128) * (PROGRESS_ONE as u128) / (self.total_frames as u128);
            self.frames_done = done;
            self.progress.progress = p as u32;
            self.progress.message = String::from_str("Rendering...");
        }
    }

    /// The output was finalized at the job's output path; this takes effect
    /// only once every frame has been written.
    pub fn complete(&mut self)
        requires
            old(self).wf(),
        ensures
            final(self).after(*old(self), JobEvent::Complete),
            final(self).wf(),
    {
        if self.progress.status == RenderStatus::Rendering && self.frames_done == self.total_frames {
            self.progress.status = RenderStatus::Completed;
            self.progress.progress = PROGRESS_ONE as u32;
            self.progress.message = String::from_str("Render finished");
            self.progress.output_path = Some(self.output_path.clone());
        }
    }

    /// A step failed with `message`.
    pub fn fail(&mut self, message: String)
        requires
            old(self).wf(),
        ensures
            final(self).after(*old(self), JobEvent::Fail),
            final(self).wf(),
            !is_terminal(old(self).progress.status) ==> final(self).progress.message == message,
    {
        if !(self.progress.status == RenderStatus::Completed || self.progress.status
            == RenderStatus::Failed || self.progress.status == RenderStatus::Cancelled) {
            self.progress.status = RenderStatus::Failed;
            self.progress.progress = 0;
            self.progress.message = message;
        }
    }

    /// The job is cancelled, unless it has already ended.
    pub fn cancel(&mut self)
        requires
            old(self).wf(),
        ensures
            final(self).after(*old(self), JobEvent::Cancel),
            final(self).wf(),
    {
        if !(self.progress.status == RenderStatus::Completed || self.progress.status
            == RenderStatus::Failed || self.progress.status == RenderStatus::Cancelled) {
            self.progress.status = RenderStatus::Cancelled;
            self.progress.message = String::from_str("Render cancelled by user");
        }
    }

    /// What the render loop does next.
    pub fn next_action(&self) -> (r: RenderAction)
        requires
            self.wf(),
        ensures
            r == action_spec(self.state(), self.settings.frame_rate as int),
    {
        if self.progress.status != RenderStatus::Rendering {
            RenderAction::Stop
        } else if self.frames_done < self.total_frames {
            proof {
                vstd::arithmetic::div_mod::lemma_div_is_ordered(
                    self.frames_done * 1_000_000_000,
                    self.total_frames * 1_000_000_000,
                    self.settings.frame_rate as int,
                );
            }
            RenderAction::RenderFrame {
                index: self.frames_done,
                time: frame_time(self.frames_done, self.settings.frame_rate),
            }
        } else {
            RenderAction::Finalize
        }
    }

    /// A copy of the job's progress.
    pub fn snapshot(&self) -> (r: RenderProgress)
        ensures
            r == self.progress,
    {
        RenderProgress {
            job_id: self.progress.job_id.clone(),
            status: self.progress.status,
            progress: self.progress.progress,
            message: self.progress.message.clone(),
            output_path: match &self.progress.output_path {
                Some(p) => Some(p.clone()),
                None => None,
            },
        }
    }
}

/// Timeline time of frame `i`, in microseconds.
pub fn frame_time(i: u64, rate: u32) -> (r: u64)
    requires
        rate > 0,
    ensures
        r == frame_time_spec(i as int, rate as int) || frame_time_spec(i as int, rate as int)
            > u64::MAX && r == u64::MAX,
{
    let t = (i as u128) * 1_000_000_000u128 / (rate as u128);
    if t > u64::MAX as u128 {
        u64::MAX
    } else {
        t as u64
    }
}

/// The latest end among the items of a track.
fn track_end_exec(tr: &Track) -> (r: u128)
    ensures
        r == track_end(tr.items@, tr.items.len() as int),
{
    let mut best: u128 = 0;
    let mut i: usize = 0;
    while i < tr.items.len()
        invariant
            i <= tr.items.len(),
            best == track_end(tr.items@, i as int),
            best <= 2 * (u64::MAX as int),
        decreases tr.items.len() - i,
    {
        let e = tr.items[i].start_time as u128 + tr.items[i].duration as u128;
        if e > best {
            best = e;
        }
        i = i + 1;
    }
    best
}

/// The resolved total duration of a composition: the latest end of any item, in microseconds.
pub fn total_duration(comp: &Composition) -> (r: u128)
    ensures
        r == total_duration_spec(*comp),
{
    let mut best: u128 = 0;
    let mut k: usize = 0;
    while k < comp.tracks.len()
        invariant
            k <= comp.tracks.len(),
            best == total_duration_prefix(comp.tracks@, k as int),
            best <= 2 * (u64::MAX as int),
        decreases comp.tracks.len() - k,
    {
        let e = track_end_exec(&comp.tracks[k]);
        proof {
            lemma_track_end_bound(comp.tracks[k as int].items@, comp.tracks[k as int].items.len() as int);
        }
        if e > best {
            best = e;
        }
        k = k + 1;
    }
    best
}

proof fn lemma_track_end_bound(items: Seq<crate::model::TrackItem>, n: int)
    ensures
        0 <= track_end(items, n) <= 2 * (u64::MAX as int),
    decreases n,
{
    if n > 0 {
        lemma_track_end_bound(items, n - 1);
    }
}

/// Number of frames for `duration` microseconds at `rate` (see `frame_count_spec`).
pub fn frame_count(duration: u128, rate: u32) -> (r: u128)
    requires
        duration <= 2 * (u64::MAX as int),
    ensures
        r == frame_count_spec(duration as int, rate as int),
{
    proof {
        assert(duration * rate <= 2 * (u64::MAX as int) * (u32::MAX as int)) by (nonlinear_arith)
            requires
                duration <= 2 * (u64::MAX as int),
                rate <= u32::MAX,
        ;
    }
    (duration * (rate as u128) + 999_999_999) / 1_000_000_000
}

/// Index of the first job with id `id`.
pub open spec fn index_of(jobs: Seq<RenderJob>, id: Seq<char>) -> Option<int>
    decreases jobs.len(),
{
    if jobs.len() == 0 {
        None
    } else {
        match index_of(jobs.drop_last(), id) {
            Some(i) => Some(i),
            None => if jobs.last().id@ == id {
                Some(jobs.len() - 1)
            } else {
                None
            },
        }
    }
}

/// `new` is `old` with job `i` moved on by event `e`.
pub open spec fn updated(old: Seq<RenderJob>, new: Seq<RenderJob>, i: int, e: JobEvent) -> bool {
    &&& new.len() == old.len()
    &&& new[i].after(old[i], e)
    &&& forall|k: int| 0 <= k < old.len() && k != i ==> new[k] == old[k]
}

/// The registry of render jobs, keyed by job id.
pub struct RenderManager {
    jobs: Vec<RenderJob>,
}

impl RenderManager {
    pub closed spec fn jobs(&self) -> Seq<RenderJob> {
        self.jobs@
    }

    /// Every job is well formed, and no two jobs share an id.
    pub closed spec fn wf(&self) -> bool {
        &&& forall|i: int| 0 <= i < self.jobs@.len() ==> (#[trigger] self.jobs@[i]).wf()
        &&& forall|i: int, j: int|
            0 <= i < j < self.jobs@.len() ==> (#[trigger] self.jobs@[i]).id@ != (#[trigger] self.jobs@[j]).id@
    }

    pub fn new() -> (r: RenderManager)
        ensures
            r.wf(),
            r.jobs() == Seq::<RenderJob>::empty(),
    {
        RenderManager { jobs: Vec::new() }
    }

    fn find(&self, job_id: &str) -> (r: Option<usize>)
        ensures
            r matches Some(i) ==> index_of(self.jobs(), job_id@) == Some(i as int) && i < self.jobs().len(),
            r is None ==> index_of(self.jobs(), job_id@) is None,
    {
        let key = job_id.to_owned();
        let mut i: usize = 0;
        while i < self.jobs.len()
            invariant
                i <= self.jobs.len(),
                key@ == job_id@,
                index_of(self.jobs@.subrange(0, i as int), job_id@) is None,
            decreases self.jobs.len() - i,
        {
            proof {
                assert(self.jobs@.subrange(0, i as int + 1).drop_last() =~= self.jobs@.subrange(0, i as int));
            }
            if self.jobs[i].id == key {
                proof {
                    lemma_index_of_prefix(self.jobs@, i as int + 1, job_id@);
                }
                return Some(i);
            }
            i = i + 1;
        }
        proof {
            assert(self.jobs@.subrange(0, i as int) =~= self.jobs@);
        }
        None
    }

    /// Registers a new job with id `id` in `Queued` state, holding its own copy
    /// of the project. Fails with `InvalidFormat` for a zero frame rate, with
    /// `InvalidComposition` when the frame times do not fit in 64 bits, and with
    /// `Internal` when a job with that id exists.
    pub fn register(&mut self, id: String, project: Project, settings: RenderSettings, output_path: String) -> (r: Result<String, Error>)
        requires
            old(self).wf(),
        ensures
            final(self).wf(),
            settings.frame_rate == 0 ==> r matches Err(Error::InvalidFormat(_)),
            settings.frame_rate > 0 && !frames_fit(project.composition, settings.frame_rate as int)
                ==> r matches Err(Error::InvalidComposition(_)),
            settings.frame_rate > 0 && frames_fit(project.composition, settings.frame_rate as int)
                && index_of(old(self).jobs(), id@) is Some ==> r matches Err(Error::Internal(_)),
            r is Err ==> final(self).jobs() == old(self).jobs(),
            settings.frame_rate > 0 && frames_fit(project.composition, settings.frame_rate as int)
                && index_of(old(self).jobs(), id@) is None ==> r is Ok,
            r matches Ok(rid) ==> {
                &&& rid@ == id@
                &&& index_of(old(self).jobs(), id@) is None
                &&& final(self).jobs().len() == old(self).jobs().len() + 1
                &&& final(self).jobs().drop_last() == old(self).jobs()
                &&& queued_job(final(self).jobs().last(), id, project, settings, output_path)
            },
    {
        if settings.frame_rate == 0 {
            return Err(Error::InvalidFormat(String::from_str("frame rate must be positive")));
        }
        let duration = total_duration(&project.composition);
        proof {
            lemma_track_end_total_bound(project.composition.tracks@, project.composition.tracks.len() as int);
        }
        let count = frame_count(duration, settings.frame_rate);
        if count > u64::MAX as u128 || count * 1_000_000_000u128 / (settings.frame_rate as u128) > u64::MAX as u128 {
            return Err(Error::InvalidComposition(String::from_str("composition is too long to render")));
        }
        if self.find(id.as_str()).is_some() {
            return Err(Error::Internal(String::from_str("job id already in use")));
        }
        let rid = id.clone();
        let job = RenderJob::new(id, project, settings, output_path, count as u64);
        proof {
            lemma_index_of_none(self.jobs@, rid@);
        }
        self.jobs.push(job);
        proof {
            assert(self.jobs@.drop_last() =~= old(self).jobs@);
        }
        Ok(rid)
    }

    /// Starts a render of `project`: registers a job under a fresh id and
    /// returns the id. The driver then calls `begin_render` and follows `next_action`.
    pub fn start_render(&mut self, project: Project, settings: RenderSettings, output_path: String) -> (r: Result<String, Error>)
        requires
            old(self).wf(),
        ensures
            final(self).wf(),
            settings.frame_rate == 0 ==> r matches Err(Error::InvalidFormat(_)),
            settings.frame_rate > 0 && !frames_fit(project.composition, settings.frame_rate as int)
                ==> r matches Err(Error::InvalidComposition(_)),
            r is Err ==> final(self).jobs() == old(self).jobs(),
            settings.frame_rate > 0 && frames_fit(project.composition, settings.frame_rate as int)
                ==> r is Ok || r matches Err(Error::Internal(_)),
            settings.frame_rate > 0 && frames_fit(project.composition, settings.frame_rate as int)
                && (forall|k: int| 0 <= k < old(self).jobs().len() ==> (#[trigger] old(self).jobs()[k]).id@.len() != 36)
                ==> r is Ok,
            r matches Ok(id) ==> {
                &&& crate::model::uuid_form(id@)
                &&& index_of(old(self).jobs(), id@) is None
                &&& final(self).jobs().len() == old(self).jobs().len() + 1
                &&& final(self).jobs().drop_last() == old(self).jobs()
                &&& final(self).jobs().last().id@ == id@
                &&& queued_job(final(self).jobs().last(), final(self).jobs().last().id, project, settings, output_path)
            },
    {
        let id = crate::model::new_uuid();
        proof {
            lemma_index_of_some(self.jobs@, id@);
        }
        self.register(id, project, settings, output_path)
    }

    /// Cancels a job: `NotFound` for an unknown id; a job that has already
    /// ended is left as it is; otherwise it becomes `Cancelled`.
    pub fn cancel_render(&mut self, job_id: &str) -> (r: Result<(), Error>)
        requires
            old(self).wf(),
        ensures
            final(self).wf(),
            match index_of(old(self).jobs(), job_id@) {
                None => r matches Err(Error::NotFound(_)) && final(self).jobs() == old(self).jobs(),
                Some(i) => r is Ok && updated(old(self).jobs(), final(self).jobs(), i, JobEvent::Cancel),
            },
    {
        match self.find(job_id) {
            None => Err(Error::NotFound(String::from_str("Render job not found"))),
            Some(i) => {
                self.jobs[i].cancel();
                proof {
                    assert(self.wf()) by { lemma_ids_kept(old(self).jobs@, self.jobs@, i as int); }
                }
                Ok(())
            },
        }
    }

    /// A snapshot of a job's progress; `NotFound` for an unknown id. The
    /// snapshot carries the asked id, its progress is at most one, and it has
    /// an output path exactly when the job completed, at full progress.
    pub fn get_progress(&self, job_id: &str) -> (r: Result<RenderProgress, Error>)
        requires
            self.wf(),
        ensures
            match index_of(self.jobs(), job_id@) {
                None => r matches Err(Error::NotFound(_)),
                Some(i) => r matches Ok(p) && p == self.jobs()[i].progress,
            },
            r matches Ok(p) ==> {
                &&& p.job_id@ == job_id@
                &&& p.progress <= PROGRESS_ONE
                &&& (p.output_path is Some <==> p.status == RenderStatus::Completed)
                &&& (p.status == RenderStatus::Completed ==> p.progress == PROGRESS_ONE)
            },
    {
        match self.find(job_id) {
            None => Err(Error::NotFound(String::from_str("Render job not found"))),
            Some(i) => {
                proof {
                    lemma_index_of_some(self.jobs@, job_id@);
                    assert(self.jobs@[i as int].wf());
                }
                Ok(self.jobs[i].snapshot())
            },
        }
    }

    /// Every job of a well-formed registry is well formed, and ids are unique.
    pub proof fn lemma_jobs_wf(&self)
        requires
            self.wf(),
        ensures
            forall|i: int| 0 <= i < self.jobs().len() ==> (#[trigger] self.jobs()[i]).wf(),
            forall|i: int, j: int|
                0 <= i < j < self.jobs().len() ==> (#[trigger] self.jobs()[i]).id@ != (#[trigger] self.jobs()[j]).id@,
    {
    }

    /// The job with id `job_id`, if any.
    pub fn job(&self, job_id: &str) -> (r: Option<&RenderJob>)
        ensures
            match index_of(self.jobs(), job_id@) {
                None => r is None,
                Some(i) => r == Some(&self.jobs()[i]),
            },
    {
        match self.find(job_id) {
            None => None,
            Some(i) => Some(&self.jobs[i]),
        }
    }

    /// The render loop of a job starts: `Queued` becomes `Rendering`.
    pub fn begin_render(&mut self, job_id: &str) -> (r: Result<(), Error>)
        requires
            old(self).wf(),
        ensures
            final(self).wf(),
            match index_of(old(self).jobs(), job_id@) {
                None => r matches Err(Error::NotFound(_)) && final(self).jobs() == old(self).jobs(),
                Some(i) => r is Ok && updated(old(self).jobs(), final(self).jobs(), i, JobEvent::Begin),
            },
    {
        match self.find(job_id) {
            None => Err(Error::NotFound(String::from_str("Render job not found"))),
            Some(i) => {
                self.jobs[i].begin();
                proof {
                    assert(self.wf()) by { lemma_ids_kept(old(self).jobs@, self.jobs@, i as int); }
                }
                Ok(())
            },
        }
    }

    /// What the render loop of a job does next.
    pub fn next_action(&self, job_id: &str) -> (r: Result<RenderAction, Error>)
        requires
            self.wf(),
        ensures
            match index_of(self.jobs(), job_id@) {
                None => r matches Err(Error::NotFound(_)),
                Some(i) => r == Ok::<RenderAction, Error>(
                    action_spec(self.jobs()[i].state(), self.jobs()[i].settings.frame_rate as int),
                ),
            },
    {
        match self.find(job_id) {
            None => Err(Error::NotFound(String::from_str("Render job not found"))),
            Some(i) => Ok(self.jobs[i].next_action()),
        }
    }

    /// A frame of the job was written.
    pub fn frame_written(&mut self, job_id: &str) -> (r: Result<(), Error>)
        requires
            old(self).wf(),
        ensures
            final(self).wf(),
            match index_of(old(self).jobs(), job_id@) {
                None => r matches Err(Error::NotFound(_)) && final(self).jobs() == old(self).jobs(),
                Some(i) => r is Ok && updated(old(self).jobs(), final(self).jobs(), i, JobEvent::FrameWritten),
            },
    {
        match self.find(job_id) {
            None => Err(Error::NotFound(String::from_str("Render job not found"))),
            Some(i) => {
                self.jobs[i].frame_written();
                proof {
                    assert(self.wf()) by { lemma_ids_kept(old(self).jobs@, self.jobs@, i as int); }
                }
                Ok(())
            },
        }
    }

    /// The job's output was finalized at its output path.
    pub fn complete_render(&mut self, job_id: &str) -> (r: Result<(), Error>)
        requires
            old(self).wf(),
        ensures
            final(self).wf(),
            match index_of(old(self).jobs(), job_id@) {
                None => r matches Err(Error::NotFound(_)) && final(self).jobs() == old(self).jobs(),
                Some(i) => r is Ok && updated(old(self).jobs(), final(self).jobs(), i, JobEvent::Complete),
            },
    {
        match self.find(job_id) {
            None => Err(Error::NotFound(String::from_str("Render job not found"))),
            Some(i) => {
                self.jobs[i].complete();
                proof {
                    assert(self.wf()) by { lemma_ids_kept(old(self).jobs@, self.jobs@, i as int); }
                }
                Ok(())
            },
        }
    }

    /// A step of the job failed with `message`.
    pub fn fail_render(&mut self, job_id: &str, message: String) -> (r: Result<(), Error>)
        requires
            old(self).wf(),
        ensures
            final(self).wf(),
            match index_of(old(self).jobs(), job_id@) {
                None => r matches Err(Error::NotFound(_)) && final(self).jobs() == old(self).jobs(),
                Some(i) => r is Ok && updated(old(self).jobs(), final(self).jobs(), i, JobEvent::Fail)
                    && (!is_terminal(old(self).jobs()[i].progress.status)
                    ==> final(self).jobs()[i].progress.message == message),
            },
    {
        match self.find(job_id) {
            None => Err(Error::NotFound(String::from_str("Render job not found"))),
            Some(i) => {
                self.jobs[i].fail(message);
                proof {
                    assert(self.wf()) by { lemma_ids_kept(old(self).jobs@, self.jobs@, i as int); }
                }
                Ok(())
            },
        }
    }
}

/// The frame count of the composition at `rate`, and every frame's time, fit in 64 bits.
pub open spec fn frames_fit(c: Composition, rate: int) -> bool {
    let n = frame_count_spec(total_duration_spec(c), rate);
    n <= u64::MAX && n * 1_000_000_000 / rate <= u64::MAX
}

/// A freshly registered job.
pub open spec fn queued_job(j: RenderJob, id: String, project: Project, settings: RenderSettings, output_path: String) -> bool {
    &&& j.id@ == id@
    &&& j.progress.job_id@ == id@
    &&& j.project == project
    &&& j.settings == settings
    &&& j.output_path == output_path
    &&& j.progress.status == RenderStatus::Queued
    &&& j.progress.progress == 0
    &&& j.progress.output_path is None
    &&& j.frames_done == 0
    &&& j.total_frames == frame_count_spec(total_duration_spec(project.composition), settings.frame_rate as int)
}

proof fn lemma_track_end_total_bound(tracks: Seq<Track>, k: int)
    ensures
        0 <= total_duration_prefix(tracks, k) <= 2 * (u64::MAX as int),
    decreases k,
{
    if k > 0 {
        lemma_track_end_total_bound(tracks, k - 1);
        lemma_track_end_bound(tracks[k - 1].items@, tracks[k - 1].items.len() as int);
    }
}

proof fn lemma_index_of_prefix(jobs: Seq<RenderJob>, n: int, id: Seq<char>)
    requires
        0 < n <= jobs.len(),
        index_of(jobs.subrange(0, n - 1), id) is None,
        jobs[n - 1].id@ == id,
    ensures
        index_of(jobs, id) == Some(n - 1),
    decreases jobs.len(),
{
    if n < jobs.len() {
        assert(jobs.drop_last().subrange(0, n - 1) =~= jobs.subrange(0, n - 1));
        lemma_index_of_prefix(jobs.drop_last(), n, id);
    } else {
        assert(jobs.subrange(0, n - 1) =~= jobs.drop_last());
    }
}

proof fn lemma_index_of_some(jobs: Seq<RenderJob>, id: Seq<char>)
    ensures
        index_of(jobs, id) matches Some(i) ==> 0 <= i < jobs.len() && jobs[i].id@ == id,
    decreases jobs.len(),
{
    if jobs.len() > 0 {
        lemma_index_of_some(jobs.drop_last(), id);
    }
}

proof fn lemma_index_of_none(jobs: Seq<RenderJob>, id: Seq<char>)
    requires
        index_of(jobs, id) is None,
    ensures
        forall|i: int| 0 <= i < jobs.len() ==> (#[trigger] jobs[i]).id@ != id,
    decreases jobs.len(),
{
    if jobs.len() > 0 {
        lemma_index_of_none(jobs.drop_last(), id);
        assert forall|i: int| 0 <= i < jobs.len() implies (#[trigger] jobs[i]).id@ != id by {
            if i < jobs.len() - 1 {
                assert(jobs[i] == jobs.drop_last()[i]);
            }
        }
    }
}

proof fn lemma_ids_kept(old: Seq<RenderJob>, new: Seq<RenderJob>, i: int)
    requires
        new.len() == old.len(),
        0 <= i < old.len(),
        new[i].id == old[i].id,
        new[i].wf(),
        forall|k: int| 0 <= k < old.len() && k != i ==> new[k] == old[k],
        forall|k: int| 0 <= k < old.len() ==> (#[trigger] old[k]).wf(),
        forall|a: int, b: int| 0 <= a < b < old.len() ==> (#[trigger] old[a]).id@ != (#[trigger] old[b]).id@,
    ensures
        forall|k: int| 0 <= k < new.len() ==> (#[trigger] new[k]).wf(),
        forall|a: int, b: int| 0 <= a < b < new.len() ==> (#[trigger] new[a]).id@ != (#[trigger] new[b]).id@,
{
    assert forall|a: int, b: int| 0 <= a < b < new.len() implies (#[trigger] new[a]).id@ != (#[trigger] new[b]).id@ by {
        assert(old[a].id@ != old[b].id@);
    }
    assert forall|k: int| 0 <= k < new.len() implies (#[trigger] new[k]).wf() by {
        if k != i {
            assert(old[k].wf());
        }
    }
}

proof fn lemma_terminal_stays(s: JobState, events: Seq<JobEvent>)
    requires
        is_terminal(s.status),
    ensures
        run_events(s, events).status == s.status,
    decreases events.len(),
{
    if events.len() > 0 {
        lemma_terminal_stays(next_state(s, events[0]), events.drop_first());
    }
}

/// Cancelling a job that is rendering makes it `Cancelled`; the render loop's
/// next action is then to stop, and no later event (a frame written, a
/// completion, a failure) moves the job out of `Cancelled`.
pub proof fn lemma_cancel_is_final(s: JobState, rate: int, events: Seq<JobEvent>)
    requires
        s.status == RenderStatus::Rendering,
    ensures
        next_state(s, JobEvent::Cancel).status == RenderStatus::Cancelled,
        action_spec(next_state(s, JobEvent::Cancel), rate) == RenderAction::Stop,
        run_events(next_state(s, JobEvent::Cancel), events).status == RenderStatus::Cancelled,
{
    lemma_terminal_stays(next_state(s, JobEvent::Cancel), events);
}

proof fn lemma_next_state_wf(s: JobState, e: JobEvent)
    requires
        state_wf(s),
    ensures
        state_wf(next_state(s, e)),
{
}

/// While a job stays `Rendering`, its progress never decreases: after any
/// sequence of events that leaves it `Rendering`, its progress is at least
/// what it was.
pub proof fn lemma_progress_monotone(s: JobState, events: Seq<JobEvent>)
    requires
        state_wf(s),
        s.status == RenderStatus::Rendering,
        run_events(s, events).status == RenderStatus::Rendering,
    ensures
        run_events(s, events).progress >= s.progress,
    decreases events.len(),
{
    if events.len() > 0 {
        let n = next_state(s, events[0]);
        lemma_next_state_wf(s, events[0]);
        if n.status == RenderStatus::Rendering {
            if s.total > 0 {
                if s.frames_done < s.total {
                    vstd::arithmetic::div_mod::lemma_div_is_ordered(
                        s.frames_done * PROGRESS_ONE,
                        (s.frames_done + 1) * PROGRESS_ONE,
                        s.total,
                    );
                }
            }
            assert(n.progress >= s.progress);
            lemma_progress_monotone(n, events.drop_first());
        } else {
            lemma_terminal_stays(n, events.drop_first());
        }
    }
}

/// Across one call on the registry (any job `i`, any event `e`), every job
/// `k` that is rendering before and after has not lost progress, and a job
/// that was cancelled stays cancelled, with no output path. Chained over
/// successive calls, progress reads never go down while a job renders, and
/// once cancelled a job reads as cancelled from then on.
pub proof fn lemma_registry_step(old: Seq<RenderJob>, new: Seq<RenderJob>, i: int, e: JobEvent, k: int)
    requires
        updated(old, new, i, e),
        0 <= i < old.len(),
        0 <= k < old.len(),
        old[k].wf(),
    ensures
        old[k].progress.status == RenderStatus::Rendering && new[k].progress.status
            == RenderStatus::Rendering ==> new[k].progress.progress >= old[k].progress.progress,
        old[k].progress.status == RenderStatus::Cancelled ==> new[k].progress.status
            == RenderStatus::Cancelled && new[k].progress.output_path is None,
{
    if k == i {
        let s = old[k].state();
        if next_state(s, e) != s && s.status == RenderStatus::Rendering && s.total > 0
            && s.frames_done < s.total {
            vstd::arithmetic::div_mod::lemma_div_is_ordered(
                s.frames_done * PROGRESS_ONE,
                (s.frames_done + 1) * PROGRESS_ONE,
                s.total,
            );
        }
    }
}

} // verus!
