//! State of the entity-component interface: jobs, the job tracker, the
//! gallery, the queue selection and the application flags.

use vstd::prelude::*;

verus! {

/// Status of a generation job.
#[derive(Debug, Clone, PartialEq)]
pub enum JobStatus {
    /// Created, not yet acknowledged by the backend.
    Pending,
    /// Acknowledged and waiting.
    Queued,
    /// Being generated: stage text, progress as a fraction and remaining
    /// seconds, both as the bits of `f32` values.
    Generating { stage: String, progress: u32, eta_s: u32 },
    /// Finished, with the image and the time it took in milliseconds.
    Complete { image_path: String, duration_ms: u64 },
    /// Failed with an error message.
    Failed { error: String },
    /// Cancelled by the user.
    Cancelled,
}

impl JobStatus {
    /// The stage text of a generating job.
    pub fn stage_name(&self) -> (r: Option<&String>)
        ensures
            self matches JobStatus::Generating { stage, .. } ==> r == Some(stage),
            !(self is Generating) ==> r is None,
    {
        match self {
            JobStatus::Generating { stage, .. } => Some(stage),
            _ => None,
        }
    }
}

/// A generation job.
#[derive(Debug, Clone, PartialEq)]
pub struct Job {
    pub id: String,
    pub prompt: String,
    pub status: JobStatus,
    /// When it was submitted, in milliseconds of a monotonic clock.
    pub submitted_at: u64,
}

/// A job is active while pending, queued or generating.
pub open spec fn status_active(s: JobStatus) -> bool {
    s is Pending || s is Queued || s is Generating
}

impl Job {
    /// A new pending job submitted at `submitted_at`.
    pub fn new(id: String, prompt: String, submitted_at: u64) -> (j: Job)
        ensures
            j.id == id,
            j.prompt == prompt,
            j.status == JobStatus::Pending,
            j.submitted_at == submitted_at,
    {
        Job { id, prompt, status: JobStatus::Pending, submitted_at }
    }

    /// Whether the job is still running or waiting.
    pub fn is_active(&self) -> (b: bool)
        ensures
            b == status_active(self.status),
    {
        match self.status {
            JobStatus::Pending | JobStatus::Queued | JobStatus::Generating { .. } => true,
            _ => false,
        }
    }

    /// Milliseconds since submission at time `now` (zero if `now` is
    /// earlier).
    pub open spec fn elapsed_ms_spec(&self, now: u64) -> int {
        if now >= self.submitted_at {
            now - self.submitted_at
        } else {
            0
        }
    }

    /// Milliseconds since submission at time `now` (zero if `now` is
    /// earlier).
    pub fn elapsed_ms(&self, now: u64) -> (e: u64)
        ensures
            e == self.elapsed_ms_spec(now),
    {
        if now >= self.submitted_at {
            now - self.submitted_at
        } else {
            0
        }
    }
}

/// Counts of submitted, completed and failed jobs.
#[derive(Debug, Clone, Copy, PartialEq, Eq, Structural)]
pub struct JobTracker {
    pub total_submitted: usize,
    pub total_completed: usize,
    pub total_failed: usize,
}

impl JobTracker {
    /// No job counted.
    pub fn new() -> (t: JobTracker)
        ensures
            t.total_submitted == 0,
            t.total_completed == 0,
            t.total_failed == 0,
    {
        JobTracker { total_submitted: 0, total_completed: 0, total_failed: 0 }
    }

    /// Count a submitted job (the count stops at the largest `usize`).
    pub fn submit_job(&mut self)
        ensures
            final(self).total_submitted == if old(self).total_submitted < usize::MAX {
                old(self).total_submitted + 1
            } else {
                old(self).total_submitted as int
            },
            final(self).total_completed == old(self).total_completed,
            final(self).total_failed == old(self).total_failed,
    {
        self.total_submitted = self.total_submitted.saturating_add(1);
    }

    /// Count a completed job (the count stops at the largest `usize`).
    pub fn complete_job(&mut self)
        ensures
            final(self).total_completed == if old(self).total_completed < usize::MAX {
                old(self).total_completed + 1
            } else {
                old(self).total_completed as int
            },
            final(self).total_submitted == old(self).total_submitted,
            final(self).total_failed == old(self).total_failed,
    {
        self.total_completed = self.total_completed.saturating_add(1);
    }

    /// Count a failed job (the count stops at the largest `usize`).
    pub fn fail_job(&mut self)
        ensures
            final(self).total_failed == if old(self).total_failed < usize::MAX {
                old(self).total_failed + 1
            } else {
                old(self).total_failed as int
            },
            final(self).total_submitted == old(self).total_submitted,
            final(self).total_completed == old(self).total_completed,
    {
        self.total_failed = self.total_failed.saturating_add(1);
    }

    /// Jobs submitted and neither completed nor failed (zero if the counts
    /// disagree).
    pub fn active_jobs(&self) -> (n: usize)
        ensures
            n == if self.total_completed + self.total_failed <= self.total_submitted {
                self.total_submitted - self.total_completed - self.total_failed
            } else {
                0
            },
    {
        self.total_submitted.saturating_sub(self.total_completed).saturating_sub(
            self.total_failed,
        )
    }
}

impl Default for JobTracker {
    fn default() -> (t: JobTracker)
        ensures
            t.total_submitted == 0,
            t.total_completed == 0,
            t.total_failed == 0,
    {
        JobTracker::new()
    }
}

/// The gallery: image paths, oldest first, and the selected one.
#[derive(Debug, Clone)]
pub struct GalleryState {
    pub images: Vec<String>,
    pub selected: usize,
}

impl GalleryState {
    /// The selection lies within the images (zero when there are none).
    pub open spec fn wf(&self) -> bool {
        if self.images@.len() == 0 {
            self.selected == 0
        } else {
            self.selected < self.images@.len()
        }
    }

    /// An empty gallery.
    pub fn new() -> (g: GalleryState)
        ensures
            g.wf(),
            g.images@.len() == 0,
            g.selected == 0,
    {
        GalleryState { images: Vec::new(), selected: 0 }
    }

    /// Number of images.
    pub fn len(&self) -> (n: usize)
        ensures
            n == self.images@.len(),
    {
        self.images.len()
    }

    /// Whether there is no image.
    pub fn is_empty(&self) -> (b: bool)
        ensures
            b == (self.images@.len() == 0),
    {
        self.images.len() == 0
    }

    /// Add an image at the end; the selection stays.
    pub fn add_image(&mut self, path: String)
        requires
            old(self).wf(),
        ensures
            final(self).wf(),
            final(self).images@ == old(self).images@.push(path),
            final(self).selected == old(self).selected,
    {
        self.images.push(path);
    }

    /// The selected image, if any.
    pub fn current_image(&self) -> (r: Option<&String>)
        requires
            self.wf(),
        ensures
            self.images@.len() == 0 ==> r is None,
            self.images@.len() > 0 ==> r == Some(&self.images@[self.selected as int]),
    {
        if self.selected < self.images.len() {
            Some(&self.images[self.selected])
        } else {
            None
        }
    }

    /// Select the next image, wrapping to the first.
    pub fn select_next(&mut self)
        requires
            old(self).wf(),
        ensures
            final(self).wf(),
            final(self).images@ == old(self).images@,
            old(self).images@.len() > 0 ==> final(self).selected == (old(self).selected + 1) % (
            old(self).images@.len() as int),
            old(self).images@.len() == 0 ==> final(self).selected == 0,
    {
        let n = self.images.len();
        if n > 0 {
            let a = self.selected;
            if a + 1 == n {
                self.selected = 0;
                assert((a + 1) % (n as int) == 0) by (nonlinear_arith)
                    requires a + 1 == n, n > 0;
            } else {
                self.selected = a + 1;
                assert((a + 1) % (n as int) == a + 1) by (nonlinear_arith)
                    requires 0 <= a, a + 1 < n;
            }
        }
    }

    /// Select the previous image, wrapping to the last.
    pub fn select_previous(&mut self)
        requires
            old(self).wf(),
        ensures
            final(self).wf(),
            final(self).images@ == old(self).images@,
            old(self).images@.len() > 0 ==> final(self).selected == (old(self).selected + old(
                self,
            ).images@.len() - 1) % (old(self).images@.len() as int),
            old(self).images@.len() == 0 ==> final(self).selected == 0,
    {
        let n = self.images.len();
        if n > 0 {
            let a = self.selected;
            if a == 0 {
                self.selected = n - 1;
                assert((a + n - 1) % (n as int) == n - 1) by (nonlinear_arith)
                    requires a == 0, n > 0;
            } else {
                self.selected = a - 1;
                assert((a + n - 1) % (n as int) == a - 1) by (nonlinear_arith)
                    requires 0 < a < n;
            }
        }
    }
}

/// The selection in the job queue and the number of jobs shown.
#[derive(Debug, Clone, Copy, PartialEq, Eq, Structural)]
pub struct QueueState {
    pub selected: usize,
    pub total: usize,
}

impl QueueState {
    /// The selection lies within the jobs (zero when there are none).
    pub open spec fn wf(&self) -> bool {
        if self.total == 0 {
            self.selected == 0
        } else {
            self.selected < self.total
        }
    }

    /// No job, nothing selected.
    pub fn new() -> (q: QueueState)
        ensures
            q.wf(),
            q.selected == 0,
            q.total == 0,
    {
        QueueState { selected: 0, total: 0 }
    }

    /// Set the number of jobs, moving the selection to the last job if it
    /// falls outside.
    pub fn update_total(&mut self, total: usize)
        ensures
            final(self).wf(),
            final(self).total == total,
            final(self).selected == if total == 0 {
                0
            } else if old(self).selected < total {
                old(self).selected as int
            } else {
                total - 1
            },
    {
        self.total = total;
        if total == 0 {
            self.selected = 0;
        } else if self.selected >= total {
            self.selected = total - 1;
        }
    }

    /// Select the next job, stopping at the last.
    pub fn select_next(&mut self)
        requires
            old(self).wf(),
        ensures
            final(self).wf(),
            final(self).total == old(self).total,
            final(self).selected == if old(self).selected + 1 < old(self).total {
                old(self).selected + 1
            } else {
                old(self).selected as int
            },
    {
        if self.selected + 1 < self.total {
            self.selected = self.selected + 1;
        }
    }

    /// Select the previous job, stopping at the first.
    pub fn select_previous(&mut self)
        requires
            old(self).wf(),
        ensures
            final(self).wf(),
            final(self).total == old(self).total,
            final(self).selected == if old(self).selected > 0 {
                old(self).selected - 1
            } else {
                0
            },
    {
        if self.selected > 0 {
            self.selected = self.selected - 1;
        }
    }

    /// Select the first job.
    pub fn select_first(&mut self)
        ensures
            final(self).wf(),
            final(self).total == old(self).total,
            final(self).selected == 0,
    {
        self.selected = 0;
    }

    /// Select the last job (the first when there is none).
    pub fn select_last(&mut self)
        ensures
            final(self).wf(),
            final(self).total == old(self).total,
            final(self).selected == if old(self).total > 0 {
                old(self).total - 1
            } else {
                0
            },
    {
        if self.total > 0 {
            self.selected = self.total - 1;
        } else {
            self.selected = 0;
        }
    }
}

/// Number of tabs in the preview pane (preview, backend log).
pub const PREVIEW_TABS: usize = 2;

/// Flags and shared values of the interface.
#[derive(Debug, Clone)]
pub struct AppState {
    pub should_quit: bool,
    pub needs_redraw: bool,
    pub debug_mode: bool,
    /// Tab of the preview pane, below `PREVIEW_TABS`.
    pub preview_tab: usize,
    /// Image shown in the preview pane.
    pub current_preview: Option<String>,
    /// Frames drawn so far.
    pub frame_count: u64,
}

impl AppState {
    /// The preview tab is one of the tabs.
    pub open spec fn wf(&self) -> bool {
        self.preview_tab < PREVIEW_TABS
    }

    /// Starting state: drawn at once, not quitting, first tab.
    pub fn new() -> (s: AppState)
        ensures
            s.wf(),
            !s.should_quit,
            s.needs_redraw,
            !s.debug_mode,
            s.preview_tab == 0,
            s.current_preview is None,
            s.frame_count == 0,
    {
        AppState {
            should_quit: false,
            needs_redraw: true,
            debug_mode: false,
            preview_tab: 0,
            current_preview: None,
            frame_count: 0,
        }
    }

    /// Ask for the screen to be drawn again.
    pub fn request_redraw(&mut self)
        ensures
            final(self).needs_redraw,
            final(self).should_quit == old(self).should_quit,
            final(self).debug_mode == old(self).debug_mode,
            final(self).preview_tab == old(self).preview_tab,
            final(self).current_preview == old(self).current_preview,
            final(self).frame_count == old(self).frame_count,
    {
        self.needs_redraw = true;
    }

    /// Ask to quit.
    pub fn quit(&mut self)
        ensures
            final(self).should_quit,
            final(self).needs_redraw == old(self).needs_redraw,
            final(self).debug_mode == old(self).debug_mode,
            final(self).preview_tab == old(self).preview_tab,
            final(self).current_preview == old(self).current_preview,
            final(self).frame_count == old(self).frame_count,
    {
        self.should_quit = true;
    }

    /// Switch to the next preview tab, wrapping, and ask for a redraw.
    pub fn next_preview_tab(&mut self)
        requires
            old(self).wf(),
        ensures
            final(self).wf(),
            final(self).preview_tab == (old(self).preview_tab + 1) % (PREVIEW_TABS as int),
            final(self).needs_redraw,
            final(self).should_quit == old(self).should_quit,
            final(self).debug_mode == old(self).debug_mode,
            final(self).current_preview == old(self).current_preview,
            final(self).frame_count == old(self).frame_count,
    {
        if self.preview_tab + 1 >= PREVIEW_TABS {
            self.preview_tab = 0;
        } else {
            self.preview_tab = self.preview_tab + 1;
        }
        self.needs_redraw = true;
    }

    /// Note that a frame was drawn.
    pub fn mark_rendered(&mut self)
        ensures
            !final(self).needs_redraw,
            final(self).frame_count == if old(self).frame_count < u64::MAX {
                old(self).frame_count + 1
            } else {
                old(self).frame_count as int
            },
            final(self).should_quit == old(self).should_quit,
            final(self).debug_mode == old(self).debug_mode,
            final(self).preview_tab == old(self).preview_tab,
            final(self).current_preview == old(self).current_preview,
    {
        self.needs_redraw = false;
        self.frame_count = self.frame_count.saturating_add(1);
    }
}


/// A job status with its texts as character sequences.
pub enum StatusView {
    Pending,
    Queued,
    Generating { stage: Seq<char>, progress: u32, eta_s: u32 },
    Complete { image_path: Seq<char>, duration_ms: u64 },
    Failed { error: Seq<char> },
    Cancelled,
}

/// A job with its texts as character sequences.
pub struct JobView {
    pub id: Seq<char>,
    pub prompt: Seq<char>,
    pub status: StatusView,
    pub submitted_at: u64,
}

impl JobStatus {
    /// The status with its texts as character sequences.
    pub open spec fn view(&self) -> StatusView {
        match self {
            JobStatus::Pending => StatusView::Pending,
            JobStatus::Queued => StatusView::Queued,
            JobStatus::Generating { stage, progress, eta_s } => StatusView::Generating {
                stage: stage@,
                progress: *progress,
                eta_s: *eta_s,
            },
            JobStatus::Complete { image_path, duration_ms } => StatusView::Complete {
                image_path: image_path@,
                duration_ms: *duration_ms,
            },
            JobStatus::Failed { error } => StatusView::Failed { error: error@ },
            JobStatus::Cancelled => StatusView::Cancelled,
        }
    }
}

impl Job {
    /// The job with its texts as character sequences.
    pub open spec fn view(&self) -> JobView {
        JobView {
            id: self.id@,
            prompt: self.prompt@,
            status: self.status.view(),
            submitted_at: self.submitted_at,
        }
    }
}

/// The views of a sequence of jobs.
pub open spec fn job_views(s: Seq<Job>) -> Seq<JobView> {
    s.map_values(|j: Job| j.view())
}

/// Job `i` is the first in `s` with id `id`.
pub open spec fn first_match(s: Seq<JobView>, id: Seq<char>, i: int) -> bool {
    &&& 0 <= i < s.len()
    &&& s[i].id == id
    &&& forall|j: int| 0 <= j < i ==> #[trigger] s[j].id != id
}

/// Position of the first job with id `id`, or -1 if there is none.
pub open spec fn find_job(s: Seq<JobView>, id: Seq<char>) -> int {
    if exists|i: int| first_match(s, id, i) {
        choose|i: int| first_match(s, id, i)
    } else {
        -1
    }
}

/// A job found by id is the first with that id.
pub proof fn lemma_find_job(s: Seq<JobView>, id: Seq<char>, i: int)
    requires
        first_match(s, id, i),
    ensures
        find_job(s, id) == i,
{
    let k = choose|k: int| first_match(s, id, k);
    assert(first_match(s, id, k));
    if k < i {
        assert(s[k].id != id);
    }
    if i < k {
        assert(s[i].id != id);
    }
}

/// No job has id `id`.
pub proof fn lemma_find_none(s: Seq<JobView>, id: Seq<char>)
    requires
        forall|j: int| 0 <= j < s.len() ==> #[trigger] s[j].id != id,
    ensures
        find_job(s, id) == -1,
{
    if exists|i: int| first_match(s, id, i) {
        let k = choose|k: int| first_match(s, id, k);
        assert(s[k].id != id);
    }
}

/// The position of the first job with id `id`.
pub fn find_job_index(jobs: &Vec<Job>, id: &str) -> (r: Option<usize>)
    ensures
        r matches Some(i) ==> i < jobs@.len() && find_job(job_views(jobs@), id@) == i,
        r is None ==> find_job(job_views(jobs@), id@) == -1,
{
    let key: String = id.to_owned();
    let ghost v = job_views(jobs@);
    let mut i: usize = 0;
    while i < jobs.len()
        invariant
            key@ == id@,
            v == job_views(jobs@),
            i <= jobs@.len(),
            forall|j: int| 0 <= j < i ==> #[trigger] v[j].id != id@,
        decreases jobs@.len() - i,
    {
        if jobs[i].id == key {
            proof {
                assert(v[i as int].id == id@);
                lemma_find_job(v, id@, i as int);
            }
            return Some(i);
        }
        assert(v[i as int].id != id@);
        i = i + 1;
    }
    proof {
        lemma_find_none(v, id@);
    }
    None
}

/// `s` with the status of job `k` replaced.
pub open spec fn with_status(s: Seq<JobView>, k: int, status: StatusView) -> Seq<JobView> {
    s.update(k, JobView { id: s[k].id, prompt: s[k].prompt, status, submitted_at: s[k].submitted_at })
}

/// Replace the status of job `k`.
pub fn set_job_status(jobs: &mut Vec<Job>, k: usize, status: JobStatus)
    requires
        k < old(jobs)@.len(),
    ensures
        final(jobs)@.len() == old(jobs)@.len(),
        job_views(final(jobs)@) == with_status(job_views(old(jobs)@), k as int, status.view()),
        final(jobs)@[k as int].status == status,
{
    let ghost before = job_views(jobs@);
    let job = jobs.remove(k);
    jobs.insert(k, Job { id: job.id, prompt: job.prompt, status, submitted_at: job.submitted_at });
    assert(job_views(jobs@) =~= with_status(before, k as int, status.view()));
}


/// Selecting the next gallery image and then the previous one (or the other
/// way round) comes back to the image one started from.
pub proof fn law_gallery_next_previous_inverse(selected: int, n: int)
    requires
        0 <= selected < n,
    ensures
        ((selected + 1) % n + n - 1) % n == selected,
        ((selected + n - 1) % n + 1) % n == selected,
{
    if selected + 1 == n {
        assert((selected + 1) % n == 0) by (nonlinear_arith)
            requires selected + 1 == n, n > 0;
        assert((n - 1) % n == n - 1) by (nonlinear_arith)
            requires n > 0;
    } else {
        assert((selected + 1) % n == selected + 1) by (nonlinear_arith)
            requires 0 <= selected, selected + 1 < n;
        assert((selected + 1 + n - 1) % n == selected) by (nonlinear_arith)
            requires 0 <= selected < n;
    }
    if selected == 0 {
        assert((n - 1) % n == n - 1) by (nonlinear_arith)
            requires n > 0;
        assert((n - 1 + 1) % n == 0) by (nonlinear_arith)
            requires n > 0;
    } else {
        assert((selected + n - 1) % n == selected - 1) by (nonlinear_arith)
            requires 0 < selected < n;
        assert((selected - 1 + 1) % n == selected) by (nonlinear_arith)
            requires 0 < selected < n;
    }
}

} // verus!
