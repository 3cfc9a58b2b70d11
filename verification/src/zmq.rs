//! What the interface does with messages from the backend.
//!
//! The binary drains the backend's sockets; the functions here decide which
//! messages become events and how events change the jobs, the gallery and
//! the counters.

use vstd::prelude::*;
use crate::classic::views;
use crate::messages::{format_stage, spec_format_stage, GenerationStage, Response};
use crate::paths::{gallery_path, spec_gallery_path};
use crate::state::{
    find_job, find_job_index, first_match, job_views, set_job_status, with_status, AppState, GalleryState,
    Job, JobStatus, JobTracker, JobView, StatusView,
};

verus! {

/// A job finished with an image.
#[derive(Debug, Clone, PartialEq)]
pub struct GenerationComplete {
    pub job_id: String,
    pub image_path: String,
}

/// Progress of a job (`percent` as a fraction, and `eta_s`, as `f32` bits).
#[derive(Debug, Clone, PartialEq)]
pub struct JobProgressUpdate {
    pub job_id: String,
    pub stage: GenerationStage,
    pub step: u32,
    pub total_steps: u32,
    pub percent: u32,
    pub eta_s: u32,
}

/// The completion events of a sequence of responses: one per completed
/// job, in order.
pub open spec fn spec_completions(responses: Seq<Response>) -> Seq<(Seq<char>, Seq<char>)>
    decreases responses.len(),
{
    if responses.len() == 0 {
        Seq::empty()
    } else {
        let rest = spec_completions(responses.drop_last());
        match responses.last() {
            Response::JobComplete { job_id, image_path, .. } => rest.push((job_id@, image_path@)),
            _ => rest,
        }
    }
}

/// The id and path of each completion event.
pub open spec fn completion_pairs(events: Seq<GenerationComplete>) -> Seq<(Seq<char>, Seq<char>)> {
    events.map_values(|e: GenerationComplete| (e.job_id@, e.image_path@))
}

/// Turn the responses drained from the backend into completion events;
/// other responses are only logged.
pub fn poll_zmq(responses: Vec<Response>) -> (events: Vec<GenerationComplete>)
    ensures
        completion_pairs(events@) == spec_completions(responses@),
{
    let mut events: Vec<GenerationComplete> = Vec::new();
    let mut i: usize = 0;
    while i < responses.len()
        invariant
            i <= responses@.len(),
            completion_pairs(events@) == spec_completions(responses@.take(i as int)),
        decreases responses@.len() - i,
    {
        proof {
            assert(responses@.take(i + 1).drop_last() =~= responses@.take(i as int));
        }
        match &responses[i] {
            Response::JobComplete { job_id, image_path, .. } => {
                events.push(
                    GenerationComplete { job_id: job_id.clone(), image_path: image_path.clone() },
                );
                assert(completion_pairs(events@) =~= spec_completions(responses@.take(i + 1)));
            },
            _ => {
                assert(completion_pairs(events@) =~= spec_completions(responses@.take(i + 1)));
            },
        }
        i = i + 1;
    }
    assert(responses@.take(responses@.len() as int) =~= responses@);
    events
}

/// A started job that is still pending becomes queued.
pub open spec fn started_step(s: Seq<JobView>, id: Seq<char>) -> Seq<JobView> {
    let k = find_job(s, id);
    if k >= 0 && s[k].status is Pending {
        with_status(s, k, StatusView::Queued)
    } else {
        s
    }
}

/// Whether a started event moves a job.
pub open spec fn started_moves(s: Seq<JobView>, id: Seq<char>) -> bool {
    let k = find_job(s, id);
    k >= 0 && s[k].status is Pending
}

/// The jobs after the started events `ids`, in order.
pub open spec fn apply_started(s: Seq<JobView>, ids: Seq<Seq<char>>) -> Seq<JobView>
    decreases ids.len(),
{
    if ids.len() == 0 {
        s
    } else {
        started_step(apply_started(s, ids.drop_last()), ids.last())
    }
}

/// Whether any of the started events `ids` moves a job.
pub open spec fn any_started_moves(s: Seq<JobView>, ids: Seq<Seq<char>>) -> bool
    decreases ids.len(),
{
    if ids.len() == 0 {
        false
    } else {
        any_started_moves(s, ids.drop_last()) || started_moves(
            apply_started(s, ids.drop_last()),
            ids.last(),
        )
    }
}

/// A progress update marks its job as generating, with the stage text,
/// progress and estimate it carries.
pub open spec fn progress_step(s: Seq<JobView>, u: JobProgressUpdate) -> Seq<JobView> {
    let k = find_job(s, u.job_id@);
    if k >= 0 {
        with_status(
            s,
            k,
            StatusView::Generating {
                stage: spec_format_stage(u.stage, u.step, u.total_steps),
                progress: u.percent,
                eta_s: u.eta_s,
            },
        )
    } else {
        s
    }
}

/// The jobs after the progress updates `us`, in order.
pub open spec fn apply_progress(s: Seq<JobView>, us: Seq<JobProgressUpdate>) -> Seq<JobView>
    decreases us.len(),
{
    if us.len() == 0 {
        s
    } else {
        progress_step(apply_progress(s, us.drop_last()), us.last())
    }
}

/// Whether any of the progress updates `us` names a known job.
pub open spec fn any_progress_found(s: Seq<JobView>, us: Seq<JobProgressUpdate>) -> bool
    decreases us.len(),
{
    if us.len() == 0 {
        false
    } else {
        any_progress_found(s, us.drop_last()) || find_job(
            apply_progress(s, us.drop_last()),
            us.last().job_id@,
        ) >= 0
    }
}

/// The flags other than the redraw request are the same.
pub open spec fn same_flags(a: &AppState, b: &AppState) -> bool {
    &&& a.should_quit == b.should_quit
    &&& a.debug_mode == b.debug_mode
    &&& a.preview_tab == b.preview_tab
    &&& a.current_preview == b.current_preview
    &&& a.frame_count == b.frame_count
}

/// Apply job-started events, then progress updates: a started job that is
/// pending becomes queued; a job with progress becomes generating with the
/// formatted stage. Events for unknown jobs change nothing. A redraw is
/// asked for when a job changed.
pub fn handle_zmq_updates(
    started: &Vec<String>,
    progress: &Vec<JobProgressUpdate>,
    jobs: &mut Vec<Job>,
    app_state: &mut AppState,
)
    ensures
        job_views(final(jobs)@) == apply_progress(
            apply_started(job_views(old(jobs)@), views(started@)),
            progress@,
        ),
        final(app_state).needs_redraw == (old(app_state).needs_redraw || any_started_moves(
            job_views(old(jobs)@),
            views(started@),
        ) || any_progress_found(
            apply_started(job_views(old(jobs)@), views(started@)),
            progress@,
        )),
        same_flags(&*final(app_state), &*old(app_state)),
{
    let ghost s0 = job_views(jobs@);
    let ghost ids = views(started@);
    let ghost redraw0 = app_state.needs_redraw;
    let mut i: usize = 0;
    while i < started.len()
        invariant
            i <= started@.len(),
            ids == views(started@),
            job_views(jobs@) == apply_started(s0, ids.take(i as int)),
            app_state.needs_redraw == (redraw0 || any_started_moves(s0, ids.take(i as int))),
            same_flags(&*app_state, &*old(app_state)),
        decreases started@.len() - i,
    {
        proof {
            assert(ids.take(i + 1).drop_last() =~= ids.take(i as int));
            assert(ids.take(i + 1).last() == started@[i as int]@);
        }
        let ghost before = job_views(jobs@);
        match find_job_index(jobs, started[i].as_str()) {
            Some(k) => {
                let pending = match jobs[k].status {
                    JobStatus::Pending => true,
                    _ => false,
                };
                if pending {
                    set_job_status(jobs, k, JobStatus::Queued);
                    app_state.request_redraw();
                }
            },
            None => {},
        }
        i = i + 1;
    }
    assert(ids.take(started@.len() as int) =~= ids);
    let ghost s1 = job_views(jobs@);
    let ghost redraw1 = app_state.needs_redraw;
    let mut j: usize = 0;
    while j < progress.len()
        invariant
            j <= progress@.len(),
            job_views(jobs@) == apply_progress(s1, progress@.take(j as int)),
            app_state.needs_redraw == (redraw1 || any_progress_found(s1, progress@.take(j as int))),
            same_flags(&*app_state, &*old(app_state)),
        decreases progress@.len() - j,
    {
        proof {
            assert(progress@.take(j + 1).drop_last() =~= progress@.take(j as int));
        }
        let u = &progress[j];
        match find_job_index(jobs, u.job_id.as_str()) {
            Some(k) => {
                let stage = format_stage(u.stage, u.step, u.total_steps);
                set_job_status(
                    jobs,
                    k,
                    JobStatus::Generating { stage, progress: u.percent, eta_s: u.eta_s },
                );
                app_state.request_redraw();
            },
            None => {},
        }
        j = j + 1;
    }
    assert(progress@.take(progress@.len() as int) =~= progress@);
}

/// The state that completions change: the jobs, the gallery's images and
/// the number of completions for known jobs.
pub struct CompletionState {
    pub jobs: Seq<JobView>,
    pub images: Seq<Seq<char>>,
    pub found: nat,
}

/// Milliseconds from `since` to `now` (zero if `now` is earlier).
pub open spec fn elapsed(now: u64, since: u64) -> u64 {
    if now >= since {
        (now - since) as u64
    } else {
        0
    }
}

/// A completion for a known job marks it complete with its gallery path
/// and the time since submission, adds the path to the gallery, and counts.
pub open spec fn completion_step(st: CompletionState, e: GenerationComplete, now: u64) -> CompletionState {
    let k = find_job(st.jobs, e.job_id@);
    if k >= 0 {
        let path = spec_gallery_path(e.image_path@);
        CompletionState {
            jobs: with_status(
                st.jobs,
                k,
                StatusView::Complete {
                    image_path: path,
                    duration_ms: elapsed(now, st.jobs[k].submitted_at),
                },
            ),
            images: st.images.push(path),
            found: st.found + 1,
        }
    } else {
        st
    }
}

/// The state after the completions `es`, in order.
pub open spec fn apply_completions(st: CompletionState, es: Seq<GenerationComplete>, now: u64) -> CompletionState
    decreases es.len(),
{
    if es.len() == 0 {
        st
    } else {
        completion_step(apply_completions(st, es.drop_last(), now), es.last(), now)
    }
}

/// `a + n`, stopping at the largest `usize`.
pub open spec fn saturating(a: int, n: int) -> int {
    if a + n <= usize::MAX {
        a + n
    } else {
        usize::MAX as int
    }
}

/// Apply completion events at time `now`: the first job with the event's
/// id becomes complete with the gallery path of the image and the time
/// since it was submitted; the path joins the gallery; the tracker counts a
/// completed job; a redraw is asked for. Events for unknown jobs change
/// nothing.
pub fn handle_zmq_responses(
    events: &Vec<GenerationComplete>,
    jobs: &mut Vec<Job>,
    gallery: &mut GalleryState,
    tracker: &mut JobTracker,
    app_state: &mut AppState,
    now: u64,
)
    requires
        old(gallery).wf(),
    ensures
        ({
            let st = apply_completions(
                CompletionState {
                    jobs: job_views(old(jobs)@),
                    images: views(old(gallery).images@),
                    found: 0,
                },
                events@,
                now,
            );
            &&& job_views(final(jobs)@) == st.jobs
            &&& views(final(gallery).images@) == st.images
            &&& final(tracker).total_completed == saturating(
                old(tracker).total_completed as int,
                st.found as int,
            )
            &&& final(app_state).needs_redraw == (old(app_state).needs_redraw || st.found > 0)
        }),
        final(gallery).wf(),
        final(gallery).selected == old(gallery).selected,
        final(tracker).total_submitted == old(tracker).total_submitted,
        final(tracker).total_failed == old(tracker).total_failed,
        same_flags(&*final(app_state), &*old(app_state)),
{
    let ghost st0 = CompletionState {
        jobs: job_views(jobs@),
        images: views(gallery.images@),
        found: 0,
    };
    let ghost redraw0 = app_state.needs_redraw;
    let ghost done0 = tracker.total_completed as int;
    let mut i: usize = 0;
    while i < events.len()
        invariant
            i <= events@.len(),
            gallery.wf(),
            gallery.selected == old(gallery).selected,
            ({
                let st = apply_completions(st0, events@.take(i as int), now);
                &&& job_views(jobs@) == st.jobs
                &&& views(gallery.images@) == st.images
                &&& tracker.total_completed == saturating(done0, st.found as int)
                &&& app_state.needs_redraw == (redraw0 || st.found > 0)
            }),
            tracker.total_submitted == old(tracker).total_submitted,
            tracker.total_failed == old(tracker).total_failed,
            same_flags(&*app_state, &*old(app_state)),
        decreases events@.len() - i,
    {
        proof {
            assert(events@.take(i + 1).drop_last() =~= events@.take(i as int));
        }
        let e = &events[i];
        let path = gallery_path(e.image_path.as_str());
        match find_job_index(jobs, e.job_id.as_str()) {
            Some(k) => {
                let ghost before_images = views(gallery.images@);
                let duration_ms = jobs[k].elapsed_ms(now);
                set_job_status(
                    jobs,
                    k,
                    JobStatus::Complete { image_path: path.clone(), duration_ms },
                );
                gallery.add_image(path);
                tracker.complete_job();
                app_state.request_redraw();
                assert(views(gallery.images@) =~= before_images.push(
                    spec_gallery_path(e.image_path@),
                ));
            },
            None => {},
        }
        i = i + 1;
    }
    assert(events@.take(events@.len() as int) =~= events@);
}


/// The ids of the jobs, in order.
pub open spec fn job_ids(s: Seq<JobView>) -> Seq<Seq<char>> {
    s.map_values(|j: JobView| j.id)
}

/// Backend updates never add, drop, reorder or rename jobs.
pub proof fn law_updates_keep_jobs(s: Seq<JobView>, ids: Seq<Seq<char>>, us: Seq<JobProgressUpdate>)
    ensures
        apply_progress(apply_started(s, ids), us).len() == s.len(),
        job_ids(apply_progress(apply_started(s, ids), us)) == job_ids(s),
    decreases ids.len() + us.len(),
{
    if us.len() > 0 {
        law_updates_keep_jobs(s, ids, us.drop_last());
        let before = apply_progress(apply_started(s, ids), us.drop_last());
        assert(job_ids(progress_step(before, us.last())) =~= job_ids(before));
    } else if ids.len() > 0 {
        law_updates_keep_jobs(s, ids.drop_last(), us);
        let before = apply_started(s, ids.drop_last());
        assert(job_ids(started_step(before, ids.last())) =~= job_ids(before));
    }
}

/// A job-started event changes at most the job it names, and only a
/// pending one, which becomes queued with everything else kept.
pub proof fn law_started_moves_only_pending(s: Seq<JobView>, id: Seq<char>)
    ensures
        started_step(s, id).len() == s.len(),
        forall|p: int| 0 <= p < s.len() && #[trigger] started_step(s, id)[p] != s[p] ==> {
            &&& s[p].id == id
            &&& s[p].status is Pending
            &&& started_step(s, id)[p] == (JobView { status: StatusView::Queued, ..s[p] })
        },
{
    let k = find_job(s, id);
    if k >= 0 {
        assert(first_match(s, id, k));
    }
}

/// Jobs that no event names are left exactly as they were, whatever the
/// events do to the other jobs.
pub proof fn law_unnamed_jobs_untouched(s: Seq<JobView>, ids: Seq<Seq<char>>, us: Seq<JobProgressUpdate>, p: int)
    requires
        0 <= p < s.len(),
        forall|i: int| 0 <= i < ids.len() ==> #[trigger] ids[i] != s[p].id,
        forall|i: int| 0 <= i < us.len() ==> (#[trigger] us[i]).job_id@ != s[p].id,
    ensures
        apply_progress(apply_started(s, ids), us)[p] == s[p],
    decreases ids.len() + us.len(),
{
    law_updates_keep_jobs(s, ids, us);
    if us.len() > 0 {
        law_unnamed_jobs_untouched(s, ids, us.drop_last(), p);
        let before = apply_progress(apply_started(s, ids), us.drop_last());
        law_updates_keep_jobs(s, ids, us.drop_last());
        assert(us.last() == us[us.len() - 1]);
        let k = find_job(before, us.last().job_id@);
        if k >= 0 {
            assert(first_match(before, us.last().job_id@, k));
            assert(k != p);
        }
    } else if ids.len() > 0 {
        law_unnamed_jobs_untouched(s, ids.drop_last(), us, p);
        let before = apply_started(s, ids.drop_last());
        law_updates_keep_jobs(s, ids.drop_last(), us);
        assert(ids.last() == ids[ids.len() - 1]);
        let k = find_job(before, ids.last());
        if k >= 0 {
            assert(first_match(before, ids.last(), k));
            assert(k != p);
        }
    }
}

/// A completion for a known job marks the first job with that id complete,
/// with the image's gallery path and the time since submission, and adds
/// that path to the end of the gallery; every other job stays. A completion
/// for an unknown job changes nothing.
pub proof fn law_completion_marks_job(st: CompletionState, e: GenerationComplete, now: u64, p: int)
    requires
        0 <= p < st.jobs.len(),
        st.jobs[p].id == e.job_id@,
        forall|q: int| 0 <= q < p ==> #[trigger] st.jobs[q].id != e.job_id@,
    ensures
        ({
            let after = completion_step(st, e, now);
            &&& after.jobs[p].status == (StatusView::Complete {
                image_path: spec_gallery_path(e.image_path@),
                duration_ms: if now >= st.jobs[p].submitted_at { (now - st.jobs[p].submitted_at) as u64 } else { 0 },
            })
            &&& after.jobs[p].id == st.jobs[p].id
            &&& after.jobs[p].prompt == st.jobs[p].prompt
            &&& forall|q: int| 0 <= q < st.jobs.len() && q != p ==> #[trigger] after.jobs[q] == st.jobs[q]
            &&& after.images == st.images.push(spec_gallery_path(e.image_path@))
            &&& after.found == st.found + 1
        }),
{
    assert(first_match(st.jobs, e.job_id@, p));
    crate::state::lemma_find_job(st.jobs, e.job_id@, p);
}

/// A completion whose job id names no job changes nothing.
pub proof fn law_unknown_completion_changes_nothing(st: CompletionState, e: GenerationComplete, now: u64)
    requires
        forall|q: int| 0 <= q < st.jobs.len() ==> #[trigger] st.jobs[q].id != e.job_id@,
    ensures
        completion_step(st, e, now) == st,
{
    crate::state::lemma_find_none(st.jobs, e.job_id@);
}

/// Completions never add, drop, reorder or rename jobs, and the gallery
/// grows by exactly one image per completion of a known job.
pub proof fn law_completions_count(st: CompletionState, es: Seq<GenerationComplete>, now: u64)
    ensures
        apply_completions(st, es, now).jobs.len() == st.jobs.len(),
        job_ids(apply_completions(st, es, now).jobs) == job_ids(st.jobs),
        apply_completions(st, es, now).images.len() == st.images.len() + apply_completions(st, es, now).found - st.found,
        apply_completions(st, es, now).images.subrange(0, st.images.len() as int) == st.images,
        apply_completions(st, es, now).found >= st.found,
    decreases es.len(),
{
    if es.len() > 0 {
        law_completions_count(st, es.drop_last(), now);
        let before = apply_completions(st, es.drop_last(), now);
        let after = completion_step(before, es.last(), now);
        assert(job_ids(after.jobs) =~= job_ids(before.jobs));
        assert(after.images.subrange(0, st.images.len() as int) =~= before.images.subrange(0, st.images.len() as int));
    }
}

} // verus!
