//! Side-by-side model comparison.
//!
//! A comparison runs one prompt through several models. The manager tracks
//! each comparison from creation through job registration and completion to
//! the finished result, on which the user may record a preferred model.
//!
//! Floating-point quantities of the protocol (LoRA strength, CFG scale,
//! durations, progress) are carried as the IEEE-754 bit patterns of their
//! `f32` values; the library never computes with them.

use vstd::prelude::*;
use crate::clock::{utc_now, UtcTime};
use crate::keyed::KeyedVec;
use crate::text::push_str;

verus! {

/// `1.0f32` as bits.
pub const F32_ONE_BITS: u32 = 0x3F80_0000u32;

/// `7.5f32` as bits.
pub const F32_SEVEN_AND_HALF_BITS: u32 = 0x40F0_0000u32;

/// Configuration of one model taking part in a comparison.
#[derive(Debug, PartialEq)]
pub struct ModelConfig {
    /// Display name of the model.
    pub name: String,
    /// Base model checkpoint.
    pub base: String,
    /// Optional LoRA adapter.
    pub lora: Option<String>,
    /// LoRA strength (0.0-1.0), as the bits of an `f32`.
    pub lora_strength: u32,
}

impl Clone for ModelConfig {
    fn clone(&self) -> (r: Self)
        ensures
            r == *self,
    {
        let lora = match &self.lora {
            Some(l) => Some(l.clone()),
            None => None,
        };
        ModelConfig {
            name: self.name.clone(),
            base: self.base.clone(),
            lora,
            lora_strength: self.lora_strength,
        }
    }
}

impl Default for ModelConfig {
    fn default() -> (r: Self)
        ensures
            r.name@ == "Unnamed Model"@,
            r.base@ == "sd_xl_base_1.0.safetensors"@,
            r.lora is None,
            r.lora_strength == F32_ONE_BITS,
    {
        ModelConfig {
            name: String::from_str("Unnamed Model"),
            base: String::from_str("sd_xl_base_1.0.safetensors"),
            lora: None,
            lora_strength: F32_ONE_BITS,
        }
    }
}

/// Generation parameters shared by all models of a comparison.
#[derive(Debug, PartialEq)]
pub struct GenerationParams {
    pub prompt: String,
    pub negative_prompt: Option<String>,
    pub seed: u64,
    pub width: u32,
    pub height: u32,
    pub steps: u32,
    /// Classifier-free guidance scale, as the bits of an `f32`.
    pub cfg_scale: u32,
}

impl Clone for GenerationParams {
    fn clone(&self) -> (r: Self)
        ensures
            r == *self,
    {
        let negative_prompt = match &self.negative_prompt {
            Some(n) => Some(n.clone()),
            None => None,
        };
        GenerationParams {
            prompt: self.prompt.clone(),
            negative_prompt,
            seed: self.seed,
            width: self.width,
            height: self.height,
            steps: self.steps,
            cfg_scale: self.cfg_scale,
        }
    }
}

impl Default for GenerationParams {
    fn default() -> (r: Self)
        ensures
            r.prompt@.len() == 0,
            r.negative_prompt is None,
            r.seed == 42,
            r.width == 1024,
            r.height == 1024,
            r.steps == 30,
            r.cfg_scale == F32_SEVEN_AND_HALF_BITS,
    {
        GenerationParams {
            prompt: String::new(),
            negative_prompt: None,
            seed: 42,
            width: 1024,
            height: 1024,
            steps: 30,
            cfg_scale: F32_SEVEN_AND_HALF_BITS,
        }
    }
}

/// Status of a comparison job.
#[derive(Debug, Clone, PartialEq)]
pub enum ComparisonStatus {
    /// Jobs are being submitted.
    Initializing,
    /// Waiting for generations to complete.
    Running { completed: usize, total: usize },
    /// All generations completed.
    Complete,
    /// One or more jobs failed.
    Failed { reason: String },
    /// User cancelled.
    Cancelled,
}

/// A comparison in progress.
#[derive(Debug, Clone)]
pub struct ComparisonJob {
    /// Unique comparison ID.
    pub comparison_id: String,
    /// Generation parameters (shared across all models).
    pub params: GenerationParams,
    /// Models being compared.
    pub models: Vec<ModelConfig>,
    /// Job IDs for each model (parallel generation).
    pub job_ids: Vec<String>,
    /// Creation time.
    pub created_at: UtcTime,
    /// Current status.
    pub status: ComparisonStatus,
}

/// Status of the result of one model.
#[derive(Debug, Clone, PartialEq)]
pub enum ModelResultStatus {
    Pending,
    /// Progress in percent, as the bits of an `f32`.
    Generating { progress_percent: u32 },
    Complete,
    Failed,
    Cancelled,
}

/// Result from a single model in a comparison.
#[derive(Debug, Clone)]
pub struct ModelResult {
    pub model: ModelConfig,
    pub job_id: String,
    /// Path of the generated image.
    pub image_path: Option<String>,
    /// Generation time in seconds, as the bits of an `f32`.
    pub duration_s: Option<u32>,
    pub status: ModelResultStatus,
    pub error: Option<String>,
}

/// A finished comparison with the results of all models.
#[derive(Debug, Clone)]
pub struct ComparisonResult {
    pub comparison_id: String,
    pub params: GenerationParams,
    pub results: Vec<ModelResult>,
    /// Index of the preferred model, if the user voted.
    pub user_preference: Option<usize>,
    /// Notes from the user.
    pub notes: Option<String>,
    /// Completion time.
    pub completed_at: UtcTime,
}

/// The model that won a comparison: the preferred index, if it names a result.
pub open spec fn spec_winner(r: ComparisonResult) -> Option<ModelConfig> {
    match r.user_preference {
        Some(i) => if i < r.results@.len() { Some(r.results@[i as int].model) } else { None },
        None => None,
    }
}

/// Every model result of `r` is complete.
pub open spec fn spec_all_succeeded(r: ComparisonResult) -> bool {
    forall|i: int| 0 <= i < r.results@.len() ==> (#[trigger] r.results@[i]).status
        == ModelResultStatus::Complete
}

impl ComparisonResult {
    /// The winning model, if a preference is set.
    pub fn winner(&self) -> (r: Option<&ModelConfig>)
        ensures
            r matches Some(m) ==> spec_winner(*self) == Some(*m),
            r is None ==> spec_winner(*self) is None,
    {
        match self.user_preference {
            Some(idx) => {
                if idx < self.results.len() {
                    Some(&self.results[idx].model)
                } else {
                    None
                }
            }
            None => None,
        }
    }

    /// Whether every model result is complete.
    pub fn all_succeeded(&self) -> (b: bool)
        ensures
            b == spec_all_succeeded(*self),
    {
        let mut i: usize = 0;
        while i < self.results.len()
            invariant
                i <= self.results@.len(),
                forall|j: int| 0 <= j < i ==> (#[trigger] self.results@[j]).status
                    == ModelResultStatus::Complete,
            decreases self.results@.len() - i,
        {
            match self.results[i].status {
                ModelResultStatus::Complete => {}
                _ => {
                    return false;
                }
            }
            i = i + 1;
        }
        true
    }
}


/// A comparison job as plain values.
pub struct JobView {
    pub comparison_id: String,
    pub params: GenerationParams,
    pub models: Seq<ModelConfig>,
    pub job_ids: Seq<String>,
    pub created_at: UtcTime,
    pub status: ComparisonStatus,
}

impl View for ComparisonJob {
    type V = JobView;

    open spec fn view(&self) -> JobView {
        JobView {
            comparison_id: self.comparison_id,
            params: self.params,
            models: self.models@,
            job_ids: self.job_ids@,
            created_at: self.created_at,
            status: self.status,
        }
    }
}

/// A finished comparison as plain values.
pub struct ResultView {
    pub comparison_id: String,
    pub params: GenerationParams,
    pub results: Seq<ModelResult>,
    pub user_preference: Option<usize>,
    pub notes: Option<String>,
    pub completed_at: UtcTime,
}

impl View for ComparisonResult {
    type V = ResultView;

    open spec fn view(&self) -> ResultView {
        ResultView {
            comparison_id: self.comparison_id,
            params: self.params,
            results: self.results@,
            user_preference: self.user_preference,
            notes: self.notes,
            completed_at: self.completed_at,
        }
    }
}

/// The winner of a finished comparison, by its view.
pub open spec fn view_winner(r: ResultView) -> Option<ModelConfig> {
    match r.user_preference {
        Some(i) => if i < r.results.len() { Some(r.results[i as int].model) } else { None },
        None => None,
    }
}

/// The state of a comparison manager.
pub struct ManagerView {
    /// Comparisons in progress, by comparison ID.
    pub active: Map<Seq<char>, JobView>,
    /// Finished comparisons, oldest first.
    pub completed: Seq<ResultView>,
    /// The comparison ID each registered job ID belongs to.
    pub jobs: Map<Seq<char>, Seq<char>>,
    /// Job IDs whose completion was already counted for their running
    /// comparison.
    pub done: Set<Seq<char>>,
}

/// The job IDs of `ids`, as a set of texts.
pub open spec fn id_set(ids: Seq<String>) -> Set<Seq<char>> {
    ids.map_values(|s: String| s@).to_set()
}

/// Membership in `id_set` is membership of the text in the sequence.
pub proof fn lemma_id_set(ids: Seq<String>, k: Seq<char>)
    ensures
        id_set(ids).contains(k) <==> exists|j: int| 0 <= j < ids.len() && #[trigger] ids[j]@ == k,
{
    let vs = ids.map_values(|s: String| s@);
    if exists|j: int| 0 <= j < ids.len() && #[trigger] ids[j]@ == k {
        let j = choose|j: int| 0 <= j < ids.len() && #[trigger] ids[j]@ == k;
        assert(vs[j] == k);
        assert(vs.contains(k));
    }
    if vs.contains(k) {
        let j = choose|j: int| 0 <= j < vs.len() && #[trigger] vs[j] == k;
        assert(ids[j]@ == k);
    }
}

/// `register_jobs` on the manager state.
pub open spec fn spec_register_jobs(m: ManagerView, cid: Seq<char>, ids: Seq<String>) -> ManagerView {
    if m.active.contains_key(cid) {
        let job = m.active[cid];
        ManagerView {
            active: m.active.insert(
                cid,
                JobView { job_ids: ids, status: ComparisonStatus::Running { completed: 0, total: ids.len() as usize }, ..job },
            ),
            completed: m.completed,
            jobs: m.jobs.union_prefer_right(Map::new(|k: Seq<char>| id_set(ids).contains(k), |k: Seq<char>| cid)),
            done: m.done.difference(id_set(ids)),
        }
    } else {
        m
    }
}

/// The finished comparison made from a comparison job at time `t`: one
/// complete result per model and job ID, paired in order.
pub open spec fn finalized(job: JobView, t: UtcTime) -> ResultView {
    let n = if job.models.len() <= job.job_ids.len() { job.models.len() } else { job.job_ids.len() };
    ResultView {
        comparison_id: job.comparison_id,
        params: job.params,
        results: Seq::new(n, |i: int| ModelResult {
            model: job.models[i],
            job_id: job.job_ids[i],
            image_path: None,
            duration_s: None,
            status: ModelResultStatus::Complete,
            error: None,
        }),
        user_preference: None,
        notes: None,
        completed_at: t,
    }
}

/// `complete_job` on the manager state; `t` is the completion time used if
/// the comparison finishes. Each registered job counts once: a job whose
/// completion was already counted changes nothing.
pub open spec fn spec_complete_job(m: ManagerView, job_id: Seq<char>, t: UtcTime) -> ManagerView {
    if m.jobs.contains_key(job_id) && m.active.contains_key(m.jobs[job_id]) && !m.done.contains(job_id) {
        let cid = m.jobs[job_id];
        let job = m.active[cid];
        match job.status {
            ComparisonStatus::Running { completed, total } => {
                if completed + 1 >= total {
                    ManagerView {
                        active: m.active.remove(cid),
                        completed: m.completed.push(finalized(job, t)),
                        jobs: m.jobs.remove_keys(id_set(job.job_ids)),
                        done: m.done.difference(id_set(job.job_ids)),
                    }
                } else {
                    ManagerView {
                        active: m.active.insert(
                            cid,
                            JobView { status: ComparisonStatus::Running { completed: (completed + 1) as usize, total }, ..job },
                        ),
                        done: m.done.insert(job_id),
                        ..m
                    }
                }
            }
            _ => m,
        }
    } else {
        m
    }
}

/// `fail_job` on the manager state.
pub open spec fn spec_fail_job(m: ManagerView, job_id: Seq<char>, error: String) -> ManagerView {
    if m.jobs.contains_key(job_id) && m.active.contains_key(m.jobs[job_id]) {
        let cid = m.jobs[job_id];
        ManagerView {
            active: m.active.insert(cid, JobView { status: ComparisonStatus::Failed { reason: error }, ..m.active[cid] }),
            ..m
        }
    } else {
        m
    }
}

/// `i` is the first finished comparison with ID `cid`.
pub open spec fn is_first_with_id(s: Seq<ResultView>, cid: Seq<char>, i: int) -> bool {
    &&& 0 <= i < s.len()
    &&& s[i].comparison_id@ == cid
    &&& forall|j: int| 0 <= j < i ==> (#[trigger] s[j]).comparison_id@ != cid
}

/// Some finished comparison has ID `cid`.
pub open spec fn has_result_id(s: Seq<ResultView>, cid: Seq<char>) -> bool {
    exists|i: int| 0 <= i < s.len() && (#[trigger] s[i]).comparison_id@ == cid
}

/// The index of the first finished comparison with ID `cid` (meaningful when
/// there is one).
pub open spec fn first_with_id(s: Seq<ResultView>, cid: Seq<char>) -> int {
    choose|i: int| is_first_with_id(s, cid, i)
}

/// `set_preference` on the manager state: whether it succeeds.
pub open spec fn preference_accepted(m: ManagerView, cid: Seq<char>, index: usize) -> bool {
    has_result_id(m.completed, cid) && index < m.completed[first_with_id(m.completed, cid)].results.len()
}

/// `set_preference` on the manager state.
pub open spec fn spec_set_preference(m: ManagerView, cid: Seq<char>, index: usize, notes: Option<String>) -> ManagerView {
    if preference_accepted(m, cid, index) {
        let i = first_with_id(m.completed, cid);
        let r = m.completed[i];
        let new_notes = match notes { Some(n) => Some(n), None => r.notes };
        ManagerView {
            completed: m.completed.update(i, ResultView { user_preference: Some(index), notes: new_notes, ..r }),
            ..m
        }
    } else {
        m
    }
}

/// Number of finished comparisons with a winner.
pub open spec fn count_preferred(s: Seq<ResultView>) -> nat
    decreases s.len(),
{
    if s.len() == 0 {
        0
    } else {
        count_preferred(s.drop_last()) + if view_winner(s.last()) is Some { 1nat } else { 0nat }
    }
}

/// Number of finished comparisons won by a model named `name`.
pub open spec fn wins_of(s: Seq<ResultView>, name: Seq<char>) -> nat
    decreases s.len(),
{
    if s.len() == 0 {
        0
    } else {
        wins_of(s.drop_last(), name) + if view_winner(s.last()) matches Some(w) && w.name@ == name { 1nat } else { 0nat }
    }
}

/// Manages comparison jobs and tracks their results.
#[derive(Debug, Clone)]
pub struct ComparisonManager {
    /// Active comparison jobs, by comparison ID.
    active_comparisons: KeyedVec<ComparisonJob>,
    /// Completed comparisons.
    completed_comparisons: Vec<ComparisonResult>,
    /// Comparison ID of each registered job ID.
    job_to_comparison: KeyedVec<String>,
    /// Job IDs whose completion was counted, each mapped to its comparison ID.
    completed_jobs: KeyedVec<String>,
}

/// Statistics across all finished comparisons.
#[derive(Debug, Clone)]
pub struct ComparisonStatistics {
    pub total_comparisons: usize,
    pub comparisons_with_preference: usize,
    /// Wins per model name.
    pub model_wins: KeyedVec<usize>,
}

/// A random version-4 UUID in its hyphenated text form.
///
/// Trusted: calls `uuid::Uuid::new_v4` and prints it with `Display`, which
/// writes the 36-character hyphenated form (hyphens at positions 8, 13, 18
/// and 23). The value is random; nothing else is stated.
#[verifier::external_body]
fn random_uuid_text() -> (r: String)
    ensures
        r@.len() == 36,
        r@[8] == '-' && r@[13] == '-' && r@[18] == '-' && r@[23] == '-',
{
    uuid::Uuid::new_v4().to_string()
}

impl ComparisonManager {
    /// The manager's state.
    pub closed spec fn view(&self) -> ManagerView {
        ManagerView {
            active: self.active_comparisons@.map_values(|j: ComparisonJob| j@),
            completed: self.completed_comparisons@.map_values(|r: ComparisonResult| r@),
            jobs: self.job_to_comparison@.map_values(|s: String| s@),
            done: self.completed_jobs@.dom(),
        }
    }

    /// The internal invariant: map representations are well formed, each
    /// active job is stored under its own ID, and a running count is below
    /// its total unless it is zero.
    pub closed spec fn wf(&self) -> bool {
        &&& self.active_comparisons.wf()
        &&& self.job_to_comparison.wf()
        &&& self.completed_jobs.wf()
        &&& forall|k: Seq<char>| #[trigger] self@.active.contains_key(k) ==> active_ok(k, self@.active[k])
    }

    /// A new, empty manager.
    pub fn new() -> (r: Self)
        ensures
            r.wf(),
            r@.active == Map::<Seq<char>, JobView>::empty(),
            r@.completed == Seq::<ResultView>::empty(),
            r@.jobs == Map::<Seq<char>, Seq<char>>::empty(),
            r@.done == Set::<Seq<char>>::empty(),
    {
        let r = ComparisonManager {
            active_comparisons: KeyedVec::new(),
            completed_comparisons: Vec::new(),
            job_to_comparison: KeyedVec::new(),
            completed_jobs: KeyedVec::new(),
        };
        assert(r@.active =~= Map::<Seq<char>, JobView>::empty());
        assert(r@.completed =~= Seq::<ResultView>::empty());
        assert(r@.jobs =~= Map::<Seq<char>, Seq<char>>::empty());
        assert(r@.done =~= Set::<Seq<char>>::empty());
        r
    }

    /// Create a comparison of `models` on `params` and return its new ID,
    /// `cmp-` followed by a random UUID. The comparison starts out active
    /// and initializing, with no job IDs.
    pub fn create_comparison(&mut self, params: GenerationParams, models: Vec<ModelConfig>) -> (id: String)
        requires
            old(self).wf(),
        ensures
            final(self).wf(),
            id@.len() == 40,
            id@.subrange(0, 4) == "cmp-"@,
            final(self)@.active == old(self)@.active.insert(
                id@,
                JobView {
                    comparison_id: id,
                    params,
                    models: models@,
                    job_ids: Seq::empty(),
                    created_at: final(self)@.active[id@].created_at,
                    status: ComparisonStatus::Initializing,
                },
            ),
            final(self)@.completed == old(self)@.completed,
            final(self)@.jobs == old(self)@.jobs,
            final(self)@.done == old(self)@.done,
    {
        let mut id = String::from_str("cmp-");
        let uuid = random_uuid_text();
        push_str(&mut id, uuid.as_str());
        proof {
            reveal_strlit("cmp-");
            assert(id@.subrange(0, 4) =~= "cmp-"@);
        }
        let job = ComparisonJob {
            comparison_id: id.clone(),
            params,
            models,
            job_ids: Vec::new(),
            created_at: utc_now(),
            status: ComparisonStatus::Initializing,
        };
        let ghost jv = job@;
        self.active_comparisons.insert(id.clone(), job);
        proof {
            assert(jv.job_ids =~= Seq::<String>::empty());
            assert(self@.active =~= old(self)@.active.insert(id@, jv));
            assert(self@.jobs =~= old(self)@.jobs);
            assert forall|k: Seq<char>| #[trigger] self@.active.contains_key(k) implies active_ok(k, self@.active[k]) by {
                if k != id@ {
                    assert(old(self)@.active.contains_key(k));
                }
            }
        }
        id
    }

    /// Record the job IDs of comparison `comparison_id` and mark it running
    /// with none of them completed; each job ID is mapped to the comparison.
    /// Nothing happens when no such comparison is active.
    pub fn register_jobs(&mut self, comparison_id: &str, job_ids: Vec<String>)
        requires
            old(self).wf(),
        ensures
            final(self).wf(),
            final(self)@ == spec_register_jobs(old(self)@, comparison_id@, job_ids@),
    {
        let ghost ids = job_ids@;
        let ghost cid = comparison_id@;
        match self.active_comparisons.remove(comparison_id) {
            None => {
                proof {
                    assert(self@.active =~= old(self)@.active);
                    assert(self@.jobs =~= old(self)@.jobs);
                }
            }
            Some(mut job) => {
                let ghost job0 = job@;
                let mut i: usize = 0;
                while i < job_ids.len()
                    invariant
                        i <= ids.len(),
                        job_ids@ == ids,
                        comparison_id@ == cid,
                        self.job_to_comparison.wf(),
                        self.completed_jobs.wf(),
                        self.active_comparisons.wf(),
                        self.active_comparisons@ == old(self).active_comparisons@.remove(cid),
                        forall|k: Seq<char>| #[trigger] self@.done.contains(k) <==>
                            (old(self)@.done.contains(k) && !exists|j: int| 0 <= j < i && ids[j]@ == k),
                        self.completed_comparisons@ == old(self).completed_comparisons@,
                        forall|k: Seq<char>| #[trigger] self@.jobs.contains_key(k) <==>
                            (old(self)@.jobs.contains_key(k) || exists|j: int| 0 <= j < i && ids[j]@ == k),
                        forall|k: Seq<char>| #[trigger] self@.jobs.contains_key(k) ==>
                            self@.jobs[k] == (if exists|j: int| 0 <= j < i && ids[j]@ == k { cid } else { old(self)@.jobs[k] }),
                    decreases ids.len() - i,
                {
                    let ghost before = self@.jobs;
                    let ghost done_before = self@.done;
                    self.job_to_comparison.insert(job_ids[i].clone(), comparison_id.to_owned());
                    let _ = self.completed_jobs.remove(job_ids[i].as_str());
                    proof {
                        assert forall|k: Seq<char>| #[trigger] self@.done.contains(k) <==>
                            (old(self)@.done.contains(k) && !exists|j: int| 0 <= j < i + 1 && ids[j]@ == k) by {
                            if k == ids[i as int]@ {
                                assert(0 <= i < i + 1 && ids[i as int]@ == k);
                            }
                            if exists|j: int| 0 <= j < i + 1 && ids[j]@ == k {
                                let j = choose|j: int| 0 <= j < i + 1 && ids[j]@ == k;
                                if j < i {
                                    assert(!done_before.contains(k));
                                }
                            }
                        }
                        assert forall|k: Seq<char>| #[trigger] self@.jobs.contains_key(k) <==>
                            (old(self)@.jobs.contains_key(k) || exists|j: int| 0 <= j < i + 1 && ids[j]@ == k) by {
                            if k == ids[i as int]@ {
                                assert(0 <= i < i + 1 && ids[i as int]@ == k);
                            }
                            if exists|j: int| 0 <= j < i + 1 && ids[j]@ == k {
                                let j = choose|j: int| 0 <= j < i + 1 && ids[j]@ == k;
                                if j < i {
                                    assert(before.contains_key(k));
                                }
                            }
                            if before.contains_key(k) {
                            }
                        }
                        assert forall|k: Seq<char>| #[trigger] self@.jobs.contains_key(k) implies
                            self@.jobs[k] == (if exists|j: int| 0 <= j < i + 1 && ids[j]@ == k { cid } else { old(self)@.jobs[k] }) by {
                            if k == ids[i as int]@ {
                                assert(0 <= i < i + 1 && ids[i as int]@ == k);
                            } else {
                                assert(before.contains_key(k));
                                if exists|j: int| 0 <= j < i + 1 && ids[j]@ == k {
                                    let j = choose|j: int| 0 <= j < i + 1 && ids[j]@ == k;
                                    assert(j < i);
                                }
                            }
                        }
                    }
                    i = i + 1;
                }
                let ghost jobs_after = self@.jobs;
                let ghost done_after = self@.done;
                assert(forall|k: Seq<char>| #[trigger] done_after.contains(k) <==>
                    (old(self)@.done.contains(k) && !exists|j: int| 0 <= j < ids.len() && ids[j]@ == k));
                assert(forall|k: Seq<char>| #[trigger] jobs_after.contains_key(k) <==>
                    (old(self)@.jobs.contains_key(k) || exists|j: int| 0 <= j < ids.len() && ids[j]@ == k));
                assert(forall|k: Seq<char>| #[trigger] jobs_after.contains_key(k) ==>
                    jobs_after[k] == (if exists|j: int| 0 <= j < ids.len() && ids[j]@ == k { cid } else { old(self)@.jobs[k] }));
                let total = job_ids.len();
                job.job_ids = job_ids;
                job.status = ComparisonStatus::Running { completed: 0, total };
                let ghost jv = job@;
                self.active_comparisons.insert(comparison_id.to_owned(), job);
                proof {
                    let target = spec_register_jobs(old(self)@, cid, ids);
                    let vs = ids.map_values(|s: String| s@);
                    assert(id_set(ids) == vs.to_set());
                    assert(self@.active =~= target.active);
                    assert(self@.completed =~= target.completed);
                    assert(old(self)@.active.contains_key(cid));
                    assert(i == ids.len());
                    assert(self@.jobs == jobs_after);
                    assert forall|k: Seq<char>| jobs_after.contains_key(k) <==> target.jobs.contains_key(k) by {
                        lemma_id_set(ids, k);
                    }
                    assert forall|k: Seq<char>| #[trigger] jobs_after.contains_key(k) implies jobs_after[k] == target.jobs[k] by {
                        lemma_id_set(ids, k);
                    }
                    assert(self@.jobs =~= target.jobs);
                    assert(self@.done == done_after);
                    assert forall|k: Seq<char>| self@.done.contains(k) <==> target.done.contains(k) by {
                        lemma_id_set(ids, k);
                        assert(done_after.contains(k) <==>
                            (old(self)@.done.contains(k) && !exists|j: int| 0 <= j < ids.len() && ids[j]@ == k));
                    }
                    assert(self@.done =~= target.done);
                    assert forall|k: Seq<char>| #[trigger] self@.active.contains_key(k) implies active_ok(k, self@.active[k]) by {
                        if k != cid {
                            assert(old(self)@.active.contains_key(k));
                        } else {
                            assert(old(self)@.active.contains_key(k));
                        }
                    }
                }
            }
        }
    }
}

impl ComparisonManager {
    /// Move a finished job into the completed comparisons and forget its job IDs.
    fn finalize_comparison(&mut self, job: ComparisonJob)
        requires
            old(self).wf(),
            !old(self)@.active.contains_key(job.comparison_id@),
        ensures
            final(self).wf(),
            final(self)@.active == old(self)@.active,
            final(self)@.completed == old(self)@.completed.push(
                finalized(job@, final(self)@.completed.last().completed_at),
            ),
            final(self)@.jobs == old(self)@.jobs.remove_keys(id_set(job.job_ids@)),
            final(self)@.done == old(self)@.done.difference(id_set(job.job_ids@)),
            final(self)@.completed.last().completed_at.secs >= 0,
    {
        let n: usize = if job.models.len() <= job.job_ids.len() { job.models.len() } else { job.job_ids.len() };
        let mut results: Vec<ModelResult> = Vec::new();
        let mut i: usize = 0;
        while i < n
            invariant
                i <= n,
                n <= job.models@.len(),
                n <= job.job_ids@.len(),
                results@.len() == i,
                forall|j: int| 0 <= j < i ==> #[trigger] results@[j] == (ModelResult {
                    model: job.models@[j],
                    job_id: job.job_ids@[j],
                    image_path: None,
                    duration_s: None,
                    status: ModelResultStatus::Complete,
                    error: None,
                }),
            decreases n - i,
        {
            results.push(ModelResult {
                model: job.models[i].clone(),
                job_id: job.job_ids[i].clone(),
                image_path: None,
                duration_s: None,
                status: ModelResultStatus::Complete,
                error: None,
            });
            i = i + 1;
        }
        let ghost ids = job.job_ids@;
        let mut k: usize = 0;
        while k < job.job_ids.len()
            invariant
                k <= ids.len(),
                job.job_ids@ == ids,
                self.job_to_comparison.wf(),
                self.completed_jobs.wf(),
                self.active_comparisons == old(self).active_comparisons,
                self.completed_comparisons@ == old(self).completed_comparisons@,
                self@.jobs =~= old(self)@.jobs.remove_keys(id_set(ids.subrange(0, k as int))),
                self@.done =~= old(self)@.done.difference(id_set(ids.subrange(0, k as int))),
            decreases ids.len() - k,
        {
            let ghost before = self@.jobs;
            let _ = self.job_to_comparison.remove(job.job_ids[k].as_str());
            let _ = self.completed_jobs.remove(job.job_ids[k].as_str());
            proof {
                assert(self@.jobs =~= before.remove(ids[k as int]@));
                assert forall|key: Seq<char>| id_set(ids.subrange(0, k + 1)).contains(key)
                    <==> (id_set(ids.subrange(0, k as int)).contains(key) || key == ids[k as int]@) by {
                    lemma_id_set(ids.subrange(0, k + 1), key);
                    lemma_id_set(ids.subrange(0, k as int), key);
                    if key == ids[k as int]@ {
                        assert(ids.subrange(0, k + 1)[k as int]@ == key);
                    }
                    if exists|j: int| 0 <= j < k && #[trigger] ids.subrange(0, k as int)[j]@ == key {
                        let j = choose|j: int| 0 <= j < k && #[trigger] ids.subrange(0, k as int)[j]@ == key;
                        assert(ids.subrange(0, k + 1)[j] == ids.subrange(0, k as int)[j]);
                    }
                    if exists|j: int| 0 <= j < k + 1 && #[trigger] ids.subrange(0, k + 1)[j]@ == key {
                        let j = choose|j: int| 0 <= j < k + 1 && #[trigger] ids.subrange(0, k + 1)[j]@ == key;
                        if j < k {
                            assert(ids.subrange(0, k + 1)[j] == ids.subrange(0, k as int)[j]);
                        }
                    }
                }
                let a0 = id_set(ids.subrange(0, k as int));
                let a1 = id_set(ids.subrange(0, k + 1));
                let target = old(self)@.jobs.remove_keys(a1);
                assert forall|key: Seq<char>| self@.jobs.contains_key(key) <==> target.contains_key(key) by {
                    assert(a1.contains(key) <==> (a0.contains(key) || key == ids[k as int]@));
                }
                assert forall|key: Seq<char>| #[trigger] self@.jobs.contains_key(key) implies self@.jobs[key] == target[key] by {
                    assert(a1.contains(key) <==> (a0.contains(key) || key == ids[k as int]@));
                }
                assert(self@.jobs =~= target);
                assert(self@.done =~= old(self)@.done.difference(a1)) by {
                    assert forall|key: Seq<char>| self@.done.contains(key) <==> old(self)@.done.difference(a1).contains(key) by {
                        assert(a1.contains(key) <==> (a0.contains(key) || key == ids[k as int]@));
                    }
                }
            }
            k = k + 1;
        }
        proof {
            assert(ids.subrange(0, ids.len() as int) =~= ids);
        }
        let ghost jv = job@;
        let result = ComparisonResult {
            comparison_id: job.comparison_id,
            params: job.params,
            results,
            user_preference: None,
            notes: None,
            completed_at: utc_now(),
        };
        self.completed_comparisons.push(result);
        proof {
            let f = finalized(jv, self@.completed.last().completed_at);
            assert(self@.completed.last().results =~= f.results);
            assert(self@.completed =~= old(self)@.completed.push(f));
            assert(self@.active =~= old(self)@.active);
        }
    }

    /// Count one job of its comparison as complete. When every job of the
    /// comparison is complete it moves to the finished comparisons, with one
    /// complete result per model, stamped with the current time, and its job
    /// IDs are forgotten. Job IDs that are unknown, already counted, or whose
    /// comparison is not running, are ignored. The image path and duration
    /// are not recorded.
    pub fn complete_job(&mut self, job_id: &str, image_path: String, duration_s: u32)
        requires
            old(self).wf(),
        ensures
            final(self).wf(),
            final(self)@ == spec_complete_job(old(self)@, job_id@, final(self)@.completed.last().completed_at),
            final(self)@.completed.len() > old(self)@.completed.len() ==> final(self)@.completed.last().completed_at.secs >= 0,
    {
        let cid: String = match self.job_to_comparison.get(job_id) {
            Some(c) => c.clone(),
            None => {
                return;
            }
        };
        if self.completed_jobs.contains_key(job_id) {
            return;
        }
        match self.active_comparisons.remove(cid.as_str()) {
            None => {
                proof {
                    assert(self@.active =~= old(self)@.active);
                }
            }
            Some(mut job) => {
                let ghost jv = job@;
                proof {
                    assert(old(self).active_comparisons@.contains_key(cid@));
                    assert(old(self)@.active.contains_key(cid@));
                    assert(old(self)@.active[cid@] == jv);
                    assert(active_ok(cid@, jv));
                }
                match job.status {
                    ComparisonStatus::Running { completed, total } => {
                        let done = completed + 1;
                        if done >= total {
                            job.status = ComparisonStatus::Complete;
                            proof {
                                assert(self@.active =~= old(self)@.active.remove(cid@));
                                assert(!self@.active.contains_key(job.comparison_id@));
                                assert forall|k: Seq<char>| #[trigger] self@.active.contains_key(k) implies active_ok(k, self@.active[k]) by {
                                    assert(old(self)@.active.contains_key(k));
                                }
                            }
                            self.finalize_comparison(job);
                            proof {
                                let t = self@.completed.last().completed_at;
                                assert(finalized(JobView { status: ComparisonStatus::Complete, ..jv }, t) == finalized(jv, t));
                                assert(self@ == spec_complete_job(old(self)@, job_id@, t));
                            }
                        } else {
                            job.status = ComparisonStatus::Running { completed: done, total };
                            let ghost nj = job@;
                            self.active_comparisons.insert(cid.clone(), job);
                            self.completed_jobs.insert(job_id.to_owned(), cid.clone());
                            proof {
                                assert(self@.done =~= old(self)@.done.insert(job_id@));
                                assert(self@.active =~= old(self)@.active.insert(cid@, nj));
                                assert(self@.completed =~= old(self)@.completed);
                                assert(self@.jobs =~= old(self)@.jobs);
                                assert forall|k: Seq<char>| #[trigger] self@.active.contains_key(k) implies active_ok(k, self@.active[k]) by {
                                    assert(old(self)@.active.contains_key(k));
                                }
                            }
                        }
                    }
                    _ => {
                        self.active_comparisons.insert(cid.clone(), job);
                        proof {
                            assert(self@.active =~= old(self)@.active);
                            assert(self@.completed =~= old(self)@.completed);
                            assert(self@.jobs =~= old(self)@.jobs);
                        }
                    }
                }
            }
        }
    }
}

/// The first finished comparison with a given ID is unique.
pub proof fn lemma_first_with_id_unique(s: Seq<ResultView>, cid: Seq<char>, i: int)
    requires
        is_first_with_id(s, cid, i),
    ensures
        has_result_id(s, cid),
        first_with_id(s, cid) == i,
{
    assert(s[i].comparison_id@ == cid);
    let j = first_with_id(s, cid);
    assert(is_first_with_id(s, cid, j));
    if j < i {
        assert(s[j].comparison_id@ != cid);
    }
    if i < j {
        assert(s[i].comparison_id@ != cid);
    }
}

impl ComparisonManager {
    /// Record a progress report for a job. Progress is shown by the
    /// interface, not kept here: the manager is unchanged.
    pub fn update_job_progress(&mut self, job_id: &str, progress_percent: u32)
        ensures
            *final(self) == *old(self),
    {
    }

    /// Mark the comparison of a job as failed with `error` as the reason.
    /// The comparison stays active, so its other jobs are no longer counted.
    /// Unknown job IDs are ignored.
    pub fn fail_job(&mut self, job_id: &str, error: String)
        requires
            old(self).wf(),
        ensures
            final(self).wf(),
            final(self)@ == spec_fail_job(old(self)@, job_id@, error),
    {
        let cid: String = match self.job_to_comparison.get(job_id) {
            Some(c) => c.clone(),
            None => {
                return;
            }
        };
        match self.active_comparisons.remove(cid.as_str()) {
            None => {
                proof {
                    assert(self@.active =~= old(self)@.active);
                }
            }
            Some(mut job) => {
                proof {
                    assert(old(self).active_comparisons@.contains_key(cid@));
                    assert(old(self)@.active.contains_key(cid@));
                    assert(active_ok(cid@, job@));
                }
                job.status = ComparisonStatus::Failed { reason: error };
                let ghost nj = job@;
                self.active_comparisons.insert(cid.clone(), job);
                proof {
                    assert(self@.active =~= old(self)@.active.insert(cid@, nj));
                    assert(self@.completed =~= old(self)@.completed);
                    assert(self@.jobs =~= old(self)@.jobs);
                    assert forall|k: Seq<char>| #[trigger] self@.active.contains_key(k) implies active_ok(k, self@.active[k]) by {
                        assert(old(self)@.active.contains_key(k));
                    }
                }
            }
        }
    }

    /// The active comparison with ID `comparison_id`.
    pub fn get_active(&self, comparison_id: &str) -> (r: Option<&ComparisonJob>)
        requires
            self.wf(),
        ensures
            r matches Some(j) ==> self@.active.contains_key(comparison_id@) && j@ == self@.active[comparison_id@],
            r is None ==> !self@.active.contains_key(comparison_id@),
    {
        self.active_comparisons.get(comparison_id)
    }

    /// Position of the first finished comparison with ID `comparison_id`.
    fn completed_index(&self, comparison_id: &str) -> (r: Option<usize>)
        ensures
            r matches Some(i) ==> is_first_with_id(self@.completed, comparison_id@, i as int)
                && first_with_id(self@.completed, comparison_id@) == i,
            r is None ==> !has_result_id(self@.completed, comparison_id@),
    {
        let key: String = comparison_id.to_owned();
        let mut i: usize = 0;
        while i < self.completed_comparisons.len()
            invariant
                i <= self@.completed.len(),
                key@ == comparison_id@,
                forall|j: int| 0 <= j < i ==> (#[trigger] self@.completed[j]).comparison_id@ != comparison_id@,
            decreases self@.completed.len() - i,
        {
            if self.completed_comparisons[i].comparison_id == key {
                proof {
                    assert(self@.completed[i as int].comparison_id@ == comparison_id@);
                    lemma_first_with_id_unique(self@.completed, comparison_id@, i as int);
                }
                return Some(i);
            }
            proof {
                assert(self@.completed[i as int].comparison_id@ != comparison_id@);
            }
            i = i + 1;
        }
        None
    }

    /// The first finished comparison with ID `comparison_id`.
    pub fn get_completed(&self, comparison_id: &str) -> (r: Option<&ComparisonResult>)
        ensures
            r matches Some(c) ==> has_result_id(self@.completed, comparison_id@)
                && c@ == self@.completed[first_with_id(self@.completed, comparison_id@)],
            r is None ==> !has_result_id(self@.completed, comparison_id@),
    {
        match self.completed_index(comparison_id) {
            Some(i) => Some(&self.completed_comparisons[i]),
            None => None,
        }
    }

    /// All finished comparisons, oldest first.
    pub fn get_all_completed(&self) -> (r: &[ComparisonResult])
        ensures
            r@.map_values(|c: ComparisonResult| c@) == self@.completed,
    {
        self.completed_comparisons.as_slice()
    }

    /// Record that the user preferred model `model_index` in comparison
    /// `comparison_id`, with optional notes (earlier notes are kept when none
    /// are given). Succeeds exactly when that comparison is finished and has a
    /// result at that index.
    pub fn set_preference(&mut self, comparison_id: &str, model_index: usize, notes: Option<String>) -> (ok: bool)
        requires
            old(self).wf(),
        ensures
            final(self).wf(),
            ok == preference_accepted(old(self)@, comparison_id@, model_index),
            final(self)@ == spec_set_preference(old(self)@, comparison_id@, model_index, notes),
    {
        match self.completed_index(comparison_id) {
            Some(i) => {
                if model_index < self.completed_comparisons[i].results.len() {
                    let mut r = self.completed_comparisons.remove(i);
                    r.user_preference = Some(model_index);
                    match notes {
                        Some(n) => {
                            r.notes = Some(n);
                        }
                        None => {}
                    }
                    let ghost rv = r@;
                    self.completed_comparisons.insert(i, r);
                    proof {
                        assert(self@.completed =~= old(self)@.completed.update(i as int, rv));
                        assert(self@.active =~= old(self)@.active);
                        assert(self@.jobs =~= old(self)@.jobs);
                    }
                    true
                } else {
                    false
                }
            }
            None => false,
        }
    }
}

/// Counting winners never exceeds the number of comparisons.
pub proof fn lemma_counts_bounded(s: Seq<ResultView>, name: Seq<char>)
    ensures
        count_preferred(s) <= s.len(),
        wins_of(s, name) <= s.len(),
        wins_of(s, name) <= count_preferred(s),
    decreases s.len(),
{
    if s.len() > 0 {
        lemma_counts_bounded(s.drop_last(), name);
    }
}

impl ComparisonManager {
    /// Statistics over the finished comparisons: how many there are, how many
    /// have a winner, and how many each model name has won.
    pub fn get_statistics(&self) -> (st: ComparisonStatistics)
        ensures
            st.total_comparisons == self@.completed.len(),
            st.comparisons_with_preference == count_preferred(self@.completed),
            st.model_wins.wf(),
            forall|name: Seq<char>| #[trigger] st.model_wins@.contains_key(name) <==> wins_of(self@.completed, name) > 0,
            forall|name: Seq<char>| #[trigger] st.model_wins@.contains_key(name) ==> st.model_wins@[name] == wins_of(self@.completed, name),
    {
        let ghost s = self@.completed;
        let mut model_wins: KeyedVec<usize> = KeyedVec::new();
        let mut with_preference: usize = 0;
        let mut i: usize = 0;
        while i < self.completed_comparisons.len()
            invariant
                s == self@.completed,
                i <= s.len(),
                model_wins.wf(),
                with_preference == count_preferred(s.take(i as int)),
                forall|name: Seq<char>| #[trigger] model_wins@.contains_key(name) <==> wins_of(s.take(i as int), name) > 0,
                forall|name: Seq<char>| #[trigger] model_wins@.contains_key(name) ==> model_wins@[name] == wins_of(s.take(i as int), name),
            decreases s.len() - i,
        {
            let ghost prev = model_wins@;
            proof {
                assert(s.take(i + 1).drop_last() =~= s.take(i as int));
                assert(s.take(i + 1).last() == s[i as int]);
                lemma_counts_bounded(s.take(i as int), Seq::empty());
            }
            let result = &self.completed_comparisons[i];
            match result.winner() {
                Some(winner) => {
                    let current: usize = match model_wins.get(winner.name.as_str()) {
                        Some(c) => *c,
                        None => 0,
                    };
                    proof {
                        lemma_counts_bounded(s.take(i as int), winner.name@);
                    }
                    model_wins.insert(winner.name.clone(), current + 1);
                    with_preference = with_preference + 1;
                    proof {
                        assert forall|name: Seq<char>| #[trigger] model_wins@.contains_key(name) <==> wins_of(s.take(i + 1), name) > 0 by {
                            if name != winner.name@ {
                                assert(prev.contains_key(name) <==> wins_of(s.take(i as int), name) > 0);
                            }
                        }
                        assert forall|name: Seq<char>| #[trigger] model_wins@.contains_key(name) implies model_wins@[name] == wins_of(s.take(i + 1), name) by {
                            if name != winner.name@ {
                                assert(prev.contains_key(name));
                            } else if prev.contains_key(name) {
                            } else {
                                assert(wins_of(s.take(i as int), name) == 0);
                            }
                        }
                    }
                }
                None => {
                    proof {
                        assert forall|name: Seq<char>| #[trigger] model_wins@.contains_key(name) <==> wins_of(s.take(i + 1), name) > 0 by {
                            assert(prev.contains_key(name) <==> wins_of(s.take(i as int), name) > 0);
                        }
                    }
                }
            }
            i = i + 1;
        }
        proof {
            assert(s.take(s.len() as int) =~= s);
        }
        ComparisonStatistics {
            total_comparisons: self.completed_comparisons.len(),
            comparisons_with_preference: with_preference,
            model_wins,
        }
    }
}

impl Default for ComparisonManager {
    fn default() -> (r: Self)
        ensures
            r.wf(),
            r@.active == Map::<Seq<char>, JobView>::empty(),
            r@.completed == Seq::<ResultView>::empty(),
            r@.jobs == Map::<Seq<char>, Seq<char>>::empty(),
            r@.done == Set::<Seq<char>>::empty(),
    {
        ComparisonManager::new()
    }
}

/// `complete_job` applied to each of `ids` in order, the `i`-th at time `times[i]`.
pub open spec fn complete_all(m: ManagerView, ids: Seq<String>, times: Seq<UtcTime>) -> ManagerView
    decreases ids.len(),
{
    if ids.len() == 0 || times.len() != ids.len() {
        m
    } else {
        spec_complete_job(
            complete_all(m, ids.drop_last(), times.drop_last()),
            ids.last()@,
            times.last(),
        )
    }
}

/// No job ID occurs twice.
pub open spec fn ids_distinct(ids: Seq<String>) -> bool {
    forall|i: int, j: int| 0 <= i < j < ids.len() ==> (#[trigger] ids[i])@ != (#[trigger] ids[j])@
}

proof fn lemma_complete_prefix(m0: ManagerView, cid: Seq<char>, ids: Seq<String>, times: Seq<UtcTime>, k: int)
    requires
        m0.active.contains_key(cid),
        ids.len() >= 1,
        ids.len() <= usize::MAX,
        ids_distinct(ids),
        times.len() == ids.len(),
        0 <= k < ids.len(),
    ensures
        ({
            let r = spec_register_jobs(m0, cid, ids);
            complete_all(r, ids.take(k), times.take(k)) == (ManagerView {
                active: r.active.insert(
                    cid,
                    JobView { status: ComparisonStatus::Running { completed: k as usize, total: ids.len() as usize }, ..r.active[cid] },
                ),
                done: r.done.union(id_set(ids.take(k))),
                ..r
            })
        }),
    decreases k,
{
    let r = spec_register_jobs(m0, cid, ids);
    let n = ids.len();
    if k == 0 {
        assert(ids.take(0) =~= Seq::<String>::empty());
        assert(id_set(ids.take(0)) =~= Set::<Seq<char>>::empty()) by {
            assert forall|x: Seq<char>| !id_set(ids.take(0)).contains(x) by {
                lemma_id_set(ids.take(0), x);
            }
        }
        assert(r.done.union(id_set(ids.take(0))) =~= r.done);
        assert(r.active.insert(cid, JobView { status: ComparisonStatus::Running { completed: 0, total: n as usize }, ..r.active[cid] }) =~= r.active);
    } else {
        lemma_complete_prefix(m0, cid, ids, times, k - 1);
        assert(ids.take(k).drop_last() =~= ids.take(k - 1));
        assert(times.take(k).drop_last() =~= times.take(k - 1));
        let prev = complete_all(r, ids.take(k - 1), times.take(k - 1));
        let id = ids[k - 1];
        assert(ids.take(k).last() == id);
        lemma_id_set(ids, id@);
        assert(id_set(ids).contains(id@));
        assert(prev.jobs.contains_key(id@) && prev.jobs[id@] == cid);
        assert(prev.active[cid].status == ComparisonStatus::Running { completed: (k - 1) as usize, total: n as usize });
        assert(!prev.done.contains(id@)) by {
            lemma_id_set(ids.take(k - 1), id@);
            if id_set(ids.take(k - 1)).contains(id@) {
                let j = choose|j: int| 0 <= j < k - 1 && #[trigger] ids.take(k - 1)[j]@ == id@;
                assert(ids[j]@ == ids[k - 1]@);
            }
        }
        let next = spec_complete_job(prev, id@, times.take(k).last());
        assert(next.done =~= r.done.union(id_set(ids.take(k)))) by {
            assert forall|x: Seq<char>| next.done.contains(x) <==> r.done.union(id_set(ids.take(k))).contains(x) by {
                lemma_id_set(ids.take(k - 1), x);
                lemma_id_set(ids.take(k), x);
                if exists|j: int| 0 <= j < k - 1 && #[trigger] ids.take(k - 1)[j]@ == x {
                    let j = choose|j: int| 0 <= j < k - 1 && #[trigger] ids.take(k - 1)[j]@ == x;
                    assert(ids.take(k)[j] == ids.take(k - 1)[j]);
                }
                if exists|j: int| 0 <= j < k && #[trigger] ids.take(k)[j]@ == x {
                    let j = choose|j: int| 0 <= j < k && #[trigger] ids.take(k)[j]@ == x;
                    if j < k - 1 {
                        assert(ids.take(k)[j] == ids.take(k - 1)[j]);
                    } else {
                        assert(x == id@);
                    }
                }
            }
        }
        assert(next.active =~= r.active.insert(
            cid,
            JobView { status: ComparisonStatus::Running { completed: k as usize, total: n as usize }, ..r.active[cid] },
        ));
    }
}

/// Registering `n >= 1` distinct job IDs for an active comparison and then
/// reporting each of them complete, once and in order, finishes
/// the comparison: it is no longer active, exactly one finished comparison
/// is appended, with one complete result per model paired with the job ID
/// at the same position and no preference yet, and its job IDs are
/// forgotten.
/// Before the last report it stays active and counts the reports.
pub proof fn law_all_jobs_complete_finishes_comparison(
    m0: ManagerView,
    cid: Seq<char>,
    ids: Seq<String>,
    times: Seq<UtcTime>,
)
    requires
        m0.active.contains_key(cid),
        ids.len() >= 1,
        ids.len() <= usize::MAX,
        ids_distinct(ids),
        times.len() == ids.len(),
    ensures
        ({
            let r = spec_register_jobs(m0, cid, ids);
            let done = complete_all(r, ids, times);
            &&& !done.active.contains_key(cid)
            &&& done.active == m0.active.remove(cid)
            &&& done.completed == m0.completed.push(finalized(r.active[cid], times.last()))
            &&& done.jobs == r.jobs.remove_keys(id_set(ids))
        }),
        ({
            let models = m0.active[cid].models;
            let finished = complete_all(spec_register_jobs(m0, cid, ids), ids, times).completed.last();
            &&& finished.comparison_id == m0.active[cid].comparison_id
            &&& finished.results.len() == (if models.len() <= ids.len() { models.len() } else { ids.len() })
            &&& forall|i: int| 0 <= i < finished.results.len() ==> {
                &&& (#[trigger] finished.results[i]).model == models[i]
                &&& finished.results[i].job_id == ids[i]
                &&& finished.results[i].status == ModelResultStatus::Complete
            }
            &&& finished.user_preference is None
        }),
        forall|k: int| 0 <= k < ids.len() ==>
            #[trigger] complete_all(spec_register_jobs(m0, cid, ids), ids.take(k), times.take(k)).active[cid].status
                == (ComparisonStatus::Running { completed: k as usize, total: ids.len() as usize }),
{
    let r = spec_register_jobs(m0, cid, ids);
    let n = ids.len();
    assert forall|k: int| 0 <= k < ids.len() implies
        #[trigger] complete_all(spec_register_jobs(m0, cid, ids), ids.take(k), times.take(k)).active[cid].status
            == (ComparisonStatus::Running { completed: k as usize, total: ids.len() as usize }) by {
        lemma_complete_prefix(m0, cid, ids, times, k);
    }
    lemma_complete_prefix(m0, cid, ids, times, n - 1);
    assert(ids.drop_last() =~= ids.take(n - 1));
    assert(times.drop_last() =~= times.take(n - 1));
    let prev = complete_all(r, ids.take(n - 1), times.take(n - 1));
    let id = ids.last();
    lemma_id_set(ids, id@);
    assert(ids[n - 1] == id);
    assert(prev.jobs.contains_key(id@) && prev.jobs[id@] == cid);
    let done = complete_all(r, ids, times);
    assert(finalized(prev.active[cid], times.last()) == finalized(r.active[cid], times.last()));
    assert(done.active =~= m0.active.remove(cid));
}

/// Once a comparison has failed, completion reports for any of its jobs
/// change nothing.
pub proof fn law_failed_comparison_ignores_completions(
    m: ManagerView,
    failed_job: Seq<char>,
    other_job: Seq<char>,
    error: String,
    t: UtcTime,
)
    requires
        m.jobs.contains_key(failed_job),
        m.active.contains_key(m.jobs[failed_job]),
        m.jobs.contains_key(other_job),
        m.jobs[other_job] == m.jobs[failed_job],
    ensures
        spec_complete_job(spec_fail_job(m, failed_job, error), other_job, t) == spec_fail_job(m, failed_job, error),
{
}

/// Reporting a job complete a second time changes nothing: each job counts
/// once towards its comparison.
pub proof fn law_repeated_completion_changes_nothing(m: ManagerView, job_id: Seq<char>, t1: UtcTime, t2: UtcTime)
    ensures
        spec_complete_job(spec_complete_job(m, job_id, t1), job_id, t2) == spec_complete_job(m, job_id, t1),
{
    let m1 = spec_complete_job(m, job_id, t1);
    if m.jobs.contains_key(job_id) && m.active.contains_key(m.jobs[job_id]) && !m.done.contains(job_id) {
        let cid = m.jobs[job_id];
        if m.active[cid].status is Running {
            if m1.active.contains_key(cid) {
                assert(m1.done.contains(job_id));
            } else if m1.jobs.contains_key(job_id) {
                assert(m1.jobs[job_id] == cid);
            }
        }
    }
}

/// If some finished comparison has an ID, a first one with that ID exists.
pub proof fn lemma_first_with_id_exists(s: Seq<ResultView>, cid: Seq<char>)
    requires
        has_result_id(s, cid),
    ensures
        is_first_with_id(s, cid, first_with_id(s, cid)),
    decreases s.len(),
{
    let t = s.drop_last();
    if has_result_id(t, cid) {
        lemma_first_with_id_exists(t, cid);
        let i = first_with_id(t, cid);
        assert(is_first_with_id(s, cid, i)) by {
            assert forall|j: int| 0 <= j < i implies (#[trigger] s[j]).comparison_id@ != cid by {
                assert(s[j] == t[j]);
            }
        }
    } else {
        let i = s.len() - 1;
        assert(s[i].comparison_id@ == cid) by {
            let k = choose|k: int| 0 <= k < s.len() && (#[trigger] s[k]).comparison_id@ == cid;
            if k < i {
                assert(t[k] == s[k]);
            }
        }
        assert(is_first_with_id(s, cid, i)) by {
            assert forall|j: int| 0 <= j < i implies (#[trigger] s[j]).comparison_id@ != cid by {
                assert(s[j] == t[j]);
            }
        }
    }
}

/// A preference that was accepted makes the chosen model the winner of that
/// comparison, and leaves every other finished comparison as it was.
pub proof fn law_accepted_preference_sets_winner(m: ManagerView, cid: Seq<char>, index: usize, notes: Option<String>)
    requires
        preference_accepted(m, cid, index),
    ensures
        ({
            let i = first_with_id(m.completed, cid);
            let after = spec_set_preference(m, cid, index, notes);
            &&& after.completed.len() == m.completed.len()
            &&& view_winner(after.completed[i]) == Some(m.completed[i].results[index as int].model)
            &&& forall|j: int| 0 <= j < m.completed.len() && j != i ==> #[trigger] after.completed[j] == m.completed[j]
        }),
{
    lemma_first_with_id_exists(m.completed, cid);
}

/// A rejected preference leaves the manager unchanged.
pub proof fn law_rejected_preference_changes_nothing(m: ManagerView, cid: Seq<char>, index: usize, notes: Option<String>)
    requires
        !preference_accepted(m, cid, index),
    ensures
        spec_set_preference(m, cid, index, notes) == m,
{
}

/// A finished comparison counts as a win for the model at its preferred
/// position, by that model's name, and as one comparison with a winner;
/// without a preference, or with a position past its results, it counts
/// for nobody.
pub proof fn law_wins_add_comparison(s: Seq<ResultView>, c: ResultView, name: Seq<char>)
    ensures
        ({
            let has_winner = c.user_preference matches Some(i) && i < c.results.len();
            &&& count_preferred(s.push(c)) == count_preferred(s) + (if has_winner { 1int } else { 0int })
            &&& wins_of(s.push(c), name) == wins_of(s, name) + (if has_winner && c.results[
                c.user_preference->0 as int].model.name@ == name { 1int } else { 0int })
        }),
{
    assert(s.push(c).drop_last() =~= s);
    assert(s.push(c).last() == c);
}

/// No model has won more comparisons than have a winner at all, and no more
/// comparisons have a winner than have finished.
pub proof fn law_win_counts_bounded(s: Seq<ResultView>, name: Seq<char>)
    ensures
        wins_of(s, name) <= count_preferred(s),
        count_preferred(s) <= s.len(),
{
    lemma_counts_bounded(s, name);
}

/// An active job stored under key `k` is consistent.
pub open spec fn active_ok(k: Seq<char>, j: JobView) -> bool {
    &&& j.comparison_id@ == k
    &&& j.status matches ComparisonStatus::Running { completed, total } ==> (completed < total || completed == 0)
}

} // verus!
