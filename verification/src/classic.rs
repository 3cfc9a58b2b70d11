//! State and key handling of the classic (immediate-mode) interface.
//!
//! The event loop in the binary reads terminal events and backend messages
//! and hands them here; the functions below decide what changes. A
//! generation request is prepared here and sent by the binary, which then
//! confirms it with [`App::confirm_generation`].

use vstd::prelude::*;
use crate::clock::{utc_now, UtcTime};
use crate::input_buffer::InputBuffer;
use crate::keys::{is_ctrl_c, key_match, spec_is_ctrl_c, spec_key_match, AppEvent, KeyCode, KeyEvent};
use crate::messages::{GenerationStage, ProgressUpdate, Request, Response};
use crate::screen::Screen;
use crate::text::{decimal, push_decimal, push_str, trim_chars, trim_seq};

verus! {

/// Most backend log lines kept.
pub const MAX_BACKEND_LOG_LINES: usize = 500;

/// Model asked for by a generation from the prompt screen.
pub const DEFAULT_MODEL: &'static str = "sd_xl_base_1.0";

/// Steps asked for by a generation from the prompt screen.
pub const DEFAULT_STEPS: u32 = 30;

/// Image side asked for by a generation from the prompt screen.
pub const DEFAULT_SIZE: u32 = 1024;

/// The CFG scale 7.5, as the bits of an `f32`.
pub const DEFAULT_CFG_SCALE_BITS: u32 = 0x40F0_0000;

/// Status of a job in the classic interface.
#[derive(Debug, Clone, PartialEq)]
pub enum JobStatus {
    /// Sent to the backend, not started.
    Queued,
    /// Being generated: stage name, progress in percent and remaining
    /// seconds, both as the bits of `f32` values.
    Running { stage: String, percent: u32, eta_s: u32 },
    /// Finished; duration as the bits of an `f32`.
    Complete { image_path: String, duration_s: u32 },
    /// Failed with an error message.
    Failed { error: String },
}

/// A generation job of the classic interface.
#[derive(Debug, Clone, PartialEq)]
pub struct Job {
    pub id: String,
    pub prompt: String,
    pub status: JobStatus,
}

/// The name of a stage as it is printed for debugging.
pub open spec fn stage_debug_name(stage: GenerationStage) -> Seq<char> {
    match stage {
        GenerationStage::Initializing => "Initializing"@,
        GenerationStage::LoadingModels => "LoadingModels"@,
        GenerationStage::Encoding => "Encoding"@,
        GenerationStage::Sampling => "Sampling"@,
        GenerationStage::Decoding => "Decoding"@,
        GenerationStage::PostProcessing => "PostProcessing"@,
    }
}

/// The debug name of a stage.
pub fn stage_name(stage: GenerationStage) -> (r: String)
    ensures
        r@ == stage_debug_name(stage),
{
    match stage {
        GenerationStage::Initializing => String::from_str("Initializing"),
        GenerationStage::LoadingModels => String::from_str("LoadingModels"),
        GenerationStage::Encoding => String::from_str("Encoding"),
        GenerationStage::Sampling => String::from_str("Sampling"),
        GenerationStage::Decoding => String::from_str("Decoding"),
        GenerationStage::PostProcessing => String::from_str("PostProcessing"),
    }
}

/// Job `i` is the first in `jobs` whose id is `id`.
pub open spec fn first_job(jobs: Seq<Job>, id: Seq<char>, i: int) -> bool {
    &&& 0 <= i < jobs.len()
    &&& jobs[i].id@ == id
    &&& forall|j: int| 0 <= j < i ==> #[trigger] jobs[j].id@ != id
}

/// Some job in `jobs` has the id `id`.
pub open spec fn has_job(jobs: Seq<Job>, id: Seq<char>) -> bool {
    exists|i: int| 0 <= i < jobs.len() && #[trigger] jobs[i].id@ == id
}

/// `after` is `before` with the status of the first job with id `id`
/// replaced by `status`, or `before` itself if no job has that id.
pub open spec fn status_updated(before: Seq<Job>, after: Seq<Job>, id: Seq<char>, status: JobStatus) -> bool {
    if has_job(before, id) {
        exists|i: int|
            #![trigger first_job(before, id, i)]
            first_job(before, id, i) && after == before.update(
                i,
                Job { id: before[i].id, prompt: before[i].prompt, status },
            )
    } else {
        after == before
    }
}

/// The views of a sequence of strings.
pub open spec fn views(s: Seq<String>) -> Seq<Seq<char>> {
    s.map_values(|x: String| x@)
}

/// The last `MAX_BACKEND_LOG_LINES` lines of `lines` (all of them if fewer).
pub open spec fn log_tail(lines: Seq<Seq<char>>) -> Seq<Seq<char>> {
    if lines.len() > MAX_BACKEND_LOG_LINES {
        lines.subrange(lines.len() - MAX_BACKEND_LOG_LINES, lines.len() as int)
    } else {
        lines
    }
}

/// State of the classic interface.
#[derive(Debug, Clone)]
pub struct App {
    /// Screen being shown.
    pub current_screen: Screen,
    /// Screens left by navigation, most recent last.
    pub screen_history: Vec<Screen>,
    /// Set when the user asked to quit.
    pub should_quit: bool,
    /// Set when the screen must be drawn again.
    pub needs_redraw: bool,
    /// The prompt being typed.
    pub input: InputBuffer,
    /// Jobs, oldest first.
    pub jobs: Vec<Job>,
    /// Paths of generated images, oldest first.
    pub gallery: Vec<String>,
    /// Selected gallery image.
    pub selected_gallery: usize,
    /// Image shown in the preview pane.
    pub current_preview: Option<String>,
    /// Tail of the backend log.
    pub backend_logs: Vec<String>,
    /// Debug mode shows the backend log.
    pub debug_mode: bool,
    /// Tab of the preview pane (0 preview, 1 logs).
    pub preview_tab: usize,
    /// Whether a backend connection exists.
    pub backend_connected: bool,
}

/// What a key does in the classic interface.
#[derive(Debug, Clone, Copy, PartialEq, Eq, Structural)]
pub enum KeyAction {
    Quit,
    Back,
    Goto(Screen),
    Generate,
    InsertChar(char),
    Backspace,
    GalleryPrev,
    GalleryNext,
    Nothing,
}

/// What a key does on a given screen, once the global keys are handled.
pub open spec fn screen_key_action(screen: Screen, key: KeyEvent) -> KeyAction {
    match screen {
        Screen::Generation => match key.code {
            KeyCode::Enter => KeyAction::Generate,
            KeyCode::Char(c) => KeyAction::InsertChar(c),
            KeyCode::Backspace => KeyAction::Backspace,
            _ => KeyAction::Nothing,
        },
        Screen::Comparison => match key.code {
            KeyCode::Char(c) => KeyAction::InsertChar(c),
            KeyCode::Backspace => KeyAction::Backspace,
            _ => KeyAction::Nothing,
        },
        Screen::Gallery => match key.code {
            KeyCode::Left => KeyAction::GalleryPrev,
            KeyCode::Right => KeyAction::GalleryNext,
            _ => KeyAction::Nothing,
        },
        _ => KeyAction::Nothing,
    }
}

/// What a key does: Ctrl+C or `q` quit, Esc goes back, `?` or `h` open
/// help; the prompt screens take every other key; elsewhere `1` to `6`
/// choose a screen and the rest go to the screen.
pub open spec fn key_action(screen: Screen, key: KeyEvent) -> KeyAction {
    if spec_is_ctrl_c(key) || spec_key_match(key, KeyCode::Char('q')) {
        KeyAction::Quit
    } else if spec_key_match(key, KeyCode::Esc) {
        KeyAction::Back
    } else if spec_key_match(key, KeyCode::Char('?')) || spec_key_match(key, KeyCode::Char('h')) {
        KeyAction::Goto(Screen::Help)
    } else if screen == Screen::Generation || screen == Screen::Comparison {
        screen_key_action(screen, key)
    } else {
        match key.code {
            KeyCode::Char('1') => KeyAction::Goto(Screen::Generation),
            KeyCode::Char('2') => KeyAction::Goto(Screen::Queue),
            KeyCode::Char('3') => KeyAction::Goto(Screen::Gallery),
            KeyCode::Char('4') => KeyAction::Goto(Screen::Models),
            KeyCode::Char('5') => KeyAction::Goto(Screen::Monitor),
            KeyCode::Char('6') => KeyAction::Goto(Screen::Settings),
            _ => screen_key_action(screen, key),
        }
    }
}

/// The global keys work on every screen: `q` without modifiers and Ctrl+C
/// quit, Esc without modifiers goes back, `?` or `h` without modifiers open
/// the help. On the prompt screen Enter asks for a generation, Backspace
/// deletes, and any other character without modifiers is typed; in the
/// gallery Left and Right move to the previous and next image.
pub proof fn law_global_and_screen_keys(screen: Screen, key: KeyEvent)
    ensures
        key.code == KeyCode::Char('q') && key.modifiers.is_none() ==> key_action(screen, key) == KeyAction::Quit,
        key.code == KeyCode::Char('c') && key.modifiers.control ==> key_action(screen, key) == KeyAction::Quit,
        key.code == KeyCode::Esc && key.modifiers.is_none() ==> key_action(screen, key) == KeyAction::Back,
        (key.code == KeyCode::Char('?') || key.code == KeyCode::Char('h')) && key.modifiers.is_none() ==> key_action(
            screen,
            key,
        ) == KeyAction::Goto(Screen::Help),
        screen == Screen::Generation && key.code == KeyCode::Enter ==> key_action(screen, key) == KeyAction::Generate,
        screen == Screen::Generation && key.code == KeyCode::Backspace ==> key_action(screen, key) == KeyAction::Backspace,
        forall|c: char| screen == Screen::Generation && key.code == KeyCode::Char(c) && key.modifiers.is_none() && c
            != 'q' && c != 'h' && c != '?' ==> #[trigger] key_action(screen, key) == KeyAction::InsertChar(c),
        screen == Screen::Gallery && key.code == KeyCode::Left ==> key_action(screen, key) == KeyAction::GalleryPrev,
        screen == Screen::Gallery && key.code == KeyCode::Right ==> key_action(screen, key) == KeyAction::GalleryNext,
{
}

/// Off the prompt screens the number keys choose screens, whatever
/// modifiers are held: `1` the prompt, `2` the queue, `3` the gallery, `4`
/// the models, `5` the monitor and `6` the settings.
pub proof fn law_number_keys_choose_screens(screen: Screen, key: KeyEvent)
    requires
        screen != Screen::Generation,
        screen != Screen::Comparison,
    ensures
        key.code == KeyCode::Char('1') ==> key_action(screen, key) == KeyAction::Goto(Screen::Generation),
        key.code == KeyCode::Char('2') ==> key_action(screen, key) == KeyAction::Goto(Screen::Queue),
        key.code == KeyCode::Char('3') ==> key_action(screen, key) == KeyAction::Goto(Screen::Gallery),
        key.code == KeyCode::Char('4') ==> key_action(screen, key) == KeyAction::Goto(Screen::Models),
        key.code == KeyCode::Char('5') ==> key_action(screen, key) == KeyAction::Goto(Screen::Monitor),
        key.code == KeyCode::Char('6') ==> key_action(screen, key) == KeyAction::Goto(Screen::Settings),
{
}

/// The action of a key on a screen.
pub fn key_action_of(screen: Screen, key: &KeyEvent) -> (a: KeyAction)
    ensures
        a == key_action(screen, *key),
{
    if is_ctrl_c(key) || key_match(key, KeyCode::Char('q')) {
        return KeyAction::Quit;
    }
    if key_match(key, KeyCode::Esc) {
        return KeyAction::Back;
    }
    if key_match(key, KeyCode::Char('?')) || key_match(key, KeyCode::Char('h')) {
        return KeyAction::Goto(Screen::Help);
    }
    let on_input = match screen {
        Screen::Generation | Screen::Comparison => true,
        _ => false,
    };
    if !on_input {
        match key.code {
            KeyCode::Char('1') => { return KeyAction::Goto(Screen::Generation); },
            KeyCode::Char('2') => { return KeyAction::Goto(Screen::Queue); },
            KeyCode::Char('3') => { return KeyAction::Goto(Screen::Gallery); },
            KeyCode::Char('4') => { return KeyAction::Goto(Screen::Models); },
            KeyCode::Char('5') => { return KeyAction::Goto(Screen::Monitor); },
            KeyCode::Char('6') => { return KeyAction::Goto(Screen::Settings); },
            _ => {},
        }
    }
    match screen {
        Screen::Generation => match key.code {
            KeyCode::Enter => KeyAction::Generate,
            KeyCode::Char(c) => KeyAction::InsertChar(c),
            KeyCode::Backspace => KeyAction::Backspace,
            _ => KeyAction::Nothing,
        },
        Screen::Comparison => match key.code {
            KeyCode::Char(c) => KeyAction::InsertChar(c),
            KeyCode::Backspace => KeyAction::Backspace,
            _ => KeyAction::Nothing,
        },
        Screen::Gallery => match key.code {
            KeyCode::Left => KeyAction::GalleryPrev,
            KeyCode::Right => KeyAction::GalleryNext,
            _ => KeyAction::Nothing,
        },
        _ => KeyAction::Nothing,
    }
}

/// Outcome of asking for a generation from the prompt screen.
#[derive(Debug, Clone, PartialEq)]
pub enum GenerationOutcome {
    /// The prompt is empty once trimmed: nothing is sent.
    EmptyPrompt,
    /// No backend connection: nothing is sent.
    NotConnected,
    /// A request for `job_id` with the trimmed `prompt` is to be sent.
    Ready { job_id: String, prompt: String },
}

/// Milliseconds since 1970 of a time at or after 1970.
pub open spec fn unix_millis(t: UtcTime) -> int {
    t.secs * 1000 + t.nanos / 1_000_000
}

/// The job id made at time `t`: "job-" and the milliseconds since 1970.
pub open spec fn job_id_at(t: UtcTime) -> Seq<char> {
    "job-"@ + decimal(unix_millis(t) as nat)
}

/// The job id for the given milliseconds.
pub fn job_id_for(t: UtcTime) -> (id: String)
    requires
        t.secs >= 0,
    ensures
        id@ == job_id_at(t),
{
    let millis: u128 = (t.secs as u128) * 1000 + (t.nanos as u128) / 1_000_000;
    let mut id = String::from_str("job-");
    push_decimal(&mut id, millis);
    id
}

/// The generation request sent for a job from the prompt screen: the
/// default model, no LoRA, 1024x1024, 30 steps and CFG scale 7.5.
pub fn generation_request(job_id: &str, prompt: &str) -> (r: Request)
    ensures
        r matches Request::Generate { id, prompt: p, model, lora, size, steps, cfg_scale } && id@
            == job_id@ && p@ == prompt@ && model@ == DEFAULT_MODEL@ && lora is None && size == (
            DEFAULT_SIZE,
            DEFAULT_SIZE,
        ) && steps == DEFAULT_STEPS && cfg_scale == DEFAULT_CFG_SCALE_BITS,
{
    Request::Generate {
        id: job_id.to_owned(),
        prompt: prompt.to_owned(),
        model: DEFAULT_MODEL.to_owned(),
        lora: None,
        size: (DEFAULT_SIZE, DEFAULT_SIZE),
        steps: DEFAULT_STEPS,
        cfg_scale: DEFAULT_CFG_SCALE_BITS,
    }
}

impl App {
    /// The invariant: the prompt's cursor lies within it, the gallery
    /// selection lies within the gallery, and the log tail is bounded.
    pub open spec fn wf(&self) -> bool {
        &&& self.input.wf()
        &&& (self.gallery@.len() == 0 ==> self.selected_gallery == 0)
        &&& (self.gallery@.len() > 0 ==> self.selected_gallery < self.gallery@.len())
        &&& self.backend_logs@.len() <= MAX_BACKEND_LOG_LINES
    }

    /// Everything but the screen, the history, the prompt and the two flags
    /// is the same in `a` and `b`.
    pub open spec fn same_data(a: &App, b: &App) -> bool {
        &&& a.jobs@ == b.jobs@
        &&& a.gallery@ == b.gallery@
        &&& a.selected_gallery == b.selected_gallery
        &&& a.current_preview == b.current_preview
        &&& a.backend_logs@ == b.backend_logs@
        &&& a.debug_mode == b.debug_mode
        &&& a.preview_tab == b.preview_tab
        &&& a.backend_connected == b.backend_connected
    }

    /// A new application on the prompt screen, with nothing in it.
    pub fn new() -> (app: App)
        ensures
            app.wf(),
            app.current_screen == Screen::Generation,
            app.screen_history@.len() == 0,
            !app.should_quit,
            app.needs_redraw,
            app.input.text().len() == 0,
            app.jobs@.len() == 0,
            app.gallery@.len() == 0,
            app.current_preview is None,
            app.backend_logs@.len() == 0,
            !app.debug_mode,
            app.preview_tab == 0,
            !app.backend_connected,
    {
        App {
            current_screen: Screen::Generation,
            screen_history: Vec::new(),
            should_quit: false,
            needs_redraw: true,
            input: InputBuffer::new(),
            jobs: Vec::new(),
            gallery: Vec::new(),
            selected_gallery: 0,
            current_preview: None,
            backend_logs: Vec::new(),
            debug_mode: false,
            preview_tab: 0,
            backend_connected: false,
        }
    }

    /// Ask to quit.
    pub fn quit(&mut self)
        ensures
            final(self).should_quit,
            final(self).current_screen == old(self).current_screen,
            final(self).screen_history@ == old(self).screen_history@,
            final(self).needs_redraw == old(self).needs_redraw,
            final(self).input == old(self).input,
            App::same_data(&*final(self), &*old(self)),
    {
        self.should_quit = true;
    }

    /// Show `screen`, remembering the current one if it differs.
    pub fn navigate_to(&mut self, screen: Screen)
        ensures
            final(self).current_screen == screen,
            final(self).screen_history@ == if screen == old(self).current_screen {
                old(self).screen_history@
            } else {
                old(self).screen_history@.push(old(self).current_screen)
            },
            final(self).needs_redraw,
            final(self).should_quit == old(self).should_quit,
            final(self).input == old(self).input,
            App::same_data(&*final(self), &*old(self)),
    {
        if screen != self.current_screen {
            self.screen_history.push(self.current_screen);
            self.current_screen = screen;
        }
        self.needs_redraw = true;
    }

    /// Go back to the screen shown before, if there is one.
    pub fn navigate_back(&mut self)
        ensures
            old(self).screen_history@.len() > 0 ==> final(self).current_screen == old(self).screen_history@.last() && final(self).screen_history@ == old(self).screen_history@.drop_last(),
            old(self).screen_history@.len() == 0 ==> final(self).current_screen == old(self).current_screen && final(self).screen_history@.len() == 0,
            final(self).needs_redraw,
            final(self).should_quit == old(self).should_quit,
            final(self).input == old(self).input,
            App::same_data(&*final(self), &*old(self)),
    {
        if let Some(previous) = self.screen_history.pop() {
            self.current_screen = previous;
        }
        self.needs_redraw = true;
    }

    /// Type a character into the prompt.
    pub fn input_char(&mut self, c: char)
        requires
            old(self).wf(),
        ensures
            final(self).wf(),
            final(self).input.text() == old(self).input.text().insert(
                old(self).input.cursor_at() as int,
                c,
            ),
            final(self).input.cursor_at() == old(self).input.cursor_at() + 1,
            final(self).needs_redraw,
            final(self).current_screen == old(self).current_screen,
            final(self).screen_history@ == old(self).screen_history@,
            final(self).should_quit == old(self).should_quit,
            App::same_data(&*final(self), &*old(self)),
    {
        self.input.insert(c);
        self.needs_redraw = true;
    }

    /// Delete the character before the prompt's cursor.
    pub fn input_backspace(&mut self)
        requires
            old(self).wf(),
        ensures
            final(self).wf(),
            old(self).input.cursor_at() == 0 ==> final(self).input == old(self).input,
            old(self).input.cursor_at() > 0 ==> final(self).input.text() == old(self).input.text().remove(old(self).input.cursor_at() - 1) && final(self).input.cursor_at() == old(self).input.cursor_at() - 1,
            final(self).needs_redraw,
            final(self).current_screen == old(self).current_screen,
            final(self).screen_history@ == old(self).screen_history@,
            final(self).should_quit == old(self).should_quit,
            App::same_data(&*final(self), &*old(self)),
    {
        self.input.backspace();
        self.needs_redraw = true;
    }

    /// Select the previous gallery image, wrapping to the last.
    pub fn gallery_prev(&mut self)
        requires
            old(self).wf(),
        ensures
            final(self).wf(),
            old(self).gallery@.len() > 0 ==> final(self).selected_gallery == (old(self).selected_gallery + old(self).gallery@.len() - 1) % (old(self).gallery@.len() as int),
            old(self).gallery@.len() == 0 ==> final(self).selected_gallery == 0,
            final(self).needs_redraw,
            final(self).current_screen == old(self).current_screen,
            final(self).screen_history@ == old(self).screen_history@,
            final(self).should_quit == old(self).should_quit,
            final(self).input == old(self).input,
            final(self).gallery@ == old(self).gallery@,
            final(self).jobs@ == old(self).jobs@,
            final(self).backend_logs@ == old(self).backend_logs@,
            final(self).current_preview == old(self).current_preview,
    {
        let n = self.gallery.len();
        if n > 0 {
            let a = self.selected_gallery;
            if a == 0 {
                self.selected_gallery = n - 1;
                assert((a + n - 1) % (n as int) == n - 1) by (nonlinear_arith)
                    requires a == 0, n > 0;
            } else {
                self.selected_gallery = a - 1;
                assert((a + n - 1) % (n as int) == a - 1) by (nonlinear_arith)
                    requires 0 < a < n;
            }
        }
        self.needs_redraw = true;
    }

    /// Select the next gallery image, wrapping to the first.
    pub fn gallery_next(&mut self)
        requires
            old(self).wf(),
        ensures
            final(self).wf(),
            old(self).gallery@.len() > 0 ==> final(self).selected_gallery == (old(self).selected_gallery + 1) % (old(self).gallery@.len() as int),
            old(self).gallery@.len() == 0 ==> final(self).selected_gallery == 0,
            final(self).needs_redraw,
            final(self).current_screen == old(self).current_screen,
            final(self).screen_history@ == old(self).screen_history@,
            final(self).should_quit == old(self).should_quit,
            final(self).input == old(self).input,
            final(self).gallery@ == old(self).gallery@,
            final(self).jobs@ == old(self).jobs@,
            final(self).backend_logs@ == old(self).backend_logs@,
            final(self).current_preview == old(self).current_preview,
    {
        let n = self.gallery.len();
        if n > 0 {
            let a = self.selected_gallery;
            if a + 1 == n {
                self.selected_gallery = 0;
                assert((a + 1) % (n as int) == 0) by (nonlinear_arith)
                    requires a + 1 == n, n > 0;
            } else {
                self.selected_gallery = a + 1;
                assert((a + 1) % (n as int) == a + 1) by (nonlinear_arith)
                    requires 0 <= a, a + 1 < n;
            }
        }
        self.needs_redraw = true;
    }

    /// Record a job that was just sent, as queued.
    pub fn add_job(&mut self, id: String, prompt: String)
        requires
            old(self).wf(),
        ensures
            final(self).wf(),
            final(self).jobs@ == old(self).jobs@.push(Job { id, prompt, status: JobStatus::Queued }),
            final(self).gallery@ == old(self).gallery@,
            final(self).selected_gallery == old(self).selected_gallery,
            final(self).current_preview == old(self).current_preview,
            final(self).backend_logs@ == old(self).backend_logs@,
            final(self).current_screen == old(self).current_screen,
            final(self).input == old(self).input,
            final(self).needs_redraw == old(self).needs_redraw,
    {
        self.jobs.push(Job { id, prompt, status: JobStatus::Queued });
    }

    /// Set the status of the first job with id `id`; nothing happens if no
    /// job has that id.
    pub fn update_job_status(&mut self, id: &str, status: JobStatus)
        requires
            old(self).wf(),
        ensures
            final(self).wf(),
            status_updated(old(self).jobs@, final(self).jobs@, id@, status),
            final(self).gallery@ == old(self).gallery@,
            final(self).selected_gallery == old(self).selected_gallery,
            final(self).current_preview == old(self).current_preview,
            final(self).backend_logs@ == old(self).backend_logs@,
            final(self).current_screen == old(self).current_screen,
            final(self).screen_history@ == old(self).screen_history@,
            final(self).should_quit == old(self).should_quit,
            final(self).input == old(self).input,
            final(self).needs_redraw == old(self).needs_redraw,
    {
        let key: String = id.to_owned();
        let mut i: usize = 0;
        while i < self.jobs.len()
            invariant
                key@ == id@,
                *self == *old(self),
                self.wf(),
                i <= self.jobs@.len(),
                forall|j: int| 0 <= j < i ==> #[trigger] self.jobs@[j].id@ != id@,
            decreases self.jobs@.len() - i,
        {
            if self.jobs[i].id == key {
                let ghost before = self.jobs@;
                let job = self.jobs.remove(i);
                self.jobs.insert(i, Job { id: job.id, prompt: job.prompt, status });
                proof {
                    assert(first_job(before, id@, i as int));
                    assert(self.jobs@ =~= before.update(
                        i as int,
                        Job { id: before[i as int].id, prompt: before[i as int].prompt, status },
                    ));
                }
                return;
            }
            i = i + 1;
        }
        assert(!has_job(self.jobs@, id@));
    }

    /// Add an image to the gallery.
    pub fn add_to_gallery(&mut self, path: String)
        requires
            old(self).wf(),
        ensures
            final(self).wf(),
            final(self).gallery@ == old(self).gallery@.push(path),
            final(self).selected_gallery == old(self).selected_gallery,
            final(self).jobs@ == old(self).jobs@,
            final(self).current_preview == old(self).current_preview,
            final(self).backend_logs@ == old(self).backend_logs@,
            final(self).current_screen == old(self).current_screen,
            final(self).input == old(self).input,
            final(self).needs_redraw == old(self).needs_redraw,
    {
        self.gallery.push(path);
    }

    /// Note that the screen was drawn.
    pub fn mark_rendered(&mut self)
        ensures
            !final(self).needs_redraw,
            final(self).current_screen == old(self).current_screen,
            final(self).screen_history@ == old(self).screen_history@,
            final(self).should_quit == old(self).should_quit,
            final(self).input == old(self).input,
            App::same_data(&*final(self), &*old(self)),
    {
        self.needs_redraw = false;
    }

    /// Append a backend log line, keeping only the last
    /// `MAX_BACKEND_LOG_LINES` lines.
    pub fn push_backend_log(&mut self, line: String)
        requires
            old(self).wf(),
        ensures
            final(self).wf(),
            views(final(self).backend_logs@) == log_tail(views(old(self).backend_logs@).push(line@)),
            final(self).needs_redraw,
            final(self).jobs@ == old(self).jobs@,
            final(self).gallery@ == old(self).gallery@,
            final(self).selected_gallery == old(self).selected_gallery,
            final(self).current_preview == old(self).current_preview,
            final(self).current_screen == old(self).current_screen,
            final(self).input == old(self).input,
    {
        let ghost before = views(self.backend_logs@).push(line@);
        self.backend_logs.push(line);
        assert(views(self.backend_logs@) =~= before);
        if self.backend_logs.len() > MAX_BACKEND_LOG_LINES {
            self.backend_logs.remove(0);
            assert(views(self.backend_logs@) =~= before.subrange(
                before.len() - MAX_BACKEND_LOG_LINES,
                before.len() as int,
            ));
        }
        self.needs_redraw = true;
    }

    /// Record that a job finished with an image: the image joins the
    /// gallery, becomes the preview, and the job becomes complete.
    pub fn complete_job(&mut self, job_id: &str, image_path: String, duration_s: u32)
        requires
            old(self).wf(),
        ensures
            final(self).wf(),
            final(self).gallery@.len() == old(self).gallery@.len() + 1,
            final(self).gallery@.drop_last() == old(self).gallery@,
            final(self).gallery@.last()@ == image_path@,
            final(self).current_preview matches Some(p) && p@ == image_path@,
            status_updated(
                old(self).jobs@,
                final(self).jobs@,
                job_id@,
                JobStatus::Complete { image_path, duration_s },
            ),
            final(self).needs_redraw,
            final(self).selected_gallery == old(self).selected_gallery,
            final(self).backend_logs@ == old(self).backend_logs@,
            final(self).current_screen == old(self).current_screen,
            final(self).input == old(self).input,
    {
        self.add_to_gallery(image_path.clone());
        self.current_preview = Some(image_path.clone());
        self.update_job_status(job_id, JobStatus::Complete { image_path, duration_s });
        self.needs_redraw = true;
    }

    /// Apply a backend response: a completed job is recorded as by
    /// [`App::complete_job`]; other responses change nothing.
    pub fn apply_response(&mut self, response: Response)
        requires
            old(self).wf(),
        ensures
            final(self).wf(),
            response matches Response::JobComplete { job_id, image_path, duration_s } ==> {
                &&& final(self).gallery@.drop_last() == old(self).gallery@
                &&& final(self).gallery@.len() == old(self).gallery@.len() + 1
                &&& final(self).gallery@.last()@ == image_path@
                &&& final(self).current_preview matches Some(p) && p@ == image_path@
                &&& status_updated(
                    old(self).jobs@,
                    final(self).jobs@,
                    job_id@,
                    JobStatus::Complete { image_path, duration_s },
                )
                &&& final(self).needs_redraw
            },
            !(response is JobComplete) ==> *final(self) == *old(self),
    {
        match response {
            Response::JobComplete { job_id, image_path, duration_s } => {
                self.complete_job(job_id.as_str(), image_path, duration_s);
            },
            _ => {},
        }
    }

    /// Apply a progress update: progress marks the job as running with the
    /// stage's debug name, a completed job is recorded as by
    /// [`App::complete_job`]; other updates change nothing.
    pub fn apply_update(&mut self, update: ProgressUpdate)
        requires
            old(self).wf(),
        ensures
            final(self).wf(),
            update matches ProgressUpdate::Progress { job_id, stage, percent, eta_s, .. } ==> {
                &&& final(self).jobs@.len() == old(self).jobs@.len()
                &&& (has_job(old(self).jobs@, job_id@) ==> exists|i: int|
                    #![trigger first_job(old(self).jobs@, job_id@, i)]
                    first_job(old(self).jobs@, job_id@, i) && final(self).jobs@[i].id == old(self).jobs@[i].id && final(self).jobs@[i].prompt == old(self).jobs@[i].prompt
                        && (final(self).jobs@[i].status matches JobStatus::Running {
                        stage: s,
                        percent: p,
                        eta_s: e,
                    } && s@ == stage_debug_name(stage) && p == percent && e == eta_s) && forall|
                        j: int,
                    |
                        0 <= j < old(self).jobs@.len() && j != i ==> #[trigger] final(self).jobs@[j] == old(self).jobs@[j])
                &&& (!has_job(old(self).jobs@, job_id@) ==> final(self).jobs@ == old(self).jobs@)
                &&& final(self).gallery@ == old(self).gallery@
                &&& final(self).current_preview == old(self).current_preview
                &&& final(self).needs_redraw
            },
            update matches ProgressUpdate::JobComplete { job_id, image_path, duration_s } ==> {
                &&& final(self).gallery@.drop_last() == old(self).gallery@
                &&& final(self).gallery@.len() == old(self).gallery@.len() + 1
                &&& final(self).gallery@.last()@ == image_path@
                &&& final(self).current_preview matches Some(p) && p@ == image_path@
                &&& status_updated(
                    old(self).jobs@,
                    final(self).jobs@,
                    job_id@,
                    JobStatus::Complete { image_path, duration_s },
                )
                &&& final(self).needs_redraw
            },
            !(update is Progress) && !(update is JobComplete) ==> *final(self) == *old(self),
    {
        match update {
            ProgressUpdate::Progress { job_id, stage, percent, eta_s, .. } => {
                let status = JobStatus::Running { stage: stage_name(stage), percent, eta_s };
                let ghost st = status;
                self.update_job_status(job_id.as_str(), status);
                self.needs_redraw = true;
                proof {
                    if has_job(old(self).jobs@, job_id@) {
                        let i = choose|i: int|
                            #![trigger first_job(old(self).jobs@, job_id@, i)]
                            first_job(old(self).jobs@, job_id@, i) && self.jobs@ == old(self).jobs@.update(
                                i,
                                Job {
                                    id: old(self).jobs@[i].id,
                                    prompt: old(self).jobs@[i].prompt,
                                    status: st,
                                },
                            );
                        assert(self.jobs@[i].status == st);
                    }
                }
            },
            ProgressUpdate::JobComplete { job_id, image_path, duration_s } => {
                self.complete_job(job_id.as_str(), image_path, duration_s);
            },
            _ => {},
        }
    }

    /// Record a generation request that was sent: the job joins the list as
    /// queued, and the prompt is cleared.
    pub fn confirm_generation(&mut self, job_id: String, prompt: String)
        requires
            old(self).wf(),
        ensures
            final(self).wf(),
            final(self).jobs@ == old(self).jobs@.push(
                Job { id: job_id, prompt, status: JobStatus::Queued },
            ),
            final(self).input.text().len() == 0,
            final(self).input.cursor_at() == 0,
            final(self).needs_redraw,
            final(self).gallery@ == old(self).gallery@,
            final(self).current_preview == old(self).current_preview,
            final(self).current_screen == old(self).current_screen,
    {
        self.add_job(job_id, prompt);
        self.input.clear();
        self.needs_redraw = true;
    }
}

/// What asking for a generation gives, for the state `app` at time `t`.
pub open spec fn spec_prepare(app: &App, t: UtcTime, o: GenerationOutcome) -> bool {
    let prompt = trim_seq(app.input.text());
    if prompt.len() == 0 {
        o == GenerationOutcome::EmptyPrompt
    } else if !app.backend_connected {
        o == GenerationOutcome::NotConnected
    } else {
        o matches GenerationOutcome::Ready { job_id, prompt: p } && job_id@ == job_id_at(t) && p@
            == prompt
    }
}

/// Handles events of the classic interface.
pub struct EventHandler;

impl EventHandler {
    /// Decide a generation at time `t`: refused for an empty prompt or a
    /// missing backend, else ready with the job id made from `t` and the
    /// trimmed prompt.
    pub fn prepare_generation(app: &App, t: UtcTime) -> (o: GenerationOutcome)
        requires
            t.secs >= 0,
        ensures
            spec_prepare(app, t, o),
    {
        let text = app.input.text_string();
        let prompt = trim_chars(text.as_str());
        if prompt.as_str().unicode_len() == 0 {
            return GenerationOutcome::EmptyPrompt;
        }
        if !app.backend_connected {
            return GenerationOutcome::NotConnected;
        }
        GenerationOutcome::Ready { job_id: job_id_for(t), prompt }
    }

    /// Ask for a generation from the prompt screen, at the current time.
    pub fn trigger_generation(app: &App) -> (o: GenerationOutcome)
        ensures
            exists|t: UtcTime| t.secs >= 0 && #[trigger] spec_prepare(app, t, o),
    {
        let t = utc_now();
        let o = Self::prepare_generation(app, t);
        assert(spec_prepare(app, t, o));
        o
    }

    /// Handle an event: a key does what [`key_action`] says, a resize asks
    /// for a redraw, other events change nothing. The result is the outcome
    /// of a generation asked for by the key, if any.
    pub fn handle(app: &mut App, event: AppEvent) -> (r: Option<GenerationOutcome>)
        requires
            old(app).wf(),
        ensures
            final(app).wf(),
            event matches AppEvent::Key(key) ==> {
                let a = key_action(old(app).current_screen, key);
                &&& (a == KeyAction::Quit ==> final(app).should_quit && final(app).current_screen
                    == old(app).current_screen)
                &&& (a matches KeyAction::Goto(s) ==> final(app).current_screen == s
                    && final(app).screen_history@ == (if s == old(app).current_screen {
                    old(app).screen_history@
                } else {
                    old(app).screen_history@.push(old(app).current_screen)
                }) && final(app).input == old(app).input)
                &&& (a == KeyAction::Back ==> (old(app).screen_history@.len() > 0 ==> final(app).current_screen
                    == old(app).screen_history@.last() && final(app).screen_history@ == old(app).screen_history@.drop_last())
                    && (old(app).screen_history@.len() == 0 ==> final(app).current_screen == old(app).current_screen)
                    && final(app).input == old(app).input)
                &&& (a matches KeyAction::InsertChar(c) ==> final(app).input.text() == old(app).input.text().insert(old(app).input.cursor_at() as int, c))
                &&& (a == KeyAction::Backspace && old(app).input.cursor_at() > 0 ==> final(app).input.text() == old(app).input.text().remove(old(app).input.cursor_at() - 1))
                &&& (a == KeyAction::GalleryPrev && old(app).gallery@.len() > 0 ==> final(app).selected_gallery == (old(app).selected_gallery + old(app).gallery@.len() - 1)
                    % (old(app).gallery@.len() as int))
                &&& (a == KeyAction::GalleryNext && old(app).gallery@.len() > 0 ==> final(app).selected_gallery == (old(app).selected_gallery + 1) % (old(app).gallery@.len() as int))
                &&& (a == KeyAction::Generate ==> (r matches Some(o) && exists|t: UtcTime|
                    t.secs >= 0 && #[trigger] spec_prepare(&*old(app), t, o)))
                &&& (a != KeyAction::Generate ==> r is None)
                &&& (a == KeyAction::Generate || a == KeyAction::Nothing ==> *final(app) == *old(app))
                &&& final(app).jobs@ == old(app).jobs@
                &&& final(app).gallery@ == old(app).gallery@
                &&& (old(app).current_screen != Screen::Generation && old(app).current_screen != Screen::Comparison) ==> {
                    &&& key.code == KeyCode::Char('1') ==> final(app).current_screen == Screen::Generation
                    &&& key.code == KeyCode::Char('2') ==> final(app).current_screen == Screen::Queue
                    &&& key.code == KeyCode::Char('3') ==> final(app).current_screen == Screen::Gallery
                    &&& key.code == KeyCode::Char('4') ==> final(app).current_screen == Screen::Models
                    &&& key.code == KeyCode::Char('5') ==> final(app).current_screen == Screen::Monitor
                    &&& key.code == KeyCode::Char('6') ==> final(app).current_screen == Screen::Settings
                }
            },
            event matches AppEvent::Resize(_, _) ==> r is None && final(app).needs_redraw
                && final(app).current_screen == old(app).current_screen && final(app).input == old(app).input && App::same_data(&*final(app), &*old(app)),
            (event is Tick || event is Mouse) ==> r is None && *final(app) == *old(app),
    {
        match event {
            AppEvent::Key(key) => {
                let a = key_action_of(app.current_screen, &key);
                match a {
                    KeyAction::Quit => {
                        app.quit();
                        None
                    },
                    KeyAction::Back => {
                        app.navigate_back();
                        None
                    },
                    KeyAction::Goto(s) => {
                        app.navigate_to(s);
                        None
                    },
                    KeyAction::Generate => Some(Self::trigger_generation(&*app)),
                    KeyAction::InsertChar(c) => {
                        app.input_char(c);
                        None
                    },
                    KeyAction::Backspace => {
                        app.input_backspace();
                        None
                    },
                    KeyAction::GalleryPrev => {
                        app.gallery_prev();
                        None
                    },
                    KeyAction::GalleryNext => {
                        app.gallery_next();
                        None
                    },
                    KeyAction::Nothing => None,
                }
            },
            AppEvent::Resize(_, _) => {
                app.needs_redraw = true;
                None
            },
            AppEvent::Tick => None,
            AppEvent::Mouse => None,
        }
    }
}

/// Going to another screen and then back returns to the screen one left,
/// with the history as it was (by the contracts of [`App::navigate_to`] and
/// [`App::navigate_back`]).
pub proof fn law_navigate_then_back(history: Seq<Screen>, current: Screen, target: Screen)
    requires
        target != current,
    ensures
        history.push(current).last() == current,
        history.push(current).drop_last() == history,
{
    assert(history.push(current).drop_last() =~= history);
}

} // verus!
