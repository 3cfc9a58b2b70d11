//! Keyboard handling of the entity-component interface.
//!
//! Each handler takes the key events of one frame, in order. Handlers that
//! only emit events return them; the binary delivers them.

use vstd::prelude::*;
use crate::input_buffer::{word_start, InputBuffer};
use crate::keys::{KeyCode, KeyEvent};
use crate::order::{is_stable_order, stable_order};
use crate::screen::{screen_at, screen_index, Screen};
use crate::state::{
    job_views, status_active, AppState, GalleryState, Job, QueueState, PREVIEW_TABS,
};

verus! {

// ---------------------------------------------------------------------------
// Screen navigation
// ---------------------------------------------------------------------------

/// The number keys of the navigation bar choose screens in bar order: `1`
/// the prompt, `2` the comparison, `3` the queue, `4` the gallery, `5` the
/// models, `6` the monitor, `7` the settings and `8` the help; Esc leads
/// back to the prompt.
pub proof fn law_nav_number_keys(s: Screen, key: KeyEvent)
    ensures
        key.code == KeyCode::Char('1') ==> nav_target(s, key) == Some(Screen::Generation),
        key.code == KeyCode::Char('2') ==> nav_target(s, key) == Some(Screen::Comparison),
        key.code == KeyCode::Char('3') ==> nav_target(s, key) == Some(Screen::Queue),
        key.code == KeyCode::Char('4') ==> nav_target(s, key) == Some(Screen::Gallery),
        key.code == KeyCode::Char('5') ==> nav_target(s, key) == Some(Screen::Models),
        key.code == KeyCode::Char('6') ==> nav_target(s, key) == Some(Screen::Monitor),
        key.code == KeyCode::Char('7') ==> nav_target(s, key) == Some(Screen::Settings),
        key.code == KeyCode::Char('8') ==> nav_target(s, key) == Some(Screen::Help),
        key.code == KeyCode::Esc ==> nav_target(s, key) == Some(Screen::Generation),
{
}

/// The screen a key leads to, if it is a navigation key: Tab and BackTab
/// step through the tab order, `1` to `8` choose a screen, Esc returns to
/// the prompt screen.
pub open spec fn nav_target(s: Screen, key: KeyEvent) -> Option<Screen> {
    match key.code {
        KeyCode::Tab => Some(screen_at(screen_index(s) + 1)),
        KeyCode::BackTab => Some(screen_at(screen_index(s) + 7)),
        KeyCode::Char('1') => Some(Screen::Generation),
        KeyCode::Char('2') => Some(Screen::Comparison),
        KeyCode::Char('3') => Some(Screen::Queue),
        KeyCode::Char('4') => Some(Screen::Gallery),
        KeyCode::Char('5') => Some(Screen::Models),
        KeyCode::Char('6') => Some(Screen::Monitor),
        KeyCode::Char('7') => Some(Screen::Settings),
        KeyCode::Char('8') => Some(Screen::Help),
        KeyCode::Esc => Some(Screen::Generation),
        _ => None,
    }
}

/// The screen after the navigation keys `keys`, in order.
pub open spec fn nav_fold(s: Screen, keys: Seq<KeyEvent>) -> Screen
    decreases keys.len(),
{
    if keys.len() == 0 {
        s
    } else {
        let before = nav_fold(s, keys.drop_last());
        match nav_target(before, keys.last()) {
            Some(t) => t,
            None => before,
        }
    }
}

/// Whether any of `keys` is a navigation key.
pub open spec fn any_nav_key(s: Screen, keys: Seq<KeyEvent>) -> bool
    decreases keys.len(),
{
    if keys.len() == 0 {
        false
    } else {
        any_nav_key(s, keys.drop_last()) || nav_target(nav_fold(s, keys.drop_last()), keys.last()) is Some
    }
}

/// The screen a key leads to from `s`, if any.
pub fn navigation_target(s: Screen, key: &KeyEvent) -> (r: Option<Screen>)
    ensures
        r == nav_target(s, *key),
{
    match key.code {
        KeyCode::Tab => Some(s.next()),
        KeyCode::BackTab => Some(s.previous()),
        KeyCode::Char('1') => Some(Screen::Generation),
        KeyCode::Char('2') => Some(Screen::Comparison),
        KeyCode::Char('3') => Some(Screen::Queue),
        KeyCode::Char('4') => Some(Screen::Gallery),
        KeyCode::Char('5') => Some(Screen::Models),
        KeyCode::Char('6') => Some(Screen::Monitor),
        KeyCode::Char('7') => Some(Screen::Settings),
        KeyCode::Char('8') => Some(Screen::Help),
        KeyCode::Esc => Some(Screen::Generation),
        _ => None,
    }
}

/// The flags other than the redraw request are the same.
pub open spec fn same_but_redraw(a: &AppState, b: &AppState) -> bool {
    &&& a.should_quit == b.should_quit
    &&& a.debug_mode == b.debug_mode
    &&& a.preview_tab == b.preview_tab
    &&& a.current_preview == b.current_preview
    &&& a.frame_count == b.frame_count
}

/// Move between screens with the navigation keys; a redraw is asked for on
/// each of them.
pub fn handle_navigation(keys: &Vec<KeyEvent>, screen: &mut Screen, app_state: &mut AppState)
    ensures
        *final(screen) == nav_fold(*old(screen), keys@),
        final(app_state).needs_redraw == (old(app_state).needs_redraw || any_nav_key(
            *old(screen),
            keys@,
        )),
        same_but_redraw(&*final(app_state), &*old(app_state)),
{
    let ghost s0 = *screen;
    let ghost r0 = app_state.needs_redraw;
    let mut i: usize = 0;
    while i < keys.len()
        invariant
            i <= keys@.len(),
            *screen == nav_fold(s0, keys@.take(i as int)),
            app_state.needs_redraw == (r0 || any_nav_key(s0, keys@.take(i as int))),
            same_but_redraw(&*app_state, &*old(app_state)),
        decreases keys@.len() - i,
    {
        proof {
            assert(keys@.take(i + 1).drop_last() =~= keys@.take(i as int));
        }
        match navigation_target(*screen, &keys[i]) {
            Some(t) => {
                *screen = t;
                app_state.request_redraw();
            },
            None => {},
        }
        i = i + 1;
    }
    assert(keys@.take(keys@.len() as int) =~= keys@);
}

// ---------------------------------------------------------------------------
// Global keys
// ---------------------------------------------------------------------------

/// Image loaded by Ctrl+T when it exists.
pub const TEST_PREVIEW_PATH: &'static str = "outputs/test_sprite.png";

/// The flags that the global keys change.
pub struct GlobalFlags {
    pub quit: bool,
    pub redraw: bool,
    pub tab: int,
    pub test_preview: bool,
}

/// One global key: Ctrl+T shows the test image if it exists; without
/// Control, `q` quits except on the prompt screen, and `t` switches the
/// preview tab in debug mode.
pub open spec fn global_step(
    f: GlobalFlags,
    screen: Screen,
    debug_mode: bool,
    test_exists: bool,
    key: KeyEvent,
) -> GlobalFlags {
    if key.modifiers.control {
        if (key.code == KeyCode::Char('t') || key.code == KeyCode::Char('T')) && test_exists {
            GlobalFlags { test_preview: true, redraw: true, ..f }
        } else {
            f
        }
    } else if key.code == KeyCode::Char('q') || key.code == KeyCode::Char('Q') {
        if screen != Screen::Generation {
            GlobalFlags { quit: true, ..f }
        } else {
            f
        }
    } else if key.code == KeyCode::Char('t') || key.code == KeyCode::Char('T') {
        if debug_mode {
            GlobalFlags { tab: (f.tab + 1) % (PREVIEW_TABS as int), redraw: true, ..f }
        } else {
            f
        }
    } else {
        f
    }
}

/// The global keys: `q` or `Q` without Control quits, except on the prompt
/// screen where it is typed; `t` or `T` without Control moves to the next
/// preview tab, wrapping around, in debug mode only; Ctrl+T loads the test
/// preview when it exists. Nothing else changes the flags.
pub proof fn law_global_keys(f: GlobalFlags, screen: Screen, debug_mode: bool, test_exists: bool, key: KeyEvent)
    ensures
        ({
            let g = global_step(f, screen, debug_mode, test_exists, key);
            let q = key.code == KeyCode::Char('q') || key.code == KeyCode::Char('Q');
            let t = key.code == KeyCode::Char('t') || key.code == KeyCode::Char('T');
            &&& (q && !key.modifiers.control ==> g.quit == (f.quit || screen != Screen::Generation) && g.tab == f.tab
                && g.redraw == f.redraw)
            &&& (t && !key.modifiers.control && debug_mode ==> g.tab == (f.tab + 1) % (PREVIEW_TABS as int) && g.redraw
                && g.quit == f.quit)
            &&& (t && !key.modifiers.control && !debug_mode ==> g == f)
            &&& (t && key.modifiers.control ==> g.test_preview == (f.test_preview || test_exists) && g.quit == f.quit
                && g.tab == f.tab)
            &&& (!q && !t ==> g == f)
        }),
{
}

/// The flags after the keys `keys`, in order.
pub open spec fn global_fold(
    f: GlobalFlags,
    screen: Screen,
    debug_mode: bool,
    test_exists: bool,
    keys: Seq<KeyEvent>,
) -> GlobalFlags
    decreases keys.len(),
{
    if keys.len() == 0 {
        f
    } else {
        global_step(
            global_fold(f, screen, debug_mode, test_exists, keys.drop_last()),
            screen,
            debug_mode,
            test_exists,
            keys.last(),
        )
    }
}

/// The flags of an application state.
pub open spec fn flags_of(a: &AppState) -> GlobalFlags {
    GlobalFlags {
        quit: a.should_quit,
        redraw: a.needs_redraw,
        tab: a.preview_tab as int,
        test_preview: false,
    }
}

/// Handle the global keys. `test_preview_exists` tells whether the test
/// image exists on disk.
pub fn handle_keyboard_input(
    keys: &Vec<KeyEvent>,
    screen: Screen,
    app_state: &mut AppState,
    test_preview_exists: bool,
)
    requires
        old(app_state).wf(),
    ensures
        final(app_state).wf(),
        ({
            let f = global_fold(
                flags_of(&*old(app_state)),
                screen,
                old(app_state).debug_mode,
                test_preview_exists,
                keys@,
            );
            &&& final(app_state).should_quit == f.quit
            &&& final(app_state).needs_redraw == f.redraw
            &&& final(app_state).preview_tab == f.tab
            &&& (f.test_preview ==> (final(app_state).current_preview matches Some(p) && p@
                == TEST_PREVIEW_PATH@))
            &&& (!f.test_preview ==> final(app_state).current_preview == old(
                app_state,
            ).current_preview)
        }),
        final(app_state).debug_mode == old(app_state).debug_mode,
        final(app_state).frame_count == old(app_state).frame_count,
{
    let ghost f0 = flags_of(&*app_state);
    let ghost debug = app_state.debug_mode;
    let mut test_loaded = false;
    let mut i: usize = 0;
    while i < keys.len()
        invariant
            i <= keys@.len(),
            app_state.wf(),
            debug == app_state.debug_mode,
            debug == old(app_state).debug_mode,
            app_state.frame_count == old(app_state).frame_count,
            ({
                let f = global_fold(f0, screen, debug, test_preview_exists, keys@.take(i as int));
                &&& app_state.should_quit == f.quit
                &&& app_state.needs_redraw == f.redraw
                &&& app_state.preview_tab == f.tab
                &&& f.test_preview == test_loaded
                &&& (test_loaded ==> (app_state.current_preview matches Some(p) && p@
                    == TEST_PREVIEW_PATH@))
                &&& (!test_loaded ==> app_state.current_preview == old(app_state).current_preview)
            }),
        decreases keys@.len() - i,
    {
        proof {
            assert(keys@.take(i + 1).drop_last() =~= keys@.take(i as int));
        }
        let key = keys[i];
        let is_t = key.code == KeyCode::Char('t') || key.code == KeyCode::Char('T');
        if key.modifiers.control {
            if is_t && test_preview_exists {
                app_state.current_preview = Some(TEST_PREVIEW_PATH.to_owned());
                app_state.needs_redraw = true;
                test_loaded = true;
            }
        } else if key.code == KeyCode::Char('q') || key.code == KeyCode::Char('Q') {
            if screen != Screen::Generation {
                app_state.quit();
            }
        } else if is_t {
            if app_state.debug_mode {
                app_state.next_preview_tab();
            }
        }
        i = i + 1;
    }
    assert(keys@.take(keys@.len() as int) =~= keys@);
}

// ---------------------------------------------------------------------------
// Prompt editing
// ---------------------------------------------------------------------------

/// An edit of the prompt.
pub enum Edit {
    DeleteWord,
    DeleteToStart,
    Insert(char),
    Backspace,
    Delete,
    Left,
    Right,
    Home,
    End,
}

/// The edit a key makes: Ctrl+W and Ctrl+U delete the word before the
/// cursor and everything before it; other characters without Control are
/// typed; Backspace, Delete, the arrows, Home and End do what they say.
pub open spec fn key_edit(key: KeyEvent) -> Option<Edit> {
    let ctrl = key.modifiers.control;
    match key.code {
        KeyCode::Char(c) => if ctrl && (c == 'w' || c == 'W') {
            Some(Edit::DeleteWord)
        } else if ctrl && (c == 'u' || c == 'U') {
            Some(Edit::DeleteToStart)
        } else if !ctrl {
            Some(Edit::Insert(c))
        } else {
            None
        },
        KeyCode::Backspace => Some(Edit::Backspace),
        KeyCode::Delete => Some(Edit::Delete),
        KeyCode::Left => Some(Edit::Left),
        KeyCode::Right => Some(Edit::Right),
        KeyCode::Home => Some(Edit::Home),
        KeyCode::End => Some(Edit::End),
        _ => None,
    }
}

/// The text and cursor after an edit.
pub open spec fn apply_edit(t: Seq<char>, c: int, e: Edit) -> (Seq<char>, int) {
    match e {
        Edit::DeleteWord => {
            let w = word_start(t, c);
            (t.subrange(0, w) + t.subrange(c, t.len() as int), w)
        },
        Edit::DeleteToStart => (t.subrange(c, t.len() as int), 0),
        Edit::Insert(ch) => (t.insert(c, ch), c + 1),
        Edit::Backspace => if c > 0 {
            (t.remove(c - 1), c - 1)
        } else {
            (t, c)
        },
        Edit::Delete => if c < t.len() {
            (t.remove(c), c)
        } else {
            (t, c)
        },
        Edit::Left => (t, if c > 0 {
            c - 1
        } else {
            0
        }),
        Edit::Right => (t, if c < t.len() {
            c + 1
        } else {
            c
        }),
        Edit::Home => (t, 0),
        Edit::End => (t, t.len() as int),
    }
}

/// The text and cursor after the keys `keys`, in order.
pub open spec fn edit_fold(t: Seq<char>, c: int, keys: Seq<KeyEvent>) -> (Seq<char>, int)
    decreases keys.len(),
{
    if keys.len() == 0 {
        (t, c)
    } else {
        let (t1, c1) = edit_fold(t, c, keys.drop_last());
        match key_edit(keys.last()) {
            Some(e) => apply_edit(t1, c1, e),
            None => (t1, c1),
        }
    }
}

/// Whether any of `keys` edits the prompt.
pub open spec fn any_edit(keys: Seq<KeyEvent>) -> bool {
    exists|i: int| 0 <= i < keys.len() && #[trigger] key_edit(keys[i]) is Some
}

/// Edit the prompt with the keys of one frame, on the prompt screen only;
/// each edit asks for a redraw.
pub fn handle_text_input(
    keys: &Vec<KeyEvent>,
    screen: Screen,
    input: &mut InputBuffer,
    app_state: &mut AppState,
)
    requires
        old(input).wf(),
    ensures
        final(input).wf(),
        screen != Screen::Generation ==> *final(input) == *old(input) && *final(app_state) == *old(
            app_state,
        ),
        screen == Screen::Generation ==> (final(input).text(), final(input).cursor_at() as int)
            == edit_fold(old(input).text(), old(input).cursor_at() as int, keys@)
            && final(app_state).needs_redraw == (old(app_state).needs_redraw || any_edit(keys@)),
        same_but_redraw(&*final(app_state), &*old(app_state)),
{
    if screen != Screen::Generation {
        return;
    }
    let ghost t0 = input.text();
    let ghost c0 = input.cursor_at() as int;
    let ghost r0 = app_state.needs_redraw;
    let mut i: usize = 0;
    while i < keys.len()
        invariant
            i <= keys@.len(),
            input.wf(),
            (input.text(), input.cursor_at() as int) == edit_fold(t0, c0, keys@.take(i as int)),
            app_state.needs_redraw == (r0 || any_edit(keys@.take(i as int))),
            same_but_redraw(&*app_state, &*old(app_state)),
        decreases keys@.len() - i,
    {
        proof {
            assert(keys@.take(i + 1).drop_last() =~= keys@.take(i as int));
            assert(keys@.take(i + 1).last() == keys@[i as int]);
        }
        let key = keys[i];
        let ctrl = key.modifiers.control;
        let mut edited = true;
        let ghost pt = input.text();
        let ghost pc = input.cursor_at() as int;
        proof {
            input.lemma_cursor_in_text();
        }
        match key.code {
            KeyCode::Char(c) => {
                if ctrl && (c == 'w' || c == 'W') {
                    input.delete_word();
                    assert((input.text(), input.cursor_at() as int) == apply_edit(pt, pc, Edit::DeleteWord));
                } else if ctrl && (c == 'u' || c == 'U') {
                    input.delete_to_start();
                    assert((input.text(), input.cursor_at() as int) == apply_edit(pt, pc, Edit::DeleteToStart));
                } else if !ctrl {
                    input.insert(c);
                    assert((input.text(), input.cursor_at() as int) == apply_edit(pt, pc, Edit::Insert(c)));
                } else {
                    edited = false;
                }
            },
            KeyCode::Backspace => {
                input.backspace();
                assert((input.text(), input.cursor_at() as int) == apply_edit(pt, pc, Edit::Backspace));
            },
            KeyCode::Delete => {
                input.delete();
                assert((input.text(), input.cursor_at() as int) == apply_edit(pt, pc, Edit::Delete));
            },
            KeyCode::Left => {
                input.move_left();
                assert((input.text(), input.cursor_at() as int) == apply_edit(pt, pc, Edit::Left));
            },
            KeyCode::Right => {
                input.move_right();
                assert((input.text(), input.cursor_at() as int) == apply_edit(pt, pc, Edit::Right));
            },
            KeyCode::Home => {
                input.move_to_start();
                assert((input.text(), input.cursor_at() as int) == apply_edit(pt, pc, Edit::Home));
            },
            KeyCode::End => {
                input.move_to_end();
                assert((input.text(), input.cursor_at() as int) == apply_edit(pt, pc, Edit::End));
            },
            _ => {
                edited = false;
            },
        }
        if edited {
            app_state.request_redraw();
        }
        proof {
            assert(edited == (key_edit(keys@[i as int]) is Some));
            if edited {
                assert(key_edit(keys@.take(i + 1)[i as int]) is Some);
            } else {
                assert forall|k: int| 0 <= k < i + 1 && #[trigger] key_edit(keys@.take(i + 1)[k]) is Some
                    implies key_edit(keys@.take(i as int)[k]) is Some by {
                    assert(k < i);
                }
            }
            assert(any_edit(keys@.take(i as int)) ==> any_edit(keys@.take(i + 1))) by {
                if any_edit(keys@.take(i as int)) {
                    let k = choose|k: int| 0 <= k < i && #[trigger] key_edit(keys@.take(i as int)[k]) is Some;
                    assert(keys@.take(i + 1)[k] == keys@.take(i as int)[k]);
                }
            }
        }
        i = i + 1;
    }
    assert(keys@.take(keys@.len() as int) =~= keys@);
}

/// A prompt submitted for generation.
pub struct SubmitGenerationJob {
    pub prompt: String,
}

/// Some key of `keys` has the code `code`.
pub open spec fn presses(keys: Seq<KeyEvent>, code: KeyCode) -> bool {
    exists|i: int| 0 <= i < keys.len() && (#[trigger] keys[i]).code == code
}

/// Submit the prompt on Enter when it is not empty, and clear it; Esc clears
/// it. Only on the prompt screen; both ask for a redraw. Afterwards the
/// prompt is empty if Enter or Esc was pressed, and untouched otherwise.
pub fn handle_generation_input(
    keys: &Vec<KeyEvent>,
    screen: Screen,
    input: &mut InputBuffer,
    app_state: &mut AppState,
) -> (submitted: Vec<SubmitGenerationJob>)
    requires
        old(input).wf(),
    ensures
        final(input).wf(),
        screen != Screen::Generation ==> submitted@.len() == 0 && *final(input) == *old(input)
            && *final(app_state) == *old(app_state),
        screen == Screen::Generation ==> {
            let enter_first = exists|i: int|
                0 <= i < keys@.len() && keys@[i].code == KeyCode::Enter && forall|j: int|
                    0 <= j < i ==> #[trigger] keys@[j].code != KeyCode::Esc && keys@[j].code
                        != KeyCode::Enter;
            &&& submitted@.len() <= 1
            &&& (submitted@.len() == 1 <==> old(input).text().len() > 0 && enter_first)
            &&& (submitted@.len() == 1 ==> submitted@[0].prompt@ == old(input).text())
            &&& (presses(keys@, KeyCode::Enter) || presses(keys@, KeyCode::Esc)) ==> final(input).text().len() == 0
                && final(input).cursor_at() == 0
            &&& !(presses(keys@, KeyCode::Enter) || presses(keys@, KeyCode::Esc)) ==> *final(input) == *old(input)
            &&& final(app_state).needs_redraw == (old(app_state).needs_redraw || presses(keys@, KeyCode::Esc)
                || submitted@.len() == 1)
        },
        same_but_redraw(&*final(app_state), &*old(app_state)),
{
    let mut submitted: Vec<SubmitGenerationJob> = Vec::new();
    if screen != Screen::Generation {
        return submitted;
    }
    let ghost t0 = input.text();
    let mut i: usize = 0;
    while i < keys.len()
        invariant
            i <= keys@.len(),
            input.wf(),
            same_but_redraw(&*app_state, &*old(app_state)),
            submitted@.len() <= 1,
            submitted@.len() == 1 ==> submitted@[0].prompt@ == t0,
            // before the first Enter or Esc the prompt is untouched
            (forall|j: int| 0 <= j < i ==> #[trigger] keys@[j].code != KeyCode::Esc && keys@[j].code
                != KeyCode::Enter) ==> input.text() == t0 && submitted@.len() == 0,
            // once the prompt is cleared, nothing more is submitted
            !(forall|j: int| 0 <= j < i ==> #[trigger] keys@[j].code != KeyCode::Esc
                && keys@[j].code != KeyCode::Enter) ==> input.text().len() == 0,
            (submitted@.len() == 1 <==> t0.len() > 0 && exists|k: int|
                0 <= k < i && keys@[k].code == KeyCode::Enter && forall|j: int|
                    0 <= j < k ==> #[trigger] keys@[j].code != KeyCode::Esc && keys@[j].code
                        != KeyCode::Enter),
            (forall|j: int| 0 <= j < i ==> #[trigger] keys@[j].code != KeyCode::Esc && keys@[j].code
                != KeyCode::Enter) ==> *input == *old(input),
            !(forall|j: int| 0 <= j < i ==> #[trigger] keys@[j].code != KeyCode::Esc
                && keys@[j].code != KeyCode::Enter) ==> input.cursor_at() == 0,
            app_state.needs_redraw == (old(app_state).needs_redraw || presses(keys@.take(i as int), KeyCode::Esc)
                || submitted@.len() == 1),
        decreases keys@.len() - i,
    {
        let ghost clean_before = forall|j: int|
            0 <= j < i ==> #[trigger] keys@[j].code != KeyCode::Esc && keys@[j].code
                != KeyCode::Enter;
        match keys[i].code {
            KeyCode::Enter => {
                if !input.is_empty() {
                    submitted.push(SubmitGenerationJob { prompt: input.text_string() });
                    input.clear();
                    app_state.request_redraw();
                }
                proof {
                    if !clean_before {
                        let j = choose|j: int| 0 <= j < i && !(keys@[j].code != KeyCode::Esc
                            && keys@[j].code != KeyCode::Enter);
                        assert(!(keys@[j].code != KeyCode::Esc && keys@[j].code
                            != KeyCode::Enter));
                    }
                }
            },
            KeyCode::Esc => {
                input.clear();
                app_state.request_redraw();
            },
            _ => {},
        }
        proof {
            input.lemma_cursor_in_text();
            let before_keys = keys@.take(i as int);
            let after_keys = keys@.take(i + 1);
            assert(presses(after_keys, KeyCode::Esc) == (presses(before_keys, KeyCode::Esc)
                || keys@[i as int].code == KeyCode::Esc)) by {
                if presses(after_keys, KeyCode::Esc) {
                    let k = choose|k: int| 0 <= k < after_keys.len() && (#[trigger] after_keys[k]).code == KeyCode::Esc;
                    if k < i {
                        assert(before_keys[k] == after_keys[k]);
                    }
                }
                if presses(before_keys, KeyCode::Esc) {
                    let k = choose|k: int| 0 <= k < before_keys.len() && (#[trigger] before_keys[k]).code == KeyCode::Esc;
                    assert(before_keys[k] == after_keys[k]);
                }
                if keys@[i as int].code == KeyCode::Esc {
                    assert(after_keys[i as int] == keys@[i as int]);
                }
            }
            if clean_before && keys@[i as int].code != KeyCode::Esc && keys@[i as int].code
                != KeyCode::Enter {
                assert forall|j: int| 0 <= j < i + 1 implies #[trigger] keys@[j].code != KeyCode::Esc
                    && keys@[j].code != KeyCode::Enter by {}
            }
            if !clean_before {
                let j = choose|j: int| 0 <= j < i && !(keys@[j].code != KeyCode::Esc
                    && keys@[j].code != KeyCode::Enter);
                assert(!(keys@[j].code != KeyCode::Esc && keys@[j].code != KeyCode::Enter));
            }
        }
        i = i + 1;
    }
    proof {
        assert(keys@.take(keys@.len() as int) =~= keys@);
        if presses(keys@, KeyCode::Enter) || presses(keys@, KeyCode::Esc) {
            let k = choose|k: int| 0 <= k < keys@.len() && ((#[trigger] keys@[k]).code == KeyCode::Enter
                || keys@[k].code == KeyCode::Esc);
            assert(!(keys@[k].code != KeyCode::Esc && keys@[k].code != KeyCode::Enter));
        } else {
            assert forall|j: int| 0 <= j < keys@.len() implies #[trigger] keys@[j].code != KeyCode::Esc
                && keys@[j].code != KeyCode::Enter by {
                if keys@[j].code == KeyCode::Esc {
                    assert(presses(keys@, KeyCode::Esc));
                }
                if keys@[j].code == KeyCode::Enter {
                    assert(presses(keys@, KeyCode::Enter));
                }
            }
        }
    }
    submitted
}

// ---------------------------------------------------------------------------
// Gallery
// ---------------------------------------------------------------------------

/// What the gallery keys ask for.
#[derive(Debug, Clone, PartialEq)]
pub enum GalleryEvent {
    SelectNextImage,
    SelectPreviousImage,
    DeleteImage { image_path: String },
}

/// A gallery event with its path as characters.
pub enum GalleryEventView {
    Next,
    Previous,
    Delete(Seq<char>),
}

/// The view of a gallery event.
pub open spec fn gallery_event_view(e: GalleryEvent) -> GalleryEventView {
    match e {
        GalleryEvent::SelectNextImage => GalleryEventView::Next,
        GalleryEvent::SelectPreviousImage => GalleryEventView::Previous,
        GalleryEvent::DeleteImage { image_path } => GalleryEventView::Delete(image_path@),
    }
}

/// The views of gallery events.
pub open spec fn gallery_event_views(s: Seq<GalleryEvent>) -> Seq<GalleryEventView> {
    s.map_values(|e: GalleryEvent| gallery_event_view(e))
}

/// `count` moves, forward (`next`) or backward.
pub open spec fn repeated(next: bool, count: nat) -> Seq<GalleryEventView> {
    Seq::new(count, |i: int| if next { GalleryEventView::Next } else { GalleryEventView::Previous })
}

/// Images a page of the gallery moves by.
pub const GALLERY_PAGE: usize = 5;

/// The events of one gallery key: Up/`k` and Down/`j` move by one, `d`
/// deletes the selected image, Home and End move to the first and last
/// image, PageUp and PageDown move by a page.
pub open spec fn gallery_key_events(g: &GalleryState, key: KeyEvent) -> Seq<GalleryEventView> {
    let n = g.images@.len() as int;
    let sel = g.selected as int;
    match key.code {
        KeyCode::Up | KeyCode::Char('k') => repeated(false, 1),
        KeyCode::Down | KeyCode::Char('j') => repeated(true, 1),
        KeyCode::Char('d') | KeyCode::Char('D') => if n > 0 {
            seq![GalleryEventView::Delete(g.images@[sel]@)]
        } else {
            Seq::empty()
        },
        KeyCode::Home => repeated(false, sel as nat),
        KeyCode::End => repeated(true, (if n > sel + 1 {
            n - sel - 1
        } else {
            0
        }) as nat),
        KeyCode::PageUp => repeated(false, GALLERY_PAGE as nat),
        KeyCode::PageDown => repeated(true, GALLERY_PAGE as nat),
        _ => Seq::empty(),
    }
}

/// The events of the keys `keys`, in order.
pub open spec fn gallery_events(g: &GalleryState, keys: Seq<KeyEvent>) -> Seq<GalleryEventView>
    decreases keys.len(),
{
    if keys.len() == 0 {
        Seq::empty()
    } else {
        gallery_events(g, keys.drop_last()) + gallery_key_events(g, keys.last())
    }
}

/// One arrow key on the gallery screen asks for exactly one move: Up or
/// `k` one image back, Down or `j` one image forward.
pub proof fn law_gallery_arrow_keys(g: &GalleryState, key: KeyEvent)
    ensures
        (key.code == KeyCode::Up || key.code == KeyCode::Char('k')) ==> gallery_events(g, seq![key])
            == seq![GalleryEventView::Previous],
        (key.code == KeyCode::Down || key.code == KeyCode::Char('j')) ==> gallery_events(g, seq![key])
            == seq![GalleryEventView::Next],
{
    let ks = seq![key];
    assert(ks.drop_last() =~= Seq::<KeyEvent>::empty());
    assert(ks.last() == key);
    assert(gallery_events(g, Seq::<KeyEvent>::empty()) == Seq::<GalleryEventView>::empty());
    assert(gallery_events(g, ks) == gallery_events(g, ks.drop_last()) + gallery_key_events(g, key));
    assert(repeated(false, 1) =~= seq![GalleryEventView::Previous]);
    assert(repeated(true, 1) =~= seq![GalleryEventView::Next]);
    assert(Seq::<GalleryEventView>::empty() + seq![GalleryEventView::Previous] =~= seq![GalleryEventView::Previous]);
    assert(Seq::<GalleryEventView>::empty() + seq![GalleryEventView::Next] =~= seq![GalleryEventView::Next]);
}

/// The events of two runs of keys are the events of the first run followed
/// by those of the second.
pub proof fn law_gallery_events_append(g: &GalleryState, a: Seq<KeyEvent>, b: Seq<KeyEvent>)
    ensures
        gallery_events(g, a + b) == gallery_events(g, a) + gallery_events(g, b),
    decreases b.len(),
{
    if b.len() == 0 {
        assert(a + b =~= a);
        assert(gallery_events(g, a) + gallery_events(g, b) =~= gallery_events(g, a));
    } else {
        law_gallery_events_append(g, a, b.drop_last());
        assert((a + b).drop_last() =~= a + b.drop_last());
        assert((a + b).last() == b.last());
        assert(gallery_events(g, a + b) =~= gallery_events(g, a) + gallery_events(g, b));
    }
}

fn push_repeated(out: &mut Vec<GalleryEvent>, next: bool, count: usize)
    ensures
        gallery_event_views(final(out)@) == gallery_event_views(old(out)@) + repeated(
            next,
            count as nat,
        ),
{
    let ghost start = gallery_event_views(out@);
    let mut k: usize = 0;
    while k < count
        invariant
            k <= count,
            gallery_event_views(out@) == start + repeated(next, k as nat),
        decreases count - k,
    {
        let ghost prev = out@;
        if next {
            out.push(GalleryEvent::SelectNextImage);
        } else {
            out.push(GalleryEvent::SelectPreviousImage);
        }
        k = k + 1;
        proof {
            let v = if next { GalleryEventView::Next } else { GalleryEventView::Previous };
            assert(out@ == prev.push(out@[out@.len() - 1]));
            assert(gallery_event_views(out@) =~= gallery_event_views(prev).push(v));
            assert(repeated(next, k as nat) =~= repeated(next, (k - 1) as nat).push(v));
            assert(start + repeated(next, k as nat) =~= (start + repeated(next, (k - 1) as nat)).push(v));
        }
        assert(gallery_event_views(out@) =~= start + repeated(next, k as nat));
    }
}

/// The events asked for by the gallery keys of one frame, on the gallery
/// screen only.
pub fn handle_gallery_input(keys: &Vec<KeyEvent>, screen: Screen, gallery: &GalleryState) -> (events: Vec<GalleryEvent>)
    requires
        gallery.wf(),
    ensures
        screen != Screen::Gallery ==> events@.len() == 0,
        screen == Screen::Gallery ==> gallery_event_views(events@) == gallery_events(gallery, keys@),
{
    let mut events: Vec<GalleryEvent> = Vec::new();
    if screen != Screen::Gallery {
        return events;
    }
    let n = gallery.len();
    let sel = gallery.selected;
    let mut i: usize = 0;
    while i < keys.len()
        invariant
            i <= keys@.len(),
            gallery.wf(),
            n == gallery.images@.len(),
            sel == gallery.selected,
            gallery_event_views(events@) == gallery_events(gallery, keys@.take(i as int)),
        decreases keys@.len() - i,
    {
        proof {
            assert(keys@.take(i + 1).drop_last() =~= keys@.take(i as int));
        }
        let ghost before = gallery_event_views(events@);
        match keys[i].code {
            KeyCode::Up | KeyCode::Char('k') => push_repeated(&mut events, false, 1),
            KeyCode::Down | KeyCode::Char('j') => push_repeated(&mut events, true, 1),
            KeyCode::Char('d') | KeyCode::Char('D') => {
                if let Some(path) = gallery.current_image() {
                    events.push(GalleryEvent::DeleteImage { image_path: path.clone() });
                }
            },
            KeyCode::Home => push_repeated(&mut events, false, sel),
            KeyCode::End => {
                let remaining = n.saturating_sub(sel + 1);
                push_repeated(&mut events, true, remaining);
            },
            KeyCode::PageUp => push_repeated(&mut events, false, GALLERY_PAGE),
            KeyCode::PageDown => push_repeated(&mut events, true, GALLERY_PAGE),
            _ => {},
        }
        assert(gallery_event_views(events@) =~= before + gallery_key_events(gallery, keys@[i as int]));
        i = i + 1;
    }
    assert(keys@.take(keys@.len() as int) =~= keys@);
    events
}

// ---------------------------------------------------------------------------
// Job queue
// ---------------------------------------------------------------------------

/// `order` lists the jobs by submission time, ties in list order (what a
/// stable sort by submission time gives).
pub open spec fn is_queue_order(keys: Seq<u64>, order: Seq<usize>) -> bool {
    is_stable_order(keys, order)
}

/// The submission times of jobs.
pub open spec fn submission_times(jobs: Seq<Job>) -> Seq<u64> {
    jobs.map_values(|j: Job| j.submitted_at)
}

/// The jobs in the order the queue shows them: by submission time, ties in
/// list order.
pub fn queue_order(jobs: &Vec<Job>) -> (order: Vec<usize>)
    ensures
        is_queue_order(submission_times(jobs@), order@),
{
    let mut times: Vec<u64> = Vec::new();
    let mut i: usize = 0;
    while i < jobs.len()
        invariant
            i <= jobs@.len(),
            times@ == submission_times(jobs@).take(i as int),
        decreases jobs@.len() - i,
    {
        times.push(jobs[i].submitted_at);
        i = i + 1;
        assert(times@ =~= submission_times(jobs@).take(i as int));
    }
    assert(times@ =~= submission_times(jobs@));
    stable_order(&times)
}

/// A request to cancel a job.
pub struct CancelJob {
    pub job_id: String,
}

/// What a queue key does to the selection.
pub open spec fn queue_select_step(q: QueueState, key: KeyEvent) -> QueueState {
    match key.code {
        KeyCode::Up | KeyCode::Char('k') => QueueState {
            selected: if q.selected > 0 {
                (q.selected - 1) as usize
            } else {
                0
            },
            ..q
        },
        KeyCode::Down | KeyCode::Char('j') => QueueState {
            selected: if q.selected + 1 < q.total {
                (q.selected + 1) as usize
            } else {
                q.selected
            },
            ..q
        },
        KeyCode::Home => QueueState { selected: 0, ..q },
        KeyCode::End => QueueState {
            selected: if q.total > 0 {
                (q.total - 1) as usize
            } else {
                0
            },
            ..q
        },
        _ => q,
    }
}

/// Up or `k` moves the queue selection one job back, stopping at the first;
/// Down or `j` one job forward, stopping at the last; Home selects the
/// first job and End the last. A selection within the queue stays within
/// it.
pub proof fn law_queue_selection_keys(q: QueueState, key: KeyEvent)
    ensures
        (key.code == KeyCode::Up || key.code == KeyCode::Char('k')) ==> queue_select_step(q, key).selected
            == (if q.selected > 0 { q.selected - 1 } else { 0 }),
        (key.code == KeyCode::Down || key.code == KeyCode::Char('j')) ==> queue_select_step(q, key).selected
            == (if q.selected + 1 < q.total { q.selected + 1 } else { q.selected as int }),
        key.code == KeyCode::Home ==> queue_select_step(q, key).selected == 0,
        key.code == KeyCode::End && q.total > 0 ==> queue_select_step(q, key).selected == q.total - 1,
        queue_select_step(q, key).total == q.total,
        q.selected < q.total ==> queue_select_step(q, key).selected < q.total,
{
}

/// Whether a key is a cancel key.
pub open spec fn is_cancel_key(key: KeyEvent) -> bool {
    key.code == KeyCode::Char('c') || key.code == KeyCode::Char('C')
}

/// Whether a key changes the queue selection.
pub open spec fn is_move_key(key: KeyEvent) -> bool {
    key.code == KeyCode::Up || key.code == KeyCode::Char('k') || key.code == KeyCode::Down
        || key.code == KeyCode::Char('j') || key.code == KeyCode::Home || key.code
        == KeyCode::End
}

/// The selection after the keys `keys`, in order.
pub open spec fn queue_fold(q: QueueState, keys: Seq<KeyEvent>) -> QueueState
    decreases keys.len(),
{
    if keys.len() == 0 {
        q
    } else {
        queue_select_step(queue_fold(q, keys.drop_last()), keys.last())
    }
}

/// The job a cancel key names, with selection `sel`: the selected job in
/// queue order, if it exists and is active.
pub open spec fn cancel_target(jobs: Seq<Job>, order: Seq<usize>, sel: int) -> Option<Seq<char>> {
    if 0 <= sel < order.len() && status_active(jobs[order[sel] as int].status) {
        Some(jobs[order[sel] as int].id@)
    } else {
        None
    }
}

/// The ids of the jobs cancelled by the keys `keys`, in order.
pub open spec fn queue_cancels(
    jobs: Seq<Job>,
    order: Seq<usize>,
    q: QueueState,
    keys: Seq<KeyEvent>,
) -> Seq<Seq<char>>
    decreases keys.len(),
{
    if keys.len() == 0 {
        Seq::empty()
    } else {
        let before = queue_cancels(jobs, order, q, keys.drop_last());
        let sel = queue_fold(q, keys.drop_last()).selected as int;
        if is_cancel_key(keys.last()) && cancel_target(jobs, order, sel) is Some {
            before.push(cancel_target(jobs, order, sel)->0)
        } else {
            before
        }
    }
}

/// Whether a key of `keys` asks for a redraw: a move key, or a cancel key
/// that names an active job.
pub open spec fn queue_redraws(
    jobs: Seq<Job>,
    order: Seq<usize>,
    q: QueueState,
    keys: Seq<KeyEvent>,
) -> bool
    decreases keys.len(),
{
    if keys.len() == 0 {
        false
    } else {
        let sel = queue_fold(q, keys.drop_last()).selected as int;
        queue_redraws(jobs, order, q, keys.drop_last()) || is_move_key(keys.last()) || (
        is_cancel_key(keys.last()) && cancel_target(jobs, order, sel) is Some)
    }
}

/// The views of cancel requests.
pub open spec fn cancel_ids(s: Seq<CancelJob>) -> Seq<Seq<char>> {
    s.map_values(|c: CancelJob| c.job_id@)
}

/// Handle the queue keys of one frame, on the queue screen only: move the
/// selection, and cancel the selected job (in queue order) if it is
/// active.
pub fn handle_queue_input(
    keys: &Vec<KeyEvent>,
    screen: Screen,
    queue_state: &mut QueueState,
    app_state: &mut AppState,
    jobs: &Vec<Job>,
) -> (cancels: Vec<CancelJob>)
    requires
        old(queue_state).wf(),
    ensures
        final(queue_state).wf(),
        screen != Screen::Queue ==> cancels@.len() == 0 && *final(queue_state) == *old(
            queue_state,
        ) && *final(app_state) == *old(app_state),
        screen == Screen::Queue ==> exists|order: Seq<usize>|
            #![trigger is_queue_order(submission_times(jobs@), order)]
            is_queue_order(submission_times(jobs@), order) && *final(queue_state) == queue_fold(
                *old(queue_state),
                keys@,
            ) && cancel_ids(cancels@) == queue_cancels(jobs@, order, *old(queue_state), keys@)
                && final(app_state).needs_redraw == (old(app_state).needs_redraw || queue_redraws(
                jobs@,
                order,
                *old(queue_state),
                keys@,
            )),
        same_but_redraw(&*final(app_state), &*old(app_state)),
{
    let mut cancels: Vec<CancelJob> = Vec::new();
    if screen != Screen::Queue {
        return cancels;
    }
    let order = queue_order(jobs);
    let ghost q0 = *queue_state;
    let ghost r0 = app_state.needs_redraw;
    let mut i: usize = 0;
    while i < keys.len()
        invariant
            i <= keys@.len(),
            is_queue_order(submission_times(jobs@), order@),
            queue_state.wf(),
            q0.wf(),
            *queue_state == queue_fold(q0, keys@.take(i as int)),
            cancel_ids(cancels@) == queue_cancels(jobs@, order@, q0, keys@.take(i as int)),
            app_state.needs_redraw == (r0 || queue_redraws(jobs@, order@, q0, keys@.take(i as int))),
            same_but_redraw(&*app_state, &*old(app_state)),
        decreases keys@.len() - i,
    {
        proof {
            assert(keys@.take(i + 1).drop_last() =~= keys@.take(i as int));
        }
        let key = keys[i];
        let ghost before = cancel_ids(cancels@);
        match key.code {
            KeyCode::Up | KeyCode::Char('k') => {
                queue_state.select_previous();
                app_state.request_redraw();
            },
            KeyCode::Down | KeyCode::Char('j') => {
                queue_state.select_next();
                app_state.request_redraw();
            },
            KeyCode::Home => {
                queue_state.select_first();
                app_state.request_redraw();
            },
            KeyCode::End => {
                queue_state.select_last();
                app_state.request_redraw();
            },
            KeyCode::Char('c') | KeyCode::Char('C') => {
                let sel = queue_state.selected;
                if sel < order.len() {
                    let job = &jobs[order[sel]];
                    if job.is_active() {
                        cancels.push(CancelJob { job_id: job.id.clone() });
                        app_state.request_redraw();
                        assert(cancel_ids(cancels@) =~= before.push(job.id@));
                    }
                }
            },
            _ => {},
        }
        i = i + 1;
    }
    assert(keys@.take(keys@.len() as int) =~= keys@);
    cancels
}

} // verus!
