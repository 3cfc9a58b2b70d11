//! Screens of the interface and the tracking of screen changes for Sixel cleanup.

use vstd::prelude::*;

verus! {

/// A screen of the interface, in tab order.
#[derive(Debug, Clone, Copy, PartialEq, Eq, Hash, Structural)]
pub enum Screen {
    Generation,
    Comparison,
    Queue,
    Gallery,
    Models,
    Monitor,
    Settings,
    Help,
}

/// Position of a screen in tab order (0-based).
pub open spec fn screen_index(s: Screen) -> int {
    match s {
        Screen::Generation => 0,
        Screen::Comparison => 1,
        Screen::Queue => 2,
        Screen::Gallery => 3,
        Screen::Models => 4,
        Screen::Monitor => 5,
        Screen::Settings => 6,
        Screen::Help => 7,
    }
}

/// The screen at a position of the tab order (positions taken modulo 8).
pub open spec fn screen_at(i: int) -> Screen {
    let k = i % 8;
    if k == 0 { Screen::Generation }
    else if k == 1 { Screen::Comparison }
    else if k == 2 { Screen::Queue }
    else if k == 3 { Screen::Gallery }
    else if k == 4 { Screen::Models }
    else if k == 5 { Screen::Monitor }
    else if k == 6 { Screen::Settings }
    else { Screen::Help }
}

impl Screen {
    /// The next screen in tab order, wrapping from the last to the first.
    pub fn next(self) -> (r: Screen)
        ensures
            r == screen_at(screen_index(self) + 1),
    {
        match self {
            Screen::Generation => Screen::Comparison,
            Screen::Comparison => Screen::Queue,
            Screen::Queue => Screen::Gallery,
            Screen::Gallery => Screen::Models,
            Screen::Models => Screen::Monitor,
            Screen::Monitor => Screen::Settings,
            Screen::Settings => Screen::Help,
            Screen::Help => Screen::Generation,
        }
    }

    /// The previous screen in tab order, wrapping from the first to the last.
    pub fn previous(self) -> (r: Screen)
        ensures
            r == screen_at(screen_index(self) + 7),
    {
        match self {
            Screen::Generation => Screen::Help,
            Screen::Comparison => Screen::Generation,
            Screen::Queue => Screen::Comparison,
            Screen::Gallery => Screen::Queue,
            Screen::Models => Screen::Gallery,
            Screen::Monitor => Screen::Models,
            Screen::Settings => Screen::Monitor,
            Screen::Help => Screen::Settings,
        }
    }
}

impl Default for Screen {
    fn default() -> (r: Screen)
        ensures
            r == Screen::Generation,
    {
        Screen::Generation
    }
}

/// Going to the next screen and then to the previous one returns to where
/// one started, and the other way round.
pub proof fn law_next_previous_inverse(s: Screen)
    ensures
        screen_at(screen_index(screen_at(screen_index(s) + 1)) + 7) == s,
        screen_at(screen_index(screen_at(screen_index(s) + 7)) + 1) == s,
{
}

/// Eight tab steps bring every screen back to itself.
pub proof fn law_tab_cycle(s: Screen)
    ensures
        screen_at(screen_index(s) + 8) == s,
{
}

/// The last screen that was drawn, used to clear Sixel graphics when the
/// screen changes.
#[derive(Debug, Clone, Copy, Default)]
pub struct SixelRenderState {
    /// Last screen that was active.
    pub last_screen: Option<Screen>,
}

impl SixelRenderState {
    /// Remember `screen` as the last screen.
    pub fn update_screen(&mut self, screen: Screen)
        ensures
            final(self).last_screen == Some(screen),
    {
        self.last_screen = Some(screen);
    }

    /// Note that `current` is being shown; the result says whether the
    /// screen changed since the last one noted, so that Sixel graphics must
    /// be cleared. The first screen noted is no change.
    pub fn observe_screen(&mut self, current: Screen) -> (changed: bool)
        ensures
            changed == (old(self).last_screen matches Some(last) && last != current),
            final(self).last_screen == Some(current),
    {
        let changed = match self.last_screen {
            Some(last) => last != current,
            None => false,
        };
        self.update_screen(current);
        changed
    }
}

} // verus!
