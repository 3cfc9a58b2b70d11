//! Keys of the model comparison screen.
//!
//! The screen compares two models side by side (dual mode) or several in a
//! list (multi mode), and has a model browser. A key becomes one command
//! for the comparison state, decided from the state's flags.

use vstd::prelude::*;
use crate::keys::{KeyCode, KeyEvent};
use crate::text::{decimal, push_decimal};

verus! {

/// Layout of the comparison screen.
#[derive(Debug, Clone, Copy, PartialEq, Eq, Structural)]
pub enum ComparisonMode {
    /// Two models side by side.
    Dual,
    /// Several models in a list.
    Multi,
}

/// What the key handling reads of the comparison state.
#[derive(Debug, Clone, Copy, PartialEq, Eq, Structural)]
pub struct ComparisonFlags {
    pub browsing_models: bool,
    pub mode: ComparisonMode,
    /// Whether models are available to choose from.
    pub has_available_models: bool,
    /// Whether both panes have a model and the prompt is set.
    pub can_run: bool,
    pub is_running: bool,
    pub prompt_empty: bool,
    /// Number of models in the multi-mode list.
    pub models_len: usize,
}

/// A change to the comparison state.
#[derive(Debug, Clone, PartialEq)]
pub enum ComparisonCommand {
    /// Switch between the left and right pane.
    TogglePane,
    /// Open the model browser.
    OpenBrowser,
    /// Close the model browser.
    CloseBrowser,
    /// Move to the next available model.
    NextAvailable,
    /// Move to the previous available model.
    PreviousAvailable,
    /// Put the highlighted available model in the selected pane.
    SelectCurrent,
    /// Move to the next available model and put it in the selected pane.
    NextAndSelect,
    /// Start a side-by-side comparison.
    StartDual,
    /// Clear the results.
    ResetResults,
    /// Stop a running comparison.
    Stop,
    /// Select the previous model of the list.
    Previous,
    /// Select the next model of the list.
    Next,
    /// Add a model with this name to the list.
    AddModel(String),
    /// Remove the selected model from the list.
    RemoveSelected,
    /// Start a comparison of the listed models.
    StartMulti,
    /// Empty the list and select its start.
    ClearModels,
    /// Nothing to do.
    Nothing,
}

/// A command with its text as characters.
pub enum CommandView {
    TogglePane,
    OpenBrowser,
    CloseBrowser,
    NextAvailable,
    PreviousAvailable,
    SelectCurrent,
    NextAndSelect,
    StartDual,
    ResetResults,
    Stop,
    Previous,
    Next,
    AddModel(Seq<char>),
    RemoveSelected,
    StartMulti,
    ClearModels,
    Nothing,
}

/// The view of a command.
pub open spec fn command_view(c: ComparisonCommand) -> CommandView {
    match c {
        ComparisonCommand::TogglePane => CommandView::TogglePane,
        ComparisonCommand::OpenBrowser => CommandView::OpenBrowser,
        ComparisonCommand::CloseBrowser => CommandView::CloseBrowser,
        ComparisonCommand::NextAvailable => CommandView::NextAvailable,
        ComparisonCommand::PreviousAvailable => CommandView::PreviousAvailable,
        ComparisonCommand::SelectCurrent => CommandView::SelectCurrent,
        ComparisonCommand::NextAndSelect => CommandView::NextAndSelect,
        ComparisonCommand::StartDual => CommandView::StartDual,
        ComparisonCommand::ResetResults => CommandView::ResetResults,
        ComparisonCommand::Stop => CommandView::Stop,
        ComparisonCommand::Previous => CommandView::Previous,
        ComparisonCommand::Next => CommandView::Next,
        ComparisonCommand::AddModel(n) => CommandView::AddModel(n@),
        ComparisonCommand::RemoveSelected => CommandView::RemoveSelected,
        ComparisonCommand::StartMulti => CommandView::StartMulti,
        ComparisonCommand::ClearModels => CommandView::ClearModels,
        ComparisonCommand::Nothing => CommandView::Nothing,
    }
}

/// The model browser: Up and Down move, Enter chooses, Esc closes.
pub open spec fn browser_command(code: KeyCode) -> CommandView {
    match code {
        KeyCode::Up => CommandView::PreviousAvailable,
        KeyCode::Down => CommandView::NextAvailable,
        KeyCode::Enter => CommandView::SelectCurrent,
        KeyCode::Esc => CommandView::CloseBrowser,
        _ => CommandView::Nothing,
    }
}

/// Dual mode: Tab switches pane, `m`/`a` open the browser, `d` takes the
/// next model, Enter starts when it can and nothing runs, `r`/`c` clear
/// results, Esc stops a running comparison, Up and Down move through the
/// available models.
pub open spec fn dual_command(f: ComparisonFlags, code: KeyCode) -> CommandView {
    match code {
        KeyCode::Tab => CommandView::TogglePane,
        KeyCode::Char('m') | KeyCode::Char('M') | KeyCode::Char('a') | KeyCode::Char('A') => CommandView::OpenBrowser,
        KeyCode::Char('d') | KeyCode::Char('D') => if f.has_available_models {
            CommandView::NextAndSelect
        } else {
            CommandView::Nothing
        },
        KeyCode::Enter => if f.can_run && !f.is_running {
            CommandView::StartDual
        } else {
            CommandView::Nothing
        },
        KeyCode::Char('r') | KeyCode::Char('R') | KeyCode::Char('c') | KeyCode::Char('C') => CommandView::ResetResults,
        KeyCode::Esc => if f.is_running {
            CommandView::Stop
        } else {
            CommandView::Nothing
        },
        KeyCode::Up => if f.has_available_models {
            CommandView::PreviousAvailable
        } else {
            CommandView::Nothing
        },
        KeyCode::Down => if f.has_available_models {
            CommandView::NextAvailable
        } else {
            CommandView::Nothing
        },
        _ => CommandView::Nothing,
    }
}

/// Multi mode: Left and Right move, `a` adds "model-N" (N one more than
/// the models listed), `d`/Delete remove, Enter starts when models and a
/// prompt are set, Esc stops a running comparison, `c` empties the list.
pub open spec fn multi_command(f: ComparisonFlags, code: KeyCode) -> CommandView {
    match code {
        KeyCode::Left => CommandView::Previous,
        KeyCode::Right => CommandView::Next,
        KeyCode::Char('a') | KeyCode::Char('A') => CommandView::AddModel(
            "model-"@ + decimal((f.models_len + 1) as nat),
        ),
        KeyCode::Char('d') | KeyCode::Char('D') | KeyCode::Delete => CommandView::RemoveSelected,
        KeyCode::Enter => if f.models_len > 0 && !f.prompt_empty {
            CommandView::StartMulti
        } else {
            CommandView::Nothing
        },
        KeyCode::Esc => if f.is_running {
            CommandView::Stop
        } else {
            CommandView::Nothing
        },
        KeyCode::Char('c') | KeyCode::Char('C') => CommandView::ClearModels,
        _ => CommandView::Nothing,
    }
}

/// The command of a key: the browser takes keys while open; otherwise the
/// mode decides.
pub open spec fn spec_comparison_command(f: ComparisonFlags, key: KeyEvent) -> CommandView {
    if f.browsing_models {
        browser_command(key.code)
    } else {
        match f.mode {
            ComparisonMode::Dual => dual_command(f, key.code),
            ComparisonMode::Multi => multi_command(f, key.code),
        }
    }
}

/// The command a key gives on the comparison screen.
pub fn comparison_command(f: &ComparisonFlags, key: &KeyEvent) -> (c: ComparisonCommand)
    requires
        f.models_len < usize::MAX,
    ensures
        command_view(c) == spec_comparison_command(*f, *key),
{
    if f.browsing_models {
        return match key.code {
            KeyCode::Up => ComparisonCommand::PreviousAvailable,
            KeyCode::Down => ComparisonCommand::NextAvailable,
            KeyCode::Enter => ComparisonCommand::SelectCurrent,
            KeyCode::Esc => ComparisonCommand::CloseBrowser,
            _ => ComparisonCommand::Nothing,
        };
    }
    match f.mode {
        ComparisonMode::Dual => match key.code {
            KeyCode::Tab => ComparisonCommand::TogglePane,
            KeyCode::Char('m') | KeyCode::Char('M') | KeyCode::Char('a') | KeyCode::Char('A') => ComparisonCommand::OpenBrowser,
            KeyCode::Char('d') | KeyCode::Char('D') => if f.has_available_models {
                ComparisonCommand::NextAndSelect
            } else {
                ComparisonCommand::Nothing
            },
            KeyCode::Enter => if f.can_run && !f.is_running {
                ComparisonCommand::StartDual
            } else {
                ComparisonCommand::Nothing
            },
            KeyCode::Char('r') | KeyCode::Char('R') | KeyCode::Char('c') | KeyCode::Char('C') => ComparisonCommand::ResetResults,
            KeyCode::Esc => if f.is_running {
                ComparisonCommand::Stop
            } else {
                ComparisonCommand::Nothing
            },
            KeyCode::Up => if f.has_available_models {
                ComparisonCommand::PreviousAvailable
            } else {
                ComparisonCommand::Nothing
            },
            KeyCode::Down => if f.has_available_models {
                ComparisonCommand::NextAvailable
            } else {
                ComparisonCommand::Nothing
            },
            _ => ComparisonCommand::Nothing,
        },
        ComparisonMode::Multi => match key.code {
            KeyCode::Left => ComparisonCommand::Previous,
            KeyCode::Right => ComparisonCommand::Next,
            KeyCode::Char('a') | KeyCode::Char('A') => {
                let mut name = String::from_str("model-");
                push_decimal(&mut name, (f.models_len + 1) as u128);
                ComparisonCommand::AddModel(name)
            },
            KeyCode::Char('d') | KeyCode::Char('D') | KeyCode::Delete => ComparisonCommand::RemoveSelected,
            KeyCode::Enter => if f.models_len > 0 && !f.prompt_empty {
                ComparisonCommand::StartMulti
            } else {
                ComparisonCommand::Nothing
            },
            KeyCode::Esc => if f.is_running {
                ComparisonCommand::Stop
            } else {
                ComparisonCommand::Nothing
            },
            KeyCode::Char('c') | KeyCode::Char('C') => ComparisonCommand::ClearModels,
            _ => ComparisonCommand::Nothing,
        },
    }
}

} // verus!
