//! Keys of the models screen.

use vstd::prelude::*;
use crate::keys::{KeyCode, KeyEvent};

verus! {

/// Models a page of the models list moves by.
pub const MODELS_PAGE: usize = 10;

/// A change to the models list.
#[derive(Debug, Clone, Copy, PartialEq, Eq, Structural)]
pub enum ModelsCommand {
    Next,
    Previous,
    First,
    /// Select the last model (nothing when there are none).
    Last,
    ToggleActive,
    Download,
    Delete,
    ToggleMetadata,
}

/// The commands of a key on the models screen: Down/`j` and Up/`k` move by
/// one, PageDown and PageUp by a page, Home and End to the ends, Enter
/// toggles the active model, `d` downloads, Shift+Delete deletes, and `i`
/// or Space toggles the details.
pub open spec fn spec_models_commands(key: KeyEvent) -> Seq<ModelsCommand> {
    match key.code {
        KeyCode::Down | KeyCode::Char('j') => seq![ModelsCommand::Next],
        KeyCode::Up | KeyCode::Char('k') => seq![ModelsCommand::Previous],
        KeyCode::PageDown => Seq::new(MODELS_PAGE as nat, |i: int| ModelsCommand::Next),
        KeyCode::PageUp => Seq::new(MODELS_PAGE as nat, |i: int| ModelsCommand::Previous),
        KeyCode::Home => seq![ModelsCommand::First],
        KeyCode::End => seq![ModelsCommand::Last],
        KeyCode::Enter => seq![ModelsCommand::ToggleActive],
        KeyCode::Char('d') | KeyCode::Char('D') => seq![ModelsCommand::Download],
        KeyCode::Delete => if key.modifiers.shift {
            seq![ModelsCommand::Delete]
        } else {
            Seq::empty()
        },
        KeyCode::Char('i') | KeyCode::Char('I') | KeyCode::Char(' ') => seq![ModelsCommand::ToggleMetadata],
        _ => Seq::empty(),
    }
}

/// The commands of a key on the models screen.
pub fn models_commands(key: &KeyEvent) -> (cmds: Vec<ModelsCommand>)
    ensures
        cmds@ == spec_models_commands(*key),
{
    let mut cmds: Vec<ModelsCommand> = Vec::new();
    match key.code {
        KeyCode::Down | KeyCode::Char('j') => cmds.push(ModelsCommand::Next),
        KeyCode::Up | KeyCode::Char('k') => cmds.push(ModelsCommand::Previous),
        KeyCode::PageDown | KeyCode::PageUp => {
            let c = if key.code == KeyCode::PageDown { ModelsCommand::Next } else { ModelsCommand::Previous };
            let mut i: usize = 0;
            while i < MODELS_PAGE
                invariant
                    i <= MODELS_PAGE,
                    cmds@ == Seq::new(i as nat, |k: int| c),
                decreases MODELS_PAGE - i,
            {
                cmds.push(c);
                i = i + 1;
                assert(cmds@ =~= Seq::new(i as nat, |k: int| c));
            }
        },
        KeyCode::Home => cmds.push(ModelsCommand::First),
        KeyCode::End => cmds.push(ModelsCommand::Last),
        KeyCode::Enter => cmds.push(ModelsCommand::ToggleActive),
        KeyCode::Char('d') | KeyCode::Char('D') => cmds.push(ModelsCommand::Download),
        KeyCode::Delete => {
            if key.modifiers.shift {
                cmds.push(ModelsCommand::Delete);
            }
        },
        KeyCode::Char('i') | KeyCode::Char('I') | KeyCode::Char(' ') => cmds.push(ModelsCommand::ToggleMetadata),
        _ => {},
    }
    proof {
        assert(cmds@ =~= spec_models_commands(*key));
    }
    cmds
}

} // verus!
