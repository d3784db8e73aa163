//! The decisions of the main loop: what each event asks the caller to do.

use crate::cli::{Config, ConfigModel};
use crate::input::{key_step, InputAction, InputModel, InputState, Key};
use vstd::prelude::*;

verus! {

/// Something that the main loop waits for.
#[derive(Debug, Clone, Copy, PartialEq, Eq, Structural)]
pub enum AppEvent {
    /// Files in the log directory changed.
    FilesChanged,
    /// A key was pressed.
    Key(Key),
}

/// What the caller does next.
#[derive(Debug, Clone, Copy, PartialEq, Eq, Structural)]
pub enum LoopAction {
    /// Scan the directory for the current group again, follow it, and show new lines.
    Rescan,
    /// Follow the group chosen at startup again, and show new lines.
    ReconcileFixed,
    /// Wait for the next event.
    Continue,
    /// Stop.
    Quit,
}

/// Why following cannot start.
#[derive(Debug, Clone, Copy, PartialEq, Eq, Structural)]
pub enum StartError {
    /// No log file was found and new files are not watched for.
    NoLogFiles,
}

/// Whether following can start with a group of `group_len` files: not when there are none
/// and no new files will be added.
pub fn check_initial_group(group_len: usize, config: &Config) -> (r: Result<(), StartError>)
    ensures
        r == (if group_len == 0 && !config.watch_new_files {
            Err(StartError::NoLogFiles)
        } else {
            Ok::<(), StartError>(())
        }),
{
    if group_len == 0 && !config.watch_new_files {
        Err(StartError::NoLogFiles)
    } else {
        Ok(())
    }
}

/// What an event asks for. A change of files asks for a new scan when new files are
/// watched for, and for the startup group otherwise; a key is handled as [`key_step`]
/// says, and quits when the key does.
pub open spec fn event_action(event: AppEvent, s: InputModel, c: ConfigModel) -> LoopAction {
    match event {
        AppEvent::FilesChanged => if c.watch_new_files {
            LoopAction::Rescan
        } else {
            LoopAction::ReconcileFixed
        },
        AppEvent::Key(k) => if key_step(s, k, c).action == InputAction::Quit {
            LoopAction::Quit
        } else {
            LoopAction::Continue
        },
    }
}

/// Handles one event of the main loop, appending what a key shows to `out`.
pub fn handle_event(event: AppEvent, input: &mut InputState, config: &mut Config, out: &mut String) -> (r: LoopAction)
    ensures
        r == event_action(event, old(input)@, old(config)@),
        match event {
            AppEvent::FilesChanged => final(input)@ == old(input)@ && final(config)@ == old(config)@
                && final(out)@ == old(out)@,
            AppEvent::Key(k) => final(input)@ == key_step(old(input)@, k, old(config)@).state
                && final(config)@ == key_step(old(input)@, k, old(config)@).config
                && final(out)@ == old(out)@ + key_step(old(input)@, k, old(config)@).output,
        },
{
    match event {
        AppEvent::FilesChanged => {
            if config.watch_new_files {
                LoopAction::Rescan
            } else {
                LoopAction::ReconcileFixed
            }
        },
        AppEvent::Key(k) => {
            let action = input.handle_key(k, config, out);
            match action {
                InputAction::Quit => LoopAction::Quit,
                InputAction::Continue => LoopAction::Continue,
            }
        },
    }
}

} // verus!
