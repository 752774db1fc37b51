//! Taking over the terminal and giving it back.

use vstd::prelude::*;

use crate::host::IoError;

verus! {

/// A step in which the terminal is given back.
#[derive(Clone, Copy, Debug, PartialEq, Eq, Structural)]
pub enum CleanupStep {
    DisableMouseCapture,
    ShowCursor,
    LeaveAlternateScreen,
    DisableRawMode,
}

/// A terminal that can be given back.
pub trait TerminalCleanup: Sized {
    /// Whether the terminal writes down the steps that are attempted on it.
    open spec fn records(&self) -> bool {
        false
    }

    /// The steps that were attempted so far, where they are written down.
    open spec fn attempted(&self) -> Seq<CleanupStep> {
        Seq::empty()
    }

    fn disable_mouse_capture(&mut self) -> (r: Result<(), IoError>)
        ensures
            old(self).records() ==> final(self).records() && final(self).attempted() == old(
                self,
            ).attempted().push(CleanupStep::DisableMouseCapture),
    ;

    fn show_cursor(&mut self) -> (r: Result<(), IoError>)
        ensures
            old(self).records() ==> final(self).records() && final(self).attempted() == old(
                self,
            ).attempted().push(CleanupStep::ShowCursor),
    ;

    fn leave_alternate_screen(&mut self) -> (r: Result<(), IoError>)
        ensures
            old(self).records() ==> final(self).records() && final(self).attempted() == old(
                self,
            ).attempted().push(CleanupStep::LeaveAlternateScreen),
    ;

    fn disable_raw_mode(&mut self) -> (r: Result<(), IoError>)
        ensures
            old(self).records() ==> final(self).records() && final(self).attempted() == old(
                self,
            ).attempted().push(CleanupStep::DisableRawMode),
    ;
}

/// All steps, in the order in which they are taken.
pub open spec fn all_steps() -> Seq<CleanupStep> {
    seq![
        CleanupStep::DisableMouseCapture,
        CleanupStep::ShowCursor,
        CleanupStep::LeaveAlternateScreen,
        CleanupStep::DisableRawMode,
    ]
}

/// Gives the terminal back: every step is attempted, whatever came of those before it. A terminal
/// that records its steps shows it.
pub fn restore_terminal<T: TerminalCleanup>(terminal: &mut T)
    ensures
        old(terminal).records() ==> final(terminal).records() && final(terminal).attempted() == old(
            terminal,
        ).attempted() + all_steps(),
{
    let _ = terminal.disable_mouse_capture();
    let _ = terminal.show_cursor();
    let _ = terminal.leave_alternate_screen();
    let _ = terminal.disable_raw_mode();
    assert(old(terminal).records() ==> terminal.attempted() =~= old(terminal).attempted()
        + all_steps());
}

/// A terminal on which each step succeeds and is written down.
#[derive(Debug)]
pub struct CleanupPlan {
    pub steps: Vec<CleanupStep>,
}

impl TerminalCleanup for CleanupPlan {
    open spec fn records(&self) -> bool {
        true
    }

    open spec fn attempted(&self) -> Seq<CleanupStep> {
        self.steps@
    }

    fn disable_mouse_capture(&mut self) -> (r: Result<(), IoError>) {
        self.steps.push(CleanupStep::DisableMouseCapture);
        Ok(())
    }

    fn show_cursor(&mut self) -> (r: Result<(), IoError>) {
        self.steps.push(CleanupStep::ShowCursor);
        Ok(())
    }

    fn leave_alternate_screen(&mut self) -> (r: Result<(), IoError>) {
        self.steps.push(CleanupStep::LeaveAlternateScreen);
        Ok(())
    }

    fn disable_raw_mode(&mut self) -> (r: Result<(), IoError>) {
        self.steps.push(CleanupStep::DisableRawMode);
        Ok(())
    }
}

/// A step in which the terminal is taken over.
#[derive(Clone, Copy, Debug, PartialEq, Eq, Structural)]
pub enum EntryStep {
    EnableRawMode,
    /// Enter the alternate screen and capture the mouse.
    EnterScreen,
    /// Prepare the drawing surface.
    Prepare,
    HideCursor,
}

/// What is undone where a step fails: nothing before the terminal was touched, else all that the
/// steps up to there did or may have done.
pub open spec fn undone_after(failed: EntryStep) -> Seq<CleanupStep> {
    match failed {
        EntryStep::EnableRawMode => Seq::empty(),
        _ => seq![
            CleanupStep::DisableMouseCapture,
            CleanupStep::LeaveAlternateScreen,
            CleanupStep::DisableRawMode,
        ],
    }
}

/// What is undone where a step fails.
pub fn undo_after(failed: EntryStep) -> (r: Vec<CleanupStep>)
    ensures
        r@ == undone_after(failed),
{
    let mut steps: Vec<CleanupStep> = Vec::new();
    if failed != EntryStep::EnableRawMode {
        steps.push(CleanupStep::DisableMouseCapture);
        steps.push(CleanupStep::LeaveAlternateScreen);
        steps.push(CleanupStep::DisableRawMode);
    }
    assert(steps@ =~= undone_after(failed));
    steps
}

} // verus!
