use bintui::host::{IoError, IoErrorKind};
use bintui::terminal::{
    restore_terminal, undo_after, CleanupPlan, CleanupStep, EntryStep, TerminalCleanup,
};

#[derive(Default)]
struct RecordingCleanup {
    calls: Vec<&'static str>,
}

impl TerminalCleanup for RecordingCleanup {
    fn disable_mouse_capture(&mut self) -> Result<(), IoError> {
        self.calls.push("disable-mouse-capture");
        Err(IoError::new(IoErrorKind::Other, "mouse failure"))
    }

    fn show_cursor(&mut self) -> Result<(), IoError> {
        self.calls.push("show-cursor");
        Err(IoError::new(IoErrorKind::Other, "cursor failure"))
    }

    fn leave_alternate_screen(&mut self) -> Result<(), IoError> {
        self.calls.push("leave-alternate-screen");
        Ok(())
    }

    fn disable_raw_mode(&mut self) -> Result<(), IoError> {
        self.calls.push("disable-raw-mode");
        Ok(())
    }
}

#[test]
fn terminal_restoration_attempts_every_step_even_after_an_error() {
    let mut terminal = RecordingCleanup::default();

    restore_terminal(&mut terminal);

    assert_eq!(
        terminal.calls,
        [
            "disable-mouse-capture",
            "show-cursor",
            "leave-alternate-screen",
            "disable-raw-mode"
        ]
    );
}

#[test]
fn a_cleanup_plan_lists_the_steps_in_order() {
    let mut plan = CleanupPlan { steps: Vec::new() };

    restore_terminal(&mut plan);

    assert_eq!(
        plan.steps,
        vec![
            CleanupStep::DisableMouseCapture,
            CleanupStep::ShowCursor,
            CleanupStep::LeaveAlternateScreen,
            CleanupStep::DisableRawMode,
        ]
    );
}

#[test]
fn a_failed_entry_undoes_what_may_have_happened() {
    assert_eq!(undo_after(EntryStep::EnableRawMode), Vec::new());
    for failed in [
        EntryStep::EnterScreen,
        EntryStep::Prepare,
        EntryStep::HideCursor,
    ] {
        assert_eq!(
            undo_after(failed),
            vec![
                CleanupStep::DisableMouseCapture,
                CleanupStep::LeaveAlternateScreen,
                CleanupStep::DisableRawMode,
            ]
        );
    }
}
