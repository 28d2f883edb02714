//! The dashboard: one screen that is drawn until it is asked to leave.

use vstd::prelude::*;

verus! {

/// What the dashboard does next.
#[derive(Clone, Copy, Debug, PartialEq, Eq, Structural)]
pub enum Step {
    /// Draw the screen once more.
    Draw,
    /// Leave.
    Stop,
}

/// The state of the dashboard.
#[derive(Debug)]
pub struct App {
    pub exit: bool,
}

impl App {
    /// A dashboard that has not been asked to leave.
    pub fn new() -> (app: App)
        ensures
            !app.exit,
    {
        App { exit: false }
    }

    /// Asks the dashboard to leave.
    pub fn quit(&mut self)
        ensures
            final(self).exit,
    {
        self.exit = true;
    }

    /// The next step: draw until asked to leave.
    pub fn run(&self) -> (step: Step)
        ensures
            step == if self.exit {
                Step::Stop
            } else {
                Step::Draw
            },
    {
        if self.exit {
            Step::Stop
        } else {
            Step::Draw
        }
    }

    /// The line that the screen shows.
    pub fn render(&self) -> (line: &'static str)
        ensures
            line@ == "Process overview"@,
    {
        "Process overview"
    }
}

} // verus!
