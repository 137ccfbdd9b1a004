//! Handles signals to shut the bot down.

use vstd::prelude::*;
use crate::event::Event;

verus! {

/// The shutdown rule.
#[derive(Clone, Copy, Debug, Default)]
pub struct Plugin {}

/// What the caller is to do next.
#[derive(Clone, Copy, Debug, PartialEq, Eq, Structural)]
pub enum Step {
    /// Nothing.
    Nothing,
    /// Wait for the interrupt signal, then report with
    /// [`Plugin::interrupted`] how the wait ended.
    AwaitInterrupt,
    /// Shut the session down.
    Shutdown,
}

impl Plugin {
    /// Reacts to one event of the host session: the wait for the interrupt
    /// signal begins when the session is set up.
    pub fn handle(&self, event: &Event) -> (step: Step)
        ensures
            step == if *event is Initialize {
                Step::AwaitInterrupt
            } else {
                Step::Nothing
            },
    {
        match event {
            Event::Initialize => Step::AwaitInterrupt,
            _ => Step::Nothing,
        }
    }

    /// Takes the end of the wait: `listened` says whether the signal came,
    /// rather than the wait itself failing. A failed wait is accepted, and
    /// the session goes on without a clean shutdown.
    pub fn interrupted(&self, listened: bool) -> (step: Step)
        ensures
            step == if listened {
                Step::Shutdown
            } else {
                Step::Nothing
            },
    {
        if listened {
            Step::Shutdown
        } else {
            Step::Nothing
        }
    }
}

} // verus!
