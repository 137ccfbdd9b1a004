//! Automatically respawn when we die.

use vstd::prelude::*;

verus! {

/// The respawn rule.
#[derive(Clone, Copy, Debug, Default)]
pub struct Plugin;

/// A command of the client to the host server.
#[derive(Clone, Copy, Debug, PartialEq, Eq, Structural)]
pub enum ClientCommand {
    /// Bring the player back to life.
    PerformRespawn,
}

/// What to send when `newly_dead` local players have just died: a respawn
/// command where it is exactly one, nothing otherwise.
pub open spec fn respawn_command(newly_dead: nat) -> Option<ClientCommand> {
    if newly_dead == 1 {
        Some(ClientCommand::PerformRespawn)
    } else {
        None
    }
}

/// Decides what to send after looking for local players that have just died.
pub fn respawn_listener(newly_dead: usize) -> (command: Option<ClientCommand>)
    ensures
        command == respawn_command(newly_dead as nat),
{
    if newly_dead == 1 {
        Some(ClientCommand::PerformRespawn)
    } else {
        None
    }
}

} // verus!
