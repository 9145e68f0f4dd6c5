//! The states of a game and the commands that move it from one to the next.

use vstd::prelude::*;

verus! {

/// Why a game was lost.
#[derive(Clone, Copy, Debug, PartialEq, Eq, Hash, Structural)]
pub enum GameOverReason {
    OutOfBounds,
    OutOfTime,
    OutOfBoids,
}

/// Where a game stands.
#[derive(Clone, Copy, Debug, PartialEq, Eq, Hash, Structural)]
pub enum SimulationState {
    /// Nothing has started.
    Disabled,
    /// The modules set themselves up, once.
    Initializing,
    /// Every module is set up.
    Ready,
    /// The level to play next is being chosen and loaded.
    ChoosingLevel,
    /// A level is being played.
    Simulating,
    /// The level was won.
    LevelComplete,
    /// The last level was won.
    GameComplete,
    /// The level was lost.
    GameOver(GameOverReason),
}

impl Default for SimulationState {
    fn default() -> (s: SimulationState)
        ensures
            s is Disabled,
    {
        SimulationState::Disabled
    }
}

/// What the player or the shell asks of the game.
#[derive(Clone, Copy, Debug, PartialEq, Eq, Structural)]
pub enum GameControlCommand {
    Initialize,
    StartGame,
    NextLevel,
    Retry,
}

/// The state that `cmd` leads to from `state`, if the command is meant
/// for that state: initialising a disabled game, starting a ready one,
/// going on after a level was won, and trying again after one was lost
/// all lead on; any other pairing leads nowhere.
pub open spec fn command_target(state: SimulationState, cmd: GameControlCommand) -> Option<SimulationState> {
    match (state, cmd) {
        (SimulationState::Disabled, GameControlCommand::Initialize) => Some(SimulationState::Initializing),
        (SimulationState::Ready, GameControlCommand::StartGame) => Some(SimulationState::ChoosingLevel),
        (SimulationState::LevelComplete, GameControlCommand::NextLevel) => Some(
            SimulationState::ChoosingLevel,
        ),
        (SimulationState::GameOver(_), GameControlCommand::Retry) => Some(SimulationState::ChoosingLevel),
        _ => None,
    }
}

/// The state that `cmd` leads to from `state`, if the command is meant
/// for that state.
pub fn control_transition(state: SimulationState, cmd: GameControlCommand) -> (next: Option<SimulationState>)
    ensures
        next == command_target(state, cmd),
{
    match (state, cmd) {
        (SimulationState::Disabled, GameControlCommand::Initialize) => Some(SimulationState::Initializing),
        (SimulationState::Ready, GameControlCommand::StartGame) => Some(SimulationState::ChoosingLevel),
        (SimulationState::LevelComplete, GameControlCommand::NextLevel) => Some(
            SimulationState::ChoosingLevel,
        ),
        (SimulationState::GameOver(_), GameControlCommand::Retry) => Some(SimulationState::ChoosingLevel),
        _ => None,
    }
}

/// The state that a batch of commands leads to from `current`: that of the
/// last command, every command being read against `current`; none for an
/// empty batch. Every command of the batch must be meant for `current`.
pub fn process_game_control_commands(current: SimulationState, cmds: &Vec<GameControlCommand>) -> (next:
    Option<SimulationState>)
    requires
        forall|i: int| 0 <= i < cmds@.len() ==> command_target(current, #[trigger] cmds@[i]) is Some,
    ensures
        cmds@.len() == 0 ==> next is None,
        cmds@.len() > 0 ==> next == command_target(current, cmds@.last()),
{
    let mut next: Option<SimulationState> = None;
    let mut i: usize = 0;
    while i < cmds.len()
        invariant
            i <= cmds.len(),
            i == 0 ==> next is None,
            i > 0 ==> next == command_target(current, cmds@[i - 1]),
        decreases cmds.len() - i,
    {
        next = control_transition(current, cmds[i]);
        i += 1;
    }
    next
}

/// The state to go to while the modules set themselves up: `Ready` once
/// none of them is still at it.
pub fn wait_until_initialization_complete(initializing: usize) -> (next: Option<SimulationState>)
    ensures
        next == if initializing == 0 {
            Some(SimulationState::Ready)
        } else {
            None
        },
{
    if initializing == 0 {
        Some(SimulationState::Ready)
    } else {
        None
    }
}

} // verus!
