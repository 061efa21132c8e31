use vstd::prelude::*;

verus! {

/// Events the engine asks the surrounding event loop to act on.
#[derive(Clone, Copy, Debug, PartialEq, Eq, Structural)]
pub enum GameEvent {
    Step,
    Pause,
    Fullscreen,
    Finished,
}

/// The lifecycle of one game session.
#[derive(Clone, Copy, Debug, PartialEq, Eq, Structural)]
pub enum TetrsState {
    Bootstrapped,
    Running,
    Paused,
    Finished,
}

impl TetrsState {
    /// Gravity steps, commits and moves are accepted only while the session
    /// runs; while paused or finished the game state is left untouched.
    pub open spec fn allows_step(&self) -> bool {
        *self == TetrsState::Running
    }

    /// Whether the session accepts gravity steps and moves right now.
    pub fn is_running(&self) -> (running: bool)
        ensures
            running == self.allows_step(),
    {
        *self == TetrsState::Running
    }

    /// The first clock tick brings a bootstrapped session to running (the
    /// caller then raises `GameEvent::Fullscreen`); any other state stays.
    pub fn ticked(&self) -> (next: TetrsState)
        ensures
            next == if *self == TetrsState::Bootstrapped {
                TetrsState::Running
            } else {
                *self
            },
    {
        if *self == TetrsState::Bootstrapped {
            TetrsState::Running
        } else {
            *self
        }
    }

    /// The pause toggle: a running session pauses (the caller then raises
    /// `GameEvent::Pause`); a paused or bootstrapped one runs; a finished
    /// session is terminal and stays finished.
    pub fn toggle_pause(&self) -> (next: TetrsState)
        ensures
            next == if *self == TetrsState::Finished {
                TetrsState::Finished
            } else if *self == TetrsState::Running {
                TetrsState::Paused
            } else {
                TetrsState::Running
            },
    {
        if *self == TetrsState::Finished {
            TetrsState::Finished
        } else if *self == TetrsState::Running {
            TetrsState::Paused
        } else {
            TetrsState::Running
        }
    }

    /// The end-of-game transition, taken when a freshly promoted piece's
    /// placement fails the fit-check: from any state the session finishes.
    pub fn finish(&self) -> (next: TetrsState)
        ensures
            next == TetrsState::Finished,
    {
        TetrsState::Finished
    }
}

} // verus!
