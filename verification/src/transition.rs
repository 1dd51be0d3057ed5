//! The result of one step of the consensus state machine.

use vstd::prelude::*;
use crate::output::Output;
use crate::state::State;

verus! {

/// The state that follows an input, with the output if there is one.
///
/// `valid` is false where no rule of the state machine matched the input:
/// the state is then unchanged and there is no output.
#[derive(Clone, Copy, Debug, PartialEq, Eq, Structural, Hash)]
pub struct Transition {
    pub next_state: State,
    pub output: Option<Output>,
    pub valid: bool,
}

impl Transition {
    /// A valid transition to the given state, without output.
    pub fn to(next_state: State) -> (t: Transition)
        ensures
            t == (Transition { next_state, output: None, valid: true }),
    {
        Transition { next_state, output: None, valid: true }
    }

    /// The state unchanged, for an input that no rule matches.
    pub fn invalid(next_state: State) -> (t: Transition)
        ensures
            t == (Transition { next_state, output: None, valid: false }),
    {
        Transition { next_state, output: None, valid: false }
    }

    pub fn with_output(self, output: Output) -> (t: Transition)
        ensures
            t == (Transition { output: Some(output), ..self }),
    {
        Transition { output: Some(output), ..self }
    }
}

} // verus!
