use vstd::prelude::*;
use crate::command::{Command, CommandList};
use crate::execute::{contents, execute_list, run, same_layout};
use crate::resource::Resources;

verus! {

/// Where one submitted command list stands.
#[derive(Clone, Copy, Debug, PartialEq, Eq, Structural)]
pub enum TokenState {
    Submitted,
    Completed,
    Failed,
}

/// What the device reported to one blocking wait.
#[derive(Clone, Copy, Debug, PartialEq, Eq, Structural)]
pub enum WaitOutcome {
    Signaled,
    TimedOut,
    DeviceLost,
}

#[derive(Clone, Copy, Debug, PartialEq, Eq, Structural)]
pub enum WaitError {
    /// The wait ran out of time; the submission is still pending.
    TimedOut,
    /// The device failed; everything the submission touched is undefined.
    DeviceLost,
}

/// The state after a wait that ended with `outcome`. Completed and Failed
/// are terminal.
pub open spec fn next_state(s: TokenState, outcome: WaitOutcome) -> TokenState {
    match s {
        TokenState::Submitted => match outcome {
            WaitOutcome::Signaled => TokenState::Completed,
            WaitOutcome::TimedOut => TokenState::Submitted,
            WaitOutcome::DeviceLost => TokenState::Failed,
        },
        _ => s,
    }
}

/// What a wait that ended with `outcome` reports to the caller.
pub open spec fn wait_result(s: TokenState, outcome: WaitOutcome) -> Result<(), WaitError> {
    match next_state(s, outcome) {
        TokenState::Completed => Ok(()),
        TokenState::Submitted => Err(WaitError::TimedOut),
        TokenState::Failed => Err(WaitError::DeviceLost),
    }
}

/// The host's view of one submission: its state, moved only by waits.
pub struct SubmissionToken {
    state: TokenState,
}

impl SubmissionToken {
    pub closed spec fn spec_state(self) -> TokenState {
        self.state
    }

    /// The token of a list just handed to a queue.
    pub fn submitted() -> (r: SubmissionToken)
        ensures
            r.spec_state() == TokenState::Submitted,
    {
        SubmissionToken { state: TokenState::Submitted }
    }

    pub fn state(&self) -> (r: TokenState)
        ensures
            r == self.spec_state(),
    {
        self.state
    }

    /// Takes in what a blocking wait on the device ended with.
    pub fn on_wait(&mut self, outcome: WaitOutcome) -> (r: Result<(), WaitError>)
        ensures
            final(self).spec_state() == next_state(old(self).spec_state(), outcome),
            r == wait_result(old(self).spec_state(), outcome),
    {
        let next = match self.state {
            TokenState::Submitted => match outcome {
                WaitOutcome::Signaled => TokenState::Completed,
                WaitOutcome::TimedOut => TokenState::Submitted,
                WaitOutcome::DeviceLost => TokenState::Failed,
            },
            s => s,
        };
        self.state = next;
        match next {
            TokenState::Completed => Ok(()),
            TokenState::Submitted => Err(WaitError::TimedOut),
            TokenState::Failed => Err(WaitError::DeviceLost),
        }
    }
}

/// A command list submitted to the host queue. The host queue runs a list as
/// a whole, when it is waited for with a budget of at least its length
/// (counted in operations), or with no budget.
pub struct Submission {
    list: CommandList,
    token: SubmissionToken,
}

impl Submission {
    pub closed spec fn spec_list(self) -> Seq<Command> {
        self.list@
    }

    pub closed spec fn spec_state(self) -> TokenState {
        self.token.spec_state()
    }

    /// The outcome of a wait with `budget` on a pending list of `len` operations.
    pub open spec fn outcome_for(len: nat, budget: Option<u64>) -> WaitOutcome {
        match budget {
            Some(t) => if (t as nat) < len {
                WaitOutcome::TimedOut
            } else {
                WaitOutcome::Signaled
            },
            None => WaitOutcome::Signaled,
        }
    }

    /// Hands `list` over for execution; nothing runs yet.
    pub fn submit(list: CommandList) -> (r: Submission)
        ensures
            r.spec_list() == list@,
            r.spec_state() == TokenState::Submitted,
    {
        Submission { list, token: SubmissionToken::submitted() }
    }

    pub fn state(&self) -> (r: TokenState)
        ensures
            r == self.spec_state(),
    {
        self.token.state()
    }

    /// Waits for the list to finish, for at most `budget` operations. When it
    /// finishes during this wait its operations run, in order, on `res`.
    pub fn signal_and_wait(&mut self, res: &mut Resources, budget: Option<u64>) -> (r: Result<
        (),
        WaitError,
    >)
        ensures
            final(self).spec_list() == old(self).spec_list(),
            final(self).spec_state() == next_state(
                old(self).spec_state(),
                Self::outcome_for(old(self).spec_list().len(), budget),
            ),
            r == wait_result(old(self).spec_state(), Self::outcome_for(old(self).spec_list().len(), budget)),
            same_layout(*old(res), *final(res)),
            contents(*final(res)) == if old(self).spec_state() == TokenState::Submitted
                && final(self).spec_state() == TokenState::Completed {
                run(*old(res), contents(*old(res)), old(self).spec_list())
            } else {
                contents(*old(res))
            },
    {
        let outcome = match budget {
            Some(t) => if (t as u128) < (self.list.len() as u128) {
                WaitOutcome::TimedOut
            } else {
                WaitOutcome::Signaled
            },
            None => WaitOutcome::Signaled,
        };
        let was_pending = self.token.state() == TokenState::Submitted;
        let r = self.token.on_wait(outcome);
        if was_pending && self.token.state() == TokenState::Completed {
            execute_list(res, &self.list);
        }
        r
    }
}

} // verus!
