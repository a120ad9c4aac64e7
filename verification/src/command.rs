//! Firewall command sequences and the rule by which one is run.
//!
//! A sequence is run first to last and stops at the first command that fails:
//! the commands after it are not run. [`SequenceRun`] holds that rule; the
//! caller runs each command it asks for and reports how the command ended.

use vstd::prelude::*;
use crate::machine::{drive, lemma_drive_prefix};

verus! {

/// One command of the firewall backend: a program and its arguments.
#[derive(Clone, Debug, PartialEq, Eq)]
pub struct Command {
    pub program: String,
    pub args: Vec<String>,
}

/// An ordered sequence of commands, run first to last.
#[derive(Clone, Debug, PartialEq, Eq)]
pub struct Commands {
    pub list: Vec<Command>,
}

/// Why a command counts as failed.
#[derive(Debug)]
pub enum CommandFailure {
    /// It ran and left with this non-zero status.
    Status(i32),
    /// It was ended by a signal and left no status.
    Signal,
    /// It could not be started or waited for.
    Launch(std::io::Error),
}

/// The failure of a command sequence: the position of the command that
/// failed, and how.
#[derive(Debug)]
pub struct CommandError {
    pub index: usize,
    pub failure: CommandFailure,
}

/// How one command ended: the status it left (`None` where a signal ended
/// it), or the failure to start or await it.
pub type Outcome = Result<Option<i32>, std::io::Error>;

/// The failure that an outcome amounts to, if it is one. Only status zero is
/// a success.
pub open spec fn failure_in(outcome: Outcome) -> Option<CommandFailure> {
    match outcome {
        Ok(Some(status)) => if status == 0 {
            None
        } else {
            Some(CommandFailure::Status(status))
        },
        Ok(None) => Some(CommandFailure::Signal),
        Err(e) => Some(CommandFailure::Launch(e)),
    }
}

/// Where the run of a sequence stands.
#[derive(Clone, Copy, Debug, PartialEq, Eq, Structural)]
pub enum SequenceRun {
    /// Command `index` of `len` commands is running.
    Running { index: usize, len: usize },
    /// The run is over.
    Done,
}

/// What the run asks of the caller.
#[derive(Debug)]
pub enum RunAction {
    /// Run the command at this position and report how it ended.
    Execute(usize),
    /// The run is over, with this result.
    Finish(Result<(), CommandError>),
    /// Nothing was asked for; nothing has changed.
    Rejected,
}

/// The first state and request of the run of `len` commands.
pub open spec fn sequence_start(len: usize) -> (SequenceRun, RunAction) {
    if len == 0 {
        (SequenceRun::Done, RunAction::Finish(Ok(())))
    } else {
        (SequenceRun::Running { index: 0, len }, RunAction::Execute(0))
    }
}

/// The rule of a run: the state and action that follow an outcome.
pub open spec fn sequence_next(s: SequenceRun, outcome: Outcome) -> (SequenceRun, RunAction) {
    match s {
        SequenceRun::Running { index, len } => match failure_in(outcome) {
            Some(failure) => (
                SequenceRun::Done,
                RunAction::Finish(Err(CommandError { index, failure })),
            ),
            None => if index + 1 < len {
                (
                    SequenceRun::Running { index: (index + 1) as usize, len },
                    RunAction::Execute((index + 1) as usize),
                )
            } else {
                (SequenceRun::Done, RunAction::Finish(Ok(())))
            },
        },
        SequenceRun::Done => (s, RunAction::Rejected),
    }
}

/// The actions that answer `outcomes`, reported one by one to the run of
/// `len` commands.
pub open spec fn sequence_actions(len: usize, outcomes: Seq<Outcome>) -> Seq<RunAction> {
    drive(
        |s: SequenceRun, o: Outcome| sequence_next(s, o),
        sequence_start(len).0,
        outcomes,
    ).1
}

/// Whether the first `n` of `outcomes` are all successes.
pub open spec fn all_succeeded(outcomes: Seq<Outcome>, n: int) -> bool {
    forall|j: int| 0 <= j < n && j < outcomes.len() ==> failure_in(#[trigger] outcomes[j]) is None
}

/// The state that the run of `len` commands is in after `outcomes`.
spec fn sequence_state(len: usize, outcomes: Seq<Outcome>) -> SequenceRun {
    drive(
        |s: SequenceRun, o: Outcome| sequence_next(s, o),
        sequence_start(len).0,
        outcomes,
    ).0
}

proof fn lemma_sequence_state(len: usize, outcomes: Seq<Outcome>)
    ensures
        sequence_state(len, outcomes) == if outcomes.len() < len && all_succeeded(
            outcomes,
            outcomes.len() as int,
        ) {
            SequenceRun::Running { index: outcomes.len() as usize, len }
        } else {
            SequenceRun::Done
        },
    decreases outcomes.len(),
{
    if outcomes.len() > 0 {
        let before = outcomes.drop_last();
        lemma_sequence_state(len, before);
        if all_succeeded(outcomes, outcomes.len() as int) {
            assert forall|j: int| 0 <= j < before.len() implies failure_in(
                #[trigger] before[j],
            ) is None by {
                assert(before[j] == outcomes[j]);
            }
        }
        if before.len() < len && all_succeeded(before, before.len() as int) {
            if failure_in(outcomes.last()) is None {
                assert forall|j: int| 0 <= j < outcomes.len() implies failure_in(
                    #[trigger] outcomes[j],
                ) is None by {
                    if j < before.len() {
                        assert(before[j] == outcomes[j]);
                    }
                }
            } else {
                assert(outcomes[outcomes.len() - 1] == outcomes.last());
            }
        }
    }
}

/// A sequence stops at its first failure. Command `i + 1` is asked for only
/// when the commands up to `i` have all succeeded; the first failure ends the
/// run with the position and kind of that failure; the success of the last
/// command ends it with `Ok`; and whatever is reported after the end is
/// rejected.
pub proof fn lemma_sequence_stops_at_first_failure(len: usize, outcomes: Seq<Outcome>, i: int)
    requires
        0 <= i < outcomes.len(),
    ensures
        sequence_actions(len, outcomes).len() == outcomes.len(),
        sequence_actions(len, outcomes)[i] == if i < len && all_succeeded(outcomes, i) {
            match failure_in(outcomes[i]) {
                Some(failure) => RunAction::Finish(
                    Err(CommandError { index: i as usize, failure }),
                ),
                None => if i + 1 < len {
                    RunAction::Execute((i + 1) as usize)
                } else {
                    RunAction::Finish(Ok(()))
                },
            }
        } else {
            RunAction::Rejected
        },
{
    let rule = |s: SequenceRun, o: Outcome| sequence_next(s, o);
    lemma_drive_prefix(rule, sequence_start(len).0, outcomes, i);
    lemma_sequence_state(len, outcomes.take(i));
    if all_succeeded(outcomes, i) {
        assert forall|j: int| 0 <= j < i implies failure_in(#[trigger] outcomes.take(i)[j])
            is None by {
            assert(outcomes.take(i)[j] == outcomes[j]);
        }
    } else {
        let j = choose|j: int| 0 <= j < i && j < outcomes.len() && !(failure_in(
            #[trigger] outcomes[j],
        ) is None);
        assert(outcomes.take(i)[j] == outcomes[j]);
    }
}

impl Commands {
    /// The number of commands.
    pub fn len(&self) -> (n: usize)
        ensures
            n == self.list@.len(),
    {
        self.list.len()
    }
}

impl SequenceRun {
    /// The run of a sequence of `len` commands, and its first request: the
    /// first command, or the end at once where there is none.
    pub fn start(len: usize) -> (r: (SequenceRun, RunAction))
        ensures
            r == sequence_start(len),
    {
        if len == 0 {
            (SequenceRun::Done, RunAction::Finish(Ok(())))
        } else {
            (SequenceRun::Running { index: 0, len }, RunAction::Execute(0))
        }
    }

    /// Takes in how the command that was asked for ended, and says what to
    /// do next.
    pub fn step(self, outcome: Outcome) -> (r: (SequenceRun, RunAction))
        ensures
            r == sequence_next(self, outcome),
    {
        match self {
            SequenceRun::Running { index, len } => {
                match outcome_failure(outcome) {
                    Some(failure) => (
                        SequenceRun::Done,
                        RunAction::Finish(Err(CommandError { index, failure })),
                    ),
                    None => if len > 0 && index < len - 1 {
                        (
                            SequenceRun::Running { index: index + 1, len },
                            RunAction::Execute(index + 1),
                        )
                    } else {
                        (SequenceRun::Done, RunAction::Finish(Ok(())))
                    },
                }
            },
            SequenceRun::Done => (self, RunAction::Rejected),
        }
    }
}

/// The failure that an outcome amounts to, if it is one.
pub fn outcome_failure(outcome: Outcome) -> (failure: Option<CommandFailure>)
    ensures
        failure == failure_in(outcome),
{
    match outcome {
        Ok(Some(status)) => if status == 0 {
            None
        } else {
            Some(CommandFailure::Status(status))
        },
        Ok(None) => Some(CommandFailure::Signal),
        Err(e) => Some(CommandFailure::Launch(e)),
    }
}

} // verus!
