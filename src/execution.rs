//! The execution coordinator: commands run strictly in declared order, a
//! failing command does not stop the run, and the failures are reported with
//! their indices, in order, together with the number of commands.
//!
//! The coordinator decides; the caller performs. [`Execution::next_command`]
//! names the command to run next, the caller runs it and hands its outcome to
//! [`Execution::record`], and [`Execution::finish`] gives the report once every
//! command has been attempted.

use vstd::prelude::*;

verus! {

/// Why a command failed.
#[derive(Clone, Debug, PartialEq, Eq)]
pub enum CommandError {
    /// Reading, writing, copying or traversing failed.
    Io(String),
    /// The source directory of a copy does not exist.
    SourceNotFound(String),
    /// The regular expression of a replace does not compile.
    InvalidPattern(String),
    /// The glob of a replace is invalid, or an entry could not be read.
    GlobExpansion(String),
    /// The glob of a replace matched nothing.
    NoFilesMatched(String),
    /// The command line of a run has an unclosed quote or no words.
    InvalidCommandLine(String),
    /// Neither the program nor the shell could be started.
    LaunchFailed(String),
    /// The process exited unsuccessfully; its standard error.
    CommandFailed(String),
}

/// A failed command: its index in the command list, and its error.
#[derive(Clone, Debug, PartialEq, Eq)]
pub struct Failure {
    pub index: usize,
    pub error: CommandError,
}

/// The report of a run that had failures.
#[derive(Clone, Debug, PartialEq, Eq)]
pub struct ExecutionReport {
    /// How many commands were run.
    pub total: usize,
    /// The failures, in command order.
    pub failures: Vec<Failure>,
}

pub open spec fn failure_view(f: Failure) -> (nat, CommandError) {
    (f.index as nat, f.error)
}

pub open spec fn failures_view(fs: Seq<Failure>) -> Seq<(nat, CommandError)> {
    fs.map_values(|f: Failure| failure_view(f))
}

/// The failures among `outcomes`, each with its index, in order.
pub open spec fn failures_of(outcomes: Seq<Result<(), CommandError>>) -> Seq<(nat, CommandError)>
    decreases outcomes.len(),
{
    if outcomes.len() == 0 {
        Seq::empty()
    } else {
        let prev = failures_of(outcomes.drop_last());
        match outcomes.last() {
            Ok(_) => prev,
            Err(e) => prev.push(((outcomes.len() - 1) as nat, e)),
        }
    }
}

/// How many of `outcomes` are failures.
pub open spec fn error_count(outcomes: Seq<Result<(), CommandError>>) -> nat
    decreases outcomes.len(),
{
    if outcomes.len() == 0 {
        0
    } else {
        error_count(outcomes.drop_last()) + if outcomes.last() is Err {
            1nat
        } else {
            0nat
        }
    }
}

/// A run of `total` commands in progress.
pub struct Execution {
    total: usize,
    next: usize,
    failures: Vec<Failure>,
    outcomes: Ghost<Seq<Result<(), CommandError>>>,
}

impl Execution {
    /// How many commands the run has.
    pub closed spec fn total(&self) -> nat {
        self.total as nat
    }

    /// The outcomes recorded so far, in command order.
    pub closed spec fn outcomes(&self) -> Seq<Result<(), CommandError>> {
        self.outcomes@
    }

    pub closed spec fn wf(&self) -> bool {
        &&& self.next == self.outcomes@.len()
        &&& self.next <= self.total
        &&& failures_view(self.failures@) == failures_of(self.outcomes@)
    }

    /// A run of `total` commands, none attempted yet.
    pub fn new(total: usize) -> (r: Execution)
        ensures
            r.wf(),
            r.total() == total,
            r.outcomes() == Seq::<Result<(), CommandError>>::empty(),
    {
        let r = Execution {
            total,
            next: 0,
            failures: Vec::new(),
            outcomes: Ghost(Seq::empty()),
        };
        assert(failures_view(r.failures@) =~= Seq::<(nat, CommandError)>::empty());
        r
    }

    /// The index of the command to run next; `None` once all were attempted.
    pub fn next_command(&self) -> (r: Option<usize>)
        requires
            self.wf(),
        ensures
            r == (if self.outcomes().len() < self.total() {
                Some(self.outcomes().len() as usize)
            } else {
                None::<usize>
            }),
    {
        if self.next < self.total {
            Some(self.next)
        } else {
            None
        }
    }

    /// Records the outcome of the command that `next_command` named.
    pub fn record(&mut self, outcome: Result<(), CommandError>)
        requires
            old(self).wf(),
            old(self).outcomes().len() < old(self).total(),
        ensures
            final(self).wf(),
            final(self).total() == old(self).total(),
            final(self).outcomes() == old(self).outcomes().push(outcome),
    {
        let ghost before = self.failures@;
        let ghost new_outcomes = self.outcomes@.push(outcome);
        assert(new_outcomes.drop_last() =~= self.outcomes@);
        match outcome {
            Ok(()) => {},
            Err(error) => {
                self.failures.push(Failure { index: self.next, error });
                assert(failures_view(self.failures@) =~= failures_view(before).push(
                    failure_view(Failure { index: self.next, error }),
                ));
            },
        }
        self.next = self.next + 1;
        self.outcomes = Ghost(new_outcomes);
    }

    /// The result of a run whose commands were all attempted: success where
    /// none failed, else the report of every failure in order.
    pub fn finish(self) -> (r: Result<(), ExecutionReport>)
        requires
            self.wf(),
            self.outcomes().len() == self.total(),
        ensures
            r is Ok <==> failures_of(self.outcomes()).len() == 0,
            r matches Err(report) ==> report.total == self.total() && failures_view(
                report.failures@,
            ) == failures_of(self.outcomes()),
    {
        if self.failures.len() == 0 {
            Ok(())
        } else {
            Err(ExecutionReport { total: self.total, failures: self.failures })
        }
    }
}

/// The failures of a run are exactly its failing commands: as many as there
/// are errors among the outcomes, each with the index and error of a failing
/// command, every failing command present, in command order.
pub proof fn lemma_failures_of(outcomes: Seq<Result<(), CommandError>>)
    ensures
        failures_of(outcomes).len() == error_count(outcomes),
        forall|i: int|
            0 <= i < failures_of(outcomes).len() ==> {
                let (k, e) = #[trigger] failures_of(outcomes)[i];
                k < outcomes.len() && outcomes[k as int] == Err::<(), CommandError>(e)
            },
        forall|i: int, j: int|
            0 <= i < j < failures_of(outcomes).len() ==> (#[trigger] failures_of(outcomes)[i]).0
                < (#[trigger] failures_of(outcomes)[j]).0,
        forall|k: int|
            0 <= k < outcomes.len() && (#[trigger] outcomes[k]) is Err ==> exists|i: int|
                0 <= i < failures_of(outcomes).len() && (#[trigger] failures_of(outcomes)[i]).0
                    == k,
    decreases outcomes.len(),
{
    if outcomes.len() > 0 {
        let prev = outcomes.drop_last();
        lemma_failures_of(prev);
        let fs = failures_of(outcomes);
        let pfs = failures_of(prev);
        assert forall|i: int| 0 <= i < pfs.len() implies (#[trigger] pfs[i]).0 < outcomes.len()
            - 1 by {}
        assert forall|k: int|
            0 <= k < outcomes.len() && (#[trigger] outcomes[k]) is Err implies exists|i: int|
                0 <= i < fs.len() && (#[trigger] fs[i]).0 == k by {
            if k < outcomes.len() - 1 {
                assert(prev[k] == outcomes[k]);
                let i = choose|i: int| 0 <= i < pfs.len() && (#[trigger] pfs[i]).0 == k;
                assert(fs[i] == pfs[i]);
            } else {
                assert(fs[fs.len() - 1].0 == k);
            }
        }
        assert forall|i: int| 0 <= i < fs.len() implies {
            let (k, e) = #[trigger] fs[i];
            k < outcomes.len() && outcomes[k as int] == Err::<(), CommandError>(e)
        } by {
            if i < pfs.len() {
                assert(fs[i] == pfs[i]);
                assert(prev[pfs[i].0 as int] == outcomes[pfs[i].0 as int]);
            }
        }
    }
}

} // verus!
