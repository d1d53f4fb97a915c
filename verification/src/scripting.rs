//! The decision rules of a scripted transaction.
//!
//! A script runs beside the owner of one open transaction and sends it
//! commands, each paired with a reply. The owner serves reads and writes in
//! the order in which they arrive, and the command that ends the script
//! decides whether the transaction is committed or rolled back. The rules
//! stand here; receiving commands, running statements and sending replies
//! is the part of the caller, which holds the transaction.

use vstd::prelude::*;

use crate::error::{ErrorKind, MyError};
use crate::value::JsonMap;

verus! {

/// What a script asks of the owner of the transaction. `J` is the JSON
/// value that a script hands back; the rules never look inside it.
#[derive(Debug)]
pub enum Command<J> {
    /// Look a record up: table and id.
    Get(String, String),
    /// Insert a record: table and columns.
    Create(String, JsonMap),
    /// The script asked for a rollback and ends with this value.
    Rollback(J),
    /// The script failed.
    Error(MyError),
    /// The script returned this value.
    Done(J),
}

/// How the transaction ends, and what the call returns.
#[derive(Debug)]
pub enum CommitOrRollback<J> {
    Commit(J),
    Rollback(J),
    RollbackError(MyError),
}

/// A read or a write that the owner runs against the open transaction.
#[derive(Debug)]
pub enum Request {
    Get(String, String),
    Create(String, JsonMap),
}

/// What the owner does with a command.
#[derive(Debug)]
pub enum Step<J> {
    /// Run the request, send the result back on the paired reply, wait for
    /// the next command.
    Serve(Request),
    /// Stop receiving: the fate of the transaction is decided.
    Stop(CommitOrRollback<J>),
}

/// The last thing done to the transaction.
#[derive(Debug, Clone, Copy, PartialEq, Eq, Structural)]
pub enum Closing {
    Commit,
    Rollback,
}

/// What a recorded run of the owner came to.
#[derive(Debug)]
pub struct Replay<J> {
    /// The requests that were served, in the order of serving.
    pub served: Vec<Request>,
    /// The decision, if a command that ends the script arrived.
    pub outcome: Option<CommitOrRollback<J>>,
}

/// Whether a command ends the loop of the owner.
pub open spec fn terminal<J>(command: Command<J>) -> bool {
    !(command is Get || command is Create)
}

/// What the owner does with a command: a read or a write is served, and
/// each of the other three decides the fate of the transaction.
pub open spec fn next<J>(command: Command<J>) -> Step<J> {
    match command {
        Command::Get(table, id) => Step::Serve(Request::Get(table, id)),
        Command::Create(table, data) => Step::Serve(Request::Create(table, data)),
        Command::Rollback(value) => Step::Stop(CommitOrRollback::Rollback(value)),
        Command::Done(value) => Step::Stop(CommitOrRollback::Commit(value)),
        Command::Error(failure) => Step::Stop(CommitOrRollback::RollbackError(failure)),
    }
}

/// What is done to the transaction for an outcome and what the call
/// returns: a rollback that the script asked for is a success.
pub open spec fn settled<J>(outcome: CommitOrRollback<J>) -> (Closing, Result<J, MyError>) {
    match outcome {
        CommitOrRollback::Commit(value) => (Closing::Commit, Ok(value)),
        CommitOrRollback::Rollback(value) => (Closing::Rollback, Ok(value)),
        CommitOrRollback::RollbackError(failure) => (Closing::Rollback, Err(failure)),
    }
}

/// The command that ends a script: its value where it returned one, its
/// failure where it failed.
pub open spec fn ending<J>(result: Result<J, MyError>) -> Command<J> {
    match result {
        Ok(value) => Command::Done(value),
        Err(failure) => Command::Error(failure),
    }
}

/// The owner's run over the commands in their order of arrival, from the
/// requests served so far: the requests served in all, and the outcome if a
/// terminal command arrived. Nothing after the first terminal command is
/// looked at.
pub open spec fn run_from<J>(commands: Seq<Command<J>>, served: Seq<Request>) -> (
    Seq<Request>,
    Option<CommitOrRollback<J>>,
)
    decreases commands.len(),
{
    if commands.len() == 0 {
        (served, None)
    } else {
        match next(commands[0]) {
            Step::Serve(request) => run_from(commands.drop_first(), served.push(request)),
            Step::Stop(outcome) => (served, Some(outcome)),
        }
    }
}

/// The owner's run over the commands in their order of arrival.
pub open spec fn run<J>(commands: Seq<Command<J>>) -> (Seq<Request>, Option<CommitOrRollback<J>>) {
    run_from(commands, Seq::empty())
}

/// What a call with these commands does to the transaction and returns;
/// nothing while no terminal command has arrived.
pub open spec fn verdict<J>(commands: Seq<Command<J>>) -> Option<(Closing, Result<J, MyError>)> {
    match run(commands).1 {
        Some(outcome) => Some(settled(outcome)),
        None => None,
    }
}

/// The request of a read or a write.
pub open spec fn request_of<J>(command: Command<J>) -> Request
    recommends
        !terminal(command),
{
    match command {
        Command::Create(table, data) => Request::Create(table, data),
        Command::Get(table, id) => Request::Get(table, id),
        _ => arbitrary(),
    }
}

/// Decides what the owner does with the command it received.
pub fn step<J>(command: Command<J>) -> (s: Step<J>)
    ensures
        s == next(command),
{
    match command {
        Command::Get(table, id) => Step::Serve(Request::Get(table, id)),
        Command::Create(table, data) => Step::Serve(Request::Create(table, data)),
        Command::Rollback(value) => Step::Stop(CommitOrRollback::Rollback(value)),
        Command::Done(value) => Step::Stop(CommitOrRollback::Commit(value)),
        Command::Error(failure) => Step::Stop(CommitOrRollback::RollbackError(failure)),
    }
}

/// Decides how the transaction is closed and what the call returns. A
/// failure of the commit or the rollback itself does not change the result.
pub fn settle<J>(outcome: CommitOrRollback<J>) -> (r: (Closing, Result<J, MyError>))
    ensures
        r == settled(outcome),
{
    match outcome {
        CommitOrRollback::Commit(value) => (Closing::Commit, Ok(value)),
        CommitOrRollback::Rollback(value) => (Closing::Rollback, Ok(value)),
        CommitOrRollback::RollbackError(failure) => (Closing::Rollback, Err(failure)),
    }
}

/// Decides how the transaction is closed when the owner stops receiving.
/// Where an outcome was decided it is settled as [`settle`] does. Where the
/// commands ran out before any terminal one, the transaction is rolled back
/// and the call fails: no path leaves the transaction open or commits
/// without the script's normal return.
pub fn conclude<J>(outcome: Option<CommitOrRollback<J>>) -> (r: (Closing, Result<J, MyError>))
    ensures
        match outcome {
            Some(decided) => r == settled(decided),
            None => r.0 == Closing::Rollback && r.1 is Err && r.1->Err_0.kind
                == ErrorKind::ScriptRuntime,
        },
        r.0 == Closing::Commit <==> outcome is Some && outcome->Some_0 is Commit,
{
    match outcome {
        Some(decided) => settle(decided),
        None => (
            Closing::Rollback,
            Err(MyError::new(ErrorKind::ScriptRuntime, "the script ended without a result")),
        ),
    }
}

/// Turns the end of a script into the one terminal command that it sends,
/// whether it returned or failed.
pub fn terminal_command<J>(result: Result<J, MyError>) -> (c: Command<J>)
    ensures
        c == ending(result),
        terminal(c),
{
    match result {
        Ok(value) => Command::Done(value),
        Err(failure) => Command::Error(failure),
    }
}

/// Joins the failure of receiving a reply with the failure that the reply
/// carries.
pub fn result_flatten<J>(res: Result<Result<J, MyError>, MyError>) -> (r: Result<J, MyError>)
    ensures
        r == match res {
            Ok(reply) => reply,
            Err(failure) => Err(failure),
        },
{
    match res {
        Ok(reply) => reply,
        Err(failure) => Err(failure),
    }
}

/// Runs the owner over recorded commands, in their order of arrival.
pub fn replay<J>(commands: Vec<Command<J>>) -> (r: Replay<J>)
    ensures
        r.served@ == run(commands@).0,
        r.outcome == run(commands@).1,
{
    let mut rest = commands;
    let mut served: Vec<Request> = Vec::new();
    while rest.len() > 0
        invariant
            run(commands@) == run_from(rest@, served@),
        decreases rest.len(),
    {
        let ghost before = rest@;
        let command = rest.remove(0);
        assert(rest@ =~= before.drop_first());
        match step(command) {
            Step::Serve(request) => {
                served.push(request);
            },
            Step::Stop(outcome) => {
                return Replay { served, outcome: Some(outcome) };
            },
        }
    }
    Replay { served, outcome: None }
}

/// The number of commands before the first terminal one.
pub open spec fn reads_and_writes<J>(commands: Seq<Command<J>>) -> nat
    decreases commands.len(),
{
    if commands.len() == 0 || terminal(commands[0]) {
        0
    } else {
        1 + reads_and_writes(commands.drop_first())
    }
}

proof fn lemma_run_from<J>(commands: Seq<Command<J>>, served: Seq<Request>)
    ensures
        ({
            let n = reads_and_writes(commands) as int;
            let r = run_from(commands, served);
            &&& n <= commands.len()
            &&& r.0.len() == served.len() + n
            &&& forall|i: int| 0 <= i < served.len() ==> #[trigger] r.0[i] == served[i]
            &&& forall|i: int|
                0 <= i < n ==> !terminal(#[trigger] commands[i]) && r.0[served.len() + i] == request_of(
                    commands[i],
                )
            &&& n < commands.len() ==> terminal(commands[n]) && r.1 is Some && next(commands[n])
                == Step::Stop(r.1->Some_0)
            &&& n == commands.len() ==> r.1 is None
        }),
    decreases commands.len(),
{
    if commands.len() > 0 && !terminal(commands[0]) {
        let request = request_of(commands[0]);
        assert(next(commands[0]) == Step::<J>::Serve(request));
        let tail = commands.drop_first();
        let more = served.push(request);
        lemma_run_from(tail, more);
        let r = run_from(commands, served);
        assert(r == run_from(tail, more));
        let n = reads_and_writes(commands) as int;
        assert(n == 1 + reads_and_writes(tail));
        assert forall|i: int| 0 <= i < served.len() implies #[trigger] r.0[i] == served[i] by {
            assert(more[i] == served[i]);
        }
        assert forall|i: int| 0 <= i < n implies !terminal(#[trigger] commands[i]) && r.0[served.len() + i]
            == request_of(commands[i]) by {
            if i == 0 {
                assert(r.0[served.len() as int] == more[served.len() as int]);
            } else {
                assert(tail[i - 1] == commands[i]);
                assert(r.0[more.len() + (i - 1)] == request_of(tail[i - 1]));
            }
        }
        if n < commands.len() {
            assert(tail[n - 1] == commands[n]);
        }
    }
}

/// Requests are served in the order in which they were issued: the i-th
/// request served is the i-th command, none is skipped, and none that
/// follows the first terminal command is served.
pub proof fn lemma_served_in_issuance_order<J>(commands: Seq<Command<J>>)
    ensures
        run(commands).0.len() == reads_and_writes(commands),
        reads_and_writes(commands) <= commands.len(),
        forall|i: int|
            0 <= i < reads_and_writes(commands) ==> !terminal(#[trigger] commands[i]) && run(commands).0[i]
                == request_of(commands[i]),
        reads_and_writes(commands) < commands.len() ==> terminal(
            commands[reads_and_writes(commands) as int],
        ),
{
    lemma_run_from(commands, Seq::empty());
}

/// The first terminal command decides: the outcome of a run is what that
/// command asks for, whatever was served before it and whatever follows it.
pub proof fn lemma_first_terminal_decides<J>(
    before: Seq<Command<J>>,
    last: Command<J>,
    after: Seq<Command<J>>,
)
    requires
        forall|i: int| 0 <= i < before.len() ==> !terminal(#[trigger] before[i]),
        terminal(last),
    ensures
        run(before.push(last) + after).1 is Some,
        next(last) == Step::Stop(run(before.push(last) + after).1->Some_0),
        run(before.push(last) + after).0.len() == before.len(),
{
    let commands = before.push(last) + after;
    lemma_run_from(commands, Seq::empty());
    let n = reads_and_writes(commands);
    assert(commands[before.len() as int] == last);
    if n < before.len() {
        assert(commands[n as int] == before[n as int]);
    }
    if n > before.len() {
        assert(!terminal(commands[before.len() as int]));
    }
}

/// A script that returns a value normally has the transaction committed,
/// and the call returns that value.
pub proof fn lemma_normal_return_commits<J>(before: Seq<Command<J>>, value: J)
    requires
        forall|i: int| 0 <= i < before.len() ==> !terminal(#[trigger] before[i]),
    ensures
        verdict(before.push(ending(Ok(value)))) == Some((Closing::Commit, Ok::<J, MyError>(value))),
{
    lemma_first_terminal_decides(before, ending(Ok(value)), Seq::empty());
    assert(before.push(ending(Ok(value))) + Seq::<Command<J>>::empty() =~= before.push(ending(Ok(value))));
}

/// A script that asks for a rollback has the transaction rolled back,
/// whatever it had written before, and the call succeeds with the value
/// that the script chose. Nothing that the script sends later is served.
pub proof fn lemma_rollback_is_success<J>(before: Seq<Command<J>>, value: J, after: Seq<Command<J>>)
    requires
        forall|i: int| 0 <= i < before.len() ==> !terminal(#[trigger] before[i]),
    ensures
        verdict(before.push(Command::Rollback(value)) + after) == Some(
            (Closing::Rollback, Ok::<J, MyError>(value)),
        ),
        run(before.push(Command::Rollback(value)) + after).0.len() == before.len(),
{
    lemma_first_terminal_decides(before, Command::Rollback(value), after);
}

/// A script that fails, for whatever reason, has the transaction rolled
/// back, and the call returns the failure: nothing that it wrote is
/// committed.
pub proof fn lemma_failure_rolls_back<J>(before: Seq<Command<J>>, failure: MyError)
    requires
        forall|i: int| 0 <= i < before.len() ==> !terminal(#[trigger] before[i]),
    ensures
        verdict(before.push(ending(Err::<J, MyError>(failure)))) == Some(
            (Closing::Rollback, Err::<J, MyError>(failure)),
        ),
{
    let last = ending(Err::<J, MyError>(failure));
    lemma_first_terminal_decides(before, last, Seq::empty());
    assert(before.push(last) + Seq::<Command<J>>::empty() =~= before.push(last));
}

/// Nothing is committed unless the script returned normally: where a call
/// ends in a commit, the first terminal command was the script's own return,
/// and the call returns the value that it carried.
pub proof fn lemma_commit_needs_normal_return<J>(commands: Seq<Command<J>>)
    requires
        verdict(commands) is Some,
        verdict(commands)->Some_0.0 == Closing::Commit,
    ensures
        reads_and_writes(commands) < commands.len(),
        commands[reads_and_writes(commands) as int] is Done,
        verdict(commands)->Some_0.1 == Ok::<J, MyError>(
            commands[reads_and_writes(commands) as int]->Done_0,
        ),
{
    lemma_run_from(commands, Seq::empty());
}

} // verus!
