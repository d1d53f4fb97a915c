use restql_home::scripting::{
    conclude, replay, result_flatten, settle, step, terminal_command, Closing, Command, CommitOrRollback,
    Request, Step,
};
use restql_home::{ErrorKind, JsonMap, MyError, Value};

fn account(email: &str) -> JsonMap {
    let mut data = JsonMap::new();
    data.insert("email".to_string(), Value::String(email.to_string()));
    data
}

fn failure(kind: ErrorKind, message: &str) -> MyError {
    MyError::new(kind, message)
}

#[test]
fn reads_and_writes_are_served() {
    match step(Command::<String>::Get("accounts".to_string(), "7".to_string())) {
        Step::Serve(Request::Get(table, id)) => {
            assert_eq!("accounts", table);
            assert_eq!("7", id);
        }
        other => panic!("{:?}", other),
    }
    match step(Command::<String>::Create("accounts".to_string(), account("a@example.com"))) {
        Step::Serve(Request::Create(table, data)) => {
            assert_eq!("accounts", table);
            assert_eq!(account("a@example.com"), data);
        }
        other => panic!("{:?}", other),
    }
}

#[test]
fn terminal_commands_stop_the_owner() {
    match step(Command::Done("v".to_string())) {
        Step::Stop(CommitOrRollback::Commit(value)) => assert_eq!("v", value),
        other => panic!("{:?}", other),
    }
    match step(Command::Rollback("v".to_string())) {
        Step::Stop(CommitOrRollback::Rollback(value)) => assert_eq!("v", value),
        other => panic!("{:?}", other),
    }
    match step(Command::<String>::Error(failure(ErrorKind::ScriptRuntime, "boom"))) {
        Step::Stop(CommitOrRollback::RollbackError(e)) => {
            assert_eq!(failure(ErrorKind::ScriptRuntime, "boom"), e)
        }
        other => panic!("{:?}", other),
    }
}

#[test]
fn outcomes_are_settled() {
    assert_eq!(
        (Closing::Commit, Ok("v".to_string())),
        settle(CommitOrRollback::Commit("v".to_string()))
    );
    assert_eq!(
        (Closing::Rollback, Ok("v".to_string())),
        settle(CommitOrRollback::Rollback("v".to_string()))
    );
    assert_eq!(
        (
            Closing::Rollback,
            Err(failure(ErrorKind::ScriptSandbox, "no io"))
        ),
        settle(CommitOrRollback::<String>::RollbackError(failure(
            ErrorKind::ScriptSandbox,
            "no io"
        )))
    );
}

#[test]
fn script_end_is_one_terminal_command() {
    match terminal_command(Ok("test".to_string())) {
        Command::Done(value) => assert_eq!("test", value),
        other => panic!("{:?}", other),
    }
    match terminal_command::<String>(Err(failure(ErrorKind::ScriptRuntime, "boom"))) {
        Command::Error(e) => assert_eq!(failure(ErrorKind::ScriptRuntime, "boom"), e),
        other => panic!("{:?}", other),
    }
}

#[test]
fn nested_results_are_flattened() {
    assert_eq!(Ok(1), result_flatten(Ok(Ok(1))));
    assert_eq!(
        Err(failure(ErrorKind::Db, "inner")),
        result_flatten::<i32>(Ok(Err(failure(ErrorKind::Db, "inner"))))
    );
    assert_eq!(
        Err(failure(ErrorKind::ScriptRuntime, "outer")),
        result_flatten::<i32>(Err(failure(ErrorKind::ScriptRuntime, "outer")))
    );
}

#[test]
fn normal_return_commits_and_returns_the_value() {
    let run = replay(vec![terminal_command(Ok("test".to_string()))]);
    assert!(run.served.is_empty());
    assert_eq!(
        (Closing::Commit, Ok("test".to_string())),
        settle(run.outcome.unwrap())
    );
}

#[test]
fn rollback_call_is_a_success_and_ends_the_run() {
    let run = replay(vec![
        Command::Create("accounts".to_string(), account("a@example.com")),
        Command::Get("accounts".to_string(), "1".to_string()),
        Command::Rollback("rolled back".to_string()),
        Command::Create("accounts".to_string(), account("b@example.com")),
        Command::Done("late".to_string()),
    ]);
    assert_eq!(2, run.served.len());
    assert_eq!(
        (Closing::Rollback, Ok("rolled back".to_string())),
        settle(run.outcome.unwrap())
    );
}

#[test]
fn failure_rolls_back_and_is_returned() {
    let run = replay(vec![
        Command::Create("accounts".to_string(), account("a@example.com")),
        terminal_command::<String>(Err(failure(ErrorKind::ScriptRuntime, "boom"))),
    ]);
    assert_eq!(1, run.served.len());
    assert_eq!(
        (
            Closing::Rollback,
            Err(failure(ErrorKind::ScriptRuntime, "boom"))
        ),
        settle(run.outcome.unwrap())
    );
}

#[test]
fn sandbox_violation_commits_nothing() {
    let run = replay(vec![terminal_command::<String>(Err(failure(
        ErrorKind::ScriptSandbox,
        "io is not available",
    )))]);
    assert!(run.served.is_empty());
    let (closing, result) = settle(run.outcome.unwrap());
    assert_eq!(Closing::Rollback, closing);
    assert_eq!(ErrorKind::ScriptSandbox, result.unwrap_err().kind);
}

#[test]
fn requests_are_served_in_issuance_order() {
    let run = replay(vec![
        Command::Get("accounts".to_string(), "1".to_string()),
        Command::Create("accounts".to_string(), account("a@example.com")),
        Command::Get("items".to_string(), "2".to_string()),
        Command::Done(0),
    ]);
    assert_eq!(3, run.served.len());
    match &run.served[0] {
        Request::Get(table, id) => assert_eq!(("accounts", "1"), (table.as_str(), id.as_str())),
        other => panic!("{:?}", other),
    }
    match &run.served[1] {
        Request::Create(table, data) => {
            assert_eq!("accounts", table);
            assert_eq!(&account("a@example.com"), data);
        }
        other => panic!("{:?}", other),
    }
    match &run.served[2] {
        Request::Get(table, id) => assert_eq!(("items", "2"), (table.as_str(), id.as_str())),
        other => panic!("{:?}", other),
    }
    assert!(matches!(run.outcome, Some(CommitOrRollback::Commit(0))));
}

#[test]
fn a_run_without_terminal_command_is_undecided() {
    let run = replay(vec![Command::<String>::Get(
        "accounts".to_string(),
        "1".to_string(),
    )]);
    assert_eq!(1, run.served.len());
    assert!(run.outcome.is_none());
    let run = replay(Vec::<Command<String>>::new());
    assert!(run.served.is_empty());
    assert!(run.outcome.is_none());
}

#[test]
fn an_undecided_run_is_rolled_back_and_fails() {
    let run = replay(vec![Command::<String>::Get(
        "accounts".to_string(),
        "1".to_string(),
    )]);
    let (closing, result) = conclude(run.outcome);
    assert_eq!(Closing::Rollback, closing);
    assert_eq!(ErrorKind::ScriptRuntime, result.unwrap_err().kind);
}

#[test]
fn a_decided_run_is_concluded_as_it_was_decided() {
    assert_eq!(
        (Closing::Commit, Ok(1)),
        conclude(replay(vec![Command::Done(1)]).outcome)
    );
    assert_eq!(
        (Closing::Rollback, Ok(2)),
        conclude(replay(vec![Command::Rollback(2)]).outcome)
    );
    assert_eq!(
        (Closing::Rollback, Err(failure(ErrorKind::Db, "gone"))),
        conclude(replay(vec![Command::<i32>::Error(failure(ErrorKind::Db, "gone"))]).outcome)
    );
}
