use fg::dispatch::{interpret, op_invocation, Command, GitOp, OpKind};
use fg::error::FgError;
use fg::invoke::{git_add, git_commit, git_info, git_init, git_new, git_pull, git_push, git_ro, git_set_branch};

fn strings(v: &[&str]) -> Vec<String> {
    v.iter().map(|s| s.to_string()).collect()
}

fn run(v: &[&str]) -> Result<Command, FgError> {
    interpret(&strings(v))
}

fn ops_of(r: Result<Command, FgError>) -> (Vec<(OpKind, String)>, Option<FgError>) {
    match r {
        Ok(Command::Passthrough(ops, failure)) => {
            (ops.into_iter().map(|o| (o.kind, o.value)).collect(), failure)
        }
        _ => panic!("expected pass-through operations"),
    }
}

#[test]
fn no_flags_shows_help() {
    assert!(matches!(run(&["fg"]), Ok(Command::Help)));
}

#[test]
fn help_flag_wins_anywhere() {
    assert!(matches!(run(&["fg", "--setMode", "svn", "--help"]), Ok(Command::Help)));
    assert!(matches!(run(&["fg", "--commit", "-h"]), Ok(Command::Help)));
}

#[test]
fn commit_without_message_is_missing_value() {
    let (ops, failure) = ops_of(run(&["fg", "--commit"]));
    assert!(ops.is_empty());
    assert_eq!(failure, Some(FgError::MissingRequiredValue("--commit".to_string())));
}

#[test]
fn set_mode_requests() {
    assert!(matches!(run(&["fg", "--setMode", "gh"]), Ok(Command::SetMode(m)) if m == "gh"));
    assert!(matches!(run(&["fg", "--setMode=git", "--init"]), Ok(Command::SetMode(m)) if m == "git"));
    assert_eq!(
        run(&["fg", "--setMode"]).err(),
        Some(FgError::MissingRequiredValue("--setMode".to_string()))
    );
}

#[test]
fn get_and_list_requests() {
    assert!(matches!(run(&["fg", "--getMode", "--listAliases"]), Ok(Command::GetMode)));
    assert!(matches!(run(&["fg", "--listAliases", "--alias", "x"]), Ok(Command::ListAliases)));
}

#[test]
fn create_alias_captures_commands() {
    match run(&["fg", "--createAlias", "save", "add", "commit", "--init"]) {
        Ok(Command::CreateAlias(name, commands)) => {
            assert_eq!(name, "save");
            assert_eq!(commands, strings(&["add", "commit"]));
        }
        _ => panic!("expected alias creation"),
    }
    match run(&["fg", "--createAlias=save", "add", "commit", "--init"]) {
        Ok(Command::CreateAlias(name, commands)) => {
            assert_eq!(name, "save");
            assert_eq!(commands, strings(&["add", "commit"]));
        }
        _ => panic!("expected alias creation"),
    }
    match run(&["fg", "--createAlias=one", "status"]) {
        Ok(Command::CreateAlias(name, commands)) => {
            assert_eq!(name, "one");
            assert_eq!(commands, strings(&["status"]));
        }
        _ => panic!("expected alias creation"),
    }
}

#[test]
fn create_alias_with_name_only_has_no_commands() {
    assert_eq!(run(&["fg", "--createAlias", "one"]).err(), Some(FgError::EmptyCommandList));
    assert_eq!(
        run(&["fg", "--createAlias", "one", "--init"]).err(),
        Some(FgError::EmptyCommandList)
    );
}

#[test]
fn create_alias_errors_in_dispatch() {
    assert_eq!(
        run(&["fg", "--createAlias"]).err(),
        Some(FgError::MissingRequiredValue("--createAlias".to_string()))
    );
    assert_eq!(run(&["fg", "--createAlias=x", "--init"]).err(), Some(FgError::EmptyCommandList));
}

#[test]
fn run_alias_request() {
    assert!(matches!(run(&["fg", "--alias", "save"]), Ok(Command::RunAlias(n)) if n == "save"));
    assert_eq!(
        run(&["fg", "--alias", "-x"]).err(),
        Some(FgError::MissingRequiredValue("--alias".to_string()))
    );
}

#[test]
fn passthrough_runs_in_fixed_order() {
    let (ops, failure) = ops_of(run(&["fg", "--push", "up", "--init", "--add"]));
    assert_eq!(
        ops,
        vec![
            (OpKind::Init, String::new()),
            (OpKind::Add, String::new()),
            (OpKind::Push, "up".to_string()),
        ]
    );
    assert_eq!(failure, None);
}

#[test]
fn passthrough_stops_at_missing_value() {
    let (ops, failure) = ops_of(run(&["fg", "--init", "--new", "--setBranch=", "--info"]));
    assert_eq!(ops, vec![(OpKind::Init, String::new())]);
    assert_eq!(failure, Some(FgError::MissingRequiredValue("--setBranch".to_string())));
}

#[test]
fn unknown_flags_request_nothing() {
    let (ops, failure) = ops_of(run(&["fg", "--frobnicate"]));
    assert!(ops.is_empty());
    assert_eq!(failure, None);
}

#[test]
fn backend_argument_vectors() {
    assert_eq!(git_init("git").args, strings(&["init"]));
    assert_eq!(git_add("git", "").args, strings(&["add", "."]));
    assert_eq!(git_add("git", "a.rs").args, strings(&["add", "a.rs"]));
    assert_eq!(git_commit("gh", "msg").args, strings(&["commit", "-m", "msg"]));
    assert_eq!(git_pull("git", "").args, strings(&["pull", "origin"]));
    assert_eq!(git_push("git", "up").args, strings(&["push", "up"]));
    assert_eq!(git_set_branch("git", "dev").args, strings(&["checkout", "-b", "dev"]));
    assert_eq!(git_ro("git", "u").args, strings(&["remote", "add", "origin", "u"]));
    assert_eq!(git_info("git", "").args, strings(&["status", "."]));
    assert_eq!(git_new("git", "b").args, strings(&["checkout", "-b", "b"]));
    assert_eq!(git_init("gh").program, "gh");
}

#[test]
fn operation_invocation_matches_builder() {
    let op = GitOp { kind: OpKind::Pull, value: "up".to_string() };
    let inv = op_invocation("gh", &op);
    assert_eq!(inv.program, "gh");
    assert_eq!(inv.args, strings(&["pull", "up"]));
    let op = GitOp { kind: OpKind::Info, value: String::new() };
    assert_eq!(op_invocation("git", &op).args, strings(&["status", "."]));
}
