use fg::alias::{create_alias, list_aliases, AliasTable};
use fg::error::FgError;
use fg::invoke::{run_alias, RunProgress, RunStep};
use fg::store::{get_current_mode, set_mode, Config};

fn strings(v: &[&str]) -> Vec<String> {
    v.iter().map(|s| s.to_string()).collect()
}

#[test]
fn default_mode_is_git() {
    assert_eq!(Config::default_config().mode, "git");
    assert_eq!(Config::from_stored(None).mode, "git");
    assert_eq!(Config::from_stored(Some("svn".to_string())).mode, "git");
    assert_eq!(Config::from_stored(Some("gh".to_string())).mode, "gh");
}

#[test]
fn write_gh_then_read_back() {
    let mut c = Config::default_config();
    assert!(set_mode(&mut c, "gh").is_ok());
    assert_eq!(get_current_mode(&c), "gh");
    assert!(set_mode(&mut c, "gh").is_ok());
    assert_eq!(get_current_mode(&c), "gh");
}

#[test]
fn invalid_mode_is_refused() {
    let mut c = Config::default_config();
    assert_eq!(set_mode(&mut c, "svn"), Err(FgError::InvalidMode));
    assert_eq!(c.mode, "git");
    assert_eq!(set_mode(&mut c, ""), Err(FgError::InvalidMode));
    assert_eq!(set_mode(&mut c, "GIT"), Err(FgError::InvalidMode));
    assert!(set_mode(&mut c, "gh").is_ok());
    assert!(set_mode(&mut c, "git").is_ok());
    assert_eq!(c.mode, "git");
}

#[test]
fn create_then_read_alias() {
    let mut t = AliasTable::new();
    assert!(create_alias(&mut t, "x", strings(&["status", "log"])).is_ok());
    assert_eq!(t.commands_of("x"), Some(strings(&["status", "log"])));
    assert!(create_alias(&mut t, "x", strings(&["diff"])).is_ok());
    assert_eq!(t.commands_of("x"), Some(strings(&["diff"])));
    assert_eq!(t.entries.len(), 1);
}

#[test]
fn aliases_are_kept_apart() {
    let mut t = AliasTable::new();
    assert!(create_alias(&mut t, "a", strings(&["status"])).is_ok());
    assert!(create_alias(&mut t, "b", strings(&["log", "diff"])).is_ok());
    assert_eq!(t.commands_of("a"), Some(strings(&["status"])));
    assert_eq!(t.commands_of("b"), Some(strings(&["log", "diff"])));
    assert_eq!(t.commands_of("c"), None);
    assert_eq!(t.find("b"), Some(1));
}

#[test]
fn create_alias_errors() {
    let mut t = AliasTable::new();
    assert_eq!(create_alias(&mut t, "", strings(&["status"])), Err(FgError::EmptyAliasName));
    assert_eq!(create_alias(&mut t, "", Vec::new()), Err(FgError::EmptyAliasName));
    assert_eq!(create_alias(&mut t, "x", Vec::new()), Err(FgError::EmptyCommandList));
    assert!(t.entries.is_empty());
}

#[test]
fn run_missing_alias_fails() {
    let mut t = AliasTable::new();
    assert!(matches!(run_alias(&t, "git", "missing"), Err(FgError::AliasNotFound)));
    assert!(create_alias(&mut t, "other", strings(&["status"])).is_ok());
    assert!(matches!(run_alias(&t, "git", "missing"), Err(FgError::AliasNotFound)));
}

#[test]
fn run_alias_splits_commands_on_whitespace() {
    let mut t = AliasTable::new();
    assert!(create_alias(&mut t, "save", strings(&["add  .", "commit -m \"two words\"", "status"])).is_ok());
    let plan = match run_alias(&t, "gh", "save") {
        Ok(p) => p,
        Err(e) => panic!("unexpected {:?}", e),
    };
    assert_eq!(plan.len(), 3);
    assert!(plan.iter().all(|i| i.program == "gh"));
    assert_eq!(plan[0].args, strings(&["add", "."]));
    assert_eq!(plan[1].args, strings(&["commit", "-m", "\"two", "words\""]));
    assert_eq!(plan[2].args, strings(&["status"]));
}

#[test]
fn listing_holds_each_alias_once() {
    let mut t = AliasTable::new();
    assert!(list_aliases(&t).is_empty());
    assert!(create_alias(&mut t, "a", strings(&["status"])).is_ok());
    assert!(create_alias(&mut t, "b", strings(&["log"])).is_ok());
    assert!(create_alias(&mut t, "a", strings(&["diff", "log"])).is_ok());
    let listing = list_aliases(&t);
    assert_eq!(
        listing,
        vec![
            ("a".to_string(), strings(&["diff", "log"])),
            ("b".to_string(), strings(&["log"])),
        ]
    );
}

#[test]
fn run_progress_stops_at_first_failure() {
    let mut p = RunProgress::new(3);
    assert_eq!(p.step(), RunStep::Launch(0));
    p.record(true);
    assert_eq!(p.step(), RunStep::Launch(1));
    p.record(false);
    assert_eq!(p.step(), RunStep::Failed(1));
    assert_eq!(p.completed, 1);
}

#[test]
fn run_progress_finishes_when_all_succeed() {
    let mut p = RunProgress::new(2);
    p.record(true);
    p.record(true);
    assert_eq!(p.step(), RunStep::Finished);
    assert_eq!(RunProgress::new(0).step(), RunStep::Finished);
}

#[test]
fn run_alias_splits_on_unicode_whitespace() {
    let mut t = AliasTable::new();
    assert!(create_alias(&mut t, "w", strings(&["log\u{3000}-1\t--oneline\n"])).is_ok());
    let plan = match run_alias(&t, "git", "w") {
        Ok(p) => p,
        Err(e) => panic!("unexpected {:?}", e),
    };
    assert_eq!(plan.len(), 1);
    assert_eq!(plan[0].args, strings(&["log", "-1", "--oneline"]));
}
