use fg::flags::get_flag_value;

fn args(v: &[&str]) -> Vec<String> {
    v.iter().map(|s| s.to_string()).collect()
}

#[test]
fn equals_form_gives_value() {
    let a = args(&["fg", "--add=src/main.rs", "--init"]);
    assert_eq!(get_flag_value(&a, "--add"), Some("src/main.rs".to_string()));
}

#[test]
fn equals_form_with_empty_value() {
    let a = args(&["fg", "--pull="]);
    assert_eq!(get_flag_value(&a, "--pull"), Some(String::new()));
}

#[test]
fn bare_form_takes_next_token() {
    let a = args(&["fg", "--commit", "first commit"]);
    assert_eq!(get_flag_value(&a, "--commit"), Some("first commit".to_string()));
}

#[test]
fn bare_form_followed_by_dash_token_is_empty() {
    let a = args(&["fg", "--add", "-v"]);
    assert_eq!(get_flag_value(&a, "--add"), Some(String::new()));
    let b = args(&["fg", "--add", "--init"]);
    assert_eq!(get_flag_value(&b, "--add"), Some(String::new()));
}

#[test]
fn bare_form_at_end_is_empty() {
    let a = args(&["fg", "--push"]);
    assert_eq!(get_flag_value(&a, "--push"), Some(String::new()));
}

#[test]
fn absent_flag_is_none() {
    let a = args(&["fg", "--pushy", "x", "--pus"]);
    assert_eq!(get_flag_value(&a, "--push"), None);
    assert_eq!(get_flag_value(&args(&[]), "--push"), None);
}

#[test]
fn first_occurrence_wins() {
    let a = args(&["fg", "--new", "a", "--new=b"]);
    assert_eq!(get_flag_value(&a, "--new"), Some("a".to_string()));
    let b = args(&["fg", "--new=b", "--new", "a"]);
    assert_eq!(get_flag_value(&b, "--new"), Some("b".to_string()));
}

#[test]
fn value_may_look_like_a_flag_without_dash() {
    let a = args(&["fg", "--ro", "git@host:repo.git"]);
    assert_eq!(get_flag_value(&a, "--ro"), Some("git@host:repo.git".to_string()));
}

#[test]
fn non_ascii_value_is_kept_whole() {
    let a = args(&["fg", "--commit=héllo wörld"]);
    assert_eq!(get_flag_value(&a, "--commit"), Some("héllo wörld".to_string()));
}
