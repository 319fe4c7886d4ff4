use seoy::args::check_channel;
use seoy::args::check_command;
use seoy::args::check_role_or_user;
use seoy::args::partition_args;
use seoy::args::tokenize_args;
use seoy::text::split_ws;
use seoy::text::strip_quotes;

fn toks(ts: &[&str]) -> Vec<String> {
    ts.iter().map(|t| t.to_string()).collect()
}

#[test]
fn split_on_whitespace() {
    assert_eq!(split_ws("ping in #general"), toks(&["ping", "in", "#general"]));
    assert_eq!(split_ws("  ping \t in\n#general  "), toks(&["ping", "in", "#general"]));
    assert_eq!(split_ws(""), toks(&[]));
    assert_eq!(split_ws("   \t "), toks(&[]));
    assert_eq!(split_ws("one"), toks(&["one"]));
}

#[test]
fn partition_single_command() {
    let p = partition_args(&toks(&["ping"]));
    assert_eq!(p.commands, Some(toks(&["ping"])));
    assert_eq!(p.channels, None);
    assert_eq!(p.role_user, None);
}

#[test]
fn partition_with_channel_clause() {
    let p = partition_args(&toks(&["ping", "in", "#general"]));
    assert_eq!(p.commands, Some(toks(&["ping"])));
    assert_eq!(p.channels, Some(toks(&["#general"])));
    assert_eq!(p.role_user, None);
}

#[test]
fn partition_with_role_clause() {
    let p = partition_args(&toks(&["ping", "for", "@role1", "@role2"]));
    assert_eq!(p.commands, Some(toks(&["ping"])));
    assert_eq!(p.channels, None);
    assert_eq!(p.role_user, Some(toks(&["@role1", "@role2"])));
}

#[test]
fn partition_with_both_clauses() {
    let p = partition_args(&toks(&["ping", "in", "#general", "for", "@role1"]));
    assert_eq!(p.commands, Some(toks(&["ping"])));
    assert_eq!(p.channels, Some(toks(&["#general"])));
    assert_eq!(p.role_user, Some(toks(&["@role1"])));
}

#[test]
fn partition_with_reversed_clauses() {
    let p = partition_args(&toks(&["ping", "for", "@role1", "in", "#general"]));
    assert_eq!(p.commands, Some(toks(&["ping"])));
    assert_eq!(p.channels, Some(toks(&["#general"])));
    assert_eq!(p.role_user, Some(toks(&["@role1"])));
}

#[test]
fn absent_clauses_default_to_all() {
    let f = tokenize_args("ping");
    assert_eq!(f.commands, Some(toks(&["ping"])));
    assert_eq!(f.channels, Some(toks(&["all"])));
    assert_eq!(f.role_user, Some(toks(&["all"])));
}

#[test]
fn invalid_tokens_are_dropped() {
    let f = tokenize_args("bogus ping in general #general for role1 @role1");
    assert_eq!(f.commands, Some(toks(&["ping"])));
    assert_eq!(f.channels, Some(toks(&["#general"])));
    assert_eq!(f.role_user, Some(toks(&["@role1"])));
}

#[test]
fn empty_clause_stays_empty() {
    let f = tokenize_args("in #general");
    assert_eq!(f.commands, Some(toks(&[])));
    assert_eq!(f.channels, Some(toks(&["#general"])));
    assert_eq!(f.role_user, Some(toks(&["all"])));
}

#[test]
fn command_predicate() {
    assert!(check_command("ping"));
    assert!(check_command("say"));
    assert!(check_command("botinvite"));
    assert!(check_command("invite"));
    assert!(check_command("enable"));
    assert!(check_command("disable"));
    assert!(check_command("prefix"));
    assert!(check_command("help"));
    assert!(check_command("all"));
    assert!(!check_command("bogus"));
    assert!(!check_command(""));
}

#[test]
fn channel_predicate() {
    assert!(check_channel("#general"));
    assert!(check_channel("<#123456>"));
    assert!(check_channel("all"));
    assert!(!check_channel("general"));
    assert!(!check_channel("#"));
    assert!(!check_channel("<#>"));
    assert!(!check_channel(""));
}

#[test]
fn role_or_user_predicate() {
    assert!(check_role_or_user("@role1"));
    assert!(check_role_or_user("<@123456>"));
    assert!(check_role_or_user("<@&98>"));
    assert!(check_role_or_user("all"));
    assert!(!check_role_or_user("role1"));
    assert!(!check_role_or_user("@"));
    assert!(!check_role_or_user(""));
}

#[test]
fn quote_stripping() {
    assert_eq!(strip_quotes("\"hello ae\""), "hello ae");
    assert_eq!(strip_quotes("ae"), "ae");
    assert_eq!(strip_quotes("\"\""), "");
    assert_eq!(strip_quotes("\""), "\"");
    assert_eq!(strip_quotes("\"open"), "\"open");
    assert_eq!(strip_quotes("close\""), "close\"");
}
