use seoy::commands::disable_command;
use seoy::commands::dynamic_prefix;
use seoy::commands::enable_command;
use seoy::commands::prefix_command;
use seoy::commands::Reply;
use seoy::store::GuildSettings;
use seoy::store::SettingsStore;

fn toks(ts: &[&str]) -> Vec<String> {
    ts.iter().map(|t| t.to_string()).collect()
}

fn seed_is_sound(doc: &GuildSettings, id: i64, prefix: &str) {
    assert_eq!(doc.id, id);
    assert_eq!(doc.prefix, prefix);
    assert_eq!(doc.commands.len(), 1);
    assert_eq!(doc.commands[0].0, "ping");
    assert!(!doc.commands[0].1.server);
    assert!(doc.commands[0].1.roles.is_empty());
    assert!(doc.commands[0].1.channels.is_empty());
    assert!(doc.commands[0].1.users.is_empty());
}

#[test]
fn first_lookup_creates_one_document_with_default_prefix() {
    let mut st = SettingsStore::new();
    let p = dynamic_prefix(&mut st, Some(42), "ae");
    assert_eq!(p, "ae");
    assert_eq!(st.docs.len(), 1);
    seed_is_sound(&st.docs[0], 42, "ae");

    let p2 = dynamic_prefix(&mut st, Some(42), "ae");
    assert_eq!(p2, "ae");
    assert_eq!(st.docs.len(), 1);
}

#[test]
fn direct_message_uses_default_prefix_and_stores_nothing() {
    let mut st = SettingsStore::new();
    let p = dynamic_prefix(&mut st, None, "ae");
    assert_eq!(p, "ae");
    assert_eq!(st.docs.len(), 0);
}

#[test]
fn first_enable_creates_one_document() {
    let mut st = SettingsStore::new();
    let f = enable_command(&mut st, 7, "ping", "ae").unwrap();
    assert_eq!(st.docs.len(), 1);
    seed_is_sound(&st.docs[0], 7, "ae");
    assert_eq!(f.commands, Some(toks(&["ping"])));

    enable_command(&mut st, 7, "say", "ae").unwrap();
    assert_eq!(st.docs.len(), 1);
}

#[test]
fn first_disable_creates_one_document() {
    let mut st = SettingsStore::new();
    let f = disable_command(&mut st, 9, "ping in #general", "ae").unwrap();
    assert_eq!(st.docs.len(), 1);
    seed_is_sound(&st.docs[0], 9, "ae");
    assert_eq!(f.commands, Some(toks(&["ping"])));
    assert_eq!(f.channels, Some(toks(&["#general"])));
    assert_eq!(f.role_user, Some(toks(&["all"])));
}

#[test]
fn enable_with_no_arguments_is_a_no_op() {
    let mut st = SettingsStore::new();
    let r = enable_command(&mut st, 7, "", "ae");
    assert!(r.is_none());
    assert_eq!(st.docs.len(), 0);
}

#[test]
fn prefix_without_argument_shows_stored_prefix() {
    let mut st = SettingsStore::new();
    let r = prefix_command(&mut st, 42, &toks(&[]), "ae");
    assert_eq!(r, Reply::CurrentPrefix("ae".to_string()));
    assert_eq!(st.docs.len(), 1);
    seed_is_sound(&st.docs[0], 42, "ae");
}

#[test]
fn prefix_set_then_lookup_round_trip() {
    let mut st = SettingsStore::new();
    let r = prefix_command(&mut st, 42, &toks(&["\"hello ae\""]), "ae");
    assert_eq!(r, Reply::PrefixChanged("hello ae".to_string()));

    let shown = prefix_command(&mut st, 42, &toks(&[]), "ae");
    assert_eq!(shown, Reply::CurrentPrefix("hello ae".to_string()));

    let resolved = dynamic_prefix(&mut st, Some(42), "ae");
    assert_eq!(resolved, "hello ae");
    assert_eq!(st.docs.len(), 1);
}

#[test]
fn prefix_change_keeps_other_guilds() {
    let mut st = SettingsStore::new();
    dynamic_prefix(&mut st, Some(1), "ae");
    prefix_command(&mut st, 2, &toks(&["!"]), "ae");
    assert_eq!(st.docs.len(), 2);
    let one = st.docs.iter().find(|d| d.id == 1).unwrap();
    assert_eq!(one.prefix, "ae");
    let two = st.docs.iter().find(|d| d.id == 2).unwrap();
    assert_eq!(two.prefix, "!");
}

#[test]
fn prefix_with_too_many_arguments_is_rejected() {
    let mut st = SettingsStore::new();
    let r = prefix_command(&mut st, 42, &toks(&["a", "b"]), "ae");
    assert_eq!(r, Reply::UsageError);
    assert_eq!(st.docs.len(), 0);
}

#[test]
fn seed_document_shape() {
    let doc = GuildSettings::new(5, "ae");
    seed_is_sound(&doc, 5, "ae");
}
