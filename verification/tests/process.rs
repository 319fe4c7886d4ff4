use seoy::commands::invite_embed;
use seoy::commands::ping_reply;
use seoy::commands::say_options;
use seoy::config::config_from_fields;
use seoy::config::ConfigError;
use seoy::startup::step;
use seoy::startup::StartupAction;
use seoy::startup::StartupEvent;
use seoy::startup::StartupPhase;

#[test]
fn ping_replies_pong() {
    assert_eq!(ping_reply(), "Pong!");
}

#[test]
fn say_never_relays_raw_mentions_in_direct_messages() {
    let opts = say_options(None);
    assert!(opts.clean_user);
    assert!(opts.clean_role);
    assert!(!opts.clean_channel);
    assert_eq!(opts.display_as_member_from, None);
}

#[test]
fn say_renders_user_mentions_as_display_names_in_guilds() {
    let opts = say_options(Some(42));
    assert!(opts.clean_user);
    assert_eq!(opts.display_as_member_from, Some(42));
}

#[test]
fn invite_embed_fields() {
    let e = invite_embed("https://invite.example".to_string());
    assert_eq!(e.title, "Bot Invite Link");
    assert_eq!(e.url, "https://invite.example");
    assert_eq!(e.color, 64141);
    assert_eq!(e.description, "Click the title to invite me to your server");
}

#[test]
fn config_needs_all_fields() {
    let ok = config_from_fields(Some("tok".to_string()), Some("ae".to_string()), Some(7)).unwrap();
    assert_eq!(ok.token, "tok");
    assert_eq!(ok.prefix, "ae");
    assert_eq!(ok.user_id, 7);

    let e = config_from_fields(None, Some("ae".to_string()), Some(7)).unwrap_err();
    assert_eq!(e, ConfigError::MissingToken);
    let e = config_from_fields(Some("tok".to_string()), None, Some(7)).unwrap_err();
    assert_eq!(e, ConfigError::MissingPrefix);
    let e = config_from_fields(Some("tok".to_string()), Some("ae".to_string()), None).unwrap_err();
    assert_eq!(e, ConfigError::MissingUserId);
}

#[test]
fn db_failure_terminates_before_any_gateway_step() {
    let (p, a) = step(StartupPhase::Init, StartupEvent::DbErr);
    assert_eq!(p, StartupPhase::Stopped);
    assert_eq!(a, StartupAction::Exit);
    // once stopped, nothing restarts the sequence
    let (p2, a2) = step(p, StartupEvent::ConfigOk);
    assert_eq!(p2, StartupPhase::Stopped);
    assert_eq!(a2, StartupAction::Exit);
}

#[test]
fn gateway_starts_only_after_db_and_config() {
    let (p1, a1) = step(StartupPhase::Init, StartupEvent::DbOk);
    assert_eq!(p1, StartupPhase::DbReady);
    assert_eq!(a1, StartupAction::LoadConfig);
    let (p2, a2) = step(p1, StartupEvent::ConfigOk);
    assert_eq!(p2, StartupPhase::Running);
    assert_eq!(a2, StartupAction::StartGateway);
    let (p3, a3) = step(p2, StartupEvent::GatewayClosed);
    assert_eq!(p3, StartupPhase::Stopped);
    assert_eq!(a3, StartupAction::Exit);
}

#[test]
fn config_failure_terminates_before_gateway() {
    let (p1, _) = step(StartupPhase::Init, StartupEvent::DbOk);
    let (p2, a2) = step(p1, StartupEvent::ConfigErr);
    assert_eq!(p2, StartupPhase::Stopped);
    assert_eq!(a2, StartupAction::Exit);
}
