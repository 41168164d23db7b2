use opencowork::slack::{SlackAdapter, SlackIdentity};
use opencowork::telegram::{is_telegram_peer_id, ParseMode, TelegramAdapter, TelegramIdentity};

#[test]
fn telegram_peer_ids() {
    assert!(is_telegram_peer_id("12345"));
    assert!(is_telegram_peer_id("-1001234567890"));
    assert!(is_telegram_peer_id("  42  "));
    assert!(!is_telegram_peer_id("abc"));
    assert!(!is_telegram_peer_id("12a"));
    assert!(!is_telegram_peer_id("--1"));
    assert!(!is_telegram_peer_id("+1"));
    // at least one digit is needed
    assert!(!is_telegram_peer_id(""));
    assert!(!is_telegram_peer_id("-"));
    assert!(!is_telegram_peer_id("   "));
    assert!(is_telegram_peer_id("0"));
}

#[test]
fn telegram_adapter_validation() {
    let ok = TelegramAdapter::new(TelegramIdentity { token: "123:abc".into(), id: "bot1".into(), name: None });
    assert_eq!(ok.identity_id(), "bot1");
    assert!(ok.validate().is_ok());
    let missing = TelegramAdapter::new(TelegramIdentity { token: String::new(), id: "bot2".into(), name: None });
    assert_eq!(missing.validate(), Err("Telegram token is required".to_string()));
}

#[test]
fn slack_adapter_validation() {
    let ident = |bot: &str, app: &str| SlackIdentity {
        bot_token: bot.into(),
        app_token: app.into(),
        id: "ws1".into(),
        workspace: None,
    };
    let a = SlackAdapter::new(ident("xoxb", "xapp"));
    assert_eq!(a.identity_id(), "ws1");
    assert!(a.validate().is_ok());
    assert_eq!(SlackAdapter::new(ident("", "xapp")).validate(), Err("Slack bot token is required".to_string()));
    assert_eq!(SlackAdapter::new(ident("xoxb", "")).validate(), Err("Slack app token is required".to_string()));
    assert_eq!(SlackAdapter::new(ident("", "")).validate(), Err("Slack bot token is required".to_string()));
}

#[test]
fn parse_mode_defaults_to_plain() {
    assert!(matches!(ParseMode::default(), ParseMode::Plain));
}
