use opencowork::router::{is_fresh, DedupStore, RouterConfig, RouterCore};
use opencowork::slack::SlackIdentity;
use opencowork::telegram::TelegramIdentity;

const SEC: u128 = 1_000_000_000;

#[test]
fn router_config_defaults() {
    let c = RouterConfig::default();
    assert!(c.telegram.is_empty() && c.slack.is_empty());
    assert_eq!(c.opencode_url, "http://localhost:3000");
    assert!(c.opencode_token.is_none());
    assert_eq!(c.dedup_window_secs, 30);
}

#[test]
fn freshness_is_age_below_window() {
    assert!(is_fresh(29 * SEC, 0, 30));
    assert!(!is_fresh(30 * SEC, 0, 30));
    // a reading before the entry counts as age zero
    assert!(is_fresh(0, 5 * SEC, 30));
    assert!(!is_fresh(0, 0, 0));
}

#[test]
fn dedup_repeat_within_window_is_duplicate() {
    let mut d = DedupStore::new(30);
    assert!(!d.is_duplicate_at("m1", 0));
    assert!(d.is_duplicate_at("m1", 10 * SEC));
    assert!(!d.is_duplicate_at("m2", 10 * SEC));
    assert_eq!(d.len(), 2);
}

#[test]
fn dedup_forgets_after_window() {
    let mut d = DedupStore::new(30);
    assert!(!d.is_duplicate_at("m1", 0));
    // the lookup at 30 s drops the entry from 0 s, then records it anew
    assert!(!d.is_duplicate_at("m1", 30 * SEC));
    assert_eq!(d.len(), 1);
    assert!(d.is_duplicate_at("m1", 31 * SEC));
}

#[test]
fn dedup_with_the_clock() {
    let mut d = DedupStore::new(30);
    assert!(!d.is_duplicate("x"));
    assert!(d.is_duplicate("x"));
    assert_eq!(d.len(), 1);
}

#[test]
fn route_message_counts_routed_and_dropped() {
    let mut config = RouterConfig::default();
    config.telegram.push(TelegramIdentity { token: "t".into(), id: "tg".into(), name: None });
    config.slack.push(SlackIdentity {
        bot_token: "b".into(),
        app_token: "a".into(),
        id: "sl".into(),
        workspace: None,
    });
    let mut core = RouterCore::new(config);
    assert!(core.route_message("a"));
    assert!(!core.route_message("a"));
    assert!(core.route_message("b"));
    let h = core.health();
    assert_eq!(h.messages_routed, 2);
    assert_eq!(h.messages_dropped, 1);
    assert_eq!(h.active_adapters, 2);
    assert_eq!(h.dedup_store_size, 2);
}

#[test]
fn dedup_history_follows_the_window() {
    // a duplicate does not restart the window
    let mut d = DedupStore::new(10);
    assert!(!d.is_duplicate_at("m", 0));
    assert!(d.is_duplicate_at("m", 5 * SEC));
    assert!(d.is_duplicate_at("m", 9 * SEC));
    assert!(!d.is_duplicate_at("m", 10 * SEC));
    assert!(d.is_duplicate_at("m", 19 * SEC));
    // with no window nothing is a duplicate
    let mut z = DedupStore::new(0);
    assert!(!z.is_duplicate_at("m", 0));
    assert!(!z.is_duplicate_at("m", 0));
}
