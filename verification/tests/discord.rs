use moltis_core::discord::account::{DiscordAccountConfig, Handles};
use moltis_core::discord::bot_token::BotToken;
use moltis_core::discord::gateway::{gateway_start, gateway_step, GatewayAction, GatewayEvent};
use moltis_core::discord::plugin::{ChannelError, DiscordPlugin};
use moltis_core::discord::stop::{stop_step, StopAction, StopEvent};
use std::sync::Arc;

struct Plain;

impl Handles for Plain {
    type MessageLog = &'static str;
    type EventSink = &'static str;
    type CancelToken = u32;
    type TaskHandle = u64;
    type Http = &'static str;
    type Settings = &'static str;
}

type Plugin = DiscordPlugin<Plain>;

fn config(token: &str, settings: &'static str) -> DiscordAccountConfig<Plain> {
    DiscordAccountConfig { token: BotToken::new(token.to_string()), otp_cooldown_secs: 300, settings }
}

fn started(ids: &[&str]) -> Plugin {
    let mut plugin = Plugin::new();
    for (n, id) in ids.iter().enumerate() {
        assert!(plugin.start_account(id, Ok(config("t", "s")), n as u32).is_ok());
    }
    plugin
}

fn health(plugin: &Plugin, id: &str) -> (bool, String, Option<String>) {
    let snapshot = plugin.probe(id).ok().unwrap();
    (snapshot.connected, snapshot.account_id, snapshot.details)
}

#[test]
fn new_plugin_is_empty() {
    let plugin = Plugin::new();
    assert!(plugin.account_ids().is_empty());
    assert!(!plugin.has_account("a"));
    assert!(plugin.account_config("a").is_none());
    assert!(Plugin::default().account_ids().is_empty());
    assert_eq!(plugin.id(), "discord");
    assert_eq!(plugin.name(), "Discord");
}

#[test]
fn token_is_kept() {
    let token = BotToken::new("abc".to_string());
    assert_eq!(token.expose_secret(), "abc");
}

#[test]
fn started_account_is_there() {
    let mut plugin = Plugin::new();
    let launch = plugin.start_account("a", Ok(config("secret", "s1")), 7).ok().unwrap();
    assert_eq!(launch.account_id, "a");
    assert_eq!(launch.token, "secret");
    assert!(plugin.has_account("a"));
    assert!(!plugin.has_account("A"));
    assert_eq!(plugin.account_ids(), vec!["a".to_string()]);
    let kept = plugin.account_config("a").unwrap();
    assert_eq!(kept.token.expose_secret(), "secret");
    assert_eq!(kept.otp_cooldown_secs, 300);
    assert_eq!(kept.settings, "s1");
}

#[test]
fn account_is_kept_as_it_was_started() {
    let mut plugin = Plugin::new().with_message_log(Arc::new("log"));
    assert!(plugin.start_account("a", Ok(config("t", "s")), 3).is_ok());
    let account = plugin.account("a").unwrap();
    assert_eq!(account.account_id, "a");
    assert_eq!(account.message_log, Some(Arc::new("log")));
    assert_eq!(account.event_sink, None);
    assert_eq!(account.cancel, 3);
    assert_eq!(account.task_handle, None);
    assert_eq!(account.bot_user_id, None);
    assert_eq!(account.http, None);
    assert_eq!(account.otp_cooldown_secs, 300);
    plugin.store_http("a", "http");
    assert_eq!(plugin.account("a").unwrap().http, Some("http"));
    // The cooldown stays the one of the start.
    let mut update = config("t", "s");
    update.otp_cooldown_secs = 60;
    assert!(plugin.update_account_config("a", Ok(update)).is_ok());
    assert_eq!(plugin.account("a").unwrap().otp_cooldown_secs, 300);
    assert_eq!(plugin.account_config("a").unwrap().otp_cooldown_secs, 60);
    assert!(plugin.account("b").is_none());
}

#[test]
fn account_without_token_is_refused() {
    let mut plugin = started(&["a"]);
    match plugin.start_account("a", Ok(config("", "s2")), 1) {
        Err(ChannelError::InvalidInput { message }) => assert_eq!(message, "Discord bot token is required"),
        _ => panic!("not refused"),
    }
    assert_eq!(plugin.account_config("a").unwrap().settings, "s");
    assert!(plugin.start_account("b", Ok(config("", "s2")), 1).is_err());
    assert!(!plugin.has_account("b"));
}

#[test]
fn unreadable_config_is_refused() {
    let mut plugin = started(&["a"]);
    let unreadable = || Err(ChannelError::InvalidConfig { reason: "missing field".to_string() });
    match plugin.start_account("b", unreadable(), 1) {
        Err(ChannelError::InvalidConfig { reason }) => assert_eq!(reason, "missing field"),
        _ => panic!("not refused"),
    }
    // The configuration is looked at before the account.
    match plugin.update_account_config("nobody", unreadable()) {
        Err(ChannelError::InvalidConfig { reason }) => assert_eq!(reason, "missing field"),
        _ => panic!("not refused"),
    }
    assert_eq!(plugin.account_ids(), vec!["a".to_string()]);
}

#[test]
fn restarted_account_is_replaced() {
    let mut plugin = started(&["a", "b"]);
    plugin.store_task("a", 11);
    plugin.store_bot_user("a", 5);
    assert!(plugin.start_account("a", Ok(config("t2", "s2")), 9).is_ok());
    let mut ids = plugin.account_ids();
    ids.sort();
    assert_eq!(ids, vec!["a".to_string(), "b".to_string()]);
    assert_eq!(health(&plugin, "a").0, false);
    let stopped = plugin.stop_account("a").unwrap();
    assert_eq!(stopped.cancel, 9);
    assert_eq!(stopped.task, None);
}

#[test]
fn update_changes_the_config_only() {
    let mut plugin = started(&["a", "b"]);
    plugin.store_task("a", 11);
    plugin.store_bot_user("a", 5);
    assert!(plugin.update_account_config("a", Ok(config("t2", "s2"))).is_ok());
    assert_eq!(plugin.account_config("a").unwrap().settings, "s2");
    assert_eq!(plugin.account_config("b").unwrap().settings, "s");
    assert!(health(&plugin, "a").0);
    let stopped = plugin.stop_account("a").unwrap();
    assert_eq!(stopped.cancel, 0);
    assert_eq!(stopped.task, Some(11));
}

#[test]
fn update_may_clear_the_token() {
    let mut plugin = started(&["a"]);
    assert!(plugin.update_account_config("a", Ok(config("", "s2"))).is_ok());
    assert_eq!(plugin.account_config("a").unwrap().token.expose_secret(), "");
}

#[test]
fn update_of_unknown_account_is_refused() {
    let mut plugin = started(&["a"]);
    match plugin.update_account_config("b", Ok(config("t", "s"))) {
        Err(ChannelError::UnknownAccount { account_id }) => assert_eq!(account_id, "b"),
        _ => panic!("not refused"),
    }
    assert!(!plugin.has_account("b"));
}

#[test]
fn health_of_an_account() {
    let mut plugin = started(&["a"]);
    assert_eq!(
        health(&plugin, "a"),
        (false, "a".to_string(), Some("connecting to Discord gateway...".to_string()))
    );
    plugin.store_http("a", "http");
    assert!(!health(&plugin, "a").0);
    plugin.store_bot_user("a", 42);
    assert_eq!(health(&plugin, "a"), (true, "a".to_string(), Some("gateway connected".to_string())));
    assert_eq!(health(&plugin, "b"), (false, "b".to_string(), Some("account not started".to_string())));
}

#[test]
fn stop_hands_over_the_task() {
    let mut plugin = started(&["a", "b", "c"]);
    plugin.store_task("b", 22);
    let stopped = plugin.stop_account("b").unwrap();
    assert_eq!(stopped.cancel, 1);
    assert_eq!(stopped.task, Some(22));
    assert_eq!(stopped.timeout_secs, 5);
    assert_eq!(stopped.first, StopAction::Cancel { task_known: true });
    let mut ids = plugin.account_ids();
    ids.sort();
    assert_eq!(ids, vec!["a".to_string(), "c".to_string()]);
    assert_eq!(health(&plugin, "b").2, Some("account not started".to_string()));
    assert!(plugin.stop_account("b").is_none());
}

#[test]
fn late_reports_change_nothing() {
    let mut plugin = started(&["a"]);
    assert!(plugin.stop_account("a").is_some());
    plugin.store_http("a", "http");
    plugin.store_task("a", 1);
    plugin.store_bot_user("a", 2);
    assert!(!plugin.has_account("a"));
    assert!(plugin.account_ids().is_empty());
}

#[test]
fn accounts_share_the_handles_of_the_plugin() {
    let log: Arc<&'static str> = Arc::new("log");
    let sink: Arc<&'static str> = Arc::new("sink");
    let mut plugin = Plugin::new().with_message_log(Arc::clone(&log)).with_event_sink(Arc::clone(&sink));
    assert_eq!(Arc::strong_count(&log), 2);
    assert!(plugin.start_account("a", Ok(config("t", "s")), 0).is_ok());
    assert_eq!(Arc::strong_count(&log), 3);
    assert_eq!(Arc::strong_count(&sink), 3);
    assert!(plugin.stop_account("a").is_some());
    assert_eq!(Arc::strong_count(&log), 2);
}

fn run(events: &[GatewayEvent]) -> GatewayAction {
    let mut action = gateway_start();
    for event in events {
        action = gateway_step(action, *event);
    }
    action
}

#[test]
fn gateway_task_runs_and_shuts_down() {
    assert_eq!(run(&[]), GatewayAction::BuildClient);
    assert_eq!(run(&[GatewayEvent::BuildFailed]), GatewayAction::Finished);
    assert_eq!(run(&[GatewayEvent::ClientBuilt]), GatewayAction::StoreHttp);
    assert_eq!(run(&[GatewayEvent::ClientBuilt, GatewayEvent::HttpStored]), GatewayAction::RunClient);
    assert_eq!(run(&[GatewayEvent::ClientBuilt, GatewayEvent::HttpStored, GatewayEvent::ClientStopped]), GatewayAction::Finished);
    let cancelled = [GatewayEvent::ClientBuilt, GatewayEvent::HttpStored, GatewayEvent::Cancelled, GatewayEvent::ShardsDown, GatewayEvent::Settled];
    assert_eq!(run(&cancelled[..3]), GatewayAction::ShutDownShards);
    assert_eq!(run(&cancelled[..4]), GatewayAction::Settle { millis: 500 });
    assert_eq!(run(&cancelled), GatewayAction::Finished);
}

#[test]
fn gateway_task_ignores_events_out_of_turn() {
    assert_eq!(run(&[GatewayEvent::Cancelled, GatewayEvent::Settled]), GatewayAction::BuildClient);
    assert_eq!(run(&[GatewayEvent::BuildFailed, GatewayEvent::ClientBuilt]), GatewayAction::Finished);
}

#[test]
fn stop_cancels_before_it_waits() {
    let first = StopAction::Cancel { task_known: true };
    assert_eq!(stop_step(first, StopEvent::TaskEnded), first);
    assert_eq!(stop_step(first, StopEvent::TimedOut), first);
    let wait = stop_step(first, StopEvent::Cancelled);
    assert_eq!(wait, StopAction::AwaitTask { timeout_secs: 5 });
    assert_eq!(stop_step(wait, StopEvent::Cancelled), wait);
    assert_eq!(stop_step(wait, StopEvent::TaskEnded), StopAction::Finished);
    assert_eq!(stop_step(wait, StopEvent::TimedOut), StopAction::Finished);
    assert_eq!(stop_step(StopAction::Finished, StopEvent::Cancelled), StopAction::Finished);
}

#[test]
fn stop_without_a_task_does_not_wait() {
    let mut plugin = started(&["a"]);
    let stopped = plugin.stop_account("a").unwrap();
    assert_eq!(stopped.first, StopAction::Cancel { task_known: false });
    assert_eq!(stop_step(stopped.first, StopEvent::Cancelled), StopAction::Finished);
}
