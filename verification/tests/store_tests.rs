use xrenew::cli::needs_store;
use xrenew::cli::Commands;
use xrenew::data::upgrade_old_data;
use xrenew::data::Account;
use xrenew::data::Data;
use xrenew::data::OldData;
use xrenew::data::OldDataV1;
use xrenew::data::OldDataV2;
use xrenew::data::OptionData;
use xrenew::params::Params;
use xrenew::schedule::should_run;
use xrenew::schedule::RERUN_AFTER_SECS;

fn account() -> Account {
    Account::new("someone@example.com".to_string(), "hunter2".to_string())
}

#[test]
fn a_record_keeps_what_was_saved() {
    let d = Data::assemble(
        account(),
        "agent/1".to_string(),
        Some("jar".to_string()),
        Some("https://hook.example.com/".to_string()),
    );
    assert_eq!(d.get_account().email, "someone@example.com");
    assert_eq!(d.get_ua(), "agent/1");
    assert_eq!(d.get_cookie().as_deref(), Some("jar"));
    assert_eq!(d.get_webhook().as_deref(), Some("https://hook.example.com/"));
}

#[test]
fn saving_an_account_keeps_the_webhook_and_drops_the_cookie() {
    let mut store = OptionData(None);
    assert!(!store.is_some());
    store.save_account(account());
    assert!(store.is_some());
    let hooked = store.save_webhook(Some("https://hook.example.com/".to_string()));
    assert!(hooked);
    store.save_cookie("jar-1".to_string());
    store.save_account(Account::new("new@example.com".to_string(), "pw".to_string()));
    let d = store.unwrap();
    assert_eq!(d.get_account().email, "new@example.com");
    assert_eq!(d.get_cookie(), None);
    assert_eq!(d.get_webhook().as_deref(), Some("https://hook.example.com/"));
}

#[test]
fn a_webhook_needs_a_record_first() {
    let mut store = OptionData(None);
    assert!(!store.save_webhook(Some("https://hook.example.com/".to_string())));
    assert!(!store.is_some());
}

#[test]
fn the_oldest_layout_carries_no_webhook() {
    let old = OldData::V1(OldDataV1 {
        account: account(),
        ua: "agent/1".to_string(),
        cookie: Some("jar".to_string()),
    });
    let d = upgrade_old_data(old).expect("record");
    assert_eq!(d.get_account().email, "someone@example.com");
    assert_eq!(d.get_cookie().as_deref(), Some("jar"));
    assert_eq!(d.get_webhook(), None);
}

#[test]
fn the_later_layout_carries_everything() {
    let old = OldData::V2(OldDataV2 {
        account: account(),
        ua: "agent/2".to_string(),
        cookie: None,
        webhook: Some("https://hook.example.com/".to_string()),
    });
    let d = upgrade_old_data(old).expect("record");
    assert_eq!(d.get_ua(), "agent/2");
    assert_eq!(d.get_cookie(), None);
    assert_eq!(d.get_webhook().as_deref(), Some("https://hook.example.com/"));
    assert!(upgrade_old_data(OldData::Missing).is_none());
}

#[test]
fn every_command_but_refresh_opens_the_store() {
    assert!(needs_store(&Commands::Login));
    assert!(needs_store(&Commands::Extend { auto: true }));
    assert!(needs_store(&Commands::Status));
    assert!(needs_store(&Commands::Webhook { url: "u".to_string() }));
    assert!(!needs_store(&Commands::Refresh));
}

#[test]
fn params_write_in_place_and_append_at_the_end() {
    let mut ps = Params::new();
    ps.set("a".to_string(), "1".to_string());
    ps.set("b".to_string(), "2".to_string());
    ps.set("a".to_string(), "3".to_string());
    assert_eq!(ps.len(), 2);
    assert_eq!(ps.get("a").map(String::as_str), Some("3"));
    assert_eq!(ps.get("b").map(String::as_str), Some("2"));
    assert_eq!(ps.get("c"), None);
    assert_eq!(ps.pairs[0].0, "a");
    assert_eq!(ps.pairs[1].0, "b");
}

#[test]
fn an_automatic_run_waits_for_the_rerun_interval() {
    let now: i64 = 1_700_000_000;
    let fresh = vec![
        (now - 10 * 3600, "FAILURE timeout".to_string()),
        (now - 3600, "SUCCESS extended".to_string()),
    ];
    assert!(!should_run(&fresh, now));

    let stale = vec![(now - RERUN_AFTER_SECS - 1, "SUCCESS extended".to_string())];
    assert!(should_run(&stale, now));

    let never = vec![(now - 3600, "FAILURE timeout".to_string())];
    assert!(should_run(&never, now));
    assert!(should_run(&Vec::new(), now));
}

#[test]
fn the_last_success_counts_not_the_first() {
    let now: i64 = 1_700_000_000;
    let entries = vec![
        (now - 2 * RERUN_AFTER_SECS, "SUCCESS old".to_string()),
        (now - 3600, "SUCCESS new".to_string()),
    ];
    assert!(!should_run(&entries, now));
}
