use cookie_store::CookieStore;
use url::Url;
use xrenew::session::ensure_user_agent;
use xrenew::session::export_cookies;
use xrenew::session::import_cookies;
use xrenew::session::jar_round_trip;
use xrenew::session::new_cookie_store;
use xrenew::session::restore_jar;

fn sample_jar() -> CookieStore {
    let mut store = CookieStore::new();
    let url = Url::parse("https://secure.xserver.ne.jp/xapanel/").unwrap();
    store
        .parse(
            "session=abc123; Path=/; Expires=Tue, 03 Aug 2100 00:38:37 GMT",
            &url,
        )
        .unwrap();
    store
        .parse(
            "pref=ja; Path=/; Expires=Tue, 03 Aug 2100 00:38:37 GMT",
            &url,
        )
        .unwrap();
    store
}

fn triples(store: &CookieStore) -> Vec<(String, String, String)> {
    let mut out: Vec<(String, String, String)> = store
        .iter_any()
        .map(|c| {
            (
                format!("{:?}", c.domain),
                c.name().to_string(),
                c.value().to_string(),
            )
        })
        .collect();
    out.sort();
    out
}

#[test]
fn the_serialized_jar_reproduces_its_triples() {
    let store = sample_jar();
    let text = export_cookies(&store).expect("serialize");
    let rebuilt = import_cookies(&text).expect("rebuild");
    assert_eq!(triples(&rebuilt), triples(&store));
    assert_eq!(rebuilt.get("secure.xserver.ne.jp", "/", "session").unwrap().value(), "abc123");
    assert_eq!(rebuilt.get("secure.xserver.ne.jp", "/", "pref").unwrap().value(), "ja");
}

#[test]
fn the_round_trip_helper_reproduces_the_jar() {
    let store = sample_jar();
    let rebuilt = jar_round_trip(&store).expect("round trip");
    assert_eq!(triples(&rebuilt), triples(&store));
}

#[test]
fn a_fresh_store_is_empty() {
    let store = new_cookie_store();
    assert_eq!(store.iter_any().count(), 0);
}

#[test]
fn absent_saved_state_yields_an_empty_jar() {
    let store = restore_jar(None).expect("empty jar");
    assert_eq!(store.iter_any().count(), 0);
}

#[test]
fn saved_state_is_restored() {
    let text = export_cookies(&sample_jar()).expect("serialize");
    let store = restore_jar(Some(&text)).expect("restored");
    assert_eq!(store.get("secure.xserver.ne.jp", "/", "session").unwrap().value(), "abc123");
}

#[test]
fn unreadable_saved_state_is_rejected() {
    assert!(restore_jar(Some(&"not a cookie jar".to_string())).is_none());
}

#[test]
fn a_stored_user_agent_is_kept_verbatim() {
    let ua = ensure_user_agent(Some("agent-under-test/1.0".to_string()));
    assert_eq!(ua, "agent-under-test/1.0");
}

#[test]
fn without_a_stored_user_agent_one_is_drawn() {
    let ua = ensure_user_agent(None);
    assert!(!ua.is_empty());
}
