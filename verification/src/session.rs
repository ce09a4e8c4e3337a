//! The browsing identity kept across runs: the cookie jar's serialized
//! state and the fixed user-agent.
//!
//! The jar itself is `cookie_store::CookieStore`; this module's contracts
//! speak of `jar_entries`, the set of (domain, name, value) triples of its
//! unexpired persistent cookies, and of `json_entries`, the triples a
//! serialized text encodes.
use vstd::prelude::*;
use vstd::string::*;

verus! {

#[verifier::external_type_specification]
#[verifier::external_body]
pub struct ExCookieStore(cookie_store::CookieStore);

/// The (domain, name, value) triples of the store's unexpired persistent
/// cookies.
pub uninterp spec fn jar_entries(store: cookie_store::CookieStore) -> Set<
    (Seq<char>, Seq<char>, Seq<char>),
>;

/// The (domain, name, value) triples of the unexpired persistent cookies
/// that a serialized jar text encodes.
pub uninterp spec fn json_entries(text: Seq<char>) -> Set<(Seq<char>, Seq<char>, Seq<char>)>;

/// Relies on `cookie_store::CookieStore::default`: a fresh store holds no
/// cookies at all.
#[verifier::external_body]
pub fn new_cookie_store() -> (r: cookie_store::CookieStore)
    ensures
        jar_entries(r) == Set::<(Seq<char>, Seq<char>, Seq<char>)>::empty(),
{
    cookie_store::CookieStore::default()
}

/// Relies on `cookie_store::serde::json::save`: it writes exactly the
/// store's unexpired persistent cookies as JSON, so the text it produces
/// encodes the store's entries.
#[verifier::external_body]
pub fn export_cookies(store: &cookie_store::CookieStore) -> (r: Option<String>)
    ensures
        r matches Some(s) ==> json_entries(s@) == jar_entries(*store),
{
    let mut w: Vec<u8> = Vec::new();
    match cookie_store::serde::json::save(store, &mut w) {
        Ok(()) => String::from_utf8(w).ok(),
        Err(_) => None,
    }
}

/// Relies on `cookie_store::serde::json::load`: it rebuilds a store from
/// JSON text, keeping the unexpired cookies the text encodes.
#[verifier::external_body]
pub fn import_cookies(text: &str) -> (r: Option<cookie_store::CookieStore>)
    ensures
        r matches Some(st) ==> jar_entries(st) == json_entries(text@),
{
    let reader = std::io::Cursor::new(text.as_bytes());
    cookie_store::serde::json::load(reader).ok()
}

/// Serializing a jar and reading the text back reproduces a jar with the
/// same (domain, name, value) entries.
pub fn jar_round_trip(store: &cookie_store::CookieStore) -> (r: Option<
    cookie_store::CookieStore,
>)
    ensures
        r matches Some(s2) ==> jar_entries(s2) == jar_entries(*store),
{
    match export_cookies(store) {
        Some(text) => import_cookies(text.as_str()),
        None => None,
    }
}

/// The jar a run starts from: absent saved state yields an empty jar; saved
/// state yields the jar it encodes, or nothing when it cannot be read.
pub fn restore_jar(cookie: Option<&String>) -> (r: Option<cookie_store::CookieStore>)
    ensures
        cookie is None ==> (r matches Some(st) && jar_entries(st) == Set::<
            (Seq<char>, Seq<char>, Seq<char>),
        >::empty()),
        cookie matches Some(t) ==> (r matches Some(st) ==> jar_entries(st) == json_entries(
            t@,
        )),
{
    match cookie {
        None => Some(new_cookie_store()),
        Some(t) => import_cookies(t.as_str()),
    }
}

/// Relies on `ua_generator::ua::spoof_ua`; the drawn user-agent is
/// arbitrary, so nothing is promised of it.
#[verifier::external_body]
pub fn fresh_user_agent() -> (r: String) {
    ua_generator::ua::spoof_ua().to_string()
}

/// The user-agent a run uses: the stored one when there is one — it is
/// drawn once and kept, never redrawn — else a fresh one.
pub fn ensure_user_agent(stored: Option<String>) -> (r: String)
    ensures
        stored matches Some(u) ==> r@ == u@,
{
    match stored {
        Some(u) => u,
        None => fresh_user_agent(),
    }
}

} // verus!
