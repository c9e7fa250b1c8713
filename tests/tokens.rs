use iop_client::client::{IopClient, IopError};
use iop_client::token::{AccessToken, CountryUserInfo, TokenCache};

fn token(tag: &str) -> AccessToken {
    AccessToken {
        access_token: format!("at-{tag}"),
        refresh_token: format!("rt-{tag}"),
        refresh_expires_in: 7200,
        expires_in: 3600,
        code: "c0de".to_string(),
        request_id: Some("req".to_string()),
        _trace_id_: None,
        account_platform: "seller_center".to_string(),
        country: "CN".to_string(),
        user_info: CountryUserInfo {
            union_id: "u".to_string(),
            username: "login".to_string(),
            open_id: "o".to_string(),
            seller_id: "s".to_string(),
        },
        email: "a@b.c".to_string(),
    }
}

#[test]
fn token_key_is_prefixed_by_app_id() {
    let c = IopClient::new("app9".to_string(), "x".to_string());
    assert_eq!(c.access_token_key(), "iop:client:access_token:app9");
}

#[test]
fn token_cache_round_trip() {
    let c = IopClient::new("app9".to_string(), "x".to_string());
    let mut cache = TokenCache::new();
    c.save_access_token(&mut cache, token("one"));
    assert_eq!(c.get_access_token(&cache), Ok(&token("one")));
    assert_eq!(cache.get("iop:client:access_token:app9"), Some(&token("one")));
}

#[test]
fn token_not_found_without_a_write() {
    let c = IopClient::new("app9".to_string(), "x".to_string());
    let other = IopClient::new("other".to_string(), "x".to_string());
    let mut cache = TokenCache::new();
    assert_eq!(c.get_access_token(&cache), Err(IopError::NotFound));
    other.save_access_token(&mut cache, token("other"));
    assert_eq!(c.get_access_token(&cache), Err(IopError::NotFound));
}

#[test]
fn later_token_overwrites_earlier() {
    let c = IopClient::new("app9".to_string(), "x".to_string());
    let mut cache = TokenCache::new();
    c.save_access_token(&mut cache, token("one"));
    c.save_access_token(&mut cache, token("two"));
    assert_eq!(c.get_access_token(&cache), Ok(&token("two")));
}

#[test]
fn generate_stores_and_returns_the_token() {
    let c = IopClient::new("app9".to_string(), "x".to_string());
    let mut cache = TokenCache::new();
    assert_eq!(c.generate_access_token(&mut cache, Ok(token("g"))), Ok(token("g")));
    assert_eq!(c.get_access_token(&cache), Ok(&token("g")));
    assert_eq!(c.generate_access_token(&mut cache, Err(IopError::NetworkError)), Err(IopError::NetworkError));
    assert_eq!(c.get_access_token(&cache), Ok(&token("g")));
}

#[test]
fn refresh_caches_the_token_yet_reports_failure() {
    let c = IopClient::new("app9".to_string(), "x".to_string());
    let mut cache = TokenCache::new();
    c.save_access_token(&mut cache, token("old"));
    assert!(c.refresh_url(&cache, 1).is_ok());
    let r = c.refresh_access_token(&mut cache, Ok(token("new")));
    assert_eq!(r, Err(IopError::RefreshFailed));
    assert_eq!(c.get_access_token(&cache), Ok(&token("new")));
}

#[test]
fn refresh_failure_leaves_the_cache() {
    let c = IopClient::new("app9".to_string(), "x".to_string());
    let mut cache = TokenCache::new();
    c.save_access_token(&mut cache, token("old"));
    let r = c.refresh_access_token(&mut cache, Err(IopError::DeserializationError));
    assert_eq!(r, Err(IopError::DeserializationError));
    assert_eq!(c.get_access_token(&cache), Ok(&token("old")));
}

#[test]
fn duplicate_copies_every_field() {
    let t = token("d");
    assert_eq!(t.duplicate(), t);
}
