use iop_client::client::IopClient;
use iop_client::params::Params;
use iop_client::sign::{build_url, sign_params};
use iop_client::token::TokenCache;

fn client() -> IopClient {
    IopClient::new("12345".to_string(), "s3cret".to_string())
}

fn expected(base: &str, prefix: Option<&str>, pairs: &[(&str, &str)]) -> String {
    let mut p = Params::new();
    for (k, v) in pairs {
        p.insert(k.to_string(), v.to_string());
    }
    let sign = sign_params("s3cret", &prefix.map(|s| s.to_string()), &p);
    build_url(base, &p, &sign)
}

#[test]
fn redirect_url_encodes_uri_and_defaults_state() {
    let url = client().get_redirect_url("https://cb?x=1".to_string(), None);
    assert_eq!(
        url,
        "https://open-api.alibaba.com/oauth/authorize?response_type=code&force_auth=true&redirect_uri=https%3A%2F%2Fcb%3Fx%3D1&client_id=12345&state="
    );
}

#[test]
fn redirect_url_carries_state() {
    let url = client().get_redirect_url("abc".to_string(), Some("xyz".to_string()));
    assert!(url.ends_with("redirect_uri=abc&client_id=12345&state=xyz"));
}

#[test]
fn common_parameters_are_added() {
    let mut p = Params::new();
    p.insert("method".to_string(), "m".to_string());
    p.insert("app_key".to_string(), "overridden".to_string());
    let r = client().build_request_params(p, 1700000000123, Some("tok".to_string()));
    let mut seen = Vec::new();
    for i in 0..r.len() {
        let (k, v) = r.entry(i);
        seen.push((k.clone(), v.clone()));
    }
    let want: Vec<(String, String)> = vec![
        ("access_token", "tok"),
        ("app_key", "12345"),
        ("method", "m"),
        ("sign_method", "sha256"),
        ("simplify", "true"),
        ("timestamp", "1700000000123"),
    ]
    .into_iter()
    .map(|(a, b)| (a.to_string(), b.to_string()))
    .collect();
    assert_eq!(seen, want);
}

#[test]
fn no_access_token_without_a_cached_token() {
    let r = client().build_request_params(Params::new(), 7, None);
    assert_eq!(r.len(), 4);
}

#[test]
fn product_group_request() {
    let url = client().product_groups_url(-5, 42, None);
    let want = expected(
        "https://open-api.alibaba.com/sync",
        None,
        &[
            ("group_id", "-5"),
            ("method", "alibaba.icbu.product.group.get"),
            ("app_key", "12345"),
            ("timestamp", "42"),
            ("sign_method", "sha256"),
            ("simplify", "true"),
        ],
    );
    assert_eq!(url, want);
    assert!(url.starts_with("https://open-api.alibaba.com/sync?app_key=12345&group_id=-5&method="));
}

#[test]
fn category_requests() {
    let base = "https://open-api.alibaba.com/sync";
    let common = [("app_key", "12345"), ("timestamp", "9"), ("sign_method", "sha256"), ("simplify", "true"), ("access_token", "t")];
    let mut a = common.to_vec();
    a.extend([("cat_id", "100"), ("method", "alibaba.icbu.category.get.new")]);
    assert_eq!(client().category_url(100, 9, Some("t".to_string())), expected(base, None, &a));
    let mut b = common.to_vec();
    b.extend([("cat_id", "100"), ("method", "alibaba.icbu.category.attribute.get")]);
    assert_eq!(client().category_attributes_url(100, 9, Some("t".to_string())), expected(base, None, &b));
}

#[test]
fn photobank_and_country_requests() {
    let base = "https://open-api.alibaba.com/sync";
    let common = [("app_key", "12345"), ("timestamp", "9"), ("sign_method", "sha256"), ("simplify", "true")];
    let mut a = common.to_vec();
    a.push(("method", "alibaba.icbu.photobank.group.list"));
    assert_eq!(client().photo_bank_groups_url(None, 9, None), expected(base, None, &a));
    a.push(("group_id", "3"));
    assert_eq!(client().photo_bank_groups_url(Some(3), 9, None), expected(base, None, &a));
    let mut c = common.to_vec();
    c.extend([("country_request", "{}"), ("method", "alibaba.icbu.product.country.getcountrylist")]);
    assert_eq!(client().product_countries_url(Some("en".to_string()), 9, None), expected(base, None, &c));
}

#[test]
fn token_create_request() {
    let url = client().token_create_url("abc".to_string(), 5);
    let want = expected(
        "https://open-api.alibaba.com/rest/auth/token/create",
        Some("/auth/token/create"),
        &[("code", "abc"), ("app_key", "12345"), ("timestamp", "5"), ("sign_method", "sha256"), ("simplify", "true")],
    );
    assert_eq!(url, want);
}

#[test]
fn refresh_request_needs_a_cached_token() {
    let cache = TokenCache::new();
    assert_eq!(client().refresh_url(&cache, 5), Err(iop_client::client::IopError::NotFound));
}
