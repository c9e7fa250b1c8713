use iop_client::client::IopClient;
use iop_client::params::{key_less, Params};
use iop_client::sign::{build_url, canonical_string, sign_params};

fn params_of(pairs: &[(&str, &str)]) -> Params {
    let mut p = Params::new();
    for (k, v) in pairs {
        p.insert(k.to_string(), v.to_string());
    }
    p
}

#[test]
fn key_order_is_lexicographic() {
    assert!(key_less("a", "b"));
    assert!(key_less("app", "app_key"));
    assert!(!key_less("app_key", "app"));
    assert!(!key_less("same", "same"));
    assert!(key_less("", "x"));
}

#[test]
fn params_are_kept_sorted_and_replaced() {
    let p = params_of(&[("timestamp", "1"), ("app_key", "k"), ("method", "m"), ("app_key", "k2")]);
    assert_eq!(p.len(), 3);
    let (k0, v0) = p.entry(0);
    assert_eq!((k0.as_str(), v0.as_str()), ("app_key", "k2"));
    let (k1, _) = p.entry(1);
    assert_eq!(k1.as_str(), "method");
    let (k2, _) = p.entry(2);
    assert_eq!(k2.as_str(), "timestamp");
}

#[test]
fn canonical_string_concatenates_sorted_entries() {
    let p = params_of(&[("b", "2"), ("a", "1")]);
    assert_eq!(canonical_string(&None, &p), "a1b2");
    assert_eq!(canonical_string(&Some("/auth/token/create".to_string()), &p), "/auth/token/createa1b2");
}

#[test]
fn signature_is_uppercase_hmac_sha256() {
    let p = Params::new();
    let msg = Some("The quick brown fox jumps over the lazy dog".to_string());
    assert_eq!(
        sign_params("key", &msg, &p),
        "F7BC83F430538424B13298E6AA6FB143EF4D59A14946175997479DBC2D1A3CD8"
    );
}

#[test]
fn signing_ignores_insertion_order() {
    let c = IopClient::new("app".to_string(), "secret".to_string());
    let p = params_of(&[("b", "2"), ("a", "1")]);
    let q = params_of(&[("a", "1"), ("b", "2")]);
    assert_eq!(c.generate_sign(None, &p), c.generate_sign(None, &q));
}

#[test]
fn signing_is_sensitive_to_values_and_prefix() {
    let c = IopClient::new("app".to_string(), "secret".to_string());
    let p = params_of(&[("a", "1"), ("b", "2")]);
    let q = params_of(&[("a", "1"), ("b", "3")]);
    assert_ne!(c.generate_sign(None, &p), c.generate_sign(None, &q));
    assert_ne!(
        c.generate_sign(Some("/x".to_string()), &p),
        c.generate_sign(Some("/y".to_string()), &p)
    );
    assert_ne!(c.generate_sign(None, &p), c.generate_sign(Some("/x".to_string()), &p));
}

#[test]
fn url_assembly_single_parameter() {
    let p = params_of(&[("a", "1")]);
    assert_eq!(build_url("https://x/y", &p, "ABC"), "https://x/y?a=1&sign=ABC");
}

#[test]
fn url_assembly_several_parameters() {
    let c = IopClient::new("app".to_string(), "secret".to_string());
    let p = params_of(&[("b", "x y"), ("a", "1")]);
    assert_eq!(c.generate_url("https://x/y", &p, "S"), "https://x/y?a=1&b=x y&sign=S");
}

#[test]
fn url_assembly_without_parameters() {
    let p = Params::new();
    assert_eq!(build_url("https://x/y", &p, "ABC"), "https://x/y&sign=ABC");
}
