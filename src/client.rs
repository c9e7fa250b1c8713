use vstd::prelude::*;
use crate::constants::OAUTH_AUTHORIZE_URL;
use crate::params::{Params, has_entry};
use crate::sign::{build_url, sign_params, signature, signed_url};

verus! {

/// The failures a call can report.
#[derive(Debug, Clone, Copy, PartialEq, Eq, Structural)]
pub enum IopError {
    /// The cache could not be reached when the client was built.
    ConstructionFailure,
    /// The HTTP transport failed.
    NetworkError,
    /// A response did not have the expected shape.
    DeserializationError,
    /// No access token is cached for the application.
    NotFound,
    /// The refresh workflow ended; see `finish_refresh`.
    RefreshFailed,
    /// A value could not be read as the type it stands for.
    InvalidInput,
}

pub open spec fn digit_char(d: int) -> char {
    seq!['0', '1', '2', '3', '4', '5', '6', '7', '8', '9'][d]
}

/// Base-ten digits of `n`, most significant first, without leading zeros.
pub open spec fn decimal(n: nat) -> Seq<char>
    decreases n,
{
    if n < 10 {
        seq![digit_char(n as int)]
    } else {
        decimal(n / 10).push(digit_char((n % 10) as int))
    }
}

/// Base-ten rendering of `n`, with a leading `-` when negative.
pub open spec fn signed_decimal(n: int) -> Seq<char> {
    if n < 0 {
        seq!['-'] + decimal((-n) as nat)
    } else {
        decimal(n as nat)
    }
}

/// Relies on `u64`'s `Display`: plain base-ten digits.
#[verifier::external_body]
pub(crate) fn u64_to_string(n: u64) -> (r: String)
    ensures
        r@ == decimal(n as nat),
{
    n.to_string()
}

/// Relies on `i32`'s `Display`: base-ten digits, `-` before a negative value.
#[verifier::external_body]
pub(crate) fn i32_to_string(n: i32) -> (r: String)
    ensures
        r@ == signed_decimal(n as int),
{
    n.to_string()
}

/// Percent-encoding of the UTF-8 bytes of `s`, every byte but ASCII
/// alphanumerics and `-_.~` written as `%XX`.
pub uninterp spec fn percent_encoded(s: Seq<char>) -> Seq<char>;

/// Relies on `urlencoding::encode`.
#[verifier::external_body]
fn url_encode(s: &str) -> (r: String)
    ensures
        r@ == percent_encoded(s@),
{
    urlencoding::encode(s).into_owned()
}

/// The value that request assembly gives to key `k`, if it sets one.
pub open spec fn common_value(
    appid: Seq<char>,
    timestamp_ms: nat,
    token: Option<Seq<char>>,
    k: Seq<char>,
) -> Option<Seq<char>> {
    if k == "app_key"@ {
        Some(appid)
    } else if k == "timestamp"@ {
        Some(decimal(timestamp_ms))
    } else if k == "sign_method"@ {
        Some("sha256"@)
    } else if k == "simplify"@ {
        Some("true"@)
    } else if k == "access_token"@ && token is Some {
        token
    } else {
        None
    }
}

/// `r` holds the common parameters, and every other entry of `p`.
pub open spec fn assembled(
    r: Seq<(Seq<char>, Seq<char>)>,
    p: Seq<(Seq<char>, Seq<char>)>,
    appid: Seq<char>,
    timestamp_ms: nat,
    token: Option<Seq<char>>,
) -> bool {
    forall|k: Seq<char>, v: Seq<char>|
        #[trigger] has_entry(r, k, v) <==> match common_value(appid, timestamp_ms, token, k) {
            Some(c) => v == c,
            None => has_entry(p, k, v),
        }
}

/// The authorization page URL for `redirect_uri` and `state`.
pub open spec fn redirect_url(appid: Seq<char>, redirect_uri: Seq<char>, state: Seq<char>) -> Seq<char> {
    OAUTH_AUTHORIZE_URL@ + "?response_type=code&force_auth=true&redirect_uri="@
        + percent_encoded(redirect_uri) + "&client_id="@ + appid + "&state="@ + state
}

/// Application credentials: the identifier, and the secret every request is
/// signed with.
pub struct IopClient {
    appid: String,
    app_secret: String,
}

impl IopClient {
    pub closed spec fn appid(&self) -> Seq<char> {
        self.appid@
    }

    pub closed spec fn secret(&self) -> Seq<char> {
        self.app_secret@
    }

    pub fn new(appid: String, app_secret: String) -> (r: IopClient)
        ensures
            r.appid() == appid@,
            r.secret() == app_secret@,
    {
        IopClient { appid, app_secret }
    }

    pub fn appid_str(&self) -> (r: &str)
        ensures
            r@ == self.appid(),
    {
        self.appid.as_str()
    }

    /// Adds the parameters every request carries: application id, timestamp
    /// in milliseconds, signing method, `simplify`, and the cached access token
    /// when there is one.
    pub fn build_request_params(
        &self,
        params: Params,
        timestamp_ms: u64,
        access_token: Option<String>,
    ) -> (r: Params)
        requires
            params.wf(),
        ensures
            r.wf(),
            assembled(
                r@,
                params@,
                self.appid(),
                timestamp_ms as nat,
                match access_token {
                    Some(t) => Some(t@),
                    None => None,
                },
            ),
    {
        proof {
            reveal_strlit("app_key");
            reveal_strlit("timestamp");
            reveal_strlit("sign_method");
            reveal_strlit("simplify");
            reveal_strlit("access_token");
        }
        let ghost given = params@;
        let ghost tok = match &access_token {
            Some(t) => Some(t@),
            None => None::<Seq<char>>,
        };
        let mut p = params;
        p.insert(String::from_str("app_key"), self.appid.clone());
        let ghost with_key = p@;
        p.insert(String::from_str("timestamp"), u64_to_string(timestamp_ms));
        let ghost with_time = p@;
        p.insert(String::from_str("sign_method"), String::from_str("sha256"));
        let ghost with_method = p@;
        p.insert(String::from_str("simplify"), String::from_str("true"));
        let ghost with_simplify = p@;
        match access_token {
            Some(t) => {
                p.insert(String::from_str("access_token"), t);
            },
            None => {},
        }
        assert forall|k: Seq<char>, v: Seq<char>|
            #[trigger] has_entry(p@, k, v) <==> match common_value(
                self.appid(),
                timestamp_ms as nat,
                tok,
                k,
            ) {
                Some(c) => v == c,
                None => has_entry(given, k, v),
            } by {
            assert(has_entry(with_key, k, v) == has_entry(with_key, k, v));
            assert(has_entry(with_time, k, v) == has_entry(with_time, k, v));
            assert(has_entry(with_method, k, v) == has_entry(with_method, k, v));
            assert(has_entry(with_simplify, k, v) == has_entry(with_simplify, k, v));
            assert(has_entry(given, k, v) == has_entry(given, k, v));
            assert("app_key"@.len() == 7);
            assert("timestamp"@.len() == 9);
            assert("sign_method"@.len() == 11);
            assert("simplify"@.len() == 8);
            assert("access_token"@.len() == 12);
        }
        assert(assembled(p@, given, self.appid(), timestamp_ms as nat, tok));
        p
    }

    /// Signs `params` with the application secret.
    pub fn generate_sign(&self, method: Option<String>, params: &Params) -> (r: String)
        ensures
            r@ == signature(
                self.secret(),
                match method {
                    Some(m) => Some(m@),
                    None => None,
                },
                params@,
            ),
    {
        sign_params(self.app_secret.as_str(), &method, params)
    }

    /// The request URL for `params` against `base_url`, with `sign` appended.
    pub fn generate_url(&self, base_url: &str, params: &Params, sign: &str) -> (r: String)
        ensures
            r@ == signed_url(base_url@, params@, sign@),
    {
        build_url(base_url, params, sign)
    }

    /// Signs `params` and builds the URL that carries them.
    pub fn signed_request_url(&self, base_url: &str, method: Option<String>, params: &Params) -> (r:
        String)
        ensures
            r@ == signed_url(
                base_url@,
                params@,
                signature(
                    self.secret(),
                    match method {
                        Some(m) => Some(m@),
                        None => None,
                    },
                    params@,
                ),
            ),
    {
        let sign = self.generate_sign(method, params);
        self.generate_url(base_url, params, sign.as_str())
    }

    /// The OAuth authorization URL; a missing state is sent as empty.
    pub fn get_redirect_url(&self, redirect_uri: String, state: Option<String>) -> (r: String)
        ensures
            r@ == redirect_url(
                self.appid(),
                redirect_uri@,
                match state {
                    Some(s) => s@,
                    None => Seq::empty(),
                },
            ),
    {
        let encoded = url_encode(redirect_uri.as_str());
        let mut out = String::from_str(OAUTH_AUTHORIZE_URL);
        out.append("?response_type=code&force_auth=true&redirect_uri=");
        out.append(encoded.as_str());
        out.append("&client_id=");
        out.append(self.appid.as_str());
        out.append("&state=");
        match state {
            Some(s) => out.append(s.as_str()),
            None => {},
        }
        out
    }
}

} // verus!
