use vstd::prelude::*;
use crate::client::{IopClient, IopError, assembled, i32_to_string, signed_decimal};
use crate::constants::{
    ALIBABA_ICBU_CATEGORY_ATTRIBUTE_GET, ALIBABA_ICBU_CATEGORY_GET_NEW, ALIBABA_ICBU_PHOTOBANK_GROUP_LIST,
    ALIBABA_ICBU_PRODUCT_COUNTRY_GETCOUNTRYLIST, ALIBABA_ICBU_PRODUCT_GROUP_GET, AUTH_TOKEN_CREATE,
    AUTH_TOKEN_CREATE_URL, AUTH_TOKEN_REFRESH, BASE_SYNC_URL,
};
use crate::params::{Params, has_entry, sorted_entries};
use crate::sign::{signature, signed_url};
use crate::token::{AccessToken, TokenCache, token_key};

verus! {

/// `url` is the signed request for `method_params`, once the common
/// parameters (with `token` as access token, if any) are added.
pub open spec fn is_request_url(
    c: IopClient,
    base: Seq<char>,
    prefix: Option<Seq<char>>,
    method_params: Seq<(Seq<char>, Seq<char>)>,
    timestamp_ms: nat,
    token: Option<Seq<char>>,
    url: Seq<char>,
) -> bool {
    exists|p: Seq<(Seq<char>, Seq<char>)>|
        {
            &&& sorted_entries(p)
            &&& assembled(p, method_params, c.appid(), timestamp_ms, token)
            &&& url == signed_url(base, p, signature(c.secret(), prefix, p))
        }
}

pub open spec fn opt_view(s: Option<String>) -> Option<Seq<char>> {
    match s {
        Some(v) => Some(v@),
        None => None,
    }
}

/// A parameter set of two entries with distinct keys.
fn two_params(k1: &str, v1: String, k2: &str, v2: String) -> (r: Params)
    requires
        k1@ != k2@,
    ensures
        r.wf(),
        forall|k: Seq<char>, v: Seq<char>|
            #[trigger] has_entry(r@, k, v) <==> has_entry(seq![(k1@, v1@), (k2@, v2@)], k, v),
{
    let ghost e = seq![(k1@, v1@), (k2@, v2@)];
    let mut p = Params::new();
    p.insert(String::from_str(k1), v1);
    let ghost first = p@;
    p.insert(String::from_str(k2), v2);
    assert forall|k: Seq<char>, v: Seq<char>| #[trigger] has_entry(p@, k, v) <==> has_entry(e, k, v) by {
        assert(has_entry(first, k, v) == has_entry(first, k, v));
        if (k, v) == e[0] {
            assert(has_entry(e, k, v));
        }
        if (k, v) == e[1] {
            assert(has_entry(e, k, v));
        }
    }
    p
}

impl IopClient {
    /// Adds the common parameters to `method_params`, signs, and builds the URL.
    fn request_url(
        &self,
        base: &str,
        prefix: Option<String>,
        method_params: Params,
        timestamp_ms: u64,
        token: Option<String>,
    ) -> (r: String)
        requires
            method_params.wf(),
        ensures
            is_request_url(
                *self,
                base@,
                opt_view(prefix),
                method_params@,
                timestamp_ms as nat,
                opt_view(token),
                r@,
            ),
    {
        let p = self.build_request_params(method_params, timestamp_ms, token);
        let r = self.signed_request_url(base, prefix, &p);
        assert(sorted_entries(p@));
        r
    }

    /// Request for the child groups of product group `id`.
    pub fn product_groups_url(&self, id: i32, timestamp_ms: u64, token: Option<String>) -> (r: String)
        ensures
            is_request_url(
                *self,
                BASE_SYNC_URL@,
                None,
                seq![("group_id"@, signed_decimal(id as int)), ("method"@, ALIBABA_ICBU_PRODUCT_GROUP_GET@)],
                timestamp_ms as nat,
                opt_view(token),
                r@,
            ),
    {
        proof {
            reveal_strlit("group_id");
            reveal_strlit("method");
            assert("group_id"@.len() != "method"@.len());
        }
        let p = two_params(
            "group_id",
            i32_to_string(id),
            "method",
            String::from_str(ALIBABA_ICBU_PRODUCT_GROUP_GET),
        );
        self.request_url(BASE_SYNC_URL, None, p, timestamp_ms, token)
    }

    /// Request for category `cat_id`.
    pub fn category_url(&self, cat_id: i32, timestamp_ms: u64, token: Option<String>) -> (r: String)
        ensures
            is_request_url(
                *self,
                BASE_SYNC_URL@,
                None,
                seq![("cat_id"@, signed_decimal(cat_id as int)), ("method"@, ALIBABA_ICBU_CATEGORY_GET_NEW@)],
                timestamp_ms as nat,
                opt_view(token),
                r@,
            ),
    {
        proof {
            reveal_strlit("cat_id");
            reveal_strlit("method");
            assert("cat_id"@[0] != "method"@[0]);
        }
        let p = two_params(
            "cat_id",
            i32_to_string(cat_id),
            "method",
            String::from_str(ALIBABA_ICBU_CATEGORY_GET_NEW),
        );
        self.request_url(BASE_SYNC_URL, None, p, timestamp_ms, token)
    }

    /// Request for the attribute schema of category `cat_id`.
    pub fn category_attributes_url(&self, cat_id: i32, timestamp_ms: u64, token: Option<String>) -> (r:
        String)
        ensures
            is_request_url(
                *self,
                BASE_SYNC_URL@,
                None,
                seq![("cat_id"@, signed_decimal(cat_id as int)), ("method"@, ALIBABA_ICBU_CATEGORY_ATTRIBUTE_GET@)],
                timestamp_ms as nat,
                opt_view(token),
                r@,
            ),
    {
        proof {
            reveal_strlit("cat_id");
            reveal_strlit("method");
            assert("cat_id"@[0] != "method"@[0]);
        }
        let p = two_params(
            "cat_id",
            i32_to_string(cat_id),
            "method",
            String::from_str(ALIBABA_ICBU_CATEGORY_ATTRIBUTE_GET),
        );
        self.request_url(BASE_SYNC_URL, None, p, timestamp_ms, token)
    }

    /// Request for the continent and country list. The language is accepted
    /// but not sent.
    pub fn product_countries_url(
        &self,
        _language: Option<String>,
        timestamp_ms: u64,
        token: Option<String>,
    ) -> (r: String)
        ensures
            is_request_url(
                *self,
                BASE_SYNC_URL@,
                None,
                seq![("country_request"@, "{}"@), ("method"@, ALIBABA_ICBU_PRODUCT_COUNTRY_GETCOUNTRYLIST@)],
                timestamp_ms as nat,
                opt_view(token),
                r@,
            ),
    {
        proof {
            reveal_strlit("country_request");
            reveal_strlit("method");
            assert("country_request"@.len() != "method"@.len());
        }
        let p = two_params(
            "country_request",
            String::from_str("{}"),
            "method",
            String::from_str(ALIBABA_ICBU_PRODUCT_COUNTRY_GETCOUNTRYLIST),
        );
        self.request_url(BASE_SYNC_URL, None, p, timestamp_ms, token)
    }

    /// Request for the photobank groups, scoped to group `id` when one is given.
    pub fn photo_bank_groups_url(&self, id: Option<i32>, timestamp_ms: u64, token: Option<String>) -> (r:
        String)
        ensures
            is_request_url(
                *self,
                BASE_SYNC_URL@,
                None,
                match id {
                    Some(g) => seq![("group_id"@, signed_decimal(g as int)), ("method"@, ALIBABA_ICBU_PHOTOBANK_GROUP_LIST@)],
                    None => seq![("method"@, ALIBABA_ICBU_PHOTOBANK_GROUP_LIST@)],
                },
                timestamp_ms as nat,
                opt_view(token),
                r@,
            ),
    {
        proof {
            reveal_strlit("group_id");
            reveal_strlit("method");
            assert("group_id"@.len() != "method"@.len());
        }
        let p = match id {
            Some(g) => two_params(
                "group_id",
                i32_to_string(g),
                "method",
                String::from_str(ALIBABA_ICBU_PHOTOBANK_GROUP_LIST),
            ),
            None => {
                let ghost e = seq![("method"@, ALIBABA_ICBU_PHOTOBANK_GROUP_LIST@)];
                let mut p = Params::new();
                p.insert(String::from_str("method"), String::from_str(ALIBABA_ICBU_PHOTOBANK_GROUP_LIST));
                assert forall|k: Seq<char>, v: Seq<char>| #[trigger] has_entry(p@, k, v) <==> has_entry(e, k, v) by {
                    if (k, v) == e[0] {
                        assert(has_entry(e, k, v));
                    }
                }
                p
            },
        };
        self.request_url(BASE_SYNC_URL, None, p, timestamp_ms, token)
    }

    /// Request exchanging authorization `code` for a token: signed with the
    /// token-create method as prefix, sent to the token-create endpoint, and
    /// carrying no access token.
    pub fn token_create_url(&self, code: String, timestamp_ms: u64) -> (r: String)
        ensures
            is_request_url(
                *self,
                AUTH_TOKEN_CREATE_URL@,
                Some(AUTH_TOKEN_CREATE@),
                seq![("code"@, code@)],
                timestamp_ms as nat,
                None,
                r@,
            ),
    {
        let ghost e = seq![("code"@, code@)];
        let mut p = Params::new();
        p.insert(String::from_str("code"), code);
        assert forall|k: Seq<char>, v: Seq<char>| #[trigger] has_entry(p@, k, v) <==> has_entry(e, k, v) by {
            if (k, v) == e[0] {
                assert(has_entry(e, k, v));
            }
        }
        self.request_url(
            AUTH_TOKEN_CREATE_URL,
            Some(String::from_str(AUTH_TOKEN_CREATE)),
            p,
            timestamp_ms,
            None,
        )
    }

    /// Request refreshing the cached token, sent with its refresh token and
    /// its access token; `NotFound` when no token is cached.
    pub fn refresh_url(&self, cache: &TokenCache, timestamp_ms: u64) -> (r: Result<String, IopError>)
        requires
            cache.wf(),
        ensures
            match cache.lookup(token_key(self.appid())) {
                None => r == Err::<String, IopError>(IopError::NotFound),
                Some(t) => r is Ok && is_request_url(
                    *self,
                    BASE_SYNC_URL@,
                    None,
                    seq![("refresh_token"@, t.refresh_token@), ("method"@, AUTH_TOKEN_REFRESH@)],
                    timestamp_ms as nat,
                    Some(t.access_token@),
                    r->Ok_0@,
                ),
            },
    {
        proof {
            reveal_strlit("refresh_token");
            reveal_strlit("method");
            assert("refresh_token"@.len() != "method"@.len());
        }
        let current: &AccessToken = match self.get_access_token(cache) {
            Ok(t) => t,
            Err(e) => {
                return Err(e);
            },
        };
        let p = two_params(
            "refresh_token",
            current.refresh_token.clone(),
            "method",
            String::from_str(AUTH_TOKEN_REFRESH),
        );
        Ok(
            self.request_url(
                BASE_SYNC_URL,
                None,
                p,
                timestamp_ms,
                Some(current.access_token.clone()),
            ),
        )
    }
}

} // verus!
