use vstd::prelude::*;

verus! {

/// Endpoint for every signed synchronous call.
pub const BASE_SYNC_URL: &'static str = "https://open-api.alibaba.com/sync";

/// Dedicated endpoint for exchanging an authorization code for a token.
pub const AUTH_TOKEN_CREATE_URL: &'static str = "https://open-api.alibaba.com/rest/auth/token/create";

/// OAuth authorization page.
pub const OAUTH_AUTHORIZE_URL: &'static str = "https://open-api.alibaba.com/oauth/authorize";

pub const AUTH_TOKEN_CREATE: &'static str = "/auth/token/create";

pub const AUTH_TOKEN_REFRESH: &'static str = "/auth/token/refresh";

pub const ALIBABA_ICBU_PRODUCT_GROUP_GET: &'static str = "alibaba.icbu.product.group.get";

pub const ALIBABA_ICBU_PHOTOBANK_GROUP_LIST: &'static str = "alibaba.icbu.photobank.group.list";

pub const ALIBABA_ICBU_CATEGORY_GET_NEW: &'static str = "alibaba.icbu.category.get.new";

pub const ALIBABA_ICBU_CATEGORY_ATTRIBUTE_GET: &'static str = "alibaba.icbu.category.attribute.get";

pub const ALIBABA_ICBU_PRODUCT_COUNTRY_GETCOUNTRYLIST: &'static str =
    "alibaba.icbu.product.country.getcountrylist";

/// Expiry, in seconds, of the connectivity probe written at start-up.
pub const FIVE_MINUTE_IN_SECONDS: u64 = 300;

/// Prefix of the cache key under which an application's token is kept.
pub const ACCESS_TOKEN: &'static str = "iop:client:access_token";

} // verus!
