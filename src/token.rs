use vstd::prelude::*;
use crate::client::{IopClient, IopError};
use crate::constants::ACCESS_TOKEN;

verus! {

/// The account behind a token, as the platform identifies it.
#[derive(Debug, Clone, PartialEq, Eq)]
pub struct CountryUserInfo {
    pub union_id: String,
    pub username: String,
    pub open_id: String,
    pub seller_id: String,
}

/// A token obtained by exchanging an authorization code, or by a refresh.
#[derive(Debug, Clone, PartialEq, Eq)]
pub struct AccessToken {
    pub access_token: String,
    pub refresh_token: String,
    pub refresh_expires_in: i32,
    pub expires_in: i32,
    pub code: String,
    pub request_id: Option<String>,
    pub _trace_id_: Option<String>,
    pub account_platform: String,
    pub country: String,
    pub user_info: CountryUserInfo,
    pub email: String,
}

fn copy_opt(s: &Option<String>) -> (r: Option<String>)
    ensures
        r == *s,
{
    match s {
        Some(v) => Some(v.clone()),
        None => None,
    }
}

impl CountryUserInfo {
    /// A field-for-field copy.
    pub fn duplicate(&self) -> (r: CountryUserInfo)
        ensures
            r == *self,
    {
        CountryUserInfo {
            union_id: self.union_id.clone(),
            username: self.username.clone(),
            open_id: self.open_id.clone(),
            seller_id: self.seller_id.clone(),
        }
    }
}

impl AccessToken {
    /// A field-for-field copy.
    pub fn duplicate(&self) -> (r: AccessToken)
        ensures
            r == *self,
    {
        AccessToken {
            access_token: self.access_token.clone(),
            refresh_token: self.refresh_token.clone(),
            refresh_expires_in: self.refresh_expires_in,
            expires_in: self.expires_in,
            code: self.code.clone(),
            request_id: copy_opt(&self.request_id),
            _trace_id_: copy_opt(&self._trace_id_),
            account_platform: self.account_platform.clone(),
            country: self.country.clone(),
            user_info: self.user_info.duplicate(),
            email: self.email.clone(),
        }
    }
}

/// An in-process key-value store of tokens, one per key; a later write to a
/// key replaces the earlier one.
pub struct TokenCache {
    entries: Vec<(String, AccessToken)>,
}

impl TokenCache {
    /// Keys are unique.
    pub closed spec fn wf(&self) -> bool {
        forall|i: int, j: int|
            0 <= i < j < self.entries@.len() ==> (#[trigger] self.entries@[i]).0@ != (
            #[trigger] self.entries@[j]).0@
    }

    /// The token stored under `k`, if any.
    pub closed spec fn lookup(&self, k: Seq<char>) -> Option<AccessToken> {
        if exists|i: int| 0 <= i < self.entries@.len() && (#[trigger] self.entries@[i]).0@ == k {
            Some(
                self.entries@[choose|i: int|
                    0 <= i < self.entries@.len() && (#[trigger] self.entries@[i]).0@ == k].1,
            )
        } else {
            None
        }
    }

    /// An empty store.
    pub fn new() -> (r: TokenCache)
        ensures
            r.wf(),
            forall|k: Seq<char>| #[trigger] r.lookup(k) is None,
    {
        TokenCache { entries: Vec::new() }
    }

    fn find(&self, key: &str) -> (r: Option<usize>)
        ensures
            match r {
                Some(i) => i < self.entries@.len() && self.entries@[i as int].0@ == key@,
                None => forall|i: int|
                    0 <= i < self.entries@.len() ==> (#[trigger] self.entries@[i]).0@ != key@,
            },
    {
        let n = self.entries.len();
        let mut i: usize = 0;
        while i < n
            invariant
                n == self.entries@.len(),
                i <= n,
                forall|j: int| 0 <= j < i ==> (#[trigger] self.entries@[j]).0@ != key@,
            decreases n - i,
        {
            if self.entries[i].0.as_str().unicode_len() == key.unicode_len() && string_eq(
                &self.entries[i].0,
                key,
            ) {
                return Some(i);
            }
            i = i + 1;
        }
        None
    }

    /// The token stored under `key`.
    pub fn get(&self, key: &str) -> (r: Option<&AccessToken>)
        requires
            self.wf(),
        ensures
            match r {
                Some(t) => self.lookup(key@) == Some(*t),
                None => self.lookup(key@) is None,
            },
    {
        match self.find(key) {
            Some(i) => {
                proof {
                    let j = choose|j: int|
                        0 <= j < self.entries@.len() && (#[trigger] self.entries@[j]).0@ == key@;
                    if j < i {
                        assert(self.entries@[j].0@ != self.entries@[i as int].0@);
                    } else if j > i {
                        assert(self.entries@[i as int].0@ != self.entries@[j].0@);
                    }
                }
                Some(&self.entries[i].1)
            },
            None => None,
        }
    }

    /// Stores `token` under `key`, replacing what was there.
    pub fn set(&mut self, key: String, token: AccessToken)
        requires
            old(self).wf(),
        ensures
            final(self).wf(),
            final(self).lookup(key@) == Some(token),
            forall|k: Seq<char>| k != key@ ==> #[trigger] final(self).lookup(k) == old(self).lookup(k),
    {
        let ghost s = self.entries@;
        let ghost ks = key@;
        let ghost tk = token;
        match self.find(key.as_str()) {
            Some(i) => {
                self.entries.set(i, (key, token));
                proof {
                    let e = self.entries@;
                    assert(e =~= s.update(i as int, (e[i as int].0, tk)));
                    assert forall|k: Seq<char>| k != ks implies #[trigger] self.lookup(k)
                        == old(self).lookup(k) by {
                        if exists|m: int| 0 <= m < e.len() && (#[trigger] e[m]).0@ == k {
                            let m = choose|m: int| 0 <= m < e.len() && (#[trigger] e[m]).0@ == k;
                            assert(s[m] == e[m]);
                            let m2 = choose|m2: int| 0 <= m2 < s.len() && (#[trigger] s[m2]).0@ == k;
                            if m2 != m {
                                if m2 < m {
                                    assert(s[m2].0@ != s[m].0@);
                                } else {
                                    assert(s[m].0@ != s[m2].0@);
                                }
                            }
                        } else {
                            assert forall|m: int| 0 <= m < s.len() implies (#[trigger] s[m]).0@
                                != k by {
                                if m != i {
                                    assert(e[m] == s[m]);
                                }
                            }
                        }
                    }
                    let j = choose|j: int| 0 <= j < e.len() && (#[trigger] e[j]).0@ == ks;
                    if j < i {
                        assert(e[j].0@ != e[i as int].0@);
                    } else if j > i {
                        assert(e[i as int].0@ != e[j].0@);
                    }
                }
            },
            None => {
                self.entries.push((key, token));
                proof {
                    let e = self.entries@;
                    assert(e =~= s.push((e[s.len() as int].0, tk)));
                    assert forall|k: Seq<char>| k != ks implies #[trigger] self.lookup(k)
                        == old(self).lookup(k) by {
                        if exists|m: int| 0 <= m < e.len() && (#[trigger] e[m]).0@ == k {
                            let m = choose|m: int| 0 <= m < e.len() && (#[trigger] e[m]).0@ == k;
                            assert(s[m] == e[m]);
                            let m2 = choose|m2: int| 0 <= m2 < s.len() && (#[trigger] s[m2]).0@ == k;
                            if m2 != m {
                                if m2 < m {
                                    assert(s[m2].0@ != s[m].0@);
                                } else {
                                    assert(s[m].0@ != s[m2].0@);
                                }
                            }
                        } else {
                            assert forall|m: int| 0 <= m < s.len() implies (#[trigger] s[m]).0@
                                != k by {
                                assert(e[m] == s[m]);
                            }
                        }
                    }
                    let j = choose|j: int| 0 <= j < e.len() && (#[trigger] e[j]).0@ == ks;
                    if j < s.len() {
                        assert(e[j] == s[j]);
                    }
                }
            },
        }
    }
}

/// Compares two strings of equal length character by character.
fn string_eq(a: &String, b: &str) -> (r: bool)
    requires
        a@.len() == b@.len(),
    ensures
        r == (a@ == b@),
{
    let n = b.unicode_len();
    let s = a.as_str();
    let mut i: usize = 0;
    while i < n
        invariant
            n == b@.len(),
            a@.len() == n,
            s@ == a@,
            i <= n,
            forall|j: int| 0 <= j < i ==> a@[j] == b@[j],
        decreases n - i,
    {
        if s.get_char(i) != b.get_char(i) {
            assert(a@[i as int] != b@[i as int]);
            return false;
        }
        i = i + 1;
    }
    assert(a@ =~= b@);
    true
}

/// Cache key of an application's token: the prefix, `:`, then the id.
pub open spec fn token_key(appid: Seq<char>) -> Seq<char> {
    ACCESS_TOKEN@ + seq![':'] + appid
}

impl IopClient {
    /// The cache key under which this application's token is stored.
    pub fn access_token_key(&self) -> (r: String)
        ensures
            r@ == token_key(self.appid()),
    {
        let mut k = String::from_str(ACCESS_TOKEN);
        proof {
            reveal_strlit(":");
        }
        k.append(":");
        k.append(self.appid_str());
        k
    }

    /// Stores `token` as this application's token, replacing any earlier one.
    pub fn save_access_token(&self, cache: &mut TokenCache, token: AccessToken)
        requires
            old(cache).wf(),
        ensures
            final(cache).wf(),
            final(cache).lookup(token_key(self.appid())) == Some(token),
            forall|k: Seq<char>|
                k != token_key(self.appid()) ==> #[trigger] final(cache).lookup(k) == old(
                    cache,
                ).lookup(k),
    {
        let key = self.access_token_key();
        cache.set(key, token);
    }

    /// This application's cached token; `NotFound` when none was stored.
    pub fn get_access_token<'a>(&self, cache: &'a TokenCache) -> (r: Result<&'a AccessToken, IopError>)
        requires
            cache.wf(),
        ensures
            match r {
                Ok(t) => cache.lookup(token_key(self.appid())) == Some(*t),
                Err(e) => e == IopError::NotFound && cache.lookup(token_key(self.appid())) is None,
            },
    {
        let key = self.access_token_key();
        match cache.get(key.as_str()) {
            Some(t) => Ok(t),
            None => Err(IopError::NotFound),
        }
    }

    /// Completes a code exchange with what the platform answered: a token is
    /// cached and returned; a failure is returned with the cache untouched.
    pub fn generate_access_token(
        &self,
        cache: &mut TokenCache,
        fetched: Result<AccessToken, IopError>,
    ) -> (r: Result<AccessToken, IopError>)
        requires
            old(cache).wf(),
        ensures
            final(cache).wf(),
            r == fetched,
            match fetched {
                Ok(t) => final(cache).lookup(token_key(self.appid())) == Some(t) && forall|
                    k: Seq<char>,
                | k != token_key(self.appid()) ==> #[trigger] final(cache).lookup(k) == old(
                    cache,
                ).lookup(k),
                Err(_) => *final(cache) == *old(cache),
            },
    {
        match fetched {
            Ok(t) => {
                let stored = t.duplicate();
                self.save_access_token(cache, stored);
                Ok(t)
            },
            Err(e) => Err(e),
        }
    }

    /// Completes a refresh with what the platform answered. A new token is
    /// cached, yet the call still reports `RefreshFailed`: callers read the
    /// token back with `get_access_token`. A failure is returned with the cache
    /// untouched.
    pub fn refresh_access_token(
        &self,
        cache: &mut TokenCache,
        fetched: Result<AccessToken, IopError>,
    ) -> (r: Result<AccessToken, IopError>)
        requires
            old(cache).wf(),
        ensures
            final(cache).wf(),
            match fetched {
                Ok(t) => {
                    &&& r == Err::<AccessToken, IopError>(IopError::RefreshFailed)
                    &&& final(cache).lookup(token_key(self.appid())) == Some(t)
                    &&& forall|k: Seq<char>|
                        k != token_key(self.appid()) ==> #[trigger] final(cache).lookup(k) == old(
                            cache,
                        ).lookup(k)
                },
                Err(e) => r == Err::<AccessToken, IopError>(e) && *final(cache) == *old(cache),
            },
    {
        match fetched {
            Ok(t) => {
                self.save_access_token(cache, t);
                Err(IopError::RefreshFailed)
            },
            Err(e) => Err(e),
        }
    }
}

} // verus!
