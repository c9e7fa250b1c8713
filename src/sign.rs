use vstd::prelude::*;
use crate::params::{Params, has_entry, key_lt, lemma_key_lt_irreflexive, lemma_key_lt_transitive, sorted_entries};

verus! {

/// Upper-case hexadecimal HMAC-SHA256 of `msg` under `key`, both taken as UTF-8.
pub uninterp spec fn hmac_sha256_upper_hex(key: Seq<char>, msg: Seq<char>) -> Seq<char>;

/// Relies on hmac's `Hmac<Sha256>` (keys of any length are accepted, so
/// `new_from_slice` cannot fail) and on `hex::encode_upper` for rendering.
#[verifier::external_body]
fn hmac_sha256_hex(key: &str, msg: &str) -> (r: String)
    ensures
        r@ == hmac_sha256_upper_hex(key@, msg@),
{
    let mut mac = <hmac::Hmac<sha2::Sha256> as hmac::Mac>::new_from_slice(key.as_bytes())
        .expect("HMAC takes keys of any length");
    hmac::Mac::update(&mut mac, msg.as_bytes());
    hex::encode_upper(hmac::Mac::finalize(mac).into_bytes())
}

/// Every key immediately followed by its value, in order, with no delimiter.
pub open spec fn joined(s: Seq<(Seq<char>, Seq<char>)>) -> Seq<char>
    decreases s.len(),
{
    if s.len() == 0 {
        Seq::empty()
    } else {
        joined(s.drop_last()) + s.last().0 + s.last().1
    }
}

/// The string that is signed: the optional method prefix, then the entries.
pub open spec fn canonical(prefix: Option<Seq<char>>, s: Seq<(Seq<char>, Seq<char>)>) -> Seq<char> {
    match prefix {
        Some(p) => p + joined(s),
        None => joined(s),
    }
}

/// The signature the platform expects for a request.
pub open spec fn signature(
    secret: Seq<char>,
    prefix: Option<Seq<char>>,
    s: Seq<(Seq<char>, Seq<char>)>,
) -> Seq<char> {
    hmac_sha256_upper_hex(secret, canonical(prefix, s))
}

/// Builds the canonical string of a parameter set.
pub fn canonical_string(prefix: &Option<String>, params: &Params) -> (r: String)
    ensures
        r@ == canonical(
            match prefix {
                Some(p) => Some(p@),
                None => None,
            },
            params@,
        ),
{
    let mut out = match prefix {
        Some(p) => p.clone(),
        None => String::new(),
    };
    let ghost start = out@;
    let n = params.len();
    let mut i: usize = 0;
    while i < n
        invariant
            n == params@.len(),
            i <= n,
            out@ == start + joined(params@.subrange(0, i as int)),
        decreases n - i,
    {
        let (k, v) = params.entry(i);
        out.append(k.as_str());
        out.append(v.as_str());
        proof {
            let t = params@.subrange(0, i + 1);
            assert(t.drop_last() =~= params@.subrange(0, i as int));
            assert(out@ =~= start + joined(t));
        }
        i = i + 1;
    }
    assert(params@.subrange(0, n as int) =~= params@);
    assert(match prefix { Some(p) => start == p@, None => start =~= Seq::<char>::empty() });
    proof {
        if prefix is None {
            assert(out@ =~= joined(params@));
        }
    }
    out
}

/// Signs `params` with `secret`, prefixed by the method name where one is given.
pub fn sign_params(secret: &str, prefix: &Option<String>, params: &Params) -> (r: String)
    ensures
        r@ == signature(
            secret@,
            match prefix {
                Some(p) => Some(p@),
                None => None,
            },
            params@,
        ),
{
    let msg = canonical_string(prefix, params);
    hmac_sha256_hex(secret, msg.as_str())
}

/// The query string of a request: `?k=v` for the first entry, `&k=v` after.
pub open spec fn query(s: Seq<(Seq<char>, Seq<char>)>) -> Seq<char>
    decreases s.len(),
{
    if s.len() == 0 {
        Seq::empty()
    } else {
        query(s.drop_last()) + (if s.len() == 1 {
            seq!['?']
        } else {
            seq!['&']
        }) + s.last().0 + seq!['='] + s.last().1
    }
}

/// A request URL: base, query string, then `&sign=` and the signature.
pub open spec fn signed_url(
    base: Seq<char>,
    s: Seq<(Seq<char>, Seq<char>)>,
    sign: Seq<char>,
) -> Seq<char> {
    base + query(s) + seq!['&', 's', 'i', 'g', 'n', '='] + sign
}

/// Appends the parameters and the signature to `base`; values are inserted as
/// they are, with no percent-encoding.
pub fn build_url(base: &str, params: &Params, sign: &str) -> (r: String)
    ensures
        r@ == signed_url(base@, params@, sign@),
{
    let mut out = String::from_str(base);
    let n = params.len();
    let mut i: usize = 0;
    proof {
        reveal_strlit("?");
        reveal_strlit("&");
        reveal_strlit("=");
        reveal_strlit("&sign=");
    }
    while i < n
        invariant
            n == params@.len(),
            i <= n,
            out@ == base@ + query(params@.subrange(0, i as int)),
            "?"@ == seq!['?'],
            "&"@ == seq!['&'],
            "="@ == seq!['='],
        decreases n - i,
    {
        let (k, v) = params.entry(i);
        if i == 0 {
            out.append("?");
        } else {
            out.append("&");
        }
        out.append(k.as_str());
        out.append("=");
        out.append(v.as_str());
        proof {
            let t = params@.subrange(0, i + 1);
            assert(t.drop_last() =~= params@.subrange(0, i as int));
            assert(out@ =~= base@ + query(t));
        }
        i = i + 1;
    }
    assert(params@.subrange(0, n as int) =~= params@);
    out.append("&sign=");
    out.append(sign);
    assert(out@ =~= signed_url(base@, params@, sign@));
    out
}

proof fn lemma_joined_append(a: Seq<(Seq<char>, Seq<char>)>, b: Seq<(Seq<char>, Seq<char>)>)
    ensures
        joined(a + b) == joined(a) + joined(b),
    decreases b.len(),
{
    if b.len() == 0 {
        assert(a + b =~= a);
        assert(joined(a) + joined(b) =~= joined(a));
    } else {
        assert((a + b).drop_last() =~= a + b.drop_last());
        lemma_joined_append(a, b.drop_last());
        assert(joined(a + b) =~= joined(a) + joined(b));
    }
}

proof fn lemma_joined_split(s: Seq<(Seq<char>, Seq<char>)>, i: int)
    requires
        0 <= i < s.len(),
    ensures
        joined(s) == joined(s.subrange(0, i)) + s[i].0 + s[i].1 + joined(s.subrange(i + 1, s.len() as int)),
{
    let a = s.subrange(0, i);
    let b = s.subrange(i + 1, s.len() as int);
    assert(s =~= a + seq![s[i]] + b);
    lemma_joined_append(a + seq![s[i]], b);
    lemma_joined_append(a, seq![s[i]]);
    assert(seq![s[i]].drop_last() =~= Seq::<(Seq<char>, Seq<char>)>::empty());
    let one = seq![s[i]];
    assert(joined(one.drop_last()) =~= Seq::<char>::empty());
    assert(joined(one) == joined(one.drop_last()) + one.last().0 + one.last().1);
    assert(joined(one) =~= s[i].0 + s[i].1);
    assert(joined(s) =~= joined(a) + s[i].0 + s[i].1 + joined(b));
}

proof fn lemma_middle_differs(a: Seq<char>, x: Seq<char>, y: Seq<char>, b: Seq<char>)
    requires
        x != y,
    ensures
        a + x + b != a + y + b,
{
    if a + x + b == a + y + b {
        if x.len() == y.len() {
            assert((a + x + b).subrange(a.len() as int, (a.len() + x.len()) as int) =~= x);
            assert((a + y + b).subrange(a.len() as int, (a.len() + y.len()) as int) =~= y);
        } else {
            assert((a + x + b).len() != (a + y + b).len());
        }
    }
}

proof fn lemma_sorted_same_entries(s: Seq<(Seq<char>, Seq<char>)>, t: Seq<(Seq<char>, Seq<char>)>)
    requires
        sorted_entries(s),
        sorted_entries(t),
        forall|k: Seq<char>, v: Seq<char>| has_entry(s, k, v) <==> has_entry(t, k, v),
    ensures
        s == t,
    decreases s.len(),
{
    if s.len() == 0 {
        if t.len() > 0 {
            assert(has_entry(t, t[0].0, t[0].1));
        }
        assert(s =~= t);
    } else {
        assert(has_entry(s, s[0].0, s[0].1));
        assert(has_entry(t, s[0].0, s[0].1));
        let j = choose|j: int| 0 <= j < t.len() && t[j] == (s[0].0, s[0].1);
        assert(has_entry(t, t[0].0, t[0].1));
        assert(has_entry(s, t[0].0, t[0].1));
        let i = choose|i: int| 0 <= i < s.len() && s[i] == (t[0].0, t[0].1);
        if j > 0 {
            assert(key_lt(t[0].0, t[j].0));
            if i == 0 {
                lemma_key_lt_irreflexive(t[0].0);
            } else {
                assert(key_lt(s[0].0, s[i].0));
                lemma_key_lt_transitive(s[0].0, t[0].0, s[0].0);
                lemma_key_lt_irreflexive(s[0].0);
            }
        }
        assert(s[0] == t[0]);
        let s1 = s.drop_first();
        let t1 = t.drop_first();
        assert forall|k: Seq<char>, v: Seq<char>| has_entry(s1, k, v) <==> has_entry(t1, k, v) by {
            if has_entry(s1, k, v) {
                let a = choose|a: int| 0 <= a < s1.len() && s1[a] == (k, v);
                assert(s[a + 1] == (k, v));
                assert(has_entry(s, k, v));
                let b = choose|b: int| 0 <= b < t.len() && t[b] == (k, v);
                if b == 0 {
                    assert(key_lt(s[0].0, s[a + 1].0));
                    lemma_key_lt_irreflexive(k);
                }
                assert(t1[b - 1] == (k, v));
            }
            if has_entry(t1, k, v) {
                let a = choose|a: int| 0 <= a < t1.len() && t1[a] == (k, v);
                assert(t[a + 1] == (k, v));
                assert(has_entry(t, k, v));
                let b = choose|b: int| 0 <= b < s.len() && s[b] == (k, v);
                if b == 0 {
                    assert(key_lt(t[0].0, t[a + 1].0));
                    lemma_key_lt_irreflexive(k);
                }
                assert(s1[b - 1] == (k, v));
            }
        }
        lemma_sorted_same_entries(s1, t1);
        assert(s =~= seq![s[0]] + s1);
        assert(t =~= seq![t[0]] + t1);
    }
}

/// The signature depends only on which entries a parameter set holds, not on
/// the order in which they were inserted.
pub proof fn lemma_sign_order_independent(
    secret: Seq<char>,
    prefix: Option<Seq<char>>,
    p: Params,
    q: Params,
)
    requires
        p.wf(),
        q.wf(),
        forall|k: Seq<char>, v: Seq<char>| has_entry(p@, k, v) <==> has_entry(q@, k, v),
    ensures
        signature(secret, prefix, p@) == signature(secret, prefix, q@),
{
    lemma_sorted_same_entries(p@, q@);
}

/// Changing the value of one parameter changes the string that is signed.
pub proof fn lemma_canonical_value_sensitive(
    prefix: Option<Seq<char>>,
    s: Seq<(Seq<char>, Seq<char>)>,
    i: int,
    v: Seq<char>,
)
    requires
        0 <= i < s.len(),
        v != s[i].1,
    ensures
        canonical(prefix, s) != canonical(prefix, s.update(i, (s[i].0, v))),
{
    let t = s.update(i, (s[i].0, v));
    lemma_joined_split(s, i);
    lemma_joined_split(t, i);
    assert(t.subrange(0, i) =~= s.subrange(0, i));
    assert(t.subrange(i + 1, t.len() as int) =~= s.subrange(i + 1, s.len() as int));
    let a = joined(s.subrange(0, i)) + s[i].0;
    let b = joined(s.subrange(i + 1, s.len() as int));
    lemma_middle_differs(a, s[i].1, v, b);
    match prefix {
        Some(p) => {
            assert(p + a + s[i].1 + b != p + a + v + b) by {
                if p + a + s[i].1 + b == p + a + v + b {
                    assert((p + a + s[i].1 + b).skip(p.len() as int) =~= a + s[i].1 + b);
                    assert((p + a + v + b).skip(p.len() as int) =~= a + v + b);
                }
            }
            assert(canonical(prefix, s) =~= p + a + s[i].1 + b);
            assert(canonical(prefix, t) =~= p + a + v + b);
        },
        None => {
            assert(canonical(prefix, s) =~= a + s[i].1 + b);
            assert(canonical(prefix, t) =~= a + v + b);
        },
    }
}

/// Changing the method prefix changes the string that is signed.
pub proof fn lemma_canonical_prefix_sensitive(
    prefix_a: Seq<char>,
    prefix_b: Seq<char>,
    s: Seq<(Seq<char>, Seq<char>)>,
)
    requires
        prefix_a != prefix_b,
    ensures
        canonical(Some(prefix_a), s) != canonical(Some(prefix_b), s),
{
    if prefix_a.len() == prefix_b.len() {
        if prefix_a + joined(s) == prefix_b + joined(s) {
            assert((prefix_a + joined(s)).subrange(0, prefix_a.len() as int) =~= prefix_a);
            assert((prefix_b + joined(s)).subrange(0, prefix_b.len() as int) =~= prefix_b);
        }
    } else {
        assert((prefix_a + joined(s)).len() != (prefix_b + joined(s)).len());
    }
}

} // verus!
