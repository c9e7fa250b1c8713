use vstd::prelude::*;

verus! {

/// Lexicographic order on keys, character by character; a proper prefix
/// comes first.
pub open spec fn key_lt(a: Seq<char>, b: Seq<char>) -> bool
    decreases a.len(),
{
    if a.len() == 0 {
        b.len() > 0
    } else if b.len() == 0 {
        false
    } else if a[0] != b[0] {
        a[0] < b[0]
    } else {
        key_lt(a.drop_first(), b.drop_first())
    }
}

pub proof fn lemma_key_lt_irreflexive(a: Seq<char>)
    ensures
        !key_lt(a, a),
    decreases a.len(),
{
    if a.len() > 0 {
        lemma_key_lt_irreflexive(a.drop_first());
    }
}

pub proof fn lemma_key_lt_transitive(a: Seq<char>, b: Seq<char>, c: Seq<char>)
    requires
        key_lt(a, b),
        key_lt(b, c),
    ensures
        key_lt(a, c),
    decreases a.len(),
{
    if a.len() > 0 && b.len() > 0 && c.len() > 0 && a[0] == b[0] && b[0] == c[0] {
        lemma_key_lt_transitive(a.drop_first(), b.drop_first(), c.drop_first());
    }
}

pub proof fn lemma_key_lt_total(a: Seq<char>, b: Seq<char>)
    requires
        a != b,
    ensures
        key_lt(a, b) || key_lt(b, a),
    decreases a.len(),
{
    if a.len() > 0 && b.len() > 0 && a[0] == b[0] {
        if a.drop_first() == b.drop_first() {
            assert(a =~= seq![a[0]] + a.drop_first());
            assert(b =~= seq![b[0]] + b.drop_first());
        }
        lemma_key_lt_total(a.drop_first(), b.drop_first());
    } else if a.len() == 0 && b.len() == 0 {
        assert(a =~= b);
    }
}

proof fn lemma_key_lt_skip(a: Seq<char>, b: Seq<char>, i: int)
    requires
        0 <= i <= a.len(),
        i <= b.len(),
        a.subrange(0, i) == b.subrange(0, i),
    ensures
        key_lt(a, b) == key_lt(a.skip(i), b.skip(i)),
    decreases i,
{
    if i > 0 {
        assert(a[0] == a.subrange(0, i)[0]);
        assert(b[0] == b.subrange(0, i)[0]);
        assert(a.drop_first().subrange(0, i - 1) =~= a.subrange(0, i).drop_first());
        assert(b.drop_first().subrange(0, i - 1) =~= b.subrange(0, i).drop_first());
        lemma_key_lt_skip(a.drop_first(), b.drop_first(), i - 1);
        assert(a.drop_first().skip(i - 1) =~= a.skip(i));
        assert(b.drop_first().skip(i - 1) =~= b.skip(i));
    } else {
        assert(a.skip(0) =~= a);
        assert(b.skip(0) =~= b);
    }
}

/// Compares two keys in the order the platform signs them in.
pub fn key_less(a: &str, b: &str) -> (r: bool)
    ensures
        r == key_lt(a@, b@),
{
    let la = a.unicode_len();
    let lb = b.unicode_len();
    let mut i: usize = 0;
    while i < la && i < lb
        invariant
            la == a@.len(),
            lb == b@.len(),
            i <= la,
            i <= lb,
            a@.subrange(0, i as int) == b@.subrange(0, i as int),
        decreases la - i,
    {
        let ca = a.get_char(i);
        let cb = b.get_char(i);
        if ca != cb {
            proof {
                lemma_key_lt_skip(a@, b@, i as int);
                assert(a@.skip(i as int)[0] == ca);
                assert(b@.skip(i as int)[0] == cb);
            }
            return ca < cb;
        }
        assert(a@.subrange(0, i + 1) =~= a@.subrange(0, i as int).push(ca));
        assert(b@.subrange(0, i + 1) =~= b@.subrange(0, i as int).push(cb));
        i = i + 1;
    }
    proof {
        lemma_key_lt_skip(a@, b@, i as int);
    }
    i < lb
}

/// Entries sorted strictly by key: keys are unique.
pub open spec fn sorted_entries(s: Seq<(Seq<char>, Seq<char>)>) -> bool {
    forall|i: int, j: int| 0 <= i < j < s.len() ==> key_lt(#[trigger] s[i].0, #[trigger] s[j].0)
}

/// The entry `(k, v)` is among `s`.
pub open spec fn has_entry(s: Seq<(Seq<char>, Seq<char>)>, k: Seq<char>, v: Seq<char>) -> bool {
    exists|i: int| 0 <= i < s.len() && #[trigger] s[i] == (k, v)
}

/// Some entry of `s` has key `k`.
pub open spec fn has_key(s: Seq<(Seq<char>, Seq<char>)>, k: Seq<char>) -> bool {
    exists|i: int| 0 <= i < s.len() && #[trigger] s[i].0 == k
}

/// A request's parameter set: a map from name to value, kept in key order so
/// that its canonical form does not depend on how it was built.
pub struct Params {
    entries: Vec<(String, String)>,
}

impl View for Params {
    type V = Seq<(Seq<char>, Seq<char>)>;

    closed spec fn view(&self) -> Seq<(Seq<char>, Seq<char>)> {
        self.entries@.map_values(|e: (String, String)| (e.0@, e.1@))
    }
}

impl Params {
    pub open spec fn wf(&self) -> bool {
        sorted_entries(self@)
    }

    /// An empty parameter set.
    pub fn new() -> (r: Params)
        ensures
            r.wf(),
            r@.len() == 0,
    {
        Params { entries: Vec::new() }
    }

    pub fn len(&self) -> (r: usize)
        ensures
            r == self@.len(),
    {
        self.entries.len()
    }

    /// The entry at position `i`, in key order.
    pub fn entry(&self, i: usize) -> (r: (&String, &String))
        requires
            i < self@.len(),
        ensures
            (r.0@, r.1@) == self@[i as int],
    {
        let e = &self.entries[i];
        (&e.0, &e.1)
    }

    /// Sets `key` to `value`, replacing an earlier value of that key.
    pub fn insert(&mut self, key: String, value: String)
        requires
            old(self).wf(),
        ensures
            final(self).wf(),
            forall|k: Seq<char>, v: Seq<char>|
                #[trigger] has_entry(final(self)@, k, v) <==> if k == key@ {
                    v == value@
                } else {
                    has_entry(old(self)@, k, v)
                },
    {
        let ghost s = self@;
        let n = self.entries.len();
        let mut pos: usize = 0;
        while pos < n && key_less(self.entries[pos].0.as_str(), key.as_str())
            invariant
                n == self.entries.len(),
                self@ == s,
                pos <= n,
                forall|j: int| 0 <= j < pos ==> key_lt(#[trigger] s[j].0, key@),
            decreases n - pos,
        {
            pos = pos + 1;
        }
        let same = pos < n && self.entries[pos].0 == key;
        if same {
            proof {
                assert(s[pos as int].0 == key@);
            }
            let ghost ks = key@;
            let ghost vs = value@;
            self.entries.set(pos, (key, value));
            proof {
                assert(self@ =~= s.update(pos as int, (ks, vs)));
                assert forall|k: Seq<char>, v: Seq<char>|
                    #[trigger] has_entry(self@, k, v) <==> if k == ks {
                        v == vs
                    } else {
                        has_entry(s, k, v)
                    } by {
                    if has_entry(self@, k, v) {
                        let i = choose|i: int| 0 <= i < self@.len() && self@[i] == (k, v);
                        if i != pos {
                            assert(s[i] == (k, v));
                            if k == ks {
                                lemma_key_lt_irreflexive(ks);
                                if i < pos {
                                    assert(key_lt(s[i].0, s[pos as int].0));
                                } else {
                                    assert(key_lt(s[pos as int].0, s[i].0));
                                }
                            }
                        }
                    }
                    if k == ks && v == vs {
                        assert(self@[pos as int] == (k, v));
                    }
                    if k != ks && has_entry(s, k, v) {
                        let i = choose|i: int| 0 <= i < s.len() && s[i] == (k, v);
                        assert(i != pos);
                        assert(self@[i] == (k, v));
                    }
                }
            }
        } else {
            proof {
                if pos < n {
                    lemma_key_lt_total(key@, s[pos as int].0);
                }
            }
            let ghost ks = key@;
            let ghost vs = value@;
            self.entries.insert(pos, (key, value));
            proof {
                assert(self@ =~= s.insert(pos as int, (ks, vs)));
                assert forall|i: int, j: int| 0 <= i < j < self@.len() implies key_lt(
                    #[trigger] self@[i].0,
                    #[trigger] self@[j].0,
                ) by {
                    if j == pos {
                    } else if i == pos {
                        if j > pos + 1 {
                            lemma_key_lt_transitive(ks, s[pos as int].0, s[j - 1].0);
                        }
                    } else if i < pos && j < pos {
                    } else if i < pos {
                        assert(self@[j] == s[j - 1]);
                    } else {
                        assert(self@[i] == s[i - 1]);
                        assert(self@[j] == s[j - 1]);
                    }
                }
                assert forall|k: Seq<char>, v: Seq<char>|
                    #[trigger] has_entry(self@, k, v) <==> if k == ks {
                        v == vs
                    } else {
                        has_entry(s, k, v)
                    } by {
                    if has_entry(self@, k, v) {
                        let i = choose|i: int| 0 <= i < self@.len() && self@[i] == (k, v);
                        if i < pos {
                            assert(s[i] == (k, v));
                            if k == ks {
                                assert(key_lt(s[i].0, ks));
                                lemma_key_lt_irreflexive(ks);
                            }
                        } else if i > pos {
                            assert(s[i - 1] == (k, v));
                            if k == ks {
                                assert(key_lt(ks, s[pos as int].0));
                                lemma_key_lt_irreflexive(ks);
                                if i - 1 > pos {
                                    assert(key_lt(s[pos as int].0, s[i - 1].0));
                                    lemma_key_lt_transitive(ks, s[pos as int].0, ks);
                                }
                            }
                        }
                    }
                    if k == ks && v == vs {
                        assert(self@[pos as int] == (k, v));
                    }
                    if k != ks && has_entry(s, k, v) {
                        let i = choose|i: int| 0 <= i < s.len() && s[i] == (k, v);
                        if i < pos {
                            assert(self@[i] == (k, v));
                        } else {
                            assert(self@[i + 1] == (k, v));
                        }
                    }
                }
            }
        }
    }
}

} // verus!
