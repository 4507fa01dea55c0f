//! The per-request store of path captures.
//!
//! A router fills one `CaptureStore` per matched request with pairs of a
//! capture name and the raw (possibly percent-encoded) segment text. Keys
//! are unique within one store and insertion order is kept: positional
//! targets consume the entries in store order.

use vstd::prelude::*;

verus! {

/// True when no two entries of `s` carry the same key.
pub open spec fn keys_unique(s: Seq<(Seq<char>, Seq<char>)>) -> bool {
    forall|i: int, j: int| 0 <= i < j < s.len() ==> s[i].0 != s[j].0
}

/// True when some entry of `s` carries the key `k`.
pub open spec fn has_key(s: Seq<(Seq<char>, Seq<char>)>, k: Seq<char>) -> bool {
    exists|i: int| 0 <= i < s.len() && s[i].0 == k
}

/// Value of the first entry of `s` whose key is `k`; the empty sequence
/// when no entry has that key.
pub open spec fn lookup(s: Seq<(Seq<char>, Seq<char>)>, k: Seq<char>) -> Seq<char>
    decreases s.len(),
{
    if s.len() == 0 {
        Seq::empty()
    } else if s[0].0 == k {
        s[0].1
    } else {
        lookup(s.subrange(1, s.len() as int), k)
    }
}

/// The entries of `b` whose keys do not occur in `a`, in the order of `b`.
pub open spec fn fresh_entries(
    a: Seq<(Seq<char>, Seq<char>)>,
    b: Seq<(Seq<char>, Seq<char>)>,
) -> Seq<(Seq<char>, Seq<char>)>
    decreases b.len(),
{
    if b.len() == 0 {
        Seq::empty()
    } else {
        fresh_entries(a, b.drop_last()) + if !has_key(a, b.last().0) {
            seq![b.last()]
        } else {
            Seq::empty()
        }
    }
}

/// Result of merging `b` into `a`: the incoming set's entries take
/// precedence on key collision. Entries of `a` keep their position, with
/// the value replaced by `b`'s where `b` also has the key; entries of `b`
/// with a fresh key follow, in `b`'s order.
pub open spec fn merged(
    a: Seq<(Seq<char>, Seq<char>)>,
    b: Seq<(Seq<char>, Seq<char>)>,
) -> Seq<(Seq<char>, Seq<char>)> {
    a.map(
        |i: int, p: (Seq<char>, Seq<char>)|
            if has_key(b, p.0) {
                (p.0, lookup(b, p.0))
            } else {
                p
            },
    ) + fresh_entries(a, b)
}

/// View of a vector of owned capture pairs.
pub open spec fn pairs_view(v: Seq<(String, String)>) -> Seq<(Seq<char>, Seq<char>)> {
    v.map(|i: int, p: (String, String)| (p.0@, p.1@))
}

/// Ordered mapping of capture name to raw segment text for one request.
pub struct CaptureStore {
    entries: Vec<(String, String)>,
}

impl View for CaptureStore {
    type V = Seq<(Seq<char>, Seq<char>)>;

    closed spec fn view(&self) -> Seq<(Seq<char>, Seq<char>)> {
        pairs_view(self.entries@)
    }
}

pub proof fn lemma_lookup_first(s: Seq<(Seq<char>, Seq<char>)>, k: Seq<char>, i: int)
    requires
        0 <= i < s.len(),
        forall|j: int| 0 <= j < i ==> s[j].0 != k,
        s[i].0 == k,
    ensures
        has_key(s, k),
        lookup(s, k) == s[i].1,
    decreases i,
{
    if i > 0 {
        let t = s.subrange(1, s.len() as int);
        assert(forall|j: int| 0 <= j < i - 1 ==> t[j] == s[j + 1]);
        lemma_lookup_first(t, k, i - 1);
    }
}

impl CaptureStore {
    /// Well-formed: keys unique within one match.
    pub open spec fn wf(&self) -> bool {
        keys_unique(self@)
    }

    /// An empty store, as installed at the start of a worker's pipeline.
    pub fn new() -> (r: CaptureStore)
        ensures
            r@ == Seq::<(Seq<char>, Seq<char>)>::empty(),
            r.wf(),
    {
        let r = CaptureStore { entries: Vec::new() };
        proof {
            assert(r@ =~= Seq::<(Seq<char>, Seq<char>)>::empty());
        }
        r
    }

    /// Number of captures in the store.
    pub fn len(&self) -> (n: usize)
        ensures
            n == self@.len(),
    {
        self.entries.len()
    }

    /// The entry at position `i`, as the router recorded it.
    pub fn entry(&self, i: usize) -> (r: (String, String))
        requires
            i < self@.len(),
        ensures
            (r.0@, r.1@) == self@[i as int],
    {
        let p = &self.entries[i];
        (p.0.clone(), p.1.clone())
    }

    /// Raw value bound to `key`, or `None` when the key was never captured.
    pub fn get(&self, key: &String) -> (r: Option<String>)
        ensures
            r is Some <==> has_key(self@, key@),
            r matches Some(v) ==> v@ == lookup(self@, key@),
    {
        let n = self.entries.len();
        let mut i: usize = 0;
        while i < n
            invariant
                n == self@.len(),
                i <= n,
                forall|j: int| 0 <= j < i ==> self@[j].0 != key@,
            decreases n - i,
        {
            if self.entries[i].0.eq(key) {
                proof {
                    lemma_lookup_first(self@, key@, i as int);
                }
                return Some(self.entries[i].1.clone());
            }
            i += 1;
        }
        None
    }

    /// True when `key` was captured.
    pub fn contains_key(&self, key: &String) -> (r: bool)
        ensures
            r == has_key(self@, key@),
    {
        self.get(key).is_some()
    }

    /// Bind `key` to `value`: the value of the entry already carrying `key`
    /// is replaced in place, else the pair is appended.
    pub fn insert(&mut self, key: String, value: String)
        requires
            old(self).wf(),
        ensures
            final(self).wf(),
            has_key(old(self)@, key@) ==> exists|i: int|
                0 <= i < old(self)@.len() && old(self)@[i].0 == key@ && final(self)@
                    == old(self)@.update(i, (key@, value@)),
            !has_key(old(self)@, key@) ==> final(self)@ == old(self)@.push((key@, value@)),
    {
        let ghost a = self@;
        let n = self.entries.len();
        let mut i: usize = 0;
        while i < n
            invariant
                n == self@.len(),
                i <= n,
                self@ == a,
                a == old(self)@,
                keys_unique(a),
                forall|j: int| 0 <= j < i ==> self@[j].0 != key@,
            decreases n - i,
        {
            if self.entries[i].0.eq(&key) {
                proof {
                    assert(a[i as int].0 == key@);
                }
                self.entries.remove(i);
                self.entries.insert(i, (key, value));
                proof {
                    assert(self@ =~= a.update(i as int, (key@, value@)));
                    assert(keys_unique(a));
                    assert forall|p: int, q: int| 0 <= p < q < self@.len() implies self@[p].0
                        != self@[q].0 by {
                        assert(a[p].0 != a[q].0);
                        assert(self@[p] == if p == i as int {
                            (key@, value@)
                        } else {
                            a[p]
                        });
                        assert(self@[q] == if q == i as int {
                            (key@, value@)
                        } else {
                            a[q]
                        });
                    }
                    assert(exists|w: int|
                        0 <= w < a.len() && a[w].0 == key@ && self@ == a.update(
                            w,
                            (key@, value@),
                        )) by {
                        assert(0 <= (i as int) < a.len() && a[i as int].0 == key@ && self@
                            == a.update(i as int, (key@, value@)));
                    }
                }
                return ;
            }
            i += 1;
        }
        self.entries.push((key, value));
        proof {
            assert(self@ =~= a.push((key@, value@)));
            assert forall|p: int, q: int| 0 <= p < q < self@.len() implies self@[p].0
                != self@[q].0 by {
                if q < a.len() {
                    assert(a[p].0 != a[q].0);
                }
            }
        }
    }

    /// Merge `incoming` into this store; the incoming entries take
    /// precedence on key collision (see [`merged`]).
    pub fn merge(&mut self, incoming: &CaptureStore)
        requires
            old(self).wf(),
            incoming.wf(),
        ensures
            final(self)@ == merged(old(self)@, incoming@),
            final(self).wf(),
    {
        let ghost a = self@;
        let ghost b = incoming@;
        let mut out: Vec<(String, String)> = Vec::new();
        let n = self.entries.len();
        let mut i: usize = 0;
        while i < n
            invariant
                n == self@.len(),
                self@ == a,
                incoming@ == b,
                i <= n,
                pairs_view(out@).len() == i,
                forall|j: int|
                    0 <= j < i ==> pairs_view(out@)[j] == (if has_key(b, a[j].0) {
                        (a[j].0, lookup(b, a[j].0))
                    } else {
                        a[j]
                    }),
            decreases n - i,
        {
            let key = self.entries[i].0.clone();
            proof {
                assert(key@ == a[i as int].0);
            }
            let ghost before = out@;
            match incoming.get(&key) {
                Some(v) => out.push((key, v)),
                None => out.push((key, self.entries[i].1.clone())),
            }
            proof {
                assert forall|j: int|
                    0 <= j < i + 1 implies pairs_view(out@)[j] == (if has_key(b, a[j].0) {
                    (a[j].0, lookup(b, a[j].0))
                } else {
                    a[j]
                }) by {
                    if j < i {
                        assert(out@[j] == before[j]);
                        assert(pairs_view(out@)[j] == pairs_view(before)[j]);
                    } else {
                        assert(out@[j] == out@.last());
                    }
                }
            }
            i += 1;
        }
        let ghost mapped = a.map(
            |j: int, p: (Seq<char>, Seq<char>)|
                if has_key(b, p.0) {
                    (p.0, lookup(b, p.0))
                } else {
                    p
                },
        );
        proof {
            assert(pairs_view(out@) =~= mapped);
        }
        let m = incoming.entries.len();
        let mut j: usize = 0;
        while j < m
            invariant
                m == incoming@.len(),
                self@ == a,
                incoming@ == b,
                j <= m,
                pairs_view(out@) == mapped + fresh_entries(a, b.take(j as int)),
            decreases m - j,
        {
            let key = incoming.entries[j].0.clone();
            proof {
                assert(key@ == b[j as int].0);
            }
            let ghost before = pairs_view(out@);
            if !self.contains_key(&key) {
                out.push((key, incoming.entries[j].1.clone()));
                proof {
                    assert(pairs_view(out@) =~= before.push((b[j as int].0, b[j as int].1)));
                }
            }
            proof {
                let t1 = b.take(j as int + 1);
                assert(t1.drop_last() =~= b.take(j as int));
                assert(t1.last() == b[j as int]);
                assert(fresh_entries(a, t1) == fresh_entries(a, b.take(j as int)) + if !has_key(
                    a,
                    b[j as int].0,
                ) {
                    seq![b[j as int]]
                } else {
                    Seq::<(Seq<char>, Seq<char>)>::empty()
                });
                assert(pairs_view(out@) =~= mapped + fresh_entries(a, t1));
            }
            j += 1;
        }
        proof {
            assert(b.take(m as int) =~= b);
            assert(pairs_view(out@) == merged(a, b));
            lemma_merged_wf(a, b);
        }
        self.entries = out;
    }
}

/// The entries that [`fresh_entries`] keeps come from `b`, carry keys that
/// `a` lacks, and (when `b`'s keys are unique) stay pairwise distinct.
pub proof fn lemma_fresh_entries_wf(a: Seq<(Seq<char>, Seq<char>)>, b: Seq<(Seq<char>, Seq<char>)>)
    requires
        keys_unique(b),
    ensures
        forall|i: int|
            0 <= i < fresh_entries(a, b).len() ==> !has_key(a, #[trigger] fresh_entries(a, b)[i].0)
                && has_key(b, fresh_entries(a, b)[i].0),
        keys_unique(fresh_entries(a, b)),
    decreases b.len(),
{
    if b.len() == 0 {
    } else {
        let c = b.drop_last();
        assert forall|p: int, q: int| 0 <= p < q < c.len() implies c[p].0 != c[q].0 by {
            assert(c[p] == b[p] && c[q] == b[q]);
            assert(b[p].0 != b[q].0);
        }
        lemma_fresh_entries_wf(a, c);
        let fc = fresh_entries(a, c);
        assert forall|i: int| 0 <= i < fc.len() implies has_key(b, #[trigger] fc[i].0) by {
            let w = choose|w: int| 0 <= w < c.len() && c[w].0 == fc[i].0;
            assert(b[w].0 == fc[i].0);
        }
        if !has_key(a, b.last().0) {
            let fe = fresh_entries(a, b);
            assert(fe == fc + seq![b.last()]);
            assert forall|p: int, q: int| 0 <= p < q < fe.len() implies fe[p].0 != fe[q].0 by {
                if q < fc.len() {
                    assert(fc[p].0 != fc[q].0);
                } else {
                    assert(fe[q] == b.last());
                    let w = choose|w: int| 0 <= w < c.len() && c[w].0 == fc[p].0;
                    assert(b[w].0 == fc[p].0);
                    assert(b[w].0 != b[b.len() - 1].0);
                }
            }
        } else {
            assert(fresh_entries(a, b) =~= fc);
        }
    }
}

/// Merging two well-formed stores yields a well-formed store.
pub proof fn lemma_merged_wf(a: Seq<(Seq<char>, Seq<char>)>, b: Seq<(Seq<char>, Seq<char>)>)
    requires
        keys_unique(a),
        keys_unique(b),
    ensures
        keys_unique(merged(a, b)),
{
    lemma_fresh_entries_wf(a, b);
    let m = merged(a, b);
    let fe = fresh_entries(a, b);
    assert forall|p: int, q: int| 0 <= p < q < m.len() implies m[p].0 != m[q].0 by {
        if q < a.len() {
            assert(a[p].0 != a[q].0);
            assert(m[p].0 == a[p].0 && m[q].0 == a[q].0);
        } else if p < a.len() {
            assert(m[p].0 == a[p].0);
            assert(m[q] == fe[q - a.len()]);
            assert(!has_key(a, fe[q - a.len()].0));
            assert(has_key(a, a[p].0));
        } else {
            assert(m[p] == fe[p - a.len()] && m[q] == fe[q - a.len()]);
            assert(fe[p - a.len()].0 != fe[q - a.len()].0);
        }
    }
}

/// Merging an empty store into a populated one leaves it unchanged.
pub proof fn lemma_merge_empty_identity(a: Seq<(Seq<char>, Seq<char>)>)
    ensures
        merged(a, Seq::<(Seq<char>, Seq<char>)>::empty()) == a,
{
    assert(merged(a, Seq::<(Seq<char>, Seq<char>)>::empty()) =~= a);
}

/// Entries of `b` all carry keys that `a` lacks.
pub open spec fn disjoint_keys(
    a: Seq<(Seq<char>, Seq<char>)>,
    b: Seq<(Seq<char>, Seq<char>)>,
) -> bool {
    forall|i: int, j: int|
        0 <= i < a.len() && 0 <= j < b.len() ==> a[i].0 != b[j].0
}

/// Merging stores with disjoint keys concatenates them: the union of both
/// key sets, with the original values intact.
pub proof fn lemma_merge_disjoint_union(
    a: Seq<(Seq<char>, Seq<char>)>,
    b: Seq<(Seq<char>, Seq<char>)>,
)
    requires
        disjoint_keys(a, b),
    ensures
        merged(a, b) == a + b,
    decreases b.len(),
{
    assert forall|j: int| 0 <= j < b.len() implies !has_key(a, #[trigger] b[j].0) by {
        if has_key(a, b[j].0) {
            let w = choose|w: int| 0 <= w < a.len() && a[w].0 == b[j].0;
        }
    }
    assert forall|i: int| 0 <= i < a.len() implies !has_key(b, #[trigger] a[i].0) by {
        if has_key(b, a[i].0) {
            let w = choose|w: int| 0 <= w < b.len() && b[w].0 == a[i].0;
        }
    }
    lemma_fresh_entries_all(a, b);
    assert(merged(a, b) =~= a + b);
}

/// When no key of `b` occurs in `a`, every entry of `b` is fresh.
proof fn lemma_fresh_entries_all(a: Seq<(Seq<char>, Seq<char>)>, b: Seq<(Seq<char>, Seq<char>)>)
    requires
        forall|j: int| 0 <= j < b.len() ==> !has_key(a, #[trigger] b[j].0),
    ensures
        fresh_entries(a, b) == b,
    decreases b.len(),
{
    if b.len() == 0 {
        assert(fresh_entries(a, b) =~= b);
    } else {
        let c = b.drop_last();
        assert forall|j: int| 0 <= j < c.len() implies !has_key(a, #[trigger] c[j].0) by {
            assert(c[j] == b[j]);
        }
        lemma_fresh_entries_all(a, c);
        assert(!has_key(a, b.last().0)) by {
            assert(b[b.len() - 1].0 == b.last().0);
        }
        assert(fresh_entries(a, b) =~= b);
    }
}

} // verus!
