//! The resource cache: the latest-known state of every live object,
//! keyed by (kind, namespace, name). It supports point lookups,
//! aggregate counts, per-key upserts and deletes, and the wholesale
//! replacement of one kind's entries after a full re-list. The
//! process shares one cache between the per-kind watch loops behind a
//! lock owned by the embedding program; every operation here is one
//! atomic step of that protocol.

use vstd::prelude::*;
use crate::doc::{Doc, bytes_eq, copy_bytes};

verus! {

/// One cached object.
pub struct CacheEntry {
    pub kind: Vec<u8>,
    pub namespace: Vec<u8>,
    pub name: Vec<u8>,
    pub version: u64,
    pub doc: Doc,
}

/// One object of a full listing, not yet tagged with its kind.
pub struct ListedObject {
    pub namespace: Vec<u8>,
    pub name: Vec<u8>,
    pub version: u64,
    pub doc: Doc,
}

/// Whether `e` is stored under the key (k, ns, n).
pub open spec fn key_is(e: CacheEntry, k: Seq<u8>, ns: Seq<u8>, n: Seq<u8>) -> bool {
    e.kind@ == k && e.namespace@ == ns && e.name@ == n
}

/// The entry stored under (k, ns, n); the latest write wins.
pub open spec fn lookup(s: Seq<CacheEntry>, k: Seq<u8>, ns: Seq<u8>, n: Seq<u8>) -> Option<
    CacheEntry,
>
    decreases s.len(),
{
    if s.len() == 0 {
        None
    } else if key_is(s.last(), k, ns, n) {
        Some(s.last())
    } else {
        lookup(s.drop_last(), k, ns, n)
    }
}

/// Whether `e` falls in the scope of an aggregate count over `k`,
/// restricted to one namespace when `ns` is given.
pub open spec fn in_scope(e: CacheEntry, k: Seq<u8>, ns: Option<Seq<u8>>) -> bool {
    e.kind@ == k && match ns {
        Some(x) => e.namespace@ == x,
        None => true,
    }
}

/// Number of cached objects of kind `k` in scope `ns`.
pub open spec fn count_in(s: Seq<CacheEntry>, k: Seq<u8>, ns: Option<Seq<u8>>) -> int
    decreases s.len(),
{
    if s.len() == 0 {
        0
    } else {
        count_in(s.drop_last(), k, ns) + if in_scope(s.last(), k, ns) {
            1int
        } else {
            0int
        }
    }
}

/// No two entries share a key.
pub open spec fn uniq(s: Seq<CacheEntry>) -> bool
    decreases s.len(),
{
    s.len() == 0 || (uniq(s.drop_last()) && lookup(
        s.drop_last(),
        s.last().kind@,
        s.last().namespace@,
        s.last().name@,
    ) is None)
}

/// An entry present at index `i` is found by `lookup` under its key.
pub proof fn lemma_lookup_present(s: Seq<CacheEntry>, i: int)
    requires
        0 <= i < s.len(),
        uniq(s),
    ensures
        lookup(s, s[i].kind@, s[i].namespace@, s[i].name@) is Some,
    decreases s.len(),
{
    if i == s.len() - 1 {
        assert(key_is(s.last(), s[i].kind@, s[i].namespace@, s[i].name@));
    } else {
        lemma_lookup_present(s.drop_last(), i);
        assert(s.drop_last()[i] == s[i]);
        if key_is(s.last(), s[i].kind@, s[i].namespace@, s[i].name@) {
        }
    }
}

/// A key matched by no entry is found by `lookup` as absent.
pub proof fn lemma_lookup_absent(s: Seq<CacheEntry>, k: Seq<u8>, ns: Seq<u8>, n: Seq<u8>)
    requires
        forall|i: int| 0 <= i < s.len() ==> !key_is(s[i], k, ns, n),
    ensures
        lookup(s, k, ns, n) is None,
    decreases s.len(),
{
    if s.len() > 0 {
        assert(!key_is(s[s.len() - 1], k, ns, n));
        lemma_lookup_absent(s.drop_last(), k, ns, n);
    }
}

/// Effect of appending an entry on every lookup.
pub proof fn lemma_lookup_push(s: Seq<CacheEntry>, e: CacheEntry)
    ensures
        forall|k: Seq<u8>, ns: Seq<u8>, n: Seq<u8>|
            #[trigger] lookup(s.push(e), k, ns, n) == if key_is(e, k, ns, n) {
                Some(e)
            } else {
                lookup(s, k, ns, n)
            },
{
    assert(s.push(e).drop_last() =~= s);
    assert(s.push(e).last() == e);
}

/// Effect of overwriting the one entry that holds a key.
pub proof fn lemma_lookup_update(s: Seq<CacheEntry>, i: int, e2: CacheEntry)
    requires
        0 <= i < s.len(),
        uniq(s),
        key_is(e2, s[i].kind@, s[i].namespace@, s[i].name@),
    ensures
        uniq(s.update(i, e2)),
        forall|k: Seq<u8>, ns: Seq<u8>, n: Seq<u8>|
            #[trigger] lookup(s.update(i, e2), k, ns, n) == if key_is(e2, k, ns, n) {
                Some(e2)
            } else {
                lookup(s, k, ns, n)
            },
    decreases s.len(),
{
    let s2 = s.update(i, e2);
    if i == s.len() - 1 {
        assert(s2.drop_last() =~= s.drop_last());
        assert(s2.last() == e2);
        assert forall|k: Seq<u8>, ns: Seq<u8>, n: Seq<u8>|
            #[trigger] lookup(s2, k, ns, n) == if key_is(e2, k, ns, n) {
                Some(e2)
            } else {
                lookup(s, k, ns, n)
            } by {
            if key_is(e2, k, ns, n) {
            } else {
                assert(!key_is(s.last(), k, ns, n));
            }
        }
    } else {
        assert(s2.drop_last() =~= s.drop_last().update(i, e2));
        assert(s2.last() == s.last());
        assert(s.drop_last()[i] == s[i]);
        lemma_lookup_update(s.drop_last(), i, e2);
        assert forall|k: Seq<u8>, ns: Seq<u8>, n: Seq<u8>|
            #[trigger] lookup(s2, k, ns, n) == if key_is(e2, k, ns, n) {
                Some(e2)
            } else {
                lookup(s, k, ns, n)
            } by {
            assert(lookup(s2.drop_last(), k, ns, n) == lookup(
                s.drop_last().update(i, e2),
                k,
                ns,
                n,
            ));
            if key_is(s.last(), k, ns, n) {
                // The overwritten slot and the last slot hold distinct
                // keys, since `uniq(s)` forbids a duplicate of the last.
                if key_is(e2, k, ns, n) {
                    lemma_lookup_present(s.drop_last(), i);
                }
            }
        }
        // Uniqueness of the updated sequence.
        assert(lookup(s.drop_last(), s.last().kind@, s.last().namespace@, s.last().name@) is None);
        if key_is(e2, s.last().kind@, s.last().namespace@, s.last().name@) {
            lemma_lookup_present(s.drop_last(), i);
        }
        assert(lookup(s2.drop_last(), s2.last().kind@, s2.last().namespace@, s2.last().name@)
            is None);
    }
}

/// Effect of removing the one entry that holds a key.
pub proof fn lemma_lookup_remove(s: Seq<CacheEntry>, i: int)
    requires
        0 <= i < s.len(),
        uniq(s),
    ensures
        uniq(s.remove(i)),
        forall|k: Seq<u8>, ns: Seq<u8>, n: Seq<u8>|
            #[trigger] lookup(s.remove(i), k, ns, n) == if key_is(s[i], k, ns, n) {
                None::<CacheEntry>
            } else {
                lookup(s, k, ns, n)
            },
    decreases s.len(),
{
    let s2 = s.remove(i);
    if i == s.len() - 1 {
        assert(s2 =~= s.drop_last());
        assert forall|k: Seq<u8>, ns: Seq<u8>, n: Seq<u8>|
            #[trigger] lookup(s2, k, ns, n) == if key_is(s[i], k, ns, n) {
                None::<CacheEntry>
            } else {
                lookup(s, k, ns, n)
            } by {
            if key_is(s[i], k, ns, n) {
                assert(lookup(s.drop_last(), s.last().kind@, s.last().namespace@, s.last().name@)
                    is None);
            }
        }
    } else {
        assert(s2.drop_last() =~= s.drop_last().remove(i));
        assert(s2.last() == s.last());
        assert(s.drop_last()[i] == s[i]);
        lemma_lookup_remove(s.drop_last(), i);
        assert forall|k: Seq<u8>, ns: Seq<u8>, n: Seq<u8>|
            #[trigger] lookup(s2, k, ns, n) == if key_is(s[i], k, ns, n) {
                None::<CacheEntry>
            } else {
                lookup(s, k, ns, n)
            } by {
            assert(lookup(s2.drop_last(), k, ns, n) == lookup(
                s.drop_last().remove(i),
                k,
                ns,
                n,
            ));
            if key_is(s[i], k, ns, n) && key_is(s.last(), k, ns, n) {
                lemma_lookup_present(s.drop_last(), i);
            }
        }
        assert(lookup(s2.drop_last(), s2.last().kind@, s2.last().namespace@, s2.last().name@)
            is None);
    }
}

/// The object of a listing stored under (ns, n); the latest wins.
pub open spec fn listing_find(s: Seq<ListedObject>, ns: Seq<u8>, n: Seq<u8>) -> Option<ListedObject>
    decreases s.len(),
{
    if s.len() == 0 {
        None
    } else if s.last().namespace@ == ns && s.last().name@ == n {
        Some(s.last())
    } else {
        listing_find(s.drop_last(), ns, n)
    }
}

/// A (ns, n) pair matched by no listed object is absent.
pub proof fn lemma_listing_absent(s: Seq<ListedObject>, ns: Seq<u8>, n: Seq<u8>)
    requires
        forall|i: int| 0 <= i < s.len() ==> !(s[i].namespace@ == ns && s[i].name@ == n),
    ensures
        listing_find(s, ns, n) is None,
    decreases s.len(),
{
    if s.len() > 0 {
        assert(!(s[s.len() - 1].namespace@ == ns && s[s.len() - 1].name@ == n));
        lemma_listing_absent(s.drop_last(), ns, n);
    }
}

/// The indexed, last-write-wins store of latest-known object state.
pub struct ResourceCache {
    entries: Vec<CacheEntry>,
}

impl View for ResourceCache {
    type V = Seq<CacheEntry>;

    closed spec fn view(&self) -> Seq<CacheEntry> {
        self.entries@
    }
}

impl ResourceCache {
    /// No two entries of the cache share a key.
    pub open spec fn wf(self) -> bool {
        uniq(self@)
    }

    /// An empty cache; state is rebuilt from the next full listing.
    pub fn new() -> (c: ResourceCache)
        ensures
            c.wf(),
            c@ =~= Seq::<CacheEntry>::empty(),
    {
        ResourceCache { entries: Vec::new() }
    }

    /// Index of the entry holding the key, if any.
    fn find(&self, kind: &Vec<u8>, namespace: &Vec<u8>, name: &Vec<u8>) -> (r: Option<usize>)
        ensures
            match r {
                Some(i) => i < self@.len() && key_is(self@[i as int], kind@, namespace@, name@),
                None => forall|i: int|
                    0 <= i < self@.len() ==> !key_is(self@[i], kind@, namespace@, name@),
            },
    {
        let mut i: usize = 0;
        while i < self.entries.len()
            invariant
                i <= self@.len(),
                forall|j: int| 0 <= j < i ==> !key_is(self@[j], kind@, namespace@, name@),
            decreases self@.len() - i,
        {
            let e = &self.entries[i];
            if bytes_eq(&e.kind, kind) && bytes_eq(&e.namespace, namespace) && bytes_eq(
                &e.name,
                name,
            ) {
                return Some(i);
            }
            i += 1;
        }
        None
    }

    /// Point lookup of the latest-known document for one object.
    pub fn get<'a>(
        &'a self,
        kind: &Vec<u8>,
        namespace: &Vec<u8>,
        name: &Vec<u8>,
    ) -> (r: Option<&'a Doc>)
        requires
            self.wf(),
        ensures
            match r {
                Some(d) => lookup(self@, kind@, namespace@, name@) matches Some(e) && e.doc == *d,
                None => lookup(self@, kind@, namespace@, name@) is None,
            },
    {
        match self.find(kind, namespace, name) {
            Some(i) => {
                proof {
                    lemma_lookup_present(self@, i as int);
                    lemma_lookup_found_is(self@, i as int);
                }
                Some(&self.entries[i].doc)
            },
            None => {
                proof {
                    lemma_lookup_absent(self@, kind@, namespace@, name@);
                }
                None
            },
        }
    }

    /// Aggregate count of cached objects of one kind, cluster-wide or
    /// within one namespace.
    pub fn count_by(&self, kind: &Vec<u8>, namespace: Option<&Vec<u8>>) -> (r: usize)
        ensures
            r as int == count_in(self@, kind@, opt_bytes_view(namespace)),
    {
        let ghost nsv = opt_bytes_view(namespace);
        let mut cnt: usize = 0;
        let mut i: usize = 0;
        while i < self.entries.len()
            invariant
                nsv == opt_bytes_view(namespace),
                i <= self@.len(),
                cnt <= i,
                cnt as int == count_in(self@.take(i as int), kind@, nsv),
            decreases self@.len() - i,
        {
            let e = &self.entries[i];
            let matches_ns = match namespace {
                Some(x) => bytes_eq(&e.namespace, x),
                None => true,
            };
            proof {
                assert(self@.take(i + 1).drop_last() =~= self@.take(i as int));
                assert(self@.take(i + 1).last() == self@[i as int]);
                assert(count_in(self@.take(i + 1), kind@, nsv) == count_in(
                    self@.take(i as int),
                    kind@,
                    nsv,
                ) + if in_scope(self@[i as int], kind@, nsv) {
                    1int
                } else {
                    0int
                });
            }
            if bytes_eq(&e.kind, kind) && matches_ns {
                cnt += 1;
            }
            i += 1;
        }
        proof {
            assert(self@.take(self@.len() as int) =~= self@);
        }
        cnt
    }

    /// Records the latest state of one object, atomically replacing
    /// whatever the cache held under its key.
    pub fn upsert(
        &mut self,
        kind: Vec<u8>,
        namespace: Vec<u8>,
        name: Vec<u8>,
        version: u64,
        doc: Doc,
    )
        requires
            old(self).wf(),
        ensures
            final(self).wf(),
            lookup(final(self)@, kind@, namespace@, name@) matches Some(e) && e.kind@ == kind@
                && e.namespace@ == namespace@ && e.name@ == name@ && e.version == version && e.doc
                == doc,
            forall|k: Seq<u8>, ns: Seq<u8>, n: Seq<u8>|
                !(k == kind@ && ns == namespace@ && n == name@) ==> #[trigger] lookup(
                    final(self)@,
                    k,
                    ns,
                    n,
                ) == lookup(old(self)@, k, ns, n),
    {
        let e2 = CacheEntry { kind, namespace, name, version, doc };
        match self.find(&e2.kind, &e2.namespace, &e2.name) {
            Some(i) => {
                proof {
                    lemma_lookup_update(self@, i as int, e2);
                }
                self.entries.set(i, e2);
            },
            None => {
                proof {
                    lemma_lookup_absent(self@, e2.kind@, e2.namespace@, e2.name@);
                    lemma_lookup_push(self@, e2);
                    assert(self@.push(e2).drop_last() =~= self@);
                }
                self.entries.push(e2);
            },
        }
    }

    /// Drops one object from the cache; its key then resolves to
    /// nothing, and every other key is untouched.
    pub fn delete(&mut self, kind: &Vec<u8>, namespace: &Vec<u8>, name: &Vec<u8>)
        requires
            old(self).wf(),
        ensures
            final(self).wf(),
            lookup(final(self)@, kind@, namespace@, name@) is None,
            forall|k: Seq<u8>, ns: Seq<u8>, n: Seq<u8>|
                !(k == kind@ && ns == namespace@ && n == name@) ==> #[trigger] lookup(
                    final(self)@,
                    k,
                    ns,
                    n,
                ) == lookup(old(self)@, k, ns, n),
    {
        match self.find(kind, namespace, name) {
            Some(i) => {
                proof {
                    lemma_lookup_remove(self@, i as int);
                }
                self.entries.remove(i);
            },
            None => {
                proof {
                    lemma_lookup_absent(self@, kind@, namespace@, name@);
                }
            },
        }
    }

    /// Replaces everything known about one kind with the objects of a
    /// fresh full listing: afterward the cache holds exactly the
    /// listed objects of that kind, with no stale entries, and the
    /// other kinds' entries are untouched.
    pub fn replace_kind(&mut self, kind: &Vec<u8>, items: Vec<ListedObject>) -> (n_inserted: usize)
        requires
            old(self).wf(),
            forall|i: int, j: int|
                0 <= i < j < items@.len() ==> !(items@[i].namespace@ == items@[j].namespace@
                    && items@[i].name@ == items@[j].name@),
        ensures
            final(self).wf(),
            n_inserted == items@.len(),
            forall|k: Seq<u8>, ns: Seq<u8>, n: Seq<u8>|
                k != kind@ ==> #[trigger] lookup(final(self)@, k, ns, n) == lookup(old(self)@, k, ns, n),
            forall|ns: Seq<u8>, n: Seq<u8>|
                match #[trigger] listing_find(items@, ns, n) {
                    Some(o) => lookup(final(self)@, kind@, ns, n) matches Some(e) && e.kind@ == kind@
                        && e.namespace@ == ns && e.name@ == n && e.version == o.version && e.doc
                        == o.doc,
                    None => lookup(final(self)@, kind@, ns, n) is None,
                },
    {
        let ghost s0 = self@;
        // First pass: drop every entry of the kind.
        let mut i: usize = 0;
        while i < self.entries.len()
            invariant
                uniq(self@),
                i <= self@.len(),
                forall|j: int| 0 <= j < i ==> self@[j].kind@ != kind@,
                forall|k: Seq<u8>, ns: Seq<u8>, n: Seq<u8>|
                    k != kind@ ==> #[trigger] lookup(self@, k, ns, n) == lookup(s0, k, ns, n),
            decreases self@.len() - i,
        {
            if bytes_eq(&self.entries[i].kind, kind) {
                proof {
                    lemma_lookup_remove(self@, i as int);
                }
                self.entries.remove(i);
            } else {
                i += 1;
            }
        }
        proof {
            assert forall|ns: Seq<u8>, n: Seq<u8>| #[trigger] lookup(self@, kind@, ns, n) is None
                by {
                lemma_lookup_absent(self@, kind@, ns, n);
            }
        }
        // Second pass: insert the listed objects.
        let ghost items0 = items@;
        let ghost mid = self@;
        let mut items = items;
        let n_items = items.len();
        let mut j: usize = 0;
        while j < n_items
            invariant
                uniq(self@),
                n_items == items0.len(),
                j <= items0.len(),
                items@ =~= items0.skip(j as int),
                forall|i2: int, j2: int|
                    0 <= i2 < j2 < items0.len() ==> !(items0[i2].namespace@ == items0[j2].namespace@
                        && items0[i2].name@ == items0[j2].name@),
                self@.len() == mid.len() + j,
                forall|j2: int| mid.len() <= j2 < self@.len() ==> self@[j2].kind@ == kind@,
                forall|j2: int| 0 <= j2 < mid.len() ==> self@[j2] == mid[j2],
                forall|k: Seq<u8>, ns: Seq<u8>, n: Seq<u8>|
                    k != kind@ ==> #[trigger] lookup(self@, k, ns, n) == lookup(mid, k, ns, n),
                forall|ns: Seq<u8>, n: Seq<u8>|
                    match #[trigger] listing_find(items0.take(j as int), ns, n) {
                        Some(o) => lookup(self@, kind@, ns, n) matches Some(e) && e.kind@ == kind@
                            && e.namespace@ == ns && e.name@ == n && e.version == o.version
                            && e.doc == o.doc,
                        None => lookup(self@, kind@, ns, n) is None,
                    },
            decreases n_items - j,
        {
            let ckind = copy_bytes(kind);
            let o = items.remove(0);
            proof {
                assert(o == items0[j as int]);
                assert(items@ =~= items0.skip(j + 1));
            }
            let e = CacheEntry {
                kind: ckind,
                namespace: o.namespace,
                name: o.name,
                version: o.version,
                doc: o.doc,
            };
            let ghost ge = e;
            let ghost sold = self@;
            proof {
                // The new key is not yet present: not among the other
                // kinds' entries, and not among the already inserted
                // listed objects, which are pairwise distinct.
                assert(listing_find(items0.take(j as int), e.namespace@, e.name@) is None) by {
                    assert forall|i2: int| 0 <= i2 < j implies !(items0.take(
                        j as int,
                    )[i2].namespace@ == e.namespace@ && items0.take(j as int)[i2].name@
                        == e.name@) by {
                        assert(items0.take(j as int)[i2] == items0[i2]);
                    }
                    lemma_listing_absent(items0.take(j as int), e.namespace@, e.name@);
                }
                lemma_lookup_push(self@, e);
                assert(self@.push(e).drop_last() =~= self@);
                assert(items0.take(j + 1).drop_last() =~= items0.take(j as int));
                assert(items0.take(j + 1).last() == items0[j as int]);
            }
            self.entries.push(e);
            j += 1;
            proof {
                assert(self@ == sold.push(ge));
                assert(items0.take(j as int).drop_last() =~= items0.take(j - 1));
                assert(items0.take(j as int).last() == items0[j - 1]);
                assert forall|k2: Seq<u8>, ns2: Seq<u8>, n2: Seq<u8>| k2 != kind@ implies #[trigger] lookup(
                    self@,
                    k2,
                    ns2,
                    n2,
                ) == lookup(mid, k2, ns2, n2) by {
                    assert(lookup(self@, k2, ns2, n2) == lookup(sold.push(ge), k2, ns2, n2));
                    assert(!key_is(ge, k2, ns2, n2));
                }
                assert forall|ns2: Seq<u8>, n2: Seq<u8>|
                    match #[trigger] listing_find(items0.take(j as int), ns2, n2) {
                        Some(o2) => lookup(self@, kind@, ns2, n2) matches Some(e3) && e3.kind@
                            == kind@ && e3.namespace@ == ns2 && e3.name@ == n2 && e3.version
                            == o2.version && e3.doc == o2.doc,
                        None => lookup(self@, kind@, ns2, n2) is None,
                    } by {
                    assert(lookup(self@, kind@, ns2, n2) == lookup(sold.push(ge), kind@, ns2, n2));
                    if ns2 == ge.namespace@ && n2 == ge.name@ {
                        assert(key_is(ge, kind@, ns2, n2));
                        assert(listing_find(items0.take(j as int), ns2, n2) == Some(
                            items0[j - 1],
                        ));
                    } else {
                        assert(!key_is(ge, kind@, ns2, n2));
                        assert(listing_find(items0.take(j as int), ns2, n2) == listing_find(
                            items0.take(j - 1),
                            ns2,
                            n2,
                        ));
                    }
                }
            }
        }
        proof {
            assert(items0.take(items0.len() as int) =~= items0);
        }
        j
    }
}

/// The view of an optional namespace restriction.
pub open spec fn opt_bytes_view(ns: Option<&Vec<u8>>) -> Option<Seq<u8>> {
    match ns {
        Some(x) => Some(x@),
        None => None,
    }
}

/// Under uniqueness, the entry `lookup` finds for the key of `s[i]`
/// is `s[i]` itself.
pub proof fn lemma_lookup_found_is(s: Seq<CacheEntry>, i: int)
    requires
        0 <= i < s.len(),
        uniq(s),
    ensures
        lookup(s, s[i].kind@, s[i].namespace@, s[i].name@) == Some(s[i]),
    decreases s.len(),
{
    if i == s.len() - 1 {
    } else {
        if key_is(s.last(), s[i].kind@, s[i].namespace@, s[i].name@) {
            lemma_lookup_present(s.drop_last(), i);
        } else {
            assert(s.drop_last()[i] == s[i]);
            lemma_lookup_found_is(s.drop_last(), i);
        }
    }
}

} // verus!
