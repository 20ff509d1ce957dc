//! The GitLab repository directory: a mapping from lowercased
//! `namespace/repo` to project metadata, built wholesale from a provider
//! listing and queried by lowercased key.
use vstd::prelude::*;
use crate::text::{lower_of, lowercase, string_eq};

verus! {

/// One project as the provider's listing endpoint reports it.
pub struct RepoEntry {
    pub id: i32,
    pub path: String,
    /// `namespace/repo`, case preserved.
    pub full_path: String,
    pub default_branch: String,
}

/// Does some entry of the listing carry this (lowercased) key?
pub open spec fn listing_has_key(list: Seq<RepoEntry>, k: Seq<char>) -> bool {
    exists|i: int| 0 <= i < list.len() && lower_of(#[trigger] list[i].full_path@) == k
}

/// The id the directory ends up with for key `k`: of the last entry whose
/// lowercased full path is `k` (a later duplicate replaces an earlier one).
pub open spec fn listing_id_of(list: Seq<RepoEntry>, k: Seq<char>) -> int
    decreases list.len(),
{
    if list.len() == 0 {
        0
    } else if lower_of(list.last().full_path@) == k {
        list.last().id as int
    } else {
        listing_id_of(list.drop_last(), k)
    }
}

/// The directory: keys are unique and each key is the lowercased full path of
/// its entry. Always replaced wholesale, never partially updated.
pub struct RepoDirectory {
    keys: Vec<String>,
    entries: Vec<RepoEntry>,
}

impl RepoDirectory {
    pub closed spec fn key_seq(&self) -> Seq<Seq<char>> {
        self.keys.deep_view()
    }

    pub closed spec fn entry_seq(&self) -> Seq<RepoEntry> {
        self.entries@
    }

    pub open spec fn wf(&self) -> bool {
        &&& self.key_seq().len() == self.entry_seq().len()
        &&& forall|i: int|
            0 <= i < self.key_seq().len() ==> self.key_seq()[i] == lower_of(
                #[trigger] self.entry_seq()[i].full_path@,
            )
        &&& forall|i: int, j: int|
            0 <= i < j < self.key_seq().len() ==> #[trigger] self.key_seq()[i] != #[trigger] self.key_seq()[j]
    }

    pub open spec fn contains_key(&self, k: Seq<char>) -> bool {
        self.key_seq().contains(k)
    }

    pub open spec fn id_of(&self, k: Seq<char>) -> int {
        self.entry_seq()[self.key_seq().index_of(k)].id as int
    }

    /// With unique keys, the key at `j` is found exactly at `j`.
    pub proof fn lemma_key_at(&self, j: int)
        requires
            self.wf(),
            0 <= j < self.key_seq().len(),
        ensures
            self.contains_key(self.key_seq()[j]),
            self.key_seq().index_of(self.key_seq()[j]) == j,
            self.id_of(self.key_seq()[j]) == self.entry_seq()[j].id as int,
    {
        let k = self.key_seq()[j];
        assert(self.key_seq().contains(k));
        let i = self.key_seq().index_of(k);
        assert(0 <= i < self.key_seq().len() && self.key_seq()[i] == k);
        if i != j {
            if i < j {
                assert(self.key_seq()[i] != self.key_seq()[j]);
            } else {
                assert(self.key_seq()[j] != self.key_seq()[i]);
            }
        }
    }

    pub fn new() -> (r: RepoDirectory)
        ensures
            r.wf(),
            r.key_seq() == Seq::<Seq<char>>::empty(),
            forall|k: Seq<char>| !r.contains_key(k),
    {
        let r = RepoDirectory { keys: Vec::new(), entries: Vec::new() };
        proof {
            assert(r.key_seq() =~~= Seq::<Seq<char>>::empty());
        }
        r
    }

    pub fn len(&self) -> (n: usize)
        ensures
            n == self.key_seq().len(),
    {
        proof {
            assert(self.key_seq().len() == self.keys@.len());
        }
        self.keys.len()
    }

    /// The entries, for a caller that persists the directory.
    pub fn entries(&self) -> (r: &Vec<RepoEntry>)
        ensures
            r@ == self.entry_seq(),
    {
        &self.entries
    }

    /// Inserts `e` under its lowercased full path; an entry already under
    /// that key is replaced.
    pub fn insert(&mut self, e: RepoEntry)
        requires
            old(self).wf(),
        ensures
            final(self).wf(),
            final(self).contains_key(lower_of(e.full_path@)),
            final(self).id_of(lower_of(e.full_path@)) == e.id as int,
            forall|k: Seq<char>|
                k != lower_of(e.full_path@) ==> (final(self).contains_key(k) <==> old(
                    self,
                ).contains_key(k)),
            forall|k: Seq<char>|
                k != lower_of(e.full_path@) && old(self).contains_key(k) ==> final(self).id_of(k)
                    == old(self).id_of(k),
    {
        let key = lowercase(e.full_path.as_str());
        let ghost e0 = e;
        let ghost kv = lower_of(e.full_path@);
        let n = self.keys.len();
        proof {
            assert(self.key_seq().len() == self.keys@.len());
            assert(forall|t: int|
                0 <= t < self.keys@.len() ==> #[trigger] self.key_seq()[t] == self.keys@[t]@);
        }
        let mut i: usize = 0;
        while i < n
            invariant
                n == self.keys@.len(),
                self.wf(),
                *self == *old(self),
                key@ == kv,
                e == e0,
                kv == lower_of(e0.full_path@),
                0 <= i <= n,
                self.key_seq().len() == n,
                forall|t: int| 0 <= t < i ==> #[trigger] self.key_seq()[t] != kv,
                forall|t: int|
                    0 <= t < self.keys@.len() ==> #[trigger] self.key_seq()[t] == self.keys@[t]@,
            decreases n - i,
        {
            if string_eq(&self.keys[i], &key) {
                // replace the entry; the key set is unchanged
                let ghost old_entries = self.entries@;
                self.entries.remove(i);
                self.entries.insert(i, e);
                proof {
                    assert(self.entries@ =~= old_entries.update(i as int, e0));
                    assert(self.key_seq() == old(self).key_seq());
                    assert(self.entry_seq()[i as int] == e);
                    assert(forall|t: int|
                        0 <= t < self.entry_seq().len() && t != i ==> self.entry_seq()[t] == old(
                            self,
                        ).entry_seq()[t]);
                    assert(self.key_seq()[i as int] == kv);
                    assert(self.key_seq().len() == self.entry_seq().len());
                    assert forall|t: int| 0 <= t < self.key_seq().len() implies self.key_seq()[t]
                        == lower_of(#[trigger] self.entry_seq()[t].full_path@) by {
                        if t == i {
                            assert(self.entry_seq()[t] == e0);
                            assert(self.key_seq()[t] == kv);
                            assert(kv == lower_of(e0.full_path@));
                        } else {
                            assert(old(self).key_seq()[t] == lower_of(
                                old(self).entry_seq()[t].full_path@,
                            ));
                            assert(self.entry_seq()[t] == old(self).entry_seq()[t]);
                        }
                    }
                    assert(self.wf());
                    self.lemma_key_at(i as int);
                    assert forall|k: Seq<char>|
                        k != kv && old(self).contains_key(k) implies self.id_of(k) == old(
                        self,
                    ).id_of(k) by {
                        let j = choose|j: int|
                            0 <= j < old(self).key_seq().len() && old(self).key_seq()[j] == k;
                        old(self).lemma_key_at(j);
                        self.lemma_key_at(j);
                    }
                    assert forall|k: Seq<char>| #[trigger]
                        self.contains_key(k) == old(self).contains_key(k) by {
                        assert(self.key_seq() == old(self).key_seq());
                    }
                }
                return ;
            }
            i += 1;
        }
        let ghost pre = *self;
        self.keys.push(key);
        self.entries.push(e);
        proof {
            assert(self.key_seq() =~~= pre.key_seq().push(kv));
            assert(self.entry_seq() =~~= pre.entry_seq().push(e0));
            let m = pre.key_seq().len() as int;
            assert(self.key_seq()[m] == kv);
            assert(forall|t: int| 0 <= t < m ==> #[trigger] self.key_seq()[t] != kv);
            assert(self.wf());
            self.lemma_key_at(m);
            assert forall|k: Seq<char>|
                k != kv && pre.contains_key(k) implies self.contains_key(k) && self.id_of(k)
                == pre.id_of(k) by {
                let j = choose|j: int| 0 <= j < pre.key_seq().len() && pre.key_seq()[j] == k;
                pre.lemma_key_at(j);
                self.lemma_key_at(j);
            }
            assert forall|k: Seq<char>|
                k != kv && self.contains_key(k) implies pre.contains_key(k) by {
                let j = choose|j: int| 0 <= j < self.key_seq().len() && self.key_seq()[j] == k;
                assert(j != m);
                assert(pre.key_seq()[j] == k);
            }
        }
    }

    /// Looks up an already-lowercased key; `Some` exactly when the key is
    /// present, with the id stored under it.
    pub fn lookup(&self, key: &str) -> (r: Option<i32>)
        requires
            self.wf(),
        ensures
            r is Some <==> self.contains_key(key@),
            r is Some ==> r->Some_0 as int == self.id_of(key@),
    {
        let n = self.keys.len();
        proof {
            assert(self.key_seq().len() == self.keys@.len());
            assert(forall|t: int|
                0 <= t < self.keys@.len() ==> #[trigger] self.key_seq()[t] == self.keys@[t]@);
        }
        let mut i: usize = 0;
        while i < n
            invariant
                n == self.keys@.len(),
                self.wf(),
                0 <= i <= n,
                self.key_seq().len() == n,
                forall|t: int| 0 <= t < i ==> #[trigger] self.key_seq()[t] != key@,
                forall|t: int|
                    0 <= t < self.keys@.len() ==> #[trigger] self.key_seq()[t] == self.keys@[t]@,
            decreases n - i,
        {
            let key_string = key.to_owned();
            if string_eq(&self.keys[i], &key_string) {
                proof {
                    self.lemma_key_at(i as int);
                }
                return Some(self.entries[i].id);
            }
            i += 1;
        }
        None
    }

    /// Builds a fresh directory from a provider listing: each entry is keyed
    /// by its lowercased `full_path`, and a later duplicate replaces an
    /// earlier one.
    pub fn map_repo_info(list: Vec<RepoEntry>) -> (r: RepoDirectory)
        ensures
            r.wf(),
            forall|k: Seq<char>| #[trigger] r.contains_key(k) <==> listing_has_key(list@, k),
            forall|k: Seq<char>|
                listing_has_key(list@, k) ==> #[trigger] r.id_of(k) == listing_id_of(list@, k),
    {
        let ghost orig = list@;
        let mut list = list;
        let total = list.len();
        let mut dir = RepoDirectory::new();
        let mut done: usize = 0;
        while list.len() > 0
            invariant
                dir.wf(),
                orig.len() == total,
                done <= orig.len(),
                list@ == orig.skip(done as int),
                forall|k: Seq<char>| #[trigger]
                    dir.contains_key(k) <==> listing_has_key(orig.take(done as int), k),
                forall|k: Seq<char>|
                    listing_has_key(orig.take(done as int), k) ==> #[trigger] dir.id_of(k)
                        == listing_id_of(orig.take(done as int), k),
            decreases list.len(),
        {
            proof {
                assert(orig.skip(done as int).len() == orig.len() - done);
                assert(done < orig.len());
            }
            let e = list.remove(0);
            proof {
                assert(orig.skip(done as int)[0] == orig[done as int]);
                assert(e == orig[done as int]);
                assert(list@ =~= orig.skip(done as int + 1));
                assert(done as int + 1 <= orig.len());
            }
            let ghost prefix = orig.take(done as int);
            dir.insert(e);
            proof {
                assert(orig.take(done as int + 1) =~= prefix.push(e));
                lemma_listing_push(prefix, e);
                assert forall|k: Seq<char>| #[trigger]
                    dir.contains_key(k) <==> listing_has_key(prefix.push(e), k) by {
                    if k == lower_of(e.full_path@) {
                        assert(prefix.push(e)[prefix.len() as int] == e);
                        assert(listing_has_key(prefix.push(e), k));
                    } else {
                        assert(listing_has_key(prefix.push(e), k) <==> listing_has_key(prefix, k))
                            by {
                            lemma_listing_push(prefix, e);
                        }
                    }
                }
            }
            done += 1;
        }
        proof {
            assert(orig.take(done as int) =~= orig);
        }
        dir
    }
}

/// How one more listing entry changes what a key maps to.
pub proof fn lemma_listing_push(list: Seq<RepoEntry>, e: RepoEntry)
    ensures
        forall|k: Seq<char>| #[trigger]
            listing_has_key(list.push(e), k) <==> (listing_has_key(list, k) || lower_of(
                e.full_path@,
            ) == k),
        forall|k: Seq<char>| #[trigger]
            listing_id_of(list.push(e), k) == if lower_of(e.full_path@) == k {
                e.id as int
            } else {
                listing_id_of(list, k)
            },
{
    assert(list.push(e).drop_last() =~= list);
    assert(list.push(e).last() == e);
    assert forall|k: Seq<char>| #[trigger]
        listing_has_key(list.push(e), k) <==> (listing_has_key(list, k) || lower_of(e.full_path@)
            == k) by {
        let p = list.push(e);
        if listing_has_key(p, k) {
            let i = choose|i: int| 0 <= i < p.len() && lower_of(p[i].full_path@) == k;
            if i < list.len() {
                assert(list[i] == p[i]);
                assert(listing_has_key(list, k));
            } else {
                assert(p[i] == e);
            }
        }
        if listing_has_key(list, k) {
            let i = choose|i: int| 0 <= i < list.len() && lower_of(list[i].full_path@) == k;
            assert(p[i] == list[i]);
        }
        if lower_of(e.full_path@) == k {
            assert(p[list.len() as int] == e);
        }
    }
}

} // verus!
