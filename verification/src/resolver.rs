//! The GitLab project-id resolver: answer from the cached directory when it
//! holds the key, otherwise rebuild the directory wholesale from one provider
//! listing and answer from that — exactly one rebuild per resolution, never a
//! second.
//!
//! The cache read, the provider fetch and the cache write are the caller's
//! I/O; this module makes every decision between them.
use vstd::prelude::*;
use crate::directory::{RepoDirectory, RepoEntry, listing_has_key, listing_id_of};
use crate::errors::ResolutionError;
use crate::text::lower_of;

verus! {

/// What one resolution step asks of the caller next.
pub enum ResolveStep {
    /// The id was found in the current snapshot; no provider call is needed.
    Resolved(i32),
    /// The key is not in the snapshot (or there is none): fetch the provider
    /// listing and hand it to [`Repos::rebuild_and_get`].
    NeedProviderListing,
}

/// The outcome the whole resolution owes: the cached id when the snapshot
/// holds the key; otherwise the id in the fresh listing, `RepoNotFound` when
/// the listing lacks it too, and `ProviderUnavailable` when no listing could
/// be fetched at all.
pub open spec fn spec_resolve(
    cache: Option<RepoDirectory>,
    listing: Option<Seq<RepoEntry>>,
    key: Seq<char>,
) -> Result<int, ResolutionError> {
    if cache matches Some(d) && d.contains_key(key) {
        Ok(cache->Some_0.id_of(key))
    } else {
        match listing {
            None => Err(ResolutionError::ProviderUnavailable),
            Some(l) => if listing_has_key(l, key) {
                Ok(listing_id_of(l, key))
            } else {
                Err(ResolutionError::RepoNotFound)
            },
        }
    }
}

/// The resolver's state: the directory snapshot the caller last loaded or the
/// resolver last rebuilt, if any.
pub struct Repos {
    directory: Option<RepoDirectory>,
}

impl Repos {
    pub closed spec fn spec_directory(&self) -> Option<RepoDirectory> {
        self.directory
    }

    pub open spec fn wf(&self) -> bool {
        self.spec_directory() matches Some(d) ==> d.wf()
    }

    /// Starts a resolution from the loaded cache snapshot; `None` stands for
    /// an absent record, a decode failure and a backing-store error alike.
    pub fn new(directory: Option<RepoDirectory>) -> (r: Repos)
        requires
            directory matches Some(d) ==> d.wf(),
        ensures
            r.spec_directory() == directory,
            r.wf(),
    {
        Repos { directory }
    }

    /// The current snapshot, for a caller that persists it after a rebuild.
    pub fn directory(&self) -> (r: &Option<RepoDirectory>)
        ensures
            *r == self.spec_directory(),
    {
        &self.directory
    }

    /// The fast path: a key present in the snapshot resolves at once, and the
    /// outcome then owes nothing to any listing — no provider call is made.
    /// `owner_repo` is already lowercased by the caller.
    pub fn get_id(&self, owner_repo: &str) -> (r: ResolveStep)
        requires
            self.wf(),
        ensures
            r is Resolved <==> (self.spec_directory() matches Some(d) && d.contains_key(
                owner_repo@,
            )),
            r matches ResolveStep::Resolved(id) ==> forall|listing: Option<Seq<RepoEntry>>|
                #[trigger] spec_resolve(self.spec_directory(), listing, owner_repo@) == Ok::<
                    int,
                    ResolutionError,
                >(id as int),
    {
        match &self.directory {
            Some(d) => {
                match d.lookup(owner_repo) {
                    Some(id) => ResolveStep::Resolved(id),
                    None => ResolveStep::NeedProviderListing,
                }
            },
            None => ResolveStep::NeedProviderListing,
        }
    }

    /// The slow path, after [`Repos::get_id`] asked for the listing: rebuilds
    /// a fresh directory from it (replacing the snapshot wholesale), then
    /// answers the lookup from the rebuilt directory alone. `None` means the
    /// provider call itself failed; the snapshot then stays as it was. This
    /// is the one rebuild of a resolution; no retry follows.
    pub fn rebuild_and_get(&mut self, listing: Option<Vec<RepoEntry>>, owner_repo: &str) -> (r:
        Result<i32, ResolutionError>)
        requires
            old(self).wf(),
            old(self).spec_directory() matches Some(d) ==> !d.contains_key(owner_repo@),
        ensures
            final(self).wf(),
            (match r {
                Ok(id) => Ok::<int, ResolutionError>(id as int),
                Err(e) => Err(e),
            }) == spec_resolve(
                old(self).spec_directory(),
                match listing {
                    Some(l) => Some(l@),
                    None => None,
                },
                owner_repo@,
            ),
            listing is None ==> final(self).spec_directory() == old(self).spec_directory(),
            listing matches Some(l) ==> (final(self).spec_directory() matches Some(d) && (forall|
                k: Seq<char>,
            | #[trigger] d.contains_key(k) <==> listing_has_key(l@, k)) && (forall|k: Seq<char>|
                listing_has_key(l@, k) ==> #[trigger] d.id_of(k) == listing_id_of(l@, k))),
    {
        match listing {
            None => Err(ResolutionError::ProviderUnavailable),
            Some(l) => {
                let ghost lv = l@;
                let fresh = RepoDirectory::map_repo_info(l);
                let answer = fresh.lookup(owner_repo);
                self.directory = Some(fresh);
                match answer {
                    Some(id) => Ok(id),
                    None => Err(ResolutionError::RepoNotFound),
                }
            },
        }
    }
}

/// Law: a repository in the cached snapshot resolves to its cached id
/// whatever any listing would say — the fast path owes nothing to the
/// provider.
pub proof fn lemma_cached_key_resolves_without_provider(
    cache: RepoDirectory,
    listing: Option<Seq<RepoEntry>>,
    key: Seq<char>,
)
    requires
        cache.wf(),
        cache.contains_key(key),
    ensures
        spec_resolve(Some(cache), listing, key) == Ok::<int, ResolutionError>(cache.id_of(key)),
{
}

/// Law: a repository absent from the (possibly stale) snapshot but present in
/// a fresh listing resolves to the id the listing carries, through the one
/// rebuild; that the rebuilt directory afterward holds the key is the
/// postcondition of [`Repos::rebuild_and_get`].
pub proof fn lemma_stale_cache_one_rebuild(
    cache: Option<RepoDirectory>,
    listing: Seq<RepoEntry>,
    key: Seq<char>,
)
    requires
        cache matches Some(d) ==> !d.contains_key(key),
        listing_has_key(listing, key),
    ensures
        spec_resolve(cache, Some(listing), key) == Ok::<int, ResolutionError>(
            listing_id_of(listing, key),
        ),
{
}

/// Law: a repository in neither the snapshot nor the fresh listing fails with
/// `RepoNotFound`; the protocol has no second rebuild to try.
pub proof fn lemma_absent_everywhere_not_found(
    cache: Option<RepoDirectory>,
    listing: Seq<RepoEntry>,
    key: Seq<char>,
)
    requires
        cache matches Some(d) ==> !d.contains_key(key),
        !listing_has_key(listing, key),
    ensures
        spec_resolve(cache, Some(listing), key) == Err::<int, ResolutionError>(
            ResolutionError::RepoNotFound,
        ),
{
}

/// Law: lookup is case-insensitive — two queries with the same lowercase form
/// resolve alike, since the directory is keyed and queried by the lowercase
/// form alone.
pub proof fn lemma_lookup_case_insensitive(
    cache: Option<RepoDirectory>,
    listing: Option<Seq<RepoEntry>>,
    q1: Seq<char>,
    q2: Seq<char>,
)
    requires
        lower_of(q1) == lower_of(q2),
    ensures
        spec_resolve(cache, listing, lower_of(q1)) == spec_resolve(cache, listing, lower_of(q2)),
{
}

} // verus!
