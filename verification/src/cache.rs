//! The route cache: the route index together with the time of its last
//! refresh and the rule that says when it has to be built anew.
//!
//! The cache does no input or output. A caller that wants fresh data polls
//! it; where the cache answers with a listing to make, the caller lists the
//! bucket and hands the keys, or the failure, back.

use vstd::prelude::*;
use vstd::string::*;
use crate::config::{opt_text, ConfigurationError, RouteConfig};
use crate::index::{
    arch_column,
    branch_column,
    distinct,
    indexed,
    latest_of,
    lookup_of,
    version_column,
    RouteIndex,
};
use crate::public_url::{public_prefix, public_prefix_of, result_text};
use crate::route::{Route, RouteId};
use crate::text::{from_chars, texts, to_chars, trim_trailing, trimmed_len};

verus! {

/// Why a listing of the bucket did not come back.
#[derive(Clone, Copy, Debug, PartialEq, Eq, Structural)]
pub enum RefreshError {
    /// The storage could not be reached.
    Network,
    /// The credentials are malformed.
    Credentials,
    /// The storage refused the credentials.
    Authorization,
}

/// How a refresh ended.
#[derive(Clone, Copy, Debug, PartialEq, Eq, Structural)]
pub enum RefreshOutcome {
    /// The index was fresh and is as it was.
    Unchanged,
    /// The index was built anew and holds this many routes.
    Refreshed(usize),
}

/// What is reported to the cache.
#[derive(Debug)]
pub enum SyncEvent {
    /// Fresh data is wanted.
    Poll,
    /// The bucket was listed, and these are its keys.
    Listed(Vec<String>),
    /// The bucket could not be listed.
    Failed(RefreshError),
}

/// What the cache answers.
#[derive(Debug)]
pub enum SyncStep {
    /// Nothing is left to do.
    Done(RefreshOutcome),
    /// The bucket is to be listed under this key prefix, and the result
    /// reported.
    List(String),
    /// The refresh failed, and the cache serves what it had.
    Failed(RefreshError),
}

/// The seconds from `since` to `now`, none where the clock went back.
pub open spec fn elapsed(since: u64, now: u64) -> int {
    if now >= since {
        now - since
    } else {
        0
    }
}

/// Whether an index refreshed at `last_update` is still fresh at `now`.
pub open spec fn is_fresh(last_update: Option<u64>, ttl: u64, now: u64) -> bool {
    match last_update {
        Some(since) => elapsed(since, now) < ttl,
        None => false,
    }
}

/// The key prefix under which the bucket is listed: the configured prefix
/// with exactly one slash at its end, or nothing where none is configured.
pub open spec fn listing_prefix(prefix: Option<Seq<char>>) -> Seq<char> {
    match prefix {
        Some(p) => trim_trailing(p, '/').push('/'),
        None => Seq::empty(),
    }
}

/// Where a cache stands at some time.
#[derive(Clone, Copy, Debug, PartialEq, Eq, Structural)]
pub enum CacheState {
    /// No refresh has succeeded yet.
    Empty,
    /// The last refresh is within the time to live.
    Fresh,
    /// The time to live has elapsed, and the next poll asks for a listing.
    Stale,
}

/// The state of a cache last refreshed at `last_update`, seen at `now`.
pub open spec fn state_of(last_update: Option<u64>, ttl: u64, now: u64) -> CacheState {
    if last_update is None {
        CacheState::Empty
    } else if is_fresh(last_update, ttl, now) {
        CacheState::Fresh
    } else {
        CacheState::Stale
    }
}

/// What a cache holds besides its configuration.
pub struct CacheContent {
    pub last_update: Option<u64>,
    pub routes: Seq<RouteId>,
}

/// What a cache holds after it took `event` at `now`. A poll and a failed
/// listing leave it as it was; a listing puts the routes of its keys in
/// place of the old ones and notes the time.
pub open spec fn synced(
    content: CacheContent,
    config: RouteConfig,
    now: u64,
    event: SyncEvent,
) -> CacheContent {
    match event {
        SyncEvent::Listed(keys) => CacheContent {
            last_update: Some(now),
            routes: indexed(
                texts(keys@),
                listing_prefix(opt_text(config.s3_prefix)),
                config.readiness,
            ),
        },
        _ => content,
    }
}

/// Whether the cache answers `event` at `now` by asking for a listing: it
/// does so on a poll while it is not fresh.
pub open spec fn asks_listing(
    content: CacheContent,
    config: RouteConfig,
    now: u64,
    event: SyncEvent,
) -> bool {
    event is Poll && !is_fresh(content.last_update, config.cache_ttl, now)
}

/// After a refresh the index is fresh for as many seconds as the time to
/// live says, during which a poll asks for no listing and changes nothing;
/// from then on a poll asks for one. Before the first refresh a poll always
/// asks for a listing.
pub proof fn lemma_ttl_gate(
    content: CacheContent,
    config: RouteConfig,
    keys: Vec<String>,
    refreshed_at: u64,
    now: u64,
)
    requires
        refreshed_at <= now,
    ensures
        ({
            let fresh = synced(content, config, refreshed_at, SyncEvent::Listed(keys));
            &&& now - refreshed_at < config.cache_ttl ==> !asks_listing(
                fresh,
                config,
                now,
                SyncEvent::Poll,
            )
            &&& now - refreshed_at >= config.cache_ttl ==> asks_listing(
                fresh,
                config,
                now,
                SyncEvent::Poll,
            )
            &&& synced(fresh, config, now, SyncEvent::Poll) == fresh
        }),
        content.last_update is None ==> asks_listing(content, config, now, SyncEvent::Poll),
{
}

/// A failed refresh changes no answer: branches, architectures, versions
/// and lookups are what they were, and so is the time of the last refresh.
pub proof fn lemma_failure_keeps_answers(
    content: CacheContent,
    config: RouteConfig,
    now: u64,
    error: RefreshError,
    id: RouteId,
)
    ensures
        ({
            let after = synced(content, config, now, SyncEvent::Failed(error));
            &&& after.last_update == content.last_update
            &&& distinct(branch_column(after.routes)) == distinct(branch_column(content.routes))
            &&& distinct(arch_column(after.routes, id.branch)) == distinct(
                arch_column(content.routes, id.branch),
            )
            &&& distinct(version_column(after.routes, id.branch, id.arch)) == distinct(
                version_column(content.routes, id.branch, id.arch),
            )
            &&& lookup_of(after.routes, id) == lookup_of(content.routes, id)
            &&& latest_of(after.routes, id.branch, id.arch) == latest_of(
                content.routes,
                id.branch,
                id.arch,
            )
        }),
{
}

/// The cache of routes.
#[derive(Debug)]
pub struct RouteCache {
    /// When the index was last built, in seconds of a clock that does not go
    /// back; `None` before the first refresh.
    pub last_update: Option<u64>,
    pub routes: RouteIndex,
    pub config: RouteConfig,
}

impl Clone for RouteCache {
    fn clone(&self) -> (copy: RouteCache)
        ensures
            copy.content() == self.content(),
            copy.config == self.config,
    {
        RouteCache {
            last_update: self.last_update,
            routes: self.routes.clone(),
            config: self.config.clone(),
        }
    }
}

impl RouteCache {
    /// What the cache holds.
    pub open spec fn content(&self) -> CacheContent {
        CacheContent { last_update: self.last_update, routes: self.routes@ }
    }

    /// A cache that holds no route and was never refreshed.
    pub fn new(config: RouteConfig) -> (cache: RouteCache)
        ensures
            cache.last_update is None,
            cache.routes@ == Seq::<RouteId>::empty(),
            cache.config == config,
    {
        RouteCache { last_update: None, routes: RouteIndex::new(), config }
    }

    /// Whether the index is still fresh at `now`.
    pub fn fresh_at(&self, now: u64) -> (fresh: bool)
        ensures
            fresh == is_fresh(self.last_update, self.config.cache_ttl, now),
    {
        match self.last_update {
            Some(since) => {
                let gone: u64 = if now >= since { now - since } else { 0 };
                gone < self.config.cache_ttl
            },
            None => false,
        }
    }

    /// Where the cache stands at `now`.
    pub fn state(&self, now: u64) -> (state: CacheState)
        ensures
            state == state_of(self.last_update, self.config.cache_ttl, now),
    {
        if self.last_update.is_none() {
            CacheState::Empty
        } else if self.fresh_at(now) {
            CacheState::Fresh
        } else {
            CacheState::Stale
        }
    }

    /// The key prefix under which the bucket is listed.
    pub fn base_prefix(&self) -> (prefix: String)
        ensures
            prefix@ == listing_prefix(opt_text(self.config.s3_prefix)),
    {
        match &self.config.s3_prefix {
            Some(p) => {
                let chars = to_chars(p.as_str());
                let n = trimmed_len(&chars, '/');
                let mut prefix = from_chars(&chars, 0, n);
                assert(chars@.subrange(0, n as int) =~= chars@.take(n as int));
                prefix.push('/');
                prefix
            },
            None => String::new(),
        }
    }

    /// Takes one event and says what is to be done next.
    ///
    /// On a poll the cache answers that nothing changed while the index is
    /// fresh, and asks for a listing once it is not; it stays as it was.
    /// With the keys of a listing it builds a new index, puts it in place of
    /// the old one and notes the time. A failed listing leaves index and
    /// time as they were.
    pub fn sync(&mut self, now: u64, event: SyncEvent) -> (step: SyncStep)
        ensures
            final(self).config == old(self).config,
            final(self).content() == synced(old(self).content(), old(self).config, now, event),
            !(event is Listed) ==> *final(self) == *old(self),
            asks_listing(old(self).content(), old(self).config, now, event) ==> step is List
                && step->List_0@ == listing_prefix(opt_text(old(self).config.s3_prefix)),
            event is Poll && !asks_listing(old(self).content(), old(self).config, now, event)
                ==> step == SyncStep::Done(RefreshOutcome::Unchanged),
            event is Listed ==> step == SyncStep::Done(
                RefreshOutcome::Refreshed(final(self).routes@.len() as usize),
            ),
            event matches SyncEvent::Failed(error) ==> step == SyncStep::Failed(error),
    {
        match event {
            SyncEvent::Poll => {
                if self.fresh_at(now) {
                    SyncStep::Done(RefreshOutcome::Unchanged)
                } else {
                    SyncStep::List(self.base_prefix())
                }
            },
            SyncEvent::Listed(keys) => {
                let prefix = self.base_prefix();
                let routes = RouteIndex::from_keys(&keys, prefix.as_str(), self.config.readiness);
                let count = routes.len();
                self.routes = routes;
                self.last_update = Some(now);
                SyncStep::Done(RefreshOutcome::Refreshed(count))
            },
            SyncEvent::Failed(error) => SyncStep::Failed(error),
        }
    }

    /// The public base under which the objects of the bucket are reached.
    pub fn public_prefix(&mut self) -> (url: Result<String, ConfigurationError>)
        ensures
            *final(self) == *old(self),
            result_text(url) == public_prefix_of(old(self).config),
    {
        public_prefix(&self.config)
    }

    /// The latest route of `branch` and `arch`.
    pub fn version_latest(&mut self, branch: String, arch: String) -> (found: Option<Route>)
        ensures
            *final(self) == *old(self),
            found is Some == latest_of(old(self).routes@, branch@, arch@) is Some,
            found matches Some(r) ==> r.wf() && Some(r@) == latest_of(
                old(self).routes@,
                branch@,
                arch@,
            ),
    {
        self.routes.latest(&branch, &arch)
    }

    /// The route for `branch`, `arch` and `version`, where `current` stands
    /// for the latest version. An identity that the index does not hold
    /// gives `None`.
    pub fn lookup_repo(&mut self, branch: String, arch: String, version: String) -> (found: Option<
        Route,
    >)
        ensures
            *final(self) == *old(self),
            found is Some == lookup_of(
                old(self).routes@,
                RouteId { branch: branch@, arch: arch@, version: version@ },
            ) is Some,
            found matches Some(r) ==> r.wf() && Some(r@) == lookup_of(
                old(self).routes@,
                RouteId { branch: branch@, arch: arch@, version: version@ },
            ),
    {
        self.routes.lookup(&branch, &arch, &version)
    }

    /// The branches, each once, in the order in which they were found.
    pub fn branches(&mut self) -> (names: Vec<String>)
        ensures
            *final(self) == *old(self),
            texts(names@) == distinct(branch_column(old(self).routes@)),
    {
        self.routes.branches()
    }

    /// The architectures of `branch`, each once, in the order in which they
    /// were found.
    pub fn architectures(&mut self, branch: String) -> (names: Vec<String>)
        ensures
            *final(self) == *old(self),
            texts(names@) == distinct(arch_column(old(self).routes@, branch@)),
    {
        self.routes.architectures(&branch)
    }

    /// The versions of `branch` and `arch`, each once, in the order in which
    /// they were found.
    pub fn versions(&mut self, branch: String, arch: String) -> (names: Vec<String>)
        ensures
            *final(self) == *old(self),
            texts(names@) == distinct(version_column(old(self).routes@, branch@, arch@)),
    {
        self.routes.versions(&branch, &arch)
    }
}

} // verus!
