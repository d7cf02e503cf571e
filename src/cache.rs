//! The served snapshot: the catalog, its precomputed full listing, the
//! refresh period, and the state of the automatic refresh.
use vstd::prelude::*;
use crate::catalog::{package_views, BuildError, Catalog};
use crate::key::PackageKey;
use crate::model::{NugetPackage, NugetVersion, PackageView};
use crate::search::{items_of, item_views, query_text, search_hits, search_packages, SearchQuery, SearchResult};
use crate::text::lower_of;
use tokio_util::sync::CancellationToken;

verus! {

/// The refresh period used when none was configured, in seconds.
pub const DEFAULT_CACHE_SECS: u64 = 300;

#[verifier::external_type_specification]
#[verifier::external_body]
pub struct ExCancellationToken(CancellationToken);

/// Relies on `CancellationToken::new`: a fresh token, not cancelled.
pub assume_specification[ CancellationToken::new ]() -> CancellationToken;

/// Relies on `CancellationToken::cancel`: cancels the token and its clones.
pub assume_specification[ CancellationToken::cancel ](token: &CancellationToken);

/// Relies on `Clone` for `CancellationToken`: a handle on the same token.
pub assume_specification[ <CancellationToken as Clone>::clone ](token: &CancellationToken) -> CancellationToken;

/// Why a refresh did not install a new catalog.
pub enum RefreshError {
    /// Upstream could not be reached or answered with something unreadable.
    Upstream(String),
    /// Upstream answered, but the catalog could not be built from it.
    Build(BuildError),
}

/// The catalog cache.
pub struct Cache {
    auto_update: Option<CancellationToken>,
    pub cache_duration: Option<u64>,
    packages: Catalog,
    all_packages: Vec<u8>,
    base_url: String,
}

/// What the cache holds.
pub struct CacheView {
    pub packages: Seq<PackageView>,
    pub all_packages: Seq<u8>,
    pub cache_duration: Option<u64>,
    pub auto_running: bool,
    pub base_url: Seq<char>,
}

impl View for Cache {
    type V = CacheView;

    closed spec fn view(&self) -> CacheView {
        CacheView {
            packages: self.packages@,
            all_packages: self.all_packages@,
            cache_duration: self.cache_duration,
            auto_running: self.auto_update is Some,
            base_url: self.base_url@,
        }
    }
}

/// The served version strings of a package, newest first.
pub open spec fn version_strings(p: PackageView) -> Seq<Seq<char>> {
    p.versions.map_values(|v: crate::model::VersionView| v.version)
}

impl NugetPackage {
    /// The version strings of this package, in upstream order.
    pub fn version_list(&self) -> (r: Vec<String>)
        ensures
            r@.map_values(|s: String| s@) == version_strings(self@),
    {
        let items = &self.items[0].items;
        let mut r: Vec<String> = Vec::new();
        let mut i: usize = 0;
        while i < items.len()
            invariant
                i <= items.len(),
                items == self.items[0].items,
                r.len() == i,
                forall|k: int| 0 <= k < i ==> #[trigger] r@[k]@ == items@[k].catalogEntry.version@,
            decreases items.len() - i,
        {
            r.push(items[i].catalogEntry.version.clone());
            i = i + 1;
        }
        assert(r@.map_values(|s: String| s@) =~= version_strings(self@));
        r
    }

    /// The first release whose version string is `ver`, if any.
    pub fn find_version(&self, ver: &str) -> (r: Option<&NugetVersion>)
        ensures
            r is Some <==> exists|k: int| 0 <= k < self@.versions.len() && self@.versions[k].version == ver@,
            r matches Some(v) ==> exists|k: int|
                0 <= k < self@.versions.len() && self@.versions[k] == v@ && v@.version == ver@ && (
                forall|j: int| 0 <= j < k ==> self@.versions[j].version != ver@),
    {
        let items = &self.items[0].items;
        let target = ver.to_owned();
        let mut i: usize = 0;
        while i < items.len()
            invariant
                i <= items.len(),
                items == self.items[0].items,
                target@ == ver@,
                forall|j: int| 0 <= j < i ==> items@[j].catalogEntry.version@ != ver@,
            decreases items.len() - i,
        {
            if items[i].catalogEntry.version == target {
                assert(self@.versions[i as int] == items@[i as int]@);
                return Some(&items[i]);
            }
            i = i + 1;
        }
        assert forall|k: int| 0 <= k < self@.versions.len() implies self@.versions[k].version != ver@ by {
            assert(self@.versions[k] == items@[k]@);
        }
        None
    }
}

impl Cache {
    /// The cache is well formed: its catalog can be served.
    pub closed spec fn wf(&self) -> bool {
        self.packages.wf()
    }

    /// An empty cache whose addresses lie under `base_url`, with no refresh running.
    pub fn new(base_url: String) -> (r: Cache)
        ensures
            r.wf(),
            r@ == (CacheView {
                packages: Seq::empty(),
                all_packages: Seq::empty(),
                cache_duration: None,
                auto_running: false,
                base_url: base_url@,
            }),
    {
        let r = Cache {
            auto_update: None,
            cache_duration: None,
            packages: Catalog::new(),
            all_packages: Vec::new(),
            base_url,
        };
        r
    }

    /// The packages currently served.
    pub fn packages(&self) -> (r: &Vec<NugetPackage>)
        ensures
            package_views(r@) == self@.packages,
    {
        self.packages.packages()
    }

    /// The catalog currently served.
    pub fn catalog(&self) -> (r: &Catalog)
        ensures
            r@ == self@.packages,
            self.wf() ==> r.wf(),
    {
        &self.packages
    }

    /// The precomputed answer to a search with no text, skip or take.
    pub fn all_packages(&self) -> (r: &Vec<u8>)
        ensures
            r@ == self@.all_packages,
    {
        &self.all_packages
    }

    /// The address under which everything is served.
    pub fn base_url(&self) -> (r: &String)
        ensures
            r@ == self@.base_url,
    {
        &self.base_url
    }

    /// How long clients may keep what the cache served: half the refresh period,
    /// in seconds.
    pub fn max_age(&self) -> (r: u64)
        ensures
            r == (match self@.cache_duration {
                Some(d) => d,
                None => DEFAULT_CACHE_SECS,
            }) / 2,
    {
        match self.cache_duration {
            Some(d) => d / 2,
            None => DEFAULT_CACHE_SECS / 2,
        }
    }

    /// The package whose lowercase name is that of `key`.
    pub fn get(&self, key: &PackageKey) -> (r: Option<&NugetPackage>)
        requires
            self.wf(),
        ensures
            r is Some <==> exists|k: int|
                0 <= k < self@.packages.len() && lower_of(self@.packages[k].full_name) == lower_of(key@),
            r matches Some(p) ==> exists|k: int|
                0 <= k < self@.packages.len() && self@.packages[k] == p@ && lower_of(p@.full_name) == lower_of(
                    key@,
                ),
    {
        let r = self.packages.get(key);
        assert(self@.packages == self.packages@);
        r
    }

    /// A search over the current catalog.
    pub fn search(&self, q: SearchQuery) -> (r: SearchResult)
        requires
            self.wf(),
        ensures
            item_views(r.data@) == items_of(
                search_hits(self@.packages, query_text(&q), q.skip, q.take),
                self@.base_url,
            ),
            r.totalHits == r.data.len(),
    {
        search_packages(&self.packages, self.base_url.as_str(), &q)
    }

    /// Installs the outcome of a refresh: a new catalog and its full listing, or
    /// nothing at all when the refresh failed, whose error is handed back.
    pub fn refresh(&mut self, outcome: Result<(Catalog, Vec<u8>), RefreshError>) -> (r: Result<(), RefreshError>)
        requires
            old(self).wf(),
            outcome matches Ok((c, _)) ==> c.wf(),
        ensures
            final(self).wf(),
            outcome matches Err(e) ==> r == Err::<(), RefreshError>(e) && final(self)@ == old(self)@,
            outcome matches Ok((c, b)) ==> r is Ok && final(self)@ == (CacheView {
                packages: c@,
                all_packages: b@,
                ..old(self)@
            }),
    {
        match outcome {
            Ok((packages, all)) => {
                self.packages = packages;
                self.all_packages = all;
                Ok(())
            },
            Err(e) => Err(e),
        }
    }

    /// Marks the automatic refresh as running with period `period_secs`, and
    /// hands out a handle on its cancellation token; when it already runs,
    /// nothing changes and no handle is given.
    pub fn enable_auto_update(cache: &mut Cache, period_secs: u64) -> (r: Option<CancellationToken>)
        ensures
            r is Some <==> !old(cache)@.auto_running,
            final(cache).wf() == old(cache).wf(),
            old(cache)@.auto_running ==> final(cache)@ == old(cache)@,
            !old(cache)@.auto_running ==> final(cache)@ == (CacheView {
                auto_running: true,
                cache_duration: Some(period_secs),
                ..old(cache)@
            }),
    {
        if cache.auto_update.is_some() {
            return None;
        }
        let token = CancellationToken::new();
        let handle = token.clone();
        cache.auto_update = Some(token);
        cache.cache_duration = Some(period_secs);
        Some(handle)
    }

    /// Cancels the automatic refresh, if it runs.
    pub fn disable_auto_update(cache: &mut Cache)
        ensures
            final(cache).wf() == old(cache).wf(),
            final(cache)@ == (CacheView { auto_running: false, ..old(cache)@ }),
    {
        if let Some(token) = cache.auto_update.take() {
            token.cancel();
        }
    }
}

} // verus!
