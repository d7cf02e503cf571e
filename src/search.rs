//! Search over a catalog: substring filter, then skip, then take.
use vstd::prelude::*;
use crate::catalog::{package_views, Catalog};
use crate::model::{NugetPackage, NugetVersion, PackageView, VersionView};
use crate::project::{cat, make_registration_url, registration_url};
use crate::text::{chars_of, contains, contains_chars, lower_of, lowercase};

verus! {

/// A search request: optional text, optional count to skip, optional count to take.
pub struct SearchQuery {
    pub query: Option<String>,
    pub skip: Option<usize>,
    pub take: Option<usize>,
}

/// The answer to a search: the items returned and how many there are.
#[allow(non_snake_case)]
pub struct SearchResult {
    pub totalHits: usize,
    pub data: Vec<SearchItem>,
}

/// One package in a search answer.
#[allow(non_snake_case)]
pub struct SearchItem {
    pub id: String,
    pub version: String,
    pub description: String,
    pub versions: Vec<SearchVersion>,
    pub iconUrl: String,
    pub registration: String,
}

/// One release in a search answer.
pub struct SearchVersion {
    pub id: String,
    pub version: String,
    pub downloads: u32,
}

/// What a release in a search answer holds.
pub struct SearchVersionView {
    pub id: Seq<char>,
    pub version: Seq<char>,
    pub downloads: u32,
}

/// What a package in a search answer holds.
pub struct SearchItemView {
    pub id: Seq<char>,
    pub version: Seq<char>,
    pub description: Seq<char>,
    pub versions: Seq<SearchVersionView>,
    pub icon_url: Seq<char>,
    pub registration: Seq<char>,
}

impl View for SearchVersion {
    type V = SearchVersionView;

    open spec fn view(&self) -> SearchVersionView {
        SearchVersionView { id: self.id@, version: self.version@, downloads: self.downloads }
    }
}

impl View for SearchItem {
    type V = SearchItemView;

    open spec fn view(&self) -> SearchItemView {
        SearchItemView {
            id: self.id@,
            version: self.version@,
            description: self.description@,
            versions: self.versions@.map_values(|v: SearchVersion| v@),
            icon_url: self.iconUrl@,
            registration: self.registration@,
        }
    }
}

/// The search form of a served release: its address is the registration
/// address, a `#`, and the version.
pub open spec fn search_version_of(v: VersionView) -> SearchVersionView {
    SearchVersionView { id: v.id + "#"@ + v.version, version: v.version, downloads: v.downloads }
}

/// The search form of a served registration: described by its newest release.
pub open spec fn search_item_of(p: PackageView, base: Seq<char>) -> SearchItemView {
    SearchItemView {
        id: p.full_name,
        version: p.upper,
        description: p.versions[0].description,
        versions: p.versions.map_values(|v: VersionView| search_version_of(v)),
        icon_url: p.versions[0].icon_url,
        registration: registration_url(base, p.full_name),
    }
}

/// Package `p` matches the lowercase search text `needle`, if there is one.
pub open spec fn matches(p: PackageView, needle: Option<Seq<char>>) -> bool {
    match needle {
        None => true,
        Some(t) => contains(p.full_name_lower, t),
    }
}

/// The packages of `s` that match `needle`, in order.
pub open spec fn matching(s: Seq<PackageView>, needle: Option<Seq<char>>) -> Seq<PackageView>
    decreases s.len(),
{
    if s.len() == 0 {
        Seq::empty()
    } else if matches(s.last(), needle) {
        matching(s.drop_last(), needle).push(s.last())
    } else {
        matching(s.drop_last(), needle)
    }
}

/// `s` without its first `skip` items.
pub open spec fn skipped(s: Seq<PackageView>, skip: Option<usize>) -> Seq<PackageView> {
    match skip {
        None => s,
        Some(k) => if k < s.len() { s.subrange(k as int, s.len() as int) } else { Seq::empty() },
    }
}

/// At most the first `take` items of `s`.
pub open spec fn taken(s: Seq<PackageView>, take: Option<usize>) -> Seq<PackageView> {
    match take {
        None => s,
        Some(t) => if t < s.len() { s.subrange(0, t as int) } else { s },
    }
}

/// The lowercase search text, if there is one.
pub open spec fn needle_of(text: Option<Seq<char>>) -> Option<Seq<char>> {
    match text {
        None => None,
        Some(t) => Some(lower_of(t)),
    }
}

/// The packages that a search returns, before they are put in search form.
pub open spec fn search_hits(
    s: Seq<PackageView>,
    text: Option<Seq<char>>,
    skip: Option<usize>,
    take: Option<usize>,
) -> Seq<PackageView> {
    taken(skipped(matching(s, needle_of(text)), skip), take)
}

/// The view of the search text of a query.
pub open spec fn query_text(q: &SearchQuery) -> Option<Seq<char>> {
    match q.query {
        None => None,
        Some(t) => Some(t@),
    }
}

/// The views of the items of a search answer.
pub open spec fn item_views(s: Seq<SearchItem>) -> Seq<SearchItemView> {
    s.map_values(|i: SearchItem| i@)
}

/// The search forms of packages.
pub open spec fn items_of(s: Seq<PackageView>, base: Seq<char>) -> Seq<SearchItemView> {
    s.map_values(|p: PackageView| search_item_of(p, base))
}

impl SearchVersion {
    /// The search form of a served release.
    pub fn from_version(ver: &NugetVersion) -> (r: SearchVersion)
        ensures
            r@ == search_version_of(ver@),
    {
        let mut id = cat(ver.id.as_str(), "#");
        id = cat(id.as_str(), ver.catalogEntry.version.as_str());
        SearchVersion {
            id,
            version: ver.catalogEntry.version.clone(),
            downloads: ver.catalogEntry.downloads,
        }
    }
}

impl SearchItem {
    /// The search form of a served registration with at least one release.
    pub fn from_package(pkg: &NugetPackage, base_url: &str) -> (r: SearchItem)
        requires
            pkg@.versions.len() > 0,
        ensures
            r@ == search_item_of(pkg@, base_url@),
    {
        let inner = &pkg.items[0];
        let mut versions: Vec<SearchVersion> = Vec::new();
        let mut i: usize = 0;
        while i < inner.items.len()
            invariant
                i <= inner.items.len(),
                inner == pkg.items[0],
                versions.len() == i,
                forall|k: int|
                    0 <= k < i ==> #[trigger] versions@[k]@ == search_version_of(inner.items@[k]@),
            decreases inner.items.len() - i,
        {
            versions.push(SearchVersion::from_version(&inner.items[i]));
            i = i + 1;
        }
        let r = SearchItem {
            id: inner.full_name.clone(),
            version: inner.upper.clone(),
            description: inner.items[0].catalogEntry.description.clone(),
            versions,
            iconUrl: inner.items[0].catalogEntry.iconUrl.clone(),
            registration: make_registration_url(base_url, inner.full_name.as_str()),
        };
        assert(r@.versions =~= search_item_of(pkg@, base_url@).versions);
        r
    }
}

proof fn lemma_skipped_push(m: Seq<PackageView>, x: PackageView, skip: Option<usize>)
    ensures
        skipped(m.push(x), skip) == if (match skip {
            None => true,
            Some(k) => m.len() >= k,
        }) {
            skipped(m, skip).push(x)
        } else {
            skipped(m, skip)
        },
{
    if let Some(k) = skip {
        if m.len() >= k {
            if k < m.len() {
                assert(m.push(x).subrange(k as int, m.len() + 1int) =~= m.subrange(k as int, m.len() as int).push(x));
            } else {
                assert(m.push(x).subrange(k as int, m.len() + 1int) =~= Seq::<PackageView>::empty().push(x));
            }
        }
    }
}

proof fn lemma_taken_push(s: Seq<PackageView>, x: PackageView, take: Option<usize>)
    ensures
        taken(s.push(x), take) == if (match take {
            None => true,
            Some(t) => s.len() < t,
        }) {
            taken(s, take).push(x)
        } else {
            taken(s, take)
        },
        taken(s, take).len() == match take {
            None => s.len(),
            Some(t) => if s.len() < t { s.len() } else { t as nat },
        },
{
    if let Some(t) = take {
        if s.len() >= t {
            assert(s.push(x).subrange(0, t as int) =~= s.subrange(0, t as int));
        }
    }
}

/// Search over `catalog`: the packages whose lowercase name contains the
/// lowercase query text (all of them when there is none), without the first
/// `skip` of those, and at most `take` of the rest, in catalog order, in
/// search form.
pub fn search_packages(catalog: &Catalog, base_url: &str, q: &SearchQuery) -> (r: SearchResult)
    requires
        catalog.wf(),
    ensures
        item_views(r.data@) == items_of(search_hits(catalog@, query_text(q), q.skip, q.take), base_url@),
        r.totalHits == r.data.len(),
{
    let packages = catalog.packages();
    let needle: Option<Vec<char>> = match &q.query {
        Some(t) => Some(chars_of(lowercase(t.as_str()).as_str())),
        None => None,
    };
    let ghost nd = needle_of(query_text(q));
    let ghost pv = package_views(packages@);
    let mut data: Vec<SearchItem> = Vec::new();
    let mut matched: usize = 0;
    let mut i: usize = 0;
    while i < packages.len()
        invariant
            i <= packages.len(),
            pv == package_views(packages@),
            catalog.wf(),
            pv == catalog@,
            match needle {
                None => nd is None,
                Some(n) => nd == Some(n@),
            },
            matched == matching(pv.subrange(0, i as int), nd).len(),
            matched <= i,
            item_views(data@) == items_of(
                taken(skipped(matching(pv.subrange(0, i as int), nd), q.skip), q.take),
                base_url@,
            ),
        decreases packages.len() - i,
    {
        let p = &packages[i];
        let ghost pre = pv.subrange(0, i as int);
        let ghost pre1 = pv.subrange(0, i + 1);
        assert(pre1.drop_last() =~= pre);
        assert(pre1.last() == p@);
        let is_match = match &needle {
            None => true,
            Some(n) => contains_chars(catalog.lower_chars(i), n),
        };
        assert(is_match == matches(p@, nd));
        if is_match {
            let ghost m = matching(pre, nd);
            let ghost sk = skipped(m, q.skip);
            proof {
                lemma_skipped_push(m, p@, q.skip);
                lemma_taken_push(sk, p@, q.take);
                lemma_taken_push(skipped(m.push(p@), q.skip), p@, q.take);
            }
            assert(item_views(data@).len() == data@.len());
            assert(items_of(taken(sk, q.take), base_url@).len() == taken(sk, q.take).len());
            assert(data.len() == taken(sk, q.take).len());
            let keep_skip = match q.skip {
                None => true,
                Some(k) => matched >= k,
            };
            let keep_take = match q.take {
                None => true,
                Some(t) => data.len() < t,
            };
            if keep_skip && keep_take {
                let item = SearchItem::from_package(p, base_url);
                let ghost d0 = data@;
                data.push(item);
                assert(item_views(data@) =~= item_views(d0).push(item@));
                assert(items_of(taken(sk, q.take).push(p@), base_url@) =~= items_of(taken(sk, q.take), base_url@).push(search_item_of(p@, base_url@)));
            } else if keep_skip {
                assert(!(sk.len() < q.take->Some_0));
            }
            matched = matched + 1;
        }
        i = i + 1;
    }
    assert(pv.subrange(0, packages.len() as int) =~= pv);
    let n = data.len();
    SearchResult { totalHits: n, data }
}

} // verus!
