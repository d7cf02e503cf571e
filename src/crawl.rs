//! Discovery of the upstream partitions: a paginated listing followed page by
//! page until it names no further page.
use vstd::prelude::*;
use crate::model::{TSCommunity, TSCommunityList};
use vstd::string::StringExecFns;

verus! {

/// The first page of the partition listing.
pub const COMMUNITY_LIST_URL: &'static str = "https://thunderstore.io/api/experimental/community/";

/// Where the package list of partition `id` is fetched from.
pub open spec fn partition_url(id: Seq<char>) -> Seq<char> {
    "https://thunderstore.io/c/"@ + id + "/api/v1/package/"@
}

/// The identifiers of partitions.
pub open spec fn community_ids(s: Seq<TSCommunity>) -> Seq<Seq<char>> {
    s.map_values(|c: TSCommunity| c.identifier@)
}

/// The views of strings.
pub open spec fn string_views(s: Seq<String>) -> Seq<Seq<char>> {
    s.map_values(|x: String| x@)
}

/// The progress of a discovery: the partitions found so far, and the page to
/// fetch next, if any.
pub struct Discovery {
    communities: Vec<String>,
    next: Option<String>,
}

/// What a discovery holds.
pub struct DiscoveryView {
    pub communities: Seq<Seq<char>>,
    pub next: Option<Seq<char>>,
}

impl View for Discovery {
    type V = DiscoveryView;

    closed spec fn view(&self) -> DiscoveryView {
        DiscoveryView {
            communities: string_views(self.communities@),
            next: match self.next {
                Some(n) => Some(n@),
                None => None,
            },
        }
    }
}

impl Discovery {
    /// A discovery that starts at the first page of the listing.
    pub fn new() -> (r: Discovery)
        ensures
            r@ == (DiscoveryView { communities: Seq::empty(), next: Some(COMMUNITY_LIST_URL@) }),
    {
        let r = Discovery { communities: Vec::new(), next: Some(COMMUNITY_LIST_URL.to_owned()) };
        assert(r@.communities =~= Seq::<Seq<char>>::empty());
        r
    }

    /// The page to fetch next; none once the listing is exhausted.
    pub fn next_page(&self) -> (r: Option<String>)
        ensures
            match r {
                Some(n) => self@.next == Some(n@),
                None => self@.next is None,
            },
    {
        match &self.next {
            Some(n) => Some(n.clone()),
            None => None,
        }
    }

    /// Takes in one fetched page: its partitions are added after those found so
    /// far, and its continuation becomes the page to fetch next.
    pub fn record_page(&mut self, page: TSCommunityList)
        ensures
            final(self)@ == (DiscoveryView {
                communities: old(self)@.communities + community_ids(page.results@),
                next: match page.pagination.next_link {
                    Some(n) => Some(n@),
                    None => None,
                },
            }),
    {
        let ghost c0 = self@.communities;
        let mut i: usize = 0;
        while i < page.results.len()
            invariant
                i <= page.results.len(),
                self@.communities == c0 + community_ids(page.results@.subrange(0, i as int)),
            decreases page.results.len() - i,
        {
            let ghost before = self.communities@;
            self.communities.push(page.results[i].identifier.clone());
            assert(string_views(self.communities@) =~= string_views(before).push(page.results@[i as int].identifier@));
            i = i + 1;
            assert(self@.communities =~= c0 + community_ids(page.results@.subrange(0, i as int)));
        }
        assert(page.results@.subrange(0, page.results.len() as int) =~= page.results@);
        self.next = page.pagination.next_link;
    }

    /// The partitions found so far.
    pub fn communities(&self) -> (r: &Vec<String>)
        ensures
            string_views(r@) == self@.communities,
    {
        &self.communities
    }

    /// Where the package lists of the partitions found so far are fetched from,
    /// in the order they were found.
    pub fn partition_urls(&self) -> (r: Vec<String>)
        ensures
            string_views(r@) == self@.communities.map_values(|c: Seq<char>| partition_url(c)),
    {
        let mut r: Vec<String> = Vec::new();
        let mut i: usize = 0;
        while i < self.communities.len()
            invariant
                i <= self.communities.len(),
                r.len() == i,
                forall|k: int| 0 <= k < i ==> #[trigger] r@[k]@ == partition_url(self.communities@[k]@),
            decreases self.communities.len() - i,
        {
            r.push(make_partition_url(self.communities[i].as_str()));
            i = i + 1;
        }
        assert(string_views(r@) =~= self@.communities.map_values(|c: Seq<char>| partition_url(c)));
        r
    }
}

/// Where the package list of partition `id` is fetched from.
pub fn make_partition_url(id: &str) -> (r: String)
    ensures
        r@ == partition_url(id@),
{
    let mut s = "https://thunderstore.io/c/".to_owned();
    s.append(id);
    s.append("/api/v1/package/");
    s
}

} // verus!
