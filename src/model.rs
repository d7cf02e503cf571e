//! Upstream records as they are read, the served records built from them,
//! and the mathematical views that contracts speak of.
use vstd::prelude::*;

verus! {

/// The continuation of a paginated listing.
pub struct Pagination {
    pub next_link: Option<String>,
}

/// One upstream partition (a community).
pub struct TSCommunity {
    pub identifier: String,
}

/// One page of the partition listing.
pub struct TSCommunityList {
    pub pagination: Pagination,
    pub results: Vec<TSCommunity>,
}

/// One upstream package, with its releases newest first.
pub struct TSPackage {
    pub full_name: String,
    pub package_url: String,
    pub is_deprecated: bool,
    pub versions: Vec<TSVersion>,
}

/// One upstream release.
pub struct TSVersion {
    pub description: String,
    pub icon: String,
    pub version_number: String,
    pub download_url: String,
    pub downloads: u32,
    pub date_created: String,
    pub website_url: String,
    pub dependencies: Vec<String>,
}

/// The registration of one package as it is served.
#[allow(non_snake_case)]
pub struct NugetPackage {
    pub id: String,
    pub res_type: [&'static str; 3],
    pub count: u8,
    pub items: [NugetPackageInner; 1],
}

/// The single page of a registration.
pub struct NugetPackageInner {
    pub id: String,
    pub full_name: String,
    pub full_name_lower: String,
    pub count: usize,
    pub lower: String,
    pub upper: String,
    pub items: Vec<NugetVersion>,
}

/// One served release.
#[allow(non_snake_case)]
#[derive(Clone)]
pub struct NugetVersion {
    pub id: String,
    pub packageContent: String,
    pub catalogEntry: NugetVersionInner,
}

/// The mark on a release of a deprecated package.
#[derive(Clone)]
pub struct Deprecation {
    pub id: String,
    pub message: &'static str,
    pub reasons: [&'static str; 1],
}

/// The catalog entry of one served release.
#[allow(non_snake_case)]
#[derive(Clone)]
pub struct NugetVersionInner {
    pub id: String,
    pub description: String,
    pub iconUrl: String,
    pub published: String,
    pub version: String,
    pub packageContent: String,
    pub deprecation: Option<Deprecation>,
    pub downloads: u32,
    pub download_url: String,
}

/// What an upstream release holds.
pub struct TSVersionView {
    pub description: Seq<char>,
    pub icon: Seq<char>,
    pub version_number: Seq<char>,
    pub download_url: Seq<char>,
    pub downloads: u32,
    pub date_created: Seq<char>,
    pub website_url: Seq<char>,
    pub dependencies: Seq<Seq<char>>,
}

/// What an upstream package holds.
pub struct TSPackageView {
    pub full_name: Seq<char>,
    pub package_url: Seq<char>,
    pub is_deprecated: bool,
    pub versions: Seq<TSVersionView>,
}

/// What a served release holds.
pub struct VersionView {
    pub id: Seq<char>,
    pub package_content: Seq<char>,
    pub entry_id: Seq<char>,
    pub description: Seq<char>,
    pub icon_url: Seq<char>,
    pub published: Seq<char>,
    pub version: Seq<char>,
    pub entry_content: Seq<char>,
    pub deprecation: Option<(Seq<char>, Seq<char>, Seq<Seq<char>>)>,
    pub downloads: u32,
    pub download_url: Seq<char>,
}

/// What a served registration holds.
pub struct PackageView {
    pub id: Seq<char>,
    pub res_type: Seq<Seq<char>>,
    pub outer_count: u8,
    pub inner_id: Seq<char>,
    pub full_name: Seq<char>,
    pub full_name_lower: Seq<char>,
    pub count: nat,
    pub lower: Seq<char>,
    pub upper: Seq<char>,
    pub versions: Seq<VersionView>,
}

impl View for TSVersion {
    type V = TSVersionView;

    open spec fn view(&self) -> TSVersionView {
        TSVersionView {
            description: self.description@,
            icon: self.icon@,
            version_number: self.version_number@,
            download_url: self.download_url@,
            downloads: self.downloads,
            date_created: self.date_created@,
            website_url: self.website_url@,
            dependencies: self.dependencies@.map_values(|d: String| d@),
        }
    }
}

impl View for TSPackage {
    type V = TSPackageView;

    open spec fn view(&self) -> TSPackageView {
        TSPackageView {
            full_name: self.full_name@,
            package_url: self.package_url@,
            is_deprecated: self.is_deprecated,
            versions: self.versions@.map_values(|v: TSVersion| v@),
        }
    }
}

impl View for NugetVersion {
    type V = VersionView;

    open spec fn view(&self) -> VersionView {
        VersionView {
            id: self.id@,
            package_content: self.packageContent@,
            entry_id: self.catalogEntry.id@,
            description: self.catalogEntry.description@,
            icon_url: self.catalogEntry.iconUrl@,
            published: self.catalogEntry.published@,
            version: self.catalogEntry.version@,
            entry_content: self.catalogEntry.packageContent@,
            deprecation: match self.catalogEntry.deprecation {
                Some(d) => Some((d.id@, d.message@, d.reasons@.map_values(|t: &str| t@))),
                None => None,
            },
            downloads: self.catalogEntry.downloads,
            download_url: self.catalogEntry.download_url@,
        }
    }
}

impl View for NugetPackage {
    type V = PackageView;

    open spec fn view(&self) -> PackageView {
        PackageView {
            id: self.id@,
            res_type: self.res_type@.map_values(|t: &str| t@),
            outer_count: self.count,
            inner_id: self.items[0].id@,
            full_name: self.items[0].full_name@,
            full_name_lower: self.items[0].full_name_lower@,
            count: self.items[0].count as nat,
            lower: self.items[0].lower@,
            upper: self.items[0].upper@,
            versions: self.items[0].items@.map_values(|v: NugetVersion| v@),
        }
    }
}

} // verus!
