//! A read-only package registry in the standard protocol, served from a
//! periodically rebuilt snapshot of an upstream mod catalog, with upstream
//! archives transcoded on demand into packages.
//!
//! The verified core: case-insensitive package keys, the catalog build from
//! the upstream partitions, search, the cache snapshot and its refresh state,
//! the transcoding of archives and the guard that lets one request at a time
//! produce a package file.
pub mod text;
pub mod key;
pub mod model;
pub mod project;
pub mod index;
pub mod catalog;
pub mod search;
pub mod cache;
pub mod zipfile;
pub mod archive;
pub mod inflight;
pub mod crawl;
pub mod service;
pub mod laws;

pub use archive::Nupkg;
pub use cache::Cache;
pub use key::{NonAsciiError, PackageKey};
pub use model::{
    Deprecation, NugetPackage, NugetPackageInner, NugetVersion, NugetVersionInner, Pagination, TSCommunity,
    TSCommunityList, TSPackage, TSVersion,
};
pub use search::{SearchItem, SearchQuery, SearchResult, SearchVersion};
