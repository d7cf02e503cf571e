//! The service index: which resources the registry offers, and where.
use vstd::prelude::*;
use crate::project::cat;

verus! {

/// One advertised resource: its address and its type.
pub struct Resource {
    pub id: String,
    pub res_type: String,
}

/// What an advertised resource holds.
pub open spec fn resource_view(r: Resource) -> (Seq<char>, Seq<char>) {
    (r.id@, r.res_type@)
}

/// The resources advertised under `base`: package contents, search (in three
/// protocol versions), publishing, and registrations.
pub open spec fn services(base: Seq<char>) -> Seq<(Seq<char>, Seq<char>)> {
    seq![
        (base + "/nuget/v3/base"@, "PackageBaseAddress/3.0.0"@),
        (base + "/nuget/v3/search"@, "SearchQueryService"@),
        (base + "/nuget/v3/search"@, "SearchQueryService/3.0.0-beta"@),
        (base + "/nuget/v3/search"@, "SearchQueryService/3.0.0-rc"@),
        (base + "/nuget/v3/nullpublish"@, "PackagePublish/2.0.0"@),
        (base + "/nuget/v3/package"@, "RegistrationsBaseUrl"@),
    ]
}

fn resource(base: &str, path: &str, res_type: &str) -> (r: Resource)
    ensures
        r.id@ == base@ + path@,
        r.res_type@ == res_type@,
{
    Resource { id: cat(base, path), res_type: res_type.to_owned() }
}

/// The resources advertised under `base_url`.
pub fn service_resources(base_url: &str) -> (r: Vec<Resource>)
    ensures
        r@.map_values(|x: Resource| resource_view(x)) == services(base_url@),
{
    let mut r: Vec<Resource> = Vec::new();
    r.push(resource(base_url, "/nuget/v3/base", "PackageBaseAddress/3.0.0"));
    r.push(resource(base_url, "/nuget/v3/search", "SearchQueryService"));
    r.push(resource(base_url, "/nuget/v3/search", "SearchQueryService/3.0.0-beta"));
    r.push(resource(base_url, "/nuget/v3/search", "SearchQueryService/3.0.0-rc"));
    r.push(resource(base_url, "/nuget/v3/nullpublish", "PackagePublish/2.0.0"));
    r.push(resource(base_url, "/nuget/v3/package", "RegistrationsBaseUrl"));
    assert(r@.map_values(|x: Resource| resource_view(x)) =~= services(base_url@));
    r
}

} // verus!
