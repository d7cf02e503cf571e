//! The projection of one upstream package into a served registration.
use vstd::prelude::*;
use crate::model::{
    Deprecation, NugetPackage, NugetPackageInner, NugetVersion, NugetVersionInner, PackageView,
    TSPackage, TSPackageView, TSVersion, TSVersionView, VersionView,
};
use crate::text::{lower_of, lowercase};
use vstd::string::StringExecFns;

verus! {

/// Registration address of a package: `{base}/nuget/v3/package/{lower}/index.json`.
pub open spec fn registration_url(base: Seq<char>, name: Seq<char>) -> Seq<char> {
    base + "/nuget/v3/package/"@ + name + "/index.json"@
}

/// Download address of one release: `{base}/nuget/v3/base/{lower}/{v}/{lower}.{v}.nupkg`.
pub open spec fn content_url(base: Seq<char>, lower: Seq<char>, ver: Seq<char>) -> Seq<char> {
    base + "/nuget/v3/base/"@ + lower + "/"@ + ver + "/"@ + lower + "."@ + ver + ".nupkg"@
}

/// The dependency list, one per line, each line introduced by a newline.
pub open spec fn deps_text(deps: Seq<Seq<char>>) -> Seq<char>
    decreases deps.len(),
{
    if deps.len() == 0 {
        Seq::empty()
    } else {
        deps_text(deps.drop_last()) + "\n"@ + deps.last()
    }
}

/// The description served for a release: its own text, the package and website
/// addresses, and its dependencies.
pub open spec fn description_text(
    desc: Seq<char>,
    package_url: Seq<char>,
    website_url: Seq<char>,
    deps: Seq<Seq<char>>,
) -> Seq<char> {
    desc + "\n\nPackage URL: "@ + package_url + "\nWebsite URL: "@ + website_url + "\nDepends on:"@
        + deps_text(deps)
}

/// The deprecation mark's address, beside the registration address.
pub open spec fn deprecation_id(url: Seq<char>) -> Seq<char> {
    url + "#deprecation"@
}

/// The served form of one release of package `p`.
pub open spec fn project_version(p: TSPackageView, v: TSVersionView, base: Seq<char>) -> VersionView {
    let lower = lower_of(p.full_name);
    let url = registration_url(base, lower);
    VersionView {
        id: url,
        package_content: content_url(base, lower, v.version_number),
        entry_id: p.full_name,
        description: description_text(v.description, p.package_url, v.website_url, v.dependencies),
        icon_url: v.icon,
        published: v.date_created,
        version: v.version_number,
        entry_content: content_url(base, lower, v.version_number),
        deprecation: if p.is_deprecated {
            Some((deprecation_id(url), "Deprecated on Thunderstore"@, seq!["Other"@]))
        } else {
            None
        },
        downloads: v.downloads,
        download_url: v.download_url,
    }
}

/// The served registration of package `p`: the bounds are its last and first
/// releases as upstream orders them.
pub open spec fn project(p: TSPackageView, base: Seq<char>) -> PackageView {
    let lower = lower_of(p.full_name);
    let url = registration_url(base, lower);
    PackageView {
        id: url,
        res_type: seq!["PackageRegistration"@, "catalog:CatalogRoot"@, "catalog:Permalink"@],
        outer_count: 1,
        inner_id: url,
        full_name: p.full_name,
        full_name_lower: lower,
        count: p.versions.len(),
        lower: p.versions.last().version_number,
        upper: p.versions.first().version_number,
        versions: p.versions.map_values(|v: TSVersionView| project_version(p, v, base)),
    }
}

/// `a` followed by `b`.
pub fn cat(a: &str, b: &str) -> (r: String)
    ensures
        r@ == a@ + b@,
{
    let mut s = a.to_owned();
    s.append(b);
    s
}

/// Registration address of a package.
pub fn make_registration_url(base: &str, name: &str) -> (r: String)
    ensures
        r@ == registration_url(base@, name@),
{
    let mut s = base.to_owned();
    s.append("/nuget/v3/package/");
    s.append(name);
    s.append("/index.json");
    s
}

/// Download address of one release.
pub fn make_content_url(base: &str, lower: &str, ver: &str) -> (r: String)
    ensures
        r@ == content_url(base@, lower@, ver@),
{
    let mut s = base.to_owned();
    s.append("/nuget/v3/base/");
    s.append(lower);
    s.append("/");
    s.append(ver);
    s.append("/");
    s.append(lower);
    s.append(".");
    s.append(ver);
    s.append(".nupkg");
    s
}

/// The description served for a release.
pub fn make_description(desc: &str, package_url: &str, website_url: &str, deps: &Vec<String>) -> (r: String)
    ensures
        r@ == description_text(desc@, package_url@, website_url@, deps@.map_values(|d: String| d@)),
{
    let mut s = desc.to_owned();
    s.append("\n\nPackage URL: ");
    s.append(package_url);
    s.append("\nWebsite URL: ");
    s.append(website_url);
    s.append("\nDepends on:");
    let ghost head = s@;
    let ghost dv = deps@.map_values(|d: String| d@);
    let mut i: usize = 0;
    while i < deps.len()
        invariant
            i <= deps.len(),
            dv == deps@.map_values(|d: String| d@),
            s@ == head + deps_text(dv.subrange(0, i as int)),
        decreases deps.len() - i,
    {
        s.append("\n");
        s.append(deps[i].as_str());
        i = i + 1;
        assert(dv.subrange(0, i as int).drop_last() == dv.subrange(0, i - 1));
    }
    assert(dv.subrange(0, deps.len() as int) == dv);
    s
}

/// The served form of release `v` of `pkg`, given the lowercase name and the
/// registration address.
fn make_version(pkg: &TSPackage, v: &TSVersion, base: &str, lower: &str, url: &String) -> (r: NugetVersion)
    requires
        lower@ == lower_of(pkg.full_name@),
        url@ == registration_url(base@, lower@),
    ensures
        r@ == project_version(pkg@, v@, base@),
{
    let deprecation = if pkg.is_deprecated {
        Some(Deprecation {
            id: cat(url.as_str(), "#deprecation"),
            message: "Deprecated on Thunderstore",
            reasons: ["Other"],
        })
    } else {
        None
    };
    proof {
        if pkg.is_deprecated {
            let d = deprecation->Some_0;
            assert(d.reasons@.map_values(|t: &str| t@) =~= seq!["Other"@]);
        }
    }
    let r = NugetVersion {
        id: url.clone(),
        packageContent: make_content_url(base, lower, v.version_number.as_str()),
        catalogEntry: NugetVersionInner {
            id: pkg.full_name.clone(),
            description: make_description(
                v.description.as_str(),
                pkg.package_url.as_str(),
                v.website_url.as_str(),
                &v.dependencies,
            ),
            iconUrl: v.icon.clone(),
            published: v.date_created.clone(),
            version: v.version_number.clone(),
            packageContent: make_content_url(base, lower, v.version_number.as_str()),
            deprecation,
            downloads: v.downloads,
            download_url: v.download_url.clone(),
        },
    };
    r
}

impl NugetPackage {
    /// The registration served for upstream package `pkg`, with addresses
    /// under `base_url`. A package without releases has no registration.
    pub fn from_upstream(pkg: &TSPackage, base_url: &str) -> (r: NugetPackage)
        requires
            pkg.versions.len() > 0,
        ensures
            r@ == project(pkg@, base_url@),
    {
        let lower = lowercase(pkg.full_name.as_str());
        let url = make_registration_url(base_url, lower.as_str());
        let mut items: Vec<NugetVersion> = Vec::new();
        let mut i: usize = 0;
        while i < pkg.versions.len()
            invariant
                i <= pkg.versions.len(),
                lower@ == lower_of(pkg.full_name@),
                url@ == registration_url(base_url@, lower@),
                items.len() == i,
                forall|k: int|
                    0 <= k < i ==> #[trigger] items@[k]@ == project_version(
                        pkg@,
                        pkg@.versions[k],
                        base_url@,
                    ),
            decreases pkg.versions.len() - i,
        {
            let v = make_version(pkg, &pkg.versions[i], base_url, lower.as_str(), &url);
            items.push(v);
            i = i + 1;
        }
        let n = pkg.versions.len();
        let r = NugetPackage {
            id: url.clone(),
            res_type: ["PackageRegistration", "catalog:CatalogRoot", "catalog:Permalink"],
            count: 1,
            items: [
                NugetPackageInner {
                    id: url.clone(),
                    full_name: pkg.full_name.clone(),
                    full_name_lower: lower,
                    count: n,
                    lower: pkg.versions[n - 1].version_number.clone(),
                    upper: pkg.versions[0].version_number.clone(),
                    items,
                },
            ],
        };
        assert(r@.versions =~= project(pkg@, base_url@).versions);
        assert(r@.res_type =~= project(pkg@, base_url@).res_type);
        r
    }
}

} // verus!
