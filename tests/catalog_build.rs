use thunderget::catalog::{build_catalog, BuildError};
use thunderget::model::{NugetPackage, TSPackage, TSVersion};

fn version(number: &str, deps: &[&str]) -> TSVersion {
    TSVersion {
        description: format!("desc {number}"),
        icon: format!("https://icons/{number}.png"),
        version_number: number.to_string(),
        download_url: format!("https://dl/{number}"),
        downloads: 7,
        date_created: "2024-01-01T00:00:00Z".to_string(),
        website_url: "https://web".to_string(),
        dependencies: deps.iter().map(|d| d.to_string()).collect(),
    }
}

fn package(name: &str, deprecated: bool, versions: Vec<TSVersion>) -> TSPackage {
    TSPackage {
        full_name: name.to_string(),
        package_url: format!("https://pkg/{name}"),
        is_deprecated: deprecated,
        versions,
    }
}

fn names(c: &[NugetPackage]) -> Vec<String> {
    c.iter().map(|p| p.items[0].full_name.clone()).collect()
}

#[test]
fn projection_of_one_package() {
    let p = package("Team-Mod", true, vec![version("2.0.0", &["A-B-1.0.0", "C-D-2.0.0"]), version("1.0.0", &[])]);
    let n = NugetPackage::from_upstream(&p, "http://host");
    assert_eq!(n.id, "http://host/nuget/v3/package/team-mod/index.json");
    assert_eq!(n.res_type, ["PackageRegistration", "catalog:CatalogRoot", "catalog:Permalink"]);
    assert_eq!(n.count, 1);
    let inner = &n.items[0];
    assert_eq!(inner.id, n.id);
    assert_eq!(inner.full_name, "Team-Mod");
    assert_eq!(inner.full_name_lower, "team-mod");
    assert_eq!(inner.count, 2);
    assert_eq!(inner.upper, "2.0.0");
    assert_eq!(inner.lower, "1.0.0");
    let v = &inner.items[0];
    assert_eq!(v.id, n.id);
    assert_eq!(v.packageContent, "http://host/nuget/v3/base/team-mod/2.0.0/team-mod.2.0.0.nupkg");
    assert_eq!(v.catalogEntry.packageContent, v.packageContent);
    assert_eq!(v.catalogEntry.id, "Team-Mod");
    assert_eq!(
        v.catalogEntry.description,
        "desc 2.0.0\n\nPackage URL: https://pkg/Team-Mod\nWebsite URL: https://web\nDepends on:\nA-B-1.0.0\nC-D-2.0.0"
    );
    assert_eq!(inner.items[1].catalogEntry.description, "desc 1.0.0\n\nPackage URL: https://pkg/Team-Mod\nWebsite URL: https://web\nDepends on:");
    assert_eq!(v.catalogEntry.iconUrl, "https://icons/2.0.0.png");
    assert_eq!(v.catalogEntry.published, "2024-01-01T00:00:00Z");
    assert_eq!(v.catalogEntry.version, "2.0.0");
    assert_eq!(v.catalogEntry.downloads, 7);
    assert_eq!(v.catalogEntry.download_url, "https://dl/2.0.0");
    let d = v.catalogEntry.deprecation.as_ref().unwrap();
    assert_eq!(d.id, "http://host/nuget/v3/package/team-mod/index.json#deprecation");
    assert_eq!(d.message, "Deprecated on Thunderstore");
    assert_eq!(d.reasons, ["Other"]);
}

#[test]
fn projection_lowercases_unicode_names() {
    let p = package("Ärger-Mod", false, vec![version("1.0.0", &[])]);
    let n = NugetPackage::from_upstream(&p, "http://h");
    assert_eq!(n.items[0].full_name_lower, "ärger-mod");
    assert_eq!(n.id, "http://h/nuget/v3/package/ärger-mod/index.json");
    assert_eq!(n.items[0].items[0].packageContent, "http://h/nuget/v3/base/ärger-mod/1.0.0/ärger-mod.1.0.0.nupkg");
}

#[test]
fn not_deprecated_has_no_mark() {
    let p = package("A-B", false, vec![version("1.0.0", &[])]);
    let n = NugetPackage::from_upstream(&p, "http://h");
    assert!(n.items[0].items[0].catalogEntry.deprecation.is_none());
}

#[test]
fn duplicate_across_partitions_keeps_first() {
    let parts = vec![
        vec![package("Foo.Bar", false, vec![version("1.0.0", &[])]), package("Other", false, vec![version("3.0.0", &[])])],
        vec![package("foo.bar", false, vec![version("9.9.9", &[])]), package("Third", false, vec![version("0.1.0", &[])])],
    ];
    let c = build_catalog(&parts, "http://h").ok().unwrap();
    assert_eq!(names(c.packages()), vec!["Foo.Bar", "Other", "Third"]);
    let kept: Vec<_> = c.packages().iter().filter(|p| p.items[0].full_name_lower == "foo.bar").collect();
    assert_eq!(kept.len(), 1);
    assert_eq!(kept[0].items[0].upper, "1.0.0");
}

#[test]
fn rebuild_is_identical() {
    let mk = || vec![vec![package("A-B", true, vec![version("1.0.0", &["X"])])], vec![package("C-D", false, vec![version("2.0.0", &[])])]];
    let a = build_catalog(&mk(), "http://h").ok().unwrap();
    let b = build_catalog(&mk(), "http://h").ok().unwrap();
    assert_eq!(a.packages().len(), b.packages().len());
    for (x, y) in a.packages().iter().zip(b.packages().iter()) {
        assert_eq!(x.id, y.id);
        assert_eq!(x.items[0].full_name, y.items[0].full_name);
        assert_eq!(x.items[0].items.len(), y.items[0].items.len());
        for (u, v) in x.items[0].items.iter().zip(y.items[0].items.iter()) {
            assert_eq!(u.packageContent, v.packageContent);
            assert_eq!(u.catalogEntry.description, v.catalogEntry.description);
            assert_eq!(u.catalogEntry.version, v.catalogEntry.version);
        }
    }
}

#[test]
fn lookup_by_key_uses_folded_name() {
    let parts = vec![vec![package("Foo.Bar", false, vec![version("1.0.0", &[])]), package("Baz", false, vec![version("1.0.0", &[])])]];
    let c = build_catalog(&parts, "http://h").ok().unwrap();
    let k = thunderget::key::PackageKey::try_from("FOO.bar".to_string()).ok().unwrap();
    assert_eq!(c.get(&k).unwrap().items[0].full_name, "Foo.Bar");
    let k = thunderget::key::PackageKey::try_from("baz".to_string()).ok().unwrap();
    assert_eq!(c.get(&k).unwrap().items[0].full_name, "Baz");
    let k = thunderget::key::PackageKey::try_from("Foo.Ba".to_string()).ok().unwrap();
    assert!(c.get(&k).is_none());
}

#[test]
fn non_ascii_package_fails_build() {
    let parts = vec![vec![package("Good", false, vec![version("1.0.0", &[])]), package("Bäd", false, vec![version("1.0.0", &[])])]];
    match build_catalog(&parts, "http://h") {
        Err(BuildError::NonAscii(n)) => assert_eq!(n, "Bäd"),
        _ => panic!("expected a non-ASCII error"),
    }
}

#[test]
fn package_without_release_fails_build() {
    let parts = vec![vec![package("Empty", false, vec![])], vec![package("Bäd", false, vec![])]];
    match build_catalog(&parts, "http://h") {
        Err(BuildError::NoReleases(n)) => assert_eq!(n, "Empty"),
        _ => panic!("expected a no-release error"),
    }
}

#[test]
fn empty_upstream_gives_empty_catalog() {
    let parts: Vec<Vec<TSPackage>> = vec![vec![], vec![]];
    assert_eq!(build_catalog(&parts, "http://h").ok().unwrap().packages().len(), 0);
    assert_eq!(build_catalog(&vec![], "http://h").ok().unwrap().packages().len(), 0);
}
