use thunderget::cache::{Cache, RefreshError};
use thunderget::catalog::{build_catalog, BuildError, Catalog};
use thunderget::key::PackageKey;
use thunderget::model::{TSPackage, TSVersion};
use thunderget::search::{search_packages, SearchQuery, SearchVersion};

fn version(number: &str) -> TSVersion {
    TSVersion {
        description: format!("about {number}"),
        icon: "icon".to_string(),
        version_number: number.to_string(),
        download_url: "dl".to_string(),
        downloads: 3,
        date_created: "then".to_string(),
        website_url: "web".to_string(),
        dependencies: vec![],
    }
}

fn catalog(names: &[&str]) -> Catalog {
    let part: Vec<TSPackage> = names
        .iter()
        .map(|n| TSPackage {
            full_name: n.to_string(),
            package_url: "url".to_string(),
            is_deprecated: false,
            versions: vec![version("2.0.0"), version("1.0.0")],
        })
        .collect();
    build_catalog(&vec![part], "http://h").ok().unwrap()
}

fn query(text: Option<&str>, skip: Option<usize>, take: Option<usize>) -> SearchQuery {
    SearchQuery { query: text.map(|t| t.to_string()), skip, take }
}

fn ids(c: &Catalog, q: SearchQuery) -> Vec<String> {
    let r = search_packages(c, "http://h", &q);
    assert_eq!(r.totalHits, r.data.len());
    r.data.iter().map(|i| i.id.clone()).collect()
}

const NAMES: [&str; 5] = ["Alpha-Core", "beta-CORE", "Gamma", "Delta-Core", "Epsilon"];

#[test]
fn search_filters_case_insensitively() {
    let c = catalog(&NAMES);
    assert_eq!(ids(&c, query(Some("core"), None, None)), vec!["Alpha-Core", "beta-CORE", "Delta-Core"]);
    assert_eq!(ids(&c, query(Some("CoRe"), None, None)), vec!["Alpha-Core", "beta-CORE", "Delta-Core"]);
    assert!(ids(&c, query(Some("zzz"), None, None)).is_empty());
}

#[test]
fn search_lowercases_query_like_to_lowercase() {
    let c = catalog(&["Kit-Mod", "Other"]);
    assert_eq!(ids(&c, query(Some("\u{212A}IT"), None, None)), vec!["Kit-Mod"]);
    assert_eq!(ids(&c, query(Some("KIT"), None, None)), vec!["Kit-Mod"]);
    assert!(ids(&c, query(Some("kät"), None, None)).is_empty());
}

#[test]
fn search_skips_then_takes() {
    let c = catalog(&NAMES);
    assert_eq!(ids(&c, query(Some("core"), Some(1), None)), vec!["beta-CORE", "Delta-Core"]);
    assert_eq!(ids(&c, query(Some("core"), Some(1), Some(1))), vec!["beta-CORE"]);
    assert_eq!(ids(&c, query(None, Some(3), Some(10))), vec!["Delta-Core", "Epsilon"]);
    assert!(ids(&c, query(None, Some(5), None)).is_empty());
    assert!(ids(&c, query(None, Some(99), Some(2))).is_empty());
    assert!(ids(&c, query(None, None, Some(0))).is_empty());
    assert!(ids(&c, query(None, Some(usize::MAX), Some(usize::MAX))).is_empty());
    assert_eq!(ids(&c, query(None, Some(4), Some(usize::MAX))), vec!["Epsilon"]);
}

#[test]
fn consecutive_pages_tile_the_hits() {
    let c = catalog(&NAMES);
    for n in 1..7 {
        let mut all = ids(&c, query(None, Some(0), Some(n)));
        all.extend(ids(&c, query(None, Some(n), Some(n))));
        let both = ids(&c, query(None, Some(0), Some(2 * n)));
        assert_eq!(all, both);
    }
    let mut pages = Vec::new();
    let mut skip = 0;
    loop {
        let page = ids(&c, query(None, Some(skip), Some(2)));
        if page.is_empty() {
            break;
        }
        pages.extend(page);
        skip += 2;
    }
    assert_eq!(pages, NAMES.to_vec());
}

#[test]
fn empty_query_lists_everything() {
    let c = catalog(&NAMES);
    let mut got = ids(&c, query(None, None, None));
    let mut want: Vec<String> = NAMES.iter().map(|s| s.to_string()).collect();
    got.sort();
    want.sort();
    assert_eq!(got, want);
    assert_eq!(ids(&c, query(Some(""), None, None)).len(), NAMES.len());
}

#[test]
fn search_item_shape() {
    let c = catalog(&["Team-Mod"]);
    let r = search_packages(&c, "http://h", &query(None, None, None));
    let item = &r.data[0];
    assert_eq!(item.id, "Team-Mod");
    assert_eq!(item.version, "2.0.0");
    assert!(item.description.starts_with("about 2.0.0\n\nPackage URL: url"));
    assert_eq!(item.iconUrl, "icon");
    assert_eq!(item.registration, "http://h/nuget/v3/package/Team-Mod/index.json");
    let vs: Vec<&SearchVersion> = item.versions.iter().collect();
    assert_eq!(vs.len(), 2);
    assert_eq!(vs[0].id, "http://h/nuget/v3/package/team-mod/index.json#2.0.0");
    assert_eq!(vs[1].version, "1.0.0");
    assert_eq!(vs[1].downloads, 3);
}

fn filled_cache() -> Cache {
    let mut cache = Cache::new("http://h".to_string());
    let c = catalog(&NAMES);
    assert!(cache.refresh(Ok((c, b"payload".to_vec()))).is_ok());
    cache
}

#[test]
fn lookup_ignores_case() {
    let cache = filled_cache();
    let k = PackageKey::try_from("ALPHA-core".to_string()).ok().unwrap();
    let p = cache.get(&k).unwrap();
    assert_eq!(p.items[0].full_name, "Alpha-Core");
    assert_eq!(p.version_list(), vec!["2.0.0", "1.0.0"]);
    assert_eq!(p.find_version("1.0.0").unwrap().catalogEntry.version, "1.0.0");
    assert!(p.find_version("3.0.0").is_none());
    let missing = PackageKey::try_from("nope".to_string()).ok().unwrap();
    assert!(cache.get(&missing).is_none());
}

#[test]
fn cache_search_uses_snapshot() {
    let cache = filled_cache();
    let r = cache.search(query(Some("gam"), None, None));
    assert_eq!(r.totalHits, 1);
    assert_eq!(r.data[0].id, "Gamma");
    assert_eq!(cache.all_packages(), &b"payload".to_vec());
    assert_eq!(cache.base_url(), "http://h");
}

#[test]
fn failed_refresh_keeps_snapshot() {
    let mut cache = filled_cache();
    let r = cache.refresh(Err(RefreshError::Upstream("HTTP 500".to_string())));
    match r {
        Err(RefreshError::Upstream(m)) => assert_eq!(m, "HTTP 500"),
        _ => panic!("the error was not handed back"),
    }
    assert_eq!(cache.packages().len(), NAMES.len());
    assert_eq!(cache.all_packages(), &b"payload".to_vec());
    let r = cache.refresh(Err(RefreshError::Build(BuildError::NoReleases("x".to_string()))));
    assert!(r.is_err());
    assert_eq!(cache.packages()[0].items[0].full_name, "Alpha-Core");
}

#[test]
fn successful_refresh_replaces_snapshot() {
    let mut cache = filled_cache();
    assert!(cache.refresh(Ok((catalog(&["Only"]), b"new".to_vec()))).is_ok());
    assert_eq!(cache.packages().len(), 1);
    assert_eq!(cache.all_packages(), &b"new".to_vec());
}

#[test]
fn auto_update_is_idempotent() {
    let mut cache = Cache::new("http://h".to_string());
    assert_eq!(cache.max_age(), 150);
    let t = Cache::enable_auto_update(&mut cache, 60).expect("first start hands a token");
    assert_eq!(cache.cache_duration, Some(60));
    assert_eq!(cache.max_age(), 30);
    assert!(Cache::enable_auto_update(&mut cache, 10).is_none());
    assert_eq!(cache.cache_duration, Some(60));
    assert!(!t.is_cancelled());
    Cache::disable_auto_update(&mut cache);
    assert!(t.is_cancelled());
    Cache::disable_auto_update(&mut cache);
    let t2 = Cache::enable_auto_update(&mut cache, 20).expect("restart hands a token");
    assert!(!t2.is_cancelled());
    assert_eq!(cache.max_age(), 10);
}
