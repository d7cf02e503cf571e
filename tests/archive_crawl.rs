use std::io::{Cursor, Read, Write};
use thunderget::archive::{
    download_path, escape_markup, is_payload_name, make_manifest, make_payload_path, transcode_bytes, Nupkg,
    TranscodeError,
};
use thunderget::crawl::{make_partition_url, Discovery, COMMUNITY_LIST_URL};
use thunderget::inflight::{InFlight, Step};
use thunderget::model::{Pagination, TSCommunity, TSCommunityList};
use thunderget::service::service_resources;
use zip::write::SimpleFileOptions;
use zip::{ZipArchive, ZipWriter};

fn source_zip(entries: &[(&str, &[u8])]) -> Vec<u8> {
    let mut w = ZipWriter::new(Cursor::new(Vec::new()));
    for (name, data) in entries {
        w.start_file(*name, SimpleFileOptions::default()).unwrap();
        w.write_all(data).unwrap();
    }
    w.finish().unwrap().into_inner()
}

fn entries_of(bytes: Vec<u8>) -> Vec<(String, Vec<u8>)> {
    let mut a = ZipArchive::new(Cursor::new(bytes)).unwrap();
    let mut out = Vec::new();
    for i in 0..a.len() {
        let mut f = a.by_index(i).unwrap();
        let mut d = Vec::new();
        f.read_to_end(&mut d).unwrap();
        out.push((f.name().to_string(), d));
    }
    out
}

#[test]
fn package_keeps_payload_and_manifest_only() {
    let src = source_zip(&[
        ("README.md", b"readme"),
        ("plugins/deep/Mod.dll", b"MZ-mod"),
        ("icon.png", b"png"),
        ("Helper.dll", b"MZ-helper"),
        ("src/Mod.cs", b"class Mod {}"),
        ("info.json", b"{}"),
    ]);
    let out = transcode_bytes(src, "Team-Mod", "1.2.3", "A <mod> & more").ok().unwrap();
    let e = entries_of(out);
    let names: Vec<&str> = e.iter().map(|(n, _)| n.as_str()).collect();
    assert_eq!(names, vec!["lib/netstandard2.0/Mod.dll", "lib/netstandard2.0/Helper.dll", "Team-Mod.nuspec"]);
    assert_eq!(e[0].1, b"MZ-mod".to_vec());
    assert_eq!(e[1].1, b"MZ-helper".to_vec());
    let manifest = String::from_utf8(e[2].1.clone()).unwrap();
    assert_eq!(manifest, make_manifest("Team-Mod", "1.2.3", "A <mod> & more"));
    assert!(manifest.contains("<id>Team-Mod</id>"));
    assert!(manifest.contains("<version>1.2.3</version>"));
    assert!(manifest.contains("<description>A &lt;mod&gt; &amp; more</description>"));
}

#[test]
fn archive_without_payload_gives_manifest_only() {
    let src = source_zip(&[("readme.txt", b"hi")]);
    let e = entries_of(transcode_bytes(src, "A-B", "0.0.1", "d").ok().unwrap());
    assert_eq!(e.len(), 1);
    assert_eq!(e[0].0, "A-B.nuspec");
}

#[test]
fn transcoding_twice_gives_same_entries() {
    let src = source_zip(&[("x/A.dll", b"a"), ("B.txt", b"b")]);
    let a = entries_of(transcode_bytes(src.clone(), "P", "1", "d").ok().unwrap());
    let b = entries_of(transcode_bytes(src, "P", "1", "d").ok().unwrap());
    assert_eq!(a, b);
}

#[test]
fn unreadable_archive_is_an_error() {
    match transcode_bytes(b"not a zip".to_vec(), "P", "1", "d") {
        Err(TranscodeError::Archive(_)) => {}
        _ => panic!("expected an archive error"),
    }
}

#[test]
fn overlong_entry_name_is_an_error() {
    let src = source_zip(&[("A.dll", b"a")]);
    let id = "x".repeat(20000);
    match transcode_bytes(src, &id, "1", "d") {
        Err(TranscodeError::NameTooLong(n)) => assert_eq!(n, format!("{id}.nuspec")),
        _ => panic!("expected a name error"),
    }
}

#[test]
fn clashing_payload_names_are_an_error() {
    let src = source_zip(&[("a/Same.dll", b"1"), ("b/Same.dll", b"2")]);
    assert!(transcode_bytes(src, "P", "1", "d").is_err());
}

#[test]
fn payload_paths_and_names() {
    assert_eq!(make_payload_path("BepInEx/plugins/Mod.dll"), "lib/netstandard2.0/Mod.dll");
    assert_eq!(make_payload_path("Mod.dll"), "lib/netstandard2.0/Mod.dll");
    assert!(is_payload_name("x/y.dll"));
    assert!(!is_payload_name("x/y.dll.mdb"));
    assert!(!is_payload_name("Y.DLL"));
    assert_eq!(escape_markup("a&b<c>d\"e'f"), "a&amp;b&lt;c&gt;d&quot;e&apos;f");
    assert_eq!(escape_markup(""), "");
    assert_eq!(Nupkg::in_dir("nupkgs", "Team-Mod", "1.0.0").path_str(), "nupkgs/Team-Mod.1.0.0.nupkg");
    assert_eq!(download_path("nupkgs", "Team-Mod", "1.0.0"), "nupkgs/Team-Mod.1.0.0.zip");
}

fn page(ids: &[&str], next: Option<&str>) -> TSCommunityList {
    TSCommunityList {
        pagination: Pagination { next_link: next.map(|n| n.to_string()) },
        results: ids.iter().map(|i| TSCommunity { identifier: i.to_string() }).collect(),
    }
}

#[test]
fn discovery_follows_two_pages_then_stops() {
    let mut d = Discovery::new();
    let mut fetched = Vec::new();
    let mut pages = vec![page(&["riskofrain2", "valheim"], Some("https://next/2")), page(&["lethal-company"], None)].into_iter();
    while let Some(url) = d.next_page() {
        fetched.push(url);
        d.record_page(pages.next().expect("asked for more pages than upstream has"));
    }
    assert_eq!(fetched, vec![COMMUNITY_LIST_URL.to_string(), "https://next/2".to_string()]);
    assert_eq!(d.communities(), &vec!["riskofrain2", "valheim", "lethal-company"]);
    assert_eq!(
        d.partition_urls(),
        vec![
            "https://thunderstore.io/c/riskofrain2/api/v1/package/",
            "https://thunderstore.io/c/valheim/api/v1/package/",
            "https://thunderstore.io/c/lethal-company/api/v1/package/",
        ]
    );
    assert_eq!(make_partition_url("x"), "https://thunderstore.io/c/x/api/v1/package/");
}

#[test]
fn one_download_for_requests_in_sequence() {
    let mut g = InFlight::new();
    let key = "Team-Mod.1.0.0".to_string();
    assert!(g.begin(&key, false) == Step::Download);
    g.finish(&key);
    assert!(g.begin(&key, true) == Step::Ready);
    assert!(g.begin(&key, true) == Step::Ready);
}

#[test]
fn one_download_for_concurrent_requests() {
    let mut g = InFlight::new();
    let key = "Team-Mod.1.0.0".to_string();
    let other = "Other.2.0.0".to_string();
    assert!(g.begin(&key, false) == Step::Download);
    assert!(g.begin(&key, false) == Step::Wait);
    assert!(g.begin(&other, false) == Step::Download);
    g.finish(&key);
    assert!(g.begin(&key, true) == Step::Ready);
    assert!(g.begin(&other, false) == Step::Wait);
    g.finish(&key);
    g.finish(&other);
    assert!(g.begin(&other, false) == Step::Download);
}

#[test]
fn service_index_lists_resources() {
    let r = service_resources("http://h");
    let got: Vec<(String, String)> = r.into_iter().map(|x| (x.id, x.res_type)).collect();
    let want = vec![
        ("http://h/nuget/v3/base", "PackageBaseAddress/3.0.0"),
        ("http://h/nuget/v3/search", "SearchQueryService"),
        ("http://h/nuget/v3/search", "SearchQueryService/3.0.0-beta"),
        ("http://h/nuget/v3/search", "SearchQueryService/3.0.0-rc"),
        ("http://h/nuget/v3/nullpublish", "PackagePublish/2.0.0"),
        ("http://h/nuget/v3/package", "RegistrationsBaseUrl"),
    ];
    let want: Vec<(String, String)> = want.into_iter().map(|(a, b)| (a.to_string(), b.to_string())).collect();
    assert_eq!(got, want);
}
