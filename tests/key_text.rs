use std::collections::hash_map::DefaultHasher;
use std::hash::{Hash, Hasher};
use thunderget::key::PackageKey;
use thunderget::text::{chars_of, contains_chars, ends_with_str, eq_ignore_case};

fn hash_of(k: &PackageKey) -> u64 {
    let mut h = DefaultHasher::new();
    k.hash(&mut h);
    h.finish()
}

#[test]
fn keys_equal_up_to_case() {
    let a = PackageKey::try_from("Foo.Bar".to_string()).ok().unwrap();
    let b = PackageKey::try_from("fOO.bAR".to_string()).ok().unwrap();
    assert!(a == b);
    assert_eq!(hash_of(&a), hash_of(&b));
    assert_eq!(a.as_str(), "Foo.Bar");
    assert_eq!(b.as_str(), "fOO.bAR");
}

#[test]
fn keys_differ_by_content() {
    let a = PackageKey::try_from("Foo.Bar".to_string()).ok().unwrap();
    let b = PackageKey::try_from("Foo.Baz".to_string()).ok().unwrap();
    assert!(a != b);
    let c = PackageKey::try_from("Foo.Ba".to_string()).ok().unwrap();
    assert!(a != c);
}

#[test]
fn non_ascii_name_is_refused() {
    let r = PackageKey::try_from("Föö".to_string());
    match r {
        Ok(_) => panic!("a non-ASCII name gave a key"),
        Err(e) => assert_eq!(e.0, "Föö"),
    }
    assert!(PackageKey::try_from(String::new()).is_ok());
}

#[test]
fn hash_matches_hash_of_folded_bytes() {
    let a = PackageKey::try_from("MiXeD".to_string()).ok().unwrap();
    let mut h = DefaultHasher::new();
    for b in b"mixed" {
        h.write_u8(*b);
    }
    h.write_u8(0xff);
    assert_eq!(hash_of(&a), h.finish());
}

#[test]
fn key_hash_bytes_are_folded_then_terminated() {
    let k = PackageKey::try_from("AbZ".to_string()).ok().unwrap();
    assert_eq!(k.len(), 3);
    let got: Vec<u8> = (0..=3).map(|i| k.hash_byte(i)).collect();
    assert_eq!(got, vec![b'a', b'b', b'z', 0xff]);
}

#[test]
fn substring_and_suffix_tests() {
    let hay = chars_of("bepinex-pack");
    assert!(contains_chars(&hay, &chars_of("pinex")));
    assert!(contains_chars(&hay, &chars_of("")));
    assert!(contains_chars(&hay, &chars_of("bepinex-pack")));
    assert!(!contains_chars(&hay, &chars_of("bepinex-pack!")));
    assert!(!contains_chars(&hay, &chars_of("xp")));
    assert!(!contains_chars(&hay, &chars_of("pé")));
    assert!(contains_chars(&chars_of(""), &chars_of("")));
    assert!(ends_with_str("lib/a.dll", ".dll"));
    assert!(!ends_with_str("lib/a.DLL", ".dll"));
    assert!(!ends_with_str("dll", ".dll"));
    assert!(eq_ignore_case("ABC", "abc"));
    assert!(!eq_ignore_case("ABC", "abd"));
    assert!(!eq_ignore_case("ABC", "ab"));
}
