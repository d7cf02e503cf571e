//! Properties that relate several calls of the library, proved over the
//! specifications that the functions' contracts use.
use vstd::prelude::*;
use crate::archive::{
    base_name, is_payload, last_slash, manifest_entry, manifest_name, package_entries, payload_entry,
    payload_names, payload_path,
};
use crate::catalog::{catalog_of, flat_of, lemma_first_kept, lemma_retained, parts_view, retained, seen_before};
use crate::project::project;
use crate::inflight::{step, Step};
use crate::key::PackageKey;
use crate::model::{PackageView, TSPackage, TSPackageView};
use crate::search::{matching, needle_of, search_hits, skipped, taken};
use crate::text::{contains, eq_folded, has_suffix, lower_of, occurs_at};
use vstd::std_specs::cmp::PartialEqSpec;

verus! {

/// Keys whose names are equal up to ASCII case are equal keys, and they feed
/// the same bytes to a hasher.
pub proof fn lemma_folded_names_same_key(a: PackageKey, b: PackageKey)
    requires
        eq_folded(a@, b@),
    ensures
        a.eq_spec(&b),
        a.hash_stream() == b.hash_stream(),
{
}

/// Building is deterministic: partition lists with the same content give the
/// same catalog.
pub proof fn lemma_build_deterministic(
    first: &Vec<Vec<TSPackage>>,
    second: &Vec<Vec<TSPackage>>,
    base: Seq<char>,
)
    requires
        parts_view(first@) == parts_view(second@),
    ensures
        catalog_of(flat_of(first), base) == catalog_of(flat_of(second), base),
{
}

/// Of upstream packages whose names are equal up to lowercase, the catalog
/// keeps exactly one record: the one made of the first of them.
pub proof fn lemma_duplicates_keep_first(s: Seq<TSPackageView>, base: Seq<char>, i: int)
    requires
        0 <= i < s.len(),
        !seen_before(s, i),
    ensures
        exists|k: int| 0 <= k < catalog_of(s, base).len() && catalog_of(s, base)[k] == project(s[i], base),
        forall|a: int, b: int|
            0 <= a < b < catalog_of(s, base).len() ==> catalog_of(s, base)[a].full_name_lower != catalog_of(
                s,
                base,
            )[b].full_name_lower,
{
    lemma_first_kept(s, i);
    lemma_retained(s);
    let r = retained(s);
    let k = choose|k: int| 0 <= k < r.len() && r[k] == s[i];
    assert(catalog_of(s, base)[k] == project(s[i], base));
    assert forall|a: int, b: int| 0 <= a < b < catalog_of(s, base).len() implies catalog_of(s, base)[a].full_name_lower
        != catalog_of(s, base)[b].full_name_lower by {
        assert(catalog_of(s, base)[a] == project(r[a], base));
        assert(catalog_of(s, base)[b] == project(r[b], base));
    }
}

/// Pages tile the search hits: the page of `n` items at `a` followed by the
/// page of `n` items at `a + n` is the page of `2n` items at `a`, so the two
/// pages neither overlap nor leave a gap.
pub proof fn lemma_pages_tile(s: Seq<PackageView>, text: Option<Seq<char>>, a: usize, n: usize)
    requires
        n >= 1,
        a + 2 * n <= usize::MAX,
    ensures
        search_hits(s, text, Some(a), Some(n)) + search_hits(s, text, Some((a + n) as usize), Some(n))
            == search_hits(s, text, Some(a), Some((2 * n) as usize)),
{
    let m = matching(s, needle_of(text));
    let b = (a + n) as usize;
    let n2 = (2 * n) as usize;
    if a < m.len() {
        if b < m.len() {
            assert(skipped(m, Some(b)) =~= skipped(m, Some(a)).subrange(n as int, m.len() - a));
        }
    }
    assert(search_hits(s, text, Some(a), Some(n)) + search_hits(s, text, Some(b), Some(n))
        =~= search_hits(s, text, Some(a), Some(n2)));
}

/// Pages from the start cover all hits: skipping nothing and taking no limit
/// returns every matching package.
pub proof fn lemma_unpaged_is_all_hits(s: Seq<PackageView>, text: Option<Seq<char>>)
    ensures
        search_hits(s, text, Some(0), None) == matching(s, needle_of(text)),
        search_hits(s, text, None, None) == matching(s, needle_of(text)),
{
    let m = matching(s, needle_of(text));
    if 0 < m.len() {
        assert(m.subrange(0, m.len() as int) =~= m);
    }
}

proof fn lemma_matching_everything(s: Seq<PackageView>, needle: Option<Seq<char>>)
    requires
        needle is None || needle == Some(Seq::<char>::empty()),
    ensures
        matching(s, needle) == s,
    decreases s.len(),
{
    if s.len() > 0 {
        lemma_matching_everything(s.drop_last(), needle);
        if needle is Some {
            assert(s.last().full_name_lower.subrange(0, 0) =~= Seq::<char>::empty());
            assert(occurs_at(s.last().full_name_lower, Seq::<char>::empty(), 0));
        }
        assert(s.drop_last().push(s.last()) =~= s);
    }
}

/// A search with no text, skip or take returns the whole catalog in catalog
/// order; so does a text whose lowercase is empty (`lowercase` gives that for
/// the empty text).
pub proof fn lemma_search_all(s: Seq<PackageView>, text: Seq<char>)
    requires
        lower_of(text).len() == 0,
    ensures
        search_hits(s, None, None, None) == s,
        search_hits(s, Some(text), None, None) == s,
{
    lemma_matching_everything(s, None);
    assert(lower_of(text) =~= Seq::<char>::empty());
    lemma_matching_everything(s, Some(Seq::empty()));
}

/// Requests one after another: the first for a file that is not on disk
/// downloads it; once it is done, the next is served from disk and downloads
/// nothing.
pub proof fn lemma_one_download_in_sequence(busy: Set<Seq<char>>, key: Seq<char>)
    requires
        !busy.contains(key),
    ensures
        step(busy, key, false).0 == Step::Download,
        step(step(busy, key, false).1.remove(key), key, true).0 == Step::Ready,
        step(busy, key, false).1.remove(key) == busy,
{
    assert(busy.insert(key).remove(key) =~= busy);
}

/// Requests at the same time: while the first request produces the file, a
/// second one for the same file waits instead of downloading it again.
pub proof fn lemma_one_download_concurrently(busy: Set<Seq<char>>, key: Seq<char>)
    requires
        !busy.contains(key),
    ensures
        step(busy, key, false).0 == Step::Download,
        step(step(busy, key, false).1, key, false).0 == Step::Wait,
        step(step(busy, key, false).1, key, false).1 == step(busy, key, false).1,
{
}

proof fn lemma_last_slash(s: Seq<char>)
    ensures
        -1 <= last_slash(s) < s.len(),
        last_slash(s) >= 0 ==> s[last_slash(s)] == '/',
        forall|j: int| last_slash(s) < j < s.len() ==> s[j] != '/',
    decreases s.len(),
{
    if s.len() > 0 {
        let t = s.drop_last();
        lemma_last_slash(t);
        assert forall|j: int| last_slash(s) < j < s.len() implies s[j] != '/' by {
            if j < t.len() {
                assert(t[j] == s[j]);
            }
        }
        if last_slash(s) >= 0 && s.last() != '/' {
            assert(t[last_slash(t)] == s[last_slash(s)]);
        }
    }
}

proof fn lemma_payload_path_suffix(n: Seq<char>)
    requires
        is_payload(n),
    ensures
        has_suffix(payload_path(n), ".dll"@),
        has_suffix(base_name(n), ".dll"@),
        forall|k: int| 0 <= k < base_name(n).len() ==> base_name(n)[k] != '/',
        payload_path(n) == "lib/netstandard2.0/"@ + base_name(n),
{
    reveal_strlit(".dll");
    lemma_last_slash(n);
    let l = n.len();
    assert(n.subrange(l - 4, l as int) == ".dll"@);
    assert(n[l - 4] == n.subrange(l - 4, l as int)[0]);
    assert(n[l - 3] == n.subrange(l - 4, l as int)[1]);
    assert(n[l - 2] == n.subrange(l - 4, l as int)[2]);
    assert(n[l - 1] == n.subrange(l - 4, l as int)[3]);
    assert(last_slash(n) < l - 4);
    let p = payload_path(n);
    let b = base_name(n);
    assert(b.subrange(b.len() - 4, b.len() as int) =~= n.subrange(l - 4, l as int));
    assert(p.subrange(p.len() - 4, p.len() as int) =~= b.subrange(b.len() - 4, b.len() as int));
}

proof fn lemma_payload_names(names: Seq<Seq<char>>)
    ensures
        forall|k: int|
            0 <= k < payload_names(names).len() ==> is_payload(#[trigger] payload_names(names)[k])
                && exists|j: int| 0 <= j < names.len() && names[j] == payload_names(names)[k],
        forall|j: int|
            0 <= j < names.len() && is_payload(#[trigger] names[j]) ==> payload_names(names).contains(
                names[j],
            ),
    decreases names.len(),
{
    if names.len() > 0 {
        let t = names.drop_last();
        lemma_payload_names(t);
        let pt = payload_names(t);
        let p = payload_names(names);
        assert forall|k: int| 0 <= k < p.len() implies is_payload(#[trigger] p[k]) && exists|j: int|
            0 <= j < names.len() && names[j] == p[k] by {
            if k < pt.len() {
                assert(p[k] == pt[k]);
                let j = choose|j: int| 0 <= j < t.len() && t[j] == pt[k];
                assert(names[j] == t[j]);
            } else {
                assert(names[names.len() - 1] == p[k]);
            }
        }
        assert forall|j: int| 0 <= j < names.len() && is_payload(#[trigger] names[j]) implies p.contains(
            names[j],
        ) by {
            if j < t.len() {
                assert(t[j] == names[j]);
                assert(pt.contains(t[j]));
                let k = choose|k: int| 0 <= k < pt.len() && pt[k] == t[j];
                assert(p[k] == pt[k]);
            } else {
                assert(p[p.len() - 1] == names[j]);
            }
        }
    }
}

/// The package made of an archive holds exactly one manifest, as its last
/// entry; every other entry is made of an archive entry whose name ends with
/// `.dll`, keeps that ending, and is not the manifest. Every such archive
/// entry has its package entry.
pub proof fn lemma_package_contents(
    names: Seq<Seq<char>>,
    data: Map<Seq<char>, Seq<u8>>,
    id: Seq<char>,
    version: Seq<char>,
    description: Seq<char>,
)
    ensures
        package_entries(names, data, id, version, description).len() == payload_names(names).len() + 1,
        package_entries(names, data, id, version, description).last() == manifest_entry(
            id,
            version,
            description,
        ),
        forall|k: int|
            0 <= k < payload_names(names).len() ==> {
                let e = #[trigger] package_entries(names, data, id, version, description)[k];
                &&& has_suffix(e.0, ".dll"@)
                &&& exists|b: Seq<char>|
                    e.0 == "lib/netstandard2.0/"@ + b && has_suffix(b, ".dll"@) && forall|c: int|
                        0 <= c < b.len() ==> b[c] != '/'
                &&& e.0 != manifest_name(id)
                &&& exists|j: int|
                    0 <= j < names.len() && is_payload(names[j]) && e == payload_entry(names[j], data)
            },
        forall|j: int|
            0 <= j < names.len() && is_payload(#[trigger] names[j]) ==> package_entries(
                names,
                data,
                id,
                version,
                description,
            ).contains(payload_entry(names[j], data)),
{
    reveal_strlit(".dll");
    reveal_strlit(".nuspec");
    lemma_payload_names(names);
    let e = package_entries(names, data, id, version, description);
    let p = payload_names(names);
    assert forall|k: int| 0 <= k < p.len() implies {
        let x = #[trigger] e[k];
        &&& has_suffix(x.0, ".dll"@)
        &&& exists|b: Seq<char>|
            x.0 == "lib/netstandard2.0/"@ + b && has_suffix(b, ".dll"@) && forall|c: int|
                0 <= c < b.len() ==> b[c] != '/'
        &&& x.0 != manifest_name(id)
        &&& exists|j: int| 0 <= j < names.len() && is_payload(names[j]) && x == payload_entry(names[j], data)
    } by {
        assert(e[k] == payload_entry(p[k], data));
        assert(is_payload(p[k]));
        lemma_payload_path_suffix(p[k]);
        assert(e[k].0 == "lib/netstandard2.0/"@ + base_name(p[k]));
        let x = e[k].0;
        assert(x[x.len() - 1] == x.subrange(x.len() - 4, x.len() as int)[3]);
        let mn = manifest_name(id);
        assert(mn[mn.len() - 1] == 'c');
        let j = choose|j: int| 0 <= j < names.len() && names[j] == p[k];
    }
    assert forall|j: int| 0 <= j < names.len() && is_payload(#[trigger] names[j]) implies e.contains(
        payload_entry(names[j], data),
    ) by {
        let k = choose|k: int| 0 <= k < p.len() && p[k] == names[j];
        assert(e[k] == payload_entry(names[j], data));
    }
}

} // verus!
