//! Building the catalog from the partitions' package lists.
use vstd::prelude::*;
use vstd::utf8::is_ascii_chars;
use crate::model::{NugetPackage, PackageView, TSPackage, TSPackageView};
use crate::project::project;
use crate::index::{add_to_index, empty_index, find_lower, hash_name, index_covers, name_hash, NameIndex};
use crate::key::PackageKey;
use crate::text::{chars_of, lower_of, lowercase};

verus! {

/// Why a catalog could not be built from what upstream listed.
pub enum BuildError {
    /// A package name held a character outside ASCII.
    NonAscii(String),
    /// A package listed no release.
    NoReleases(String),
}

/// The packages of all partitions, partition after partition.
pub open spec fn flatten(parts: Seq<Seq<TSPackageView>>) -> Seq<TSPackageView>
    decreases parts.len(),
{
    if parts.len() == 0 {
        Seq::empty()
    } else {
        flatten(parts.drop_last()) + parts.last()
    }
}

/// The view of the partitions' lists.
pub open spec fn parts_view(parts: Seq<Vec<TSPackage>>) -> Seq<Seq<TSPackageView>> {
    parts.map_values(|p: Vec<TSPackage>| p@.map_values(|x: TSPackage| x@))
}

/// A package that cannot be served: its name is not ASCII or it has no release.
pub open spec fn malformed(p: TSPackageView) -> bool {
    !is_ascii_chars(p.full_name) || p.versions.len() == 0
}

/// The package at `i` has a name that an earlier one already has, once both are lowercased.
pub open spec fn seen_before(s: Seq<TSPackageView>, i: int) -> bool {
    exists|j: int| 0 <= j < i && lower_of(#[trigger] s[j].full_name) == lower_of(s[i].full_name)
}

/// The packages kept: of those with the same name up to case, the first.
pub open spec fn retained(s: Seq<TSPackageView>) -> Seq<TSPackageView>
    decreases s.len(),
{
    if s.len() == 0 {
        Seq::empty()
    } else if seen_before(s, s.len() - 1) {
        retained(s.drop_last())
    } else {
        retained(s.drop_last()).push(s.last())
    }
}

/// The catalog served for the packages `s` under `base`.
pub open spec fn catalog_of(s: Seq<TSPackageView>, base: Seq<char>) -> Seq<PackageView> {
    retained(s).map_values(|p: TSPackageView| project(p, base))
}

/// The error reported for malformed package `p`.
pub open spec fn error_for(p: TSPackageView, e: BuildError) -> bool {
    if !is_ascii_chars(p.full_name) {
        e matches BuildError::NonAscii(n) && n@ == p.full_name
    } else {
        e matches BuildError::NoReleases(n) && n@ == p.full_name
    }
}

/// Some name among the first `n` of `s` lowercases to `q`.
pub open spec fn lowers_among(s: Seq<TSPackageView>, n: int, q: Seq<char>) -> bool {
    exists|j: int| 0 <= j < n && lower_of(#[trigger] s[j].full_name) == q
}

/// The names kept lowercase to the same names as those of all packages, and
/// no two kept names lowercase alike.
pub proof fn lemma_retained(s: Seq<TSPackageView>)
    ensures
        forall|q: Seq<char>|
            lowers_among(s, s.len() as int, q) <==> lowers_among(retained(s), retained(s).len() as int, q),
        forall|a: int, b: int|
            0 <= a < b < retained(s).len() ==> lower_of(retained(s)[a].full_name) != lower_of(
                retained(s)[b].full_name,
            ),
        retained(s).len() <= s.len(),
    decreases s.len(),
{
    if s.len() > 0 {
        let t = s.drop_last();
        lemma_retained(t);
        let rt = retained(t);
        assert(t.len() == s.len() - 1);
        assert(seen_before(s, s.len() - 1) ==> retained(s) == rt);
        assert(!seen_before(s, s.len() - 1) ==> retained(s) == rt.push(s.last()));
        assert forall|q: Seq<char>|
            lowers_among(s, s.len() as int, q) <==> lowers_among(retained(s), retained(s).len() as int, q) by {
            if lowers_among(s, s.len() as int, q) {
                let j = choose|j: int| 0 <= j < s.len() && lower_of(#[trigger] s[j].full_name) == q;
                if j < s.len() - 1 {
                    assert(t[j] == s[j]);
                    assert(lowers_among(t, t.len() as int, q));
                    let k = choose|k: int| 0 <= k < rt.len() && lower_of(#[trigger] rt[k].full_name) == q;
                    assert(retained(s)[k] == rt[k]);
                } else if seen_before(s, s.len() - 1) {
                    let i = choose|i: int|
                        0 <= i < s.len() - 1 && lower_of(#[trigger] s[i].full_name) == lower_of(
                            s[s.len() - 1].full_name,
                        );
                    assert(t[i] == s[i]);
                    assert(lowers_among(t, t.len() as int, q));
                    let k = choose|k: int| 0 <= k < rt.len() && lower_of(#[trigger] rt[k].full_name) == q;
                } else {
                    assert(retained(s)[rt.len() as int] == s.last());
                }
            }
            if lowers_among(retained(s), retained(s).len() as int, q) {
                let k = choose|k: int|
                    0 <= k < retained(s).len() && lower_of(#[trigger] retained(s)[k].full_name) == q;
                if k < rt.len() {
                    assert(retained(s)[k] == rt[k]);
                    assert(lower_of(rt[k].full_name) == q);
                    assert(lowers_among(rt, rt.len() as int, q));
                    assert(lowers_among(t, t.len() as int, q));
                    let j = choose|j: int| 0 <= j < t.len() && lower_of(#[trigger] t[j].full_name) == q;
                    assert(s[j] == t[j]);
                } else {
                    assert(s[s.len() - 1] == retained(s)[k]);
                }
            }
        }
        if !seen_before(s, s.len() - 1) {
            assert forall|a: int, b: int|
                0 <= a < b < retained(s).len() implies lower_of(retained(s)[a].full_name) != lower_of(
                    retained(s)[b].full_name,
                ) by {
                if b == rt.len() {
                    let q = lower_of(retained(s)[a].full_name);
                    assert(retained(s)[a] == rt[a]);
                    assert(lower_of(rt[a].full_name) == q);
                    assert(lowers_among(rt, rt.len() as int, q));
                    assert(lowers_among(t, t.len() as int, q));
                    let j = choose|j: int| 0 <= j < t.len() && lower_of(#[trigger] t[j].full_name) == q;
                    assert(s[j] == t[j]);
                    assert(retained(s)[b] == s.last());
                } else {
                    assert(retained(s)[a] == rt[a]);
                    assert(retained(s)[b] == rt[b]);
                }
            }
        }
    }
}

/// The first package of each name (up to lowercase) is kept.
pub proof fn lemma_first_kept(s: Seq<TSPackageView>, i: int)
    requires
        0 <= i < s.len(),
        !seen_before(s, i),
    ensures
        retained(s).contains(s[i]),
    decreases s.len(),
{
    let t = s.drop_last();
    if i == s.len() - 1 {
        assert(retained(s) == retained(t).push(s.last()));
        assert(retained(s)[retained(t).len() as int] == s[i]);
    } else {
        assert forall|j: int| 0 <= j < i implies #[trigger] t[j] == s[j] by {}
        assert(t[i] == s[i]);
        assert(!seen_before(t, i));
        lemma_first_kept(t, i);
        let k = choose|k: int| 0 <= k < retained(t).len() && retained(t)[k] == s[i];
        assert(retained(s)[k] == retained(t)[k]);
    }
}

/// A catalog that can be served: every package has an ASCII name and a release,
/// its lowercase name is what `to_lowercase` makes of its name, and no two
/// packages share a lowercase name.
pub open spec fn catalog_wf(s: Seq<PackageView>) -> bool {
    &&& forall|k: int|
        0 <= k < s.len() ==> {
            &&& (#[trigger] s[k]).versions.len() > 0
            &&& s[k].full_name_lower == lower_of(s[k].full_name)
            &&& is_ascii_chars(s[k].full_name)
        }
    &&& forall|a: int, b: int|
        0 <= a < b < s.len() ==> (#[trigger] s[a]).full_name_lower != (#[trigger] s[b]).full_name_lower
}

/// The views of referenced upstream packages.
pub open spec fn ref_views(s: Seq<&TSPackage>) -> Seq<TSPackageView> {
    s.map_values(|p: &TSPackage| p@)
}

/// The views of served registrations.
pub open spec fn package_views(s: Seq<NugetPackage>) -> Seq<PackageView> {
    s.map_values(|p: NugetPackage| p@)
}

/// All packages of all partitions, in order.
pub open spec fn flat_of(parts: &Vec<Vec<TSPackage>>) -> Seq<TSPackageView> {
    flatten(parts_view(parts@))
}

/// References to the packages of all partitions, partition after partition.
fn flatten_refs<'a>(parts: &'a Vec<Vec<TSPackage>>) -> (r: Vec<&'a TSPackage>)
    ensures
        ref_views(r@) == flat_of(parts),
{
    let ghost pv = parts_view(parts@);
    let mut r: Vec<&'a TSPackage> = Vec::new();
    let mut i: usize = 0;
    while i < parts.len()
        invariant
            i <= parts.len(),
            pv == parts_view(parts@),
            ref_views(r@) == flatten(pv.subrange(0, i as int)),
        decreases parts.len() - i,
    {
        let part = &parts[i];
        let ghost before = ref_views(r@);
        assert(pv[i as int] == part@.map_values(|x: TSPackage| x@));
        let mut j: usize = 0;
        while j < part.len()
            invariant
                j <= part.len(),
                part == parts@[i as int],
                i < parts.len(),
                pv == parts_view(parts@),
                before == flatten(pv.subrange(0, i as int)),
                pv[i as int] == part@.map_values(|x: TSPackage| x@),
                ref_views(r@) == before + pv[i as int].subrange(0, j as int),
            decreases part.len() - j,
        {
            let ghost r0 = r@;
            r.push(&part[j]);
            assert(r@ == r0.push(&part@[j as int]));
            assert(ref_views(r@) =~= ref_views(r0).push(part@[j as int]@));
            j = j + 1;
            assert(ref_views(r@) =~= before + pv[i as int].subrange(0, j as int));
        }
        assert(pv[i as int].subrange(0, j as int) =~= pv[i as int]);
        i = i + 1;
        assert(pv.subrange(0, i as int).drop_last() =~= pv.subrange(0, i - 1));
    }
    assert(pv.subrange(0, parts.len() as int) =~= pv);
    r
}

/// The packages served, with an index of their positions by name hash.
pub struct Catalog {
    packages: Vec<NugetPackage>,
    lowers: Vec<Vec<char>>,
    index: NameIndex,
}

impl View for Catalog {
    type V = Seq<PackageView>;

    closed spec fn view(&self) -> Seq<PackageView> {
        package_views(self.packages@)
    }
}

impl Catalog {
    /// The catalog can be served, and its index lists every package.
    pub open spec fn wf(&self) -> bool {
        catalog_wf(self@) && self.indexed()
    }

    /// The index lists every package in the bucket of its name's hash, and
    /// the lowercase name of each package is kept as characters beside it.
    pub closed spec fn indexed(&self) -> bool {
        &&& index_covers(self.index@, self.packages@)
        &&& self.lowers.len() == self.packages.len()
        &&& forall|i: int| 0 <= i < self.lowers.len() ==> (#[trigger] self.lowers@[i])@ == self.packages@[i]@.full_name_lower
    }

    /// The lowercase name of package `i`, as characters.
    pub fn lower_chars(&self, i: usize) -> (r: &Vec<char>)
        requires
            self.wf(),
            i < self@.len(),
        ensures
            r@ == self@[i as int].full_name_lower,
    {
        assert(self@[i as int] == self.packages@[i as int]@);
        &self.lowers[i]
    }

    /// A catalog with no package.
    pub fn new() -> (r: Catalog)
        ensures
            r.wf(),
            r@ == Seq::<PackageView>::empty(),
    {
        let r = Catalog { packages: Vec::new(), lowers: Vec::new(), index: empty_index() };
        assert(r@ =~= Seq::<PackageView>::empty());
        r
    }

    /// The packages, in catalog order.
    pub fn packages(&self) -> (r: &Vec<NugetPackage>)
        ensures
            package_views(r@) == self@,
    {
        &self.packages
    }

    /// The package whose lowercase name is that of `key`.
    pub fn get(&self, key: &PackageKey) -> (r: Option<&NugetPackage>)
        requires
            self.wf(),
        ensures
            r is Some <==> exists|k: int| 0 <= k < self@.len() && lower_of(self@[k].full_name) == lower_of(key@),
            r matches Some(p) ==> exists|k: int|
                0 <= k < self@.len() && self@[k] == p@ && lower_of(p@.full_name) == lower_of(key@),
    {
        let lower = lowercase(key.as_str());
        let h = hash_name(lower.as_str());
        let ghost pv = self@;
        proof {
            assert forall|k: int| 0 <= k < pv.len() implies (lower_of(pv[k].full_name) == lower@ <==> (
            #[trigger] self.packages@[k])@.full_name_lower == lower@) by {
                assert(pv[k] == self.packages@[k]@);
            }
        }
        match find_lower(&self.packages, &self.index, &lower, h) {
            Some(i) => {
                assert(pv[i as int] == self.packages@[i as int]@);
                Some(&self.packages[i])
            },
            None => None,
        }
    }
}

/// The catalog for the packages of all partitions `parts`, with addresses
/// under `base_url`. Of packages whose names are equal once lowercased the
/// first is kept; a package whose name is not ASCII, or that has no release,
/// fails the whole build, and the first such package is the one reported.
pub fn build_catalog(parts: &Vec<Vec<TSPackage>>, base_url: &str) -> (r: Result<Catalog, BuildError>)
    ensures
        (r is Ok) <==> (forall|k: int| 0 <= k < flat_of(parts).len() ==> !malformed(flat_of(parts)[k])),
        r matches Ok(c) ==> c@ == catalog_of(flat_of(parts), base_url@) && c.wf(),
        r matches Err(e) ==> exists|k: int|
            0 <= k < flat_of(parts).len() && malformed(flat_of(parts)[k]) && (forall|j: int|
                0 <= j < k ==> !malformed(flat_of(parts)[j])) && error_for(flat_of(parts)[k], e),
{
    let flat = flatten_refs(parts);
    let ghost fv = flat_of(parts);
    let mut out: Vec<NugetPackage> = Vec::new();
    let mut lowers: Vec<Vec<char>> = Vec::new();
    let mut index = empty_index();
    let mut i: usize = 0;
    while i < flat.len()
        invariant
            index_covers(index@, out@),
            lowers.len() == out.len(),
            forall|m: int| 0 <= m < lowers.len() ==> (#[trigger] lowers@[m])@ == out@[m]@.full_name_lower,
            i <= flat.len(),
            fv == flat_of(parts),
            ref_views(flat@) == fv,
            forall|k: int| 0 <= k < i ==> !malformed(fv[k]),
            package_views(out@) == catalog_of(fv.subrange(0, i as int), base_url@),
            catalog_wf(package_views(out@)),
        decreases flat.len() - i,
    {
        let p: &TSPackage = flat[i];
        assert(p@ == fv[i as int]);
        if !p.full_name.as_str().is_ascii() {
            return Err(BuildError::NonAscii(p.full_name.clone()));
        }
        if p.versions.len() == 0 {
            return Err(BuildError::NoReleases(p.full_name.clone()));
        }
        let lower = lowercase(p.full_name.as_str());
        let h = hash_name(lower.as_str());
        let seen = match find_lower(&out, &index, &lower, h) {
            Some(_) => true,
            None => false,
        };
        let ghost pre = fv.subrange(0, i as int);
        let ghost pre1 = fv.subrange(0, i + 1);
        let ghost old_out = out@;
        proof {
            lemma_retained(pre);
            assert(pre1.drop_last() =~= pre);
            assert(pre1.last() == p@);
            let rp = retained(pre);
            assert(catalog_of(pre, base_url@).len() == rp.len());
            assert(package_views(out@).len() == out@.len());
            assert(out@.len() == rp.len());
            assert forall|m: int| 0 <= m < out.len() implies (#[trigger] out@[m])@.full_name_lower == lower_of(
                rp[m].full_name,
            ) by {
                assert(package_views(out@)[m] == catalog_of(pre, base_url@)[m]);
            }
            if seen_before(pre1, i as int) {
                let j = choose|j: int|
                    0 <= j < i && lower_of(#[trigger] pre1[j].full_name) == lower_of(pre1[i as int].full_name);
                assert(pre[j] == pre1[j]);
                assert(lowers_among(pre, pre.len() as int, lower@));
                assert(lowers_among(rp, rp.len() as int, lower@));
                let m = choose|m: int| 0 <= m < rp.len() && lower_of(#[trigger] rp[m].full_name) == lower@;
                assert(out@[m]@.full_name_lower == lower@);
            }
            if seen {
                let m = choose|m: int| 0 <= m < out.len() && (#[trigger] out@[m])@.full_name_lower == lower@;
                assert(lower_of(rp[m].full_name) == lower@);
                assert(lowers_among(rp, rp.len() as int, lower@));
                assert(lowers_among(pre, pre.len() as int, lower@));
                let j = choose|j: int| 0 <= j < pre.len() && lower_of(#[trigger] pre[j].full_name) == lower@;
                assert(pre1[j] == pre[j]);
                assert(seen_before(pre1, i as int));
            }
        }
        if !seen {
            let np = NugetPackage::from_upstream(p, base_url);
            let ghost npv = np@;
            let ghost old_index = index@;
            let n = out.len();
            out.push(np);
            lowers.push(chars_of(lower.as_str()));
            add_to_index(&mut index, h, n);
            proof {
                assert forall|m: int| 0 <= m < out.len() implies index@.contains_key(
                    name_hash(#[trigger] out@[m]@.full_name_lower),
                ) && index@[name_hash(out@[m]@.full_name_lower)]@.contains(m as usize) by {
                    if m < n {
                        assert(out@[m] == old_out[m]);
                        let hm = name_hash(old_out[m]@.full_name_lower);
                        assert(old_index.contains_key(hm) && old_index[hm]@.contains(m as usize));
                        if hm == h {
                            let j = choose|j: int| 0 <= j < old_index[hm]@.len() && old_index[hm]@[j] == m as usize;
                            assert(index@[h]@[j] == m as usize);
                        } else {
                            assert(old_index.remove(h).contains_key(hm));
                            assert(index@.remove(h)[hm] == index@[hm]);
                            assert(old_index.remove(h)[hm] == old_index[hm]);
                        }
                    } else {
                        assert(out@[m]@.full_name_lower == lower@);
                        assert(index@[h]@[index@[h]@.len() - 1] == n);
                    }
                }
            }
            proof {
                let rp = retained(pre);
                assert(pre1.len() - 1 == i);
                assert(pre1.drop_last() =~= pre);
                assert(retained(pre1) == rp.push(p@));
                assert(catalog_of(pre1, base_url@) =~= catalog_of(pre, base_url@).push(project(p@, base_url@)));
                assert(package_views(out@) =~= package_views(old_out).push(npv));
                assert(!malformed(p@));
                assert(npv.full_name_lower == lower@);
                assert forall|m: int| 0 <= m < old_out.len() implies (#[trigger] package_views(
                    old_out,
                )[m]).full_name_lower != lower@ by {
                    assert(package_views(old_out)[m] == old_out[m]@);
                }
            }
        } else {
            proof {
                assert(pre1.len() - 1 == i);
                assert(pre1.drop_last() =~= pre);
                assert(retained(pre1) == retained(pre));
            }
        }
        i = i + 1;
    }
    assert(fv.subrange(0, flat.len() as int) =~= fv);
    Ok(Catalog { packages: out, lowers, index })
}

} // verus!
