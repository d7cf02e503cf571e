//! An index of served packages by the hash of their lowercase name, so that a
//! name is looked up among the packages of one hash bucket only.
use vstd::prelude::*;
use std::collections::HashMap;
use crate::model::NugetPackage;
use crate::text::chars_of;

verus! {

broadcast use vstd::std_specs::hash::group_hash_axioms;

/// The modulus of name hashes: a prime below 2^32.
pub const HASH_MOD: u64 = 4294967291;

/// The hash of a (lowercase) name: a polynomial in its characters, modulo `HASH_MOD`.
pub open spec fn name_hash(s: Seq<char>) -> u64
    decreases s.len(),
{
    if s.len() == 0 {
        0
    } else {
        ((name_hash(s.drop_last()) as int * 131 + s.last() as u32 as int) % (HASH_MOD as int)) as u64
    }
}

/// Positions of packages, by the hash of their lowercase name.
pub type NameIndex = HashMap<u64, Vec<usize>>;

/// Every package of `pk` is listed in the bucket of the hash of its lowercase name.
pub open spec fn index_covers(ix: Map<u64, Vec<usize>>, pk: Seq<NugetPackage>) -> bool {
    forall|m: int|
        0 <= m < pk.len() ==> ix.contains_key(name_hash(#[trigger] pk[m]@.full_name_lower))
            && ix[name_hash(pk[m]@.full_name_lower)]@.contains(m as usize)
}

/// The hash of a name.
pub fn hash_name(s: &str) -> (r: u64)
    ensures
        r == name_hash(s@),
{
    let v = chars_of(s);
    let mut h: u64 = 0;
    let mut i: usize = 0;
    while i < v.len()
        invariant
            i <= v.len(),
            h == name_hash(v@.subrange(0, i as int)),
            h < HASH_MOD,
        decreases v.len() - i,
    {
        assert(h * 131 <= (HASH_MOD - 1) * 131) by (nonlinear_arith)
            requires
                h < HASH_MOD,
        ;
        let code: u32 = v[i] as u32;
        h = (h * 131 + code as u64) % HASH_MOD;
        i = i + 1;
        assert(v@.subrange(0, i as int).drop_last() =~= v@.subrange(0, i - 1));
    }
    assert(v@.subrange(0, v.len() as int) =~= v@);
    h
}

/// An empty index.
pub fn empty_index() -> (r: NameIndex)
    ensures
        r@ == Map::<u64, Vec<usize>>::empty(),
{
    HashMap::new()
}

/// The position of the package whose lowercase name is `lower`, whose hash is `h`.
pub fn find_lower(pk: &Vec<NugetPackage>, ix: &NameIndex, lower: &String, h: u64) -> (r: Option<usize>)
    requires
        index_covers(ix@, pk@),
        h == name_hash(lower@),
    ensures
        r is None <==> !exists|m: int| 0 <= m < pk.len() && (#[trigger] pk@[m])@.full_name_lower == lower@,
        r matches Some(i) ==> i < pk.len() && pk@[i as int]@.full_name_lower == lower@,
{
    match ix.get(&h) {
        None => {
            proof {
                if exists|m: int| 0 <= m < pk.len() && (#[trigger] pk@[m])@.full_name_lower == lower@ {
                    let m = choose|m: int| 0 <= m < pk.len() && (#[trigger] pk@[m])@.full_name_lower == lower@;
                    assert(ix@.contains_key(name_hash(pk@[m]@.full_name_lower)));
                }
            }
            None
        },
        Some(bucket) => {
            let mut k: usize = 0;
            while k < bucket.len()
                invariant
                    k <= bucket.len(),
                    forall|j: int|
                        0 <= j < k ==> (#[trigger] bucket@[j]) >= pk.len() || pk@[bucket@[j] as int]@.full_name_lower
                            != lower@,
                decreases bucket.len() - k,
            {
                let i = bucket[k];
                if i < pk.len() && pk[i].items[0].full_name_lower == *lower {
                    return Some(i);
                }
                k = k + 1;
            }
            proof {
                if exists|m: int| 0 <= m < pk.len() && (#[trigger] pk@[m])@.full_name_lower == lower@ {
                    let m = choose|m: int| 0 <= m < pk.len() && (#[trigger] pk@[m])@.full_name_lower == lower@;
                    assert(ix@[h]@.contains(m as usize));
                    let j = choose|j: int| 0 <= j < bucket.len() && bucket@[j] == m as usize;
                    assert(bucket@[j] == m);
                }
            }
            None
        },
    }
}

/// Lists position `i` in the bucket of hash `h`.
pub fn add_to_index(ix: &mut NameIndex, h: u64, i: usize)
    ensures
        final(ix)@.remove(h) == old(ix)@.remove(h),
        final(ix)@.contains_key(h),
        final(ix)@[h]@ == (if old(ix)@.contains_key(h) {
            old(ix)@[h]@
        } else {
            Seq::empty()
        }).push(i),
{
    let mut bucket = match ix.remove(&h) {
        Some(b) => b,
        None => Vec::new(),
    };
    bucket.push(i);
    ix.insert(h, bucket);
    assert(ix@.remove(h) =~= old(ix)@.remove(h));
}

} // verus!
