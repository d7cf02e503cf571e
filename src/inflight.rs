//! The decision taken for each request of a package file: serve the cached
//! file, download and transcode it, or wait for the transcoding already under
//! way for the same release.
use vstd::prelude::*;

verus! {

/// What a request for a package file must do.
#[derive(PartialEq, Eq, Structural)]
pub enum Step {
    /// The file is on disk: serve it.
    Ready,
    /// Nobody produces the file yet: download and transcode it, then call `finish`.
    Download,
    /// Another request produces the file: wait for it and ask again.
    Wait,
}

/// The releases whose package file is being produced, by file name.
pub struct InFlight {
    keys: Vec<String>,
}

/// The decision for a request of `key` while the files `busy` are being
/// produced, and the files being produced afterwards.
pub open spec fn step(busy: Set<Seq<char>>, key: Seq<char>, cached: bool) -> (Step, Set<Seq<char>>) {
    if cached {
        (Step::Ready, busy)
    } else if busy.contains(key) {
        (Step::Wait, busy)
    } else {
        (Step::Download, busy.insert(key))
    }
}

/// The views of the listed keys.
pub open spec fn key_views(s: Seq<String>) -> Seq<Seq<char>> {
    s.map_values(|k: String| k@)
}

impl View for InFlight {
    type V = Set<Seq<char>>;

    closed spec fn view(&self) -> Set<Seq<char>> {
        key_views(self.keys@).to_set()
    }
}

impl InFlight {
    /// No key is listed twice.
    pub closed spec fn wf(&self) -> bool {
        forall|a: int, b: int| 0 <= a < b < self.keys.len() ==> self.keys@[a]@ != self.keys@[b]@
    }

    /// Nothing is being produced.
    pub fn new() -> (r: InFlight)
        ensures
            r.wf(),
            r@ == Set::<Seq<char>>::empty(),
    {
        let r = InFlight { keys: Vec::new() };
        assert(r@ =~= Set::<Seq<char>>::empty());
        r
    }

    fn position(&self, key: &String) -> (r: Option<usize>)
        ensures
            r is None <==> !self@.contains(key@),
            r matches Some(i) ==> i < self.keys.len() && self.keys@[i as int]@ == key@,
    {
        let mut i: usize = 0;
        while i < self.keys.len()
            invariant
                i <= self.keys.len(),
                forall|j: int| 0 <= j < i ==> self.keys@[j]@ != key@,
            decreases self.keys.len() - i,
        {
            if self.keys[i] == *key {
                assert(key_views(self.keys@)[i as int] == key@);
                return Some(i);
            }
            i = i + 1;
        }
        proof {
            if self@.contains(key@) {
                let j = choose|j: int| 0 <= j < self.keys.len() && key_views(self.keys@)[j] == key@;
                assert(self.keys@[j]@ == key@);
            }
        }
        None
    }

    /// The decision for a request of `key`; `cached` says whether its file is
    /// already on disk. A download is handed to one request only.
    pub fn begin(&mut self, key: &String, cached: bool) -> (r: Step)
        requires
            old(self).wf(),
        ensures
            final(self).wf(),
            (r, final(self)@) == step(old(self)@, key@, cached),
    {
        if cached {
            return Step::Ready;
        }
        match self.position(key) {
            Some(_) => Step::Wait,
            None => {
                let ghost k0 = self.keys@;
                proof {
                    assert forall|j: int| 0 <= j < k0.len() implies k0[j]@ != key@ by {
                        if k0[j]@ == key@ {
                            assert(key_views(k0)[j] == key@);
                            assert(key_views(k0).to_set().contains(key@));
                        }
                    }
                }
                self.keys.push(key.clone());
                let ghost m0 = key_views(k0);
                let ghost m1 = key_views(self.keys@);
                assert(m1 =~= m0.push(key@));
                assert forall|x: Seq<char>| m1.to_set().contains(x) <==> m0.to_set().insert(key@).contains(x) by {
                    if m1.to_set().contains(x) {
                        let j = choose|j: int| 0 <= j < m1.len() && m1[j] == x;
                        if j < m0.len() {
                            assert(m0[j] == x);
                        }
                    }
                    if m0.to_set().contains(x) {
                        let j = choose|j: int| 0 <= j < m0.len() && m0[j] == x;
                        assert(m1[j] == x);
                    }
                    if x == key@ {
                        assert(m1[m0.len() as int] == x);
                    }
                }
                assert(self@ =~= old(self)@.insert(key@));
                Step::Download
            },
        }
    }

    /// The file of `key` is no longer being produced, whether it was made or not.
    pub fn finish(&mut self, key: &String)
        requires
            old(self).wf(),
        ensures
            final(self).wf(),
            final(self)@ == old(self)@.remove(key@),
    {
        match self.position(key) {
            None => {
                assert(self@ =~= old(self)@.remove(key@));
            },
            Some(i) => {
                let ghost k0 = self.keys@;
                self.keys.remove(i);
                let ghost m0 = key_views(k0);
                let ghost m1 = key_views(self.keys@);
                assert(m1 =~= m0.remove(i as int));
                assert forall|x: Seq<char>| m1.to_set().contains(x) <==> m0.to_set().remove(key@).contains(x) by {
                    if m1.to_set().contains(x) {
                        let j = choose|j: int| 0 <= j < m1.len() && m1[j] == x;
                        if j < i {
                            assert(m0[j] == x);
                        } else {
                            assert(m0[j + 1] == x);
                        }
                    }
                    if m0.to_set().remove(key@).contains(x) {
                        let j = choose|j: int| 0 <= j < m0.len() && m0[j] == x;
                        assert(j != i);
                        if j < i {
                            assert(m1[j] == x);
                        } else {
                            assert(m1[j - 1] == x);
                        }
                    }
                }
                assert(self@ =~= old(self)@.remove(key@));
            },
        }
    }
}

} // verus!
