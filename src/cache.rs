//! Content-addressed icon cache: an index from file path to reference count.

use crate::outside::{sha1_hex, sha1_hex_of};
use vstd::prelude::*;
use vstd::string::*;

verus! {

/// The path under `dir` where the icon with these raw bytes is stored.
pub open spec fn icon_path_of(dir: Seq<char>, data: Seq<u8>) -> Seq<char> {
    dir + "/"@ + sha1_hex_of(data) + ".png"@
}

/// Computes the deterministic cache path of a raw icon payload.
pub fn icon_path(dir: &String, data: &Vec<u8>) -> (r: String)
    ensures
        r@ == icon_path_of(dir@, data@),
{
    let digest = sha1_hex(data);
    let mut r = dir.clone();
    r.append("/");
    r.append(digest.as_str());
    r.append(".png");
    r
}

/// The index after one more reference to `path`.
pub open spec fn stored(m: Map<Seq<char>, nat>, path: Seq<char>) -> Map<Seq<char>, nat> {
    if m.contains_key(path) {
        m.insert(path, m[path] + 1)
    } else {
        m.insert(path, 1)
    }
}

/// The index after one reference to `path` is dropped.
pub open spec fn released(m: Map<Seq<char>, nat>, path: Seq<char>) -> Map<Seq<char>, nat> {
    if !m.contains_key(path) {
        m
    } else if m[path] <= 1 {
        m.remove(path)
    } else {
        m.insert(path, (m[path] - 1) as nat)
    }
}

/// Whether dropping one reference to `path` deletes its file.
pub open spec fn release_deletes(m: Map<Seq<char>, nat>, path: Seq<char>) -> bool {
    m.contains_key(path) && m[path] <= 1
}

struct CacheEntry {
    path: String,
    count: u64,
}

/// Reference counts of the icon files written to the cache directory.
pub struct IconCache {
    entries: Vec<CacheEntry>,
    index: Ghost<Map<Seq<char>, nat>>,
}

impl View for IconCache {
    type V = Map<Seq<char>, nat>;

    closed spec fn view(&self) -> Map<Seq<char>, nat> {
        self.index@
    }
}

impl IconCache {
    /// Each indexed path has one entry, every count is at least one.
    pub closed spec fn wf(&self) -> bool {
        &&& forall|i: int|
            0 <= i < self.entries@.len() ==> {
                let e = #[trigger] self.entries@[i];
                &&& e.count >= 1
                &&& self.index@.contains_key(e.path@)
                &&& self.index@[e.path@] == e.count as nat
            }
        &&& forall|p: Seq<char>|
            #[trigger] self.index@.contains_key(p) ==> exists|i: int|
                0 <= i < self.entries@.len() && (#[trigger] self.entries@[i]).path@ == p
        &&& forall|i: int, j: int|
            0 <= i < j < self.entries@.len() ==> (#[trigger] self.entries@[i]).path@
                != (#[trigger] self.entries@[j]).path@
    }

    pub fn new() -> (r: IconCache)
        ensures
            r.wf(),
            r@ == Map::<Seq<char>, nat>::empty(),
    {
        IconCache { entries: Vec::new(), index: Ghost(Map::empty()) }
    }

    fn find(&self, path: &String) -> (r: Option<usize>)
        requires
            self.wf(),
        ensures
            match r {
                Some(i) => i < self.entries@.len() && self.entries@[i as int].path@ == path@,
                None => !self@.contains_key(path@),
            },
    {
        let mut i: usize = 0;
        while i < self.entries.len()
            invariant
                self.wf(),
                i <= self.entries@.len(),
                forall|j: int| 0 <= j < i ==> (#[trigger] self.entries@[j]).path@ != path@,
            decreases self.entries@.len() - i,
        {
            if self.entries[i].path == *path {
                return Some(i);
            }
            i = i + 1;
        }
        None
    }

    /// The reference count of `path` (0 when not indexed).
    pub fn count(&self, path: &String) -> (r: u64)
        requires
            self.wf(),
        ensures
            self@.contains_key(path@) ==> r as nat == self@[path@],
            !self@.contains_key(path@) ==> r == 0,
    {
        match self.find(path) {
            Some(i) => self.entries[i].count,
            None => 0,
        }
    }

    /// Adds a reference to `path`; returns whether it was not indexed before,
    /// that is whether its file has to be written.
    pub fn store(&mut self, path: String) -> (is_new: bool)
        requires
            old(self).wf(),
            old(self)@.contains_key(path@) ==> old(self)@[path@] < u64::MAX,
        ensures
            final(self).wf(),
            final(self)@ == stored(old(self)@, path@),
            is_new == !old(self)@.contains_key(path@),
    {
        match self.find(&path) {
            Some(i) => {
                let c = self.entries[i].count;
                let p = self.entries[i].path.clone();
                self.entries.set(i, CacheEntry { path: p, count: c + 1 });
                self.index = Ghost(self.index@.insert(path@, c as nat + 1));
                proof {
                    assert forall|q: Seq<char>| #[trigger] self.index@.contains_key(q) implies exists|k: int|
                        0 <= k < self.entries@.len() && (#[trigger] self.entries@[k]).path@ == q by {
                        if q != path@ {
                            let k = choose|k: int| 0 <= k < old(self).entries@.len() && (#[trigger] old(self).entries@[k]).path@ == q;
                            assert(self.entries@[k].path@ == q);
                        } else {
                            assert(self.entries@[i as int].path@ == q);
                        }
                    }
                }
                false
            },
            None => {
                let ghost p = path@;
                self.entries.push(CacheEntry { path, count: 1 });
                self.index = Ghost(self.index@.insert(p, 1));
                proof {
                    let n = self.entries@.len() - 1;
                    assert forall|q: Seq<char>| #[trigger] self.index@.contains_key(q) implies exists|k: int|
                        0 <= k < self.entries@.len() && (#[trigger] self.entries@[k]).path@ == q by {
                        if q != p {
                            let k = choose|k: int| 0 <= k < old(self).entries@.len() && (#[trigger] old(self).entries@[k]).path@ == q;
                            assert(self.entries@[k].path@ == q);
                        } else {
                            assert(self.entries@[n].path@ == q);
                        }
                    }
                    assert forall|i: int, j: int|
                        0 <= i < j < self.entries@.len() implies (#[trigger] self.entries@[i]).path@
                            != (#[trigger] self.entries@[j]).path@ by {
                        if j == n {
                            assert(old(self).index@.contains_key(self.entries@[i].path@));
                        }
                    }
                }
                true
            },
        }
    }

    /// Drops a reference to `path`; returns whether the count reached zero, in
    /// which case the entry is gone and its file is to be deleted.
    pub fn release(&mut self, path: &String) -> (delete: bool)
        requires
            old(self).wf(),
        ensures
            final(self).wf(),
            final(self)@ == released(old(self)@, path@),
            delete == release_deletes(old(self)@, path@),
    {
        match self.find(path) {
            Some(i) => {
                let c = self.entries[i].count;
                if c <= 1 {
                    let ghost olde = self.entries@;
                    self.entries.remove(i);
                    self.index = Ghost(self.index@.remove(path@));
                    proof {
                        assert forall|k: int| 0 <= k < self.entries@.len() implies {
                            let e = #[trigger] self.entries@[k];
                            &&& e.count >= 1
                            &&& self.index@.contains_key(e.path@)
                            &&& self.index@[e.path@] == e.count as nat
                        } by {
                            if k < i {
                                assert(self.entries@[k] == olde[k]);
                            } else {
                                assert(self.entries@[k] == olde[k + 1]);
                            }
                        }
                        assert forall|q: Seq<char>| #[trigger] self.index@.contains_key(q) implies exists|k: int|
                            0 <= k < self.entries@.len() && (#[trigger] self.entries@[k]).path@ == q by {
                            let k = choose|k: int| 0 <= k < olde.len() && (#[trigger] olde[k]).path@ == q;
                            if k < i {
                                assert(self.entries@[k] == olde[k]);
                            } else {
                                assert(k != i);
                                assert(self.entries@[k - 1] == olde[k]);
                            }
                        }
                        assert forall|a: int, b: int|
                            0 <= a < b < self.entries@.len() implies (#[trigger] self.entries@[a]).path@
                                != (#[trigger] self.entries@[b]).path@ by {
                            let a2 = if a < i { a } else { a + 1 };
                            let b2 = if b < i { b } else { b + 1 };
                            assert(self.entries@[a] == olde[a2]);
                            assert(self.entries@[b] == olde[b2]);
                        }
                    }
                    true
                } else {
                    let p = self.entries[i].path.clone();
                    self.entries.set(i, CacheEntry { path: p, count: c - 1 });
                    self.index = Ghost(self.index@.insert(path@, (c - 1) as nat));
                    proof {
                        assert forall|q: Seq<char>| #[trigger] self.index@.contains_key(q) implies exists|k: int|
                            0 <= k < self.entries@.len() && (#[trigger] self.entries@[k]).path@ == q by {
                            if q != path@ {
                                let k = choose|k: int| 0 <= k < old(self).entries@.len() && (#[trigger] old(self).entries@[k]).path@ == q;
                                assert(self.entries@[k].path@ == q);
                            } else {
                                assert(self.entries@[i as int].path@ == q);
                            }
                        }
                    }
                    false
                }
            },
            None => false,
        }
    }

    /// Empties the index; returns every path that was indexed, whose files are
    /// to be deleted.
    pub fn clear(&mut self) -> (paths: Vec<String>)
        requires
            old(self).wf(),
        ensures
            final(self).wf(),
            final(self)@ == Map::<Seq<char>, nat>::empty(),
            forall|p: Seq<char>|
                old(self)@.contains_key(p) <==> exists|i: int|
                    0 <= i < paths@.len() && (#[trigger] paths@[i])@ == p,
    {
        let mut paths: Vec<String> = Vec::new();
        let mut i: usize = 0;
        while i < self.entries.len()
            invariant
                self.wf(),
                self@ == old(self)@,
                i <= self.entries@.len(),
                paths@.len() == i,
                forall|k: int| 0 <= k < i ==> (#[trigger] paths@[k])@ == self.entries@[k].path@,
            decreases self.entries@.len() - i,
        {
            paths.push(self.entries[i].path.clone());
            i = i + 1;
        }
        proof {
            assert forall|p: Seq<char>|
                old(self)@.contains_key(p) implies exists|k: int|
                    0 <= k < paths@.len() && (#[trigger] paths@[k])@ == p by {
                let k = choose|k: int| 0 <= k < self.entries@.len() && (#[trigger] self.entries@[k]).path@ == p;
                assert(paths@[k]@ == p);
            }
            assert forall|p: Seq<char>|
                (exists|k: int| 0 <= k < paths@.len() && (#[trigger] paths@[k])@ == p) implies old(self)@.contains_key(p) by {
                let k = choose|k: int| 0 <= k < paths@.len() && (#[trigger] paths@[k])@ == p;
                assert(self.entries@[k].path@ == p);
            }
        }
        self.entries = Vec::new();
        self.index = Ghost(Map::empty());
        paths
    }
}

} // verus!
