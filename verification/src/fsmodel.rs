//! An in-memory model of the filesystem fragment the move logic touches:
//! a finite store of whole files, viewed as a map from path bytes to
//! content bytes.  The move algorithm is verified against this model; the
//! surrounding program performs the same operations through the real
//! filesystem.

use vstd::prelude::*;
use crate::paths::{bytes_eq, clone_bytes};

verus! {

/// Whether some entry of `s` has path `p`.
pub open spec fn has_key(s: Seq<(Vec<u8>, Vec<u8>)>, p: Seq<u8>) -> bool {
    exists|i: int| 0 <= i < s.len() && s[i].0@ == p
}

/// The index of the entry with path `p`.
pub open spec fn idx_of(s: Seq<(Vec<u8>, Vec<u8>)>, p: Seq<u8>) -> int {
    choose|i: int| 0 <= i < s.len() && s[i].0@ == p
}

/// The content of the entry with path `p`.
pub open spec fn content_of(s: Seq<(Vec<u8>, Vec<u8>)>, p: Seq<u8>) -> Seq<u8> {
    s[idx_of(s, p)].1@
}

/// No two entries share a path.
pub open spec fn uniq_keys(s: Seq<(Vec<u8>, Vec<u8>)>) -> bool {
    forall|i: int, j: int| 0 <= i < j < s.len() ==> s[i].0@ != s[j].0@
}

/// An entry's own path is found at that entry.
pub proof fn lemma_entry_props(s: Seq<(Vec<u8>, Vec<u8>)>, i: int)
    requires
        uniq_keys(s),
        0 <= i < s.len(),
    ensures
        has_key(s, s[i].0@),
        idx_of(s, s[i].0@) == i,
        content_of(s, s[i].0@) == s[i].1@,
{
    assert(has_key(s, s[i].0@));
    let j = idx_of(s, s[i].0@);
    assert(0 <= j < s.len() && s[j].0@ == s[i].0@);
}

/// The file store: a list of (path, content) files with pairwise distinct
/// paths, viewed as a finite map.
pub struct FsModel {
    /// The files, keyed by their path bytes.
    pub files: Vec<(Vec<u8>, Vec<u8>)>,
}

impl View for FsModel {
    type V = Map<Seq<u8>, Seq<u8>>;

    open spec fn view(&self) -> Map<Seq<u8>, Seq<u8>> {
        Map::new(
            |p: Seq<u8>| has_key(self.files@, p),
            |p: Seq<u8>| content_of(self.files@, p),
        )
    }
}

impl FsModel {
    /// Paths are pairwise distinct.
    pub open spec fn wf(&self) -> bool {
        uniq_keys(self.files@)
    }

    /// An empty store.
    pub fn empty() -> (r: FsModel)
        ensures
            r.wf(),
            r@ == Map::<Seq<u8>, Seq<u8>>::empty(),
            r.files@.len() == 0,
    {
        let r = FsModel { files: Vec::new() };
        proof {
            assert(r@ =~= Map::<Seq<u8>, Seq<u8>>::empty());
        }
        r
    }

    /// How many files the store holds.
    pub fn file_count(&self) -> (r: usize)
        ensures
            r == self.files@.len(),
    {
        self.files.len()
    }

    /// The index holding path `p`, if any.
    fn find(&self, p: &Vec<u8>) -> (r: Option<usize>)
        ensures
            match r {
                Option::Some(i) => 0 <= i < self.files@.len()
                    && self.files@[i as int].0@ == p@,
                Option::None => !has_key(self.files@, p@),
            },
    {
        let mut i: usize = 0;
        while i < self.files.len()
            invariant
                0 <= i <= self.files@.len(),
                forall|k: int| 0 <= k < i ==> self.files@[k].0@ != p@,
            decreases self.files@.len() - i,
        {
            if bytes_eq(&self.files[i].0, p) {
                return Option::Some(i);
            }
            i += 1;
        }
        Option::None
    }

    /// Whether a file exists at path `p`.
    pub fn exists_path(&self, p: &Vec<u8>) -> (r: bool)
        requires
            self.wf(),
        ensures
            r == self@.contains_key(p@),
    {
        match self.find(p) {
            Option::Some(_) => true,
            Option::None => false,
        }
    }

    /// The content at path `p`, if a file is there.
    pub fn read(&self, p: &Vec<u8>) -> (r: Option<Vec<u8>>)
        requires
            self.wf(),
        ensures
            match r {
                Option::Some(c) => self@.contains_key(p@) && c@ == self@[p@],
                Option::None => !self@.contains_key(p@),
            },
    {
        match self.find(p) {
            Option::Some(i) => {
                let c = clone_bytes(&self.files[i].1);
                proof {
                    lemma_entry_props(self.files@, i as int);
                }
                Option::Some(c)
            },
            Option::None => Option::None,
        }
    }

    /// Write a whole file: create it, or overwrite what is at `p`.
    pub fn set_file(&mut self, p: &Vec<u8>, content: Vec<u8>)
        requires
            old(self).wf(),
        ensures
            final(self).wf(),
            final(self)@ == old(self)@.insert(p@, content@),
            final(self).files@.len() <= old(self).files@.len() + 1,
    {
        let ghost s_old = self.files@;
        let ghost c = content@;
        let found = self.find(p);
        let entry = (clone_bytes(p), content);
        match found {
            Option::Some(i) => {
                proof {
                    lemma_entry_props(s_old, i as int);
                }
                self.files[i] = entry;
                proof {
                    let s_new = self.files@;
                    assert(s_new == s_old.update(i as int, (entry.0, entry.1)));
                    assert forall|a: int, b: int| 0 <= a < b < s_new.len()
                        implies s_new[a].0@ != s_new[b].0@ by {
                        if a != i && b != i {
                            assert(s_new[a] == s_old[a] && s_new[b] == s_old[b]);
                        } else if a == i {
                            assert(s_new[b] == s_old[b]);
                            assert(s_old[b].0@ != s_old[i as int].0@);
                        } else {
                            assert(s_new[a] == s_old[a]);
                            assert(s_old[a].0@ != s_old[i as int].0@);
                        }
                    }
                    Self::lemma_update_view(s_old, s_new, i as int, p@, c);
                    assert(self@ =~= old(self)@.insert(p@, c));
                }
            },
            Option::None => {
                self.files.push(entry);
                proof {
                    let s_new = self.files@;
                    assert(s_new == s_old.push((entry.0, entry.1)));
                    assert forall|a: int, b: int| 0 <= a < b < s_new.len()
                        implies s_new[a].0@ != s_new[b].0@ by {
                        if b == s_old.len() {
                            assert(s_new[a] == s_old[a]);
                            assert(!has_key(s_old, p@));
                        } else {
                            assert(s_new[a] == s_old[a] && s_new[b] == s_old[b]);
                        }
                    }
                    Self::lemma_push_view(s_old, s_new, p@, c);
                    assert(self@ =~= old(self)@.insert(p@, c));
                }
            },
        }
    }

    /// After replacing entry `i` (whose key was `p`) by `(p, c)`, lookups
    /// behave like a map insert.
    proof fn lemma_update_view(
        s_old: Seq<(Vec<u8>, Vec<u8>)>,
        s_new: Seq<(Vec<u8>, Vec<u8>)>,
        i: int,
        p: Seq<u8>,
        c: Seq<u8>,
    )
        requires
            uniq_keys(s_old),
            uniq_keys(s_new),
            0 <= i < s_old.len(),
            s_old[i].0@ == p,
            s_new.len() == s_old.len(),
            s_new[i].0@ == p,
            s_new[i].1@ == c,
            forall|k: int| 0 <= k < s_old.len() && k != i ==> s_new[k] == s_old[k],
        ensures
            forall|q: Seq<u8>| has_key(s_new, q) == (q == p || has_key(s_old, q)),
            forall|q: Seq<u8>| #[trigger] has_key(s_new, q) ==> content_of(s_new, q)
                == (if q == p { c } else { content_of(s_old, q) }),
    {
        assert forall|q: Seq<u8>| has_key(s_new, q) == (q == p || has_key(s_old, q)) by {
            if has_key(s_new, q) {
                let k = idx_of(s_new, q);
                assert(0 <= k < s_new.len() && s_new[k].0@ == q);
                if k != i {
                    assert(s_old[k].0@ == q);
                    assert(has_key(s_old, q));
                }
            }
            if q == p {
                lemma_entry_props(s_new, i);
            }
            if has_key(s_old, q) && q != p {
                let k = idx_of(s_old, q);
                assert(0 <= k < s_old.len() && s_old[k].0@ == q);
                assert(k != i);
                assert(s_new[k].0@ == q);
                assert(has_key(s_new, q));
            }
        }
        assert forall|q: Seq<u8>| #[trigger] has_key(s_new, q) implies content_of(s_new, q)
            == (if q == p { c } else { content_of(s_old, q) }) by {
            if q == p {
                lemma_entry_props(s_new, i);
            } else {
                let k = idx_of(s_new, q);
                assert(0 <= k < s_new.len() && s_new[k].0@ == q);
                assert(k != i);
                lemma_entry_props(s_new, k);
                assert(s_old[k].0@ == q);
                lemma_entry_props(s_old, k);
            }
        }
    }

    /// After appending a fresh entry `(p, c)`, lookups behave like a map
    /// insert.
    proof fn lemma_push_view(
        s_old: Seq<(Vec<u8>, Vec<u8>)>,
        s_new: Seq<(Vec<u8>, Vec<u8>)>,
        p: Seq<u8>,
        c: Seq<u8>,
    )
        requires
            uniq_keys(s_old),
            uniq_keys(s_new),
            !has_key(s_old, p),
            s_new.len() == s_old.len() + 1,
            s_new[s_old.len() as int].0@ == p,
            s_new[s_old.len() as int].1@ == c,
            forall|k: int| 0 <= k < s_old.len() ==> s_new[k] == s_old[k],
        ensures
            forall|q: Seq<u8>| has_key(s_new, q) == (q == p || has_key(s_old, q)),
            forall|q: Seq<u8>| #[trigger] has_key(s_new, q) ==> content_of(s_new, q)
                == (if q == p { c } else { content_of(s_old, q) }),
    {
        let n = s_old.len() as int;
        assert forall|q: Seq<u8>| has_key(s_new, q) == (q == p || has_key(s_old, q)) by {
            if has_key(s_new, q) {
                let k = idx_of(s_new, q);
                assert(0 <= k < s_new.len() && s_new[k].0@ == q);
                if k != n {
                    assert(s_old[k].0@ == q);
                    assert(has_key(s_old, q));
                }
            }
            if q == p {
                lemma_entry_props(s_new, n);
            }
            if has_key(s_old, q) {
                let k = idx_of(s_old, q);
                assert(s_new[k].0@ == q);
                assert(has_key(s_new, q));
            }
        }
        assert forall|q: Seq<u8>| #[trigger] has_key(s_new, q) implies content_of(s_new, q)
            == (if q == p { c } else { content_of(s_old, q) }) by {
            if q == p {
                lemma_entry_props(s_new, n);
            } else {
                let k = idx_of(s_new, q);
                assert(0 <= k < s_new.len() && s_new[k].0@ == q);
                assert(k != n);
                lemma_entry_props(s_new, k);
                assert(s_old[k].0@ == q);
                lemma_entry_props(s_old, k);
            }
        }
    }

    /// Remove the file at path `p`, if any.
    pub fn remove_path(&mut self, p: &Vec<u8>)
        requires
            old(self).wf(),
        ensures
            final(self).wf(),
            final(self)@ == old(self)@.remove(p@),
            final(self).files@.len() <= old(self).files@.len(),
    {
        let ghost s_old = self.files@;
        let found = self.find(p);
        match found {
            Option::Some(i) => {
                proof {
                    lemma_entry_props(s_old, i as int);
                }
                self.files.remove(i);
                proof {
                    let s_new = self.files@;
                    s_old.remove_ensures(i as int);
                    assert forall|a: int, b: int| 0 <= a < b < s_new.len()
                        implies s_new[a].0@ != s_new[b].0@ by {
                        let a0: int = if a < i { a } else { a + 1 };
                        let b0: int = if b < i { b } else { b + 1 };
                        assert(s_new[a] == s_old[a0]);
                        assert(s_new[b] == s_old[b0]);
                    }
                    Self::lemma_remove_view(s_old, s_new, i as int, p@);
                    assert(self@ =~= old(self)@.remove(p@));
                }
            },
            Option::None => {
                proof {
                    assert(self@ =~= old(self)@.remove(p@));
                }
            },
        }
    }

    /// After removing the entry holding `p`, lookups behave like a map
    /// remove.
    proof fn lemma_remove_view(
        s_old: Seq<(Vec<u8>, Vec<u8>)>,
        s_new: Seq<(Vec<u8>, Vec<u8>)>,
        i: int,
        p: Seq<u8>,
    )
        requires
            uniq_keys(s_old),
            uniq_keys(s_new),
            0 <= i < s_old.len(),
            s_old[i].0@ == p,
            s_new.len() == s_old.len() - 1,
            forall|k: int| 0 <= k < i ==> #[trigger] s_new[k] == s_old[k],
            forall|k: int| i <= k < s_new.len() ==> #[trigger] s_new[k] == s_old[k + 1],
        ensures
            forall|q: Seq<u8>| has_key(s_new, q) == (q != p && has_key(s_old, q)),
            forall|q: Seq<u8>| #[trigger] has_key(s_new, q)
                ==> content_of(s_new, q) == content_of(s_old, q),
    {
        assert forall|q: Seq<u8>| has_key(s_new, q) == (q != p && has_key(s_old, q)) by {
            if has_key(s_new, q) {
                let k = idx_of(s_new, q);
                assert(0 <= k < s_new.len() && s_new[k].0@ == q);
                let k0: int = if k < i { k } else { k + 1 };
                assert(s_old[k0].0@ == q);
                assert(has_key(s_old, q));
                assert(k0 != i);
                assert(q != p);
            }
            if q != p && has_key(s_old, q) {
                let k = idx_of(s_old, q);
                assert(0 <= k < s_old.len() && s_old[k].0@ == q);
                assert(k != i);
                let k1: int = if k < i { k } else { k - 1 };
                assert(s_new[k1].0@ == q);
                assert(has_key(s_new, q));
            }
        }
        assert forall|q: Seq<u8>| #[trigger] has_key(s_new, q)
            implies content_of(s_new, q) == content_of(s_old, q) by {
            let k = idx_of(s_new, q);
            assert(0 <= k < s_new.len() && s_new[k].0@ == q);
            lemma_entry_props(s_new, k);
            let k0: int = if k < i { k } else { k + 1 };
            assert(s_old[k0].0@ == q);
            lemma_entry_props(s_old, k0);
            assert(s_new[k].1@ == s_old[k0].1@);
        }
    }
}

} // verus!
