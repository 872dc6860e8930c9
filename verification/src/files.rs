//! The files that the emitters hand back: contents by relative path, with
//! forward slashes, in the order in which they were put in. No path is
//! taken twice.

use crate::validate::distinct;
use vstd::prelude::*;

verus! {

/// Files by path, in the order in which they were put in.
pub struct Files {
    entries: Vec<(String, Vec<u8>)>,
}

/// The paths of the entries, in their order.
pub open spec fn paths(entries: Seq<(Seq<char>, Seq<u8>)>) -> Seq<Seq<char>> {
    Seq::new(entries.len(), |i: int| entries[i].0)
}

/// The place of the entry with the path, where an entry has it.
pub open spec fn place_of(entries: Seq<(Seq<char>, Seq<u8>)>, path: Seq<char>, i: int) -> bool {
    0 <= i < entries.len() && entries[i].0 == path
}

impl Files {
    /// The entries, path and contents, in the order in which they were put
    /// in.
    pub closed spec fn view(&self) -> Seq<(Seq<char>, Seq<u8>)> {
        Seq::new(self.entries.len() as nat, |i: int| (self.entries[i].0@, self.entries[i].1@))
    }

    /// No path is taken twice, which holds of every bundle that was made by
    /// [`Files::new`] and filled by [`Files::push`].
    pub open spec fn wf(&self) -> bool {
        distinct(paths(self@))
    }

    /// An entry has the path.
    pub open spec fn holds(&self, path: Seq<char>) -> bool {
        exists|i: int| place_of(self@, path, i)
    }

    /// A bundle without entries.
    pub fn new() -> (files: Files)
        ensures
            files.wf(),
            files@ == Seq::<(Seq<char>, Seq<u8>)>::empty(),
    {
        let files = Files { entries: Vec::new() };
        assert(files@ =~= Seq::<(Seq<char>, Seq<u8>)>::empty());
        files
    }

    /// The number of entries.
    pub fn len(&self) -> (n: usize)
        ensures
            n == self@.len(),
    {
        self.entries.len()
    }

    /// The place of the entry with the path.
    pub fn position(&self, path: &str) -> (found: Option<usize>)
        ensures
            found is Some <==> self.holds(path@),
            found matches Some(i) ==> place_of(self@, path@, i as int) && forall|k: int|
                0 <= k < i ==> self@[k].0 != path@,
    {
        let wanted = String::from_str(path);
        let mut i: usize = 0;
        while i < self.entries.len()
            invariant
                i <= self.entries.len(),
                wanted@ == path@,
                forall|k: int| 0 <= k < i ==> self@[k].0 != path@,
            decreases self.entries.len() - i,
        {
            if self.entries[i].0 == wanted {
                assert(place_of(self@, path@, i as int));
                return Some(i);
            }
            i += 1;
        }
        None
    }

    /// Puts a file in behind the others. A path that is taken is rejected:
    /// the bundle stays as it is, and `false` is returned.
    pub fn push(&mut self, path: &str, contents: Vec<u8>) -> (added: bool)
        ensures
            old(self).wf() ==> final(self).wf(),
            added == !old(self).holds(path@),
            final(self)@ == (if added {
                old(self)@.push((path@, contents@))
            } else {
                old(self)@
            }),
    {
        match self.position(path) {
            Some(_) => false,
            None => {
                let ghost before = self@;
                self.entries.push((String::from_str(path), contents));
                proof {
                    assert(self@ =~= before.push((path@, contents@)));
                    assert forall|i: int, j: int|
                        old(self).wf() && 0 <= i < j < paths(self@).len() implies paths(self@)[i]
                        != paths(self@)[j] by {
                        if j < before.len() {
                            assert(paths(before)[i] != paths(before)[j]);
                        } else {
                            assert(!place_of(before, path@, i));
                        }
                    }
                }
                true
            },
        }
    }

    /// The contents of the file with the path.
    pub fn get(&self, path: &str) -> (contents: Option<&Vec<u8>>)
        ensures
            contents is Some <==> self.holds(path@),
            contents matches Some(bytes) ==> exists|i: int|
                place_of(self@, path@, i) && bytes@ == self@[i].1,
    {
        match self.position(path) {
            Some(i) => Some(&self.entries[i].1),
            None => None,
        }
    }

    /// The path of the entry at a place.
    pub fn path(&self, i: usize) -> (path: &str)
        requires
            i < self@.len(),
        ensures
            path@ == self@[i as int].0,
    {
        self.entries[i].0.as_str()
    }

    /// The contents of the entry at a place.
    pub fn contents(&self, i: usize) -> (bytes: &Vec<u8>)
        requires
            i < self@.len(),
        ensures
            bytes@ == self@[i as int].1,
    {
        &self.entries[i].1
    }
}

/// A path leads to one entry: where no path is taken twice, the places of
/// a path are one place.
pub proof fn lemma_one_place(files: Files, path: Seq<char>, i: int, j: int)
    requires
        files.wf(),
        place_of(files@, path, i),
        place_of(files@, path, j),
    ensures
        i == j,
{
    if i < j {
        assert(paths(files@)[i] != paths(files@)[j]);
    }
    if j < i {
        assert(paths(files@)[j] != paths(files@)[i]);
    }
}

} // verus!
