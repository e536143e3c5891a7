//! A model of the slice of the filesystem the applicator touches: a table
//! from link path to link target.
//!
//! The applicator's contracts are stated against the table's view, a
//! `Map<Seq<char>, Seq<char>>`; the process boundary mirrors each verified
//! operation with the corresponding syscall on the real link path.

use vstd::prelude::*;

verus! {

/// The map a sequence of (path, target) records denotes: later records
/// shadow earlier ones with the same path.
pub open spec fn links_map(s: Seq<(String, String)>) -> Map<Seq<char>, Seq<char>>
    decreases s.len(),
{
    if s.len() == 0 {
        Map::empty()
    } else {
        links_map(s.drop_last()).insert(s.last().0@, s.last().1@)
    }
}

/// An in-memory filesystem stand-in holding the current links.
pub struct FsModel {
    links: Vec<(String, String)>,
}

impl View for FsModel {
    type V = Map<Seq<char>, Seq<char>>;

    closed spec fn view(&self) -> Map<Seq<char>, Seq<char>> {
        links_map(self.links@)
    }
}

impl FsModel {
    /// A filesystem with no links at all.
    pub fn new() -> (fs: FsModel)
        ensures
            fs@ == Map::<Seq<char>, Seq<char>>::empty(),
    {
        let fs = FsModel { links: Vec::new() };
        proof {
            assert(fs.links@ =~= Seq::<(String, String)>::empty());
        }
        fs
    }

    /// Remove the link at `path`; a missing entry is a no-op.
    pub fn remove_link(&mut self, path: &String)
        ensures
            final(self)@ == old(self)@.remove(path@),
    {
        let ghost whole = self.links@;
        let mut kept: Vec<(String, String)> = Vec::new();
        let n = self.links.len();
        let mut i: usize = 0;
        proof {
            assert(whole.take(0) =~= Seq::<(String, String)>::empty());
            assert(links_map(kept@) =~= links_map(whole.take(0)).remove(path@));
        }
        while i < n
            invariant
                i <= n,
                n == self.links@.len(),
                whole == self.links@,
                links_map(kept@) == links_map(self.links@.take(i as int)).remove(path@),
            decreases n - i,
        {
            let ghost prefix = self.links@.take(i as int);
            let ghost step = self.links@.take(i + 1);
            proof {
                assert(step.drop_last() =~= prefix);
                assert(step.last() == self.links@[i as int]);
            }
            if !(self.links[i].0 == *path) {
                let pair = (self.links[i].0.clone(), self.links[i].1.clone());
                let ghost before = kept@;
                kept.push(pair);
                proof {
                    assert(kept@.drop_last() =~= before);
                    assert(links_map(prefix).remove(path@).insert(
                        self.links@[i as int].0@,
                        self.links@[i as int].1@,
                    ) =~= links_map(prefix).insert(
                        self.links@[i as int].0@,
                        self.links@[i as int].1@,
                    ).remove(path@));
                }
            } else {
                proof {
                    assert(links_map(prefix).insert(path@, self.links@[i as int].1@).remove(path@)
                        =~= links_map(prefix).remove(path@));
                }
            }
            i = i + 1;
        }
        proof {
            assert(self.links@.take(n as int) =~= self.links@);
        }
        self.links = kept;
    }

    /// Set the link at `path` to `target`, replacing any previous entry.
    pub fn create_link(&mut self, path: &String, target: &String)
        ensures
            final(self)@ == old(self)@.insert(path@, target@),
    {
        let ghost before = self.links@;
        let pair = (path.clone(), target.clone());
        self.links.push(pair);
        proof {
            assert(self.links@.drop_last() =~= before);
        }
    }

    /// The target of the link at `path`, if one exists.
    pub fn resolve(&self, path: &String) -> (r: Option<String>)
        ensures
            r is Some <==> self@.contains_key(path@),
            r is Some ==> r->0@ == self@[path@],
    {
        let mut found: Option<String> = None;
        let n = self.links.len();
        let mut i: usize = 0;
        while i < n
            invariant
                i <= n,
                n == self.links@.len(),
                found is Some <==> links_map(self.links@.take(i as int)).contains_key(path@),
                found is Some ==> found->0@ == links_map(self.links@.take(i as int))[path@],
            decreases n - i,
        {
            let ghost prefix = self.links@.take(i as int);
            let ghost step = self.links@.take(i + 1);
            proof {
                assert(step.drop_last() =~= prefix);
                assert(step.last() == self.links@[i as int]);
            }
            if self.links[i].0 == *path {
                found = Some(self.links[i].1.clone());
            }
            i = i + 1;
        }
        proof {
            assert(self.links@.take(n as int) =~= self.links@);
        }
        found
    }
}

} // verus!
