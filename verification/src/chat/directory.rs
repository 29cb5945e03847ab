//! The registry of joined usernames: the single source of truth for who is online.
use vstd::prelude::*;

verus! {

/// What a directory holds, oldest registration first: each name with the handle
/// of the session that owns it.
pub type DirView = Seq<(Seq<char>, u64)>;

/// `name` is registered in `d`.
pub open spec fn dir_contains(d: DirView, name: Seq<char>) -> bool {
    exists|i: int| 0 <= i < d.len() && (#[trigger] d[i]).0 == name
}

/// No name is registered twice.
pub open spec fn dir_unique(d: DirView) -> bool {
    forall|i: int, j: int| 0 <= i < j < d.len() ==> (#[trigger] d[i]).0 != (#[trigger] d[j]).0
}

/// The handle registered under `name`, if there is one.
pub open spec fn dir_lookup(d: DirView, name: Seq<char>) -> Option<u64>
    decreases d.len(),
{
    if d.len() == 0 {
        None
    } else if d.last().0 == name {
        Some(d.last().1)
    } else {
        dir_lookup(d.drop_last(), name)
    }
}

/// `d` without the entries registered under `name`.
pub open spec fn dir_remove(d: DirView, name: Seq<char>) -> DirView
    decreases d.len(),
{
    if d.len() == 0 {
        d
    } else if d.last().0 == name {
        dir_remove(d.drop_last(), name)
    } else {
        dir_remove(d.drop_last(), name).push(d.last())
    }
}

/// The registered names, oldest registration first.
pub open spec fn dir_names(d: DirView) -> Seq<Seq<char>> {
    Seq::new(d.len(), |i: int| d[i].0)
}

/// A lookup finds a name exactly when the directory contains it, and then
/// returns the handle of one of its entries.
pub proof fn lemma_lookup_contains(d: DirView, name: Seq<char>)
    ensures
        dir_lookup(d, name) is Some <==> dir_contains(d, name),
        dir_lookup(d, name) matches Some(h) ==> exists|i: int|
            0 <= i < d.len() && #[trigger] d[i] == (name, h),
    decreases d.len(),
{
    if d.len() == 0 {
    } else if d.last().0 == name {
        assert(d[d.len() - 1].0 == name);
        assert(d[d.len() - 1] == (name, d.last().1));
    } else {
        let p = d.drop_last();
        lemma_lookup_contains(p, name);
        if dir_contains(p, name) {
            let i = choose|i: int| 0 <= i < p.len() && (#[trigger] p[i]).0 == name;
            assert(d[i].0 == name);
        }
        if dir_contains(d, name) {
            let i = choose|i: int| 0 <= i < d.len() && (#[trigger] d[i]).0 == name;
            assert(p[i].0 == name);
        }
        if let Some(h) = dir_lookup(d, name) {
            let i = choose|i: int| 0 <= i < p.len() && #[trigger] p[i] == (name, h);
            assert(d[i] == (name, h));
        }
    }
}

/// In a directory without duplicates, the entry found at any position is the
/// one a lookup returns.
pub proof fn lemma_lookup_at(d: DirView, i: int)
    requires
        dir_unique(d),
        0 <= i < d.len(),
    ensures
        dir_lookup(d, d[i].0) == Some(d[i].1),
    decreases d.len(),
{
    if i == d.len() - 1 {
    } else {
        assert(d[i].0 != d[d.len() - 1].0);
        lemma_lookup_at(d.drop_last(), i);
    }
}

/// Removing a name that is not registered changes nothing.
pub proof fn lemma_remove_absent(d: DirView, name: Seq<char>)
    requires
        !dir_contains(d, name),
    ensures
        dir_remove(d, name) == d,
    decreases d.len(),
{
    if d.len() > 0 {
        let p = d.drop_last();
        assert(d[d.len() - 1].0 != name);
        assert forall|i: int| 0 <= i < p.len() implies (#[trigger] p[i]).0 != name by {
            assert(d[i].0 != name);
        }
        lemma_remove_absent(p, name);
        assert(p.push(d.last()) =~= d);
    }
}

/// In a directory without duplicates, removing the name found at position `i`
/// removes exactly that entry.
pub proof fn lemma_remove_at(d: DirView, i: int)
    requires
        dir_unique(d),
        0 <= i < d.len(),
    ensures
        dir_remove(d, d[i].0) == d.remove(i),
    decreases d.len(),
{
    let name = d[i].0;
    let p = d.drop_last();
    if i == d.len() - 1 {
        assert forall|k: int| 0 <= k < p.len() implies (#[trigger] p[k]).0 != name by {
            assert(d[k].0 != d[i].0);
        }
        lemma_remove_absent(p, name);
        assert(d.remove(i) =~= p);
    } else {
        assert(d[i].0 != d[d.len() - 1].0);
        lemma_remove_at(p, i);
        assert(p.remove(i).push(d.last()) =~= d.remove(i));
    }
}

/// What removal does to the rest of the directory: the name is gone, every
/// other name keeps its handle, and no duplicate appears.
pub proof fn lemma_remove_effect(d: DirView, name: Seq<char>, other: Seq<char>)
    ensures
        !dir_contains(dir_remove(d, name), name),
        other != name ==> dir_lookup(dir_remove(d, name), other) == dir_lookup(d, other),
        dir_remove(d, name).len() <= d.len(),
        forall|k: int|
            0 <= k < dir_remove(d, name).len() ==> exists|m: int|
                0 <= m < d.len() && #[trigger] d[m] == #[trigger] dir_remove(d, name)[k],
        dir_unique(d) ==> dir_unique(dir_remove(d, name)),
    decreases d.len(),
{
    if d.len() > 0 {
        let p = d.drop_last();
        let r = dir_remove(p, name);
        lemma_remove_effect(p, name, other);
        assert forall|k: int| 0 <= k < r.len() implies exists|m: int|
            0 <= m < d.len() && #[trigger] d[m] == #[trigger] r[k] by {
            let i = choose|i: int| 0 <= i < p.len() && #[trigger] p[i] == r[k];
            assert(d[i] == r[k]);
        }
        if d.last().0 != name {
            let q = r.push(d.last());
            assert(q.drop_last() =~= r);
            assert(d[d.len() - 1].0 == d.last().0);
            assert forall|k: int| 0 <= k < q.len() implies exists|m: int|
                0 <= m < d.len() && #[trigger] d[m] == #[trigger] q[k] by {
                if k < r.len() {
                    let i = choose|i: int| 0 <= i < d.len() && #[trigger] d[i] == r[k];
                    assert(d[i] == q[k]);
                } else {
                    assert(d[d.len() - 1] == q[k]);
                }
            }
            if dir_unique(d) {
                assert forall|i: int, j: int| 0 <= i < j < p.len() implies (#[trigger] p[i]).0 != (
                #[trigger] p[j]).0 by {
                    assert(d[i].0 != d[j].0);
                }
                assert forall|i: int, j: int| 0 <= i < j < q.len() implies (#[trigger] q[i]).0 != (
                #[trigger] q[j]).0 by {
                    if j == q.len() - 1 {
                        let m = choose|m: int| 0 <= m < p.len() && #[trigger] p[m] == r[i];
                        assert(d[m].0 != d[d.len() - 1].0);
                    }
                }
            }
        } else {
            if dir_unique(d) {
                assert forall|i: int, j: int| 0 <= i < j < p.len() implies (#[trigger] p[i]).0 != (
                #[trigger] p[j]).0 by {
                    assert(d[i].0 != d[j].0);
                }
            }
        }
    }
}

/// A name that was unregistered is free: the directory does not contain it,
/// whoever held it before, and so the next registration under it succeeds.
pub proof fn lemma_free_after_unregister(d: DirView, name: Seq<char>)
    ensures
        !dir_contains(dir_remove(d, name), name),
        dir_lookup(dir_remove(d, name), name) is None,
{
    lemma_remove_effect(d, name, name);
    lemma_lookup_contains(dir_remove(d, name), name);
}

/// A name that was registered is found under the handle it was registered
/// with, and the names that were there before keep their handles.
pub proof fn lemma_lookup_after_register(d: DirView, name: Seq<char>, handle: u64, other: Seq<char>)
    ensures
        dir_lookup(d.push((name, handle)), name) == Some(handle),
        other != name ==> dir_lookup(d.push((name, handle)), other) == dir_lookup(d, other),
{
    assert(d.push((name, handle)).drop_last() =~= d);
}

/// Raised when a name is registered while another session holds it.
#[derive(Debug, PartialEq, Eq, Clone, Copy)]
pub struct NameTaken;

/// One registration: a username and the handle of the session that owns it.
pub struct DirEntry {
    name: String,
    handle: u64,
}

/// The shared registry that maps each joined username to its session's handle.
pub struct Directory {
    entries: Vec<DirEntry>,
}

impl View for Directory {
    type V = DirView;

    closed spec fn view(&self) -> DirView {
        Seq::new(self.entries@.len(), |i: int| (self.entries@[i].name@, self.entries@[i].handle))
    }
}

impl Directory {
    /// The directory's invariant: at most one entry per name.
    pub open spec fn wf(&self) -> bool {
        dir_unique(self@)
    }

    /// An empty directory.
    pub fn new() -> (dir: Directory)
        ensures
            dir@ == Seq::<(Seq<char>, u64)>::empty(),
            dir.wf(),
    {
        let dir = Directory { entries: Vec::new() };
        assert(dir@ =~= Seq::<(Seq<char>, u64)>::empty());
        dir
    }

    /// Number of registered names.
    pub fn len(&self) -> (n: usize)
        ensures
            n == self@.len(),
    {
        self.entries.len()
    }

    /// Position of `name` among the entries, if it is registered.
    fn position(&self, name: &String) -> (pos: Option<usize>)
        ensures
            match pos {
                Some(i) => i < self@.len() && self@[i as int].0 == name@,
                None => !dir_contains(self@, name@),
            },
    {
        let mut i: usize = 0;
        while i < self.entries.len()
            invariant
                i <= self.entries.len(),
                forall|k: int| 0 <= k < i ==> (#[trigger] self@[k]).0 != name@,
            decreases self.entries.len() - i,
        {
            if self.entries[i].name == *name {
                return Some(i);
            }
            i = i + 1;
        }
        None
    }

    /// Registers `name` for the session `handle`. Fails, and changes nothing,
    /// when the name is already registered; otherwise the new entry is the
    /// youngest one.
    pub fn register(&mut self, name: String, handle: u64) -> (res: Result<(), NameTaken>)
        requires
            old(self).wf(),
        ensures
            final(self).wf(),
            res is Err <==> dir_contains(old(self)@, name@),
            res is Err ==> final(self)@ == old(self)@,
            res is Ok ==> final(self)@ == old(self)@.push((name@, handle)),
    {
        match self.position(&name) {
            Some(_) => Err(NameTaken),
            None => {
                let ghost before = self@;
                self.entries.push(DirEntry { name, handle });
                assert(self@ =~= before.push((name@, handle)));
                assert forall|i: int, j: int| 0 <= i < j < self@.len() implies (
                #[trigger] self@[i]).0 != (#[trigger] self@[j]).0 by {
                    if j == before.len() {
                        assert(before[i].0 != name@);
                    } else {
                        assert(before[i].0 != before[j].0);
                    }
                }
                Ok(())
            },
        }
    }

    /// Removes the registration of `name`; does nothing when there is none.
    pub fn unregister(&mut self, name: &String)
        requires
            old(self).wf(),
        ensures
            final(self).wf(),
            final(self)@ == dir_remove(old(self)@, name@),
    {
        let ghost before = self@;
        proof {
            lemma_remove_effect(before, name@, name@);
        }
        match self.position(name) {
            Some(i) => {
                self.entries.remove(i);
                proof {
                    lemma_remove_at(before, i as int);
                    assert(self@ =~= before.remove(i as int));
                }
            },
            None => {
                proof {
                    lemma_remove_absent(before, name@);
                }
            },
        }
    }

    /// The handle registered under `name`.
    pub fn lookup(&self, name: &String) -> (res: Option<u64>)
        requires
            self.wf(),
        ensures
            res == dir_lookup(self@, name@),
    {
        match self.position(name) {
            Some(i) => {
                proof {
                    lemma_lookup_at(self@, i as int);
                }
                Some(self.entries[i].handle)
            },
            None => {
                proof {
                    lemma_lookup_contains(self@, name@);
                }
                None
            },
        }
    }

    /// A snapshot of the registered names, oldest registration first.
    pub fn list(&self) -> (names: Vec<String>)
        ensures
            crate::chat::messages::names_view(names@) == dir_names(self@),
    {
        let mut names: Vec<String> = Vec::new();
        let mut i: usize = 0;
        while i < self.entries.len()
            invariant
                i <= self.entries.len(),
                names.len() == i,
                forall|k: int| 0 <= k < i ==> names[k]@ == self.entries[k].name@,
            decreases self.entries.len() - i,
        {
            names.push(self.entries[i].name.clone());
            i = i + 1;
        }
        assert(crate::chat::messages::names_view(names@) =~= dir_names(self@));
        names
    }

    /// The entry at position `i`: its name and handle.
    pub fn entry(&self, i: usize) -> (res: (&String, u64))
        requires
            i < self@.len(),
        ensures
            res.0@ == self@[i as int].0,
            res.1 == self@[i as int].1,
    {
        (&self.entries[i].name, self.entries[i].handle)
    }

    /// Removes every registration.
    pub fn clear(&mut self)
        ensures
            final(self)@ == Seq::<(Seq<char>, u64)>::empty(),
            final(self).wf(),
    {
        self.entries.clear();
        assert(self@ =~= Seq::<(Seq<char>, u64)>::empty());
    }
}

} // verus!
