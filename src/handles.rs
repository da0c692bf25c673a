use vstd::prelude::*;

verus! {

/// What an open handle remembers between requests.
#[derive(Clone, Copy, Debug, PartialEq, Eq, Structural)]
pub enum Cursor {
    /// An open directory; `exhausted` once its listing has been sent.
    Directory { exhausted: bool },
    /// An open file of `size` bytes (as recorded at open or stat time), of
    /// which `delivered` have been sent so far.
    File { size: u64, delivered: u64 },
}

/// The cursors after every open file handle on path `p` takes the recorded
/// size `size`, keeping what it has delivered.
pub open spec fn resized_on_path(
    t: Map<Seq<char>, Cursor>,
    paths: Map<Seq<char>, Seq<char>>,
    p: Seq<char>,
    size: u64,
) -> Map<Seq<char>, Cursor> {
    Map::new(
        |k: Seq<char>| t.contains_key(k),
        |k: Seq<char>|
            match t[k] {
                Cursor::File { delivered, .. } => if paths[k] == p {
                    Cursor::File { size, delivered }
                } else {
                    t[k]
                },
                Cursor::Directory { .. } => t[k],
            },
    )
}

/// One open handle: its token, the path it was opened on, and its cursor.
struct HandleEntry {
    token: String,
    path: String,
    cursor: Cursor,
}

/// The open handles of one file-transfer session, keyed by token.
pub struct HandleTable {
    entries: Vec<HandleEntry>,
    model: Ghost<Map<Seq<char>, Cursor>>,
    paths: Ghost<Map<Seq<char>, Seq<char>>>,
}

impl HandleTable {
    /// The open handles, as a map from token to cursor.
    pub closed spec fn view(&self) -> Map<Seq<char>, Cursor> {
        self.model@
    }

    /// The path each open handle was opened on, by token.
    pub closed spec fn paths(&self) -> Map<Seq<char>, Seq<char>> {
        self.paths@
    }

    /// The entries mirror the model, and no token is open twice.
    pub closed spec fn wf(&self) -> bool {
        &&& self.paths@.dom() == self.model@.dom()
        &&& forall|i: int|
            0 <= i < self.entries@.len() ==> {
                &&& #[trigger] self.model@.contains_key(self.entries@[i].token@)
                &&& self.model@[self.entries@[i].token@] == self.entries@[i].cursor
                &&& self.paths@[self.entries@[i].token@] == self.entries@[i].path@
            }
        &&& forall|k: Seq<char>|
            #[trigger] self.model@.contains_key(k) ==> exists|i: int|
                0 <= i < self.entries@.len() && #[trigger] self.entries@[i].token@ == k
        &&& forall|i: int, j: int|
            0 <= i < self.entries@.len() && 0 <= j < self.entries@.len() && i != j
                ==> #[trigger] self.entries@[i].token@ != #[trigger] self.entries@[j].token@
    }

    /// A table with no open handle.
    pub fn new() -> (r: HandleTable)
        ensures
            r.wf(),
            r.view() == Map::<Seq<char>, Cursor>::empty(),
            r.paths() == Map::<Seq<char>, Seq<char>>::empty(),
    {
        HandleTable { entries: Vec::new(), model: Ghost(Map::empty()), paths: Ghost(Map::empty()) }
    }

    /// The position of `token` among the entries, if it is open.
    fn position(&self, token: &String) -> (r: Option<usize>)
        requires
            self.wf(),
        ensures
            match r {
                Some(i) => i < self.entries@.len() && self.entries@[i as int].token@ == token@,
                None => !self.view().contains_key(token@),
            },
    {
        let mut i: usize = 0;
        while i < self.entries.len()
            invariant
                i <= self.entries@.len(),
                forall|j: int| 0 <= j < i ==> self.entries@[j].token@ != token@,
            decreases self.entries@.len() - i,
        {
            if self.entries[i].token == *token {
                return Some(i);
            }
            i = i + 1;
        }
        None
    }

    /// The cursor of `token`, if it is open.
    pub fn get(&self, token: &String) -> (r: Option<Cursor>)
        requires
            self.wf(),
        ensures
            r == (if self.view().contains_key(token@) {
                Some(self.view()[token@])
            } else {
                None
            }),
    {
        match self.position(token) {
            Some(i) => Some(self.entries[i].cursor),
            None => None,
        }
    }

    /// The path `token` was opened on, if it is open.
    pub fn path_of(&self, token: &String) -> (r: Option<String>)
        requires
            self.wf(),
        ensures
            match r {
                Some(p) => self.view().contains_key(token@) && p@ == self.paths()[token@],
                None => !self.view().contains_key(token@),
            },
    {
        match self.position(token) {
            Some(i) => {
                proof {
                    assert(self.model@.contains_key(self.entries@[i as int].token@));
                }
                Some(self.entries[i].path.clone())
            },
            None => None,
        }
    }

    /// Opens the new token `token` on `path` with `cursor`.
    pub fn insert(&mut self, token: String, path: String, cursor: Cursor)
        requires
            old(self).wf(),
            !old(self).view().contains_key(token@),
        ensures
            final(self).wf(),
            final(self).view() == old(self).view().insert(token@, cursor),
            final(self).paths() == old(self).paths().insert(token@, path@),
    {
        let ghost key = token@;
        let ghost before = self.entries@;
        self.entries.push(HandleEntry { token, path, cursor });
        self.model = Ghost(self.model@.insert(key, cursor));
        self.paths = Ghost(self.paths@.insert(key, self.entries@[before.len() as int].path@));
        let ghost n = self.entries@.len() - 1;
        assert forall|j: int| 0 <= j < n implies #[trigger] self.entries@[j].token@ != key by {
            assert(self.entries@[j] == before[j]);
            assert(old(self).model@.contains_key(before[j].token@));
        }
        assert forall|j: int| 0 <= j < self.entries@.len() implies {
            &&& #[trigger] self.model@.contains_key(self.entries@[j].token@)
            &&& self.model@[self.entries@[j].token@] == self.entries@[j].cursor
            &&& self.paths@[self.entries@[j].token@] == self.entries@[j].path@
        } by {
            if j < n {
                assert(self.entries@[j] == before[j]);
                assert(old(self).model@.contains_key(before[j].token@));
            }
        }
        assert forall|k: Seq<char>| #[trigger] self.model@.contains_key(k) implies exists|j: int|
            0 <= j < self.entries@.len() && #[trigger] self.entries@[j].token@ == k by {
            if k != key {
                let j = choose|j: int|
                    0 <= j < old(self).entries@.len() && #[trigger] old(self).entries@[j].token@
                        == k;
                assert(self.entries@[j].token@ == k);
            } else {
                assert(self.entries@[n].token@ == k);
            }
        }
        assert(self.paths@.dom() =~= self.model@.dom());
    }

    /// Replaces the cursor of the entry at `i`, keeping its token and path.
    fn replace(&mut self, i: usize, cursor: Cursor)
        requires
            old(self).wf(),
            i < old(self).entries@.len(),
        ensures
            final(self).wf(),
            final(self).view() == old(self).view().insert(old(self).entries@[i as int].token@, cursor),
            final(self).paths() == old(self).paths(),
            final(self).entries@.len() == old(self).entries@.len(),
            forall|j: int|
                0 <= j < old(self).entries@.len() ==> (#[trigger] final(self).entries@[j]).token@
                    == old(self).entries@[j].token@ && final(self).entries@[j].path@ == old(
                    self,
                ).entries@[j].path@,
    {
        let ghost key = self.entries@[i as int].token@;
        assert(old(self).model@.contains_key(old(self).entries@[i as int].token@));
        let token = self.entries[i].token.clone();
        let path = self.entries[i].path.clone();
        self.entries.set(i, HandleEntry { token, path, cursor });
        self.model = Ghost(self.model@.insert(key, cursor));
        assert forall|j: int| 0 <= j < self.entries@.len() implies {
            &&& #[trigger] self.model@.contains_key(self.entries@[j].token@)
            &&& self.model@[self.entries@[j].token@] == self.entries@[j].cursor
            &&& self.paths@[self.entries@[j].token@] == self.entries@[j].path@
        } by {
            if j != i {
                assert(self.entries@[j] == old(self).entries@[j]);
                assert(old(self).model@.contains_key(old(self).entries@[j].token@));
            }
        }
        assert forall|k: Seq<char>| #[trigger] self.model@.contains_key(k) implies exists|j: int|
            0 <= j < self.entries@.len() && #[trigger] self.entries@[j].token@ == k by {
            if k != key {
                let j = choose|j: int|
                    0 <= j < old(self).entries@.len() && #[trigger] old(self).entries@[j].token@
                        == k;
                assert(self.entries@[j].token@ == k);
            } else {
                assert(self.entries@[i as int].token@ == k);
            }
        }
        assert(self.paths@.dom() =~= self.model@.dom());
    }

    /// Gives every open file handle on `path` the recorded size `size`,
    /// keeping what it has delivered; other handles stay as they are.
    pub fn resize_path(&mut self, path: &String, size: u64)
        requires
            old(self).wf(),
        ensures
            final(self).wf(),
            final(self).paths() == old(self).paths(),
            final(self).view() == resized_on_path(old(self).view(), old(self).paths(), path@, size),
    {
        let ghost t0 = self.model@;
        let mut i: usize = 0;
        while i < self.entries.len()
            invariant
                self.wf(),
                i <= self.entries@.len(),
                self.entries@.len() == old(self).entries@.len(),
                self.paths@ == old(self).paths@,
                self.model@.dom() == t0.dom(),
                forall|j: int|
                    0 <= j < self.entries@.len() ==> (#[trigger] self.entries@[j]).token@ == old(
                        self,
                    ).entries@[j].token@ && self.entries@[j].path@ == old(self).entries@[j].path@,
                forall|j: int|
                    0 <= j < self.entries@.len() ==> #[trigger] self.model@[self.entries@[j].token@]
                        == if j < i {
                        resized_on_path(t0, old(self).paths@, path@, size)[self.entries@[j].token@]
                    } else {
                        t0[self.entries@[j].token@]
                    },
            decreases self.entries@.len() - i,
        {
            let ghost k = self.entries@[i as int].token@;
            let ghost before = self.entries@;
            let ghost m = self.model@;
            proof {
                assert(self.model@.contains_key(k));
                assert(t0.contains_key(k));
            }
            if self.entries[i].path == *path {
                match self.entries[i].cursor {
                    Cursor::File { delivered, .. } => {
                        self.replace(i, Cursor::File { size, delivered });
                    },
                    Cursor::Directory { .. } => {},
                }
            }
            assert forall|j: int| 0 <= j < self.entries@.len() implies #[trigger] self.model@[self.entries@[j].token@]
                == if j < i + 1 {
                resized_on_path(t0, old(self).paths@, path@, size)[self.entries@[j].token@]
            } else {
                t0[self.entries@[j].token@]
            } by {
                if j != i {
                    assert(before[j].token@ != k);
                    assert(m[before[j].token@] == self.model@[self.entries@[j].token@]);
                }
            }
            i = i + 1;
        }
        assert forall|k: Seq<char>| #[trigger] self.model@.contains_key(k) implies self.model@[k]
            == resized_on_path(t0, old(self).paths@, path@, size)[k] by {
            let j = choose|j: int| 0 <= j < self.entries@.len() && #[trigger] self.entries@[j].token@ == k;
            assert(self.model@[self.entries@[j].token@] == resized_on_path(t0, old(self).paths@, path@, size)[self.entries@[j].token@]);
        }
        assert(self.model@ =~= resized_on_path(t0, old(self).paths@, path@, size));
    }

    /// Sets the cursor of `token` if it is open; otherwise changes nothing.
    pub fn update(&mut self, token: &String, cursor: Cursor)
        requires
            old(self).wf(),
        ensures
            final(self).wf(),
            final(self).view() == if old(self).view().contains_key(token@) {
                old(self).view().insert(token@, cursor)
            } else {
                old(self).view()
            },
            final(self).paths() == old(self).paths(),
    {
        match self.position(token) {
            Some(i) => self.replace(i, cursor),
            None => {},
        }
    }

    /// Closes `token`; closing one that is not open changes nothing.
    #[verifier::rlimit(30)]
    pub fn remove(&mut self, token: &String)
        requires
            old(self).wf(),
        ensures
            final(self).wf(),
            final(self).view() == old(self).view().remove(token@),
            final(self).paths() == old(self).paths().remove(token@),
    {
        match self.position(token) {
            Some(i) => {
                let ghost key = token@;
                let ghost before = self.entries@;
                self.entries.remove(i);
                self.model = Ghost(self.model@.remove(key));
                self.paths = Ghost(self.paths@.remove(key));
                assert forall|j: int| 0 <= j < self.entries@.len() implies {
                    &&& #[trigger] self.model@.contains_key(self.entries@[j].token@)
                    &&& self.model@[self.entries@[j].token@] == self.entries@[j].cursor
                    &&& self.paths@[self.entries@[j].token@] == self.entries@[j].path@
                } by {
                    let o = if j < i { j } else { j + 1 };
                    assert(self.entries@[j] == before[o]);
                    assert(before[o].token@ != before[i as int].token@);
                    assert(old(self).model@.contains_key(before[o].token@));
                    assert(old(self).paths@[before[o].token@] == before[o].path@);
                    assert(self.paths@[before[o].token@] == before[o].path@);
                }
                assert forall|k: Seq<char>| #[trigger] self.model@.contains_key(k) implies exists|
                    j: int,
                | 0 <= j < self.entries@.len() && #[trigger] self.entries@[j].token@ == k by {
                    let o = choose|o: int|
                        0 <= o < before.len() && #[trigger] before[o].token@ == k;
                    assert(o != i);
                    let j = if o < i { o } else { o - 1 };
                    assert(self.entries@[j] == before[o]);
                }
                assert forall|a: int, b: int|
                    0 <= a < self.entries@.len() && 0 <= b < self.entries@.len() && a
                        != b implies #[trigger] self.entries@[a].token@
                    != #[trigger] self.entries@[b].token@ by {
                    let oa = if a < i { a } else { a + 1 };
                    let ob = if b < i { b } else { b + 1 };
                    assert(self.entries@[a] == before[oa]);
                    assert(self.entries@[b] == before[ob]);
                }
                assert(self.paths@.dom() =~= self.model@.dom());
            },
            None => {
                assert(self.model@.remove(token@) =~= self.model@);
                assert(self.paths@.remove(token@) =~= self.paths@);
            },
        }
    }
}

} // verus!
