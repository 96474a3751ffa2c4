use vstd::prelude::*;

verus! {

/// A request to the key-value store.
pub enum Command {
    /// Store `value` under `key`.
    Put { key: String, value: Vec<u8> },
    /// Look up the value under `key`.
    Get { key: String },
    /// Any command this store does not implement.
    Unsupported,
}

/// The answer to a request.
pub enum Reply {
    /// The value was stored.
    Stored,
    /// The value found under the key.
    Bulk(Vec<u8>),
    /// No value is stored under the key.
    Null,
}

/// The command is not implemented by this store.
#[derive(Clone, Copy, Debug, PartialEq, Eq, Structural)]
pub enum DbError {
    Unimplemented,
}

/// No two entries share a key.
pub open spec fn keys_unique(s: Seq<(Seq<char>, Seq<u8>)>) -> bool {
    forall|i: int, j: int| 0 <= i < s.len() && 0 <= j < s.len() && #[trigger] s[i].0 == #[trigger] s[j].0 ==> i == j
}

/// The map that a list of entries with unique keys stands for.
pub open spec fn map_of(s: Seq<(Seq<char>, Seq<u8>)>) -> Map<Seq<char>, Seq<u8>> {
    Map::new(
        |k: Seq<char>| exists|i: int| 0 <= i < s.len() && s[i].0 == k,
        |k: Seq<char>| s[choose|i: int| 0 <= i < s.len() && s[i].0 == k].1,
    )
}

/// A key-value store from string keys to byte values.
pub struct Db {
    entries: Vec<(String, Vec<u8>)>,
}

impl Db {
    /// The entries as plain values.
    pub closed spec fn entries(&self) -> Seq<(Seq<char>, Seq<u8>)> {
        self.entries@.map_values(|e: (String, Vec<u8>)| (e.0@, e.1@))
    }

    pub closed spec fn wf(&self) -> bool {
        keys_unique(self.entries())
    }
}

impl View for Db {
    type V = Map<Seq<char>, Seq<u8>>;

    closed spec fn view(&self) -> Map<Seq<char>, Seq<u8>> {
        map_of(self.entries())
    }
}

proof fn lemma_map_of_at(s: Seq<(Seq<char>, Seq<u8>)>, i: int)
    requires
        keys_unique(s),
        0 <= i < s.len(),
    ensures
        map_of(s).contains_key(s[i].0),
        map_of(s)[s[i].0] == s[i].1,
{
    let k = s[i].0;
    assert(exists|j: int| 0 <= j < s.len() && s[j].0 == k);
    let c = choose|j: int| 0 <= j < s.len() && s[j].0 == k;
    assert(s[c].0 == s[i].0);
}

impl Db {
    pub fn new() -> (r: Db)
        ensures
            r.wf(),
            r@ == Map::<Seq<char>, Seq<u8>>::empty(),
    {
        let r = Db { entries: Vec::new() };
        assert(r.entries() =~= Seq::<(Seq<char>, Seq<u8>)>::empty());
        assert(r@ =~= Map::<Seq<char>, Seq<u8>>::empty());
        r
    }

    /// The index of the entry under `key`, if there is one.
    fn find(&self, key: &String) -> (r: Option<usize>)
        requires
            self.wf(),
        ensures
            r is None ==> !self@.contains_key(key@),
            r matches Some(i) ==> i < self.entries().len() && self.entries()[i as int].0 == key@,
    {
        let mut i: usize = 0;
        while i < self.entries.len()
            invariant
                0 <= i <= self.entries@.len(),
                forall|j: int| 0 <= j < i ==> (#[trigger] self.entries()[j]).0 != key@,
            decreases self.entries@.len() - i,
        {
            if self.entries[i].0 == *key {
                return Some(i);
            }
            assert(self.entries()[i as int].0 != key@);
            i = i + 1;
        }
        None
    }

    /// The value stored under `key`, if any.
    pub fn get(&self, key: &String) -> (r: Option<Vec<u8>>)
        requires
            self.wf(),
        ensures
            r is None <==> !self@.contains_key(key@),
            r matches Some(v) ==> v@ == self@[key@],
    {
        match self.find(key) {
            None => None,
            Some(i) => {
                proof {
                    lemma_map_of_at(self.entries(), i as int);
                }
                let v = self.entries[i].1.clone();
                assert(v@ =~= self.entries()[i as int].1);
                Some(v)
            },
        }
    }

    /// Stores `value` under `key`, replacing what was there.
    pub fn set(&mut self, key: String, value: Vec<u8>)
        requires
            old(self).wf(),
        ensures
            final(self).wf(),
            final(self)@ == old(self)@.insert(key@, value@),
    {
        let ghost s0 = self.entries();
        let ghost k = key@;
        let ghost v = value@;
        match self.find(&key) {
            Some(i) => {
                self.entries.set(i, (key, value));
                proof {
                    let s1 = self.entries();
                    assert(s1 =~= s0.update(i as int, (k, v)));
                    assert forall|a: int, b: int|
                        0 <= a < s1.len() && 0 <= b < s1.len() && #[trigger] s1[a].0
                            == #[trigger] s1[b].0 implies a == b by {
                        assert(s0[a].0 == s1[a].0 || a == i);
                        assert(s0[b].0 == s1[b].0 || b == i);
                    }
                    assert forall|q: Seq<char>| #[trigger] map_of(s1).contains_key(q)
                        == map_of(s0).insert(k, v).contains_key(q) by {
                        if map_of(s0).contains_key(q) {
                            let c = choose|j: int| 0 <= j < s0.len() && s0[j].0 == q;
                            assert(s1[c].0 == q);
                        }
                        if map_of(s1).contains_key(q) {
                            let c = choose|j: int| 0 <= j < s1.len() && s1[j].0 == q;
                            assert(s0[c].0 == q);
                        }
                    }
                    assert forall|q: Seq<char>| #[trigger] map_of(s1).contains_key(q) implies map_of(
                        s1,
                    )[q] == map_of(s0).insert(k, v)[q] by {
                        let c = choose|j: int| 0 <= j < s1.len() && s1[j].0 == q;
                        lemma_map_of_at(s1, c);
                        if c != i {
                            lemma_map_of_at(s0, c);
                        }
                    }
                    assert(map_of(s1) =~= map_of(s0).insert(k, v));
                }
            },
            None => {
                self.entries.push((key, value));
                proof {
                    let s1 = self.entries();
                    assert(s1 =~= s0.push((k, v)));
                    assert forall|a: int, b: int|
                        0 <= a < s1.len() && 0 <= b < s1.len() && #[trigger] s1[a].0
                            == #[trigger] s1[b].0 implies a == b by {
                        if a < s0.len() && b == s0.len() {
                            assert(map_of(s0).contains_key(s0[a].0));
                        }
                        if b < s0.len() && a == s0.len() {
                            assert(map_of(s0).contains_key(s0[b].0));
                        }
                    }
                    assert forall|q: Seq<char>| #[trigger] map_of(s1).contains_key(q)
                        == map_of(s0).insert(k, v).contains_key(q) by {
                        if map_of(s0).contains_key(q) {
                            let c = choose|j: int| 0 <= j < s0.len() && s0[j].0 == q;
                            assert(s1[c].0 == q);
                        }
                        if q == k {
                            assert(s1[s0.len() as int].0 == q);
                        }
                    }
                    assert forall|q: Seq<char>| #[trigger] map_of(s1).contains_key(q) implies map_of(
                        s1,
                    )[q] == map_of(s0).insert(k, v)[q] by {
                        let c = choose|j: int| 0 <= j < s1.len() && s1[j].0 == q;
                        lemma_map_of_at(s1, c);
                        if c < s0.len() {
                            lemma_map_of_at(s0, c);
                        }
                    }
                    assert(map_of(s1) =~= map_of(s0).insert(k, v));
                }
            },
        }
    }

    /// Applies one command: `Put` stores the value and answers `Stored`; `Get`
    /// answers the stored value, or `Null` when the key is absent, and
    /// changes nothing; any other command is refused and changes nothing.
    pub fn apply(&mut self, cmd: Command) -> (r: Result<Reply, DbError>)
        requires
            old(self).wf(),
        ensures
            final(self).wf(),
            match cmd {
                Command::Put { key, value } => r matches Ok(Reply::Stored) && final(self)@ == old(
                    self,
                )@.insert(key@, value@),
                Command::Get { key } => final(self)@ == old(self)@ && if old(self)@.contains_key(
                    key@,
                ) {
                    r matches Ok(Reply::Bulk(v)) && v@ == old(self)@[key@]
                } else {
                    r matches Ok(Reply::Null)
                },
                Command::Unsupported => r == Err::<Reply, DbError>(DbError::Unimplemented)
                    && final(self)@ == old(self)@,
            },
    {
        match cmd {
            Command::Put { key, value } => {
                self.set(key, value);
                Ok(Reply::Stored)
            },
            Command::Get { key } => match self.get(&key) {
                Some(v) => Ok(Reply::Bulk(v)),
                None => Ok(Reply::Null),
            },
            Command::Unsupported => Err(DbError::Unimplemented),
        }
    }
}

} // verus!
