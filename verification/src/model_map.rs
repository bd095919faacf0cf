//! The client-to-upstream model name table of an endpoint: a map from
//! strings to strings whose keys never repeat.
use vstd::prelude::*;

verus! {

/// A map from client model names to upstream model names.
///
/// The entries are kept in a vector; no two entries share a key, which the
/// type invariant states and every method keeps.
pub struct ModelMap {
    entries: Vec<(String, String)>,
}

/// `i` is the position of an entry with key `k`.
pub open spec fn has_key_at(e: Seq<(String, String)>, k: Seq<char>, i: int) -> bool {
    0 <= i < e.len() && e[i].0@ == k
}

/// No two entries of `e` have the same key.
pub open spec fn keys_distinct(e: Seq<(String, String)>) -> bool {
    forall|i: int, j: int| 0 <= i < e.len() && 0 <= j < e.len() && i != j ==> e[i].0@ != e[j].0@
}

/// The map that the entries `e` stand for.
pub open spec fn entries_map(e: Seq<(String, String)>) -> Map<Seq<char>, Seq<char>> {
    Map::new(
        |k: Seq<char>| exists|i: int| has_key_at(e, k, i),
        |k: Seq<char>| e[choose|i: int| has_key_at(e, k, i)].1@,
    )
}

/// With distinct keys, the entry at `i` gives the map's value for its key.
proof fn lemma_lookup(e: Seq<(String, String)>, i: int)
    requires
        keys_distinct(e),
        0 <= i < e.len(),
    ensures
        entries_map(e).contains_key(e[i].0@),
        entries_map(e)[e[i].0@] == e[i].1@,
{
    let k = e[i].0@;
    assert(has_key_at(e, k, i));
    let j = choose|j: int| has_key_at(e, k, j);
    assert(has_key_at(e, k, j));
    assert(i == j);
}

/// The position of the entry with key `k`, if there is one.
fn position(entries: &Vec<(String, String)>, k: &String) -> (r: Option<usize>)
    ensures
        match r {
            Some(i) => has_key_at(entries@, k@, i as int),
            None => forall|j: int| 0 <= j < entries@.len() ==> entries@[j].0@ != k@,
        },
{
    let mut i: usize = 0;
    while i < entries.len()
        invariant
            i <= entries.len(),
            forall|j: int| 0 <= j < i ==> entries@[j].0@ != k@,
        decreases entries.len() - i,
    {
        if entries[i].0 == *k {
            return Some(i);
        }
        i += 1;
    }
    None
}

impl ModelMap {
    #[verifier::type_invariant]
    spec fn wf(self) -> bool {
        keys_distinct(self.entries@)
    }

    /// An empty table.
    pub fn new() -> (r: Self)
        ensures
            r@ == Map::<Seq<char>, Seq<char>>::empty(),
    {
        let r = ModelMap { entries: Vec::new() };
        assert(r@ =~= Map::<Seq<char>, Seq<char>>::empty());
        r
    }

    /// Maps `from` to `to`, replacing an earlier entry for `from`.
    pub fn insert(&mut self, from: String, to: String)
        ensures
            final(self)@ == old(self)@.insert(from@, to@),
    {
        proof {
            use_type_invariant(&*self);
        }
        let mut entries: Vec<(String, String)> = Vec::new();
        std::mem::swap(&mut entries, &mut self.entries);
        let ghost e = entries@;
        assert(e == old(self).entries@);
        let found = position(&entries, &from);
        let ghost key = from@;
        let ghost val = to@;
        match found {
            Some(at) => {
                entries.set(at, (from, to));
                proof {
                    let n = entries@;
                    assert(keys_distinct(n));
                    assert forall|x: Seq<char>| #[trigger]
                        entries_map(n).contains_key(x) == entries_map(e).insert(
                            key,
                            val,
                        ).contains_key(x) by {
                        if x == key {
                            assert(has_key_at(n, x, at as int));
                        } else if entries_map(e).contains_key(x) {
                            let j = choose|j: int| has_key_at(e, x, j);
                            assert(has_key_at(n, x, j));
                        } else if entries_map(n).contains_key(x) {
                            let j = choose|j: int| has_key_at(n, x, j);
                            assert(has_key_at(e, x, j));
                        }
                    }
                    assert forall|x: Seq<char>| #[trigger]
                        entries_map(n).contains_key(x) implies entries_map(n)[x]
                        == entries_map(e).insert(key, val)[x] by {
                        let j = choose|j: int| has_key_at(n, x, j);
                        lemma_lookup(n, j);
                        if x != key {
                            lemma_lookup(e, j);
                        }
                    }
                    assert(entries_map(n) =~= entries_map(e).insert(key, val));
                }
            },
            None => {
                entries.push((from, to));
                proof {
                    let n = entries@;
                    assert(keys_distinct(n));
                    assert forall|x: Seq<char>| #[trigger]
                        entries_map(n).contains_key(x) == entries_map(e).insert(
                            key,
                            val,
                        ).contains_key(x) by {
                        if x == key {
                            assert(has_key_at(n, x, e.len() as int));
                        } else if entries_map(e).contains_key(x) {
                            let j = choose|j: int| has_key_at(e, x, j);
                            assert(has_key_at(n, x, j));
                        } else if entries_map(n).contains_key(x) {
                            let j = choose|j: int| has_key_at(n, x, j);
                            assert(has_key_at(e, x, j));
                        }
                    }
                    assert forall|x: Seq<char>| #[trigger]
                        entries_map(n).contains_key(x) implies entries_map(n)[x]
                        == entries_map(e).insert(key, val)[x] by {
                        let j = choose|j: int| has_key_at(n, x, j);
                        lemma_lookup(n, j);
                        if x != key {
                            lemma_lookup(e, j);
                        }
                    }
                    assert(entries_map(n) =~= entries_map(e).insert(key, val));
                }
            },
        }
        self.entries = entries;
    }

    /// The upstream name that `client` is mapped to, if any.
    pub fn get(&self, client: &str) -> (r: Option<&String>)
        ensures
            match r {
                Some(v) => self@.contains_key(client@) && v@ == self@[client@],
                None => !self@.contains_key(client@),
            },
    {
        proof {
            use_type_invariant(self);
        }
        let key = client.to_owned();
        let mut i: usize = 0;
        while i < self.entries.len()
            invariant
                key@ == client@,
                keys_distinct(self.entries@),
                i <= self.entries.len(),
                forall|j: int| 0 <= j < i ==> self.entries@[j].0@ != client@,
            decreases self.entries.len() - i,
        {
            if self.entries[i].0 == key {
                proof {
                    lemma_lookup(self.entries@, i as int);
                }
                return Some(&self.entries[i].1);
            }
            i += 1;
        }
        proof {
            if self@.contains_key(client@) {
                let j = choose|j: int| has_key_at(self.entries@, client@, j);
                assert(has_key_at(self.entries@, client@, j));
            }
        }
        None
    }

    /// A copy of this table.
    pub fn duplicate(&self) -> (r: Self)
        ensures
            r@ == self@,
    {
        proof {
            use_type_invariant(self);
        }
        let mut out: Vec<(String, String)> = Vec::new();
        let mut i: usize = 0;
        while i < self.entries.len()
            invariant
                i <= self.entries.len(),
                out@ == self.entries@.take(i as int),
            decreases self.entries.len() - i,
        {
            let k = self.entries[i].0.clone();
            let v = self.entries[i].1.clone();
            out.push((k, v));
            proof {
                assert(self.entries@.take(i + 1) =~= self.entries@.take(i as int).push(
                    self.entries@[i as int],
                ));
            }
            i += 1;
        }
        proof {
            assert(self.entries@.take(self.entries.len() as int) =~= self.entries@);
        }
        ModelMap { entries: out }
    }
}

impl View for ModelMap {
    type V = Map<Seq<char>, Seq<char>>;

    closed spec fn view(&self) -> Map<Seq<char>, Seq<char>> {
        entries_map(self.entries@)
    }
}

/// After `insert(from, to)`, looking up `from` gives `to`, and every other
/// name gives what it gave before.
pub proof fn law_insert_then_get(
    before: Map<Seq<char>, Seq<char>>,
    from: Seq<char>,
    to: Seq<char>,
    other: Seq<char>,
)
    requires
        other != from,
    ensures
        before.insert(from, to).contains_key(from),
        before.insert(from, to)[from] == to,
        before.insert(from, to).contains_key(other) == before.contains_key(other),
        before.contains_key(other) ==> before.insert(from, to)[other] == before[other],
{
}

} // verus!
