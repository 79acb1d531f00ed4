//! The payload of one session: a mapping from names to values, with the two
//! identifiers of the session it belongs to.

use vstd::prelude::*;

verus! {

/// The mapping that a list of pairs stands for. A later pair replaces an
/// earlier one of the same name.
pub open spec fn pairs_map(pairs: Seq<(String, String)>) -> Map<Seq<char>, Seq<char>>
    decreases pairs.len(),
{
    if pairs.len() == 0 {
        Map::empty()
    } else {
        pairs_map(pairs.drop_last()).insert(pairs.last().0@, pairs.last().1@)
    }
}

/// No name occurs twice in the list.
pub open spec fn distinct_names(pairs: Seq<(String, String)>) -> bool {
    forall|i: int, j: int| 0 <= i < j < pairs.len() ==> pairs[i].0@ != pairs[j].0@
}

/// A name that no pair of the list carries is not in its mapping.
pub proof fn lemma_absent_name(pairs: Seq<(String, String)>, name: Seq<char>)
    requires
        forall|i: int| 0 <= i < pairs.len() ==> pairs[i].0@ != name,
    ensures
        !pairs_map(pairs).contains_key(name),
    decreases pairs.len(),
{
    if pairs.len() > 0 {
        lemma_absent_name(pairs.drop_last(), name);
    }
}

/// Replacing the value of a pair in place is an insertion into the mapping.
pub proof fn lemma_replace_value(pairs: Seq<(String, String)>, at: int, pair: (String, String))
    requires
        distinct_names(pairs),
        0 <= at < pairs.len(),
        pairs[at].0@ == pair.0@,
    ensures
        distinct_names(pairs.update(at, pair)),
        pairs_map(pairs.update(at, pair)) == pairs_map(pairs).insert(pair.0@, pair.1@),
    decreases pairs.len(),
{
    let updated = pairs.update(at, pair);
    if at == pairs.len() - 1 {
        assert(updated.drop_last() == pairs.drop_last());
        assert(pairs_map(updated) == pairs_map(pairs).insert(pair.0@, pair.1@));
    } else {
        lemma_replace_value(pairs.drop_last(), at, pair);
        assert(updated.drop_last() == pairs.drop_last().update(at, pair));
        assert(pairs_map(updated) == pairs_map(pairs).insert(pair.0@, pair.1@));
    }
}

/// The last pair of a name is what the mapping holds for that name.
pub proof fn lemma_last_name(pairs: Seq<(String, String)>, at: int)
    requires
        0 <= at < pairs.len(),
        forall|j: int| at < j < pairs.len() ==> pairs[j].0@ != pairs[at].0@,
    ensures
        pairs_map(pairs).contains_key(pairs[at].0@),
        pairs_map(pairs)[pairs[at].0@] == pairs[at].1@,
    decreases pairs.len(),
{
    if at < pairs.len() - 1 {
        lemma_last_name(pairs.drop_last(), at);
    }
}

/// The value that a list of pairs holds for `name`, if any.
pub fn field_value(pairs: &Vec<(String, String)>, name: &str) -> (value: Option<String>)
    ensures
        match value {
            Some(v) => pairs_map(pairs@).contains_key(name@) && pairs_map(pairs@)[name@] == v@,
            None => !pairs_map(pairs@).contains_key(name@),
        },
{
    let wanted = name.to_owned();
    let mut i: usize = pairs.len();
    while i > 0
        invariant
            i <= pairs@.len(),
            wanted@ == name@,
            forall|j: int| i <= j < pairs@.len() ==> pairs@[j].0@ != name@,
        decreases i,
    {
        i -= 1;
        if pairs[i].0 == wanted {
            proof {
                lemma_last_name(pairs@, i as int);
            }
            return Some(pairs[i].1.clone());
        }
    }
    proof {
        lemma_absent_name(pairs@, name@);
    }
    None
}

/// What a store is, to its callers.
pub ghost struct StoreState {
    /// The session key: the identity of the session in the cache.
    pub key: Seq<char>,
    /// The session token that the client holds.
    pub sid: Seq<char>,
    /// The payload.
    pub values: Map<Seq<char>, Seq<char>>,
}

/// The key/value payload of one session during one request, with the
/// session key and the token it was resolved from. Neither identifier
/// changes after construction.
#[derive(Debug)]
pub struct Store {
    key: String,
    sid: String,
    values: Vec<(String, String)>,
}

impl View for Store {
    type V = StoreState;

    closed spec fn view(&self) -> StoreState {
        StoreState { key: self.key@, sid: self.sid@, values: pairs_map(self.values@) }
    }
}

impl Clone for Store {
    fn clone(&self) -> (copy: Store)
        ensures
            copy@ == self@,
    {
        Store { key: self.key.clone(), sid: self.sid.clone(), values: self.values() }
    }
}

impl Store {
    #[verifier::type_invariant]
    spec fn well_formed(self) -> bool {
        distinct_names(self.values@)
    }

    /// A store for the session `key` and the token `sid`, holding `data`.
    /// Where `data` names a field twice, the later pair stands.
    pub fn new(key: String, sid: String, data: Vec<(String, String)>) -> (store: Store)
        ensures
            store@ == (StoreState { key: key@, sid: sid@, values: pairs_map(data@) }),
    {
        let mut store = Store::empty(key, sid);
        let ghost all = data@;
        for pair in it: data
            invariant
                store@.key == key@,
                store@.sid == sid@,
                store@.values == pairs_map(all.subrange(0, it.index() as int)),
                it.seq() == all,
        {
            assert(all.subrange(0, it.index() + 1).drop_last() == all.subrange(
                0,
                it.index() as int,
            ));
            store.set(pair.0, pair.1);
        }
        assert(all.subrange(0, all.len() as int) == all);
        store
    }

    /// A store for the session `key` and the token `sid`, holding nothing.
    pub fn empty(key: String, sid: String) -> (store: Store)
        ensures
            store@ == (StoreState { key: key@, sid: sid@, values: Map::empty() }),
    {
        Store { key, sid, values: Vec::new() }
    }

    /// The payload as a list, each name once.
    pub fn values(&self) -> (pairs: Vec<(String, String)>)
        ensures
            distinct_names(pairs@),
            pairs_map(pairs@) == self@.values,
    {
        proof {
            use_type_invariant(self);
        }
        let mut pairs: Vec<(String, String)> = Vec::new();
        let mut i: usize = 0;
        while i < self.values.len()
            invariant
                i <= self.values@.len(),
                pairs@.len() == i,
                forall|j: int| 0 <= j < i ==> pairs@[j].0@ == self.values@[j].0@ && pairs@[j].1@ == self.values@[j].1@,
            decreases self.values@.len() - i,
        {
            let name = self.values[i].0.clone();
            let value = self.values[i].1.clone();
            pairs.push((name, value));
            i += 1;
        }
        proof {
            lemma_same_texts(pairs@, self.values@);
        }
        pairs
    }

    /// The value stored under `name`, if there is one.
    pub fn get(&self, name: &str) -> (value: Option<String>)
        ensures
            match value {
                Some(v) => self@.values.contains_key(name@) && self@.values[name@] == v@,
                None => !self@.values.contains_key(name@),
            },
    {
        proof {
            use_type_invariant(self);
        }
        match self.position(name) {
            Some(at) => {
                proof {
                    lemma_last_name(self.values@, at as int);
                }
                Some(self.values[at].1.clone())
            },
            None => {
                proof {
                    lemma_absent_name(self.values@, name@);
                }
                None
            },
        }
    }

    /// Stores `value` under `name`, in place of any earlier value.
    pub fn set(&mut self, name: String, value: String)
        ensures
            final(self)@ == (StoreState {
                values: old(self)@.values.insert(name@, value@),
                ..old(self)@
            }),
    {
        proof {
            use_type_invariant(&*self);
        }
        let found = self.position(name.as_str());
        let mut values: Vec<(String, String)> = Vec::new();
        std::mem::swap(&mut self.values, &mut values);
        match found {
            Some(at) => {
                proof {
                    lemma_replace_value(values@, at as int, (name, value));
                }
                values.set(at, (name, value));
            },
            None => {
                assert(values@.push((name, value)).drop_last() == values@);
                values.push((name, value));
            },
        }
        self.values = values;
    }

    /// The token to hand back to the client.
    pub fn sid(&self) -> (sid: String)
        ensures
            sid@ == self@.sid,
    {
        self.sid.clone()
    }

    /// The session key.
    pub fn key(&self) -> (key: String)
        ensures
            key@ == self@.key,
    {
        self.key.clone()
    }

    fn position(&self, name: &str) -> (r: Option<usize>)
        ensures
            match r {
                Some(at) => at < self.values@.len() && self.values@[at as int].0@ == name@,
                None => forall|i: int| 0 <= i < self.values@.len() ==> self.values@[i].0@ != name@,
            },
    {
        let wanted = name.to_owned();
        let mut i: usize = 0;
        while i < self.values.len()
            invariant
                i <= self.values@.len(),
                wanted@ == name@,
                forall|j: int| 0 <= j < i ==> self.values@[j].0@ != name@,
            decreases self.values@.len() - i,
        {
            if self.values[i].0 == wanted {
                return Some(i);
            }
            i += 1;
        }
        None
    }
}

/// Two lists that agree text for text stand for the same mapping.
pub proof fn lemma_same_texts(a: Seq<(String, String)>, b: Seq<(String, String)>)
    requires
        a.len() == b.len(),
        forall|j: int| 0 <= j < a.len() ==> a[j].0@ == b[j].0@ && a[j].1@ == b[j].1@,
    ensures
        pairs_map(a) == pairs_map(b),
        distinct_names(b) ==> distinct_names(a),
    decreases a.len(),
{
    if a.len() > 0 {
        lemma_same_texts(a.drop_last(), b.drop_last());
    }
}

} // verus!
