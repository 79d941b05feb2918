//! An insertion-ordered map from names to values, used for message headers
//! and for the parameters that a route binds.
use vstd::prelude::*;

use crate::text::str_eq;

verus! {

/// The names and values of a sequence of pairs.
pub open spec fn pairs_view(v: Seq<(String, String)>) -> Seq<(Seq<char>, Seq<char>)> {
    v.map_values(|p: (String, String)| (p.0@, p.1@))
}

/// The position of the last pair named `k`, or -1.
pub open spec fn key_pos(s: Seq<(Seq<char>, Seq<char>)>, k: Seq<char>) -> int
    decreases s.len(),
{
    if s.len() == 0 {
        -1
    } else if s.last().0 == k {
        s.len() - 1
    } else {
        key_pos(s.drop_last(), k)
    }
}

/// The value stored under `k`, if any.
pub open spec fn lookup(s: Seq<(Seq<char>, Seq<char>)>, k: Seq<char>) -> Option<Seq<char>> {
    let p = key_pos(s, k);
    if p >= 0 {
        Some(s[p].1)
    } else {
        None
    }
}

/// No name occurs twice.
pub open spec fn keys_unique(s: Seq<(Seq<char>, Seq<char>)>) -> bool {
    forall|i: int, j: int| 0 <= i < j < s.len() ==> #[trigger] s[i].0 != #[trigger] s[j].0
}

/// `s` after storing `v` under `k`: an existing pair named `k` takes the new
/// value where it stands, otherwise the pair goes at the end.
pub open spec fn insert_pair(s: Seq<(Seq<char>, Seq<char>)>, k: Seq<char>, v: Seq<char>) -> Seq<
    (Seq<char>, Seq<char>),
> {
    let p = key_pos(s, k);
    if p >= 0 {
        s.update(p, (k, v))
    } else {
        s.push((k, v))
    }
}

pub proof fn lemma_key_pos(s: Seq<(Seq<char>, Seq<char>)>, k: Seq<char>)
    ensures
        -1 <= key_pos(s, k) < s.len(),
        key_pos(s, k) >= 0 ==> s[key_pos(s, k)].0 == k,
        key_pos(s, k) == -1 ==> forall|j: int| 0 <= j < s.len() ==> s[j].0 != k,
    decreases s.len(),
{
    if s.len() > 0 {
        lemma_key_pos(s.drop_last(), k);
        if s.last().0 != k {
            assert forall|j: int| 0 <= j < s.len() && key_pos(s, k) == -1 implies s[j].0 != k by {
                if j < s.len() - 1 {
                    assert(s[j] == s.drop_last()[j]);
                }
            }
        }
    }
}

/// Two sequences with the same names at the same positions find a name at
/// the same position.
pub proof fn lemma_key_pos_same_names(
    s: Seq<(Seq<char>, Seq<char>)>,
    t: Seq<(Seq<char>, Seq<char>)>,
    k: Seq<char>,
)
    requires
        s.len() == t.len(),
        forall|i: int| 0 <= i < s.len() ==> #[trigger] s[i].0 == t[i].0,
    ensures
        key_pos(s, k) == key_pos(t, k),
    decreases s.len(),
{
    if s.len() > 0 {
        assert(s.last().0 == t[t.len() - 1].0);
        let (a, b) = (s.drop_last(), t.drop_last());
        assert forall|i: int| 0 <= i < a.len() implies #[trigger] a[i].0 == b[i].0 by {
            assert(a[i] == s[i]);
            assert(b[i] == t[i]);
        }
        lemma_key_pos_same_names(a, b, k);
    }
}

/// Storing a value under a name makes the name give that value and leaves
/// every other name as it was.
pub proof fn lemma_lookup_insert(s: Seq<(Seq<char>, Seq<char>)>, k: Seq<char>, v: Seq<char>, k2: Seq<char>)
    ensures
        lookup(insert_pair(s, k, v), k) == Some(v),
        k2 != k ==> lookup(insert_pair(s, k, v), k2) == lookup(s, k2),
{
    let p = key_pos(s, k);
    lemma_key_pos(s, k);
    lemma_key_pos(s, k2);
    let t = insert_pair(s, k, v);
    if p >= 0 {
        lemma_key_pos_update(s, p, k, v);
        assert forall|i: int| 0 <= i < s.len() implies #[trigger] s[i].0 == t[i].0 by {}
        lemma_key_pos_same_names(s, t, k2);
    } else {
        assert(t.drop_last() =~= s);
    }
}

/// Pairs of names and values, kept in the order in which names were first
/// stored.
pub struct Fields {
    entries: Vec<(String, String)>,
}

impl View for Fields {
    type V = Seq<(Seq<char>, Seq<char>)>;

    closed spec fn view(&self) -> Seq<(Seq<char>, Seq<char>)> {
        pairs_view(self.entries@)
    }
}

impl Fields {
    pub fn new() -> (r: Fields)
        ensures
            r@ == Seq::<(Seq<char>, Seq<char>)>::empty(),
    {
        let r = Fields { entries: Vec::new() };
        assert(r@ =~= Seq::<(Seq<char>, Seq<char>)>::empty());
        r
    }

    pub fn len(&self) -> (r: usize)
        ensures
            r == self@.len(),
    {
        self.entries.len()
    }

    /// The name and value of the pair at position `i`.
    pub fn entry(&self, i: usize) -> (r: (&String, &String))
        requires
            i < self@.len(),
        ensures
            r.0@ == self@[i as int].0,
            r.1@ == self@[i as int].1,
    {
        let p = &self.entries[i];
        (&p.0, &p.1)
    }

    /// The position of the last pair named `key`.
    fn position(&self, key: &str) -> (r: Option<usize>)
        ensures
            match r {
                Some(i) => key_pos(self@, key@) == i as int && i < self@.len(),
                None => key_pos(self@, key@) == -1,
            },
    {
        let mut i: usize = self.entries.len();
        assert(self@.subrange(0, i as int) =~= self@);
        while i > 0
            invariant
                i <= self@.len(),
                key_pos(self@, key@) == key_pos(self@.subrange(0, i as int), key@),
            decreases i,
        {
            let ghost pre = self@.subrange(0, i as int);
            assert(pre.drop_last() =~= self@.subrange(0, i - 1));
            assert(pre.last() == self@[i - 1]);
            assert(self@[i - 1].0 == self.entries@[i - 1].0@);
            if str_eq(self.entries[i - 1].0.as_str(), key) {
                return Some(i - 1);
            }
            i -= 1;
        }
        None
    }

    /// The value stored under `key`.
    pub fn get(&self, key: &str) -> (r: Option<&String>)
        ensures
            match r {
                Some(v) => lookup(self@, key@) == Some(v@),
                None => lookup(self@, key@).is_none(),
            },
    {
        match self.position(key) {
            Some(i) => {
                assert(self@[i as int].1 == self.entries@[i as int].1@);
                Some(&self.entries[i].1)
            },
            None => None,
        }
    }

    /// Stores `value` under `key`; a later value for a name replaces an
    /// earlier one.
    pub fn insert(&mut self, key: String, value: String)
        ensures
            final(self)@ == insert_pair(old(self)@, key@, value@),
            lookup(final(self)@, key@) == Some(value@),
            keys_unique(old(self)@) ==> keys_unique(final(self)@),
    {
        let ghost s = self@;
        let ghost k = key@;
        let ghost v = value@;
        proof {
            lemma_key_pos(s, k);
        }
        match self.position(key.as_str()) {
            Some(i) => {
                self.entries.set(i, (key, value));
            },
            None => {
                self.entries.push((key, value));
            },
        }
        assert(self@ =~= insert_pair(s, k, v));
        proof {
            let t = self@;
            lemma_key_pos(t, k);
            if key_pos(s, k) >= 0 {
                assert(t[key_pos(s, k)].0 == k);
                assert(key_pos(t, k) == key_pos(s, k)) by {
                    if keys_unique(s) {
                    }
                    lemma_key_pos_update(s, key_pos(s, k), k, v);
                }
            } else {
                assert(t.last() == (k, v));
            }
        }
    }
}

proof fn lemma_key_pos_update(s: Seq<(Seq<char>, Seq<char>)>, p: int, k: Seq<char>, v: Seq<char>)
    requires
        p == key_pos(s, k),
        0 <= p < s.len(),
    ensures
        key_pos(s.update(p, (k, v)), k) == p,
    decreases s.len(),
{
    let t = s.update(p, (k, v));
    if p == s.len() - 1 {
    } else {
        assert(s.last().0 != k);
        assert(t.drop_last() =~= s.drop_last().update(p, (k, v)));
        lemma_key_pos_update(s.drop_last(), p, k, v);
    }
}

} // verus!
