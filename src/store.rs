//! The store: a mapping from key to value where the last store of a key wins.
use vstd::prelude::*;

use crate::json::opt_view;

verus! {

/// The in-memory key-value mapping. It holds at most one entry per key.
pub struct Store {
    entries: Vec<(String, String)>,
    contents: Ghost<Map<Seq<char>, Seq<char>>>,
}

impl View for Store {
    type V = Map<Seq<char>, Seq<char>>;

    closed spec fn view(&self) -> Map<Seq<char>, Seq<char>> {
        self.contents@
    }
}

/// The value stored under `key` in `m`, if any.
pub open spec fn lookup(m: Map<Seq<char>, Seq<char>>, key: Seq<char>) -> Option<Seq<char>> {
    if m.contains_key(key) {
        Some(m[key])
    } else {
        None
    }
}

/// Where `key` stands in `entries`, if anywhere.
fn position(entries: &Vec<(String, String)>, key: &String) -> (r: Option<usize>)
    ensures
        r matches Some(i) ==> i < entries@.len() && entries@[i as int].0@ == key@,
        r is None ==> forall|j: int| 0 <= j < entries@.len() ==> entries@[j].0@ != key@,
{
    let mut i: usize = 0;
    while i < entries.len()
        invariant
            i <= entries@.len(),
            forall|j: int| 0 <= j < i ==> entries@[j].0@ != key@,
        decreases entries@.len() - i,
    {
        if entries[i].0 == *key {
            return Some(i);
        }
        i = i + 1;
    }
    None
}

impl Store {
    /// The entries match the contents, one entry per key.
    #[verifier::type_invariant]
    spec fn well_formed(&self) -> bool {
        Store::invariant_holds(self.entries@, self.contents@)
    }

    spec fn invariant_holds(e: Seq<(String, String)>, m: Map<Seq<char>, Seq<char>>) -> bool {
        &&& forall|i: int| 0 <= i < e.len() ==> #[trigger] m.contains_key(e[i].0@) && m[e[i].0@] == e[i].1@
        &&& forall|k: Seq<char>| #[trigger] m.contains_key(k) ==> exists|i: int| 0 <= i < e.len() && e[i].0@ == k
        &&& forall|i: int, j: int| 0 <= i < j < e.len() ==> e[i].0@ != e[j].0@
        &&& m.dom().finite() && m.dom().len() == e.len()
    }

    /// An empty store.
    pub fn new() -> (r: Store)
        ensures
            r@ == Map::<Seq<char>, Seq<char>>::empty(),
    {
        Store { entries: Vec::new(), contents: Ghost(Map::empty()) }
    }

    /// The number of keys stored.
    pub fn len(&self) -> (r: usize)
        ensures
            r == self@.dom().len(),
    {
        proof {
            use_type_invariant(self);
        }
        self.entries.len()
    }

    /// The value stored under `key`, or `None` where there is none.
    pub fn get(&self, key: &String) -> (r: Option<String>)
        ensures
            opt_view(r) == lookup(self@, key@),
    {
        proof {
            use_type_invariant(self);
        }
        match position(&self.entries, key) {
            Some(i) => Some(self.entries[i].1.clone()),
            None => None,
        }
    }

    /// Stores `value` under `key`, replacing any value that was there.
    pub fn put(&mut self, key: String, value: String)
        ensures
            final(self)@ == old(self)@.insert(key@, value@),
    {
        proof {
            use_type_invariant(&*self);
        }
        let mut taken = Store::new();
        core::mem::swap(self, &mut taken);
        proof {
            use_type_invariant(&taken);
        }
        let Store { mut entries, contents } = taken;
        let ghost k = key@;
        let ghost v = value@;
        let ghost m0 = contents@;
        let ghost m = m0.insert(k, v);
        let ghost e0 = entries@;
        let ghost idx: int;
        match position(&entries, &key) {
            Some(i) => {
                entries.set(i, (key, value));
                proof {
                    idx = i as int;
                }
            },
            None => {
                entries.push((key, value));
                proof {
                    idx = e0.len() as int;
                }
            },
        }
        proof {
            if idx < e0.len() {
                assert(m0.contains_key(e0[idx].0@));
                assert(m.dom() =~= m0.dom());
            } else {
                if m0.contains_key(k) {
                    let j = choose|j: int| 0 <= j < e0.len() && e0[j].0@ == k;
                }
                assert(m.dom() =~= m0.dom().insert(k));
            }
        }
        assert(entries@[idx].0@ == k && entries@[idx].1@ == v);
        assert forall|i: int| 0 <= i < entries@.len() implies #[trigger] m.contains_key(entries@[i].0@)
            && m[entries@[i].0@] == entries@[i].1@ by {
            if i != idx {
                assert(entries@[i] == e0[i]);
                assert(m0.contains_key(e0[i].0@));
                if idx < e0.len() {
                    assert(e0[idx].0@ == k);
                }
            }
        }
        assert forall|i: int, j: int| 0 <= i < j < entries@.len() implies entries@[i].0@
            != entries@[j].0@ by {
            if i != idx && j != idx {
                assert(entries@[i] == e0[i] && entries@[j] == e0[j]);
            } else if i == idx {
                assert(entries@[j] == e0[j]);
            } else {
                assert(entries@[i] == e0[i]);
            }
        }
        assert forall|q: Seq<char>| #[trigger] m.contains_key(q) implies exists|i: int|
            0 <= i < entries@.len() && entries@[i].0@ == q by {
            if q != k {
                let j = choose|j: int| 0 <= j < e0.len() && e0[j].0@ == q;
                assert(entries@[j].0@ == q);
            }
        }
        assert(Store::invariant_holds(entries@, m));
        *self = Store { entries, contents: Ghost(m) };
    }
}


/// The mapping after storing each pair of `ops` in order, starting from `m`.
pub open spec fn apply_puts(m: Map<Seq<char>, Seq<char>>, ops: Seq<(Seq<char>, Seq<char>)>) -> Map<Seq<char>, Seq<char>>
    decreases ops.len(),
{
    if ops.len() == 0 {
        m
    } else {
        apply_puts(m, ops.drop_last()).insert(ops.last().0, ops.last().1)
    }
}

/// Storing a second value under a key and then loading that key gives the
/// second value.
pub proof fn lemma_overwrite(m: Map<Seq<char>, Seq<char>>, k: Seq<char>, v1: Seq<char>, v2: Seq<char>)
    ensures
        lookup(m.insert(k, v1).insert(k, v2), k) == Some(v2),
{
}

/// Starting from an empty store, a key that no store operation named is not
/// found.
pub proof fn lemma_miss_before_write(ops: Seq<(Seq<char>, Seq<char>)>, k: Seq<char>)
    requires
        forall|i: int| 0 <= i < ops.len() ==> ops[i].0 != k,
    ensures
        lookup(apply_puts(Map::empty(), ops), k) is None,
    decreases ops.len(),
{
    if ops.len() > 0 {
        lemma_miss_before_write(ops.drop_last(), k);
    }
}

/// A key that no store operation names keeps what it had.
proof fn lemma_untouched_key(m: Map<Seq<char>, Seq<char>>, ops: Seq<(Seq<char>, Seq<char>)>, k: Seq<char>)
    requires
        forall|i: int| 0 <= i < ops.len() ==> ops[i].0 != k,
    ensures
        lookup(apply_puts(m, ops), k) == lookup(m, k),
    decreases ops.len(),
{
    if ops.len() > 0 {
        lemma_untouched_key(m, ops.drop_last(), k);
    }
}

/// When the stores name distinct keys, every order in which they are applied
/// leaves each key with its own value: whatever the interleaving, each writer
/// later loads what it stored.
pub proof fn lemma_distinct_keys_keep_values(m: Map<Seq<char>, Seq<char>>, ops: Seq<(Seq<char>, Seq<char>)>, i: int)
    requires
        0 <= i < ops.len(),
        forall|a: int, b: int| 0 <= a < b < ops.len() ==> ops[a].0 != ops[b].0,
    ensures
        lookup(apply_puts(m, ops), ops[i].0) == Some(ops[i].1),
    decreases ops.len(),
{
    if i < ops.len() - 1 {
        lemma_distinct_keys_keep_values(m, ops.drop_last(), i);
    }
}

/// Stores of distinct keys, applied in any two orders that hold the same
/// operations, leave the same mapping: however connections interleave their
/// stores of distinct keys, the outcome is that of applying them one by one.
pub proof fn lemma_distinct_puts_any_order(
    m: Map<Seq<char>, Seq<char>>,
    ops1: Seq<(Seq<char>, Seq<char>)>,
    ops2: Seq<(Seq<char>, Seq<char>)>,
)
    requires
        ops1.to_multiset() == ops2.to_multiset(),
        forall|a: int, b: int| 0 <= a < b < ops1.len() ==> ops1[a].0 != ops1[b].0,
        forall|a: int, b: int| 0 <= a < b < ops2.len() ==> ops2[a].0 != ops2[b].0,
    ensures
        apply_puts(m, ops1) == apply_puts(m, ops2),
{
    broadcast use vstd::seq_lib::group_to_multiset_ensures;

    let r1 = apply_puts(m, ops1);
    let r2 = apply_puts(m, ops2);
    assert forall|k: Seq<char>| lookup(r1, k) == lookup(r2, k) by {
        if exists|i: int| 0 <= i < ops1.len() && ops1[i].0 == k {
            let i = choose|i: int| 0 <= i < ops1.len() && ops1[i].0 == k;
            assert(ops1.contains(ops1[i]));
            assert(ops1.to_multiset().count(ops1[i]) > 0);
            assert(ops2.to_multiset().count(ops1[i]) > 0);
            assert(ops2.contains(ops1[i]));
            let j = choose|j: int| 0 <= j < ops2.len() && ops2[j] == ops1[i];
            lemma_distinct_keys_keep_values(m, ops1, i);
            lemma_distinct_keys_keep_values(m, ops2, j);
        } else {
            assert forall|j: int| 0 <= j < ops2.len() implies ops2[j].0 != k by {
                assert(ops2.contains(ops2[j]));
                assert(ops2.to_multiset().count(ops2[j]) > 0);
                assert(ops1.to_multiset().count(ops2[j]) > 0);
                assert(ops1.contains(ops2[j]));
            }
            lemma_untouched_key(m, ops1, k);
            lemma_untouched_key(m, ops2, k);
        }
    }
    assert(r1.dom() =~= r2.dom()) by {
        assert forall|k: Seq<char>| r1.dom().contains(k) <==> r2.dom().contains(k) by {
            assert(lookup(r1, k) == lookup(r2, k));
        }
    }
    assert forall|k: Seq<char>| #[trigger] r1.dom().contains(k) implies r1[k] == r2[k] by {
        assert(lookup(r1, k) == lookup(r2, k));
    }
    assert(r1 =~= r2);
}

} // verus!
