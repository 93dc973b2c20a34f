//! The last reported floor of each peer elevator, keyed by the peer's
//! network identifier.
//!
//! The table behaves as a map: at most one entry per identifier.  It is
//! held as an association list so that the map semantics of every
//! operation is stated and proved, not assumed.

use vstd::prelude::*;

verus! {

/// The floor recorded for `key` in the association list `s`: the value of
/// the first entry whose key matches, or `None` when no entry matches.
pub open spec fn lookup(s: Seq<(Seq<char>, int)>, key: Seq<char>) -> Option<int>
    decreases s.len(),
{
    if s.len() == 0 {
        None
    } else if s[0].0 == key {
        Some(s[0].1)
    } else {
        lookup(s.drop_first(), key)
    }
}

/// A key that appears in no entry is not found.
pub proof fn lemma_lookup_none(s: Seq<(Seq<char>, int)>, key: Seq<char>)
    requires
        forall|i: int| 0 <= i < s.len() ==> (#[trigger] s[i]).0 != key,
    ensures
        lookup(s, key) is None,
    decreases s.len(),
{
    if s.len() > 0 {
        assert(s[0].0 != key);
        assert forall|i: int| 0 <= i < s.drop_first().len() implies (#[trigger] s.drop_first()[
            i
        ]).0 != key by {
            assert(s.drop_first()[i] == s[i + 1]);
        }
        lemma_lookup_none(s.drop_first(), key);
    }
}

/// The entry at the first index whose key matches is the one found.
pub proof fn lemma_lookup_at(s: Seq<(Seq<char>, int)>, key: Seq<char>, i: int)
    requires
        0 <= i < s.len(),
        s[i].0 == key,
        forall|j: int| 0 <= j < i ==> (#[trigger] s[j]).0 != key,
    ensures
        lookup(s, key) == Some(s[i].1),
    decreases i,
{
    if i > 0 {
        assert(s[0].0 != key);
        assert forall|j: int| 0 <= j < i - 1 implies (#[trigger] s.drop_first()[j]).0 != key by {
            assert(s.drop_first()[j] == s[j + 1]);
        }
        assert(s.drop_first()[i - 1] == s[i]);
        lemma_lookup_at(s.drop_first(), key, i - 1);
    }
}

/// Replacing an entry by one with the same key changes no other key's
/// lookup result.
pub proof fn lemma_lookup_skip_update(
    s: Seq<(Seq<char>, int)>,
    i: int,
    entry: (Seq<char>, int),
    key: Seq<char>,
)
    requires
        0 <= i < s.len(),
        s[i].0 == entry.0,
        entry.0 != key,
    ensures
        lookup(s.update(i, entry), key) == lookup(s, key),
    decreases s.len(),
{
    let t = s.update(i, entry);
    if i == 0 {
        assert(t[0].0 == entry.0);
        assert(t.drop_first() =~= s.drop_first());
    } else {
        assert(t[0] == s[0]);
        if s[0].0 != key {
            assert(t.drop_first() =~= s.drop_first().update(i - 1, entry));
            assert(s.drop_first()[i - 1] == s[i]);
            lemma_lookup_skip_update(s.drop_first(), i - 1, entry, key);
        }
    }
}

/// Appending an entry leaves every other key's lookup result unchanged,
/// and makes its own key found when it was absent before.
pub proof fn lemma_lookup_push(s: Seq<(Seq<char>, int)>, entry: (Seq<char>, int), key: Seq<char>)
    ensures
        entry.0 != key ==> lookup(s.push(entry), key) == lookup(s, key),
        (entry.0 == key && (forall|i: int| 0 <= i < s.len() ==> (#[trigger] s[i]).0 != key))
            ==> lookup(s.push(entry), key) == Some(entry.1),
    decreases s.len(),
{
    if s.len() == 0 {
        assert(s.push(entry)[0] == entry);
        if entry.0 != key {
            assert(s.push(entry).drop_first() =~= Seq::<(Seq<char>, int)>::empty());
        }
    } else {
        assert(s.push(entry)[0] == s[0]);
        assert(s.push(entry).drop_first() =~= s.drop_first().push(entry));
        if forall|i: int| 0 <= i < s.len() ==> (#[trigger] s[i]).0 != key {
            assert forall|i: int| 0 <= i < s.drop_first().len() implies (#[trigger] s.drop_first()[
                i
            ]).0 != key by {
                assert(s.drop_first()[i] == s[i + 1]);
            }
        }
        lemma_lookup_push(s.drop_first(), entry, key);
    }
}

/// Removing an entry whose key differs changes no lookup result for that
/// other key.
pub proof fn lemma_lookup_skip_remove(s: Seq<(Seq<char>, int)>, i: int, key: Seq<char>)
    requires
        0 <= i < s.len(),
        s[i].0 != key,
    ensures
        lookup(s.remove(i), key) == lookup(s, key),
    decreases s.len(),
{
    let t = s.remove(i);
    s.remove_ensures(i);
    if i == 0 {
        assert(t =~= s.drop_first());
    } else {
        assert(t[0] == s[0]);
        if s[0].0 != key {
            assert(t.drop_first() =~= s.drop_first().remove(i - 1));
            assert(s.drop_first()[i - 1] == s[i]);
            lemma_lookup_skip_remove(s.drop_first(), i - 1, key);
        }
    }
}

/// Last reported floor of each peer elevator, at most one entry per peer.
pub struct ElevatorPositions {
    positions: Vec<(String, usize)>,
}

impl View for ElevatorPositions {
    type V = Seq<(Seq<char>, int)>;

    closed spec fn view(&self) -> Seq<(Seq<char>, int)> {
        self.positions@.map(|i: int, p: (String, usize)| (p.0@, p.1 as int))
    }
}

impl ElevatorPositions {
    /// Map discipline: no two entries share a key.
    pub open spec fn wf(&self) -> bool {
        forall|i: int, j: int|
            0 <= i < j < self@.len() ==> (#[trigger] self@[i]).0 != (#[trigger] self@[j]).0
    }

    /// An empty table: no peer has reported a floor.
    pub fn new() -> (res: Self)
        ensures
            res.wf(),
            res@ == Seq::<(Seq<char>, int)>::empty(),
            forall|key: Seq<char>| lookup(res@, key) is None,
    {
        let res = ElevatorPositions { positions: Vec::new() };
        proof {
            assert(res@ =~= Seq::<(Seq<char>, int)>::empty());
        }
        res
    }

    /// The floor last reported by `ip`, if any.
    pub fn get(&self, ip: &String) -> (res: Option<usize>)
        ensures
            match res {
                Some(floor) => lookup(self@, ip@) == Some(floor as int),
                None => lookup(self@, ip@) is None,
            },
    {
        let mut i: usize = 0;
        while i < self.positions.len()
            invariant
                i <= self@.len(),
                forall|j: int| 0 <= j < i ==> (#[trigger] self@[j]).0 != ip@,
            decreases self@.len() - i,
        {
            if self.positions[i].0.eq(ip) {
                proof {
                    lemma_lookup_at(self@, ip@, i as int);
                }
                return Some(self.positions[i].1);
            }
            i = i + 1;
        }
        proof {
            lemma_lookup_none(self@, ip@);
        }
        None
    }

    /// Record that `ip` is at `floor`: its entry is replaced or created,
    /// and no other peer's entry changes.
    pub fn update(&mut self, ip: String, floor: usize)
        requires
            old(self).wf(),
        ensures
            final(self).wf(),
            lookup(final(self)@, ip@) == Some(floor as int),
            forall|key: Seq<char>|
                key != ip@ ==> #[trigger] lookup(final(self)@, key) == lookup(old(self)@, key),
    {
        let ghost s = self@;
        let mut i: usize = 0;
        while i < self.positions.len()
            invariant
                self@ == s,
                old(self)@ == s,
                i <= s.len(),
                forall|a: int, b: int|
                    0 <= a < b < s.len() ==> (#[trigger] s[a]).0 != (#[trigger] s[b]).0,
                forall|j: int| 0 <= j < i ==> (#[trigger] s[j]).0 != ip@,
            decreases s.len() - i,
        {
            if self.positions[i].0.eq(&ip) {
                proof {
                    assert(s[i as int].0 == ip@);
                }
                self.positions.set(i, (ip, floor));
                proof {
                    let ghost t = self@;
                    assert(t =~= s.update(i as int, (s[i as int].0, floor as int)));
                    assert forall|a: int, b: int|
                        0 <= a < b < t.len() implies (#[trigger] t[a]).0 != (#[trigger] t[b]).0 by {
                        assert(t[a].0 == s[a].0);
                        assert(t[b].0 == s[b].0);
                    }
                    lemma_lookup_at(t, s[i as int].0, i as int);
                    assert forall|key: Seq<char>| key != s[i as int].0 implies #[trigger] lookup(
                        t,
                        key,
                    ) == lookup(s, key) by {
                        lemma_lookup_skip_update(
                            s,
                            i as int,
                            (s[i as int].0, floor as int),
                            key,
                        );
                    }
                }
                return ;
            }
            i = i + 1;
        }
        let ghost entry = (ip@, floor as int);
        self.positions.push((ip, floor));
        proof {
            let ghost t = self@;
            assert(t =~= s.push(entry));
            assert forall|a: int, b: int|
                0 <= a < b < t.len() implies (#[trigger] t[a]).0 != (#[trigger] t[b]).0 by {
                if b < s.len() {
                    assert(t[a] == s[a]);
                    assert(t[b] == s[b]);
                } else {
                    assert(t[a] == s[a]);
                    assert(t[b] == entry);
                }
            }
            assert forall|key: Seq<char>| #[trigger]
                lookup(t, key) == if key == entry.0 {
                    Some(entry.1)
                } else {
                    lookup(s, key)
                } by {
                lemma_lookup_push(s, entry, key);
            }
        }
    }

    /// Forget the entry of `ip` (a peer that left): afterwards `ip` has no
    /// entry, and no other peer's entry changes.
    pub fn remove(&mut self, ip: &String)
        requires
            old(self).wf(),
        ensures
            final(self).wf(),
            lookup(final(self)@, ip@) is None,
            forall|key: Seq<char>|
                key != ip@ ==> #[trigger] lookup(final(self)@, key) == lookup(old(self)@, key),
    {
        let ghost s = self@;
        let mut i: usize = 0;
        while i < self.positions.len()
            invariant
                self@ == s,
                old(self)@ == s,
                i <= s.len(),
                forall|a: int, b: int|
                    0 <= a < b < s.len() ==> (#[trigger] s[a]).0 != (#[trigger] s[b]).0,
                forall|j: int| 0 <= j < i ==> (#[trigger] s[j]).0 != ip@,
            decreases s.len() - i,
        {
            if self.positions[i].0.eq(ip) {
                proof {
                    assert(s[i as int].0 == ip@);
                }
                self.positions.remove(i);
                proof {
                    let ghost t = self@;
                    assert(t =~= s.remove(i as int));
                    s.remove_ensures(i as int);
                    assert forall|a: int, b: int|
                        0 <= a < b < t.len() implies (#[trigger] t[a]).0 != (#[trigger] t[b]).0 by {
                        let sa: int = if a < i as int { a } else { a + 1 };
                        let sb: int = if b < i as int { b } else { b + 1 };
                        assert(t[a] == s[sa]);
                        assert(t[b] == s[sb]);
                    }
                    assert forall|j: int| 0 <= j < t.len() implies (#[trigger] t[j]).0 != ip@ by {
                        let sj: int = if j < i as int { j } else { j + 1 };
                        assert(t[j] == s[sj]);
                    }
                    lemma_lookup_none(t, ip@);
                    assert forall|key: Seq<char>| key != ip@ implies #[trigger] lookup(t, key)
                        == lookup(s, key) by {
                        lemma_lookup_skip_remove(s, i as int, key);
                    }
                }
                return ;
            }
            i = i + 1;
        }
        proof {
            lemma_lookup_none(s, ip@);
        }
    }
}

} // verus!
