use vstd::prelude::*;
use crate::symbols::{Direction, State, Symbol};

verus! {

/// What a transition does: the next state, the symbol to write, and the
/// direction in which the head moves.
pub type Action = (State, Symbol, Direction);

/// A deterministic transition function: a finite map from (state, read symbol)
/// to an action. A pair that has no entry halts the machine.
///
/// The entries are kept in insertion order, with no key repeated.
pub struct TransitionFunction {
    entries: Vec<((State, Symbol), Action)>,
}

/// The key of entry `i`.
pub open spec fn key_at(entries: Seq<((State, Symbol), Action)>, i: int) -> (State, Symbol) {
    entries[i].0
}

/// No two entries share a key.
pub open spec fn keys_unique(entries: Seq<((State, Symbol), Action)>) -> bool {
    forall|i: int, j: int|
        0 <= i < entries.len() && 0 <= j < entries.len() && i != j ==> #[trigger] key_at(entries, i)
            != #[trigger] key_at(entries, j)
}

/// The map that a list of entries with unique keys stands for.
pub open spec fn entries_map(entries: Seq<((State, Symbol), Action)>) -> Map<(State, Symbol), Action>
    decreases entries.len(),
{
    if entries.len() == 0 {
        Map::empty()
    } else {
        let last = entries.last();
        entries_map(entries.drop_last()).insert(last.0, last.1)
    }
}

proof fn lemma_entries_map_lookup(entries: Seq<((State, Symbol), Action)>, key: (State, Symbol))
    requires
        keys_unique(entries),
    ensures
        entries_map(entries).contains_key(key) <==> exists|i: int|
            0 <= i < entries.len() && #[trigger] key_at(entries, i) == key,
        forall|i: int|
            0 <= i < entries.len() && #[trigger] key_at(entries, i) == key ==> entries_map(
                entries,
            )[key] == entries[i].1,
    decreases entries.len(),
{
    if entries.len() > 0 {
        let init = entries.drop_last();
        assert(keys_unique(init)) by {
            assert forall|i: int, j: int|
                0 <= i < init.len() && 0 <= j < init.len() && i != j implies #[trigger] key_at(
                init,
                i,
            ) != #[trigger] key_at(init, j) by {
                assert(key_at(init, i) == key_at(entries, i));
                assert(key_at(init, j) == key_at(entries, j));
            }
        }
        lemma_entries_map_lookup(init, key);
        let n = entries.len() - 1;
        if key_at(entries, n) != key {
            if entries_map(entries).contains_key(key) {
                let i = choose|i: int| 0 <= i < init.len() && #[trigger] key_at(init, i) == key;
                assert(key_at(entries, i) == key);
            }
            if exists|i: int| 0 <= i < entries.len() && #[trigger] key_at(entries, i) == key {
                let i = choose|i: int| 0 <= i < entries.len() && #[trigger] key_at(entries, i) == key;
                assert(key_at(init, i) == key);
            }
        } else {
            assert(key_at(entries, n) == key);
        }
        assert forall|i: int|
            0 <= i < entries.len() && #[trigger] key_at(entries, i) == key implies entries_map(
            entries,
        )[key] == entries[i].1 by {
            if i < n {
                assert(key_at(init, i) == key);
            }
        }
    }
}

impl View for TransitionFunction {
    type V = Map<(State, Symbol), Action>;

    closed spec fn view(&self) -> Map<(State, Symbol), Action> {
        entries_map(self.entries@)
    }
}

impl TransitionFunction {
    /// The entries have unique keys.
    pub closed spec fn wf(&self) -> bool {
        keys_unique(self.entries@)
    }

    /// An empty transition function: every machine that uses it halts at once.
    pub fn new() -> (r: TransitionFunction)
        ensures
            r.wf(),
            r@ == Map::<(State, Symbol), Action>::empty(),
    {
        TransitionFunction { entries: Vec::new() }
    }

    /// The index of the entry for `key`, if there is one.
    fn find(&self, key: (State, Symbol)) -> (r: Option<usize>)
        requires
            self.wf(),
        ensures
            match r {
                Some(i) => i < self.entries@.len() && key_at(self.entries@, i as int) == key,
                None => forall|i: int|
                    0 <= i < self.entries@.len() ==> #[trigger] key_at(self.entries@, i) != key,
            },
    {
        let mut i: usize = 0;
        while i < self.entries.len()
            invariant
                i <= self.entries@.len(),
                forall|j: int| 0 <= j < i ==> #[trigger] key_at(self.entries@, j) != key,
            decreases self.entries@.len() - i,
        {
            let (state, symbol) = self.entries[i].0;
            if state == key.0 && symbol == key.1 {
                return Some(i);
            }
            i = i + 1;
        }
        None
    }

    /// The action for `key`, or `None` where the function has no entry for it.
    pub fn get(&self, key: (State, Symbol)) -> (r: Option<Action>)
        requires
            self.wf(),
        ensures
            r == (if self@.contains_key(key) {
                Some(self@[key])
            } else {
                None
            }),
    {
        proof {
            lemma_entries_map_lookup(self.entries@, key);
        }
        match self.find(key) {
            Some(i) => Some(self.entries[i].1),
            None => None,
        }
    }

    /// Sets the action for `key`, and returns the action it replaced, if any.
    pub fn insert(&mut self, key: (State, Symbol), value: Action) -> (r: Option<Action>)
        requires
            old(self).wf(),
        ensures
            final(self).wf(),
            final(self)@ == old(self)@.insert(key, value),
            r == (if old(self)@.contains_key(key) {
                Some(old(self)@[key])
            } else {
                None
            }),
    {
        let ghost before = self.entries@;
        proof {
            lemma_entries_map_lookup(before, key);
        }
        let r = match self.find(key) {
            Some(i) => {
                let previous = self.entries[i].1;
                self.entries.set(i, (key, value));
                assert(forall|j: int|
                    0 <= j < before.len() ==> #[trigger] key_at(self.entries@, j) == key_at(
                        before,
                        j,
                    ));
                Some(previous)
            },
            None => {
                self.entries.push((key, value));
                assert(forall|j: int|
                    0 <= j < before.len() ==> #[trigger] key_at(self.entries@, j) == key_at(
                        before,
                        j,
                    ));
                assert(key_at(self.entries@, before.len() as int) == key);
                None
            },
        };
        let ghost after = self.entries@;
        assert(keys_unique(after));
        assert forall|k: (State, Symbol)|
            #![trigger entries_map(after).contains_key(k)]
            #![trigger entries_map(before).insert(key, value).contains_key(k)]
            entries_map(after).contains_key(k) == entries_map(before).insert(
                key,
                value,
            ).contains_key(k) && (entries_map(after).contains_key(k) ==> entries_map(after)[k]
                == entries_map(before).insert(key, value)[k]) by {
            lemma_entries_map_lookup(before, k);
            lemma_entries_map_lookup(after, k);
            if k != key {
                if exists|j: int| 0 <= j < after.len() && #[trigger] key_at(after, j) == k {
                    let j = choose|j: int| 0 <= j < after.len() && #[trigger] key_at(after, j) == k;
                    assert(key_at(before, j) == k);
                }
                if exists|j: int| 0 <= j < before.len() && #[trigger] key_at(before, j) == k {
                    let j = choose|j: int| 0 <= j < before.len() && #[trigger] key_at(before, j) == k;
                    assert(key_at(after, j) == k);
                }
            } else {
                if exists|j: int| 0 <= j < before.len() && #[trigger] key_at(before, j) == k {
                    let j = choose|j: int| 0 <= j < before.len() && #[trigger] key_at(before, j) == k;
                    assert(key_at(after, j) == k);
                } else {
                    assert(key_at(after, before.len() as int) == k);
                }
            }
        }
        assert(entries_map(after) =~= entries_map(before).insert(key, value));
        r
    }
}

} // verus!
