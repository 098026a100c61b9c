//! Which way round each word pair was last dealt, so that two consecutive
//! deals of the same pair swap the civilian word and the imposter word.

use vstd::prelude::*;

verus! {

/// The orientation recorded for one word pair of one category.
#[derive(Clone, Copy)]
struct OrientationEntry {
    category: usize,
    pair: usize,
    flip: bool,
}

/// A finite map from `(category index, pair index)` to the orientation that
/// the next deal of that pair will use.
pub struct OrientationMap {
    entries: Vec<OrientationEntry>,
}

/// The orientation that a deal of the pair `key` uses: the recorded one, or
/// `seed` where none is recorded yet.
pub open spec fn orientation_flip(recorded: Map<(nat, nat), bool>, key: (nat, nat), seed: bool) -> bool {
    if recorded.contains_key(key) {
        recorded[key]
    } else {
        seed
    }
}

/// The record after a deal of the pair `key`: the opposite of what that deal
/// used is stored for the next one.
pub open spec fn orientation_after(recorded: Map<(nat, nat), bool>, key: (nat, nat), seed: bool) -> Map<
    (nat, nat),
    bool,
> {
    recorded.insert(key, !orientation_flip(recorded, key, seed))
}

spec fn entry_key(e: OrientationEntry) -> (nat, nat) {
    (e.category as nat, e.pair as nat)
}

spec fn holds_key(entries: Seq<OrientationEntry>, key: (nat, nat), i: int) -> bool {
    0 <= i < entries.len() && entry_key(entries[i]) == key
}

spec fn distinct_keys(entries: Seq<OrientationEntry>) -> bool {
    forall|i: int, j: int|
        0 <= i < j < entries.len() ==> entry_key(#[trigger] entries[i]) != entry_key(#[trigger] entries[j])
}

spec fn entries_map(entries: Seq<OrientationEntry>) -> Map<(nat, nat), bool> {
    Map::new(
        |key: (nat, nat)| exists|i: int| holds_key(entries, key, i),
        |key: (nat, nat)| entries[choose|i: int| holds_key(entries, key, i)].flip,
    )
}

impl OrientationMap {
    #[verifier::type_invariant]
    spec fn well_formed(self) -> bool {
        distinct_keys(self.entries@)
    }

    /// The recorded orientations.
    pub closed spec fn view(&self) -> Map<(nat, nat), bool> {
        entries_map(self.entries@)
    }

    /// A record that holds no pair yet.
    pub fn new() -> (r: Self)
        ensures
            r@ == Map::<(nat, nat), bool>::empty(),
    {
        let r = OrientationMap { entries: Vec::new() };
        assert(r@ =~= Map::<(nat, nat), bool>::empty());
        r
    }

    /// Position of the entry for a pair, if one is recorded.
    fn position(&self, category: usize, pair: usize) -> (r: Option<usize>)
        ensures
            match r {
                Some(i) => holds_key(self.entries@, (category as nat, pair as nat), i as int),
                None => forall|i: int| !holds_key(self.entries@, (category as nat, pair as nat), i),
            },
    {
        let mut i: usize = 0;
        while i < self.entries.len()
            invariant
                i <= self.entries.len(),
                forall|j: int| 0 <= j < i ==> !holds_key(self.entries@, (category as nat, pair as nat), j),
            decreases self.entries.len() - i,
        {
            if self.entries[i].category == category && self.entries[i].pair == pair {
                return Some(i);
            }
            i += 1;
        }
        None
    }

    /// The orientation recorded for a pair, if any.
    pub fn lookup(&self, category: usize, pair: usize) -> (r: Option<bool>)
        ensures
            r is Some <==> self@.contains_key((category as nat, pair as nat)),
            r is Some ==> r->0 == self@[(category as nat, pair as nat)],
    {
        proof {
            use_type_invariant(self);
        }
        let ghost key = (category as nat, pair as nat);
        match self.position(category, pair) {
            Some(i) => {
                proof {
                    let c = choose|j: int| holds_key(self.entries@, key, j);
                    assert(holds_key(self.entries@, key, i as int));
                    assert(c == i);
                }
                Some(self.entries[i].flip)
            },
            None => None,
        }
    }

    /// Number of pairs recorded.
    pub fn len(&self) -> (r: usize)
        ensures
            r == self@.dom().len(),
            self@.dom().finite(),
    {
        proof {
            use_type_invariant(self);
            lemma_entries_dom(self.entries@);
        }
        self.entries.len()
    }

    /// Takes the orientation for a deal of the pair and stores its opposite
    /// for the next deal of the same pair.
    pub fn next_flip(&mut self, category: usize, pair: usize, seed: bool) -> (flip: bool)
        ensures
            flip == orientation_flip(old(self)@, (category as nat, pair as nat), seed),
            final(self)@ == orientation_after(old(self)@, (category as nat, pair as nat), seed),
    {
        proof {
            use_type_invariant(&*self);
        }
        let ghost key = (category as nat, pair as nat);
        let ghost before = self.entries@;
        match self.position(category, pair) {
            Some(i) => {
                let flip = self.entries[i].flip;
                proof {
                    let c = choose|j: int| holds_key(before, key, j);
                    assert(holds_key(before, key, i as int));
                    assert(c == i);
                }
                let entries = replaced(&self.entries, i, OrientationEntry { category, pair, flip: !flip });
                proof {
                    let after = entries@;
                    assert forall|a: int, b: int| 0 <= a < b < after.len() implies entry_key(
                        #[trigger] after[a],
                    ) != entry_key(#[trigger] after[b]) by {
                        assert(entry_key(after[a]) == entry_key(before[a]));
                        assert(entry_key(after[b]) == entry_key(before[b]));
                    }
                    lemma_set_entry(before, after, i as int, key, !flip);
                }
                *self = OrientationMap { entries };
                flip
            },
            None => {
                let entries = appended(&self.entries, OrientationEntry { category, pair, flip: !seed });
                proof {
                    let after = entries@;
                    assert forall|a: int, b: int| 0 <= a < b < after.len() implies entry_key(
                        #[trigger] after[a],
                    ) != entry_key(#[trigger] after[b]) by {
                        if b == before.len() {
                            assert(!holds_key(before, key, a));
                            assert(after[a] == before[a]);
                        } else {
                            assert(after[a] == before[a]);
                            assert(after[b] == before[b]);
                        }
                    }
                    lemma_push_entry(before, after, key, !seed);
                }
                *self = OrientationMap { entries };
                seed
            },
        }
    }
}

/// A copy of the entries with the one at `i` replaced.
fn replaced(entries: &Vec<OrientationEntry>, i: usize, entry: OrientationEntry) -> (r: Vec<OrientationEntry>)
    requires
        i < entries.len(),
    ensures
        r@ == entries@.update(i as int, entry),
{
    let mut out: Vec<OrientationEntry> = Vec::new();
    let mut j: usize = 0;
    while j < entries.len()
        invariant
            j <= entries.len(),
            i < entries.len(),
            out@ == entries@.update(i as int, entry).take(j as int),
        decreases entries.len() - j,
    {
        out.push(if j == i { entry } else { entries[j] });
        j += 1;
    }
    out
}

/// A copy of the entries with one more at the end.
fn appended(entries: &Vec<OrientationEntry>, entry: OrientationEntry) -> (r: Vec<OrientationEntry>)
    ensures
        r@ == entries@.push(entry),
{
    let mut out: Vec<OrientationEntry> = Vec::new();
    let mut j: usize = 0;
    while j < entries.len()
        invariant
            j <= entries.len(),
            out@ == entries@.take(j as int),
        decreases entries.len() - j,
    {
        out.push(entries[j]);
        j += 1;
    }
    out.push(entry);
    out
}

/// With distinct keys, the entry found for a key is the one the map reads.
proof fn lemma_entry_value(entries: Seq<OrientationEntry>, key: (nat, nat), i: int)
    requires
        distinct_keys(entries),
        holds_key(entries, key, i),
    ensures
        entries_map(entries).contains_key(key),
        entries_map(entries)[key] == entries[i].flip,
{
    let c = choose|j: int| holds_key(entries, key, j);
    assert(holds_key(entries, key, c));
    if c < i {
        assert(entry_key(entries[c]) != entry_key(entries[i]));
    } else if i < c {
        assert(entry_key(entries[i]) != entry_key(entries[c]));
    }
}

proof fn lemma_set_entry(
    before: Seq<OrientationEntry>,
    after: Seq<OrientationEntry>,
    i: int,
    key: (nat, nat),
    flip: bool,
)
    requires
        distinct_keys(before),
        distinct_keys(after),
        holds_key(before, key, i),
        after.len() == before.len(),
        entry_key(after[i]) == key,
        after[i].flip == flip,
        forall|j: int| 0 <= j < before.len() && j != i ==> after[j] == before[j],
    ensures
        entries_map(after) == entries_map(before).insert(key, flip),
{
    let m1 = entries_map(after);
    let m2 = entries_map(before).insert(key, flip);
    assert forall|k: (nat, nat)| m1.contains_key(k) <==> m2.contains_key(k) by {
        if m1.contains_key(k) {
            let j = choose|j: int| holds_key(after, k, j);
            if j != i {
                assert(holds_key(before, k, j));
            }
        }
        if m2.contains_key(k) {
            if k == key {
                assert(holds_key(after, k, i));
            } else {
                let j = choose|j: int| holds_key(before, k, j);
                assert(j != i);
                assert(holds_key(after, k, j));
            }
        }
    }
    assert forall|k: (nat, nat)| m1.contains_key(k) implies m1[k] == m2[k] by {
        let j = choose|j: int| holds_key(after, k, j);
        lemma_entry_value(after, k, j);
        if j == i {
            assert(k == key);
        } else {
            assert(holds_key(before, k, j));
            lemma_entry_value(before, k, j);
        }
    }
    assert(m1 =~= m2);
}

proof fn lemma_push_entry(
    before: Seq<OrientationEntry>,
    after: Seq<OrientationEntry>,
    key: (nat, nat),
    flip: bool,
)
    requires
        distinct_keys(before),
        distinct_keys(after),
        forall|j: int| !holds_key(before, key, j),
        after.len() == before.len() + 1,
        entry_key(after[before.len() as int]) == key,
        after[before.len() as int].flip == flip,
        forall|j: int| 0 <= j < before.len() ==> after[j] == before[j],
    ensures
        entries_map(after) == entries_map(before).insert(key, flip),
        !entries_map(before).contains_key(key),
{
    let n = before.len() as int;
    let m1 = entries_map(after);
    let m2 = entries_map(before).insert(key, flip);
    assert forall|k: (nat, nat)| m1.contains_key(k) <==> m2.contains_key(k) by {
        if m1.contains_key(k) {
            let j = choose|j: int| holds_key(after, k, j);
            if j != n {
                assert(holds_key(before, k, j));
            }
        }
        if m2.contains_key(k) {
            if k == key {
                assert(holds_key(after, k, n));
            } else {
                let j = choose|j: int| holds_key(before, k, j);
                assert(holds_key(after, k, j));
            }
        }
    }
    assert forall|k: (nat, nat)| m1.contains_key(k) implies m1[k] == m2[k] by {
        let j = choose|j: int| holds_key(after, k, j);
        lemma_entry_value(after, k, j);
        if j == n {
            assert(k == key);
        } else {
            assert(holds_key(before, k, j));
            lemma_entry_value(before, k, j);
        }
    }
    assert(m1 =~= m2);
}

/// With distinct keys, the map has as many keys as there are entries.
proof fn lemma_entries_dom(entries: Seq<OrientationEntry>)
    requires
        distinct_keys(entries),
    ensures
        entries_map(entries).dom().finite(),
        entries_map(entries).dom().len() == entries.len(),
    decreases entries.len(),
{
    if entries.len() == 0 {
        assert(entries_map(entries).dom() =~= Set::<(nat, nat)>::empty());
    } else {
        let rest = entries.drop_last();
        let last = entries.last();
        let key = entry_key(last);
        assert forall|i: int, j: int| 0 <= i < j < rest.len() implies entry_key(#[trigger] rest[i])
            != entry_key(#[trigger] rest[j]) by {
            assert(rest[i] == entries[i]);
            assert(rest[j] == entries[j]);
        }
        lemma_entries_dom(rest);
        assert forall|j: int| !holds_key(rest, key, j) by {
            if holds_key(rest, key, j) {
                assert(rest[j] == entries[j]);
                assert(entry_key(entries[j]) != entry_key(entries[entries.len() - 1]));
            }
        }
        lemma_push_entry(rest, entries, key, last.flip);
        assert(entries_map(entries).dom() =~= entries_map(rest).dom().insert(key));
    }
}

} // verus!
