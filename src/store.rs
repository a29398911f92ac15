use vstd::prelude::*;

use crate::bounds::ChunkBounds;

verus! {

/// Loaded chunks keyed by their bounds, each key at most once.
pub struct ChunkStore<C> {
    entries: Vec<(ChunkBounds, C)>,
}

pub open spec fn keys_unique<C>(s: Seq<(ChunkBounds, C)>) -> bool {
    forall|i: int, j: int| 0 <= i < s.len() && 0 <= j < s.len() && i != j ==> (#[trigger] s[i]).0 != (#[trigger] s[j]).0
}

pub open spec fn slot_of<C>(s: Seq<(ChunkBounds, C)>, k: ChunkBounds, i: int) -> bool {
    0 <= i < s.len() && s[i].0 == k
}

/// The map that a list of entries with unique keys stands for.
pub open spec fn entries_map<C>(s: Seq<(ChunkBounds, C)>) -> Map<ChunkBounds, C> {
    Map::new(
        |k: ChunkBounds| exists|i: int| slot_of(s, k, i),
        |k: ChunkBounds| s[choose|i: int| slot_of(s, k, i)].1,
    )
}

proof fn lemma_map_len<C>(s: Seq<(ChunkBounds, C)>)
    requires
        keys_unique(s),
    ensures
        entries_map(s).dom().finite(),
        entries_map(s).dom().len() == s.len(),
    decreases s.len(),
{
    if s.len() == 0 {
        assert(entries_map(s).dom() =~= Set::<ChunkBounds>::empty());
    } else {
        let pre = s.drop_last();
        let last = s.last();
        assert forall|i: int, j: int|
            0 <= i < pre.len() && 0 <= j < pre.len() && i != j implies (#[trigger] pre[i]).0
            != (#[trigger] pre[j]).0 by {
            assert(pre[i] == s[i]);
            assert(pre[j] == s[j]);
        }
        lemma_map_len(pre);
        assert forall|k: ChunkBounds| #[trigger] entries_map(s).dom().contains(k) == entries_map(pre).dom().insert(last.0).contains(k) by {
            if exists|j: int| slot_of(s, k, j) {
                let j = choose|j: int| slot_of(s, k, j);
                if j < pre.len() {
                    assert(slot_of(pre, k, j));
                }
            }
            if exists|j: int| slot_of(pre, k, j) {
                let j = choose|j: int| slot_of(pre, k, j);
                assert(slot_of(s, k, j));
            }
            if k == last.0 {
                assert(slot_of(s, k, s.len() - 1));
            }
        }
        assert(entries_map(s).dom() =~= entries_map(pre).dom().insert(last.0));
        assert(!entries_map(pre).dom().contains(last.0)) by {
            if exists|j: int| slot_of(pre, last.0, j) {
                let j = choose|j: int| slot_of(pre, last.0, j);
                assert(s[j].0 == s[s.len() - 1].0);
            }
        }
    }
}

impl<C> ChunkStore<C> {
    pub closed spec fn entries(&self) -> Seq<(ChunkBounds, C)> {
        self.entries@
    }

    pub open spec fn wf(&self) -> bool {
        keys_unique(self.entries())
    }

    pub open spec fn view(&self) -> Map<ChunkBounds, C> {
        entries_map(self.entries())
    }

    pub fn new() -> (r: ChunkStore<C>)
        ensures
            r.wf(),
            r.view() == Map::<ChunkBounds, C>::empty(),
    {
        let r = ChunkStore { entries: Vec::new() };
        assert(r.view() =~= Map::<ChunkBounds, C>::empty());
        r
    }

    fn find(&self, key: &ChunkBounds) -> (r: Option<usize>)
        requires
            self.wf(),
        ensures
            r matches Some(i) ==> slot_of(self.entries(), *key, i as int),
            r is None ==> forall|i: int| !slot_of(self.entries(), *key, i),
    {
        let mut i: usize = 0;
        while i < self.entries.len()
            invariant
                i <= self.entries@.len(),
                forall|j: int| 0 <= j < i ==> !slot_of(self.entries@, *key, j),
            decreases self.entries@.len() - i,
        {
            if self.entries[i].0 == *key {
                return Some(i);
            }
            i += 1;
        }
        None
    }

    /// Inserts a chunk under its bounds, replacing the chunk held there.
    pub fn insert(&mut self, key: ChunkBounds, chunk: C)
        requires
            old(self).wf(),
        ensures
            final(self).wf(),
            final(self).view() == old(self).view().insert(key, chunk),
    {
        let ghost pre = self.entries@;
        match self.find(&key) {
            Some(i) => {
                self.entries.set(i, (key, chunk));
                proof {
                    let s = self.entries@;
                    assert forall|a: int, b: int|
                        0 <= a < s.len() && 0 <= b < s.len() && a != b implies (#[trigger] s[a]).0
                        != (#[trigger] s[b]).0 by {
                        assert(pre[a].0 == s[a].0);
                        assert(pre[b].0 == s[b].0);
                    }
                    assert forall|k: ChunkBounds| #[trigger] self.view().contains_key(k) == old(self).view().insert(key, chunk).contains_key(k) by {
                        if exists|j: int| slot_of(pre, k, j) {
                            let j = choose|j: int| slot_of(pre, k, j);
                            assert(slot_of(s, k, j));
                        }
                        if exists|j: int| slot_of(s, k, j) {
                            let j = choose|j: int| slot_of(s, k, j);
                            if k != key {
                                assert(slot_of(pre, k, j));
                            }
                        }
                        if k == key {
                            assert(slot_of(s, k, i as int));
                        }
                    }
                    assert forall|k: ChunkBounds| #[trigger] self.view().contains_key(k) implies self.view()[k] == old(self).view().insert(key, chunk)[k] by {
                        let j = choose|j: int| slot_of(s, k, j);
                        if k == key {
                            assert(j == i);
                        } else {
                            assert(slot_of(pre, k, j));
                            let j2 = choose|j2: int| slot_of(pre, k, j2);
                            assert(j2 == j);
                        }
                    }
                    assert(self.view() =~= old(self).view().insert(key, chunk));
                }
            },
            None => {
                self.entries.push((key, chunk));
                proof {
                    let s = self.entries@;
                    assert forall|a: int, b: int|
                        0 <= a < s.len() && 0 <= b < s.len() && a != b implies (#[trigger] s[a]).0
                        != (#[trigger] s[b]).0 by {
                        if a < pre.len() && b < pre.len() {
                            assert(pre[a] == s[a]);
                            assert(pre[b] == s[b]);
                        } else if a < pre.len() {
                            assert(pre[a] == s[a]);
                            assert(!slot_of(pre, key, a));
                        } else if b < pre.len() {
                            assert(pre[b] == s[b]);
                            assert(!slot_of(pre, key, b));
                        }
                    }
                    assert forall|k: ChunkBounds| #[trigger] self.view().contains_key(k) == old(self).view().insert(key, chunk).contains_key(k) by {
                        if exists|j: int| slot_of(pre, k, j) {
                            let j = choose|j: int| slot_of(pre, k, j);
                            assert(s[j] == pre[j]);
                            assert(slot_of(s, k, j));
                        }
                        if exists|j: int| slot_of(s, k, j) {
                            let j = choose|j: int| slot_of(s, k, j);
                            if j < pre.len() {
                                assert(s[j] == pre[j]);
                                assert(slot_of(pre, k, j));
                            }
                        }
                        if k == key {
                            assert(slot_of(s, k, pre.len() as int));
                        }
                    }
                    assert forall|k: ChunkBounds| #[trigger] self.view().contains_key(k) implies self.view()[k] == old(self).view().insert(key, chunk)[k] by {
                        let j = choose|j: int| slot_of(s, k, j);
                        if k == key {
                            assert(slot_of(s, k, pre.len() as int));
                            assert(j == pre.len());
                        } else {
                            assert(j < pre.len());
                            assert(s[j] == pre[j]);
                            assert(slot_of(pre, k, j));
                            let j2 = choose|j2: int| slot_of(pre, k, j2);
                            assert(j2 == j);
                        }
                    }
                    assert(self.view() =~= old(self).view().insert(key, chunk));
                }
            },
        }
    }

    /// Takes the chunk held under these bounds out of the store.
    pub fn remove(&mut self, key: &ChunkBounds) -> (r: Option<C>)
        requires
            old(self).wf(),
        ensures
            final(self).wf(),
            final(self).view() == old(self).view().remove(*key),
            r is Some == old(self).view().contains_key(*key),
            r matches Some(c) ==> c == old(self).view()[*key],
    {
        let ghost pre = self.entries@;
        match self.find(key) {
            Some(i) => {
                let (_, chunk) = self.entries.remove(i);
                proof {
                    let s = self.entries@;
                    assert(s =~= pre.remove(i as int));
                    assert forall|a: int, b: int|
                        0 <= a < s.len() && 0 <= b < s.len() && a != b implies (#[trigger] s[a]).0
                        != (#[trigger] s[b]).0 by {
                        let a2 = if a < i { a } else { a + 1 };
                        let b2 = if b < i { b } else { b + 1 };
                        assert(s[a] == pre[a2]);
                        assert(s[b] == pre[b2]);
                    }
                    assert forall|k: ChunkBounds| #[trigger] self.view().contains_key(k) == old(self).view().remove(*key).contains_key(k) by {
                        if exists|j: int| slot_of(s, k, j) {
                            let j = choose|j: int| slot_of(s, k, j);
                            let j2 = if j < i { j } else { j + 1 };
                            assert(slot_of(pre, k, j2));
                            assert(j2 != i);
                        }
                        if k != *key && exists|j: int| slot_of(pre, k, j) {
                            let j = choose|j: int| slot_of(pre, k, j);
                            assert(j != i);
                            let j2 = if j < i { j } else { j - 1 };
                            assert(slot_of(s, k, j2));
                        }
                    }
                    assert forall|k: ChunkBounds| #[trigger] self.view().contains_key(k) implies self.view()[k] == old(self).view().remove(*key)[k] by {
                        let j = choose|j: int| slot_of(s, k, j);
                        let j2 = if j < i { j } else { j + 1 };
                        assert(slot_of(pre, k, j2));
                        let j3 = choose|j3: int| slot_of(pre, k, j3);
                        assert(j3 == j2);
                    }
                    assert(self.view() =~= old(self).view().remove(*key));
                    let j = choose|j: int| slot_of(pre, *key, j);
                    assert(j == i);
                }
                Some(chunk)
            },
            None => {
                proof {
                    assert(self.view() =~= old(self).view().remove(*key));
                }
                None
            },
        }
    }

    /// Whether a chunk is held under these bounds.
    pub fn contains_key(&self, key: &ChunkBounds) -> (r: bool)
        requires
            self.wf(),
        ensures
            r == self.view().contains_key(*key),
    {
        match self.find(key) {
            Some(i) => {
                assert(slot_of(self.entries(), *key, i as int));
                true
            },
            None => false,
        }
    }

    /// The chunk held under these bounds.
    pub fn get(&self, key: &ChunkBounds) -> (r: Option<&C>)
        requires
            self.wf(),
        ensures
            r is Some == self.view().contains_key(*key),
            r matches Some(c) ==> *c == self.view()[*key],
    {
        match self.find(key) {
            Some(i) => {
                proof {
                    let j = choose|j: int| slot_of(self.entries(), *key, j);
                    assert(slot_of(self.entries(), *key, i as int));
                    assert(j == i);
                }
                Some(&self.entries[i].1)
            },
            None => None,
        }
    }

    /// The bounds of every held chunk, each once.
    pub fn keys(&self) -> (r: Vec<ChunkBounds>)
        requires
            self.wf(),
        ensures
            r@.len() == self.view().dom().len(),
            r@.no_duplicates(),
            forall|k: ChunkBounds| r@.contains(k) <==> self.view().contains_key(k),
    {
        let mut r: Vec<ChunkBounds> = Vec::new();
        let mut i: usize = 0;
        while i < self.entries.len()
            invariant
                self.wf(),
                i <= self.entries@.len(),
                r@.len() == i,
                forall|j: int| 0 <= j < i ==> #[trigger] r@[j] == self.entries@[j].0,
            decreases self.entries@.len() - i,
        {
            r.push(self.entries[i].0);
            i += 1;
        }
        proof {
            lemma_map_len(self.entries());
            assert forall|k: ChunkBounds| r@.contains(k) <==> self.view().contains_key(k) by {
                if r@.contains(k) {
                    let j = choose|j: int| 0 <= j < r@.len() && r@[j] == k;
                    assert(slot_of(self.entries(), k, j));
                }
                if self.view().contains_key(k) {
                    let j = choose|j: int| slot_of(self.entries(), k, j);
                    assert(r@[j] == k);
                }
            }
        }
        r
    }

    /// Number of held chunks.
    pub fn len(&self) -> (r: usize)
        requires
            self.wf(),
        ensures
            r == self.view().dom().len(),
    {
        proof {
            lemma_map_len(self.entries());
        }
        self.entries.len()
    }

    /// One update tick: adopts the chunk that arrived since the last tick,
    /// if any, under its bounds.
    pub fn update(&mut self, arrived: Option<(ChunkBounds, C)>)
        requires
            old(self).wf(),
        ensures
            final(self).wf(),
            match arrived {
                Some((k, c)) => final(self).view() == old(self).view().insert(k, c),
                None => final(self).view() == old(self).view(),
            },
    {
        match arrived {
            Some((key, chunk)) => self.insert(key, chunk),
            None => {},
        }
    }
}

} // verus!
