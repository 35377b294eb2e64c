use vstd::prelude::*;

verus! {

/// Sum of the counts stored under key `k` (entries are paired by position).
pub open spec fn tally(keys: Seq<Seq<char>>, counts: Seq<usize>, k: Seq<char>) -> nat
    decreases keys.len(),
{
    if keys.len() == 0 || counts.len() == 0 {
        0
    } else {
        tally(keys.drop_last(), counts.drop_last(), k) + if keys.last() == k {
            counts.last() as nat
        } else {
            0
        }
    }
}

proof fn lemma_tally_update(keys: Seq<Seq<char>>, counts: Seq<usize>, i: int, c: usize, k: Seq<char>)
    requires
        keys.len() == counts.len(),
        0 <= i < keys.len(),
    ensures
        tally(keys, counts.update(i, c), k) as int == tally(keys, counts, k) as int
            + if keys[i] == k { c as int - counts[i] as int } else { 0 },
    decreases keys.len(),
{
    let n = keys.len() - 1;
    if i == n {
        assert(counts.update(i, c).drop_last() =~= counts.drop_last());
    } else {
        lemma_tally_update(keys.drop_last(), counts.drop_last(), i, c, k);
        assert(counts.update(i, c).drop_last() =~= counts.drop_last().update(i, c));
    }
}

proof fn lemma_tally_push(keys: Seq<Seq<char>>, counts: Seq<usize>, key: Seq<char>, c: usize, k: Seq<char>)
    requires
        keys.len() == counts.len(),
    ensures
        tally(keys.push(key), counts.push(c), k) == tally(keys, counts, k) + if key == k {
            c as nat
        } else {
            0
        },
{
    assert(keys.push(key).drop_last() =~= keys);
    assert(counts.push(c).drop_last() =~= counts);
}

proof fn lemma_tally_none(keys: Seq<Seq<char>>, counts: Seq<usize>, k: Seq<char>)
    requires
        keys.len() == counts.len(),
        forall|j: int| 0 <= j < keys.len() && keys[j] == k ==> counts[j] == 0,
    ensures
        tally(keys, counts, k) == 0,
    decreases keys.len(),
{
    if keys.len() > 0 {
        lemma_tally_none(keys.drop_last(), counts.drop_last(), k);
    }
}

proof fn lemma_entry_within_tally(keys: Seq<Seq<char>>, counts: Seq<usize>, i: int)
    requires
        keys.len() == counts.len(),
        0 <= i < keys.len(),
    ensures
        counts[i] <= tally(keys, counts, keys[i]),
    decreases keys.len(),
{
    if i < keys.len() - 1 {
        lemma_entry_within_tally(keys.drop_last(), counts.drop_last(), i);
    }
}

/// A multiset of strings: how many times each string is still available.
#[derive(Debug)]
pub struct CountTable {
    keys: Vec<String>,
    counts: Vec<usize>,
}

impl CountTable {
    pub closed spec fn wf(&self) -> bool {
        self.keys.len() == self.counts.len()
    }

    closed spec fn key_views(&self) -> Seq<Seq<char>> {
        self.keys@.map_values(|s: String| s@)
    }

    /// How many copies of `k` the table holds.
    pub closed spec fn count(&self, k: Seq<char>) -> nat {
        tally(self.key_views(), self.counts@, k)
    }

    /// An empty table.
    pub fn new() -> (r: CountTable)
        ensures
            r.wf(),
            forall|k: Seq<char>| r.count(k) == 0,
    {
        CountTable { keys: Vec::new(), counts: Vec::new() }
    }

    /// Adds one copy of `k`.
    pub fn add(&mut self, k: String)
        requires
            old(self).wf(),
            old(self).count(k@) < usize::MAX,
        ensures
            final(self).wf(),
            final(self).count(k@) == old(self).count(k@) + 1,
            forall|w: Seq<char>| w != k@ ==> final(self).count(w) == old(self).count(w),
    {
        let mut i: usize = 0;
        while i < self.keys.len()
            invariant
                self.wf(),
                self == old(self),
                self.count(k@) < usize::MAX,
                i <= self.keys.len(),
            decreases self.keys.len() - i,
        {
            if self.keys[i] == k {
                proof {
                    assert(self.key_views()[i as int] == k@);
                    lemma_entry_within_tally(self.key_views(), self.counts@, i as int);
                    lemma_tally_update(self.key_views(), self.counts@, i as int, (self.counts[i as int] + 1) as usize, k@);
                    assert forall|w: Seq<char>| w != k@ implies #[trigger] tally(self.key_views(), self.counts@.update(i as int, (self.counts[i as int] + 1) as usize), w) == tally(self.key_views(), self.counts@, w) by {
                        lemma_tally_update(self.key_views(), self.counts@, i as int, (self.counts[i as int] + 1) as usize, w);
                    }
                }
                let c = self.counts[i] + 1;
                self.counts.set(i, c);
                return;
            }
            i = i + 1;
        }
        proof {
            assert forall|w: Seq<char>| #[trigger] tally(self.key_views().push(k@), self.counts@.push(1), w) == tally(self.key_views(), self.counts@, w) + if k@ == w { 1nat } else { 0 } by {
                lemma_tally_push(self.key_views(), self.counts@, k@, 1, w);
            }
        }
        let ghost kv = k@;
        self.keys.push(k);
        self.counts.push(1);
        proof {
            assert(self.key_views() =~= old(self).key_views().push(kv));
        }
    }

    /// Removes one copy of `k` if there is one; tells whether it did.
    pub fn take(&mut self, k: &String) -> (found: bool)
        requires
            old(self).wf(),
        ensures
            final(self).wf(),
            found == (old(self).count(k@) > 0),
            final(self).count(k@) == if found { (old(self).count(k@) - 1) as nat } else { old(self).count(k@) },
            forall|w: Seq<char>| w != k@ ==> final(self).count(w) == old(self).count(w),
    {
        let mut i: usize = 0;
        while i < self.keys.len()
            invariant
                self.wf(),
                self == old(self),
                i <= self.keys.len(),
                forall|j: int| 0 <= j < i && self.key_views()[j] == k@ ==> self.counts@[j] == 0,
            decreases self.keys.len() - i,
        {
            if self.keys[i] == *k && self.counts[i] > 0 {
                proof {
                    assert(self.key_views()[i as int] == k@);
                    lemma_entry_within_tally(self.key_views(), self.counts@, i as int);
                    lemma_tally_update(self.key_views(), self.counts@, i as int, (self.counts[i as int] - 1) as usize, k@);
                    assert forall|w: Seq<char>| w != k@ implies #[trigger] tally(self.key_views(), self.counts@.update(i as int, (self.counts[i as int] - 1) as usize), w) == tally(self.key_views(), self.counts@, w) by {
                        lemma_tally_update(self.key_views(), self.counts@, i as int, (self.counts[i as int] - 1) as usize, w);
                    }
                }
                let c = self.counts[i] - 1;
                self.counts.set(i, c);
                return true;
            }
            i = i + 1;
        }
        proof {
            lemma_tally_none(self.key_views(), self.counts@, k@);
        }
        false
    }
}

} // verus!
