//! State of the event loop.
use crate::text::str_eq;
use vstd::prelude::*;

verus! {

/// One counter.
#[derive(Debug)]
pub struct Counter {
    pub key: String,
    pub count: u32,
}

/// Counters by key.
#[derive(Debug)]
pub struct Counters {
    pub entries: Vec<Counter>,
}

/// The count of the first counter that has a key, or zero.
pub open spec fn count_in(entries: Seq<Counter>, key: Seq<char>) -> nat
    decreases entries.len(),
{
    if entries.len() == 0 {
        0
    } else if entries[0].key@ == key {
        entries[0].count as nat
    } else {
        count_in(entries.drop_first(), key)
    }
}

impl Counters {
    /// The count of a key.
    pub open spec fn count(self, key: Seq<char>) -> nat {
        count_in(self.entries@, key)
    }

    /// No counts.
    pub fn new() -> (r: Counters)
        ensures
            forall|key: Seq<char>| #[trigger] r.count(key) == 0,
    {
        Counters { entries: Vec::new() }
    }

    fn position(&self, key: &str) -> (r: Option<usize>)
        ensures
            match r {
                Some(i) => i < self.entries@.len() && self.entries@[i as int].key@ == key@
                    && forall|j: int|
                    0 <= j < i ==> (#[trigger] self.entries@[j]).key@ != key@,
                None => forall|j: int|
                    0 <= j < self.entries@.len() ==> (#[trigger] self.entries@[j]).key@ != key@,
            },
    {
        let mut i: usize = 0;
        while i < self.entries.len()
            invariant
                i <= self.entries.len(),
                forall|j: int| 0 <= j < i ==> (#[trigger] self.entries@[j]).key@ != key@,
            decreases self.entries.len() - i,
        {
            if str_eq(self.entries[i].key.as_str(), key) {
                return Some(i);
            }
            i = i + 1;
        }
        None
    }

    /// Reads the count of a key.
    pub fn get(&self, key: &str) -> (r: u32)
        ensures
            r == self.count(key@),
    {
        match self.position(key) {
            Some(i) => {
                proof {
                    lemma_count_at(self.entries@, i as int);
                }
                self.entries[i].count
            },
            None => {
                proof {
                    lemma_count_absent(self.entries@, key@);
                }
                0
            },
        }
    }

    /// Counts a key once more, and tells its new count.
    pub fn bump(&mut self, key: &str) -> (r: u32)
        requires
            old(self).count(key@) < u32::MAX,
        ensures
            r == old(self).count(key@) + 1,
            forall|k: Seq<char>|
                #[trigger] final(self).count(k) == old(self).count(k) + (if k == key@ {
                    1nat
                } else {
                    0nat
                }),
    {
        match self.position(key) {
            Some(i) => {
                proof {
                    lemma_count_at(self.entries@, i as int);
                }
                let entry = &mut self.entries[i];
                entry.count = entry.count + 1;
                let count: u32 = entry.count;
                proof {
                    assert forall|k: Seq<char>| #[trigger]
                        self.count(k) == old(self).count(k) + (if k == key@ {
                            1nat
                        } else {
                            0nat
                        }) by {
                        lemma_count_set(old(self).entries@, self.entries@, i as int, k);
                    }
                }
                count
            },
            None => {
                proof {
                    lemma_count_absent(self.entries@, key@);
                }
                self.entries.push(Counter { key: key.to_owned(), count: 1 });
                proof {
                    assert forall|k: Seq<char>| #[trigger]
                        self.count(k) == old(self).count(k) + (if k == key@ {
                            1nat
                        } else {
                            0nat
                        }) by {
                        lemma_count_pushed(
                            old(self).entries@,
                            self.entries@.last(),
                            k,
                        );
                        assert(self.entries@ == old(self).entries@.push(self.entries@.last()));
                    }
                }
                1
            },
        }
    }
}

proof fn lemma_count_at(entries: Seq<Counter>, i: int)
    requires
        0 <= i < entries.len(),
        forall|j: int| 0 <= j < i ==> (#[trigger] entries[j]).key@ != entries[i].key@,
    ensures
        count_in(entries, entries[i].key@) == entries[i].count,
    decreases i,
{
    if i > 0 {
        assert(entries[0].key@ != entries[i].key@);
        assert forall|j: int| 0 <= j < i - 1 implies (#[trigger] entries.drop_first()[j]).key@
            != entries.drop_first()[i - 1].key@ by {
            assert(entries[j + 1].key@ != entries[i].key@);
        }
        lemma_count_at(entries.drop_first(), i - 1);
    }
}

proof fn lemma_count_absent(entries: Seq<Counter>, key: Seq<char>)
    requires
        forall|j: int| 0 <= j < entries.len() ==> (#[trigger] entries[j]).key@ != key,
    ensures
        count_in(entries, key) == 0,
    decreases entries.len(),
{
    if entries.len() > 0 {
        assert(entries[0].key@ != key);
        assert forall|j: int| 0 <= j < entries.drop_first().len() implies (
        #[trigger] entries.drop_first()[j]).key@ != key by {
            assert(entries[j + 1].key@ != key);
        }
        lemma_count_absent(entries.drop_first(), key);
    }
}

proof fn lemma_count_set(before: Seq<Counter>, after: Seq<Counter>, i: int, k: Seq<char>)
    requires
        0 <= i < before.len(),
        after.len() == before.len(),
        forall|j: int| 0 <= j < before.len() && j != i ==> #[trigger] after[j] == before[j],
        after[i].key == before[i].key,
        after[i].count == before[i].count + 1,
        forall|j: int| 0 <= j < i ==> (#[trigger] before[j]).key@ != before[i].key@,
    ensures
        count_in(after, k) == count_in(before, k) + (if k == before[i].key@ {
            1nat
        } else {
            0nat
        }),
    decreases i,
{
    if i == 0 {
        if before[0].key@ != k {
            assert(after.drop_first() == before.drop_first());
        }
    } else {
        assert(after[0] == before[0]);
        assert(before[0].key@ != before[i].key@);
        let b = before.drop_first();
        let a = after.drop_first();
        assert forall|j: int| 0 <= j < b.len() && j != i - 1 implies #[trigger] a[j] == b[j] by {
            assert(after[j + 1] == before[j + 1]);
        }
        assert forall|j: int| 0 <= j < i - 1 implies (#[trigger] b[j]).key@ != b[i - 1].key@ by {
            assert(before[j + 1].key@ != before[i].key@);
        }
        lemma_count_set(b, a, i - 1, k);
    }
}

proof fn lemma_count_pushed(before: Seq<Counter>, new: Counter, k: Seq<char>)
    requires
        new.count == 1,
        forall|j: int| 0 <= j < before.len() ==> (#[trigger] before[j]).key@ != new.key@,
    ensures
        count_in(before.push(new), k) == count_in(before, k) + (if k == new.key@ {
            1nat
        } else {
            0nat
        }),
    decreases before.len(),
{
    let after = before.push(new);
    if before.len() == 0 {
        assert(after.drop_first() == Seq::<Counter>::empty());
        assert(count_in(Seq::<Counter>::empty(), k) == 0);
        assert(after[0] == new);
    } else {
        assert(before[0].key@ != new.key@);
        assert(after[0] == before[0]);
        assert(after.drop_first() == before.drop_first().push(new));
        assert forall|j: int| 0 <= j < before.drop_first().len() implies (
        #[trigger] before.drop_first()[j]).key@ != new.key@ by {
            assert(before[j + 1].key@ != new.key@);
        }
        lemma_count_pushed(before.drop_first(), new, k);
    }
}

/// State of the event loop that its decisions read and change.
#[derive(Debug)]
pub struct LoopState {
    /// Number of finished iterations.
    pub iteration: u32,
    /// Number of failed iterations in a row.
    pub consecutive_failures: u32,
    /// Number of malformed event lines in a row.
    pub consecutive_malformed_events: u32,
    /// Number of event batches in a row that held a blocked build.
    pub consecutive_blocked: u32,
    /// The hat whose build was blocked last.
    pub last_blocked_hat: Option<String>,
    /// How often the build of each task was blocked.
    pub task_block_counts: Counters,
    /// Tasks given up.
    pub abandoned_tasks: Vec<String>,
    /// Whether a cancellation event was seen.
    pub cancellation_requested: bool,
    /// Whether a completion event was seen.
    pub completion_requested: bool,
    /// The hat that was executed last.
    pub last_hat: Option<String>,
    /// The hats that were active in the last prompt.
    pub last_active_hat_ids: Vec<String>,
    /// How often each hat was activated.
    pub hat_activation_counts: Counters,
    /// Hats whose activations are used up.
    pub exhausted_hats: Vec<String>,
    /// Number of equal event signatures in a row.
    pub consecutive_same_signature: u32,
    /// The signature that was emitted last.
    pub last_emitted_signature: Option<String>,
}

/// Whether a state is that before the first iteration: nothing was counted, requested or noted.
pub open spec fn is_fresh(state: LoopState) -> bool {
    &&& state.iteration == 0
    &&& state.consecutive_failures == 0
    &&& state.consecutive_malformed_events == 0
    &&& state.consecutive_blocked == 0
    &&& state.last_blocked_hat is None
    &&& forall|key: Seq<char>| #[trigger] state.task_block_counts.count(key) == 0
    &&& state.abandoned_tasks@.len() == 0
    &&& !state.cancellation_requested
    &&& !state.completion_requested
    &&& state.last_hat is None
    &&& state.last_active_hat_ids@.len() == 0
    &&& forall|key: Seq<char>| #[trigger] state.hat_activation_counts.count(key) == 0
    &&& state.exhausted_hats@.len() == 0
    &&& state.consecutive_same_signature == 0
    &&& state.last_emitted_signature is None
}

impl LoopState {
    /// The state before the first iteration.
    pub fn new() -> (r: LoopState)
        ensures
            is_fresh(r),
    {
        LoopState {
            iteration: 0,
            consecutive_failures: 0,
            consecutive_malformed_events: 0,
            consecutive_blocked: 0,
            last_blocked_hat: None,
            task_block_counts: Counters::new(),
            abandoned_tasks: Vec::new(),
            cancellation_requested: false,
            completion_requested: false,
            last_hat: None,
            last_active_hat_ids: Vec::new(),
            hat_activation_counts: Counters::new(),
            exhausted_hats: Vec::new(),
            consecutive_same_signature: 0,
            last_emitted_signature: None,
        }
    }
}

} // verus!
