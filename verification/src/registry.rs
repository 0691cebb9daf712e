//! The in-process numeric registry: an ordered, append-only sequence of
//! 32-bit integers shared by concurrent requests. The surrounding server
//! guards a `Registry` with a multi-reader/single-writer lock and calls
//! `snapshot` under shared access and `append` under exclusive access;
//! the registry itself holds the sequence and its append-only contract.

use vstd::prelude::*;

verus! {

/// The ordered sequence of integers, insertion order preserved,
/// duplicates allowed. Created empty; only ever appended to.
pub struct Registry {
    numbers: Vec<i32>,
}

impl View for Registry {
    type V = Seq<i32>;

    closed spec fn view(&self) -> Seq<i32> {
        self.numbers@
    }
}

impl Registry {
    /// A registry starts empty.
    pub fn new() -> (r: Registry)
        ensures
            r@ == Seq::<i32>::empty(),
    {
        Registry { numbers: Vec::new() }
    }

    /// A consistent point-in-time copy of the full sequence. An empty
    /// registry yields an empty result, not a failure.
    pub fn snapshot(&self) -> (r: Vec<i32>)
        ensures
            r@ == self@,
    {
        let mut out: Vec<i32> = Vec::new();
        let mut i: usize = 0;
        while i < self.numbers.len()
            invariant
                i <= self.numbers.len(),
                out@ == self@.subrange(0, i as int),
            decreases self.numbers.len() - i,
        {
            out.push(self.numbers[i]);
            i = i + 1;
        }
        assert(out@ == self@.subrange(0, self@.len() as int));
        assert(self@.subrange(0, self@.len() as int) == self@);
        out
    }

    /// Appends `value` at the end and returns the full sequence as it
    /// stands immediately after the append. Nothing else of the sequence
    /// changes: the old contents stay a prefix, in their order.
    pub fn append(&mut self, value: i32) -> (r: Vec<i32>)
        ensures
            final(self)@ == old(self)@.push(value),
            r@ == final(self)@,
    {
        self.numbers.push(value);
        self.snapshot()
    }
}

/// The sequence a registry holds after a run of appends is applied in
/// the order of `values`, one at a time.
pub open spec fn after_appends(initial: Seq<i32>, values: Seq<i32>) -> Seq<i32>
    decreases values.len(),
{
    if values.len() == 0 {
        initial
    } else {
        after_appends(initial.push(values[0]), values.drop_first())
    }
}

/// No lost updates: however a set of concurrent appends is serialized by
/// the lock, the registry afterwards holds exactly the initial sequence
/// followed by the appended values in that serialization order — so its
/// length is the initial length plus the number of appends, and the
/// initial contents survive unchanged as a prefix.
pub proof fn lemma_appends_accumulate(initial: Seq<i32>, values: Seq<i32>)
    ensures
        after_appends(initial, values) == initial + values,
        after_appends(initial, values).len() == initial.len() + values.len(),
    decreases values.len(),
{
    if values.len() == 0 {
        assert(initial + values =~= initial);
    } else {
        lemma_appends_accumulate(initial.push(values[0]), values.drop_first());
        assert(initial.push(values[0]) + values.drop_first() =~= initial + values);
    }
}

} // verus!
