//! The sample store: an append-only series of charge samples that is never
//! empty.

use vstd::prelude::*;
use crate::timestamp::Timestamp;

verus! {

/// One reading of the battery: when it was taken and the charge in whole
/// percent.
#[derive(Clone, Copy, Debug, PartialEq, Eq, Structural)]
pub struct Sample {
    pub timestamp: Timestamp,
    pub charge: u8,
}

/// The battery could not be read.
#[derive(Clone, Copy, Debug, PartialEq, Eq, Structural)]
pub struct ReadError;

/// The samples of one run, in the order in which they were appended.
///
/// A store starts with one seed sample and only grows, so it is never empty.
/// Appending needs exclusive access and reading needs shared access, so a
/// reader sees the series either before or after an append, never in between.
#[derive(Debug)]
pub struct SampleStore {
    seed: Sample,
    later: Vec<Sample>,
}

impl View for SampleStore {
    type V = Seq<Sample>;

    closed spec fn view(&self) -> Seq<Sample> {
        seq![self.seed] + self.later@
    }
}

/// `start` followed by the samples of `added`, appended one at a time.
pub open spec fn appended(start: Seq<Sample>, added: Seq<Sample>) -> Seq<Sample>
    decreases added.len(),
{
    if added.len() == 0 {
        start
    } else {
        appended(start, added.drop_last()).push(added.last())
    }
}

impl SampleStore {
    /// Creates the store with its seed sample.
    pub fn initialize(seed: Sample) -> (store: SampleStore)
        ensures
            store@ == seq![seed],
    {
        let store = SampleStore { seed, later: Vec::new() };
        assert(store@ =~= seq![seed]);
        store
    }

    /// Adds `sample` at the end. Nothing that was stored changes.
    pub fn append(&mut self, sample: Sample)
        ensures
            final(self)@ == old(self)@.push(sample),
    {
        self.later.push(sample);
        assert(self@ =~= old(self)@.push(sample));
    }

    /// A copy of all samples, in order.
    pub fn snapshot(&self) -> (copy: Vec<Sample>)
        ensures
            copy@ == self@,
            copy@.len() >= 1,
    {
        let mut copy: Vec<Sample> = Vec::new();
        copy.push(self.seed);
        let mut i: usize = 0;
        while i < self.later.len()
            invariant
                i <= self.later.len(),
                copy@ == seq![self.seed] + self.later@.subrange(0, i as int),
            decreases self.later.len() - i,
        {
            copy.push(self.later[i]);
            i += 1;
            assert(copy@ =~= seq![self.seed] + self.later@.subrange(0, i as int));
        }
        assert(self.later@.subrange(0, i as int) =~= self.later@);
        copy
    }

    /// The seed sample.
    pub fn first(&self) -> (sample: Sample)
        ensures
            sample == self@.first(),
    {
        self.seed
    }

    /// The sample that was appended last; the seed if there was no append.
    pub fn last(&self) -> (sample: Sample)
        ensures
            sample == self@.last(),
    {
        if self.later.len() == 0 {
            self.seed
        } else {
            self.later[self.later.len() - 1]
        }
    }

    /// A store is never empty.
    pub proof fn lemma_never_empty(self)
        ensures
            self@.len() >= 1,
    {
    }
}

/// Stores the outcome of one battery reading: a sample is appended, a failure
/// is handed back and leaves the store as it was.
pub fn record(store: &mut SampleStore, reading: Result<Sample, ReadError>) -> (outcome: Result<
    (),
    ReadError,
>)
    ensures
        reading matches Ok(sample) ==> outcome is Ok && final(store)@ == old(store)@.push(sample),
        reading matches Err(e) ==> outcome == Err::<(), ReadError>(e) && final(store)@ == old(
            store,
        )@,
{
    match reading {
        Ok(sample) => {
            store.append(sample);
            Ok(())
        },
        Err(e) => Err(e),
    }
}

/// Takes one sample now: stamps the charge that was read with the current
/// time and appends it, so the store grows by exactly that sample. Which time
/// it carries is up to the clock. A failed reading is handed back and leaves
/// the store as it was.
pub fn update_now(store: &mut SampleStore, charge: Result<u8, ReadError>) -> (outcome: Result<
    (),
    ReadError,
>)
    ensures
        charge matches Ok(percent) ==> {
            &&& outcome is Ok
            &&& final(store)@ == old(store)@.push(final(store)@.last())
            &&& final(store)@.last().charge == percent
            &&& final(store)@.last().timestamp.wf()
        },
        charge matches Err(e) ==> outcome == Err::<(), ReadError>(e) && final(store)@ == old(
            store,
        )@,
{
    match charge {
        Ok(percent) => {
            let sample = Sample { timestamp: Timestamp::now(), charge: percent };
            let outcome = record(store, Ok(sample));
            assert(store@.last() == sample);
            outcome
        },
        Err(e) => Err(e),
    }
}

/// Appending one at a time gives the samples that were there, followed by the
/// appended ones in their order.
pub proof fn lemma_appended_is_concatenation(start: Seq<Sample>, added: Seq<Sample>)
    ensures
        appended(start, added) == start + added,
    decreases added.len(),
{
    if added.len() == 0 {
        assert(start + added =~= start);
    } else {
        lemma_appended_is_concatenation(start, added.drop_last());
        assert((start + added.drop_last()).push(added.last()) =~= start + added);
    }
}

/// No append is lost: after any series of appends the store holds the seed
/// and one sample for each append, so its length is their number plus one.
pub proof fn lemma_every_append_is_counted(seed: Sample, added: Seq<Sample>)
    ensures
        appended(seq![seed], added).len() == added.len() + 1,
{
    lemma_appended_is_concatenation(seq![seed], added);
}

/// Appending never removes or changes a sample: what the store held before a
/// series of appends is what it holds first afterwards.
pub proof fn lemma_appends_keep_what_was_stored(start: Seq<Sample>, added: Seq<Sample>)
    ensures
        appended(start, added).len() == start.len() + added.len(),
        appended(start, added).subrange(0, start.len() as int) == start,
{
    lemma_appended_is_concatenation(start, added);
    assert((start + added).subrange(0, start.len() as int) =~= start);
}

/// A reader never sees part of an append: what the store holds after the
/// first `count` of a series of appends is the start with exactly those
/// samples, and it is the beginning of what the store holds after all of them.
pub proof fn lemma_earlier_states_are_prefixes(
    start: Seq<Sample>,
    added: Seq<Sample>,
    count: int,
)
    requires
        0 <= count <= added.len(),
    ensures
        appended(start, added.subrange(0, count)).len() == start.len() + count,
        appended(start, added.subrange(0, count)) == appended(start, added).subrange(
            0,
            start.len() + count,
        ),
{
    lemma_appended_is_concatenation(start, added);
    lemma_appended_is_concatenation(start, added.subrange(0, count));
    assert(start + added.subrange(0, count) =~= (start + added).subrange(0, start.len() + count));
}

} // verus!
