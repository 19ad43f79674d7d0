//! The decisions of the batching stage: feed samples to the accumulator,
//! hand off full batches, and flush at the end of the stream. The stage's
//! channels and the tokenizer are driven from outside.
use vstd::prelude::*;
use crate::dataset::DataSet;
use crate::grid::{ids_fit_labels, MAX_LABEL_ID};
use crate::masked_data::{attention_row, mask_count};
use crate::masking_endpoint::{lemma_emitted_batch_valid, valid_masked_batch};
use crate::t5_data::windows_filled;

verus! {

/// Why a sample was not fed.
#[derive(Clone, Copy, Debug, PartialEq, Eq, Structural)]
pub enum RecordError {
    /// The accumulator is full; its batch must be taken first.
    Full,
    /// A token id too large for a label slot.
    IdOutOfRange,
    /// A masked sample longer than a row, or a stream too long to hold.
    TooLong,
    /// Fewer random draws than the sample needs.
    MissingDraws,
}

/// The batching stage's accumulator.
#[derive(Clone)]
pub struct BatchStage {
    pub current: DataSet,
}

/// The stream of a span-corruption accumulator with `n` more tokens fits in memory.
pub open spec fn stream_fits(d: DataSet, n: nat) -> bool {
    match d {
        DataSet::T5(x) => x.remaining@.len() + n <= usize::MAX,
        _ => true,
    }
}

/// How many draws feeding `n` tokens to `d` takes.
pub open spec fn draws_for(d: DataSet, n: nat) -> nat {
    match d {
        DataSet::Mask(x) => mask_count(x.mask_length, n),
        DataSet::Gpt2(_) => 0,
        DataSet::T5(x) => (x.number_spans as nat) * windows_filled((x.batch_size - x.row) as nat, x.remaining@.len() + n, x.window_length()),
    }
}

/// Every id fits a label slot.
fn ids_fit(ids: &[u32]) -> (r: bool)
    ensures
        r == ids_fit_labels(ids@),
{
    let mut i: usize = 0;
    while i < ids.len()
        invariant
            i <= ids@.len(),
            forall|j: int| 0 <= j < i ==> #[trigger] ids@[j] <= MAX_LABEL_ID,
        decreases ids@.len() - i,
    {
        if ids[i] > MAX_LABEL_ID {
            return false;
        }
        i = i + 1;
    }
    true
}

impl BatchStage {
    pub fn new(current: DataSet) -> (r: Self)
        ensures
            r.current == current,
    {
        BatchStage { current }
    }

    /// The accumulator holds a full batch.
    pub fn is_full(&self) -> (r: bool)
        ensures
            r == self.current.is_done(),
    {
        self.current.done()
    }

    /// How many draws feeding a sample of `n` tokens takes; zero when the
    /// accumulator is full or the stream would not fit.
    pub fn draws_needed(&self, n: usize) -> (r: usize)
        requires
            self.current.wf(),
        ensures
            !self.current.is_done() && stream_fits(self.current, n as nat) ==> r == draws_for(self.current, n as nat),
    {
        match &self.current {
            DataSet::Mask(x) => x.draws_needed(n),
            DataSet::Gpt2(_) => 0,
            DataSet::T5(x) => {
                if x.row >= x.batch_size || x.remaining.len() > usize::MAX - n {
                    0
                } else {
                    x.draws_needed(n)
                }
            },
        }
    }

    /// Feeds one tokenized sample with its random draws, and reports
    /// whether the batch is now full.
    pub fn record(&mut self, ids: &[u32], draws: &[u64]) -> (r: Result<bool, RecordError>)
        requires
            old(self).current.wf(),
        ensures
            final(self).current.wf(),
            old(self).current.is_done() ==> r == Err::<bool, RecordError>(RecordError::Full),
            !old(self).current.is_done() && !ids_fit_labels(ids@) ==> r == Err::<bool, RecordError>(RecordError::IdOutOfRange),
            !old(self).current.is_done() && ids_fit_labels(ids@) ==> {
                let tl = match old(self).current {
                    DataSet::Mask(x) => ids@.len() > x.sequence_length,
                    _ => !stream_fits(old(self).current, ids@.len()),
                };
                &&& tl ==> r == Err::<bool, RecordError>(RecordError::TooLong)
                &&& !tl && draws@.len() < draws_for(old(self).current, ids@.len()) ==> r == Err::<bool, RecordError>(RecordError::MissingDraws)
                &&& !tl && draws@.len() >= draws_for(old(self).current, ids@.len()) ==> {
                    &&& r is Ok
                    &&& r->Ok_0 == final(self).current.is_done()
                    &&& match (old(self).current, final(self).current) {
                        (DataSet::Mask(a), DataSet::Mask(b)) => a.put_post(b, ids@, draws@, r->Ok_0),
                        (DataSet::Gpt2(a), DataSet::Gpt2(b)) => a.put_post(b, ids@, r->Ok_0),
                        (DataSet::T5(a), DataSet::T5(b)) => a.put_post(b, ids@, draws@, r->Ok_0),
                        _ => false,
                    }
                }
            },
            r is Err ==> final(self).current == old(self).current,
    {
        if self.current.done() {
            return Err(RecordError::Full);
        }
        if !ids_fit(ids) {
            return Err(RecordError::IdOutOfRange);
        }
        let n = ids.len();
        let need: usize = match &self.current {
            DataSet::Mask(x) => {
                if n > x.sequence_length {
                    return Err(RecordError::TooLong);
                }
                x.draws_needed(n)
            },
            DataSet::Gpt2(_) => 0,
            DataSet::T5(x) => {
                if x.remaining.len() > usize::MAX - n {
                    return Err(RecordError::TooLong);
                }
                x.draws_needed(n)
            },
        };
        if draws.len() < need {
            return Err(RecordError::MissingDraws);
        }
        Ok(self.current.put_data(ids, draws))
    }

    /// Hands off the full batch and starts its successor, a fresh empty
    /// accumulator seeded with the carry; nothing happens while the batch
    /// is not full.
    pub fn take_batch(&mut self) -> (r: Option<DataSet>)
        requires
            old(self).current.wf(),
        ensures
            final(self).current.wf(),
            r is Some <==> old(self).current.is_done(),
            r is Some ==> {
                &&& r->Some_0 == old(self).current
                &&& r->Some_0.has_batch_shape()
                &&& (r->Some_0 matches DataSet::Mask(m) ==> valid_masked_batch(m))
                &&& old(self).current.fresh_successor(final(self).current)
            },
            r is None ==> final(self).current == old(self).current,
    {
        if !self.current.done() {
            return None;
        }
        let mut other = self.current.create_data();
        std::mem::swap(&mut self.current, &mut other);
        proof {
            crate::dataset::lemma_batch_shape(other);
            if other is Mask {
                lemma_emitted_batch_valid(other->Mask_0);
            }
        }
        Some(other)
    }

    /// At the end of the stream: a masking batch with rows written is
    /// handed off with its unwritten rows marked as padding; the carry of a
    /// stream-based task is too short for a row and is dropped.
    pub fn finish(self) -> (r: Option<DataSet>)
        requires
            self.current.wf(),
        ensures
            match self.current {
                DataSet::Mask(a) => if a.row > 0 {
                    &&& r matches Some(DataSet::Mask(b))
                    &&& b.wf()
                    &&& valid_masked_batch(b)
                    &&& b.row == a.row
                    &&& b.input_ids == a.input_ids
                    &&& b.labels == a.labels
                    &&& forall|i: int| 0 <= i < a.row ==> #[trigger] b.attention_mask@[i] == a.attention_mask@[i]
                    &&& forall|i: int| a.row <= i < a.batch_size ==> (#[trigger] b.attention_mask@[i])@ == attention_row(0, a.sequence_length as nat)
                } else {
                    r is None
                },
                _ => r is None,
            },
    {
        match self.current {
            DataSet::Mask(mut a) => {
                if a.row > 0 {
                    a.mark_padding();
                    proof {
                        lemma_emitted_batch_valid(a);
                    }
                    Some(DataSet::Mask(a))
                } else {
                    None
                }
            },
            _ => None,
        }
    }
}

/// The run succeeds when every stage does; a transport outcome, when there
/// is one, counts too.
pub fn run_outcome(reader_ok: bool, batching_ok: bool, transport: Option<bool>) -> (r: bool)
    ensures
        r == (reader_ok && batching_ok && match transport {
            Some(t) => t,
            None => true,
        }),
{
    let t = match transport {
        Some(t) => t,
        None => true,
    };
    reader_ok && batching_ok && t
}

} // verus!
