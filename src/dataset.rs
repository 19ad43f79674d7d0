//! The batch accumulator over all task variants.
use vstd::prelude::*;
use crate::grid::{has_shape, ids_fit_labels, IGNORE_LABEL};
use crate::gpt_data::GptData;
use crate::masked_data::{mask_count, MaskedData};
use crate::t5_data::{windows_filled, T5Data};

verus! {

/// One in-flight batch of some task.
#[derive(Clone)]
pub enum DataSet {
    Mask(MaskedData),
    Gpt2(GptData),
    T5(T5Data),
}

impl DataSet {
    pub open spec fn wf(&self) -> bool {
        match self {
            DataSet::Mask(x) => x.wf(),
            DataSet::Gpt2(x) => x.wf(),
            DataSet::T5(x) => x.wf(),
        }
    }

    pub open spec fn is_done(&self) -> bool {
        match self {
            DataSet::Mask(x) => x.row == x.batch_size,
            DataSet::Gpt2(x) => x.row == x.batch_size,
            DataSet::T5(x) => x.row == x.batch_size,
        }
    }

    pub open spec fn batch_rows(&self) -> nat {
        match self {
            DataSet::Mask(x) => x.batch_size as nat,
            DataSet::Gpt2(x) => x.batch_size as nat,
            DataSet::T5(x) => x.batch_size as nat,
        }
    }

    pub open spec fn row_length(&self) -> nat {
        match self {
            DataSet::Mask(x) => x.sequence_length as nat,
            DataSet::Gpt2(x) => x.sequence_length as nat,
            DataSet::T5(x) => x.sequence_length as nat,
        }
    }

    /// Width of the label rows: the row length, except for span corruption,
    /// whose targets need a slot per span and one for the end marker too.
    pub open spec fn label_width(&self) -> nat {
        match self {
            DataSet::T5(x) => x.label_length as nat,
            _ => self.row_length(),
        }
    }

    /// The ids and attention grids are `batch_rows` by `row_length`, the
    /// label grid `batch_rows` by `label_width`.
    pub open spec fn has_batch_shape(&self) -> bool {
        match self {
            DataSet::Mask(x) => {
                &&& has_shape(x.input_ids@, self.batch_rows(), self.row_length())
                &&& has_shape(x.attention_mask@, self.batch_rows(), self.row_length())
                &&& has_shape(x.labels@, self.batch_rows(), self.label_width())
            },
            DataSet::Gpt2(x) => {
                &&& has_shape(x.input_ids@, self.batch_rows(), self.row_length())
                &&& has_shape(x.attention_mask@, self.batch_rows(), self.row_length())
                &&& has_shape(x.labels@, self.batch_rows(), self.label_width())
            },
            DataSet::T5(x) => {
                &&& has_shape(x.input_ids@, self.batch_rows(), self.row_length())
                &&& has_shape(x.attention_mask@, self.batch_rows(), self.row_length())
                &&& has_shape(x.labels@, self.batch_rows(), self.label_width())
            },
        }
    }

    /// What a put of `ids` with `ndraws` draws needs beyond a free row.
    pub open spec fn put_ready(&self, ids: Seq<u32>, ndraws: nat) -> bool {
        &&& ids_fit_labels(ids)
        &&& match self {
            DataSet::Mask(x) => ids.len() <= x.sequence_length && ndraws >= mask_count(x.mask_length, ids.len()),
            DataSet::Gpt2(_) => true,
            DataSet::T5(x) => ndraws >= x.number_spans * windows_filled(
                (x.batch_size - x.row) as nat,
                (x.remaining@ + ids).len(),
                x.window_length(),
            ),
        }
    }

    /// `next` is a fresh, empty accumulator of the same task and settings
    /// whose carry, and so what it was fed, is this one's carry.
    pub open spec fn fresh_successor(&self, next: DataSet) -> bool {
        match (*self, next) {
            (DataSet::Mask(a), DataSet::Mask(b)) => {
                &&& b.row == 0
                &&& b.same_settings(&a)
                &&& b.original is None
                &&& forall|i: int| 0 <= i < a.batch_size ==> {
                    &&& (#[trigger] b.input_ids@[i])@ == Seq::new(a.sequence_length as nat, |_j: int| a.pad_token)
                    &&& b.attention_mask@[i]@ == Seq::new(a.sequence_length as nat, |_j: int| 1u32)
                    &&& b.labels@[i]@ == Seq::new(a.sequence_length as nat, |_j: int| IGNORE_LABEL)
                }
            },
            (DataSet::Gpt2(a), DataSet::Gpt2(b)) => {
                &&& b.row == 0
                &&& b.batch_size == a.batch_size
                &&& b.sequence_length == a.sequence_length
                &&& b.fed@ == a.remaining@
                &&& b.remaining@ == a.remaining@
                &&& forall|i: int| 0 <= i < a.batch_size ==> {
                    &&& (#[trigger] b.input_ids@[i])@ == Seq::new(a.sequence_length as nat, |_j: int| 0u32)
                    &&& b.attention_mask@[i]@ == Seq::new(a.sequence_length as nat, |_j: int| 1u32)
                    &&& b.labels@[i]@ == Seq::new(a.sequence_length as nat, |_j: int| IGNORE_LABEL)
                }
            },
            (DataSet::T5(a), DataSet::T5(b)) => {
                &&& b.row == 0
                &&& b.same_settings(&a)
                &&& b.fed@ == a.remaining@
                &&& b.remaining@ == a.remaining@
                &&& forall|i: int| 0 <= i < a.batch_size ==> {
                    &&& (#[trigger] b.input_ids@[i])@ == Seq::new(a.sequence_length as nat, |_j: int| a.pad_token)
                    &&& b.attention_mask@[i]@ == Seq::new(a.sequence_length as nat, |_j: int| 0u32)
                    &&& b.labels@[i]@ == Seq::new(a.label_length as nat, |_j: int| IGNORE_LABEL)
                }
            },
            _ => false,
        }
    }

    /// A fresh, empty accumulator of the same task and settings, seeded
    /// with the carry of this one.
    pub fn create_data(&self) -> (r: DataSet)
        requires
            self.wf(),
        ensures
            r.wf(),
            self.fresh_successor(r),
    {
        match self {
            DataSet::Mask(x) => DataSet::Mask(x.new_data()),
            DataSet::Gpt2(x) => DataSet::Gpt2(x.new_data()),
            DataSet::T5(x) => DataSet::T5(x.new_data()),
        }
    }

    /// Feeds one tokenized sample and reports whether the batch is now full.
    pub fn put_data(&mut self, ids: &[u32], draws: &[u64]) -> (r: bool)
        requires
            old(self).wf(),
            !old(self).is_done(),
            old(self).put_ready(ids@, draws@.len()),
        ensures
            final(self).wf(),
            r == final(self).is_done(),
            match (*old(self), *final(self)) {
                (DataSet::Mask(a), DataSet::Mask(b)) => a.put_post(b, ids@, draws@, r),
                (DataSet::Gpt2(a), DataSet::Gpt2(b)) => a.put_post(b, ids@, r),
                (DataSet::T5(a), DataSet::T5(b)) => a.put_post(b, ids@, draws@, r),
                _ => false,
            },
    {
        match self {
            DataSet::Mask(x) => x.put_data(ids, draws),
            DataSet::Gpt2(x) => x.put_data(ids),
            DataSet::T5(x) => x.put_data(ids, draws),
        }
    }

    /// Every row has been written.
    pub fn done(&self) -> (r: bool)
        ensures
            r == self.is_done(),
    {
        match self {
            DataSet::Mask(x) => x.done(),
            DataSet::Gpt2(x) => x.done(),
            DataSet::T5(x) => x.done(),
        }
    }

    /// The carried tail of a stream-based task; none for masking, whose
    /// rows are one sample each.
    pub fn remaining(&self) -> (r: Option<Vec<u32>>)
        ensures
            match *self {
                DataSet::Mask(_) => r is None,
                DataSet::Gpt2(x) => r is Some && r->Some_0@ == x.remaining@,
                DataSet::T5(x) => r is Some && r->Some_0@ == x.remaining@,
            },
    {
        match self {
            DataSet::Mask(_) => None,
            DataSet::Gpt2(x) => Some(x.remaining.clone()),
            DataSet::T5(x) => Some(x.remaining.clone()),
        }
    }
}

/// Checks the shape of a batch of any task.
pub fn check_shape(d: &DataSet) -> (r: bool)
    ensures
        r == d.has_batch_shape(),
{
    match d {
        DataSet::Mask(x) => grid_shape_ok(&x.input_ids, x.batch_size, x.sequence_length)
            && grid_shape_ok(&x.attention_mask, x.batch_size, x.sequence_length)
            && grid_shape_ok(&x.labels, x.batch_size, x.sequence_length),
        DataSet::Gpt2(x) => grid_shape_ok(&x.input_ids, x.batch_size, x.sequence_length)
            && grid_shape_ok(&x.attention_mask, x.batch_size, x.sequence_length)
            && grid_shape_ok(&x.labels, x.batch_size, x.sequence_length),
        DataSet::T5(x) => grid_shape_ok(&x.input_ids, x.batch_size, x.sequence_length)
            && grid_shape_ok(&x.attention_mask, x.batch_size, x.sequence_length)
            && grid_shape_ok(&x.labels, x.batch_size, x.label_length),
    }
}

/// A grid of `v` has `rows` rows of `cols` entries.
pub fn grid_shape_ok<T>(v: &Vec<Vec<T>>, rows: usize, cols: usize) -> (r: bool)
    ensures
        r == has_shape(v@, rows as nat, cols as nat),
{
    if v.len() != rows {
        return false;
    }
    let mut i: usize = 0;
    while i < rows
        invariant
            v@.len() == rows,
            i <= rows,
            forall|k: int| 0 <= k < i ==> (#[trigger] v@[k])@.len() == cols,
        decreases rows - i,
    {
        if v[i].len() != cols {
            return false;
        }
        i = i + 1;
    }
    true
}

/// Every batch, of every task, keeps its fixed shape.
pub proof fn lemma_batch_shape(d: DataSet)
    requires
        d.wf(),
    ensures
        d.has_batch_shape(),
{
}

} // verus!
