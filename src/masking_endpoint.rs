//! The in-process verification sink for masking batches: it checks the
//! shape of a batch and where its labels stand.
use vstd::prelude::*;
use crate::config::TrainingConfig;
use crate::dataset::{grid_shape_ok, DataSet};
use crate::grid::{has_shape, IGNORE_LABEL};
use crate::masked_data::MaskedData;

verus! {

/// The verification sink of the masking task.
#[derive(Clone, Copy, Debug)]
pub struct MaskingEndpoint {
    /// Batches received so far.
    pub received: u64,
}

/// A masking batch is well formed: all three grids have the batch's shape,
/// attention is zero or one, and every labelled position holds the mask
/// token and a non-negative label. A sample may itself hold the mask
/// token's id at a position that was not chosen, so an unlabelled mask id
/// is no fault.
pub open spec fn valid_masked_batch(d: MaskedData) -> bool {
    &&& has_shape(d.input_ids@, d.batch_size as nat, d.sequence_length as nat)
    &&& has_shape(d.attention_mask@, d.batch_size as nat, d.sequence_length as nat)
    &&& has_shape(d.labels@, d.batch_size as nat, d.sequence_length as nat)
    &&& forall|i: int, j: int| 0 <= i < d.batch_size && 0 <= j < d.sequence_length ==> valid_cell(d, i, j)
}

pub open spec fn valid_cell(d: MaskedData, i: int, j: int) -> bool {
    &&& #[trigger] d.attention_mask@[i]@[j] <= 1
    &&& d.labels@[i]@[j] != IGNORE_LABEL ==> d.labels@[i]@[j] >= 0 && d.input_ids@[i]@[j] == d.mask_token
}

/// Every masking batch the accumulator holds, and so every one it emits,
/// passes the sink's check.
pub proof fn lemma_emitted_batch_valid(d: MaskedData)
    requires
        d.wf(),
    ensures
        valid_masked_batch(d),
{
}

impl MaskingEndpoint {
    pub fn new(_config: TrainingConfig) -> (r: Self)
        ensures
            r.received == 0,
    {
        MaskingEndpoint { received: 0 }
    }

    /// Checks one masking batch.
    pub fn check_batch(&self, data: MaskedData) -> (r: bool)
        ensures
            r == valid_masked_batch(data),
    {
        let b = data.batch_size;
        let s = data.sequence_length;
        if !grid_shape_ok(&data.input_ids, b, s) || !grid_shape_ok(&data.attention_mask, b, s) || !grid_shape_ok(&data.labels, b, s) {
            return false;
        }
        let mut i: usize = 0;
        while i < b
            invariant
                i <= b,
                b == data.batch_size,
                s == data.sequence_length,
                has_shape(data.input_ids@, b as nat, s as nat),
                has_shape(data.attention_mask@, b as nat, s as nat),
                has_shape(data.labels@, b as nat, s as nat),
                forall|x: int, y: int| 0 <= x < i && 0 <= y < s ==> valid_cell(data, x, y),
            decreases b - i,
        {
            let mut j: usize = 0;
            while j < s
                invariant
                    i < b,
                    j <= s,
                    b == data.batch_size,
                    s == data.sequence_length,
                    has_shape(data.input_ids@, b as nat, s as nat),
                    has_shape(data.attention_mask@, b as nat, s as nat),
                    has_shape(data.labels@, b as nat, s as nat),
                    forall|x: int, y: int| 0 <= x < i && 0 <= y < s ==> valid_cell(data, x, y),
                    forall|y: int| 0 <= y < j ==> valid_cell(data, i as int, y),
                decreases s - j,
            {
                let a = data.attention_mask[i][j];
                let l = data.labels[i][j];
                let t = data.input_ids[i][j];
                if a > 1 {
                    assert(!valid_cell(data, i as int, j as int));
                    return false;
                }
                if l != IGNORE_LABEL && (l < 0 || t != data.mask_token) {
                    assert(!valid_cell(data, i as int, j as int));
                    return false;
                }
                j = j + 1;
            }
            i = i + 1;
        }
        true
    }

    /// Receives one batch: a masking batch is checked and counted; a batch
    /// of another task fails.
    pub fn receive(&mut self, data: DataSet) -> (r: bool)
        requires
            old(self).received < u64::MAX,
        ensures
            match data {
                DataSet::Mask(x) => r == valid_masked_batch(x),
                _ => !r,
            },
            final(self).received == old(self).received + 1,
    {
        self.received = self.received + 1;
        match data {
            DataSet::Mask(x) => self.check_batch(x),
            _ => false,
        }
    }
}

} // verus!
