//! The masked-language-model accumulator: one sample per row, a fixed number
//! of positions per row replaced by the mask token and predicted as labels.
use vstd::prelude::*;
use crate::grid::{
    filled_grid, filled_row, has_shape, ids_fit_labels, label_of, IGNORE_LABEL, MAX_LABEL_ID,
};
use crate::masking_endpoint::valid_cell;
use crate::sampling::{choose_positions, chosen, lemma_chosen_distinct};

verus! {

/// One in-flight masked batch.
#[derive(Clone, Debug)]
pub struct MaskedData {
    pub input_ids: Vec<Vec<u32>>,
    pub attention_mask: Vec<Vec<u32>>,
    pub labels: Vec<Vec<i32>>,
    pub original: Option<Vec<Vec<u32>>>,
    pub batch_size: usize,
    pub sequence_length: usize,
    pub mask_length: usize,
    pub pad_token: u32,
    pub mask_token: u32,
    /// Number of rows written so far.
    pub row: usize,
}

/// How many positions of a sample of `n` tokens are masked.
pub open spec fn mask_count(mask_length: usize, n: nat) -> nat {
    if (mask_length as nat) < n {
        mask_length as nat
    } else {
        n
    }
}

/// Position `j` is one of `pos`.
pub open spec fn is_chosen(pos: Seq<usize>, j: int) -> bool {
    exists|t: int| 0 <= t < pos.len() && pos[t] as int == j
}

/// The input row for sample `ids` with the positions `pos` masked.
pub open spec fn masked_input(ids: Seq<u32>, pos: Seq<usize>, mask: u32, pad: u32, len: nat) -> Seq<u32> {
    Seq::new(
        len,
        |j: int|
            if j < ids.len() {
                if is_chosen(pos, j) {
                    mask
                } else {
                    ids[j]
                }
            } else {
                pad
            },
    )
}

/// The label row: the original id at masked positions, ignore elsewhere.
pub open spec fn masked_labels(ids: Seq<u32>, pos: Seq<usize>, len: nat) -> Seq<i32> {
    Seq::new(
        len,
        |j: int|
            if j < ids.len() && is_chosen(pos, j) {
                label_of(ids[j])
            } else {
                IGNORE_LABEL
            },
    )
}

/// The attention row: one over the sample, zero over the padding.
pub open spec fn attention_row(n: nat, len: nat) -> Seq<u32> {
    Seq::new(len, |j: int| if j < n { 1u32 } else { 0u32 })
}

/// The positions of a label row that are not ignored.
pub open spec fn labelled_positions(labels: Seq<i32>) -> Set<int> {
    Set::new(|j: int| 0 <= j < labels.len() && labels[j] != IGNORE_LABEL)
}

/// The positions of a sample of `n` tokens that the mask rewrites.
pub open spec fn rewritten_positions(pos: Seq<usize>, n: nat) -> Set<int> {
    Set::new(|j: int| 0 <= j < n && is_chosen(pos, j))
}

/// In a written row the labelled positions are exactly the positions
/// rewritten with the mask token, and there are as many of them as the
/// mask length allows for the sample.
pub proof fn lemma_label_sentinel(ids: Seq<u32>, draws: Seq<u64>, mask_length: usize, mask: u32, pad: u32, len: nat)
    requires
        ids.len() <= len,
        len <= usize::MAX,
        ids_fit_labels(ids),
        draws.len() >= mask_count(mask_length, ids.len()),
    ensures
        ({
            let pos = chosen(ids.len() as usize, draws, mask_count(mask_length, ids.len()));
            let input = masked_input(ids, pos, mask, pad, len);
            &&& labelled_positions(masked_labels(ids, pos, len)) == rewritten_positions(pos, ids.len())
            &&& forall|j: int| #[trigger] rewritten_positions(pos, ids.len()).contains(j) ==> input[j] == mask
            &&& rewritten_positions(pos, ids.len()).len() == mask_count(mask_length, ids.len())
        }),
{
    let n = ids.len() as usize;
    let k = mask_count(mask_length, ids.len());
    let pos = chosen(n, draws, k);
    lemma_chosen_distinct(n, draws, k);
    let labels = masked_labels(ids, pos, len);
    assert forall|j: int| #[trigger] labelled_positions(labels).contains(j) == rewritten_positions(pos, ids.len()).contains(j) by {
        if 0 <= j < ids.len() {
            assert(ids[j] <= MAX_LABEL_ID);
        }
    }
    assert(labelled_positions(labels) =~= rewritten_positions(pos, ids.len()));
    let ints = pos.map_values(|p: usize| p as int);
    assert forall|a: int, b: int| 0 <= a < ints.len() && 0 <= b < ints.len() && a != b implies ints[a] != ints[b] by {
        assert(pos[a] != pos[b]);
    }
    assert(ints.no_duplicates());
    ints.unique_seq_to_set();
    assert forall|j: int| #[trigger] ints.to_set().contains(j) == rewritten_positions(pos, ids.len()).contains(j) by {
        if ints.to_set().contains(j) {
            let w = choose|w: int| 0 <= w < ints.len() && ints[w] == j;
            assert(pos[w] as int == j);
        }
        if rewritten_positions(pos, ids.len()).contains(j) {
            let w = choose|w: int| 0 <= w < pos.len() && pos[w] as int == j;
            assert(ints[w] == j);
        }
    }
    assert(ints.to_set() =~= rewritten_positions(pos, ids.len()));
}

impl MaskedData {
    pub open spec fn wf(&self) -> bool {
        &&& has_shape(self.input_ids@, self.batch_size as nat, self.sequence_length as nat)
        &&& has_shape(self.attention_mask@, self.batch_size as nat, self.sequence_length as nat)
        &&& has_shape(self.labels@, self.batch_size as nat, self.sequence_length as nat)
        &&& self.row <= self.batch_size
        &&& forall|i: int, j: int| 0 <= i < self.batch_size && 0 <= j < self.sequence_length ==> #[trigger] valid_cell(*self, i, j)
    }

    /// The same settings as `other`, whatever the grids hold.
    pub open spec fn same_settings(&self, other: &MaskedData) -> bool {
        &&& self.batch_size == other.batch_size
        &&& self.sequence_length == other.sequence_length
        &&& self.mask_length == other.mask_length
        &&& self.pad_token == other.pad_token
        &&& self.mask_token == other.mask_token
    }

    /// A fresh accumulator: padded ids, full attention, ignored labels.
    pub fn new(batch_size: u32, sequence_length: u32, masked_length: u32, pad_token: u32, mask_token: u32) -> (r: Self)
        ensures
            r.wf(),
            r.row == 0,
            r.batch_size == batch_size,
            r.sequence_length == sequence_length,
            r.mask_length == masked_length,
            r.pad_token == pad_token,
            r.mask_token == mask_token,
            r.original is None,
            forall|i: int| 0 <= i < batch_size ==> {
                &&& (#[trigger] r.input_ids@[i])@ == Seq::new(sequence_length as nat, |_j: int| pad_token)
                &&& r.attention_mask@[i]@ == Seq::new(sequence_length as nat, |_j: int| 1u32)
                &&& r.labels@[i]@ == Seq::new(sequence_length as nat, |_j: int| IGNORE_LABEL)
            },
    {
        let b = batch_size as usize;
        let s = sequence_length as usize;
        let r = MaskedData {
            input_ids: filled_grid(b, s, pad_token),
            attention_mask: filled_grid(b, s, 1u32),
            labels: filled_grid(b, s, IGNORE_LABEL),
            original: None,
            batch_size: b,
            sequence_length: s,
            mask_length: masked_length as usize,
            pad_token,
            mask_token,
            row: 0,
        };
        assert forall|i: int, j: int| 0 <= i < r.batch_size && 0 <= j < r.sequence_length implies #[trigger] valid_cell(r, i, j) by {
            assert(r.labels@[i]@[j] == IGNORE_LABEL);
            assert(r.attention_mask@[i]@[j] == 1u32);
        }
        r
    }

    /// A fresh, empty accumulator with the same settings.
    pub fn new_data(&self) -> (r: Self)
        requires
            self.wf(),
        ensures
            r.wf(),
            r.row == 0,
            r.same_settings(self),
            r.original is None,
            forall|i: int| 0 <= i < self.batch_size ==> {
                &&& (#[trigger] r.input_ids@[i])@ == Seq::new(self.sequence_length as nat, |_j: int| self.pad_token)
                &&& r.attention_mask@[i]@ == Seq::new(self.sequence_length as nat, |_j: int| 1u32)
                &&& r.labels@[i]@ == Seq::new(self.sequence_length as nat, |_j: int| IGNORE_LABEL)
            },
    {
        let b = self.batch_size;
        let s = self.sequence_length;
        let r = MaskedData {
            input_ids: filled_grid(b, s, self.pad_token),
            attention_mask: filled_grid(b, s, 1u32),
            labels: filled_grid(b, s, IGNORE_LABEL),
            original: None,
            batch_size: b,
            sequence_length: s,
            mask_length: self.mask_length,
            pad_token: self.pad_token,
            mask_token: self.mask_token,
            row: 0,
        };
        assert forall|i: int, j: int| 0 <= i < r.batch_size && 0 <= j < r.sequence_length implies #[trigger] valid_cell(r, i, j) by {
            assert(r.labels@[i]@[j] == IGNORE_LABEL);
            assert(r.attention_mask@[i]@[j] == 1u32);
        }
        r
    }

    /// How many draws writing a sample of `n` tokens takes.
    pub fn draws_needed(&self, n: usize) -> (r: usize)
        ensures
            r == mask_count(self.mask_length, n as nat),
    {
        if self.mask_length < n { self.mask_length } else { n }
    }

    /// Every row has been written.
    pub fn done(&self) -> (r: bool)
        ensures
            r == (self.row == self.batch_size),
    {
        self.row == self.batch_size
    }

    /// Marks the rows not yet written as padding, for a final batch that
    /// the stream ended before filling.
    pub fn mark_padding(&mut self)
        requires
            old(self).wf(),
        ensures
            final(self).wf(),
            final(self).same_settings(old(self)),
            final(self).row == old(self).row,
            final(self).original == old(self).original,
            final(self).input_ids == old(self).input_ids,
            final(self).labels == old(self).labels,
            forall|i: int| 0 <= i < old(self).row ==> #[trigger] final(self).attention_mask@[i] == old(self).attention_mask@[i],
            forall|i: int| old(self).row <= i < old(self).batch_size ==> (#[trigger] final(self).attention_mask@[i])@ == attention_row(0, old(self).sequence_length as nat),
    {
        let mut i: usize = self.row;
        while i < self.batch_size
            invariant
                self.wf(),
                self.same_settings(old(self)),
                self.row == old(self).row,
                self.original == old(self).original,
                self.input_ids == old(self).input_ids,
                self.labels == old(self).labels,
                old(self).row <= i <= self.batch_size,
                forall|q: int| 0 <= q < old(self).row ==> #[trigger] self.attention_mask@[q] == old(self).attention_mask@[q],
                forall|q: int| old(self).row <= q < i ==> (#[trigger] self.attention_mask@[q])@ == attention_row(0, old(self).sequence_length as nat),
            decreases self.batch_size - i,
        {
            let zeros = filled_row(self.sequence_length, 0u32);
            assert(zeros@ =~= attention_row(0, self.sequence_length as nat));
            let ghost before = *self;
            self.attention_mask.set(i, zeros);
            assert forall|x: int, y: int| 0 <= x < self.batch_size && 0 <= y < self.sequence_length implies #[trigger] valid_cell(*self, x, y) by {
                assert(valid_cell(before, x, y));
                if x != i {
                    assert(self.attention_mask@[x] == before.attention_mask@[x]);
                }
            }
            i = i + 1;
        }
    }

    /// What writing `ids` with `draws` as the next row makes of this accumulator.
    pub open spec fn put_post(&self, next: Self, ids: Seq<u32>, draws: Seq<u64>, r: bool) -> bool {
        &&& next.wf()
        &&& next.same_settings(self)
        &&& next.original == self.original
        &&& next.row == self.row + 1
        &&& r == (next.row == next.batch_size)
        &&& forall|j: int| 0 <= j < self.sequence_length ==> #[trigger] valid_cell(next, self.row as int, j)
        &&& ({
            let row = self.row as int;
            let len = self.sequence_length as nat;
            let pos = chosen(ids.len() as usize, draws, mask_count(self.mask_length, ids.len()));
            &&& next.input_ids@[row]@ == masked_input(ids, pos, self.mask_token, self.pad_token, len)
            &&& next.labels@[row]@ == masked_labels(ids, pos, len)
            &&& next.attention_mask@[row]@ == attention_row(ids.len(), len)
        })
        &&& forall|i: int| 0 <= i < self.batch_size && i != self.row ==> {
            &&& #[trigger] next.input_ids@[i] == self.input_ids@[i]
            &&& next.labels@[i] == self.labels@[i]
            &&& next.attention_mask@[i] == self.attention_mask@[i]
        }
    }

    /// Writes `ids` as the next row, masking the positions that `draws`
    /// select, and reports whether the batch is now full.
    pub fn put_data(&mut self, ids: &[u32], draws: &[u64]) -> (r: bool)
        requires
            old(self).wf(),
            old(self).row < old(self).batch_size,
            ids@.len() <= old(self).sequence_length,
            ids_fit_labels(ids@),
            draws@.len() >= mask_count(old(self).mask_length, ids@.len()),
        ensures
            final(self).wf(),
            old(self).put_post(*final(self), ids@, draws@, r),
    {
        let n = ids.len();
        let len = self.sequence_length;
        let k: usize = if self.mask_length < n { self.mask_length } else { n };
        let pos = choose_positions(n, k, draws);
        let ghost gpos = pos@;
        proof {
            lemma_chosen_distinct(n, draws@, k as nat);
        }
        let mut input: Vec<u32> = Vec::with_capacity(len);
        let mut attention: Vec<u32> = Vec::with_capacity(len);
        let mut j: usize = 0;
        while j < len
            invariant
                j <= len,
                n <= len,
                n == ids@.len(),
                input@ == Seq::new(j as nat, |q: int| if q < n { ids@[q] } else { self.pad_token }),
                attention@ == attention_row(n as nat, j as nat),
            decreases len - j,
        {
            if j < n {
                input.push(ids[j]);
                attention.push(1u32);
            } else {
                input.push(self.pad_token);
                attention.push(0u32);
            }
            j = j + 1;
            assert(input@ =~= Seq::new(j as nat, |q: int| if q < n { ids@[q] } else { self.pad_token }));
            assert(attention@ =~= attention_row(n as nat, j as nat));
        }
        let mut labels = filled_row(len, IGNORE_LABEL);
        let mut t: usize = 0;
        while t < k
            invariant
                t <= k,
                k <= n,
                n <= len,
                n == ids@.len(),
                pos@ == gpos,
                gpos.len() == k,
                forall|i: int| 0 <= i < k ==> (#[trigger] gpos[i]) < n,
                ids_fit_labels(ids@),
                input@ == masked_input(ids@, gpos.subrange(0, t as int), self.mask_token, self.pad_token, len as nat),
                labels@ == masked_labels(ids@, gpos.subrange(0, t as int), len as nat),
            decreases k - t,
        {
            let p = pos[t];
            let id = ids[p];
            input.set(p, self.mask_token);
            labels.set(p, id as i32);
            t = t + 1;
            proof {
                let sub = gpos.subrange(0, t as int);
                let prev = gpos.subrange(0, t - 1);
                assert forall|q: int| 0 <= q < len implies is_chosen(sub, q) == (is_chosen(prev, q)
                    || q == p as int) by {
                    if is_chosen(prev, q) {
                        let w = choose|w: int| 0 <= w < prev.len() && prev[w] as int == q;
                        assert(sub[w] == prev[w]);
                    }
                    if q == p as int {
                        assert(sub[t - 1] == p);
                    }
                    if is_chosen(sub, q) && q != p as int {
                        let w = choose|w: int| 0 <= w < sub.len() && sub[w] as int == q;
                        assert(w != t - 1);
                        assert(prev[w] == sub[w]);
                    }
                }
                assert(id <= MAX_LABEL_ID);
                assert(input@ =~= masked_input(ids@, sub, self.mask_token, self.pad_token, len as nat));
                assert(labels@ =~= masked_labels(ids@, sub, len as nat));
            }
        }
        assert(gpos.subrange(0, k as int) =~= gpos);
        let r = self.row;
        self.input_ids.set(r, input);
        self.labels.set(r, labels);
        self.attention_mask.set(r, attention);
        self.row = r + 1;
        proof {
            assert forall|j: int| 0 <= j < self.sequence_length implies #[trigger] valid_cell(*self, r as int, j) by {
                if j < ids@.len() {
                    assert(ids@[j] <= MAX_LABEL_ID);
                }
            }
            assert forall|x: int, y: int| 0 <= x < self.batch_size && 0 <= y < self.sequence_length implies #[trigger] valid_cell(*self, x, y) by {
                if x != r {
                    assert(valid_cell(*old(self), x, y));
                    assert(self.attention_mask@[x] == old(self).attention_mask@[x]);
                    assert(self.labels@[x] == old(self).labels@[x]);
                    assert(self.input_ids@[x] == old(self).input_ids@[x]);
                }
            }
        }
        self.row == self.batch_size
    }
}

} // verus!
