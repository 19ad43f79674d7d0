//! The causal-language-model accumulator: rows are consecutive windows of one
//! continuous token stream, each label the next token of its row.
use vstd::prelude::*;
use crate::grid::{filled_grid, has_shape, ids_fit_labels, label_of, rows_view, IGNORE_LABEL, MAX_LABEL_ID};

verus! {

broadcast use vstd::seq_lib::group_seq_properties;

/// One in-flight causal batch.
#[derive(Clone)]
pub struct GptData {
    pub input_ids: Vec<Vec<u32>>,
    pub attention_mask: Vec<Vec<u32>>,
    pub labels: Vec<Vec<i32>>,
    /// Tokens of the stream not yet written to a row.
    pub remaining: Vec<u32>,
    pub batch_size: usize,
    pub sequence_length: usize,
    /// Number of rows written so far.
    pub row: usize,
    /// Every token handed to this accumulator, in order.
    pub fed: Ghost<Seq<u32>>,
}

/// The next-token labels of a window: each position predicts its successor,
/// the last position has none.
pub open spec fn causal_labels(w: Seq<u32>) -> Seq<i32> {
    Seq::new(w.len(), |j: int| if j + 1 < w.len() { label_of(w[j + 1]) } else { IGNORE_LABEL })
}

/// How many rows a put fills: as many whole windows as the stream holds,
/// up to the rows that are free.
pub open spec fn rows_filled(free: nat, stream_len: nat, seq_len: nat) -> nat {
    let whole = stream_len / seq_len;
    if whole < free { whole } else { free }
}

/// The tokens written by a run of batches, batch after batch.
pub open spec fn run_consumed(bs: Seq<GptData>) -> Seq<u32>
    decreases bs.len(),
{
    if bs.len() == 0 {
        Seq::empty()
    } else {
        bs[0].consumed() + run_consumed(bs.drop_first())
    }
}

/// Token conservation over a whole run. Batch `i` was fed, after its
/// seed, the ids `ins[i]` (the concatenation of its puts); the first batch
/// was seeded with `carry`, each later one with the carry of the batch
/// before. Then the rows of all batches followed by the last batch's carry
/// are exactly `carry` and every id fed, in order: nothing is lost or
/// repeated but the final carry.
pub proof fn lemma_run_conserves(bs: Seq<GptData>, ins: Seq<Seq<u32>>, carry: Seq<u32>)
    requires
        bs.len() >= 1,
        ins.len() == bs.len(),
        forall|i: int| 0 <= i < bs.len() ==> (#[trigger] bs[i]).wf(),
        bs[0].fed@ == carry + ins[0],
        forall|i: int| 0 <= i < bs.len() - 1 ==> (#[trigger] bs[i + 1]).fed@ == bs[i].remaining@ + ins[i + 1],
    ensures
        run_consumed(bs) + bs.last().remaining@ == carry + ins.flatten(),
    decreases bs.len(),
{
    let rest = bs.drop_first();
    let irest = ins.drop_first();
    assert(ins.flatten() == ins[0] + irest.flatten());
    if bs.len() == 1 {
        assert(run_consumed(rest) =~= Seq::<u32>::empty());
        assert(irest.flatten() =~= Seq::<u32>::empty());
        assert(run_consumed(bs) + bs.last().remaining@ =~= carry + ins.flatten());
    } else {
        assert forall|i: int| 0 <= i < rest.len() implies (#[trigger] rest[i]).wf() by {
            assert(rest[i] == bs[i + 1]);
        }
        assert forall|i: int| 0 <= i < rest.len() - 1 implies (#[trigger] rest[i + 1]).fed@ == rest[i].remaining@ + irest[i + 1] by {
            assert(rest[i + 1] == bs[i + 2]);
            assert(rest[i] == bs[i + 1]);
            assert(irest[i + 1] == ins[i + 2]);
        }
        assert(rest[0].fed@ == bs[0].remaining@ + irest[0]);
        lemma_run_conserves(rest, irest, bs[0].remaining@);
        assert(rest.last() == bs.last());
        assert(bs[0].consumed() + bs[0].remaining@ == bs[0].fed@);
        assert(run_consumed(bs) + bs.last().remaining@ =~= bs[0].consumed() + (run_consumed(rest) + rest.last().remaining@));
        assert(carry + ins.flatten() =~= (carry + ins[0]) + irest.flatten());
    }
}

impl GptData {
    /// The tokens written to rows so far, row after row.
    pub open spec fn consumed(&self) -> Seq<u32> {
        rows_view(self.input_ids@.subrange(0, self.row as int)).flatten()
    }

    pub open spec fn wf(&self) -> bool {
        &&& self.batch_size > 0
        &&& self.sequence_length > 0
        &&& has_shape(self.input_ids@, self.batch_size as nat, self.sequence_length as nat)
        &&& has_shape(self.attention_mask@, self.batch_size as nat, self.sequence_length as nat)
        &&& has_shape(self.labels@, self.batch_size as nat, self.sequence_length as nat)
        &&& self.row <= self.batch_size
        &&& self.consumed() + self.remaining@ == self.fed@
        &&& ids_fit_labels(self.fed@)
        &&& forall|i: int| 0 <= i < self.row ==> {
            &&& (#[trigger] self.labels@[i])@ == causal_labels(self.input_ids@[i]@)
            &&& self.attention_mask@[i]@ == Seq::new(self.sequence_length as nat, |_j: int| 1u32)
        }
    }

    /// A fresh accumulator with nothing fed.
    pub fn new(batch_size: usize, sequence_length: usize) -> (r: Self)
        requires
            batch_size > 0,
            sequence_length > 0,
        ensures
            r.wf(),
            r.row == 0,
            r.batch_size == batch_size,
            r.sequence_length == sequence_length,
            r.fed@ == Seq::<u32>::empty(),
            r.remaining@ == Seq::<u32>::empty(),
    {
        let r = GptData {
            input_ids: filled_grid(batch_size, sequence_length, 0u32),
            attention_mask: filled_grid(batch_size, sequence_length, 1u32),
            labels: filled_grid(batch_size, sequence_length, IGNORE_LABEL),
            remaining: Vec::new(),
            batch_size,
            sequence_length,
            row: 0,
            fed: Ghost(Seq::empty()),
        };
        assert(rows_view(r.input_ids@.subrange(0, 0)) =~= Seq::<Seq<u32>>::empty());
        r
    }

    /// A fresh, empty accumulator with the same shape, seeded with the
    /// tokens this one has not written: they stay in `remaining` and the
    /// next put writes them before its own ids.
    pub fn new_data(&self) -> (r: Self)
        requires
            self.wf(),
        ensures
            r.wf(),
            r.row == 0,
            r.batch_size == self.batch_size,
            r.sequence_length == self.sequence_length,
            r.fed@ == self.remaining@,
            r.remaining@ == self.remaining@,
            forall|i: int| 0 <= i < self.batch_size ==> {
                &&& (#[trigger] r.input_ids@[i])@ == Seq::new(self.sequence_length as nat, |_j: int| 0u32)
                &&& r.attention_mask@[i]@ == Seq::new(self.sequence_length as nat, |_j: int| 1u32)
                &&& r.labels@[i]@ == Seq::new(self.sequence_length as nat, |_j: int| IGNORE_LABEL)
            },
    {
        let carry = self.remaining.clone();
        assert(carry@ == self.remaining@);
        assert(ids_fit_labels(self.remaining@)) by {
            assert forall|i: int| 0 <= i < self.remaining@.len() implies #[trigger] self.remaining@[i] <= MAX_LABEL_ID by {
                assert(self.remaining@[i] == self.fed@[self.consumed().len() + i]);
            }
        }
        let r = GptData {
            input_ids: filled_grid(self.batch_size, self.sequence_length, 0u32),
            attention_mask: filled_grid(self.batch_size, self.sequence_length, 1u32),
            labels: filled_grid(self.batch_size, self.sequence_length, IGNORE_LABEL),
            remaining: carry,
            batch_size: self.batch_size,
            sequence_length: self.sequence_length,
            row: 0,
            fed: Ghost(self.remaining@),
        };
        assert(rows_view(r.input_ids@.subrange(0, 0)) =~= Seq::<Seq<u32>>::empty());
        assert(r.consumed() + r.remaining@ =~= r.fed@);
        r
    }

    /// Every row has been written.
    pub fn done(&self) -> (r: bool)
        ensures
            r == (self.row == self.batch_size),
    {
        self.row == self.batch_size
    }

    /// What appending `ids` to the stream makes of this accumulator.
    pub open spec fn put_post(&self, next: Self, ids: Seq<u32>, r: bool) -> bool {
        &&& next.wf()
        &&& next.batch_size == self.batch_size
        &&& next.sequence_length == self.sequence_length
        &&& next.fed@ == self.fed@ + ids
        &&& ({
            let stream = self.remaining@ + ids;
            let k = rows_filled((self.batch_size - self.row) as nat, stream.len(), self.sequence_length as nat);
            &&& next.row == self.row + k
            &&& next.consumed() == self.consumed() + stream.subrange(0, k * self.sequence_length)
            &&& next.remaining@ == stream.subrange(k * self.sequence_length, stream.len() as int)
        })
        &&& forall|i: int| 0 <= i < self.row ==> #[trigger] next.input_ids@[i] == self.input_ids@[i]
        &&& r == (next.row == next.batch_size)
    }

    /// Appends `ids` to the stream and writes every whole window that fits
    /// into the free rows; the rest of the stream is kept for later.
    pub fn put_data(&mut self, ids: &[u32]) -> (r: bool)
        requires
            old(self).wf(),
            old(self).row < old(self).batch_size,
            ids_fit_labels(ids@),
        ensures
            final(self).wf(),
            old(self).put_post(*final(self), ids@, r),
    {
        let seq_len = self.sequence_length;
        let mut stream: Vec<u32> = Vec::new();
        let mut q: usize = 0;
        while q < self.remaining.len()
            invariant
                q <= self.remaining@.len(),
                stream@ == self.remaining@.subrange(0, q as int),
            decreases self.remaining@.len() - q,
        {
            stream.push(self.remaining[q]);
            q = q + 1;
            assert(stream@ =~= self.remaining@.subrange(0, q as int));
        }
        q = 0;
        while q < ids.len()
            invariant
                q <= ids@.len(),
                stream@ == old(self).remaining@ + ids@.subrange(0, q as int),
            decreases ids@.len() - q,
        {
            stream.push(ids[q]);
            q = q + 1;
            assert(stream@ =~= old(self).remaining@ + ids@.subrange(0, q as int));
        }
        assert(ids@.subrange(0, ids@.len() as int) =~= ids@);
        let ghost s = stream@;
        let ghost start = self.row;
        self.fed = Ghost(self.fed@ + ids@);
        assert(ids_fit_labels(s)) by {
            assert forall|i: int| 0 <= i < s.len() implies #[trigger] s[i] <= MAX_LABEL_ID by {
                if i < old(self).remaining@.len() {
                    assert(s[i] == self.fed@[old(self).consumed().len() + i]);
                } else {
                    assert(s[i] == ids@[i - old(self).remaining@.len()]);
                }
            }
        }
        let mut pos: usize = 0;
        assert(0 * seq_len == 0) by (nonlinear_arith);
        assert(s.len() <= usize::MAX) by {
            let l = stream.len();
        }
        while self.row < self.batch_size && stream.len() - pos >= seq_len
            invariant
                stream@ == s,
                s.len() <= usize::MAX,
                ids_fit_labels(s),
                seq_len == self.sequence_length,
                self.batch_size == old(self).batch_size,
                self.sequence_length == old(self).sequence_length,
                self.fed@ == old(self).fed@ + ids@,
                start == old(self).row,
                start <= self.row <= self.batch_size,
                pos <= s.len(),
                pos == (self.row - start) * seq_len,
                self.consumed() == old(self).consumed() + s.subrange(0, pos as int),
                has_shape(self.input_ids@, self.batch_size as nat, self.sequence_length as nat),
                has_shape(self.attention_mask@, self.batch_size as nat, self.sequence_length as nat),
                has_shape(self.labels@, self.batch_size as nat, self.sequence_length as nat),
                forall|i: int| 0 <= i < old(self).row ==> #[trigger] self.input_ids@[i] == old(self).input_ids@[i],
                forall|i: int| 0 <= i < self.row ==> {
                    &&& (#[trigger] self.labels@[i])@ == causal_labels(self.input_ids@[i]@)
                    &&& self.attention_mask@[i]@ == Seq::new(self.sequence_length as nat, |_j: int| 1u32)
                },
            decreases self.batch_size - self.row,
        {
            let mut window: Vec<u32> = Vec::with_capacity(seq_len);
            let mut lab: Vec<i32> = Vec::with_capacity(seq_len);
            let mut att: Vec<u32> = Vec::with_capacity(seq_len);
            let mut j: usize = 0;
            while j < seq_len
                invariant
                    stream@ == s,
                    ids_fit_labels(s),
                    pos + seq_len <= s.len(),
                    s.len() <= usize::MAX,
                    j <= seq_len,
                    window@ == s.subrange(pos as int, pos + j),
                    lab@ == Seq::new(j as nat, |x: int| if x + 1 < seq_len { label_of(s[pos + x + 1]) } else { IGNORE_LABEL }),
                    att@ == Seq::new(j as nat, |_x: int| 1u32),
                decreases seq_len - j,
            {
                window.push(stream[pos + j]);
                if j + 1 < seq_len {
                    let nxt = stream[pos + j + 1];
                    assert(nxt <= MAX_LABEL_ID);
                    lab.push(nxt as i32);
                } else {
                    lab.push(IGNORE_LABEL);
                }
                att.push(1u32);
                j = j + 1;
                assert(window@ =~= s.subrange(pos as int, pos + j));
                assert(lab@ =~= Seq::new(j as nat, |x: int| if x + 1 < seq_len { label_of(s[pos + x + 1]) } else { IGNORE_LABEL }));
                assert(att@ =~= Seq::new(j as nat, |_x: int| 1u32));
            }
            assert(lab@ =~= causal_labels(window@));
            let ghost before = self.input_ids@;
            let r = self.row;
            self.input_ids.set(r, window);
            self.labels.set(r, lab);
            self.attention_mask.set(r, att);
            self.row = r + 1;
            proof {
                let rows_new = rows_view(self.input_ids@.subrange(0, self.row as int));
                let rows_old = rows_view(before.subrange(0, r as int));
                assert(rows_new =~= rows_old.push(s.subrange(pos as int, pos + seq_len)));
                rows_old.lemma_flatten_push(s.subrange(pos as int, pos + seq_len));
                assert(s.subrange(0, pos + seq_len) =~= s.subrange(0, pos as int) + s.subrange(pos as int, pos + seq_len));
                assert((self.row - start) * seq_len == (r - start) * seq_len + seq_len) by (nonlinear_arith)
                    requires self.row == r + 1;
            }
            pos = pos + seq_len;
        }
        let ghost k = (self.row - start) as nat;
        proof {
            let free = (old(self).batch_size - old(self).row) as nat;
            let whole = s.len() / (seq_len as nat);
            assert(k <= whole) by (nonlinear_arith)
                requires pos == k * seq_len, pos <= s.len(), seq_len > 0, whole == s.len() / (seq_len as nat);
            if self.row < self.batch_size {
                assert(k >= whole) by (nonlinear_arith)
                    requires pos == k * seq_len, s.len() - pos < seq_len, seq_len > 0, whole == s.len() / (seq_len as nat);
            }
            assert(k == rows_filled(free, s.len(), seq_len as nat));
        }
        let mut rest: Vec<u32> = Vec::new();
        let mut m: usize = pos;
        while m < stream.len()
            invariant
                stream@ == s,
                pos <= m <= s.len(),
                rest@ == s.subrange(pos as int, m as int),
            decreases s.len() - m,
        {
            rest.push(stream[m]);
            m = m + 1;
            assert(rest@ =~= s.subrange(pos as int, m as int));
        }
        self.remaining = rest;
        assert(s =~= s.subrange(0, pos as int) + s.subrange(pos as int, s.len() as int));
        assert(old(self).consumed() + s =~= self.fed@);
        assert(self.consumed() + self.remaining@ =~= self.fed@);
        assert(self.row <= self.batch_size);
        assert(self.batch_size > 0);
        assert(self.sequence_length > 0);
        assert(self.consumed() + self.remaining@ == self.fed@);
        assert(has_shape(self.input_ids@, self.batch_size as nat, self.sequence_length as nat));
        assert(has_shape(self.labels@, self.batch_size as nat, self.sequence_length as nat));
        assert(has_shape(self.attention_mask@, self.batch_size as nat, self.sequence_length as nat));
        assert(forall|i: int| 0 <= i < self.row ==> {
            &&& (#[trigger] self.labels@[i])@ == causal_labels(self.input_ids@[i]@)
            &&& self.attention_mask@[i]@ == Seq::new(self.sequence_length as nat, |_j: int| 1u32)
        });
        assert(ids_fit_labels(self.fed@)) by {
            assert forall|i: int| 0 <= i < self.fed@.len() implies #[trigger] self.fed@[i] <= MAX_LABEL_ID by {
                if i < old(self).fed@.len() {
                    assert(self.fed@[i] == old(self).fed@[i]);
                } else {
                    assert(self.fed@[i] == ids@[i - old(self).fed@.len()]);
                }
            }
        }
        assert(self.wf());
        self.row == self.batch_size
    }
}

} // verus!
