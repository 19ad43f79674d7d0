//! The span-corruption accumulator: each row is a window of the token stream
//! cut into spans; a corrupted span is replaced by one sentinel in the input
//! and reappears, after that sentinel, in the labels.
use vstd::prelude::*;
use crate::grid::{filled_grid, has_shape, ids_fit_labels, label_of, rows_view, IGNORE_LABEL, MAX_LABEL_ID};

verus! {

broadcast use vstd::seq_lib::group_seq_properties;

/// Draws are read modulo this to decide a span, against a per-mille probability.
pub const PER_MILLE: u64 = 1000;

/// Span `k` of window `w`, spans being `span_len` tokens long.
pub open spec fn span_of(w: Seq<u32>, span_len: nat, k: int) -> Seq<u32> {
    w.subrange(k * span_len, (k + 1) * span_len)
}

/// How many of the first `k` spans are corrupted.
pub open spec fn corrupted_before(c: Seq<bool>, k: int) -> nat
    decreases k,
{
    if k <= 0 {
        0
    } else {
        corrupted_before(c, k - 1) + if c[k - 1] { 1nat } else { 0nat }
    }
}

/// The input tokens produced by the first `k` spans: a corrupted span
/// becomes its sentinel, any other span passes through.
pub open spec fn span_input(w: Seq<u32>, span_len: nat, c: Seq<bool>, sent: Seq<u32>, k: int) -> Seq<u32>
    decreases k,
{
    if k <= 0 {
        Seq::empty()
    } else {
        span_input(w, span_len, c, sent, k - 1) + if c[k - 1] {
            seq![sent[corrupted_before(c, k - 1) as int]]
        } else {
            span_of(w, span_len, k - 1)
        }
    }
}

/// The target tokens produced by the first `k` spans: each corrupted span
/// as its sentinel followed by its original tokens.
pub open spec fn span_target(w: Seq<u32>, span_len: nat, c: Seq<bool>, sent: Seq<u32>, k: int) -> Seq<u32>
    decreases k,
{
    if k <= 0 {
        Seq::empty()
    } else {
        span_target(w, span_len, c, sent, k - 1) + if c[k - 1] {
            seq![sent[corrupted_before(c, k - 1) as int]] + span_of(w, span_len, k - 1)
        } else {
            Seq::empty()
        }
    }
}

/// `s` followed by `fill` up to length `len`.
pub open spec fn padded<T>(s: Seq<T>, fill: T, len: nat) -> Seq<T> {
    Seq::new(len, |j: int| if j < s.len() { s[j] } else { fill })
}

/// The label row: the target, then the end marker, then ignored slots.
pub open spec fn target_labels(t: Seq<u32>, end_token: u32, len: nat) -> Seq<i32> {
    Seq::new(
        len,
        |j: int|
            if j < t.len() {
                label_of(t[j])
            } else if j == t.len() {
                label_of(end_token)
            } else {
                IGNORE_LABEL
            },
    )
}

/// Which spans a row's draws corrupt: a draw corrupts its span when it
/// falls below the probability in thousandths.
pub open spec fn span_decisions(draws: Seq<u64>, spans: nat, per_mille: u32) -> Seq<bool> {
    Seq::new(spans, |k: int| (draws[k] as int) % (PER_MILLE as int) < per_mille)
}

pub proof fn lemma_span_lengths(w: Seq<u32>, span_len: nat, c: Seq<bool>, sent: Seq<u32>, k: int)
    requires
        0 <= k,
        span_len >= 1,
        k * span_len <= w.len(),
    ensures
        span_input(w, span_len, c, sent, k).len() <= k * span_len,
        span_target(w, span_len, c, sent, k).len() <= k * (span_len + 1),
        corrupted_before(c, k) <= k,
    decreases k,
{
    if k > 0 {
        assert((k - 1) * span_len + span_len == k * span_len) by (nonlinear_arith);
        assert((k - 1) * span_len >= 0) by (nonlinear_arith) requires k >= 1;
        lemma_span_lengths(w, span_len, c, sent, k - 1);
        assert(span_of(w, span_len, k - 1).len() == span_len);
        assert((k - 1) * (span_len + 1) + span_len + 1 == k * (span_len + 1)) by (nonlinear_arith);
    }
}

/// Builds one row from the window of `spans * span_len` tokens of `stream`
/// that starts at `start`, corrupting the spans that `corrupt` marks.
pub fn corrupt_window(
    stream: &Vec<u32>,
    start: usize,
    span_len: usize,
    corrupt: &Vec<bool>,
    sentinels: &Vec<u32>,
    end_token: u32,
    pad_token: u32,
    sequence_length: usize,
    label_length: usize,
) -> (r: (Vec<u32>, Vec<u32>, Vec<i32>))
    requires
        span_len >= 1,
        corrupt@.len() * span_len <= sequence_length,
        start + corrupt@.len() * span_len <= stream@.len(),
        sentinels@.len() >= corrupt@.len(),
        label_length == sequence_length + corrupt@.len() + 1,
        ids_fit_labels(stream@),
        ids_fit_labels(sentinels@),
        end_token <= MAX_LABEL_ID,
    ensures
        ({
            let spans = corrupt@.len() as int;
            let w = stream@.subrange(start as int, start + spans * span_len);
            let inp = span_input(w, span_len as nat, corrupt@, sentinels@, spans);
            &&& r.0@ == padded(inp, pad_token, sequence_length as nat)
            &&& r.1@ == padded(Seq::new(inp.len(), |_j: int| 1u32), 0u32, sequence_length as nat)
            &&& r.2@ == target_labels(span_target(w, span_len as nat, corrupt@, sentinels@, spans), end_token, label_length as nat)
        }),
{
    let spans = corrupt.len();
    let ghost w = stream@.subrange(start as int, start + spans * span_len);
    let ghost c = corrupt@;
    let ghost sent = sentinels@;
    let ghost l = span_len as nat;
    assert(stream@.len() <= usize::MAX) by {
        let n = stream.len();
    }
    let mut inp: Vec<u32> = Vec::new();
    let mut tgt: Vec<u32> = Vec::new();
    let mut used: usize = 0;
    let mut k: usize = 0;
    while k < spans
        invariant
            spans == corrupt@.len(),
            c == corrupt@,
            sent == sentinels@,
            l == span_len,
            span_len >= 1,
            spans * span_len <= sequence_length,
            start + spans * span_len <= stream@.len(),
            stream@.len() <= usize::MAX,
            w == stream@.subrange(start as int, start + spans * span_len),
            sentinels@.len() >= spans,
            k <= spans,
            inp@ == span_input(w, l, c, sent, k as int),
            tgt@ == span_target(w, l, c, sent, k as int),
            used == corrupted_before(c, k as int),
            used <= k,
        decreases spans - k,
    {
        proof {
            assert(k * span_len + span_len <= spans * span_len) by (nonlinear_arith)
                requires k < spans;
            assert((k as int + 1) * l == k * l + l) by (nonlinear_arith);
            lemma_span_lengths(w, l, c, sent, k as int);
        }
        let base: usize = start + k * span_len;
        let ghost span = span_of(w, l, k as int);
        assert(span.len() == span_len);
        assert(forall|x: int| 0 <= x < span_len ==> span[x] == #[trigger] stream@[base + x]);
        if corrupt[k] {
            let s = sentinels[used];
            inp.push(s);
            tgt.push(s);
            let mut j: usize = 0;
            while j < span_len
                invariant
                    j <= span_len,
                    base + span_len <= stream@.len(),
                    base == start + k * span_len,
                    span.len() == span_len,
                    stream@.len() <= usize::MAX,
                    forall|x: int| 0 <= x < span_len ==> span[x] == #[trigger] stream@[base + x],
                    tgt@ == span_target(w, l, c, sent, k as int) + seq![s] + span.subrange(0, j as int),
                decreases span_len - j,
            {
                tgt.push(stream[base + j]);
                j = j + 1;
                assert(tgt@ =~= span_target(w, l, c, sent, k as int) + seq![s] + span.subrange(0, j as int));
            }
            assert(span.subrange(0, span_len as int) =~= span);
            assert(tgt@ =~= span_target(w, l, c, sent, k + 1));
            assert(inp@ =~= span_input(w, l, c, sent, k + 1));
            used = used + 1;
        } else {
            let mut j: usize = 0;
            while j < span_len
                invariant
                    j <= span_len,
                    base + span_len <= stream@.len(),
                    base == start + k * span_len,
                    span.len() == span_len,
                    stream@.len() <= usize::MAX,
                    forall|x: int| 0 <= x < span_len ==> span[x] == #[trigger] stream@[base + x],
                    inp@ == span_input(w, l, c, sent, k as int) + span.subrange(0, j as int),
                decreases span_len - j,
            {
                inp.push(stream[base + j]);
                j = j + 1;
                assert(inp@ =~= span_input(w, l, c, sent, k as int) + span.subrange(0, j as int));
            }
            assert(span.subrange(0, span_len as int) =~= span);
            assert(inp@ =~= span_input(w, l, c, sent, k + 1));
            assert(tgt@ =~= span_target(w, l, c, sent, k + 1));
        }
        k = k + 1;
    }
    proof {
        lemma_span_lengths(w, l, c, sent, spans as int);
        assert(spans * (span_len + 1) == spans * span_len + spans) by (nonlinear_arith);
    }
    let ghost t = tgt@;
    let ghost ins = inp@;
    let mut row: Vec<u32> = Vec::with_capacity(sequence_length);
    let mut att: Vec<u32> = Vec::with_capacity(sequence_length);
    let mut j: usize = 0;
    while j < sequence_length
        invariant
            inp@ == ins,
            ins.len() <= sequence_length,
            j <= sequence_length,
            row@ == padded(ins, pad_token, j as nat),
            att@ == padded(Seq::new(ins.len(), |_j: int| 1u32), 0u32, j as nat),
        decreases sequence_length - j,
    {
        if j < inp.len() {
            row.push(inp[j]);
            att.push(1u32);
        } else {
            row.push(pad_token);
            att.push(0u32);
        }
        j = j + 1;
        assert(row@ =~= padded(ins, pad_token, j as nat));
        assert(att@ =~= padded(Seq::new(ins.len(), |_j: int| 1u32), 0u32, j as nat));
    }
    proof {
        assert forall|i: int| 0 <= i < t.len() implies #[trigger] t[i] <= MAX_LABEL_ID by {
            lemma_target_fits(w, l, c, sent, spans as int, i);
        }
    }
    let mut lab: Vec<i32> = Vec::with_capacity(label_length);
    j = 0;
    while j < label_length
        invariant
            tgt@ == t,
            t.len() < label_length,
            forall|i: int| 0 <= i < t.len() ==> #[trigger] t[i] <= MAX_LABEL_ID,
            end_token <= MAX_LABEL_ID,
            j <= label_length,
            lab@ == target_labels(t, end_token, j as nat),
        decreases label_length - j,
    {
        if j < tgt.len() {
            let v = tgt[j];
            lab.push(v as i32);
        } else if j == tgt.len() {
            lab.push(end_token as i32);
        } else {
            lab.push(IGNORE_LABEL);
        }
        j = j + 1;
        assert(lab@ =~= target_labels(t, end_token, j as nat));
    }
    (row, att, lab)
}

/// With at least one span and no more spans than tokens, spans are at least
/// one token long and the window fits the row.
pub proof fn lemma_window_positive(sequence_length: usize, number_spans: usize)
    requires
        1 <= number_spans <= sequence_length,
    ensures
        sequence_length as int / number_spans as int >= 1,
        number_spans as int * (sequence_length as int / number_spans as int) >= 1,
        number_spans as int * (sequence_length as int / number_spans as int) <= sequence_length,
{
    let s = sequence_length as int;
    let n = number_spans as int;
    vstd::arithmetic::div_mod::lemma_fundamental_div_mod(s, n);
    assert(s / n >= 1) by (nonlinear_arith)
        requires 1 <= n <= s, s == n * (s / n) + s % n, 0 <= s % n < n;
    assert(n * (s / n) >= 1) by (nonlinear_arith)
        requires n >= 1, s / n >= 1;
    assert(n * (s / n) <= s) by (nonlinear_arith)
        requires s == n * (s / n) + s % n, 0 <= s % n;
}

/// Each id of `s` is smaller than the next.
pub open spec fn strictly_increasing(s: Seq<u32>) -> bool {
    forall|i: int, j: int| 0 <= i < j < s.len() ==> s[i] < s[j]
}

/// One in-flight span-corruption batch.
#[derive(Clone)]
pub struct T5Data {
    pub input_ids: Vec<Vec<u32>>,
    pub attention_mask: Vec<Vec<u32>>,
    /// Label rows are `sequence_length + number_spans + 1` wide: room for
    /// every span's tokens, one sentinel per span and the end marker.
    pub labels: Vec<Vec<i32>>,
    /// Tokens of the stream not yet written to a row.
    pub remaining: Vec<u32>,
    pub batch_size: usize,
    pub sequence_length: usize,
    pub number_spans: usize,
    pub span_length: usize,
    pub label_length: usize,
    /// Probability that a span is corrupted, in thousandths.
    pub mask_per_mille: u32,
    /// Sentinel ids, increasing; the `k`-th corrupted span of a row takes the `k`-th.
    pub sentinels: Vec<u32>,
    pub end_token: u32,
    pub pad_token: u32,
    /// Number of rows written so far.
    pub row: usize,
    /// Every token handed to this accumulator, in order.
    pub fed: Ghost<Seq<u32>>,
    /// The stream window each written row was built from.
    pub windows: Ghost<Seq<Seq<u32>>>,
    /// Which spans of each written row were corrupted.
    pub corrupted: Ghost<Seq<Seq<bool>>>,
}

/// How many rows a put fills: as many whole windows as the stream holds,
/// up to the rows that are free.
pub open spec fn windows_filled(free: nat, stream_len: nat, window: nat) -> nat {
    let whole = stream_len / window;
    if whole < free { whole } else { free }
}

/// A window none of whose spans is corrupted passes to the input unchanged,
/// so then the input row holds exactly the stream tokens it was built from.
pub proof fn lemma_uncorrupted_passes_through(w: Seq<u32>, span_len: nat, c: Seq<bool>, sent: Seq<u32>, k: int)
    requires
        0 <= k <= c.len(),
        span_len >= 1,
        k * span_len <= w.len(),
        forall|i: int| 0 <= i < c.len() ==> !(#[trigger] c[i]),
    ensures
        span_input(w, span_len, c, sent, k) == w.subrange(0, k * span_len),
        span_target(w, span_len, c, sent, k) == Seq::<u32>::empty(),
    decreases k,
{
    if k > 0 {
        assert((k - 1) * span_len + span_len == k * span_len) by (nonlinear_arith);
        assert((k - 1) * span_len >= 0) by (nonlinear_arith) requires k >= 1;
        lemma_uncorrupted_passes_through(w, span_len, c, sent, k - 1);
        assert(!c[k - 1]);
        assert(span_input(w, span_len, c, sent, k) == span_input(w, span_len, c, sent, k - 1) + span_of(w, span_len, k - 1));
        assert(w.subrange(0, k * span_len) =~= w.subrange(0, (k - 1) * span_len) + span_of(w, span_len, k - 1));
        assert(span_target(w, span_len, c, sent, k) =~= Seq::<u32>::empty());
    } else {
        assert(k * span_len == 0) by (nonlinear_arith) requires k == 0;
        assert(w.subrange(0, 0) =~= Seq::<u32>::empty());
    }
}

/// The tokens written by a run of batches, batch after batch.
pub open spec fn span_run_consumed(bs: Seq<T5Data>) -> Seq<u32>
    decreases bs.len(),
{
    if bs.len() == 0 {
        Seq::empty()
    } else {
        bs[0].consumed() + span_run_consumed(bs.drop_first())
    }
}

/// Token conservation over a whole run. Batch `i` was fed, after its
/// seed, the ids `ins[i]` (the concatenation of its puts); the first batch
/// was seeded with `carry`, each later one with the carry of the batch
/// before. Then the rows of all batches followed by the last batch's carry
/// are exactly `carry` and every id fed, in order: nothing is lost or
/// repeated but the final carry.
pub proof fn lemma_span_run_conserves(bs: Seq<T5Data>, ins: Seq<Seq<u32>>, carry: Seq<u32>)
    requires
        bs.len() >= 1,
        ins.len() == bs.len(),
        forall|i: int| 0 <= i < bs.len() ==> (#[trigger] bs[i]).wf(),
        bs[0].fed@ == carry + ins[0],
        forall|i: int| 0 <= i < bs.len() - 1 ==> (#[trigger] bs[i + 1]).fed@ == bs[i].remaining@ + ins[i + 1],
    ensures
        span_run_consumed(bs) + bs.last().remaining@ == carry + ins.flatten(),
    decreases bs.len(),
{
    let rest = bs.drop_first();
    let irest = ins.drop_first();
    assert(ins.flatten() == ins[0] + irest.flatten());
    if bs.len() == 1 {
        assert(span_run_consumed(rest) =~= Seq::<u32>::empty());
        assert(irest.flatten() =~= Seq::<u32>::empty());
        assert(span_run_consumed(bs) + bs.last().remaining@ =~= carry + ins.flatten());
    } else {
        assert forall|i: int| 0 <= i < rest.len() implies (#[trigger] rest[i]).wf() by {
            assert(rest[i] == bs[i + 1]);
        }
        assert forall|i: int| 0 <= i < rest.len() - 1 implies (#[trigger] rest[i + 1]).fed@ == rest[i].remaining@ + irest[i + 1] by {
            assert(rest[i + 1] == bs[i + 2]);
            assert(rest[i] == bs[i + 1]);
            assert(irest[i + 1] == ins[i + 2]);
        }
        assert(rest[0].fed@ == bs[0].remaining@ + irest[0]);
        lemma_span_run_conserves(rest, irest, bs[0].remaining@);
        assert(rest.last() == bs.last());
        assert(bs[0].consumed() + bs[0].remaining@ == bs[0].fed@);
        assert(span_run_consumed(bs) + bs.last().remaining@ =~= bs[0].consumed() + (span_run_consumed(rest) + rest.last().remaining@));
        assert(carry + ins.flatten() =~= (carry + ins[0]) + irest.flatten());
    }
}

impl T5Data {
    /// Number of stream tokens one row is built from.
    pub open spec fn window_length(&self) -> nat {
        self.number_spans as nat * self.span_length as nat
    }

    /// The tokens written to rows so far, row after row.
    pub open spec fn consumed(&self) -> Seq<u32> {
        self.windows@.flatten()
    }

    /// Row `i` holds the span corruption of its window.
    pub open spec fn row_matches(&self, i: int) -> bool {
        let w = self.windows@[i];
        let c = self.corrupted@[i];
        let n = self.number_spans as int;
        let l = self.span_length as nat;
        let inp = span_input(w, l, c, self.sentinels@, n);
        &&& w.len() == self.window_length()
        &&& c.len() == self.number_spans
        &&& self.input_ids@[i]@ == padded(inp, self.pad_token, self.sequence_length as nat)
        &&& self.attention_mask@[i]@ == padded(Seq::new(inp.len(), |_j: int| 1u32), 0u32, self.sequence_length as nat)
        &&& self.labels@[i]@ == target_labels(span_target(w, l, c, self.sentinels@, n), self.end_token, self.label_length as nat)
    }

    pub open spec fn wf(&self) -> bool {
        &&& self.batch_size > 0
        &&& 1 <= self.number_spans <= self.sequence_length
        &&& self.span_length == self.sequence_length / self.number_spans
        &&& self.label_length == self.sequence_length + self.number_spans + 1
        &&& self.sentinels@.len() >= self.number_spans
        &&& ids_fit_labels(self.sentinels@)
        &&& strictly_increasing(self.sentinels@)
        &&& self.end_token <= MAX_LABEL_ID
        &&& has_shape(self.input_ids@, self.batch_size as nat, self.sequence_length as nat)
        &&& has_shape(self.attention_mask@, self.batch_size as nat, self.sequence_length as nat)
        &&& has_shape(self.labels@, self.batch_size as nat, self.label_length as nat)
        &&& self.row <= self.batch_size
        &&& self.windows@.len() == self.row
        &&& self.corrupted@.len() == self.row
        &&& self.consumed() + self.remaining@ == self.fed@
        &&& ids_fit_labels(self.fed@)
        &&& forall|i: int| 0 <= i < self.row ==> #[trigger] self.row_matches(i)
    }

    /// The same settings as `other`, whatever the grids hold.
    pub open spec fn same_settings(&self, other: &T5Data) -> bool {
        &&& self.batch_size == other.batch_size
        &&& self.sequence_length == other.sequence_length
        &&& self.number_spans == other.number_spans
        &&& self.span_length == other.span_length
        &&& self.label_length == other.label_length
        &&& self.mask_per_mille == other.mask_per_mille
        &&& self.sentinels@ == other.sentinels@
        &&& self.end_token == other.end_token
        &&& self.pad_token == other.pad_token
    }

    /// A fresh accumulator with nothing fed.
    pub fn new(
        batch_size: usize,
        sequence_length: usize,
        number_spans: usize,
        mask_per_mille: u32,
        sentinels: Vec<u32>,
        end_token: u32,
        pad_token: u32,
    ) -> (r: Self)
        requires
            batch_size > 0,
            1 <= number_spans <= sequence_length,
            sequence_length + number_spans < usize::MAX,
            sentinels@.len() >= number_spans,
            ids_fit_labels(sentinels@),
            strictly_increasing(sentinels@),
            end_token <= MAX_LABEL_ID,
        ensures
            r.wf(),
            r.row == 0,
            r.batch_size == batch_size,
            r.sequence_length == sequence_length,
            r.number_spans == number_spans,
            r.mask_per_mille == mask_per_mille,
            r.sentinels@ == sentinels@,
            r.end_token == end_token,
            r.pad_token == pad_token,
            r.fed@ == Seq::<u32>::empty(),
            r.remaining@ == Seq::<u32>::empty(),
    {
        let label_length = sequence_length + number_spans + 1;
        let r = T5Data {
            input_ids: filled_grid(batch_size, sequence_length, pad_token),
            attention_mask: filled_grid(batch_size, sequence_length, 0u32),
            labels: filled_grid(batch_size, label_length, IGNORE_LABEL),
            remaining: Vec::new(),
            batch_size,
            sequence_length,
            number_spans,
            span_length: sequence_length / number_spans,
            label_length,
            mask_per_mille,
            sentinels,
            end_token,
            pad_token,
            row: 0,
            fed: Ghost(Seq::empty()),
            windows: Ghost(Seq::empty()),
            corrupted: Ghost(Seq::empty()),
        };
        assert(r.consumed() =~= Seq::<u32>::empty());
        proof { lemma_window_positive(sequence_length, number_spans); }
        r
    }

    /// Every row has been written.
    pub fn done(&self) -> (r: bool)
        ensures
            r == (self.row == self.batch_size),
    {
        self.row == self.batch_size
    }

    /// How many draws appending `n` tokens takes: one per span of every row
    /// the stream then fills.
    pub fn draws_needed(&self, n: usize) -> (r: usize)
        requires
            self.wf(),
            self.row < self.batch_size,
            self.remaining@.len() + n <= usize::MAX,
        ensures
            r == self.number_spans * windows_filled((self.batch_size - self.row) as nat, (self.remaining@.len() + n) as nat, self.window_length()),
    {
        self.rows_draws(self.batch_size - self.row, self.remaining.len() + n)
    }

    fn rows_draws(&self, free: usize, len: usize) -> (r: usize)
        requires
            self.wf(),
        ensures
            r == self.number_spans * windows_filled(free as nat, len as nat, self.window_length()),
    {
        proof { lemma_window_positive(self.sequence_length, self.number_spans); }
        let wl = self.number_spans * self.span_length;
        let whole = len / wl;
        let k = if whole < free { whole } else { free };
        proof {
            let n = self.number_spans as int;
            let l = self.span_length as int;
            assert(k * wl <= len) by (nonlinear_arith)
                requires k <= whole, whole == len as int / wl as int, wl > 0;
            assert(n * k <= k * wl) by (nonlinear_arith)
                requires wl == n * l, l >= 1, k >= 0, n >= 1;
        }
        self.number_spans * k
    }

    /// A fresh, empty accumulator with the same settings, seeded with the
    /// tokens this one has not written: they stay in `remaining` and the
    /// next put writes them before its own ids.
    pub fn new_data(&self) -> (r: Self)
        requires
            self.wf(),
        ensures
            r.wf(),
            r.row == 0,
            r.same_settings(self),
            r.fed@ == self.remaining@,
            r.remaining@ == self.remaining@,
            forall|i: int| 0 <= i < self.batch_size ==> {
                &&& (#[trigger] r.input_ids@[i])@ == Seq::new(self.sequence_length as nat, |_j: int| self.pad_token)
                &&& r.attention_mask@[i]@ == Seq::new(self.sequence_length as nat, |_j: int| 0u32)
                &&& r.labels@[i]@ == Seq::new(self.label_length as nat, |_j: int| IGNORE_LABEL)
            },
    {
        let sentinels = self.sentinels.clone();
        assert(sentinels@ == self.sentinels@);
        let carry = self.remaining.clone();
        assert(carry@ == self.remaining@);
        assert(ids_fit_labels(self.remaining@)) by {
            assert forall|i: int| 0 <= i < self.remaining@.len() implies #[trigger] self.remaining@[i] <= MAX_LABEL_ID by {
                assert(self.remaining@[i] == self.fed@[self.consumed().len() + i]);
            }
        }
        let r = T5Data {
            input_ids: filled_grid(self.batch_size, self.sequence_length, self.pad_token),
            attention_mask: filled_grid(self.batch_size, self.sequence_length, 0u32),
            labels: filled_grid(self.batch_size, self.label_length, IGNORE_LABEL),
            remaining: carry,
            batch_size: self.batch_size,
            sequence_length: self.sequence_length,
            number_spans: self.number_spans,
            span_length: self.span_length,
            label_length: self.label_length,
            mask_per_mille: self.mask_per_mille,
            sentinels,
            end_token: self.end_token,
            pad_token: self.pad_token,
            row: 0,
            fed: Ghost(self.remaining@),
            windows: Ghost(Seq::empty()),
            corrupted: Ghost(Seq::empty()),
        };
        assert(r.consumed() =~= Seq::<u32>::empty());
        assert(r.consumed() + r.remaining@ =~= r.fed@);
        r
    }

    /// What appending `ids` to the stream with `draws` makes of this accumulator.
    pub open spec fn put_post(&self, next: Self, ids: Seq<u32>, draws: Seq<u64>, r: bool) -> bool {
        &&& next.wf()
        &&& next.same_settings(self)
        &&& next.fed@ == self.fed@ + ids
        &&& ({
            let stream = self.remaining@ + ids;
            let wl = self.window_length();
            let n = self.number_spans as int;
            let k = windows_filled((self.batch_size - self.row) as nat, stream.len(), wl);
            &&& next.row == self.row + k
            &&& next.consumed() == self.consumed() + stream.subrange(0, (k * wl) as int)
            &&& next.remaining@ == stream.subrange((k * wl) as int, stream.len() as int)
            &&& next.windows@.subrange(0, self.row as int) == self.windows@
            &&& forall|q: int| 0 <= q < k ==> #[trigger] next.corrupted@[self.row + q]
                == span_decisions(draws.subrange(q * n, q * n + n), n as nat, self.mask_per_mille)
        })
        &&& forall|i: int| 0 <= i < self.row ==> {
            &&& #[trigger] next.input_ids@[i] == self.input_ids@[i]
            &&& next.labels@[i] == self.labels@[i]
            &&& next.attention_mask@[i] == self.attention_mask@[i]
            &&& next.corrupted@[i] == self.corrupted@[i]
        }
        &&& r == (next.row == next.batch_size)
    }

    /// Appends `ids` to the stream and builds a row from every whole window
    /// that fits into the free rows; the row filled `q`-th by this call reads
    /// its span decisions from draws `q * number_spans` onwards. The rest of
    /// the stream is kept for later.
    #[verifier::rlimit(50)]
    pub fn put_data(&mut self, ids: &[u32], draws: &[u64]) -> (r: bool)
        requires
            old(self).wf(),
            old(self).row < old(self).batch_size,
            ids_fit_labels(ids@),
            draws@.len() >= old(self).number_spans * windows_filled(
                (old(self).batch_size - old(self).row) as nat,
                (old(self).remaining@ + ids@).len(),
                old(self).window_length(),
            ),
        ensures
            final(self).wf(),
            old(self).put_post(*final(self), ids@, draws@, r),
    {
        let spans = self.number_spans;
        proof { lemma_window_positive(self.sequence_length, self.number_spans); }
        let wl: usize = self.number_spans * self.span_length;
        let mut stream: Vec<u32> = Vec::new();
        let mut q: usize = 0;
        while q < self.remaining.len()
            invariant
                q <= self.remaining@.len(),
                stream@ == self.remaining@.subrange(0, q as int),
            decreases self.remaining@.len() - q,
        {
            stream.push(self.remaining[q]);
            q = q + 1;
            assert(stream@ =~= self.remaining@.subrange(0, q as int));
        }
        q = 0;
        while q < ids.len()
            invariant
                q <= ids@.len(),
                stream@ == old(self).remaining@ + ids@.subrange(0, q as int),
            decreases ids@.len() - q,
        {
            stream.push(ids[q]);
            q = q + 1;
            assert(stream@ =~= old(self).remaining@ + ids@.subrange(0, q as int));
        }
        assert(ids@.subrange(0, ids@.len() as int) =~= ids@);
        let ghost s = stream@;
        let ghost start = self.row;
        let ghost kmax = windows_filled((old(self).batch_size - old(self).row) as nat, s.len(), wl as nat);
        self.fed = Ghost(self.fed@ + ids@);
        assert(ids_fit_labels(s)) by {
            assert forall|i: int| 0 <= i < s.len() implies #[trigger] s[i] <= MAX_LABEL_ID by {
                if i < old(self).remaining@.len() {
                    assert(s[i] == old(self).fed@[old(self).consumed().len() + i]);
                } else {
                    assert(s[i] == ids@[i - old(self).remaining@.len()]);
                }
            }
        }
        let mut pos: usize = 0;
        let mut dpos: usize = 0;
        assert(0 * wl == 0 && 0 * spans == 0) by (nonlinear_arith);
        assert(s.len() <= usize::MAX) by {
            let l = stream.len();
        }
        assert(draws@.len() <= usize::MAX) by {
            let l = draws.len();
        }
        assert(self.windows@.subrange(0, start as int) =~= old(self).windows@);
        assert forall|i: int| 0 <= i < self.row implies #[trigger] self.row_matches(i) by {
            assert(old(self).row_matches(i));
        }
        while self.row < self.batch_size && stream.len() - pos >= wl
            invariant
                stream@ == s,
                s.len() <= usize::MAX,
                ids_fit_labels(s),
                spans == self.number_spans,
                wl == self.window_length(),
                wl >= 1,
                self.span_length >= 1,
                wl <= self.sequence_length,
                self.same_settings(old(self)),
                old(self).wf(),
                self.fed@ == old(self).fed@ + ids@,
                start == old(self).row,
                start <= self.row <= self.batch_size,
                kmax == windows_filled((old(self).batch_size - old(self).row) as nat, s.len(), wl as nat),
                draws@.len() >= spans * kmax,
                draws@.len() <= usize::MAX,
                pos <= s.len(),
                pos == (self.row - start) * wl,
                dpos == (self.row - start) * spans,
                self.row - start <= kmax,
                self.consumed() == old(self).consumed() + s.subrange(0, pos as int),
                self.windows@.len() == self.row,
                self.corrupted@.len() == self.row,
                self.windows@.subrange(0, start as int) == old(self).windows@,
                has_shape(self.input_ids@, self.batch_size as nat, self.sequence_length as nat),
                has_shape(self.attention_mask@, self.batch_size as nat, self.sequence_length as nat),
                has_shape(self.labels@, self.batch_size as nat, self.label_length as nat),
                forall|i: int| 0 <= i < old(self).row ==> {
                    &&& #[trigger] self.input_ids@[i] == old(self).input_ids@[i]
                    &&& self.labels@[i] == old(self).labels@[i]
                    &&& self.attention_mask@[i] == old(self).attention_mask@[i]
                    &&& self.corrupted@[i] == old(self).corrupted@[i]
                },
                forall|i: int| 0 <= i < self.row ==> #[trigger] self.row_matches(i),
                forall|x: int| 0 <= x < self.row - start ==> #[trigger] self.corrupted@[start + x]
                    == span_decisions(draws@.subrange(x * spans, x * spans + spans), spans as nat, self.mask_per_mille),
            decreases self.batch_size - self.row,
        {
            proof {
                let m = (self.row - start) as int;
                let whole = s.len() / (wl as nat);
                assert(m < whole) by (nonlinear_arith)
                    requires pos == m * wl, s.len() - pos >= wl, wl > 0, whole == s.len() / (wl as nat);
                assert(m + 1 <= kmax);
                assert(m * spans + spans <= spans * kmax) by (nonlinear_arith)
                    requires m + 1 <= kmax, spans >= 0;
            }
            let mut corrupt: Vec<bool> = Vec::with_capacity(spans);
            let mut k: usize = 0;
            while k < spans
                invariant
                    k <= spans,
                    dpos + spans <= draws@.len(),
                    draws@.len() <= usize::MAX,
                    corrupt@ == Seq::new(k as nat, |x: int| (draws@[dpos + x] as int) % (PER_MILLE as int) < self.mask_per_mille),
                decreases spans - k,
            {
                corrupt.push(draws[dpos + k] % PER_MILLE < self.mask_per_mille as u64);
                k = k + 1;
                assert(corrupt@ =~= Seq::new(k as nat, |x: int| (draws@[dpos + x] as int) % (PER_MILLE as int) < self.mask_per_mille));
            }
            let ghost dec = span_decisions(draws@.subrange(dpos as int, dpos + spans), spans as nat, self.mask_per_mille);
            assert(corrupt@ =~= dec);
            proof {
                assert(spans * self.span_length == wl);
            }
            let (inp, att, lab) = corrupt_window(
                &stream,
                pos,
                self.span_length,
                &corrupt,
                &self.sentinels,
                self.end_token,
                self.pad_token,
                self.sequence_length,
                self.label_length,
            );
            let ghost before = self;
            let ghost win = s.subrange(pos as int, pos + wl);
            let r = self.row;
            self.input_ids.set(r, inp);
            self.labels.set(r, lab);
            self.attention_mask.set(r, att);
            self.windows = Ghost(self.windows@.push(win));
            self.corrupted = Ghost(self.corrupted@.push(dec));
            self.row = r + 1;
            proof {
                before.windows@.lemma_flatten_push(win);
                assert(s.subrange(0, pos + wl) =~= s.subrange(0, pos as int) + win);
                assert(self.row_matches(r as int));
                assert forall|i: int| 0 <= i < self.row implies #[trigger] self.row_matches(i) by {
                    if i < r {
                        assert(before.row_matches(i));
                    }
                }
                assert(self.windows@.subrange(0, start as int) =~= before.windows@.subrange(0, start as int));
                assert((self.row - start) * wl == (r - start) * wl + wl) by (nonlinear_arith)
                    requires self.row == r + 1;
                assert((self.row - start) * spans == (r - start) * spans + spans) by (nonlinear_arith)
                    requires self.row == r + 1;
                assert((r - start) * spans == dpos);
            }
            pos = pos + wl;
            dpos = dpos + spans;
        }
        let ghost k = (self.row - start) as nat;
        proof {
            let free = (old(self).batch_size - old(self).row) as nat;
            let whole = s.len() / (wl as nat);
            assert(k <= whole) by (nonlinear_arith)
                requires pos == k * wl, pos <= s.len(), wl > 0, whole == s.len() / (wl as nat);
            if self.row < self.batch_size {
                assert(k >= whole) by (nonlinear_arith)
                    requires pos == k * wl, s.len() - pos < wl, wl > 0, whole == s.len() / (wl as nat);
            }
            assert(k == windows_filled(free, s.len(), wl as nat));
        }
        let mut rest: Vec<u32> = Vec::new();
        let mut m: usize = pos;
        while m < stream.len()
            invariant
                stream@ == s,
                pos <= m <= s.len(),
                rest@ == s.subrange(pos as int, m as int),
            decreases s.len() - m,
        {
            rest.push(stream[m]);
            m = m + 1;
            assert(rest@ =~= s.subrange(pos as int, m as int));
        }
        let ghost before_rest = *self;
        self.remaining = rest;
        assert forall|i: int| 0 <= i < self.row implies #[trigger] self.row_matches(i) by {
            assert(before_rest.row_matches(i));
        }
        assert forall|i: int| 0 <= i < old(self).row implies {
            &&& #[trigger] self.input_ids@[i] == old(self).input_ids@[i]
            &&& self.labels@[i] == old(self).labels@[i]
            &&& self.attention_mask@[i] == old(self).attention_mask@[i]
            &&& self.corrupted@[i] == old(self).corrupted@[i]
        } by {
            assert(before_rest.input_ids@[i] == old(self).input_ids@[i]);
        }
        assert(s =~= s.subrange(0, pos as int) + s.subrange(pos as int, s.len() as int));
        assert(old(self).consumed() + s =~= self.fed@);
        assert(self.consumed() + self.remaining@ =~= self.fed@);
        assert(ids_fit_labels(self.fed@)) by {
            assert forall|i: int| 0 <= i < self.fed@.len() implies #[trigger] self.fed@[i] <= MAX_LABEL_ID by {
                if i < old(self).fed@.len() {
                    assert(self.fed@[i] == old(self).fed@[i]);
                } else {
                    assert(self.fed@[i] == ids@[i - old(self).fed@.len()]);
                }
            }
        }
        assert(forall|i: int| 0 <= i < self.row ==> #[trigger] self.row_matches(i));
        assert(self.consumed() + self.remaining@ == self.fed@);
        assert(self.sentinels@.len() >= self.number_spans);
        assert(ids_fit_labels(self.sentinels@));
        assert(self.wf());
        proof {
            let n = spans as int;
            assert(self.same_settings(old(self)));
            assert(self.fed@ == old(self).fed@ + ids@);
            assert(self.row == old(self).row + k);
            assert(self.consumed() == old(self).consumed() + s.subrange(0, (k * wl) as int));
            assert(self.remaining@ == s.subrange((k * wl) as int, s.len() as int));
            assert(self.windows@.subrange(0, old(self).row as int) == old(self).windows@);
            assert(forall|q: int| 0 <= q < k ==> #[trigger] self.corrupted@[old(self).row + q]
                == span_decisions(draws@.subrange(q * n, q * n + n), n as nat, old(self).mask_per_mille));
        }
        let full = self.row == self.batch_size;
        assert(old(self).put_post(*self, ids@, draws@, full));
        full
    }
}

/// Every target token is a stream token or a sentinel, so it fits a label.
proof fn lemma_target_fits(w: Seq<u32>, span_len: nat, c: Seq<bool>, sent: Seq<u32>, k: int, i: int)
    requires
        0 <= k <= c.len(),
        span_len >= 1,
        k * span_len <= w.len(),
        sent.len() >= c.len(),
        ids_fit_labels(w),
        ids_fit_labels(sent),
        0 <= i < span_target(w, span_len, c, sent, k).len(),
    ensures
        span_target(w, span_len, c, sent, k)[i] <= MAX_LABEL_ID,
    decreases k,
{
    if k > 0 {
        assert((k - 1) * span_len + span_len == k * span_len) by (nonlinear_arith);
        lemma_span_lengths(w, span_len, c, sent, k - 1);
        let prev = span_target(w, span_len, c, sent, k - 1);
        if i < prev.len() {
            lemma_target_fits(w, span_len, c, sent, k - 1, i);
        } else {
            assert(k * span_len >= 0) by (nonlinear_arith) requires k > 0;
            assert(corrupted_before(c, k - 1) <= k - 1);
        }
    }
}

} // verus!
