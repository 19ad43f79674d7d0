//! Where records come from, how many are read, and which lines count.
use vstd::prelude::*;

verus! {

/// How long the reader runs.
#[derive(Clone, Copy, Debug, PartialEq, Eq, Structural)]
pub enum ProviderLength {
    /// Stop after this many records in total.
    Iterations { iterations: u64 },
    /// Stop after this many passes over the origins.
    Epochs { epochs: u64 },
}

/// Named corpora of the catalog.
#[derive(Clone, Copy, Debug, PartialEq, Eq, Structural)]
pub enum PileDatasetType {
    Wiki,
    Total,
}

/// One origin of records.
#[derive(Clone, Debug)]
pub struct Dataset {
    pub location: String,
}

/// The origins records are read from.
#[derive(Clone, Debug)]
pub enum SourceDescription {
    DataList(Vec<Dataset>),
    Pile { typ: PileDatasetType },
}

/// How the reader decodes a line into a record.
#[derive(Clone, Copy, Debug, PartialEq, Eq, Structural)]
pub enum SourceFilter {
    JsonText,
    FastText,
}

/// Everything the reader is configured with.
#[derive(Clone, Debug)]
pub struct ProviderConfig {
    pub shuffle: Option<bool>,
    pub flatten: Option<bool>,
    pub length: ProviderLength,
    pub source: SourceDescription,
    pub filter: Option<SourceFilter>,
}

/// What the JSON object in `line` holds under `key`, when that is a string.
pub uninterp spec fn json_string_field(line: Seq<char>, key: Seq<char>) -> Option<Seq<char>>;

/// Relies on serde_json::from_str, Value::get and Value::as_str: the line is
/// parsed as JSON and the string under `key` is handed back, or nothing when
/// the line is no JSON object or holds no string there. Parsing depends on
/// the text alone.
#[verifier::external_body]
fn json_text_field(line: &str, key: &str) -> (r: Option<String>)
    ensures
        match r {
            Some(t) => json_string_field(line@, key@) == Some(t@),
            None => json_string_field(line@, key@) is None,
        },
{
    let value: serde_json::Value = serde_json::from_str(line).ok()?;
    value.get(key)?.as_str().map(|t| t.to_string())
}

/// The field of a JSON line that holds a record's text.
pub open spec fn text_key() -> Seq<char> {
    seq!['t', 'e', 'x', 't']
}

/// The record a filter takes from a line, if any.
pub open spec fn record_of(filter: SourceFilter, line: Seq<char>) -> Option<Seq<char>> {
    match filter {
        SourceFilter::JsonText => json_string_field(line, text_key()),
        SourceFilter::FastText => None,
    }
}

impl SourceFilter {
    /// The record a line holds, or nothing when the line is to be skipped.
    pub fn get_text(&self, line: String) -> (r: Option<String>)
        ensures
            match *self {
                SourceFilter::JsonText => match r {
                    Some(t) => json_string_field(line@, text_key()) == Some(t@),
                    None => json_string_field(line@, text_key()) is None,
                },
                SourceFilter::FastText => r is None,
            },
    {
        match self {
            SourceFilter::JsonText => {
                let key = "text";
                proof {
                    reveal_strlit("text");
                }
                assert(key@ =~= text_key());
                json_text_field(line.as_str(), key)
            },
            SourceFilter::FastText => None,
        }
    }
}

/// Counts records and passes against the length policy.
#[derive(Clone, Copy, Debug)]
pub struct Counter {
    pub length: ProviderLength,
    pub data: u64,
    pub epochs: u64,
}

impl Counter {
    pub fn new(length: ProviderLength) -> (r: Self)
        ensures
            r.length == length,
            r.data == 0,
            r.epochs == 0,
    {
        Counter { length, data: 0, epochs: 0 }
    }

    /// The policy is met: the cap on records or on passes is reached.
    pub open spec fn reached(&self) -> bool {
        match self.length {
            ProviderLength::Iterations { iterations } => self.data >= iterations,
            ProviderLength::Epochs { epochs } => self.epochs >= epochs,
        }
    }

    /// Counts one record and reports whether the policy is now met.
    pub fn inc_data(&mut self) -> (r: bool)
        requires
            old(self).data < u64::MAX,
        ensures
            final(self).data == old(self).data + 1,
            final(self).epochs == old(self).epochs,
            final(self).length == old(self).length,
            r == final(self).reached(),
    {
        self.data = self.data + 1;
        self.is_reached()
    }

    /// Counts one full pass over the origins and reports whether the policy is now met.
    pub fn inc_epoch(&mut self) -> (r: bool)
        requires
            old(self).epochs < u64::MAX,
        ensures
            final(self).epochs == old(self).epochs + 1,
            final(self).data == old(self).data,
            final(self).length == old(self).length,
            r == final(self).reached(),
    {
        self.epochs = self.epochs + 1;
        self.is_reached()
    }

    pub fn is_reached(&self) -> (r: bool)
        ensures
            r == self.reached(),
    {
        match self.length {
            ProviderLength::Iterations { iterations } => self.data >= iterations,
            ProviderLength::Epochs { epochs } => self.epochs >= epochs,
        }
    }
}

/// What the reader does with one line of an origin.
#[derive(Clone, Debug)]
pub enum ReadStep {
    /// The line holds no record; it does not count.
    Skip,
    /// Send the record; `last` is set when it meets the length policy and
    /// the reader is to close its channel after it.
    Send { record: String, last: bool },
    /// The length policy was already met: nothing more is read, the line
    /// is left unread and the channel is to close.
    Stop,
}

/// The reader's state: its filter and its counter.
#[derive(Clone, Debug)]
pub struct Reader {
    pub filter: SourceFilter,
    pub counter: Counter,
}

impl Reader {
    pub fn new(filter: SourceFilter, length: ProviderLength) -> (r: Self)
        ensures
            r.filter == filter,
            r.counter.length == length,
            r.counter.data == 0,
            r.counter.epochs == 0,
    {
        Reader { filter, counter: Counter::new(length) }
    }

    /// What `on_line` does: from `before`, reading `line` gives `after` and `step`.
    pub open spec fn step(before: Reader, after: Reader, line: Seq<char>, step: ReadStep) -> bool {
        &&& after.filter == before.filter
        &&& after.counter.length == before.counter.length
        &&& after.counter.epochs == before.counter.epochs
        &&& (before.counter.reached() <==> step is Stop)
        &&& match step {
            ReadStep::Stop => after.counter == before.counter,
            ReadStep::Skip => {
                &&& after.counter.data == before.counter.data
                &&& record_of(before.filter, line) is None
            },
            ReadStep::Send { record, last } => {
                &&& record_of(before.filter, line) == Some(record@)
                &&& after.counter.data == before.counter.data + 1
                &&& last == after.counter.reached()
            },
        }
    }

    /// The length policy is met: the reader is to close its channel.
    pub fn is_done(&self) -> (r: bool)
        ensures
            r == self.counter.reached(),
    {
        self.counter.is_reached()
    }

    /// Decides what to do with `line`. Once the policy is met nothing more
    /// is read or counted. Otherwise a line the filter rejects is skipped
    /// and not counted, and a record is counted and sent, and is the last
    /// one exactly when the count then meets the policy.
    pub fn on_line(&mut self, line: String) -> (r: ReadStep)
        requires
            old(self).counter.data < u64::MAX,
        ensures
            Reader::step(*old(self), *final(self), line@, r),
    {
        if self.counter.is_reached() {
            return ReadStep::Stop;
        }
        match self.filter.get_text(line) {
            None => ReadStep::Skip,
            Some(record) => {
                let last = self.counter.inc_data();
                ReadStep::Send { record, last }
            },
        }
    }

    /// Decides what follows a full pass over the origins: under a cap on
    /// passes the pass is counted and reading goes on until the cap is met;
    /// under a cap on records the origins are exhausted and reading ends.
    pub fn end_pass(&mut self) -> (r: bool)
        ensures
            final(self).filter == old(self).filter,
            final(self).counter.length == old(self).counter.length,
            final(self).counter.data == old(self).counter.data,
            match old(self).counter.length {
                ProviderLength::Iterations { .. } => r && final(self).counter.epochs == old(self).counter.epochs,
                ProviderLength::Epochs { epochs } => {
                    &&& old(self).counter.epochs < u64::MAX ==> final(self).counter.epochs == old(self).counter.epochs + 1
                    &&& old(self).counter.epochs == u64::MAX ==> final(self).counter.epochs == u64::MAX
                    &&& r == (final(self).counter.epochs >= epochs)
                },
            },
    {
        match self.counter.length {
            ProviderLength::Iterations { .. } => true,
            ProviderLength::Epochs { .. } => {
                if self.counter.epochs == u64::MAX {
                    self.counter.is_reached()
                } else {
                    self.counter.inc_epoch()
                }
            },
        }
    }
}

/// A reader capped at `n` records sends exactly `n` before it stops: its
/// count never passes `n`, since `on_line` sends only while the policy is
/// unmet, and the policy is met exactly when the count is `n`. With a cap
/// of zero the policy is met from the start and nothing is sent.
pub proof fn lemma_stops_at_cap(c: Counter, n: u64)
    requires
        c.length == (ProviderLength::Iterations { iterations: n }),
        c.data <= n,
    ensures
        c.reached() <==> c.data == n,
        !c.reached() ==> c.data + 1 <= n,
{
}

/// The records of `lines` that a filter passes, at most `left` of them,
/// in order.
pub open spec fn first_records(filter: SourceFilter, lines: Seq<Seq<char>>, left: nat) -> Seq<Seq<char>>
    decreases lines.len(),
{
    if lines.len() == 0 || left == 0 {
        Seq::empty()
    } else {
        match record_of(filter, lines[0]) {
            None => first_records(filter, lines.drop_first(), left),
            Some(t) => seq![t] + first_records(filter, lines.drop_first(), (left - 1) as nat),
        }
    }
}

/// The records that a run of steps sends, in order.
pub open spec fn sent_records(steps: Seq<ReadStep>) -> Seq<Seq<char>>
    decreases steps.len(),
{
    if steps.len() == 0 {
        Seq::empty()
    } else {
        match steps[0] {
            ReadStep::Send { record, .. } => seq![record@] + sent_records(steps.drop_first()),
            _ => sent_records(steps.drop_first()),
        }
    }
}

/// Reading a whole origin under a cap on records: whatever lines come, the
/// records sent are exactly the first records the filter passes, up to the
/// number left before the cap, in order; the count rises by as many, and
/// never passes the cap.
pub proof fn lemma_origin_sends_first_records(rs: Seq<Reader>, lines: Seq<Seq<char>>, steps: Seq<ReadStep>, n: u64)
    requires
        rs.len() == lines.len() + 1,
        steps.len() == lines.len(),
        rs[0].counter.length == (ProviderLength::Iterations { iterations: n }),
        rs[0].counter.data <= n,
        forall|i: int| 0 <= i < lines.len() ==> Reader::step(rs[i], rs[i + 1], lines[i], #[trigger] steps[i]),
    ensures
        sent_records(steps) == first_records(rs[0].filter, lines, (n - rs[0].counter.data) as nat),
        rs.last().counter.data == rs[0].counter.data + sent_records(steps).len(),
        rs.last().counter.data <= n,
    decreases lines.len(),
{
    if lines.len() > 0 {
        let rs2 = rs.drop_first();
        let l2 = lines.drop_first();
        let s2 = steps.drop_first();
        let st0 = steps[0];
        let z: int = 0;
        assert(Reader::step(rs[z], rs[z + 1], lines[z], st0));
        assert forall|i: int| 0 <= i < l2.len() implies Reader::step(rs2[i], rs2[i + 1], l2[i], #[trigger] s2[i]) by {
            let k = i + 1;
            let st = steps[k];
            assert(Reader::step(rs[k], rs[k + 1], lines[k], st));
            assert(rs2[i] == rs[k] && rs2[i + 1] == rs[k + 1] && l2[i] == lines[k] && s2[i] == st);
        }
        lemma_origin_sends_first_records(rs2, l2, s2, n);
        assert(rs2.last() == rs.last());
        assert(rs2[0] == rs[1]);
    }
}

} // verus!
