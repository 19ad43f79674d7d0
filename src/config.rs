//! Run configuration: which task, which model family, where records come
//! from, the batch shape and where batches go.
use vstd::prelude::*;
use crate::dataset::DataSet;
use crate::gpt_data::GptData;
use crate::grid::{ids_fit_labels, IGNORE_LABEL, MAX_LABEL_ID};
use crate::masked_data::MaskedData;
use crate::provider::ProviderConfig;
use crate::t5_data::{strictly_increasing, T5Data};

verus! {

/// The training task a run prepares data for.
#[derive(Clone, Copy, Debug, PartialEq, Eq, Structural)]
pub enum TaskType {
    Mlm,
    Causal,
    Squad,
    MultiLabel,
    SingleClass,
    T5,
    Python,
    Context,
}

/// The model family a run prepares data for.
#[derive(Clone, Copy, Debug, PartialEq, Eq, Structural)]
pub enum ModelType {
    Bert,
    Roberta,
    Gpt2,
    T5,
}

/// The fixed shape of every batch of a run.
#[derive(Clone, Copy, Debug, PartialEq, Eq, Structural)]
pub struct BatchConfig {
    pub batch_size: usize,
    pub sequence_length: usize,
}

/// Task-specific settings of the accumulator.
#[derive(Clone, Copy, Debug, PartialEq, Eq, Structural)]
pub enum DataSetConfig {
    /// Masking: positions masked per row and the mask token id.
    Mask { mask_length: usize, mask: u32 },
    /// Causal windows over the token stream.
    Gpt,
    /// Span corruption: spans per row and the corruption probability in thousandths.
    T5 { number_spans: usize, mask_per_mille: u32 },
}

/// Token ids of the tokenizer that the accumulators need.
#[derive(Clone, Debug)]
pub struct SpecialTokens {
    pub pad: u32,
    pub end: u32,
    /// Sentinel ids for span corruption, increasing.
    pub sentinels: Vec<u32>,
}

/// Why a configuration cannot produce an accumulator.
#[derive(Clone, Copy, Debug, PartialEq, Eq, Structural)]
pub enum ConfigError {
    /// The model family and the task settings do not go together.
    Unsupported,
    /// A zero batch size, or a span count outside `1..=sequence_length`.
    BadShape,
    /// Fewer sentinel ids than spans per row.
    MissingSentinels,
    /// A special token id too large for a label slot.
    TokenOutOfRange,
    /// Sentinel ids that are not strictly increasing.
    SentinelsNotIncreasing,
}

/// The tokenizer's task and where it comes from.
#[derive(Clone, Debug)]
pub struct TokenizerInternalConfig {
    pub task: TokenizerTask,
    pub typ: TokenizerType,
}

#[derive(Clone, Copy, Debug, PartialEq, Eq, Structural)]
pub enum TokenizerTask {
    Bert,
    Gpt,
    T5,
}

#[derive(Clone, Debug)]
pub enum TokenizerType {
    /// A pretrained vocabulary, by name.
    HuggingFace(String),
    Python,
    PythonContext,
}

/// Where finished batches go.
#[derive(Clone, Debug)]
pub enum TransportConfig {
    /// The in-process verification sink.
    Test,
    /// A worker reached over the wire at an address.
    Wire { address: String },
}

/// The worker that consumes delivered batches.
#[derive(Clone, Debug)]
pub enum NodeConfig {
    /// No downstream worker: the run is checked in process.
    Absent,
    /// A persistent worker at an address.
    Local { address: String },
    /// A worker process this run starts and supervises.
    Spawned { command: String, cwd: String, args: Vec<String> },
}

/// Everything a run is configured with.
#[derive(Clone, Debug)]
pub struct TrainingConfig {
    pub model_config: ModelType,
    pub model: TaskType,
    pub source: ProviderConfig,
    pub tokenizer: TokenizerInternalConfig,
    pub batch: BatchConfig,
    pub transport: TransportConfig,
    pub node: NodeConfig,
    pub dataset_config: DataSetConfig,
}

/// The accumulator variant a model family uses with given task settings.
pub open spec fn supported(model: ModelType, dc: DataSetConfig) -> bool {
    match (model, dc) {
        (ModelType::Bert, DataSetConfig::Mask { .. }) => true,
        (ModelType::Roberta, DataSetConfig::Mask { .. }) => true,
        (ModelType::Gpt2, DataSetConfig::Gpt) => true,
        (ModelType::T5, DataSetConfig::T5 { .. }) => true,
        _ => false,
    }
}

/// Every id of `v` fits a label slot.
fn all_fit_labels(v: &Vec<u32>) -> (r: bool)
    ensures
        r == ids_fit_labels(v@),
{
    let mut i: usize = 0;
    while i < v.len()
        invariant
            i <= v@.len(),
            forall|j: int| 0 <= j < i ==> #[trigger] v@[j] <= MAX_LABEL_ID,
        decreases v@.len() - i,
    {
        if v[i] > MAX_LABEL_ID {
            return false;
        }
        i = i + 1;
    }
    true
}

/// Each id of `v` is smaller than the next.
fn all_increasing(v: &Vec<u32>) -> (r: bool)
    ensures
        r == strictly_increasing(v@),
{
    let mut k: usize = 1;
    while k < v.len()
        invariant
            1 <= k,
            k <= v@.len() || v@.len() == 0,
            forall|i: int, j: int| 0 <= i < j < k && j < v@.len() ==> v@[i] < v@[j],
        decreases v@.len() - k,
    {
        if v[k - 1] >= v[k] {
            return false;
        }
        k = k + 1;
    }
    true
}

impl ModelType {
    /// The empty accumulator of this model family for the task settings,
    /// or why none can be made.
    pub fn create_dataset(&self, dataset_config: DataSetConfig, batch_config: BatchConfig, special: &SpecialTokens) -> (r: Result<DataSet, ConfigError>)
        ensures
            !supported(*self, dataset_config) ==> r == Err::<DataSet, ConfigError>(ConfigError::Unsupported),
            supported(*self, dataset_config) ==> match dataset_config {
                DataSetConfig::Mask { mask_length, mask } => match r {
                    Ok(DataSet::Mask(d)) => {
                        &&& d.wf()
                        &&& d.row == 0
                        &&& d.batch_size == batch_config.batch_size
                        &&& d.sequence_length == batch_config.sequence_length
                        &&& d.mask_length == mask_length
                        &&& d.mask_token == mask
                        &&& d.pad_token == special.pad
                        &&& forall|i: int| 0 <= i < d.batch_size ==> {
                            &&& (#[trigger] d.input_ids@[i])@ == Seq::new(d.sequence_length as nat, |_j: int| special.pad)
                            &&& d.attention_mask@[i]@ == Seq::new(d.sequence_length as nat, |_j: int| 1u32)
                            &&& d.labels@[i]@ == Seq::new(d.sequence_length as nat, |_j: int| IGNORE_LABEL)
                        }
                    },
                    Err(e) => {
                        &&& e == ConfigError::BadShape
                        &&& (batch_config.batch_size == 0 || batch_config.batch_size > u32::MAX
                            || batch_config.sequence_length > u32::MAX || mask_length > u32::MAX)
                    },
                    _ => false,
                },
                DataSetConfig::Gpt => match r {
                    Ok(DataSet::Gpt2(d)) => {
                        &&& d.wf()
                        &&& d.row == 0
                        &&& d.batch_size == batch_config.batch_size
                        &&& d.sequence_length == batch_config.sequence_length
                        &&& d.fed@ == Seq::<u32>::empty()
                    },
                    Err(e) => e == ConfigError::BadShape && (batch_config.batch_size == 0 || batch_config.sequence_length == 0),
                    _ => false,
                },
                DataSetConfig::T5 { number_spans, mask_per_mille } => match r {
                    Ok(DataSet::T5(d)) => {
                        &&& d.wf()
                        &&& d.row == 0
                        &&& d.batch_size == batch_config.batch_size
                        &&& d.sequence_length == batch_config.sequence_length
                        &&& d.number_spans == number_spans
                        &&& d.mask_per_mille == mask_per_mille
                        &&& d.sentinels@ == special.sentinels@
                        &&& d.end_token == special.end
                        &&& d.pad_token == special.pad
                        &&& d.fed@ == Seq::<u32>::empty()
                    },
                    Err(ConfigError::BadShape) => batch_config.batch_size == 0 || number_spans == 0
                        || number_spans > batch_config.sequence_length
                        || batch_config.sequence_length + number_spans >= usize::MAX,
                    Err(ConfigError::MissingSentinels) => special.sentinels@.len() < number_spans,
                    Err(ConfigError::TokenOutOfRange) => !ids_fit_labels(special.sentinels@) || special.end > MAX_LABEL_ID,
                    Err(ConfigError::SentinelsNotIncreasing) => !strictly_increasing(special.sentinels@),
                    _ => false,
                },
            },
            r is Ok <==> match (*self, dataset_config) {
                (ModelType::Bert, DataSetConfig::Mask { mask_length, .. })
                | (ModelType::Roberta, DataSetConfig::Mask { mask_length, .. }) => 0 < batch_config.batch_size <= u32::MAX
                    && batch_config.sequence_length <= u32::MAX && mask_length <= u32::MAX,
                (ModelType::Gpt2, DataSetConfig::Gpt) => batch_config.batch_size > 0 && batch_config.sequence_length > 0,
                (ModelType::T5, DataSetConfig::T5 { number_spans, .. }) => {
                    &&& batch_config.batch_size > 0
                    &&& 1 <= number_spans <= batch_config.sequence_length
                    &&& batch_config.sequence_length + number_spans < usize::MAX
                    &&& special.sentinels@.len() >= number_spans
                    &&& ids_fit_labels(special.sentinels@)
                    &&& strictly_increasing(special.sentinels@)
                    &&& special.end <= MAX_LABEL_ID
                },
                _ => false,
            },
    {
        let b = batch_config.batch_size;
        let s = batch_config.sequence_length;
        match (*self, dataset_config) {
            (ModelType::Bert, DataSetConfig::Mask { mask_length, mask })
            | (ModelType::Roberta, DataSetConfig::Mask { mask_length, mask }) => {
                if b == 0 || b > u32::MAX as usize || s > u32::MAX as usize || mask_length > u32::MAX as usize {
                    return Err(ConfigError::BadShape);
                }
                Ok(DataSet::Mask(MaskedData::new(b as u32, s as u32, mask_length as u32, special.pad, mask)))
            },
            (ModelType::Gpt2, DataSetConfig::Gpt) => {
                if b == 0 || s == 0 {
                    return Err(ConfigError::BadShape);
                }
                Ok(DataSet::Gpt2(GptData::new(b, s)))
            },
            (ModelType::T5, DataSetConfig::T5 { number_spans, mask_per_mille }) => {
                if b == 0 || number_spans == 0 || number_spans > s || s >= usize::MAX - number_spans {
                    return Err(ConfigError::BadShape);
                }
                if special.sentinels.len() < number_spans {
                    return Err(ConfigError::MissingSentinels);
                }
                if special.end > MAX_LABEL_ID || !all_fit_labels(&special.sentinels) {
                    return Err(ConfigError::TokenOutOfRange);
                }
                if !all_increasing(&special.sentinels) {
                    return Err(ConfigError::SentinelsNotIncreasing);
                }
                let sentinels = special.sentinels.clone();
                assert(sentinels@ == special.sentinels@);
                Ok(DataSet::T5(T5Data::new(b, s, number_spans, mask_per_mille, sentinels, special.end, special.pad)))
            },
            _ => Err(ConfigError::Unsupported),
        }
    }
}

} // verus!
