//! Ready-made configurations for the masking family of tasks.
use vstd::prelude::*;
use crate::config::{
    BatchConfig, DataSetConfig, ModelType, NodeConfig, TaskType, TokenizerInternalConfig,
    TokenizerTask, TokenizerType, TrainingConfig, TransportConfig,
};
use crate::provider::{Dataset, PileDatasetType, ProviderConfig, ProviderLength, SourceDescription};

verus! {

broadcast use vstd::string::to_string_from_display_ensures_for_str;

/// The model families with a ready-made masking configuration.
#[derive(Clone, Copy, Debug, PartialEq, Eq, Structural)]
pub enum MaskingCases {
    Bert,
    Gpt,
    T5,
}

/// How a masking run corrupts its samples.
#[derive(Clone, Copy, Debug, PartialEq, Eq, Structural)]
pub enum MaskType {
    Mlm,
    Causal,
    Span,
}

/// Records read by a test run.
pub const TEST_ITERATIONS: u64 = 10;

/// Sequence length of the ready-made cases.
pub const CASE_SEQUENCE_LENGTH: usize = 128;

/// Batch size of a full run.
pub const FULL_BATCH_SIZE: usize = 4096;

/// The BERT mask token id.
pub const BERT_MASK_TOKEN: u32 = 103;

/// Tokens per span of the span-corruption case.
pub const TOKENS_PER_SPAN: usize = 8;

/// Span corruption probability of the span-corruption case, in thousandths.
pub const SPAN_MASK_PER_MILLE: u32 = 150;

/// The source of a test run: ten records of the local test file.
pub open spec fn is_test_provider(p: ProviderConfig) -> bool {
    &&& p.shuffle is None
    &&& p.flatten is None
    &&& p.filter is None
    &&& p.length == (ProviderLength::Iterations { iterations: TEST_ITERATIONS })
    &&& p.source matches SourceDescription::DataList(v)
    &&& v@.len() == 1
    &&& v@[0].location@ == "../data/test.json.gz"@
}

/// A local test file, or one pass over the catalog's wiki corpus.
pub fn get_provider(test: bool) -> (r: ProviderConfig)
    ensures
        test ==> is_test_provider(r),
        !test ==> {
            &&& r.shuffle is None
            &&& r.flatten is None
            &&& r.filter is None
            &&& r.length == (ProviderLength::Epochs { epochs: 1 })
            &&& r.source == (SourceDescription::Pile { typ: PileDatasetType::Wiki })
        },
{
    if test {
        let mut list: Vec<Dataset> = Vec::new();
        list.push(Dataset { location: "../data/test.json.gz".to_string() });
        ProviderConfig {
            shuffle: None,
            flatten: None,
            length: ProviderLength::Iterations { iterations: TEST_ITERATIONS },
            source: SourceDescription::DataList(list),
            filter: None,
        }
    } else {
        ProviderConfig {
            shuffle: None,
            flatten: None,
            length: ProviderLength::Epochs { epochs: 1 },
            source: SourceDescription::Pile { typ: PileDatasetType::Wiki },
            filter: None,
        }
    }
}

/// Fifteen percent of the sequence length, rounded down.
pub fn get_mask_length(sequence_length: usize) -> (r: usize)
    ensures
        r == sequence_length * 15 / 100,
{
    sequence_length / 100 * 15 + sequence_length % 100 * 15 / 100
}

/// The in-process sink for a test run, else the wire to a local worker.
pub fn get_transport_config(test: bool) -> (r: TransportConfig)
    ensures
        test ==> r is Test,
        !test ==> (r matches TransportConfig::Wire { address } && address@ == "tcp://127.0.0.1:5557"@),
{
    if test {
        TransportConfig::Test
    } else {
        TransportConfig::Wire { address: "tcp://127.0.0.1:5557".to_string() }
    }
}

/// The ready-made configuration of a model family: one-row batches for a
/// test run, full batches otherwise, always 128 tokens a row and the local
/// test records.
pub fn get_case(typ: MaskingCases, test: bool) -> (r: TrainingConfig)
    ensures
        r.batch.sequence_length == CASE_SEQUENCE_LENGTH,
        r.batch.batch_size == if test { 1 } else { FULL_BATCH_SIZE },
        r.node is Absent,
        test ==> r.transport is Test,
        !test ==> (r.transport matches TransportConfig::Wire { address } && address@ == "tcp://127.0.0.1:5557"@),
        is_test_provider(r.source),
        match typ {
            MaskingCases::Bert => {
                &&& r.model_config == ModelType::Bert
                &&& r.model == TaskType::Mlm
                &&& r.tokenizer.task == TokenizerTask::Bert
                &&& (r.tokenizer.typ matches TokenizerType::HuggingFace(n) && n@ == "bert-base-uncased"@)
                &&& r.dataset_config == (DataSetConfig::Mask { mask_length: 19, mask: BERT_MASK_TOKEN })
            },
            MaskingCases::Gpt => {
                &&& r.model_config == ModelType::Gpt2
                &&& r.model == TaskType::Causal
                &&& r.tokenizer.task == TokenizerTask::Gpt
                &&& (r.tokenizer.typ matches TokenizerType::HuggingFace(n) && n@ == "gpt2"@)
                &&& r.dataset_config == DataSetConfig::Gpt
            },
            MaskingCases::T5 => {
                &&& r.model_config == ModelType::T5
                &&& r.model == TaskType::T5
                &&& r.tokenizer.task == TokenizerTask::T5
                &&& (r.tokenizer.typ matches TokenizerType::HuggingFace(n) && n@ == "t5-small"@)
                &&& r.dataset_config == (DataSetConfig::T5 { number_spans: 16, mask_per_mille: SPAN_MASK_PER_MILLE })
            },
        },
{
    let batch = if test {
        BatchConfig { batch_size: 1, sequence_length: CASE_SEQUENCE_LENGTH }
    } else {
        BatchConfig { batch_size: FULL_BATCH_SIZE, sequence_length: CASE_SEQUENCE_LENGTH }
    };
    match typ {
        MaskingCases::Bert => {
            let mask_length = get_mask_length(batch.sequence_length);
            TrainingConfig {
                model_config: ModelType::Bert,
                model: TaskType::Mlm,
                source: get_provider(true),
                tokenizer: TokenizerInternalConfig {
                    task: TokenizerTask::Bert,
                    typ: TokenizerType::HuggingFace("bert-base-uncased".to_string()),
                },
                batch,
                transport: get_transport_config(test),
                node: NodeConfig::Absent,
                dataset_config: DataSetConfig::Mask { mask_length, mask: BERT_MASK_TOKEN },
            }
        },
        MaskingCases::Gpt => {
            TrainingConfig {
                model_config: ModelType::Gpt2,
                model: TaskType::Causal,
                source: get_provider(true),
                tokenizer: TokenizerInternalConfig {
                    task: TokenizerTask::Gpt,
                    typ: TokenizerType::HuggingFace("gpt2".to_string()),
                },
                batch,
                transport: get_transport_config(test),
                node: NodeConfig::Absent,
                dataset_config: DataSetConfig::Gpt,
            }
        },
        MaskingCases::T5 => {
            let number_spans = batch.sequence_length / TOKENS_PER_SPAN;
            TrainingConfig {
                model_config: ModelType::T5,
                model: TaskType::T5,
                source: get_provider(true),
                tokenizer: TokenizerInternalConfig {
                    task: TokenizerTask::T5,
                    typ: TokenizerType::HuggingFace("t5-small".to_string()),
                },
                batch,
                transport: get_transport_config(test),
                node: NodeConfig::Absent,
                dataset_config: DataSetConfig::T5 { number_spans, mask_per_mille: SPAN_MASK_PER_MILLE },
            }
        },
    }
}

} // verus!
