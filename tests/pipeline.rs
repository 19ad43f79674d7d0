use nlp_batcher::batcher::{run_outcome, BatchStage, RecordError};
use nlp_batcher::config::{BatchConfig, ConfigError, DataSetConfig, ModelType, SpecialTokens, TokenizerType, TransportConfig};
use nlp_batcher::dataset::DataSet;
use nlp_batcher::grid::IGNORE_LABEL;
use nlp_batcher::masking_cases::{get_case, get_mask_length, get_provider, get_transport_config, MaskingCases};
use nlp_batcher::masking_endpoint::MaskingEndpoint;
use nlp_batcher::masked_data::MaskedData;
use nlp_batcher::provider::{Counter, ProviderLength, ReadStep, Reader, SourceDescription, SourceFilter};
use nlp_batcher::t5_data::T5Data;
use nlp_batcher::gpt_data::GptData;

fn special() -> SpecialTokens {
    SpecialTokens { pad: 0, end: 1, sentinels: vec![32000, 32001, 32002] }
}

#[test]
fn create_dataset_builds_each_task() {
    let batch = BatchConfig { batch_size: 2, sequence_length: 8 };
    let m = ModelType::Bert.create_dataset(DataSetConfig::Mask { mask_length: 1, mask: 103 }, batch, &special());
    assert!(matches!(m, Ok(DataSet::Mask(ref d)) if d.mask_token == 103 && d.input_ids.len() == 2));
    let g = ModelType::Gpt2.create_dataset(DataSetConfig::Gpt, batch, &special());
    assert!(matches!(g, Ok(DataSet::Gpt2(_))));
    let t = ModelType::T5.create_dataset(DataSetConfig::T5 { number_spans: 2, mask_per_mille: 150 }, batch, &special());
    assert!(matches!(t, Ok(DataSet::T5(ref d)) if d.labels[0].len() == 11 && d.span_length == 4));
}

#[test]
fn create_dataset_rejects_bad_configurations() {
    let batch = BatchConfig { batch_size: 2, sequence_length: 8 };
    assert_eq!(ModelType::Gpt2.create_dataset(DataSetConfig::Mask { mask_length: 1, mask: 103 }, batch, &special()).err(), Some(ConfigError::Unsupported));
    let empty = BatchConfig { batch_size: 0, sequence_length: 8 };
    assert_eq!(ModelType::Gpt2.create_dataset(DataSetConfig::Gpt, empty, &special()).err(), Some(ConfigError::BadShape));
    assert_eq!(ModelType::T5.create_dataset(DataSetConfig::T5 { number_spans: 9, mask_per_mille: 150 }, batch, &special()).err(), Some(ConfigError::BadShape));
    assert_eq!(ModelType::T5.create_dataset(DataSetConfig::T5 { number_spans: 4, mask_per_mille: 150 }, batch, &special()).err(), Some(ConfigError::MissingSentinels));
    let big = SpecialTokens { pad: 0, end: 0x8000_0000, sentinels: vec![1, 2] };
    assert_eq!(ModelType::T5.create_dataset(DataSetConfig::T5 { number_spans: 2, mask_per_mille: 150 }, batch, &big).err(), Some(ConfigError::TokenOutOfRange));
}

#[test]
fn stage_hands_off_full_masked_batch() {
    let mut stage = BatchStage::new(DataSet::Mask(MaskedData::new(2, 8, 1, 0, 103)));
    assert_eq!(stage.draws_needed(6), 1);
    assert_eq!(stage.record(&[1, 2, 3, 4, 5, 6], &[]), Err(RecordError::MissingDraws));
    assert_eq!(stage.record(&[1, 2, 3, 4, 5, 6, 7, 8, 9], &[0]), Err(RecordError::TooLong));
    assert_eq!(stage.record(&[0x8000_0000], &[0]), Err(RecordError::IdOutOfRange));
    assert_eq!(stage.record(&[1, 2, 3, 4, 5, 6], &[0]), Ok(false));
    assert!(stage.take_batch().is_none());
    assert_eq!(stage.record(&[1, 2, 3, 4, 5, 6], &[2]), Ok(true));
    assert_eq!(stage.record(&[1], &[0]), Err(RecordError::Full));
    let batch = stage.take_batch().expect("full batch");
    let mut sink = MaskingEndpoint { received: 0 };
    assert!(sink.receive(batch));
    assert!(!stage.is_full());
    assert!(stage.finish().is_none());
}

#[test]
fn stage_flushes_partial_masked_batch_with_padding() {
    let mut stage = BatchStage::new(DataSet::Mask(MaskedData::new(3, 4, 1, 0, 9)));
    stage.record(&[5, 6], &[1]).unwrap();
    match stage.finish() {
        Some(DataSet::Mask(d)) => {
            assert_eq!(d.attention_mask[0], vec![1, 1, 0, 0]);
            assert_eq!(d.attention_mask[1], vec![0, 0, 0, 0]);
            assert_eq!(d.attention_mask[2], vec![0, 0, 0, 0]);
        }
        _ => panic!("expected a masked batch"),
    }
}

#[test]
fn stage_drops_short_causal_tail_at_end() {
    let mut stage = BatchStage::new(DataSet::Gpt2(GptData::new(2, 4)));
    assert_eq!(stage.record(&[1, 2, 3, 4, 5], &[]), Ok(false));
    assert!(stage.finish().is_none());
}

#[test]
fn stage_seeds_span_batch_from_carry() {
    let mut stage = BatchStage::new(DataSet::T5(T5Data::new(1, 8, 2, 1000, vec![50, 60], 1, 0)));
    let ids: Vec<u32> = (1..=20).collect();
    assert_eq!(stage.draws_needed(ids.len()), 2);
    assert_eq!(stage.record(&ids, &[0, 0]), Ok(true));
    let first = stage.take_batch().expect("batch");
    assert!(matches!(first, DataSet::T5(ref d) if d.remaining == (9..=20).collect::<Vec<u32>>()));
    assert!(!stage.is_full());
    assert_eq!(stage.current.remaining(), Some((9..=20).collect::<Vec<u32>>()));
    assert_eq!(stage.draws_needed(0), 2);
    assert_eq!(stage.record(&[], &[0, 0]), Ok(true));
    assert_eq!(stage.current.remaining(), Some(vec![17, 18, 19, 20]));
}

#[test]
fn endpoint_rejects_label_without_mask() {
    let mut d = MaskedData::new(1, 4, 1, 0, 9);
    d.put_data(&[1, 2, 3, 4], &[0]);
    let sink = MaskingEndpoint { received: 0 };
    assert!(sink.check_batch(d.clone()));
    d.labels[0][2] = 3;
    assert!(!sink.check_batch(d.clone()));
    d.labels[0][2] = IGNORE_LABEL;
    d.attention_mask[0][1] = 2;
    assert!(!sink.check_batch(d));
}

#[test]
fn endpoint_fails_other_tasks() {
    let mut sink = MaskingEndpoint { received: 0 };
    assert!(!sink.receive(DataSet::Gpt2(GptData::new(1, 2))));
    assert_eq!(sink.received, 1);
}

#[test]
fn remaining_only_for_stream_tasks() {
    assert_eq!(DataSet::Mask(MaskedData::new(1, 2, 1, 0, 9)).remaining(), None);
    assert_eq!(DataSet::Gpt2(GptData::new(1, 2)).remaining(), Some(vec![]));
}

#[test]
fn json_filter_extracts_text() {
    let f = SourceFilter::JsonText;
    assert_eq!(f.get_text(r#"{"text": "hello world", "meta": 1}"#.to_string()), Some("hello world".to_string()));
    assert_eq!(f.get_text(r#"{"body": "x"}"#.to_string()), None);
    assert_eq!(f.get_text("not json".to_string()), None);
    assert_eq!(f.get_text(r#"{"text": 5}"#.to_string()), None);
    assert_eq!(SourceFilter::FastText.get_text(r#"{"text": "a"}"#.to_string()), None);
}

#[test]
fn counter_reaches_iteration_cap_exactly() {
    let mut c = Counter::new(ProviderLength::Iterations { iterations: 3 });
    assert!(!c.inc_data());
    assert!(!c.inc_data());
    assert!(c.inc_data());
    let mut e = Counter::new(ProviderLength::Epochs { epochs: 2 });
    assert!(!e.inc_data());
    assert!(!e.inc_epoch());
    assert!(e.inc_epoch());
}

#[test]
fn reader_counts_only_records() {
    let mut r = Reader::new(SourceFilter::JsonText, ProviderLength::Iterations { iterations: 2 });
    assert!(matches!(r.on_line("garbage".to_string()), ReadStep::Skip));
    assert!(matches!(r.on_line(r#"{"text":"a"}"#.to_string()), ReadStep::Send { ref record, last: false } if record == "a"));
    assert!(matches!(r.on_line("{}".to_string()), ReadStep::Skip));
    assert!(matches!(r.on_line(r#"{"text":"b"}"#.to_string()), ReadStep::Send { last: true, .. }));
    assert_eq!(r.counter.data, 2);
}

#[test]
fn mask_length_is_fifteen_percent_rounded_down() {
    assert_eq!(get_mask_length(128), 19);
    assert_eq!(get_mask_length(8), 1);
    assert_eq!(get_mask_length(20), 3);
    assert_eq!(get_mask_length(0), 0);
}

#[test]
fn ready_made_cases() {
    let bert = get_case(MaskingCases::Bert, true);
    assert_eq!(bert.batch, BatchConfig { batch_size: 1, sequence_length: 128 });
    assert_eq!(bert.dataset_config, DataSetConfig::Mask { mask_length: 19, mask: 103 });
    let t5 = get_case(MaskingCases::T5, false);
    assert_eq!(t5.batch.batch_size, 4096);
    assert_eq!(t5.dataset_config, DataSetConfig::T5 { number_spans: 16, mask_per_mille: 150 });
    let gpt = get_case(MaskingCases::Gpt, true);
    assert_eq!(gpt.dataset_config, DataSetConfig::Gpt);
    assert!(matches!(get_provider(true).source, SourceDescription::DataList(ref v) if v.len() == 1));
    assert_eq!(get_provider(false).length, ProviderLength::Epochs { epochs: 1 });
    assert!(matches!(get_transport_config(true), TransportConfig::Test));
}

#[test]
fn run_outcome_conjoins_stages() {
    assert!(run_outcome(true, true, None));
    assert!(run_outcome(true, true, Some(true)));
    assert!(!run_outcome(true, true, Some(false)));
    assert!(!run_outcome(false, true, None));
}

#[test]
fn endpoint_accepts_mask_id_in_sample() {
    // the sample itself holds the mask id 9 at a position that is not chosen
    let mut d = MaskedData::new(1, 4, 1, 0, 9);
    assert!(d.put_data(&[1, 2, 3, 9], &[0]));
    assert_eq!(d.labels[0][3], IGNORE_LABEL);
    let sink = MaskingEndpoint { received: 0 };
    assert!(sink.check_batch(d));
}

#[test]
fn create_dataset_rejects_unsorted_sentinels() {
    let batch = BatchConfig { batch_size: 2, sequence_length: 8 };
    let pool = SpecialTokens { pad: 0, end: 1, sentinels: vec![32001, 32000] };
    assert_eq!(
        ModelType::T5.create_dataset(DataSetConfig::T5 { number_spans: 2, mask_per_mille: 150 }, batch, &pool).err(),
        Some(ConfigError::SentinelsNotIncreasing)
    );
}

#[test]
fn fresh_accumulator_is_empty_with_long_carry() {
    let mut g = DataSet::Gpt2(GptData::new(1, 2));
    g.put_data(&[1, 2, 3, 4, 5, 6, 7], &[]);
    let next = g.create_data();
    assert!(!next.done());
    assert!(matches!(next, DataSet::Gpt2(ref x) if x.row == 0 && x.input_ids[0] == vec![0, 0]));
    assert_eq!(next.remaining(), Some(vec![3, 4, 5, 6, 7]));
}

#[test]
fn reader_with_zero_cap_sends_nothing() {
    let mut r = Reader::new(SourceFilter::JsonText, ProviderLength::Iterations { iterations: 0 });
    assert!(r.is_done());
    assert!(matches!(r.on_line(r#"{"text":"a"}"#.to_string()), ReadStep::Stop));
    assert_eq!(r.counter.data, 0);
}

#[test]
fn reader_stops_after_cap_is_met() {
    let mut r = Reader::new(SourceFilter::JsonText, ProviderLength::Iterations { iterations: 1 });
    assert!(matches!(r.on_line(r#"{"text":"a"}"#.to_string()), ReadStep::Send { last: true, .. }));
    assert!(matches!(r.on_line(r#"{"text":"b"}"#.to_string()), ReadStep::Stop));
    assert_eq!(r.counter.data, 1);
}

#[test]
fn reader_pass_end_follows_policy() {
    let mut by_records = Reader::new(SourceFilter::JsonText, ProviderLength::Iterations { iterations: 5 });
    assert!(by_records.end_pass());
    let mut by_passes = Reader::new(SourceFilter::JsonText, ProviderLength::Epochs { epochs: 2 });
    assert!(!by_passes.end_pass());
    assert!(by_passes.end_pass());
    assert_eq!(by_passes.counter.epochs, 2);
}

#[test]
fn create_dataset_rejects_empty_masking_batch() {
    let empty = BatchConfig { batch_size: 0, sequence_length: 8 };
    assert_eq!(
        ModelType::Bert.create_dataset(DataSetConfig::Mask { mask_length: 1, mask: 103 }, empty, &special()).err(),
        Some(ConfigError::BadShape)
    );
}

#[test]
fn shape_check_covers_every_task() {
    let mut t = T5Data::new(1, 8, 2, 1000, vec![50, 60], 1, 0);
    t.put_data(&(1..=8).collect::<Vec<u32>>(), &[0, 0]);
    let mut d = DataSet::T5(t);
    assert!(nlp_batcher::dataset::check_shape(&d));
    if let DataSet::T5(ref mut x) = d {
        x.labels[0].pop();
    }
    assert!(!nlp_batcher::dataset::check_shape(&d));
    assert!(nlp_batcher::dataset::check_shape(&DataSet::Gpt2(GptData::new(2, 3))));
}

#[test]
fn ready_made_cases_name_their_tokenizers() {
    let names = [(MaskingCases::Bert, "bert-base-uncased"), (MaskingCases::Gpt, "gpt2"), (MaskingCases::T5, "t5-small")];
    for (case, name) in names {
        let c = get_case(case, false);
        assert!(matches!(c.tokenizer.typ, TokenizerType::HuggingFace(ref n) if n == name));
        assert!(matches!(c.transport, TransportConfig::Wire { ref address } if address == "tcp://127.0.0.1:5557"));
        assert!(matches!(c.source.source, SourceDescription::DataList(ref v) if v[0].location == "../data/test.json.gz"));
    }
}
