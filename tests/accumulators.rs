use nlp_batcher::gpt_data::GptData;
use nlp_batcher::grid::IGNORE_LABEL;
use nlp_batcher::masked_data::MaskedData;
use nlp_batcher::sampling::choose_positions;
use nlp_batcher::t5_data::T5Data;

fn labelled(row: &[i32]) -> usize {
    row.iter().filter(|&&l| l != IGNORE_LABEL).count()
}

#[test]
fn masked_two_short_samples_fill_one_batch() {
    let mut d = MaskedData::new(2, 8, 1, 0, 103);
    assert!(!d.put_data(&[11, 12, 13, 14, 15, 16], &[3]));
    assert!(d.put_data(&[21, 22, 23, 24, 25, 26], &[7]));
    assert!(d.done());
    for r in 0..2 {
        assert_eq!(d.input_ids[r].len(), 8);
        assert_eq!(d.labels[r].len(), 8);
        assert_eq!(labelled(&d.labels[r]), 1);
        assert_eq!(d.attention_mask[r], vec![1, 1, 1, 1, 1, 1, 0, 0]);
        assert_eq!(d.input_ids[r][6], 0);
        assert_eq!(d.input_ids[r][7], 0);
    }
    // draw 3 over six positions picks position 3; draw 7 picks 7 % 6 = 1
    assert_eq!(d.input_ids[0], vec![11, 12, 13, 103, 15, 16, 0, 0]);
    assert_eq!(d.labels[0][3], 14);
    assert_eq!(d.input_ids[1], vec![21, 103, 23, 24, 25, 26, 0, 0]);
    assert_eq!(d.labels[1][1], 22);
}

#[test]
fn masked_labels_match_masked_positions() {
    let mut d = MaskedData::new(1, 10, 4, 0, 5);
    let ids = [40, 41, 42, 43, 44, 45, 46, 47];
    assert!(d.put_data(&ids, &[9, 2, 100, 7]));
    let mut masked = 0;
    for j in 0..10 {
        if d.labels[0][j] != IGNORE_LABEL {
            masked += 1;
            assert_eq!(d.input_ids[0][j], 5);
            assert_eq!(d.labels[0][j], ids[j] as i32);
        } else if j < 8 {
            assert_eq!(d.input_ids[0][j], ids[j]);
        }
    }
    assert_eq!(masked, 4);
}

#[test]
fn masked_sample_shorter_than_mask_length_masks_every_token() {
    let mut d = MaskedData::new(1, 4, 3, 0, 9);
    d.put_data(&[7, 8], &[0, 0]);
    assert_eq!(labelled(&d.labels[0]), 2);
    assert_eq!(d.input_ids[0], vec![9, 9, 0, 0]);
}

#[test]
fn masked_padding_marks_unwritten_rows() {
    let mut d = MaskedData::new(3, 4, 1, 0, 9);
    d.put_data(&[1, 2, 3, 4], &[0]);
    d.mark_padding();
    assert_eq!(d.attention_mask[0], vec![1, 1, 1, 1]);
    assert_eq!(d.attention_mask[1], vec![0, 0, 0, 0]);
    assert_eq!(d.attention_mask[2], vec![0, 0, 0, 0]);
}

#[test]
fn choose_positions_gives_distinct_positions() {
    let p = choose_positions(5, 5, &[4, 4, 4, 4, 4]);
    let mut s = p.clone();
    s.sort();
    assert_eq!(s, vec![0, 1, 2, 3, 4]);
    assert_eq!(choose_positions(6, 2, &[3, 0]), vec![3, 1]);
    assert_eq!(choose_positions(3, 0, &[]), Vec::<usize>::new());
}

#[test]
fn causal_rows_follow_the_stream() {
    let mut d = GptData::new(2, 4);
    assert!(!d.put_data(&[1, 2, 3, 4, 5, 6]));
    assert_eq!(d.row, 1);
    assert_eq!(d.remaining, vec![5, 6]);
    assert!(d.put_data(&[7, 8, 9]));
    assert_eq!(d.input_ids, vec![vec![1, 2, 3, 4], vec![5, 6, 7, 8]]);
    assert_eq!(d.labels[0], vec![2, 3, 4, IGNORE_LABEL]);
    assert_eq!(d.labels[1], vec![6, 7, 8, IGNORE_LABEL]);
    assert_eq!(d.attention_mask[1], vec![1, 1, 1, 1]);
    assert_eq!(d.remaining, vec![9]);
    let next = d.new_data();
    assert_eq!(next.row, 0);
    assert_eq!(next.remaining, vec![9]);
}

#[test]
fn causal_rows_and_carry_rebuild_the_stream() {
    let input: Vec<u32> = (1..=23).collect();
    let mut d = GptData::new(2, 5);
    d.put_data(&input[..7]);
    d.put_data(&input[7..]);
    assert!(d.done());
    let mut next = d.new_data();
    assert_eq!(next.row, 0);
    assert_eq!(next.remaining, (11..=23).collect::<Vec<u32>>());
    assert!(next.put_data(&[]));
    let mut rebuilt: Vec<u32> = d.input_ids.concat();
    rebuilt.extend(next.input_ids[..next.row].concat());
    rebuilt.extend(next.remaining.iter());
    assert_eq!(rebuilt, input);
    assert_eq!(next.row, 2);
    assert_eq!(next.remaining, vec![21, 22, 23]);
}

#[test]
fn causal_exact_boundary_loses_nothing() {
    let mut d = GptData::new(1, 3);
    assert!(d.put_data(&[1, 2, 3]));
    assert!(d.remaining.is_empty());
    assert_eq!(d.input_ids[0], vec![1, 2, 3]);
}

fn span_batch() -> T5Data {
    T5Data::new(2, 8, 2, 1000, vec![32000, 32001], 1, 0)
}

#[test]
fn span_corruption_replaces_both_spans() {
    let mut d = span_batch();
    let ids: Vec<u32> = (100..116).collect();
    assert_eq!(d.draws_needed(ids.len()), 4);
    assert!(d.put_data(&ids, &[5, 6, 7, 8]));
    for r in 0..2 {
        let base = 100 + 8 * r as u32;
        assert_eq!(d.input_ids[r], vec![32000, 32001, 0, 0, 0, 0, 0, 0]);
        assert_eq!(d.attention_mask[r], vec![1, 1, 0, 0, 0, 0, 0, 0]);
        let b = base as i32;
        assert_eq!(
            d.labels[r],
            vec![32000, b, b + 1, b + 2, b + 3, 32001, b + 4, b + 5, b + 6, b + 7, 1]
        );
    }
    assert!(d.remaining.is_empty());
}

#[test]
fn span_corruption_never_corrupts_at_zero_probability() {
    let mut d = T5Data::new(1, 8, 2, 0, vec![32000, 32001], 1, 0);
    let ids: Vec<u32> = (1..=10).collect();
    assert!(d.put_data(&ids, &[0, 0]));
    assert_eq!(d.input_ids[0], (1..=8).collect::<Vec<u32>>());
    assert_eq!(d.labels[0][0], 1);
    assert_eq!(d.labels[0][1], IGNORE_LABEL);
    assert_eq!(d.remaining, vec![9, 10]);
}

#[test]
fn span_corruption_mixes_by_draws() {
    let mut d = T5Data::new(1, 8, 2, 500, vec![50, 60], 1, 0);
    let ids: Vec<u32> = (1..=8).collect();
    // 1999 % 1000 = 999 keeps span 0; 1200 % 1000 = 200 corrupts span 1
    assert!(d.put_data(&ids, &[1999, 1200]));
    assert_eq!(d.input_ids[0], vec![1, 2, 3, 4, 50, 0, 0, 0]);
    assert_eq!(d.labels[0][..6].to_vec(), vec![50, 5, 6, 7, 8, 1]);
}

#[test]
fn span_short_document_is_carried() {
    let mut d = span_batch();
    assert!(!d.put_data(&[1, 2, 3], &[]));
    assert_eq!(d.row, 0);
    assert_eq!(d.remaining, vec![1, 2, 3]);
}

#[test]
fn span_rows_written_earlier_stay() {
    let mut d = T5Data::new(2, 8, 2, 500, vec![50, 60], 1, 0);
    d.put_data(&(1..=8).collect::<Vec<u32>>(), &[0, 0]);
    let labels = d.labels[0].clone();
    let attention = d.attention_mask[0].clone();
    d.put_data(&(9..=16).collect::<Vec<u32>>(), &[999, 999]);
    assert_eq!(d.labels[0], labels);
    assert_eq!(d.attention_mask[0], attention);
    assert_eq!(d.input_ids[1], (9..=16).collect::<Vec<u32>>());
}
