use ocr_core::{argmax_along_dim2, load_vocab, preds_to_strings, Model};

fn table(labels: &[&str]) -> Vec<String> {
    labels.iter().map(|s| s.to_string()).collect()
}

#[test]
fn argmax_takes_first_maximum_on_ties() {
    let probs: Vec<u32> = vec![3, 7, 7, 1];
    assert_eq!(argmax_along_dim2(&probs, 1, 1, 4), vec![1]);
}

#[test]
fn argmax_scans_every_cell() {
    // shape (1, 3, 4): three timesteps of one row
    let probs: Vec<u32> = vec![
        9, 1, 2, 3, // timestep 0: class 0
        0, 0, 0, 5, // timestep 1: class 3
        1, 8, 8, 8, // timestep 2: first maximum is class 1
    ];
    assert_eq!(argmax_along_dim2(&probs, 1, 3, 4), vec![0, 3, 1]);
}

#[test]
fn consecutive_duplicates_collapse_but_zero_resets() {
    // [0, 5, 5, 5, 0, 5] with slot 5 holding "a": the run of 5s collapses to
    // one emission, and the later 5 after the 0 emits again.
    let mapping = table(&["", "", "", "", "", "a"]);
    let out = preds_to_strings(&vec![0, 5, 5, 5, 0, 5], 1, 6, &mapping);
    assert_eq!(out, vec!["aa".to_string()]);
}

#[test]
fn sentinel_runs_do_not_emit() {
    let mapping = table(&["", "", "x", "y"]);
    let out = preds_to_strings(&vec![0, 0, 2, 2, 0, 0, 3], 1, 7, &mapping);
    assert_eq!(out, vec!["xy".to_string()]);
}

#[test]
fn rows_decode_independently_in_order() {
    let mapping = table(&["", "", "x", "y"]);
    let out = preds_to_strings(&vec![2, 3, 0, 3, 3, 0], 2, 3, &mapping);
    assert_eq!(out, vec!["xy".to_string(), "y".to_string()]);
}

#[test]
fn vocabulary_offset_and_out_of_range() {
    let vocab = load_vocab(&table(&["a", "b", "c"]));
    assert_eq!(vocab.len(), 5);
    assert_eq!(vocab[0], "");
    assert_eq!(vocab[1], "");
    assert_eq!(vocab[2], "a");
    assert_eq!(vocab[3], "b");
    assert_eq!(vocab[4], "c");
    // indices 2, 3, 4 resolve to "a", "b", "c"
    assert_eq!(preds_to_strings(&vec![2, 3, 4], 1, 3, &vocab), vec!["abc".to_string()]);
    // indices 0 and 1 never appear in the output
    assert_eq!(preds_to_strings(&vec![0, 1, 0, 1], 1, 4, &vocab), vec!["".to_string()]);
    // index 5 is out of range and dropped without an error
    assert_eq!(preds_to_strings(&vec![0, 5, 0], 1, 3, &vocab), vec!["".to_string()]);
}

#[test]
fn model_decodes_probability_tensor() {
    // shape (1, 3, 4), probabilities given as order-preserving float bit keys;
    // argmax picks classes [2, 2, 3], which collapse to "ab"
    let model = Model { vocab: load_vocab(&table(&["a", "b"])) };
    let probs: Vec<u32> = [
        0.1f32, 0.2, 0.6, 0.1, // timestep 0: class 2
        0.05f32, 0.15, 0.75, 0.05, // timestep 1: class 2 again
        0.0f32, 0.1, 0.2, 0.7, // timestep 2: class 3
    ]
    .iter()
    .map(|p| p.to_bits())
    .collect();
    let out = model.generate_output_strings(&probs, 1, 3, 4);
    assert_eq!(out, vec!["ab".to_string()]);
}

#[test]
fn model_decodes_rows_in_batch_order() {
    let model = Model { vocab: load_vocab(&table(&["a", "b"])) };
    let probs: Vec<u32> = vec![
        0, 0, 9, 1, // row 0, timestep 0: class 2
        0, 0, 1, 9, // row 0, timestep 1: class 3
        0, 0, 2, 7, // row 1, timestep 0: class 3
        9, 0, 0, 0, // row 1, timestep 1: class 0
    ];
    let out = model.generate_output_strings(&probs, 2, 2, 4);
    assert_eq!(out, vec!["ab".to_string(), "b".to_string()]);
}
