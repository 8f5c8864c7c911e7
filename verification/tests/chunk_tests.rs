use quraan_discord::chunk::{chunk_texts, MESSAGE_THRESHOLD};

fn texts(items: &[&str]) -> Vec<String> {
    items.iter().map(|s| String::from(*s)).collect()
}

#[test]
fn the_threshold_is_seventeen_hundred() {
    assert_eq!(MESSAGE_THRESHOLD, 1700);
}

#[test]
fn no_texts_give_one_empty_chunk() {
    assert_eq!(chunk_texts(&Vec::new(), 1700), vec![String::new()]);
    assert_eq!(chunk_texts(&Vec::new(), 0), vec![String::new()]);
}

#[test]
fn a_text_that_would_reach_the_threshold_opens_a_new_chunk() {
    let chunks = chunk_texts(&texts(&["ab (1) ", "cd (2) ", "ef (3) "]), 10);
    assert_eq!(chunks, vec!["ab (1) ", "cd (2) ", "ef (3) "]);
}

#[test]
fn texts_share_a_chunk_as_long_as_it_stays_below_the_threshold() {
    let chunks = chunk_texts(&texts(&["ab (1) ", "cd (2) ", "ef (3) "]), 15);
    assert_eq!(chunks, vec!["ab (1) cd (2) ", "ef (3) "]);
    let chunks = chunk_texts(&texts(&["ab (1) ", "cd (2) ", "ef (3) "]), 14);
    assert_eq!(chunks, vec!["ab (1) ", "cd (2) ", "ef (3) "]);
    let chunks = chunk_texts(&texts(&["ab (1) ", "cd (2) ", "ef (3) "]), 22);
    assert_eq!(chunks, vec!["ab (1) cd (2) ef (3) "]);
    let chunks = chunk_texts(&texts(&["ab (1) ", "cd (2) ", "ef (3) "]), 21);
    assert_eq!(chunks, vec!["ab (1) cd (2) ", "ef (3) "]);
}

#[test]
fn a_chunk_may_be_closed_far_below_the_threshold() {
    let chunks = chunk_texts(&texts(&["a", "bbbbbbbb", "c"]), 9);
    assert_eq!(chunks, vec!["a", "bbbbbbbb", "c"]);
}

#[test]
fn an_overlong_text_stands_alone() {
    let chunks = chunk_texts(&texts(&["a", "bbbbbbbbbbbbbbbbbbbb", "c"]), 5);
    assert_eq!(chunks, vec!["a", "bbbbbbbbbbbbbbbbbbbb", "c"]);
}

#[test]
fn an_overlong_first_text_leaves_the_first_chunk_empty() {
    let chunks = chunk_texts(&texts(&["aaaaaaaaaa", "b"]), 10);
    assert_eq!(chunks, vec!["", "aaaaaaaaaa", "b"]);
    let chunks = chunk_texts(&texts(&["aaaaaaaaa", "b"]), 10);
    assert_eq!(chunks, vec!["aaaaaaaaa", "b"]);
}

#[test]
fn length_is_counted_in_characters() {
    let chunks = chunk_texts(&texts(&["ابجد", "هوز", "حطي"]), 8);
    assert_eq!(chunks, vec!["ابجدهوز", "حطي"]);
    let chunks = chunk_texts(&texts(&["ابجد", "هوز", "حطي"]), 11);
    assert_eq!(chunks, vec!["ابجدهوزحطي"]);
    let chunks = chunk_texts(&texts(&["ابجد", "هوز", "حطي"]), 7);
    assert_eq!(chunks, vec!["ابجد", "هوزحطي"]);
    let chunks = chunk_texts(&texts(&["ابجد", "هوز", "حطي"]), 6);
    assert_eq!(chunks, vec!["ابجد", "هوز", "حطي"]);
}

#[test]
fn a_threshold_of_zero_gives_each_text_its_chunk() {
    let chunks = chunk_texts(&texts(&["a", "b"]), 0);
    assert_eq!(chunks, vec!["", "a", "b"]);
}

#[test]
fn empty_texts_add_nothing() {
    let chunks = chunk_texts(&texts(&["", "ab", "", "cd", ""]), 3);
    assert_eq!(chunks, vec!["ab", "cd"]);
}

#[test]
fn the_chunks_put_together_are_the_texts_put_together() {
    let input: Vec<String> = (1..=400).map(|n| format!("verse text number {n} ({n}) ")).collect();
    for threshold in [0usize, 1, 10, 100, 1700, 1_000_000, usize::MAX] {
        let chunks = chunk_texts(&input, threshold);
        assert!(!chunks.is_empty());
        assert_eq!(chunks.concat(), input.concat());
    }
}

#[test]
fn no_chunk_of_short_texts_reaches_the_threshold() {
    let input: Vec<String> = (1..=400).map(|n| format!("verse text number {n} ({n}) ")).collect();
    let chunks = chunk_texts(&input, 1700);
    assert!(chunks.len() > 1);
    for chunk in &chunks {
        assert!(chunk.chars().count() < 1700);
    }
}

#[test]
fn only_a_single_overlong_text_reaches_the_threshold() {
    let long = "x".repeat(50);
    let input = texts(&["aaaa", "bbbb", &long, "cccc", &long, &long, "dddd"]);
    let chunks = chunk_texts(&input, 20);
    assert_eq!(chunks, vec!["aaaabbbb", &long, "cccc", &long, &long, "dddd"]);
    for chunk in &chunks {
        assert!(chunk.chars().count() < 20 || input.contains(chunk));
    }
}
