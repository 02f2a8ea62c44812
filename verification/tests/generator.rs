use crossbeam_channel::unbounded;
use jwt_cracker::combination_generator::CombinationGenerator;
use std::collections::HashSet;
use std::sync::Arc;

fn drain(mut generator: CombinationGenerator) -> Vec<String> {
    let mut words = Vec::new();
    while let Some(word) = generator.next() {
        words.push(word);
    }
    assert_eq!(generator.next(), None);
    words
}

#[test]
fn two_letters_lengths_one_and_two() {
    let generator = CombinationGenerator::new_with_charset(1, 2, "ab", None);
    assert_eq!(drain(generator), vec!["a", "b", "aa", "ab", "ba", "bb"]);
}

#[test]
fn exhausted_generator_stays_exhausted() {
    let mut generator = CombinationGenerator::new_with_charset(1, 1, "x", None);
    assert_eq!(generator.next(), Some("x".to_string()));
    assert_eq!(generator.next(), None);
    assert_eq!(generator.next(), None);
    assert_eq!(generator.next(), None);
}

#[test]
fn count_is_sum_of_powers() {
    let words = drain(CombinationGenerator::new_with_charset(1, 4, "abc", None));
    assert_eq!(words.len(), 3 + 9 + 27 + 81);
    for length in 1..=4usize {
        let of_length = words.iter().filter(|w| w.len() == length).count();
        assert_eq!(of_length, 3usize.pow(length as u32));
    }
    let words = drain(CombinationGenerator::new_with_charset(2, 3, "01", None));
    assert_eq!(words.len(), 4 + 8);
}

#[test]
fn no_word_is_produced_twice() {
    let words = drain(CombinationGenerator::new_with_charset(1, 4, "xyz!", None));
    let distinct: HashSet<&String> = words.iter().collect();
    assert_eq!(distinct.len(), words.len());
    assert_eq!(words.len(), 4 + 16 + 64 + 256);
}

#[test]
fn words_of_one_length_count_upward() {
    let alphabet = "qwe";
    let words = drain(CombinationGenerator::new_with_charset(3, 3, alphabet, None));
    let value = |word: &String| -> usize {
        word.chars().fold(0, |acc, c| acc * 3 + alphabet.find(c).unwrap())
    };
    for (rank, word) in words.iter().enumerate() {
        assert_eq!(value(word), rank);
    }
    assert_eq!(words[0], "qqq");
    assert_eq!(words[1], "qqw");
    assert_eq!(words[3], "qwq");
    assert_eq!(words[26], "eee");
}

#[test]
fn shorter_words_come_first() {
    let words = drain(CombinationGenerator::new_with_charset(1, 3, "ab", None));
    for pair in words.windows(2) {
        assert!(pair[0].len() <= pair[1].len());
    }
    assert_eq!(
        words,
        vec!["a", "b", "aa", "ab", "ba", "bb", "aaa", "aab", "aba", "abb", "baa", "bab", "bba", "bbb"]
    );
}

#[test]
fn default_alphabet_is_digits_lowercase_uppercase() {
    let words = drain(CombinationGenerator::new(1, 1, None));
    let joined: String = words.concat();
    assert_eq!(joined, "0123456789abcdefghijklmnopqrstuvwxyzABCDEFGHIJKLMNOPQRSTUVWXYZ");
}

#[test]
fn options_concatenate_classes_in_fixed_order() {
    let all = drain(CombinationGenerator::new_with_options(1, 1, true, true, true, true, None));
    assert_eq!(
        all.concat(),
        "abcdefghijklmnopqrstuvwxyzABCDEFGHIJKLMNOPQRSTUVWXYZ0123456789!\"#$%&'()*+,-./:;<=>?@[\\]^_`{|}~"
    );
    let digits = drain(CombinationGenerator::new_with_options(1, 1, false, false, true, false, None));
    assert_eq!(digits.concat(), "0123456789");
    let mixed = drain(CombinationGenerator::new_with_options(1, 1, true, false, true, false, None));
    assert_eq!(mixed.concat(), "abcdefghijklmnopqrstuvwxyz0123456789");
    let upper = drain(CombinationGenerator::new_with_options(1, 1, false, true, false, false, None));
    assert_eq!(upper.concat(), "ABCDEFGHIJKLMNOPQRSTUVWXYZ");
    let special = drain(CombinationGenerator::new_with_options(1, 1, false, false, false, true, None));
    assert_eq!(special.len(), 32);
}

#[test]
fn no_class_chosen_produces_nothing() {
    let words = drain(CombinationGenerator::new_with_options(1, 3, false, false, false, false, None));
    assert!(words.is_empty());
    let words = drain(CombinationGenerator::new_with_charset(1, 3, "", None));
    assert!(words.is_empty());
}

#[test]
fn minimum_above_maximum_is_lowered_to_maximum() {
    let words = drain(CombinationGenerator::new_with_charset(3, 2, "ab", None));
    assert_eq!(words, vec!["aa", "ab", "ba", "bb"]);
    let words = drain(CombinationGenerator::new_with_options(9, 1, false, false, true, false, None));
    assert_eq!(words.concat(), "0123456789");
    let words = drain(CombinationGenerator::new(usize::MAX, 1, None));
    assert_eq!(words.len(), 62);
    let words = drain(CombinationGenerator::new_with_charset(5, 0, "ab", None));
    assert_eq!(words, vec![""]);
}

#[test]
fn length_zero_is_the_empty_word() {
    let words = drain(CombinationGenerator::new_with_charset(0, 1, "ab", None));
    assert_eq!(words, vec!["", "a", "b"]);
    let words = drain(CombinationGenerator::new_with_charset(0, 2, "", None));
    assert_eq!(words, vec![""]);
}

#[test]
fn alphabet_with_a_repeated_character_repeats_words() {
    let words = drain(CombinationGenerator::new_with_charset(1, 1, "aa", None));
    assert_eq!(words, vec!["a", "a"]);
}

#[test]
fn alphabet_beyond_ascii() {
    let words = drain(CombinationGenerator::new_with_charset(1, 2, "äß", None));
    assert_eq!(words, vec!["ä", "ß", "ää", "äß", "ßä", "ßß"]);
}

#[test]
fn stop_signal_ends_the_run_for_good() {
    let (stop_tx, stop_rx) = unbounded::<()>();
    let mut generator = CombinationGenerator::new_with_charset(1, 2, "ab", Some(Arc::new(stop_rx)));
    assert!(!generator.is_cancelled());
    assert_eq!(generator.next(), Some("a".to_string()));
    assert_eq!(generator.next(), Some("b".to_string()));
    stop_tx.send(()).unwrap();
    assert_eq!(generator.next(), None);
    assert!(generator.is_cancelled());
    assert_eq!(generator.next(), None);
    drop(stop_tx);
    assert_eq!(generator.next(), None);
    assert_eq!(generator.next(), None);
}

#[test]
fn silent_or_dropped_signal_does_not_stop_the_run() {
    let (stop_tx, stop_rx) = unbounded::<()>();
    let mut generator = CombinationGenerator::new_with_charset(1, 1, "ab", Some(Arc::new(stop_rx)));
    assert_eq!(generator.next(), Some("a".to_string()));
    drop(stop_tx);
    assert_eq!(generator.next(), Some("b".to_string()));
    assert_eq!(generator.next(), None);
    assert!(!generator.is_cancelled());
}

#[test]
fn raised_signal_is_seen_at_the_first_pull() {
    let (stop_tx, stop_rx) = unbounded::<()>();
    stop_tx.send(()).unwrap();
    let mut generator = CombinationGenerator::new_with_charset(1, 2, "ab", Some(Arc::new(stop_rx)));
    assert_eq!(generator.next(), None);
    assert!(generator.is_cancelled());
    assert_eq!(generator.next(), None);
}

#[test]
fn next_given_a_seen_signal_cancels() {
    let (_stop_tx, stop_rx) = unbounded::<()>();
    let mut generator = CombinationGenerator::new_with_charset(1, 2, "ab", Some(Arc::new(stop_rx)));
    assert_eq!(generator.next_given(false), Some("a".to_string()));
    assert!(!generator.is_cancelled());
    assert_eq!(generator.next_given(true), None);
    assert!(generator.is_cancelled());
    assert_eq!(generator.next_given(false), None);
    assert_eq!(generator.next(), None);
    assert!(generator.is_cancelled());
}

#[test]
fn next_given_no_signal_runs_to_the_end() {
    let mut generator = CombinationGenerator::new_with_charset(1, 1, "ab", None);
    assert_eq!(generator.next_given(false), Some("a".to_string()));
    assert_eq!(generator.next_given(false), Some("b".to_string()));
    assert_eq!(generator.next_given(false), None);
    assert!(!generator.is_cancelled());
}
