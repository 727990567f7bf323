use lemma_mark::{
    Action, Key, Phase, StepOutcome, Word, action_for_key, clear_skips, shuffle_order, study_step,
    unskipped_indices,
};

fn word(english: &str, skip: bool) -> Word {
    Word {
        english: english.to_string(),
        example: format!("An example with {}.", english),
        japanese: "訳".to_string(),
        skip,
    }
}

#[test]
fn key_bindings_map_to_their_actions() {
    assert_eq!(action_for_key(Key::Return), Some(Action::Next));
    assert_eq!(
        action_for_key(Key::Character('m')),
        Some(Action::MarkMemorized)
    );
    assert_eq!(action_for_key(Key::Character('q')), Some(Action::Quit));
    assert_eq!(action_for_key(Key::Character('x')), None);
    assert_eq!(action_for_key(Key::Character(' ')), None);
}

#[test]
fn question_next_shows_the_answer() {
    assert_eq!(
        study_step(Phase::Question, Action::Next),
        StepOutcome::ShowAnswer
    );
}

#[test]
fn answer_next_advances() {
    assert_eq!(study_step(Phase::Answer, Action::Next), StepOutcome::Advance);
}

#[test]
fn mark_memorized_always_marks_and_advances() {
    assert_eq!(
        study_step(Phase::Question, Action::MarkMemorized),
        StepOutcome::MarkAndAdvance
    );
    assert_eq!(
        study_step(Phase::Answer, Action::MarkMemorized),
        StepOutcome::MarkAndAdvance
    );
}

#[test]
fn quit_always_ends_the_session() {
    assert_eq!(study_step(Phase::Question, Action::Quit), StepOutcome::Quit);
    assert_eq!(study_step(Phase::Answer, Action::Quit), StepOutcome::Quit);
}

#[test]
fn unskipped_indices_keep_order_and_drop_skipped() {
    let words = vec![
        word("run", false),
        word("be", true),
        word("eat", false),
        word("go", true),
        word("see", false),
    ];
    assert_eq!(unskipped_indices(&words), vec![0, 2, 4]);
}

#[test]
fn unskipped_indices_of_empty_deck_are_empty() {
    let words: Vec<Word> = Vec::new();
    assert_eq!(unskipped_indices(&words), Vec::<usize>::new());
}

#[test]
fn clear_skips_resets_every_mark_and_nothing_else() {
    let mut words = vec![word("run", true), word("be", false), word("eat", true)];
    clear_skips(&mut words);
    assert_eq!(words.len(), 3);
    assert!(words.iter().all(|w| !w.skip));
    assert_eq!(words[0].english, "run");
    assert_eq!(words[2].english, "eat");
    assert_eq!(words[1].example, "An example with be.");
    assert_eq!(unskipped_indices(&words), vec![0, 1, 2]);
}

#[test]
fn shuffle_keeps_the_same_indices() {
    let mut order: Vec<usize> = (0..50).collect();
    shuffle_order(&mut order);
    assert_eq!(order.len(), 50);
    let mut sorted = order.clone();
    sorted.sort_unstable();
    let expected: Vec<usize> = (0..50).collect();
    assert_eq!(sorted, expected);
}
