use lemma_mark::{Resolution, candidate_resolution, resolve_candidates};

fn rows(row: &[&str]) -> Vec<Vec<String>> {
    vec![row.iter().map(|s| s.to_string()).collect()]
}

#[test]
fn two_candidates_pick_the_one_not_equal_to_the_word() {
    assert_eq!(
        resolve_candidates("cats", &rows(&["cat", "cats"])),
        Some("cat".to_string())
    );
    assert_eq!(
        resolve_candidates("running", &rows(&["running", "run"])),
        Some("run".to_string())
    );
    assert_eq!(
        resolve_candidates("ran", &rows(&["ran", "run"])),
        Some("run".to_string())
    );
    assert_eq!(
        resolve_candidates("are", &rows(&["are", "be"])),
        Some("be".to_string())
    );
    assert_eq!(
        resolve_candidates("was", &rows(&["was", "be"])),
        Some("be".to_string())
    );
    assert_eq!(
        resolve_candidates("had", &rows(&["have", "had"])),
        Some("have".to_string())
    );
    assert_eq!(
        resolve_candidates("children", &rows(&["children", "child"])),
        Some("child".to_string())
    );
}

#[test]
fn single_candidate_is_already_the_base_form() {
    assert_eq!(
        resolve_candidates("word", &rows(&["word"])),
        Some("word".to_string())
    );
    assert_eq!(
        resolve_candidates("state-of-the-art", &rows(&["state-of-the-art"])),
        Some("state-of-the-art".to_string())
    );
}

#[test]
fn zero_candidates_are_inconclusive() {
    assert_eq!(resolve_candidates("x", &rows(&[])), None);
}

#[test]
fn three_or_more_distinct_candidates_are_inconclusive() {
    assert_eq!(resolve_candidates("b", &rows(&["a", "b", "c"])), None);
    assert_eq!(
        resolve_candidates("running", &rows(&["running", "run", "runner", "runs"])),
        None
    );
}

#[test]
fn duplicate_candidates_collapse_before_counting() {
    assert_eq!(
        resolve_candidates("running", &rows(&["run", "run", "running", "run"])),
        Some("run".to_string())
    );
    assert_eq!(
        resolve_candidates("word", &rows(&["word", "word", "word"])),
        Some("word".to_string())
    );
}

#[test]
fn two_candidates_both_foreign_pick_the_first() {
    assert_eq!(
        resolve_candidates("z", &rows(&["x", "y"])),
        Some("x".to_string())
    );
}

#[test]
fn analysis_without_exactly_one_sentence_is_inconclusive() {
    let none: Vec<Vec<String>> = Vec::new();
    assert_eq!(resolve_candidates("word", &none), None);
    let two = vec![
        vec!["word".to_string()],
        vec!["word".to_string()],
    ];
    assert_eq!(resolve_candidates("word", &two), None);
}

#[test]
fn candidate_resolution_tells_the_outcomes_apart() {
    assert_eq!(
        candidate_resolution("cats", &rows(&["cat", "cats"])),
        Resolution::Base("cat".to_string())
    );
    assert_eq!(
        candidate_resolution("x", &rows(&[])),
        Resolution::Inconclusive
    );
    assert_eq!(
        candidate_resolution("b", &rows(&["a", "b", "c"])),
        Resolution::Inconclusive
    );
}

#[test]
fn candidate_resolution_reports_the_inconsistent_breakdown() {
    let none: Vec<Vec<String>> = Vec::new();
    assert_eq!(
        candidate_resolution("word", &none),
        Resolution::InconsistentAnalysis
    );
    let two = vec![vec!["word".to_string()], vec!["word".to_string()]];
    assert_eq!(
        candidate_resolution("word", &two),
        Resolution::InconsistentAnalysis
    );
}
