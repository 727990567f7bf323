use lemma_mark::segment;

#[test]
fn segment_empty_sentence_is_empty() {
    let frags = segment("");
    assert_eq!(frags.len(), 0);
}

#[test]
fn segment_simple_sentence() {
    let frags = segment("be kind.");
    assert_eq!(frags, vec!["be", " ", "kind", "."]);
}

#[test]
fn segment_keeps_every_character() {
    let sentence = "I ate a student.";
    let frags = segment(sentence);
    assert_eq!(frags, vec!["I", " ", "ate", " ", "a", " ", "student", "."]);
    let total: usize = frags.iter().map(|f| f.chars().count()).sum();
    assert_eq!(total, sentence.chars().count());
}

#[test]
fn segment_concatenates_back_losslessly() {
    for sentence in [
        "be kind.",
        "I am; ",
        "I :!\"am\"?:",
        "state-of-the-art design",
        "  double  spaces  ",
        "digits 123 stay apart",
    ] {
        let frags = segment(sentence);
        let rebuilt: String = frags.concat();
        assert_eq!(rebuilt, sentence);
    }
}

#[test]
fn segment_isolates_punctuation_one_by_one() {
    let frags = segment("I :!\"am\"?:");
    assert_eq!(
        frags,
        vec!["I", " ", ":", "!", "\"", "am", "\"", "?", ":"]
    );
}

#[test]
fn segment_never_coalesces_punctuation() {
    let frags = segment("!!");
    assert_eq!(frags, vec!["!", "!"]);
}

#[test]
fn segment_keeps_internal_hyphens_in_one_run() {
    let frags = segment("state-of-the-art");
    assert_eq!(frags, vec!["state-of-the-art"]);
}

#[test]
fn segment_leading_hyphen_stands_alone() {
    let frags = segment("-x");
    assert_eq!(frags, vec!["-", "x"]);
}

#[test]
fn segment_trailing_punctuation_variants() {
    for (sentence, tail) in [
        ("I am.", "."),
        ("I am,", ","),
        ("I am!", "!"),
        ("I am?", "?"),
        ("I am;", ";"),
        ("I am:", ":"),
    ] {
        let frags = segment(sentence);
        assert_eq!(frags, vec!["I", " ", "am", tail]);
    }
}

#[test]
fn segment_multicharacter_fragments_are_wordlike() {
    for sentence in ["a-b c! d2e", "one two-three, four."] {
        for frag in segment(sentence) {
            if frag.chars().count() > 1 {
                assert!(frag.chars().all(|c| c.is_alphabetic() || c == '-'));
            }
        }
    }
}

#[test]
fn segment_digits_are_single_fragments() {
    let frags = segment("a1b");
    assert_eq!(frags, vec!["a", "1", "b"]);
}
