//! Lemma resolution.
//!
//! A `Dictionary` wraps an external lemmatizer that the embedding has
//! already loaded; loading itself, and the fatal abort when the model
//! fails to load, stand at the embedding's edge, because nlprule's
//! deserialization can abort on malformed bytes. Resolving a word runs
//! the lemmatizer over the word as a single sentence, collects every
//! candidate base form the lemmatizer proposes, collapses duplicates, and
//! then decides: one candidate is the base form itself; of two candidates
//! the one not equal to the word is its base form; anything else is
//! inconclusive. A breakdown of other than one sentence for a bare word
//! breaks the lemmatizer's contract and is reported distinctly, so that
//! an embedding can make it loud.

use vstd::prelude::*;

verus! {

use crate::text::text_views;

/// nlprule's tokenizer: the external lemmatizer this library wraps. It is
/// opaque here; its behaviour enters only through the contracts of the
/// trusted wrappers below.
#[verifier::external_type_specification]
#[verifier::external_body]
pub struct ExTokenizer(nlprule::Tokenizer);

/// What nlprule's `sentencize` reports for a text under a given loaded
/// tokenizer: one row per sentence, holding the lemma of every tag of
/// every token of that sentence, in tokenizer order. The tagger reads
/// only immutable tables of the loaded model, so the analysis is a
/// function of the tokenizer value and the text alone.
pub uninterp spec fn lemma_analysis(model: nlprule::Tokenizer, text: Seq<char>) -> Seq<
    Seq<Seq<char>>,
>;

/// The views of the rows of an analysis.
pub open spec fn rows_view(rows: Seq<Vec<String>>) -> Seq<Seq<Seq<char>>> {
    rows.map_values(|row: Vec<String>| text_views(row@))
}

/// The view of an optional resolved base form.
pub open spec fn opt_text_view(r: Option<String>) -> Option<Seq<char>> {
    match r {
        Some(l) => Some(l@),
        None => None,
    }
}

/// The candidates with duplicates collapsed, keeping the first occurrence
/// of each, in order.
pub open spec fn distinct_lemmas(cands: Seq<Seq<char>>) -> Seq<Seq<char>>
    decreases cands.len(),
{
    if cands.len() == 0 {
        Seq::empty()
    } else {
        let prefix = distinct_lemmas(cands.drop_last());
        if prefix.contains(cands.last()) {
            prefix
        } else {
            prefix.push(cands.last())
        }
    }
}

/// The disambiguation rule over a distinct candidate set: one candidate is
/// the base form; of two, the one not equal to the word; zero or three or
/// more candidates are inconclusive.
pub open spec fn pick_base_form(w: Seq<char>, cands: Seq<Seq<char>>) -> Option<Seq<char>> {
    if cands.len() == 1 {
        Some(cands[0])
    } else if cands.len() == 2 {
        if cands[0] != w {
            Some(cands[0])
        } else {
            Some(cands[1])
        }
    } else {
        None
    }
}

/// What resolution yields from an analysis: the lemmatizer is expected to
/// report exactly one sentence for a bare word; an analysis of any other
/// shape yields nothing (and is reported distinctly by `Resolution`).
pub open spec fn resolution_of(w: Seq<char>, analysis: Seq<Seq<Seq<char>>>) -> Option<Seq<char>> {
    if analysis.len() == 1 {
        pick_base_form(w, distinct_lemmas(analysis[0]))
    } else {
        None
    }
}

/// The base form of a word under a given loaded tokenizer: an empty word
/// is inconclusive without consulting the lemmatizer; otherwise
/// resolution over the word's analysis.
pub open spec fn spec_base_form(model: nlprule::Tokenizer, w: Seq<char>) -> Option<Seq<char>> {
    if w.len() == 0 {
        None
    } else {
        resolution_of(w, lemma_analysis(model, w))
    }
}

/// The outcome of resolving one word: its base form; no base form the
/// disambiguation rule could settle on (an expected, recoverable result);
/// or an analysis that breaks the lemmatizer's one-sentence contract for
/// a bare word (an internal-consistency violation, which an embedding
/// should treat as fatal rather than render a wrong highlight).
#[derive(Debug, Clone, PartialEq, Eq)]
pub enum Resolution {
    Base(String),
    Inconclusive,
    InconsistentAnalysis,
}

/// The view of a resolution outcome as an optional base form.
pub open spec fn resolution_view(r: Resolution) -> Option<Seq<char>> {
    match r {
        Resolution::Base(l) => Some(l@),
        Resolution::Inconclusive => None,
        Resolution::InconsistentAnalysis => None,
    }
}

/// A loaded lemmatizer. Its view is the loaded tokenizer itself, the
/// value every resolution is a function of.
pub struct Dictionary {
    tokenizer: nlprule::Tokenizer,
}

impl View for Dictionary {
    type V = nlprule::Tokenizer;

    closed spec fn view(&self) -> nlprule::Tokenizer {
        self.tokenizer
    }
}

impl Dictionary {
    /// Wraps an already-loaded lemmatizer. The embedding loads the model
    /// and must treat a model that fails to load as fatal before ever
    /// constructing a `Dictionary`; the library takes no bytes itself,
    /// because nlprule's deserialization can abort on malformed input.
    pub fn new(tokenizer: nlprule::Tokenizer) -> (r: Dictionary)
        ensures
            r@ == tokenizer,
    {
        Dictionary { tokenizer }
    }

    /// Relies on nlprule's `Tokenizer::sentencize`: splits the text into
    /// sentences and tags every token of each sentence with its candidate
    /// base forms, reading only immutable tables of the loaded model; the
    /// rows are named `lemma_analysis` of the tokenizer and the text, and
    /// the call returns normally on every text, the empty one included.
    #[verifier::external_body]
    fn analyze(&self, text: &str) -> (r: Vec<Vec<String>>)
        ensures
            rows_view(r@) == lemma_analysis(self@, text@),
    {
        self.tokenizer
            .sentencize(text)
            .map(|sentence| {
                sentence
                    .into_iter()
                    .flat_map(|token| {
                        let tags = token.word().tags().iter();
                        tags.map(|data| data.lemma().as_str().to_string()).collect::<Vec<_>>()
                    })
                    .collect()
            })
            .collect()
    }

    /// Resolves the base form of a word and says which of the three
    /// outcomes holds: the base form `spec_base_form` picks; an expected
    /// inconclusive result (empty word, or a candidate set of zero or of
    /// three or more distinct members); or an analysis of a non-empty
    /// word that does not have exactly one sentence, the
    /// internal-consistency violation.
    pub fn resolve_base_form(&self, word: &str) -> (r: Resolution)
        ensures
            resolution_view(r) == spec_base_form(self@, word@),
            r is Base <==> spec_base_form(self@, word@) is Some,
            r is InconsistentAnalysis <==> word@.len() > 0 && lemma_analysis(self@, word@).len()
                != 1,
    {
        if word.is_empty() {
            return Resolution::Inconclusive;
        }
        let analysis = self.analyze(word);
        candidate_resolution(word, &analysis)
    }

    /// The base form of a word: exactly `spec_base_form` of the loaded
    /// tokenizer and the word — `None` for an empty word, for an analysis
    /// without exactly one sentence, and for a candidate set of zero or
    /// of three or more distinct members; otherwise the candidate the
    /// disambiguation rule picks. `resolve_base_form` tells the `None`
    /// cases apart.
    pub fn get_base_form(&self, word: &str) -> (r: Option<String>)
        ensures
            opt_text_view(r) == spec_base_form(self@, word@),
    {
        match self.resolve_base_form(word) {
            Resolution::Base(l) => Some(l),
            Resolution::Inconclusive => None,
            Resolution::InconsistentAnalysis => None,
        }
    }
}

/// Whether some string of the vector equals the given one.
fn contains_text(items: &Vec<String>, s: &String) -> (r: bool)
    ensures
        r == text_views(items@).contains(s@),
{
    let mut i: usize = 0;
    while i < items.len()
        invariant
            i <= items@.len(),
            forall|j: int| 0 <= j < i ==> text_views(items@)[j] != s@,
        decreases items@.len() - i,
    {
        if items[i].eq(s) {
            proof {
                assert(text_views(items@)[i as int] == s@);
            }
            return true;
        }
        proof {
            assert(text_views(items@)[i as int] == items@[i as int]@);
        }
        i = i + 1;
    }
    proof {
        if text_views(items@).contains(s@) {
            let j = choose|j: int| 0 <= j < text_views(items@).len() && text_views(items@)[j]
                == s@;
            assert(text_views(items@)[j] != s@);
        }
    }
    false
}

/// The candidate texts with duplicates collapsed, keeping first
/// occurrences, in order.
fn distinct_texts(items: &Vec<String>) -> (r: Vec<String>)
    ensures
        text_views(r@) == distinct_lemmas(text_views(items@)),
{
    let mut r: Vec<String> = Vec::new();
    let mut i: usize = 0;
    while i < items.len()
        invariant
            i <= items@.len(),
            text_views(r@) == distinct_lemmas(text_views(items@).take(i as int)),
        decreases items@.len() - i,
    {
        let ghost prefix = text_views(items@).take(i as int);
        proof {
            assert(text_views(items@).take(i + 1 as int).drop_last() =~= prefix);
            assert(text_views(items@).take(i + 1 as int).last() == items@[i as int]@);
        }
        if !contains_text(&r, &items[i]) {
            let c = items[i].clone();
            r.push(c);
            proof {
                assert(text_views(r@) =~= distinct_lemmas(prefix).push(items@[i as int]@));
            }
        }
        i = i + 1;
    }
    proof {
        assert(text_views(items@).take(items@.len() as int) =~= text_views(items@));
    }
    r
}

/// Resolution from an analysis, with the outcome told apart: an analysis
/// without exactly one sentence row is the internal-consistency
/// violation; otherwise the row's candidates are collapsed and the
/// disambiguation rule decides, `Inconclusive` for zero candidates or
/// three or more distinct ones.
pub fn candidate_resolution(word: &str, analysis: &Vec<Vec<String>>) -> (r: Resolution)
    ensures
        resolution_view(r) == resolution_of(word@, rows_view(analysis@)),
        r is Base <==> resolution_of(word@, rows_view(analysis@)) is Some,
        r is InconsistentAnalysis <==> rows_view(analysis@).len() != 1,
{
    if analysis.len() != 1 {
        return Resolution::InconsistentAnalysis;
    }
    proof {
        assert(rows_view(analysis@)[0] == text_views(analysis@[0]@));
    }
    let cands = distinct_texts(&analysis[0]);
    if cands.len() == 1 {
        Resolution::Base(cands[0].clone())
    } else if cands.len() == 2 {
        let w = word.to_owned();
        if !cands[0].eq(&w) {
            Resolution::Base(cands[0].clone())
        } else {
            Resolution::Base(cands[1].clone())
        }
    } else {
        Resolution::Inconclusive
    }
}

/// Resolution from an analysis as an optional base form: `Some` exactly
/// when the analysis has one sentence row and the disambiguation rule
/// picks a candidate.
pub fn resolve_candidates(word: &str, analysis: &Vec<Vec<String>>) -> (r: Option<String>)
    ensures
        opt_text_view(r) == resolution_of(word@, rows_view(analysis@)),
{
    match candidate_resolution(word, analysis) {
        Resolution::Base(l) => Some(l),
        Resolution::Inconclusive => None,
        Resolution::InconsistentAnalysis => None,
    }
}

/// Idempotence of resolution: the base form is a function of the loaded
/// tokenizer and the word, so two resolutions of the same word under the
/// same tokenizer agree.
pub proof fn lemma_resolution_deterministic(
    model: nlprule::Tokenizer,
    w: Seq<char>,
    r1: Option<Seq<char>>,
    r2: Option<Seq<char>>,
)
    requires
        r1 == spec_base_form(model, w),
        r2 == spec_base_form(model, w),
    ensures
        r1 == r2,
{
}

/// Candidates that all equal one word collapse to that word alone.
proof fn lemma_distinct_all_equal(cands: Seq<Seq<char>>, w: Seq<char>)
    requires
        cands.len() > 0,
        forall|i: int| 0 <= i < cands.len() ==> cands[i] == w,
    ensures
        distinct_lemmas(cands) =~= seq![w],
    decreases cands.len(),
{
    if cands.len() == 1 {
        assert(distinct_lemmas(cands.drop_last()) =~= Seq::<Seq<char>>::empty());
    } else {
        lemma_distinct_all_equal(cands.drop_last(), w);
        assert(distinct_lemmas(cands.drop_last()).contains(cands.last())) by {
            assert(distinct_lemmas(cands.drop_last())[0] == w);
        }
    }
}

/// Already-base-form fixed point: when every candidate the lemmatizer
/// proposes for a word is the word itself, resolution returns the word.
pub proof fn lemma_base_form_fixed_point(model: nlprule::Tokenizer, w: Seq<char>)
    requires
        w.len() > 0,
        lemma_analysis(model, w).len() == 1,
        lemma_analysis(model, w)[0].len() > 0,
        forall|i: int|
            0 <= i < lemma_analysis(model, w)[0].len() ==> lemma_analysis(model, w)[0][i] == w,
    ensures
        spec_base_form(model, w) == Some(w),
{
    lemma_distinct_all_equal(lemma_analysis(model, w)[0], w);
}

/// Ambiguity rejection: a candidate set with zero or with three or more
/// distinct members resolves to nothing.
pub proof fn lemma_ambiguity_rejected(model: nlprule::Tokenizer, w: Seq<char>)
    requires
        w.len() > 0,
        lemma_analysis(model, w).len() == 1,
        distinct_lemmas(lemma_analysis(model, w)[0]).len() == 0 || distinct_lemmas(
            lemma_analysis(model, w)[0],
        ).len() >= 3,
    ensures
        spec_base_form(model, w) == None::<Seq<char>>,
{
}

} // verus!
