//! Sentence segmentation and annotation.
//!
//! A sentence is split into fragments: maximal runs of alphabetic
//! characters with internal hyphens, and single characters for everything
//! else. The split is lossless: the fragments concatenate back to the
//! sentence exactly.

use vstd::prelude::*;

verus! {

use crate::dictionary::{Dictionary, opt_text_view, spec_base_form};
use crate::styled_text::{Color, Style, StyledText};
use crate::text::{
    all_word_chars,
    alphabetic,
    chars_to_string,
    open_run,
    str_chars,
    text_views,
    word_char,
    wordlike,
};

/// One segmentation step: a letter or a hyphen extends the last fragment
/// when that fragment is an open alphabetic run; every other character,
/// and any character after a fragment that is not an open run, starts a
/// fresh fragment of its own.
pub open spec fn seg_step(acc: Seq<Seq<char>>, c: char) -> Seq<Seq<char>> {
    if word_char(c) && acc.len() > 0 && open_run(acc.last()) {
        acc.update(acc.len() - 1, acc.last().push(c))
    } else {
        acc.push(seq![c])
    }
}

/// The fragments of a sentence: the left fold of `seg_step` over its
/// characters.
pub open spec fn fragments_of(s: Seq<char>) -> Seq<Seq<char>>
    decreases s.len(),
{
    if s.len() == 0 {
        Seq::empty()
    } else {
        seg_step(fragments_of(s.drop_last()), s.last())
    }
}

/// The views of a vector of character-vector fragments.
pub open spec fn frag_views(fs: Seq<Vec<char>>) -> Seq<Seq<char>> {
    fs.map_values(|f: Vec<char>| f@)
}

/// Splits the characters of a sentence into fragments.
pub(crate) fn segment_chars(chars: &Vec<char>) -> (r: Vec<Vec<char>>)
    ensures
        frag_views(r@) == fragments_of(chars@),
{
    let mut frags: Vec<Vec<char>> = Vec::new();
    let mut last_open: bool = false;
    let mut i: usize = 0;
    while i < chars.len()
        invariant
            i <= chars@.len(),
            frag_views(frags@) == fragments_of(chars@.take(i as int)),
            last_open == (frags@.len() > 0 && open_run(frags@.last()@)),
        decreases chars@.len() - i,
    {
        let c = chars[i];
        let ghost prefix = chars@.take(i as int);
        proof {
            assert(chars@.take(i + 1 as int).drop_last() =~= prefix);
            assert(chars@.take(i + 1 as int).last() == chars@[i as int]);
        }
        let extend = last_open && (crate::text::is_alphabetic_char(c) || c == '-');
        if extend {
            let mut run = frags.pop().unwrap();
            let ghost old_run = run@;
            run.push(c);
            frags.push(run);
            proof {
                assert(frag_views(frags@) =~= fragments_of(prefix).update(
                    fragments_of(prefix).len() - 1,
                    fragments_of(prefix).last().push(c),
                ));
                assert(open_run(frags@.last()@)) by {
                    assert(frags@.last()@ == old_run.push(c));
                    assert(forall|j: int|
                        0 <= j < old_run.push(c).len() ==> word_char(#[trigger] old_run.push(c)[j]));
                }
            }
            last_open = true;
        } else {
            let mut single: Vec<char> = Vec::new();
            single.push(c);
            frags.push(single);
            proof {
                assert(single@ =~= seq![c]);
                assert(frag_views(frags@) =~= fragments_of(prefix).push(seq![c]));
            }
            last_open = crate::text::is_alphabetic_char(c);
            proof {
                assert(frags@.last()@ =~= seq![c]);
                assert(open_run(seq![c]) == alphabetic(c)) by {
                    if alphabetic(c) {
                        assert(forall|j: int| 0 <= j < 1 ==> word_char(#[trigger] seq![c][j]));
                    }
                }
            }
        }
        i = i + 1;
    }
    proof {
        assert(chars@.take(chars@.len() as int) =~= chars@);
    }
    frags
}

/// Segments a sentence into its fragment texts, in order.
pub fn segment(sentence: &str) -> (r: Vec<String>)
    ensures
        text_views(r@) == fragments_of(sentence@),
{
    let chars = str_chars(sentence);
    let frags = segment_chars(&chars);
    let mut r: Vec<String> = Vec::new();
    let mut i: usize = 0;
    while i < frags.len()
        invariant
            i <= frags@.len(),
            frag_views(frags@) == fragments_of(chars@),
            chars@ == sentence@,
            text_views(r@) == frag_views(frags@).take(i as int),
        decreases frags@.len() - i,
    {
        let s = chars_to_string(&frags[i]);
        proof {
            assert(s@ == frag_views(frags@)[i as int]);
        }
        r.push(s);
        proof {
            assert(frag_views(frags@).take(i + 1 as int) =~= frag_views(frags@).take(
                i as int,
            ).push(frag_views(frags@)[i as int]));
            assert(text_views(r@) =~= frag_views(frags@).take(i as int).push(s@));
        }
        i = i + 1;
    }
    proof {
        assert(frag_views(frags@).take(frags@.len() as int) =~= frag_views(frags@));
    }
    r
}

/// Whether a fragment of a sentence is a morphological occurrence of the
/// target word: the fragment is eligible for comparison (letters and
/// hyphens only), its base form resolves, and that base form equals the
/// target word's resolved base form. A fragment whose resolution, or
/// whose target's resolution, is inconclusive is never an occurrence.
pub open spec fn frag_is_match(
    model: nlprule::Tokenizer,
    frag: Seq<char>,
    target: Seq<char>,
) -> bool {
    &&& wordlike(frag)
    &&& spec_base_form(model, frag) is Some
    &&& spec_base_form(model, frag) == spec_base_form(model, target)
}

/// Annotates a sentence for display: each fragment of the sentence, in
/// order and verbatim, in dark grey, bold and underlined exactly when the
/// fragment is a morphological occurrence of the target word.
pub fn style_example(dictionary: &Dictionary, example: &str, target: &str) -> (r: Vec<StyledText>)
    ensures
        r@.map_values(|st: StyledText| st.text@) == fragments_of(example@),
        forall|i: int|
            0 <= i < r@.len() ==> {
                &&& (#[trigger] r@[i]).color == Color::DarkGrey
                &&& r@[i].bold == frag_is_match(dictionary@, fragments_of(example@)[i], target@)
                &&& r@[i].underline == frag_is_match(
                    dictionary@,
                    fragments_of(example@)[i],
                    target@,
                )
            },
{
    let chars = str_chars(example);
    let frags = segment_chars(&chars);
    let target_lemma = dictionary.get_base_form(target);
    let mut r: Vec<StyledText> = Vec::new();
    let mut i: usize = 0;
    while i < frags.len()
        invariant
            i <= frags@.len(),
            frag_views(frags@) == fragments_of(example@),
            opt_text_view(target_lemma) == spec_base_form(dictionary@, target@),
            r@.len() == i,
            r@.map_values(|st: StyledText| st.text@) == frag_views(frags@).take(i as int),
            forall|j: int|
                0 <= j < i ==> {
                    &&& (#[trigger] r@[j]).color == Color::DarkGrey
                    &&& r@[j].bold == frag_is_match(dictionary@, frag_views(frags@)[j], target@)
                    &&& r@[j].underline == frag_is_match(
                        dictionary@,
                        frag_views(frags@)[j],
                        target@,
                    )
                },
        decreases frags@.len() - i,
    {
        let ghost frag = frag_views(frags@)[i as int];
        let ftext = chars_to_string(&frags[i]);
        let eligible = all_word_chars(&frags[i]);
        let matched: bool = if eligible {
            let frag_lemma = dictionary.get_base_form(ftext.as_str());
            match (frag_lemma, &target_lemma) {
                (Some(a), Some(b)) => a.eq(b),
                _ => false,
            }
        } else {
            false
        };
        proof {
            assert(matched == frag_is_match(dictionary@, frag, target@));
        }
        let style = if matched {
            Style::BoldUnderline
        } else {
            Style::Plain
        };
        let styled = StyledText::new(ftext.as_str(), Color::DarkGrey, style);
        proof {
            assert(styled.bold == matched);
            assert(styled.underline == matched);
        }
        r.push(styled);
        proof {
            assert(r@.map_values(|st: StyledText| st.text@) =~= frag_views(frags@).take(
                i + 1 as int,
            ));
        }
        i = i + 1;
    }
    proof {
        assert(frag_views(frags@).take(frags@.len() as int) =~= frag_views(frags@));
    }
    r
}

/// The concatenation of a sequence of fragments.
pub open spec fn concat_fragments(fs: Seq<Seq<char>>) -> Seq<char>
    decreases fs.len(),
{
    if fs.len() == 0 {
        Seq::empty()
    } else {
        concat_fragments(fs.drop_last()) + fs.last()
    }
}

/// The total number of characters over a sequence of fragments.
pub open spec fn total_len(fs: Seq<Seq<char>>) -> nat
    decreases fs.len(),
{
    if fs.len() == 0 {
        0
    } else {
        total_len(fs.drop_last()) + fs.last().len()
    }
}

/// One step keeps the concatenation: appending a character to the fold
/// appends it to the concatenation.
proof fn lemma_seg_step_concat(fs: Seq<Seq<char>>, c: char)
    ensures
        concat_fragments(seg_step(fs, c)) == concat_fragments(fs).push(c),
{
    if word_char(c) && fs.len() > 0 && open_run(fs.last()) {
        let fs2 = fs.update(fs.len() - 1, fs.last().push(c));
        assert(fs2.drop_last() =~= fs.drop_last());
        assert(fs2.last() == fs.last().push(c));
        assert(concat_fragments(fs.drop_last()) + fs.last().push(c) =~= (concat_fragments(
            fs.drop_last(),
        ) + fs.last()).push(c));
    } else {
        let fs2 = fs.push(seq![c]);
        assert(fs2.drop_last() =~= fs);
        assert(fs2.last() =~= seq![c]);
        assert(concat_fragments(fs) + seq![c] =~= concat_fragments(fs).push(c));
    }
}

/// Losslessness: concatenating the fragments of a sentence, in order,
/// yields the sentence exactly.
pub proof fn lemma_segmentation_lossless(s: Seq<char>)
    ensures
        concat_fragments(fragments_of(s)) == s,
    decreases s.len(),
{
    if s.len() == 0 {
        assert(concat_fragments(fragments_of(s)) =~= s);
    } else {
        lemma_segmentation_lossless(s.drop_last());
        lemma_seg_step_concat(fragments_of(s.drop_last()), s.last());
        assert(s.drop_last().push(s.last()) =~= s);
    }
}

/// The length of a concatenation is the sum of the fragment lengths.
proof fn lemma_concat_len(fs: Seq<Seq<char>>)
    ensures
        concat_fragments(fs).len() == total_len(fs),
    decreases fs.len(),
{
    if fs.len() > 0 {
        lemma_concat_len(fs.drop_last());
    }
}

/// Total coverage: the number of characters across all fragments of a
/// sentence equals the number of characters of the sentence.
pub proof fn lemma_total_coverage(s: Seq<char>)
    ensures
        total_len(fragments_of(s)) == s.len(),
{
    lemma_segmentation_lossless(s);
    lemma_concat_len(fragments_of(s));
}

/// The shape every fragment has: an open alphabetic run, or a single
/// character.
pub open spec fn fragment_shape(f: Seq<char>) -> bool {
    open_run(f) || f.len() == 1
}

/// Every fragment of a sentence is an open alphabetic run or a single
/// character.
pub proof fn lemma_fragment_shapes(s: Seq<char>)
    ensures
        forall|i: int|
            0 <= i < fragments_of(s).len() ==> fragment_shape(#[trigger] fragments_of(s)[i]),
    decreases s.len(),
{
    if s.len() > 0 {
        lemma_fragment_shapes(s.drop_last());
        let fs = fragments_of(s.drop_last());
        let c = s.last();
        if word_char(c) && fs.len() > 0 && open_run(fs.last()) {
            let run = fs.last().push(c);
            assert(open_run(run)) by {
                assert(forall|j: int|
                    0 <= j < fs.last().len() ==> word_char(#[trigger] fs.last()[j]));
                assert(forall|j: int| 0 <= j < run.len() ==> word_char(#[trigger] run[j]));
            }
        }
    }
}

/// Non-alphabetic isolation: a fragment with more than one character holds
/// letters and hyphens only.
pub proof fn lemma_non_alphabetic_isolation(s: Seq<char>, i: int)
    requires
        0 <= i < fragments_of(s).len(),
        fragments_of(s)[i].len() > 1,
    ensures
        wordlike(fragments_of(s)[i]),
{
    lemma_fragment_shapes(s);
    assert(fragment_shape(fragments_of(s)[i]));
}

} // verus!
