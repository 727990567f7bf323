//! The study session: its word records and the decisions its loop takes.
//!
//! The interactive loop itself performs terminal work and lives outside
//! the library; the decisions it takes — which outcome follows a key
//! action in each phase, which words are due, how the deck is reset — are
//! functions here.

use vstd::prelude::*;

use rand::seq::SliceRandom;

verus! {

/// One vocabulary entry: the word, an example sentence, its translation,
/// and whether it is currently skipped as memorized.
#[derive(Debug, Clone, PartialEq, Eq)]
pub struct Word {
    pub english: String,
    pub example: String,
    pub japanese: String,
    pub skip: bool,
}

/// A key action of the learner.
#[derive(Debug, Clone, Copy, PartialEq, Eq, Structural)]
pub enum Action {
    Next,
    MarkMemorized,
    Quit,
}

/// A key press the session reacts to: the return key, or a printable
/// character.
#[derive(Debug, Clone, Copy, PartialEq, Eq, Structural)]
pub enum Key {
    Return,
    Character(char),
}

/// The key bindings: return advances, `m` marks the word memorized, `q`
/// quits, and every other key does nothing.
pub open spec fn spec_action_for_key(key: Key) -> Option<Action> {
    match key {
        Key::Return => Some(Action::Next),
        Key::Character(c) => if c == 'm' {
            Some(Action::MarkMemorized)
        } else if c == 'q' {
            Some(Action::Quit)
        } else {
            None
        },
    }
}

/// Maps a key press to the action it is bound to, if any.
pub fn action_for_key(key: Key) -> (r: Option<Action>)
    ensures
        r == spec_action_for_key(key),
{
    match key {
        Key::Return => Some(Action::Next),
        Key::Character(c) => {
            if c == 'm' {
                Some(Action::MarkMemorized)
            } else if c == 'q' {
                Some(Action::Quit)
            } else {
                None
            }
        },
    }
}

/// Where the session stands for the current word: showing the question
/// alone, or the answer as well.
#[derive(Debug, Clone, Copy, PartialEq, Eq, Structural)]
pub enum Phase {
    Question,
    Answer,
}

/// What the loop does next: reveal the answer, move to the next word,
/// mark the word memorized and move on, or end the session.
#[derive(Debug, Clone, Copy, PartialEq, Eq, Structural)]
pub enum StepOutcome {
    ShowAnswer,
    Advance,
    MarkAndAdvance,
    Quit,
}

/// The session's decision rule: advancing from the question reveals the
/// answer first; marking memorized always marks and moves on; quitting
/// always ends the session.
pub open spec fn spec_study_step(phase: Phase, action: Action) -> StepOutcome {
    match (phase, action) {
        (Phase::Question, Action::Next) => StepOutcome::ShowAnswer,
        (Phase::Answer, Action::Next) => StepOutcome::Advance,
        (_, Action::MarkMemorized) => StepOutcome::MarkAndAdvance,
        (_, Action::Quit) => StepOutcome::Quit,
    }
}

/// Decides what the session does after a key action.
pub fn study_step(phase: Phase, action: Action) -> (r: StepOutcome)
    ensures
        r == spec_study_step(phase, action),
{
    match (phase, action) {
        (Phase::Question, Action::Next) => StepOutcome::ShowAnswer,
        (Phase::Answer, Action::Next) => StepOutcome::Advance,
        (_, Action::MarkMemorized) => StepOutcome::MarkAndAdvance,
        (_, Action::Quit) => StepOutcome::Quit,
    }
}

/// The positions of the words still due, in order: those not marked as
/// skipped.
pub open spec fn unskipped_of(ws: Seq<Word>) -> Seq<usize>
    decreases ws.len(),
{
    if ws.len() == 0 {
        Seq::empty()
    } else {
        let prefix = unskipped_of(ws.drop_last());
        if !ws.last().skip {
            prefix.push((ws.len() - 1) as usize)
        } else {
            prefix
        }
    }
}

/// The indices of the words not marked as memorized, in order.
pub fn unskipped_indices(words: &Vec<Word>) -> (r: Vec<usize>)
    ensures
        r@ == unskipped_of(words@),
{
    let mut r: Vec<usize> = Vec::new();
    let mut i: usize = 0;
    while i < words.len()
        invariant
            i <= words@.len(),
            r@ == unskipped_of(words@.take(i as int)),
        decreases words@.len() - i,
    {
        proof {
            assert(words@.take(i + 1 as int).drop_last() =~= words@.take(i as int));
            assert(words@.take(i + 1 as int).last() == words@[i as int]);
        }
        if !words[i].skip {
            r.push(i);
        }
        i = i + 1;
    }
    proof {
        assert(words@.take(words@.len() as int) =~= words@);
    }
    r
}

/// Resets the deck: clears the skip mark of every word and changes
/// nothing else.
pub fn clear_skips(words: &mut Vec<Word>)
    ensures
        final(words)@.len() == old(words)@.len(),
        forall|i: int|
            0 <= i < old(words)@.len() ==> {
                &&& (#[trigger] final(words)@[i]).english == old(words)@[i].english
                &&& final(words)@[i].example == old(words)@[i].example
                &&& final(words)@[i].japanese == old(words)@[i].japanese
                &&& final(words)@[i].skip == false
            },
{
    let ghost orig = words@;
    let mut cleared: Vec<Word> = Vec::new();
    while words.len() > 0
        invariant
            orig.len() == cleared@.len() + words@.len(),
            words@ =~= orig.skip(cleared@.len() as int),
            forall|i: int|
                0 <= i < cleared@.len() ==> {
                    &&& (#[trigger] cleared@[i]).english == orig[i].english
                    &&& cleared@[i].example == orig[i].example
                    &&& cleared@[i].japanese == orig[i].japanese
                    &&& cleared@[i].skip == false
                },
        decreases words@.len(),
    {
        let mut w = words.remove(0);
        proof {
            assert(w == orig[cleared@.len() as int]);
        }
        w.skip = false;
        cleared.push(w);
        proof {
            assert(words@ =~= orig.skip(cleared@.len() as int));
        }
    }
    *words = cleared;
}

/// Relies on rand's `SliceRandom::shuffle`, driven by `rand::rng()`: it
/// permutes the elements in place; the permutation depends on the
/// thread-local generator, so only what holds of every outcome is stated.
#[verifier::external_body]
fn shuffle_slice(order: &mut Vec<usize>)
    ensures
        final(order)@.len() == old(order)@.len(),
        final(order)@.to_multiset() == old(order)@.to_multiset(),
{
    order.shuffle(&mut rand::rng());
}

/// Shuffles the presentation order: afterwards the same indices are
/// present, each as often as before.
pub fn shuffle_order(order: &mut Vec<usize>)
    ensures
        final(order)@.len() == old(order)@.len(),
        final(order)@.to_multiset() == old(order)@.to_multiset(),
{
    shuffle_slice(order);
}

} // verus!
