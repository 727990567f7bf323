//! An example-sentence annotator for a vocabulary trainer.
//!
//! The library segments a sentence into displayable fragments — alphabetic
//! runs with internal hyphens, and single characters for punctuation,
//! whitespace and everything else — resolves the dictionary base form of
//! words through an external lemmatizer, and marks exactly those fragments
//! that are morphological occurrences of a target word. Around that core
//! it computes what the trainer's screens show and the decisions its
//! study loop takes.

mod dictionary;
mod layout;
mod session;
mod styled_text;
mod stylist;
mod text;

pub use dictionary::{Dictionary, Resolution, candidate_resolution, resolve_candidates};
pub use layout::{centered_start, decimal_string, parenthesized, progress_label, right_edge_start};
pub use session::{
    Action,
    Key,
    Phase,
    StepOutcome,
    Word,
    action_for_key,
    clear_skips,
    shuffle_order,
    study_step,
    unskipped_indices,
};
pub use styled_text::{Color, Style, StyledText};
pub use stylist::{segment, style_example};
