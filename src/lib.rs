//! A positional token stream over the output of a word segmenter.
//!
//! A segmenter splits a source text into an ordered list of byte ranges of
//! that text (ranges may overlap). The stream turns each range into a token
//! that records its byte offsets, a position for phrase queries (the start
//! offset) and an owned copy of its text.
mod laws;
mod stream;
mod token;

pub use laws::{lemma_advance_count, lemma_token_covers_segment};
pub use stream::{advance_step, is_segment_of, is_token_for, CangjieTokenStream, StreamView};
pub use token::{is_unset, Token};
