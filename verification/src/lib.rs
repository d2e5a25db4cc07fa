//! Fixed-width, overlapping windows ("n-grams") over a finite sequence of
//! copyable items, padded at both ends with a type-specific bumper value.

mod iter;
mod iterable;
mod state;

pub use iter::lemma_bigram_count;
pub use iter::lemma_bigram_second_element;
pub use iter::lemma_empty_source_yields_no_windows;
pub use iter::lemma_middle_windows_overlap;
pub use iter::lemma_middle_windows_shape;
pub use iter::lemma_windows_count;
pub use iter::lemma_windows_overlap;
pub use iter::lemma_windows_shape;
pub use iter::middle_windows;
pub use iter::windows;
pub use iter::Iter;
pub use iter::NgramError;
pub use iterable::Iterable;
pub use iterable::WORD_JOINER;
pub use state::State;
