use vstd::prelude::*;

verus! {

/// The Unicode word-joiner code point: the bumper value for character and
/// text-slice windows.
pub const WORD_JOINER: char = '\u{2060}';

/// A type whose values can be windowed into n-grams.
///
/// An implementation names the type's bumper value: the padding placed
/// before the first item of the source and after the last one, whenever a
/// window runs past either end. The value is a property of the type alone,
/// never of an instance, and drawing it twice gives equal values.
pub trait Iterable: Sized {
    /// The bumper value, as a mathematical value.
    spec fn bumper() -> Self;

    /// Returns the bumper value: the first element of the first n-gram and
    /// the last element of the last n-gram.
    fn bumper_item() -> (r: Self)
        ensures
            r == Self::bumper(),
    ;
}

impl Iterable for char {
    open spec fn bumper() -> char {
        WORD_JOINER
    }

    fn bumper_item() -> (r: char) {
        WORD_JOINER
    }
}

impl<'a> Iterable for &'a str {
    open spec fn bumper() -> &'a str {
        "\u{2060}"
    }

    fn bumper_item() -> (r: &'a str) {
        "\u{2060}"
    }
}

impl<T> Iterable for Option<T> {
    open spec fn bumper() -> Option<T> {
        None
    }

    fn bumper_item() -> (r: Option<T>) {
        None
    }
}

} // verus!
