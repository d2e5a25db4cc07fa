use vstd::prelude::*;

verus! {

/// How far a windowing generator has come through its source.
///
/// `Middle` carries the one item that is buffered between calls: the item
/// that must open the next window, producing the one-element overlap
/// between consecutive windows. `End` is terminal; nothing leaves it.
#[derive(Clone, Copy)]
pub enum State<T> {
    /// No item has been drawn from the source yet.
    Start,
    /// The carried item: trailing element of the window just produced and
    /// leading element of the window to come.
    Middle(T),
    /// The source is exhausted and the last window has been produced.
    End,
}

impl<T> From<T> for State<T> {
    fn from(it: T) -> (r: Self) {
        State::Middle(it)
    }
}

impl<T> vstd::std_specs::convert::FromSpecImpl<T> for State<T> {
    open spec fn obeys_from_spec() -> bool {
        true
    }

    open spec fn from_spec(it: T) -> Self {
        State::Middle(it)
    }
}

} // verus!
