use vstd::prelude::*;

use crate::iterable::Iterable;
use crate::state::State;

verus! {

/// The windows still owed by a generator whose next window opens with
/// `carried`, when `src` holds the unconsumed items and `sent` is the
/// bumper value.
///
/// Each window takes up to `n - 1` items after its opening element; when
/// the source runs out mid-window, the unfilled slots are padded with the
/// bumper value and that window is the last one.
pub open spec fn middle_windows<T>(n: int, carried: T, src: Seq<T>, sent: T) -> Seq<Seq<T>>
    recommends
        n >= 2,
    decreases src.len(),
        when n >= 2
{
    if src.len() < n - 1 {
        seq![seq![carried] + src + Seq::new((n - 1 - src.len()) as nat, |j: int| sent)]
    } else {
        seq![seq![carried] + src.take(n - 1)]
            + middle_windows(n, src[n - 2], src.skip(n - 1), sent)
    }
}

/// All windows of width `n` over the source `src`, padded with `sent`.
///
/// An empty source yields no windows at all; otherwise the first window
/// opens with the bumper value itself.
pub open spec fn windows<T>(n: int, src: Seq<T>, sent: T) -> Seq<Seq<T>>
    recommends
        n >= 2,
{
    if src.len() == 0 {
        Seq::empty()
    } else {
        middle_windows(n, sent, src, sent)
    }
}

/// From the in-progress state at least one window is still owed; every
/// owed window has exactly `n` slots; and the next window opens with the
/// carried item.
pub proof fn lemma_middle_windows_shape<T>(n: int, carried: T, src: Seq<T>, sent: T)
    requires
        n >= 2,
    ensures
        middle_windows(n, carried, src, sent).len() >= 1,
        forall|k: int| 0 <= k < middle_windows(n, carried, src, sent).len()
            ==> (#[trigger] middle_windows(n, carried, src, sent)[k]).len() == n,
        middle_windows(n, carried, src, sent)[0][0] == carried,
    decreases src.len(),
{
    if src.len() >= n - 1 {
        lemma_middle_windows_shape(n, src[n - 2], src.skip(n - 1), sent);
    }
}

/// Consecutive owed windows overlap in exactly one item: the last element
/// of each window returns as the first element of the window after it.
pub proof fn lemma_middle_windows_overlap<T>(n: int, carried: T, src: Seq<T>, sent: T)
    requires
        n >= 2,
    ensures
        forall|k: int| 0 <= k && k + 1 < middle_windows(n, carried, src, sent).len()
            ==> (#[trigger] middle_windows(n, carried, src, sent)[k])[n - 1]
                == middle_windows(n, carried, src, sent)[k + 1][0],
    decreases src.len(),
{
    let mw = middle_windows(n, carried, src, sent);
    if src.len() >= n - 1 {
        let rest = middle_windows(n, src[n - 2], src.skip(n - 1), sent);
        lemma_middle_windows_overlap(n, src[n - 2], src.skip(n - 1), sent);
        lemma_middle_windows_shape(n, src[n - 2], src.skip(n - 1), sent);
        assert(mw[0][n - 1] == src[n - 2]);
        assert(forall|k: int| 0 <= k && k + 1 < mw.len() ==> (#[trigger] mw[k])[n - 1]
            == mw[k + 1][0]) by {
            assert forall|k: int| 0 <= k && k + 1 < mw.len() implies (#[trigger] mw[k])[n - 1]
                == mw[k + 1][0] by {
                if k == 0 {
                    assert(mw[1] == rest[0]);
                } else {
                    assert(mw[k] == rest[k - 1]);
                    assert(mw[k + 1] == rest[k]);
                }
            }
        }
    }
}

/// For every width of 2 or more, an empty source yields no windows at all.
pub proof fn lemma_empty_source_yields_no_windows<T>(n: int, sent: T)
    ensures
        windows(n, Seq::<T>::empty(), sent).len() == 0,
{
}

/// Every window over a source has exactly `n` slots, and a nonempty
/// source yields at least one window.
pub proof fn lemma_windows_shape<T>(n: int, src: Seq<T>, sent: T)
    requires
        n >= 2,
    ensures
        src.len() > 0 ==> windows(n, src, sent).len() >= 1,
        forall|k: int| 0 <= k < windows(n, src, sent).len()
            ==> (#[trigger] windows(n, src, sent)[k]).len() == n,
        src.len() > 0 ==> windows(n, src, sent)[0][0] == sent,
{
    if src.len() > 0 {
        lemma_middle_windows_shape(n, sent, src, sent);
    }
}

/// The overlap invariant: wherever windows `k` and `k + 1` both exist,
/// the last element of window `k` equals the first element of window
/// `k + 1`, whatever the width and the source.
pub proof fn lemma_windows_overlap<T>(n: int, src: Seq<T>, sent: T)
    requires
        n >= 2,
    ensures
        forall|k: int| 0 <= k && k + 1 < windows(n, src, sent).len()
            ==> (#[trigger] windows(n, src, sent)[k])[n - 1] == windows(n, src, sent)[k + 1][0],
{
    if src.len() > 0 {
        lemma_middle_windows_overlap(n, sent, src, sent);
    }
}

/// With width 2 the second element of a window is its last, so the second
/// element of window `k` equals the first element of window `k + 1`.
pub proof fn lemma_bigram_second_element<T>(src: Seq<T>, sent: T)
    ensures
        forall|k: int| 0 <= k && k + 1 < windows(2, src, sent).len()
            ==> (#[trigger] windows(2, src, sent)[k])[1] == windows(2, src, sent)[k + 1][0],
{
    lemma_windows_overlap(2, src, sent);
}

/// A nonempty source of `m` items yields exactly `m / (n - 1) + 1`
/// windows of width `n`. Two source lengths with one quotient by `n - 1`
/// yield equally many windows and differ only in how much bumper padding
/// closes the last one.
pub proof fn lemma_windows_count<T>(n: int, src: Seq<T>, sent: T)
    requires
        n >= 2,
        src.len() > 0,
    ensures
        windows(n, src, sent).len() == src.len() as int / (n - 1) + 1,
{
    lemma_middle_windows_count(n, sent, src, sent);
}

proof fn lemma_middle_windows_count<T>(n: int, carried: T, src: Seq<T>, sent: T)
    requires
        n >= 2,
    ensures
        middle_windows(n, carried, src, sent).len() == src.len() as int / (n - 1) + 1,
    decreases src.len(),
{
    let d = n - 1;
    if src.len() < d {
        vstd::arithmetic::div_mod::lemma_basic_div(src.len() as int, d);
    } else {
        lemma_middle_windows_count(n, src[n - 2], src.skip(d), sent);
        vstd::arithmetic::div_mod::lemma_div_plus_one(src.len() as int - d, d);
    }
}

/// A nonempty source of `m` items yields exactly `m + 1` windows of
/// width 2.
pub proof fn lemma_bigram_count<T>(src: Seq<T>, sent: T)
    ensures
        src.len() > 0 ==> windows(2, src, sent).len() == src.len() + 1,
{
    if src.len() > 0 {
        lemma_bigram_middle_count(sent, src, sent);
    }
}

proof fn lemma_bigram_middle_count<T>(carried: T, src: Seq<T>, sent: T)
    ensures
        middle_windows(2, carried, src, sent).len() == src.len() + 1,
    decreases src.len(),
{
    if src.len() >= 1 {
        lemma_bigram_middle_count(src[0], src.skip(1), sent);
    }
}

/// The one way a generator can fail: asking a generator of width below 2
/// for a window.
#[derive(Clone, Copy, Debug, PartialEq, Eq, Structural)]
pub enum NgramError {
    /// The width `N` of the generator is below 2. Detected on the first
    /// request for a window, never at construction, and reported again on
    /// every further request.
    WidthTooSmall,
}

/// A generator of n-grams: fixed-width, overlapping windows over a finite
/// source of `Copy` items, padded at both ends with the type's bumper value.
///
/// `N` must be at least 2; this is not checked at construction, and the
/// first request for a window from a narrower generator fails with
/// [`NgramError::WidthTooSmall`].
///
/// One generator owns its source exclusively and walks it strictly
/// forward, buffering at most one item (the carried item) between calls.
pub struct Iter<T, const N: usize> where T: Copy + Iterable {
    /// The source sequence, never mutated.
    pub items: Vec<T>,
    /// The cursor: how many items have been drawn from the source.
    pub pos: usize,
    /// The state machine deciding what the next call produces.
    pub state: State<T>,
}

impl<T, const N: usize> Iter<T, N> where T: Copy + Iterable {
    /// The items not yet drawn from the source.
    pub open spec fn remaining(self) -> Seq<T> {
        self.items@.skip(self.pos as int)
    }

    /// The cursor never runs past the end of the source.
    pub open spec fn wf(self) -> bool {
        self.pos <= self.items@.len()
    }

    /// The windows this generator has yet to produce.
    pub open spec fn pending(self) -> Seq<Seq<T>> {
        match self.state {
            State::Start => windows(N as int, self.remaining(), T::bumper()),
            State::Middle(c) => middle_windows(N as int, c, self.remaining(), T::bumper()),
            State::End => Seq::empty(),
        }
    }
}

impl<T, const N: usize> Iter<T, N> where T: Copy + Iterable {
    /// Produces the next window, or `Ok(None)` once the source is spent.
    ///
    /// The first window opens with the bumper value; every later one opens
    /// with the item that closed the window before it; a window that runs
    /// past the end of the source is padded with the bumper value and is
    /// the last. Fails, with nothing consumed, if and only if `N < 2`.
    pub fn next(&mut self) -> (r: Result<Option<Vec<T>>, NgramError>)
        requires
            old(self).wf(),
        ensures
            final(self).wf(),
            N < 2 ==> r == Result::<Option<Vec<T>>, NgramError>::Err(NgramError::WidthTooSmall)
                && *final(self) == *old(self),
            N >= 2 ==> match r {
                Result::Ok(Option::Some(w)) => old(self).pending().len() > 0
                    && w@ == old(self).pending()[0]
                    && final(self).pending() == old(self).pending().skip(1),
                Result::Ok(Option::None) => old(self).pending().len() == 0
                    && final(self).pending() == Seq::<Seq<T>>::empty(),
                Result::Err(_) => false,
            },
    {
        if N < 2 {
            return Err(NgramError::WidthTooSmall);
        }
        let carried: T = match self.state {
            State::End => {
                return Ok(None);
            }
            State::Start => {
                if self.pos >= self.items.len() {
                    // An empty source produces no windows at all, not one
                    // window of bumper values.
                    self.state = State::End;
                    return Ok(None);
                }
                T::bumper_item()
            }
            State::Middle(c) => c,
        };
        self.state = State::Middle(carried);
        let ghost sent: T = T::bumper();
        let ghost src0: Seq<T> = self.remaining();
        let ghost p0: int = self.pos as int;
        let ghost pend0: Seq<Seq<T>> = old(self).pending();
        assert(pend0 == middle_windows(N as int, carried, src0, sent));
        let mut out: Vec<T> = Vec::new();
        out.push(carried);
        let mut i: usize = 1;
        while i < N && self.pos < self.items.len()
            invariant
                2 <= N,
                1 <= i <= N,
                out@.len() == i as int,
                self.items@ == old(self).items@,
                0 <= p0 <= self.items@.len(),
                self.pos as int == p0 + i - 1,
                self.pos as int <= self.items@.len(),
                src0 == self.items@.skip(p0),
                out@ == seq![carried] + src0.take(i - 1),
                self.state == State::Middle(out@[i as int - 1]),
            decreases N - i,
        {
            let x = self.items[self.pos];
            self.pos = self.pos + 1;
            out.push(x);
            self.state = State::Middle(x);
            i = i + 1;
            proof {
                assert(x == src0[i as int - 2]);
                assert(src0.take(i as int - 1) =~= src0.take(i as int - 2).push(x));
                assert(out@ =~= seq![carried] + src0.take(i as int - 1));
            }
        }
        if i < N {
            // The source ran out mid-window: the remaining slots are all
            // bumper values, and this window is the last.
            proof {
                assert(self.pos as int == self.items@.len());
                assert(src0.len() == i - 1);
                assert(src0.take(i as int - 1) =~= src0);
            }
            self.state = State::End;
            while i < N
                invariant
                    2 <= N,
                    1 <= i <= N,
                    out@.len() == i as int,
                    self.items@ == old(self).items@,
                    0 <= p0 <= self.items@.len(),
                    self.pos as int == self.items@.len(),
                    src0 == self.items@.skip(p0),
                    sent == T::bumper(),
                    src0.len() < N - 1,
                    src0.len() <= i - 1,
                    self.state == State::<T>::End,
                    out@ == seq![carried] + src0 + Seq::new((i - 1 - src0.len()) as nat, |j: int| sent),
                decreases N - i,
            {
                out.push(T::bumper_item());
                i = i + 1;
                proof {
                    assert(out@ =~= seq![carried] + src0
                        + Seq::new((i - 1 - src0.len()) as nat, |j: int| sent));
                }
            }
            proof {
                assert(pend0 =~= seq![out@]);
                assert(pend0.skip(1) =~= Seq::<Seq<T>>::empty());
            }
        } else {
            proof {
                assert(src0.len() >= N - 1);
                assert(out@ == seq![carried] + src0.take(N as int - 1));
                assert(out@[N as int - 1] == src0[N as int - 2]);
                assert(self.remaining() =~= src0.skip(N as int - 1));
                assert(pend0 == seq![out@]
                    + middle_windows(N as int, src0[N as int - 2], src0.skip(N as int - 1), sent));
                assert(pend0.skip(1) =~= middle_windows(
                    N as int,
                    src0[N as int - 2],
                    src0.skip(N as int - 1),
                    sent,
                ));
            }
        }
        proof {
            assert(pend0.len() > 0);
            assert(out@ == pend0[0]);
        }
        Ok(Some(out))
    }
}

impl<T, const N: usize> From<Vec<T>> for Iter<T, N> where T: Copy + Iterable {
    fn from(items: Vec<T>) -> (r: Self) {
        Iter { items, pos: 0, state: State::Start }
    }
}

impl<T, const N: usize> vstd::std_specs::convert::FromSpecImpl<Vec<T>> for Iter<T, N> where T: Copy + Iterable {
    open spec fn obeys_from_spec() -> bool {
        true
    }

    open spec fn from_spec(items: Vec<T>) -> Self {
        Iter { items, pos: 0, state: State::Start }
    }
}

} // verus!
