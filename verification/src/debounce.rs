//! Debouncing, key by key. Every key has a debouncer of `keyberon` of its own;
//! this module says what such a debouncer holds, what one sample does to it,
//! and which changes a whole sample of the matrix then reports.

use keyberon::debounce::Debouncer;
use vstd::prelude::*;
use crate::{Event, DEBOUNCE_SAMPLES, HALF_COLS, ROWS};

verus! {

/// One sample of the key matrix of one half: `true` where a key is down.
pub type Frame = [[bool; HALF_COLS]; ROWS];

/// The debouncer type of `keyberon`. Nothing inside it is visible here.
#[verifier::external_type_specification]
#[verifier::external_body]
#[verifier::reject_recursive_types(T)]
pub struct ExDebouncer<T>(Debouncer<T>);

/// The confirmed value that a debouncer holds (its field `cur`).
pub uninterp spec fn debouncer_cur(d: Debouncer<bool>) -> bool;

/// The value that a debouncer is waiting to confirm (its field `new`).
pub uninterp spec fn debouncer_pending(d: Debouncer<bool>) -> bool;

/// How many samples in a row have matched the pending one (its field `since`).
pub uninterp spec fn debouncer_since(d: Debouncer<bool>) -> nat;

/// The count that `since` has to pass before the pending value is confirmed
/// (its field `nb_bounce`).
pub uninterp spec fn debouncer_nb_bounce(d: Debouncer<bool>) -> nat;

/// A sample as rows of plain values.
pub open spec fn grid(frame: Frame) -> Seq<Seq<bool>> {
    Seq::new(ROWS as nat, |i: int| frame@[i]@)
}

/// What the debouncer of one key holds.
pub struct KeyState {
    /// The value last confirmed: whether the key counts as down.
    pub cur: bool,
    /// The value waiting to be confirmed.
    pub pending: bool,
    /// How many samples in a row have matched `pending`.
    pub since: nat,
    /// The count that `since` has to pass.
    pub nb_bounce: nat,
}

/// What `d` holds.
pub open spec fn state_of(d: Debouncer<bool>) -> KeyState {
    KeyState {
        cur: debouncer_cur(d),
        pending: debouncer_pending(d),
        since: debouncer_since(d),
        nb_bounce: debouncer_nb_bounce(d),
    }
}

impl KeyState {
    /// A key that is up, with nothing counted, whose change is confirmed at
    /// the last of `DEBOUNCE_SAMPLES` equal samples in a row.
    pub open spec fn fresh() -> KeyState {
        KeyState {
            cur: false,
            pending: false,
            since: 0,
            nb_bounce: (DEBOUNCE_SAMPLES - 1) as nat,
        }
    }

    /// The run of matching samples once `sample` has been counted in: none if
    /// `sample` is the confirmed value, one if it differs from the pending
    /// value, else one more than before.
    pub open spec fn run_with(self, sample: bool) -> nat {
        if self.cur == sample {
            0
        } else if self.pending != sample {
            1
        } else {
            self.since + 1
        }
    }

    /// Whether `sample` completes a long enough run, so that it becomes the
    /// confirmed value.
    pub open spec fn confirms(self, sample: bool) -> bool {
        self.cur != sample && self.run_with(sample) > self.nb_bounce
    }

    /// The state after `sample`. A sample equal to the confirmed value only
    /// clears the count. Any other sample becomes the pending value; when it
    /// confirms, confirmed and pending value change places and the count
    /// starts over.
    pub open spec fn step(self, sample: bool) -> KeyState {
        if self.cur == sample {
            KeyState { since: 0, ..self }
        } else if self.confirms(sample) {
            KeyState { cur: sample, pending: self.cur, since: 0, ..self }
        } else {
            KeyState { pending: sample, since: self.run_with(sample), ..self }
        }
    }

    /// The state after each of `samples` in turn.
    pub open spec fn run(self, samples: Seq<bool>) -> KeyState
        decreases samples.len(),
    {
        if samples.len() == 0 {
            self
        } else {
            self.run(samples.drop_last()).step(samples.last())
        }
    }
}

/// Calls `Debouncer::new` of `keyberon`. The source stores the three
/// arguments and sets the count to zero.
#[verifier::external_body]
pub(crate) fn debouncer_new(cur: bool, new: bool, nb_bounce: u16) -> (d: Debouncer<bool>)
    ensures
        debouncer_cur(d) == cur,
        debouncer_pending(d) == new,
        debouncer_since(d) == 0,
        debouncer_nb_bounce(d) == nb_bounce,
{
    Debouncer::new(cur, new, nb_bounce)
}

/// Calls `Debouncer::update` of `keyberon`. The source updates the debouncer
/// as `KeyState::step` says, adding one to a 16-bit count on the way, and
/// returns whether the sample was confirmed. With the count below its
/// largest value nothing in it can panic.
#[verifier::external_body]
pub(crate) fn debouncer_update(d: &mut Debouncer<bool>, sample: bool) -> (changed: bool)
    requires
        debouncer_since(*old(d)) < u16::MAX,
    ensures
        debouncer_cur(*final(d)) == state_of(*old(d)).step(sample).cur,
        debouncer_pending(*final(d)) == state_of(*old(d)).step(sample).pending,
        debouncer_since(*final(d)) == state_of(*old(d)).step(sample).since,
        debouncer_nb_bounce(*final(d)) == debouncer_nb_bounce(*old(d)),
        changed == state_of(*old(d)).confirms(sample),
    no_unwind
{
    d.update(sample)
}

/// The debouncer of one key.
pub struct KeyDebouncer {
    debouncer: Debouncer<bool>,
}

impl KeyDebouncer {
    #[verifier::type_invariant]
    spec fn count_in_range(&self) -> bool {
        state_of(self.debouncer).since <= state_of(self.debouncer).nb_bounce
            && state_of(self.debouncer).nb_bounce == DEBOUNCE_SAMPLES - 1
    }

    /// What the debouncer holds.
    pub closed spec fn view(&self) -> KeyState {
        state_of(self.debouncer)
    }

    /// The debouncer of a key that is up.
    pub fn new() -> (key: Self)
        ensures
            key@ == KeyState::fresh(),
    {
        KeyDebouncer { debouncer: debouncer_new(false, false, DEBOUNCE_SAMPLES - 1) }
    }

    /// Takes one sample of the key and says whether it confirms a change.
    pub fn update(&mut self, sample: bool) -> (changed: bool)
        ensures
            final(self)@ == old(self)@.step(sample),
            changed == old(self)@.confirms(sample),
    {
        proof {
            use_type_invariant(&*self);
        }
        debouncer_update(&mut self.debouncer, sample)
    }
}

/// The change that `sample` confirms for the key at `(i, j)`, if it confirms
/// one: a press if the key is down in the sample, else a release.
pub open spec fn key_change(key: KeyState, sample: bool, i: int, j: int) -> Option<Event> {
    if key.confirms(sample) {
        if sample {
            Some(Event::Press(i as u8, j as u8))
        } else {
            Some(Event::Release(i as u8, j as u8))
        }
    } else {
        None
    }
}

/// What the debouncers of one half hold, row by row.
pub struct DebounceState {
    /// The state of the key at `(i, j)` is `keys[i][j]`.
    pub keys: Seq<Seq<KeyState>>,
}

impl DebounceState {
    /// The state of a new half: every key fresh.
    pub open spec fn fresh() -> DebounceState {
        DebounceState {
            keys: Seq::new(
                ROWS as nat,
                |i: int| Seq::new(HALF_COLS as nat, |j: int| KeyState::fresh()),
            ),
        }
    }

    /// The state after the sample `frame`: every key has taken its own value
    /// in it, whatever the other keys did.
    pub open spec fn step(self, frame: Seq<Seq<bool>>) -> DebounceState {
        DebounceState {
            keys: Seq::new(
                ROWS as nat,
                |i: int| Seq::new(HALF_COLS as nat, |j: int| self.keys[i][j].step(frame[i][j])),
            ),
        }
    }

    /// The changes that `frame` confirms among the first `n` keys, counted
    /// row by row.
    pub open spec fn emitted_upto(self, frame: Seq<Seq<bool>>, n: nat) -> Seq<Event>
        decreases n,
    {
        if n == 0 {
            Seq::empty()
        } else {
            let k = (n - 1) as int;
            let i = k / (HALF_COLS as int);
            let j = k % (HALF_COLS as int);
            let before = self.emitted_upto(frame, (n - 1) as nat);
            match key_change(self.keys[i][j], frame[i][j], i, j) {
                Some(e) => before.push(e),
                None => before,
            }
        }
    }

    /// The key changes reported for `frame`: one for every key whose value in
    /// it completes a long enough run of its own, row by row and within a row
    /// from the first column to the last.
    pub open spec fn emitted(self, frame: Seq<Seq<bool>>) -> Seq<Event> {
        self.emitted_upto(frame, (ROWS * HALF_COLS) as nat)
    }

    /// The state after each of `frames` in turn.
    pub open spec fn run(self, frames: Seq<Seq<Seq<bool>>>) -> DebounceState
        decreases frames.len(),
    {
        if frames.len() == 0 {
            self
        } else {
            self.run(frames.drop_last()).step(frames.last())
        }
    }

    /// Whether `frame` makes the half report `e`: the key of `e` lies inside
    /// the matrix, its value in `frame` confirms, and `e` is a press exactly
    /// if the key is down in `frame`.
    pub open spec fn reports(self, frame: Seq<Seq<bool>>, e: Event) -> bool {
        let (i, j) = e.coord();
        i < ROWS && j < HALF_COLS && self.keys[i as int][j as int].confirms(
            frame[i as int][j as int],
        ) && (e is Press <==> frame[i as int][j as int])
    }
}

/// The values of the key at `(i, j)` in each of `frames`.
pub open spec fn samples_of(frames: Seq<Seq<Seq<bool>>>, i: int, j: int) -> Seq<bool> {
    Seq::new(frames.len(), |t: int| frames[t][i][j])
}

/// Whether both coordinates of `e` lie inside the matrix of one half.
pub open spec fn in_half(e: Event) -> bool {
    e.coord().0 < ROWS && e.coord().1 < HALF_COLS
}

/// Whether the last `n` of `samples` all equal `sample`.
pub open spec fn ends_with_run(samples: Seq<bool>, sample: bool, n: nat) -> bool {
    n <= samples.len() && forall|t: int| samples.len() - n <= t < samples.len() ==> samples[t] == sample
}

/// `n` samples in a row that all equal `sample`.
pub open spec fn repeated(sample: bool, n: nat) -> Seq<bool> {
    Seq::new(n, |t: int| sample)
}

/// Every change reported among the first `n` keys is one that `frame` makes
/// the half report, and every key among them whose value confirms is
/// reported.
pub proof fn lemma_emitted_upto(s: DebounceState, frame: Seq<Seq<bool>>, n: nat)
    requires
        n <= ROWS * HALF_COLS,
    ensures
        forall|q: int|
            0 <= q < s.emitted_upto(frame, n).len() ==> s.reports(
                frame,
                #[trigger] s.emitted_upto(frame, n)[q],
            ),
        forall|q: int|
            0 <= q < s.emitted_upto(frame, n).len() ==> (#[trigger] s.emitted_upto(
                frame,
                n,
            )[q]).coord().0 * HALF_COLS + s.emitted_upto(frame, n)[q].coord().1 < n,
        forall|i: int, j: int|
            0 <= i < ROWS && 0 <= j < HALF_COLS && i * HALF_COLS + j < n ==> #[trigger] key_change(
                s.keys[i][j],
                frame[i][j],
                i,
                j,
            ) is Some ==> s.emitted_upto(frame, n).contains(
                key_change(s.keys[i][j], frame[i][j], i, j)->0,
            ),
    decreases n,
{
    if n > 0 {
        lemma_emitted_upto(s, frame, (n - 1) as nat);
        let k = (n - 1) as int;
        let i = k / (HALF_COLS as int);
        let j = k % (HALF_COLS as int);
        assert(0 <= i < ROWS && 0 <= j < HALF_COLS && i * HALF_COLS + j == k);
        let before = s.emitted_upto(frame, (n - 1) as nat);
        let all = s.emitted_upto(frame, n);
        match key_change(s.keys[i][j], frame[i][j], i, j) {
            Some(e) => {
                assert(all == before.push(e));
                assert(e.coord() == (i as u8, j as u8));
                assert(s.reports(frame, e));
                assert forall|q: int| 0 <= q < all.len() implies s.reports(frame, #[trigger] all[q])
                    && all[q].coord().0 * HALF_COLS + all[q].coord().1 < n by {
                    if q < before.len() {
                        assert(all[q] == before[q]);
                    }
                }
                assert forall|a: int, b: int|
                    0 <= a < ROWS && 0 <= b < HALF_COLS && a * HALF_COLS + b < n && (
                    #[trigger] key_change(s.keys[a][b], frame[a][b], a, b)) is Some implies all.contains(
                    key_change(s.keys[a][b], frame[a][b], a, b)->0,
                ) by {
                    let c = key_change(s.keys[a][b], frame[a][b], a, b)->0;
                    if a * HALF_COLS + b < k {
                        let q = choose|q: int| 0 <= q < before.len() && before[q] == c;
                        assert(all[q] == c);
                    } else {
                        assert(a == i && b == j);
                        assert(all[before.len() as int] == c);
                    }
                }
            },
            None => {
                assert(all == before);
                assert forall|a: int, b: int|
                    0 <= a < ROWS && 0 <= b < HALF_COLS && a * HALF_COLS + b < n && (
                    #[trigger] key_change(s.keys[a][b], frame[a][b], a, b)) is Some implies all.contains(
                    key_change(s.keys[a][b], frame[a][b], a, b)->0,
                ) by {
                    if a * HALF_COLS + b >= k {
                        assert(a == i && b == j);
                    }
                }
            },
        }
    }
}

/// What a sample makes the half report is exactly the confirmed changes of
/// its keys: every reported change is one of a key inside the matrix whose
/// value confirms, and every key whose value confirms is reported.
pub proof fn lemma_emitted_is_the_confirmed_keys(s: DebounceState, frame: Seq<Seq<bool>>)
    ensures
        forall|e: Event| s.emitted(frame).contains(e) <==> s.reports(frame, e),
        forall|q: int| 0 <= q < s.emitted(frame).len() ==> in_half(#[trigger] s.emitted(frame)[q]),
{
    lemma_emitted_upto(s, frame, (ROWS * HALF_COLS) as nat);
    assert forall|e: Event| s.reports(frame, e) implies s.emitted(frame).contains(e) by {
        let (i, j) = e.coord();
        assert(key_change(s.keys[i as int][j as int], frame[i as int][j as int], i as int, j as int)
            == Some(e));
    }
}

/// The state of one key after a run of samples of the matrix is what the
/// key's own values in them make of it: no other key has a say.
pub proof fn lemma_run_by_key(start: DebounceState, frames: Seq<Seq<Seq<bool>>>, i: int, j: int)
    requires
        0 <= i < ROWS,
        0 <= j < HALF_COLS,
    ensures
        start.run(frames).keys[i][j] == start.keys[i][j].run(samples_of(frames, i, j)),
    decreases frames.len(),
{
    if frames.len() > 0 {
        lemma_run_by_key(start, frames.drop_last(), i, j);
        assert(samples_of(frames, i, j).drop_last() == samples_of(frames.drop_last(), i, j));
        assert(samples_of(frames, i, j).last() == frames.last()[i][j]);
    }
}

/// After any samples, the count of a key that started with none counted says
/// how many of the last samples equalled the pending value.
proof fn lemma_count_is_run(start: KeyState, samples: Seq<bool>)
    requires
        start.since == 0,
    ensures
        start.run(samples).nb_bounce == start.nb_bounce,
        ends_with_run(samples, start.run(samples).pending, start.run(samples).since),
    decreases samples.len(),
{
    if samples.len() > 0 {
        let earlier = samples.drop_last();
        lemma_count_is_run(start, earlier);
        let after = start.run(earlier).step(samples.last());
        assert forall|t: int| samples.len() - after.since <= t < samples.len() implies samples[t]
            == after.pending by {
            if t < earlier.len() {
                assert(samples[t] == earlier[t]);
            }
        }
    }
}

/// A key that starts with nothing counted is confirmed only by a sample that
/// ends a run of `nb_bounce + 1` equal samples of that key.
pub proof fn lemma_confirm_needs_stable_run(start: KeyState, samples: Seq<bool>)
    requires
        start.since == 0,
        samples.len() > 0,
        start.run(samples.drop_last()).confirms(samples.last()),
    ensures
        ends_with_run(samples, samples.last(), start.nb_bounce + 1),
{
    let earlier = samples.drop_last();
    lemma_count_is_run(start, earlier);
    assert forall|t: int| samples.len() - (start.nb_bounce + 1) <= t < samples.len() implies
        samples[t] == samples.last() by {
        if t < earlier.len() {
            assert(samples[t] == earlier[t]);
        }
    }
}

/// A value of a key that differs from the confirmed one and starts a new run
/// is confirmed by exactly `nb_bounce + 1` samples in a row: each of the
/// first `nb_bounce` is counted and confirms nothing, and the next one
/// confirms.
pub proof fn lemma_stable_run_confirms(s: KeyState, sample: bool, n: nat)
    requires
        s.cur != sample,
        s.pending != sample || s.since == 0,
        1 <= n <= s.nb_bounce + 1,
    ensures
        s.run(repeated(sample, (n - 1) as nat)).confirms(sample) <==> n == s.nb_bounce + 1,
        n <= s.nb_bounce ==> s.run(repeated(sample, n)) == (KeyState {
            pending: sample,
            since: n,
            ..s
        }),
        n == s.nb_bounce + 1 ==> s.run(repeated(sample, n)) == (KeyState {
            cur: sample,
            pending: s.cur,
            since: 0,
            ..s
        }),
    decreases n,
{
    let before = repeated(sample, (n - 1) as nat);
    let all = repeated(sample, n);
    assert(all.drop_last() == before);
    assert(all.last() == sample);
    if n == 1 {
        assert(s.run(before) == s);
    } else {
        lemma_stable_run_confirms(s, sample, (n - 1) as nat);
    }
}

/// A half whose keys start with nothing counted reports a change of a key
/// only for a sample that ends a run of `nb_bounce + 1` samples in which
/// that key had the same value: down for a press, up for a release. So a key
/// that flickers for fewer samples than that is never reported, and one
/// sample of the key that differs makes its run start over. What other keys
/// do in those samples does not matter.
pub proof fn lemma_events_need_stable_run(
    start: DebounceState,
    frames: Seq<Seq<Seq<bool>>>,
    e: Event,
)
    requires
        forall|i: int, j: int|
            0 <= i < ROWS && 0 <= j < HALF_COLS ==> (#[trigger] start.keys[i][j]).since == 0,
        frames.len() > 0,
        start.run(frames.drop_last()).emitted(frames.last()).contains(e),
    ensures
        in_half(e),
        ends_with_run(
            samples_of(frames, e.coord().0 as int, e.coord().1 as int),
            e is Press,
            start.keys[e.coord().0 as int][e.coord().1 as int].nb_bounce + 1,
        ),
{
    let i = e.coord().0 as int;
    let j = e.coord().1 as int;
    let s = start.run(frames.drop_last());
    lemma_emitted_is_the_confirmed_keys(s, frames.last());
    assert(s.reports(frames.last(), e));
    lemma_run_by_key(start, frames.drop_last(), i, j);
    let samples = samples_of(frames, i, j);
    assert(samples.drop_last() == samples_of(frames.drop_last(), i, j));
    assert(samples.last() == frames.last()[i][j]);
    lemma_confirm_needs_stable_run(start.keys[i][j], samples);
}

/// A key whose value has differed from its confirmed value for
/// `nb_bounce + 1` samples in a row, the run starting afresh, is reported at
/// the last of them and not before, and is confirmed with that value
/// afterwards, whatever the other keys did in those samples.
pub proof fn lemma_stable_key_is_reported(
    s: DebounceState,
    frames: Seq<Seq<Seq<bool>>>,
    i: int,
    j: int,
    sample: bool,
)
    requires
        0 <= i < ROWS,
        0 <= j < HALF_COLS,
        s.keys[i][j].cur != sample,
        s.keys[i][j].pending != sample || s.keys[i][j].since == 0,
        1 <= frames.len() <= s.keys[i][j].nb_bounce + 1,
        forall|t: int| 0 <= t < frames.len() ==> (#[trigger] frames[t])[i][j] == sample,
    ensures
        s.run(frames.drop_last()).emitted(frames.last()).contains(
            if sample {
                Event::Press(i as u8, j as u8)
            } else {
                Event::Release(i as u8, j as u8)
            },
        ) <==> frames.len() == s.keys[i][j].nb_bounce + 1,
        !s.run(frames.drop_last()).emitted(frames.last()).contains(
            if sample {
                Event::Release(i as u8, j as u8)
            } else {
                Event::Press(i as u8, j as u8)
            },
        ),
        s.run(frames).keys[i][j].cur == (if frames.len() == s.keys[i][j].nb_bounce + 1 {
            sample
        } else {
            !sample
        }),
{
    let n = frames.len();
    let before = s.run(frames.drop_last());
    lemma_run_by_key(s, frames.drop_last(), i, j);
    lemma_run_by_key(s, frames, i, j);
    assert(samples_of(frames.drop_last(), i, j) == repeated(sample, (n - 1) as nat));
    assert(samples_of(frames, i, j) == repeated(sample, n));
    lemma_stable_run_confirms(s.keys[i][j], sample, n);
    lemma_emitted_is_the_confirmed_keys(before, frames.last());
    let hit = if sample {
        Event::Press(i as u8, j as u8)
    } else {
        Event::Release(i as u8, j as u8)
    };
    let miss = if sample {
        Event::Release(i as u8, j as u8)
    } else {
        Event::Press(i as u8, j as u8)
    };
    assert(hit.coord() == (i as u8, j as u8) && miss.coord() == (i as u8, j as u8));
    assert(before.reports(frames.last(), hit) <==> n == s.keys[i][j].nb_bounce + 1);
    assert(!before.reports(frames.last(), miss));
}

} // verus!
