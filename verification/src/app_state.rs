//! The idle/reveal state machine: the overlay stays opaque black for a
//! grace period after the last matching trigger and turns fully
//! transparent once that period has passed without further triggers.
//!
//! Time is a monotonic clock reading in milliseconds, supplied by the
//! host once per frame; the machine itself never reads a clock.

use vstd::prelude::*;
use crate::trigger_set::TriggerSet;
use crate::norm::lower_seq;
use crate::compositor::fill_frame;
use crate::signal::signal_after_records;

verus! {

/// Fully opaque black: the overlay hides the screen.
pub open spec fn opaque_black() -> Seq<u8> {
    seq![0u8, 0u8, 0u8, 0xffu8]
}

/// Fully transparent: the screen is visible.
pub open spec fn transparent() -> Seq<u8> {
    seq![0u8, 0u8, 0u8, 0u8]
}

/// Whether the overlay is dark: the time elapsed since the last matching
/// trigger has not yet passed the blackout duration. The boundary is
/// kept consistently: elapsed equal to the duration is still dark, and
/// the overlay clears strictly after it.
pub open spec fn is_dark(last_input: u64, dark_duration: u64, now: u64) -> bool {
    now - last_input <= dark_duration
}

/// The frame fill color decided for one render tick.
pub open spec fn overlay_rgba(last_input: u64, dark_duration: u64, now: u64) -> Seq<u8> {
    if is_dark(last_input, dark_duration, now) {
        opaque_black()
    } else {
        transparent()
    }
}

/// The clock after one update: it advances to `now` exactly when a
/// matching trigger was observed, and stands still otherwise.
pub open spec fn next_last_input(last_input: u64, matched: bool, now: u64) -> u64 {
    if matched {
        now
    } else {
        last_input
    }
}

/// The state of the overlay, as contracts see it.
pub struct AppStateView {
    /// Clock reading at the last matching trigger, in milliseconds.
    pub last_input: u64,
    /// The configured blackout duration, in milliseconds.
    pub dark_duration: u64,
    /// The configured triggers, as normalized identifiers.
    pub triggers: Set<Seq<char>>,
    /// Whether observed event labels are logged by the host.
    pub debugging: bool,
}

/// The idle/reveal timer and policy: the time of the last matching
/// trigger, the blackout duration, and the configured trigger set.
pub struct AppState {
    last_input: u64,
    dark_duration: u64,
    triggers: TriggerSet,
    debugging: bool,
}

impl View for AppState {
    type V = AppStateView;

    closed spec fn view(&self) -> AppStateView {
        AppStateView {
            last_input: self.last_input,
            dark_duration: self.dark_duration,
            triggers: self.triggers@,
            debugging: self.debugging,
        }
    }
}

impl AppState {
    /// A fresh state: the construction instant counts as the last input,
    /// so the overlay starts dark for one blackout duration.
    pub fn new(triggers: TriggerSet, duration_millis: u64, debugging: bool, now: u64) -> (r:
        AppState)
        ensures
            r@.last_input == now,
            r@.dark_duration == duration_millis,
            r@.triggers == triggers@,
            r@.debugging == debugging,
    {
        AppState { last_input: now, dark_duration: duration_millis, triggers, debugging }
    }

    /// Consume one drained event label: the clock advances to `now`
    /// exactly when the label, matched case-insensitively, is a
    /// configured trigger; unmatched labels never advance it. The clock
    /// never moves backward.
    pub fn update(&mut self, s: &str, now: u64)
        requires
            old(self)@.last_input <= now,
        ensures
            final(self)@.last_input == next_last_input(
                old(self)@.last_input,
                old(self)@.triggers.contains(lower_seq(s@)),
                now,
            ),
            old(self)@.last_input <= final(self)@.last_input,
            final(self)@.dark_duration == old(self)@.dark_duration,
            final(self)@.triggers == old(self)@.triggers,
            final(self)@.debugging == old(self)@.debugging,
    {
        if self.triggers.contains(s) {
            self.last_input = now;
        }
    }

    /// Consume the drained aggregated-boolean signal: any activity since
    /// the last drain advances the clock to `now`, exactly once.
    pub fn update_signal(&mut self, fired: bool, now: u64)
        requires
            old(self)@.last_input <= now,
        ensures
            final(self)@.last_input == next_last_input(old(self)@.last_input, fired, now),
            old(self)@.last_input <= final(self)@.last_input,
            final(self)@.dark_duration == old(self)@.dark_duration,
            final(self)@.triggers == old(self)@.triggers,
            final(self)@.debugging == old(self)@.debugging,
    {
        if fired {
            self.last_input = now;
        }
    }

    /// The fill color for this render tick: opaque black if and only if
    /// the elapsed time is at most the blackout duration, and fully
    /// transparent if and only if it is strictly greater.
    pub fn render_color(&self, now: u64) -> (rgba: [u8; 4])
        requires
            self@.last_input <= now,
        ensures
            rgba@ == overlay_rgba(self@.last_input, self@.dark_duration, now),
            (rgba@ == opaque_black()) <==> (now - self@.last_input <= self@.dark_duration),
            (rgba@ == transparent()) <==> (now - self@.last_input > self@.dark_duration),
    {
        let rgba: [u8; 4] = if now - self.last_input > self.dark_duration {
            [0u8, 0u8, 0u8, 0u8]
        } else {
            [0u8, 0u8, 0u8, 0xffu8]
        };
        proof {
            assert(rgba@ =~= overlay_rgba(self@.last_input, self@.dark_duration, now));
            assert(opaque_black()[3] != transparent()[3]);
        }
        rgba
    }

    /// Render one frame: fill every whole pixel with this tick's color.
    /// Trailing bytes that do not form a whole pixel are left unchanged.
    pub fn draw(&self, frame: &mut Vec<u8>, now: u64)
        requires
            self@.last_input <= now,
        ensures
            final(frame)@.len() == old(frame)@.len(),
            forall|i: int|
                0 <= i < final(frame)@.len() ==> final(frame)@[i] == (if i < 4 * (
                old(frame)@.len() as int / 4) {
                    overlay_rgba(self@.last_input, self@.dark_duration, now)[i % 4]
                } else {
                    old(frame)@[i]
                }),
    {
        let rgba = self.render_color(now);
        fill_frame(frame, rgba);
    }

    /// The clock reading at the last matching trigger.
    pub fn last_input(&self) -> (r: u64)
        ensures
            r == self@.last_input,
    {
        self.last_input
    }

    /// The configured blackout duration, in milliseconds.
    pub fn dark_duration(&self) -> (r: u64)
        ensures
            r == self@.dark_duration,
    {
        self.dark_duration
    }

    /// Whether the host should log observed event labels.
    pub fn is_debugging(&self) -> (r: bool)
        ensures
            r == self@.debugging,
    {
        self.debugging
    }
}

/// The polarity rule, stated on its own: for elapsed time `e` and
/// duration `d`, the overlay is opaque black exactly when `e <= d` and
/// fully transparent exactly when `e > d`.
pub proof fn lemma_polarity(last_input: u64, dark_duration: u64, now: u64)
    requires
        last_input <= now,
    ensures
        (overlay_rgba(last_input, dark_duration, now) == opaque_black()) <==> (now - last_input
            <= dark_duration),
        (overlay_rgba(last_input, dark_duration, now) == transparent()) <==> (now - last_input
            > dark_duration),
{
    assert(opaque_black()[3] != transparent()[3]);
}

/// The clock after a whole sequence of updates; each event is the pair
/// of "a matching trigger was observed" and the clock reading then.
pub open spec fn last_input_after(last0: u64, events: Seq<(bool, u64)>) -> u64
    decreases events.len(),
{
    if events.len() == 0 {
        last0
    } else {
        last_input_after(
            next_last_input(last0, events[0].0, events[0].1),
            events.drop_first(),
        )
    }
}

/// Unfolding one step of `last_input_after` over a prefix.
proof fn lemma_last_input_after_step(last0: u64, events: Seq<(bool, u64)>, k: int)
    requires
        1 <= k <= events.len(),
    ensures
        last_input_after(last0, events.take(k)) == last_input_after(
            next_last_input(last0, events[0].0, events[0].1),
            events.drop_first().take(k - 1),
        ),
{
    assert(events.take(k)[0] == events[0]);
    assert(events.take(k).drop_first() =~= events.drop_first().take(k - 1));
}

/// Monotonic clock: over any sequence of updates driven by a monotonic
/// clock, `last_input` never moves backward — neither over the whole
/// sequence nor at any single step.
pub proof fn lemma_clock_monotonic(last0: u64, events: Seq<(bool, u64)>)
    requires
        forall|i: int| 0 <= i < events.len() ==> last0 <= #[trigger] events[i].1,
        forall|i: int, j: int| 0 <= i < j < events.len() ==> events[i].1 <= events[j].1,
    ensures
        last0 <= last_input_after(last0, events),
        forall|k: int|
            0 <= k < events.len() ==> last_input_after(last0, events.take(k))
                <= #[trigger] last_input_after(last0, events.take(k + 1)),
    decreases events.len(),
{
    if events.len() > 0 {
        let l1 = next_last_input(last0, events[0].0, events[0].1);
        let rest = events.drop_first();
        assert(forall|i: int| 0 <= i < rest.len() ==> l1 <= #[trigger] rest[i].1);
        assert(forall|i: int, j: int| 0 <= i < j < rest.len() ==> rest[i].1 <= rest[j].1);
        lemma_clock_monotonic(l1, rest);
        assert(last_input_after(last0, events) == last_input_after(l1, rest));
        assert forall|k: int|
            0 <= k < events.len() implies last_input_after(last0, events.take(k))
            <= #[trigger] last_input_after(last0, events.take(k + 1)) by {
            if k == 0 {
                assert(events.take(0) =~= Seq::<(bool, u64)>::empty());
                lemma_last_input_after_step(last0, events, 1);
                assert(rest.take(0) =~= Seq::<(bool, u64)>::empty());
            } else {
                lemma_last_input_after_step(last0, events, k);
                lemma_last_input_after_step(last0, events, k + 1);
                assert(last_input_after(l1, rest.take(k - 1)) <= last_input_after(
                    l1,
                    rest.take((k - 1) + 1),
                ));
                assert(rest.take((k - 1) + 1) == rest.take(k));
            }
        }
    }
}

/// Debounce: `n >= 1` trigger events delivered within a single frame
/// interval produce exactly one clock advance. The drain that observes
/// the coalesced signal moves the clock to `now` once; the drain reset
/// the signal, so the next frame, seeing no new activity, leaves the
/// clock where it is.
pub proof fn lemma_debounce(n: nat, last: u64, now: u64, later: u64)
    requires
        n >= 1,
    ensures
        next_last_input(last, signal_after_records(false, n), now) == now,
        next_last_input(now, false, later) == now,
{
    crate::signal::lemma_signal_coalesces(false, n);
}

} // verus!
