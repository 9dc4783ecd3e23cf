//! Taps and double taps of the Fn key, out of the events that report modifier keys.

use vstd::prelude::*;

verus! {

/// A detected tap of the Fn key. A double tap is reported on the second of two quick taps; the
/// first of them was reported as a single one.
#[derive(Clone, Copy, Debug, PartialEq, Eq, Structural)]
pub enum FnTap {
    Single,
    Double,
}

/// The key code of the Fn key.
pub const FN_KEYCODE: u16 = 63;

/// The modifier flag that is set while the Fn key is down.
pub const FN_FLAG: u64 = 0x80_0000;

/// How far apart, in nanoseconds, the two taps of a double tap may be.
pub const DOUBLE_TAP_WINDOW: u128 = 500_000_000;

/// A report that modifier keys changed, with the time in nanoseconds.
#[derive(Clone, Copy, Debug, PartialEq, Eq, Structural)]
pub struct KeyEvent {
    pub key_code: u16,
    pub modifier_flags: u64,
    pub now: u128,
}

/// What is remembered between two reports.
#[derive(Clone, Copy, Debug, PartialEq, Eq, Structural)]
pub struct FnTapDetector {
    pub last_press: Option<u128>,
    pub previous_fn_down: bool,
}

/// Whether an event reports the Fn key as down.
pub open spec fn is_fn_down(event: KeyEvent) -> bool {
    event.modifier_flags & FN_FLAG == FN_FLAG
}

/// Whether an event is a press of the Fn key, which was up before.
pub open spec fn is_press(detector: FnTapDetector, event: KeyEvent) -> bool {
    event.key_code == FN_KEYCODE && is_fn_down(event) && !detector.previous_fn_down
}

/// Whether a press comes quickly behind the one that is remembered.
pub open spec fn is_quick(detector: FnTapDetector, event: KeyEvent) -> bool {
    detector.last_press matches Some(last) && event.now - last <= DOUBLE_TAP_WINDOW
}

/// The tap that an event completes.
pub open spec fn tap_of(detector: FnTapDetector, event: KeyEvent) -> Option<FnTap> {
    if !is_press(detector, event) {
        None
    } else if is_quick(detector, event) {
        Some(FnTap::Double)
    } else {
        Some(FnTap::Single)
    }
}

/// What is remembered once an event was seen.
pub open spec fn after_event(detector: FnTapDetector, event: KeyEvent) -> FnTapDetector {
    if event.key_code != FN_KEYCODE {
        detector
    } else {
        FnTapDetector {
            last_press: match tap_of(detector, event) {
                None => detector.last_press,
                Some(FnTap::Single) => Some(event.now),
                Some(FnTap::Double) => None,
            },
            previous_fn_down: is_fn_down(event),
        }
    }
}

/// What is remembered before anything was seen.
pub open spec fn fresh() -> FnTapDetector {
    FnTapDetector { last_press: None, previous_fn_down: false }
}

/// What is remembered after the given events.
pub open spec fn after_events(events: Seq<KeyEvent>) -> FnTapDetector
    decreases events.len(),
{
    if events.len() == 0 {
        fresh()
    } else {
        after_event(after_events(events.drop_last()), events.last())
    }
}

/// The taps that the given events complete.
pub open spec fn taps_of(events: Seq<KeyEvent>) -> Seq<FnTap>
    decreases events.len(),
{
    if events.len() == 0 {
        Seq::empty()
    } else {
        let earlier = taps_of(events.drop_last());
        match tap_of(after_events(events.drop_last()), events.last()) {
            Some(tap) => earlier.push(tap),
            None => earlier,
        }
    }
}

proof fn lemma_remembered_press_was_single(events: Seq<KeyEvent>)
    ensures
        after_events(events).last_press is Some ==> taps_of(events).len() > 0 && taps_of(
            events,
        ).last() == FnTap::Single,
        forall|i: int|
            0 <= i < taps_of(events).len() && #[trigger] taps_of(events)[i] == FnTap::Double ==> i > 0
                && taps_of(events)[i - 1] == FnTap::Single,
    decreases events.len(),
{
    if events.len() > 0 {
        lemma_remembered_press_was_single(events.drop_last());
    }
}

/// Whatever events come, a double tap is reported right behind a single one, which was its
/// first tap; so three quick taps are a single, a double and a single one.
pub proof fn lemma_double_follows_single(events: Seq<KeyEvent>, i: int)
    requires
        0 <= i < taps_of(events).len(),
        taps_of(events)[i] == FnTap::Double,
    ensures
        i > 0,
        taps_of(events)[i - 1] == FnTap::Single,
{
    lemma_remembered_press_was_single(events);
}

/// Two presses, with the key released between them, are a double tap where they are quick and
/// two single taps where they are not.
pub proof fn lemma_two_presses(detector: FnTapDetector, a: KeyEvent, up: KeyEvent, b: KeyEvent)
    requires
        detector.last_press is None,
        is_press(detector, a),
        up.key_code == FN_KEYCODE,
        !is_fn_down(up),
        b.key_code == FN_KEYCODE,
        is_fn_down(b),
    ensures
        tap_of(detector, a) == Some(FnTap::Single),
        tap_of(after_event(detector, a), up) is None,
        tap_of(after_event(after_event(detector, a), up), b) == Some(
            if b.now - a.now <= DOUBLE_TAP_WINDOW {
                FnTap::Double
            } else {
                FnTap::Single
            },
        ),
{
}

/// The keys other than Fn change nothing, and neither does the Fn key while it is held.
pub proof fn lemma_no_tap_without_press(detector: FnTapDetector, event: KeyEvent)
    requires
        event.key_code != FN_KEYCODE || detector.previous_fn_down == is_fn_down(event),
    ensures
        tap_of(detector, event) is None,
        after_event(detector, event) == detector,
{
}

/// What is remembered once further events were seen.
pub open spec fn after_more(detector: FnTapDetector, events: Seq<KeyEvent>) -> FnTapDetector
    decreases events.len(),
{
    if events.len() == 0 {
        detector
    } else {
        after_event(after_more(detector, events.drop_last()), events.last())
    }
}

/// Whether further events complete no tap.
pub open spec fn are_quiet(detector: FnTapDetector, events: Seq<KeyEvent>) -> bool {
    forall|i: int|
        0 <= i < events.len() ==> tap_of(after_more(detector, events.take(i)), #[trigger] events[i])
            is None
}

proof fn lemma_quiet_events_keep_the_press(detector: FnTapDetector, events: Seq<KeyEvent>)
    requires
        are_quiet(detector, events),
    ensures
        after_more(detector, events).last_press == detector.last_press,
    decreases events.len(),
{
    if events.len() > 0 {
        let earlier = events.drop_last();
        assert forall|i: int| 0 <= i < earlier.len() implies tap_of(
            after_more(detector, earlier.take(i)),
            #[trigger] earlier[i],
        ) is None by {
            assert(earlier.take(i) =~= events.take(i));
            assert(events[i] == earlier[i]);
        }
        lemma_quiet_events_keep_the_press(detector, earlier);
        assert(events.take(events.len() - 1) =~= earlier);
        assert(tap_of(after_more(detector, earlier), events[events.len() - 1]) is None);
    }
}

/// Whatever a detector remembers, and whatever happens between two taps: behind a single tap at
/// one time, the next tap is a double one exactly where it comes at most the window later;
/// behind a double tap, the next one is single.
pub proof fn lemma_next_tap_depends_on_the_last(
    detector: FnTapDetector,
    a: KeyEvent,
    between: Seq<KeyEvent>,
    b: KeyEvent,
)
    requires
        tap_of(detector, a) is Some,
        are_quiet(after_event(detector, a), between),
        tap_of(after_more(after_event(detector, a), between), b) is Some,
    ensures
        tap_of(after_more(after_event(detector, a), between), b) == Some(
            if tap_of(detector, a) == Some(FnTap::Single) && b.now - a.now <= DOUBLE_TAP_WINDOW {
                FnTap::Double
            } else {
                FnTap::Single
            },
        ),
{
    lemma_quiet_events_keep_the_press(after_event(detector, a), between);
}

/// Whether the last of the given events that reports the Fn key reports it as down.
pub open spec fn is_held_after(events: Seq<KeyEvent>) -> bool
    decreases events.len(),
{
    if events.len() == 0 {
        false
    } else if events.last().key_code == FN_KEYCODE {
        events.last().modifier_flags & FN_FLAG == FN_FLAG
    } else {
        is_held_after(events.drop_last())
    }
}

/// A tap is reported exactly for the Fn key going down, whatever came before; the first one is a
/// single tap.
pub proof fn lemma_every_press_is_a_tap(events: Seq<KeyEvent>, event: KeyEvent)
    ensures
        tap_of(after_events(events), event) is Some <==> event.key_code == FN_KEYCODE
            && event.modifier_flags & FN_FLAG == FN_FLAG && !is_held_after(events),
        taps_of(events).len() == 0 && tap_of(after_events(events), event) is Some ==> tap_of(
            after_events(events),
            event,
        ) == Some(FnTap::Single),
{
    lemma_held_is_remembered(events);
    lemma_remembered_press_was_single(events);
}

proof fn lemma_held_is_remembered(events: Seq<KeyEvent>)
    ensures
        after_events(events).previous_fn_down == is_held_after(events),
    decreases events.len(),
{
    if events.len() > 0 {
        lemma_held_is_remembered(events.drop_last());
    }
}

impl FnTapDetector {
    /// A detector that has seen nothing.
    pub fn new() -> (detector: FnTapDetector)
        ensures
            detector == fresh(),
    {
        FnTapDetector { last_press: None, previous_fn_down: false }
    }

    /// Takes an event in and reports the tap that it completes, if any.
    pub fn register_event(&mut self, event: KeyEvent) -> (tap: Option<FnTap>)
        ensures
            tap == tap_of(*old(self), event),
            *final(self) == after_event(*old(self), event),
    {
        if event.key_code != FN_KEYCODE {
            return None;
        }
        let down = event.modifier_flags & FN_FLAG == FN_FLAG;
        let mut tap: Option<FnTap> = None;
        if down && !self.previous_fn_down {
            let quick = match self.last_press {
                Some(last) => event.now <= last || event.now - last <= DOUBLE_TAP_WINDOW,
                None => false,
            };
            if quick {
                self.last_press = None;
                tap = Some(FnTap::Double);
            } else {
                self.last_press = Some(event.now);
                tap = Some(FnTap::Single);
            }
        }
        self.previous_fn_down = down;
        tap
    }
}

} // verus!
