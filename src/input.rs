use vstd::prelude::*;

verus! {

/// One flag per logical button: the cursor moves and the four swap gestures.
#[derive(Clone, Copy, Debug, PartialEq, Eq, Structural)]
pub struct ButtonSet {
    pub up: bool,
    pub down: bool,
    pub left: bool,
    pub right: bool,
    pub swap_up: bool,
    pub swap_left: bool,
    pub swap_down: bool,
    pub swap_right: bool,
}

/// No button set.
pub open spec fn no_buttons() -> ButtonSet {
    ButtonSet {
        up: false,
        down: false,
        left: false,
        right: false,
        swap_up: false,
        swap_left: false,
        swap_down: false,
        swap_right: false,
    }
}

/// One button's latch after seeing `level`: held exactly while the button is down.
pub open spec fn latch_after(held: bool, level: bool) -> bool {
    level
}

/// One button's event on seeing `level`: it fires when a held button comes up.
pub open spec fn press_event(held: bool, level: bool) -> bool {
    held && !level
}

/// The events of every button, given the latches and the sampled levels.
pub open spec fn presses_of(latch: ButtonSet, raw: ButtonSet) -> ButtonSet {
    ButtonSet {
        up: press_event(latch.up, raw.up),
        down: press_event(latch.down, raw.down),
        left: press_event(latch.left, raw.left),
        right: press_event(latch.right, raw.right),
        swap_up: press_event(latch.swap_up, raw.swap_up),
        swap_left: press_event(latch.swap_left, raw.swap_left),
        swap_down: press_event(latch.swap_down, raw.swap_down),
        swap_right: press_event(latch.swap_right, raw.swap_right),
    }
}

/// Bit `i` of `raw` is set.
pub open spec fn bit_set(raw: u16, i: u16) -> bool {
    (raw >> i) & 1u16 == 1u16
}

/// The buttons of a USB gamepad report word, one bit per button from the least
/// significant: start, select, Y, X, B, A, down, up, right, left.
/// The pad moves the cursor; X, Y, B and A swap up, left, down and right.
pub open spec fn gamepad_buttons(raw: u16) -> ButtonSet {
    ButtonSet {
        up: bit_set(raw, 7),
        down: bit_set(raw, 6),
        left: bit_set(raw, 9),
        right: bit_set(raw, 8),
        swap_up: bit_set(raw, 3),
        swap_left: bit_set(raw, 2),
        swap_down: bit_set(raw, 4),
        swap_right: bit_set(raw, 5),
    }
}

impl ButtonSet {
    /// No button set.
    pub fn none() -> (b: ButtonSet)
        ensures
            b == no_buttons(),
    {
        ButtonSet {
            up: false,
            down: false,
            left: false,
            right: false,
            swap_up: false,
            swap_left: false,
            swap_down: false,
            swap_right: false,
        }
    }

    /// Decodes a USB gamepad report word.
    pub fn from_gamepad_bits(raw: u16) -> (b: ButtonSet)
        ensures
            b == gamepad_buttons(raw),
    {
        ButtonSet {
            up: (raw >> 7u16) & 1u16 == 1u16,
            down: (raw >> 6u16) & 1u16 == 1u16,
            left: (raw >> 9u16) & 1u16 == 1u16,
            right: (raw >> 8u16) & 1u16 == 1u16,
            swap_up: (raw >> 3u16) & 1u16 == 1u16,
            swap_left: (raw >> 2u16) & 1u16 == 1u16,
            swap_down: (raw >> 4u16) & 1u16 == 1u16,
            swap_right: (raw >> 5u16) & 1u16 == 1u16,
        }
    }
}

/// One button's step: a released button that is down becomes held, without an event;
/// a held button that is up is released and fires its event; otherwise nothing changes.
/// Returns the new latch and the event.
pub fn edge_step(held: bool, level: bool) -> (r: (bool, bool))
    ensures
        r.0 == latch_after(held, level),
        r.1 == press_event(held, level),
{
    if !held && level {
        (true, false)
    } else if held && !level {
        (false, true)
    } else {
        (held, false)
    }
}

/// Turns sampled button levels into one-shot events, each fired on the release that
/// follows a press.
#[derive(Clone, Copy, Debug, PartialEq, Eq, Structural)]
pub struct InputEdgeDetector {
    /// The buttons seen down and not yet released.
    pub latch: ButtonSet,
}

impl InputEdgeDetector {
    /// A detector with every button released.
    pub fn new() -> (d: InputEdgeDetector)
        ensures
            d.latch == no_buttons(),
    {
        InputEdgeDetector { latch: ButtonSet::none() }
    }

    /// Takes one sample of the button levels and returns the events it fires.
    pub fn update(&mut self, raw: ButtonSet) -> (pressed: ButtonSet)
        ensures
            pressed == presses_of(old(self).latch, raw),
            final(self).latch == raw,
    {
        let l = self.latch;
        let pressed = ButtonSet {
            up: l.up && !raw.up,
            down: l.down && !raw.down,
            left: l.left && !raw.left,
            right: l.right && !raw.right,
            swap_up: l.swap_up && !raw.swap_up,
            swap_left: l.swap_left && !raw.swap_left,
            swap_down: l.swap_down && !raw.swap_down,
            swap_right: l.swap_right && !raw.swap_right,
        };
        self.latch = raw;
        pressed
    }
}

/// The latch of one button after the levels `levels`, starting released.
pub open spec fn latch_through(levels: Seq<bool>) -> bool {
    if levels.len() == 0 {
        false
    } else {
        levels.last()
    }
}

/// Events one button fires over the levels `levels`, starting released, by the
/// detector's step rule.
pub open spec fn events_through(levels: Seq<bool>) -> nat
    decreases levels.len(),
{
    if levels.len() == 0 {
        0
    } else {
        let prev = levels.drop_last();
        events_through(prev) + if press_event(latch_through(prev), levels.last()) {
            1nat
        } else {
            0nat
        }
    }
}

/// Down-to-up transitions in `levels`, the button being up before the first sample.
pub open spec fn releases_in(levels: Seq<bool>) -> nat
    decreases levels.len(),
{
    if levels.len() == 0 {
        0
    } else {
        let n = levels.len() - 1;
        releases_in(levels.drop_last()) + if n > 0 && levels[n - 1] && !levels[n] {
            1nat
        } else {
            0nat
        }
    }
}

/// One more sample `l` moves the latch to `l` and fires the event that `update` fires
/// for a latch of `latch_through(levels)`: the sequence model follows the detector.
pub proof fn lemma_step_follows_update(levels: Seq<bool>, l: bool)
    ensures
        latch_through(levels.push(l)) == latch_after(latch_through(levels), l),
        events_through(levels.push(l)) == events_through(levels) + if press_event(
            latch_through(levels),
            l,
        ) {
            1nat
        } else {
            0nat
        },
{
    assert(levels.push(l).drop_last() =~= levels);
}

/// Over any sequence of samples, a button fires exactly one event per down-to-up
/// transition.
pub proof fn lemma_one_event_per_release(levels: Seq<bool>)
    ensures
        events_through(levels) == releases_in(levels),
    decreases levels.len(),
{
    if levels.len() > 0 {
        let prev = levels.drop_last();
        lemma_one_event_per_release(prev);
        if prev.len() > 0 {
            assert(prev.last() == levels[levels.len() - 2]);
        }
    }
}

/// A button held down through every sample fires no event.
pub proof fn lemma_held_fires_nothing(levels: Seq<bool>)
    requires
        forall|i: int| 0 <= i < levels.len() ==> #[trigger] levels[i],
    ensures
        events_through(levels) == 0,
    decreases levels.len(),
{
    if levels.len() > 0 {
        let prev = levels.drop_last();
        assert forall|i: int| 0 <= i < prev.len() implies #[trigger] prev[i] by {
            assert(prev[i] == levels[i]);
        }
        lemma_held_fires_nothing(prev);
    }
}

} // verus!
