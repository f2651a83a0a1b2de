//! The controller: from each pair of detected channel tones to key and mouse events.
use vstd::prelude::*;
use crate::flags::{Flag, flag_set, has_flag};
use crate::layout::{KeyCode, KEY_COUNT, INPUT_COUNT, key_at, key_for};
use crate::screen::{Ratio, unit_share, horizontal_share, vertical_share, along, clamped_share, coordinate_along, lies_between, lemma_along_between, lemma_unit_share_bounds,
    lemma_unit_share_exact};
use crate::tones::{
    Zone, zone_of, zone, nearest_button, last_read, first_rise, find_button, gap_exec,
    lemma_nearest_button_range, lemma_first_rise_bounds,
};

verus! {

/// What the controller currently holds down.
#[derive(Clone, Copy, Debug, PartialEq, Eq, Structural)]
pub enum Held {
    Nothing,
    /// The key of the button with this index.
    Key(usize),
    /// The left mouse button.
    Mouse,
}

/// What a pair of tones was recognised as, for display.
#[derive(Clone, Copy, Debug, PartialEq, Eq, Structural)]
pub enum Reading {
    Silence,
    /// The button with this index.
    Button(usize),
    /// A point on the touch screen, as shares of its width and height in `[0, 1]`.
    Screen { x: Ratio, y: Ratio },
}

/// An input event to be sent to the computer.
#[derive(Clone, Copy, Debug, PartialEq, Eq, Structural)]
pub enum InputEvent {
    KeyPress(KeyCode),
    KeyRelease(KeyCode),
    /// Move the mouse to this position, in screen pixels.
    MouseMove { x: Ratio, y: Ratio },
    LeftPress,
    LeftRelease,
}

/// What one step of the controller produced.
pub struct Response {
    pub reading: Reading,
    /// The events to send, in order.
    pub events: Vec<InputEvent>,
}

/// The state of the controller between two pairs of tones.
pub struct Controller {
    /// The calibrated tones in millihertz: twelve buttons, then top, left, bottom, right.
    pub tones: Vec<i64>,
    /// The screen area that the touch screen maps to: left, top, right, bottom.
    pub corners: Vec<i32>,
    /// What is held down.
    pub held: Held,
    /// Whether the current press has already been acted on.
    pub engaged: bool,
    /// How many button readings came in a row before a key was pressed.
    pub streak: u32,
}

/// The fraction with these numbers.
pub open spec fn ratio_of(p: (int, int)) -> Ratio {
    Ratio { num: p.0 as i128, den: p.1 as i128 }
}

impl Controller {
    /// A controller with the given calibration, holding nothing.
    pub fn new(tones: Vec<i64>, corners: Vec<i32>) -> (c: Controller)
        ensures
            c.wf(),
            c.consistent(),
            c.tones == tones,
            c.corners == corners,
            c.held == Held::Nothing,
            !c.engaged,
            c.streak == 0,
    {
        Controller { tones, corners, held: Held::Nothing, engaged: false, streak: 0 }
    }

    /// The share of the screen width that the tones point at.
    pub open spec fn share_x(self, left: i64) -> (int, int) {
        horizontal_share(left, self.tones@)
    }

    /// The share of the screen height that the tones point at.
    pub open spec fn share_y(self, right: i64) -> (int, int) {
        vertical_share(right, self.tones@)
    }

    /// The mouse position for a screen touch: the shares carried over to the corners.
    pub open spec fn target(self, left: i64, right: i64) -> InputEvent {
        InputEvent::MouseMove {
            x: ratio_of(along(self.corners@[0], self.corners@[2], self.share_x(left))),
            y: ratio_of(along(self.corners@[1], self.corners@[3], self.share_y(right))),
        }
    }

    /// The button that a tone pair in the button zone is taken for.
    pub open spec fn button(self, left: i64, right: i64) -> int {
        nearest_button(left + right, self.tones@)
    }

    /// What holds of every controller between steps: a held key is one of the mapped keys.
    pub open spec fn wf(self) -> bool {
        self.held matches Held::Key(i) ==> i < KEY_COUNT
    }

    /// Whether a step on these tones runs to its end: every tone and corner it reads
    /// was calibrated.
    pub open spec fn can_take(self, left: i64, right: i64) -> bool {
        match zone_of(left, right) {
            Zone::Silence => true,
            Zone::Buttons => last_read(left + right, self.tones@) < self.tones.len(),
            Zone::Screen => self.tones.len() >= INPUT_COUNT && self.corners.len() >= 4,
        }
    }

    /// What the tones are recognised as.
    pub open spec fn reading_for(self, left: i64, right: i64) -> Reading {
        match zone_of(left, right) {
            Zone::Silence => Reading::Silence,
            Zone::Buttons => Reading::Button(self.button(left, right) as usize),
            Zone::Screen => Reading::Screen {
                x: ratio_of(self.share_x(left)),
                y: ratio_of(self.share_y(right)),
            },
        }
    }

    /// The events that a step sends.
    pub open spec fn events_for(self, left: i64, right: i64, flags: u128) -> Seq<InputEvent> {
        if flag_set(flags, Flag::DisableControl) {
            seq![]
        } else {
            match zone_of(left, right) {
                Zone::Silence => match self.held {
                    Held::Mouse => seq![InputEvent::LeftRelease],
                    Held::Key(i) => seq![InputEvent::KeyRelease(key_at(i as int).unwrap())],
                    Held::Nothing => seq![],
                },
                Zone::Buttons => if !self.engaged && self.streak > 2 {
                    seq![InputEvent::KeyPress(key_at(self.button(left, right)).unwrap())]
                } else {
                    seq![]
                },
                Zone::Screen => if !self.engaged {
                    seq![self.target(left, right), InputEvent::LeftPress]
                } else {
                    seq![self.target(left, right)]
                },
            }
        }
    }

    /// What is held after a step.
    pub open spec fn held_after(self, left: i64, right: i64) -> Held {
        match zone_of(left, right) {
            Zone::Silence => Held::Nothing,
            Zone::Buttons => if !self.engaged && self.streak > 2 {
                Held::Key(self.button(left, right) as usize)
            } else {
                self.held
            },
            Zone::Screen => if !self.engaged { Held::Mouse } else { self.held },
        }
    }

    /// Whether the press is acted on after a step.
    pub open spec fn engaged_after(self, left: i64, right: i64) -> bool {
        match zone_of(left, right) {
            Zone::Silence => false,
            Zone::Buttons => self.engaged || self.streak > 2,
            Zone::Screen => true,
        }
    }

    /// The streak after a step.
    pub open spec fn streak_after(self, left: i64, right: i64) -> u32 {
        match zone_of(left, right) {
            Zone::Silence => if self.held is Key { 0 } else { self.streak },
            Zone::Buttons => if !self.engaged && self.streak <= 2 {
                (self.streak + 1) as u32
            } else {
                self.streak
            },
            Zone::Screen => self.streak,
        }
    }

    /// The controller after a step on these tones.
    pub open spec fn after(self, left: i64, right: i64) -> Controller {
        Controller {
            held: self.held_after(left, right),
            engaged: self.engaged_after(left, right),
            streak: self.streak_after(left, right),
            ..self
        }
    }

    /// Whether the controller is well formed and holds something exactly while it acts
    /// on a press. Every controller made by `new` and moved on by `step` is consistent.
    pub open spec fn consistent(self) -> bool {
        self.wf() && (self.held != Held::Nothing <==> self.engaged)
    }

    /// Whether a step on these tones runs to its end (see `can_take`).
    pub fn can_step(&self, left: i64, right: i64) -> (r: bool)
        ensures
            r == self.can_take(left, right),
    {
        match zone(left, right) {
            Zone::Silence => true,
            Zone::Buttons => self.reads_within_tones(left, right),
            Zone::Screen => self.tones.len() >= INPUT_COUNT && self.corners.len() >= 4,
        }
    }

    /// Whether a held key is one of the mapped keys (see `wf`).
    pub fn is_wf(&self) -> (r: bool)
        ensures
            r == self.wf(),
    {
        match self.held {
            Held::Key(i) => i < KEY_COUNT,
            _ => true,
        }
    }

    /// Whether the button search stays within the calibrated tones.
    fn reads_within_tones(&self, left: i64, right: i64) -> (r: bool)
        ensures
            r == (last_read(left + right, self.tones@) < self.tones.len()),
    {
        proof {
            lemma_nearest_button_range(left + right, self.tones@);
        }
        if self.tones.len() >= 13 {
            return true;
        }
        let ghost s = left + right;
        let sum: i128 = left as i128 + right as i128;
        let mut j: usize = 0;
        while j < self.tones.len()
            invariant
                sum == s,
                s == left + right,
                j <= self.tones.len() < 13,
                first_rise(s, self.tones@, 0) == first_rise(s, self.tones@, j as int),
            decreases self.tones.len() - j,
        {
            if j >= 1 && gap_exec(sum, self.tones[j]) > gap_exec(sum, self.tones[j - 1]) {
                assert(first_rise(s, self.tones@, j as int) == Some(j as int));
                return true;
            }
            j = j + 1;
        }
        proof {
            lemma_first_rise_bounds(s, self.tones@, j as int);
        }
        false
    }

    /// Takes one pair of channel tones, in millihertz, and decides what to send.
    ///
    /// Below 50 Hz (on average) whatever is held is released. Between 50 Hz and
    /// 525 Hz the nearest calibrated button is recognised; after a few readings
    /// in a row its key is pressed, once, until the next silence. From 525 Hz on
    /// the tones point at the touch screen: the mouse follows, and the left
    /// mouse button is pressed once until the next silence. With the
    /// `DisableControl` flag nothing is sent, but the state moves on the same way.
    pub fn step(&mut self, left: i64, right: i64, flags: u128) -> (resp: Response)
        requires
            old(self).wf(),
            old(self).can_take(left, right),
        ensures
            final(self).wf(),
            old(self).consistent() ==> final(self).consistent(),
            final(self).tones == old(self).tones,
            final(self).corners == old(self).corners,
            final(self).held == old(self).held_after(left, right),
            final(self).engaged == old(self).engaged_after(left, right),
            final(self).streak == old(self).streak_after(left, right),
            resp.reading == old(self).reading_for(left, right),
            resp.events@ == old(self).events_for(left, right, flags),
            resp.events@.len() <= 2,
    {
        let control = !has_flag(flags, Flag::DisableControl);
        let mut events: Vec<InputEvent> = Vec::new();
        match zone(left, right) {
            Zone::Silence => {
                self.engaged = false;
                match self.held {
                    Held::Mouse => {
                        if control {
                            events.push(InputEvent::LeftRelease);
                        }
                        self.held = Held::Nothing;
                    },
                    Held::Key(i) => {
                        if control {
                            let key = key_for(i);
                            events.push(InputEvent::KeyRelease(key.unwrap()));
                        }
                        self.held = Held::Nothing;
                        self.streak = 0;
                    },
                    Held::Nothing => {},
                }
                Response { reading: Reading::Silence, events }
            },
            Zone::Buttons => {
                let i = find_button(left, right, &self.tones);
                if !self.engaged {
                    if self.streak > 2 {
                        self.held = Held::Key(i);
                        if control {
                            let key = key_for(i);
                            events.push(InputEvent::KeyPress(key.unwrap()));
                        }
                        self.engaged = true;
                    } else {
                        self.streak = self.streak + 1;
                    }
                }
                Response { reading: Reading::Button(i), events }
            },
            Zone::Screen => {
                let x = clamped_share(
                    left as i128 - self.tones[13] as i128,
                    self.tones[15] as i128 - self.tones[13] as i128,
                );
                let y = clamped_share(
                    right as i128 - self.tones[12] as i128,
                    self.tones[14] as i128 - self.tones[12] as i128,
                );
                let mouse_x = coordinate_along(self.corners[0], self.corners[2], x);
                let mouse_y = coordinate_along(self.corners[1], self.corners[3], y);
                if control {
                    events.push(InputEvent::MouseMove { x: mouse_x, y: mouse_y });
                }
                if !self.engaged {
                    self.held = Held::Mouse;
                    if control {
                        events.push(InputEvent::LeftPress);
                    }
                    self.engaged = true;
                }
                Response { reading: Reading::Screen { x, y }, events }
            },
        }
    }
}


/// What a step presses, the next silence releases: a pressed key is released as the
/// same key, a pressed mouse button as the left mouse button.
pub proof fn lemma_silence_releases_press(
    c: Controller,
    left: i64,
    right: i64,
    quiet_left: i64,
    quiet_right: i64,
    flags: u128,
)
    requires
        zone_of(quiet_left, quiet_right) == Zone::Silence,
    ensures
        forall|k: KeyCode| #[trigger] c.events_for(left, right, flags).contains(InputEvent::KeyPress(k))
            ==> c.after(left, right).events_for(quiet_left, quiet_right, flags) == seq![InputEvent::KeyRelease(k)],
        c.events_for(left, right, flags).contains(InputEvent::LeftPress)
            ==> c.after(left, right).events_for(quiet_left, quiet_right, flags) == seq![InputEvent::LeftRelease],
{
    lemma_nearest_button_range(left + right, c.tones@);
    let e = c.events_for(left, right, flags);
    assert forall|k: KeyCode| #[trigger] e.contains(InputEvent::KeyPress(k))
        implies c.after(left, right).events_for(quiet_left, quiet_right, flags) == seq![InputEvent::KeyRelease(k)] by {
        let j = choose|j: int| 0 <= j < e.len() && e[j] == InputEvent::KeyPress(k);
        assert(e[j] == InputEvent::KeyPress(k));
    }
    if e.contains(InputEvent::LeftPress) {
        let j = choose|j: int| 0 <= j < e.len() && e[j] == InputEvent::LeftPress;
        assert(e[j] == InputEvent::LeftPress);
    }
}

/// A key is pressed only after more than two button readings in a row, and only when
/// nothing is being acted on.
pub proof fn lemma_press_needs_streak(c: Controller, left: i64, right: i64, flags: u128, k: KeyCode)
    requires
        c.events_for(left, right, flags).contains(InputEvent::KeyPress(k)),
    ensures
        c.streak > 2,
        !c.engaged,
        zone_of(left, right) == Zone::Buttons,
{
    let e = c.events_for(left, right, flags);
    let j = choose|j: int| 0 <= j < e.len() && e[j] == InputEvent::KeyPress(k);
    assert(e[j] == InputEvent::KeyPress(k));
}

/// With control disabled nothing is sent. (The state after a step does not depend on
/// the flags at all: `after` does not take them.)
pub proof fn lemma_disabled_sends_nothing(c: Controller, left: i64, right: i64, flags: u128)
    requires
        flag_set(flags, Flag::DisableControl),
    ensures
        c.events_for(left, right, flags) == Seq::<InputEvent>::empty(),
{
}

/// A share of the way between two corner coordinates, as a fraction that fits `i128`.
proof fn lemma_share_position(low: i32, high: i32, share: (int, int))
    requires
        0 <= share.0 <= share.1 <= 0x1_0000_0000_0000_0000,
        0 < share.1,
    ensures
        lies_between(along(low, high, share).0, share.1, low, high),
        ratio_of(along(low, high, share)).num == along(low, high, share).0,
        ratio_of(along(low, high, share)).den == share.1,
{
    lemma_along_between(low, high, share);
    let d = share.1;
    let p = along(low, high, share).0;
    assert(-0x8000_0000 * d <= p <= 0x8000_0000 * d) by (nonlinear_arith)
        requires
            lies_between(p, d, low, high),
            0 < d,
    ;
    assert(-0x8000_0000 * 0x1_0000_0000_0000_0000 <= p <= 0x8000_0000 * 0x1_0000_0000_0000_0000) by (nonlinear_arith)
        requires
            -0x8000_0000 * d <= p <= 0x8000_0000 * d,
            0 < d <= 0x1_0000_0000_0000_0000,
    ;
}

/// The mouse never leaves the calibrated screen area: every position sent lies between
/// the left and right corner coordinates and between the top and bottom ones.
pub proof fn lemma_mouse_stays_in_area(c: Controller, left: i64, right: i64, flags: u128)
    requires
        c.can_take(left, right),
    ensures
        forall|x: Ratio, y: Ratio| #[trigger] c.events_for(left, right, flags).contains(InputEvent::MouseMove { x, y })
            ==> x.den > 0 && y.den > 0
                && lies_between(x.num as int, x.den as int, c.corners@[0], c.corners@[2])
                && lies_between(y.num as int, y.den as int, c.corners@[1], c.corners@[3]),
{
    let sx = c.share_x(left);
    let sy = c.share_y(right);
    lemma_unit_share_bounds(left - c.tones@[13], c.tones@[15] - c.tones@[13]);
    lemma_unit_share_bounds(right - c.tones@[12], c.tones@[14] - c.tones@[12]);
    lemma_share_position(c.corners@[0], c.corners@[2], sx);
    lemma_share_position(c.corners@[1], c.corners@[3], sy);
    let e = c.events_for(left, right, flags);
    assert forall|x: Ratio, y: Ratio| #[trigger] e.contains(InputEvent::MouseMove { x, y })
        implies x.den > 0 && y.den > 0
            && lies_between(x.num as int, x.den as int, c.corners@[0], c.corners@[2])
            && lies_between(y.num as int, y.den as int, c.corners@[1], c.corners@[3]) by {
        let j = choose|j: int| 0 <= j < e.len() && e[j] == InputEvent::MouseMove { x, y };
        assert(e[j] == InputEvent::MouseMove { x, y });
    }
}


/// What is held down, as the events sent so far tell it.
#[derive(Clone, Copy, Debug, PartialEq, Eq, Structural)]
pub enum Down {
    Up,
    Key(KeyCode),
    Mouse,
}

/// What is held down while the controller holds `held`.
pub open spec fn down_of(held: Held) -> Down {
    match held {
        Held::Nothing => Down::Up,
        Held::Key(i) => Down::Key(key_at(i as int).unwrap()),
        Held::Mouse => Down::Mouse,
    }
}

/// Plays events from the held-down state `down`: `None` as soon as an event does not
/// fit (a press while something is down, or a release of anything but what is down),
/// otherwise what is down after them. Mouse moves fit anywhere.
pub open spec fn replay(events: Seq<InputEvent>, down: Down) -> Option<Down>
    decreases events.len(),
{
    if events.len() == 0 {
        Some(down)
    } else {
        let next: Option<Down> = match events[0] {
            InputEvent::MouseMove { .. } => Some(down),
            InputEvent::KeyPress(k) => if down == Down::Up { Some(Down::Key(k)) } else { None },
            InputEvent::KeyRelease(k) => if down == Down::Key(k) { Some(Down::Up) } else { None },
            InputEvent::LeftPress => if down == Down::Up { Some(Down::Mouse) } else { None },
            InputEvent::LeftRelease => if down == Down::Mouse { Some(Down::Up) } else { None },
        };
        match next {
            None => None,
            Some(d) => replay(events.drop_first(), d),
        }
    }
}

/// The controller after a step on each pair of tones in turn, with all the events sent.
pub open spec fn run(c: Controller, inputs: Seq<(i64, i64)>, flags: u128) -> (Controller, Seq<InputEvent>)
    decreases inputs.len(),
{
    if inputs.len() == 0 {
        (c, seq![])
    } else {
        let first = inputs[0];
        let rest = run(c.after(first.0, first.1), inputs.drop_first(), flags);
        (rest.0, c.events_for(first.0, first.1, flags) + rest.1)
    }
}

proof fn lemma_replay_append(a: Seq<InputEvent>, b: Seq<InputEvent>, down: Down)
    ensures
        replay(a + b, down) == match replay(a, down) {
            None => None,
            Some(d) => replay(b, d),
        },
    decreases a.len(),
{
    if a.len() > 0 {
        assert((a + b).drop_first() =~= a.drop_first() + b);
        assert((a + b)[0] == a[0]);
        let next: Option<Down> = match a[0] {
            InputEvent::MouseMove { .. } => Some(down),
            InputEvent::KeyPress(k) => if down == Down::Up { Some(Down::Key(k)) } else { None },
            InputEvent::KeyRelease(k) => if down == Down::Key(k) { Some(Down::Up) } else { None },
            InputEvent::LeftPress => if down == Down::Up { Some(Down::Mouse) } else { None },
            InputEvent::LeftRelease => if down == Down::Mouse { Some(Down::Up) } else { None },
        };
        if let Some(d) = next {
            lemma_replay_append(a.drop_first(), b, d);
        }
    } else {
        assert(a + b =~= b);
    }
}

/// One step keeps the events in step with what is held.
proof fn lemma_step_replays(c: Controller, left: i64, right: i64, flags: u128)
    requires
        c.consistent(),
        !flag_set(flags, Flag::DisableControl),
    ensures
        replay(c.events_for(left, right, flags), down_of(c.held)) == Some(down_of(c.after(left, right).held)),
        c.after(left, right).consistent(),
{
    lemma_nearest_button_range(left + right, c.tones@);
    reveal_with_fuel(replay, 3);
    let e = c.events_for(left, right, flags);
    if e.len() == 2 {
        assert(e.drop_first() =~= seq![e[1]]);
        assert(e.drop_first().drop_first() =~= Seq::<InputEvent>::empty());
    } else if e.len() == 1 {
        assert(e.drop_first() =~= Seq::<InputEvent>::empty());
    }
}

/// Over any run of steps from a consistent controller with control on, the events
/// alternate: a press comes only when nothing is down, and a release only of what is
/// down (the same key, or the left mouse button); mouse moves come in between. So at
/// most one key or button is held at a time, and it is released as pressed. With
/// control off nothing is sent at all.
pub proof fn lemma_events_alternate(c: Controller, inputs: Seq<(i64, i64)>, flags: u128)
    requires
        c.consistent(),
    ensures
        !flag_set(flags, Flag::DisableControl) ==> {
            &&& replay(run(c, inputs, flags).1, down_of(c.held)) == Some(down_of(run(c, inputs, flags).0.held))
            &&& run(c, inputs, flags).0.consistent()
        },
        flag_set(flags, Flag::DisableControl) ==> run(c, inputs, flags).1 == Seq::<InputEvent>::empty(),
    decreases inputs.len(),
{
    if inputs.len() > 0 {
        let first = inputs[0];
        let next = c.after(first.0, first.1);
        if flag_set(flags, Flag::DisableControl) {
            lemma_nearest_button_range(first.0 + first.1, c.tones@);
            assert(next.consistent());
            lemma_events_alternate(next, inputs.drop_first(), flags);
            assert(run(c, inputs, flags).1 =~= Seq::<InputEvent>::empty());
        } else {
            lemma_step_replays(c, first.0, first.1, flags);
            lemma_events_alternate(next, inputs.drop_first(), flags);
            lemma_replay_append(
                c.events_for(first.0, first.1, flags),
                run(next, inputs.drop_first(), flags).1,
                down_of(c.held),
            );
        }
    }
}


/// The controller before the step on `inputs[k]`, after the steps on the inputs before it.
pub open spec fn state_at(c: Controller, inputs: Seq<(i64, i64)>, k: nat) -> Controller
    decreases k,
{
    if k == 0 {
        c
    } else {
        let p = state_at(c, inputs, (k - 1) as nat);
        p.after(inputs[k - 1].0, inputs[k - 1].1)
    }
}

/// How many of the inputs before `inputs[k]` were button readings taken while nothing
/// was held, counted since the start or since the last silence that let go of a key.
pub open spec fn readings_since_release(c: Controller, inputs: Seq<(i64, i64)>, k: nat) -> nat
    decreases k,
{
    if k == 0 {
        0
    } else {
        let j = (k - 1) as nat;
        let s = state_at(c, inputs, j);
        let z = zone_of(inputs[j as int].0, inputs[j as int].1);
        if z == Zone::Silence && s.held is Key {
            0
        } else if z == Zone::Buttons && s.held == Held::Nothing {
            readings_since_release(c, inputs, j) + 1
        } else {
            readings_since_release(c, inputs, j)
        }
    }
}

/// Along a run from a consistent controller with no streak, the streak is the count of
/// button readings since the start or the last key release, up to three; and the run
/// stays consistent.
proof fn lemma_streak_counts(c: Controller, inputs: Seq<(i64, i64)>, k: nat)
    requires
        c.consistent(),
        c.streak == 0,
        k <= inputs.len(),
    ensures
        state_at(c, inputs, k).consistent(),
        state_at(c, inputs, k).streak == if readings_since_release(c, inputs, k) >= 3 {
            3
        } else {
            readings_since_release(c, inputs, k)
        },
    decreases k,
{
    if k > 0 {
        let j = (k - 1) as nat;
        lemma_streak_counts(c, inputs, j);
        let s = state_at(c, inputs, j);
        lemma_nearest_button_range(inputs[j as int].0 + inputs[j as int].1, s.tones@);
    }
}

/// A key is pressed only after at least three button readings taken while nothing was
/// held, since the start or since the last key release: for the step on `inputs[k]` of a
/// run from a new controller (or any consistent one with no streak).
pub proof fn lemma_press_counts_readings(c: Controller, inputs: Seq<(i64, i64)>, flags: u128, k: nat, key: KeyCode)
    requires
        c.consistent(),
        c.streak == 0,
        k < inputs.len(),
        state_at(c, inputs, k).events_for(inputs[k as int].0, inputs[k as int].1, flags).contains(InputEvent::KeyPress(key)),
    ensures
        readings_since_release(c, inputs, k) >= 3,
{
    lemma_streak_counts(c, inputs, k);
    lemma_press_needs_streak(state_at(c, inputs, k), inputs[k as int].0, inputs[k as int].1, flags, key);
}


proof fn lemma_run_push(c: Controller, a: Seq<(i64, i64)>, x: (i64, i64), flags: u128)
    ensures
        run(c, a.push(x), flags) == (
            run(c, a, flags).0.after(x.0, x.1),
            run(c, a, flags).1 + run(c, a, flags).0.events_for(x.0, x.1, flags),
        ),
    decreases a.len(),
{
    let ax = a.push(x);
    assert(ax.len() > 0);
    assert(ax[0] == if a.len() == 0 { x } else { a[0] });
    if a.len() == 0 {
        assert(ax.drop_first() =~= Seq::<(i64, i64)>::empty());
        let n = c.after(x.0, x.1);
        assert(run(n, ax.drop_first(), flags) == (n, Seq::<InputEvent>::empty()));
        assert(run(c, ax, flags) == (n, c.events_for(x.0, x.1, flags) + Seq::<InputEvent>::empty()));
        assert(run(c, a, flags) == (c, Seq::<InputEvent>::empty()));
        assert(c.events_for(x.0, x.1, flags) + Seq::<InputEvent>::empty() =~= c.events_for(x.0, x.1, flags));
        assert(Seq::<InputEvent>::empty() + c.events_for(x.0, x.1, flags) =~= c.events_for(x.0, x.1, flags));
    } else {
        let first = a[0];
        assert(ax.drop_first() =~= a.drop_first().push(x));
        let n = c.after(first.0, first.1);
        lemma_run_push(n, a.drop_first(), x, flags);
        let e0 = c.events_for(first.0, first.1, flags);
        let r = run(n, a.drop_first(), flags);
        assert(run(c, a, flags) == (r.0, e0 + r.1));
        assert(run(c, ax, flags) == (r.0.after(x.0, x.1), e0 + (r.1 + r.0.events_for(x.0, x.1, flags))));
        assert(e0 + (r.1 + r.0.events_for(x.0, x.1, flags)) =~= (e0 + r.1) + r.0.events_for(x.0, x.1, flags));
    }
}

/// The step on `inputs[k]` in a run is the step of `state_at(c, inputs, k)`: the run
/// up to and with it is the run before it, then that step's events.
pub proof fn lemma_run_steps(c: Controller, inputs: Seq<(i64, i64)>, flags: u128, k: nat)
    requires
        k < inputs.len(),
    ensures
        run(c, inputs.take(k as int), flags).0 == state_at(c, inputs, k),
        run(c, inputs.take(k + 1 as int), flags).1 == run(c, inputs.take(k as int), flags).1
            + state_at(c, inputs, k).events_for(inputs[k as int].0, inputs[k as int].1, flags),
    decreases k,
{
    assert(inputs.take(k + 1 as int) =~= inputs.take(k as int).push(inputs[k as int]));
    if k > 0 {
        lemma_run_steps(c, inputs, flags, (k - 1) as nat);
        assert(inputs.take(k as int) =~= inputs.take(k - 1).push(inputs[k - 1]));
        lemma_run_push(c, inputs.take(k - 1), inputs[k - 1], flags);
    } else {
        assert(inputs.take(0) =~= Seq::<(i64, i64)>::empty());
    }
    lemma_run_push(c, inputs.take(k as int), inputs[k as int], flags);
}


/// Where a touch points: the horizontal share is where the left tone lies between the
/// "Left" tone (13) and the "Right" tone (15), the vertical share where the right tone
/// lies between the "Top" tone (12) and the "Bottom" tone (14), each clamped to `[0, 1]`;
/// and the mouse goes that share of the way from the first corner coordinate to the
/// second on each axis.
pub proof fn lemma_touch_position(c: Controller, left: i64, right: i64, flags: u128)
    requires
        zone_of(left, right) == Zone::Screen,
    ensures
        c.reading_for(left, right) matches Reading::Screen { x, y } && {
            let t12 = c.tones@[12] as int;
            let t13 = c.tones@[13] as int;
            let t14 = c.tones@[14] as int;
            let t15 = c.tones@[15] as int;
            &&& 0 <= x.num <= x.den && 0 < x.den
            &&& 0 <= y.num <= y.den && 0 < y.den
            &&& t13 < t15 && t13 <= left <= t15 ==> x.num * (t15 - t13) == x.den * (left - t13)
            &&& t13 < t15 && left <= t13 ==> x.num == 0
            &&& t13 < t15 && left >= t15 ==> x.num == x.den
            &&& t15 < t13 && t15 <= left <= t13 ==> x.num * (t13 - t15) == x.den * (t13 - left)
            &&& t12 < t14 && t12 <= right <= t14 ==> y.num * (t14 - t12) == y.den * (right - t12)
            &&& t12 < t14 && right <= t12 ==> y.num == 0
            &&& t12 < t14 && right >= t14 ==> y.num == y.den
            &&& t14 < t12 && t14 <= right <= t12 ==> y.num * (t12 - t14) == y.den * (t12 - right)
            &&& !flag_set(flags, Flag::DisableControl) ==> (c.events_for(left, right, flags)[0] matches
                InputEvent::MouseMove { x: px, y: py } && {
                    &&& px.den == x.den && py.den == y.den
                    &&& px.num == c.corners@[0] * x.den + x.num * (c.corners@[2] - c.corners@[0])
                    &&& py.num == c.corners@[1] * y.den + y.num * (c.corners@[3] - c.corners@[1])
                })
        },
{
    let ox = left - c.tones@[13];
    let sx = c.tones@[15] - c.tones@[13];
    let oy = right - c.tones@[12];
    let sy = c.tones@[14] - c.tones@[12];
    lemma_unit_share_bounds(ox, sx);
    lemma_unit_share_bounds(oy, sy);
    lemma_unit_share_exact(ox, sx);
    lemma_unit_share_exact(oy, sy);
    let hx = unit_share(ox, sx);
    let hy = unit_share(oy, sy);
    if sx < 0 && sx <= ox <= 0 {
        assert(hx.0 * (-sx) == hx.1 * (-ox)) by (nonlinear_arith)
            requires
                hx.0 * sx == hx.1 * ox,
        ;
    }
    if sy < 0 && sy <= oy <= 0 {
        assert(hy.0 * (-sy) == hy.1 * (-oy)) by (nonlinear_arith)
            requires
                hy.0 * sy == hy.1 * oy,
        ;
    }
    lemma_share_position(c.corners@[0], c.corners@[2], hx);
    lemma_share_position(c.corners@[1], c.corners@[3], hy);
}

/// A key that a step presses is the key of the button the step recognises, the one
/// shown for it, and that button is what is held afterwards.
pub proof fn lemma_pressed_key_is_recognised(c: Controller, left: i64, right: i64, flags: u128, k: KeyCode)
    requires
        c.events_for(left, right, flags).contains(InputEvent::KeyPress(k)),
    ensures
        zone_of(left, right) == Zone::Buttons,
        key_at(nearest_button(left + right, c.tones@)) == Some(k),
        c.reading_for(left, right) == Reading::Button(nearest_button(left + right, c.tones@) as usize),
        c.held_after(left, right) == Held::Key(nearest_button(left + right, c.tones@) as usize),
{
    lemma_nearest_button_range(left + right, c.tones@);
    let e = c.events_for(left, right, flags);
    let j = choose|j: int| 0 <= j < e.len() && e[j] == InputEvent::KeyPress(k);
    assert(e[j] == InputEvent::KeyPress(k));
}

} // verus!
