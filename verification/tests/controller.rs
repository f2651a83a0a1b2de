use rpbc::controller::{Controller, Held, InputEvent, Reading};
use rpbc::layout::KeyCode;
use rpbc::screen::Ratio;

fn mhz(hz: i64) -> i64 {
    hz * 1000
}

fn tones() -> Vec<i64> {
    let mut tones: Vec<i64> = (0..12).map(|i| mhz(100 + 30 * i)).collect();
    // Top, left, bottom, right.
    tones.extend_from_slice(&[mhz(600), mhz(700), mhz(900), mhz(1000)]);
    tones
}

fn controller() -> Controller {
    Controller::new(tones(), vec![0, 0, 1920, 1080])
}

const CONTROL: u128 = 0;
const NO_CONTROL: u128 = 16;

fn step(c: &mut Controller, left: i64, right: i64, flags: u128) -> (Reading, Vec<InputEvent>) {
    assert!(c.is_wf());
    assert!(c.can_step(left, right));
    let r = c.step(left, right, flags);
    (r.reading, r.events)
}

#[test]
fn a_button_is_pressed_after_three_readings_and_released_on_silence() {
    let mut c = controller();
    for _ in 0..3 {
        let (reading, events) = step(&mut c, mhz(130), mhz(130), CONTROL);
        assert_eq!(reading, Reading::Button(1));
        assert!(events.is_empty());
    }
    assert_eq!(c.streak, 3);
    let (reading, events) = step(&mut c, mhz(130), mhz(130), CONTROL);
    assert_eq!(reading, Reading::Button(1));
    assert_eq!(events, vec![InputEvent::KeyPress(KeyCode::KeyN)]);
    assert_eq!(c.held, Held::Key(1));
    assert!(c.engaged);
    // Held on: nothing more is sent, even if the tone wanders to another button.
    let (reading, events) = step(&mut c, mhz(160), mhz(160), CONTROL);
    assert_eq!(reading, Reading::Button(2));
    assert!(events.is_empty());
    let (reading, events) = step(&mut c, 0, 0, CONTROL);
    assert_eq!(reading, Reading::Silence);
    assert_eq!(events, vec![InputEvent::KeyRelease(KeyCode::KeyN)]);
    assert_eq!(c.held, Held::Nothing);
    assert!(!c.engaged);
    assert_eq!(c.streak, 0);
}

#[test]
fn silence_with_nothing_held_sends_nothing() {
    let mut c = controller();
    let (reading, events) = step(&mut c, mhz(10), mhz(20), CONTROL);
    assert_eq!(reading, Reading::Silence);
    assert!(events.is_empty());
    assert_eq!(c.streak, 0);
}

#[test]
fn short_button_readings_count_towards_the_next_press() {
    let mut c = controller();
    step(&mut c, mhz(100), mhz(100), CONTROL);
    step(&mut c, mhz(100), mhz(100), CONTROL);
    // A silence with no key held keeps the count.
    step(&mut c, 0, 0, CONTROL);
    assert_eq!(c.streak, 2);
    step(&mut c, mhz(100), mhz(100), CONTROL);
    let (_, events) = step(&mut c, mhz(100), mhz(100), CONTROL);
    assert_eq!(events, vec![InputEvent::KeyPress(KeyCode::KeyJ)]);
}

#[test]
fn the_touch_screen_moves_the_mouse_and_presses_once() {
    let mut c = controller();
    // Left channel half way between "Left" (700 Hz) and "Right" (1000 Hz),
    // right channel a quarter of the way from "Top" (600 Hz) to "Bottom" (900 Hz).
    let (reading, events) = step(&mut c, mhz(850), mhz(675), CONTROL);
    let x = Ratio { num: 150_000, den: 300_000 };
    let y = Ratio { num: 75_000, den: 300_000 };
    assert_eq!(reading, Reading::Screen { x, y });
    let mx = Ratio { num: 1920 * 150_000, den: 300_000 };
    let my = Ratio { num: 1080 * 75_000, den: 300_000 };
    assert_eq!(events, vec![InputEvent::MouseMove { x: mx, y: my }, InputEvent::LeftPress]);
    assert_eq!(c.held, Held::Mouse);
    let (_, events) = step(&mut c, mhz(1200), mhz(500), CONTROL);
    // Clamped to the right edge and the top edge; no second press.
    assert_eq!(
        events,
        vec![InputEvent::MouseMove { x: Ratio { num: 1920, den: 1 }, y: Ratio { num: 0, den: 1 } }]
    );
    let (_, events) = step(&mut c, 0, 0, CONTROL);
    assert_eq!(events, vec![InputEvent::LeftRelease]);
    assert_eq!(c.held, Held::Nothing);
}

#[test]
fn a_mouse_release_keeps_the_button_count() {
    let mut c = controller();
    for _ in 0..4 {
        step(&mut c, mhz(100), mhz(100), CONTROL);
    }
    step(&mut c, 0, 0, CONTROL);
    assert_eq!(c.streak, 0);
    for _ in 0..3 {
        step(&mut c, mhz(100), mhz(100), CONTROL);
    }
    step(&mut c, 0, 0, CONTROL);
    step(&mut c, mhz(800), mhz(800), CONTROL);
    step(&mut c, 0, 0, CONTROL);
    assert_eq!(c.streak, 3);
    // The count is already past three: the next button reading presses at once.
    let (_, events) = step(&mut c, mhz(100), mhz(100), CONTROL);
    assert_eq!(events, vec![InputEvent::KeyPress(KeyCode::KeyJ)]);
}

#[test]
fn disabled_control_sends_nothing_but_follows_along() {
    let mut a = controller();
    let mut b = controller();
    let inputs = [(130, 130), (130, 130), (130, 130), (130, 130), (0, 0), (850, 675), (0, 0)];
    for (l, r) in inputs.iter() {
        let (ra, ea) = step(&mut a, mhz(*l), mhz(*r), NO_CONTROL);
        let (rb, _) = step(&mut b, mhz(*l), mhz(*r), CONTROL);
        assert!(ea.is_empty());
        assert_eq!(ra, rb);
        assert_eq!(a.held, b.held);
        assert_eq!(a.engaged, b.engaged);
        assert_eq!(a.streak, b.streak);
    }
}

#[test]
fn a_screen_touch_needs_the_whole_calibration() {
    let c = Controller::new(tones(), vec![0, 0, 1920]);
    assert!(!c.can_step(mhz(800), mhz(800)));
    assert!(c.can_step(mhz(100), mhz(100)));
    assert!(c.can_step(0, 0));
    let c = Controller::new(tones()[..15].to_vec(), vec![0, 0, 1920, 1080]);
    assert!(!c.can_step(mhz(800), mhz(800)));
}

#[test]
fn the_search_never_lands_on_a_screen_tone() {
    // A calibration whose "Top" tone lies among the buttons: a tone right on it is
    // still taken for one of the twelve buttons (here button 0, as the distance
    // never grows within the span).
    let mut odd = tones();
    odd[12] = mhz(450);
    let mut d = Controller::new(odd, vec![0, 0, 1920, 1080]);
    d.streak = 3;
    let (reading, events) = step(&mut d, mhz(450), mhz(450), CONTROL);
    assert_eq!(reading, Reading::Button(0));
    assert_eq!(events, vec![InputEvent::KeyPress(KeyCode::KeyJ)]);
}

#[test]
fn a_held_key_must_be_a_mapped_one() {
    let mut c = controller();
    c.held = Held::Key(11);
    assert!(c.is_wf());
    c.held = Held::Key(12);
    assert!(!c.is_wf());
    c.held = Held::Mouse;
    assert!(c.is_wf());
}

#[test]
fn button_search_needs_the_tones_it_reads() {
    let c = Controller::new(vec![mhz(100), mhz(200)], vec![]);
    // 300 Hz: the distance shrinks from 100 Hz to 200 Hz, so a third tone would be read.
    assert!(!c.can_step(mhz(300), mhz(300)));
    // 100 Hz: it grows at the second tone already.
    assert!(c.can_step(mhz(100), mhz(100)));
}

#[test]
fn events_alternate_over_a_long_run() {
    let mut c = controller();
    let inputs = [
        (130, 130), (130, 130), (130, 130), (130, 130), (160, 160), (850, 675), (0, 0), (850, 675),
        (900, 900), (100, 100), (0, 0), (100, 100), (0, 0), (20, 20), (250, 250), (250, 250), (0, 0),
    ];
    // Nothing down at the start; each press needs nothing down, each release what is down.
    let mut down: Option<InputEvent> = None;
    let mut presses = 0;
    for (l, r) in inputs.iter() {
        let (_, events) = step(&mut c, mhz(*l), mhz(*r), CONTROL);
        for e in events {
            match e {
                InputEvent::MouseMove { .. } => {}
                InputEvent::KeyPress(k) => {
                    assert_eq!(down, None);
                    down = Some(InputEvent::KeyPress(k));
                    presses += 1;
                }
                InputEvent::LeftPress => {
                    assert_eq!(down, None);
                    down = Some(InputEvent::LeftPress);
                    presses += 1;
                }
                InputEvent::KeyRelease(k) => {
                    assert_eq!(down, Some(InputEvent::KeyPress(k)));
                    down = None;
                }
                InputEvent::LeftRelease => {
                    assert_eq!(down, Some(InputEvent::LeftPress));
                    down = None;
                }
            }
        }
    }
    assert_eq!(down, None);
    // The key, then the mouse; the later button readings never reach a streak of three.
    assert_eq!(presses, 2);
}

#[test]
fn a_press_needs_three_readings_since_the_last_key_release() {
    let mut c = controller();
    // Two readings, a silence with nothing held (the count goes on), one more reading:
    // three in all, so the fourth presses.
    step(&mut c, mhz(100), mhz(100), CONTROL);
    step(&mut c, mhz(100), mhz(100), CONTROL);
    step(&mut c, 0, 0, CONTROL);
    step(&mut c, mhz(100), mhz(100), CONTROL);
    let (_, events) = step(&mut c, mhz(100), mhz(100), CONTROL);
    assert_eq!(events, vec![InputEvent::KeyPress(KeyCode::KeyJ)]);
    // The key release starts the count again: three more readings send nothing.
    step(&mut c, 0, 0, CONTROL);
    for _ in 0..3 {
        let (_, events) = step(&mut c, mhz(100), mhz(100), CONTROL);
        assert!(events.is_empty());
        assert_eq!(c.engaged, c.held != Held::Nothing);
    }
    let (_, events) = step(&mut c, mhz(100), mhz(100), CONTROL);
    assert_eq!(events, vec![InputEvent::KeyPress(KeyCode::KeyJ)]);
    assert_eq!(c.engaged, c.held != Held::Nothing);
}
