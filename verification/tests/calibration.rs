use rpbc::calibration::{Calibration, Notice, SAMPLES_PER_TONE};

const NONE: u128 = 0;
const SKIP: u128 = 8;

fn mhz(hz: i64) -> i64 {
    hz * 1000
}

fn step(c: &mut Calibration, left: i64, right: i64, flags: u128) -> Vec<Notice> {
    assert!(c.can_step(left, right, flags));
    c.step(left, right, flags)
}

/// Takes one input through its stage: prompt, readings, record, release.
fn record(c: &mut Calibration, left: i64, right: i64) -> Vec<Notice> {
    let stage = c.stage();
    let mut all = step(c, 0, 0, NONE);
    for k in 0..SAMPLES_PER_TONE {
        let n = step(c, left, right, NONE);
        assert_eq!(n, vec![Notice::Progress(k)]);
    }
    all.extend(step(c, left, right, NONE));
    // Holding on records nothing more.
    assert!(step(c, left, right, NONE).is_empty());
    assert!(step(c, 0, 0, NONE).is_empty());
    assert_eq!(c.stage(), stage + 1);
    assert_eq!(c.samples(), 0);
    assert_eq!(c.total(), 0);
    all
}

#[test]
fn a_button_is_prompted_measured_and_recorded() {
    let mut c = Calibration::new();
    let n = record(&mut c, mhz(100), mhz(102));
    assert_eq!(n, vec![Notice::HoldButton(0), Notice::RecordedButton(mhz(101))]);
    assert_eq!(c.tones(), &vec![mhz(101)]);
}

#[test]
fn the_recorded_tone_is_the_mean_rounded_down() {
    let mut c = Calibration::new();
    step(&mut c, 0, 0, NONE);
    // Half the readings at 100.000 Hz, half at 100.003 Hz (on both channels).
    for k in 0..SAMPLES_PER_TONE {
        let t = if k % 2 == 0 { 100_000 } else { 100_003 };
        step(&mut c, t, t, NONE);
    }
    let n = step(&mut c, 100_000, 100_000, NONE);
    assert_eq!(n, vec![Notice::RecordedButton(100_001)]);
}

#[test]
fn screen_edges_use_one_channel_each() {
    let mut c = Calibration::new();
    for i in 0..12 {
        record(&mut c, mhz(100 + 30 * i), mhz(100 + 30 * i));
    }
    assert_eq!(c.stage(), 12);
    // Top and bottom: the right channel. Left and right: the left channel.
    let top = record(&mut c, mhz(900), mhz(600));
    assert_eq!(top, vec![Notice::HoldEdge(12), Notice::RecordedEdge(mhz(600))]);
    let left = record(&mut c, mhz(700), mhz(900));
    assert_eq!(left, vec![Notice::HoldEdge(13), Notice::RecordedEdge(mhz(700))]);
    let bottom = record(&mut c, mhz(100), mhz(900));
    assert_eq!(bottom, vec![Notice::HoldEdge(14), Notice::RecordedEdge(mhz(900))]);
    let right = record(&mut c, mhz(1000), mhz(800));
    assert_eq!(right, vec![Notice::HoldEdge(15), Notice::RecordedEdge(mhz(1000))]);
    assert_eq!(c.tones().len(), 16);
    assert_eq!(&c.tones()[12..], &[mhz(600), mhz(700), mhz(900), mhz(1000)]);
}

#[test]
fn a_full_calibration_saves_tones_then_corners() {
    let mut c = Calibration::new();
    for i in 0..16 {
        record(&mut c, mhz(100 + 30 * i), mhz(100 + 30 * i));
    }
    assert_eq!(c.stage(), 16);
    let n = step(&mut c, 0, 0, NONE);
    assert_eq!(n, vec![Notice::SaveTones, Notice::HoverUpperLeft]);
    // Waiting for a button: silence shows nothing more.
    assert!(step(&mut c, 0, 0, NONE).is_empty());
    let n = step(&mut c, mhz(200), mhz(200), NONE);
    assert_eq!(n, vec![Notice::CaptureCorner]);
    assert!(c.waits_for_corner());
    c.record_corner(10, 20);
    assert_eq!(c.stage(), 17);
    assert!(!c.waits_for_corner());
    assert!(step(&mut c, mhz(200), mhz(200), NONE).is_empty());
    let n = step(&mut c, 0, 0, NONE);
    assert_eq!(n, vec![Notice::SaveTones, Notice::HoverLowerRight]);
    let n = step(&mut c, mhz(200), mhz(200), NONE);
    assert_eq!(n, vec![Notice::CaptureCorner]);
    c.record_corner(1930, 1100);
    assert_eq!(c.corners(), &vec![10, 20, 1930, 1100]);
    assert!(c.running());
    let n = step(&mut c, 0, 0, NONE);
    assert_eq!(n, vec![Notice::SaveTones, Notice::Finish]);
    assert!(!c.running());
    // Later silences repeat the end.
    let n = step(&mut c, 0, 0, NONE);
    assert_eq!(n, vec![Notice::SaveTones, Notice::Finish]);
    assert!(step(&mut c, mhz(200), mhz(200), NONE).is_empty());
}

#[test]
fn skipping_goes_straight_to_the_corners_and_saves_no_tones() {
    let mut c = Calibration::new();
    let n = step(&mut c, 0, 0, SKIP);
    assert_eq!(n, vec![Notice::HoverUpperLeft]);
    assert_eq!(c.stage(), 16);
    assert!(c.skipped());
    assert_eq!(step(&mut c, mhz(300), mhz(300), SKIP), vec![Notice::CaptureCorner]);
    c.record_corner(0, 0);
    assert_eq!(step(&mut c, 0, 0, SKIP), vec![Notice::HoverLowerRight]);
    assert_eq!(step(&mut c, mhz(300), mhz(300), SKIP), vec![Notice::CaptureCorner]);
    c.record_corner(800, 600);
    assert_eq!(step(&mut c, 0, 0, SKIP), vec![Notice::Finish]);
    assert!(!c.running());
    assert!(c.tones().is_empty());
}

#[test]
fn skipping_happens_once_even_mid_way() {
    let mut c = Calibration::new();
    record(&mut c, mhz(100), mhz(100));
    assert_eq!(c.stage(), 1);
    let n = step(&mut c, 0, 0, SKIP);
    assert_eq!(c.stage(), 16);
    assert_eq!(n, vec![Notice::HoverUpperLeft]);
    // The flag has done its work: the stage is not reset again.
    step(&mut c, mhz(300), mhz(300), SKIP);
    c.record_corner(5, 5);
    step(&mut c, 0, 0, SKIP);
    assert_eq!(c.stage(), 17);
}

#[test]
fn holding_before_the_prompt_loses_that_tone() {
    let mut c = Calibration::new();
    // The input is held from the first reading on: the readings are taken, but as
    // no prompt was shown the tone is not recorded.
    for _ in 0..SAMPLES_PER_TONE {
        step(&mut c, mhz(100), mhz(100), NONE);
    }
    assert!(step(&mut c, mhz(100), mhz(100), NONE).is_empty());
    assert!(step(&mut c, 0, 0, NONE).is_empty());
    assert_eq!(c.stage(), 1);
    assert!(c.tones().is_empty());
    for i in 1..16 {
        record(&mut c, mhz(100 + 30 * i), mhz(100 + 30 * i));
    }
    assert_eq!(c.tones().len(), 15);
    // With a tone missing the tones cannot be saved.
    assert!(!c.can_step(0, 0, NONE));
    assert!(c.can_step(mhz(200), mhz(200), NONE));
}

#[test]
fn the_threshold_itself_counts_as_silence_while_measuring() {
    let mut c = Calibration::new();
    // An average of exactly 50 Hz prompts rather than measures.
    assert_eq!(step(&mut c, mhz(50), mhz(50), NONE), vec![Notice::HoldButton(0)]);
    assert_eq!(step(&mut c, 50_001, mhz(50), NONE), vec![Notice::Progress(0)]);
}

#[test]
fn only_the_skip_flag_changes_a_calibration_step() {
    let mut a = Calibration::new();
    let mut b = Calibration::new();
    let inputs = [(0, 0), (300, 300), (0, 0), (300, 300), (0, 0), (0, 0)];
    for (l, r) in inputs.iter() {
        let na = step(&mut a, mhz(*l), mhz(*r), SKIP);
        // Every other flag set as well.
        let nb = step(&mut b, mhz(*l), mhz(*r), SKIP | 1 | 2 | 4 | 16);
        assert_eq!(na, nb);
        if na == vec![Notice::CaptureCorner] {
            a.record_corner(3, 4);
            b.record_corner(3, 4);
        }
        assert_eq!(a.stage(), b.stage());
        assert_eq!(a.waiting(), b.waiting());
        assert_eq!(a.running(), b.running());
    }
    assert!(!a.running());
}
