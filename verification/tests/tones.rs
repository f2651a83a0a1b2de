use rpbc::tones::{find_button, zone, Zone};

/// Hertz to millihertz.
fn mhz(hz: i64) -> i64 {
    hz * 1000
}

#[test]
fn zones_split_at_50_and_525_hertz() {
    assert_eq!(zone(0, 0), Zone::Silence);
    assert_eq!(zone(mhz(49), mhz(50)), Zone::Silence);
    assert_eq!(zone(mhz(50), mhz(50)), Zone::Buttons);
    // The average counts, not either channel.
    assert_eq!(zone(mhz(10), mhz(90)), Zone::Buttons);
    assert_eq!(zone(mhz(524), mhz(525)), Zone::Buttons);
    assert_eq!(zone(524_999, 525_000), Zone::Buttons);
    assert_eq!(zone(mhz(525), mhz(525)), Zone::Screen);
    assert_eq!(zone(mhz(400), mhz(700)), Zone::Screen);
}

#[test]
fn zones_take_extreme_tones() {
    assert_eq!(zone(i64::MAX, i64::MAX), Zone::Screen);
    assert_eq!(zone(i64::MIN, i64::MIN), Zone::Silence);
    assert_eq!(zone(i64::MIN, i64::MAX), Zone::Silence);
}

fn ladder() -> Vec<i64> {
    // Twelve buttons from 100 Hz to 430 Hz in steps of 30 Hz, then the screen edges.
    let mut tones: Vec<i64> = (0..12).map(|i| mhz(100 + 30 * i)).collect();
    tones.extend_from_slice(&[mhz(600), mhz(700), mhz(900), mhz(1000)]);
    tones
}

#[test]
fn the_nearest_button_is_found() {
    let tones = ladder();
    assert_eq!(find_button(mhz(100), mhz(100), &tones), 0);
    assert_eq!(find_button(mhz(128), mhz(128), &tones), 1);
    assert_eq!(find_button(mhz(131), mhz(129), &tones), 1);
    assert_eq!(find_button(mhz(250), mhz(250), &tones), 5);
    assert_eq!(find_button(mhz(400), mhz(400), &tones), 10);
}

#[test]
fn a_tie_goes_to_the_later_button() {
    let tones = ladder();
    // 115 Hz lies half way between 100 Hz and 130 Hz: the distance does not grow at 130 Hz.
    assert_eq!(find_button(mhz(115), mhz(115), &tones), 1);
}

#[test]
fn when_the_distance_never_grows_the_answer_is_button_zero() {
    let tones = ladder();
    // At the last button the distance grows again at the "Top" tone (600 Hz).
    assert_eq!(find_button(mhz(430), mhz(430), &tones), 11);
    // Past it, the distance shrinks all the way to the "Top" tone.
    assert_eq!(find_button(mhz(520), mhz(520), &tones), 0);
}

#[test]
fn the_search_can_stop_early_on_short_calibrations() {
    // Only the tones up to the first rise are read.
    let tones = vec![mhz(100), mhz(200), mhz(300)];
    assert_eq!(find_button(mhz(100), mhz(100), &tones), 0);
    assert_eq!(find_button(mhz(200), mhz(200), &tones), 1);
}

#[test]
fn with_rising_tones_the_search_finds_a_nearest_button() {
    let tones = ladder();
    let gap = |sum: i64, t: i64| (sum - 2 * t).abs();
    for avg_hz in (50..600).step_by(7) {
        let sum = 2 * mhz(avg_hz);
        let i = find_button(mhz(avg_hz), mhz(avg_hz), &tones);
        if gap(sum, tones[12]) > gap(sum, tones[11]) {
            for m in 0..13 {
                assert!(gap(sum, tones[i]) <= gap(sum, tones[m]), "{} Hz: {} vs {}", avg_hz, i, m);
            }
        } else {
            // Nearest to the "Top" tone: the search answers button 0.
            assert_eq!(i, 0);
        }
    }
}
