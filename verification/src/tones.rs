//! Tones in millihertz, the zones they fall in, and the search for the button a tone stands for.
//!
//! A tone is an `i64` number of millihertz. The controller looks at the average
//! of the two channels; to keep that exact, it works with the sum of the two
//! channels, which is twice the average.
use vstd::prelude::*;

verus! {

/// Below this average (50 Hz) nothing is pressed.
pub const SILENCE_BELOW: i64 = 50_000;

/// From the silence threshold up to this average (525 Hz) a button is pressed;
/// from here on the touch screen is touched.
pub const SCREEN_FROM: i64 = 525_000;

/// How many calibrated tones the button search walks over at most.
pub const SEARCH_SPAN: usize = 13;

/// What a pair of channel tones stands for.
#[derive(Clone, Copy, Debug, PartialEq, Eq, Structural)]
pub enum Zone {
    /// The average lies below 50 Hz.
    Silence,
    /// The average lies in [50 Hz, 525 Hz).
    Buttons,
    /// The average is 525 Hz or more.
    Screen,
}

/// The zone of the average of `left` and `right`.
pub open spec fn zone_of(left: i64, right: i64) -> Zone {
    if left + right < 2 * SILENCE_BELOW {
        Zone::Silence
    } else if left + right < 2 * SCREEN_FROM {
        Zone::Buttons
    } else {
        Zone::Screen
    }
}

/// The zone of the average of `left` and `right`.
pub fn zone(left: i64, right: i64) -> (z: Zone)
    ensures
        z == zone_of(left, right),
{
    let sum: i128 = left as i128 + right as i128;
    if sum < 2 * SILENCE_BELOW as i128 {
        Zone::Silence
    } else if sum < 2 * SCREEN_FROM as i128 {
        Zone::Buttons
    } else {
        Zone::Screen
    }
}

/// Twice the distance between the channel average and `tone`: `|sum - 2 tone|`.
pub open spec fn gap(sum: int, tone: i64) -> int {
    if sum >= 2 * tone {
        sum - 2 * tone
    } else {
        2 * tone - sum
    }
}

/// The first index `j` in `from .. SEARCH_SPAN`, with `j >= 1`, at which the distance to
/// `tones[j]` is larger than the distance to `tones[j - 1]`.
pub open spec fn first_rise(sum: int, tones: Seq<i64>, from: int) -> Option<int>
    decreases SEARCH_SPAN - from,
{
    if from < 0 || from >= SEARCH_SPAN {
        None
    } else if from >= 1 && gap(sum, tones[from]) > gap(sum, tones[from - 1]) {
        Some(from)
    } else {
        first_rise(sum, tones, from + 1)
    }
}

/// The button that the search settles on: the one before the first rise of the
/// distance, or button 0 when the distance never rises within the span.
pub open spec fn nearest_button(sum: int, tones: Seq<i64>) -> int {
    match first_rise(sum, tones, 0) {
        Some(j) => j - 1,
        None => 0,
    }
}

/// The last index that the search reads.
pub open spec fn last_read(sum: int, tones: Seq<i64>) -> int {
    match first_rise(sum, tones, 0) {
        Some(j) => j,
        None => SEARCH_SPAN - 1,
    }
}

pub proof fn lemma_first_rise_bounds(sum: int, tones: Seq<i64>, from: int)
    requires
        0 <= from,
    ensures
        first_rise(sum, tones, from) matches Some(j) ==> from <= j < SEARCH_SPAN && 1 <= j,
    decreases SEARCH_SPAN - from,
{
    if from < SEARCH_SPAN && !(from >= 1 && gap(sum, tones[from]) > gap(sum, tones[from - 1])) {
        lemma_first_rise_bounds(sum, tones, from + 1);
    }
}

/// The search always settles on one of the twelve mapped buttons.
pub proof fn lemma_nearest_button_range(sum: int, tones: Seq<i64>)
    ensures
        0 <= nearest_button(sum, tones) < SEARCH_SPAN - 1,
        nearest_button(sum, tones) < last_read(sum, tones) || nearest_button(sum, tones) == 0,
        0 <= last_read(sum, tones) < SEARCH_SPAN,
{
    lemma_first_rise_bounds(sum, tones, 0);
}

/// What the search knows at each index: before the first rise the distance never grew,
/// at the rise it grew; with no rise it never grew from `from` on.
proof fn lemma_rise_facts(sum: int, tones: Seq<i64>, from: int)
    requires
        0 <= from,
    ensures
        match first_rise(sum, tones, from) {
            Some(j) => {
                &&& from <= j < SEARCH_SPAN && 1 <= j
                &&& gap(sum, tones[j]) > gap(sum, tones[j - 1])
                &&& forall|m: int| from <= m < j && 1 <= m ==> #[trigger] gap(sum, tones[m]) <= gap(sum, tones[m - 1])
            },
            None => forall|m: int| from <= m < SEARCH_SPAN && 1 <= m ==> #[trigger] gap(sum, tones[m]) <= gap(sum, tones[m - 1]),
        },
    decreases SEARCH_SPAN - from,
{
    if from < SEARCH_SPAN && !(from >= 1 && gap(sum, tones[from]) > gap(sum, tones[from - 1])) {
        lemma_rise_facts(sum, tones, from + 1);
    }
}

/// Where the distance never grows between `a` and `b`, it is no larger at `b` than at `a`.
proof fn lemma_never_grows(sum: int, tones: Seq<i64>, a: int, b: int)
    requires
        0 <= a <= b,
        forall|m: int| a < m <= b ==> #[trigger] gap(sum, tones[m]) <= gap(sum, tones[m - 1]),
    ensures
        gap(sum, tones[b]) <= gap(sum, tones[a]),
    decreases b - a,
{
    if a < b {
        lemma_never_grows(sum, tones, a, b - 1);
        assert(gap(sum, tones[b]) <= gap(sum, tones[b - 1]));
    }
}

/// With the thirteen searched tones in rising order, the search finds a nearest one:
/// when the "Top" tone (index 12) is farther than the last button, the answer is a
/// button at least as near as every searched tone; otherwise the "Top" tone is a nearest
/// one, and the answer is button 0.
pub proof fn lemma_sorted_tones_nearest(sum: int, tones: Seq<i64>)
    requires
        tones.len() >= SEARCH_SPAN,
        forall|a: int, b: int| 0 <= a < b < SEARCH_SPAN ==> tones[a] < tones[b],
    ensures
        gap(sum, tones[12]) > gap(sum, tones[11]) ==> forall|m: int| 0 <= m < SEARCH_SPAN
            ==> gap(sum, tones[nearest_button(sum, tones)]) <= #[trigger] gap(sum, tones[m]),
        gap(sum, tones[12]) <= gap(sum, tones[11]) ==> {
            &&& nearest_button(sum, tones) == 0
            &&& forall|m: int| 0 <= m < SEARCH_SPAN ==> gap(sum, tones[12]) <= #[trigger] gap(sum, tones[m])
        },
{
    lemma_rise_facts(sum, tones, 0);
    match first_rise(sum, tones, 0) {
        Some(j) => {
            assert(2 * tones[j] > sum);
            assert forall|m: int| 0 <= m < SEARCH_SPAN implies gap(sum, tones[j - 1]) <= #[trigger] gap(sum, tones[m]) by {
                if m < j {
                    lemma_never_grows(sum, tones, m, j - 1);
                } else {
                    assert(tones[j] <= tones[m]);
                }
            }
            if gap(sum, tones[12]) <= gap(sum, tones[11]) {
                assert(j <= 11 || j == 12);
                if j <= 11 {
                    assert(tones[j] < tones[11] && tones[11] < tones[12]);
                }
            }
        },
        None => {
            assert forall|m: int| 0 <= m < SEARCH_SPAN implies gap(sum, tones[12]) <= #[trigger] gap(sum, tones[m]) by {
                lemma_never_grows(sum, tones, m, 12);
            }
        },
    }
}

/// Twice the distance between `sum / 2` and `tone`.
pub(crate) fn gap_exec(sum: i128, tone: i64) -> (g: i128)
    requires
        -0x1_0000_0000_0000_0000 <= sum <= 0x1_0000_0000_0000_0000,
    ensures
        g == gap(sum as int, tone),
{
    let twice: i128 = 2 * tone as i128;
    if sum >= twice {
        sum - twice
    } else {
        twice - sum
    }
}

/// The button whose calibrated tone the average of `left` and `right` is taken for.
///
/// Walks the first thirteen tones and stops as soon as the distance grows; the
/// button before that point is the answer. If the distance keeps shrinking
/// (or stays level) over the whole span, the answer is button 0.
pub fn find_button(left: i64, right: i64, tones: &Vec<i64>) -> (i: usize)
    requires
        last_read(left + right, tones@) < tones.len(),
    ensures
        i == nearest_button(left + right, tones@),
        i < SEARCH_SPAN - 1,
{
    proof {
        lemma_nearest_button_range(left + right, tones@);
    }
    let sum: i128 = left as i128 + right as i128;
    let ghost s = left + right;
    let mut best: i128 = i128::MAX;
    let mut j: usize = 0;
    while j < SEARCH_SPAN
        invariant
            sum == s,
            s == left + right,
            -0x1_0000_0000_0000_0000 <= sum <= 0x1_0000_0000_0000_0000,
            j <= SEARCH_SPAN,
            last_read(s, tones@) < tones.len(),
            first_rise(s, tones@, 0) == first_rise(s, tones@, j as int),
            j == 0 ==> best == i128::MAX,
            1 <= j ==> j - 1 < tones.len() && best == gap(s, tones@[j - 1]),
        decreases SEARCH_SPAN - j,
    {
        proof {
            lemma_first_rise_bounds(s, tones@, j as int);
        }
        let g = gap_exec(sum, tones[j]);
        if g > best {
            assert(first_rise(s, tones@, j as int) == Some(j as int));
            return j - 1;
        }
        best = g;
        j = j + 1;
    }
    0
}

} // verus!
