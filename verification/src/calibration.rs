//! The calibration: records the tone of every button and screen edge, then the
//! corners of the screen area that the touch screen stands for.
//!
//! The calibration goes through stages. Stages 0 to 11 record the twelve buttons
//! and stages 12 to 15 the four screen edges: for each, the player is asked to
//! hold the input; [`SAMPLES_PER_TONE`] readings are averaged; once the input is
//! let go the next stage begins. Stages 16 and 17 ask for the upper-left and the
//! lower-right corner of the screen area, which the mouse position gives. At
//! stage 18 the calibration is done.
use vstd::prelude::*;
use crate::flags::{Flag, flag_set, has_flag};
use crate::layout::INPUT_COUNT;
use crate::tones::SILENCE_BELOW;

verus! {

/// How many readings are averaged into one calibrated tone.
pub const SAMPLES_PER_TONE: u32 = 200;

/// The first stage that asks for a screen corner.
pub const CORNER_STAGE: usize = 16;

/// The stage at which the calibration is done.
pub const DONE_STAGE: usize = 18;

/// What the calibration asks to be shown or done, in order.
#[derive(Clone, Copy, Debug, PartialEq, Eq, Structural)]
pub enum Notice {
    /// Ask to hold the button with this index.
    HoldButton(usize),
    /// Ask to hold the stylus on the screen edge with this input index.
    HoldEdge(usize),
    /// This many readings of the current input are in.
    Progress(u32),
    /// A button tone, in millihertz, was recorded; it may be let go.
    RecordedButton(i64),
    /// A screen edge tone, in millihertz, was recorded; the stylus may be lifted.
    RecordedEdge(i64),
    /// Save the recorded tones (all sixteen are there).
    SaveTones,
    /// Ask to put the cursor on the upper-left corner and press a button.
    HoverUpperLeft,
    /// Ask to put the cursor on the lower-right corner and press a button.
    HoverLowerRight,
    /// Read the mouse position and hand it to [`Calibration::record_corner`].
    CaptureCorner,
    /// Save the corners (all four are there); the calibration is over.
    Finish,
}

/// The fields of a calibration, which [`Calibration`] keeps well formed.
struct Record {
    /// The tones recorded so far, in millihertz.
    tones: Vec<i64>,
    /// The corner coordinates recorded so far: x, y of the upper-left, then of the lower-right corner.
    corners: Vec<i32>,
    /// The current stage.
    stage: usize,
    /// How many readings of the current input are in.
    samples: u32,
    /// The sum of the readings of the current input, each counted twice
    /// (the sum of both channels, or twice one channel).
    total: i128,
    /// Whether the calibration waits for the player: a prompt was shown, or a tone is
    /// ready to be recorded.
    waiting: bool,
    /// Whether the tone stages were skipped.
    skipped: bool,
    /// Whether the program is to keep running.
    running: bool,
    /// The stage at which each recorded tone was measured.
    origins: Ghost<Seq<int>>,
}

/// The state of a calibration. It is always well formed (see `Record::wf`).
pub struct Calibration {
    record: Record,
}

/// The calibration as plain values.
pub struct CalibrationView {
    pub tones: Seq<i64>,
    pub corners: Seq<i32>,
    pub stage: int,
    pub samples: int,
    pub total: int,
    pub waiting: bool,
    pub skipped: bool,
    pub running: bool,
    pub origins: Seq<int>,
}

impl View for Record {
    type V = CalibrationView;

    closed spec fn view(&self) -> CalibrationView {
        CalibrationView {
            tones: self.tones@,
            corners: self.corners@,
            stage: self.stage as int,
            samples: self.samples as int,
            total: self.total as int,
            waiting: self.waiting,
            skipped: self.skipped,
            running: self.running,
            origins: self.origins@,
        }
    }
}

/// The calibration after the tone stages are skipped, if the flags ask for that and
/// it has not been done yet.
pub open spec fn skip_adjusted(v: CalibrationView, flags: u128) -> CalibrationView {
    if flag_set(flags, Flag::SkipPitch) && !v.skipped {
        CalibrationView { skipped: true, stage: CORNER_STAGE as int, ..v }
    } else {
        v
    }
}

/// Whether the average of the channels is above the silence threshold.
pub open spec fn loud(left: i64, right: i64) -> bool {
    left + right > 2 * SILENCE_BELOW
}

/// Whether the average of the channels is below the silence threshold.
pub open spec fn quiet(left: i64, right: i64) -> bool {
    left + right < 2 * SILENCE_BELOW
}

/// Twice the reading that a stage records: the average of both channels for a
/// button, the right channel for the top and bottom edges, the left one for the
/// left and right edges.
pub open spec fn reading(stage: int, left: i64, right: i64) -> int {
    if stage < 12 {
        left + right
    } else if stage % 2 == 0 {
        2 * right
    } else {
        2 * left
    }
}

/// The recorded tone: the mean of the readings, rounded down.
pub open spec fn mean(total: int) -> int {
    total / (2 * SAMPLES_PER_TONE as int)
}

/// One step of a stage that records a tone.
pub open spec fn measuring(v: CalibrationView, left: i64, right: i64) -> (CalibrationView, Seq<Notice>) {
    let button = v.stage < 12;
    if loud(left, right) {
        if v.samples >= SAMPLES_PER_TONE {
            if v.waiting {
                let t = mean(v.total);
                (
                    CalibrationView { tones: v.tones.push(t as i64), origins: v.origins.push(v.stage), waiting: false, ..v },
                    seq![if button { Notice::RecordedButton(t as i64) } else { Notice::RecordedEdge(t as i64) }],
                )
            } else {
                (v, seq![])
            }
        } else {
            (
                CalibrationView {
                    total: v.total + reading(v.stage, left, right),
                    samples: v.samples + 1,
                    ..v
                },
                seq![Notice::Progress(v.samples as u32)],
            )
        }
    } else {
        if v.samples >= SAMPLES_PER_TONE {
            (CalibrationView { stage: v.stage + 1, samples: 0, total: 0, ..v }, seq![])
        } else if !v.waiting {
            (
                CalibrationView { waiting: true, ..v },
                seq![if button { Notice::HoldButton(v.stage as usize) } else { Notice::HoldEdge(v.stage as usize) }],
            )
        } else {
            (v, seq![])
        }
    }
}

/// One step of the corner stages and of the end.
pub open spec fn finishing(v: CalibrationView, left: i64, right: i64) -> (CalibrationView, Seq<Notice>) {
    if quiet(left, right) {
        let save: Seq<Notice> = if !v.skipped && !v.waiting { seq![Notice::SaveTones] } else { seq![] };
        if v.stage == CORNER_STAGE {
            if !v.waiting {
                (CalibrationView { waiting: true, ..v }, save.push(Notice::HoverUpperLeft))
            } else {
                (v, save)
            }
        } else if v.stage == CORNER_STAGE + 1 {
            if !v.waiting {
                (CalibrationView { waiting: true, ..v }, save.push(Notice::HoverLowerRight))
            } else {
                (v, save)
            }
        } else {
            (CalibrationView { running: false, ..v }, save.push(Notice::Finish))
        }
    } else if v.waiting {
        (v, seq![Notice::CaptureCorner])
    } else {
        (v, seq![])
    }
}

/// One step of the calibration on a pair of channel tones.
pub open spec fn next(v: CalibrationView, left: i64, right: i64, flags: u128) -> (CalibrationView, Seq<Notice>) {
    let w = skip_adjusted(v, flags);
    if w.stage < CORNER_STAGE {
        measuring(w, left, right)
    } else {
        finishing(w, left, right)
    }
}

/// Whether a step would save the tones.
pub open spec fn saves_tones(v: CalibrationView, left: i64, right: i64, flags: u128) -> bool {
    let w = skip_adjusted(v, flags);
    w.stage >= CORNER_STAGE && quiet(left, right) && !w.skipped && !w.waiting
}

/// Tones are recorded at most once per stage, in stage order: each recorded tone knows
/// its stage, the stages rise strictly, and a tone of the current stage exists only
/// once its readings are complete and it was taken.
pub open spec fn recorded_in_order(v: CalibrationView) -> bool {
    &&& v.origins.len() == v.tones.len()
    &&& forall|i: int, j: int| 0 <= i < j < v.origins.len() ==> v.origins[i] < v.origins[j]
    &&& forall|i: int| 0 <= i < v.origins.len() ==> 0 <= #[trigger] v.origins[i] < INPUT_COUNT
    &&& forall|i: int| 0 <= i < v.origins.len() ==> #[trigger] v.origins[i] < v.stage
        || (v.origins[i] == v.stage && v.samples == SAMPLES_PER_TONE && !v.waiting)
}

/// The bound on a sum of `n` readings.
pub open spec fn total_fits(total: int, n: int) -> bool {
    -n * 0x1_0000_0000_0000_0000 <= total <= n * 0xffff_ffff_ffff_fffe
}

impl Record {
    /// What holds of every calibration between steps.
    spec fn wf(&self) -> bool {
        &&& self.samples <= SAMPLES_PER_TONE
        &&& total_fits(self.total as int, self.samples as int)
        &&& self.stage <= DONE_STAGE
        &&& self.stage == DONE_STAGE ==> !self.waiting
        &&& self.stage >= CORNER_STAGE ==> self.corners.len() >= 2 * (self.stage - CORNER_STAGE)
        &&& recorded_in_order(self@)
    }

    /// Whether a step on these tones runs to its end: when it saves the tones, all
    /// sixteen are there.
    spec fn can_take(&self, left: i64, right: i64, flags: u128) -> bool {
        saves_tones(self@, left, right, flags) ==> self.tones.len() >= INPUT_COUNT
    }

    /// Whether the calibration waits for a corner position (after [`Notice::CaptureCorner`]).
    spec fn awaits_corner(&self) -> bool {
        self.waiting && CORNER_STAGE <= self.stage < DONE_STAGE
    }

    /// A calibration at its first stage, with nothing recorded.
    fn new() -> (c: Record)
        ensures
            c.wf(),
            c@ == (CalibrationView {
                tones: seq![],
                corners: seq![],
                stage: 0,
                samples: 0,
                total: 0,
                waiting: false,
                    skipped: false,
                running: true,
                origins: seq![],
            }),
    {
        Record {
            tones: Vec::new(),
            corners: Vec::new(),
            stage: 0,
            samples: 0,
            total: 0,
            waiting: false,
            skipped: false,
            running: true,
            origins: Ghost(Seq::empty()),
        }
    }

    /// Whether a step on these tones runs to its end (see `can_take`).
    fn can_step(&self, left: i64, right: i64, flags: u128) -> (r: bool)
        ensures
            r == self.can_take(left, right, flags),
    {
        let skipping = has_flag(flags, Flag::SkipPitch) && !self.skipped;
        let stage = if skipping { CORNER_STAGE } else { self.stage };
        let skipped = skipping || self.skipped;
        let sum: i128 = left as i128 + right as i128;
        let saves = stage >= CORNER_STAGE && sum < 2 * SILENCE_BELOW as i128 && !skipped && !self.waiting;
        !saves || self.tones.len() >= INPUT_COUNT
    }

    /// The mean of the readings of the current input.
    fn mean_tone(&self) -> (t: i64)
        requires
            self.samples == SAMPLES_PER_TONE,
            total_fits(self.total as int, self.samples as int),
        ensures
            t == mean(self.total as int),
    {
        let total = self.total;
        if total >= 0 {
            let q: i128 = total / 400;
            assert(q <= 0x7fff_ffff_ffff_ffff) by (nonlinear_arith)
                requires
                    0 <= total <= 200 * 0xffff_ffff_ffff_fffe,
                    q == total / 400,
            ;
            q as i64
        } else {
            let q: i128 = (-total + 399) / 400;
            assert(-q == total / 400 && q <= 0x8000_0000_0000_0000) by (nonlinear_arith)
                requires
                    -200 * 0x1_0000_0000_0000_0000 <= total < 0,
                    q == (-total + 399) / 400,
            ;
            (-q) as i64
        }
    }

    /// One step of the calibration on a pair of channel tones, in millihertz.
    ///
    /// Returns what to show and do, in order. After [`Notice::CaptureCorner`] the caller
    /// reads the mouse position and hands it to [`Calibration::record_corner`].
    fn step(&mut self, left: i64, right: i64, flags: u128) -> (notices: Vec<Notice>)
        requires
            old(self).wf(),
            old(self).can_take(left, right, flags),
        ensures
            final(self).wf(),
            (final(self)@, notices@) == next(old(self)@, left, right, flags),
            notices@.contains(Notice::SaveTones) ==> {
                &&& final(self).tones.len() == INPUT_COUNT
                &&& forall|i: int| 0 <= i < INPUT_COUNT ==> final(self)@.origins[i] == i
            },
            notices@.contains(Notice::Finish) ==> final(self).corners.len() >= 4,
            notices@.contains(Notice::CaptureCorner) ==> final(self).awaits_corner(),
    {
        proof {
            lemma_notices_of_next(old(self)@, left, right, flags);
        }
        if has_flag(flags, Flag::SkipPitch) && !self.skipped {
            self.skipped = true;
            self.stage = CORNER_STAGE;
        }
        let mut notices: Vec<Notice> = Vec::new();
        let sum: i128 = left as i128 + right as i128;
        if self.stage < CORNER_STAGE {
            let button = self.stage < 12;
            if sum > 2 * SILENCE_BELOW as i128 {
                if self.samples >= SAMPLES_PER_TONE {
                    if self.waiting {
                        let t = self.mean_tone();
                        self.tones.push(t);
                        self.origins = Ghost(self.origins@.push(self.stage as int));
                        if button {
                            notices.push(Notice::RecordedButton(t));
                        } else {
                            notices.push(Notice::RecordedEdge(t));
                        }
                        self.waiting = false;
                    }
                } else {
                    let value: i128 = if button {
                        sum
                    } else if self.stage % 2 == 0 {
                        2 * right as i128
                    } else {
                        2 * left as i128
                    };
                    notices.push(Notice::Progress(self.samples));
                    self.total = self.total + value;
                    self.samples = self.samples + 1;
                }
            } else {
                if self.samples >= SAMPLES_PER_TONE {
                    self.stage = self.stage + 1;
                    self.samples = 0;
                    self.total = 0;
                } else if !self.waiting {
                    if button {
                        notices.push(Notice::HoldButton(self.stage));
                    } else {
                        notices.push(Notice::HoldEdge(self.stage));
                    }
                    self.waiting = true;
                }
            }
        } else {
            if sum < 2 * SILENCE_BELOW as i128 {
                if !self.skipped && !self.waiting {
                    proof {
                        lemma_full_record_is_in_input_order(self@);
                    }
                    notices.push(Notice::SaveTones);
                }
                if self.stage == CORNER_STAGE {
                    if !self.waiting {
                        notices.push(Notice::HoverUpperLeft);
                        self.waiting = true;
                    }
                } else if self.stage == CORNER_STAGE + 1 {
                    if !self.waiting {
                        notices.push(Notice::HoverLowerRight);
                        self.waiting = true;
                    }
                } else {
                    notices.push(Notice::Finish);
                    self.running = false;
                }
            } else if self.waiting {
                notices.push(Notice::CaptureCorner);
            }
        }
        notices
    }

    /// Whether the calibration waits for a corner position.
    fn waits_for_corner(&self) -> (r: bool)
        ensures
            r == self.awaits_corner(),
    {
        self.waiting && CORNER_STAGE <= self.stage && self.stage < DONE_STAGE
    }

    /// Records the mouse position as the corner that the calibration waits for, and
    /// moves on to the next stage.
    fn record_corner(&mut self, x: i32, y: i32)
        requires
            old(self).wf(),
            old(self).awaits_corner(),
        ensures
            final(self).wf(),
            final(self)@ == (CalibrationView {
                corners: old(self)@.corners.push(x).push(y),
                stage: old(self)@.stage + 1,
                waiting: false,
                ..old(self)@
            }),
    {
        self.corners.push(x);
        self.corners.push(y);
        self.stage = self.stage + 1;
        self.waiting = false;
    }
}


impl View for Calibration {
    type V = CalibrationView;

    closed spec fn view(&self) -> CalibrationView {
        self.record@
    }
}

impl Calibration {
    #[verifier::type_invariant]
    spec fn well_formed(self) -> bool {
        self.record.wf()
    }

    /// Whether a step on these tones runs to its end: when it saves the tones, all
    /// sixteen are there.
    pub open spec fn can_take(&self, left: i64, right: i64, flags: u128) -> bool {
        saves_tones(self@, left, right, flags) ==> self@.tones.len() >= INPUT_COUNT
    }

    /// Whether the calibration waits for a corner position (after [`Notice::CaptureCorner`]).
    pub open spec fn awaits_corner(&self) -> bool {
        self@.waiting && CORNER_STAGE <= self@.stage < DONE_STAGE
    }

    /// A calibration at its first stage, with nothing recorded.
    pub fn new() -> (c: Calibration)
        ensures
            c@ == (CalibrationView {
                tones: seq![],
                corners: seq![],
                stage: 0,
                samples: 0,
                total: 0,
                waiting: false,
                skipped: false,
                running: true,
                origins: seq![],
            }),
    {
        Calibration { record: Record::new() }
    }

    /// Whether a step on these tones runs to its end (see `can_take`).
    pub fn can_step(&self, left: i64, right: i64, flags: u128) -> (r: bool)
        ensures
            r == self.can_take(left, right, flags),
    {
        self.record.can_step(left, right, flags)
    }

    /// One step of the calibration on a pair of channel tones, in millihertz.
    ///
    /// Returns what to show and do, in order. After [`Notice::CaptureCorner`] the caller
    /// reads the mouse position and hands it to [`Calibration::record_corner`].
    /// When the tones are saved, all sixteen are there and each was measured at its
    /// own input's stage; when the calibration finishes, all four corner coordinates
    /// are there.
    pub fn step(&mut self, left: i64, right: i64, flags: u128) -> (notices: Vec<Notice>)
        requires
            old(self).can_take(left, right, flags),
        ensures
            (final(self)@, notices@) == next(old(self)@, left, right, flags),
            notices@.contains(Notice::SaveTones) ==> {
                &&& final(self)@.tones.len() == INPUT_COUNT
                &&& forall|i: int| 0 <= i < INPUT_COUNT ==> final(self)@.origins[i] == i
            },
            notices@.contains(Notice::Finish) ==> final(self)@.corners.len() >= 4,
            notices@.contains(Notice::CaptureCorner) ==> final(self).awaits_corner(),
    {
        proof {
            use_type_invariant(&*self);
        }
        let mut record = Record::new();
        std::mem::swap(&mut record, &mut self.record);
        let notices = record.step(left, right, flags);
        self.record = record;
        notices
    }

    /// Whether the calibration waits for a corner position.
    pub fn waits_for_corner(&self) -> (r: bool)
        ensures
            r == self.awaits_corner(),
    {
        self.record.waits_for_corner()
    }

    /// Records the mouse position as the corner that the calibration waits for, and
    /// moves on to the next stage.
    pub fn record_corner(&mut self, x: i32, y: i32)
        requires
            old(self).awaits_corner(),
        ensures
            final(self)@ == (CalibrationView {
                corners: old(self)@.corners.push(x).push(y),
                stage: old(self)@.stage + 1,
                waiting: false,
                ..old(self)@
            }),
    {
        proof {
            use_type_invariant(&*self);
        }
        let mut record = Record::new();
        std::mem::swap(&mut record, &mut self.record);
        record.record_corner(x, y);
        self.record = record;
    }

    /// The tones recorded so far, in millihertz.
    pub fn tones(&self) -> (r: &Vec<i64>)
        ensures
            r@ == self@.tones,
    {
        &self.record.tones
    }

    /// The corner coordinates recorded so far.
    pub fn corners(&self) -> (r: &Vec<i32>)
        ensures
            r@ == self@.corners,
    {
        &self.record.corners
    }

    /// The current stage.
    pub fn stage(&self) -> (r: usize)
        ensures
            r == self@.stage,
    {
        self.record.stage
    }

    /// How many readings of the current input are in.
    pub fn samples(&self) -> (r: u32)
        ensures
            r == self@.samples,
    {
        self.record.samples
    }

    /// The sum of the readings of the current input, each counted twice.
    pub fn total(&self) -> (r: i128)
        ensures
            r == self@.total,
    {
        self.record.total
    }

    /// Whether the calibration waits for the player.
    pub fn waiting(&self) -> (r: bool)
        ensures
            r == self@.waiting,
    {
        self.record.waiting
    }

    /// Whether the tone stages were skipped.
    pub fn skipped(&self) -> (r: bool)
        ensures
            r == self@.skipped,
    {
        self.record.skipped
    }

    /// Whether the program is to keep running.
    pub fn running(&self) -> (r: bool)
        ensures
            r == self@.running,
    {
        self.record.running
    }
}

/// Which notices a step can give, and in which stages.
proof fn lemma_notices_of_next(v: CalibrationView, left: i64, right: i64, flags: u128)
    ensures
        next(v, left, right, flags).1.contains(Notice::SaveTones) ==> saves_tones(v, left, right, flags),
        next(v, left, right, flags).1.contains(Notice::Finish) ==> skip_adjusted(v, flags).stage > CORNER_STAGE + 1,
        next(v, left, right, flags).1.contains(Notice::CaptureCorner) ==> {
            let w = skip_adjusted(v, flags);
            &&& w.stage >= CORNER_STAGE && w.waiting
            &&& next(v, left, right, flags).0 == w
        },
{
    let w = skip_adjusted(v, flags);
    let n = next(v, left, right, flags).1;
    if n.contains(Notice::SaveTones) || n.contains(Notice::Finish) || n.contains(Notice::CaptureCorner) {
        let j = choose|j: int| 0 <= j < n.len() && (n[j] == Notice::SaveTones || n[j] == Notice::Finish || n[j] == Notice::CaptureCorner);
        if w.stage < CORNER_STAGE {
            assert(n.len() <= 1);
            assert(n[j] != Notice::SaveTones && n[j] != Notice::Finish && n[j] != Notice::CaptureCorner);
        }
    }
    if n.contains(Notice::SaveTones) {
        let j = choose|j: int| 0 <= j < n.len() && n[j] == Notice::SaveTones;
        assert(n[j] == Notice::SaveTones);
    }
    if n.contains(Notice::Finish) {
        let j = choose|j: int| 0 <= j < n.len() && n[j] == Notice::Finish;
        assert(n[j] == Notice::Finish);
    }
    if n.contains(Notice::CaptureCorner) {
        let j = choose|j: int| 0 <= j < n.len() && n[j] == Notice::CaptureCorner;
        assert(n[j] == Notice::CaptureCorner);
    }
}

proof fn lemma_rising_lower(s: Seq<int>, i: int)
    requires
        0 <= i < s.len(),
        forall|a: int, b: int| 0 <= a < b < s.len() ==> s[a] < s[b],
        forall|a: int| 0 <= a < s.len() ==> 0 <= #[trigger] s[a],
    ensures
        s[i] >= i,
    decreases i,
{
    if i > 0 {
        lemma_rising_lower(s, i - 1);
    }
}

proof fn lemma_rising_upper(s: Seq<int>, i: int, bound: int)
    requires
        0 <= i < s.len(),
        forall|a: int, b: int| 0 <= a < b < s.len() ==> s[a] < s[b],
        forall|a: int| 0 <= a < s.len() ==> #[trigger] s[a] < bound,
    ensures
        s[i] <= bound - (s.len() - i),
    decreases s.len() - i,
{
    if i < s.len() - 1 {
        lemma_rising_upper(s, i + 1, bound);
    }
}

/// Whenever all sixteen tones are there (as when they are saved), there are exactly
/// sixteen, and the tone at each position was measured at that input's own stage: the
/// file stores every input's own tone under its name.
pub proof fn lemma_full_record_is_in_input_order(v: CalibrationView)
    requires
        recorded_in_order(v),
        v.tones.len() >= INPUT_COUNT,
    ensures
        v.tones.len() == INPUT_COUNT,
        forall|i: int| 0 <= i < INPUT_COUNT ==> v.origins[i] == i,
{
    let s = v.origins;
    if s.len() > INPUT_COUNT {
        lemma_rising_lower(s, INPUT_COUNT as int);
        assert(s[INPUT_COUNT as int] < INPUT_COUNT);
    }
    assert forall|i: int| 0 <= i < INPUT_COUNT implies v.origins[i] == i by {
        lemma_rising_lower(s, i);
        lemma_rising_upper(s, i, INPUT_COUNT as int);
    }
}

/// Once the tone stages are skipped, the tones are never saved.
pub proof fn lemma_skipped_never_saves(v: CalibrationView, left: i64, right: i64, flags: u128)
    requires
        v.skipped || flag_set(flags, Flag::SkipPitch),
    ensures
        !next(v, left, right, flags).1.contains(Notice::SaveTones),
{
    lemma_notices_of_next(v, left, right, flags);
}

/// A step never goes back a stage, and moves on by at most one (the skip aside).
pub proof fn lemma_stage_moves_forward(v: CalibrationView, left: i64, right: i64, flags: u128)
    ensures
        skip_adjusted(v, flags).stage <= next(v, left, right, flags).0.stage <= skip_adjusted(v, flags).stage + 1,
{
}


/// Of the flags, a calibration step reads only whether the tone stages are to be
/// skipped: two flag words that agree on that give the same step.
pub proof fn lemma_only_skip_flag_matters(v: CalibrationView, left: i64, right: i64, f1: u128, f2: u128)
    requires
        flag_set(f1, Flag::SkipPitch) == flag_set(f2, Flag::SkipPitch),
    ensures
        next(v, left, right, f1) == next(v, left, right, f2),
        saves_tones(v, left, right, f1) == saves_tones(v, left, right, f2),
{
}


/// A prompt names the input of the stage the calibration is at: a button for the twelve
/// button stages, a screen edge for the four edge stages. And a recorded tone is added
/// last, as the tone of the stage the calibration is at.
pub proof fn lemma_prompts_name_the_stage(v: CalibrationView, left: i64, right: i64, flags: u128)
    requires
        0 <= v.stage,
    ensures
        forall|i: usize| #[trigger] next(v, left, right, flags).1.contains(Notice::HoldButton(i))
            ==> i == skip_adjusted(v, flags).stage && i < 12,
        forall|i: usize| #[trigger] next(v, left, right, flags).1.contains(Notice::HoldEdge(i))
            ==> i == skip_adjusted(v, flags).stage && 12 <= i < CORNER_STAGE,
        forall|t: i64| #[trigger] next(v, left, right, flags).1.contains(Notice::RecordedButton(t))
            || next(v, left, right, flags).1.contains(Notice::RecordedEdge(t))
            ==> next(v, left, right, flags).0.tones == skip_adjusted(v, flags).tones.push(t)
                && next(v, left, right, flags).0.origins == skip_adjusted(v, flags).origins.push(skip_adjusted(v, flags).stage),
{
    let n = next(v, left, right, flags).1;
    assert forall|i: usize| #[trigger] n.contains(Notice::HoldButton(i)) implies i == skip_adjusted(v, flags).stage && i < 12 by {
        let j = choose|j: int| 0 <= j < n.len() && n[j] == Notice::HoldButton(i);
        assert(n[j] == Notice::HoldButton(i));
    }
    assert forall|i: usize| #[trigger] n.contains(Notice::HoldEdge(i)) implies i == skip_adjusted(v, flags).stage && 12 <= i < CORNER_STAGE by {
        let j = choose|j: int| 0 <= j < n.len() && n[j] == Notice::HoldEdge(i);
        assert(n[j] == Notice::HoldEdge(i));
    }
    assert forall|t: i64| #[trigger] n.contains(Notice::RecordedButton(t)) || n.contains(Notice::RecordedEdge(t)) implies
        next(v, left, right, flags).0.tones == skip_adjusted(v, flags).tones.push(t)
            && next(v, left, right, flags).0.origins == skip_adjusted(v, flags).origins.push(skip_adjusted(v, flags).stage) by {
        if n.contains(Notice::RecordedButton(t)) {
            let j = choose|j: int| 0 <= j < n.len() && n[j] == Notice::RecordedButton(t);
            assert(n[j] == Notice::RecordedButton(t));
        } else {
            let j = choose|j: int| 0 <= j < n.len() && n[j] == Notice::RecordedEdge(t);
            assert(n[j] == Notice::RecordedEdge(t));
        }
    }
}


/// A recorded tone is the mean of the readings of its stage, rounded down: it is taken
/// once all of them are in, and `400 t <= total < 400 (t + 1)` for the total of the
/// readings (each counted twice).
pub proof fn lemma_recorded_tone_is_mean(v: CalibrationView, left: i64, right: i64, flags: u128, t: i64)
    requires
        next(v, left, right, flags).1.contains(Notice::RecordedButton(t))
            || next(v, left, right, flags).1.contains(Notice::RecordedEdge(t)),
        total_fits(v.total, v.samples),
        0 <= v.samples <= SAMPLES_PER_TONE,
    ensures
        skip_adjusted(v, flags).samples == SAMPLES_PER_TONE,
        2 * SAMPLES_PER_TONE * t <= v.total < 2 * SAMPLES_PER_TONE * (t + 1),
{
    let n = next(v, left, right, flags).1;
    if n.contains(Notice::RecordedButton(t)) {
        let j = choose|j: int| 0 <= j < n.len() && n[j] == Notice::RecordedButton(t);
        assert(n[j] == Notice::RecordedButton(t));
    } else {
        let j = choose|j: int| 0 <= j < n.len() && n[j] == Notice::RecordedEdge(t);
        assert(n[j] == Notice::RecordedEdge(t));
    }
    let total = v.total;
    assert(mean(total) * 400 <= total < (mean(total) + 1) * 400) by (nonlinear_arith)
        requires
            mean(total) == total / 400,
    ;
    assert(-0x8000_0000_0000_0000 <= mean(total) <= 0x7fff_ffff_ffff_ffff) by (nonlinear_arith)
        requires
            mean(total) == total / 400,
            -200 * 0x1_0000_0000_0000_0000 <= total <= 200 * 0xffff_ffff_ffff_fffe,
    ;
}

} // verus!
