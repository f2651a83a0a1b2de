//! The calibration files: the recorded tones and the screen corners as JSON objects.
//!
//! A number in a JSON object is taken apart into its sign, its decimal mantissa and
//! its decimal exponent, as the `json` crate keeps it. Tones are written in hertz
//! with three decimals (that is, exactly their millihertz); corners as integers.
use vstd::prelude::*;
use crate::layout::{INPUT_COUNT, input_name, input_name_at};

verus! {

#[verifier::external_type_specification]
#[verifier::external_body]
pub struct ExJsonValue(json::JsonValue);

#[verifier::external_type_specification]
#[verifier::external_body]
pub struct ExJsonError(json::Error);

/// The members of a JSON object whose values are all numbers other than NaN, in the
/// object's order: each key with the sign, mantissa and exponent of its number.
pub uninterp spec fn json_members(value: json::JsonValue) -> Seq<(Seq<char>, (bool, u64, i16))>;

/// Whether a JSON value is an object whose values are all numbers, none of them NaN
/// (`Number::from_parts` never makes NaN).
pub uninterp spec fn json_is_number_object(value: json::JsonValue) -> bool;

/// The text that `JsonValue::pretty` gives for an object with these number members.
pub uninterp spec fn json_pretty_text(members: Seq<(Seq<char>, (bool, u64, i16))>, spaces: u16) -> Seq<char>;

/// What `json::parse` gives for a text, taken as the numbers of the members of the
/// parsed object, in order (`None` for a member that is not a number; no members for a
/// value that is not an object); `None` when the text is not JSON.
pub uninterp spec fn json_parsed_numbers(text: Seq<char>) -> Option<Seq<Option<(bool, u64, i16)>>>;

/// Ten to the power `n`.
pub open spec fn ten_to(n: nat) -> nat
    decreases n,
{
    if n == 0 {
        1
    } else {
        10 * ten_to((n - 1) as nat)
    }
}

/// The parts of a number as `Number::from_parts` stores them: trailing zeros of the
/// mantissa are dropped while the exponent is negative.
pub open spec fn normal_parts(positive: bool, mantissa: u64, exponent: i16) -> (bool, u64, i16)
    decreases (if exponent < 0 { -exponent } else { 0 }),
{
    if exponent < 0 && mantissa % 10 == 0 {
        normal_parts(positive, mantissa / 10, (exponent + 1) as i16)
    } else {
        (positive, mantissa, exponent)
    }
}

/// Whether members can be printed and read back as they are: the keys differ, every
/// exponent lies in `-17 ..= 0`, and a zero mantissa has exponent 0.
pub open spec fn plain_members(members: Seq<(Seq<char>, (bool, u64, i16))>) -> bool {
    &&& forall|i: int, j: int| 0 <= i < j < members.len() ==> members[i].0 != members[j].0
    &&& forall|i: int| 0 <= i < members.len() ==> -17 <= #[trigger] members[i].1.2 <= 0
    &&& forall|i: int| 0 <= i < members.len() && #[trigger] members[i].1.1 == 0 ==> members[i].1.2 == 0
}

/// The numbers of members, as a parse of their printed text gives them.
pub open spec fn member_numbers(members: Seq<(Seq<char>, (bool, u64, i16))>) -> Seq<Option<(bool, u64, i16)>> {
    members.map_values(|m: (Seq<char>, (bool, u64, i16))| Some(m.1))
}

/// Creates an empty JSON object (`JsonValue::new_object`).
#[verifier::external_body]
fn new_object() -> (value: json::JsonValue)
    ensures
        json_is_number_object(value),
        json_members(value) == Seq::<(Seq<char>, (bool, u64, i16))>::empty(),
{
    json::JsonValue::new_object()
}

/// Adds a number member under a new key (`JsonValue::insert` of `Number::from_parts`):
/// it comes last, with the parts that `from_parts` keeps.
#[verifier::external_body]
fn insert_number(object: &mut json::JsonValue, key: &str, positive: bool, mantissa: u64, exponent: i16)
    requires
        json_is_number_object(*old(object)),
        forall|i: int| 0 <= i < json_members(*old(object)).len() ==> json_members(*old(object))[i].0 != key@,
    ensures
        json_is_number_object(*final(object)),
        json_members(*final(object)) == json_members(*old(object)).push((key@, normal_parts(positive, mantissa, exponent))),
{
    let _ = object.insert(key, json::number::Number::from_parts(positive, mantissa, exponent));
}

/// Prints an object with indentation (`JsonValue::pretty`). Parsing the text again gives
/// the same numbers in the same order, when the members are plain.
#[verifier::external_body]
fn pretty(object: &json::JsonValue, spaces: u16) -> (text: String)
    requires
        json_is_number_object(*object),
    ensures
        text@ == json_pretty_text(json_members(*object), spaces),
        plain_members(json_members(*object)) ==> json_parsed_numbers(text@) == Some(member_numbers(json_members(*object))),
{
    object.pretty(spaces)
}

/// Parses a text (`json::parse`) and takes the members of the object apart into the
/// parts of their numbers.
#[verifier::external_body]
fn parse_numbers(text: &str) -> (r: Result<Vec<Option<(bool, u64, i16)>>, json::Error>)
    ensures
        match r {
            Ok(numbers) => json_parsed_numbers(text@) == Some(numbers@),
            Err(_) => json_parsed_numbers(text@) is None,
        },
{
    match json::parse(text) {
        Ok(value) => Ok(value.entries().map(|(_, member)| match member {
            json::JsonValue::Number(number) => Some(number.as_parts()),
            _ => None,
        }).collect()),
        Err(e) => Err(e),
    }
}

/// The magnitude of a number, in thousandths, rounded toward zero.
pub open spec fn thousandths(mantissa: u64, exponent: i16) -> nat {
    let k = exponent + 3;
    if k >= 0 {
        (mantissa as nat) * ten_to(k as nat)
    } else {
        (mantissa as nat) / ten_to((-k) as nat)
    }
}

/// A stored tone in millihertz: the number in thousandths, rounded toward zero and
/// held within the range of `i64`.
pub open spec fn millihertz_of(parts: (bool, u64, i16)) -> i64 {
    let t = thousandths(parts.1, parts.2);
    if parts.0 {
        if t > i64::MAX { i64::MAX } else { t as i64 }
    } else {
        if t > 0x8000_0000_0000_0000 { i64::MIN } else { (-t) as i64 }
    }
}

/// The `i64` that a `u64` mantissa is cast to.
pub open spec fn wrapped_signed(mantissa: u64) -> int {
    if mantissa <= i64::MAX {
        mantissa as int
    } else {
        mantissa - 0x1_0000_0000_0000_0000
    }
}

/// A stored corner coordinate, as `JsonValue::as_i32` takes it: a number with exponent 0
/// whose signed mantissa fits an `i32`.
pub open spec fn corner_of(parts: (bool, u64, i16)) -> Option<i32> {
    if parts.2 != 0 {
        None
    } else {
        let x = if parts.0 { wrapped_signed(parts.1) } else { -wrapped_signed(parts.1) };
        if i32::MIN <= x <= i32::MAX { Some(x as i32) } else { None }
    }
}

/// The tones in a parsed file: one per member, in order; `None` when the text is not
/// JSON or a member is not a number.
pub open spec fn tones_from(parsed: Option<Seq<Option<(bool, u64, i16)>>>) -> Option<Seq<i64>> {
    match parsed {
        None => None,
        Some(numbers) => if forall|i: int| 0 <= i < numbers.len() ==> #[trigger] numbers[i] is Some {
            Some(numbers.map_values(|n: Option<(bool, u64, i16)>| millihertz_of(n.unwrap())))
        } else {
            None
        },
    }
}

/// Whether a member is a number that is a corner coordinate.
pub open spec fn is_coordinate(n: Option<(bool, u64, i16)>) -> bool {
    n is Some && corner_of(n.unwrap()) is Some
}

/// The corner coordinates in a parsed file: one per member, in order; `None` when the
/// text is not JSON or a member is not such a coordinate.
pub open spec fn corners_from(parsed: Option<Seq<Option<(bool, u64, i16)>>>) -> Option<Seq<i32>> {
    match parsed {
        None => None,
        Some(numbers) => if forall|i: int| 0 <= i < numbers.len() ==> #[trigger] is_coordinate(numbers[i]) {
            Some(numbers.map_values(|n: Option<(bool, u64, i16)>| corner_of(n.unwrap()).unwrap()))
        } else {
            None
        },
    }
}

/// The magnitude of a signed number.
pub open spec fn magnitude(x: int) -> int {
    if x >= 0 { x } else { -x }
}

/// How a tone is written: its millihertz as a mantissa with exponent -3.
pub open spec fn tone_parts(t: i64) -> (bool, u64, i16) {
    normal_parts(t >= 0, magnitude(t as int) as u64, -3i16)
}

/// How a corner coordinate is written: an integer.
pub open spec fn corner_parts(c: i32) -> (bool, u64, i16) {
    normal_parts(c >= 0, magnitude(c as int) as u64, 0i16)
}

/// The members of the tones file: each input's name with its tone.
pub open spec fn tone_members(tones: Seq<i64>) -> Seq<(Seq<char>, (bool, u64, i16))> {
    Seq::new(INPUT_COUNT as nat, |i: int| (input_name_at(i), tone_parts(tones[i])))
}

/// The names of the corner coordinates, in file order.
pub open spec fn corner_key(i: int) -> Seq<char> {
    if i == 0 {
        "left"@
    } else if i == 1 {
        "top"@
    } else if i == 2 {
        "right"@
    } else {
        "bottom"@
    }
}

/// The members of the corners file.
pub open spec fn corner_members(corners: Seq<i32>) -> Seq<(Seq<char>, (bool, u64, i16))> {
    Seq::new(4, |i: int| (corner_key(i), corner_parts(corners[i])))
}

proof fn lemma_ten_to_positive(n: nat)
    ensures
        ten_to(n) >= 1,
    decreases n,
{
    if n > 0 {
        lemma_ten_to_positive((n - 1) as nat);
    }
}

/// Normalising keeps the value in thousandths, keeps the exponent in `-3 ..= 0`, and
/// gives a zero mantissa exponent 0.
proof fn lemma_normal_parts(positive: bool, mantissa: u64, exponent: i16)
    requires
        -3 <= exponent <= 0,
    ensures
        normal_parts(positive, mantissa, exponent).0 == positive,
        thousandths(normal_parts(positive, mantissa, exponent).1, normal_parts(positive, mantissa, exponent).2)
            == thousandths(mantissa, exponent),
        -3 <= normal_parts(positive, mantissa, exponent).2 <= 0,
        normal_parts(positive, mantissa, exponent).1 == 0 ==> normal_parts(positive, mantissa, exponent).2 == 0,
    decreases -exponent,
{
    if exponent < 0 && mantissa % 10 == 0 {
        let m = mantissa / 10;
        let e = (exponent + 1) as i16;
        lemma_normal_parts(positive, m, e);
        let k = (exponent + 3) as nat;
        assert(ten_to(k + 1) == 10 * ten_to(k));
        assert(mantissa == 10 * m);
        assert(m * ten_to(k + 1) == mantissa * ten_to(k)) by (nonlinear_arith)
            requires
                ten_to(k + 1) == 10 * ten_to(k),
                mantissa == 10 * m,
        ;
    }
}

/// The keys of the tones file differ.
proof fn lemma_input_names_differ()
    ensures
        forall|i: int, j: int| 0 <= i < j < INPUT_COUNT ==> input_name_at(i) != input_name_at(j),
{
    reveal_strlit("A");
    reveal_strlit("B");
    reveal_strlit("Select");
    reveal_strlit("Start");
    reveal_strlit("→");
    reveal_strlit("←");
    reveal_strlit("↑");
    reveal_strlit("↓");
    reveal_strlit("R");
    reveal_strlit("L");
    reveal_strlit("X");
    reveal_strlit("Y");
    reveal_strlit("Top");
    reveal_strlit("Left");
    reveal_strlit("Bottom");
    reveal_strlit("Right");
    assert forall|i: int, j: int| 0 <= i < j < INPUT_COUNT implies input_name_at(i) != input_name_at(j) by {
        if input_name_at(i) == input_name_at(j) {
            assert(input_name_at(i).len() == input_name_at(j).len());
            assert(input_name_at(i)[0] == input_name_at(j)[0]);
            assert(input_name_at(i)[input_name_at(i).len() - 1] == input_name_at(j)[input_name_at(j).len() - 1]);
        }
    }
}

/// The keys of the corners file differ.
proof fn lemma_corner_keys_differ()
    ensures
        forall|i: int, j: int| 0 <= i < j < 4 ==> corner_key(i) != corner_key(j),
{
    reveal_strlit("left");
    reveal_strlit("top");
    reveal_strlit("right");
    reveal_strlit("bottom");
    assert forall|i: int, j: int| 0 <= i < j < 4 implies corner_key(i) != corner_key(j) by {
        if corner_key(i) == corner_key(j) {
            assert(corner_key(i)[0] == corner_key(j)[0]);
        }
    }
}

/// A written tone reads back as itself.
proof fn lemma_tone_round_trip(t: i64)
    ensures
        millihertz_of(tone_parts(t)) == t,
        -3 <= tone_parts(t).2 <= 0,
        tone_parts(t).1 == 0 ==> tone_parts(t).2 == 0,
{
    let m = magnitude(t as int) as u64;
    lemma_normal_parts(t >= 0, m, -3i16);
    assert(ten_to(0) == 1);
    assert((m as nat) * ten_to(0) == m) by (nonlinear_arith)
        requires
            ten_to(0) == 1,
    ;
    assert(thousandths(m, -3i16) == (m as nat) * ten_to(0));
}

/// A written corner coordinate reads back as itself.
proof fn lemma_corner_round_trip(c: i32)
    ensures
        corner_of(corner_parts(c)) == Some(c),
        corner_parts(c).2 == 0,
{
}

proof fn lemma_ten_to_is_pow(n: nat)
    ensures
        ten_to(n) == vstd::arithmetic::power::pow(10, n),
    decreases n,
{
    reveal(vstd::arithmetic::power::pow);
    if n > 0 {
        lemma_ten_to_is_pow((n - 1) as nat);
    }
}

proof fn lemma_ten_to_at_least_ten(n: nat)
    requires
        n >= 1,
    ensures
        ten_to(n) >= 10,
{
    lemma_ten_to_positive((n - 1) as nat);
}

/// A stored number read as a tone is its value in thousandths, rounded toward zero and
/// held within the range of `i64`: for a number `±m * 10^e`, the tone's magnitude `t`
/// is `m * 10^(e+3)` (up to the cap) when `e >= -3`, and otherwise the whole number with
/// `t * 10^(-e-3) <= m < (t + 1) * 10^(-e-3)`; its sign is the number's.
pub proof fn lemma_stored_tone_value(parts: (bool, u64, i16))
    ensures
        ({
            let k = parts.2 + 3;
            let m = parts.1 as int;
            let t = millihertz_of(parts) as int;
            let mag = if parts.0 { t } else { -t };
            let cap = if parts.0 { i64::MAX as int } else { 0x8000_0000_0000_0000 };
            &&& k < 0 ==> 0 <= mag && mag * vstd::arithmetic::power::pow(10, (-k) as nat) <= m
                < (mag + 1) * vstd::arithmetic::power::pow(10, (-k) as nat)
            &&& k >= 0 ==> mag == if m * vstd::arithmetic::power::pow(10, k as nat) > cap {
                cap
            } else {
                m * vstd::arithmetic::power::pow(10, k as nat)
            }
        }),
{
    let k = parts.2 + 3;
    let m = parts.1 as int;
    if k < 0 {
        let n = (-k) as nat;
        lemma_ten_to_is_pow(n);
        lemma_ten_to_at_least_ten(n);
        let d = ten_to(n) as int;
        let q = m / d;
        vstd::arithmetic::div_mod::lemma_fundamental_div_mod(m, d);
        vstd::arithmetic::div_mod::lemma_mod_bound(m, d);
        assert(q >= 0) by {
            vstd::arithmetic::div_mod::lemma_div_pos_is_pos(m, d);
        }
        assert(q * d <= m < (q + 1) * d) by (nonlinear_arith)
            requires
                m == d * q + m % d,
                0 <= m % d < d,
        ;
        assert(q * 10 <= m) by (nonlinear_arith)
            requires
                q * d <= m,
                d >= 10,
                q >= 0,
        ;
        assert(thousandths(parts.1, parts.2) == q);
    } else {
        lemma_ten_to_is_pow(k as nat);
    }
}

/// The tones file keeps every input's own tone under its own name, in input order.
pub proof fn lemma_tone_members_by_input(tones: Seq<i64>)
    requires
        tones.len() >= INPUT_COUNT,
    ensures
        tone_members(tones).len() == INPUT_COUNT,
        forall|i: int| 0 <= i < INPUT_COUNT ==> (#[trigger] tone_members(tones)[i]).0 == input_name_at(i)
            && millihertz_of(tone_members(tones)[i].1) == tones[i],
{
    assert forall|i: int| 0 <= i < INPUT_COUNT implies (#[trigger] tone_members(tones)[i]).0 == input_name_at(i)
        && millihertz_of(tone_members(tones)[i].1) == tones[i] by {
        lemma_tone_round_trip(tones[i]);
    }
}

/// The corners file keeps the coordinates under "left", "top", "right", "bottom", in order.
pub proof fn lemma_corner_members_by_position(corners: Seq<i32>)
    requires
        corners.len() >= 4,
    ensures
        corner_members(corners).len() == 4,
        forall|i: int| 0 <= i < 4 ==> (#[trigger] corner_members(corners)[i]).0 == corner_key(i)
            && corner_of(corner_members(corners)[i].1) == Some(corners[i]),
{
}

/// Reading a file gives each member's tone at the member's own position, whatever the
/// number of members; it fails exactly when some member is not a number.
pub proof fn lemma_tones_read_by_position(numbers: Seq<Option<(bool, u64, i16)>>)
    ensures
        tones_from(Some(numbers)) is Some <==> forall|i: int| 0 <= i < numbers.len() ==> #[trigger] numbers[i] is Some,
        tones_from(Some(numbers)) matches Some(v) ==> v.len() == numbers.len()
            && forall|i: int| 0 <= i < numbers.len() ==> #[trigger] v[i] == millihertz_of(numbers[i].unwrap()),
{
}

/// Reading a corners file gives each member's coordinate at the member's own position;
/// it fails exactly when some member is not an `i32` integer.
pub proof fn lemma_corners_read_by_position(numbers: Seq<Option<(bool, u64, i16)>>)
    ensures
        corners_from(Some(numbers)) is Some <==> forall|i: int| 0 <= i < numbers.len() ==> #[trigger] is_coordinate(numbers[i]),
        corners_from(Some(numbers)) matches Some(v) ==> v.len() == numbers.len()
            && forall|i: int| 0 <= i < numbers.len() ==> Some(#[trigger] v[i]) == corner_of(numbers[i].unwrap()),
{
    if corners_from(Some(numbers)) is Some {
        assert forall|i: int| 0 <= i < numbers.len() implies Some(#[trigger] corners_from(Some(numbers)).unwrap()[i])
            == corner_of(numbers[i].unwrap()) by {
            assert(is_coordinate(numbers[i]));
        }
    }
}

/// The text of the tones file for the first sixteen recorded tones: each input's name
/// with its tone in hertz (three decimals), indented by four spaces. Reading the text
/// back gives the same tones.
pub fn tones_document(tones: &Vec<i64>) -> (text: String)
    requires
        tones.len() >= INPUT_COUNT,
    ensures
        text@ == json_pretty_text(tone_members(tones@), 4),
        tones_from(json_parsed_numbers(text@)) == Some(tones@.take(INPUT_COUNT as int)),
{
    let mut object = new_object();
    let mut i: usize = 0;
    proof {
        lemma_input_names_differ();
    }
    while i < INPUT_COUNT
        invariant
            i <= INPUT_COUNT <= tones.len(),
            json_is_number_object(object),
            json_members(object) == tone_members(tones@).take(i as int),
            forall|a: int, b: int| 0 <= a < b < INPUT_COUNT ==> input_name_at(a) != input_name_at(b),
        decreases INPUT_COUNT - i,
    {
        let t = tones[i];
        let positive = t >= 0;
        let mag: u64 = if t >= 0 { t as u64 } else { (-(t as i128)) as u64 };
        let name = input_name(i);
        let ghost before = json_members(object);
        assert forall|k: int| 0 <= k < before.len() implies before[k].0 != name@ by {
            assert(before[k].0 == input_name_at(k));
        }
        insert_number(&mut object, name, positive, mag, -3);
        assert(json_members(object) =~= tone_members(tones@).take(i + 1));
        i = i + 1;
    }
    let ghost members = json_members(object);
    assert(members =~= tone_members(tones@));
    assert forall|k: int| 0 <= k < members.len() implies -17 <= #[trigger] members[k].1.2 <= 0 by {
        lemma_tone_round_trip(tones@[k]);
    }
    assert forall|k: int| 0 <= k < members.len() && #[trigger] members[k].1.1 == 0 implies members[k].1.2 == 0 by {
        lemma_tone_round_trip(tones@[k]);
    }
    let text = pretty(&object, 4);
    proof {
        let numbers = member_numbers(members);
        assert forall|k: int| 0 <= k < numbers.len() implies #[trigger] numbers[k] is Some by {}
        let read = numbers.map_values(|n: Option<(bool, u64, i16)>| millihertz_of(n.unwrap()));
        assert forall|k: int| 0 <= k < INPUT_COUNT implies read[k] == tones@[k] by {
            lemma_tone_round_trip(tones@[k]);
        }
        assert(read =~= tones@.take(INPUT_COUNT as int));
    }
    text
}

/// The text of the corners file for the first four corner coordinates: left, top,
/// right and bottom, indented by four spaces. Reading the text back gives the same
/// coordinates.
pub fn corners_document(corners: &Vec<i32>) -> (text: String)
    requires
        corners.len() >= 4,
    ensures
        text@ == json_pretty_text(corner_members(corners@), 4),
        corners_from(json_parsed_numbers(text@)) == Some(corners@.take(4)),
{
    proof {
        lemma_corner_keys_differ();
    }
    let mut object = new_object();
    let mut i: usize = 0;
    while i < 4
        invariant
            i <= 4 <= corners.len(),
            json_is_number_object(object),
            json_members(object) == corner_members(corners@).take(i as int),
            forall|a: int, b: int| 0 <= a < b < 4 ==> corner_key(a) != corner_key(b),
        decreases 4 - i,
    {
        let c = corners[i];
        let key: &str = if i == 0 { "left" } else if i == 1 { "top" } else if i == 2 { "right" } else { "bottom" };
        let mag: u64 = if c >= 0 { c as u64 } else { (-(c as i64)) as u64 };
        let ghost before = json_members(object);
        assert(key@ == corner_key(i as int));
        assert forall|k: int| 0 <= k < before.len() implies before[k].0 != key@ by {
            assert(before[k].0 == corner_key(k));
        }
        insert_number(&mut object, key, c >= 0, mag, 0);
        assert(json_members(object) =~= corner_members(corners@).take(i + 1));
        i = i + 1;
    }
    let ghost members = json_members(object);
    assert(members =~= corner_members(corners@));
    let text = pretty(&object, 4);
    proof {
        let numbers = member_numbers(members);
        assert forall|k: int| 0 <= k < numbers.len() implies #[trigger] is_coordinate(numbers[k]) by {
            lemma_corner_round_trip(corners@[k]);
        }
        let read = numbers.map_values(|n: Option<(bool, u64, i16)>| corner_of(n.unwrap()).unwrap());
        assert forall|k: int| 0 <= k < 4 implies read[k] == corners@[k] by {
            lemma_corner_round_trip(corners@[k]);
        }
        assert(read =~= corners@.take(4));
    }
    text
}

/// The magnitude of a number in thousandths, capped just above the range of `i64`.
fn capped_thousandths(mantissa: u64, exponent: i16) -> (r: u128)
    ensures
        r == if thousandths(mantissa, exponent) > 0x8000_0000_0000_0001 {
            0x8000_0000_0000_0001
        } else {
            thousandths(mantissa, exponent)
        },
{
    let cap: u128 = 0x8000_0000_0000_0001;
    let k: i32 = exponent as i32 + 3;
    if k >= 0 {
        let mut acc: u128 = if mantissa as u128 > cap { cap } else { mantissa as u128 };
        let mut j: i32 = 0;
        assert(ten_to(0) == 1);
        assert((mantissa as nat) * ten_to(0) == mantissa) by (nonlinear_arith)
            requires
                ten_to(0) == 1,
        ;
        while j < k
            invariant
                0 <= j <= k,
                k == exponent + 3,
                cap == 0x8000_0000_0000_0001,
                acc == if (mantissa as nat) * ten_to(j as nat) > cap { cap as int } else { ((mantissa as nat) * ten_to(j as nat)) as int },
            decreases k - j,
        {
            proof {
                lemma_ten_to_positive(j as nat);
                assert(ten_to((j + 1) as nat) == 10 * ten_to(j as nat));
                assert(mantissa * ten_to((j + 1) as nat) == 10 * (mantissa * ten_to(j as nat))) by (nonlinear_arith)
                    requires
                        ten_to((j + 1) as nat) == 10 * ten_to(j as nat),
                ;
            }
            if acc < cap {
                acc = acc * 10;
                if acc > cap {
                    acc = cap;
                }
            }
            j = j + 1;
        }
        assert(j == k);
        acc
    } else {
        let mut acc: u64 = mantissa;
        let mut j: i32 = 0;
        assert(ten_to(0) == 1);
        assert((mantissa as nat) / ten_to(0) == mantissa) by (nonlinear_arith)
            requires
                ten_to(0) == 1,
        ;
        while j < -k
            invariant
                0 <= j <= -k,
                k == exponent + 3,
                acc == (mantissa as nat) / ten_to(j as nat),
            decreases -k - j,
        {
            proof {
                lemma_ten_to_positive(j as nat);
                assert(ten_to((j + 1) as nat) == 10 * ten_to(j as nat));
                vstd::arithmetic::div_mod::lemma_div_denominator(mantissa as int, ten_to(j as nat) as int, 10);
                assert(ten_to(j as nat) * 10 == 10 * ten_to(j as nat));
            }
            acc = acc / 10;
            j = j + 1;
        }
        assert(acc == thousandths(mantissa, exponent));
        if acc as u128 > cap { cap } else { acc as u128 }
    }
}

/// A stored number as a tone in millihertz.
fn millihertz(parts: (bool, u64, i16)) -> (t: i64)
    ensures
        t == millihertz_of(parts),
{
    let mag = capped_thousandths(parts.1, parts.2);
    if parts.0 {
        if mag > 0x7fff_ffff_ffff_ffff { i64::MAX } else { mag as i64 }
    } else {
        if mag > 0x8000_0000_0000_0000 { i64::MIN } else { (-(mag as i128)) as i64 }
    }
}

/// A stored number as a corner coordinate, if it is one.
fn coordinate(parts: (bool, u64, i16)) -> (c: Option<i32>)
    ensures
        c == corner_of(parts),
{
    if parts.2 != 0 {
        return None;
    }
    let m: i128 = if parts.1 <= 0x7fff_ffff_ffff_ffff {
        parts.1 as i128
    } else {
        parts.1 as i128 - 0x1_0000_0000_0000_0000
    };
    let x: i128 = if parts.0 { m } else { -m };
    if -0x8000_0000 <= x && x <= 0x7fff_ffff {
        Some(x as i32)
    } else {
        None
    }
}

/// The tones that parsed numbers stand for: one per member, in order; `None` when a
/// member is not a number.
pub fn tones_of_numbers(numbers: &Vec<Option<(bool, u64, i16)>>) -> (r: Option<Vec<i64>>)
    ensures
        r matches Some(v) ==> tones_from(Some(numbers@)) == Some(v@),
        r is None ==> tones_from(Some(numbers@)) is None,
{
    let mut tones: Vec<i64> = Vec::new();
    let mut i: usize = 0;
    while i < numbers.len()
        invariant
            i <= numbers.len(),
            forall|k: int| 0 <= k < i ==> #[trigger] numbers@[k] is Some,
            tones@ =~= numbers@.take(i as int).map_values(|n: Option<(bool, u64, i16)>| millihertz_of(n.unwrap())),
        decreases numbers.len() - i,
    {
        match numbers[i] {
            Some(parts) => {
                tones.push(millihertz(parts));
            },
            None => {
                return None;
            },
        }
        i = i + 1;
    }
    assert(numbers@.take(numbers@.len() as int) =~= numbers@);
    Some(tones)
}

/// The corner coordinates that parsed numbers stand for: one per member, in order;
/// `None` when a member is not an `i32` integer.
pub fn corners_of_numbers(numbers: &Vec<Option<(bool, u64, i16)>>) -> (r: Option<Vec<i32>>)
    ensures
        r matches Some(v) ==> corners_from(Some(numbers@)) == Some(v@),
        r is None ==> corners_from(Some(numbers@)) is None,
{
    let mut corners: Vec<i32> = Vec::new();
    let mut i: usize = 0;
    while i < numbers.len()
        invariant
            i <= numbers.len(),
            forall|k: int| 0 <= k < i ==> #[trigger] is_coordinate(numbers@[k]),
            corners@ =~= numbers@.take(i as int).map_values(|n: Option<(bool, u64, i16)>| corner_of(n.unwrap()).unwrap()),
        decreases numbers.len() - i,
    {
        let c = match numbers[i] {
            Some(parts) => coordinate(parts),
            None => None,
        };
        match c {
            Some(c) => {
                corners.push(c);
            },
            None => {
                assert(!is_coordinate(numbers@[i as int]));
                return None;
            },
        }
        i = i + 1;
    }
    assert(numbers@.take(numbers@.len() as int) =~= numbers@);
    Some(corners)
}

/// The tones in the text of a tones file: one per member, in the file's order.
/// `None` when the text is not JSON or a member is not a number.
pub fn read_tones(text: &str) -> (r: Option<Vec<i64>>)
    ensures
        r matches Some(v) ==> tones_from(json_parsed_numbers(text@)) == Some(v@),
        r is None ==> tones_from(json_parsed_numbers(text@)) is None,
{
    match parse_numbers(text) {
        Ok(numbers) => tones_of_numbers(&numbers),
        Err(_) => None,
    }
}

/// The corner coordinates in the text of a corners file: one per member, in the file's
/// order. `None` when the text is not JSON or a member is not an `i32` integer.
pub fn read_corners(text: &str) -> (r: Option<Vec<i32>>)
    ensures
        r matches Some(v) ==> corners_from(json_parsed_numbers(text@)) == Some(v@),
        r is None ==> corners_from(json_parsed_numbers(text@)) is None,
{
    match parse_numbers(text) {
        Ok(numbers) => corners_of_numbers(&numbers),
        Err(_) => None,
    }
}

} // verus!
