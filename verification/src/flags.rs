//! Command-line flags, packed into one flag word.
use vstd::prelude::*;

verus! {

/// The options that the program understands on its command line.
#[derive(Clone, Copy, Debug, PartialEq, Eq, Structural)]
pub enum Flag {
    /// `-c`: run the calibration instead of the controller.
    Calibrating,
    /// `-a`: do not list the audio input devices.
    HideInputDevices,
    /// `-hz`: show the measured frequency next to the recognised input.
    SeeButtonFrequency,
    /// `-sp`: skip the pitch calibration and go straight to the screen corners.
    SkipPitch,
    /// `-x`: only report what is recognised; send no key or mouse events.
    DisableControl,
}

impl Flag {
    /// The bit that stands for this flag in a flag word.
    pub open spec fn bit_value(self) -> u128 {
        match self {
            Flag::Calibrating => 1,
            Flag::HideInputDevices => 2,
            Flag::SeeButtonFrequency => 4,
            Flag::SkipPitch => 8,
            Flag::DisableControl => 16,
        }
    }

    /// The command-line argument that sets this flag.
    pub open spec fn option_text(self) -> Seq<char> {
        match self {
            Flag::Calibrating => "-c"@,
            Flag::HideInputDevices => "-a"@,
            Flag::SeeButtonFrequency => "-hz"@,
            Flag::SkipPitch => "-sp"@,
            Flag::DisableControl => "-x"@,
        }
    }

    /// The bit that stands for this flag in a flag word.
    pub fn bit(self) -> (r: u128)
        ensures
            r == self.bit_value(),
    {
        match self {
            Flag::Calibrating => 1,
            Flag::HideInputDevices => 2,
            Flag::SeeButtonFrequency => 4,
            Flag::SkipPitch => 8,
            Flag::DisableControl => 16,
        }
    }
}

/// Whether `flag` is set in the flag word `flags`: whether its bit is one.
pub open spec fn flag_set(flags: u128, flag: Flag) -> bool {
    (flags / flag.bit_value()) % 2 == 1
}

/// Whether `flag` is set in the flag word `flags`.
pub fn has_flag(flags: u128, flag: Flag) -> (r: bool)
    ensures
        r == flag_set(flags, flag),
        r == (flags & flag.bit_value() != 0),
{
    let bit = flag.bit();
    proof {
        assert((flags & 1 != 0) == ((flags / 1) % 2 == 1)) by (bit_vector);
        assert((flags & 2 != 0) == ((flags / 2) % 2 == 1)) by (bit_vector);
        assert((flags & 4 != 0) == ((flags / 4) % 2 == 1)) by (bit_vector);
        assert((flags & 8 != 0) == ((flags / 8) % 2 == 1)) by (bit_vector);
        assert((flags & 16 != 0) == ((flags / 16) % 2 == 1)) by (bit_vector);
    }
    flags & bit != 0
}

/// Whether some argument equals `option`.
pub open spec fn given(args: Seq<String>, option: Seq<char>) -> bool {
    exists|i: int| 0 <= i < args.len() && #[trigger] args[i]@ == option
}

/// The flag word with exactly the bits of the flags whose options were given.
pub open spec fn flag_word(args: Seq<String>) -> u128 {
    ((if given(args, "-c"@) { 1int } else { 0int })
        + (if given(args, "-a"@) { 2int } else { 0int })
        + (if given(args, "-hz"@) { 4int } else { 0int })
        + (if given(args, "-sp"@) { 8int } else { 0int })
        + (if given(args, "-x"@) { 16int } else { 0int })) as u128
}

/// Whether one of `args` equals `option`.
fn contains_option(args: &Vec<String>, option: &String) -> (r: bool)
    ensures
        r == given(args@, option@),
{
    let mut i: usize = 0;
    while i < args.len()
        invariant
            i <= args.len(),
            forall|j: int| 0 <= j < i ==> args@[j]@ != option@,
        decreases args.len() - i,
    {
        if args[i] == *option {
            return true;
        }
        i = i + 1;
    }
    false
}

/// The flag word for a command line: the bit of each flag whose option occurs among `args`.
pub fn parse_flags(args: &Vec<String>) -> (flags: u128)
    ensures
        flags == flag_word(args@),
{
    let mut flags: u128 = 0;
    if contains_option(args, &String::from_str("-c")) {
        flags = flags + 1;
    }
    if contains_option(args, &String::from_str("-a")) {
        flags = flags + 2;
    }
    if contains_option(args, &String::from_str("-hz")) {
        flags = flags + 4;
    }
    if contains_option(args, &String::from_str("-sp")) {
        flags = flags + 8;
    }
    if contains_option(args, &String::from_str("-x")) {
        flags = flags + 16;
    }
    flags
}

proof fn lemma_word_digits(c: int, a: int, h: int, s: int, x: int)
    requires
        0 <= c <= 1,
        0 <= a <= 1,
        0 <= h <= 1,
        0 <= s <= 1,
        0 <= x <= 1,
    ensures
        ((c + 2 * a + 4 * h + 8 * s + 16 * x) / 1) % 2 == c,
        ((c + 2 * a + 4 * h + 8 * s + 16 * x) / 2) % 2 == a,
        ((c + 2 * a + 4 * h + 8 * s + 16 * x) / 4) % 2 == h,
        ((c + 2 * a + 4 * h + 8 * s + 16 * x) / 8) % 2 == s,
        ((c + 2 * a + 4 * h + 8 * s + 16 * x) / 16) % 2 == x,
{
}

/// A flag is set in the word parsed from a command line exactly when its option was given.
pub proof fn lemma_parsed_flag_set(args: Seq<String>, flag: Flag)
    ensures
        flag_set(flag_word(args), flag) == given(args, flag.option_text()),
{
    let c: int = if given(args, "-c"@) { 1 } else { 0 };
    let a: int = if given(args, "-a"@) { 1 } else { 0 };
    let h: int = if given(args, "-hz"@) { 1 } else { 0 };
    let s: int = if given(args, "-sp"@) { 1 } else { 0 };
    let x: int = if given(args, "-x"@) { 1 } else { 0 };
    lemma_word_digits(c, a, h, s, x);
    assert(flag_word(args) as int == c + 2 * a + 4 * h + 8 * s + 16 * x);
}

} // verus!
