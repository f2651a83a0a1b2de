use rpbc::flags::{has_flag, parse_flags, Flag};

fn args(list: &[&str]) -> Vec<String> {
    list.iter().map(|s| s.to_string()).collect()
}

#[test]
fn flag_bits_are_distinct_powers_of_two() {
    assert_eq!(Flag::Calibrating.bit(), 1);
    assert_eq!(Flag::HideInputDevices.bit(), 2);
    assert_eq!(Flag::SeeButtonFrequency.bit(), 4);
    assert_eq!(Flag::SkipPitch.bit(), 8);
    assert_eq!(Flag::DisableControl.bit(), 16);
}

#[test]
fn no_options_give_no_flags() {
    assert_eq!(parse_flags(&args(&["rpbc"])), 0);
    assert_eq!(parse_flags(&args(&[])), 0);
}

#[test]
fn each_option_sets_its_flag() {
    assert_eq!(parse_flags(&args(&["rpbc", "-c"])), 1);
    assert_eq!(parse_flags(&args(&["rpbc", "-a"])), 2);
    assert_eq!(parse_flags(&args(&["rpbc", "-hz"])), 4);
    assert_eq!(parse_flags(&args(&["rpbc", "-sp"])), 8);
    assert_eq!(parse_flags(&args(&["rpbc", "-x"])), 16);
}

#[test]
fn options_combine_in_any_order_and_repeat() {
    let flags = parse_flags(&args(&["rpbc", "-x", "-c", "-x", "-sp"]));
    assert_eq!(flags, 1 + 8 + 16);
    assert!(has_flag(flags, Flag::Calibrating));
    assert!(!has_flag(flags, Flag::HideInputDevices));
    assert!(!has_flag(flags, Flag::SeeButtonFrequency));
    assert!(has_flag(flags, Flag::SkipPitch));
    assert!(has_flag(flags, Flag::DisableControl));
    assert_eq!(parse_flags(&args(&["rpbc", "-c", "-a", "-hz", "-sp", "-x"])), 31);
}

#[test]
fn unknown_and_partial_options_are_ignored() {
    assert_eq!(parse_flags(&args(&["rpbc", "-h", "--c", "c", "-X", "-cx", "-hzz"])), 0);
}

#[test]
fn has_flag_reads_single_bits() {
    assert!(has_flag(16, Flag::DisableControl));
    assert!(!has_flag(15, Flag::DisableControl));
    assert!(has_flag(5, Flag::SeeButtonFrequency));
    assert!(has_flag(5, Flag::Calibrating));
    assert!(!has_flag(5, Flag::HideInputDevices));
}
