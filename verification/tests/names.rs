use fs_scout::failure::{Failure, FailureReason};
use fs_scout::names::{
    check_name, find_violation, forbidden_char, illegal_at_end, reserved_name, NameRule,
    NameViolation,
};
use fs_scout::policy::ValidationPolicy;

fn strict() -> ValidationPolicy {
    ValidationPolicy::default()
}

fn lenient() -> ValidationPolicy {
    ValidationPolicy { enforce_cross_platform_names: false }
}

fn illegal(part: &str) -> Result<(), Failure> {
    Err(Failure { reason: FailureReason::IllegalName, offending: Some(part.to_string()) })
}

fn violation(name: &str) -> Option<NameViolation> {
    let chars: Vec<char> = name.chars().collect();
    find_violation(&chars)
}

#[test]
fn default_policy_enforces_the_rules() {
    assert!(ValidationPolicy::default().enforce_cross_platform_names);
}

#[test]
fn reserved_and_malformed_names_fail() {
    assert_eq!(check_name("con", strict()), illegal("con"));
    assert_eq!(check_name("COM1", strict()), illegal("COM1"));
    assert_eq!(check_name("name?", strict()), illegal("?"));
    assert_eq!(check_name("name.", strict()), illegal("."));
    assert_eq!(check_name("name ", strict()), illegal(" "));
}

#[test]
fn ordinary_names_pass() {
    assert_eq!(check_name("readme.md", strict()), Ok(()));
    assert_eq!(check_name(".gitignore", strict()), Ok(()));
    assert_eq!(check_name("", strict()), Ok(()));
    assert_eq!(check_name("a", strict()), Ok(()));
    assert_eq!(check_name("with space.txt", strict()), Ok(()));
    assert_eq!(check_name("..hidden", strict()), Ok(()));
}

#[test]
fn lenient_policy_skips_the_rules() {
    assert_eq!(check_name("con", lenient()), Ok(()));
    assert_eq!(check_name("name?", lenient()), Ok(()));
    assert_eq!(check_name("name.", lenient()), Ok(()));
    assert_eq!(check_name("a\u{0}b", lenient()), Ok(()));
}

#[test]
fn trailing_rule_is_checked_first() {
    assert_eq!(
        violation("a?b."),
        Some(NameViolation { rule: NameRule::TrailingCharacter, start: 3, end: 4 })
    );
    assert_eq!(
        violation("con "),
        Some(NameViolation { rule: NameRule::TrailingCharacter, start: 3, end: 4 })
    );
    assert_eq!(
        violation("."),
        Some(NameViolation { rule: NameRule::TrailingCharacter, start: 0, end: 1 })
    );
    assert_eq!(
        violation(" "),
        Some(NameViolation { rule: NameRule::TrailingCharacter, start: 0, end: 1 })
    );
}

#[test]
fn first_forbidden_character_is_reported() {
    assert_eq!(
        violation("a<b>c"),
        Some(NameViolation { rule: NameRule::ForbiddenSequence, start: 1, end: 2 })
    );
    assert_eq!(
        violation("?"),
        Some(NameViolation { rule: NameRule::ForbiddenSequence, start: 0, end: 1 })
    );
    assert_eq!(
        violation("tab\there"),
        Some(NameViolation { rule: NameRule::ForbiddenSequence, start: 3, end: 4 })
    );
    assert_eq!(check_name("ab\u{1f}c", strict()), illegal("\u{1f}"));
    assert_eq!(check_name("\u{0}", strict()), illegal("\u{0}"));
    assert_eq!(check_name("\n", strict()), illegal("\n"));
}

#[test]
fn every_forbidden_character_is_forbidden() {
    for c in ['<', '>', ':', '"', '/', '\\', '|', '?', '*'] {
        assert!(forbidden_char(c), "{:?}", c);
    }
    for code in 0u32..=0x1f {
        assert!(forbidden_char(char::from_u32(code).unwrap()), "{:#x}", code);
    }
    for c in [' ', '!', '.', 'a', 'Z', '0', '-', '_', '\u{7f}', '\u{20}', 'é', '\u{10ffff}'] {
        assert!(!forbidden_char(c), "{:?}", c);
    }
}

#[test]
fn only_dot_and_space_are_illegal_at_the_end() {
    assert!(illegal_at_end('.'));
    assert!(illegal_at_end(' '));
    assert!(!illegal_at_end('a'));
    assert!(!illegal_at_end('\t'));
    assert!(!illegal_at_end('\u{a0}'));
}

#[test]
fn reserved_names_in_any_case() {
    for name in [
        "CON", "con", "Con", "cOn", "PRN", "prn", "AUX", "aux", "NUL", "nul", "nUl", "COM0",
        "com9", "Com5", "LPT0", "lpt9", "lPt3",
    ] {
        let chars: Vec<char> = name.chars().collect();
        assert!(reserved_name(&chars), "{}", name);
        assert_eq!(check_name(name, strict()), illegal(name));
    }
}

#[test]
fn reserved_names_with_an_extension() {
    for name in ["con.txt", "NUL.tar.gz", "com1.log", "LPT9.x", "aux..a", "prn. x"] {
        let chars: Vec<char> = name.chars().collect();
        assert!(reserved_name(&chars), "{}", name);
        assert_eq!(check_name(name, strict()), illegal(name));
    }
}

#[test]
fn reserved_name_wins_over_a_forbidden_character_in_its_extension() {
    assert_eq!(check_name("con.a?b", strict()), illegal("con.a?b"));
    assert_eq!(check_name("COM1.<", strict()), illegal("COM1.<"));
}

#[test]
fn line_feed_ends_an_extension() {
    let chars: Vec<char> = "con.a\nb".chars().collect();
    assert!(!reserved_name(&chars));
    assert_eq!(check_name("con.a\nb", strict()), illegal("\n"));
    assert_eq!(check_name("con.\n", strict()), illegal("\n"));
}

#[test]
fn names_that_only_look_reserved_pass() {
    for name in [
        "cons", "icon", "con_", "con-1", "COM", "com", "LPT", "COM10", "com1a", "lpta", "nult",
        "au", "pr", "co", "conn.txt", "xcon", "COMA", "LPT-", "c", "",
    ] {
        let chars: Vec<char> = name.chars().collect();
        assert!(!reserved_name(&chars), "{}", name);
        assert_eq!(check_name(name, strict()), Ok(()), "{}", name);
    }
}

#[test]
fn reserved_name_with_a_bare_dot_breaks_the_trailing_rule() {
    let chars: Vec<char> = "con.".chars().collect();
    assert!(!reserved_name(&chars));
    assert_eq!(check_name("con.", strict()), illegal("."));
}

#[test]
fn letters_beyond_ascii_do_not_make_a_reserved_name() {
    // Kelvin sign and long s fold to `k` and `s`, which no reserved name holds;
    // no other letter outside ASCII folds to an ASCII one.
    for name in ["c\u{f6}n", "\u{212a}on", "nu\u{17f}", "\u{ff23}ON"] {
        assert_eq!(check_name(name, strict()), Ok(()), "{}", name);
    }
    assert_eq!(check_name("COM\u{661}", strict()), Ok(()));
}

#[test]
fn offending_part_counts_characters_not_bytes() {
    assert_eq!(check_name("\u{e9}t\u{e9}?", strict()), illegal("?"));
    assert_eq!(check_name("\u{e9}|\u{e9}", strict()), illegal("|"));
    assert_eq!(
        violation("\u{e9}|\u{e9}"),
        Some(NameViolation { rule: NameRule::ForbiddenSequence, start: 1, end: 2 })
    );
}

#[test]
fn reported_part_breaks_the_rule_of_the_name() {
    for name in [
        "name.", "name ", ".", " ", "con", "COM1.txt", "a?b", "a<b>", "\u{0}", "x\ty", "con.a?b",
        "con.a\nb", "a?b.", "nul ", "lpt9", "a|", "\"",
    ] {
        let whole = violation(name).expect("breaks a rule");
        let chars: Vec<char> = name.chars().collect();
        let part: String = chars[whole.start..whole.end].iter().collect();
        let alone = violation(&part).expect("breaks a rule");
        assert_eq!(alone.rule, whole.rule, "{:?}", name);
    }
}
