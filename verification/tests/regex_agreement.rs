use fs_scout::names::{find_violation, NameRule};
use regex::Regex;

fn samples() -> Vec<String> {
    let mut all: Vec<String> = Vec::new();
    let stems = [
        "", "a", "con", "CON", "cOn", "prn", "aux", "nul", "NuL", "com", "com0", "COM1", "com9",
        "lpt", "lpt0", "LPT5", "lpt9", "com10", "cons", "xcon", "readme", ".gitignore", ".",
        "..", "name", "\u{212a}on", "nu\u{17f}", "com\u{661}", "\u{e9}t\u{e9}", "co", "c",
    ];
    let tails = [
        "", ".", " ", ".txt", ".a.b", ". ", "..", ".\n", ".a\nb", "\n", "?", ".a?b", "<", ">",
        ":", "\"", "/", "\\", "|", "*", "\u{0}", "\u{1f}", "\u{20}x", "\u{7f}", ".x ", "x.",
        ".\u{e9}", "\t.txt", ".t\txt", " .txt", "1", "a",
    ];
    for stem in stems {
        for tail in tails {
            all.push(format!("{}{}", stem, tail));
            all.push(format!("{}{}{}", tail, stem, tail));
        }
    }
    all
}

#[test]
fn trailing_rule_agrees_with_its_pattern() {
    let pattern = Regex::new(r".*[. ]$").unwrap();
    for name in samples() {
        let chars: Vec<char> = name.chars().collect();
        let found = find_violation(&chars);
        let trailing = matches!(found, Some(v) if v.rule == NameRule::TrailingCharacter);
        assert_eq!(trailing, pattern.is_match(&name), "{:?}", name);
        if let Some(v) = found {
            if v.rule == NameRule::TrailingCharacter {
                let reported: String = chars[v.start..v.end].iter().collect();
                let last = pattern.find(&name).unwrap().as_str().chars().last().unwrap();
                assert_eq!(reported, last.to_string(), "{:?}", name);
            }
        }
    }
}

#[test]
fn sequence_rule_agrees_with_its_pattern() {
    let trailing = Regex::new(r".*[. ]$").unwrap();
    let pattern = Regex::new(
        r#"[<>:"/\\|?*\x00-\x1F]|^(?i:CON|PRN|AUX|NUL|COM[0-9]|LPT[0-9])(?:\..+)?$"#,
    )
    .unwrap();
    let mut compared = 0;
    for name in samples() {
        if trailing.is_match(&name) {
            continue;
        }
        compared += 1;
        let chars: Vec<char> = name.chars().collect();
        match find_violation(&chars) {
            None => assert!(!pattern.is_match(&name), "{:?}", name),
            Some(v) => {
                assert_eq!(v.rule, NameRule::ForbiddenSequence, "{:?}", name);
                let reported: String = chars[v.start..v.end].iter().collect();
                assert_eq!(reported, pattern.find(&name).unwrap().as_str(), "{:?}", name);
            }
        }
    }
    assert!(compared > 500);
}
