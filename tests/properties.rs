use schmfy::casing::restore_case;
use schmfy::{get_case, schmfy, CaseType};

fn others(s: &str) -> Vec<char> {
    s.chars().filter(|c| !c.is_alphabetic()).collect()
}

fn word_count(s: &str) -> usize {
    let mut n = 0;
    let mut in_word = false;
    for c in s.chars() {
        if c.is_alphabetic() {
            if !in_word {
                n += 1;
            }
            in_word = true;
        } else {
            in_word = false;
        }
    }
    n
}

#[test]
fn rewriting_twice_changes_nothing() {
    for s in [
        "test",
        "Hello",
        "Today I am VERY tired.",
        "foo/bar/baz",
        " x y",
        "<span>Entry<br></span>",
        "",
        "!",
    ] {
        let once = schmfy(s);
        assert_eq!(schmfy(&once), once);
    }
}

#[test]
fn structure_is_kept() {
    for s in ["One&Two", "  a, b! c?", "Today I am VERY tired.", "#x <y.h>"] {
        let out = schmfy(s);
        assert_eq!(others(&out), others(s));
        assert_eq!(word_count(&out), word_count(s));
    }
    assert_eq!(schmfy("  a, b! c?"), "  schma, schme! schme?");
}

#[test]
fn casing_is_kept_for_single_words() {
    for s in ["Hello", "HELLO", "hello", "tesT", "Bar", "ab", "AB", "Ab", "x"] {
        assert_eq!(get_case(&schmfy(s)), get_case(s));
    }
    assert_eq!(get_case("Hello"), CaseType::FstUcase);
    assert_eq!(get_case("HELLO"), CaseType::Ucase);
    assert_eq!(get_case("hello"), CaseType::Lcase);
}

#[test]
fn single_other_character_is_unchanged() {
    assert_eq!(schmfy("!"), "!");
    assert_eq!(schmfy(" "), " ");
    assert_eq!(schmfy("€"), "€");
    assert_eq!(schmfy("7"), "7");
}

#[test]
fn empty_text_is_unchanged() {
    assert_eq!(schmfy(""), "");
}

#[test]
fn concrete_cases() {
    assert_eq!(schmfy("test"), "schmest");
    assert_eq!(schmfy("Hello"), "Schmello");
    assert_eq!(schmfy("HELLO"), "SCHMELLO");
    assert_eq!(schmfy("Bar"), "Schmar");
    assert_eq!(schmfy("One&Two"), "Schmone&Schmo");
    assert_eq!(schmfy("foo/bar/baz"), "schmefoo/schmear/schmeaz");
    assert_eq!(
        schmfy("Today I am VERY tired."),
        "Schmoday SCHMI schmam SCHMERY schmired."
    );
}

#[test]
fn marked_words_pass_through() {
    assert_eq!(schmfy("SCHMFOO"), "SCHMFOO");
    assert_eq!(schmfy("Schmoo"), "Schmoo");
    assert_eq!(schmfy("sChMaltz"), "sChMaltz");
    assert_eq!(schmfy("Schmidt and Jones"), "Schmidt and Jones");
}

#[test]
fn sound_table() {
    assert_eq!(schmfy("a"), "schma");
    assert_eq!(schmfy("b"), "schme");
    assert_eq!(schmfy("f"), "schmef");
    assert_eq!(schmfy("h"), "schma");
    assert_eq!(schmfy("j"), "schmot");
    assert_eq!(schmfy("q"), "schmu");
    assert_eq!(schmfy("v"), "schmau");
    assert_eq!(schmfy("x"), "schmix");
    assert_eq!(schmfy("y"), "schmy");
    assert_eq!(schmfy("z"), "schmet");
    assert_eq!(schmfy("jo"), "schmoto");
    assert_eq!(schmfy("Z"), "SCHMET");
}

#[test]
fn umlauts() {
    assert_eq!(schmfy("ä"), "schmä");
    assert_eq!(schmfy("ÄB"), "SCHMÄB");
    assert_eq!(schmfy("bär"), "schmeär");
    assert_eq!(schmfy("Känguru"), "Schmänguru");
}

#[test]
fn long_words() {
    assert_eq!(schmfy("strength"), "schmength");
    assert_eq!(schmfy("rhythm"), "schmrhythm");
    assert_eq!(schmfy("Ab"), "Schmab");
}

#[test]
fn case_patterns() {
    assert_eq!(get_case(""), CaseType::Lcase);
    assert_eq!(get_case("123"), CaseType::Lcase);
    assert_eq!(get_case("aB"), CaseType::Lcase);
    assert_eq!(get_case("Ab"), CaseType::FstUcase);
    assert_eq!(get_case("ABc"), CaseType::Lcase);
    assert_eq!(get_case("!A"), CaseType::Ucase);
    assert_eq!(get_case("1a-B"), CaseType::Lcase);
    assert_eq!(get_case("<Hello>"), CaseType::FstUcase);
}

fn restore(s: &str, case: CaseType) -> String {
    let v: Vec<char> = s.chars().collect();
    restore_case(&v, case).into_iter().collect()
}

#[test]
fn restoring_a_casing() {
    assert_eq!(restore("ärger", CaseType::FstUcase), "Ärger");
    assert_eq!(restore("HeLLo", CaseType::FstUcase), "Hello");
    assert_eq!(restore("abc", CaseType::Ucase), "ABC");
    assert_eq!(restore("ABC", CaseType::Lcase), "abc");
    assert_eq!(restore("öl", CaseType::Ucase), "ÖL");
    assert_eq!(restore("", CaseType::FstUcase), "");
}

#[test]
fn umlaut_text_keeps_its_laws() {
    let s = "Äpfel und Öl";
    let once = schmfy(s);
    assert_eq!(once, "Schmäpfel schmund Schmöl");
    assert_eq!(schmfy(&once), once);
    assert_eq!(others(&once), others(s));
    assert_eq!(word_count(&once), word_count(s));
    for w in ["Äpfel", "ÜBER", "öl", "Öl"] {
        assert_eq!(get_case(&schmfy(w)), get_case(w));
    }
    assert_eq!(schmfy("ÜBER"), "SCHMÜBER");
}
