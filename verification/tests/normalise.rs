use spotlyt::types::{normalise_artist_name, normalise_transliterated};

#[test]
fn normalise_lowercases_and_strips_accents() {
    assert_eq!(normalise_artist_name("Beyoncé"), "beyonce");
    assert_eq!(normalise_artist_name("Sigur Rós"), "sigur ros");
    assert_eq!(normalise_artist_name("Æneid"), "aeneid");
}

#[test]
fn normalise_drops_punctuation_and_collapses_spaces() {
    assert_eq!(normalise_artist_name("  The   Weeknd!! "), "the weeknd");
    assert_eq!(normalise_artist_name("AC/DC"), "acdc");
    assert_eq!(normalise_artist_name("a\t\nb"), "a b");
    assert_eq!(normalise_artist_name("!!!"), "");
    assert_eq!(normalise_artist_name(""), "");
    assert_eq!(normalise_artist_name("  Simon & Garfunkel "), "simon garfunkel");
}

#[test]
fn normalise_transliterates_other_scripts() {
    assert_eq!(normalise_artist_name("北亰"), "bei jing");
}

#[test]
fn normalise_is_idempotent() {
    for name in ["Beyoncé", "  The   Weeknd!! ", "AC/DC", "北亰", "Florence + The Machine"] {
        let once = normalise_artist_name(name);
        assert_eq!(normalise_artist_name(&once), once);
        assert!(once.chars().all(|c| c.is_ascii_lowercase() || c.is_ascii_digit() || c == ' '));
        assert!(!once.starts_with(' ') && !once.ends_with(' ') && !once.contains("  "));
    }
}

#[test]
fn normalise_transliterated_on_ascii() {
    assert_eq!(normalise_transliterated("Hello,  World 2"), "hello world 2");
}
