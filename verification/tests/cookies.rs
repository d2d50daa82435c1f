use spotlyt::cookies::{
    clear_google_csrf_cookie, clear_session_cookie, extract_cookie, extract_session_cookie,
    google_csrf_cookie, session_cookie,
};

fn get(header: &str, name: &str) -> Option<String> {
    extract_cookie(Some(header.as_bytes()), name)
}

#[test]
fn extract_cookie_finds_named_cookie_among_others() {
    assert_eq!(get("theme=dark; session=abc123; x=y", "session"), Some("abc123".to_string()));
    assert_eq!(get("theme=dark; session=abc123; x=y", "theme"), Some("dark".to_string()));
    assert_eq!(get("theme=dark; session=abc123; x=y", "x"), Some("y".to_string()));
}

#[test]
fn extract_cookie_trims_segments() {
    assert_eq!(get("  session=tok  ;a=b", "session"), Some("tok".to_string()));
    assert_eq!(get("a=b;\tsession=tok\t", "session"), Some("tok".to_string()));
}

#[test]
fn extract_cookie_absent_cases() {
    assert_eq!(get("theme=dark; other=1", "session"), None);
    assert_eq!(get("", "session"), None);
    assert_eq!(extract_cookie(None, "session"), None);
}

#[test]
fn extract_cookie_rejects_non_visible_header_bytes() {
    let bytes: &[u8] = b"session=abc\n";
    assert_eq!(extract_cookie(Some(bytes), "session"), None);
    let bytes: &[u8] = &[b's', b'=', 0xC3, 0xA9];
    assert_eq!(extract_cookie(Some(bytes), "s"), None);
}

#[test]
fn extract_cookie_first_match_wins_and_prefix_is_exact() {
    assert_eq!(get("session=a; session=b", "session"), Some("a".to_string()));
    assert_eq!(get("sessionid=x; session=y", "session"), Some("y".to_string()));
    assert_eq!(get("session=", "session"), Some(String::new()));
    assert_eq!(get("session=a=b", "session"), Some("a=b".to_string()));
}

#[test]
fn extract_session_cookie_is_the_session_cookie() {
    let h = "a=1; session=zz9";
    assert_eq!(extract_session_cookie(Some(h.as_bytes())), Some("zz9".to_string()));
    assert_eq!(extract_session_cookie(Some(h.as_bytes())), get(h, "session"));
    assert_eq!(extract_session_cookie(None), None);
}

#[test]
fn session_cookie_format() {
    assert_eq!(
        session_cookie("tok"),
        "session=tok; HttpOnly; SameSite=Lax; Path=/; Max-Age=2592000"
    );
    assert_eq!(clear_session_cookie(), "session=; HttpOnly; SameSite=Lax; Path=/; Max-Age=0");
}

#[test]
fn google_csrf_cookie_format() {
    assert_eq!(
        google_csrf_cookie("c5"),
        "google_csrf=c5; HttpOnly; SameSite=Lax; Path=/; Max-Age=600"
    );
    assert_eq!(
        clear_google_csrf_cookie(),
        "google_csrf=; HttpOnly; SameSite=Lax; Path=/; Max-Age=0"
    );
}

#[test]
fn session_cookie_reads_back() {
    let set = session_cookie("3f1c-token");
    assert_eq!(get(&set, "session"), Some("3f1c-token".to_string()));
    assert_eq!(get(clear_session_cookie(), "session"), Some(String::new()));
    let csrf = google_csrf_cookie("abc");
    assert_eq!(get(&csrf, "google_csrf"), Some("abc".to_string()));
}
