use zcash_mempool_visualizer::cookie::{cookie_candidates, first_cookie, is_white_space, parse_cookie};

fn pair(u: &str, p: &str) -> Option<(String, String)> {
    Some((u.to_string(), p.to_string()))
}

#[test]
fn cookie_with_surrounding_white_space() {
    assert_eq!(parse_cookie("__cookie__:s3cr3t\n"), pair("__cookie__", "s3cr3t"));
    assert_eq!(parse_cookie(" \t user:pass \r\n"), pair("user", "pass"));
    assert_eq!(parse_cookie("\u{a0}u:p\u{3000}"), pair("u", "p"));
}

#[test]
fn cookie_split_at_first_colon() {
    assert_eq!(parse_cookie("a:b:c"), pair("a", "b:c"));
    assert_eq!(parse_cookie(":"), pair("", ""));
    assert_eq!(parse_cookie("user: pass"), pair("user", " pass"));
}

#[test]
fn cookie_without_colon() {
    assert_eq!(parse_cookie("no separator"), None);
    assert_eq!(parse_cookie(""), None);
    assert_eq!(parse_cookie(" \n\t "), None);
}

#[test]
fn candidate_paths() {
    assert_eq!(
        cookie_candidates(Some("/home/alice")),
        vec![
            "/home/alice/.cache/zebra/.cookie".to_string(),
            "/home/alice/.zcash/.cookie".to_string(),
            "/home/zebra/.cache/zebra/.cookie".to_string(),
        ]
    );
    assert_eq!(
        cookie_candidates(None),
        vec![
            "/root/.cache/zebra/.cookie".to_string(),
            "/root/.zcash/.cookie".to_string(),
            "/home/zebra/.cache/zebra/.cookie".to_string(),
        ]
    );
}

#[test]
fn white_space_matches_std() {
    for v in 0..=0x10ffffu32 {
        if let Some(c) = char::from_u32(v) {
            assert_eq!(is_white_space(c), c.is_whitespace(), "U+{:04X}", v);
        }
    }
}

#[test]
fn cookie_round_trip() {
    for (u, p) in [("__cookie__", "abc=="), ("", ""), ("user name", "pa ss:word"), ("x", " lead")] {
        let content = format!("{}:{}\n", u, p);
        assert_eq!(parse_cookie(&content), pair(u, p));
    }
}

#[test]
fn first_readable_cookie_wins() {
    let contents = vec![None, Some("garbage".to_string()), Some(" a:b\n".to_string()), Some("c:d".to_string())];
    assert_eq!(first_cookie(&contents), Some((2, "a".to_string(), "b".to_string())));
    assert_eq!(first_cookie(&vec![None, Some("no colon".to_string()), None]), None);
    assert_eq!(first_cookie(&Vec::new()), None);
}
