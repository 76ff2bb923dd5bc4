use chat_relay::session::{is_space_char, path_room, read_cookie, resolve};
use chat_relay::UserSession;

/// The value of a cookie as plain string methods find it.
fn by_string_methods(header: &str, name: &str) -> Option<String> {
    let mut found = None;
    for cookie in header.split(';') {
        let parts: Vec<&str> = cookie.trim().split('=').collect();
        if parts.len() == 2 && parts[0] == name {
            found = Some(parts[1].to_string());
        }
    }
    found
}

#[test]
fn white_space_is_what_the_standard_library_says() {
    for code in 0u32..=0x10FFFF {
        if let Some(c) = char::from_u32(code) {
            assert_eq!(is_space_char(c), c.is_whitespace(), "U+{:04X}", code);
        }
    }
}

#[test]
fn cookie_is_read_from_a_header() {
    let header = "user_id=u-1; nickname=alice; room_id=lobby";
    assert_eq!(read_cookie(header, "user_id"), Some("u-1".to_string()));
    assert_eq!(read_cookie(header, "nickname"), Some("alice".to_string()));
    assert_eq!(read_cookie(header, "room_id"), Some("lobby".to_string()));
    assert_eq!(read_cookie(header, "other"), None);
}

#[test]
fn last_cookie_of_a_name_wins() {
    assert_eq!(read_cookie("nickname=a;nickname=b", "nickname"), Some("b".to_string()));
    assert_eq!(read_cookie("nickname=a;nickname=b=c", "nickname"), Some("a".to_string()));
    assert_eq!(read_cookie("nickname=a; nickname", "nickname"), Some("a".to_string()));
}

#[test]
fn cookie_needs_exactly_one_equals_sign() {
    assert_eq!(read_cookie("nickname", "nickname"), None);
    assert_eq!(read_cookie("nickname=a=b", "nickname"), None);
    assert_eq!(read_cookie("nickname==", "nickname"), None);
    assert_eq!(read_cookie("nickname=", "nickname"), Some(String::new()));
    assert_eq!(read_cookie("=x", ""), Some("x".to_string()));
    assert_eq!(read_cookie("", "nickname"), None);
    assert_eq!(read_cookie(";;", "nickname"), None);
}

#[test]
fn cookie_is_trimmed_at_its_ends_only() {
    assert_eq!(read_cookie(" \t nickname=al ice \u{a0};", "nickname"), Some("al ice".to_string()));
    assert_eq!(read_cookie("nickname =a", "nickname"), None);
    assert_eq!(read_cookie("nickname =a", "nickname "), Some("a".to_string()));
    assert_eq!(read_cookie("nickname= a", "nickname"), Some(" a".to_string()));
}

#[test]
fn cookie_reading_agrees_with_string_methods() {
    let alphabet = ['a', '=', ';', ' ', 'n', '\u{3000}'];
    let mut headers = vec![String::new()];
    for _ in 0..5 {
        let mut longer = Vec::new();
        for header in &headers {
            for c in alphabet {
                let mut next = header.clone();
                next.push(c);
                longer.push(next);
            }
        }
        for header in &longer {
            for name in ["a", "n", "an", "", "a a"] {
                assert_eq!(
                    read_cookie(header, name),
                    by_string_methods(header, name),
                    "{:?} {:?}",
                    header,
                    name
                );
            }
        }
        headers = longer;
    }
}

#[test]
fn room_is_what_follows_the_slash() {
    assert_eq!(path_room("/kitchen"), "kitchen");
    assert_eq!(path_room("/a/b?c=d"), "a/b?c=d");
    assert_eq!(path_room("//"), "/");
    assert_eq!(path_room("/caf\u{e9}"), "caf\u{e9}");
}

#[test]
fn room_defaults_to_lobby() {
    assert_eq!(path_room("/"), "lobby");
    assert_eq!(path_room(""), "lobby");
    assert_eq!(path_room("kitchen"), "lobby");
    assert_eq!(path_room("k"), "lobby");
}

#[test]
fn identity_comes_from_the_cookies() {
    let session = resolve(
        3,
        "/kitchen",
        Some(b"user_id=u-1; nickname=alice; room_id=hall"),
        "fallback".to_string(),
    );
    assert_eq!(
        session,
        UserSession {
            user_id: "u-1".to_string(),
            nickname: "alice".to_string(),
            room_id: "kitchen".to_string(),
        }
    );
}

#[test]
fn identity_is_filled_in_where_cookies_are_missing() {
    let anonymous = UserSession {
        user_id: "fallback".to_string(),
        nickname: "User-12".to_string(),
        room_id: "lobby".to_string(),
    };
    assert_eq!(resolve(12, "/", None, "fallback".to_string()), anonymous);
    assert_eq!(resolve(12, "", Some(b""), "fallback".to_string()), anonymous);
    assert_eq!(resolve(12, "/", Some(b"theme=dark"), "fallback".to_string()), anonymous);
    assert_eq!(resolve(12, "/", Some(b"nickname=bob\x80"), "fallback".to_string()), anonymous);
    let named = resolve(0, "/", Some(b"nickname=bob"), "fallback".to_string());
    assert_eq!(named.user_id, "fallback");
    assert_eq!(named.nickname, "bob");
    let known = resolve(4294967295, "/", Some(b"user_id=u-2"), "fallback".to_string());
    assert_eq!(known.user_id, "u-2");
    assert_eq!(known.nickname, "User-4294967295");
}
