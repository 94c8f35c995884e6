use omt_core::input::keyboard::Key;
use omt_core::math::IVec2;
use omt_core::util::convert::{into_id, into_key, into_vec2};

#[test]
fn string_parse_vec2() {
    let tests = vec![
        (" (1,2)", Ok(IVec2::new(1, 2))),
        (" (1, 2)", Ok(IVec2::new(1, 2))),
        ("(1, 2) ", Ok(IVec2::new(1, 2))),
        ("(1, 2)", Ok(IVec2::new(1, 2))),
        ("(12, 34)", Ok(IVec2::new(12, 34))),
        ("(123, 456)", Ok(IVec2::new(123, 456))),
        ("(1,2)", Ok(IVec2::new(1, 2))),
        ("1, 23)", Err(())),
        ("(1, 23", Err(())),
        ("1, 2", Err(())),
        ("()", Err(())),
        ("(1 2)", Err(())),
        (",", Err(())),
    ];

    for (s, r) in tests {
        match (r, into_vec2(s)) {
            (Ok(expected), Ok(got)) => assert_eq!(expected, got),
            (Err(()), Err(_)) => {}
            (expected, got) => panic!("{:?}: expected {:?}, got {:?}", s, expected, got),
        }
    }
}

#[test]
fn vec2_error_messages_name_the_missing_token() {
    assert_eq!(into_vec2("1, 2"), Err("expected '('".to_string()));
    assert_eq!(into_vec2("(x, 2)"), Err("expected number".to_string()));
    assert_eq!(into_vec2("(1 2)"), Err("expected ','".to_string()));
    assert_eq!(into_vec2("(1, )"), Err("expected number".to_string()));
    assert_eq!(into_vec2("(1, 2"), Err("expected ')'".to_string()));
}

#[test]
fn vec2_number_overflow_is_rejected() {
    assert_eq!(into_vec2("(2147483647, 1)"), Ok(IVec2::new(2147483647, 1)));
    assert_eq!(into_vec2("(2147483648, 1)"), Err("expected number".to_string()));
    assert_eq!(into_vec2("(99999999999999999999, 1)"), Err("expected number".to_string()));
}

#[test]
fn vec2_ignores_text_after_closing_paren() {
    assert_eq!(into_vec2("(3, 4) trailing"), Ok(IVec2::new(3, 4)));
}

#[test]
fn key_words_map_to_keys() {
    assert_eq!(into_key("a"), Ok(Key::A));
    assert_eq!(into_key("z"), Ok(Key::Z));
    assert_eq!(into_key("esc"), Ok(Key::Escape));
    assert_eq!(into_key("space"), Ok(Key::Space));
    assert_eq!(into_key("up"), Ok(Key::UpArrow));
    assert_eq!(into_key("down"), Ok(Key::DownArrow));
    assert_eq!(into_key("left"), Ok(Key::LeftArrow));
    assert_eq!(into_key("right"), Ok(Key::RightArrow));
}

#[test]
fn unknown_key_word_is_an_error() {
    assert_eq!(
        into_key("enter"),
        Err("key 'enter' does not have string mapping".to_string()),
    );
    assert_eq!(
        into_key(""),
        Err("key '' does not have string mapping".to_string()),
    );
}

#[test]
fn path_parse_id() {
    let tests = vec![
        ("some/path", "some.path"),
        ("some / path", "some . path"),
        (r#"C:\example\folder"#, ".C.example.folder"),
        ("/example/folder", ".example.folder"),
        ("test/text.txt", "test.text"),
        ("test/script.lua", "test.script"),
        ("test/lib.dll", "test.lib"),
    ];

    for (p, r) in tests {
        assert_eq!(r.to_string(), into_id(p));
    }
}

#[test]
fn path_id_edge_shapes() {
    // Doubled and trailing separators contribute no components.
    assert_eq!(into_id("a//b/"), "a.b");
    // A leading dot marks a hidden name, not an extension.
    assert_eq!(into_id("cfg/.hidden"), "cfg..hidden");
    // Only the last component loses its extension.
    assert_eq!(into_id("a.b/c.d"), "a.b.c");
    assert_eq!(into_id(""), "");
}
