use std::path::Path;
use xiaoai_agent::asr::realtime_ws_url;
use xiaoai_agent::config::WeatherConfig;
use xiaoai_agent::music::{build_url, checked_url};
use xiaoai_agent::paths::{are_same, are_same_raw};
use xiaoai_agent::json::{parse_json, Json, JsonNumber};
use xiaoai_agent::sorting::sort_ascending;
use xiaoai_agent::text::{
    any_text, blank, chars_of, contains, contains_char, copy_texts, decimal_text, digit,
    ends_with, hex_text, hexadecimal_text, lines, replace, same_text, signed_text, starts_with,
    string_between, string_of, strip_prefix, to_ascii_lowercase, trim, trim_char, trim_end_char,
    trim_start, wide_decimal_text,
};
use xiaoai_agent::urls::has_room;
use xiaoai_agent::weather::forecast_url;

const SAMPLES: [&str; 9] = [
    "",
    " ",
    "abc",
    " \t小爱 同学\u{3000}\n",
    "aaa",
    "//a//",
    "a\r\nb\n\nc",
    "x;y；z",
    "Ünïcödé",
];

#[test]
fn trimming_agrees_with_std() {
    for s in SAMPLES {
        assert_eq!(trim(s), s.trim());
        assert_eq!(trim_start(s), s.trim_start());
        assert_eq!(trim_end_char(s, '/'), s.trim_end_matches('/'));
        assert_eq!(trim_char(s, '/'), s.trim_matches('/'));
        assert_eq!(blank(s), s.trim().is_empty());
    }
}

#[test]
fn searching_agrees_with_std() {
    for s in SAMPLES {
        for p in ["a", "aa", "同", "", "/a"] {
            assert_eq!(contains(s, p), s.contains(p));
            assert_eq!(starts_with(s, p), s.starts_with(p));
            assert_eq!(ends_with(s, p), s.ends_with(p));
            assert_eq!(strip_prefix(s, p).as_deref(), s.strip_prefix(p));
            assert_eq!(same_text(s, p), s == p);
            if !p.is_empty() {
                assert_eq!(replace(s, p, "<>"), s.replace(p, "<>"));
            }
        }
        assert_eq!(contains_char(s, 'a'), s.contains('a'));
        assert_eq!(to_ascii_lowercase(s), s.to_ascii_lowercase());
        assert_eq!(lines(s), s.lines().collect::<Vec<_>>());
        assert_eq!(chars_of(s), s.chars().collect::<Vec<_>>());
        assert_eq!(string_of(&chars_of(s)), s);
    }
    assert_eq!(lines("a\r\n\r\nb\r"), ["a", "", "b\r"]);
    assert_eq!(to_ascii_lowercase("AZaz09É"), "azaz09É");
    assert_eq!(string_between(&['a', 'b', 'c'], 1, 2), "b");
}

#[test]
fn numbers_are_written() {
    for n in [0, 7, 10, 255, 65_536, u64::MAX] {
        assert_eq!(decimal_text(n), n.to_string());
        assert_eq!(hexadecimal_text(n), format!("{n:x}"));
        assert_eq!(wide_decimal_text(n as u128), n.to_string());
    }
    for n in [0, -1, 42, i64::MIN, i64::MAX] {
        assert_eq!(signed_text(n), n.to_string());
    }
    assert_eq!(hex_text(&[0, 0x0f, 0xa5]), "000fa5");
    assert!(digit('0') && digit('9') && !digit('a') && !digit('٣'));
}

#[test]
fn lists_of_texts() {
    let items = vec!["a".to_string(), "b".to_string()];
    assert_eq!(copy_texts(&items), items);
    assert!(any_text(&items, "b") && !any_text(&items, "c"));
}

#[test]
fn numbers_are_sorted() {
    assert_eq!(sort_ascending(&vec![3, 1, 2, 3, 0]), [0, 1, 2, 3, 3]);
    assert!(sort_ascending(&vec![]).is_empty());
}

#[test]
fn json_is_read_and_written() {
    let text = r#"{"a":[1,-2,3.5,"x",null,true],"b":{"c":"d"}}"#;
    let value = parse_json(text).unwrap();
    assert_eq!(value.to_text(), text);
    assert_eq!(value.copy().to_text(), text);
    assert_eq!(
        value.get("b").unwrap().get("c").unwrap().as_str().unwrap(),
        "d"
    );
    assert!(value.get("c").is_none() && value.as_array().is_none());
    let items = value.get("a").unwrap().as_array().unwrap();
    assert_eq!(items[0].as_u64(), Some(1));
    assert_eq!(items[1].as_u64(), None);
    assert!(matches!(items[1], Json::Number(JsonNumber::Negative(-2))));
    assert!(matches!(&items[2], Json::Number(JsonNumber::Float(f)) if f == "3.5"));
    assert!(items[0].get("x").is_none());
    assert_eq!(
        parse_json("[1,").unwrap_err(),
        serde_json::from_str::<serde_json::Value>("[1,")
            .unwrap_err()
            .to_string()
    );
}

#[test]
fn urls_are_changed_piece_by_piece() {
    let pairs = |items: &[(&str, &str)]| -> Vec<(String, String)> {
        items
            .iter()
            .map(|(name, value)| (name.to_string(), value.to_string()))
            .collect()
    };
    assert_eq!(
        realtime_ws_url("http://h:81/x#f", "m").as_deref(),
        Ok("ws://h:81/x/v1/realtime?model=m#f")
    );
    assert_eq!(
        build_url("http://h/x?a=1#f", "/a b", &pairs(&[("b", "&")])).as_deref(),
        Ok("http://h/a%20b?a=1&b=%26#f")
    );
    assert_eq!(build_url("http://h/", "", &vec![]).as_deref(), Ok("http://h/?"));
    assert_eq!(
        checked_url("nothing", "/", &vec![]).unwrap().unwrap_err(),
        "relative URL without a base"
    );
    let config = WeatherConfig {
        qweather_url: "http://h/x?q=1&location=2#f".to_string(),
        ..WeatherConfig::default()
    };
    assert_eq!(
        forecast_url(&config, "3").as_deref(),
        Ok("http://h/x?q=1&location=3#f")
    );
    assert!(has_room("http://h/", 1_000));
    assert!(!has_room("http://h/", 0x1_0000_0000));
    assert!(has_room("nothing", 0x1_0000_0000));
}

#[test]
fn paths_are_compared_by_their_components() {
    for (a, b) in [
        ("/a/b", "/a//b"),
        ("/a/b", "/a/./b/"),
        ("/a/b/.", "/a/b"),
        ("a", "a/"),
        ("./a", ".//a"),
        ("", ""),
        ("/", "//."),
    ] {
        assert!(are_same(a, b), "{a} {b}");
        assert!(are_same_raw(a.as_bytes(), b.as_bytes()));
        assert_eq!(Path::new(a), Path::new(b));
    }
    for (a, b) in [
        ("/a/b", "a/b"),
        ("/a/b", "/a"),
        ("./a", "a"),
        ("", "."),
        ("a/../b", "b"),
        ("..", "."),
    ] {
        assert!(!are_same(a, b), "{a} {b}");
        assert!(!are_same_raw(a.as_bytes(), b.as_bytes()));
        assert_ne!(Path::new(a), Path::new(b));
    }
}

#[test]
fn white_space_is_what_unicode_says() {
    for code in (0..0x3100_u32).chain(0xfe00..0xff10) {
        if let Some(c) = char::from_u32(code) {
            let listed = matches!(
                code,
                0x9..=0xd | 0x20 | 0x85 | 0xa0 | 0x1680 | 0x2000..=0x200a | 0x2028 | 0x2029
                    | 0x202f | 0x205f | 0x3000
            );
            assert_eq!(trim(&format!("{c}x{c}")) == "x", listed, "{code:x}");
            assert_eq!(c.is_control(), code <= 0x1f || (0x7f..=0x9f).contains(&code));
        }
    }
}

