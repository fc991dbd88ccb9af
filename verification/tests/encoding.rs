use base64::Engine as _;
use holdfast::base64::base64_encode;
use holdfast::chance::{first_16, first_8};
use holdfast::clock::unix_time_ms;
use holdfast::hex::{hex, unhex};
use holdfast::json::{
    list_field, look_up, number_field, read_object, text_field, write_object, Held, JsonValue,
};
use holdfast::order::is_before;
use holdfast::parse::{parse_u64, split_list, trim};
use holdfast::password::{PasswordAuth, PasswordVerifier};
use holdfast::text::split_once;

#[test]
fn base64_is_the_standard_s() {
    let engine = base64::engine::general_purpose::STANDARD;
    for n in 0..70u8 {
        let bytes: Vec<u8> = (0..n).map(|i| i.wrapping_mul(37).wrapping_add(n)).collect();
        assert_eq!(base64_encode(&bytes), engine.encode(&bytes));
    }
}

#[test]
fn hexadecimal_reads_back() {
    assert_eq!(hex(&[0x00, 0xff, 0x1a]), "00ff1a");
    assert_eq!(unhex("00ff1a"), Some(vec![0x00, 0xff, 0x1a]));
    assert_eq!(unhex("00FF1A"), Some(vec![0x00, 0xff, 0x1a]));
    assert_eq!(unhex("+f"), Some(vec![0x0f]));
    assert_eq!(unhex("0"), None);
    assert_eq!(unhex("0g"), None);
    assert_eq!(unhex("éé"), None);
    assert_eq!(unhex(""), Some(vec![]));
}

#[test]
fn numbers_are_read_as_the_standard_library_reads_them() {
    for text in [
        "0", "7", "+7", "007", "18446744073709551615", "18446744073709551616", "", "+", "-1", "1a",
        " 1", "99999999999999999999999", "++1",
    ] {
        match (parse_u64(text), text.parse::<u64>()) {
            (Ok(ours), Ok(theirs)) => assert_eq!(ours, theirs),
            (Err(ours), Err(theirs)) => assert_eq!(ours.text(), theirs.to_string()),
            _ => panic!("{text:?}"),
        }
    }
}

#[test]
fn texts_are_trimmed_as_the_standard_library_trims_them() {
    for text in ["", "a", "  a b\t\n", "\u{a0}x\u{2003}", "\u{200b}x", "\r\n", "\u{3000}\u{85}y"] {
        assert_eq!(trim(text), text.trim(), "{text:?}");
    }
    assert_eq!(split_list(" a, b ,,c c,"), ["a", "b", "c c"]);
    assert!(split_list(" , ").is_empty());
    assert_eq!(split_once("a.b.c", '.'), Some(("a".to_string(), "b.c".to_string())));
    assert_eq!(split_once("abc", '.'), None);
}

#[test]
fn texts_are_ordered_as_the_standard_library_orders_them() {
    let texts = ["", "a", "aa", "ab", "b", "é", "\u{10000}", "\u{ffff}"];
    for x in texts {
        for y in texts {
            assert_eq!(is_before(x, y), x < y, "{x:?} {y:?}");
        }
    }
}

#[test]
fn the_clock_is_clamped() {
    assert_eq!(unix_time_ms(None), 0);
    assert_eq!(unix_time_ms(Some(5)), 5);
    assert_eq!(unix_time_ms(Some(u128::MAX)), i64::MAX);
}

struct Fixed(bool);
impl PasswordVerifier for Fixed {
    fn verify(&self, _user: &str, _password: &str) -> bool {
        self.0
    }
}

#[test]
fn passwords_are_checked_for_listed_users_only() {
    let auth = PasswordAuth { users: vec!["alice".to_string()] };
    assert!(auth.accepts(&Fixed(true), "alice", "secret"));
    assert!(!auth.accepts(&Fixed(false), "alice", "secret"));
    assert!(!auth.accepts(&Fixed(true), "bob", "secret"));
    assert!(!auth.accepts(&Fixed(true), "alice", ""));
    assert!(!auth.admits("alice", &"x".repeat(1025)));
    assert!(auth.admits("alice", &"x".repeat(1024)));
}

#[test]
fn fewer_bytes_are_the_first_of_thirty_two() {
    let mut all = [0u8; 32];
    for (i, b) in all.iter_mut().enumerate() {
        *b = i as u8 + 1;
    }
    assert_eq!(first_16(&all), all[..16]);
    assert_eq!(first_8(&all), all[..8]);
}

#[test]
fn json_texts_are_escaped() {
    let fields = vec![
        (
            "k\"".to_string(),
            JsonValue::Text("a\\\u{8}\t\n\u{c}\r\u{0}\u{1f}\u{7f}/é".to_string()),
        ),
        ("n".to_string(), JsonValue::Number(-7)),
        ("l".to_string(), JsonValue::List(vec!["x".to_string(), String::new()])),
    ];
    assert_eq!(
        write_object(&fields),
        "{\"k\\\"\":\"a\\\\\\b\\t\\n\\f\\r\\u0000\\u001f\u{7f}/é\",\"n\":-7,\"l\":[\"x\",\"\"]}"
    );
}

#[test]
fn objects_come_apart_into_what_they_were_written_from() {
    let written = vec![
        ("k\"é".to_string(), JsonValue::Text("a\\\n\u{1f}é,}".to_string())),
        ("n".to_string(), JsonValue::Number(i64::MIN)),
        ("l".to_string(), JsonValue::List(vec!["]".to_string(), String::new()])),
    ];
    let fields = read_object(write_object(&written).as_bytes()).unwrap();
    assert_eq!(fields.len(), 3);
    assert_eq!(text_field(&fields, "k\"é"), Some("a\\\n\u{1f}é,}".to_string()));
    assert_eq!(number_field(&fields, "n"), Some(i64::MIN));
    assert_eq!(list_field(&fields, "l"), Some(vec!["]".to_string(), String::new()]));
    assert_eq!(list_field(&fields, "none"), Some(vec![]));
    assert_eq!(text_field(&fields, "none"), None);
    assert_eq!(text_field(&fields, "n"), None);
    assert_eq!(read_object(write_object(&vec![]).as_bytes()), Some(vec![]));
    let twice = read_object(b"{\"a\": 1, \"b\":[ 2 ] ,\"a\":1}").unwrap();
    assert_eq!(look_up(&twice, "a"), Held::Repeated);
    assert_eq!(look_up(&twice, "b"), Held::Once(&b"[ 2 ]".to_vec()));
    assert_eq!(look_up(&twice, "c"), Held::Absent);
    for broken in ["", "[]", "{", "{}}", "{,}", "{\"a\"}", "{\"a\":1,}", "{\"a\":1 \"b\":2}", "{1:2}"] {
        assert_eq!(read_object(broken.as_bytes()), None, "{broken}");
    }
}
