use match_server::client::connect_uuid_request;
use match_server::protocol::decode_frame;
use match_server::text::{decimal, text_eq, trim};
use match_server::MessageError;

#[test]
fn decimal_texts() {
    assert_eq!(decimal(0), "0");
    assert_eq!(decimal(7), "7");
    assert_eq!(decimal(10), "10");
    assert_eq!(decimal(1234567), "1234567");
    assert_eq!(decimal(u128::MAX), u128::MAX.to_string());
}

#[test]
fn trimming() {
    assert_eq!(trim("  a b \n"), "a b");
    assert_eq!(trim(""), "");
    assert_eq!(trim(" \t\r\n"), "");
    assert_eq!(trim("\u{3000}x\u{a0}"), "x");
    assert_eq!(trim("abc"), "abc");
    let s = "\u{85} mixed \u{2029}";
    assert_eq!(trim(s), s.trim());
}

#[test]
fn text_equality() {
    assert!(text_eq("abc", "abc"));
    assert!(!text_eq("abc", "abd"));
    assert!(!text_eq("abc", "ab"));
    assert!(text_eq("", ""));
}

#[test]
fn utf8_decoding() {
    let text = "héllo".as_bytes();
    assert_eq!(decode_frame(text, text.len()), Ok("héllo".to_string()));
    match decode_frame(&[b'o', b'k', 0xe2, 0x82], 4) {
        Err(MessageError::InvalidUtf8(f)) => {
            assert_eq!(f.valid_up_to, 2);
            assert_eq!(f.error_len, None);
        }
        other => panic!("unexpected {:?}", other),
    }
    match decode_frame(&[0xc0, 0x80], 2) {
        Err(MessageError::InvalidUtf8(f)) => {
            assert_eq!(f.valid_up_to, 0);
            assert_eq!(f.error_len, Some(1));
        }
        other => panic!("unexpected {:?}", other),
    }
    assert_eq!(connect_uuid_request(&[b'a', 0xff]), "CONNECT_UUID.a\u{fffd}");
}
