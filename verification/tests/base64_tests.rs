use jsaas::base64::{atob, btoa, btoa_text};

fn text(data: &[u8]) -> String {
    String::from_utf8(btoa(data)).unwrap()
}

#[test]
fn test_duktape_btoa() {
    // The coercions to a string are the interpreter's; the host encodes the
    // string that they give.
    assert_eq!(text_of_string("hello"), "aGVsbG8=");
    assert_eq!(text_of_string("1234"), "MTIzNA==");
    assert_eq!(text_of_string("undefined"), "dW5kZWZpbmVk");
    assert_eq!(text_of_string("true"), "dHJ1ZQ==");
    assert_eq!(text_of_string("false"), "ZmFsc2U=");
    assert_eq!(text_of_string("null"), "bnVsbA==");
    assert_eq!(text_of_string("[object Object]"), "W29iamVjdCBPYmplY3Rd");
}

#[test]
fn test_duktape_atob() {
    assert_eq!(atob(b"aGVsbG8="), Some(b"hello".to_vec()));
    assert_eq!(atob(b"AacABdxfoCQ="), Some(vec![1, 167, 0, 5, 220, 95, 160, 36]));
    assert_eq!(atob(b""), Some(vec![]));
    assert_eq!(atob(b"Z"), None);
}

#[test]
fn btoa_of_nothing_is_empty() {
    assert_eq!(text(b""), "");
}

#[test]
fn btoa_pads_short_ends() {
    assert_eq!(text(b"f"), "Zg==");
    assert_eq!(text(b"fo"), "Zm8=");
    assert_eq!(text(b"foo"), "Zm9v");
    assert_eq!(text(b"foob"), "Zm9vYg==");
    assert_eq!(text(b"fooba"), "Zm9vYmE=");
    assert_eq!(text(b"foobar"), "Zm9vYmFy");
}

#[test]
fn btoa_uses_the_whole_alphabet() {
    assert_eq!(text(&[0xfb, 0xff, 0xbf]), "+/+/");
    assert_eq!(text(&[0x00, 0x10, 0x83]), "ABCD");
    assert_eq!(text(&[0xd3, 0x5d, 0xb7]), "0123");
}

#[test]
fn atob_round_trips_every_byte() {
    let all: Vec<u8> = (0..=255u8).collect();
    for start in 0..4 {
        for end in [0usize, 1, 2, 3, 253, 254, 255, 256] {
            if start <= end {
                let slice = &all[start..end];
                assert_eq!(atob(&btoa(slice)), Some(slice.to_vec()));
            }
        }
    }
}

#[test]
fn atob_refuses_what_is_no_text() {
    assert_eq!(atob(b"Zg="), None);
    assert_eq!(atob(b"Zg==Zg=="), None);
    assert_eq!(atob(b"Z==="), None);
    assert_eq!(atob(b"===="), None);
    assert_eq!(atob(b"Zg=a"), None);
    assert_eq!(atob(b"Zm 9"), None);
    assert_eq!(atob(b"Zm9v\n"), None);
    assert_eq!(atob(b"Zm-_"), None);
}

#[test]
fn atob_refuses_stray_bits() {
    // "Zh==" would stand for the same byte as "Zg==", with bits set that
    // stand for none.
    assert_eq!(atob(b"Zh=="), None);
    assert_eq!(atob(b"Zm9="), None);
    assert_eq!(atob(b"Zg=="), Some(b"f".to_vec()));
    assert_eq!(atob(b"Zm8="), Some(b"fo".to_vec()));
}

fn text_of_string(string: &str) -> String {
    String::from_utf8(btoa_text(string)).unwrap()
}

#[test]
fn btoa_text_encodes_the_code_units_of_an_8_bit_string() {
    assert_eq!(text_of_string(""), "");
    assert_eq!(text_of_string("hello"), "aGVsbG8=");
    assert_eq!(text_of_string("[object Object]"), "W29iamVjdCBPYmplY3Rd");
    // one byte for each unit, not the two of its UTF-8 encoding
    assert_eq!(text_of_string("\u{e9}"), "6Q==");
    assert_eq!(text_of_string("\u{0}\u{7f}\u{80}\u{ff}"), "AH+A/w==");
}

#[test]
fn btoa_text_encodes_the_utf8_bytes_of_any_other_string() {
    assert_eq!(text_of_string("\u{100}"), "xIA=");
    assert_eq!(text_of_string("\u{4e2d}"), "5Lit");
    // a character above U+00FF anywhere makes the whole string one of these
    assert_eq!(text_of_string("\u{e9}\u{4e2d}"), "w6nkuK0=");
    assert_eq!(btoa_text("\u{e9}\u{4e2d}"), btoa("\u{e9}\u{4e2d}".as_bytes()));
}

#[test]
fn atob_of_btoa_text_gives_the_code_units_back() {
    let units: String = (0..=255u8).map(char::from).collect();
    let bytes = atob(&btoa_text(&units)).unwrap();
    let back: String = bytes.iter().map(|b| char::from(*b)).collect();
    assert_eq!(back, units);
}
