use base64::engine::general_purpose::{STANDARD, URL_SAFE, URL_SAFE_NO_PAD};
use base64::Engine;
use ngx_http_altcha_module::encoding::unwrap_base64;

fn unwrapped(text: &[u8]) -> Option<Vec<u8>> {
    unwrap_base64(text).ok()
}

#[test]
fn standard_base64_is_unwrapped() {
    assert_eq!(unwrapped(b"aGVsbG8="), Some(b"hello".to_vec()));
    assert_eq!(unwrapped(b"+/+/"), Some(vec![0xfb, 0xff, 0xbf]));
    assert_eq!(unwrapped(b""), Some(vec![]));
}

#[test]
fn url_safe_base64_is_unwrapped() {
    assert_eq!(unwrapped(b"-_-_"), Some(vec![0xfb, 0xff, 0xbf]));
    assert_eq!(unwrapped(b"-w"), Some(vec![0xfb]));
    assert_eq!(unwrapped(b"-w=="), Some(vec![0xfb]));
    assert_eq!(unwrapped(b"-_8="), Some(vec![0xfb, 0xff]));
    assert_eq!(unwrapped(b"aGVsbG8"), Some(b"hello".to_vec()));
}

#[test]
fn anything_else_is_not_unwrapped() {
    let texts: [&[u8]; 13] = [
        b"a", b"aGVsbG8==", b"aGVsbG9=", b"aGVsbG9", b"+_AA", b"-w=", b"-w===", b"-x==", b"-_==", b"!!!!", b"aGVs bG8=",
        b"aGVsbG8=\n", b"====",
    ];
    for text in texts {
        assert_eq!(unwrapped(text), None, "{:?}", text);
    }
}

#[test]
fn whatever_is_wrapped_is_unwrapped() {
    let mut data: Vec<u8> = vec![];
    for i in 0..300u32 {
        assert_eq!(unwrapped(STANDARD.encode(&data).as_bytes()), Some(data.clone()));
        assert_eq!(unwrapped(URL_SAFE_NO_PAD.encode(&data).as_bytes()), Some(data.clone()));
        assert_eq!(unwrapped(URL_SAFE.encode(&data).as_bytes()), Some(data.clone()));
        data.push((i * 37 + 11) as u8);
    }
}

#[test]
fn padded_url_safe_text_is_unwrapped() {
    let text = URL_SAFE.encode([0xfbu8, 0xff, 0xbf, 0xfb]);
    assert_eq!(text, "-_-_-w==");
    assert_eq!(unwrapped(text.as_bytes()), Some(vec![0xfb, 0xff, 0xbf, 0xfb]));
}

#[test]
fn the_error_is_that_of_the_unpadded_decoding() {
    let texts: [&[u8]; 4] = [b"!!!!", b"-w=", b"aGVsbG9", b"a"];
    for text in texts {
        assert_eq!(unwrap_base64(text), URL_SAFE_NO_PAD.decode(text));
    }
}
