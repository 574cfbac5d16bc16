use media_server::{
    extension_start, parse_decimal, path_segments, push_decimal, range_start, store_path,
};

#[test]
fn decimal_spelling() {
    let mut out = b"n=".to_vec();
    push_decimal(&mut out, 0);
    assert_eq!(out, b"n=0".to_vec());
    let mut out = Vec::new();
    push_decimal(&mut out, 1048576);
    assert_eq!(out, b"1048576".to_vec());
    let mut out = Vec::new();
    push_decimal(&mut out, u64::MAX);
    assert_eq!(out, b"18446744073709551615".to_vec());
}

#[test]
fn decimal_reading() {
    assert_eq!(parse_decimal(b"0"), Some(0));
    assert_eq!(parse_decimal(b"007"), Some(7));
    assert_eq!(parse_decimal(b"18446744073709551615"), Some(u64::MAX));
    assert_eq!(parse_decimal(b"18446744073709551616"), None);
    assert_eq!(parse_decimal(b"99999999999999999999"), None);
    assert_eq!(parse_decimal(b""), None);
    assert_eq!(parse_decimal(b"12a"), None);
    assert_eq!(parse_decimal(b"-1"), None);
}

#[test]
fn range_header_start() {
    assert_eq!(range_start(None), 0);
    assert_eq!(range_start(Some(&b"bytes=1048576-"[..])), 1048576);
    assert_eq!(range_start(Some(&b"bytes=100-200"[..])), 100);
    assert_eq!(range_start(Some(&b"bytes=42"[..])), 42);
    assert_eq!(range_start(Some(&b"300-"[..])), 300);
    assert_eq!(range_start(Some(&b"bytes=-500"[..])), 0);
    assert_eq!(range_start(Some(&b"bytes=abc-"[..])), 0);
    assert_eq!(range_start(Some(&b"bytes=99999999999999999999-"[..])), 0);
    assert_eq!(range_start(Some(&b""[..])), 0);
}

#[test]
fn segments_of_paths() {
    assert_eq!(path_segments(b"/file/a.mp3"), vec![b"file".to_vec(), b"a.mp3".to_vec()]);
    assert_eq!(path_segments(b"//a///b/"), vec![b"a".to_vec(), b"b".to_vec()]);
    assert_eq!(path_segments(b"/"), Vec::<Vec<u8>>::new());
    assert_eq!(path_segments(b""), Vec::<Vec<u8>>::new());
    assert_eq!(path_segments(b"x"), vec![b"x".to_vec()]);
}

#[test]
fn extension_after_last_dot() {
    assert_eq!(extension_start(b"a.b.mp3"), Some(4));
    assert_eq!(extension_start(b"noext"), None);
    assert_eq!(extension_start(b"end."), Some(4));
    assert_eq!(extension_start(b".svg"), Some(1));
}

#[test]
fn store_paths() {
    assert_eq!(store_path(b"clip.mp4"), b"files/clip.mp4".to_vec());
    assert_eq!(store_path(b""), b"files/".to_vec());
}
