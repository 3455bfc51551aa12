use audio_fetch::content_range::{file_size, file_size_in_text};
use hyper::header::{HeaderMap, HeaderValue, CONTENT_LENGTH, CONTENT_RANGE};

fn headers(value: &[u8]) -> HeaderMap {
    let mut headers = HeaderMap::new();
    headers.insert(CONTENT_LENGTH, HeaderValue::from_static("17"));
    headers.insert(CONTENT_RANGE, HeaderValue::from_bytes(value).unwrap());
    headers
}

#[test]
fn size_stands_behind_the_slash() {
    assert_eq!(file_size_in_text("bytes 0-131071/4389230"), Some(4389230));
    assert_eq!(file_size_in_text("bytes */0"), Some(0));
    assert_eq!(file_size_in_text("a/b/12"), Some(12));
}

#[test]
fn text_without_a_slash_is_a_size() {
    assert_eq!(file_size_in_text("4389230"), Some(4389230));
    assert_eq!(file_size_in_text("bytes 4389230"), None);
}

#[test]
fn text_that_states_no_size() {
    for text in ["", "/", "bytes 0-1/*", "bytes 0-1/", "1/ 2", "1/2 ", "1/-2", "1/2_0", "1/0x10", "1/+", "1/++2", "5/", "1/\u{0661}"] {
        assert_eq!(file_size_in_text(text), None);
    }
}

#[test]
fn numbers_are_read_as_std_reads_them() {
    let max = usize::MAX.to_string();
    let above = (usize::MAX as u128 + 1).to_string();
    let longer = format!("{}0", max);
    let padded = format!("0000000000000000000000000000000{}", max);
    for text in ["0", "+0", "+7", "007", "-0", "12a", "+", "", " 1", "1\t", max.as_str(), above.as_str(), longer.as_str(), padded.as_str()] {
        assert_eq!(file_size_in_text(text), text.parse::<usize>().ok());
    }
}

#[test]
fn size_is_read_out_of_the_fields() {
    assert_eq!(file_size(&headers(b"bytes 0-9/1000")), Some(1000));
    assert_eq!(file_size(&headers(b"bytes\t0-9/1000")), Some(1000));
}

#[test]
fn field_has_to_be_there() {
    let mut headers = HeaderMap::new();
    assert_eq!(file_size(&headers), None);
    headers.insert(CONTENT_LENGTH, HeaderValue::from_static("17"));
    assert_eq!(file_size(&headers), None);
}

#[test]
fn first_of_several_fields_counts() {
    let mut headers = headers(b"bytes 0-9/1000");
    headers.append(CONTENT_RANGE, HeaderValue::from_static("bytes 0-9/2000"));
    assert_eq!(file_size(&headers), Some(1000));
}

#[test]
fn field_has_to_be_visible_ascii() {
    assert_eq!(file_size(&headers(b"bytes \xe9/1000")), None);
    assert_eq!(file_size(&headers(b"caf\xc3\xa9/1000")), None);
}

#[test]
fn every_range_gives_back_its_size() {
    for range in ["", "bytes 0-0", "bytes */", "x/y"] {
        for size in [0, 9, 10, 99, 131072, usize::MAX] {
            assert_eq!(file_size_in_text(&format!("{}/{}", range, size)), Some(size));
        }
    }
}
