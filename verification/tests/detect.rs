use body_decoder::detect::detect_format;
use body_decoder::BodyFormat;
use body_decoder::Headers;

fn b(s: &str) -> Vec<u8> {
    s.as_bytes().to_vec()
}

#[test]
fn content_encoding_gzip_selects_and_strips() {
    let mut h = Headers::new();
    h.append(&b("Content-Encoding"), b("gzip"));
    h.append(&b("Content-Length"), b("120"));
    let d = detect_format(&mut h, true);
    assert_eq!(d, BodyFormat::UseDecompression);
    assert!(!h.has_name(&b("content-encoding")));
    assert!(!h.has_name(&b("content-length")));
    assert_eq!(h.len(), 0);
}

#[test]
fn content_encoding_gzip_without_length_selects_and_strips() {
    let mut h = Headers::new();
    h.append(&b("content-encoding"), b("gzip"));
    h.append(&b("server"), b("test"));
    let d = detect_format(&mut h, true);
    assert_eq!(d, BodyFormat::UseDecompression);
    assert!(!h.has_name(&b("content-encoding")));
    assert!(!h.has_name(&b("content-length")));
    assert!(h.has_name(&b("server")));
    assert_eq!(h.len(), 1);
}

#[test]
fn zero_length_overrides_but_still_strips() {
    let mut h = Headers::new();
    h.append(&b("Content-Encoding"), b("gzip"));
    h.append(&b("Content-Length"), b("0"));
    let d = detect_format(&mut h, true);
    assert_eq!(d, BodyFormat::PassThrough);
    assert!(!h.has_name(&b("content-encoding")));
    assert!(!h.has_name(&b("content-length")));
}

#[test]
fn transfer_encoding_gzip_selects_without_stripping() {
    let mut h = Headers::new();
    h.append(&b("Transfer-Encoding"), b("gzip"));
    h.append(&b("Content-Length"), b("64"));
    let d = detect_format(&mut h, true);
    assert_eq!(d, BodyFormat::UseDecompression);
    assert!(h.has_name(&b("transfer-encoding")));
    assert!(h.has_name(&b("content-length")));
    assert_eq!(h.len(), 2);
}

#[test]
fn transfer_encoding_gzip_with_zero_length_passes_through_untouched() {
    let mut h = Headers::new();
    h.append(&b("Transfer-Encoding"), b("gzip"));
    h.append(&b("Content-Length"), b("0"));
    let d = detect_format(&mut h, true);
    assert_eq!(d, BodyFormat::PassThrough);
    assert_eq!(h.len(), 2);
}

#[test]
fn detection_disabled_leaves_everything_alone() {
    let mut h = Headers::new();
    h.append(&b("Content-Encoding"), b("gzip"));
    let d = detect_format(&mut h, false);
    assert_eq!(d, BodyFormat::PassThrough);
    assert!(h.has_name(&b("content-encoding")));
    assert_eq!(h.len(), 1);
}

#[test]
fn no_gzip_label_passes_through() {
    let mut h = Headers::new();
    h.append(&b("Content-Encoding"), b("br"));
    h.append(&b("Content-Length"), b("11"));
    let d = detect_format(&mut h, true);
    assert_eq!(d, BodyFormat::PassThrough);
    assert_eq!(h.len(), 2);
}

#[test]
fn value_match_is_exact_and_case_sensitive() {
    let mut h = Headers::new();
    h.append(&b("Content-Encoding"), b("GZIP"));
    let d = detect_format(&mut h, true);
    assert_eq!(d, BodyFormat::PassThrough);
    let mut h2 = Headers::new();
    h2.append(&b("Content-Encoding"), b("gzip2"));
    assert_eq!(detect_format(&mut h2, true), BodyFormat::PassThrough);
}

#[test]
fn only_first_content_length_decides_override() {
    let mut h = Headers::new();
    h.append(&b("Content-Encoding"), b("gzip"));
    h.append(&b("Content-Length"), b("0"));
    h.append(&b("Content-Length"), b("10"));
    assert_eq!(detect_format(&mut h, true), BodyFormat::PassThrough);

    let mut h2 = Headers::new();
    h2.append(&b("Content-Encoding"), b("gzip"));
    h2.append(&b("Content-Length"), b("10"));
    h2.append(&b("Content-Length"), b("0"));
    assert_eq!(detect_format(&mut h2, true), BodyFormat::UseDecompression);
}

#[test]
fn header_lookup_is_case_insensitive() {
    let mut h = Headers::new();
    h.append(&b("CONTENT-ENCODING"), b("gzip"));
    assert!(h.has_name(&b("Content-Encoding")));
    assert!(h.has_value(&b("content-ENCODING"), &b("gzip")));
    assert_eq!(h.first_value(&b("content-encoding")), Some(b("gzip")));
    h.remove(&b("CoNtEnT-eNcOdInG"));
    assert_eq!(h.len(), 0);
    assert_eq!(h.first_value(&b("content-encoding")), None);
}
