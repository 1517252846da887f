use std::io::Write;

use body_decoder::decoder::decode_all;
use body_decoder::DecodeError;
use body_decoder::Decoder;
use body_decoder::Event;
use body_decoder::Headers;
use body_decoder::Step;
use body_decoder::TransportError;

fn b(s: &str) -> Vec<u8> {
    s.as_bytes().to_vec()
}

fn gzip_bytes(data: &[u8]) -> Vec<u8> {
    let mut enc = flate2::write::GzEncoder::new(Vec::new(), flate2::Compression::default());
    enc.write_all(data).unwrap();
    enc.finish().unwrap()
}

/// Drives a decoder over the given chunks and then to end of stream,
/// collecting every emitted chunk.
fn run(dec: &mut Decoder, chunks: &[Vec<u8>]) -> Result<Vec<u8>, DecodeError> {
    let mut out: Vec<u8> = Vec::new();
    for c in chunks {
        match dec.step(Event::Data(c.clone())) {
            Step::Out(mut o) => out.append(&mut o),
            Step::More => {}
            Step::Done => panic!("decoder reported end of stream while data remained"),
            Step::Fail(e) => return Err(e),
        }
    }
    loop {
        match dec.step(Event::End) {
            Step::Out(mut o) => out.append(&mut o),
            Step::Done => return Ok(out),
            Step::Fail(e) => return Err(e),
            Step::More => panic!("decoder asked for input after end of stream"),
        }
    }
}

fn gzip_headers() -> Headers {
    let mut h = Headers::new();
    h.append(&b("Content-Encoding"), b("gzip"));
    h.append(&b("Content-Length"), b("120"));
    h
}

fn split(data: &[u8], sizes: &[usize]) -> Vec<Vec<u8>> {
    let mut chunks: Vec<Vec<u8>> = Vec::new();
    let mut at = 0;
    for s in sizes {
        let end = (at + s).min(data.len());
        chunks.push(data[at..end].to_vec());
        at = end;
    }
    if at < data.len() {
        chunks.push(data[at..].to_vec());
    }
    chunks
}

#[test]
fn round_trip_single_chunk() {
    let plain = b"The quick brown fox jumps over the lazy dog.";
    let compressed = gzip_bytes(plain);
    let mut dec = Decoder::detect(&mut gzip_headers(), true);
    let out = run(&mut dec, &[compressed]).unwrap();
    assert_eq!(out, plain.to_vec());
}

#[test]
fn round_trip_any_chunking() {
    let plain: Vec<u8> = (0..10_000u32).map(|i| (i * 31 % 251) as u8).collect();
    let compressed = gzip_bytes(&plain);
    for sizes in [
        vec![1usize; compressed.len()],
        vec![2, 3, 5, 7, 1000, 10_000],
        vec![compressed.len() / 2, compressed.len()],
        vec![5, 0, 5, 0, 10_000],
    ] {
        let chunks = split(&compressed, &sizes);
        let mut dec = Decoder::detect(&mut gzip_headers(), true);
        let out = run(&mut dec, &chunks).unwrap();
        assert_eq!(out, plain);
    }
}

#[test]
fn decode_all_reproduces_input() {
    let plain = b"hello world, hello world, hello world";
    let compressed = gzip_bytes(plain);
    let chunks = split(&compressed, &[3, 9, 1]);
    let out = decode_all(&chunks).unwrap();
    assert_eq!(out, plain.to_vec());
}

#[test]
fn decode_all_empty_input_is_empty() {
    let out = decode_all(&Vec::new()).unwrap();
    assert!(out.is_empty());
}

#[test]
fn empty_gzip_body_resolves_to_empty_plain_stream() {
    let mut dec = Decoder::detect(&mut gzip_headers(), true);
    // Exactly one end-of-stream signal, zero data items, no error.
    match dec.step(Event::End) {
        Step::Done => {}
        _ => panic!("an empty gzip-labelled body must resolve to an empty stream"),
    }
}

#[test]
fn empty_decoder_reports_end_at_once() {
    let mut dec = Decoder::empty();
    assert!(matches!(dec.step(Event::End), Step::Done));
}

#[test]
fn passthrough_yields_chunks_unchanged() {
    let mut h = Headers::new();
    h.append(&b("Content-Type"), b("text/plain"));
    let mut dec = Decoder::detect(&mut h, true);
    let chunks = [b("hello "), b(""), b("world")];
    for c in &chunks {
        match dec.step(Event::Data(c.clone())) {
            Step::Out(o) => assert_eq!(&o, c),
            _ => panic!("passthrough must hand each chunk through unchanged"),
        }
    }
    assert!(matches!(dec.step(Event::End), Step::Done));
}

#[test]
fn malformed_payload_fails_with_decode_error() {
    let mut dec = Decoder::detect(&mut gzip_headers(), true);
    let garbage = b("this is not gzip data at all, not even close......");
    let r = run(&mut dec, &[garbage]);
    assert!(matches!(r, Err(DecodeError::Malformed(_))));
}

#[test]
fn truncated_payload_fails_with_decode_error() {
    let compressed = gzip_bytes(b"some payload that will be cut short");
    let truncated = compressed[..compressed.len() - 5].to_vec();
    let mut dec = Decoder::detect(&mut gzip_headers(), true);
    let r = run(&mut dec, &[truncated]);
    assert!(matches!(r, Err(DecodeError::Malformed(_))));
}

#[test]
fn corrupted_payload_yields_no_data_after_failure() {
    let mut compressed = gzip_bytes(&vec![7u8; 4096]);
    let mid = compressed.len() / 2;
    compressed[mid] ^= 0xff;
    compressed[mid + 1] ^= 0xff;
    let mut dec = Decoder::detect(&mut gzip_headers(), true);
    let r = run(&mut dec, &[compressed]);
    assert!(r.is_err());
    // After the terminal error the stream reports end of stream at once.
    assert!(matches!(dec.step(Event::End), Step::Done));
}

#[test]
fn transport_error_is_wrapped_and_distinguishable() {
    let mut dec = Decoder::detect(&mut gzip_headers(), true);
    let e = TransportError { message: String::from("connection reset") };
    match dec.step(Event::Failed(e)) {
        Step::Fail(DecodeError::Transport(t)) => assert_eq!(t.message, "connection reset"),
        _ => panic!("a transport failure must surface as a transport error"),
    }

    let mut plain = Decoder::detect(&mut Headers::new(), true);
    let e2 = TransportError { message: String::from("timed out") };
    match plain.step(Event::Failed(e2)) {
        Step::Fail(DecodeError::Transport(t)) => assert_eq!(t.message, "timed out"),
        _ => panic!("a transport failure must surface as a transport error"),
    }
}

#[test]
fn mid_stream_transport_error_fails_compression() {
    let compressed = gzip_bytes(b"a body interrupted by the transport");
    let first_half = compressed[..compressed.len() / 2].to_vec();
    let mut dec = Decoder::detect(&mut gzip_headers(), true);
    match dec.step(Event::Data(first_half)) {
        Step::Out(_) | Step::More => {}
        _ => panic!("the first chunk must be accepted"),
    }
    let e = TransportError { message: String::from("reset") };
    assert!(matches!(
        dec.step(Event::Failed(e)),
        Step::Fail(DecodeError::Transport(_))
    ));
}

#[test]
fn decode_all_rejects_malformed_input() {
    let r = decode_all(&vec![b("definitely not a gzip stream")]);
    assert!(matches!(r, Err(DecodeError::Malformed(_))));
}

#[test]
fn decode_all_single_empty_chunk_is_not_an_empty_stream() {
    // One empty chunk commits the decoder to decompression, which then
    // fails over zero compressed bytes — unlike a body with no chunks.
    let r = decode_all(&vec![Vec::new()]);
    assert!(matches!(r, Err(DecodeError::Malformed(_))));
}

#[test]
fn transfer_encoding_gzip_decompresses_too() {
    let mut h = Headers::new();
    h.append(&b("Transfer-Encoding"), b("gzip"));
    let plain = b"body framed with transfer-encoding";
    let compressed = gzip_bytes(plain);
    let mut dec = Decoder::detect(&mut h, true);
    let out = run(&mut dec, &[compressed]).unwrap();
    assert_eq!(out, plain.to_vec());
    // The asymmetry: headers stay untouched on a bare transfer-encoding match.
    assert!(h.has_name(&b("transfer-encoding")));
}

#[test]
fn example_hello_world_in_three_chunks() {
    let mut h = Headers::new();
    h.append(&b("Content-Encoding"), b("gzip"));
    h.append(&b("Content-Length"), b("120"));
    let compressed = gzip_bytes(b"hello world");
    let third = compressed.len() / 3;
    let chunks = split(&compressed, &[third, third]);
    assert_eq!(chunks.len(), 3);
    let mut dec = Decoder::detect(&mut h, true);
    let out = run(&mut dec, &chunks).unwrap();
    assert_eq!(out, b"hello world".to_vec());
    assert!(!h.has_name(&b("content-encoding")));
    assert!(!h.has_name(&b("content-length")));
}
