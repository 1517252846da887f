//! Format detection: deciding from the response headers alone whether the
//! body is declared to be gzip-compressed, and stripping the headers that no
//! longer describe the body once it is decompressed by this layer.

use vstd::prelude::*;

use crate::headers::{
    content_encoding_name, content_length_name, first_header_value, gzip_value, has_header_name,
    has_header_value, lower_byte, lower_bytes, remove_header_name, transfer_encoding_name,
    zero_value, Headers,
};

verus! {

/// The decision of the format detector.
#[derive(Clone, Copy, Debug, PartialEq, Eq, Structural)]
pub enum BodyFormat {
    /// Hand the body through unchanged.
    PassThrough,
    /// Decompress the body.
    UseDecompression,
}

/// Some `Content-Encoding` entry has the value `gzip`.
pub open spec fn declared_gzip(h: Seq<(Seq<u8>, Seq<u8>)>) -> bool {
    has_header_value(h, content_encoding_name(), gzip_value())
}

/// Some `Transfer-Encoding` entry has the value `gzip`.
pub open spec fn transfer_gzip(h: Seq<(Seq<u8>, Seq<u8>)>) -> bool {
    has_header_value(h, transfer_encoding_name(), gzip_value())
}

/// The first `Content-Length` entry exists and has the literal value `0`.
pub open spec fn length_is_zero(h: Seq<(Seq<u8>, Seq<u8>)>) -> bool {
    first_header_value(h, content_length_name()) == Some(zero_value())
}

/// Whether detection selects decompression: the body is labelled gzip by
/// either header, unless a `Content-Length` of `0` overrides the label (an
/// empty body must not be fed to a decompressor).
pub open spec fn decompression_selected(h: Seq<(Seq<u8>, Seq<u8>)>) -> bool {
    (declared_gzip(h) || transfer_gzip(h)) && !length_is_zero(h)
}

/// The headers with every `Content-Encoding` and `Content-Length` entry
/// removed.
pub open spec fn stripped(h: Seq<(Seq<u8>, Seq<u8>)>) -> Seq<(Seq<u8>, Seq<u8>)> {
    remove_header_name(remove_header_name(h, content_encoding_name()), content_length_name())
}

/// What the headers hold after detection ran with detection enabled: they are
/// stripped exactly when a true `Content-Encoding: gzip` match was found,
/// independent of the `Content-Length: 0` override; a bare
/// `Transfer-Encoding: gzip` match leaves them untouched.
pub open spec fn detected_headers(h: Seq<(Seq<u8>, Seq<u8>)>) -> Seq<(Seq<u8>, Seq<u8>)> {
    if declared_gzip(h) {
        stripped(h)
    } else {
        h
    }
}

/// The executable form of the header-name constant `content-encoding`.
pub(crate) fn content_encoding_vec() -> (r: Vec<u8>)
    ensures
        r@ == content_encoding_name(),
{
    let mut r: Vec<u8> = Vec::new();
    r.push(99);
    r.push(111);
    r.push(110);
    r.push(116);
    r.push(101);
    r.push(110);
    r.push(116);
    r.push(45);
    r.push(101);
    r.push(110);
    r.push(99);
    r.push(111);
    r.push(100);
    r.push(105);
    r.push(110);
    r.push(103);
    proof {
        assert(r@ =~= content_encoding_name());
    }
    r
}

/// The executable form of the header-name constant `transfer-encoding`.
pub(crate) fn transfer_encoding_vec() -> (r: Vec<u8>)
    ensures
        r@ == transfer_encoding_name(),
{
    let mut r: Vec<u8> = Vec::new();
    r.push(116);
    r.push(114);
    r.push(97);
    r.push(110);
    r.push(115);
    r.push(102);
    r.push(101);
    r.push(114);
    r.push(45);
    r.push(101);
    r.push(110);
    r.push(99);
    r.push(111);
    r.push(100);
    r.push(105);
    r.push(110);
    r.push(103);
    proof {
        assert(r@ =~= transfer_encoding_name());
    }
    r
}

/// The executable form of the header-name constant `content-length`.
pub(crate) fn content_length_vec() -> (r: Vec<u8>)
    ensures
        r@ == content_length_name(),
{
    let mut r: Vec<u8> = Vec::new();
    r.push(99);
    r.push(111);
    r.push(110);
    r.push(116);
    r.push(101);
    r.push(110);
    r.push(116);
    r.push(45);
    r.push(108);
    r.push(101);
    r.push(110);
    r.push(103);
    r.push(116);
    r.push(104);
    proof {
        assert(r@ =~= content_length_name());
    }
    r
}

/// The executable form of the header-value constant `gzip`.
pub(crate) fn gzip_vec() -> (r: Vec<u8>)
    ensures
        r@ == gzip_value(),
{
    let mut r: Vec<u8> = Vec::new();
    r.push(103);
    r.push(122);
    r.push(105);
    r.push(112);
    proof {
        assert(r@ =~= gzip_value());
    }
    r
}

/// The executable form of the header-value constant `0`.
pub(crate) fn zero_vec() -> (r: Vec<u8>)
    ensures
        r@ == zero_value(),
{
    let mut r: Vec<u8> = Vec::new();
    r.push(48);
    proof {
        assert(r@ =~= zero_value());
    }
    r
}

/// The constant header names are already ASCII lower case.
proof fn lemma_constants_lowered()
    ensures
        lower_bytes(content_encoding_name()) == content_encoding_name(),
        lower_bytes(transfer_encoding_name()) == transfer_encoding_name(),
        lower_bytes(content_length_name()) == content_length_name(),
{
    assert(lower_bytes(content_encoding_name()) =~= content_encoding_name());
    assert(lower_bytes(transfer_encoding_name()) =~= transfer_encoding_name());
    assert(lower_bytes(content_length_name()) =~= content_length_name());
}

/// Inspects the headers and decides whether the body is to be decompressed.
///
/// With `check` false the headers are left alone and the body passes through.
/// Otherwise the decision is `UseDecompression` exactly when a gzip label is
/// present and no `Content-Length: 0` override applies, and — independent of
/// that override — a true `Content-Encoding: gzip` match strips both
/// `Content-Encoding` and `Content-Length` from the headers, because after
/// decompression neither describes the body the caller receives.
pub fn detect_format(headers: &mut Headers, check: bool) -> (r: BodyFormat)
    ensures
        !check ==> r == BodyFormat::PassThrough && final(headers)@ == old(headers)@,
        check ==> ((r == BodyFormat::UseDecompression) <==> decompression_selected(
            old(headers)@,
        )),
        check ==> final(headers)@ == detected_headers(old(headers)@),
{
    if !check {
        return BodyFormat::PassThrough;
    }
    proof {
        lemma_constants_lowered();
    }
    let ce = content_encoding_vec();
    let te = transfer_encoding_vec();
    let cl = content_length_vec();
    let gz = gzip_vec();
    let zero = zero_vec();
    let content_encoding_gzip = headers.has_value(&ce, &gz);
    let mut is_gzip = content_encoding_gzip || headers.has_value(&te, &gz);
    if is_gzip {
        match headers.first_value(&cl) {
            Some(v) => {
                if crate::headers::bytes_eq(&v, &zero) {
                    is_gzip = false;
                }
            },
            None => {},
        }
    }
    if content_encoding_gzip {
        headers.remove(&ce);
        headers.remove(&cl);
    }
    if is_gzip {
        BodyFormat::UseDecompression
    } else {
        BodyFormat::PassThrough
    }
}

/// No entry of the given name is left after removal.
proof fn lemma_remove_removes(h: Seq<(Seq<u8>, Seq<u8>)>, name: Seq<u8>)
    ensures
        !has_header_name(remove_header_name(h, name), name),
    decreases h.len(),
{
    if h.len() > 0 {
        lemma_remove_removes(h.drop_last(), name);
        let r = remove_header_name(h, name);
        let rest = remove_header_name(h.drop_last(), name);
        assert forall|i: int| 0 <= i < r.len() implies !(#[trigger] r[i].0 == name) by {
            if h.last().0 == name {
                assert(r[i] == rest[i]);
            } else {
                if i < rest.len() {
                    assert(r[i] == rest[i]);
                } else {
                    assert(r[i] == h.last());
                }
            }
        }
    }
}

/// Removal of one name neither adds nor drops entries of another name.
proof fn lemma_remove_keeps_others(h: Seq<(Seq<u8>, Seq<u8>)>, name: Seq<u8>, other: Seq<u8>)
    requires
        other != name,
    ensures
        has_header_name(remove_header_name(h, name), other) == has_header_name(h, other),
    decreases h.len(),
{
    if h.len() > 0 {
        lemma_remove_keeps_others(h.drop_last(), name, other);
        let r = remove_header_name(h, name);
        let rest = remove_header_name(h.drop_last(), name);
        if has_header_name(r, other) {
            let i = choose|i: int| 0 <= i < r.len() && #[trigger] r[i].0 == other;
            if i < rest.len() {
                assert(rest[i].0 == other);
                let j = choose|j: int|
                    0 <= j < h.drop_last().len() && #[trigger] h.drop_last()[j].0 == other;
                assert(h[j].0 == other);
            } else {
                assert(r[i] == h.last());
                assert(h[h.len() - 1].0 == other);
            }
            assert(has_header_name(h, other));
        }
        if has_header_name(h, other) {
            let j = choose|j: int| 0 <= j < h.len() && #[trigger] h[j].0 == other;
            if j < h.len() - 1 {
                assert(h.drop_last()[j].0 == other);
                let i = choose|i: int| 0 <= i < rest.len() && #[trigger] rest[i].0 == other;
                assert(r[i].0 == other);
            } else {
                assert(h.last().0 == other);
                assert(r[r.len() - 1] == h.last());
            }
            assert(has_header_name(r, other));
        }
    }
}

/// The two header names differ.
proof fn lemma_names_differ()
    ensures
        content_encoding_name() != content_length_name(),
{
    assert(content_encoding_name().len() != content_length_name().len());
}

/// After stripping, neither `Content-Encoding` nor `Content-Length` remains.
pub proof fn lemma_stripped_has_neither(h: Seq<(Seq<u8>, Seq<u8>)>)
    ensures
        !has_header_name(stripped(h), content_encoding_name()),
        !has_header_name(stripped(h), content_length_name()),
{
    lemma_names_differ();
    lemma_remove_removes(remove_header_name(h, content_encoding_name()), content_length_name());
    lemma_remove_removes(h, content_encoding_name());
    lemma_remove_keeps_others(
        remove_header_name(h, content_encoding_name()),
        content_length_name(),
        content_encoding_name(),
    );
}

/// Law: when `Content-Encoding` contains `gzip` and no `Content-Length: 0`
/// override applies, decompression is selected and detection strips both
/// `Content-Encoding` and `Content-Length` from the headers.
pub proof fn lemma_declared_gzip_selected(h: Seq<(Seq<u8>, Seq<u8>)>)
    requires
        declared_gzip(h),
        !length_is_zero(h),
    ensures
        decompression_selected(h),
        detected_headers(h) == stripped(h),
        !has_header_name(detected_headers(h), content_encoding_name()),
        !has_header_name(detected_headers(h), content_length_name()),
{
    lemma_stripped_has_neither(h);
}

/// Law: when `Content-Encoding` contains `gzip` but `Content-Length` is `0`,
/// decompression is not selected — the body falls back to plain text — yet
/// the headers are still stripped, since stripping follows the
/// `Content-Encoding` match alone.
pub proof fn lemma_zero_length_overrides(h: Seq<(Seq<u8>, Seq<u8>)>)
    requires
        declared_gzip(h),
        length_is_zero(h),
    ensures
        !decompression_selected(h),
        detected_headers(h) == stripped(h),
        !has_header_name(detected_headers(h), content_encoding_name()),
        !has_header_name(detected_headers(h), content_length_name()),
{
    lemma_stripped_has_neither(h);
}

/// Law: a bare `Transfer-Encoding: gzip`, with no `Content-Encoding` match,
/// selects decompression but leaves the headers untouched.
pub proof fn lemma_transfer_gzip_selected(h: Seq<(Seq<u8>, Seq<u8>)>)
    requires
        transfer_gzip(h),
        !declared_gzip(h),
        !length_is_zero(h),
    ensures
        decompression_selected(h),
        detected_headers(h) == h,
{
}

} // verus!
