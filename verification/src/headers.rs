//! An ordered multimap of header entries, the input of format detection.
//!
//! Header names are looked up case-insensitively; this type normalizes every
//! name to ASCII lower case when an entry is appended, so the specification
//! predicates below compare names by plain equality against lower-case
//! constants.

use vstd::prelude::*;

verus! {

/// ASCII lower-casing of one byte: `A`..`Z` fold to `a`..`z`, all else kept.
pub open spec fn lower_byte(b: u8) -> u8 {
    if 65 <= b && b <= 90 {
        (b + 32) as u8
    } else {
        b
    }
}

/// ASCII lower-casing of a byte sequence.
pub open spec fn lower_bytes(s: Seq<u8>) -> Seq<u8> {
    s.map_values(|b: u8| lower_byte(b))
}

/// The bytes of the header name `content-encoding`.
pub open spec fn content_encoding_name() -> Seq<u8> {
    seq![99u8, 111u8, 110u8, 116u8, 101u8, 110u8, 116u8, 45u8, 101u8, 110u8, 99u8, 111u8, 100u8, 105u8, 110u8, 103u8]
}

/// The bytes of the header name `transfer-encoding`.
pub open spec fn transfer_encoding_name() -> Seq<u8> {
    seq![116u8, 114u8, 97u8, 110u8, 115u8, 102u8, 101u8, 114u8, 45u8, 101u8, 110u8, 99u8, 111u8, 100u8, 105u8, 110u8, 103u8]
}

/// The bytes of the header name `content-length`.
pub open spec fn content_length_name() -> Seq<u8> {
    seq![99u8, 111u8, 110u8, 116u8, 101u8, 110u8, 116u8, 45u8, 108u8, 101u8, 110u8, 103u8, 116u8, 104u8]
}

/// The bytes of the header value `gzip`.
pub open spec fn gzip_value() -> Seq<u8> {
    seq![103u8, 122u8, 105u8, 112u8]
}

/// The bytes of the header value `0`.
pub open spec fn zero_value() -> Seq<u8> {
    seq![48u8]
}

/// Some entry of `h` has exactly this name and value.
pub open spec fn has_header_value(h: Seq<(Seq<u8>, Seq<u8>)>, name: Seq<u8>, value: Seq<u8>) -> bool {
    exists|i: int| 0 <= i < h.len() && h[i].0 == name && h[i].1 == value
}

/// Some entry of `h` has exactly this name.
pub open spec fn has_header_name(h: Seq<(Seq<u8>, Seq<u8>)>, name: Seq<u8>) -> bool {
    exists|i: int| 0 <= i < h.len() && #[trigger] h[i].0 == name
}

/// The value of the first entry of `h` with this name, if any.
pub open spec fn first_header_value(h: Seq<(Seq<u8>, Seq<u8>)>, name: Seq<u8>) -> Option<Seq<u8>>
    decreases h.len(),
{
    if h.len() == 0 {
        None
    } else if h[0].0 == name {
        Some(h[0].1)
    } else {
        first_header_value(h.drop_first(), name)
    }
}

/// `h` with every entry of this name removed, the order of the rest kept.
pub open spec fn remove_header_name(h: Seq<(Seq<u8>, Seq<u8>)>, name: Seq<u8>) -> Seq<(Seq<u8>, Seq<u8>)>
    decreases h.len(),
{
    if h.len() == 0 {
        Seq::empty()
    } else {
        let rest = remove_header_name(h.drop_last(), name);
        if h.last().0 == name {
            rest
        } else {
            rest.push(h.last())
        }
    }
}

/// An ordered multimap from header name to header value, both byte strings.
/// Names are stored in ASCII lower case.
pub struct Headers {
    entries: Vec<(Vec<u8>, Vec<u8>)>,
}

impl View for Headers {
    type V = Seq<(Seq<u8>, Seq<u8>)>;

    closed spec fn view(&self) -> Seq<(Seq<u8>, Seq<u8>)> {
        self.entries@.map_values(|e: (Vec<u8>, Vec<u8>)| (e.0@, e.1@))
    }
}

/// ASCII lower-casing of one byte, executable form of `lower_byte`.
fn to_lower(b: u8) -> (r: u8)
    ensures
        r == lower_byte(b),
{
    if 65 <= b && b <= 90 {
        b + 32
    } else {
        b
    }
}

/// ASCII lower-casing of a byte string, executable form of `lower_bytes`.
fn to_lower_vec(s: &Vec<u8>) -> (r: Vec<u8>)
    ensures
        r@ == lower_bytes(s@),
{
    let mut r: Vec<u8> = Vec::new();
    let mut i: usize = 0;
    while i < s.len()
        invariant
            i <= s.len(),
            r@ == lower_bytes(s@.take(i as int)),
        decreases s.len() - i,
    {
        r.push(to_lower(s[i]));
        proof {
            assert(lower_bytes(s@.take(i + 1)) =~= lower_bytes(s@.take(i as int)).push(
                lower_byte(s@[i as int]),
            ));
        }
        i = i + 1;
    }
    proof {
        assert(s@.take(s@.len() as int) =~= s@);
    }
    r
}

/// Exact equality of two byte strings.
pub(crate) fn bytes_eq(a: &Vec<u8>, b: &Vec<u8>) -> (r: bool)
    ensures
        r == (a@ == b@),
{
    if a.len() != b.len() {
        proof {
            assert(a@ != b@);
        }
        return false;
    }
    let mut i: usize = 0;
    while i < a.len()
        invariant
            i <= a.len(),
            a@.len() == b@.len(),
            forall|j: int| 0 <= j < i ==> a@[j] == b@[j],
        decreases a.len() - i,
    {
        if a[i] != b[i] {
            return false;
        }
        i = i + 1;
    }
    proof {
        assert(a@ =~= b@);
    }
    true
}

impl Headers {
    /// A header collection with no entries.
    pub fn new() -> (h: Headers)
        ensures
            h@ == Seq::<(Seq<u8>, Seq<u8>)>::empty(),
    {
        let h = Headers { entries: Vec::new() };
        proof {
            assert(h@ =~= Seq::<(Seq<u8>, Seq<u8>)>::empty());
        }
        h
    }

    /// The number of entries.
    pub fn len(&self) -> (n: usize)
        ensures
            n == self@.len(),
    {
        self.entries.len()
    }

    /// Appends one entry, folding the name to ASCII lower case.
    pub fn append(&mut self, name: &Vec<u8>, value: Vec<u8>)
        ensures
            final(self)@ == old(self)@.push((lower_bytes(name@), value@)),
    {
        let low = to_lower_vec(name);
        self.entries.push((low, value));
        proof {
            assert(self@ =~= old(self)@.push((lower_bytes(name@), value@)));
        }
    }

    /// Whether some entry has this name (compared case-insensitively) and
    /// exactly this value.
    pub fn has_value(&self, name: &Vec<u8>, value: &Vec<u8>) -> (r: bool)
        ensures
            r == has_header_value(self@, lower_bytes(name@), value@),
    {
        let low = to_lower_vec(name);
        let mut i: usize = 0;
        while i < self.entries.len()
            invariant
                i <= self.entries.len(),
                low@ == lower_bytes(name@),
                forall|j: int|
                    0 <= j < i ==> !(self@[j].0 == lower_bytes(name@) && self@[j].1 == value@),
            decreases self.entries.len() - i,
        {
            if bytes_eq(&self.entries[i].0, &low) && bytes_eq(&self.entries[i].1, value) {
                proof {
                    assert(self@[i as int].0 == lower_bytes(name@) && self@[i as int].1
                        == value@);
                }
                return true;
            }
            i = i + 1;
        }
        false
    }

    /// Whether some entry has this name, compared case-insensitively.
    pub fn has_name(&self, name: &Vec<u8>) -> (r: bool)
        ensures
            r == has_header_name(self@, lower_bytes(name@)),
    {
        let low = to_lower_vec(name);
        let mut i: usize = 0;
        while i < self.entries.len()
            invariant
                i <= self.entries.len(),
                low@ == lower_bytes(name@),
                forall|j: int| 0 <= j < i ==> !(#[trigger] self@[j].0 == lower_bytes(name@)),
            decreases self.entries.len() - i,
        {
            if bytes_eq(&self.entries[i].0, &low) {
                proof {
                    assert(self@[i as int].0 == lower_bytes(name@));
                }
                return true;
            }
            i = i + 1;
        }
        false
    }

    /// The value of the first entry with this name, if any; the name is
    /// compared case-insensitively.
    pub fn first_value(&self, name: &Vec<u8>) -> (r: Option<Vec<u8>>)
        ensures
            match r {
                Some(v) => first_header_value(self@, lower_bytes(name@)) == Some(v@),
                None => first_header_value(self@, lower_bytes(name@)) is None,
            },
    {
        let low = to_lower_vec(name);
        let mut i: usize = 0;
        proof {
            assert(self@.skip(0) =~= self@);
        }
        while i < self.entries.len()
            invariant
                i <= self.entries.len(),
                low@ == lower_bytes(name@),
                first_header_value(self@, lower_bytes(name@)) == first_header_value(
                    self@.skip(i as int),
                    lower_bytes(name@),
                ),
                forall|j: int| 0 <= j < i ==> !(#[trigger] self@[j].0 == lower_bytes(name@)),
            decreases self.entries.len() - i,
        {
            if bytes_eq(&self.entries[i].0, &low) {
                proof {
                    assert(self@.skip(i as int)[0] == self@[i as int]);
                }
                return Some(self.entries[i].1.clone());
            }
            proof {
                assert(self@.skip(i as int).drop_first() =~= self@.skip(i + 1));
                assert(self@.skip(i as int)[0] == self@[i as int]);
            }
            i = i + 1;
        }
        proof {
            assert(self@.skip(self@.len() as int).len() == 0);
        }
        None
    }

    /// Removes every entry with this name, compared case-insensitively; the
    /// order of the remaining entries is kept.
    pub fn remove(&mut self, name: &Vec<u8>)
        ensures
            final(self)@ == remove_header_name(old(self)@, lower_bytes(name@)),
    {
        let low = to_lower_vec(name);
        let mut kept: Vec<(Vec<u8>, Vec<u8>)> = Vec::new();
        let ghost kept_goal = remove_header_name(old(self)@, lower_bytes(name@));
        let mut i: usize = 0;
        while i < self.entries.len()
            invariant
                i <= self.entries.len(),
                low@ == lower_bytes(name@),
                self == old(self),
                kept@.map_values(|e: (Vec<u8>, Vec<u8>)| (e.0@, e.1@)) == remove_header_name(
                    self@.take(i as int),
                    lower_bytes(name@),
                ),
            decreases self.entries.len() - i,
        {
            proof {
                assert(self@.take(i + 1).drop_last() =~= self@.take(i as int));
                assert(self@.take(i + 1).last() == self@[i as int]);
            }
            if !bytes_eq(&self.entries[i].0, &low) {
                let n = self.entries[i].0.clone();
                let v = self.entries[i].1.clone();
                proof {
                    assert(n@ == self@[i as int].0 && v@ == self@[i as int].1);
                }
                kept.push((n, v));
                proof {
                    assert(kept@.map_values(|e: (Vec<u8>, Vec<u8>)| (e.0@, e.1@))
                        =~= remove_header_name(self@.take(i + 1), lower_bytes(name@)));
                }
            }
            i = i + 1;
        }
        proof {
            assert(self@.take(self@.len() as int) =~= self@);
        }
        self.entries = kept;
    }
}

} // verus!
