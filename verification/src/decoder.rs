//! The decoder state machine: one abstraction over three ways of producing
//! the response body — plain passthrough, gzip decompression, and an
//! in-flight resolution of which of the two it will become.
//!
//! The surrounding driver owns the transport stream; it polls that stream and
//! hands each owned item to [`Decoder::step`] as an [`Event`], and the
//! decoder answers with a [`Step`]: a decoded chunk, a request for more
//! input, end of stream, or a terminal error. The decoder itself never
//! blocks and never touches the transport.

use vstd::prelude::*;

use crate::detect::{decompression_selected, detect_format, detected_headers, BodyFormat};
use crate::gzip::{
    gunzip, gunzip_ok, gunzip_viable, gz_fed, gz_finish, gz_new, gz_taken, gz_write, GzipStream,
};
use crate::headers::Headers;

verus! {

/// An error of the transport that feeds the decoder. Opaque to this layer:
/// it is wrapped and surfaced, never interpreted.
#[derive(Debug)]
pub struct TransportError {
    /// What the transport reported.
    pub message: String,
}

/// The single error type of the decoded stream. The two variants keep a
/// transport fault distinguishable from a malformed payload, which upstream
/// policy differentiates on.
#[derive(Debug)]
pub enum DecodeError {
    /// The underlying transport failed while the body was being read.
    Transport(TransportError),
    /// The compressed payload was malformed: bad header, truncated stream,
    /// or checksum mismatch.
    Malformed(String),
}

/// One item polled from the underlying body stream, handed to the decoder by
/// its driver.
#[derive(Debug)]
pub enum Event {
    /// The stream yielded one chunk of raw body bytes.
    Data(Vec<u8>),
    /// The stream failed.
    Failed(TransportError),
    /// The stream is exhausted.
    End,
}

/// What one step of the decoder produced.
#[derive(Debug)]
pub enum Step {
    /// One chunk of decoded output.
    Out(Vec<u8>),
    /// The decoded stream is complete; no further data will come.
    Done,
    /// Terminal failure; the stream is to be treated as ended.
    Fail(DecodeError),
    /// The event was consumed but there is nothing to emit yet; feed the
    /// next event.
    More,
}

/// The variant a decoder currently holds, as contracts speak of it.
pub enum Mode {
    /// Not yet committed: the first event decides between the two below.
    Resolving,
    /// Passthrough: chunks are handed through unchanged.
    PlainText,
    /// Active gzip decompression.
    Compressing,
    /// Terminal: end of stream or error was reported; every further step
    /// reports end of stream at once.
    Finished,
}

enum State {
    Resolving,
    Plain,
    Gzip(GzipStream),
    Finished,
}

/// A response decompressor over a stream of chunks, driven one event at a
/// time. It wraps exactly one of three variants — passthrough, gzip
/// decompression, or a pending resolution between them — and the tag only
/// ever moves forward: `Resolving` to one of the others, each of those to
/// `Finished`.
pub struct Decoder {
    state: State,
    consumed: Ghost<Seq<u8>>,
    emitted: Ghost<Seq<u8>>,
}

impl Decoder {
    /// The variant this decoder holds.
    pub closed spec fn mode(&self) -> Mode {
        match self.state {
            State::Resolving => Mode::Resolving,
            State::Plain => Mode::PlainText,
            State::Gzip(_) => Mode::Compressing,
            State::Finished => Mode::Finished,
        }
    }

    /// The raw body bytes consumed so far: the concatenation of every chunk
    /// accepted through a `Data` event.
    pub closed spec fn consumed(&self) -> Seq<u8> {
        self.consumed@
    }

    /// The decoded bytes emitted so far: the concatenation of every chunk
    /// handed out through `Out`.
    pub closed spec fn emitted(&self) -> Seq<u8> {
        self.emitted@
    }

    /// The decoder's invariant: while passing through, output equals input;
    /// while decompressing, the bookkeeping matches the decompressor's.
    pub closed spec fn wf(&self) -> bool {
        match self.state {
            State::Resolving => self.consumed@ == Seq::<u8>::empty() && self.emitted@
                == Seq::<u8>::empty(),
            State::Plain => self.emitted@ == self.consumed@,
            State::Gzip(d) => gz_fed(d) == self.consumed@ && gz_taken(d) == self.emitted@,
            State::Finished => true,
        }
    }

    /// A decoder over no body at all: it reports end of stream at once and
    /// emits nothing.
    pub fn empty() -> (d: Decoder)
        ensures
            d.wf(),
            d.mode() == Mode::Finished,
            d.consumed() == Seq::<u8>::empty(),
            d.emitted() == Seq::<u8>::empty(),
    {
        Decoder {
            state: State::Finished,
            consumed: Ghost(Seq::empty()),
            emitted: Ghost(Seq::empty()),
        }
    }

    /// A passthrough decoder: chunks are handed through as they are.
    fn plain_text() -> (d: Decoder)
        ensures
            d.wf(),
            d.mode() == Mode::PlainText,
            d.consumed() == Seq::<u8>::empty(),
            d.emitted() == Seq::<u8>::empty(),
    {
        Decoder {
            state: State::Plain,
            consumed: Ghost(Seq::empty()),
            emitted: Ghost(Seq::empty()),
        }
    }

    /// A gzip decoder. It starts unresolved: only the first event commits it,
    /// so a body that turns out to be empty is never fed to a decompressor.
    fn gzip() -> (d: Decoder)
        ensures
            d.wf(),
            d.mode() == Mode::Resolving,
            d.consumed() == Seq::<u8>::empty(),
            d.emitted() == Seq::<u8>::empty(),
    {
        Decoder {
            state: State::Resolving,
            consumed: Ghost(Seq::empty()),
            emitted: Ghost(Seq::empty()),
        }
    }

    /// Constructs a decoder for one response by running format detection on
    /// its headers (see `detect_format`): the body will pass through
    /// unchanged, or be decompressed, per the headers' gzip labels. With
    /// `check_gzip` false detection is skipped and the body passes through.
    pub fn detect(headers: &mut Headers, check_gzip: bool) -> (d: Decoder)
        ensures
            d.wf(),
            d.consumed() == Seq::<u8>::empty(),
            d.emitted() == Seq::<u8>::empty(),
            !check_gzip ==> d.mode() == Mode::PlainText && final(headers)@ == old(headers)@,
            check_gzip ==> final(headers)@ == detected_headers(old(headers)@),
            check_gzip && decompression_selected(old(headers)@) ==> d.mode() == Mode::Resolving,
            check_gzip && !decompression_selected(old(headers)@) ==> d.mode() == Mode::PlainText,
    {
        let fmt = detect_format(headers, check_gzip);
        match fmt {
            BodyFormat::UseDecompression => Decoder::gzip(),
            BodyFormat::PassThrough => Decoder::plain_text(),
        }
    }

    /// Drives the decoder by one event and produces the next item of the
    /// decoded stream.
    ///
    /// In `Resolving`, the first event commits the variant: end of stream
    /// resolves to a trivially empty stream (`Done`, no decompressor is ever
    /// built), an error is consumed and surfaced, and a real chunk resolves
    /// to `Compressing` and is fed to the decompressor at once — resolving
    /// never costs the caller an empty poll. In `PlainText`, chunks are
    /// handed through unchanged. In `Compressing`, chunks are decompressed,
    /// and at end of stream the decompressor is finished: it succeeds if and
    /// only if the consumed bytes are one complete, well-formed gzip stream,
    /// and then everything emitted is exactly the decompression of everything
    /// consumed. Failure is owed never to good input: a chunk whose bytes
    /// keep the consumed stream a prefix of some well-formed stream cannot
    /// fail, so a malformed-payload error always reflects ill-formed input.
    /// After a terminal item (`Done` or `Fail`) every further step reports
    /// `Done` at once, and nothing is ever emitted past a failure.
    pub fn step(&mut self, ev: Event) -> (r: Step)
        requires
            old(self).wf(),
        ensures
            final(self).wf(),
            old(self).mode() == Mode::Resolving ==> match ev {
                Event::End => {
                    &&& r == Step::Done
                    &&& final(self).mode() == Mode::Finished
                    &&& final(self).emitted() == Seq::<u8>::empty()
                },
                Event::Failed(e) => {
                    &&& r == Step::Fail(DecodeError::Transport(e))
                    &&& final(self).mode() == Mode::Finished
                    &&& final(self).emitted() == Seq::<u8>::empty()
                },
                Event::Data(c) => {
                    &&& r is Out || r is More || r is Fail
                    &&& (r is Out || r is More) ==> final(self).mode() == Mode::Compressing
                        && final(self).consumed() == c@
                    &&& (r matches Step::Out(o) ==> final(self).emitted() == o@ && o@.len() > 0)
                    &&& r is More ==> final(self).emitted() == Seq::<u8>::empty()
                    &&& (r matches Step::Fail(err) ==> err is Malformed && final(self).mode()
                        == Mode::Finished && final(self).emitted() == Seq::<u8>::empty())
                    &&& gunzip_viable(old(self).consumed() + c@) ==> !(r is Fail)
                },
            },
            old(self).mode() == Mode::PlainText ==> match ev {
                Event::End => {
                    &&& r == Step::Done
                    &&& final(self).mode() == Mode::Finished
                    &&& final(self).emitted() == old(self).emitted()
                    &&& final(self).consumed() == old(self).consumed()
                },
                Event::Failed(e) => {
                    &&& r == Step::Fail(DecodeError::Transport(e))
                    &&& final(self).mode() == Mode::Finished
                    &&& final(self).emitted() == old(self).emitted()
                },
                Event::Data(c) => {
                    &&& r == Step::Out(c)
                    &&& final(self).mode() == Mode::PlainText
                    &&& final(self).consumed() == old(self).consumed() + c@
                    &&& final(self).emitted() == old(self).emitted() + c@
                },
            },
            old(self).mode() == Mode::Compressing ==> match ev {
                Event::End => {
                    &&& r is Out || r is Done || r is Fail
                    &&& final(self).mode() == Mode::Finished
                    &&& final(self).consumed() == old(self).consumed()
                    &&& (r matches Step::Out(o) ==> o@.len() > 0
                        && final(self).emitted() == old(self).emitted() + o@
                        && final(self).emitted() == gunzip(old(self).consumed())
                        && gunzip_ok(old(self).consumed()))
                    &&& r is Done ==> final(self).emitted() == old(self).emitted()
                        && final(self).emitted() == gunzip(old(self).consumed())
                        && gunzip_ok(old(self).consumed())
                    &&& (r matches Step::Fail(err) ==> err is Malformed && final(self).emitted()
                        == old(self).emitted())
                    &&& gunzip_ok(old(self).consumed()) ==> !(r is Fail)
                },
                Event::Failed(e) => {
                    &&& r == Step::Fail(DecodeError::Transport(e))
                    &&& final(self).mode() == Mode::Finished
                    &&& final(self).emitted() == old(self).emitted()
                },
                Event::Data(c) => {
                    &&& r is Out || r is More || r is Fail
                    &&& (r is Out || r is More) ==> final(self).mode() == Mode::Compressing
                        && final(self).consumed() == old(self).consumed() + c@
                    &&& (r matches Step::Out(o) ==> final(self).emitted() == old(self).emitted()
                        + o@ && o@.len() > 0)
                    &&& r is More ==> final(self).emitted() == old(self).emitted()
                    &&& (r matches Step::Fail(err) ==> err is Malformed && final(self).mode()
                        == Mode::Finished && final(self).emitted() == old(self).emitted())
                    &&& gunzip_viable(old(self).consumed() + c@) ==> !(r is Fail)
                },
            },
            old(self).mode() == Mode::Finished ==> {
                &&& r == Step::Done
                &&& final(self).mode() == Mode::Finished
                &&& final(self).emitted() == old(self).emitted()
                &&& final(self).consumed() == old(self).consumed()
            },
    {
        let mut st = State::Finished;
        core::mem::swap(&mut st, &mut self.state);
        match st {
            State::Resolving => match ev {
                Event::End => Step::Done,
                Event::Failed(e) => Step::Fail(DecodeError::Transport(e)),
                Event::Data(c) => {
                    let mut d = gz_new();
                    let ghost d0 = d;
                    match gz_write(&mut d, &c) {
                        Ok(out) => {
                            self.state = State::Gzip(d);
                            self.consumed = Ghost(c@);
                            self.emitted = Ghost(out@);
                            if out.len() > 0 {
                                Step::Out(out)
                            } else {
                                Step::More
                            }
                        },
                        Err(m) => {
                            proof {
                                assert(gz_fed(d0) == old(self).consumed());
                            }
                            Step::Fail(DecodeError::Malformed(m))
                        },
                    }
                },
            },
            State::Plain => match ev {
                Event::End => Step::Done,
                Event::Failed(e) => Step::Fail(DecodeError::Transport(e)),
                Event::Data(c) => {
                    self.state = State::Plain;
                    self.consumed = Ghost(self.consumed@ + c@);
                    self.emitted = Ghost(self.emitted@ + c@);
                    Step::Out(c)
                },
            },
            State::Gzip(d) => {
                let mut d = d;
                let ghost d0 = d;
                match ev {
                    Event::End => match gz_finish(d) {
                        Ok(rest) => {
                            self.emitted = Ghost(self.emitted@ + rest@);
                            if rest.len() > 0 {
                                Step::Out(rest)
                            } else {
                                Step::Done
                            }
                        },
                        Err(m) => {
                            proof {
                                assert(gz_fed(d0) == old(self).consumed());
                            }
                            Step::Fail(DecodeError::Malformed(m))
                        },
                    },
                    Event::Failed(e) => Step::Fail(DecodeError::Transport(e)),
                    Event::Data(c) => {
                        match gz_write(&mut d, &c) {
                            Ok(out) => {
                                self.state = State::Gzip(d);
                                self.consumed = Ghost(self.consumed@ + c@);
                                self.emitted = Ghost(self.emitted@ + out@);
                                if out.len() > 0 {
                                    Step::Out(out)
                                } else {
                                    Step::More
                                }
                            },
                            Err(m) => {
                                proof {
                                    assert(gz_fed(d0) == old(self).consumed());
                                }
                                Step::Fail(DecodeError::Malformed(m))
                            },
                        }
                    },
                }
            },
            State::Finished => Step::Done,
        }
    }
}

/// Law: a passthrough decoder has emitted exactly the bytes it consumed — in
/// the same order and with the same content, whatever the chunk boundaries.
pub proof fn lemma_passthrough_identity(d: &Decoder)
    requires
        d.wf(),
        d.mode() == Mode::PlainText,
    ensures
        d.emitted() == d.consumed(),
{
}

/// The concatenation of a sequence of byte chunks.
pub open spec fn concat_bytes(cs: Seq<Seq<u8>>) -> Seq<u8>
    decreases cs.len(),
{
    if cs.len() == 0 {
        Seq::empty()
    } else {
        concat_bytes(cs.drop_last()) + cs.last()
    }
}

/// Concatenation splits at any point.
proof fn lemma_concat_bytes_split(cs: Seq<Seq<u8>>, j: int)
    requires
        0 <= j <= cs.len(),
    ensures
        concat_bytes(cs) == concat_bytes(cs.take(j)) + concat_bytes(cs.skip(j)),
    decreases cs.len(),
{
    if j == cs.len() {
        assert(cs.take(j) =~= cs);
        assert(cs.skip(j).len() == 0);
        assert(concat_bytes(cs.take(j)) + concat_bytes(cs.skip(j)) =~= concat_bytes(cs));
    } else {
        let dl = cs.drop_last();
        lemma_concat_bytes_split(dl, j);
        assert(dl.take(j) =~= cs.take(j));
        assert(cs.skip(j).drop_last() =~= dl.skip(j));
        assert(cs.skip(j).last() == cs.last());
        assert(concat_bytes(cs.take(j)) + concat_bytes(cs.skip(j)) =~= concat_bytes(cs));
    }
}

/// Decodes a whole gzip body delivered as a sequence of chunks.
///
/// On success the output is exactly the decompression of the concatenated
/// input — whatever the chunk boundaries were — and the input was one
/// complete, well-formed gzip stream; except that a body with no chunks at
/// all short-circuits to an empty output, as an empty gzip-labelled body
/// resolves to an empty plain stream rather than a decompression attempt.
/// Success is owed exactly there: on no chunks at all, and on every
/// well-formed stream. (A body made only of empty chunks is not an empty
/// stream: its first chunk commits the decoder to decompression, which then
/// fails over zero compressed bytes.) Every failure is a malformed-payload
/// error: no transport is involved here.
pub fn decode_all(chunks: &Vec<Vec<u8>>) -> (r: Result<Vec<u8>, DecodeError>)
    ensures
        r matches Ok(out) ==> (concat_bytes(chunks.deep_view()).len() == 0 && out@.len() == 0) || (
        gunzip_ok(concat_bytes(chunks.deep_view())) && out@ == gunzip(
            concat_bytes(chunks.deep_view()),
        )),
        r matches Err(e) ==> e is Malformed,
        chunks.deep_view().len() == 0 || gunzip_ok(concat_bytes(chunks.deep_view())) ==> r is Ok,
{
    let mut dec = Decoder::gzip();
    let mut out: Vec<u8> = Vec::new();
    let mut i: usize = 0;
    while i < chunks.len()
        invariant
            i <= chunks.len(),
            dec.wf(),
            dec.mode() == Mode::Resolving || dec.mode() == Mode::Compressing,
            (dec.mode() == Mode::Resolving) <==> i == 0,
            dec.consumed() == concat_bytes(chunks.deep_view().take(i as int)),
            out@ == dec.emitted(),
        decreases chunks.len() - i,
    {
        let c = chunks[i].clone();
        let ghost cv = c@;
        let ghost pre_consumed = dec.consumed();
        proof {
            assert(chunks.deep_view()[i as int] == chunks@[i as int]@);
            assert(cv == chunks.deep_view()[i as int]);
            assert(chunks.deep_view().take(i + 1).drop_last() =~= chunks.deep_view().take(
                i as int,
            ));
            assert(chunks.deep_view().take(i + 1).last() == chunks.deep_view()[i as int]);
        }
        match dec.step(Event::Data(c)) {
            Step::Out(mut o) => {
                out.append(&mut o);
            },
            Step::More => {},
            Step::Fail(e) => {
                proof {
                    // A failure here refutes well-formedness of the whole
                    // input: the unconsumed chunks would complete it.
                    if gunzip_ok(concat_bytes(chunks.deep_view())) {
                        lemma_concat_bytes_split(chunks.deep_view(), i + 1);
                        let rest = concat_bytes(chunks.deep_view().skip(i + 1));
                        assert(concat_bytes(chunks.deep_view().take(i + 1)) == pre_consumed + cv);
                        assert(gunzip_ok((pre_consumed + cv) + rest));
                        assert(gunzip_viable(pre_consumed + cv));
                        assert(false);
                    }
                }
                return Err(e);
            },
            Step::Done => {
                proof {
                    assert(false);
                }
            },
        }
        i = i + 1;
    }
    proof {
        assert(chunks.deep_view().take(chunks.deep_view().len() as int) =~= chunks.deep_view());
    }
    let ghost end_consumed = dec.consumed();
    match dec.step(Event::End) {
        Step::Done => Ok(out),
        Step::Out(mut o) => {
            out.append(&mut o);
            Ok(out)
        },
        Step::Fail(e) => {
            proof {
                // Only the decompressing path can fail here, and only on a
                // stream that is not one well-formed gzip whole.
                assert(chunks.deep_view().len() > 0);
                assert(end_consumed == concat_bytes(chunks.deep_view()));
                assert(!gunzip_ok(concat_bytes(chunks.deep_view())));
            }
            Err(e)
        },
        Step::More => {
            proof {
                assert(false);
            }
            Err(DecodeError::Malformed(String::new()))
        },
    }
}

} // verus!
