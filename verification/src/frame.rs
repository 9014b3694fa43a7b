//! The frame decoder of the emulator's wire protocol.
//!
//! A frame travels as one line of text, `<decimal-length> <message text>`.
//! Each read from the stream is one frame attempt: the line is split on
//! separators, the first token is the declared length, and the remaining
//! tokens joined with single spaces are the body. The declared length is
//! checked to be a number and is otherwise informational.

use crate::text::{
    decimal_within, is_blank, join_spaced, join_words, lemma_tokens_append_blank,
    lemma_tokens_of_blank, lemma_tokens_skip_blank, parse_number, split_tokens, string_views,
    tokens,
};
use vstd::prelude::*;
use vstd::string::*;
use vstd::utf8::*;

verus! {

/// One decoded message.
#[derive(Clone, Debug, PartialEq, Eq)]
pub struct Frame {
    /// The length that the sender announced. It is not compared with the body.
    pub declared_length: usize,
    /// The message text.
    pub body: String,
}

/// The mathematical value of a [`Frame`].
pub struct FrameView {
    pub declared_length: nat,
    pub body: Seq<char>,
}

impl View for Frame {
    type V = FrameView;

    open spec fn view(&self) -> FrameView {
        FrameView { declared_length: self.declared_length as nat, body: self.body@ }
    }
}

/// Why a read could not be decoded as a frame.
#[derive(Clone, Copy, Debug, PartialEq, Eq, Structural)]
pub enum ProtocolError {
    /// The bytes are not well-formed UTF-8.
    InvalidUtf8,
    /// The text holds no token at all, so there is no length.
    MissingLength,
    /// The first token is not an unsigned decimal number that fits `usize`.
    BadLength,
}

/// The frame that a line of text stands for.
pub open spec fn parse_text(text: Seq<char>) -> Result<FrameView, ProtocolError> {
    let words = tokens(text);
    if words.len() == 0 {
        Err(ProtocolError::MissingLength)
    } else {
        match decimal_within(words[0], usize::MAX as nat) {
            Some(n) => Ok(FrameView { declared_length: n, body: join_spaced(words.drop_first()) }),
            None => Err(ProtocolError::BadLength),
        }
    }
}

/// The frame that one read from the stream stands for.
pub open spec fn decode(bytes: Seq<u8>) -> Result<FrameView, ProtocolError> {
    if valid_utf8(bytes) {
        parse_text(decode_utf8(bytes))
    } else {
        Err(ProtocolError::InvalidUtf8)
    }
}

/// The mathematical value of a decoding result.
pub open spec fn outcome_view(r: Result<Frame, ProtocolError>) -> Result<FrameView, ProtocolError> {
    match r {
        Ok(frame) => Ok(frame@),
        Err(e) => Err(e),
    }
}

/// The frames that one read contributes to the stream: the decoded frame, or
/// none when the read is empty or malformed.
pub open spec fn chunk_frames(chunk: Seq<u8>) -> Seq<FrameView> {
    match decode(chunk) {
        Ok(frame) => seq![frame],
        Err(_) => Seq::<FrameView>::empty(),
    }
}

/// The frames of a sequence of reads, in order of arrival.
pub open spec fn stream_frames(chunks: Seq<Seq<u8>>) -> Seq<FrameView>
    decreases chunks.len(),
{
    if chunks.len() == 0 {
        Seq::<FrameView>::empty()
    } else {
        stream_frames(chunks.drop_last()) + chunk_frames(chunks.last())
    }
}

/// The bytes of a sequence of reads, as one read would have delivered them.
pub open spec fn concat_all(chunks: Seq<Seq<u8>>) -> Seq<u8>
    decreases chunks.len(),
{
    if chunks.len() == 0 {
        Seq::<u8>::empty()
    } else {
        concat_all(chunks.drop_last()) + chunks.last()
    }
}

/// The views of a vector of frames.
pub open spec fn frame_views(frames: Seq<Frame>) -> Seq<FrameView> {
    Seq::new(frames.len(), |i: int| frames[i]@)
}

/// The bytes held by a vector of reads.
pub open spec fn chunk_views(chunks: Seq<Vec<u8>>) -> Seq<Seq<u8>> {
    Seq::new(chunks.len(), |i: int| chunks[i]@)
}

/// A line whose first token is no decimal number within `usize` is rejected
/// with `BadLength`, whatever follows the token.
pub proof fn law_non_numeric_length_is_rejected(text: Seq<char>)
    requires
        tokens(text).len() > 0,
        decimal_within(tokens(text)[0], usize::MAX as nat) is None,
    ensures
        parse_text(text) == Err::<FrameView, ProtocolError>(ProtocolError::BadLength),
{
}

/// A read that holds separators only: well-formed UTF-8 whose every character
/// is a separator. The empty read is one.
pub open spec fn is_blank_chunk(chunk: Seq<u8>) -> bool {
    valid_utf8(chunk) && is_blank(decode_utf8(chunk))
}

/// Every read of the sequence, except perhaps the one at `keep`, holds
/// separators only.
pub open spec fn blank_except(chunks: Seq<Seq<u8>>, keep: int) -> bool {
    forall|i: int| 0 <= i < chunks.len() && i != keep ==> is_blank_chunk(#[trigger] chunks[i])
}

/// If a well-formed text is followed by bytes that make the whole
/// well-formed as well, those bytes are well-formed on their own.
proof fn lemma_valid_utf8_suffix(a: Seq<u8>, b: Seq<u8>)
    requires
        valid_utf8(a + b),
        valid_utf8(a),
    ensures
        valid_utf8(b),
{
    let whole = a + b;
    assert(whole.subrange(0, a.len() as int) =~= a);
    assert(whole.subrange(a.len() as int, whole.len() as int) =~= b);
    if !valid_utf8(b) {
        partial_valid_partial_invalid_utf8(whole, a.len() as int);
    }
}

/// If bytes are followed by a well-formed text and the whole is well-formed,
/// the bytes in front are well-formed on their own.
proof fn lemma_valid_utf8_prefix(a: Seq<u8>, b: Seq<u8>)
    requires
        valid_utf8(a + b),
        valid_utf8(b),
    ensures
        valid_utf8(a),
    decreases a.len(),
{
    if a.len() > 0 {
        let whole = a + b;
        let width = length_of_first_scalar(whole);
        assert(valid_first_scalar(whole));
        if width <= a.len() {
            assert(forall|i: int| 0 <= i < a.len() ==> a[i] == whole[i]);
            assert(valid_first_scalar(a));
            assert(pop_first_scalar(whole) =~= pop_first_scalar(a) + b);
            lemma_valid_utf8_prefix(pop_first_scalar(a), b);
        } else {
            assert(b[0] == whole[a.len() as int]);
            assert(is_continuation_byte(whole[a.len() as int]));
            assert(valid_first_scalar(b));
        }
    }
}

/// The characters of two well-formed texts put together are the characters
/// of the first followed by those of the second.
proof fn lemma_decode_utf8_concat(a: Seq<u8>, b: Seq<u8>)
    requires
        valid_utf8(a),
        valid_utf8(b),
    ensures
        valid_utf8(a + b),
        decode_utf8(a + b) == decode_utf8(a) + decode_utf8(b),
{
    let whole = a + b;
    valid_utf8_concat(a, b);
    if b.len() == 0 {
        is_char_boundary_start_end_of_seq(whole);
    } else {
        assert(valid_first_scalar(b));
        assert(whole[a.len() as int] == b[0]);
        is_char_boundary_iff_not_is_continuation_byte(whole, a.len() as int);
    }
    decode_utf8_split(whole, a.len() as int);
    assert(whole.subrange(0, a.len() as int) =~= a);
    assert(whole.subrange(a.len() as int, whole.len() as int) =~= b);
}

/// A read of separators only decodes to no frame.
pub proof fn lemma_blank_chunk_has_no_frame(chunk: Seq<u8>)
    requires
        is_blank_chunk(chunk),
    ensures
        decode(chunk) == Err::<FrameView, ProtocolError>(ProtocolError::MissingLength),
        chunk_frames(chunk).len() == 0,
{
    lemma_tokens_of_blank(decode_utf8(chunk));
}

/// Separators that arrive in front of a read do not change what it decodes to.
pub proof fn lemma_decode_after_blank(blank: Seq<u8>, chunk: Seq<u8>)
    requires
        is_blank_chunk(blank),
    ensures
        decode(blank + chunk) == decode(chunk),
{
    if valid_utf8(chunk) {
        lemma_decode_utf8_concat(blank, chunk);
        let whole = decode_utf8(blank) + decode_utf8(chunk);
        let n = decode_utf8(blank).len() as int;
        assert(whole.take(n) =~= decode_utf8(blank));
        assert(whole.skip(n) =~= decode_utf8(chunk));
        lemma_tokens_skip_blank(whole, n);
    } else {
        if valid_utf8(blank + chunk) {
            lemma_valid_utf8_suffix(blank, chunk);
        }
    }
}

/// Separators that arrive behind a read do not change what it decodes to.
pub proof fn lemma_decode_before_blank(chunk: Seq<u8>, blank: Seq<u8>)
    requires
        is_blank_chunk(blank),
    ensures
        decode(chunk + blank) == decode(chunk),
{
    if valid_utf8(chunk) {
        lemma_decode_utf8_concat(chunk, blank);
        lemma_tokens_append_blank(decode_utf8(chunk), decode_utf8(blank));
    } else {
        if valid_utf8(chunk + blank) {
            lemma_valid_utf8_prefix(chunk, blank);
        }
    }
}

/// Reads of separators only, put together, are separators only and hold no
/// frame.
proof fn lemma_all_blank(chunks: Seq<Seq<u8>>)
    requires
        forall|i: int| 0 <= i < chunks.len() ==> is_blank_chunk(#[trigger] chunks[i]),
    ensures
        is_blank_chunk(concat_all(chunks)),
        stream_frames(chunks).len() == 0,
    decreases chunks.len(),
{
    if chunks.len() > 0 {
        let init = chunks.drop_last();
        assert forall|i: int| 0 <= i < init.len() implies is_blank_chunk(#[trigger] init[i]) by {
            assert(init[i] == chunks[i]);
        }
        lemma_all_blank(init);
        lemma_decode_utf8_concat(concat_all(init), chunks.last());
        lemma_blank_chunk_has_no_frame(chunks.last());
    }
}

/// Reads are decoded one by one: the frames of two runs of reads, one after
/// the other, are the frames of the first run followed by those of the
/// second. Nothing is carried over from one read to the next.
pub proof fn law_reads_are_decoded_one_by_one(earlier: Seq<Seq<u8>>, later: Seq<Seq<u8>>)
    ensures
        stream_frames(earlier + later) == stream_frames(earlier) + stream_frames(later),
    decreases later.len(),
{
    if later.len() == 0 {
        assert(earlier + later =~= earlier);
        assert(stream_frames(earlier) + stream_frames(later) =~= stream_frames(earlier));
    } else {
        law_reads_are_decoded_one_by_one(earlier, later.drop_last());
        assert((earlier + later).drop_last() =~= earlier + later.drop_last());
        assert((earlier + later).last() == later.last());
        assert(stream_frames(earlier + later) =~= stream_frames(earlier) + stream_frames(later));
    }
}

/// Chunk-boundary invariance. However a message is cut into reads, if every
/// read but one holds separators only (the empty read among them), the
/// decoder yields the same frames as for the whole message in a single read.
///
/// A cut inside the message itself is another matter: each read is a frame
/// attempt of its own, so the pieces are decoded one by one.
pub proof fn law_chunk_boundary_invariance(chunks: Seq<Seq<u8>>, keep: int)
    requires
        blank_except(chunks, keep),
    ensures
        stream_frames(chunks) == stream_frames(seq![concat_all(chunks)]),
        stream_frames(chunks) == chunk_frames(concat_all(chunks)),
    decreases chunks.len(),
{
    let whole = concat_all(chunks);
    assert(seq![whole].drop_last() =~= Seq::<Seq<u8>>::empty());
    assert(stream_frames(seq![whole]) =~= chunk_frames(whole)) by {
        reveal_with_fuel(stream_frames, 2);
    }
    if chunks.len() == 0 {
        lemma_all_blank(chunks);
        lemma_blank_chunk_has_no_frame(whole);
    } else {
        let init = chunks.drop_last();
        let last = chunks.last();
        assert forall|i: int| 0 <= i < init.len() && i != keep implies is_blank_chunk(
            #[trigger] init[i],
        ) by {
            assert(init[i] == chunks[i]);
        }
        if keep == chunks.len() - 1 {
            lemma_all_blank(init);
            lemma_decode_after_blank(concat_all(init), last);
            assert(stream_frames(chunks) =~= chunk_frames(last));
        } else {
            law_chunk_boundary_invariance(init, keep);
            lemma_blank_chunk_has_no_frame(last);
            lemma_decode_before_blank(concat_all(init), last);
            assert(stream_frames(chunks) =~= stream_frames(init));
        }
    }
}

/// `std::str::from_utf8`: the bytes seen as text, or nothing when they are
/// not well-formed UTF-8. The text is made of the very same bytes.
#[verifier::external_body]
fn utf8_text(bytes: &[u8]) -> (r: Option<&str>)
    ensures
        r is Some <==> valid_utf8(bytes@),
        r matches Some(text) ==> text.spec_bytes() == bytes@,
{
    std::str::from_utf8(bytes).ok()
}

/// Decodes one line of text as a frame.
///
/// Fails with `MissingLength` when the text holds separators only, and with
/// `BadLength` when its first token is no decimal number within `usize`.
pub fn parse_frame(text: &str) -> (r: Result<Frame, ProtocolError>)
    ensures
        outcome_view(r) == parse_text(text@),
{
    let mut words: Vec<String> = split_tokens(text);
    if words.len() == 0 {
        return Err(ProtocolError::MissingLength);
    }
    let ghost all = words@;
    let length: String = words.remove(0);
    assert(length@ == string_views(all)[0]);
    assert(string_views(words@) =~= string_views(all).drop_first());
    match parse_number(length.as_str(), usize::MAX as u64) {
        Some(declared) => Ok(Frame { declared_length: declared as usize, body: join_words(&words) }),
        None => Err(ProtocolError::BadLength),
    }
}

/// Decodes one read from the stream as a frame.
///
/// Fails with `InvalidUtf8` when the bytes are not well-formed UTF-8, and
/// otherwise as [`parse_frame`] does on the text they encode. An empty read
/// holds no token and so fails with `MissingLength`.
pub fn decode_frame(bytes: &[u8]) -> (r: Result<Frame, ProtocolError>)
    ensures
        outcome_view(r) == decode(bytes@),
{
    match utf8_text(bytes) {
        Some(text) => {
            proof {
                encode_utf8_decode_utf8(text@);
            }
            parse_frame(text)
        },
        None => Err(ProtocolError::InvalidUtf8),
    }
}

/// Decodes a sequence of reads, skipping every read that is no frame.
pub fn decode_stream(chunks: &Vec<Vec<u8>>) -> (frames: Vec<Frame>)
    ensures
        frame_views(frames@) == stream_frames(chunk_views(chunks@)),
{
    let mut frames: Vec<Frame> = Vec::new();
    let mut i: usize = 0;
    while i < chunks.len()
        invariant
            i <= chunks@.len(),
            frame_views(frames@) == stream_frames(chunk_views(chunks@).take(i as int)),
        decreases chunks@.len() - i,
    {
        let ghost before = frame_views(frames@);
        let r = decode_frame(chunks[i].as_slice());
        proof {
            let all = chunk_views(chunks@);
            assert(all.take(i + 1).drop_last() =~= all.take(i as int));
            assert(all.take(i + 1).last() == chunks@[i as int]@);
        }
        match r {
            Ok(frame) => {
                frames.push(frame);
                assert(frame_views(frames@) =~= before + seq![frame@]);
            },
            Err(_) => {
                assert(before + Seq::<FrameView>::empty() =~= before);
            },
        }
        i = i + 1;
    }
    assert(chunk_views(chunks@).take(i as int) =~= chunk_views(chunks@));
    frames
}

} // verus!
