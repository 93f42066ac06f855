//! Docker's multiplexed output stream (container logs, exec output): frames
//! of an 8-byte header (byte 0 the stream, 1 stdout and 2 stderr; bytes 4-7
//! the payload's length, big-endian) followed by the payload.
use vstd::prelude::*;
use vstd::utf8::{valid_utf8, decode_utf8};

verus! {

/// The largest payload that is passed on; a longer one aborts the stream.
pub const MAX_PAYLOAD: u32 = 104857600;

/// The big-endian number in bytes 4 to 7 of a header.
pub open spec fn be_len(h: Seq<u8>) -> int {
    (h[4] as int) * 16777216 + (h[5] as int) * 65536 + (h[6] as int) * 256 + (h[7] as int)
}

/// The header of a frame.
pub struct FrameHeader {
    /// The stream the payload belongs to.
    pub stream: u8,
    /// The payload's length in bytes.
    pub len: u32,
}

/// Reads a frame header (`u32::from_be_bytes` on bytes 4 to 7).
pub fn parse_header(h: &[u8]) -> (r: FrameHeader)
    requires
        h@.len() == 8,
    ensures
        r.stream == h@[0],
        r.len == be_len(h@),
{
    let len: u32 = (h[4] as u32) * 16777216 + (h[5] as u32) * 65536 + (h[6] as u32) * 256 + (h[7] as u32);
    FrameHeader { stream: h[0], len }
}

/// Whether a payload of `len` bytes is too large to pass on.
pub fn payload_too_large(len: u32) -> (r: bool)
    ensures
        r == (len > MAX_PAYLOAD),
{
    len > MAX_PAYLOAD
}

/// Whether a payload goes to the error stream: only frames of stream 2 do.
pub fn to_stderr(stream: u8) -> (r: bool)
    ensures
        r == (stream == 2),
{
    stream == 2
}

/// The frames that a complete stream holds, each as its stream and payload.
/// Reading stops at the end, and at a header or payload cut short.
pub open spec fn frames_of(bytes: Seq<u8>) -> Seq<(u8, Seq<u8>)>
    decreases bytes.len(),
{
    if bytes.len() < 8 {
        Seq::empty()
    } else if bytes.len() - 8 < be_len(bytes) {
        Seq::empty()
    } else {
        seq![(bytes[0], bytes.subrange(8, 8 + be_len(bytes)))] + frames_of(bytes.skip(8 + be_len(bytes)))
    }
}

/// One frame of a stream.
pub struct Frame {
    pub stream: u8,
    pub payload: Vec<u8>,
}

impl View for Frame {
    type V = (u8, Seq<u8>);

    open spec fn view(&self) -> (u8, Seq<u8>) {
        (self.stream, self.payload@)
    }
}

/// Copies `bytes[from..to]`.
fn copy_range(bytes: &[u8], from: usize, to: usize) -> (r: Vec<u8>)
    requires
        from <= to <= bytes@.len(),
    ensures
        r@ == bytes@.subrange(from as int, to as int),
{
    let mut out: Vec<u8> = Vec::new();
    let mut i: usize = from;
    while i < to
        invariant
            from <= i <= to,
            to <= bytes@.len(),
            out@ == bytes@.subrange(from as int, i as int),
        decreases to - i,
    {
        out.push(bytes[i]);
        proof {
            assert(out@ =~= bytes@.subrange(from as int, i + 1));
        }
        i = i + 1;
    }
    out
}

/// Splits a complete stream into its frames.
pub fn demux(bytes: &[u8]) -> (r: Vec<Frame>)
    ensures
        r@.map_values(|f: Frame| f@) == frames_of(bytes@),
{
    let mut out: Vec<Frame> = Vec::new();
    let mut pos: usize = 0;
    let n = bytes.len();
    assert(bytes@.skip(0) =~= bytes@);
    loop
        invariant_except_break
            pos <= bytes@.len(),
            n == bytes@.len(),
            out@.map_values(|f: Frame| f@) + frames_of(bytes@.skip(pos as int)) == frames_of(bytes@),
        ensures
            out@.map_values(|f: Frame| f@) == frames_of(bytes@),
        decreases bytes@.len() - pos,
    {
        let rest = n - pos;
        let ghost tail = bytes@.skip(pos as int);
        if rest < 8 {
            proof {
                assert(frames_of(tail) =~= Seq::<(u8, Seq<u8>)>::empty());
                assert(out@.map_values(|f: Frame| f@) + frames_of(tail) =~= out@.map_values(|f: Frame| f@));
            }
            break;
        }
        let h = parse_header_at(bytes, pos);
        if ((rest - 8) as u64) < (h.len as u64) {
            proof {
                assert(frames_of(tail) =~= Seq::<(u8, Seq<u8>)>::empty());
                assert(out@.map_values(|f: Frame| f@) + frames_of(tail) =~= out@.map_values(|f: Frame| f@));
            }
            break;
        }
        let start = pos + 8;
        let end = start + h.len as usize;
        let payload = copy_range(bytes, start, end);
        let ghost before = out@.map_values(|f: Frame| f@);
        out.push(Frame { stream: h.stream, payload });
        proof {
            assert(tail[0] == bytes@[pos as int]);
            assert(tail.subrange(8, 8 + be_len(tail)) =~= bytes@.subrange(start as int, end as int));
            assert(out@.map_values(|f: Frame| f@) =~= before.push((tail[0], tail.subrange(8, 8 + be_len(tail)))));
            assert(tail.skip(8 + be_len(tail)) =~= bytes@.skip(end as int));
            assert(frames_of(tail) == seq![(tail[0], tail.subrange(8, 8 + be_len(tail)))] + frames_of(
                tail.skip(8 + be_len(tail)),
            ));
            assert(before.push((tail[0], tail.subrange(8, 8 + be_len(tail)))) + frames_of(bytes@.skip(end as int))
                =~= before + frames_of(tail));
        }
        pos = end;
    }
    out
}

/// Reads the header that starts at `pos`.
fn parse_header_at(bytes: &[u8], pos: usize) -> (r: FrameHeader)
    requires
        pos + 8 <= bytes@.len(),
    ensures
        r.stream == bytes@[pos as int],
        r.len == be_len(bytes@.subrange(pos as int, pos + 8)),
        r.len == be_len(bytes@.skip(pos as int)),
{
    let n = bytes.len();
    assert(pos + 8 <= n);
    let len: u32 = (bytes[pos + 4] as u32) * 16777216 + (bytes[pos + 5] as u32) * 65536 + (bytes[pos + 6] as u32) * 256
        + (bytes[pos + 7] as u32);
    FrameHeader { stream: bytes[pos], len }
}

/// The bytes of a frame: its header (stream byte, three zero bytes, the
/// length big-endian) and its payload.
pub open spec fn frame_bytes(stream: u8, payload: Seq<u8>) -> Seq<u8> {
    seq![
        stream,
        0u8,
        0u8,
        0u8,
        (payload.len() / 16777216) as u8,
        ((payload.len() / 65536) % 256) as u8,
        ((payload.len() / 256) % 256) as u8,
        (payload.len() % 256) as u8,
    ] + payload
}

/// The bytes of a sequence of frames, one after the other.
pub open spec fn stream_bytes(frames: Seq<(u8, Seq<u8>)>) -> Seq<u8>
    decreases frames.len(),
{
    if frames.len() == 0 {
        Seq::empty()
    } else {
        frame_bytes(frames[0].0, frames[0].1) + stream_bytes(frames.drop_first())
    }
}

/// The length a header written for a payload announces is the payload's.
proof fn lemma_header_len(stream: u8, payload: Seq<u8>, rest: Seq<u8>)
    requires
        payload.len() <= u32::MAX,
    ensures
        be_len(frame_bytes(stream, payload) + rest) == payload.len(),
{
    let n = payload.len();
    let b = frame_bytes(stream, payload) + rest;
    assert(b[4] == (n / 16777216) as u8);
    assert(b[5] == ((n / 65536) % 256) as u8);
    assert(b[6] == ((n / 256) % 256) as u8);
    assert(b[7] == (n % 256) as u8);
    assert(n / 16777216 < 256);
    assert((n / 16777216) * 16777216 + ((n / 65536) % 256) * 65536 + ((n / 256) % 256) * 256 + n % 256 == n)
        by (nonlinear_arith)
        requires
            n <= u32::MAX,
    ;
}

/// Reading frames back from the bytes they were written as gives the same
/// frames: the framing loses and invents nothing.
pub proof fn lemma_frames_round_trip(frames: Seq<(u8, Seq<u8>)>)
    requires
        forall|i: int| 0 <= i < frames.len() ==> (#[trigger] frames[i]).1.len() <= u32::MAX,
    ensures
        frames_of(stream_bytes(frames)) == frames,
    decreases frames.len(),
{
    if frames.len() > 0 {
        let (s, p) = frames[0];
        let rest = stream_bytes(frames.drop_first());
        let b = stream_bytes(frames);
        assert(b == frame_bytes(s, p) + rest);
        assert(frames[0].1.len() <= u32::MAX);
        lemma_header_len(s, p, rest);
        assert(b.subrange(8, 8 + p.len() as int) =~= p);
        assert(b.skip(8 + p.len() as int) =~= rest);
        assert forall|i: int| 0 <= i < frames.drop_first().len() implies (#[trigger] frames.drop_first()[i]).1.len()
            <= u32::MAX by {
            assert(frames.drop_first()[i] == frames[i + 1]);
        }
        lemma_frames_round_trip(frames.drop_first());
        assert(frames_of(b) =~= seq![(s, p)] + frames.drop_first());
        assert(seq![(s, p)] + frames.drop_first() =~= frames);
    } else {
        assert(stream_bytes(frames) =~= Seq::<u8>::empty());
    }
}

/// Decodes a payload as UTF-8 text (`std::str::from_utf8`, whose
/// documentation says it succeeds exactly on valid UTF-8), copied into a
/// `String`.
#[verifier::external_body]
fn utf8_text(bytes: &[u8]) -> (r: Option<String>)
    ensures
        r is Some <==> valid_utf8(bytes@),
        r matches Some(t) ==> t@ == decode_utf8(bytes@),
{
    std::str::from_utf8(bytes).ok().map(|t| t.to_string())
}

/// Where the text of a frame goes.
pub enum FrameOutput {
    /// To the standard output.
    Stdout(String),
    /// To the standard error.
    Stderr(String),
    /// Nowhere: the payload is no UTF-8 text.
    Skip,
}

/// Where a frame's payload goes: nowhere when it is no UTF-8 text; else, as
/// text, to the error stream when the frame is of stream 2 and `split`
/// asks for stderr frames to be told apart, and to the output otherwise
/// (`true` for the error stream).
pub open spec fn frame_route(stream: u8, payload: Seq<u8>, split: bool) -> Option<(bool, Seq<char>)> {
    if !valid_utf8(payload) {
        None
    } else {
        Some((split && stream == 2, decode_utf8(payload)))
    }
}

/// Decides where a frame's payload goes.
pub fn frame_output(stream: u8, payload: &[u8], split: bool) -> (r: FrameOutput)
    ensures
        match frame_route(stream, payload@, split) {
            None => r is Skip,
            Some((to_err, t)) => if to_err {
                r matches FrameOutput::Stderr(x) && x@ == t
            } else {
                r matches FrameOutput::Stdout(x) && x@ == t
            },
        },
{
    match utf8_text(payload) {
        None => FrameOutput::Skip,
        Some(t) => if split && to_stderr(stream) {
            FrameOutput::Stderr(t)
        } else {
            FrameOutput::Stdout(t)
        },
    }
}

/// The text a complete stream sends to the output (`false`) or to the
/// error stream (`true`): the routed payloads of its frames, in order.  A
/// header or payload cut short ends the stream normally, with what came
/// before it.
pub open spec fn stream_output(frames: Seq<(u8, Seq<u8>)>, split: bool, to_err: bool) -> Seq<char>
    decreases frames.len(),
{
    if frames.len() == 0 {
        Seq::empty()
    } else {
        let f = frames.last();
        stream_output(frames.drop_last(), split, to_err) + match frame_route(f.0, f.1, split) {
            Some((e, t)) => if e == to_err {
                t
            } else {
                Seq::empty()
            },
            None => Seq::empty(),
        }
    }
}

/// Writes out a complete stream: the text for the output and the text for
/// the error stream.
pub fn stream_texts(bytes: &[u8], split: bool) -> (r: (String, String))
    ensures
        r.0@ == stream_output(frames_of(bytes@), split, false),
        r.1@ == stream_output(frames_of(bytes@), split, true),
{
    let frames = demux(bytes);
    let ghost fs = frames_of(bytes@);
    let mut out = String::new();
    let mut err = String::new();
    let mut i: usize = 0;
    while i < frames.len()
        invariant
            i <= frames@.len(),
            frames@.map_values(|f: Frame| f@) == fs,
            out@ == stream_output(fs.take(i as int), split, false),
            err@ == stream_output(fs.take(i as int), split, true),
        decreases frames.len() - i,
    {
        proof {
            assert(fs.take(i + 1).drop_last() =~= fs.take(i as int));
            assert(fs.take(i + 1).last() == frames@[i as int]@);
        }
        match frame_output(frames[i].stream, frames[i].payload.as_slice(), split) {
            FrameOutput::Stdout(t) => out.append(t.as_str()),
            FrameOutput::Stderr(t) => err.append(t.as_str()),
            FrameOutput::Skip => {},
        }
        proof {
            assert(out@ =~= stream_output(fs.take(i + 1), split, false));
            assert(err@ =~= stream_output(fs.take(i + 1), split, true));
        }
        i = i + 1;
    }
    proof {
        assert(fs.take(fs.len() as int) =~= fs);
    }
    (out, err)
}

} // verus!
