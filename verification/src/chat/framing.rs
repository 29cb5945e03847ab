//! Message framing on a byte stream, with resumable decoders: a length
//! prefix of four little-endian bytes, or one message per line.
use vstd::bytes::{
    lemma_auto_spec_u32_to_from_le_bytes, spec_u32_from_le_bytes, spec_u32_to_le_bytes,
    u32_from_le_bytes, u32_to_le_bytes,
};
use vstd::prelude::*;
use vstd::slice::slice_subrange;

verus! {

/// The largest payload that a reader accepts unless it is told otherwise.
pub const MAX_MESSAGE_SIZE: usize = 256;

/// The byte that ends a line.
pub const NEWLINE: u8 = 10;

/// Why a frame could not be read.
#[derive(Debug, PartialEq, Eq, Clone, Copy, Structural)]
pub enum FrameError {
    /// The announced or accumulated size is over the limit.
    TooLarge { size: usize },
}

/// Why a payload could not be framed.
#[derive(Debug, PartialEq, Eq, Clone, Copy, Structural)]
pub enum EncodeError {
    /// The payload's length does not fit the four bytes of the prefix.
    TooLong,
    /// The payload holds a line end, which would cut the frame in two.
    ContainsNewline,
}

/// What a decoder finds at the front of the bytes it holds.
pub enum FrameStep {
    /// No complete frame yet.
    NeedMore,
    /// The frame at the front is over the limit.
    TooLarge { size: nat },
    /// A complete frame, and what follows it.
    Frame { payload: Seq<u8>, rest: Seq<u8> },
}

/// `payload` behind its length prefix.
pub open spec fn length_prefixed(payload: Seq<u8>) -> Seq<u8> {
    spec_u32_to_le_bytes(payload.len() as u32) + payload
}

/// What stands at the front of `pending` in the length-prefixed framing,
/// where payloads of more than `max` bytes are refused.
pub open spec fn next_frame_of(pending: Seq<u8>, max: nat) -> FrameStep {
    if pending.len() < 4 {
        FrameStep::NeedMore
    } else {
        let size = spec_u32_from_le_bytes(pending.take(4)) as nat;
        if size > max {
            FrameStep::TooLarge { size }
        } else if pending.len() < 4 + size {
            FrameStep::NeedMore
        } else {
            FrameStep::Frame {
                payload: pending.subrange(4, 4 + size as int),
                rest: pending.skip(4 + size as int),
            }
        }
    }
}

/// `s` holds a line end.
pub open spec fn has_newline(s: Seq<u8>) -> bool {
    exists|i: int| 0 <= i < s.len() && #[trigger] s[i] == NEWLINE
}

/// `i` is the position of the first line end in `s`.
pub open spec fn is_first_newline(s: Seq<u8>, i: int) -> bool {
    &&& 0 <= i < s.len()
    &&& s[i] == NEWLINE
    &&& forall|j: int| 0 <= j < i ==> #[trigger] s[j] != NEWLINE
}

/// Position of the first line end in `s`.
pub open spec fn first_newline(s: Seq<u8>) -> int {
    choose|i: int| is_first_newline(s, i)
}

/// `payload` as a line.
pub open spec fn line_framed(payload: Seq<u8>) -> Seq<u8> {
    payload.push(NEWLINE)
}

/// What stands at the front of `pending` in the line framing: a complete
/// line if there is a line end; otherwise an error once `max` bytes or more
/// have accumulated without one.
pub open spec fn next_line_of(pending: Seq<u8>, max: nat) -> FrameStep {
    if has_newline(pending) {
        let p = first_newline(pending);
        FrameStep::Frame { payload: pending.take(p), rest: pending.skip(p + 1) }
    } else if pending.len() >= max {
        FrameStep::TooLarge { size: pending.len() }
    } else {
        FrameStep::NeedMore
    }
}

/// The first line end is unique.
pub proof fn lemma_first_newline(s: Seq<u8>, i: int)
    requires
        is_first_newline(s, i),
    ensures
        has_newline(s),
        first_newline(s) == i,
{
    let j = first_newline(s);
    assert(is_first_newline(s, j));
    if j < i {
        assert(s[j] != NEWLINE);
    } else if i < j {
        assert(s[i] != NEWLINE);
    }
}

/// Where there is a line end, there is a first one.
pub proof fn lemma_has_first_newline(s: Seq<u8>, k: int)
    requires
        0 <= k < s.len(),
        s[k] == NEWLINE,
    ensures
        is_first_newline(s, first_newline(s)),
        first_newline(s) <= k,
    decreases k,
{
    if exists|j: int| 0 <= j < k && #[trigger] s[j] == NEWLINE {
        let j = choose|j: int| 0 <= j < k && #[trigger] s[j] == NEWLINE;
        lemma_has_first_newline(s, j);
    } else {
        assert(is_first_newline(s, k));
        lemma_first_newline(s, k);
    }
}

/// Round trip of the length-prefixed framing: a framed payload within the
/// limit, followed by any bytes, is read back as that payload and those bytes.
pub proof fn lemma_frame_round_trip(payload: Seq<u8>, rest: Seq<u8>, max: nat)
    requires
        payload.len() <= max,
        payload.len() <= u32::MAX,
    ensures
        next_frame_of(length_prefixed(payload) + rest, max) == (FrameStep::Frame { payload, rest }),
{
    lemma_auto_spec_u32_to_from_le_bytes();
    let size = payload.len() as u32;
    let prefix = spec_u32_to_le_bytes(size);
    let pending = length_prefixed(payload) + rest;
    assert(prefix.len() == 4);
    assert(pending.take(4) =~= prefix);
    assert(spec_u32_from_le_bytes(prefix) == size);
    assert(pending.subrange(4, 4 + size as int) =~= payload);
    assert(pending.skip(4 + size as int) =~= rest);
}

/// Round trip of the line framing: a payload without a line end, framed and
/// followed by any bytes, is read back as that payload and those bytes.
pub proof fn lemma_line_round_trip(payload: Seq<u8>, rest: Seq<u8>, max: nat)
    requires
        !has_newline(payload),
    ensures
        next_line_of(line_framed(payload) + rest, max) == (FrameStep::Frame { payload, rest }),
{
    let pending = line_framed(payload) + rest;
    let p = payload.len() as int;
    assert(pending[p] == NEWLINE);
    assert forall|j: int| 0 <= j < p implies #[trigger] pending[j] != NEWLINE by {
        assert(pending[j] == payload[j]);
    }
    lemma_first_newline(pending, p);
    assert(pending.take(p) =~= payload);
    assert(pending.skip(p + 1) =~= rest);
}

/// A frame that is complete stays what it is when more bytes arrive behind
/// it: what a decoder is fed in pieces, it reads as if it had been fed at once.
pub proof fn lemma_frame_stable(pending: Seq<u8>, more: Seq<u8>, max: nat)
    requires
        next_frame_of(pending, max) is Frame,
    ensures
        next_frame_of(pending + more, max) == (FrameStep::Frame {
            payload: next_frame_of(pending, max)->payload,
            rest: next_frame_of(pending, max)->rest + more,
        }),
{
    let all = pending + more;
    let size = spec_u32_from_le_bytes(pending.take(4)) as nat;
    assert(all.take(4) =~= pending.take(4));
    assert(all.subrange(4, 4 + size as int) =~= pending.subrange(4, 4 + size as int));
    assert(all.skip(4 + size as int) =~= pending.skip(4 + size as int) + more);
}

/// A frame that is too large stays too large, whatever arrives behind it.
pub proof fn lemma_too_large_stays(pending: Seq<u8>, more: Seq<u8>, max: nat)
    requires
        next_frame_of(pending, max) is TooLarge,
    ensures
        next_frame_of(pending + more, max) == next_frame_of(pending, max),
{
    assert((pending + more).take(4) =~= pending.take(4));
}

/// A line that is complete stays what it is when more bytes arrive behind it.
pub proof fn lemma_line_stable(pending: Seq<u8>, more: Seq<u8>, max: nat)
    requires
        has_newline(pending),
    ensures
        next_line_of(pending + more, max) == (FrameStep::Frame {
            payload: next_line_of(pending, max)->payload,
            rest: next_line_of(pending, max)->rest + more,
        }),
{
    let all = pending + more;
    let k = choose|k: int| 0 <= k < pending.len() && #[trigger] pending[k] == NEWLINE;
    lemma_has_first_newline(pending, k);
    let p = first_newline(pending);
    assert(all[p] == NEWLINE);
    assert forall|j: int| 0 <= j < p implies #[trigger] all[j] != NEWLINE by {
        assert(all[j] == pending[j]);
    }
    lemma_first_newline(all, p);
    assert(all.take(p) =~= pending.take(p));
    assert(all.skip(p + 1) =~= pending.skip(p + 1) + more);
}

/// Frames `payload` behind a four-byte little-endian length prefix.
pub fn encode_frame(payload: &[u8]) -> (res: Result<Vec<u8>, EncodeError>)
    ensures
        match res {
            Ok(frame) => payload@.len() <= u32::MAX && frame@ == length_prefixed(payload@),
            Err(e) => payload@.len() > u32::MAX && e == EncodeError::TooLong,
        },
{
    if payload.len() > 0xffff_ffff {
        return Err(EncodeError::TooLong);
    }
    let mut frame = u32_to_le_bytes(payload.len() as u32);
    frame.extend_from_slice(payload);
    Ok(frame)
}

/// Frames `payload` as one line.
pub fn encode_line(payload: &[u8]) -> (res: Result<Vec<u8>, EncodeError>)
    ensures
        match res {
            Ok(frame) => !has_newline(payload@) && frame@ == line_framed(payload@),
            Err(e) => has_newline(payload@) && e == EncodeError::ContainsNewline,
        },
{
    let mut frame: Vec<u8> = Vec::new();
    let mut i: usize = 0;
    while i < payload.len()
        invariant
            i <= payload.len(),
            frame@ == payload@.take(i as int),
            forall|j: int| 0 <= j < i ==> #[trigger] payload@[j] != NEWLINE,
        decreases payload.len() - i,
    {
        if payload[i] == NEWLINE {
            return Err(EncodeError::ContainsNewline);
        }
        frame.push(payload[i]);
        assert(frame@ =~= payload@.take(i + 1));
        i = i + 1;
    }
    assert(payload@.take(i as int) =~= payload@);
    frame.push(NEWLINE);
    Ok(frame)
}

/// Reads the length of the frame that a four-byte prefix announces.
pub fn parse_length(header: &[u8], max: usize) -> (res: Result<usize, FrameError>)
    requires
        header@.len() == 4,
    ensures
        match res {
            Ok(size) => size == spec_u32_from_le_bytes(header@) && size <= max,
            Err(e) => spec_u32_from_le_bytes(header@) > max && e == (FrameError::TooLarge {
                size: spec_u32_from_le_bytes(header@) as usize,
            }),
        },
{
    let size = u32_from_le_bytes(header);
    if size as usize > max {
        Err(FrameError::TooLarge { size: size as usize })
    } else {
        Ok(size as usize)
    }
}

/// A resumable reader of framed messages: bytes are fed to it as they
/// arrive, in pieces of any size, and complete payloads are taken out.
pub struct FrameDecoder {
    buffer: Vec<u8>,
    max_size: usize,
}

impl View for FrameDecoder {
    type V = Seq<u8>;

    /// The bytes that were fed and not yet taken out.
    closed spec fn view(&self) -> Seq<u8> {
        self.buffer@
    }
}

impl FrameDecoder {
    /// The limit on a payload's size.
    pub closed spec fn max(&self) -> nat {
        self.max_size as nat
    }

    /// A decoder that holds no bytes.
    pub fn new(max_size: usize) -> (dec: FrameDecoder)
        ensures
            dec@ == Seq::<u8>::empty(),
            dec.max() == max_size,
    {
        FrameDecoder { buffer: Vec::new(), max_size }
    }

    /// Number of bytes held.
    pub fn pending(&self) -> (n: usize)
        ensures
            n == self@.len(),
    {
        self.buffer.len()
    }

    /// Takes in the bytes that arrived.
    pub fn feed(&mut self, bytes: &[u8])
        ensures
            final(self)@ == old(self)@ + bytes@,
            final(self).max() == old(self).max(),
    {
        self.buffer.extend_from_slice(bytes);
    }

    /// Removes the first `n` bytes.
    fn consume(&mut self, n: usize)
        requires
            n <= old(self)@.len(),
        ensures
            final(self)@ == old(self)@.skip(n as int),
            final(self).max() == old(self).max(),
    {
        let rest = self.buffer.split_off(n);
        self.buffer = rest;
    }

    /// Takes the next length-prefixed frame out, if a complete one is held.
    pub fn next_frame(&mut self) -> (res: Result<Option<Vec<u8>>, FrameError>)
        ensures
            final(self).max() == old(self).max(),
            match next_frame_of(old(self)@, old(self).max()) {
                FrameStep::NeedMore => res == Ok::<Option<Vec<u8>>, FrameError>(None) && final(self)@
                    == old(self)@,
                FrameStep::TooLarge { size } => res == Err::<Option<Vec<u8>>, FrameError>(
                    FrameError::TooLarge { size: size as usize },
                ) && final(self)@ == old(self)@,
                FrameStep::Frame { payload, rest } => res matches Ok(Some(p)) && p@ == payload
                    && final(self)@ == rest,
            },
    {
        if self.buffer.len() < 4 {
            return Ok(None);
        }
        let header = slice_subrange(self.buffer.as_slice(), 0, 4);
        assert(header@ =~= self@.take(4));
        let size = match parse_length(header, self.max_size) {
            Ok(size) => size,
            Err(e) => {
                return Err(e);
            },
        };
        if self.buffer.len() - 4 < size {
            return Ok(None);
        }
        let mut payload: Vec<u8> = Vec::new();
        payload.extend_from_slice(slice_subrange(self.buffer.as_slice(), 4, 4 + size));
        self.consume(4 + size);
        Ok(Some(payload))
    }

    /// Takes the next line out, without its line end, if a complete one is held.
    pub fn next_line(&mut self) -> (res: Result<Option<Vec<u8>>, FrameError>)
        ensures
            final(self).max() == old(self).max(),
            match next_line_of(old(self)@, old(self).max()) {
                FrameStep::NeedMore => res == Ok::<Option<Vec<u8>>, FrameError>(None) && final(self)@
                    == old(self)@,
                FrameStep::TooLarge { size } => res == Err::<Option<Vec<u8>>, FrameError>(
                    FrameError::TooLarge { size: size as usize },
                ) && final(self)@ == old(self)@,
                FrameStep::Frame { payload, rest } => res matches Ok(Some(p)) && p@ == payload
                    && final(self)@ == rest,
            },
    {
        let n = self.buffer.len();
        let mut i: usize = 0;
        while i < n
            invariant
                i <= n,
                n == self.buffer@.len(),
                self@ == old(self)@,
                self.max_size == old(self).max_size,
                forall|j: int| 0 <= j < i ==> #[trigger] self@[j] != NEWLINE,
            decreases n - i,
        {
            if self.buffer[i] == NEWLINE {
                proof {
                    lemma_first_newline(self@, i as int);
                }
                let mut payload: Vec<u8> = Vec::new();
                payload.extend_from_slice(slice_subrange(self.buffer.as_slice(), 0, i));
                assert(payload@ =~= self@.take(i as int));
                self.consume(i + 1);
                return Ok(Some(payload));
            }
            i = i + 1;
        }
        if n >= self.max_size {
            Err(FrameError::TooLarge { size: n })
        } else {
            Ok(None)
        }
    }
}

} // verus!
