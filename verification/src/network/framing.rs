//! The framing of messages on a byte stream. A frame is the magic number
//! `RV`, the length of the message in 2 bytes (most significant first), and
//! the message. A reader collects bytes until whole frames are there; what
//! follows the last whole frame waits for more bytes.
use crate::bytes::{
    be_bytes, be_value, copy_range, decode_be, encode_be, lemma_be_bytes_len, lemma_be_value_of_bytes,
    lemma_pow256_values,
};
use vstd::prelude::*;

verus! {

/// The two bytes that start every frame: `RV`.
pub const MAGIC_NUMBER_0: u8 = 0x52;
pub const MAGIC_NUMBER_1: u8 = 0x56;

/// The number of bytes of the magic number.
pub const MAGIC_LEN: usize = 2;

/// The number of bytes that hold the length of a message.
pub const LEN_BYTES: usize = 2;

/// One more than the longest message that a frame can hold.
pub const MAX_MESSAGE_SIZE: usize = 65536;

/// The byte that ends each message a writer sends.
pub const PACKET_SEP: u8 = 0x0a;

/// The number of bytes before a message in its frame.
pub const HEADER_LEN: usize = 4;

/// What reading the whole frames at the start of `s` gives: their messages,
/// the bytes left after them, and whether reading stopped at bytes that do
/// not start with the magic number (`false`) rather than at an incomplete
/// frame (`true`).
pub open spec fn split_frames(s: Seq<u8>) -> (Seq<Seq<u8>>, Seq<u8>, bool)
    decreases s.len(),
{
    if s.len() < HEADER_LEN {
        (Seq::empty(), s, true)
    } else if s[0] != MAGIC_NUMBER_0 || s[1] != MAGIC_NUMBER_1 {
        (Seq::empty(), s, false)
    } else {
        let len = be_value(s.subrange(2, 4));
        if s.len() < HEADER_LEN + len {
            (Seq::empty(), s, true)
        } else {
            let rest = split_frames(s.subrange(HEADER_LEN + len, s.len() as int));
            (seq![s.subrange(HEADER_LEN as int, HEADER_LEN + len)] + rest.0, rest.1, rest.2)
        }
    }
}

/// The messages that a reader took out of its buffer.
pub struct ReadFrames {
    pub messages: Vec<Vec<u8>>,
    /// `false` when the buffer held bytes that do not start a frame: the
    /// stream is broken.
    pub magic_matched: bool,
}

/// Takes the whole frames out of the front of `message` and returns their
/// messages; `message` keeps what follows them. Stops at bytes that do not
/// start with the magic number, which stay in `message`.
pub fn check_message(message: &mut Vec<u8>) -> (r: ReadFrames)
    ensures
        r.messages@.map_values(|m: Vec<u8>| m@) == split_frames(old(message)@).0,
        final(message)@ == split_frames(old(message)@).1,
        r.magic_matched == split_frames(old(message)@).2,
{
    let ghost initial = message@;
    let mut messages: Vec<Vec<u8>> = Vec::new();
    let mut magic_matched = true;
    while message.len() >= HEADER_LEN
        invariant_except_break
            magic_matched,
        invariant
            split_frames(initial) == (messages@.map_values(|m: Vec<u8>| m@) + split_frames(message@).0, split_frames(message@).1, split_frames(message@).2),
        ensures
            split_frames(initial) == (messages@.map_values(|m: Vec<u8>| m@) + split_frames(message@).0, split_frames(message@).1, split_frames(message@).2),
            split_frames(message@).0 == Seq::<Seq<u8>>::empty(),
            split_frames(message@).1 == message@,
            split_frames(message@).2 == magic_matched,
        decreases message.len(),
    {
        if message[0] != MAGIC_NUMBER_0 || message[1] != MAGIC_NUMBER_1 {
            magic_matched = false;
            break;
        }
        let length_value = decode_be(message, 2, 4);
        proof {
            crate::bytes::lemma_be_value_bound(message@.subrange(2, 4));
            crate::bytes::lemma_pow256_values();
        }
        let length = length_value as usize;
        if message.len() - HEADER_LEN < length {
            break;
        }
        let payload = copy_range(message, HEADER_LEN, HEADER_LEN + length);
        let rest = copy_range(message, HEADER_LEN + length, message.len());
        let ghost before = message@;
        let ghost old_messages = messages@.map_values(|m: Vec<u8>| m@);
        messages.push(payload);
        *message = rest;
        proof {
            assert(messages@.map_values(|m: Vec<u8>| m@) =~= old_messages.push(payload@));
            assert(old_messages.push(payload@) + split_frames(message@).0 =~= old_messages + (seq![payload@] + split_frames(message@).0));
        }
    }
    ReadFrames { messages, magic_matched }
}

/// The reading side of a stream: the bytes received that do not yet form
/// a whole frame.
pub struct FrameReader {
    message: Vec<u8>,
}

impl View for FrameReader {
    type V = Seq<u8>;

    closed spec fn view(&self) -> Seq<u8> {
        self.message@
    }
}

impl FrameReader {
    pub fn new() -> (r: Self)
        ensures
            r@ == Seq::<u8>::empty(),
    {
        FrameReader { message: Vec::new() }
    }

    /// Takes in the bytes of one read from the stream and returns the
    /// messages of the frames that are now whole. When the bytes do not start
    /// a frame the stream is broken and the reader should stop.
    pub fn push_bytes(&mut self, chunk: &Vec<u8>) -> (r: ReadFrames)
        ensures
            r.messages@.map_values(|m: Vec<u8>| m@) == split_frames(old(self)@ + chunk@).0,
            final(self)@ == split_frames(old(self)@ + chunk@).1,
            r.magic_matched == split_frames(old(self)@ + chunk@).2,
    {
        let mut i: usize = 0;
        while i < chunk.len()
            invariant
                i <= chunk.len(),
                self.message@ == old(self)@ + chunk@.subrange(0, i as int),
            decreases chunk.len() - i,
        {
            self.message.push(chunk[i]);
            i = i + 1;
            proof {
                assert(self.message@ =~= old(self)@ + chunk@.subrange(0, i as int));
            }
        }
        proof {
            assert(chunk@.subrange(0, chunk.len() as int) =~= chunk@);
        }
        check_message(&mut self.message)
    }

    /// The bytes received that wait for the rest of their frame.
    pub fn pending(&self) -> (r: &Vec<u8>)
        ensures
            r@ == self@,
    {
        &self.message
    }
}

/// The frame of `message`: the magic number, the length in 2 bytes, then
/// the message.
pub open spec fn frame_bytes(message: Seq<u8>) -> Seq<u8> {
    seq![MAGIC_NUMBER_0, MAGIC_NUMBER_1] + be_bytes(message.len(), 2) + message
}

/// The frame of a message shorter than [`MAX_MESSAGE_SIZE`].
pub fn encode_frame(message: &Vec<u8>) -> (r: Vec<u8>)
    requires
        message.len() < MAX_MESSAGE_SIZE,
    ensures
        r@ == frame_bytes(message@),
{
    let mut out: Vec<u8> = Vec::new();
    out.push(MAGIC_NUMBER_0);
    out.push(MAGIC_NUMBER_1);
    let mut len_bytes = encode_be(message.len() as u128, LEN_BYTES);
    out.append(&mut len_bytes);
    let mut body = copy_range(message, 0, message.len());
    out.append(&mut body);
    proof {
        assert(message@.subrange(0, message@.len() as int) =~= message@);
        assert(out@ =~= frame_bytes(message@));
    }
    out
}

/// A reader gives back the message of each frame a writer sends, before
/// whatever follows the frame.
pub proof fn lemma_frame_read_back(message: Seq<u8>, rest: Seq<u8>)
    requires
        message.len() < MAX_MESSAGE_SIZE,
    ensures
        split_frames(frame_bytes(message) + rest) == ({
            let later = split_frames(rest);
            (seq![message] + later.0, later.1, later.2)
        }),
{
    let s = frame_bytes(message) + rest;
    lemma_pow256_values();
    lemma_be_bytes_len(message.len(), 2);
    lemma_be_value_of_bytes(message.len(), 2);
    assert(s.subrange(2, 4) =~= be_bytes(message.len(), 2));
    assert(s.subrange(HEADER_LEN as int, HEADER_LEN + message.len()) =~= message);
    assert(s.subrange(HEADER_LEN + message.len(), s.len() as int) =~= rest);
}

/// The bytes that a writer sends for a message: the message, then the
/// separator.
pub fn encode_line(data: &Vec<u8>) -> (r: Vec<u8>)
    ensures
        r@ == data@.push(PACKET_SEP),
{
    let mut to_send = copy_range(data, 0, data.len());
    proof {
        assert(data@.subrange(0, data@.len() as int) =~= data@);
    }
    to_send.push(PACKET_SEP);
    to_send
}

/// Reading a stream in two pieces gives the messages that reading it whole
/// gives: the messages of the first piece, then those of what was left of it
/// followed by the second piece.
pub proof fn lemma_split_frames_append(a: Seq<u8>, b: Seq<u8>)
    requires
        split_frames(a).2,
    ensures
        split_frames(a + b) == ({
            let later = split_frames(split_frames(a).1 + b);
            (split_frames(a).0 + later.0, later.1, later.2)
        }),
    decreases a.len(),
{
    let ab = a + b;
    if a.len() < HEADER_LEN {
        assert(split_frames(a).0 + split_frames(ab).0 =~= split_frames(ab).0);
    } else {
        assert(ab.subrange(2, 4) =~= a.subrange(2, 4));
        let len = be_value(a.subrange(2, 4));
        if a.len() < HEADER_LEN + len {
            assert(split_frames(a).0 + split_frames(ab).0 =~= split_frames(ab).0);
        } else {
            let rest_a = a.subrange(HEADER_LEN + len, a.len() as int);
            assert(ab.subrange(HEADER_LEN as int, HEADER_LEN + len) =~= a.subrange(HEADER_LEN as int, HEADER_LEN + len));
            assert(ab.subrange(HEADER_LEN + len, ab.len() as int) =~= rest_a + b);
            lemma_split_frames_append(rest_a, b);
            let later = split_frames(split_frames(a).1 + b);
            assert(seq![a.subrange(HEADER_LEN as int, HEADER_LEN + len)] + (split_frames(rest_a).0 + later.0)
                =~= (seq![a.subrange(HEADER_LEN as int, HEADER_LEN + len)] + split_frames(rest_a).0) + later.0);
        }
    }
}

/// A frame cut anywhere before its end, as a read can leave it, is never
/// called broken: no message is taken out, all its bytes stay pending, and
/// reading goes on.
pub proof fn lemma_partial_frame_waits(message: Seq<u8>, k: int)
    requires
        message.len() < MAX_MESSAGE_SIZE,
        0 <= k < frame_bytes(message).len(),
    ensures
        split_frames(frame_bytes(message).subrange(0, k)) == (Seq::<Seq<u8>>::empty(), frame_bytes(message).subrange(0, k), true),
{
    let f = frame_bytes(message);
    let s = f.subrange(0, k);
    lemma_pow256_values();
    lemma_be_bytes_len(message.len(), 2);
    lemma_be_value_of_bytes(message.len(), 2);
    if k >= HEADER_LEN {
        assert(s[0] == MAGIC_NUMBER_0 && s[1] == MAGIC_NUMBER_1);
        assert(s.subrange(2, 4) =~= be_bytes(message.len(), 2));
    }
}

/// After whole frames, a frame that is only partly there is kept pending:
/// the messages of the whole frames come out and the stream is not broken.
pub proof fn lemma_frames_then_partial_frame(first: Seq<u8>, message: Seq<u8>, k: int)
    requires
        first.len() < MAX_MESSAGE_SIZE,
        message.len() < MAX_MESSAGE_SIZE,
        0 <= k < frame_bytes(message).len(),
    ensures
        split_frames(frame_bytes(first) + frame_bytes(message).subrange(0, k))
            == (seq![first], frame_bytes(message).subrange(0, k), true),
{
    lemma_frame_read_back(first, frame_bytes(message).subrange(0, k));
    lemma_partial_frame_waits(message, k);
    assert(seq![first] + Seq::<Seq<u8>>::empty() =~= seq![first]);
}

} // verus!
