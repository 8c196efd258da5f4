use bincode::error::DecodeError;
use vstd::prelude::*;

use crate::wire::{
    decode_varint, encode_varint, lemma_varint_roundtrip, varint_bytes, varint_decode, varint_error,
    CodecErrorKind,
};

verus! {

/// Size in bytes of every framed message on the wire.
pub const MESSAGE_SIZE: usize = 16;

/// Blocking message passing between the clients of a monitor and its server,
/// for users to implement.
pub trait Communication {
    /// Blocks until a message arrives.
    fn receive(&self) -> MonMessage;

    /// Sends `msg` to the participant `dest`.
    fn send(&self, msg: MonMessage, dest: u32);

    /// Answers the last received message.
    fn reply(&self, msg: MonMessage);
}

/// The requests a client sends to a monitor server.
#[derive(Debug, Clone, Copy, PartialEq, Eq, Structural)]
pub enum MonMessage {
    MonRegister,
    MonEnter,
    MonLeave,
    MonWait(usize),
    MonSignal(usize),
    MonBroadcast(usize),
}

/// A request together with the identity of the thread that sends it.
/// The sender is never zero.
#[derive(Debug, Clone, Copy, PartialEq, Eq, Structural)]
pub struct Message {
    pub sender: u64,
    pub msg: MonMessage,
}

/// Why a buffer did not decode into a message.
#[derive(Debug)]
pub enum DecodeFailure {
    /// An integer field was cut short or had an invalid marker byte; `kind` says
    /// which.
    Codec { error: DecodeError, kind: CodecErrorKind },
    /// The sender field decoded to zero.
    ZeroSender,
    /// The variant index has the marker of a 64-bit integer, wider than its u32 type.
    TagTooWide,
    /// The variant index names no request.
    UnknownVariant(u32),
}

/// What kind of failure a [`DecodeFailure`] is.
#[derive(Debug, Clone, Copy, PartialEq, Eq, Structural)]
pub enum FailureKind {
    Codec(CodecErrorKind),
    ZeroSender,
    TagTooWide,
    UnknownVariant(u32),
}

impl DecodeFailure {
    pub open spec fn kind(&self) -> FailureKind {
        match self {
            DecodeFailure::Codec { kind, .. } => FailureKind::Codec(*kind),
            DecodeFailure::ZeroSender => FailureKind::ZeroSender,
            DecodeFailure::TagTooWide => FailureKind::TagTooWide,
            DecodeFailure::UnknownVariant(t) => FailureKind::UnknownVariant(*t),
        }
    }
}

/// Variant index of a request, in declaration order.
pub open spec fn tag_of(m: MonMessage) -> u64 {
    match m {
        MonMessage::MonRegister => 0,
        MonMessage::MonEnter => 1,
        MonMessage::MonLeave => 2,
        MonMessage::MonWait(_) => 3,
        MonMessage::MonSignal(_) => 4,
        MonMessage::MonBroadcast(_) => 5,
    }
}

/// Bytes of a request: its variant index, then its condition index if it has one.
pub open spec fn mon_message_bytes(m: MonMessage) -> Seq<u8> {
    match m {
        MonMessage::MonWait(c) => varint_bytes(3) + varint_bytes(c as u64),
        MonMessage::MonSignal(c) => varint_bytes(4) + varint_bytes(c as u64),
        MonMessage::MonBroadcast(c) => varint_bytes(5) + varint_bytes(c as u64),
        _ => varint_bytes(tag_of(m)),
    }
}

/// Bytes of a message before framing: the sender, then the request.
pub open spec fn message_bytes(m: Message) -> Seq<u8> {
    varint_bytes(m.sender) + mon_message_bytes(m.msg)
}

/// A frame: the bytes followed by zeros up to `MESSAGE_SIZE`.
pub open spec fn frame(bytes: Seq<u8>) -> Seq<u8> {
    bytes + Seq::new((MESSAGE_SIZE - bytes.len()) as nat, |i: int| 0u8)
}

/// The request with variant index `tag` and condition index `cond`.
pub open spec fn request_of(tag: u64, cond: usize) -> MonMessage {
    if tag == 0 {
        MonMessage::MonRegister
    } else if tag == 1 {
        MonMessage::MonEnter
    } else if tag == 2 {
        MonMessage::MonLeave
    } else if tag == 3 {
        MonMessage::MonWait(cond)
    } else if tag == 4 {
        MonMessage::MonSignal(cond)
    } else {
        MonMessage::MonBroadcast(cond)
    }
}

/// Decoding of a message from the start of `s`: the sender (not zero), the variant
/// index (at most a u32, naming a request) and, for a request with a condition, the
/// condition index; bytes after the message are ignored.
pub open spec fn decode_spec(s: Seq<u8>) -> Result<Message, FailureKind> {
    match varint_decode(s) {
        None => Err(FailureKind::Codec(varint_error(s))),
        Some((sender, n1)) => {
            let t = s.subrange(n1 as int, s.len() as int);
            if sender == 0 {
                Err(FailureKind::ZeroSender)
            } else if t.len() > 0 && t[0] == 253 {
                Err(FailureKind::TagTooWide)
            } else {
                match varint_decode(t) {
                    None => Err(FailureKind::Codec(varint_error(t))),
                    Some((tag, n2)) => {
                        if tag > 5 {
                            Err(FailureKind::UnknownVariant(tag as u32))
                        } else if tag < 3 {
                            Ok(Message { sender, msg: request_of(tag, 0) })
                        } else {
                            let u = s.subrange((n1 + n2) as int, s.len() as int);
                            match varint_decode(u) {
                                None => Err(FailureKind::Codec(varint_error(u))),
                                Some((c, _)) => Ok(Message { sender, msg: request_of(tag, c as usize) }),
                            }
                        }
                    },
                }
            }
        },
    }
}

proof fn lemma_varint_decode_len(s: Seq<u8>)
    ensures
        varint_decode(s) matches Some((v, n)) ==> 1 <= n <= s.len() && n <= 9,
{
}

impl Message {
    /// A message carrying `msg` from the thread identified by `sender`.
    pub fn new(sender: u64, msg: MonMessage) -> (m: Message)
        requires
            sender != 0,
        ensures
            m == (Message { sender, msg }),
    {
        Message { sender, msg }
    }

    /// Replaces the sender.
    pub fn set_sender(&mut self, sender: u64)
        requires
            sender != 0,
        ensures
            *final(self) == (Message { sender, ..*old(self) }),
    {
        self.sender = sender;
    }

    fn encode_varint_into(out: &mut Vec<u8>, x: u64)
        ensures
            final(out)@ == old(out)@ + varint_bytes(x),
    {
        let r = encode_varint(x);
        let mut bytes = match r {
            Ok(v) => v,
            Err(_) => Vec::new(),
        };
        out.append(&mut bytes);
    }

    fn encode_unframed(m: &Message) -> (v: Vec<u8>)
        ensures
            v@ == message_bytes(*m),
    {
        let mut v: Vec<u8> = Vec::new();
        Self::encode_varint_into(&mut v, m.sender);
        match m.msg {
            MonMessage::MonRegister => Self::encode_varint_into(&mut v, 0),
            MonMessage::MonEnter => Self::encode_varint_into(&mut v, 1),
            MonMessage::MonLeave => Self::encode_varint_into(&mut v, 2),
            MonMessage::MonWait(c) => {
                Self::encode_varint_into(&mut v, 3);
                Self::encode_varint_into(&mut v, c as u64);
            },
            MonMessage::MonSignal(c) => {
                Self::encode_varint_into(&mut v, 4);
                Self::encode_varint_into(&mut v, c as u64);
            },
            MonMessage::MonBroadcast(c) => {
                Self::encode_varint_into(&mut v, 5);
                Self::encode_varint_into(&mut v, c as u64);
            },
        }
        assert(v@ =~= message_bytes(*m));
        v
    }

    /// Number of bytes the message takes before it is padded to a frame.
    pub fn encoded_len(&self) -> (n: usize)
        ensures
            n == message_bytes(*self).len(),
    {
        let v = Self::encode_unframed(self);
        v.len()
    }

    /// Encodes the message and pads it with zeros to exactly `MESSAGE_SIZE` bytes.
    /// A message whose encoding is longer than a frame is not accepted.
    pub fn encode(msg: Message) -> (ser: Vec<u8>)
        requires
            msg.sender != 0,
            message_bytes(msg).len() <= MESSAGE_SIZE,
        ensures
            ser@ == frame(message_bytes(msg)),
            ser@.len() == MESSAGE_SIZE,
    {
        let mut ser = Self::encode_unframed(&msg);
        let ghost unframed = ser@;
        let mut i: usize = ser.len();
        while i < MESSAGE_SIZE
            invariant
                unframed.len() <= i <= MESSAGE_SIZE,
                ser@.len() == i,
                ser@.subrange(0, unframed.len() as int) == unframed,
                forall|k: int| unframed.len() <= k < i ==> ser@[k] == 0u8,
            decreases MESSAGE_SIZE - i,
        {
            ser.push(0u8);
            i = i + 1;
        }
        assert(ser@ =~= frame(unframed));
        ser
    }

    /// Decodes a message from the start of `buffer`; the bytes after it are ignored.
    pub fn decode(buffer: &[u8]) -> (r: Result<Message, DecodeFailure>)
        ensures
            match r {
                Ok(m) => decode_spec(buffer@) == Ok::<Message, FailureKind>(m),
                Err(e) => decode_spec(buffer@) == Err::<Message, FailureKind>(e.kind()),
            },
    {
        let ghost s = buffer@;
        assert(s.subrange(0, s.len() as int) =~= s);
        let (sender, n1) = match decode_varint(buffer, 0) {
            Ok(p) => p,
            Err((error, kind)) => {
                return Err(DecodeFailure::Codec { error, kind });
            },
        };
        proof {
            lemma_varint_decode_len(s);
        }
        if sender == 0 {
            return Err(DecodeFailure::ZeroSender);
        }
        if n1 < buffer.len() && buffer[n1] == 253 {
            return Err(DecodeFailure::TagTooWide);
        }
        let (tag, n2) = match decode_varint(buffer, n1) {
            Ok(p) => p,
            Err((error, kind)) => {
                return Err(DecodeFailure::Codec { error, kind });
            },
        };
        proof {
            lemma_varint_decode_len(s.subrange(n1 as int, s.len() as int));
        }
        proof {
            let t = s.subrange(n1 as int, s.len() as int);
            assert(tag <= 0xffff_ffff) by {
                if t[0] == 251 {
                    let (x, y) = (t[1], t[2]);
                    assert(crate::wire::le16(x, y) <= 0xffff) by (bit_vector);
                } else if t[0] == 252 {
                    let (x, y, z, w) = (t[1], t[2], t[3], t[4]);
                    assert(crate::wire::le32(x, y, z, w) <= 0xffff_ffff) by (bit_vector);
                }
            }
        }
        if tag > 5 {
            return Err(DecodeFailure::UnknownVariant(tag as u32));
        }
        if tag < 3 {
            let msg = if tag == 0 {
                MonMessage::MonRegister
            } else if tag == 1 {
                MonMessage::MonEnter
            } else {
                MonMessage::MonLeave
            };
            return Ok(Message { sender, msg });
        }
        let (c, _n3) = match decode_varint(buffer, n1 + n2) {
            Ok(p) => p,
            Err((error, kind)) => {
                return Err(DecodeFailure::Codec { error, kind });
            },
        };
        let cond = c as usize;
        let msg = if tag == 3 {
            MonMessage::MonWait(cond)
        } else if tag == 4 {
            MonMessage::MonSignal(cond)
        } else {
            MonMessage::MonBroadcast(cond)
        };
        Ok(Message { sender, msg })
    }
}

/// Decoding gives back the encoded message, whatever bytes follow it; in
/// particular a framed message decodes to itself.
pub proof fn law_decode_inverts_encode(m: Message, rest: Seq<u8>)
    requires
        m.sender != 0,
    ensures
        decode_spec(message_bytes(m) + rest) == Ok::<Message, FailureKind>(m),
        message_bytes(m).len() <= MESSAGE_SIZE ==> decode_spec(frame(message_bytes(m)))
            == Ok::<Message, FailureKind>(m),
{
    lemma_decode_message_prefix(m, rest);
    if message_bytes(m).len() <= MESSAGE_SIZE {
        let pad = Seq::new((MESSAGE_SIZE - message_bytes(m).len()) as nat, |i: int| 0u8);
        lemma_decode_message_prefix(m, pad);
    }
}

proof fn lemma_decode_message_prefix(m: Message, rest: Seq<u8>)
    requires
        m.sender != 0,
    ensures
        decode_spec(message_bytes(m) + rest) == Ok::<Message, FailureKind>(m),
{
    match m.msg {
        MonMessage::MonWait(c) => lemma_decode_with_condition(m.sender, 3, c, rest),
        MonMessage::MonSignal(c) => lemma_decode_with_condition(m.sender, 4, c, rest),
        MonMessage::MonBroadcast(c) => lemma_decode_with_condition(m.sender, 5, c, rest),
        _ => {
            let tag = tag_of(m.msg);
            let sb = varint_bytes(m.sender);
            let tb = varint_bytes(tag);
            let s = sb + tb + rest;
            assert(message_bytes(m) + rest =~= s);
            lemma_varint_roundtrip(m.sender, tb + rest);
            assert(s =~= sb + (tb + rest));
            assert(s.subrange(sb.len() as int, s.len() as int) =~= tb + rest);
            lemma_varint_roundtrip(tag, rest);
            assert(request_of(tag, 0) == m.msg);
        },
    }
}

#[verifier::rlimit(30)]
proof fn lemma_decode_with_condition(sender: u64, tag: u64, c: usize, rest: Seq<u8>)
    requires
        sender != 0,
        3 <= tag <= 5,
    ensures
        decode_spec(varint_bytes(sender) + (varint_bytes(tag) + varint_bytes(c as u64)) + rest)
            == Ok::<Message, FailureKind>(Message { sender, msg: request_of(tag, c) }),
{
    let sb = varint_bytes(sender);
    let tb = varint_bytes(tag);
    let cb = varint_bytes(c as u64);
    let s = sb + (tb + cb) + rest;
    lemma_varint_roundtrip(sender, tb + (cb + rest));
    assert(s =~= sb + (tb + (cb + rest)));
    assert(s.subrange(sb.len() as int, s.len() as int) =~= tb + (cb + rest));
    lemma_varint_roundtrip(tag, cb + rest);
    assert(tb.len() == 1);
    assert(s.subrange((sb.len() + 1) as int, s.len() as int) =~= cb + rest);
    lemma_varint_roundtrip(c as u64, rest);
    assert(((c as u64) as usize) == c);
}

/// The condition index a request carries, if it carries one.
pub open spec fn condition_of(m: MonMessage) -> Option<usize> {
    match m {
        MonMessage::MonWait(c) => Some(c),
        MonMessage::MonSignal(c) => Some(c),
        MonMessage::MonBroadcast(c) => Some(c),
        _ => None,
    }
}

/// A message fits in a frame unless both its sender and its condition index need
/// more than 32 bits.
pub proof fn law_frame_fits(m: Message)
    ensures
        message_bytes(m).len() <= MESSAGE_SIZE <==> !(m.sender > 0xffff_ffff && (condition_of(m.msg) matches Some(
            c) && c > 0xffff_ffff)),
{
    let t = tag_of(m.msg);
    assert(varint_bytes(t).len() == 1);
}

/// The wire layout of every request, fixed independently of the decoder: the
/// sender's variable-length integer, then the variant index in declaration order
/// (register 0, enter 1, leave 2, wait 3, signal 4, broadcast 5) as one byte, then,
/// for a request on a condition, the condition index as a variable-length integer.
pub proof fn law_wire_layout(sender: u64, c: usize)
    ensures
        message_bytes(Message { sender, msg: MonMessage::MonRegister }) == varint_bytes(sender) + seq![0u8],
        message_bytes(Message { sender, msg: MonMessage::MonEnter }) == varint_bytes(sender) + seq![1u8],
        message_bytes(Message { sender, msg: MonMessage::MonLeave }) == varint_bytes(sender) + seq![2u8],
        message_bytes(Message { sender, msg: MonMessage::MonWait(c) }) == varint_bytes(sender) + seq![3u8]
            + varint_bytes(c as u64),
        message_bytes(Message { sender, msg: MonMessage::MonSignal(c) }) == varint_bytes(sender) + seq![4u8]
            + varint_bytes(c as u64),
        message_bytes(Message { sender, msg: MonMessage::MonBroadcast(c) }) == varint_bytes(sender) + seq![5u8]
            + varint_bytes(c as u64),
{
    assert(varint_bytes(0) == seq![0u8]);
    assert(varint_bytes(1) == seq![1u8]);
    assert(varint_bytes(2) == seq![2u8]);
    assert(varint_bytes(3) == seq![3u8]);
    assert(varint_bytes(4) == seq![4u8]);
    assert(varint_bytes(5) == seq![5u8]);
    assert(varint_bytes(sender) + seq![3u8] + varint_bytes(c as u64) =~= varint_bytes(sender) + (seq![3u8]
        + varint_bytes(c as u64)));
    assert(varint_bytes(sender) + seq![4u8] + varint_bytes(c as u64) =~= varint_bytes(sender) + (seq![4u8]
        + varint_bytes(c as u64)));
    assert(varint_bytes(sender) + seq![5u8] + varint_bytes(c as u64) =~= varint_bytes(sender) + (seq![5u8]
        + varint_bytes(c as u64)));
}

/// Decoding reads the variant index in declaration order: after a nonzero sender,
/// byte 0 is a registration, 1 an enter, 2 a leave, and 3, 4, 5 followed by a
/// condition index are a wait, a signal and a broadcast on that condition, whatever
/// bytes follow.
pub proof fn law_decode_variant_index(sender: u64, c: usize, rest: Seq<u8>)
    requires
        sender != 0,
    ensures
        decode_spec(varint_bytes(sender) + seq![0u8] + rest) == Ok::<Message, FailureKind>(
            Message { sender, msg: MonMessage::MonRegister },
        ),
        decode_spec(varint_bytes(sender) + seq![1u8] + rest) == Ok::<Message, FailureKind>(
            Message { sender, msg: MonMessage::MonEnter },
        ),
        decode_spec(varint_bytes(sender) + seq![2u8] + rest) == Ok::<Message, FailureKind>(
            Message { sender, msg: MonMessage::MonLeave },
        ),
        decode_spec(varint_bytes(sender) + seq![3u8] + varint_bytes(c as u64) + rest) == Ok::<
            Message,
            FailureKind,
        >(Message { sender, msg: MonMessage::MonWait(c) }),
        decode_spec(varint_bytes(sender) + seq![4u8] + varint_bytes(c as u64) + rest) == Ok::<
            Message,
            FailureKind,
        >(Message { sender, msg: MonMessage::MonSignal(c) }),
        decode_spec(varint_bytes(sender) + seq![5u8] + varint_bytes(c as u64) + rest) == Ok::<
            Message,
            FailureKind,
        >(Message { sender, msg: MonMessage::MonBroadcast(c) }),
{
    law_wire_layout(sender, c);
    law_decode_inverts_encode(Message { sender, msg: MonMessage::MonRegister }, rest);
    law_decode_inverts_encode(Message { sender, msg: MonMessage::MonEnter }, rest);
    law_decode_inverts_encode(Message { sender, msg: MonMessage::MonLeave }, rest);
    law_decode_inverts_encode(Message { sender, msg: MonMessage::MonWait(c) }, rest);
    law_decode_inverts_encode(Message { sender, msg: MonMessage::MonSignal(c) }, rest);
    law_decode_inverts_encode(Message { sender, msg: MonMessage::MonBroadcast(c) }, rest);
}

} // verus!
