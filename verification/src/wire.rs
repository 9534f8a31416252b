//! The wire format: each transport message is one framed instruction,
//! `[type byte, stream id, type-specific payload]`, except control
//! messages, which carry no stream id. Encoding and decoding are total
//! functions; a malformed frame decodes to an explicit fault value
//! instead of stopping the session.
use vstd::prelude::*;

verus! {

/// The six kinds of wire message.
#[derive(Clone, Copy, Debug, PartialEq, Eq, Structural)]
pub enum MessageType {
    CreateReceiver,
    StreamData,
    StreamEnd,
    CancelSender,
    StreamRequestData,
    ControlMessage,
}

/// The byte that stands for each message type on the wire.
pub open spec fn spec_type_byte(t: MessageType) -> u8 {
    match t {
        MessageType::CreateReceiver => 0,
        MessageType::StreamData => 1,
        MessageType::StreamEnd => 2,
        MessageType::CancelSender => 3,
        MessageType::StreamRequestData => 4,
        MessageType::ControlMessage => 5,
    }
}

impl MessageType {
    /// Decode a type byte; bytes above 5 name no message type.
    pub fn from_byte(b: u8) -> (r: Option<MessageType>)
        ensures
            b <= 5 ==> (r matches Some(t) && spec_type_byte(t) == b),
            b > 5 ==> r is None,
    {
        match b {
            0 => Some(MessageType::CreateReceiver),
            1 => Some(MessageType::StreamData),
            2 => Some(MessageType::StreamEnd),
            3 => Some(MessageType::CancelSender),
            4 => Some(MessageType::StreamRequestData),
            5 => Some(MessageType::ControlMessage),
            _ => None,
        }
    }

    /// The byte this type is encoded as.
    pub fn as_byte(&self) -> (r: u8)
        ensures
            r == spec_type_byte(*self),
    {
        match self {
            MessageType::CreateReceiver => 0,
            MessageType::StreamData => 1,
            MessageType::StreamEnd => 2,
            MessageType::CancelSender => 3,
            MessageType::StreamRequestData => 4,
            MessageType::ControlMessage => 5,
        }
    }
}

/// One decoded wire message.
#[derive(Debug, Clone, PartialEq)]
pub enum WireMessage {
    /// The peer opened a new logical stream; the payload is an opaque
    /// creation note surfaced verbatim to the application.
    CreateReceiver { stream_id: u8, payload: Vec<u8> },
    /// One data chunk for an open stream.
    StreamData { stream_id: u8, payload: Vec<u8> },
    /// The stream is complete; its id is released.
    StreamEnd { stream_id: u8 },
    /// The receiving side abandons the stream.
    CancelSender { stream_id: u8 },
    /// The receiving side grants `count` more items of demand.
    StreamRequestData { stream_id: u8, count: u8 },
    /// Session-scoped bytes tied to no stream.
    ControlMessage { payload: Vec<u8> },
}

/// The mathematical form of a wire message: payloads as byte sequences.
pub enum WireForm {
    CreateReceiver { stream_id: u8, payload: Seq<u8> },
    StreamData { stream_id: u8, payload: Seq<u8> },
    StreamEnd { stream_id: u8 },
    CancelSender { stream_id: u8 },
    StreamRequestData { stream_id: u8, count: u8 },
    ControlMessage { payload: Seq<u8> },
}

impl View for WireMessage {
    type V = WireForm;

    open spec fn view(&self) -> WireForm {
        match self {
            WireMessage::CreateReceiver { stream_id, payload } => WireForm::CreateReceiver {
                stream_id: *stream_id,
                payload: payload@,
            },
            WireMessage::StreamData { stream_id, payload } => WireForm::StreamData {
                stream_id: *stream_id,
                payload: payload@,
            },
            WireMessage::StreamEnd { stream_id } => WireForm::StreamEnd { stream_id: *stream_id },
            WireMessage::CancelSender { stream_id } => WireForm::CancelSender {
                stream_id: *stream_id,
            },
            WireMessage::StreamRequestData { stream_id, count } => WireForm::StreamRequestData {
                stream_id: *stream_id,
                count: *count,
            },
            WireMessage::ControlMessage { payload } => WireForm::ControlMessage {
                payload: payload@,
            },
        }
    }
}

/// Why a frame failed to decode.
#[derive(Clone, Copy, Debug, PartialEq, Eq, Structural)]
pub enum DecodeError {
    /// The frame is shorter than its message type allows.
    Truncated,
    /// The first byte names no message type.
    InvalidType,
}

/// The bytes that encode a wire message.
pub open spec fn spec_encode(m: WireForm) -> Seq<u8> {
    match m {
        WireForm::CreateReceiver { stream_id, payload } => seq![0u8, stream_id] + payload,
        WireForm::StreamData { stream_id, payload } => seq![1u8, stream_id] + payload,
        WireForm::StreamEnd { stream_id } => seq![2u8, stream_id],
        WireForm::CancelSender { stream_id } => seq![3u8, stream_id],
        WireForm::StreamRequestData { stream_id, count } => seq![4u8, stream_id, count],
        WireForm::ControlMessage { payload } => seq![5u8] + payload,
    }
}

/// The message a frame decodes to. Bytes past the fields a type defines
/// are ignored, except for the opaque payloads, which run to the end.
pub open spec fn spec_decode(bytes: Seq<u8>) -> Result<WireForm, DecodeError> {
    if bytes.len() == 0 {
        Err(DecodeError::Truncated)
    } else if bytes[0] == 0 {
        if bytes.len() >= 2 {
            Ok(WireForm::CreateReceiver { stream_id: bytes[1], payload: bytes.skip(2) })
        } else {
            Err(DecodeError::Truncated)
        }
    } else if bytes[0] == 1 {
        if bytes.len() >= 2 {
            Ok(WireForm::StreamData { stream_id: bytes[1], payload: bytes.skip(2) })
        } else {
            Err(DecodeError::Truncated)
        }
    } else if bytes[0] == 2 {
        if bytes.len() >= 2 {
            Ok(WireForm::StreamEnd { stream_id: bytes[1] })
        } else {
            Err(DecodeError::Truncated)
        }
    } else if bytes[0] == 3 {
        if bytes.len() >= 2 {
            Ok(WireForm::CancelSender { stream_id: bytes[1] })
        } else {
            Err(DecodeError::Truncated)
        }
    } else if bytes[0] == 4 {
        if bytes.len() >= 3 {
            Ok(WireForm::StreamRequestData { stream_id: bytes[1], count: bytes[2] })
        } else {
            Err(DecodeError::Truncated)
        }
    } else if bytes[0] == 5 {
        Ok(WireForm::ControlMessage { payload: bytes.skip(1) })
    } else {
        Err(DecodeError::InvalidType)
    }
}

/// Copy the bytes of `src` from position `k` to the end into a new vector.
fn tail_from(src: &Vec<u8>, k: usize) -> (r: Vec<u8>)
    requires
        k <= src@.len(),
    ensures
        r@ == src@.skip(k as int),
{
    let mut out: Vec<u8> = Vec::new();
    let mut i: usize = k;
    while i < src.len()
        invariant
            k <= i <= src@.len(),
            out@ == src@.subrange(k as int, i as int),
        decreases src@.len() - i,
    {
        out.push(src[i]);
        i += 1;
    }
    proof {
        assert(out@ =~= src@.skip(k as int));
    }
    out
}

/// Append all bytes of `src` to `dst`.
fn append_bytes(dst: &mut Vec<u8>, src: &Vec<u8>)
    ensures
        final(dst)@ == old(dst)@ + src@,
{
    let mut i: usize = 0;
    while i < src.len()
        invariant
            i <= src@.len(),
            dst@ == old(dst)@ + src@.subrange(0, i as int),
        decreases src@.len() - i,
    {
        dst.push(src[i]);
        i += 1;
    }
    proof {
        assert(dst@ =~= old(dst)@ + src@);
    }
}

/// Encode one wire message as the bytes of one transport message.
pub fn encode(m: &WireMessage) -> (r: Vec<u8>)
    ensures
        r@ == spec_encode(m@),
{
    match m {
        WireMessage::CreateReceiver { stream_id, payload } => {
            let mut out: Vec<u8> = Vec::new();
            out.push(0u8);
            out.push(*stream_id);
            append_bytes(&mut out, payload);
            proof {
                assert(out@ =~= spec_encode(m@));
            }
            out
        },
        WireMessage::StreamData { stream_id, payload } => {
            let mut out: Vec<u8> = Vec::new();
            out.push(1u8);
            out.push(*stream_id);
            append_bytes(&mut out, payload);
            proof {
                assert(out@ =~= spec_encode(m@));
            }
            out
        },
        WireMessage::StreamEnd { stream_id } => {
            let mut out: Vec<u8> = Vec::new();
            out.push(2u8);
            out.push(*stream_id);
            proof {
                assert(out@ =~= spec_encode(m@));
            }
            out
        },
        WireMessage::CancelSender { stream_id } => {
            let mut out: Vec<u8> = Vec::new();
            out.push(3u8);
            out.push(*stream_id);
            proof {
                assert(out@ =~= spec_encode(m@));
            }
            out
        },
        WireMessage::StreamRequestData { stream_id, count } => {
            let mut out: Vec<u8> = Vec::new();
            out.push(4u8);
            out.push(*stream_id);
            out.push(*count);
            proof {
                assert(out@ =~= spec_encode(m@));
            }
            out
        },
        WireMessage::ControlMessage { payload } => {
            let mut out: Vec<u8> = Vec::new();
            out.push(5u8);
            append_bytes(&mut out, payload);
            proof {
                assert(out@ =~= spec_encode(m@));
            }
            out
        },
    }
}

/// Decode the bytes of one transport message. Returns the fault value
/// `spec_decode` names for empty, truncated, or unknown-type frames.
pub fn decode(bytes: &Vec<u8>) -> (r: Result<WireMessage, DecodeError>)
    ensures
        match spec_decode(bytes@) {
            Ok(form) => r matches Ok(m) && m@ == form,
            Err(e) => r == Err::<WireMessage, DecodeError>(e),
        },
{
    if bytes.len() == 0 {
        return Err(DecodeError::Truncated);
    }
    let t = bytes[0];
    if t == 0 {
        if bytes.len() >= 2 {
            Ok(WireMessage::CreateReceiver { stream_id: bytes[1], payload: tail_from(bytes, 2) })
        } else {
            Err(DecodeError::Truncated)
        }
    } else if t == 1 {
        if bytes.len() >= 2 {
            Ok(WireMessage::StreamData { stream_id: bytes[1], payload: tail_from(bytes, 2) })
        } else {
            Err(DecodeError::Truncated)
        }
    } else if t == 2 {
        if bytes.len() >= 2 {
            Ok(WireMessage::StreamEnd { stream_id: bytes[1] })
        } else {
            Err(DecodeError::Truncated)
        }
    } else if t == 3 {
        if bytes.len() >= 2 {
            Ok(WireMessage::CancelSender { stream_id: bytes[1] })
        } else {
            Err(DecodeError::Truncated)
        }
    } else if t == 4 {
        if bytes.len() >= 3 {
            Ok(WireMessage::StreamRequestData { stream_id: bytes[1], count: bytes[2] })
        } else {
            Err(DecodeError::Truncated)
        }
    } else if t == 5 {
        Ok(WireMessage::ControlMessage { payload: tail_from(bytes, 1) })
    } else {
        Err(DecodeError::InvalidType)
    }
}

/// Law: decoding what `encode` produced gives back the same message.
/// Every wire message survives the trip onto the wire and back.
pub proof fn lemma_wire_round_trip(m: WireForm)
    ensures
        spec_decode(spec_encode(m)) == Ok::<WireForm, DecodeError>(m),
{
    let bytes = spec_encode(m);
    match m {
        WireForm::CreateReceiver { stream_id, payload } => {
            assert(bytes.skip(2) =~= payload);
        },
        WireForm::StreamData { stream_id, payload } => {
            assert(bytes.skip(2) =~= payload);
        },
        WireForm::StreamEnd { stream_id } => {},
        WireForm::CancelSender { stream_id } => {},
        WireForm::StreamRequestData { stream_id, count } => {},
        WireForm::ControlMessage { payload } => {
            assert(bytes.skip(1) =~= payload);
        },
    }
}

} // verus!
