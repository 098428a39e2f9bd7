//! Messages exchanged between a session server and its attached clients,
//! and their byte format.

use vstd::prelude::*;
use vstd::slice::{slice_subrange, slice_to_vec};

verus! {

/// IPC message types.
#[derive(Debug, Clone)]
pub enum IpcMessage {
    /// Client wants to attach to the session.
    Attach,
    /// Server acknowledges the attach.
    AttachAck { cols: u16, rows: u16 },
    /// Client is detaching.
    Detach,
    /// Terminal output data.
    Output(Vec<u8>),
    /// Terminal input data.
    Input(Vec<u8>),
    /// Resize request.
    Resize { cols: u16, rows: u16 },
    /// The session ended.
    SessionEnd,
}

/// An IPC message as a value, its payloads as sequences.
pub enum IpcMessageModel {
    Attach,
    AttachAck { cols: u16, rows: u16 },
    Detach,
    Output(Seq<u8>),
    Input(Seq<u8>),
    Resize { cols: u16, rows: u16 },
    SessionEnd,
}

impl View for IpcMessage {
    type V = IpcMessageModel;

    open spec fn view(&self) -> IpcMessageModel {
        match self {
            IpcMessage::Attach => IpcMessageModel::Attach,
            IpcMessage::AttachAck { cols, rows } => IpcMessageModel::AttachAck { cols: *cols, rows: *rows },
            IpcMessage::Detach => IpcMessageModel::Detach,
            IpcMessage::Output(d) => IpcMessageModel::Output(d@),
            IpcMessage::Input(d) => IpcMessageModel::Input(d@),
            IpcMessage::Resize { cols, rows } => IpcMessageModel::Resize { cols: *cols, rows: *rows },
            IpcMessage::SessionEnd => IpcMessageModel::SessionEnd,
        }
    }
}

/// Little-endian bytes of a 16-bit value.
pub open spec fn le16(v: u16) -> Seq<u8> {
    seq![(v % 256) as u8, (v / 256) as u8]
}

/// Little-endian bytes of a 32-bit value.
pub open spec fn le32(v: u32) -> Seq<u8> {
    seq![(v % 256) as u8, ((v / 256) % 256) as u8, ((v / 65536) % 256) as u8, (v / 16777216) as u8]
}

/// The 16-bit value of two little-endian bytes.
pub open spec fn read_le16(a: u8, b: u8) -> u16 {
    (a + b * 256) as u16
}

/// The 32-bit value of four little-endian bytes.
pub open spec fn read_le32(a: u8, b: u8, c: u8, d: u8) -> u32 {
    (a + b * 256 + c * 65536 + d * 16777216) as u32
}

/// The bytes of a message: a tag byte, then its fields little-endian; a
/// payload is preceded by its length as 32 bits (the length truncated to 32
/// bits, as the cast does).
pub open spec fn encode_message(m: IpcMessageModel) -> Seq<u8> {
    match m {
        IpcMessageModel::Attach => seq![0x01u8],
        IpcMessageModel::AttachAck { cols, rows } => seq![0x02u8] + le16(cols) + le16(rows),
        IpcMessageModel::Detach => seq![0x03u8],
        IpcMessageModel::Output(d) => seq![0x04u8] + le32(d.len() as u32) + d,
        IpcMessageModel::Input(d) => seq![0x05u8] + le32(d.len() as u32) + d,
        IpcMessageModel::Resize { cols, rows } => seq![0x06u8] + le16(cols) + le16(rows),
        IpcMessageModel::SessionEnd => seq![0x07u8],
    }
}

/// The message at the start of some bytes; bytes after it are ignored.
/// There is none for no bytes, an unknown tag, or too few bytes.
pub open spec fn decode_message(d: Seq<u8>) -> Option<IpcMessageModel> {
    if d.len() == 0 {
        None
    } else if d[0] == 0x01 {
        Some(IpcMessageModel::Attach)
    } else if d[0] == 0x03 {
        Some(IpcMessageModel::Detach)
    } else if d[0] == 0x07 {
        Some(IpcMessageModel::SessionEnd)
    } else if d.len() < 5 {
        None
    } else if d[0] == 0x02 {
        Some(IpcMessageModel::AttachAck { cols: read_le16(d[1], d[2]), rows: read_le16(d[3], d[4]) })
    } else if d[0] == 0x06 {
        Some(IpcMessageModel::Resize { cols: read_le16(d[1], d[2]), rows: read_le16(d[3], d[4]) })
    } else if d[0] == 0x04 || d[0] == 0x05 {
        let len = read_le32(d[1], d[2], d[3], d[4]) as int;
        if d.len() >= 5 + len {
            let payload = d.subrange(5, 5 + len);
            if d[0] == 0x04 {
                Some(IpcMessageModel::Output(payload))
            } else {
                Some(IpcMessageModel::Input(payload))
            }
        } else {
            None
        }
    } else {
        None
    }
}

fn push_le16(buf: &mut Vec<u8>, v: u16)
    ensures
        final(buf)@ == old(buf)@ + le16(v),
{
    buf.push((v % 256) as u8);
    buf.push((v / 256) as u8);
    proof {
        assert(final(buf)@ =~= old(buf)@ + le16(v));
    }
}

fn push_le32(buf: &mut Vec<u8>, v: u32)
    ensures
        final(buf)@ == old(buf)@ + le32(v),
{
    buf.push((v % 256) as u8);
    buf.push(((v / 256) % 256) as u8);
    buf.push(((v / 65536) % 256) as u8);
    buf.push((v / 16777216) as u8);
    proof {
        assert(final(buf)@ =~= old(buf)@ + le32(v));
    }
}

fn push_all(buf: &mut Vec<u8>, data: &[u8])
    ensures
        final(buf)@ == old(buf)@ + data@,
{
    let mut i: usize = 0;
    while i < data.len()
        invariant
            i <= data@.len(),
            buf@ == old(buf)@ + data@.subrange(0, i as int),
        decreases data@.len() - i,
    {
        buf.push(data[i]);
        i += 1;
        proof {
            assert(buf@ =~= old(buf)@ + data@.subrange(0, i as int));
        }
    }
    proof {
        assert(data@.subrange(0, data@.len() as int) =~= data@);
    }
}

fn le16_at(data: &[u8], i: usize) -> (v: u16)
    requires
        i + 1 < data@.len(),
    ensures
        v == read_le16(data@[i as int], data@[i as int + 1]),
{
    data[i] as u16 + (data[i + 1] as u16) * 256
}

fn le32_at(data: &[u8], i: usize) -> (v: u32)
    requires
        i + 3 < data@.len(),
    ensures
        v == read_le32(data@[i as int], data@[i as int + 1], data@[i as int + 2], data@[i as int + 3]),
{
    data[i] as u32 + (data[i + 1] as u32) * 256 + (data[i + 2] as u32) * 65536 + (data[i + 3] as u32) * 16777216
}

impl IpcMessage {
    /// Serialize the message to bytes.
    pub fn to_bytes(&self) -> (buf: Vec<u8>)
        ensures
            buf@ == encode_message(self@),
    {
        let mut buf: Vec<u8> = Vec::new();
        match self {
            IpcMessage::Attach => {
                buf.push(0x01);
            },
            IpcMessage::AttachAck { cols, rows } => {
                buf.push(0x02);
                push_le16(&mut buf, *cols);
                push_le16(&mut buf, *rows);
            },
            IpcMessage::Detach => {
                buf.push(0x03);
            },
            IpcMessage::Output(data) => {
                buf.push(0x04);
                push_le32(&mut buf, data.len() as u32);
                push_all(&mut buf, data.as_slice());
            },
            IpcMessage::Input(data) => {
                buf.push(0x05);
                push_le32(&mut buf, data.len() as u32);
                push_all(&mut buf, data.as_slice());
            },
            IpcMessage::Resize { cols, rows } => {
                buf.push(0x06);
                push_le16(&mut buf, *cols);
                push_le16(&mut buf, *rows);
            },
            IpcMessage::SessionEnd => {
                buf.push(0x07);
            },
        }
        proof {
            assert(buf@ =~= encode_message(self@));
        }
        buf
    }

    /// Deserialize the message at the start of `data`.
    pub fn from_bytes(data: &[u8]) -> (m: Option<IpcMessage>)
        ensures
            match m {
                Some(msg) => decode_message(data@) == Some(msg@),
                None => decode_message(data@).is_none(),
            },
    {
        if data.len() == 0 {
            return None;
        }
        let tag = data[0];
        if tag == 0x01 {
            Some(IpcMessage::Attach)
        } else if tag == 0x03 {
            Some(IpcMessage::Detach)
        } else if tag == 0x07 {
            Some(IpcMessage::SessionEnd)
        } else if data.len() < 5 {
            None
        } else if tag == 0x02 {
            Some(IpcMessage::AttachAck { cols: le16_at(data, 1), rows: le16_at(data, 3) })
        } else if tag == 0x06 {
            Some(IpcMessage::Resize { cols: le16_at(data, 1), rows: le16_at(data, 3) })
        } else if tag == 0x04 || tag == 0x05 {
            let len = le32_at(data, 1);
            if (data.len() - 5) as u64 >= len as u64 {
                let end = 5 + len as usize;
                let payload = slice_to_vec(slice_subrange(data, 5, end));
                if tag == 0x04 {
                    Some(IpcMessage::Output(payload))
                } else {
                    Some(IpcMessage::Input(payload))
                }
            } else {
                None
            }
        } else {
            None
        }
    }
}

proof fn lemma_le16_roundtrip(v: u16)
    ensures
        read_le16(le16(v)[0], le16(v)[1]) == v,
{
    assert(((v % 256) as u8) + ((v / 256) as u8) * 256 == v) by (nonlinear_arith);
}

proof fn lemma_le32_roundtrip(v: u32)
    ensures
        read_le32(le32(v)[0], le32(v)[1], le32(v)[2], le32(v)[3]) == v,
{
    assert(((v % 256) as u8) + (((v / 256) % 256) as u8) * 256 + (((v / 65536) % 256) as u8) * 65536
        + ((v / 16777216) as u8) * 16777216 == v) by (nonlinear_arith);
}

/// Decoding the bytes of a message gives the message back, for every
/// message whose payload length fits in the 32-bit length field; bytes that
/// follow it do not change that.
pub proof fn law_message_roundtrip(m: IpcMessageModel, rest: Seq<u8>)
    requires
        m matches IpcMessageModel::Output(d) ==> d.len() <= u32::MAX,
        m matches IpcMessageModel::Input(d) ==> d.len() <= u32::MAX,
    ensures
        decode_message(encode_message(m) + rest) == Some(m),
{
    let e = encode_message(m) + rest;
    match m {
        IpcMessageModel::AttachAck { cols, rows } => {
            lemma_le16_roundtrip(cols);
            lemma_le16_roundtrip(rows);
        },
        IpcMessageModel::Resize { cols, rows } => {
            lemma_le16_roundtrip(cols);
            lemma_le16_roundtrip(rows);
        },
        IpcMessageModel::Output(d) => {
            lemma_le32_roundtrip(d.len() as u32);
            assert(e.subrange(5, 5 + d.len() as int) =~= d);
        },
        IpcMessageModel::Input(d) => {
            lemma_le32_roundtrip(d.len() as u32);
            assert(e.subrange(5, 5 + d.len() as int) =~= d);
        },
        _ => {},
    }
}

} // verus!

verus! {

impl IpcMessage {
    /// The message as sent on a session socket: the length of its bytes as
    /// 32 bits little-endian, then the bytes.
    pub fn frame(&self) -> (f: Vec<u8>)
        ensures
            f@ == le32(encode_message(self@).len() as u32) + encode_message(self@),
    {
        let bytes = self.to_bytes();
        let mut f: Vec<u8> = Vec::new();
        push_le32(&mut f, bytes.len() as u32);
        push_all(&mut f, bytes.as_slice());
        f
    }
}

/// The length a frame header announces.
pub fn frame_length(header: &[u8; 4]) -> (n: u32)
    ensures
        n == read_le32(header[0], header[1], header[2], header[3]),
{
    header[0] as u32 + (header[1] as u32) * 256 + (header[2] as u32) * 65536 + (header[3] as u32) * 16777216
}

/// How an attach request was answered.
#[derive(Debug, Clone, Copy, PartialEq, Eq, Structural)]
pub enum AttachStart {
    /// Attached to a session of the size.
    Attached { cols: u16, rows: u16 },
    /// The session has ended.
    Ended,
    /// Anything else: attaching failed.
    Failed,
}

/// How an attach request is answered by the reply received.
pub open spec fn attach_start_of(reply: Option<IpcMessageModel>) -> AttachStart {
    match reply {
        Some(IpcMessageModel::AttachAck { cols, rows }) => AttachStart::Attached { cols, rows },
        Some(IpcMessageModel::SessionEnd) => AttachStart::Ended,
        _ => AttachStart::Failed,
    }
}

/// What the reply to an attach request means.
pub fn attach_start(reply: &Option<IpcMessage>) -> (s: AttachStart)
    ensures
        s == attach_start_of(match reply { Some(m) => Some(m@), None => None }),
{
    match reply {
        Some(IpcMessage::AttachAck { cols, rows }) => AttachStart::Attached { cols: *cols, rows: *rows },
        Some(IpcMessage::SessionEnd) => AttachStart::Ended,
        _ => AttachStart::Failed,
    }
}

/// What happens while attached.
pub enum AttachEvent {
    /// The user typed these bytes.
    Typed(Vec<u8>),
    /// The user's input ended.
    InputClosed,
    /// The session sent a message.
    Received(IpcMessage),
}

/// What an attached client does next.
pub enum AttachAction {
    /// Send the message to the session.
    Send(IpcMessage),
    /// Show the session's output.
    Show(Vec<u8>),
    /// The session changed its size.
    Resized { cols: u16, rows: u16 },
    /// The session ended: say so and stop.
    SessionEnded,
    /// Stop.
    Stop,
    /// Nothing to do.
    Continue,
}

/// The decision for each event: typed bytes go to the session as input, the
/// end of input stops, output is shown, a resize is noted, the session's end
/// stops with a notice, other messages are ignored.
pub open spec fn attach_decision(e: AttachEvent, a: AttachAction) -> bool {
    match e {
        AttachEvent::Typed(d) => a matches AttachAction::Send(m) && m@ == IpcMessageModel::Input(d@),
        AttachEvent::InputClosed => a is Stop,
        AttachEvent::Received(m) => match m@ {
            IpcMessageModel::Output(d) => a matches AttachAction::Show(o) && o@ == d,
            IpcMessageModel::SessionEnd => a is SessionEnded,
            IpcMessageModel::Resize { cols, rows } => a == (AttachAction::Resized { cols, rows }),
            _ => a is Continue,
        },
    }
}

/// What an attached client does with an event.
pub fn attach_step(e: AttachEvent) -> (a: AttachAction)
    ensures
        attach_decision(e, a),
{
    match e {
        AttachEvent::Typed(d) => AttachAction::Send(IpcMessage::Input(d)),
        AttachEvent::InputClosed => AttachAction::Stop,
        AttachEvent::Received(m) => match m {
            IpcMessage::Output(d) => AttachAction::Show(d),
            IpcMessage::SessionEnd => AttachAction::SessionEnded,
            IpcMessage::Resize { cols, rows } => AttachAction::Resized { cols, rows },
            _ => AttachAction::Continue,
        },
    }
}

} // verus!
