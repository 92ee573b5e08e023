//! Frame protocol used on every tunnel transport.
//!
//! ## Wire format
//!
//! ```text
//! +----------------+----------+-------------------------+
//! | u32 BE length  | u8 type  | payload (length-1 bytes)|
//! +----------------+----------+-------------------------+
//! ```
//!
//! `length` counts the type byte **plus** the payload (so it is `>= 1`). A
//! frame whose `length` exceeds [`MAX_FRAME_SIZE`] is rejected with
//! [`FrameError::TooLarge`] and the connection should be dropped.
//!
//! Type bytes:
//!
//! | type | variant       | payload                                           |
//! |------|---------------|---------------------------------------------------|
//! | 1    | `Hello`       | postcard `{ version: u16, name: String }`         |
//! | 2    | `Config`      | postcard [`TunnelConfig`]                         |
//! | 3    | `IpPacket`    | raw IPv4/IPv6 packet bytes                        |
//! | 4    | `Ping`        | 8 bytes big-endian `u64`                          |
//! | 5    | `Pong`        | 8 bytes big-endian `u64`                          |
//! | 6    | `Bye`         | empty                                             |
//! | 7    | `SpeedChunk`  | raw filler bytes of a link speed burst            |
//! | 8    | `SpeedDone`   | 8 bytes big-endian `u64`: bytes sent in the burst |
//! | 9    | `SpeedResult` | two 8-byte big-endian `u64`: bytes, nanoseconds   |
//!
//! Handshake: the guest sends `Hello`, the host answers `Hello` followed by
//! `Config`; afterwards both sides exchange `IpPacket`, `Ping`/`Pong` and
//! finally `Bye`.

use crate::buffer;
use crate::net::Ipv4Addr;
use crate::text;
use crate::wire;
use crate::DEFAULT_MTU;
use bytes::{Bytes, BytesMut};
use vstd::prelude::*;

verus! {

/// Maximum accepted value of the length field (type byte + payload).
pub const MAX_FRAME_SIZE: usize = 65536;

/// Size of the length prefix in bytes.
pub const HEADER_LEN: usize = 4;

pub const TYPE_HELLO: u8 = 1;

pub const TYPE_CONFIG: u8 = 2;

pub const TYPE_IP_PACKET: u8 = 3;

pub const TYPE_PING: u8 = 4;

pub const TYPE_PONG: u8 = 5;

pub const TYPE_BYE: u8 = 6;

pub const TYPE_SPEED_CHUNK: u8 = 7;

pub const TYPE_SPEED_DONE: u8 = 8;

pub const TYPE_SPEED_RESULT: u8 = 9;

/// Tunnel addressing handed from host to guest in the `Config` frame.
#[derive(Clone, Copy, Debug, PartialEq, Eq, Structural)]
pub struct TunnelConfig {
    /// Address the guest assigns to its TUN interface.
    pub guest_ip: Ipv4Addr,
    /// Gateway (the host's virtual address inside the tunnel).
    pub gateway_ip: Ipv4Addr,
    /// Prefix length of the tunnel subnet.
    pub prefix_len: u8,
    /// DNS server the guest should use (normally the gateway).
    pub dns: Ipv4Addr,
    /// MTU of the TUN interface.
    pub mtu: u16,
}

impl Default for TunnelConfig {
    /// `10.77.0.2/24`, gateway and DNS `10.77.0.1`, MTU [`DEFAULT_MTU`].
    fn default() -> (r: Self)
        ensures
            r == (TunnelConfig {
                guest_ip: Ipv4Addr(10, 77, 0, 2),
                gateway_ip: Ipv4Addr(10, 77, 0, 1),
                prefix_len: 24,
                dns: Ipv4Addr(10, 77, 0, 1),
                mtu: DEFAULT_MTU,
            }),
    {
        TunnelConfig {
            guest_ip: Ipv4Addr::new(10, 77, 0, 2),
            gateway_ip: Ipv4Addr::new(10, 77, 0, 1),
            prefix_len: 24,
            dns: Ipv4Addr::new(10, 77, 0, 1),
            mtu: DEFAULT_MTU,
        }
    }
}

/// A single protocol frame.
#[derive(Clone, Debug, PartialEq, Eq)]
pub enum Frame {
    /// Handshake. `version` must equal [`crate::PROTOCOL_VERSION`]; `name` is a
    /// human readable peer name (hostname).
    Hello { version: u16, name: String },
    /// Tunnel configuration, sent by the host after `Hello`.
    Config(TunnelConfig),
    /// A raw IP packet (IPv4 or IPv6) as read from / to be written to the TUN.
    IpPacket(Bytes),
    /// Keep-alive request carrying an opaque token (usually a timestamp).
    Ping(u64),
    /// Keep-alive reply echoing the `Ping` token.
    Pong(u64),
    /// Orderly shutdown notice.
    Bye,
    /// Filler of a link speed burst.
    SpeedChunk(Bytes),
    /// End of a burst: how many filler bytes its sender wrote.
    SpeedDone(u64),
    /// What the receiver of a burst measured.
    SpeedResult { bytes: u64, nanos: u64 },
}

/// What a frame says: a [`Frame`] with its buffers taken as byte sequences.
pub enum FrameView {
    Hello { version: u16, name: Seq<char> },
    Config(TunnelConfig),
    IpPacket(Seq<u8>),
    Ping(u64),
    Pong(u64),
    Bye,
    SpeedChunk(Seq<u8>),
    SpeedDone(u64),
    SpeedResult { bytes: u64, nanos: u64 },
}

impl View for Frame {
    type V = FrameView;

    open spec fn view(&self) -> FrameView {
        match *self {
            Frame::Hello { version, name } => FrameView::Hello { version, name: name@ },
            Frame::Config(c) => FrameView::Config(c),
            Frame::IpPacket(b) => FrameView::IpPacket(buffer::bytes_of(b)),
            Frame::Ping(t) => FrameView::Ping(t),
            Frame::Pong(t) => FrameView::Pong(t),
            Frame::Bye => FrameView::Bye,
            Frame::SpeedChunk(b) => FrameView::SpeedChunk(buffer::bytes_of(b)),
            Frame::SpeedDone(n) => FrameView::SpeedDone(n),
            Frame::SpeedResult { bytes, nanos } => FrameView::SpeedResult { bytes, nanos },
        }
    }
}

/// Which frame it is, without its contents.
#[derive(Clone, Copy, Debug, PartialEq, Eq, Structural)]
pub enum FrameKind {
    Hello,
    Config,
    IpPacket,
    Ping,
    Pong,
    Bye,
    SpeedChunk,
    SpeedDone,
    SpeedResult,
}

impl FrameView {
    /// Which frame it is.
    pub open spec fn kind(self) -> FrameKind {
        match self {
            FrameView::Hello { .. } => FrameKind::Hello,
            FrameView::Config(_) => FrameKind::Config,
            FrameView::IpPacket(_) => FrameKind::IpPacket,
            FrameView::Ping(_) => FrameKind::Ping,
            FrameView::Pong(_) => FrameKind::Pong,
            FrameView::Bye => FrameKind::Bye,
            FrameView::SpeedChunk(_) => FrameKind::SpeedChunk,
            FrameView::SpeedDone(_) => FrameKind::SpeedDone,
            FrameView::SpeedResult { .. } => FrameKind::SpeedResult,
        }
    }
}

impl Frame {
    /// Which frame it is.
    pub fn kind(&self) -> (r: FrameKind)
        ensures
            r == self@.kind(),
    {
        match self {
            Frame::Hello { .. } => FrameKind::Hello,
            Frame::Config(_) => FrameKind::Config,
            Frame::IpPacket(_) => FrameKind::IpPacket,
            Frame::Ping(_) => FrameKind::Ping,
            Frame::Pong(_) => FrameKind::Pong,
            Frame::Bye => FrameKind::Bye,
            Frame::SpeedChunk(_) => FrameKind::SpeedChunk,
            Frame::SpeedDone(_) => FrameKind::SpeedDone,
            Frame::SpeedResult { .. } => FrameKind::SpeedResult,
        }
    }
}

impl FrameKind {
    /// The name of the frame.
    pub open spec fn spec_name(self) -> Seq<char> {
        match self {
            FrameKind::Hello => "Hello"@,
            FrameKind::Config => "Config"@,
            FrameKind::IpPacket => "IpPacket"@,
            FrameKind::Ping => "Ping"@,
            FrameKind::Pong => "Pong"@,
            FrameKind::Bye => "Bye"@,
            FrameKind::SpeedChunk => "SpeedChunk"@,
            FrameKind::SpeedDone => "SpeedDone"@,
            FrameKind::SpeedResult => "SpeedResult"@,
        }
    }

    /// The name of the frame.
    pub fn name(&self) -> (r: &'static str)
        ensures
            r@ == self.spec_name(),
    {
        match self {
            FrameKind::Hello => "Hello",
            FrameKind::Config => "Config",
            FrameKind::IpPacket => "IpPacket",
            FrameKind::Ping => "Ping",
            FrameKind::Pong => "Pong",
            FrameKind::Bye => "Bye",
            FrameKind::SpeedChunk => "SpeedChunk",
            FrameKind::SpeedDone => "SpeedDone",
            FrameKind::SpeedResult => "SpeedResult",
        }
    }
}

/// Errors produced by [`FrameCodec`].
#[derive(Debug)]
pub enum FrameError {
    /// Frame length field exceeds [`MAX_FRAME_SIZE`].
    TooLarge(usize),
    /// Frame has a zero length field (no type byte).
    Empty,
    /// Unknown type byte.
    UnknownType(u8),
    /// Control payload could not be (de)serialized.
    Payload { kind: u8, source: postcard::Error },
    /// Control payload has an unexpected fixed length (e.g. `Ping` not 8 bytes).
    PayloadLength { kind: u8, len: usize },
}

/// A [`FrameError`] without the details of the payload reader.
pub enum Fault {
    TooLarge(nat),
    Empty,
    UnknownType(u8),
    Payload(u8),
    PayloadLength { kind: u8, len: nat },
}

impl View for FrameError {
    type V = Fault;

    open spec fn view(&self) -> Fault {
        match *self {
            FrameError::TooLarge(n) => Fault::TooLarge(n as nat),
            FrameError::Empty => Fault::Empty,
            FrameError::UnknownType(k) => Fault::UnknownType(k),
            FrameError::Payload { kind, source } => Fault::Payload(kind),
            FrameError::PayloadLength { kind, len } => Fault::PayloadLength { kind, len: len as nat },
        }
    }
}

impl FrameError {
    /// The error in words; `detail` is what the payload reader said.
    pub open spec fn spec_text(self, detail: Seq<char>) -> Seq<char> {
        match self {
            FrameError::TooLarge(n) => "frame too large: "@ + text::dec(n as nat) + " bytes (max "@
                + text::dec(MAX_FRAME_SIZE as nat) + ")"@,
            FrameError::Empty => "empty frame (length field is 0)"@,
            FrameError::UnknownType(kind) => "unknown frame type "@ + text::dec(kind as nat),
            FrameError::Payload { kind, .. } => "invalid payload for frame type "@ + text::dec(
                kind as nat,
            ) + ": "@ + detail,
            FrameError::PayloadLength { kind, len } => "invalid payload length "@ + text::dec(
                len as nat,
            ) + " for frame type "@ + text::dec(kind as nat),
        }
    }

    /// The error in words; `detail` is what the payload reader said.
    pub fn text(&self, detail: &str) -> (r: String)
        ensures
            r@ == self.spec_text(detail@),
    {
        match self {
            FrameError::TooLarge(n) => {
                let size = text::decimal(*n as u64);
                let mut s = text::cat3("frame too large: ", size.as_str(), " bytes (max ");
                s.append(text::decimal(MAX_FRAME_SIZE as u64).as_str());
                s.append(")");
                s
            },
            FrameError::Empty => "empty frame (length field is 0)".to_owned(),
            FrameError::UnknownType(kind) => text::cat2(
                "unknown frame type ",
                text::decimal(*kind as u64).as_str(),
            ),
            FrameError::Payload { kind, .. } => {
                let kind = text::decimal(*kind as u64);
                let mut s = text::cat3("invalid payload for frame type ", kind.as_str(), ": ");
                s.append(detail);
                s
            },
            FrameError::PayloadLength { kind, len } => {
                let len = text::decimal(*len as u64);
                let mut s = text::cat3("invalid payload length ", len.as_str(), " for frame type ");
                s.append(text::decimal(*kind as u64).as_str());
                s
            },
        }
    }
}

/// The type byte of a frame.
pub open spec fn kind_of(f: FrameView) -> u8 {
    match f {
        FrameView::Hello { .. } => TYPE_HELLO,
        FrameView::Config(_) => TYPE_CONFIG,
        FrameView::IpPacket(_) => TYPE_IP_PACKET,
        FrameView::Ping(_) => TYPE_PING,
        FrameView::Pong(_) => TYPE_PONG,
        FrameView::Bye => TYPE_BYE,
        FrameView::SpeedChunk(_) => TYPE_SPEED_CHUNK,
        FrameView::SpeedDone(_) => TYPE_SPEED_DONE,
        FrameView::SpeedResult { .. } => TYPE_SPEED_RESULT,
    }
}

/// The payload bytes of a frame.
pub open spec fn payload_of(f: FrameView) -> Seq<u8> {
    match f {
        FrameView::Hello { version, name } => wire::hello_form(version, name),
        FrameView::Config(c) => wire::config_form(
            c.guest_ip.spec_octets(),
            c.gateway_ip.spec_octets(),
            c.prefix_len,
            c.dns.spec_octets(),
            c.mtu,
        ),
        FrameView::IpPacket(b) => b,
        FrameView::Ping(t) => buffer::be_bytes(t as nat, 8),
        FrameView::Pong(t) => buffer::be_bytes(t as nat, 8),
        FrameView::Bye => Seq::empty(),
        FrameView::SpeedChunk(b) => b,
        FrameView::SpeedDone(n) => buffer::be_bytes(n as nat, 8),
        FrameView::SpeedResult { bytes, nanos } => buffer::be_bytes(bytes as nat, 8)
            + buffer::be_bytes(nanos as nat, 8),
    }
}

/// The bytes of a frame on the wire.
pub open spec fn wire_of(f: FrameView) -> Seq<u8> {
    buffer::be_bytes(1 + payload_of(f).len(), 4).push(kind_of(f)) + payload_of(f)
}

/// A frame that the length field can announce.
pub open spec fn fits(f: FrameView) -> bool {
    1 + payload_of(f).len() <= MAX_FRAME_SIZE
}

/// What a type byte and a payload stand for.
pub open spec fn meaning(kind: u8, p: Seq<u8>) -> Result<FrameView, Fault> {
    let wrong_length = Fault::PayloadLength { kind, len: p.len() };
    if kind == TYPE_HELLO {
        match wire::hello_at(p) {
            Some((version, name)) => Ok(FrameView::Hello { version, name }),
            None => Err(Fault::Payload(kind)),
        }
    } else if kind == TYPE_CONFIG {
        match wire::config_at(p) {
            Some((b, mtu)) => Ok(
                FrameView::Config(
                    TunnelConfig {
                        guest_ip: Ipv4Addr(b[0], b[1], b[2], b[3]),
                        gateway_ip: Ipv4Addr(b[4], b[5], b[6], b[7]),
                        prefix_len: b[8],
                        dns: Ipv4Addr(b[9], b[10], b[11], b[12]),
                        mtu,
                    },
                ),
            ),
            None => Err(Fault::Payload(kind)),
        }
    } else if kind == TYPE_IP_PACKET {
        Ok(FrameView::IpPacket(p))
    } else if kind == TYPE_PING {
        if p.len() == 8 {
            Ok(FrameView::Ping(buffer::be_value(p) as u64))
        } else {
            Err(wrong_length)
        }
    } else if kind == TYPE_PONG {
        if p.len() == 8 {
            Ok(FrameView::Pong(buffer::be_value(p) as u64))
        } else {
            Err(wrong_length)
        }
    } else if kind == TYPE_BYE {
        if p.len() == 0 {
            Ok(FrameView::Bye)
        } else {
            Err(wrong_length)
        }
    } else if kind == TYPE_SPEED_CHUNK {
        Ok(FrameView::SpeedChunk(p))
    } else if kind == TYPE_SPEED_DONE {
        if p.len() == 8 {
            Ok(FrameView::SpeedDone(buffer::be_value(p) as u64))
        } else {
            Err(wrong_length)
        }
    } else if kind == TYPE_SPEED_RESULT {
        if p.len() == 16 {
            Ok(
                FrameView::SpeedResult {
                    bytes: buffer::be_value(p.take(8)) as u64,
                    nanos: buffer::be_value(p.skip(8)) as u64,
                },
            )
        } else {
            Err(wrong_length)
        }
    } else {
        Err(Fault::UnknownType(kind))
    }
}

/// The length field at the start of `b`.
pub open spec fn length_field(b: Seq<u8>) -> nat {
    buffer::be_value(b.take(HEADER_LEN as int))
}

/// What reading one frame from the front of `b` gives, and the bytes that are
/// left: nothing is taken until a whole frame is there, nor when the length
/// field is unusable; a whole frame is taken even if its payload is not valid.
pub open spec fn read_one(b: Seq<u8>) -> (Result<Option<FrameView>, Fault>, Seq<u8>) {
    if b.len() < HEADER_LEN {
        (Ok(None), b)
    } else if length_field(b) == 0 {
        (Err(Fault::Empty), b)
    } else if length_field(b) > MAX_FRAME_SIZE {
        (Err(Fault::TooLarge(length_field(b))), b)
    } else if b.len() < HEADER_LEN + length_field(b) {
        (Ok(None), b)
    } else {
        let end = HEADER_LEN + length_field(b);
        let rest = b.skip(end as int);
        match meaning(b[HEADER_LEN as int], b.subrange(HEADER_LEN + 1, end as int)) {
            Ok(f) => (Ok(Some(f)), rest),
            Err(e) => (Err(e), rest),
        }
    }
}

/// The outcome of a read, its buffers taken as byte sequences.
pub open spec fn outcome(r: Result<Option<Frame>, FrameError>) -> Result<Option<FrameView>, Fault> {
    match r {
        Ok(Some(f)) => Ok(Some(f@)),
        Ok(None) => Ok(None),
        Err(e) => Err(e@),
    }
}

/// Stateless codec implementing the frame format described in the module docs.
#[derive(Debug, Clone, Copy)]
pub struct FrameCodec;

impl Default for FrameCodec {
    fn default() -> (r: Self)
        ensures
            r == FrameCodec,
    {
        FrameCodec
    }
}

impl FrameCodec {
    /// Create a codec.
    pub fn new() -> (r: Self)
        ensures
            r == FrameCodec,
    {
        FrameCodec
    }

    /// The type byte and the payload of a frame.
    pub fn encode_payload(item: &Frame) -> (r: Result<(u8, Bytes), FrameError>)
        ensures
            r is Ok,
            r->Ok_0.0 == kind_of(item@),
            buffer::bytes_of(r->Ok_0.1) == payload_of(item@),
    {
        match item {
            Frame::Hello { version, name } => match wire::write_hello(*version, name.as_str()) {
                Ok(v) => Ok((TYPE_HELLO, buffer::bytes_from_vec(v))),
                Err(source) => Err(FrameError::Payload { kind: TYPE_HELLO, source }),
            },
            Frame::Config(c) => match wire::write_config(
                c.guest_ip.octets(),
                c.gateway_ip.octets(),
                c.prefix_len,
                c.dns.octets(),
                c.mtu,
            ) {
                Ok(v) => Ok((TYPE_CONFIG, buffer::bytes_from_vec(v))),
                Err(source) => Err(FrameError::Payload { kind: TYPE_CONFIG, source }),
            },
            Frame::IpPacket(b) => Ok((TYPE_IP_PACKET, b.clone())),
            Frame::Ping(t) => Ok((TYPE_PING, buffer::bytes_from_vec(buffer::u64_to_be(*t)))),
            Frame::Pong(t) => Ok((TYPE_PONG, buffer::bytes_from_vec(buffer::u64_to_be(*t)))),
            Frame::Bye => Ok((TYPE_BYE, buffer::bytes_from_vec(Vec::new()))),
            Frame::SpeedChunk(b) => Ok((TYPE_SPEED_CHUNK, b.clone())),
            Frame::SpeedDone(n) => Ok(
                (TYPE_SPEED_DONE, buffer::bytes_from_vec(buffer::u64_to_be(*n))),
            ),
            Frame::SpeedResult { bytes, nanos } => {
                let mut v = buffer::u64_to_be(*bytes);
                let mut tail = buffer::u64_to_be(*nanos);
                v.append(&mut tail);
                Ok((TYPE_SPEED_RESULT, buffer::bytes_from_vec(v)))
            },
        }
    }

    /// The frame that a type byte and a payload stand for.
    pub fn decode_payload(kind: u8, payload: Bytes) -> (r: Result<Frame, FrameError>)
        ensures
            match r {
                Ok(f) => meaning(kind, buffer::bytes_of(payload)) == Ok::<FrameView, Fault>(f@),
                Err(e) => meaning(kind, buffer::bytes_of(payload)) == Err::<FrameView, Fault>(e@),
            },
    {
        let ghost p = buffer::bytes_of(payload);
        let len: usize = buffer::bytes_len(&payload);
        proof {
            buffer::be_value_bound(p);
            buffer::be_value_bound(p.take(8));
            buffer::be_value_bound(p.skip(8));
            reveal_with_fuel(buffer::be_limit, 9);
        }
        if kind == TYPE_HELLO {
            match wire::read_hello(buffer::bytes_slice(&payload)) {
                Ok((version, name)) => Ok(Frame::Hello { version, name }),
                Err(source) => Err(FrameError::Payload { kind, source }),
            }
        } else if kind == TYPE_CONFIG {
            match wire::read_config(buffer::bytes_slice(&payload)) {
                Ok((guest, gateway, prefix_len, dns, mtu)) => {
                    proof {
                        let b = (guest@ + gateway@).push(prefix_len) + dns@;
                        assert(b[0] == guest@[0] && b[1] == guest@[1] && b[2] == guest@[2] && b[3]
                            == guest@[3]);
                        assert(b[4] == gateway@[0] && b[5] == gateway@[1] && b[6] == gateway@[2]
                            && b[7] == gateway@[3]);
                        assert(b[9] == dns@[0] && b[10] == dns@[1] && b[11] == dns@[2] && b[12]
                            == dns@[3]);
                    }
                    Ok(
                        Frame::Config(
                            TunnelConfig {
                                guest_ip: Ipv4Addr(guest[0], guest[1], guest[2], guest[3]),
                                gateway_ip: Ipv4Addr(gateway[0], gateway[1], gateway[2], gateway[3]),
                                prefix_len,
                                dns: Ipv4Addr(dns[0], dns[1], dns[2], dns[3]),
                                mtu,
                            },
                        ),
                    )
                },
                Err(source) => Err(FrameError::Payload { kind, source }),
            }
        } else if kind == TYPE_IP_PACKET {
            Ok(Frame::IpPacket(payload))
        } else if kind == TYPE_PING || kind == TYPE_PONG {
            if len != 8 {
                return Err(FrameError::PayloadLength { kind, len });
            }
            let t: u64 = buffer::be_to_u64(buffer::bytes_slice(&payload));
            if kind == TYPE_PING {
                Ok(Frame::Ping(t))
            } else {
                Ok(Frame::Pong(t))
            }
        } else if kind == TYPE_BYE {
            if len != 0 {
                return Err(FrameError::PayloadLength { kind, len });
            }
            Ok(Frame::Bye)
        } else if kind == TYPE_SPEED_CHUNK {
            Ok(Frame::SpeedChunk(payload))
        } else if kind == TYPE_SPEED_DONE {
            if len != 8 {
                return Err(FrameError::PayloadLength { kind, len });
            }
            Ok(Frame::SpeedDone(buffer::be_to_u64(buffer::bytes_slice(&payload))))
        } else if kind == TYPE_SPEED_RESULT {
            if len != 16 {
                return Err(FrameError::PayloadLength { kind, len });
            }
            let (front, back) = buffer::bytes_slice(&payload).split_at(8);
            proof {
                assert(front@ =~= p.take(8));
                assert(back@ =~= p.skip(8));
            }
            Ok(
                Frame::SpeedResult {
                    bytes: buffer::be_to_u64(front),
                    nanos: buffer::be_to_u64(back),
                },
            )
        } else {
            Err(FrameError::UnknownType(kind))
        }
    }

    /// Reads one frame from the front of `src`. `Ok(None)` asks for more bytes.
    pub fn decode(&mut self, src: &mut BytesMut) -> (r: Result<Option<Frame>, FrameError>)
        ensures
            outcome(r) == read_one(buffer::buffered(*old(src))).0,
            buffer::buffered(*final(src)) == read_one(buffer::buffered(*old(src))).1,
    {
        let ghost b = buffer::buffered(*src);
        let have: usize = buffer::buf_len(src);
        if have < HEADER_LEN {
            buffer::buf_reserve(src, HEADER_LEN - have);
            return Ok(None);
        }
        let field: [u8; 4] = [
            buffer::buf_at(src, 0),
            buffer::buf_at(src, 1),
            buffer::buf_at(src, 2),
            buffer::buf_at(src, 3),
        ];
        let announced: u64 = buffer::be_to_u64(field.as_slice());
        proof {
            assert(field@ =~= b.take(4));
            buffer::be_value_bound(field@);
            reveal_with_fuel(buffer::be_limit, 5);
        }
        let len: usize = announced as usize;
        if len == 0 {
            return Err(FrameError::Empty);
        }
        if len > MAX_FRAME_SIZE {
            return Err(FrameError::TooLarge(len));
        }
        if have < HEADER_LEN + len {
            buffer::buf_reserve(src, HEADER_LEN + len - have);
            return Ok(None);
        }
        buffer::buf_advance(src, HEADER_LEN);
        let mut body = buffer::buf_split_to(src, len);
        let kind: u8 = buffer::buf_get_u8(&mut body);
        let payload = buffer::buf_freeze(body);
        proof {
            assert(buffer::bytes_of(payload) =~= b.subrange(5, 4 + len as int));
            assert(buffer::buffered(*src) =~= b.skip(4 + len as int));
        }
        match FrameCodec::decode_payload(kind, payload) {
            Ok(f) => Ok(Some(f)),
            Err(e) => Err(e),
        }
    }

    /// Appends the bytes of `item` to `dst`, or refuses a frame that is too
    /// long to be announced, and then writes nothing.
    pub fn encode(&mut self, item: Frame, dst: &mut BytesMut) -> (r: Result<(), FrameError>)
        requires
            buffer::buffered(*old(dst)).len() + HEADER_LEN + MAX_FRAME_SIZE <= isize::MAX,
            payload_of(item@).len() < usize::MAX,
        ensures
            r is Ok <==> fits(item@),
            r is Ok ==> buffer::buffered(*final(dst)) == buffer::buffered(*old(dst)) + wire_of(
                item@,
            ),
            r matches Err(e) ==> e@ == Fault::TooLarge(1 + payload_of(item@).len())
                && buffer::buffered(*final(dst)) == buffer::buffered(*old(dst)),
    {
        let ghost before = buffer::buffered(*dst);
        let (kind, payload) = match FrameCodec::encode_payload(&item) {
            Ok(x) => x,
            Err(e) => return Err(e),
        };
        let len: usize = 1 + buffer::bytes_len(&payload);
        if len > MAX_FRAME_SIZE {
            return Err(FrameError::TooLarge(len));
        }
        buffer::buf_reserve(dst, HEADER_LEN + len);
        buffer::buf_put_u32(dst, len as u32);
        proof {
            reveal_with_fuel(buffer::be_limit, 5);
            buffer::be_read_back(len as nat, 4);
        }
        buffer::buf_put_u8(dst, kind);
        buffer::buf_extend(dst, &payload);
        proof {
            assert(buffer::buffered(*dst) =~= before + wire_of(item@));
        }
        Ok(())
    }
}

/// The meaning of a frame's own type byte and payload is that frame.
pub proof fn payload_read_back(f: FrameView)
    requires
        fits(f),
    ensures
        meaning(kind_of(f), payload_of(f)) == Ok::<FrameView, Fault>(f),
{
    let p = payload_of(f);
    let none = Seq::<u8>::empty();
    assert(p + none =~= p);
    reveal_with_fuel(buffer::be_limit, 9);
    match f {
        FrameView::Hello { version, name } => {
            assert(p.len() >= vstd::utf8::encode_utf8(name).len());
            wire::hello_read_back(version, name, none);
        },
        FrameView::Config(c) => {
            wire::config_read_back(
                c.guest_ip.spec_octets(),
                c.gateway_ip.spec_octets(),
                c.prefix_len,
                c.dns.spec_octets(),
                c.mtu,
                none,
            );
        },
        FrameView::Ping(t) => {
            buffer::be_read_back(t as nat, 8);
        },
        FrameView::Pong(t) => {
            buffer::be_read_back(t as nat, 8);
        },
        FrameView::SpeedDone(n) => {
            buffer::be_read_back(n as nat, 8);
        },
        FrameView::SpeedResult { bytes, nanos } => {
            buffer::be_read_back(bytes as nat, 8);
            buffer::be_read_back(nanos as nat, 8);
            assert(p.take(8) =~= buffer::be_bytes(bytes as nat, 8));
            assert(p.skip(8) =~= buffer::be_bytes(nanos as nat, 8));
        },
        _ => {},
    }
}

/// The header of a frame's bytes announces the rest of them.
proof fn header_read_back(f: FrameView, tail: Seq<u8>)
    requires
        fits(f),
    ensures
        wire_of(f).len() == HEADER_LEN + 1 + payload_of(f).len(),
        length_field(wire_of(f) + tail) == 1 + payload_of(f).len(),
        (wire_of(f) + tail)[HEADER_LEN as int] == kind_of(f),
        (wire_of(f) + tail).subrange(HEADER_LEN + 1, wire_of(f).len() as int) == payload_of(f),
        (wire_of(f) + tail).skip(wire_of(f).len() as int) == tail,
{
    let n = 1 + payload_of(f).len();
    reveal_with_fuel(buffer::be_limit, 5);
    buffer::be_read_back(n, 4);
    let b = wire_of(f) + tail;
    assert(b.take(4) =~= buffer::be_bytes(n, 4));
    assert(b.subrange(5, wire_of(f).len() as int) =~= payload_of(f));
    assert(b.skip(wire_of(f).len() as int) =~= tail);
}

/// What was written is read back: the bytes of a frame give that frame, and
/// whatever follows them is left for the next read.
pub proof fn written_frame_is_read_back(f: FrameView, tail: Seq<u8>)
    requires
        fits(f),
    ensures
        read_one(wire_of(f) + tail) == (Ok::<Option<FrameView>, Fault>(Some(f)), tail),
{
    header_read_back(f, tail);
    payload_read_back(f);
}

/// While a frame has arrived only in part, nothing is taken and nothing is
/// reported.
pub proof fn partial_frame_waits(f: FrameView, have: nat)
    requires
        fits(f),
        have < wire_of(f).len(),
    ensures
        read_one(wire_of(f).take(have as int)) == (
            Ok::<Option<FrameView>, Fault>(None),
            wire_of(f).take(have as int),
        ),
{
    let none = Seq::<u8>::empty();
    header_read_back(f, none);
    assert(wire_of(f) + none =~= wire_of(f));
    let b = wire_of(f).take(have as int);
    if have >= HEADER_LEN {
        assert(b.take(4) =~= wire_of(f).take(4));
    }
}

/// The bytes of frames written one after another.
pub open spec fn wire_of_all(fs: Seq<FrameView>) -> Seq<u8>
    decreases fs.len(),
{
    if fs.len() == 0 {
        Seq::empty()
    } else {
        wire_of(fs[0]) + wire_of_all(fs.skip(1))
    }
}

/// The frames that reading `n` times from the front of `b` gives, and what is
/// left, provided that every read finds a frame.
pub open spec fn read_many(b: Seq<u8>, n: nat) -> Option<(Seq<FrameView>, Seq<u8>)>
    decreases n,
{
    if n == 0 {
        Some((Seq::empty(), b))
    } else {
        match read_one(b) {
            (Ok(Some(f)), rest) => match read_many(rest, (n - 1) as nat) {
                Some((fs, left)) => Some((seq![f] + fs, left)),
                None => None,
            },
            _ => None,
        }
    }
}

/// Frames written one after another are read back in the same order, and
/// whatever follows them is left.
pub proof fn written_frames_are_read_back_in_order(fs: Seq<FrameView>, tail: Seq<u8>)
    requires
        forall|i: int| 0 <= i < fs.len() ==> fits(#[trigger] fs[i]),
    ensures
        read_many(wire_of_all(fs) + tail, fs.len()) == Some((fs, tail)),
    decreases fs.len(),
{
    if fs.len() == 0 {
        assert(wire_of_all(fs) + tail =~= tail);
        assert(fs =~= Seq::empty());
    } else {
        let rest = wire_of_all(fs.skip(1)) + tail;
        assert(wire_of_all(fs) + tail =~= wire_of(fs[0]) + rest);
        written_frame_is_read_back(fs[0], rest);
        assert forall|i: int| 0 <= i < fs.skip(1).len() implies fits(#[trigger] fs.skip(1)[i]) by {
            assert(fs.skip(1)[i] == fs[i + 1]);
        }
        written_frames_are_read_back_in_order(fs.skip(1), tail);
        assert(seq![fs[0]] + fs.skip(1) =~= fs);
    }
}

/// A read never makes bytes up: what is left is an end of what was there, and
/// a frame or a bad payload takes exactly the bytes that its header announces.
pub proof fn a_read_takes_from_the_front(b: Seq<u8>)
    ensures
        ({
            let (r, rest) = read_one(b);
            &&& rest.len() <= b.len()
            &&& rest == b.skip(b.len() - rest.len())
            &&& r matches Ok(Some(_)) ==> rest.len() + HEADER_LEN + length_field(b) == b.len()
            &&& r == Ok::<Option<FrameView>, Fault>(None) ==> rest == b
        }),
{
    assert(b.skip(0) =~= b);
}

// What is refused.

/// A read waits exactly when the frame is not there yet; a frame without even a
/// type, and one that is too large, are refused as soon as their length is
/// known.
pub proof fn lengths_are_checked(b: Seq<u8>)
    ensures
        ({
            let r = read_one(b).0;
            let n = length_field(b);
            &&& r == Ok::<Option<FrameView>, Fault>(None) <==> b.len() < 4 || (0 < n <= 65536
                && b.len() < 4 + n)
            &&& r == Err::<Option<FrameView>, Fault>(Fault::Empty) <==> b.len() >= 4 && n == 0
            &&& b.len() >= 4 && n > 65536 ==> r == Err::<Option<FrameView>, Fault>(
                Fault::TooLarge(n),
            )
            &&& r is Err && (n == 0 || n > 65536) ==> read_one(b).1 == b
            &&& b.len() >= 4 + n && 0 < n <= 65536 ==> read_one(b).1 == b.skip(4 + n as int) && r
                == (match meaning(b[4], b.subrange(5, 4 + n as int)) {
                Ok(f) => Ok::<Option<FrameView>, Fault>(Some(f)),
                Err(e) => Err::<Option<FrameView>, Fault>(e),
            })
        }),
{
}

/// The types are numbered from one, in the order of the frames, and no other
/// number is a type.
pub proof fn types_are_numbered(f: FrameView, kind: u8, p: Seq<u8>)
    ensures
        kind_of(f) == 1 <==> f is Hello,
        kind_of(f) == 2 <==> f is Config,
        kind_of(f) == 3 <==> f is IpPacket,
        kind_of(f) == 4 <==> f is Ping,
        kind_of(f) == 5 <==> f is Pong,
        kind_of(f) == 6 <==> f is Bye,
        kind_of(f) == 7 <==> f is SpeedChunk,
        kind_of(f) == 8 <==> f is SpeedDone,
        kind_of(f) == 9 <==> f is SpeedResult,
        meaning(kind, p) matches Ok(g) ==> kind_of(g) == kind,
        meaning(kind, p) == Err::<FrameView, Fault>(Fault::UnknownType(kind)) <==> kind == 0 || kind
            > 9,
{
}

/// A payload of a fixed length is refused in any other.
pub proof fn payload_lengths_are_checked(kind: u8, p: Seq<u8>)
    ensures
        meaning(kind, p) == Err::<FrameView, Fault>(
            Fault::PayloadLength { kind, len: p.len() },
        ) <==> {
            ||| (kind == 4 || kind == 5 || kind == 8) && p.len() != 8
            ||| kind == 6 && p.len() != 0
            ||| kind == 9 && p.len() != 16
        },
        kind == 3 ==> meaning(kind, p) == Ok::<FrameView, Fault>(FrameView::IpPacket(p)),
        kind == 7 ==> meaning(kind, p) == Ok::<FrameView, Fault>(FrameView::SpeedChunk(p)),
        meaning(kind, p) == Err::<FrameView, Fault>(Fault::Payload(kind)) ==> kind == 1 || kind == 2,
        kind == 1 || kind == 2 ==> meaning(kind, p) is Ok || meaning(kind, p) == Err::<
            FrameView,
            Fault,
        >(Fault::Payload(kind)),
{
}

/// A frame is of the kind that it is.
pub proof fn frames_have_their_kind(f: FrameView)
    ensures
        f.kind() == FrameKind::Hello <==> f is Hello,
        f.kind() == FrameKind::Config <==> f is Config,
        f.kind() == FrameKind::IpPacket <==> f is IpPacket,
        f.kind() == FrameKind::Ping <==> f is Ping,
        f.kind() == FrameKind::Pong <==> f is Pong,
        f.kind() == FrameKind::Bye <==> f is Bye,
        f.kind() == FrameKind::SpeedChunk <==> f is SpeedChunk,
        f.kind() == FrameKind::SpeedDone <==> f is SpeedDone,
        f.kind() == FrameKind::SpeedResult <==> f is SpeedResult,
{
}

/// A frame begins with its length, which counts the type and the payload, most
/// significant byte first; then comes the type, and then the payload.
pub proof fn a_frame_is_laid_out(f: FrameView)
    requires
        fits(f),
    ensures
        ({
            let w = wire_of(f);
            let n = (1 + payload_of(f).len()) as int;
            &&& w.len() == 4 + n
            &&& w[0] as int * 0x100_0000 + w[1] as int * 0x1_0000 + w[2] as int * 0x100 + w[3] as int
                == n
            &&& w[4] == kind_of(f)
            &&& w.skip(5) == payload_of(f)
        }),
{
    header_read_back(f, Seq::empty());
    let w = wire_of(f);
    assert(w + Seq::<u8>::empty() =~= w);
    let h = w.take(4);
    reveal_with_fuel(buffer::be_value, 5);
    assert(h.drop_last() =~= w.take(3));
    assert(h.drop_last().drop_last() =~= w.take(2));
    assert(h.drop_last().drop_last().drop_last() =~= w.take(1));
    assert(h.drop_last().drop_last().drop_last().drop_last() =~= Seq::<u8>::empty());
    assert(w.skip(5) =~= w.subrange(5, w.len() as int));
}

/// Two frames that look different are written differently.
pub proof fn a_frame_is_known_by_its_bytes(f: FrameView, g: FrameView)
    requires
        fits(f),
        fits(g),
        wire_of(f) == wire_of(g),
    ensures
        f == g,
{
    written_frame_is_read_back(f, Seq::empty());
    written_frame_is_read_back(g, Seq::empty());
}

/// What a read returns is what it says: a frame, nothing yet, or a fault.
pub proof fn an_outcome_is_what_was_returned(r: Result<Option<Frame>, FrameError>)
    ensures
        r matches Ok(Some(f)) ==> outcome(r) == Ok::<Option<FrameView>, Fault>(Some(f@)),
        r matches Ok(None) ==> outcome(r) == Ok::<Option<FrameView>, Fault>(None),
        r matches Err(e) ==> outcome(r) == Err::<Option<FrameView>, Fault>(e@),
{
}

/// The kinds go by the names of their frames.
pub proof fn kinds_have_names()
    ensures
        FrameKind::Hello.spec_name() == "Hello"@,
        FrameKind::Config.spec_name() == "Config"@,
        FrameKind::IpPacket.spec_name() == "IpPacket"@,
        FrameKind::Ping.spec_name() == "Ping"@,
        FrameKind::Pong.spec_name() == "Pong"@,
        FrameKind::Bye.spec_name() == "Bye"@,
        FrameKind::SpeedChunk.spec_name() == "SpeedChunk"@,
        FrameKind::SpeedDone.spec_name() == "SpeedDone"@,
        FrameKind::SpeedResult.spec_name() == "SpeedResult"@,
{
}

/// A fault tells the length or the type that is at fault.
pub proof fn faults_tell_what_is_wrong(e: FrameError, detail: Seq<char>)
    ensures
        e matches FrameError::TooLarge(n) ==> text::holds(e.spec_text(detail), text::dec(n as nat)),
        e is Empty ==> e.spec_text(detail) == "empty frame (length field is 0)"@,
        e matches FrameError::UnknownType(k) ==> text::holds(
            e.spec_text(detail),
            text::dec(k as nat),
        ),
        e matches FrameError::Payload { kind, .. } ==> text::holds(e.spec_text(detail), detail)
            && text::holds(e.spec_text(detail), text::dec(kind as nat)),
        e matches FrameError::PayloadLength { kind, len } ==> text::holds(
            e.spec_text(detail),
            text::dec(len as nat),
        ) && text::holds(e.spec_text(detail), text::dec(kind as nat)),
{
    let all = e.spec_text(detail);
    assert(all.take(all.len() as int) =~= all);
    match e {
        FrameError::TooLarge(n) => {
            let (a, d) = ("frame too large: "@, text::dec(n as nat));
            let m = text::dec(MAX_FRAME_SIZE as nat);
            text::a_front_is_a_prefix(a + d + " bytes (max "@ + m, ")"@, all);
            text::a_front_is_a_prefix(a + d + " bytes (max "@, m, all);
            text::a_front_is_a_prefix(a + d, " bytes (max "@, all);
            text::what_a_prefix_ends_with_is_held(a, d, all);
        },
        FrameError::UnknownType(k) => {
            text::what_a_prefix_ends_with_is_held(
                "unknown frame type "@,
                text::dec(k as nat),
                all,
            );
        },
        FrameError::Payload { kind, .. } => {
            let (a, d) = ("invalid payload for frame type "@, text::dec(kind as nat));
            text::what_a_prefix_ends_with_is_held(a + d + ": "@, detail, all);
            text::a_front_is_a_prefix(a + d + ": "@, detail, all);
            text::a_front_is_a_prefix(a + d, ": "@, all);
            text::what_a_prefix_ends_with_is_held(a, d, all);
        },
        FrameError::PayloadLength { kind, len } => {
            let (a, d) = ("invalid payload length "@, text::dec(len as nat));
            let b = a + d + " for frame type "@;
            text::what_a_prefix_ends_with_is_held(b, text::dec(kind as nat), all);
            text::a_front_is_a_prefix(b, text::dec(kind as nat), all);
            text::a_front_is_a_prefix(a + d, " for frame type "@, all);
            text::what_a_prefix_ends_with_is_held(a, d, all);
        },
        FrameError::Empty => {},
    }
}

} // verus!
