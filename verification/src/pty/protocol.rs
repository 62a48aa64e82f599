//! What travels between a client and the process that hosts a terminal.
//!
//! Every message is a frame: one byte that says what it is, the length of its payload in four
//! bytes, least significant first, and the payload.

use vstd::prelude::*;
use vstd::slice::slice_subrange;
use vstd::string::StringExecFns;

use crate::num::{self, digits_text};

verus! {

pub const TYPE_SNAPSHOT: u8 = 0x01;

pub const TYPE_OUTPUT: u8 = 0x02;

pub const TYPE_EXITED: u8 = 0x03;

pub const TYPE_INPUT: u8 = 0x10;

pub const TYPE_RESIZE: u8 = 0x11;

pub const TYPE_SHUTDOWN: u8 = 0x12;

/// The bytes of a frame before its payload.
pub const HEADER_LEN: usize = 5;

/// A number in the given number of bytes, least significant first; what does not fit is dropped.
pub open spec fn le_bytes(n: nat, width: nat) -> Seq<u8>
    decreases width,
{
    if width == 0 {
        Seq::empty()
    } else {
        seq![(n % 256) as u8] + le_bytes(n / 256, (width - 1) as nat)
    }
}

/// The number that bytes stand for, least significant first.
pub open spec fn le_value(bytes: Seq<u8>) -> nat
    decreases bytes.len(),
{
    if bytes.len() == 0 {
        0
    } else {
        bytes[0] as nat + 256 * le_value(bytes.skip(1))
    }
}

/// A frame.
pub open spec fn frame(kind: u8, payload: Seq<u8>) -> Seq<u8> {
    seq![kind] + le_bytes(payload.len(), 4) + payload
}

/// A number of 32 bits with a sign as one without, of the same bits.
pub open spec fn unsigned(code: i32) -> nat {
    if code < 0 {
        (code + 0x1_0000_0000) as nat
    } else {
        code as nat
    }
}

/// What the host of a terminal sends to a client.
#[derive(Debug, PartialEq, Eq)]
pub enum HostMessage {
    /// The whole screen, as the bytes that draw it.
    Snapshot(Vec<u8>),
    /// What the terminal has put out.
    Output(Vec<u8>),
    /// The program has ended with this code.
    Exited(i32),
}

/// What the host of a terminal sends, as a mathematical value.
pub enum HostView {
    Snapshot(Seq<u8>),
    Output(Seq<u8>),
    Exited(i32),
}

impl View for HostMessage {
    type V = HostView;

    open spec fn view(&self) -> HostView {
        match self {
            HostMessage::Snapshot(d) => HostView::Snapshot(d@),
            HostMessage::Output(d) => HostView::Output(d@),
            HostMessage::Exited(c) => HostView::Exited(*c),
        }
    }
}

/// A message of the host as bytes.
pub open spec fn host_bytes(m: HostView) -> Seq<u8> {
    match m {
        HostView::Snapshot(d) => frame(TYPE_SNAPSHOT, d),
        HostView::Output(d) => frame(TYPE_OUTPUT, d),
        HostView::Exited(c) => frame(TYPE_EXITED, le_bytes(unsigned(c), 4)),
    }
}

/// What a client sends to the host of a terminal.
#[derive(Debug, PartialEq, Eq)]
pub enum ClientMessage {
    /// What was typed.
    Input(Vec<u8>),
    /// The terminal's new size.
    Resize { cols: u16, rows: u16 },
    /// The host is to end.
    Shutdown,
}

/// What a client sends, as a mathematical value.
pub enum ClientView {
    Input(Seq<u8>),
    Resize { cols: nat, rows: nat },
    Shutdown,
}

impl View for ClientMessage {
    type V = ClientView;

    open spec fn view(&self) -> ClientView {
        match self {
            ClientMessage::Input(d) => ClientView::Input(d@),
            ClientMessage::Resize { cols, rows } => ClientView::Resize {
                cols: *cols as nat,
                rows: *rows as nat,
            },
            ClientMessage::Shutdown => ClientView::Shutdown,
        }
    }
}

/// Why bytes are no message of a client.
#[derive(Debug, PartialEq, Eq)]
pub enum DecodeError {
    TruncatedHeader { got: usize },
    TruncatedPayload { need: u64, got: usize },
    ResizePayload { got: usize },
    UnknownType { kind: u8 },
}

/// The letters of the sixteen digits.
pub open spec fn hex_digit(n: nat) -> char {
    "0123456789abcdef"@[n as int]
}

impl DecodeError {
    /// The error in words.
    pub open spec fn text(self) -> Seq<char> {
        match self {
            DecodeError::TruncatedHeader { got } => "truncated header: need 5 bytes, got "@
                + num::digits(got as nat),
            DecodeError::TruncatedPayload { need, got } => "truncated payload: need "@
                + num::digits(need as nat) + " bytes, got "@ + num::digits(got as nat),
            DecodeError::ResizePayload { got } => "Resize payload must be 4 bytes, got "@
                + num::digits(got as nat),
            DecodeError::UnknownType { kind } => "unknown client message type: 0x"@
                + seq![hex_digit(kind as nat / 16), hex_digit(kind as nat % 16)],
        }
    }

    /// The error in words.
    pub fn message(&self) -> (r: String)
        ensures
            r@ == self.text(),
    {
        match self {
            DecodeError::TruncatedHeader { got } => {
                let mut s = "truncated header: need 5 bytes, got ".to_owned();
                s.append(digits_text(*got as u128).as_str());
                s
            },
            DecodeError::TruncatedPayload { need, got } => {
                let mut s = "truncated payload: need ".to_owned();
                s.append(digits_text(*need as u128).as_str());
                s.append(" bytes, got ");
                s.append(digits_text(*got as u128).as_str());
                s
            },
            DecodeError::ResizePayload { got } => {
                let mut s = "Resize payload must be 4 bytes, got ".to_owned();
                s.append(digits_text(*got as u128).as_str());
                s
            },
            DecodeError::UnknownType { kind } => {
                proof {
                    reveal_strlit("0123456789abcdef");
                }
                let hex = "0123456789abcdef";
                let mut s = "unknown client message type: 0x".to_owned();
                let ghost lead = s@;
                s.push(hex.get_char((*kind / 16) as usize));
                s.push(hex.get_char((*kind % 16) as usize));
                proof {
                    assert(s@ =~= lead + seq![
                        hex_digit(*kind as nat / 16),
                        hex_digit(*kind as nat % 16),
                    ]);
                }
                s
            },
        }
    }
}

/// The message of a client that bytes begin with, or why they begin with none.
pub open spec fn decoded(buf: Seq<u8>) -> Result<ClientView, DecodeError> {
    if buf.len() < HEADER_LEN {
        Err(DecodeError::TruncatedHeader { got: buf.len() as usize })
    } else {
        let len = le_value(buf.subrange(1, 5));
        if buf.len() < HEADER_LEN + len {
            Err(
                DecodeError::TruncatedPayload {
                    need: (HEADER_LEN + len) as u64,
                    got: buf.len() as usize,
                },
            )
        } else {
            let payload = buf.subrange(5, 5 + len as int);
            if buf[0] == TYPE_INPUT {
                Ok(ClientView::Input(payload))
            } else if buf[0] == TYPE_RESIZE {
                if len != 4 {
                    Err(DecodeError::ResizePayload { got: len as usize })
                } else {
                    Ok(
                        ClientView::Resize {
                            cols: le_value(payload.subrange(0, 2)),
                            rows: le_value(payload.subrange(2, 4)),
                        },
                    )
                }
            } else if buf[0] == TYPE_SHUTDOWN {
                Ok(ClientView::Shutdown)
            } else {
                Err(DecodeError::UnknownType { kind: buf[0] })
            }
        }
    }
}

/// The result of a call as a mathematical value.
pub open spec fn decode_view(r: Result<ClientMessage, DecodeError>) -> Result<
    ClientView,
    DecodeError,
> {
    match r {
        Ok(m) => Ok(m@),
        Err(e) => Err(e),
    }
}

/// Four bytes as a number.
proof fn lemma_le_value_4(s: Seq<u8>)
    requires
        s.len() == 4,
    ensures
        le_value(s) == s[0] + 0x100 * s[1] + 0x1_0000 * s[2] + 0x100_0000 * s[3],
        le_value(s) < 0x1_0000_0000,
{
    reveal_with_fuel(le_value, 5);
    assert(s.skip(1)[0] == s[1]);
    assert(s.skip(1).skip(1)[0] == s[2]);
    assert(s.skip(1).skip(1).skip(1)[0] == s[3]);
}

/// Two bytes as a number.
proof fn lemma_le_value_2(s: Seq<u8>)
    requires
        s.len() == 2,
    ensures
        le_value(s) == s[0] + 0x100 * s[1],
{
    reveal_with_fuel(le_value, 3);
    assert(s.skip(1)[0] == s[1]);
}

/// A number in four bytes.
proof fn lemma_le_bytes_4(n: nat)
    ensures
        le_bytes(n, 4) =~= seq![
            (n % 256) as u8,
            (n / 256 % 256) as u8,
            (n / 256 / 256 % 256) as u8,
            (n / 256 / 256 / 256 % 256) as u8,
        ],
{
    reveal_with_fuel(le_bytes, 5);
}

/// A number that fits into the given number of bytes is read back from them.
pub proof fn reading_undoes_writing(n: nat, width: nat)
    requires
        n < vstd::arithmetic::power::pow(256, width),
    ensures
        le_bytes(n, width).len() == width,
        le_value(le_bytes(n, width)) == n,
    decreases width,
{
    if width == 0 {
        vstd::arithmetic::power::lemma_pow0(256);
    } else {
        let w = (width - 1) as nat;
        vstd::arithmetic::power::lemma_pow1(256);
        vstd::arithmetic::power::lemma_pow_adds(256, 1, w);
        assert(n / 256 < vstd::arithmetic::power::pow(256, w));
        reading_undoes_writing(n / 256, w);
        assert(le_bytes(n, width).skip(1) =~= le_bytes(n / 256, w));
    }
}

/// The four bytes of a number that fits into them stand for it.
proof fn lemma_read_4(n: nat)
    requires
        n < 0x1_0000_0000,
    ensures
        le_bytes(n, 4).len() == 4,
        le_value(le_bytes(n, 4)) == n,
{
    lemma_le_bytes_4(n);
    lemma_le_value_4(le_bytes(n, 4));
}

/// The two bytes of a number that fits into them stand for it.
proof fn lemma_read_2(n: nat)
    requires
        n < 0x1_0000,
    ensures
        le_bytes(n, 2).len() == 2,
        le_value(le_bytes(n, 2)) == n,
{
    reveal_with_fuel(le_bytes, 3);
    lemma_le_value_2(le_bytes(n, 2));
}

/// A message of a client in bytes, as the host reads it.
pub open spec fn client_bytes(m: ClientView) -> Seq<u8> {
    match m {
        ClientView::Input(d) => frame(TYPE_INPUT, d),
        ClientView::Resize { cols, rows } => frame(
            TYPE_RESIZE,
            le_bytes(cols, 2) + le_bytes(rows, 2),
        ),
        ClientView::Shutdown => frame(TYPE_SHUTDOWN, Seq::empty()),
    }
}

/// Whether a message can be written: its payload's length fits into a frame and the terminal's
/// size into the numbers for it.
pub open spec fn sendable(m: ClientView) -> bool {
    match m {
        ClientView::Input(d) => d.len() < 0x1_0000_0000,
        ClientView::Resize { cols, rows } => cols < 0x1_0000 && rows < 0x1_0000,
        ClientView::Shutdown => true,
    }
}

/// A frame is as long as its header says.
pub(crate) proof fn lemma_frame_shape(m: ClientView)
    requires
        sendable(m),
    ensures
        client_bytes(m).len() == HEADER_LEN + le_value(client_bytes(m).subrange(1, 5)),
{
    let buf = client_bytes(m);
    match m {
        ClientView::Input(d) => {
            lemma_read_4(d.len());
            assert(buf.subrange(1, 5) =~= le_bytes(d.len(), 4));
        },
        ClientView::Resize { cols, rows } => {
            lemma_read_4(4);
            lemma_read_2(cols);
            lemma_read_2(rows);
            assert(buf.subrange(1, 5) =~= le_bytes(4, 4));
        },
        ClientView::Shutdown => {
            lemma_read_4(0);
            assert(buf.subrange(1, 5) =~= le_bytes(0, 4));
        },
    }
}

/// What a header says fits into the number for it.
pub(crate) proof fn lemma_need(buf: Seq<u8>)
    requires
        buf.len() >= HEADER_LEN,
    ensures
        le_value(buf.subrange(1, 5)) < 0x1_0000_0000,
{
    lemma_le_value_4(buf.subrange(1, 5));
}

/// What a client framed, the host reads, whatever follows the frame.
pub proof fn decoding_undoes_framing(m: ClientView, rest: Seq<u8>)
    requires
        sendable(m),
    ensures
        decoded(client_bytes(m) + rest) == Ok::<ClientView, DecodeError>(m),
{
    let buf = client_bytes(m) + rest;
    match m {
        ClientView::Input(d) => {
            lemma_read_4(d.len());
            assert(buf.subrange(1, 5) =~= le_bytes(d.len(), 4));
            assert(buf.subrange(5, 5 + d.len() as int) =~= d);
        },
        ClientView::Resize { cols, rows } => {
            lemma_read_4(4);
            lemma_read_2(cols);
            lemma_read_2(rows);
            let p = le_bytes(cols, 2) + le_bytes(rows, 2);
            assert(buf.subrange(1, 5) =~= le_bytes(4, 4));
            assert(buf.subrange(5, 9) =~= p);
            assert(p.subrange(0, 2) =~= le_bytes(cols, 2));
            assert(p.subrange(2, 4) =~= le_bytes(rows, 2));
        },
        ClientView::Shutdown => {
            lemma_read_4(0);
            assert(buf.subrange(1, 5) =~= le_bytes(0, 4));
        },
    }
}

/// Different messages of a host, each short enough for a frame, never look alike: not even where
/// one is followed by something else.
pub proof fn host_frames_differ(a: HostView, b: HostView, rest_a: Seq<u8>, rest_b: Seq<u8>)
    requires
        a matches HostView::Snapshot(d) ==> d.len() < 0x1_0000_0000,
        a matches HostView::Output(d) ==> d.len() < 0x1_0000_0000,
        b matches HostView::Snapshot(d) ==> d.len() < 0x1_0000_0000,
        b matches HostView::Output(d) ==> d.len() < 0x1_0000_0000,
        host_bytes(a) + rest_a == host_bytes(b) + rest_b,
    ensures
        a == b,
{
    let pa = host_payload(a);
    let pb = host_payload(b);
    let fa = host_bytes(a) + rest_a;
    let fb = host_bytes(b) + rest_b;
    if a is Exited {
        lemma_read_4(unsigned(a->Exited_0));
    }
    if b is Exited {
        lemma_read_4(unsigned(b->Exited_0));
    }
    lemma_read_4(pa.len());
    lemma_read_4(pb.len());
    assert(fa[0] == host_bytes(a)[0]);
    assert(fb[0] == host_bytes(b)[0]);
    assert(fa.subrange(1, 5) =~= le_bytes(pa.len(), 4));
    assert(fb.subrange(1, 5) =~= le_bytes(pb.len(), 4));
    assert(pa.len() == pb.len());
    assert(fa.subrange(5, 5 + pa.len() as int) =~= pa);
    assert(fb.subrange(5, 5 + pb.len() as int) =~= pb);
}

/// The payload of a message of the host.
pub open spec fn host_payload(m: HostView) -> Seq<u8> {
    match m {
        HostView::Snapshot(d) => d,
        HostView::Output(d) => d,
        HostView::Exited(c) => le_bytes(unsigned(c), 4),
    }
}

/// A multiple of 256 changes nothing of the lowest byte and is divided as it stands.
proof fn lemma_shift(n: nat, m: nat, t: nat)
    requires
        n == m + 256 * t,
    ensures
        n % 256 == m % 256,
        n / 256 == m / 256 + t,
{
}

/// The lowest four bytes of a number are those of its lowest 32 bits.
proof fn lemma_low(n: nat)
    ensures
        le_bytes(n % 0x1_0000_0000, 4) == le_bytes(n, 4),
{
    let m = n % 0x1_0000_0000;
    let k = n / 0x1_0000_0000;
    lemma_shift(n, m, 0x100_0000 * k);
    lemma_shift(n / 256, m / 256, 0x1_0000 * k);
    lemma_shift(n / 256 / 256, m / 256 / 256, 0x100 * k);
    lemma_shift(n / 256 / 256 / 256, m / 256 / 256 / 256, k);
    lemma_le_bytes_4(n);
    lemma_le_bytes_4(m);
}

/// Puts a number of 32 bits behind bytes, least significant byte first.
fn push_le(out: &mut Vec<u8>, n: u32)
    ensures
        final(out)@ == old(out)@ + le_bytes(n as nat, 4),
{
    proof {
        lemma_le_bytes_4(n as nat);
    }
    out.push((n % 256) as u8);
    out.push((n / 256 % 256) as u8);
    out.push((n / 256 / 256 % 256) as u8);
    out.push((n / 256 / 256 / 256 % 256) as u8);
}

/// Builds a frame. Of a payload's length only the lowest 32 bits are written.
pub fn encode_frame(kind: u8, payload: &[u8]) -> (r: Vec<u8>)
    ensures
        r@ == frame(kind, payload@),
{
    let len: usize = payload.len();
    let low: u64 = len as u64 % 0x1_0000_0000;
    let mut r: Vec<u8> = Vec::new();
    r.push(kind);
    push_le(&mut r, low as u32);
    proof {
        lemma_low(len as nat);
        assert(r@ =~= seq![kind] + le_bytes(payload@.len(), 4));
    }
    r.extend_from_slice(payload);
    r
}

impl HostMessage {
    /// The message as bytes.
    pub fn encode(&self) -> (r: Vec<u8>)
        ensures
            r@ == host_bytes(self@),
    {
        match self {
            HostMessage::Snapshot(d) => encode_frame(TYPE_SNAPSHOT, d.as_slice()),
            HostMessage::Output(d) => encode_frame(TYPE_OUTPUT, d.as_slice()),
            HostMessage::Exited(code) => {
                let c: i64 = *code as i64;
                let n: u32 = if c < 0 {
                    (c + 0x1_0000_0000) as u32
                } else {
                    c as u32
                };
                let mut p: Vec<u8> = Vec::new();
                push_le(&mut p, n);
                proof {
                    assert(p@ =~= le_bytes(unsigned(*code), 4));
                }
                encode_frame(TYPE_EXITED, p.as_slice())
            },
        }
    }
}

/// Puts a message of the host behind what is to be sent.
pub fn write_host_message(out: &mut Vec<u8>, msg: &HostMessage)
    ensures
        final(out)@ == old(out)@ + host_bytes(msg@),
{
    let bytes = msg.encode();
    out.extend_from_slice(bytes.as_slice());
}

impl ClientMessage {
    /// The message that bytes begin with, or why they begin with none.
    pub fn decode(buf: &[u8]) -> (r: Result<ClientMessage, DecodeError>)
        ensures
            decode_view(r) == decoded(buf@),
    {
        let got: usize = buf.len();
        if got < HEADER_LEN {
            return Err(DecodeError::TruncatedHeader { got });
        }
        proof {
            lemma_le_value_4(buf@.subrange(1, 5));
        }
        let len: u64 = buf[1] as u64 + 0x100 * buf[2] as u64 + 0x1_0000 * buf[3] as u64
            + 0x100_0000 * buf[4] as u64;
        let need: u64 = 5 + len;
        if (got as u64) < need {
            return Err(DecodeError::TruncatedPayload { need, got });
        }
        let n: usize = len as usize;
        let payload = slice_subrange(buf, 5, 5 + n);
        let kind: u8 = buf[0];
        if kind == TYPE_INPUT {
            let mut d: Vec<u8> = Vec::new();
            d.extend_from_slice(payload);
            proof {
                assert(d@ =~= payload@);
            }
            return Ok(ClientMessage::Input(d));
        }
        if kind == TYPE_RESIZE {
            if n != 4 {
                return Err(DecodeError::ResizePayload { got: n });
            }
            proof {
                lemma_le_value_2(payload@.subrange(0, 2));
                lemma_le_value_2(payload@.subrange(2, 4));
            }
            let cols: u16 = (payload[0] as u32 + 0x100 * payload[1] as u32) as u16;
            let rows: u16 = (payload[2] as u32 + 0x100 * payload[3] as u32) as u16;
            return Ok(ClientMessage::Resize { cols, rows });
        }
        if kind == TYPE_SHUTDOWN {
            return Ok(ClientMessage::Shutdown);
        }
        Err(DecodeError::UnknownType { kind })
    }
}

/// A frame is the kind, the length of the payload in four bytes, least significant first, and the
/// payload; a size is sent with the columns first, each number in two bytes.
pub proof fn frames_have_their_shape(kind: u8, payload: Seq<u8>, cols: nat, rows: nat, code: i32)
    requires
        cols < 0x1_0000,
        rows < 0x1_0000,
    ensures
        frame(kind, payload)[0] == kind,
        frame(kind, payload).len() == payload.len() + 5,
        frame(kind, payload).skip(5) == payload,
        payload.len() < 0x1_0000_0000 ==> frame(kind, payload)[1] as int == payload.len() % 256
            && frame(kind, payload)[2] as int == (payload.len() / 256) % 256 && frame(
            kind,
            payload,
        )[3] as int == (payload.len() / 65536) % 256,
        client_bytes(ClientView::Resize { cols, rows })[0] == TYPE_RESIZE,
        client_bytes(ClientView::Resize { cols, rows })[5] as int == cols % 256,
        client_bytes(ClientView::Resize { cols, rows })[6] as int == cols / 256,
        client_bytes(ClientView::Resize { cols, rows })[7] as int == rows % 256,
        client_bytes(ClientView::Resize { cols, rows })[8] as int == rows / 256,
        client_bytes(ClientView::Shutdown)[0] == TYPE_SHUTDOWN,
        client_bytes(ClientView::Input(payload)) == frame(TYPE_INPUT, payload),
        host_bytes(HostView::Snapshot(payload)) == frame(TYPE_SNAPSHOT, payload),
        host_bytes(HostView::Output(payload)) == frame(TYPE_OUTPUT, payload),
        host_bytes(HostView::Exited(code))[0] == TYPE_EXITED,
        code >= 0 ==> host_bytes(HostView::Exited(code))[5] as int == code % 256,
{
    reveal_with_fuel(le_bytes, 5);
    let f = frame(kind, payload);
    let head = le_bytes(payload.len(), 4);
    assert(head.len() == 4);
    assert(f.skip(5) =~= payload);
    assert(f[1] == head[0] && f[2] == head[1] && f[3] == head[2]);
    assert(payload.len() / 256 / 256 == payload.len() / 65536);
    let size = le_bytes(cols, 2) + le_bytes(rows, 2);
    let g = client_bytes(ClientView::Resize { cols, rows });
    assert(g == frame(TYPE_RESIZE, size));
    assert(le_bytes(size.len(), 4).len() == 4);
    assert(g[5] == size[0] && g[6] == size[1] && g[7] == size[2] && g[8] == size[3]);
    assert((cols / 256) % 256 == cols / 256);
    assert((rows / 256) % 256 == rows / 256);
    let h = host_bytes(HostView::Exited(code));
    let c = le_bytes(unsigned(code), 4);
    assert(le_bytes(c.len(), 4).len() == 4);
    assert(h[5] == c[0]);
}

/// Bytes that are no message are told apart: too short a header, too short a payload, a size of the
/// wrong length, and a kind that there is not.
pub proof fn broken_frames_are_told_apart(buf: Seq<u8>)
    ensures
        buf.len() < 5 ==> (decoded(buf) matches Err(e) && e is TruncatedHeader),
        buf.len() >= 5 && buf.len() < 5 + le_value(buf.subrange(1, 5)) ==> (decoded(buf) matches Err(e)
            && e is TruncatedPayload),
        buf.len() >= 5 + le_value(buf.subrange(1, 5)) && buf.len() >= 5 && buf[0] != TYPE_INPUT
            && buf[0] != TYPE_RESIZE && buf[0] != TYPE_SHUTDOWN ==> (decoded(buf) matches Err(e)
            && e is UnknownType),
        buf.len() >= 5 + le_value(buf.subrange(1, 5)) && buf.len() >= 5 && buf[0] == TYPE_RESIZE
            && le_value(buf.subrange(1, 5)) != 4 ==> (decoded(buf) matches Err(e)
            && e is ResizePayload),
        buf.len() >= 5 + le_value(buf.subrange(1, 5)) && buf.len() >= 5 && (buf[0] == TYPE_INPUT
            || buf[0] == TYPE_SHUTDOWN) ==> decoded(buf) is Ok,
{
}

} // verus!
