//! Frame construction and incremental receive parsing.

use vstd::prelude::*;

use crate::codec::{
    be16, be32, be_u16, be_u32, crc16, crc16_of, push_be_u16, push_be_u32, push_slice, u16_of, u32_at,
};
use crate::error::RctError;
use crate::types::{
    command_byte, command_is_long, command_of_byte, frame_type_value, hex, hex_chars,
    lemma_command_byte_roundtrip, plant_byte, Command, FrameType, PLANT_BIT,
};
use crate::frame_laws::{
    holds_frame, lemma_complete_is_final, lemma_completion_outcome, lemma_run_counts,
};
use vstd::slice::{slice_subrange, slice_to_vec};

verus! {

/// Token that starts a frame ('+')
pub const START_TOKEN: u8 = 0x2b;

/// Token that escapes the next value ('-')
pub const ESCAPE_TOKEN: u8 = 0x2d;

/// Whether a byte must be escaped on the wire.
pub open spec fn is_token(b: u8) -> bool {
    b == START_TOKEN || b == ESCAPE_TOKEN
}

/// Wire form of one byte: tokens are preceded by the escape token.
pub open spec fn escape_byte(b: u8) -> Seq<u8> {
    if is_token(b) {
        seq![ESCAPE_TOKEN, b]
    } else {
        seq![b]
    }
}

/// Wire form of a byte sequence.
pub open spec fn escaped(s: Seq<u8>) -> Seq<u8>
    decreases s.len(),
{
    if s.len() == 0 {
        Seq::empty()
    } else {
        escaped(s.drop_last()) + escape_byte(s.last())
    }
}

/// The payload bytes that a frame carries: none for READ, all of them
/// otherwise.
pub open spec fn carried(command: Command, payload: Seq<u8>) -> Seq<u8> {
    if command == Command::Read {
        Seq::empty()
    } else {
        payload
    }
}

/// The length field arithmetic of `make_frame` stays within its integer
/// width (the frame type plus the count `n` of carried payload bytes, the
/// latter truncated to 16 bits for long commands and to 8 bits otherwise).
pub open spec fn length_fits(command: Command, frame_type: FrameType, n: nat) -> bool {
    if command_is_long(command) {
        frame_type_value(frame_type) + n % 65536 <= 0xFFFF
    } else {
        frame_type_value(frame_type) + n % 256 <= 0xFF
    }
}

/// The length field: frame type plus the count `n` of carried payload
/// bytes, two bytes big-endian for long commands, one byte otherwise.
pub open spec fn length_field(command: Command, frame_type: FrameType, n: nat) -> Seq<u8> {
    if command_is_long(command) {
        be_u16((frame_type_value(frame_type) + n % 65536) as u16)
    } else {
        seq![(frame_type_value(frame_type) + n % 256) as u8]
    }
}

/// What follows the command byte up to the CRC: the length field, the
/// address (plant frames only), the object id and the carried payload.
pub open spec fn frame_tail(
    command: Command,
    id: u32,
    payload: Seq<u8>,
    address: u32,
    frame_type: FrameType,
) -> Seq<u8> {
    length_field(command, frame_type, carried(command, payload).len()) + (if frame_type
        == FrameType::Plant {
        be_u32(address)
    } else {
        Seq::empty()
    }) + be_u32(id) + carried(command, payload)
}

/// Unescaped frame content between the start token and the CRC, as
/// `make_frame` lays it out: command byte, then the frame tail.
pub open spec fn frame_body(
    command: Command,
    id: u32,
    payload: Seq<u8>,
    address: u32,
    frame_type: FrameType,
) -> Seq<u8> {
    seq![command_byte(command)] + frame_tail(command, id, payload, address, frame_type)
}

/// Body followed by its CRC16, big-endian.
pub open spec fn with_crc(body: Seq<u8>) -> Seq<u8> {
    body + be_u16(crc16_of(body))
}

/// The complete wire frame: start token, then the escaped body and CRC.
pub open spec fn frame_bytes(
    command: Command,
    id: u32,
    payload: Seq<u8>,
    address: u32,
    frame_type: FrameType,
) -> Seq<u8> {
    seq![START_TOKEN] + escaped(with_crc(frame_body(command, id, payload, address, frame_type)))
}

/// A plant frame as a peer on the bus sends it: like a frame of type
/// PLANT, with the plant bit set in the command byte.
pub open spec fn plant_frame_bytes(command: Command, id: u32, payload: Seq<u8>, address: u32) -> Seq<
    u8,
> {
    seq![START_TOKEN] + escaped(
        with_crc(
            seq![command_byte(command) | PLANT_BIT] + frame_tail(
                command,
                id,
                payload,
                address,
                FrameType::Plant,
            ),
        ),
    )
}

/// Build the escaped byte stream for a frame, ready to send.
/// `payload` is ignored for READ, `address` for STANDARD frames.
pub fn make_frame(
    command: Command,
    id: u32,
    payload: &[u8],
    address: u32,
    frame_type: FrameType,
) -> (r: Result<Vec<u8>, RctError>)
    requires
        length_fits(command, frame_type, carried(command, payload@).len()),
    ensures
        r matches Ok(f) && f@ == frame_bytes(command, id, payload@, address, frame_type),
        r matches Ok(f) && f@ == seq![START_TOKEN] + escaped(
            frame_body(command, id, payload@, address, frame_type) + be_u16(
                crc16_of(frame_body(command, id, payload@, address, frame_type)),
            ),
        ),
{
    let mut buf: Vec<u8> = Vec::new();
    buf.push(command.byte());
    // READ frames carry no payload, and their length field counts none
    let n = if command == Command::Read {
        0
    } else {
        payload.len()
    };
    if command.is_long() {
        let len16 = (n % 65536) as u16;
        push_be_u16(&mut buf, frame_type.value() as u16 + len16);
    } else {
        let len8 = (n % 256) as u8;
        let len = frame_type.value() + len8;
        buf.push(len);
    }
    if frame_type == FrameType::Plant {
        push_be_u32(&mut buf, address);
    }
    // the object ID is always part of the frame
    push_be_u32(&mut buf, id);
    // READ frames carry no payload
    if command != Command::Read {
        push_slice(&mut buf, payload);
    }
    let ghost body = buf@;
    assert(body =~= frame_body(command, id, payload@, address, frame_type));
    let crc = crc16(buf.as_slice());
    push_be_u16(&mut buf, crc);
    assert(buf@ == with_crc(body));
    let mut out: Vec<u8> = Vec::new();
    out.push(START_TOKEN);
    let mut i: usize = 0;
    while i < buf.len()
        invariant
            i <= buf@.len(),
            buf@ == with_crc(body),
            out@ == seq![START_TOKEN] + escaped(buf@.take(i as int)),
        decreases buf@.len() - i,
    {
        let b = buf[i];
        if b == START_TOKEN || b == ESCAPE_TOKEN {
            out.push(ESCAPE_TOKEN);
        }
        out.push(b);
        assert(buf@.take(i + 1).drop_last() =~= buf@.take(i as int));
        assert(out@ =~= seq![START_TOKEN] + escaped(buf@.take(i + 1)));
        i = i + 1;
    }
    assert(buf@.take(buf@.len() as int) =~= buf@);
    Ok(out)
}

/// Mathematical model of the receive parser's state.
#[verifier::ext_equal]
pub struct RxModel {
    pub complete: bool,
    pub crc_ok: bool,
    pub escaping: bool,
    pub crc16_recv: u16,
    pub frame_length: nat,
    pub command: Option<Command>,
    /// Unescaped bytes of the current frame, start token included.
    pub buffer: Seq<u8>,
    /// Wire bytes of the current frame, start and escape tokens included.
    pub raw: Seq<u8>,
    pub consumed: nat,
    pub header_length: nat,
    pub id: u32,
    pub address: u32,
    pub data: Seq<u8>,
    pub ignore_crc_mismatch: bool,
}

/// What one received byte does to the parser.
#[derive(Debug, Clone, Copy, PartialEq, Eq, Structural)]
pub enum Step {
    /// More bytes are needed.
    Continue,
    /// The frame is complete.
    Finished,
    /// The command byte is not accepted.
    InvalidCommand(u8),
    /// More bytes than the length field announced.
    LengthExceeded,
    /// CRC mismatch (received, calculated).
    CrcMismatch(u16, u16),
}

/// The parser state of a new instance.
pub open spec fn rx_initial(ignore_crc_mismatch: bool) -> RxModel {
    RxModel {
        complete: false,
        crc_ok: false,
        escaping: false,
        crc16_recv: 0,
        frame_length: 0,
        command: None,
        buffer: Seq::empty(),
        raw: Seq::empty(),
        consumed: 0,
        header_length: 7,
        id: 0,
        address: 0,
        data: Seq::empty(),
        ignore_crc_mismatch,
    }
}

/// The state after the header bytes (command, length, address, id) are in.
pub open spec fn rx_read_header(m: RxModel) -> RxModel {
    let cmd = m.command.unwrap();
    let long = command_is_long(cmd);
    let data_length: int = if long {
        u16_of(m.buffer[2], m.buffer[3]) as int
    } else {
        m.buffer[2] as int
    };
    let oid_idx: int = if long {
        4
    } else {
        3
    };
    let plant = plant_byte(m.buffer[1]);
    let frame_length = if plant {
        (m.header_length - 8) + data_length + 2
    } else {
        (m.header_length - 4) + data_length + 2
    };
    let address = if plant {
        u32_at(m.buffer, oid_idx)
    } else {
        m.address
    };
    let id_idx = if plant {
        oid_idx + 4
    } else {
        oid_idx
    };
    RxModel { frame_length: frame_length as nat, address, id: u32_at(m.buffer, id_idx), ..m }
}

/// One received byte, once it was added to the unescaped buffer.
pub open spec fn rx_after_push(m: RxModel) -> (RxModel, Step) {
    let blen = m.buffer.len();
    if blen == 2 {
        let raw = m.buffer[1];
        match command_of_byte(raw) {
            None => (m, Step::InvalidCommand(raw)),
            Some(cmd) => if cmd == Command::Extension {
                (m, Step::InvalidCommand(raw))
            } else {
                let h1 = if plant_byte(raw) {
                    m.header_length + 4
                } else {
                    m.header_length
                };
                let h2 = if command_is_long(cmd) {
                    h1 + 1
                } else {
                    h1
                };
                (RxModel { command: Some(cmd), header_length: h2, ..m }, Step::Continue)
            },
        }
    } else if blen == m.header_length && m.command is Some && m.frame_length == 0 {
        (rx_read_header(m), Step::Continue)
    } else if m.frame_length > 0 && blen == m.frame_length {
        let recv = u16_of(m.buffer[blen - 2], m.buffer[blen - 1]);
        let calc = crc16_of(m.buffer.subrange(1, blen - 2));
        let ok = recv == calc;
        if m.header_length > blen - 2 {
            // the length field announced fewer bytes than the header holds
            (m, Step::LengthExceeded)
        } else {
            let m2 = RxModel {
                complete: true,
                crc16_recv: recv,
                crc_ok: ok,
                data: m.buffer.subrange(m.header_length as int, blen - 2),
                ..m
            };
            if !ok && !m.ignore_crc_mismatch {
                (m2, Step::CrcMismatch(recv, calc))
            } else {
                (m2, Step::Finished)
            }
        }
    } else if m.frame_length > 0 && blen > m.frame_length {
        (m, Step::LengthExceeded)
    } else {
        (m, Step::Continue)
    }
}

/// One received byte.
pub open spec fn rx_step(m0: RxModel, c: u8) -> (RxModel, Step) {
    let m = RxModel { consumed: m0.consumed + 1, ..m0 };
    if m.buffer.len() == 0 {
        // sync to start token
        if c == START_TOKEN {
            (RxModel { raw: seq![c], buffer: seq![c], ..m }, Step::Continue)
        } else {
            (m, Step::Continue)
        }
    } else {
        let m = RxModel { raw: m.raw.push(c), ..m };
        if m.escaping {
            rx_after_push(RxModel { escaping: false, buffer: m.buffer.push(c), ..m })
        } else if c == ESCAPE_TOKEN {
            (RxModel { escaping: true, ..m }, Step::Continue)
        } else {
            rx_after_push(RxModel { buffer: m.buffer.push(c), ..m })
        }
    }
}

/// How a run over some received bytes ended.
pub enum RunEnd {
    /// All bytes were used, or the frame completed after this many bytes.
    Done(nat),
    /// The step failed after this many bytes.
    Failed(Step, nat),
}

/// The parser fed with `data[k..]`, byte by byte, until the frame completes
/// or a step fails.
pub open spec fn rx_run(m: RxModel, data: Seq<u8>, k: nat) -> (RxModel, RunEnd)
    decreases data.len() - k,
{
    if k >= data.len() {
        (m, RunEnd::Done(k))
    } else {
        let (m1, o) = rx_step(m, data[k as int]);
        match o {
            Step::Continue => rx_run(m1, data, k + 1),
            Step::Finished => (m1, RunEnd::Done(k + 1)),
            _ => (m1, RunEnd::Failed(o, k + 1)),
        }
    }
}

/// The error that reports a failed step after `n` bytes.
pub open spec fn reports(e: RctError, s: Step, n: nat) -> bool {
    match s {
        Step::InvalidCommand(b) => e matches RctError::InvalidCommand { cmd, consumed } && cmd == b
            && consumed == n,
        Step::LengthExceeded => e matches RctError::FrameLengthExceeded { consumed } && consumed
            == n,
        Step::CrcMismatch(r, k) => e matches RctError::FrameCrcMismatch {
            received,
            calculated,
            consumed,
        } && received == r && calculated == k && consumed == n,
        _ => false,
    }
}

/// Invariant of the parser state.
pub open spec fn rx_wf(m: RxModel) -> bool {
    &&& m.command is None ==> m.header_length == 7 && m.frame_length == 0
    &&& m.command is Some ==> {
        &&& m.buffer.len() >= 2
        &&& m.command == command_of_byte(m.buffer[1])
        &&& m.command.unwrap() != Command::Extension
        &&& m.header_length == 7 + (if plant_byte(m.buffer[1]) {
            4int
        } else {
            0int
        }) + (if command_is_long(m.command.unwrap()) {
            1int
        } else {
            0int
        })
    }
    &&& m.buffer.len() < 2 ==> m.command is None
    &&& m.command is Some && m.buffer.len() >= m.header_length ==> m.frame_length > 0
    &&& m.frame_length == 0 || m.frame_length >= 5
    &&& m.crc_ok ==> m.complete
    &&& m.complete ==> m.command is Some && m.frame_length > 0 && m.buffer.len()
        >= m.frame_length
}

/// Incremental receive-frame parser (one frame per instance).
#[derive(Debug)]
pub struct ReceiveFrame {
    complete: bool,
    crc_ok: bool,
    escaping: bool,
    crc16_recv: u16,
    frame_length: usize,
    command: Option<Command>,
    buffer: Vec<u8>,
    /// Raw wire bytes of the current frame including start/escape tokens.
    raw: Vec<u8>,
    consumed_bytes: usize,
    frame_header_length: usize,
    id: u32,
    address: u32,
    data: Vec<u8>,
    ignore_crc_mismatch: bool,
}

/// How a run over `data` from the given state ends with respect to the
/// frame's completion.
proof fn lemma_run_ends(m: RxModel, data: Seq<u8>)
    requires
        rx_wf(m),
    ensures
        ({
            let (m1, end) = rx_run(m, data, 0);
            &&& m.complete ==> {
                &&& m1.complete
                &&& m1.crc_ok == m.crc_ok
                &&& m1.command == m.command
                &&& m1.id == m.id
                &&& m1.address == m.address
                &&& m1.data == m.data
            }
            &&& !m.complete && m1.complete ==> ((end is Done && (m1.crc_ok
                || m1.ignore_crc_mismatch)) || (end matches RunEnd::Failed(Step::CrcMismatch(_, _), _)
                && !m1.crc_ok && !m1.ignore_crc_mismatch))
            &&& !m.complete && m1.complete ==> holds_frame(m1)
            &&& match end {
                RunEnd::Done(i) => i <= data.len() && m1.consumed == m.consumed + i,
                RunEnd::Failed(_, i) => 0 < i <= data.len() && m1.consumed == m.consumed + i,
            }
        }),
{
    lemma_run_counts(m, data, 0);
    if m.complete {
        lemma_complete_is_final(m, data, 0);
    } else {
        lemma_completion_outcome(m, data, 0);
    }
}

impl View for ReceiveFrame {
    type V = RxModel;

    closed spec fn view(&self) -> RxModel {
        RxModel {
            complete: self.complete,
            crc_ok: self.crc_ok,
            escaping: self.escaping,
            crc16_recv: self.crc16_recv,
            frame_length: self.frame_length as nat,
            command: self.command,
            buffer: self.buffer@,
            raw: self.raw@,
            consumed: self.consumed_bytes as nat,
            header_length: self.frame_header_length as nat,
            id: self.id,
            address: self.address,
            data: self.data@,
            ignore_crc_mismatch: self.ignore_crc_mismatch,
        }
    }
}

impl ReceiveFrame {
    /// The parser invariant holds.
    pub open spec fn wf(&self) -> bool {
        rx_wf(self@)
    }

    pub fn new(ignore_crc_mismatch: bool) -> (r: Self)
        ensures
            r@ == rx_initial(ignore_crc_mismatch),
            r.wf(),
    {
        ReceiveFrame {
            complete: false,
            crc_ok: false,
            escaping: false,
            crc16_recv: 0,
            frame_length: 0,
            command: None,
            buffer: Vec::new(),
            raw: Vec::new(),
            consumed_bytes: 0,
            // start(1) + command(1) + length(1) + no address + id(4)
            frame_header_length: 1 + 1 + 1 + 4,
            id: 0,
            address: 0,
            data: Vec::new(),
            ignore_crc_mismatch,
        }
    }

    pub fn complete(&self) -> (r: bool)
        ensures
            r == self@.complete,
    {
        self.complete
    }

    pub fn crc_ok(&self) -> (r: bool)
        ensures
            r == self@.crc_ok,
    {
        self.crc_ok
    }

    pub fn consumed_bytes(&self) -> (r: usize)
        ensures
            r == self@.consumed,
    {
        self.consumed_bytes
    }

    /// True when no bytes are buffered yet (parser at frame start).
    pub fn no_bytes(&self) -> (r: bool)
        ensures
            r == (self@.buffer.len() == 0),
    {
        self.buffer.len() == 0
    }

    /// Raw wire bytes of the current frame, escaping included (as received).
    pub fn wire_bytes(&self) -> (r: Vec<u8>)
        ensures
            r@ == self@.raw,
    {
        let r = self.raw.clone();
        assert(r@ =~= self.raw@);
        r
    }

    pub fn command(&self) -> (r: Option<Command>)
        ensures
            r == self@.command,
    {
        self.command
    }

    pub fn id(&self) -> (r: u32)
        ensures
            r == self@.id,
    {
        self.id
    }

    pub fn address(&self) -> (r: u32)
        ensures
            r == self@.address,
    {
        self.address
    }

    pub fn data(&self) -> (r: &[u8])
        ensures
            r@ == self@.data,
    {
        self.data.as_slice()
    }

    pub fn data_hex(&self) -> (r: String)
        ensures
            r@ == hex_chars(self@.data),
    {
        hex(self.data.as_slice())
    }

    /// Feed one received byte.
    fn step(&mut self, c: u8) -> (o: Step)
        requires
            old(self).wf(),
            old(self)@.consumed < usize::MAX,
        ensures
            final(self).wf(),
            (final(self)@, o) == rx_step(old(self)@, c),
    {
        self.consumed_bytes = self.consumed_bytes + 1;

        // sync to start token
        if self.buffer.len() == 0 {
            if c == START_TOKEN {
                self.raw.clear();
                self.raw.push(c);
                self.buffer.push(c);
                assert(self.raw@ =~= seq![c]);
                assert(self.buffer@ =~= seq![c]);
            }
            return Step::Continue;
        }
        // every byte from the start token on belongs to the wire bytes,
        // escape tokens included (buffer strips them, raw must not)
        self.raw.push(c);

        if self.escaping {
            self.escaping = false;
        } else if c == ESCAPE_TOKEN {
            self.escaping = true;
            return Step::Continue;
        }
        self.buffer.push(c);
        self.after_push()
    }

    /// Act on the byte that was just added to the unescaped buffer.
    fn after_push(&mut self) -> (o: Step)
        requires
            old(self)@.buffer.len() >= 2,
            rx_wf(RxModel { buffer: old(self)@.buffer.drop_last(), ..old(self)@ }),
        ensures
            final(self).wf(),
            (final(self)@, o) == rx_after_push(old(self)@),
    {
        let blen = self.buffer.len();
        proof {
            lemma_command_byte_roundtrip(Command::Read);
            lemma_command_byte_roundtrip(Command::Write);
            lemma_command_byte_roundtrip(Command::LongWrite);
            lemma_command_byte_roundtrip(Command::Response);
            lemma_command_byte_roundtrip(Command::LongResponse);
            lemma_command_byte_roundtrip(Command::ReadPeriodically);
            lemma_command_byte_roundtrip(Command::Extension);
        }
        if blen == 2 {
            // command byte
            let raw = self.buffer[1];
            let cmd = match Command::from_byte(raw) {
                Some(cmd) => cmd,
                None => {
                    return Step::InvalidCommand(raw);
                },
            };
            if cmd == Command::Extension {
                return Step::InvalidCommand(raw);
            }
            self.command = Some(cmd);
            if Command::is_plant_byte(raw) {
                self.frame_header_length = self.frame_header_length + 4;
            }
            if cmd.is_long() {
                self.frame_header_length = self.frame_header_length + 1;
            }
            Step::Continue
        } else if blen == self.frame_header_length && self.command.is_some()
            && self.frame_length == 0 {
            let cmd = self.command.unwrap();
            let (data_length, oid_idx) = if cmd.is_long() {
                (be16(self.buffer[2], self.buffer[3]) as usize, 4usize)
            } else {
                (self.buffer[2] as usize, 3usize)
            };
            let plant = Command::is_plant_byte(self.buffer[1]);
            if plant {
                // length field includes address + id (8 bytes)
                self.frame_length = (self.frame_header_length - 8) + data_length + 2;
                self.address = be32(self.buffer.as_slice(), oid_idx);
            } else {
                // length field includes id (4 bytes)
                self.frame_length = (self.frame_header_length - 4) + data_length + 2;
            }
            let oid_idx = if plant {
                oid_idx + 4
            } else {
                oid_idx
            };
            self.id = be32(self.buffer.as_slice(), oid_idx);
            Step::Continue
        } else if self.frame_length > 0 && blen == self.frame_length {
            let recv = be16(self.buffer[blen - 2], self.buffer[blen - 1]);
            let calc = crc16(slice_subrange(self.buffer.as_slice(), 1, blen - 2));
            let ok = recv == calc;
            let hdr = self.header_complete_at();
            if hdr > blen - 2 {
                // the length field announced fewer bytes than the header holds
                return Step::LengthExceeded;
            }
            self.complete = true;
            self.crc16_recv = recv;
            self.crc_ok = ok;
            self.data = slice_to_vec(slice_subrange(self.buffer.as_slice(), hdr, blen - 2));
            if !self.crc_ok && !self.ignore_crc_mismatch {
                return Step::CrcMismatch(self.crc16_recv, calc);
            }
            Step::Finished
        } else if self.frame_length > 0 && blen > self.frame_length {
            Step::LengthExceeded
        } else {
            Step::Continue
        }
    }

    /// Feed received bytes; returns consumed count. Errors carry the consumed
    /// offset so callers can drop those bytes and re-sync with a new parser.
    pub fn consume(&mut self, data: &[u8]) -> (r: Result<usize, RctError>)
        requires
            old(self).wf(),
            old(self)@.consumed + data@.len() <= usize::MAX,
        ensures
            final(self).wf(),
            final(self)@ == rx_run(old(self)@, data@, 0).0,
            match r {
                Ok(i) => rx_run(old(self)@, data@, 0).1 == RunEnd::Done(i as nat),
                Err(e) => rx_run(old(self)@, data@, 0).1 matches RunEnd::Failed(s, n) && reports(
                    e,
                    s,
                    n,
                ),
            },
            match r {
                Ok(i) => i <= data@.len() && final(self)@.consumed == old(self)@.consumed + i,
                Err(_) => rx_run(old(self)@, data@, 0).1 matches RunEnd::Failed(_, n) && 0 < n
                    <= data@.len() && final(self)@.consumed == old(self)@.consumed + n,
            },
            final(self)@.crc_ok ==> final(self)@.complete,
            old(self)@.complete ==> {
                &&& final(self)@.complete
                &&& final(self)@.crc_ok == old(self)@.crc_ok
                &&& final(self)@.command == old(self)@.command
                &&& final(self)@.id == old(self)@.id
                &&& final(self)@.address == old(self)@.address
                &&& final(self)@.data == old(self)@.data
            },
            !old(self)@.complete && final(self)@.complete ==> match r {
                Ok(_) => final(self)@.crc_ok || final(self)@.ignore_crc_mismatch,
                Err(e) => e is FrameCrcMismatch && !final(self)@.crc_ok
                    && !final(self)@.ignore_crc_mismatch,
            },
            !old(self)@.complete && final(self)@.complete ==> holds_frame(final(self)@),
    {
        let mut i: usize = 0;
        while i < data.len()
            invariant
                self.wf(),
                i <= data@.len(),
                self@.consumed == old(self)@.consumed + i,
                old(self)@.consumed + data@.len() <= usize::MAX,
                rx_run(self@, data@, i as nat) == rx_run(old(self)@, data@, 0),
                rx_wf(old(self)@),
            decreases data@.len() - i,
        {
            proof {
                lemma_run_ends(old(self)@, data@);
            }
            let c = data[i];
            i = i + 1;
            match self.step(c) {
                Step::Continue => {},
                Step::Finished => {
                    return Ok(i);
                },
                Step::InvalidCommand(cmd) => {
                    return Err(RctError::InvalidCommand { cmd, consumed: i });
                },
                Step::LengthExceeded => {
                    return Err(RctError::FrameLengthExceeded { consumed: i });
                },
                Step::CrcMismatch(received, calculated) => {
                    return Err(RctError::FrameCrcMismatch { received, calculated, consumed: i });
                },
            }
        }
        proof {
            lemma_run_ends(old(self)@, data@);
        }
        Ok(i)
    }

    // The header-complete length is dynamic; helper keeps consume() readable.
    fn header_complete_at(&self) -> (r: usize)
        ensures
            r == self@.header_length,
    {
        self.frame_header_length
    }
}

} // verus!
