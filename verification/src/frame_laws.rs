//! What the parser gives back of a frame that `make_frame` built.

use vstd::prelude::*;

use crate::codec::{
    be_u16, be_u32, crc16_of, lemma_be_u16_value, lemma_be_u32_value, u16_of, u32_at,
};
use crate::frame::{
    carried, escape_byte, escaped, frame_body, frame_bytes, frame_tail, is_token, length_field,
    length_fits,
    plant_frame_bytes, rx_after_push, rx_initial, rx_run, rx_step, rx_wf, with_crc, RunEnd,
    RxModel, Step, ESCAPE_TOKEN, START_TOKEN,
};
use crate::types::{
    command_byte, command_is_long, frame_type_value, lemma_command_byte_roundtrip, Command,
    FrameType, PLANT_BIT,
};

verus! {

/// Inputs on which a frame survives the trip through the parser: not the
/// EXTENSION command (which the parser refuses), and a length field (the
/// frame type's 4 or 8 header bytes plus the carried payload) that fits its
/// one byte (two bytes for long commands).
pub open spec fn roundtrip_ok(command: Command, frame_type: FrameType, payload: Seq<u8>) -> bool {
    &&& command != Command::Extension
    &&& if command_is_long(command) {
        frame_type_value(frame_type) + carried(command, payload).len() <= 0xFFFF
    } else {
        frame_type_value(frame_type) + carried(command, payload).len() <= 0xFF
    }
}

/// What a sender put into a frame.
struct Sent {
    command: Command,
    id: u32,
    payload: Seq<u8>,
    address: u32,
    frame_type: FrameType,
}

/// Command byte on the wire: plant frames set the plant bit.
spec fn rt_cmd_byte(s: Sent) -> u8 {
    if s.frame_type == FrameType::Plant {
        command_byte(s.command) | PLANT_BIT
    } else {
        command_byte(s.command)
    }
}

spec fn rt_body(s: Sent) -> Seq<u8> {
    seq![rt_cmd_byte(s)] + frame_tail(s.command, s.id, s.payload, s.address, s.frame_type)
}

spec fn rt_full(s: Sent) -> Seq<u8> {
    with_crc(rt_body(s))
}

spec fn rt_bytes(s: Sent) -> Seq<u8> {
    seq![START_TOKEN] + escaped(rt_full(s))
}

/// Header length that the parser computes for the frame: start, command,
/// length (1 or 2 bytes), address (plant frames), id.
spec fn rt_hdr(s: Sent) -> nat {
    7 + (if s.frame_type == FrameType::Plant {
        4nat
    } else {
        0nat
    }) + (if command_is_long(s.command) {
        1nat
    } else {
        0nat
    })
}

/// Parser state after the start token and the first `k` unescaped bytes.
spec fn rt_state(s: Sent, ignore: bool, k: nat) -> RxModel {
    let full = rt_full(s);
    let n = full.len();
    let hdr = rt_hdr(s);
    RxModel {
        complete: k == n,
        crc_ok: k == n,
        escaping: false,
        crc16_recv: if k == n {
            crc16_of(rt_body(s))
        } else {
            0
        },
        frame_length: if k + 1 >= hdr {
            n + 1
        } else {
            0
        },
        command: if k >= 1 {
            Some(s.command)
        } else {
            None
        },
        buffer: seq![START_TOKEN] + full.take(k as int),
        raw: seq![START_TOKEN] + escaped(full.take(k as int)),
        consumed: 1 + escaped(full.take(k as int)).len(),
        header_length: if k >= 1 {
            hdr
        } else {
            7
        },
        id: if k + 1 >= hdr {
            s.id
        } else {
            0
        },
        address: if k + 1 >= hdr && s.frame_type == FrameType::Plant {
            s.address
        } else {
            0
        },
        data: if k == n {
            carried(s.command, s.payload)
        } else {
            Seq::empty()
        },
        ignore_crc_mismatch: ignore,
    }
}

/// The state once byte `k` was added to the buffer, before the parser acts
/// on it.
spec fn rt_pushed(s: Sent, ignore: bool, k: nat) -> RxModel {
    let full = rt_full(s);
    let m = rt_state(s, ignore, k);
    RxModel {
        buffer: m.buffer.push(full[k as int]),
        raw: m.raw + escape_byte(full[k as int]),
        consumed: m.consumed + escape_byte(full[k as int]).len(),
        ..m
    }
}

/// The layout of the unescaped content of a frame.
#[verifier::spinoff_prover]
#[verifier::rlimit(40)]
proof fn lemma_rt_layout(s: Sent)
    requires
        roundtrip_ok(s.command, s.frame_type, s.payload),
    ensures
        ({
            let full = rt_full(s);
            let hdr = rt_hdr(s);
            let body = rt_body(s);
            let p = carried(s.command, s.payload);
            let tf = frame_type_value(s.frame_type);
            &&& full.len() == hdr + p.len() + 1
            &&& body.len() == hdr + p.len() - 1
            &&& full.take(body.len() as int) == body
            &&& full[0] == rt_cmd_byte(s)
            &&& (if command_is_long(s.command) {
                u16_of(full[1], full[2]) == tf + p.len()
            } else {
                full[1] == tf + p.len()
            })
            &&& s.frame_type == FrameType::Plant ==> u32_at(full, hdr - 9) == s.address
            &&& u32_at(full, hdr - 5) == s.id
            &&& full.subrange(hdr - 1, hdr - 1 + p.len()) == p
            &&& u16_of(full[full.len() - 2], full[full.len() - 1]) == crc16_of(body)
        }),
{
    let full = rt_full(s);
    let hdr = rt_hdr(s);
    let body = rt_body(s);
    let p = carried(s.command, s.payload);
    let tf = frame_type_value(s.frame_type);
    let lf = length_field(s.command, s.frame_type, p.len());
    let crc = crc16_of(body);
    let addr = if s.frame_type == FrameType::Plant {
        be_u32(s.address)
    } else {
        Seq::empty()
    };
    assert(body =~= seq![rt_cmd_byte(s)] + lf + addr + be_u32(s.id) + p);
    assert(full =~= body + be_u16(crc));
    assert(full.take(body.len() as int) =~= body);
    lemma_be_u32_value(s.id);
    lemma_be_u32_value(s.address);
    lemma_be_u16_value(crc);
    if command_is_long(s.command) {
        let v = (tf + p.len() % 65536) as u16;
        assert(p.len() % 65536 == p.len());
        lemma_be_u16_value(v);
        assert(lf == be_u16(v));
        assert(full[1] == be_u16(v)[0] && full[2] == be_u16(v)[1]);
    } else {
        assert(p.len() % 256 == p.len());
        assert(full[1] == lf[0]);
    }
    assert(u32_at(full, hdr - 5) == u32_at(be_u32(s.id), 0));
    if s.frame_type == FrameType::Plant {
        assert(u32_at(full, hdr - 9) == u32_at(be_u32(s.address), 0));
    }
    assert(full.subrange(hdr - 1, hdr - 1 + p.len()) =~= p);
    assert(full[full.len() - 2] == be_u16(crc)[0]);
    assert(full[full.len() - 1] == be_u16(crc)[1]);
}

/// The wire form of a prefix is a prefix of the wire form.
proof fn lemma_escaped_prefix(s: Seq<u8>, k: int)
    requires
        0 <= k <= s.len(),
    ensures
        escaped(s.take(k)).len() <= escaped(s).len(),
        forall|j: int|
            0 <= j < escaped(s.take(k)).len() ==> #[trigger] escaped(s)[j] == escaped(s.take(k))[j],
    decreases s.len(),
{
    if k == s.len() {
        assert(s.take(k) =~= s);
    } else {
        assert(s.drop_last().take(k) =~= s.take(k));
        lemma_escaped_prefix(s.drop_last(), k);
    }
}

/// The wire bytes of byte `k` come right after those of the bytes before it.
proof fn lemma_escaped_step(s: Seq<u8>, k: int)
    requires
        0 <= k < s.len(),
    ensures
        escaped(s.take(k + 1)) == escaped(s.take(k)) + escape_byte(s[k]),
        escaped(s.take(k + 1)).len() <= escaped(s).len(),
        forall|j: int|
            0 <= j < escape_byte(s[k]).len() ==> #[trigger] escaped(s)[escaped(s.take(k)).len()
                + j] == escape_byte(s[k])[j],
{
    assert(s.take(k + 1).drop_last() =~= s.take(k));
    lemma_escaped_prefix(s, k + 1);
    assert forall|j: int| 0 <= j < escape_byte(s[k]).len() implies #[trigger] escaped(s)[escaped(
        s.take(k),
    ).len() + j] == escape_byte(s[k])[j] by {
        assert(escaped(s.take(k + 1))[escaped(s.take(k)).len() + j] == escape_byte(s[k])[j]);
    }
}

/// Acting on byte `k` once it is in the buffer.
proof fn lemma_rt_after_push(s: Sent, ignore: bool, k: nat)
    requires
        roundtrip_ok(s.command, s.frame_type, s.payload),
        k < rt_full(s).len(),
    ensures
        rx_after_push(rt_pushed(s, ignore, k)) == (
            rt_state(s, ignore, k + 1),
            if k + 1 == rt_full(s).len() {
                Step::Finished
            } else {
                Step::Continue
            },
        ),
{
    let full = rt_full(s);
    let n = full.len();
    let hdr = rt_hdr(s);
    let body = rt_body(s);
    let pl = carried(s.command, s.payload);
    let p = rt_pushed(s, ignore, k);
    let next = rt_state(s, ignore, k + 1);
    lemma_rt_layout(s);
    lemma_command_byte_roundtrip(s.command);
    lemma_escaped_step(full, k as int);
    assert(full.take(k + 1 as int).drop_last() =~= full.take(k as int));
    assert(p.buffer =~= next.buffer);
    assert(p.raw =~= next.raw);
    assert(p.buffer.len() == k + 2);
    assert forall|j: int| 1 <= j <= k + 1 implies #[trigger] p.buffer[j] == full[j - 1] by {}
    if k == 0 {
        assert(p.buffer[1] == rt_cmd_byte(s));
        assert(rx_after_push(p).0 =~= next);
    } else if k + 2 == hdr {
        let m = rx_after_push(p).0;
        assert(p.buffer[1] == rt_cmd_byte(s));
        if command_is_long(s.command) {
            assert(p.buffer[2] == full[1] && p.buffer[3] == full[2]);
        } else {
            assert(p.buffer[2] == full[1]);
        }
        assert(u32_at(p.buffer, hdr - 4) == u32_at(full, hdr - 5));
        if s.frame_type == FrameType::Plant {
            assert(u32_at(p.buffer, hdr - 8) == u32_at(full, hdr - 9));
        }
        assert(m =~= next);
    } else if k + 1 == n {
        let blen = p.buffer.len();
        assert(p.buffer[blen - 2] == full[n - 2]);
        assert(p.buffer[blen - 1] == full[n - 1]);
        assert(p.buffer.subrange(1, blen - 2) =~= full.take(body.len() as int));
        assert(p.buffer.subrange(hdr as int, blen - 2) =~= full.subrange(
            hdr - 1,
            hdr - 1 + pl.len(),
        ));
        assert(rx_after_push(p).0 =~= next);
    } else {
        assert(rx_after_push(p).0 =~= next);
    }
}

/// Feeding the wire bytes of byte `k` moves the parser from the state of
/// the first `k` bytes to that of the first `k + 1`.
#[verifier::spinoff_prover]
#[verifier::rlimit(40)]
proof fn lemma_rt_advance(s: Sent, ignore: bool, k: nat)
    requires
        roundtrip_ok(s.command, s.frame_type, s.payload),
        k < rt_full(s).len(),
    ensures
        ({
            let full = rt_full(s);
            let f = rt_bytes(s);
            let w = 1 + escaped(full.take(k as int)).len();
            let w1 = 1 + escaped(full.take(k + 1 as int)).len();
            rx_run(rt_state(s, ignore, k), f, w as nat) == if k + 1 < full.len() {
                rx_run(rt_state(s, ignore, k + 1), f, w1 as nat)
            } else {
                (rt_state(s, ignore, k + 1), RunEnd::Done(w1 as nat))
            }
        }),
{
    let full = rt_full(s);
    let f = rt_bytes(s);
    let w: int = 1 + escaped(full.take(k as int)).len() as int;
    let m = rt_state(s, ignore, k);
    let b = full[k as int];
    lemma_escaped_step(full, k as int);
    lemma_rt_after_push(s, ignore, k);
    assert(m.buffer.len() == k + 1);
    let e = escaped(full);
    let pre = escaped(full.take(k as int)).len() as int;
    assert(e[pre + 0] == escape_byte(b)[0]);
    assert(f[w] == e[pre]);
    if is_token(b) {
        assert(e[pre + 1] == escape_byte(b)[1]);
        assert(f[w + 1] == e[pre + 1]);
        assert(f[w] == ESCAPE_TOKEN);
        assert(f[w + 1] == b);
        let (m1, o1) = rx_step(m, ESCAPE_TOKEN);
        assert(o1 == Step::Continue);
        let (m2, o2) = rx_step(m1, b);
        assert(m1.escaping);
        assert(m2 == rx_after_push(rt_pushed(s, ignore, k)).0) by {
            assert(m1.raw.push(b) =~= m.raw + escape_byte(b));
        }
        assert(o2 == rx_after_push(rt_pushed(s, ignore, k)).1) by {
            assert(m1.raw.push(b) =~= m.raw + escape_byte(b));
        }
        assert(rx_run(m, f, w as nat) == rx_run(m1, f, (w + 1) as nat));
        assert(rx_run(m1, f, (w + 1) as nat) == if o2 == Step::Continue {
            rx_run(m2, f, (w + 2) as nat)
        } else {
            (m2, RunEnd::Done((w + 2) as nat))
        });
    } else {
        assert(f[w] == b);
        let (m1, o1) = rx_step(m, b);
        assert(m.raw.push(b) =~= m.raw + escape_byte(b));
        assert(m1 == rx_after_push(rt_pushed(s, ignore, k)).0);
        assert(o1 == rx_after_push(rt_pushed(s, ignore, k)).1);
        assert(rx_run(m, f, w as nat) == if o1 == Step::Continue {
            rx_run(m1, f, (w + 1) as nat)
        } else {
            (m1, RunEnd::Done((w + 1) as nat))
        });
    }
}

/// After the wire bytes of the first `k` unescaped bytes, the parser is in
/// the state of those `k` bytes.
proof fn lemma_rt_prefix(s: Sent, ignore: bool, k: nat)
    requires
        roundtrip_ok(s.command, s.frame_type, s.payload),
        k < rt_full(s).len(),
    ensures
        rx_run(rx_initial(ignore), rt_bytes(s), 0) == rx_run(
            rt_state(s, ignore, k),
            rt_bytes(s),
            (1 + escaped(rt_full(s).take(k as int)).len()) as nat,
        ),
    decreases k,
{
    let full = rt_full(s);
    let f = rt_bytes(s);
    if k == 0 {
        assert(full.take(0) =~= Seq::<u8>::empty());
        assert(f[0] == START_TOKEN);
        let (m1, o1) = rx_step(rx_initial(ignore), START_TOKEN);
        assert(m1 =~= rt_state(s, ignore, 0));
    } else {
        lemma_rt_prefix(s, ignore, (k - 1) as nat);
        lemma_rt_advance(s, ignore, (k - 1) as nat);
    }
}

/// A new parser fed with the wire bytes of a frame gives it back whole.
proof fn lemma_rt_whole(s: Sent, ignore: bool)
    requires
        roundtrip_ok(s.command, s.frame_type, s.payload),
    ensures
        ({
            let f = rt_bytes(s);
            let (m, end) = rx_run(rx_initial(ignore), f, 0);
            &&& end == RunEnd::Done(f.len())
            &&& m.complete
            &&& m.crc_ok
            &&& m.command == Some(s.command)
            &&& m.id == s.id
            &&& m.address == (if s.frame_type == FrameType::Plant {
                s.address
            } else {
                0
            })
            &&& m.data == carried(s.command, s.payload)
            &&& m.raw == f
            &&& m.consumed == f.len()
        }),
{
    let full = rt_full(s);
    let n = full.len();
    lemma_rt_layout(s);
    lemma_rt_prefix(s, ignore, (n - 1) as nat);
    lemma_rt_advance(s, ignore, (n - 1) as nat);
    assert(full.take(n as int) =~= full);
}

/// A standard frame built by `make_frame` is given back whole by a new
/// parser: all its bytes are used, it is complete with a matching CRC, and
/// the parser holds the command, object id and carried payload that were
/// sent (none for READ) and the wire bytes as they were sent. The address
/// is not part of a standard frame.
pub proof fn lemma_frame_roundtrip(
    command: Command,
    id: u32,
    payload: Seq<u8>,
    address: u32,
    ignore_crc_mismatch: bool,
)
    requires
        roundtrip_ok(command, FrameType::Standard, payload),
    ensures
        ({
            let f = frame_bytes(command, id, payload, address, FrameType::Standard);
            let (m, end) = rx_run(rx_initial(ignore_crc_mismatch), f, 0);
            &&& end == RunEnd::Done(f.len())
            &&& m.complete
            &&& m.crc_ok
            &&& m.command == Some(command)
            &&& m.id == id
            &&& m.data == carried(command, payload)
            &&& m.raw == f
            &&& m.consumed == f.len()
        }),
{
    let s = Sent { command, id, payload, address, frame_type: FrameType::Standard };
    assert(rt_body(s) =~= frame_body(command, id, payload, address, FrameType::Standard));
    lemma_rt_whole(s, ignore_crc_mismatch);
}

/// A plant frame, with the plant bit set in its command byte and a length
/// field that counts the address and id, is given back whole by a new
/// parser: all its bytes are used, it is complete with a matching CRC, and
/// the parser holds the command, the address, the object id and the carried
/// payload that were sent.
pub proof fn lemma_plant_frame_roundtrip(
    command: Command,
    id: u32,
    payload: Seq<u8>,
    address: u32,
    ignore_crc_mismatch: bool,
)
    requires
        roundtrip_ok(command, FrameType::Plant, payload),
    ensures
        ({
            let f = plant_frame_bytes(command, id, payload, address);
            let (m, end) = rx_run(rx_initial(ignore_crc_mismatch), f, 0);
            &&& end == RunEnd::Done(f.len())
            &&& m.complete
            &&& m.crc_ok
            &&& m.command == Some(command)
            &&& m.address == address
            &&& m.id == id
            &&& m.data == carried(command, payload)
            &&& m.raw == f
            &&& m.consumed == f.len()
        }),
{
    let s = Sent { command, id, payload, address, frame_type: FrameType::Plant };
    lemma_rt_whole(s, ignore_crc_mismatch);
}

/// The same state with `c` more bytes counted as consumed.
pub open spec fn with_consumed(m: RxModel, c: nat) -> RxModel {
    RxModel { consumed: m.consumed + c, ..m }
}

/// The end of a run over bytes that stand `a` places further in the input.
pub open spec fn shift_end(e: RunEnd, a: nat) -> RunEnd {
    match e {
        RunEnd::Done(n) => RunEnd::Done(n + a),
        RunEnd::Failed(s, n) => RunEnd::Failed(s, n + a),
    }
}

/// The count of consumed bytes plays no part in parsing: a parser that has
/// counted `c` more bytes parses the same input in the same way.
pub proof fn lemma_run_consumed_offset(m: RxModel, data: Seq<u8>, k: nat, c: nat)
    ensures
        rx_run(with_consumed(m, c), data, k) == (
            with_consumed(rx_run(m, data, k).0, c),
            rx_run(m, data, k).1,
        ),
    decreases data.len() - k,
{
    if k < data.len() {
        let (m1, o) = rx_step(m, data[k as int]);
        let (n1, p) = rx_step(with_consumed(m, c), data[k as int]);
        assert(n1 =~= with_consumed(m1, c));
        assert(p == o);
        lemma_run_consumed_offset(m1, data, k + 1, c);
    }
}

/// Parsing does not look back: bytes that come after `a` are parsed as if
/// `a` were not there, their positions moved by the length of `a`.
pub proof fn lemma_run_after_prefix(m: RxModel, a: Seq<u8>, b: Seq<u8>, k: nat)
    ensures
        rx_run(m, a + b, a.len() + k) == (rx_run(m, b, k).0, shift_end(rx_run(m, b, k).1, a.len())),
    decreases b.len() - k,
{
    if k < b.len() {
        assert((a + b)[a.len() + k as int] == b[k as int]);
        let (m1, o) = rx_step(m, b[k as int]);
        lemma_run_after_prefix(m1, a, b, k + 1);
        assert(a.len() + k + 1 == a.len() + (k + 1));
    }
}

/// Before a start token, bytes are only counted: a parser that holds no
/// frame yet skips any bytes other than the start token.
pub proof fn lemma_skip_before_start(m: RxModel, data: Seq<u8>, j: nat)
    requires
        m.buffer.len() == 0,
        j <= data.len(),
        forall|i: int| 0 <= i < j ==> data[i] != START_TOKEN,
    ensures
        rx_run(m, data, 0) == rx_run(with_consumed(m, j), data, j),
    decreases j,
{
    if j > 0 {
        lemma_skip_before_start(m, data, (j - 1) as nat);
        let m1 = with_consumed(m, (j - 1) as nat);
        let (m2, o) = rx_step(m1, data[j - 1]);
        assert(m2 =~= with_consumed(m, j));
    } else {
        assert(with_consumed(m, 0) =~= m);
    }
}

/// A new parser fed with bytes that hold no start token, then a standard
/// frame built by `make_frame`, skips those bytes and gives the frame back
/// whole.
pub proof fn lemma_frame_after_junk(
    junk: Seq<u8>,
    command: Command,
    id: u32,
    payload: Seq<u8>,
    address: u32,
    ignore_crc_mismatch: bool,
)
    requires
        roundtrip_ok(command, FrameType::Standard, payload),
        forall|i: int| 0 <= i < junk.len() ==> junk[i] != START_TOKEN,
    ensures
        ({
            let f = frame_bytes(command, id, payload, address, FrameType::Standard);
            let (m, end) = rx_run(rx_initial(ignore_crc_mismatch), junk + f, 0);
            &&& end == RunEnd::Done(junk.len() + f.len())
            &&& m.complete
            &&& m.crc_ok
            &&& m.command == Some(command)
            &&& m.id == id
            &&& m.data == carried(command, payload)
            &&& m.raw == f
            &&& m.consumed == junk.len() + f.len()
        }),
{
    let f = frame_bytes(command, id, payload, address, FrameType::Standard);
    let data = junk + f;
    let init = rx_initial(ignore_crc_mismatch);
    assert forall|i: int| 0 <= i < junk.len() implies data[i] != START_TOKEN by {
        assert(data[i] == junk[i]);
    }
    lemma_skip_before_start(init, data, junk.len());
    lemma_run_after_prefix(with_consumed(init, junk.len()), junk, f, 0);
    lemma_run_consumed_offset(init, f, 0, junk.len());
    lemma_frame_roundtrip(command, id, payload, address, ignore_crc_mismatch);
    assert(junk.len() + 0 == junk.len());
}

/// The parser counts every byte it uses: a run from position `k` that ends
/// after byte `i` (or fails after byte `i`) has counted `i - k` more bytes,
/// and it never goes past the input.
pub proof fn lemma_run_counts(m: RxModel, data: Seq<u8>, k: nat)
    requires
        k <= data.len(),
    ensures
        match rx_run(m, data, k).1 {
            RunEnd::Done(i) => k <= i <= data.len() && rx_run(m, data, k).0.consumed == m.consumed
                + i - k,
            RunEnd::Failed(_, i) => k < i <= data.len() && rx_run(m, data, k).0.consumed
                == m.consumed + i - k,
        },
    decreases data.len() - k,
{
    if k < data.len() {
        let (m1, o) = rx_step(m, data[k as int]);
        lemma_run_counts(m1, data, k + 1);
    }
}

/// A parser told to ignore CRC mismatches never fails on one, and keeps
/// that setting.
pub proof fn lemma_ignore_crc_mismatch(m: RxModel, data: Seq<u8>, k: nat)
    requires
        m.ignore_crc_mismatch,
    ensures
        !(rx_run(m, data, k).1 matches RunEnd::Failed(Step::CrcMismatch(_, _), _)),
        rx_run(m, data, k).0.ignore_crc_mismatch,
    decreases data.len() - k,
{
    if k < data.len() {
        let (m1, o) = rx_step(m, data[k as int]);
        lemma_run_ignore_step(m, data[k as int]);
        lemma_ignore_crc_mismatch(m1, data, k + 1);
    }
}

proof fn lemma_run_ignore_step(m: RxModel, c: u8)
    requires
        m.ignore_crc_mismatch,
    ensures
        !(rx_step(m, c).1 is CrcMismatch),
        rx_step(m, c).0.ignore_crc_mismatch,
{
}

/// The payload of a READ frame and the address of a standard frame do not
/// reach the wire.
pub proof fn lemma_make_frame_ignores(
    command: Command,
    id: u32,
    p1: Seq<u8>,
    p2: Seq<u8>,
    a1: u32,
    a2: u32,
    frame_type: FrameType,
)
    ensures
        frame_bytes(command, id, p1, a1, FrameType::Standard) == frame_bytes(
            command,
            id,
            p1,
            a2,
            FrameType::Standard,
        ),
        command == Command::Read ==> frame_bytes(
            command,
            id,
            p1,
            a1,
            frame_type,
        ) == frame_bytes(command, id, p2, a1, frame_type),
{
    if command == Command::Read {
        assert(frame_body(command, id, p1, a1, frame_type) =~= frame_body(
            command,
            id,
            p2,
            a1,
            frame_type,
        ));
    }
}

/// In the wire form of any bytes, a start token never stands alone: each
/// one follows an escape token. So a frame's only bare start token is its
/// first byte.
pub proof fn lemma_escaped_start_follows_escape(s: Seq<u8>)
    ensures
        forall|i: int|
            0 <= i < escaped(s).len() && #[trigger] escaped(s)[i] == START_TOKEN ==> i > 0
                && escaped(s)[i - 1] == ESCAPE_TOKEN,
    decreases s.len(),
{
    if s.len() > 0 {
        let p = escaped(s.drop_last());
        lemma_escaped_start_follows_escape(s.drop_last());
        let e = escape_byte(s.last());
        assert(escaped(s) == p + e);
        assert forall|i: int|
            0 <= i < escaped(s).len() && #[trigger] escaped(s)[i] == START_TOKEN implies i > 0
                && escaped(s)[i - 1] == ESCAPE_TOKEN by {
            if i < p.len() {
                assert(escaped(s)[i] == p[i]);
                assert(escaped(s)[i - 1] == p[i - 1]);
            } else {
                assert(escaped(s)[i] == e[i - p.len()]);
                if is_token(s.last()) {
                    assert(i == p.len() + 1);
                    assert(escaped(s)[i - 1] == e[0]);
                }
            }
        }
    }
}

/// Feeding the bytes in two calls is feeding them in one: when the first
/// part is used up without completing a frame, the second part continues
/// where it left off.
pub proof fn lemma_run_split(m: RxModel, a: Seq<u8>, b: Seq<u8>, k: nat)
    requires
        k <= a.len(),
        rx_run(m, a, k).1 == RunEnd::Done(a.len()),
        !rx_run(m, a, k).0.complete,
    ensures
        ({
            let m1 = rx_run(m, a, k).0;
            rx_run(m, a + b, k) == (rx_run(m1, b, 0).0, shift_end(rx_run(m1, b, 0).1, a.len()))
        }),
    decreases a.len() - k,
{
    if k == a.len() {
        lemma_run_after_prefix(m, a, b, 0);
        assert(a.len() + 0 == a.len());
    } else {
        assert((a + b)[k as int] == a[k as int]);
        let (m1, o) = rx_step(m, a[k as int]);
        if o == Step::Finished {
            assert(m1.complete);
        }
        lemma_run_split(m1, a, b, k + 1);
    }
}

/// Once the parser holds a frame, every byte it uses is added to the wire
/// bytes, escape tokens included.
proof fn lemma_raw_follows_input(m: RxModel, data: Seq<u8>, k: nat, s: int)
    requires
        m.buffer.len() > 0,
        0 <= s <= k <= data.len(),
        m.raw == data.subrange(s, k as int),
    ensures
        match rx_run(m, data, k).1 {
            RunEnd::Done(i) => rx_run(m, data, k).0.raw == data.subrange(s, i as int),
            RunEnd::Failed(_, i) => rx_run(m, data, k).0.raw == data.subrange(s, i as int),
        },
    decreases data.len() - k,
{
    if k < data.len() {
        let (m1, o) = rx_step(m, data[k as int]);
        assert(m1.raw =~= data.subrange(s, k + 1 as int));
        assert(m1.buffer.len() > 0);
        lemma_raw_follows_input(m1, data, k + 1, s);
    }
}

/// The wire bytes of a frame are the received bytes from its start token
/// on, exactly as received: a new parser fed with input whose first start
/// token stands at `s` holds the input from `s` up to the last byte it used.
pub proof fn lemma_wire_bytes_as_received(data: Seq<u8>, s: int, ignore_crc_mismatch: bool)
    requires
        0 <= s < data.len(),
        data[s] == START_TOKEN,
        forall|i: int| 0 <= i < s ==> data[i] != START_TOKEN,
    ensures
        match rx_run(rx_initial(ignore_crc_mismatch), data, 0).1 {
            RunEnd::Done(i) => rx_run(rx_initial(ignore_crc_mismatch), data, 0).0.raw
                == data.subrange(s, i as int),
            RunEnd::Failed(_, i) => rx_run(rx_initial(ignore_crc_mismatch), data, 0).0.raw
                == data.subrange(s, i as int),
        },
{
    let init = rx_initial(ignore_crc_mismatch);
    lemma_skip_before_start(init, data, s as nat);
    let m = with_consumed(init, s as nat);
    let (m1, o) = rx_step(m, START_TOKEN);
    assert(m1.raw =~= data.subrange(s, s + 1));
    lemma_raw_follows_input(m1, data, (s + 1) as nat, s);
}

/// Feeding a single byte is one step of the parser.
pub proof fn lemma_run_single(m: RxModel, c: u8)
    ensures
        ({
            let (m1, o) = rx_step(m, c);
            rx_run(m, seq![c], 0) == (
                m1,
                match o {
                    Step::Continue => RunEnd::Done(1),
                    Step::Finished => RunEnd::Done(1),
                    _ => RunEnd::Failed(o, 1),
                },
            )
        }),
{
    let s = seq![c];
    assert(s[0] == c);
    let (m1, o) = rx_step(m, c);
    assert(rx_run(m1, s, 1) == (m1, RunEnd::Done(1)));
}

/// A parser holds one frame: once a byte completes it, the next byte that
/// is not an escape token fails with `LengthExceeded`.
pub proof fn lemma_one_frame_per_parser(m: RxModel, c1: u8, c2: u8)
    requires
        rx_wf(m),
        rx_step(m, c1).1 == Step::Finished,
        c2 != ESCAPE_TOKEN,
    ensures
        rx_step(rx_step(m, c1).0, c2).1 == Step::LengthExceeded,
{
}

/// A matching CRC is only ever recorded for a complete frame: it holds of
/// every parser state that `new` and `consume` reach.
pub proof fn lemma_crc_ok_means_complete(m: RxModel)
    requires
        rx_wf(m),
    ensures
        m.crc_ok ==> m.complete,
{
}

/// The byte that completes a frame is the only one that reports on its CRC.
proof fn lemma_step_completion(m: RxModel, c: u8)
    requires
        !m.complete,
    ensures
        ({
            let (m1, o) = rx_step(m, c);
            &&& m1.ignore_crc_mismatch == m.ignore_crc_mismatch
            &&& m1.complete <==> (o is Finished || o is CrcMismatch)
            &&& o is Finished ==> (m1.crc_ok || m1.ignore_crc_mismatch)
            &&& o is CrcMismatch ==> !m1.crc_ok && !m1.ignore_crc_mismatch
        }),
{
}

/// How a run that completes a frame ends: with all its bytes used up to the
/// last byte of the frame, the CRC matching or mismatches ignored; or with
/// a CRC mismatch, reported as such, the frame complete without a matching
/// CRC. A run that fails in any other way leaves the frame incomplete.
pub proof fn lemma_completion_outcome(m: RxModel, data: Seq<u8>, k: nat)
    requires
        !m.complete,
    ensures
        ({
            let (m1, end) = rx_run(m, data, k);
            &&& m1.ignore_crc_mismatch == m.ignore_crc_mismatch
            &&& m1.complete ==> ((end is Done && (m1.crc_ok || m1.ignore_crc_mismatch)) || (
            end matches RunEnd::Failed(Step::CrcMismatch(_, _), _) && !m1.crc_ok
                && !m1.ignore_crc_mismatch))
            &&& end matches RunEnd::Failed(Step::CrcMismatch(_, _), _) ==> m1.complete
                && !m1.crc_ok
            &&& (end matches RunEnd::Failed(s, _) && !(s is CrcMismatch)) ==> !m1.complete
            &&& m1.complete ==> holds_frame(m1)
        }),
    decreases data.len() - k,
{
    if k < data.len() {
        let (m1, o) = rx_step(m, data[k as int]);
        lemma_step_completion(m, data[k as int]);
        if m1.complete {
            lemma_completed_frame_contents(m, data[k as int]);
        }
        if o is Continue {
            lemma_completion_outcome(m1, data, k + 1);
        }
    }
}

/// A complete frame whose buffer is past its end.
spec fn settled(m: RxModel) -> bool {
    &&& m.complete
    &&& m.command is Some
    &&& m.frame_length >= 5
    &&& m.buffer.len() >= m.frame_length
}

proof fn lemma_settled_run(m: RxModel, data: Seq<u8>, k: nat)
    requires
        settled(m),
    ensures
        ({
            let m1 = rx_run(m, data, k).0;
            &&& settled(m1)
            &&& m1.crc_ok == m.crc_ok
            &&& m1.command == m.command
            &&& m1.id == m.id
            &&& m1.address == m.address
            &&& m1.data == m.data
        }),
    decreases data.len() - k,
{
    if k < data.len() {
        let (m1, o) = rx_step(m, data[k as int]);
        if o is Continue {
            lemma_settled_run(m1, data, k + 1);
        }
    }
}

/// A parser holds one frame: once it is complete, no further input changes
/// that it is complete, whether its CRC matched, or its command, object id,
/// address and data.
pub proof fn lemma_complete_is_final(m: RxModel, data: Seq<u8>, k: nat)
    requires
        rx_wf(m),
        m.complete,
    ensures
        ({
            let m1 = rx_run(m, data, k).0;
            &&& m1.complete
            &&& m1.crc_ok == m.crc_ok
            &&& m1.command == m.command
            &&& m1.id == m.id
            &&& m1.address == m.address
            &&& m1.data == m.data
        }),
{
    lemma_settled_run(m, data, k);
}

/// Every frame `make_frame` builds, of either frame type, carries after
/// its start token the escaped body followed by the big-endian CRC16 of that
/// whole body, the command byte included.
pub proof fn lemma_frame_checksum(
    command: Command,
    id: u32,
    payload: Seq<u8>,
    address: u32,
    frame_type: FrameType,
)
    ensures
        ({
            let b = frame_body(command, id, payload, address, frame_type);
            &&& b[0] == command_byte(command)
            &&& frame_bytes(command, id, payload, address, frame_type) == seq![START_TOKEN]
                + escaped(b + be_u16(crc16_of(b)))
        }),
{
}

/// A completed frame as the parser holds it: its data is exactly the
/// unescaped bytes between the header and the two CRC bytes, its received
/// CRC is those two bytes, and the CRC matches exactly when it equals the
/// CRC16 of the bytes between the start token and the CRC.
pub open spec fn holds_frame(m: RxModel) -> bool {
    let n = m.buffer.len();
    &&& n >= 2
    &&& n == m.frame_length
    &&& m.header_length <= n - 2
    &&& m.data == m.buffer.subrange(m.header_length as int, n - 2)
    &&& m.crc16_recv == u16_of(m.buffer[n - 2], m.buffer[n - 1])
    &&& m.crc_ok == (m.crc16_recv == crc16_of(m.buffer.subrange(1, n - 2)))
}

/// Whenever a byte completes a frame, the parser holds that frame (see
/// `holds_frame`), whatever the CRC outcome and whether CRC mismatches are
/// ignored or not.
pub proof fn lemma_completed_frame_contents(m: RxModel, c: u8)
    requires
        !m.complete,
        rx_step(m, c).0.complete,
    ensures
        holds_frame(rx_step(m, c).0),
{
}

/// The layout of the body of every frame `make_frame` builds: the command
/// byte; the length field (two bytes for long commands, one otherwise)
/// holding the frame type's 4 or 8 plus the count of carried payload bytes;
/// for plant frames the address; the object id; then the carried payload
/// (none for READ).
pub proof fn lemma_frame_layout(
    command: Command,
    id: u32,
    payload: Seq<u8>,
    address: u32,
    frame_type: FrameType,
)
    requires
        length_fits(command, frame_type, carried(command, payload).len()),
    ensures
        ({
            let b = frame_body(command, id, payload, address, frame_type);
            let p = carried(command, payload);
            let l: int = if command_is_long(command) {
                3
            } else {
                2
            };
            let a: int = if frame_type == FrameType::Plant {
                4
            } else {
                0
            };
            &&& b.len() == l + a + 4 + p.len()
            &&& b[0] == command_byte(command)
            &&& (if command_is_long(command) {
                u16_of(b[1], b[2]) as int == frame_type_value(frame_type) + p.len() % 65536
            } else {
                b[1] as int == frame_type_value(frame_type) + p.len() % 256
            })
            &&& frame_type == FrameType::Plant ==> u32_at(b, l) == address
            &&& u32_at(b, l + a) == id
            &&& b.subrange(l + a + 4, b.len() as int) == p
        }),
{
    let b = frame_body(command, id, payload, address, frame_type);
    let p = carried(command, payload);
    let lf = length_field(command, frame_type, p.len());
    let addr = if frame_type == FrameType::Plant {
        be_u32(address)
    } else {
        Seq::empty()
    };
    assert(b =~= seq![command_byte(command)] + lf + addr + be_u32(id) + p);
    lemma_be_u32_value(id);
    lemma_be_u32_value(address);
    let l: int = if command_is_long(command) {
        3
    } else {
        2
    };
    let a: int = addr.len() as int;
    if command_is_long(command) {
        let v = (frame_type_value(frame_type) + p.len() % 65536) as u16;
        lemma_be_u16_value(v);
        assert(b[1] == be_u16(v)[0] && b[2] == be_u16(v)[1]);
    } else {
        assert(b[1] == lf[0]);
    }
    assert(u32_at(b, l + a) == u32_at(be_u32(id), 0));
    if frame_type == FrameType::Plant {
        assert(u32_at(b, l) == u32_at(be_u32(address), 0));
    }
    assert(b.subrange(l + a + 4, b.len() as int) =~= p);
}

} // verus!
