//! What the protocol proxy reports of the frames it forwards.

use vstd::prelude::*;
use vstd::string::StringExecFns;

use crate::codec::{decode_model, decode_need, decode_value};
use crate::frame::{rx_initial, rx_step, rx_wf, ReceiveFrame, RxModel};
use crate::frame_laws::lemma_run_single;
use crate::registry::{enum_label, ObjectInfo};
use crate::types::{
    decimal_chars, hex_chars, push_decimal, push_upper_hex, upper_hex_digits, Command, DataType,
    DataValue, ValueModel,
};

verus! {

/// The part of a frame description that shows its payload.
pub enum Shown {
    /// An enumeration value, with its label when the object has one.
    Enum { value: u32, label: Option<String> },
    /// A decoded value.
    Value(DataValue),
    /// Payload bytes in hex, when they could not be decoded.
    Hex(String),
}

/// One-line description of a parsed frame: command, object name and id,
/// and its payload when it has one.
pub struct FrameDescription {
    pub command: Option<Command>,
    pub name: String,
    pub id: u32,
    pub shown: Option<Shown>,
}

/// The value a payload decodes to under `t`; none when it is too short.
pub open spec fn decoded(t: DataType, d: Seq<u8>) -> Option<ValueModel> {
    match decode_need(t) {
        None => Some(ValueModel::Raw(d)),
        Some(n) => if d.len() < n {
            None
        } else {
            Some(decode_model(t, d))
        },
    }
}

/// How a payload `d` is shown for the object `obj`.
pub open spec fn shows(s: Shown, d: Seq<u8>, obj: Option<&ObjectInfo>) -> bool {
    match obj {
        None => s matches Shown::Hex(h) && h@ == hex_chars(d),
        Some(o) => match decoded(o.response_data_type, d) {
            None => s matches Shown::Hex(h) && h@ == hex_chars(d),
            Some(v) => if v is U32 && o.request_data_type == DataType::Enum {
                s matches Shown::Enum { value, label } && value == v->U32_0 && match label {
                    Some(l) => enum_label(o.enum_labels@, value) == Some(l@),
                    None => enum_label(o.enum_labels@, value) is None,
                }
            } else {
                s matches Shown::Value(x) && x@ == v
            },
        },
    }
}

/// Description of a parsed frame: registry object name and decoded value
/// when the type allows it, hex payload otherwise. `obj` is the registry's
/// object for the frame's id, if it knows one.
pub fn describe_frame(rx: &ReceiveFrame, obj: Option<&ObjectInfo>) -> (r: FrameDescription)
    ensures
        r.command == rx@.command,
        r.id == rx@.id,
        r.name@ == match obj {
            Some(o) => o.name@,
            None => "unknown"@,
        },
        rx@.data.len() == 0 ==> r.shown is None,
        rx@.data.len() > 0 ==> (r.shown matches Some(s) && shows(s, rx@.data, obj)),
{
    let cmd = rx.command();
    let name = match obj {
        Some(o) => o.name.clone(),
        None => String::from_str("unknown"),
    };
    let data = rx.data();
    let mut shown: Option<Shown> = None;
    if data.len() > 0 {
        let value = match obj {
            Some(o) => match decode_value(o.response_data_type, data) {
                Ok(v) => Some(v),
                Err(_) => None,
            },
            None => None,
        };
        shown = Some(
            match value {
                Some(v) => match (obj, v) {
                    (Some(o), DataValue::U32(v)) if o.request_data_type == DataType::Enum => {
                        Shown::Enum { value: v, label: o.enum_str(v) }
                    },
                    (_, v) => Shown::Value(v),
                },
                None => Shown::Hex(rx.data_hex()),
            },
        );
    }
    FrameDescription { command: cmd, name, id: rx.id(), shown }
}

/// The name of a command as descriptions print it.
pub open spec fn command_name(c: Command) -> Seq<char> {
    match c {
        Command::Read => "Read"@,
        Command::Write => "Write"@,
        Command::LongWrite => "LongWrite"@,
        Command::Response => "Response"@,
        Command::LongResponse => "LongResponse"@,
        Command::ReadPeriodically => "ReadPeriodically"@,
        Command::Extension => "Extension"@,
    }
}

fn command_name_str(c: Command) -> (r: &'static str)
    ensures
        r@ == command_name(c),
{
    match c {
        Command::Read => "Read",
        Command::Write => "Write",
        Command::LongWrite => "LongWrite",
        Command::Response => "Response",
        Command::LongResponse => "LongResponse",
        Command::ReadPeriodically => "ReadPeriodically",
        Command::Extension => "Extension",
    }
}

/// Text of the part that shows a payload; a decoded value is shown as
/// `value`, the text its caller made of it.
pub open spec fn shown_chars(s: Shown, value: Seq<char>) -> Seq<char> {
    match s {
        Shown::Enum { value: v, label } => match label {
            Some(l) => decimal_chars(v as nat) + " ("@ + l@ + ")"@,
            None => decimal_chars(v as nat),
        },
        Shown::Value(_) => value,
        Shown::Hex(h) => h@,
    }
}

/// The one-line text of a frame description: command (`?` when unknown),
/// object name, id as eight upper-case hex digits, then ` = ` and the shown
/// payload when there is one.
pub open spec fn description_chars(d: FrameDescription, value: Seq<char>) -> Seq<char> {
    (match d.command {
        Some(c) => command_name(c),
        None => "?"@,
    }) + " "@ + d.name@ + " (0x"@ + upper_hex_digits(d.id as nat, 8) + ")"@ + match d.shown {
        Some(s) => " = "@ + shown_chars(s, value),
        None => Seq::empty(),
    }
}

/// The one-line text of a frame description. `value` is the text of the
/// decoded value when the description shows one (floats are printed by the
/// caller); it is not used otherwise.
pub fn render_description(d: &FrameDescription, value: &str) -> (r: String)
    ensures
        r@ == description_chars(*d, value@),
{
    let mut out = String::new();
    match d.command {
        Some(c) => out.append(command_name_str(c)),
        None => out.append("?"),
    }
    out.append(" ");
    out.append(d.name.as_str());
    out.append(" (0x");
    push_upper_hex(&mut out, d.id, 8);
    out.append(")");
    match &d.shown {
        Some(shown) => {
            out.append(" = ");
            match shown {
                Shown::Enum { value: v, label } => {
                    push_decimal(&mut out, *v);
                    match label {
                        Some(l) => {
                            out.append(" (");
                            out.append(l.as_str());
                            out.append(")");
                        },
                        None => {},
                    }
                },
                Shown::Value(_) => out.append(value),
                Shown::Hex(h) => out.append(h.as_str()),
            }
        },
        None => {},
    }
    out
}

/// Cuts the byte stream of a downstream connection into frames, byte by
/// byte. A complete frame is handed out with its parser, whose wire bytes
/// are the frame as it was received.
pub struct FrameSplitter {
    rx: ReceiveFrame,
}

/// What one byte of the stream brings.
pub enum SplitAction {
    /// More bytes are needed.
    Continue,
    /// A frame is complete; its parser holds it.
    Forward { frame: ReceiveFrame },
    /// The bytes do not form a frame; the splitter starts afresh.
    Desync,
}

impl FrameSplitter {
    /// Parser state of the frame being received.
    pub closed spec fn state(&self) -> RxModel {
        self.rx@
    }

    pub open spec fn wf(&self) -> bool {
        rx_wf(self.state())
    }

    pub fn new() -> (r: Self)
        ensures
            r.state() == rx_initial(false),
            r.wf(),
    {
        FrameSplitter { rx: ReceiveFrame::new(false) }
    }

    /// The parser of the frame being received.
    pub fn parser(&self) -> (r: &ReceiveFrame)
        ensures
            r@ == self.state(),
            self.wf() ==> r.wf(),
    {
        &self.rx
    }

    /// Feed the next byte of the stream.
    pub fn push(&mut self, c: u8) -> (r: SplitAction)
        requires
            old(self).wf(),
            old(self).state().consumed < usize::MAX,
        ensures
            final(self).wf(),
            ({
                let (m1, o) = rx_step(old(self).state(), c);
                if o is Continue || o is Finished {
                    if m1.complete {
                        &&& r matches SplitAction::Forward { frame } && frame@ == m1
                        &&& final(self).state() == rx_initial(false)
                    } else {
                        &&& r is Continue
                        &&& final(self).state() == m1
                    }
                } else {
                    &&& r is Desync
                    &&& final(self).state() == rx_initial(false)
                }
            }),
    {
        let one = [c];
        assert(one@ =~= seq![c]);
        proof {
            lemma_run_single(self.rx@, c);
        }
        match self.rx.consume(&one) {
            Ok(_) => {
                if self.rx.complete() {
                    let mut done = ReceiveFrame::new(false);
                    std::mem::swap(&mut done, &mut self.rx);
                    SplitAction::Forward { frame: done }
                } else {
                    SplitAction::Continue
                }
            },
            Err(_) => {
                self.rx = ReceiveFrame::new(false);
                SplitAction::Desync
            },
        }
    }
}

} // verus!
