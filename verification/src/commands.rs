//! Commands a CP sends to a PD: tagged variants carrying kind-specific
//! payloads, with their wire encoding. Exactly one command is in flight
//! per PD at a time; the wire form rides inside a frame payload.

use vstd::prelude::*;
use vstd::slice::slice_subrange;
use vstd::slice::slice_to_vec;

verus! {

/// Output control command.
#[derive(Clone, Copy, Debug, PartialEq, Eq, Structural)]
pub struct OsdpCommandOutput {
    /// Which output circuit to drive.
    pub output_no: u8,
    /// The control code to apply.
    pub control_code: u8,
    /// Timer in centiseconds, 0 for permanent.
    pub timer_count: u16,
}

/// LED control command.
#[derive(Clone, Copy, Debug, PartialEq, Eq, Structural)]
pub struct OsdpCommandLed {
    /// Reader the LED belongs to.
    pub reader: u8,
    /// Which LED to drive.
    pub led: u8,
    /// Color while on.
    pub on_color: u8,
    /// Color while off.
    pub off_color: u8,
    /// On time in centiseconds.
    pub on_count: u8,
    /// Off time in centiseconds.
    pub off_count: u8,
}

/// Buzzer control command.
#[derive(Clone, Copy, Debug, PartialEq, Eq, Structural)]
pub struct OsdpCommandBuzzer {
    /// Reader the buzzer belongs to.
    pub reader: u8,
    /// Tone control code.
    pub control_code: u8,
    /// On time in centiseconds.
    pub on_count: u8,
    /// Off time in centiseconds.
    pub off_count: u8,
    /// Number of repetitions.
    pub rep_count: u8,
}

/// Text output command.
#[derive(Clone, Debug, PartialEq, Eq)]
pub struct OsdpCommandText {
    /// Reader the display belongs to.
    pub reader: u8,
    /// Display control code.
    pub control_code: u8,
    /// Row to place the text at.
    pub offset_row: u8,
    /// Column to place the text at.
    pub offset_col: u8,
    /// The text bytes (at most 32).
    pub data: Vec<u8>,
}

/// Secure-channel key set command: installs a new base key.
#[derive(Clone, Debug, PartialEq, Eq)]
pub struct OsdpCommandKeyset {
    /// Type of the key being set.
    pub key_type: u8,
    /// The 16 key bytes.
    pub data: Vec<u8>,
}

/// Communication parameters set command.
#[derive(Clone, Copy, Debug, PartialEq, Eq, Structural)]
pub struct OsdpCommandComSet {
    /// The new PD address.
    pub address: u8,
    /// The new baud rate.
    pub baud_rate: u32,
}

/// File transfer request command.
#[derive(Clone, Copy, Debug, PartialEq, Eq, Structural)]
pub struct OsdpCommandFileTx {
    /// Pre-agreed file id.
    pub id: i32,
    /// Transfer flags.
    pub flags: u32,
}

impl OsdpCommandFileTx {
    /// Create a file transfer request for a file id.
    pub fn new(id: i32, flags: u32) -> (r: OsdpCommandFileTx)
        ensures
            r == (OsdpCommandFileTx { id, flags }),
    {
        OsdpCommandFileTx { id, flags }
    }
}

/// Vendor-specific command.
#[derive(Clone, Debug, PartialEq, Eq)]
pub struct OsdpCommandMfg {
    /// IEEE vendor code.
    pub vendor_code: u32,
    /// Vendor command id.
    pub command: u8,
    /// Vendor payload (at most 64 bytes).
    pub data: Vec<u8>,
}

/// A command from CP to PD.
#[derive(Clone, Debug, PartialEq, Eq)]
pub enum OsdpCommand {
    /// Drive an output circuit.
    Output(OsdpCommandOutput),
    /// Drive an LED.
    Led(OsdpCommandLed),
    /// Drive the buzzer.
    Buzzer(OsdpCommandBuzzer),
    /// Show text.
    Text(OsdpCommandText),
    /// Install a new secure-channel base key.
    Keyset(OsdpCommandKeyset),
    /// Change communication parameters.
    ComSet(OsdpCommandComSet),
    /// Start a file transfer.
    FileTx(OsdpCommandFileTx),
    /// Vendor-specific command.
    Mfg(OsdpCommandMfg),
}

/// The mathematical value of a command: variable-length payloads as
/// sequences.
pub enum CommandView {
    /// Drive an output circuit.
    Output { output_no: u8, control_code: u8, timer_count: u16 },
    /// Drive an LED.
    Led { reader: u8, led: u8, on_color: u8, off_color: u8, on_count: u8, off_count: u8 },
    /// Drive the buzzer.
    Buzzer { reader: u8, control_code: u8, on_count: u8, off_count: u8, rep_count: u8 },
    /// Show text.
    Text { reader: u8, control_code: u8, offset_row: u8, offset_col: u8, data: Seq<u8> },
    /// Install a new secure-channel base key.
    Keyset { key_type: u8, data: Seq<u8> },
    /// Change communication parameters.
    ComSet { address: u8, baud_rate: u32 },
    /// Start a file transfer.
    FileTx { id: i32, flags: u32 },
    /// Vendor-specific command.
    Mfg { vendor_code: u32, command: u8, data: Seq<u8> },
}

impl View for OsdpCommand {
    type V = CommandView;

    open spec fn view(&self) -> CommandView {
        match self {
            OsdpCommand::Output(o) => CommandView::Output {
                output_no: o.output_no,
                control_code: o.control_code,
                timer_count: o.timer_count,
            },
            OsdpCommand::Led(l) => CommandView::Led {
                reader: l.reader,
                led: l.led,
                on_color: l.on_color,
                off_color: l.off_color,
                on_count: l.on_count,
                off_count: l.off_count,
            },
            OsdpCommand::Buzzer(b) => CommandView::Buzzer {
                reader: b.reader,
                control_code: b.control_code,
                on_count: b.on_count,
                off_count: b.off_count,
                rep_count: b.rep_count,
            },
            OsdpCommand::Text(t) => CommandView::Text {
                reader: t.reader,
                control_code: t.control_code,
                offset_row: t.offset_row,
                offset_col: t.offset_col,
                data: t.data@,
            },
            OsdpCommand::Keyset(k) => CommandView::Keyset { key_type: k.key_type, data: k.data@ },
            OsdpCommand::ComSet(s) => CommandView::ComSet {
                address: s.address,
                baud_rate: s.baud_rate,
            },
            OsdpCommand::FileTx(f) => CommandView::FileTx { id: f.id, flags: f.flags },
            OsdpCommand::Mfg(m) => CommandView::Mfg {
                vendor_code: m.vendor_code,
                command: m.command,
                data: m.data@,
            },
        }
    }
}

/// The little-endian bytes of a 16-bit value.
pub open spec fn spec_le16(x: u16) -> Seq<u8> {
    seq![(x as u8), ((x >> 8) as u8)]
}

/// The 16-bit value two little-endian bytes denote.
pub open spec fn spec_rd16(b0: u8, b1: u8) -> u16 {
    ((b0 as u16) | ((b1 as u16) << 8))
}

/// The little-endian bytes of a 32-bit value.
pub open spec fn spec_le32(x: u32) -> Seq<u8> {
    seq![(x as u8), ((x >> 8) as u8), ((x >> 16) as u8), ((x >> 24) as u8)]
}

/// The 32-bit value four little-endian bytes denote.
pub open spec fn spec_rd32(b0: u8, b1: u8, b2: u8, b3: u8) -> u32 {
    ((b0 as u32) | ((b1 as u32) << 8) | ((b2 as u32) << 16) | ((b3 as u32) << 24))
}

/// A 16-bit value round-trips through its little-endian bytes.
pub proof fn lemma_le16_round_trip(x: u16)
    ensures
        spec_rd16((x as u8), ((x >> 8) as u8)) == x,
{
    assert(((x as u8) as u16 | (((x >> 8) as u8) as u16) << 8) == x) by (bit_vector);
}

/// A 32-bit value round-trips through its little-endian bytes.
pub proof fn lemma_le32_round_trip(x: u32)
    ensures
        spec_rd32((x as u8), ((x >> 8) as u8), ((x >> 16) as u8), ((x >> 24) as u8)) == x,
{
    assert(((x as u8) as u32 | (((x >> 8) as u8) as u32) << 8 | (((x >> 16) as u8) as u32) << 16 | (
    ((x >> 24) as u8) as u32) << 24) == x) by (bit_vector);
}

/// A signed 32-bit value round-trips through an unsigned cast.
pub proof fn lemma_i32_round_trip(x: i32)
    ensures
        ((x as u32) as i32) == x,
{
    assert(((x as u32) as i32) == x) by (bit_vector);
}

/// Read a 16-bit little-endian value.
pub(crate) fn rd16(b0: u8, b1: u8) -> (r: u16)
    ensures
        r == spec_rd16(b0, b1),
{
    (b0 as u16) | ((b1 as u16) << 8)
}

/// Read a 32-bit little-endian value.
pub(crate) fn rd32(b0: u8, b1: u8, b2: u8, b3: u8) -> (r: u32)
    ensures
        r == spec_rd32(b0, b1, b2, b3),
{
    (b0 as u32) | ((b1 as u32) << 8) | ((b2 as u32) << 16) | ((b3 as u32) << 24)
}

/// Append the little-endian bytes of a 16-bit value.
pub(crate) fn push_le16(out: &mut Vec<u8>, x: u16)
    ensures
        final(out)@ =~= old(out)@ + spec_le16(x),
{
    out.push(x as u8);
    out.push((x >> 8) as u8);
}

/// Append the little-endian bytes of a 32-bit value.
pub(crate) fn push_le32(out: &mut Vec<u8>, x: u32)
    ensures
        final(out)@ =~= old(out)@ + spec_le32(x),
{
    out.push(x as u8);
    out.push((x >> 8) as u8);
    out.push((x >> 16) as u8);
    out.push((x >> 24) as u8);
}

/// Append a whole byte sequence.
pub(crate) fn push_bytes(out: &mut Vec<u8>, data: &[u8])
    ensures
        final(out)@ =~= old(out)@ + data@,
{
    let mut i: usize = 0;
    while i < data.len()
        invariant
            i <= data@.len(),
            out@ =~= old(out)@ + data@.take(i as int),
        decreases data@.len() - i,
    {
        out.push(data[i]);
        i = i + 1;
        proof {
            assert(out@ =~= old(out)@ + data@.take(i as int));
        }
    }
    proof {
        assert(data@.take(data@.len() as int) =~= data@);
    }
}

/// Commands whose payload sizes the wire form can carry.
pub open spec fn spec_wf_command(c: CommandView) -> bool {
    match c {
        CommandView::Text { data, .. } => data.len() <= 32,
        CommandView::Keyset { data, .. } => data.len() == 16,
        CommandView::Mfg { data, .. } => data.len() <= 64,
        _ => true,
    }
}

/// Check that a command's payload sizes fit the wire form.
pub fn wf_command(c: &OsdpCommand) -> (r: bool)
    ensures
        r == spec_wf_command(c@),
{
    match c {
        OsdpCommand::Text(t) => t.data.len() <= 32,
        OsdpCommand::Keyset(k) => k.data.len() == 16,
        OsdpCommand::Mfg(m) => m.data.len() <= 64,
        _ => true,
    }
}

/// The wire encoding of a command: a kind byte and its fields.
pub open spec fn spec_encode_command(c: CommandView) -> Seq<u8> {
    match c {
        CommandView::Output { output_no, control_code, timer_count } => seq![
            0x68u8,
            output_no,
            control_code,
        ] + spec_le16(timer_count),
        CommandView::Led { reader, led, on_color, off_color, on_count, off_count } => seq![
            0x69u8,
            reader,
            led,
            on_color,
            off_color,
            on_count,
            off_count,
        ],
        CommandView::Buzzer { reader, control_code, on_count, off_count, rep_count } => seq![
            0x6au8,
            reader,
            control_code,
            on_count,
            off_count,
            rep_count,
        ],
        CommandView::Text { reader, control_code, offset_row, offset_col, data } => seq![
            0x6bu8,
            reader,
            control_code,
            offset_row,
            offset_col,
            (data.len() as u8),
        ] + data,
        CommandView::Keyset { key_type, data } => seq![0x75u8, key_type] + data,
        CommandView::ComSet { address, baud_rate } => seq![0x6eu8, address] + spec_le32(baud_rate),
        CommandView::FileTx { id, flags } => seq![0x7cu8] + spec_le32((id as u32)) + spec_le32(
            flags,
        ),
        CommandView::Mfg { vendor_code, command, data } => seq![0x80u8] + spec_le32(vendor_code)
            + seq![command, (data.len() as u8)] + data,
    }
}

/// The command a whole byte sequence denotes, if any.
pub open spec fn spec_decode_command(b: Seq<u8>) -> Option<CommandView> {
    if b.len() == 0 {
        None
    } else if b[0] == 0x68 {
        if b.len() == 5 {
            Some(CommandView::Output {
                output_no: b[1],
                control_code: b[2],
                timer_count: spec_rd16(b[3], b[4]),
            })
        } else {
            None
        }
    } else if b[0] == 0x69 {
        if b.len() == 7 {
            Some(CommandView::Led {
                reader: b[1],
                led: b[2],
                on_color: b[3],
                off_color: b[4],
                on_count: b[5],
                off_count: b[6],
            })
        } else {
            None
        }
    } else if b[0] == 0x6a {
        if b.len() == 6 {
            Some(CommandView::Buzzer {
                reader: b[1],
                control_code: b[2],
                on_count: b[3],
                off_count: b[4],
                rep_count: b[5],
            })
        } else {
            None
        }
    } else if b[0] == 0x6b {
        if b.len() >= 6 && b.len() == 6 + b[5] && b[5] <= 32 {
            Some(CommandView::Text {
                reader: b[1],
                control_code: b[2],
                offset_row: b[3],
                offset_col: b[4],
                data: b.subrange(6, b.len() as int),
            })
        } else {
            None
        }
    } else if b[0] == 0x75 {
        if b.len() == 18 {
            Some(CommandView::Keyset { key_type: b[1], data: b.subrange(2, 18) })
        } else {
            None
        }
    } else if b[0] == 0x6e {
        if b.len() == 6 {
            Some(CommandView::ComSet {
                address: b[1],
                baud_rate: spec_rd32(b[2], b[3], b[4], b[5]),
            })
        } else {
            None
        }
    } else if b[0] == 0x7c {
        if b.len() == 9 {
            Some(CommandView::FileTx {
                id: (spec_rd32(b[1], b[2], b[3], b[4]) as i32),
                flags: spec_rd32(b[5], b[6], b[7], b[8]),
            })
        } else {
            None
        }
    } else if b[0] == 0x80 {
        if b.len() >= 7 && b.len() == 7 + b[6] && b[6] <= 64 {
            Some(CommandView::Mfg {
                vendor_code: spec_rd32(b[1], b[2], b[3], b[4]),
                command: b[5],
                data: b.subrange(7, b.len() as int),
            })
        } else {
            None
        }
    } else {
        None
    }
}

/// Append the wire encoding of a command to a buffer.
pub fn encode_command(c: &OsdpCommand, out: &mut Vec<u8>)
    requires
        spec_wf_command(c@),
    ensures
        final(out)@ =~= old(out)@ + spec_encode_command(c@),
{
    match c {
        OsdpCommand::Output(o) => {
            out.push(0x68);
            out.push(o.output_no);
            out.push(o.control_code);
            push_le16(out, o.timer_count);
        },
        OsdpCommand::Led(l) => {
            out.push(0x69);
            out.push(l.reader);
            out.push(l.led);
            out.push(l.on_color);
            out.push(l.off_color);
            out.push(l.on_count);
            out.push(l.off_count);
        },
        OsdpCommand::Buzzer(b) => {
            out.push(0x6a);
            out.push(b.reader);
            out.push(b.control_code);
            out.push(b.on_count);
            out.push(b.off_count);
            out.push(b.rep_count);
        },
        OsdpCommand::Text(t) => {
            out.push(0x6b);
            out.push(t.reader);
            out.push(t.control_code);
            out.push(t.offset_row);
            out.push(t.offset_col);
            out.push(t.data.len() as u8);
            push_bytes(out, t.data.as_slice());
        },
        OsdpCommand::Keyset(k) => {
            out.push(0x75);
            out.push(k.key_type);
            push_bytes(out, k.data.as_slice());
        },
        OsdpCommand::ComSet(s) => {
            out.push(0x6e);
            out.push(s.address);
            push_le32(out, s.baud_rate);
        },
        OsdpCommand::FileTx(f) => {
            out.push(0x7c);
            push_le32(out, f.id as u32);
            push_le32(out, f.flags);
        },
        OsdpCommand::Mfg(m) => {
            out.push(0x80);
            push_le32(out, m.vendor_code);
            out.push(m.command);
            out.push(m.data.len() as u8);
            push_bytes(out, m.data.as_slice());
        },
    }
}

/// Decode a whole byte sequence as a command.
pub fn decode_command(b: &[u8]) -> (r: Option<OsdpCommand>)
    ensures
        r matches Some(c) ==> spec_decode_command(b@) == Some(c@),
        r is None ==> spec_decode_command(b@) is None,
{
    if b.len() == 0 {
        return None;
    }
    let code = b[0];
    if code == 0x68 {
        if b.len() == 5 {
            Some(OsdpCommand::Output(OsdpCommandOutput {
                output_no: b[1],
                control_code: b[2],
                timer_count: rd16(b[3], b[4]),
            }))
        } else {
            None
        }
    } else if code == 0x69 {
        if b.len() == 7 {
            Some(OsdpCommand::Led(OsdpCommandLed {
                reader: b[1],
                led: b[2],
                on_color: b[3],
                off_color: b[4],
                on_count: b[5],
                off_count: b[6],
            }))
        } else {
            None
        }
    } else if code == 0x6a {
        if b.len() == 6 {
            Some(OsdpCommand::Buzzer(OsdpCommandBuzzer {
                reader: b[1],
                control_code: b[2],
                on_count: b[3],
                off_count: b[4],
                rep_count: b[5],
            }))
        } else {
            None
        }
    } else if code == 0x6b {
        if b.len() >= 6 && b.len() == 6 + (b[5] as usize) && b[5] <= 32 {
            Some(OsdpCommand::Text(OsdpCommandText {
                reader: b[1],
                control_code: b[2],
                offset_row: b[3],
                offset_col: b[4],
                data: slice_to_vec(slice_subrange(b, 6, b.len())),
            }))
        } else {
            None
        }
    } else if code == 0x75 {
        if b.len() == 18 {
            Some(OsdpCommand::Keyset(OsdpCommandKeyset {
                key_type: b[1],
                data: slice_to_vec(slice_subrange(b, 2, 18)),
            }))
        } else {
            None
        }
    } else if code == 0x6e {
        if b.len() == 6 {
            Some(OsdpCommand::ComSet(OsdpCommandComSet {
                address: b[1],
                baud_rate: rd32(b[2], b[3], b[4], b[5]),
            }))
        } else {
            None
        }
    } else if code == 0x7c {
        if b.len() == 9 {
            Some(OsdpCommand::FileTx(OsdpCommandFileTx {
                id: {
                    let x = rd32(b[1], b[2], b[3], b[4]);
                    #[verifier::truncate] (x as i32)
                },
                flags: rd32(b[5], b[6], b[7], b[8]),
            }))
        } else {
            None
        }
    } else if code == 0x80 {
        if b.len() >= 7 && b.len() == 7 + (b[6] as usize) && b[6] <= 64 {
            Some(OsdpCommand::Mfg(OsdpCommandMfg {
                vendor_code: rd32(b[1], b[2], b[3], b[4]),
                command: b[5],
                data: slice_to_vec(slice_subrange(b, 7, b.len())),
            }))
        } else {
            None
        }
    } else {
        None
    }
}

/// Round-trip of the command codec: decoding an encoded command yields
/// the command again, for every command whose payloads fit the wire form.
pub proof fn lemma_command_round_trip(c: CommandView)
    requires
        spec_wf_command(c),
    ensures
        spec_decode_command(spec_encode_command(c)) == Some(c),
{
    let e = spec_encode_command(c);
    match c {
        CommandView::Output { output_no, control_code, timer_count } => {
            lemma_le16_round_trip(timer_count);
            assert(e[0] == 0x68 && e.len() == 5);
        },
        CommandView::Led { .. } => {
            assert(e[0] == 0x69 && e.len() == 7);
        },
        CommandView::Buzzer { .. } => {
            assert(e[0] == 0x6a && e.len() == 6);
        },
        CommandView::Text { reader, control_code, offset_row, offset_col, data } => {
            assert(e[0] == 0x6b && e.len() == 6 + data.len());
            assert(e[5] == data.len() as u8);
            assert(e.subrange(6, e.len() as int) =~= data);
        },
        CommandView::Keyset { key_type, data } => {
            assert(e[0] == 0x75 && e.len() == 18);
            assert(e.subrange(2, 18) =~= data);
        },
        CommandView::ComSet { address, baud_rate } => {
            lemma_le32_round_trip(baud_rate);
            assert(e[0] == 0x6e && e.len() == 6);
        },
        CommandView::FileTx { id, flags } => {
            lemma_le32_round_trip((id as u32));
            lemma_le32_round_trip(flags);
            lemma_i32_round_trip(id);
            assert(e[0] == 0x7c && e.len() == 9);
        },
        CommandView::Mfg { vendor_code, command, data } => {
            lemma_le32_round_trip(vendor_code);
            assert(e[0] == 0x80 && e.len() == 7 + data.len());
            assert(e[6] == data.len() as u8);
            assert(e.subrange(7, e.len() as int) =~= data);
        },
    }
}

} // verus!
