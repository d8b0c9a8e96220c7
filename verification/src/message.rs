//! The protocol messages that ride inside a frame payload: the CP's
//! polls, requests and commands, and the PD's replies, each with its wire
//! encoding. One frame carries exactly one message.

use vstd::prelude::*;
use vstd::slice::slice_subrange;
use vstd::slice::slice_to_vec;

use crate::commands::CommandView;
use crate::commands::OsdpCommand;
use crate::commands::decode_command;
use crate::commands::encode_command;
use crate::commands::lemma_command_round_trip;
use crate::commands::lemma_i32_round_trip;
use crate::commands::lemma_le16_round_trip;
use crate::commands::lemma_le32_round_trip;
use crate::commands::push_bytes;
use crate::commands::push_le16;
use crate::commands::push_le32;
use crate::commands::rd16;
use crate::commands::rd32;
use crate::commands::spec_decode_command;
use crate::commands::spec_encode_command;
use crate::commands::spec_le16;
use crate::commands::spec_le32;
use crate::commands::spec_rd16;
use crate::commands::spec_rd32;
use crate::commands::spec_wf_command;
use crate::events::EventView;
use crate::events::OsdpEvent;
use crate::events::decode_event;
use crate::events::encode_event;
use crate::events::lemma_event_round_trip;
use crate::events::spec_decode_event;
use crate::events::spec_encode_event;
use crate::events::spec_wf_event;
use crate::pdinfo::PdCapEntity;
use crate::pdinfo::PdCapability;
use crate::pdinfo::PdId;
use crate::pdinfo::PdIdView;
use crate::pdinfo::spec_cap_code;
use crate::pdinfo::spec_cap_entity;
use crate::pdinfo::spec_cap_from_code;

verus! {

/// Largest fragment of file data one message may carry.
pub const FRAG_CAP: usize = 512;

/// Largest capability count one report may carry.
pub const CAP_CAP: usize = 62;

/// A protocol message: what one frame payload holds.
#[derive(Clone, Debug, PartialEq, Eq)]
pub enum Message {
    /// CP: periodic no-op soliciting events and maintaining liveness.
    Poll,
    /// CP: request the PD's identity record.
    ReqId,
    /// CP: request the PD's capability report.
    ReqCap,
    /// CP: secure-channel challenge carrying the CP nonce.
    Chlng(Vec<u8>),
    /// CP: secure-channel confirmation carrying the CP cryptogram.
    SCrypt(Vec<u8>),
    /// CP: an application command.
    Cmd(OsdpCommand),
    /// CP: open a file transfer for a file id of the given total size.
    FileStart {
        /// Pre-agreed file id.
        id: i32,
        /// Total size in bytes.
        size: u32,
    },
    /// CP: one file fragment at an explicit offset.
    FileData {
        /// Byte offset of the fragment.
        offset: u32,
        /// The fragment bytes.
        data: Vec<u8>,
    },
    /// PD: plain acknowledgement.
    Ack,
    /// PD: negative acknowledgement with a reason code.
    Nak(u8),
    /// PD: identity report.
    PdIdRep(PdId),
    /// PD: capability report.
    CapRep(Vec<PdCapability>),
    /// PD: secure-channel response carrying the PD nonce and cryptogram.
    CCrypt {
        /// PD nonce.
        nonce: Vec<u8>,
        /// PD cryptogram: the keyed proof value.
        cryptogram: Vec<u8>,
    },
    /// PD: secure-channel completion acknowledgement.
    ScAck,
    /// PD: file transfer accepted, echoing size and advertising the
    /// largest fragment it takes.
    FileAccept {
        /// Echoed total size.
        size: u32,
        /// Largest fragment accepted.
        max_frag: u16,
    },
    /// PD: cumulative received offset of the running transfer.
    FileStat {
        /// Cumulative received offset.
        offset: u32,
    },
    /// PD: one queued event, riding on a poll reply.
    EventRep(OsdpEvent),
}

/// The mathematical value of a message.
pub enum MessageView {
    /// Periodic no-op.
    Poll,
    /// Identity request.
    ReqId,
    /// Capability request.
    ReqCap,
    /// Secure-channel challenge.
    Chlng { nonce: Seq<u8> },
    /// Secure-channel confirmation.
    SCrypt { cryptogram: Seq<u8> },
    /// Application command.
    Cmd(CommandView),
    /// File transfer open.
    FileStart { id: i32, size: u32 },
    /// File fragment.
    FileData { offset: u32, data: Seq<u8> },
    /// Acknowledgement.
    Ack,
    /// Negative acknowledgement.
    Nak { code: u8 },
    /// Identity report.
    PdIdRep { id: PdIdView },
    /// Capability report.
    CapRep { caps: Seq<PdCapability> },
    /// Secure-channel response.
    CCrypt { nonce: Seq<u8>, cryptogram: Seq<u8> },
    /// Secure-channel completion.
    ScAck,
    /// File transfer accepted.
    FileAccept { size: u32, max_frag: u16 },
    /// File progress.
    FileStat { offset: u32 },
    /// One queued event.
    EventRep(EventView),
}

impl View for Message {
    type V = MessageView;

    open spec fn view(&self) -> MessageView {
        match self {
            Message::Poll => MessageView::Poll,
            Message::ReqId => MessageView::ReqId,
            Message::ReqCap => MessageView::ReqCap,
            Message::Chlng(n) => MessageView::Chlng { nonce: n@ },
            Message::SCrypt(c) => MessageView::SCrypt { cryptogram: c@ },
            Message::Cmd(c) => MessageView::Cmd(c@),
            Message::FileStart { id, size } => MessageView::FileStart { id: *id, size: *size },
            Message::FileData { offset, data } => MessageView::FileData {
                offset: *offset,
                data: data@,
            },
            Message::Ack => MessageView::Ack,
            Message::Nak(c) => MessageView::Nak { code: *c },
            Message::PdIdRep(id) => MessageView::PdIdRep { id: id@ },
            Message::CapRep(caps) => MessageView::CapRep { caps: caps@ },
            Message::CCrypt { nonce, cryptogram } => MessageView::CCrypt {
                nonce: nonce@,
                cryptogram: cryptogram@,
            },
            Message::ScAck => MessageView::ScAck,
            Message::FileAccept { size, max_frag } => MessageView::FileAccept {
                size: *size,
                max_frag: *max_frag,
            },
            Message::FileStat { offset } => MessageView::FileStat { offset: *offset },
            Message::EventRep(e) => MessageView::EventRep(e@),
        }
    }
}

/// Messages the wire form can carry.
pub open spec fn spec_wf_message(m: MessageView) -> bool {
    match m {
        MessageView::Chlng { nonce } => nonce.len() == 8,
        MessageView::SCrypt { cryptogram } => cryptogram.len() == 16,
        MessageView::Cmd(c) => spec_wf_command(c),
        MessageView::FileData { data, .. } => 0 < data.len() <= FRAG_CAP,
        MessageView::CapRep { caps } => caps.len() <= CAP_CAP,
        MessageView::CCrypt { nonce, cryptogram } => nonce.len() == 8 && cryptogram.len() == 16,
        MessageView::EventRep(e) => spec_wf_event(e),
        MessageView::PdIdRep { id } => id.serial_number.len() == 4,
        _ => true,
    }
}

/// Check that a message fits the wire form.
pub fn wf_message(m: &Message) -> (r: bool)
    ensures
        r == spec_wf_message(m@),
{
    match m {
        Message::Chlng(n) => n.len() == 8,
        Message::SCrypt(c) => c.len() == 16,
        Message::Cmd(c) => crate::commands::wf_command(c),
        Message::FileData { data, .. } => 0 < data.len() && data.len() <= FRAG_CAP,
        Message::CapRep(caps) => caps.len() <= CAP_CAP,
        Message::CCrypt { nonce, cryptogram } => nonce.len() == 8 && cryptogram.len() == 16,
        Message::EventRep(e) => crate::events::wf_event(e),
        Message::PdIdRep(_) => true,
        _ => true,
    }
}

/// The wire encoding of a capability list: one 3-byte record each.
pub open spec fn spec_encode_caps(caps: Seq<PdCapability>) -> Seq<u8>
    decreases caps.len(),
{
    if caps.len() == 0 {
        Seq::empty()
    } else {
        seq![
            spec_cap_code(caps[0]),
            spec_cap_entity(caps[0]).compliance,
            spec_cap_entity(caps[0]).num_items,
        ] + spec_encode_caps(caps.subrange(1, caps.len() as int))
    }
}

/// The capability list a byte sequence of `count` records denotes.
pub open spec fn spec_decode_caps(b: Seq<u8>, count: int) -> Option<Seq<PdCapability>>
    decreases count,
{
    if count <= 0 {
        if b.len() == 0 && count == 0 {
            Some(Seq::empty())
        } else {
            None
        }
    } else if b.len() < 3 {
        None
    } else {
        match spec_cap_from_code(b[0], PdCapEntity { compliance: b[1], num_items: b[2] }) {
            None => None,
            Some(c) => match spec_decode_caps(b.subrange(3, b.len() as int), count - 1) {
                None => None,
                Some(rest) => Some(seq![c] + rest),
            },
        }
    }
}

/// Encode a capability list.
pub fn encode_caps(caps: &[PdCapability]) -> (r: Vec<u8>)
    ensures
        r@ =~= spec_encode_caps(caps@),
        r@.len() == 3 * caps@.len(),
    decreases caps@.len(),
{
    if caps.len() == 0 {
        Vec::new()
    } else {
        let c = caps[0];
        let e = c.entity();
        let mut out: Vec<u8> = Vec::new();
        out.push(c.function_code());
        out.push(e.compliance);
        out.push(e.num_items);
        let rest = encode_caps(slice_subrange(caps, 1, caps.len()));
        push_bytes(&mut out, rest.as_slice());
        out
    }
}

/// Decode a capability list of `count` records.
pub fn decode_caps(b: &[u8], count: usize) -> (r: Option<Vec<PdCapability>>)
    ensures
        r matches Some(v) ==> spec_decode_caps(b@, count as int) == Some(v@),
        r is None ==> spec_decode_caps(b@, count as int) is None,
    decreases count,
{
    if count == 0 {
        if b.len() == 0 {
            Some(Vec::new())
        } else {
            None
        }
    } else if b.len() < 3 {
        None
    } else {
        let e = PdCapEntity { compliance: b[1], num_items: b[2] };
        match PdCapability::from_code(b[0], e) {
            None => None,
            Some(c) => {
                match decode_caps(slice_subrange(b, 3, b.len()), count - 1) {
                    None => None,
                    Some(mut v) => {
                        let ghost oldv = v@;
                        v.insert(0, c);
                        proof {
                            assert(v@ =~= seq![c] + oldv);
                        }
                        Some(v)
                    },
                }
            },
        }
    }
}

/// Round-trip of the capability list codec.
pub proof fn lemma_caps_round_trip(caps: Seq<PdCapability>)
    ensures
        spec_decode_caps(spec_encode_caps(caps), caps.len() as int) == Some(caps),
        spec_encode_caps(caps).len() == 3 * caps.len(),
    decreases caps.len(),
{
    if caps.len() == 0 {
        assert(spec_encode_caps(caps).len() == 0);
    } else {
        let rest = caps.subrange(1, caps.len() as int);
        lemma_caps_round_trip(rest);
        let e = spec_encode_caps(caps);
        let erest = spec_encode_caps(rest);
        assert(e =~= seq![
            spec_cap_code(caps[0]),
            spec_cap_entity(caps[0]).compliance,
            spec_cap_entity(caps[0]).num_items,
        ] + erest);
        assert(spec_cap_from_code(spec_cap_code(caps[0]), PdCapEntity {
            compliance: spec_cap_entity(caps[0]).compliance,
            num_items: spec_cap_entity(caps[0]).num_items,
        }) == Some(caps[0]));
        assert(e.subrange(3, e.len() as int) =~= erest);
        assert(seq![caps[0]] + rest =~= caps);
    }
}

/// The wire encoding of an identity record (without its kind byte).
pub open spec fn spec_encode_pd_id(id: PdIdView) -> Seq<u8> {
    spec_le32((id.version as u32)) + spec_le32((id.model as u32)) + seq![
        id.vendor_code.0,
        id.vendor_code.1,
        id.vendor_code.2,
    ] + id.serial_number + seq![id.firmware_version.0, id.firmware_version.1, id.firmware_version.2]
}

/// The wire encoding of a message: a kind byte and its fields.
pub open spec fn spec_encode_message(m: MessageView) -> Seq<u8> {
    match m {
        MessageView::Poll => seq![0x60u8],
        MessageView::ReqId => seq![0x61u8],
        MessageView::ReqCap => seq![0x62u8],
        MessageView::Chlng { nonce } => seq![0x76u8] + nonce,
        MessageView::SCrypt { cryptogram } => seq![0x77u8] + cryptogram,
        MessageView::Cmd(c) => spec_encode_command(c),
        MessageView::FileStart { id, size } => seq![0x7du8] + spec_le32((id as u32)) + spec_le32(
            size,
        ),
        MessageView::FileData { offset, data } => seq![0x7eu8] + spec_le32(offset) + spec_le16(
            (data.len() as u16),
        ) + data,
        MessageView::Ack => seq![0x40u8],
        MessageView::Nak { code } => seq![0x41u8, code],
        MessageView::PdIdRep { id } => seq![0x45u8] + spec_encode_pd_id(id),
        MessageView::CapRep { caps } => seq![0x46u8, (caps.len() as u8)] + spec_encode_caps(caps),
        MessageView::CCrypt { nonce, cryptogram } => seq![0x79u8] + nonce + cryptogram,
        MessageView::ScAck => seq![0x78u8],
        MessageView::FileAccept { size, max_frag } => seq![0x7au8] + spec_le32(size) + spec_le16(
            max_frag,
        ),
        MessageView::FileStat { offset } => seq![0x7bu8] + spec_le32(offset),
        MessageView::EventRep(e) => seq![0x4au8] + spec_encode_event(e),
    }
}

/// The message a whole frame payload denotes, if any.
pub open spec fn spec_decode_message(b: Seq<u8>) -> Option<MessageView> {
    if b.len() == 0 {
        None
    } else if b[0] == 0x60 {
        if b.len() == 1 {
            Some(MessageView::Poll)
        } else {
            None
        }
    } else if b[0] == 0x61 {
        if b.len() == 1 {
            Some(MessageView::ReqId)
        } else {
            None
        }
    } else if b[0] == 0x62 {
        if b.len() == 1 {
            Some(MessageView::ReqCap)
        } else {
            None
        }
    } else if b[0] == 0x76 {
        if b.len() == 9 {
            Some(MessageView::Chlng { nonce: b.subrange(1, 9) })
        } else {
            None
        }
    } else if b[0] == 0x77 {
        if b.len() == 17 {
            Some(MessageView::SCrypt { cryptogram: b.subrange(1, 17) })
        } else {
            None
        }
    } else if b[0] == 0x7d {
        if b.len() == 9 {
            Some(MessageView::FileStart {
                id: (spec_rd32(b[1], b[2], b[3], b[4]) as i32),
                size: spec_rd32(b[5], b[6], b[7], b[8]),
            })
        } else {
            None
        }
    } else if b[0] == 0x7e {
        if b.len() >= 7 && b.len() == 7 + spec_rd16(b[5], b[6]) && 0 < spec_rd16(b[5], b[6])
            <= FRAG_CAP {
            Some(MessageView::FileData {
                offset: spec_rd32(b[1], b[2], b[3], b[4]),
                data: b.subrange(7, b.len() as int),
            })
        } else {
            None
        }
    } else if b[0] == 0x40 {
        if b.len() == 1 {
            Some(MessageView::Ack)
        } else {
            None
        }
    } else if b[0] == 0x41 {
        if b.len() == 2 {
            Some(MessageView::Nak { code: b[1] })
        } else {
            None
        }
    } else if b[0] == 0x45 {
        if b.len() == 19 {
            Some(MessageView::PdIdRep { id: PdIdView {
                version: (spec_rd32(b[1], b[2], b[3], b[4]) as i32),
                model: (spec_rd32(b[5], b[6], b[7], b[8]) as i32),
                vendor_code: (b[9], b[10], b[11]),
                serial_number: b.subrange(12, 16),
                firmware_version: (b[16], b[17], b[18]),
            } })
        } else {
            None
        }
    } else if b[0] == 0x46 {
        if b.len() >= 2 && b[1] <= CAP_CAP {
            match spec_decode_caps(b.subrange(2, b.len() as int), b[1] as int) {
                None => None,
                Some(caps) => Some(MessageView::CapRep { caps }),
            }
        } else {
            None
        }
    } else if b[0] == 0x79 {
        if b.len() == 25 {
            Some(MessageView::CCrypt { nonce: b.subrange(1, 9), cryptogram: b.subrange(9, 25) })
        } else {
            None
        }
    } else if b[0] == 0x78 {
        if b.len() == 1 {
            Some(MessageView::ScAck)
        } else {
            None
        }
    } else if b[0] == 0x7a {
        if b.len() == 7 {
            Some(MessageView::FileAccept {
                size: spec_rd32(b[1], b[2], b[3], b[4]),
                max_frag: spec_rd16(b[5], b[6]),
            })
        } else {
            None
        }
    } else if b[0] == 0x7b {
        if b.len() == 5 {
            Some(MessageView::FileStat { offset: spec_rd32(b[1], b[2], b[3], b[4]) })
        } else {
            None
        }
    } else if b[0] == 0x4a {
        match spec_decode_event(b.subrange(1, b.len() as int)) {
            None => None,
            Some(e) => Some(MessageView::EventRep(e)),
        }
    } else {
        match spec_decode_command(b) {
            None => None,
            Some(c) => Some(MessageView::Cmd(c)),
        }
    }
}

/// An encoded message always fits a frame payload, with room for the
/// secure-channel envelope around it.
pub proof fn lemma_encode_message_len(m: MessageView)
    requires
        spec_wf_message(m),
    ensures
        0 < spec_encode_message(m).len() <= 600,
{
    match m {
        MessageView::CapRep { caps } => {
            lemma_caps_round_trip(caps);
        },
        _ => {},
    }
}

/// Encode a message into a fresh frame payload.
pub fn encode_message(m: &Message) -> (r: Vec<u8>)
    requires
        spec_wf_message(m@),
    ensures
        r@ =~= spec_encode_message(m@),
{
    let mut out: Vec<u8> = Vec::new();
    match m {
        Message::Poll => {
            out.push(0x60);
        },
        Message::ReqId => {
            out.push(0x61);
        },
        Message::ReqCap => {
            out.push(0x62);
        },
        Message::Chlng(n) => {
            out.push(0x76);
            push_bytes(&mut out, n.as_slice());
        },
        Message::SCrypt(c) => {
            out.push(0x77);
            push_bytes(&mut out, c.as_slice());
        },
        Message::Cmd(c) => {
            encode_command(c, &mut out);
        },
        Message::FileStart { id, size } => {
            out.push(0x7d);
            push_le32(&mut out, *id as u32);
            push_le32(&mut out, *size);
        },
        Message::FileData { offset, data } => {
            out.push(0x7e);
            push_le32(&mut out, *offset);
            push_le16(&mut out, data.len() as u16);
            push_bytes(&mut out, data.as_slice());
        },
        Message::Ack => {
            out.push(0x40);
        },
        Message::Nak(c) => {
            out.push(0x41);
            out.push(*c);
        },
        Message::PdIdRep(id) => {
            out.push(0x45);
            push_le32(&mut out, id.version as u32);
            push_le32(&mut out, id.model as u32);
            out.push(id.vendor_code.0);
            out.push(id.vendor_code.1);
            out.push(id.vendor_code.2);
            out.push(id.serial_number[0]);
            out.push(id.serial_number[1]);
            out.push(id.serial_number[2]);
            out.push(id.serial_number[3]);
            out.push(id.firmware_version.0);
            out.push(id.firmware_version.1);
            out.push(id.firmware_version.2);
            proof {
                assert(out@ =~= seq![0x45u8] + spec_encode_pd_id(id@));
            }
        },
        Message::CapRep(caps) => {
            out.push(0x46);
            out.push(caps.len() as u8);
            let enc = encode_caps(caps.as_slice());
            push_bytes(&mut out, enc.as_slice());
        },
        Message::CCrypt { nonce, cryptogram } => {
            out.push(0x79);
            push_bytes(&mut out, nonce.as_slice());
            push_bytes(&mut out, cryptogram.as_slice());
        },
        Message::ScAck => {
            out.push(0x78);
        },
        Message::FileAccept { size, max_frag } => {
            out.push(0x7a);
            push_le32(&mut out, *size);
            push_le16(&mut out, *max_frag);
        },
        Message::FileStat { offset } => {
            out.push(0x7b);
            push_le32(&mut out, *offset);
        },
        Message::EventRep(e) => {
            out.push(0x4a);
            encode_event(e, &mut out);
        },
    }
    out
}

/// Decode a whole frame payload as a message.
pub fn decode_message(b: &[u8]) -> (r: Option<Message>)
    ensures
        r matches Some(m) ==> spec_decode_message(b@) == Some(m@),
        r is None ==> spec_decode_message(b@) is None,
{
    if b.len() == 0 {
        return None;
    }
    let code = b[0];
    if code == 0x60 {
        if b.len() == 1 {
            Some(Message::Poll)
        } else {
            None
        }
    } else if code == 0x61 {
        if b.len() == 1 {
            Some(Message::ReqId)
        } else {
            None
        }
    } else if code == 0x62 {
        if b.len() == 1 {
            Some(Message::ReqCap)
        } else {
            None
        }
    } else if code == 0x76 {
        if b.len() == 9 {
            Some(Message::Chlng(slice_to_vec(slice_subrange(b, 1, 9))))
        } else {
            None
        }
    } else if code == 0x77 {
        if b.len() == 17 {
            Some(Message::SCrypt(slice_to_vec(slice_subrange(b, 1, 17))))
        } else {
            None
        }
    } else if code == 0x7d {
        if b.len() == 9 {
            Some(Message::FileStart {
                id: {
                    let x = rd32(b[1], b[2], b[3], b[4]);
                    #[verifier::truncate] (x as i32)
                },
                size: rd32(b[5], b[6], b[7], b[8]),
            })
        } else {
            None
        }
    } else if code == 0x7e {
        if b.len() >= 7 && b.len() == 7 + (rd16(b[5], b[6]) as usize) && 0 < rd16(b[5], b[6]) && (
        rd16(b[5], b[6]) as usize) <= FRAG_CAP {
            Some(Message::FileData {
                offset: rd32(b[1], b[2], b[3], b[4]),
                data: slice_to_vec(slice_subrange(b, 7, b.len())),
            })
        } else {
            None
        }
    } else if code == 0x40 {
        if b.len() == 1 {
            Some(Message::Ack)
        } else {
            None
        }
    } else if code == 0x41 {
        if b.len() == 2 {
            Some(Message::Nak(b[1]))
        } else {
            None
        }
    } else if code == 0x45 {
        if b.len() == 19 {
            let id = PdId {
                version: {
                    let x = rd32(b[1], b[2], b[3], b[4]);
                    #[verifier::truncate] (x as i32)
                },
                model: {
                    let x = rd32(b[5], b[6], b[7], b[8]);
                    #[verifier::truncate] (x as i32)
                },
                vendor_code: (b[9], b[10], b[11]),
                serial_number: [b[12], b[13], b[14], b[15]],
                firmware_version: (b[16], b[17], b[18]),
            };
            proof {
                assert(id@.serial_number =~= b@.subrange(12, 16));
            }
            Some(Message::PdIdRep(id))
        } else {
            None
        }
    } else if code == 0x46 {
        if b.len() >= 2 && (b[1] as usize) <= CAP_CAP {
            match decode_caps(slice_subrange(b, 2, b.len()), b[1] as usize) {
                None => None,
                Some(caps) => Some(Message::CapRep(caps)),
            }
        } else {
            None
        }
    } else if code == 0x79 {
        if b.len() == 25 {
            Some(Message::CCrypt {
                nonce: slice_to_vec(slice_subrange(b, 1, 9)),
                cryptogram: slice_to_vec(slice_subrange(b, 9, 25)),
            })
        } else {
            None
        }
    } else if code == 0x78 {
        if b.len() == 1 {
            Some(Message::ScAck)
        } else {
            None
        }
    } else if code == 0x7a {
        if b.len() == 7 {
            Some(Message::FileAccept { size: rd32(b[1], b[2], b[3], b[4]), max_frag: rd16(
                b[5],
                b[6],
            ) })
        } else {
            None
        }
    } else if code == 0x7b {
        if b.len() == 5 {
            Some(Message::FileStat { offset: rd32(b[1], b[2], b[3], b[4]) })
        } else {
            None
        }
    } else if code == 0x4a {
        match decode_event(slice_subrange(b, 1, b.len())) {
            None => None,
            Some(e) => Some(Message::EventRep(e)),
        }
    } else {
        match decode_command(b) {
            None => None,
            Some(c) => Some(Message::Cmd(c)),
        }
    }
}

/// Round-trip of the message codec: decoding an encoded message yields
/// exactly the message that was encoded, for every well-formed message.
pub proof fn lemma_message_round_trip(m: MessageView)
    requires
        spec_wf_message(m),
    ensures
        spec_decode_message(spec_encode_message(m)) == Some(m),
{
    let b = spec_encode_message(m);
    match m {
        MessageView::Poll => {},
        MessageView::ReqId => {},
        MessageView::ReqCap => {},
        MessageView::Chlng { nonce } => {
            assert(b.subrange(1, 9) =~= nonce);
        },
        MessageView::SCrypt { cryptogram } => {
            assert(b.subrange(1, 17) =~= cryptogram);
        },
        MessageView::Cmd(c) => {
            lemma_command_round_trip(c);
            let cb = spec_encode_command(c);
            assert(cb[0] == 0x68 || cb[0] == 0x69 || cb[0] == 0x6a || cb[0] == 0x6b || cb[0]
                == 0x75 || cb[0] == 0x6e || cb[0] == 0x7c || cb[0] == 0x80);
        },
        MessageView::FileStart { id, size } => {
            lemma_le32_round_trip((id as u32));
            lemma_le32_round_trip(size);
            lemma_i32_round_trip(id);
            assert(b.len() == 9);
        },
        MessageView::FileData { offset, data } => {
            lemma_le32_round_trip(offset);
            lemma_le16_round_trip((data.len() as u16));
            assert(b.len() == 7 + data.len());
            assert(spec_rd16(b[5], b[6]) == data.len());
            assert(b.subrange(7, b.len() as int) =~= data);
        },
        MessageView::Ack => {},
        MessageView::Nak { code } => {},
        MessageView::PdIdRep { id } => {
            lemma_le32_round_trip((id.version as u32));
            lemma_le32_round_trip((id.model as u32));
            lemma_i32_round_trip(id.version);
            lemma_i32_round_trip(id.model);
            assert(b.len() == 19);
            assert(b.subrange(12, 16) =~= id.serial_number);
            assert(spec_decode_message(b) matches Some(mm) && mm == m);
        },
        MessageView::CapRep { caps } => {
            lemma_caps_round_trip(caps);
            assert(b.len() == 2 + 3 * caps.len());
            assert(b.subrange(2, b.len() as int) =~= spec_encode_caps(caps));
        },
        MessageView::CCrypt { nonce, cryptogram } => {
            assert(b.len() == 25);
            assert(b.subrange(1, 9) =~= nonce);
            assert(b.subrange(9, 25) =~= cryptogram);
        },
        MessageView::ScAck => {},
        MessageView::FileAccept { size, max_frag } => {
            lemma_le32_round_trip(size);
            lemma_le16_round_trip(max_frag);
            assert(b.len() == 7);
        },
        MessageView::FileStat { offset } => {
            lemma_le32_round_trip(offset);
            assert(b.len() == 5);
        },
        MessageView::EventRep(e) => {
            lemma_event_round_trip(e);
            assert(b.subrange(1, b.len() as int) =~= spec_encode_event(e));
        },
    }
}

} // verus!
