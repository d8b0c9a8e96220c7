//! Events a PD reports to its CP: card reads, key presses, status
//! changes and vendor events, with their wire encoding, and the bounded
//! FIFO queue a PD accumulates them in until the next poll delivers them.

use vstd::prelude::*;
use vstd::slice::slice_subrange;
use vstd::slice::slice_to_vec;

use crate::commands::spec_le32;
use crate::commands::spec_rd32;
use crate::commands::lemma_le32_round_trip;
use crate::commands::push_le32;
use crate::commands::push_bytes;
use crate::commands::rd32;

verus! {

/// A card read event.
#[derive(Clone, Debug, PartialEq, Eq)]
pub struct OsdpEventCardRead {
    /// The reader that read the card.
    pub reader_no: u8,
    /// The card data format.
    pub format: u8,
    /// The card data (at most 64 bytes).
    pub data: Vec<u8>,
}

/// A key press event.
#[derive(Clone, Debug, PartialEq, Eq)]
pub struct OsdpEventKeypad {
    /// The reader the keys were pressed on.
    pub reader_no: u8,
    /// The pressed keys (at most 64 bytes).
    pub data: Vec<u8>,
}

/// A tamper / power status report event.
#[derive(Clone, Copy, Debug, PartialEq, Eq, Structural)]
pub struct OsdpEventStatus {
    /// Tamper status.
    pub tamper: u8,
    /// Power status.
    pub power: u8,
}

/// A vendor-specific event.
#[derive(Clone, Debug, PartialEq, Eq)]
pub struct OsdpEventMfg {
    /// IEEE vendor code.
    pub vendor_code: u32,
    /// Vendor payload (at most 64 bytes).
    pub data: Vec<u8>,
}

/// An event from PD to CP. Events are queued FIFO on the PD and ride to
/// the CP inside poll replies.
#[derive(Clone, Debug, PartialEq, Eq)]
pub enum OsdpEvent {
    /// A card was read.
    CardRead(OsdpEventCardRead),
    /// Keys were pressed.
    KeyPress(OsdpEventKeypad),
    /// Tamper or power status changed.
    Status(OsdpEventStatus),
    /// Vendor-specific event.
    Mfg(OsdpEventMfg),
}

/// The mathematical value of an event.
pub enum EventView {
    /// A card was read.
    CardRead { reader_no: u8, format: u8, data: Seq<u8> },
    /// Keys were pressed.
    KeyPress { reader_no: u8, data: Seq<u8> },
    /// Tamper or power status changed.
    Status { tamper: u8, power: u8 },
    /// Vendor-specific event.
    Mfg { vendor_code: u32, data: Seq<u8> },
}

impl View for OsdpEvent {
    type V = EventView;

    open spec fn view(&self) -> EventView {
        match self {
            OsdpEvent::CardRead(c) => EventView::CardRead {
                reader_no: c.reader_no,
                format: c.format,
                data: c.data@,
            },
            OsdpEvent::KeyPress(k) => EventView::KeyPress { reader_no: k.reader_no, data: k.data@ },
            OsdpEvent::Status(s) => EventView::Status { tamper: s.tamper, power: s.power },
            OsdpEvent::Mfg(m) => EventView::Mfg { vendor_code: m.vendor_code, data: m.data@ },
        }
    }
}

/// Events whose payload sizes the wire form can carry.
pub open spec fn spec_wf_event(e: EventView) -> bool {
    match e {
        EventView::CardRead { data, .. } => data.len() <= 64,
        EventView::KeyPress { data, .. } => data.len() <= 64,
        EventView::Status { .. } => true,
        EventView::Mfg { data, .. } => data.len() <= 64,
    }
}

/// Check that an event's payload sizes fit the wire form.
pub fn wf_event(e: &OsdpEvent) -> (r: bool)
    ensures
        r == spec_wf_event(e@),
{
    match e {
        OsdpEvent::CardRead(c) => c.data.len() <= 64,
        OsdpEvent::KeyPress(k) => k.data.len() <= 64,
        OsdpEvent::Status(_) => true,
        OsdpEvent::Mfg(m) => m.data.len() <= 64,
    }
}

/// The wire encoding of an event: a kind byte and its fields.
pub open spec fn spec_encode_event(e: EventView) -> Seq<u8> {
    match e {
        EventView::CardRead { reader_no, format, data } => seq![
            0x50u8,
            reader_no,
            format,
            (data.len() as u8),
        ] + data,
        EventView::KeyPress { reader_no, data } => seq![0x53u8, reader_no, (data.len() as u8)]
            + data,
        EventView::Status { tamper, power } => seq![0x48u8, tamper, power],
        EventView::Mfg { vendor_code, data } => seq![0x90u8] + spec_le32(vendor_code) + seq![
            (data.len() as u8),
        ] + data,
    }
}

/// The event a whole byte sequence denotes, if any.
pub open spec fn spec_decode_event(b: Seq<u8>) -> Option<EventView> {
    if b.len() == 0 {
        None
    } else if b[0] == 0x50 {
        if b.len() >= 4 && b.len() == 4 + b[3] && b[3] <= 64 {
            Some(EventView::CardRead {
                reader_no: b[1],
                format: b[2],
                data: b.subrange(4, b.len() as int),
            })
        } else {
            None
        }
    } else if b[0] == 0x53 {
        if b.len() >= 3 && b.len() == 3 + b[2] && b[2] <= 64 {
            Some(EventView::KeyPress { reader_no: b[1], data: b.subrange(3, b.len() as int) })
        } else {
            None
        }
    } else if b[0] == 0x48 {
        if b.len() == 3 {
            Some(EventView::Status { tamper: b[1], power: b[2] })
        } else {
            None
        }
    } else if b[0] == 0x90 {
        if b.len() >= 6 && b.len() == 6 + b[5] && b[5] <= 64 {
            Some(EventView::Mfg {
                vendor_code: spec_rd32(b[1], b[2], b[3], b[4]),
                data: b.subrange(6, b.len() as int),
            })
        } else {
            None
        }
    } else {
        None
    }
}

/// Append the wire encoding of an event to a buffer.
pub fn encode_event(e: &OsdpEvent, out: &mut Vec<u8>)
    requires
        spec_wf_event(e@),
    ensures
        final(out)@ =~= old(out)@ + spec_encode_event(e@),
{
    match e {
        OsdpEvent::CardRead(c) => {
            out.push(0x50);
            out.push(c.reader_no);
            out.push(c.format);
            out.push(c.data.len() as u8);
            push_bytes(out, c.data.as_slice());
        },
        OsdpEvent::KeyPress(k) => {
            out.push(0x53);
            out.push(k.reader_no);
            out.push(k.data.len() as u8);
            push_bytes(out, k.data.as_slice());
        },
        OsdpEvent::Status(s) => {
            out.push(0x48);
            out.push(s.tamper);
            out.push(s.power);
        },
        OsdpEvent::Mfg(m) => {
            out.push(0x90);
            push_le32(out, m.vendor_code);
            out.push(m.data.len() as u8);
            push_bytes(out, m.data.as_slice());
        },
    }
}

/// Decode a whole byte sequence as an event.
pub fn decode_event(b: &[u8]) -> (r: Option<OsdpEvent>)
    ensures
        r matches Some(e) ==> spec_decode_event(b@) == Some(e@),
        r is None ==> spec_decode_event(b@) is None,
{
    if b.len() == 0 {
        return None;
    }
    let code = b[0];
    if code == 0x50 {
        if b.len() >= 4 && b.len() == 4 + (b[3] as usize) && b[3] <= 64 {
            Some(OsdpEvent::CardRead(OsdpEventCardRead {
                reader_no: b[1],
                format: b[2],
                data: slice_to_vec(slice_subrange(b, 4, b.len())),
            }))
        } else {
            None
        }
    } else if code == 0x53 {
        if b.len() >= 3 && b.len() == 3 + (b[2] as usize) && b[2] <= 64 {
            Some(OsdpEvent::KeyPress(OsdpEventKeypad {
                reader_no: b[1],
                data: slice_to_vec(slice_subrange(b, 3, b.len())),
            }))
        } else {
            None
        }
    } else if code == 0x48 {
        if b.len() == 3 {
            Some(OsdpEvent::Status(OsdpEventStatus { tamper: b[1], power: b[2] }))
        } else {
            None
        }
    } else if code == 0x90 {
        if b.len() >= 6 && b.len() == 6 + (b[5] as usize) && b[5] <= 64 {
            Some(OsdpEvent::Mfg(OsdpEventMfg {
                vendor_code: rd32(b[1], b[2], b[3], b[4]),
                data: slice_to_vec(slice_subrange(b, 6, b.len())),
            }))
        } else {
            None
        }
    } else {
        None
    }
}

/// Round-trip of the event codec: decoding an encoded event yields the
/// event again, for every event whose payloads fit the wire form.
pub proof fn lemma_event_round_trip(e: EventView)
    requires
        spec_wf_event(e),
    ensures
        spec_decode_event(spec_encode_event(e)) == Some(e),
{
    let b = spec_encode_event(e);
    match e {
        EventView::CardRead { reader_no, format, data } => {
            assert(b[0] == 0x50 && b.len() == 4 + data.len() && b[3] == data.len() as u8);
            assert(b.subrange(4, b.len() as int) =~= data);
        },
        EventView::KeyPress { reader_no, data } => {
            assert(b[0] == 0x53 && b.len() == 3 + data.len() && b[2] == data.len() as u8);
            assert(b.subrange(3, b.len() as int) =~= data);
        },
        EventView::Status { .. } => {
            assert(b[0] == 0x48 && b.len() == 3);
        },
        EventView::Mfg { vendor_code, data } => {
            lemma_le32_round_trip(vendor_code);
            assert(b[0] == 0x90 && b.len() == 6 + data.len() && b[5] == data.len() as u8);
            assert(b.subrange(6, b.len() as int) =~= data);
        },
    }
}

/// The bounded FIFO of events a PD holds until the CP polls them off.
/// When the queue is full the oldest event is dropped, so memory stays
/// bounded while the newest activity survives.
#[derive(Clone, Debug)]
pub struct EventQueue {
    /// The queued events, oldest first.
    pub items: Vec<OsdpEvent>,
    /// The fixed capacity.
    pub cap: usize,
}

impl EventQueue {
    /// The queue as a sequence of event values, oldest first.
    pub open spec fn view_items(&self) -> Seq<EventView> {
        self.items@.map_values(|e: OsdpEvent| e@)
    }

    /// A queue that respects its capacity.
    pub open spec fn spec_wf(&self) -> bool {
        self.cap >= 1 && self.items@.len() <= self.cap
    }

    /// Create an empty queue of the given capacity.
    pub fn new(cap: usize) -> (r: EventQueue)
        requires
            cap >= 1,
        ensures
            r.spec_wf(),
            r.view_items() =~= Seq::<EventView>::empty(),
            r.cap == cap,
    {
        EventQueue { items: Vec::new(), cap }
    }

    /// How many events are queued.
    pub fn len(&self) -> (r: usize)
        ensures
            r == self.items@.len(),
    {
        self.items.len()
    }

    /// Queue an event. While the queue is below capacity the event is
    /// appended; once it is full, the oldest event is dropped to make
    /// room, so the queue never exceeds its capacity.
    pub fn push(&mut self, e: OsdpEvent)
        requires
            old(self).spec_wf(),
        ensures
            final(self).spec_wf(),
            final(self).cap == old(self).cap,
            old(self).items@.len() < old(self).cap ==> final(self).view_items()
                =~= old(self).view_items().push(e@),
            old(self).items@.len() >= old(self).cap ==> final(self).view_items() =~= old(
                self,
            ).view_items().subrange(1, old(self).items@.len() as int).push(e@),
    {
        if self.items.len() >= self.cap {
            let _dropped = self.items.remove(0);
        }
        self.items.push(e);
    }

    /// Remove and return the oldest event, if any.
    pub fn pop_front(&mut self) -> (r: Option<OsdpEvent>)
        requires
            old(self).spec_wf(),
        ensures
            final(self).spec_wf(),
            final(self).cap == old(self).cap,
            old(self).items@.len() == 0 ==> (r is None && final(self).view_items() =~= old(
                self,
            ).view_items()),
            old(self).items@.len() > 0 ==> (r matches Some(e) && e@ == old(self).view_items()[0]
                && final(self).view_items() =~= old(self).view_items().subrange(
                1,
                old(self).items@.len() as int,
            )),
    {
        if self.items.len() == 0 {
            None
        } else {
            Some(self.items.remove(0))
        }
    }

    /// Drop every queued event. Nothing else of the device state is
    /// touched: flushing the queue has no side effect on the command
    /// path.
    pub fn flush(&mut self)
        requires
            old(self).spec_wf(),
        ensures
            final(self).spec_wf(),
            final(self).cap == old(self).cap,
            final(self).view_items() =~= Seq::<EventView>::empty(),
    {
        self.items.clear();
    }
}

} // verus!
