//! The PD-side state machine: waits for CP polls and commands, validates
//! destination address and sequence number, and synthesizes exactly one
//! reply per valid request. A repeated sequence number means the CP never
//! saw our reply, so the identical reply frame is retransmitted rather
//! than the request being processed twice. Queued events ride out on
//! poll replies; received commands queue for the application to take.

use vstd::prelude::*;

use crate::OsdpError;
use crate::channel::Channel;
use crate::codec::PacketHeader;
use crate::codec::decode_packet;
use crate::codec::spec_decode_packet;
use crate::codec::drain_from;
use crate::codec::encode_packet;
use crate::codec::extract_frame;
use crate::codec::spec_wf_header;
use crate::commands::OsdpCommand;
use crate::commands::push_bytes;
use crate::events::EventQueue;
use crate::events::EventView;
use crate::events::OsdpEvent;
use crate::events::spec_wf_event;
use crate::file::FileTransferSession;
use crate::file::FtStatus;
use crate::file::OsdpFileOps;
use crate::message::FRAG_CAP;
use crate::message::CAP_CAP;
use crate::message::Message;
use crate::message::decode_message;
use crate::message::encode_message;
use crate::message::lemma_encode_message_len;
use crate::pdinfo::PdCapability;
use crate::pdinfo::PdInfo;
use crate::pdinfo::PdInfoBuilder;
use crate::pdinfo::spec_valid_address;
use crate::pdinfo::spec_valid_baud;
use crate::sc::ScStatus;
use crate::sc::SecureChannelSession;

verus! {

/// Refresh ticks without CP contact after which a PD reports offline.
pub const PD_OFFLINE_TICKS: u32 = 100;

/// Capacity of the PD event queue.
pub const PD_EVENT_QUEUE_CAP: usize = 32;

/// NAK reason: message not understood or not supported.
pub const NAK_UNSUPPORTED: u8 = 1;

/// NAK reason: secure-channel condition not met.
pub const NAK_SEC: u8 = 6;

/// NAK reason: file transfer refused or failed.
pub const NAK_FILE: u8 = 9;

/// Sentinel: no request processed yet.
pub const SEQ_NONE: u8 = 0xff;

/// OSDP Peripheral Device (PD) context: the responder side of the
/// protocol, driven entirely by its periodic `refresh`.
#[derive(Debug)]
pub struct PeripheralDevice<C: Channel, F: OsdpFileOps> {
    /// The PD's immutable configuration.
    pub info: PdInfo,
    /// The transport.
    pub channel: C,
    /// The secure-channel session (responder role).
    pub sc: SecureChannelSession,
    /// Queued events awaiting delivery to the CP.
    pub events: EventQueue,
    /// Commands received from the CP, for the application to take in
    /// order.
    pub commands: Vec<OsdpCommand>,
    /// Sequence number of the last processed request (SEQ_NONE if none).
    pub last_seq: u8,
    /// The wire frame of the last reply, for retransmission.
    pub last_reply: Vec<u8>,
    /// Refresh ticks since the last valid CP frame.
    pub online_ticks: u32,
    /// The running file-transfer session (receiver role).
    pub ft: FileTransferSession,
    /// The registered file-operations collaborator.
    pub fops: Option<F>,
    /// Receive reassembly buffer.
    pub rx: Vec<u8>,
    /// Transmit buffer (bytes the channel has not yet accepted).
    pub tx: Vec<u8>,
}

impl<C: Channel, F: OsdpFileOps> PeripheralDevice<C, F> {
    /// Structural well-formedness of the device state.
    pub open spec fn spec_wf(&self) -> bool {
        &&& self.sc.spec_wf()
        &&& self.ft.spec_wf()
        &&& self.events.spec_wf()
        &&& spec_valid_address(self.info.address)
        &&& self.info.cap@.len() <= CAP_CAP
    }

    /// Create a PD context from its description and transport. Rejected
    /// synchronously: an unsupported baud rate, a capability list too
    /// large to report, and an enforced-secure configuration without a
    /// base key (install mode is exactly the keyless state, and
    /// `enforce_secure` refuses it).
    pub fn new(info: PdInfoBuilder, channel: C) -> (r: Result<PeripheralDevice<C, F>, OsdpError>)
        ensures
            r is Ok <==> (spec_valid_baud(info.baud_rate) && spec_valid_address(info.address)
                && info.cap@.len() <= CAP_CAP && (info.flags.enforce_secure ==> (info.scbk is Some
                && !info.flags.install_mode))),
            r matches Ok(d) ==> {
                &&& d.spec_wf()
                &&& d.sc.status == ScStatus::Inactive
                &&& d.events.view_items() =~= Seq::<EventView>::empty()
                &&& d.commands@.len() == 0
                &&& d.ft.status == FtStatus::Idle
                &&& d.info.address == info.address
                &&& d.info.flags == info.flags
            },
    {
        let info = info.build();
        if info.baud_rate != 9600 && info.baud_rate != 19200 && info.baud_rate != 38400
            && info.baud_rate != 57600 && info.baud_rate != 115200 && info.baud_rate != 230400 {
            return Err(OsdpError::Setup);
        }
        if info.address < 0 || info.address > 126 {
            return Err(OsdpError::Setup);
        }
        if info.cap.len() > CAP_CAP {
            return Err(OsdpError::Setup);
        }
        if info.flags.enforce_secure && (info.scbk.is_none() || info.flags.install_mode) {
            return Err(OsdpError::Setup);
        }
        let sc = SecureChannelSession::new(info.scbk);
        Ok(PeripheralDevice {
            info,
            channel,
            sc,
            events: EventQueue::new(PD_EVENT_QUEUE_CAP),
            commands: Vec::new(),
            last_seq: SEQ_NONE,
            last_reply: Vec::new(),
            online_ticks: PD_OFFLINE_TICKS,
            ft: FileTransferSession::idle(),
            fops: None,
            rx: Vec::new(),
            tx: Vec::new(),
        })
    }

    /// True while the PD has seen a valid CP frame within the liveness
    /// window.
    pub fn is_online(&self) -> (r: bool)
        ensures
            r == (self.online_ticks < PD_OFFLINE_TICKS),
    {
        self.online_ticks < PD_OFFLINE_TICKS
    }

    /// True while the secure-channel session is Active.
    pub fn is_sc_active(&self) -> (r: bool)
        ensures
            r == (self.sc.status == ScStatus::Active),
    {
        match self.sc.status {
            ScStatus::Active => true,
            _ => false,
        }
    }

    /// `(size, offset)` of the running file transfer, or an error while
    /// none is.
    pub fn file_transfer_status(&self) -> (r: Result<(i32, i32), OsdpError>)
        requires
            self.spec_wf(),
        ensures
            r is Ok <==> self.ft.status != FtStatus::Idle,
            r matches Ok(p) ==> p.0 == self.ft.size as i32 && p.1 == self.ft.offset as i32,
    {
        self.ft.status_query()
    }

    /// Register the file-operations collaborator file transfers go
    /// through. Only the collaborator slot changes.
    pub fn register_file_ops(&mut self, fops: F) -> (r: Result<(), OsdpError>)
        requires
            old(self).spec_wf(),
        ensures
            r is Ok,
            final(self).spec_wf(),
            final(self).fops is Some,
            *final(self) == (PeripheralDevice { fops: final(self).fops, ..*old(self) }),
    {
        self.fops = Some(fops);
        Ok(())
    }

    /// Replace the PD's capability list.
    pub fn set_capabilities(&mut self, cap: &Vec<PdCapability>) -> (r: Result<(), OsdpError>)
        requires
            old(self).spec_wf(),
        ensures
            final(self).spec_wf(),
            r is Ok <==> cap@.len() <= CAP_CAP,
            r is Ok ==> final(self).info.cap@ =~= cap@,
            r is Err ==> final(self).info.cap@ =~= old(self).info.cap@,
    {
        if cap.len() > CAP_CAP {
            return Err(OsdpError::PdInfo("too many capabilities"));
        }
        let mut copied: Vec<PdCapability> = Vec::new();
        let mut i: usize = 0;
        while i < cap.len()
            invariant
                i <= cap@.len(),
                copied@ =~= cap@.take(i as int),
            decreases cap@.len() - i,
        {
            copied.push(cap[i]);
            i = i + 1;
            proof {
                assert(copied@ =~= cap@.take(i as int));
            }
        }
        proof {
            assert(cap@.take(cap@.len() as int) =~= cap@);
        }
        self.info.cap = copied;
        Ok(())
    }

    /// Queue an event for delivery to the CP on an upcoming poll. An
    /// event whose payload cannot ride the wire is rejected and nothing
    /// changes. While the queue is below capacity the event is appended;
    /// once it is full the oldest event is dropped to make room, so the
    /// queue never grows beyond its bound.
    pub fn notify_event(&mut self, event: OsdpEvent) -> (r: Result<(), OsdpError>)
        requires
            old(self).spec_wf(),
        ensures
            final(self).spec_wf(),
            r is Ok <==> spec_wf_event(event@),
            !spec_wf_event(event@) ==> *final(self) == *old(self),
            spec_wf_event(event@) && old(self).events.items@.len() < old(self).events.cap ==> final(self).events.view_items() =~= old(self).events.view_items().push(event@),
            spec_wf_event(event@) && old(self).events.items@.len() >= old(self).events.cap
                ==> final(self).events.view_items() =~= old(self).events.view_items().subrange(
                1,
                old(self).events.items@.len() as int,
            ).push(event@),
            final(self).commands@ == old(self).commands@,
            final(self).ft == old(self).ft,
    {
        if !crate::events::wf_event(&event) {
            return Err(OsdpError::Event);
        }
        self.events.push(event);
        Ok(())
    }

    /// Drop every queued event that was not yet delivered to the CP.
    /// The command path is untouched: received commands, the running
    /// file transfer and the secure-channel session all stay as they
    /// are.
    pub fn flush_events(&mut self)
        requires
            old(self).spec_wf(),
        ensures
            final(self).spec_wf(),
            final(self).events.view_items() =~= Seq::<EventView>::empty(),
            final(self).commands@ == old(self).commands@,
            final(self).ft == old(self).ft,
            final(self).sc.status == old(self).sc.status,
            final(self).info == old(self).info,
            final(self).last_seq == old(self).last_seq,
    {
        self.events.flush();
    }

    /// Take the oldest command the CP sent that the application has not
    /// seen yet.
    pub fn next_command(&mut self) -> (r: Option<OsdpCommand>)
        requires
            old(self).spec_wf(),
        ensures
            final(self).spec_wf(),
            old(self).commands@.len() == 0 ==> (r is None && final(self).commands@ == old(self).commands@),
            old(self).commands@.len() > 0 ==> (r == Some(old(self).commands@[0]) && final(self).commands@ == old(self).commands@.subrange(1, old(self).commands@.len() as int)),
            final(self).events.view_items() =~= old(self).events.view_items(),
    {
        if self.commands.len() == 0 {
            None
        } else {
            Some(self.commands.remove(0))
        }
    }

    /// Drive the PD: pump pending output, pull pending input (one read
    /// attempt), and answer every complete, valid frame addressed to us
    /// with exactly one reply. Never blocks; transport errors and
    /// malformed frames are absorbed. Whatever the channel produced: the
    /// configuration is untouched, commands already received stay (new
    /// ones are only appended), and the liveness counter either restarts
    /// at one because a valid frame arrived or advances one tick toward
    /// the offline bound.
    pub fn refresh(&mut self)
        requires
            old(self).spec_wf(),
        ensures
            final(self).spec_wf(),
            final(self).info == old(self).info,
            old(self).commands@.is_prefix_of(final(self).commands@),
            final(self).online_ticks == 1 || (old(self).online_ticks < PD_OFFLINE_TICKS && final(self).online_ticks == old(self).online_ticks + 1) || (old(self).online_ticks
                >= PD_OFFLINE_TICKS && final(self).online_ticks == old(self).online_ticks),
    {
        // Pump any bytes the channel did not take earlier.
        self.pump_tx();
        // Pull whatever arrived.
        match self.channel.read(256) {
            Ok(bytes) => {
                if self.rx.len() <= 4096 && bytes.len() <= 4096 - self.rx.len() {
                    push_bytes(&mut self.rx, bytes.as_slice());
                } else {
                    // Overrun: drop the backlog and resynchronize.
                    self.rx = bytes;
                }
            },
            Err(_) => {},
        }
        // Handle every complete frame in the buffer.
        loop
            invariant
                self.spec_wf(),
                self.info == old(self).info,
                old(self).commands@.is_prefix_of(self.commands@),
                self.online_ticks == 0 || self.online_ticks == old(self).online_ticks,
            decreases self.rx@.len(),
        {
            let frame = extract_frame(&mut self.rx);
            match frame {
                None => { break ; },
                Some(f) => {
                    let ghost pre = self.commands@;
                    self.handle_raw_frame(&f);
                    proof {
                        assert(old(self).commands@.is_prefix_of(self.commands@));
                    }
                },
            }
        }
        if self.online_ticks < PD_OFFLINE_TICKS {
            self.online_ticks = self.online_ticks + 1;
        }
        self.pump_tx();
    }

    /// Hand as much buffered output as the channel takes.
    fn pump_tx(&mut self)
        requires
            old(self).spec_wf(),
        ensures
            final(self).spec_wf(),
            final(self).rx@ == old(self).rx@,
            *final(self) == (PeripheralDevice { channel: final(self).channel, tx: final(self).tx, ..*old(self) }),
    {
        if self.tx.len() == 0 {
            return ;
        }
        match self.channel.write(self.tx.as_slice()) {
            Ok(n) => {
                let rest = drain_from(&self.tx, n);
                self.tx = rest;
                let _ = self.channel.flush();
            },
            Err(_) => {},
        }
    }

    /// Process one extracted raw frame: frames that are not for us are
    /// ignored without any effect, a repeated sequence number makes us
    /// retransmit the stored reply bytes without processing the request
    /// again, and everything else is dispatched for exactly one reply.
    fn handle_raw_frame(&mut self, f: &Vec<u8>)
        requires
            old(self).spec_wf(),
        ensures
            final(self).spec_wf(),
            final(self).rx@ == old(self).rx@,
            final(self).info == old(self).info,
            old(self).commands@.is_prefix_of(final(self).commands@),
            final(self).online_ticks == 0 || final(self).online_ticks == old(self).online_ticks,
            // Not a frame at all: no effect.
            spec_decode_packet(f@) is Err ==> *final(self) == *old(self),
            // A reply, or a frame addressed to another device: ignored
            // without error and without any state change.
            (spec_decode_packet(f@) matches Ok(hp) && (hp.0.is_reply || (hp.0.address != (old(self).info.address as u8) && hp.0.address != 0x7f))) ==> *final(self) == *old(self),
            // Idempotence of fragment retransmission, at the wire: a
            // plain frame carrying a file fragment anywhere but the
            // transfer frontier leaves the transfer state exactly as it
            // was (a repeated or out-of-order fragment is never written
            // again).
            ({
                &&& spec_decode_packet(f@) matches Ok(hp)
                &&& !hp.0.sc_active
                &&& crate::message::spec_decode_message(hp.1) matches Some(
                    crate::message::MessageView::FileData { offset, data },
                )
                &&& !(old(self).ft.status == FtStatus::Transferring && offset == old(self).ft.offset)
            }) ==> final(self).ft == old(self).ft,
            // One exact reply per request, shown for the identity
            // request: a fresh plain frame asking for our identity is
            // answered with precisely the encoded identity report under
            // the echoed sequence number (or dropped only if the
            // transmit buffer is saturated).
            ({
                &&& spec_decode_packet(f@) matches Ok(hp)
                &&& !hp.0.is_reply
                &&& (hp.0.address == (old(self).info.address as u8) || hp.0.address == 0x7f)
                &&& !(hp.0.seq != 0 && hp.0.seq == old(self).last_seq && old(self).last_reply@.len() > 0)
                &&& !hp.0.sc_active
                &&& old(self).sc.status != ScStatus::Active
                &&& crate::message::spec_decode_message(hp.1) == Some(
                    crate::message::MessageView::ReqId,
                )
            }) ==> ({
                let h_in = spec_decode_packet(f@)->Ok_0.0;
                let h = PacketHeader {
                    address: old(self).info.address as u8,
                    is_reply: true,
                    seq: (h_in.seq & 0x0f) as u8,
                    use_crc: h_in.use_crc,
                    sc_active: false,
                };
                let frame = crate::codec::spec_encode_packet(
                    h,
                    crate::message::spec_encode_message(
                        crate::message::MessageView::PdIdRep { id: old(self).info.id@ },
                    ),
                );
                final(self).tx@ == old(self).tx@ + frame || final(self).tx@ == old(self).tx@
            }),
            // The CP repeated its last request: the identical stored
            // reply goes out again and nothing is processed twice.
            (spec_decode_packet(f@) matches Ok(hp) && !hp.0.is_reply && (hp.0.address == (old(self).info.address as u8) || hp.0.address == 0x7f) && hp.0.seq != 0 && hp.0.seq == old(self).last_seq && old(self).last_reply@.len() > 0) ==> (*final(self) == (PeripheralDevice {
                tx: final(self).tx,
                ..*old(self)
            }) && (final(self).tx@ == old(self).tx@ + old(self).last_reply@ || final(self).tx@
                == old(self).tx@)),
    {
        let decoded = decode_packet(f.as_slice());
        match decoded {
            Err(_) => {
                // Malformed or corrupt: discard silently, the stream
                // resynchronizes on the next mark byte.
            },
            Ok((h, payload)) => {
                if h.is_reply {
                    // We are the responder; replies are not for us.
                    return ;
                }
                let my_addr: u8 = self.info.address as u8;
                if h.address != my_addr && h.address != 0x7f {
                    // Not for us: ignore without error.
                    return ;
                }
                if h.seq != 0 && h.seq == self.last_seq && self.last_reply.len() > 0 {
                    // The CP repeated its last request: our reply was
                    // lost. Retransmit the identical frame.
                    if self.tx.len() <= 8192 && self.last_reply.len() <= 8192 - self.tx.len() {
                        let lr = self.last_reply.clone();
                        push_bytes(&mut self.tx, lr.as_slice());
                    }
                    return ;
                }
                self.online_ticks = 0;
                // Recover the plain message bytes.
                let msg_bytes: Vec<u8>;
                if h.sc_active {
                    let active = match self.sc.status {
                        ScStatus::Active => true,
                        _ => false,
                    };
                    if !active {
                        self.send_reply(&h, &Message::Nak(NAK_SEC));
                        return ;
                    }
                    if payload.len() >= 0x10000 {
                        self.send_reply(&h, &Message::Nak(NAK_UNSUPPORTED));
                        return ;
                    }
                    match self.sc.unwrap_secure(&h, payload.as_slice()) {
                        None => {
                            // MAC failure: the session is already
                            // invalidated; never hand the payload on.
                            self.send_reply(&h, &Message::Nak(NAK_SEC));
                            return ;
                        },
                        Some(p) => {
                            msg_bytes = p;
                        },
                    }
                } else {
                    msg_bytes = payload;
                }
                let reply = self.dispatch(&h, &msg_bytes);
                self.send_reply(&h, &reply);
            },
        }
    }

    /// Decide the reply for one received message: exactly one reply per
    /// valid request, a NAK for anything unknown.
    fn dispatch(&mut self, h: &PacketHeader, msg_bytes: &Vec<u8>) -> (reply: Message)
        requires
            old(self).spec_wf(),
        ensures
            final(self).spec_wf(),
            crate::message::spec_wf_message(reply@),
            final(self).rx@ == old(self).rx@,
            final(self).info == old(self).info,
            final(self).online_ticks == old(self).online_ticks,
            final(self).last_seq == old(self).last_seq,
            final(self).last_reply@ == old(self).last_reply@,
            old(self).commands@.is_prefix_of(final(self).commands@),
            crate::message::spec_decode_message(msg_bytes@) is None ==> (reply@
                == (crate::message::MessageView::Nak { code: NAK_UNSUPPORTED }) && *final(self)
                == *old(self)),
            // Idempotence of fragment retransmission: a file fragment
            // anywhere but the transfer frontier leaves the transfer
            // state exactly as it was.
            (crate::message::spec_decode_message(msg_bytes@) matches Some(
                crate::message::MessageView::FileData { offset, data },
            ) && !(old(self).ft.status == FtStatus::Transferring && offset == old(self).ft.offset)) ==> final(self).ft == old(self).ft,
            crate::message::spec_decode_message(msg_bytes@) == Some(
                crate::message::MessageView::ReqId,
            ) ==> (reply@ == (crate::message::MessageView::PdIdRep { id: old(self).info.id@ })
                && *final(self) == *old(self)),
            crate::message::spec_decode_message(msg_bytes@) == Some(
                crate::message::MessageView::Poll,
            ) && old(self).events.items@.len() == 0 ==> (reply@ == crate::message::MessageView::Ack
                && final(self).events.view_items() =~= old(self).events.view_items()),
            crate::message::spec_decode_message(msg_bytes@) == Some(
                crate::message::MessageView::Poll,
            ) && old(self).events.items@.len() > 0 && spec_wf_event(
                old(self).events.view_items()[0],
            ) ==> (reply@ == crate::message::MessageView::EventRep(old(self).events.view_items()[0])
                && final(self).events.view_items() =~= old(self).events.view_items().subrange(
                1,
                old(self).events.items@.len() as int,
            )),
    {
        let m = decode_message(msg_bytes.as_slice());
        let reply: Message = match m {
            None => Message::Nak(NAK_UNSUPPORTED),
            Some(msg) => match msg {
                Message::Poll => {
                    match self.events.pop_front() {
                        Some(e) => {
                            if crate::events::wf_event(&e) {
                                Message::EventRep(e)
                            } else {
                                Message::Ack
                            }
                        },
                        None => Message::Ack,
                    }
                },
                Message::ReqId => {
                    proof {
                        assert(self.info.id@.serial_number.len() == 4);
                    }
                    Message::PdIdRep(self.info.id)
                },
                Message::ReqCap => {
                    let mut caps: Vec<PdCapability> = Vec::new();
                    let mut i: usize = 0;
                    while i < self.info.cap.len()
                        invariant
                            i <= self.info.cap@.len(),
                            caps@ =~= self.info.cap@.take(i as int),
                        decreases self.info.cap@.len() - i,
                    {
                        caps.push(self.info.cap[i]);
                        i = i + 1;
                        proof {
                            assert(caps@ =~= self.info.cap@.take(i as int));
                        }
                    }
                    proof {
                        assert(self.info.cap@.take(self.info.cap@.len() as int)
                            =~= self.info.cap@);
                    }
                    Message::CapRep(caps)
                },
                Message::Chlng(cp_nonce) => {
                    if cp_nonce.len() != 8 {
                        Message::Nak(NAK_UNSUPPORTED)
                    } else if self.info.flags.enforce_secure && self.info.scbk.is_none() {
                        // Enforced-secure refuses the install-mode key.
                        Message::Nak(NAK_SEC)
                    } else {
                        let pd_nonce: [u8; 8] = rand::random();
                        let cryptogram = self.sc.pd_on_chlng(&cp_nonce, pd_nonce);
                        let mut nv: Vec<u8> = Vec::new();
                        let mut i: usize = 0;
                        while i < 8
                            invariant
                                i <= 8,
                                nv@ =~= pd_nonce@.take(i as int),
                            decreases 8 - i,
                        {
                            nv.push(pd_nonce[i]);
                            i = i + 1;
                            proof {
                                assert(nv@ =~= pd_nonce@.take(i as int));
                            }
                        }
                        proof {
                            assert(pd_nonce@.take(8) =~= pd_nonce@);
                        }
                        Message::CCrypt { nonce: nv, cryptogram }
                    }
                },
                Message::SCrypt(cryptogram) => {
                    let handshaking = match self.sc.status {
                        ScStatus::Handshaking => true,
                        _ => false,
                    };
                    if !handshaking || cryptogram.len() != 16 {
                        Message::Nak(NAK_SEC)
                    } else if self.sc.pd_on_scrypt(&cryptogram) {
                        // Session keys agreed; the acknowledgement rides
                        // protected, proving the keys to the CP.
                        Message::ScAck
                    } else {
                        // Mismatch: no detail of why, to avoid
                        // key-recovery side channels.
                        Message::Nak(NAK_SEC)
                    }
                },
                Message::Cmd(c) => {
                    if self.commands.len() < 1024 {
                        self.commands.push(c);
                        Message::Ack
                    } else {
                        Message::Nak(NAK_UNSUPPORTED)
                    }
                },
                Message::FileStart { id, size } => {
                    if size > 0x7fffffff {
                        Message::Nak(NAK_FILE)
                    } else {
                        match &mut self.fops {
                            None => Message::Nak(NAK_FILE),
                            Some(fops) => match fops.open(id, false) {
                                Err(_) => Message::Nak(NAK_FILE),
                                Ok(_) => {
                                    self.ft = FileTransferSession {
                                        file_id: id,
                                        size,
                                        offset: 0,
                                        max_frag: FRAG_CAP as u16,
                                        status: FtStatus::Transferring,
                                    };
                                    Message::FileAccept { size, max_frag: FRAG_CAP as u16 }
                                },
                            },
                        }
                    }
                },
                Message::FileData { offset, data } => self.handle_file_data(offset, &data),
                _ => Message::Nak(NAK_UNSUPPORTED),
            },
        };
        reply
    }

    /// Take one file fragment. Only the fragment at exactly the
    /// cumulative offset is written and advances the transfer; a
    /// fragment at an already-acknowledged offset (a retransmission) is
    /// not written again and leaves the transfer state unchanged, so
    /// resending is idempotent. The reply always carries the cumulative
    /// received offset.
    fn handle_file_data(&mut self, offset: u32, data: &Vec<u8>) -> (reply: Message)
        requires
            old(self).spec_wf(),
        ensures
            final(self).spec_wf(),
            crate::message::spec_wf_message(reply@),
            final(self).rx@ == old(self).rx@,
            final(self).commands@ == old(self).commands@,
            final(self).info == old(self).info,
            final(self).online_ticks == old(self).online_ticks,
            final(self).last_seq == old(self).last_seq,
            final(self).last_reply@ == old(self).last_reply@,
            // Idempotence: anything but the expected frontier fragment
            // leaves the transfer state exactly as it was, and nothing
            // is written.
            !(old(self).ft.status == FtStatus::Transferring && offset == old(self).ft.offset)
                ==> final(self).ft == old(self).ft,
            // A fragment at an already-acknowledged offset is answered
            // with the unchanged cumulative offset.
            (old(self).ft.status == FtStatus::Transferring && offset != old(self).ft.offset)
                ==> reply@ == (crate::message::MessageView::FileStat {
                offset: old(self).ft.offset,
            }),
    {
        let transferring = match self.ft.status {
            FtStatus::Transferring => true,
            _ => false,
        };
        if !transferring {
            return Message::Nak(NAK_FILE);
        }
        if offset != self.ft.offset {
            // Duplicate or out-of-order fragment: report the frontier,
            // write nothing.
            return Message::FileStat { offset: self.ft.offset };
        }
        let frag_len: u32 = if data.len() > FRAG_CAP {
            return Message::Nak(NAK_FILE);
        } else {
            data.len() as u32
        };
        if frag_len == 0 || self.ft.offset > 0xffffffff - frag_len || self.ft.offset + frag_len
            > self.ft.size {
            self.ft.fail();
            self.close_file();
            return Message::Nak(NAK_FILE);
        }
        let write_ok: bool = match &self.fops {
            None => false,
            Some(fops) => match fops.offset_write(data.as_slice(), offset as u64) {
                Ok(n) => n == data.len(),
                Err(_) => false,
            },
        };
        if !write_ok {
            self.ft.fail();
            self.close_file();
            return Message::Nak(NAK_FILE);
        }
        self.ft.advance(frag_len);
        let complete = match self.ft.status {
            FtStatus::Complete => true,
            _ => false,
        };
        if complete {
            self.close_file();
        }
        Message::FileStat { offset: self.ft.offset }
    }

    /// Release the collaborator's file handle.
    fn close_file(&mut self)
        requires
            old(self).spec_wf(),
        ensures
            final(self).spec_wf(),
            final(self).rx@ == old(self).rx@,
            *final(self) == (PeripheralDevice { fops: final(self).fops, ..*old(self) }),
    {
        match &mut self.fops {
            None => {},
            Some(fops) => {
                let _ = fops.close();
            },
        }
    }

    /// Frame, protect and queue one reply, remembering it for
    /// retransmission. Only the session counters, the stored reply and
    /// the transmit buffer change; the frame is exactly the encoded
    /// reply under the echoed sequence number, protected by the session
    /// once it is Active.
    fn send_reply(&mut self, h_in: &PacketHeader, reply: &Message)
        requires
            old(self).spec_wf(),
            crate::message::spec_wf_message(reply@),
        ensures
            final(self).spec_wf(),
            final(self).rx@ == old(self).rx@,
            final(self).info == old(self).info,
            final(self).commands@ == old(self).commands@,
            final(self).online_ticks == old(self).online_ticks,
            final(self).ft == old(self).ft,
            old(self).sc.status != ScStatus::Active ==> ({
                let h = PacketHeader {
                    address: old(self).info.address as u8,
                    is_reply: true,
                    seq: (h_in.seq & 0x0f) as u8,
                    use_crc: h_in.use_crc,
                    sc_active: false,
                };
                let frame = crate::codec::spec_encode_packet(
                    h,
                    crate::message::spec_encode_message(reply@),
                );
                &&& final(self).last_seq == h_in.seq
                &&& final(self).last_reply@ == frame
                &&& (final(self).tx@ == old(self).tx@ + frame || final(self).tx@ == old(self).tx@)
            }),
            old(self).sc.status == ScStatus::Active && old(self).sc.send_counter < 0xfffffffe
                ==> ({
                let h = PacketHeader {
                    address: old(self).info.address as u8,
                    is_reply: true,
                    seq: (h_in.seq & 0x0f) as u8,
                    use_crc: h_in.use_crc,
                    sc_active: true,
                };
                let frame = crate::codec::spec_encode_packet(h, crate::sc::spec_wrap(
                    old(self).sc.s_enc@,
                    old(self).sc.s_mac@,
                    old(self).sc.cp_nonce@,
                    old(self).sc.send_counter,
                    h,
                    crate::message::spec_encode_message(reply@),
                ));
                &&& final(self).last_seq == h_in.seq
                &&& final(self).last_reply@ == frame
                &&& (final(self).tx@ == old(self).tx@ + frame || final(self).tx@ == old(self).tx@)
            }),
    {
        let mut payload = encode_message(reply);
        proof {
            lemma_encode_message_len(reply@);
        }
        let wrap = match self.sc.status {
            ScStatus::Active => true,
            _ => false,
        };
        let h_out = PacketHeader {
            address: self.info.address as u8,
            is_reply: true,
            seq: h_in.seq & 0x0f,
            use_crc: h_in.use_crc,
            sc_active: wrap,
        };
        proof {
            let s_in = h_in.seq;
            assert((s_in & 0x0f) <= 0x0f) by (bit_vector);
            assert(spec_wf_header(h_out));
        }
        if wrap {
            if self.sc.send_counter >= 0xfffffffe {
                // Counter space exhausted: force a new handshake.
                self.sc.invalidate();
                return ;
            }
            payload = self.sc.wrap_secure(&h_out, payload.as_slice());
        }
        let frame = encode_packet(&h_out, payload.as_slice());
        self.last_seq = h_in.seq;
        self.last_reply = frame.clone();
        if self.tx.len() <= 8192 && frame.len() <= 8192 - self.tx.len() {
            push_bytes(&mut self.tx, frame.as_slice());
        }
    }
}

} // verus!
