//! Idempotence of file-fragment retransmission: a PD that already
//! acknowledged an offset neither advances its transfer state nor writes
//! the bytes again when the same fragment arrives once more. The CP side
//! is played by hand-crafted frames on a plain (non-secure) link.

use std::cell::RefCell;
use std::collections::VecDeque;
use std::rc::Rc;

use libosdp::codec::{decode_packet, encode_packet, PacketHeader};
use libosdp::message::{decode_message, encode_message, Message};
use libosdp::{
    Channel, ChannelError, OsdpError, OsdpFileOps, PdInfoBuilder, PeripheralDevice,
};

pub struct MemoryChannel {
    id: i32,
    tx: Rc<RefCell<VecDeque<u8>>>,
    rx: Rc<RefCell<VecDeque<u8>>>,
}

impl MemoryChannel {
    pub fn pair() -> (MemoryChannel, MemoryChannel) {
        let a = Rc::new(RefCell::new(VecDeque::new()));
        let b = Rc::new(RefCell::new(VecDeque::new()));
        (
            MemoryChannel { id: 0, tx: a.clone(), rx: b.clone() },
            MemoryChannel { id: 1, tx: b, rx: a },
        )
    }
}

impl Channel for MemoryChannel {
    fn get_id(&self) -> i32 {
        self.id
    }

    fn read(&mut self, max_len: usize) -> Result<Vec<u8>, ChannelError> {
        let mut q = self.rx.borrow_mut();
        let n = max_len.min(q.len());
        Ok(q.drain(..n).collect())
    }

    fn write(&mut self, buf: &[u8]) -> Result<usize, ChannelError> {
        self.tx.borrow_mut().extend(buf.iter().copied());
        Ok(buf.len())
    }

    fn flush(&mut self) -> Result<(), ChannelError> {
        Ok(())
    }
}

pub struct VecFileOps {
    pub data: Rc<RefCell<Vec<u8>>>,
    pub writes: Rc<RefCell<Vec<(u64, usize)>>>,
}

impl OsdpFileOps for VecFileOps {
    fn open(&mut self, id: i32, _read_only: bool) -> Result<usize, OsdpError> {
        if id == 1 {
            Ok(self.data.borrow().len())
        } else {
            Err(OsdpError::FileTransfer("invalid file id"))
        }
    }

    fn offset_read(&self, size: usize, off: u64) -> Result<Vec<u8>, OsdpError> {
        let d = self.data.borrow();
        let off = off as usize;
        if off >= d.len() {
            return Ok(Vec::new());
        }
        let end = (off + size).min(d.len());
        Ok(d[off..end].to_vec())
    }

    fn offset_write(&self, buf: &[u8], off: u64) -> Result<usize, OsdpError> {
        let mut d = self.data.borrow_mut();
        let off = off as usize;
        if d.len() < off + buf.len() {
            d.resize(off + buf.len(), 0);
        }
        d[off..off + buf.len()].copy_from_slice(buf);
        self.writes.borrow_mut().push((off as u64, buf.len()));
        Ok(buf.len())
    }

    fn close(&mut self) -> Result<(), OsdpError> {
        Ok(())
    }
}

/// Send one plain message to the PD and return the decoded reply.
fn exchange(
    bus: &mut MemoryChannel,
    pd: &mut PeripheralDevice<MemoryChannel, VecFileOps>,
    seq: u8,
    m: Message,
) -> Message {
    let h = PacketHeader { address: 7, is_reply: false, seq, use_crc: true, sc_active: false };
    let payload = encode_message(&m);
    let frame = encode_packet(&h, &payload);
    bus.write(&frame).unwrap();
    pd.refresh();
    let reply_bytes = bus.read(4096).unwrap();
    let (rh, rp) = decode_packet(&reply_bytes).expect("PD must reply with one frame");
    assert!(rh.is_reply);
    assert_eq!(rh.seq, seq, "reply echoes the request sequence number");
    decode_message(&rp).expect("reply must carry a message")
}

#[test]
fn retransmitted_fragment_is_not_written_twice() {
    let (mut cp_bus, pd_bus) = MemoryChannel::pair();
    let info = PdInfoBuilder::new().address(7).unwrap().baud_rate(115200).unwrap();
    let mut pd: PeripheralDevice<MemoryChannel, VecFileOps> =
        PeripheralDevice::new(info, pd_bus).unwrap();
    let dest: Rc<RefCell<Vec<u8>>> = Rc::new(RefCell::new(Vec::new()));
    let writes = Rc::new(RefCell::new(Vec::new()));
    pd.register_file_ops(VecFileOps { data: dest.clone(), writes: writes.clone() }).unwrap();

    // Open a 6-byte transfer.
    let reply = exchange(&mut cp_bus, &mut pd, 1, Message::FileStart { id: 1, size: 6 });
    assert_eq!(reply, Message::FileAccept { size: 6, max_frag: 512 });

    // First fragment at offset 0.
    let frag = Message::FileData { offset: 0, data: vec![10, 20, 30] };
    let reply = exchange(&mut cp_bus, &mut pd, 2, frag.clone());
    assert_eq!(reply, Message::FileStat { offset: 3 });
    assert_eq!(writes.borrow().len(), 1);

    // The same fragment again, with a fresh sequence number, as after a
    // lost acknowledgement: acknowledged offset reported, nothing
    // written, state unchanged.
    let reply = exchange(&mut cp_bus, &mut pd, 3, frag);
    assert_eq!(reply, Message::FileStat { offset: 3 }, "state must not advance");
    assert_eq!(writes.borrow().len(), 1, "no duplicate write at the receiver");
    assert_eq!(pd.file_transfer_status().unwrap(), (6, 3));

    // The transfer still completes normally afterwards.
    let reply = exchange(&mut cp_bus, &mut pd, 4, Message::FileData {
        offset: 3,
        data: vec![40, 50, 60],
    });
    assert_eq!(reply, Message::FileStat { offset: 6 });
    assert_eq!(*dest.borrow(), vec![10, 20, 30, 40, 50, 60]);
    assert_eq!(pd.file_transfer_status().unwrap(), (6, 6));
}

#[test]
fn duplicate_sequence_number_retransmits_reply() {
    let (mut cp_bus, pd_bus) = MemoryChannel::pair();
    let info = PdInfoBuilder::new().address(7).unwrap().baud_rate(115200).unwrap();
    let mut pd: PeripheralDevice<MemoryChannel, VecFileOps> =
        PeripheralDevice::new(info, pd_bus).unwrap();

    let reply1 = exchange(&mut cp_bus, &mut pd, 5, Message::ReqId);
    // Same sequence number again: the PD must resend the identical
    // reply, not process a new request.
    let reply2 = exchange(&mut cp_bus, &mut pd, 5, Message::ReqId);
    assert_eq!(reply1, reply2);
}

#[test]
fn frames_for_other_addresses_are_ignored() {
    let (mut cp_bus, pd_bus) = MemoryChannel::pair();
    let info = PdInfoBuilder::new().address(7).unwrap().baud_rate(115200).unwrap();
    let mut pd: PeripheralDevice<MemoryChannel, VecFileOps> =
        PeripheralDevice::new(info, pd_bus).unwrap();
    let h = PacketHeader { address: 9, is_reply: false, seq: 1, use_crc: true, sc_active: false };
    let frame = encode_packet(&h, &encode_message(&Message::Poll));
    cp_bus.write(&frame).unwrap();
    pd.refresh();
    assert!(cp_bus.read(4096).unwrap().is_empty(), "not for us: no reply, no error");
}
