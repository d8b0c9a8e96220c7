//! The chunked file-transfer sub-protocol, end to end: a 50 KiB file
//! moves from the CP's collaborator to the PD's in explicit-offset
//! fragments, and both contents match afterwards.

use std::cell::RefCell;
use std::collections::VecDeque;
use std::rc::Rc;

use libosdp::file::FtStatus;
use libosdp::{
    Channel, ChannelError, ControlPanel, ControlPanelBuilder, OsdpCommand, OsdpCommandFileTx,
    OsdpError, OsdpFileOps, PdInfoBuilder, PeripheralDevice,
};

pub struct MemoryChannel {
    id: i32,
    tx: Rc<RefCell<VecDeque<u8>>>,
    rx: Rc<RefCell<VecDeque<u8>>>,
}

impl MemoryChannel {
    pub fn pair() -> (MemoryChannel, MemoryChannel) {
        let a = Rc::new(RefCell::new(VecDeque::new()));
        let b = Rc::new(RefCell::new(VecDeque::new()));
        (
            MemoryChannel { id: 0, tx: a.clone(), rx: b.clone() },
            MemoryChannel { id: 1, tx: b, rx: a },
        )
    }
}

impl Channel for MemoryChannel {
    fn get_id(&self) -> i32 {
        self.id
    }

    fn read(&mut self, max_len: usize) -> Result<Vec<u8>, ChannelError> {
        let mut q = self.rx.borrow_mut();
        let n = max_len.min(q.len());
        Ok(q.drain(..n).collect())
    }

    fn write(&mut self, buf: &[u8]) -> Result<usize, ChannelError> {
        self.tx.borrow_mut().extend(buf.iter().copied());
        Ok(buf.len())
    }

    fn flush(&mut self) -> Result<(), ChannelError> {
        Ok(())
    }
}

/// A file-operations collaborator over an in-memory byte vector, keyed
/// by one pre-agreed file id.
pub struct VecFileOps {
    pub id: i32,
    pub data: Rc<RefCell<Vec<u8>>>,
    pub writes: Rc<RefCell<Vec<(u64, usize)>>>,
}

impl VecFileOps {
    pub fn new(id: i32, data: Rc<RefCell<Vec<u8>>>) -> VecFileOps {
        VecFileOps { id, data, writes: Rc::new(RefCell::new(Vec::new())) }
    }
}

impl OsdpFileOps for VecFileOps {
    fn open(&mut self, id: i32, _read_only: bool) -> Result<usize, OsdpError> {
        if id == self.id {
            Ok(self.data.borrow().len())
        } else {
            Err(OsdpError::FileTransfer("invalid file id"))
        }
    }

    fn offset_read(&self, size: usize, off: u64) -> Result<Vec<u8>, OsdpError> {
        let d = self.data.borrow();
        let off = off as usize;
        if off >= d.len() {
            return Ok(Vec::new());
        }
        let end = (off + size).min(d.len());
        Ok(d[off..end].to_vec())
    }

    fn offset_write(&self, buf: &[u8], off: u64) -> Result<usize, OsdpError> {
        let mut d = self.data.borrow_mut();
        let off = off as usize;
        if d.len() < off + buf.len() {
            d.resize(off + buf.len(), 0);
        }
        d[off..off + buf.len()].copy_from_slice(buf);
        self.writes.borrow_mut().push((off as u64, buf.len()));
        Ok(buf.len())
    }

    fn close(&mut self) -> Result<(), OsdpError> {
        Ok(())
    }
}

const KEY: [u8; 16] = [
    0x94, 0x4b, 0x8e, 0xdd, 0xcb, 0xaa, 0x2b, 0x5f, 0xe2, 0xb0, 0x14, 0x8d, 0x1b, 0x2f, 0x95,
    0xc9,
];

/// A deterministic pseudo-random file body.
fn file_body(size: usize) -> Vec<u8> {
    let mut state: u32 = 0x1234_5678;
    let mut out = Vec::with_capacity(size);
    for _ in 0..size {
        state = state.wrapping_mul(1664525).wrapping_add(1013904223);
        out.push((state >> 24) as u8);
    }
    out
}

#[test]
fn test_file_transfer() {
    let (cp_bus, pd_bus) = MemoryChannel::pair();
    let pd_info = PdInfoBuilder::new()
        .name("pd 101")
        .unwrap()
        .address(101)
        .unwrap()
        .baud_rate(115200)
        .unwrap()
        .secure_channel_key(KEY);
    let mut pd: PeripheralDevice<MemoryChannel, VecFileOps> =
        PeripheralDevice::new(pd_info, pd_bus).unwrap();

    let cp_side = PdInfoBuilder::new()
        .name("pd 101")
        .unwrap()
        .address(101)
        .unwrap()
        .baud_rate(115200)
        .unwrap()
        .secure_channel_key(KEY);
    let mut cp: ControlPanel<MemoryChannel, VecFileOps> =
        ControlPanelBuilder::new().add_channel(cp_bus, vec![cp_side]).build().unwrap();

    // Come online with the secure channel up first.
    for _ in 0..50 {
        cp.refresh();
        pd.refresh();
    }
    assert!(cp.is_sc_active(0));

    // Source and destination "files".
    let source = Rc::new(RefCell::new(file_body(50 * 1024)));
    let dest: Rc<RefCell<Vec<u8>>> = Rc::new(RefCell::new(Vec::new()));
    cp.register_file_ops(0, VecFileOps::new(1, source.clone())).unwrap();
    pd.register_file_ops(VecFileOps::new(1, dest.clone())).unwrap();

    let command = OsdpCommand::FileTx(OsdpCommandFileTx::new(1, 0));
    cp.send_command(0, command.clone()).unwrap();

    let mut done = false;
    for _ in 0..2000 {
        cp.refresh();
        pd.refresh();
        if let Ok((size, offset)) = pd.file_transfer_status() {
            if size == offset && size > 0 {
                done = true;
                break;
            }
        }
    }
    assert!(done, "transfer must complete");
    // Let the final acknowledgement reach the CP.
    for _ in 0..5 {
        cp.refresh();
        pd.refresh();
    }
    assert_eq!(pd.next_command(), None, "file transfer rides the protocol, not the command queue");
    assert_eq!(cp.file_transfer_status(0).unwrap(), (50 * 1024, 50 * 1024));
    assert_eq!(
        *source.borrow(),
        *dest.borrow(),
        "transferred file content must match the source"
    );
}

#[test]
fn file_transfer_status_errors_while_idle() {
    let (cp_bus, _pd_bus) = MemoryChannel::pair();
    let cp_side = PdInfoBuilder::new().address(5).unwrap().baud_rate(9600).unwrap();
    let cp: ControlPanel<MemoryChannel, VecFileOps> =
        ControlPanelBuilder::new().add_channel(cp_bus, vec![cp_side]).build().unwrap();
    assert!(cp.file_transfer_status(0).is_err(), "no transfer in progress");
    assert!(cp.file_transfer_status(7).is_err(), "no such PD");
}
