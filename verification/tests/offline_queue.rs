//! Offline detection and the bounded event queue: a dead channel takes
//! a PD offline within the retry budget, and the PD-side queue drops its
//! oldest entry when full while flushing leaves the command path alone.

use std::cell::RefCell;
use std::collections::VecDeque;
use std::rc::Rc;

use libosdp::events::EventQueue;
use libosdp::{
    Channel, ChannelError, ControlPanel, ControlPanelBuilder, NullFileOps, OsdpEvent,
    OsdpEventKeypad, OsdpEventStatus, PdInfoBuilder, PeripheralDevice,
};

pub struct MemoryChannel {
    id: i32,
    tx: Rc<RefCell<VecDeque<u8>>>,
    rx: Rc<RefCell<VecDeque<u8>>>,
    pub cut: Rc<RefCell<bool>>,
}

impl MemoryChannel {
    pub fn pair() -> (MemoryChannel, MemoryChannel) {
        let a = Rc::new(RefCell::new(VecDeque::new()));
        let b = Rc::new(RefCell::new(VecDeque::new()));
        let cut = Rc::new(RefCell::new(false));
        (
            MemoryChannel { id: 0, tx: a.clone(), rx: b.clone(), cut: cut.clone() },
            MemoryChannel { id: 1, tx: b, rx: a, cut },
        )
    }
}

impl Channel for MemoryChannel {
    fn get_id(&self) -> i32 {
        self.id
    }

    fn read(&mut self, max_len: usize) -> Result<Vec<u8>, ChannelError> {
        if *self.cut.borrow() {
            return Ok(Vec::new());
        }
        let mut q = self.rx.borrow_mut();
        let n = max_len.min(q.len());
        Ok(q.drain(..n).collect())
    }

    fn write(&mut self, buf: &[u8]) -> Result<usize, ChannelError> {
        if !*self.cut.borrow() {
            self.tx.borrow_mut().extend(buf.iter().copied());
        }
        Ok(buf.len())
    }

    fn flush(&mut self) -> Result<(), ChannelError> {
        Ok(())
    }
}

const KEY: [u8; 16] = [0x11; 16];

#[test]
fn silent_channel_never_reports_online() {
    let (cp_bus, _pd_bus) = MemoryChannel::pair();
    let info = PdInfoBuilder::new().address(9).unwrap().baud_rate(9600).unwrap();
    let mut cp: ControlPanel<MemoryChannel, NullFileOps> =
        ControlPanelBuilder::new().add_channel(cp_bus, vec![info]).build().unwrap();
    for _ in 0..200 {
        cp.refresh();
    }
    assert!(!cp.is_online(0), "a PD that never answers must not be online");
}

#[test]
fn dead_channel_takes_pd_offline_within_budget() {
    let (cp_bus, pd_bus) = MemoryChannel::pair();
    let cut = cp_bus.cut.clone();
    let pd_info = PdInfoBuilder::new()
        .name("pd 5")
        .unwrap()
        .address(5)
        .unwrap()
        .baud_rate(115200)
        .unwrap()
        .secure_channel_key(KEY);
    let mut pd: PeripheralDevice<MemoryChannel, NullFileOps> =
        PeripheralDevice::new(pd_info, pd_bus).unwrap();
    let cp_side = PdInfoBuilder::new()
        .address(5)
        .unwrap()
        .baud_rate(115200)
        .unwrap()
        .secure_channel_key(KEY);
    let mut cp: ControlPanel<MemoryChannel, NullFileOps> =
        ControlPanelBuilder::new().add_channel(cp_bus, vec![cp_side]).build().unwrap();
    for _ in 0..50 {
        cp.refresh();
        pd.refresh();
    }
    assert!(cp.is_online(0), "PD online before the line is cut");
    // Cut the line: the PD's channel never produces a reply again.
    *cut.borrow_mut() = true;
    for _ in 0..libosdp::cp::CP_OFFLINE_BUDGET {
        cp.refresh();
        pd.refresh();
    }
    assert!(!cp.is_online(0), "retry budget exhausted must mean offline");
}

#[test]
fn event_queue_drops_oldest_when_full() {
    let mut q = EventQueue::new(3);
    for i in 0..5u8 {
        q.push(OsdpEvent::Status(OsdpEventStatus { tamper: i, power: 0 }));
    }
    assert_eq!(q.len(), 3, "queue stays within its bound");
    // The two oldest events were dropped.
    match q.pop_front().unwrap() {
        OsdpEvent::Status(s) => assert_eq!(s.tamper, 2),
        other => panic!("unexpected event {other:?}"),
    }
    match q.pop_front().unwrap() {
        OsdpEvent::Status(s) => assert_eq!(s.tamper, 3),
        other => panic!("unexpected event {other:?}"),
    }
    match q.pop_front().unwrap() {
        OsdpEvent::Status(s) => assert_eq!(s.tamper, 4),
        other => panic!("unexpected event {other:?}"),
    }
    assert!(q.pop_front().is_none());
}

#[test]
fn notify_event_bounds_queue_and_flush_clears_it() {
    let (_cp_bus, pd_bus) = MemoryChannel::pair();
    let info = PdInfoBuilder::new().address(3).unwrap().baud_rate(9600).unwrap();
    let mut pd: PeripheralDevice<MemoryChannel, NullFileOps> =
        PeripheralDevice::new(info, pd_bus).unwrap();
    for i in 0..100u8 {
        pd.notify_event(OsdpEvent::KeyPress(OsdpEventKeypad { reader_no: i, data: vec![i] }))
            .unwrap();
    }
    assert_eq!(pd.events.len(), libosdp::pd::PD_EVENT_QUEUE_CAP);
    pd.flush_events();
    assert_eq!(pd.events.len(), 0);
    // Flushing touched nothing on the command path.
    assert!(pd.next_command().is_none());
    assert!(pd.file_transfer_status().is_err());
}

#[test]
fn notify_event_rejects_oversized_payloads() {
    let (_cp_bus, pd_bus) = MemoryChannel::pair();
    let info = PdInfoBuilder::new().address(3).unwrap().baud_rate(9600).unwrap();
    let mut pd: PeripheralDevice<MemoryChannel, NullFileOps> =
        PeripheralDevice::new(info, pd_bus).unwrap();
    let oversized = OsdpEvent::KeyPress(OsdpEventKeypad { reader_no: 0, data: vec![0; 65] });
    assert!(pd.notify_event(oversized).is_err());
    assert_eq!(pd.events.len(), 0);
}

#[test]
fn enforce_secure_requires_a_key() {
    let (_a, b) = MemoryChannel::pair();
    let info = PdInfoBuilder::new()
        .address(3)
        .unwrap()
        .baud_rate(9600)
        .unwrap()
        .flag(libosdp::OsdpFlag::enforce_secure());
    let r: Result<PeripheralDevice<MemoryChannel, NullFileOps>, _> =
        PeripheralDevice::new(info, b);
    assert!(r.is_err(), "enforce_secure without a base key is install mode, refused");
}
