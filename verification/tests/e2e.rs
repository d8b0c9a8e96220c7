//! End-to-end scenario: a CP and a PD wired through in-memory channels
//! come online, establish the secure channel, exchange a command and an
//! event, and report status.

use std::cell::RefCell;
use std::collections::VecDeque;
use std::rc::Rc;

use libosdp::{
    Channel, ChannelError, ControlPanel, ControlPanelBuilder, NullFileOps, OsdpCommand,
    OsdpCommandBuzzer, OsdpEvent, OsdpEventCardRead, PdCapEntity, PdCapability, PdInfoBuilder,
    PeripheralDevice,
};

pub struct MemoryChannel {
    id: i32,
    tx: Rc<RefCell<VecDeque<u8>>>,
    rx: Rc<RefCell<VecDeque<u8>>>,
}

impl MemoryChannel {
    pub fn pair() -> (MemoryChannel, MemoryChannel) {
        let a = Rc::new(RefCell::new(VecDeque::new()));
        let b = Rc::new(RefCell::new(VecDeque::new()));
        (
            MemoryChannel { id: 0, tx: a.clone(), rx: b.clone() },
            MemoryChannel { id: 1, tx: b, rx: a },
        )
    }
}

impl Channel for MemoryChannel {
    fn get_id(&self) -> i32 {
        self.id
    }

    fn read(&mut self, max_len: usize) -> Result<Vec<u8>, ChannelError> {
        let mut q = self.rx.borrow_mut();
        let n = max_len.min(q.len());
        Ok(q.drain(..n).collect())
    }

    fn write(&mut self, buf: &[u8]) -> Result<usize, ChannelError> {
        self.tx.borrow_mut().extend(buf.iter().copied());
        Ok(buf.len())
    }

    fn flush(&mut self) -> Result<(), ChannelError> {
        Ok(())
    }
}

const KEY: [u8; 16] = [
    0x94, 0x4b, 0x8e, 0xdd, 0xcb, 0xaa, 0x2b, 0x5f, 0xe2, 0xb0, 0x14, 0x8d, 0x1b, 0x2f, 0x95,
    0xc9,
];

fn make_pair() -> (
    ControlPanel<MemoryChannel, NullFileOps>,
    PeripheralDevice<MemoryChannel, NullFileOps>,
) {
    let (cp_bus, pd_bus) = MemoryChannel::pair();
    let pd_info = PdInfoBuilder::new()
        .name("pd 101")
        .unwrap()
        .address(101)
        .unwrap()
        .baud_rate(115200)
        .unwrap()
        .capability(PdCapability::CommunicationSecurity(PdCapEntity::new(1, 1)))
        .capability(PdCapability::AudibleOutput(PdCapEntity::new(1, 1)))
        .secure_channel_key(KEY);
    let pd = PeripheralDevice::new(pd_info, pd_bus).unwrap();

    let cp_side_info = PdInfoBuilder::new()
        .name("pd 101")
        .unwrap()
        .address(101)
        .unwrap()
        .baud_rate(115200)
        .unwrap()
        .secure_channel_key(KEY);
    let cp = ControlPanelBuilder::new().add_channel(cp_bus, vec![cp_side_info]).build().unwrap();
    (cp, pd)
}

fn spin(
    cp: &mut ControlPanel<MemoryChannel, NullFileOps>,
    pd: &mut PeripheralDevice<MemoryChannel, NullFileOps>,
    cycles: usize,
) {
    for _ in 0..cycles {
        cp.refresh();
        pd.refresh();
    }
}

#[test]
fn devices_come_online_and_secure() {
    let (mut cp, mut pd) = make_pair();
    assert!(!cp.is_online(0));
    spin(&mut cp, &mut pd, 50);
    assert!(cp.is_online(0), "CP must see the PD online");
    assert!(pd.is_online(), "PD must see the CP alive");
    assert!(cp.is_sc_active(0), "secure channel must be Active on the CP");
    assert!(pd.is_sc_active(), "secure channel must be Active on the PD");
    // Identity and capabilities were learned on the way.
    assert!(cp.get_pd_id(0).is_ok());
    assert!(cp
        .get_capability(0, PdCapability::CommunicationSecurity(PdCapEntity::new(0, 0)))
        .is_ok());
}

#[test]
fn command_reaches_pd_callback_intact() {
    let (mut cp, mut pd) = make_pair();
    spin(&mut cp, &mut pd, 50);
    assert!(cp.is_sc_active(0));
    let command = OsdpCommand::Buzzer(OsdpCommandBuzzer {
        reader: 0,
        control_code: 2,
        on_count: 10,
        off_count: 10,
        rep_count: 3,
    });
    cp.send_command(0, command.clone()).unwrap();
    spin(&mut cp, &mut pd, 20);
    let received = pd.next_command().expect("PD must receive the command");
    assert_eq!(received, command, "command must arrive identical");
    assert!(pd.next_command().is_none(), "exactly one command was sent");
}

#[test]
fn queued_commands_preserve_submission_order() {
    let (mut cp, mut pd) = make_pair();
    spin(&mut cp, &mut pd, 50);
    let first = OsdpCommand::Buzzer(OsdpCommandBuzzer {
        reader: 0,
        control_code: 1,
        on_count: 1,
        off_count: 1,
        rep_count: 1,
    });
    let second = OsdpCommand::Output(libosdp::OsdpCommandOutput {
        output_no: 4,
        control_code: 1,
        timer_count: 100,
    });
    cp.send_command(0, first.clone()).unwrap();
    cp.send_command(0, second.clone()).unwrap();
    spin(&mut cp, &mut pd, 40);
    assert_eq!(pd.next_command().unwrap(), first);
    assert_eq!(pd.next_command().unwrap(), second);
}

#[test]
fn event_reaches_cp_in_order() {
    let (mut cp, mut pd) = make_pair();
    spin(&mut cp, &mut pd, 50);
    let ev1 = OsdpEvent::CardRead(OsdpEventCardRead { reader_no: 0, format: 1, data: vec![1, 2] });
    let ev2 = OsdpEvent::CardRead(OsdpEventCardRead { reader_no: 0, format: 1, data: vec![3, 4] });
    pd.notify_event(ev1.clone()).unwrap();
    pd.notify_event(ev2.clone()).unwrap();
    spin(&mut cp, &mut pd, 20);
    let (pd_idx, got1) = cp.next_event().expect("first event must arrive");
    assert_eq!(pd_idx, 0);
    assert_eq!(got1, ev1);
    let (_, got2) = cp.next_event().expect("second event must arrive");
    assert_eq!(got2, ev2, "events arrive in order");
}

#[test]
fn send_command_validates_input() {
    let (mut cp, _pd) = make_pair();
    let cmd = OsdpCommand::Buzzer(OsdpCommandBuzzer {
        reader: 0,
        control_code: 1,
        on_count: 1,
        off_count: 1,
        rep_count: 1,
    });
    assert!(cp.send_command(1, cmd.clone()).is_err(), "PD index out of range");
    assert!(cp.send_command(-1, cmd).is_err());
    let oversized = OsdpCommand::Text(libosdp::OsdpCommandText {
        reader: 0,
        control_code: 1,
        offset_row: 0,
        offset_col: 0,
        data: vec![b'x'; 60],
    });
    assert!(cp.send_command(0, oversized).is_err(), "oversized text payload");
}

#[test]
fn builder_rejects_invalid_configurations() {
    // More than 126 PDs on one bus.
    let (bus, _other) = MemoryChannel::pair();
    let mut infos = Vec::new();
    for i in 0..127 {
        infos.push(
            PdInfoBuilder::new().address(i % 127).unwrap().baud_rate(9600).unwrap(),
        );
    }
    let r: Result<ControlPanel<MemoryChannel, NullFileOps>, _> =
        ControlPanelBuilder::new().add_channel(bus, infos).build();
    assert!(r.is_err(), "127 PDs exceed the multidrop limit");

    // A PD whose baud rate was never set is invalid.
    let (bus, _other) = MemoryChannel::pair();
    let r: Result<ControlPanel<MemoryChannel, NullFileOps>, _> =
        ControlPanelBuilder::new().add_channel(bus, vec![PdInfoBuilder::new()]).build();
    assert!(r.is_err(), "default baud rate is not a supported rate");

    // Enforced security without a base key is install mode, refused.
    let (bus, _other) = MemoryChannel::pair();
    let info = PdInfoBuilder::new()
        .address(1)
        .unwrap()
        .baud_rate(9600)
        .unwrap()
        .flag(libosdp::OsdpFlag::enforce_secure());
    let r: Result<ControlPanel<MemoryChannel, NullFileOps>, _> =
        ControlPanelBuilder::new().add_channel(bus, vec![info]).build();
    assert!(r.is_err());
}

#[test]
fn set_flag_updates_exactly_one_pd() {
    let (mut cp, _pd) = make_pair();
    assert!(!cp.pds[0].info.flags.ignore_unsolicited);
    cp.set_flag(0, libosdp::OsdpFlag::ignore_unsolicited(), true);
    assert!(cp.pds[0].info.flags.ignore_unsolicited);
    cp.set_flag(0, libosdp::OsdpFlag::ignore_unsolicited(), false);
    assert!(!cp.pds[0].info.flags.ignore_unsolicited);
    // An index out of range changes nothing and does not panic.
    cp.set_flag(5, libosdp::OsdpFlag::ignore_unsolicited(), true);
    assert!(!cp.pds[0].info.flags.ignore_unsolicited);
}

#[test]
fn register_file_ops_stores_the_collaborator() {
    let (mut cp, _pd) = make_pair();
    assert!(cp.fops[0].is_none());
    cp.register_file_ops(0, NullFileOps).unwrap();
    assert!(cp.fops[0].is_some());
    assert!(cp.register_file_ops(3, NullFileOps).is_err(), "no such PD");
}
