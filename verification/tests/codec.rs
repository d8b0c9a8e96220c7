//! Wire codec behavior: frame round trips, corruption detection, and
//! the command/event/message encodings.

use libosdp::codec::{decode_packet, encode_packet, FrameError, PacketHeader};
use libosdp::commands::{decode_command, encode_command};
use libosdp::events::{decode_event, encode_event};
use libosdp::message::{decode_message, encode_message, Message};
use libosdp::{
    OsdpCommand, OsdpCommandBuzzer, OsdpCommandComSet, OsdpCommandFileTx, OsdpCommandKeyset,
    OsdpCommandLed, OsdpCommandMfg, OsdpCommandOutput, OsdpCommandText, OsdpEvent,
    OsdpEventCardRead, OsdpEventKeypad, OsdpEventMfg, OsdpEventStatus, PdCapEntity, PdCapability,
    PdId,
};

fn header(use_crc: bool) -> PacketHeader {
    PacketHeader { address: 42, is_reply: false, seq: 7, use_crc, sc_active: false }
}

#[test]
fn frame_round_trip_crc() {
    let payload: Vec<u8> = (0u16..200).map(|x| (x % 251) as u8).collect();
    let h = header(true);
    let frame = encode_packet(&h, &payload);
    let (h2, p2) = decode_packet(&frame).expect("frame must decode");
    assert_eq!(h2, h);
    assert_eq!(p2, payload);
}

#[test]
fn frame_round_trip_checksum() {
    let payload = vec![1u8, 2, 3, 4, 5];
    let h = PacketHeader { address: 126, is_reply: true, seq: 15, use_crc: false, sc_active: true };
    let frame = encode_packet(&h, &payload);
    let (h2, p2) = decode_packet(&frame).expect("frame must decode");
    assert_eq!(h2, h);
    assert_eq!(p2, payload);
}

#[test]
fn frame_round_trip_empty_payload() {
    let h = header(true);
    let frame = encode_packet(&h, &[]);
    let (h2, p2) = decode_packet(&frame).expect("frame must decode");
    assert_eq!(h2, h);
    assert!(p2.is_empty());
}

#[test]
fn corrupt_byte_is_detected() {
    let payload = vec![9u8, 8, 7, 6, 5, 4, 3, 2, 1];
    let h = header(true);
    let frame = encode_packet(&h, &payload);
    // Corrupting any payload or integrity byte must not decode cleanly.
    for i in 6..frame.len() {
        let mut bad = frame.clone();
        bad[i] ^= 0x01;
        match decode_packet(&bad) {
            Ok((h2, p2)) => panic!("corrupt frame accepted at byte {i}: {h2:?} {p2:?}"),
            Err(FrameError::IntegrityMismatch) | Err(FrameError::Malformed) => {},
        }
    }
}

#[test]
fn truncated_and_malformed_frames_rejected() {
    let h = header(true);
    let frame = encode_packet(&h, &[1, 2, 3]);
    // Wrong start marker.
    let mut bad = frame.clone();
    bad[1] = 0x00;
    assert_eq!(decode_packet(&bad), Err(FrameError::Malformed));
    // Truncated.
    assert!(decode_packet(&frame[..frame.len() - 1]).is_err());
    assert!(decode_packet(&[]).is_err());
}

fn cmd_round_trip(c: OsdpCommand) {
    let mut buf = Vec::new();
    encode_command(&c, &mut buf);
    let back = decode_command(&buf).expect("command must decode");
    assert_eq!(back, c);
}

#[test]
fn command_round_trips() {
    cmd_round_trip(OsdpCommand::Output(OsdpCommandOutput {
        output_no: 1,
        control_code: 2,
        timer_count: 0x1234,
    }));
    cmd_round_trip(OsdpCommand::Led(OsdpCommandLed {
        reader: 0,
        led: 1,
        on_color: 2,
        off_color: 0,
        on_count: 10,
        off_count: 10,
    }));
    cmd_round_trip(OsdpCommand::Buzzer(OsdpCommandBuzzer {
        reader: 0,
        control_code: 2,
        on_count: 1,
        off_count: 1,
        rep_count: 3,
    }));
    cmd_round_trip(OsdpCommand::Text(OsdpCommandText {
        reader: 0,
        control_code: 1,
        offset_row: 2,
        offset_col: 3,
        data: b"hello osdp".to_vec(),
    }));
    cmd_round_trip(OsdpCommand::Keyset(OsdpCommandKeyset { key_type: 1, data: vec![0xAA; 16] }));
    cmd_round_trip(OsdpCommand::ComSet(OsdpCommandComSet { address: 101, baud_rate: 115200 }));
    cmd_round_trip(OsdpCommand::FileTx(OsdpCommandFileTx::new(1, 0)));
    cmd_round_trip(OsdpCommand::Mfg(OsdpCommandMfg {
        vendor_code: 0x00030201,
        command: 0x44,
        data: vec![1, 2, 3],
    }));
}

#[test]
fn command_rejects_oversized_payloads() {
    let mut buf = Vec::new();
    encode_command(
        &OsdpCommand::Text(OsdpCommandText {
            reader: 0,
            control_code: 1,
            offset_row: 0,
            offset_col: 0,
            data: vec![b'x'; 16],
        }),
        &mut buf,
    );
    // Tampering with the length byte makes the command undecodable.
    buf[5] = 200;
    assert!(decode_command(&buf).is_none());
}

fn event_round_trip(e: OsdpEvent) {
    let mut buf = Vec::new();
    encode_event(&e, &mut buf);
    let back = decode_event(&buf).expect("event must decode");
    assert_eq!(back, e);
}

#[test]
fn event_round_trips() {
    event_round_trip(OsdpEvent::CardRead(OsdpEventCardRead {
        reader_no: 0,
        format: 1,
        data: vec![0x5A; 8],
    }));
    event_round_trip(OsdpEvent::KeyPress(OsdpEventKeypad { reader_no: 1, data: vec![1, 2, 3, 4] }));
    event_round_trip(OsdpEvent::Status(OsdpEventStatus { tamper: 1, power: 0 }));
    event_round_trip(OsdpEvent::Mfg(OsdpEventMfg { vendor_code: 7, data: vec![9, 9] }));
}

fn msg_round_trip(m: Message) {
    let buf = encode_message(&m);
    let back = decode_message(&buf).expect("message must decode");
    assert_eq!(back, m);
}

#[test]
fn message_round_trips() {
    msg_round_trip(Message::Poll);
    msg_round_trip(Message::ReqId);
    msg_round_trip(Message::ReqCap);
    msg_round_trip(Message::Chlng(vec![1, 2, 3, 4, 5, 6, 7, 8]));
    msg_round_trip(Message::SCrypt(vec![9; 16]));
    msg_round_trip(Message::Cmd(OsdpCommand::Buzzer(OsdpCommandBuzzer {
        reader: 0,
        control_code: 1,
        on_count: 2,
        off_count: 3,
        rep_count: 4,
    })));
    msg_round_trip(Message::FileStart { id: 1, size: 51200 });
    msg_round_trip(Message::FileData { offset: 1024, data: vec![0xEE; 512] });
    msg_round_trip(Message::Ack);
    msg_round_trip(Message::Nak(6));
    msg_round_trip(Message::PdIdRep(PdId::from_number(3)));
    msg_round_trip(Message::CapRep(vec![
        PdCapability::CommunicationSecurity(PdCapEntity::new(1, 1)),
        PdCapability::LedControl(PdCapEntity::new(2, 4)),
    ]));
    msg_round_trip(Message::CCrypt { nonce: vec![1; 8], cryptogram: vec![2; 16] });
    msg_round_trip(Message::ScAck);
    msg_round_trip(Message::FileAccept { size: 51200, max_frag: 512 });
    msg_round_trip(Message::FileStat { offset: 2048 });
    msg_round_trip(Message::EventRep(OsdpEvent::Status(OsdpEventStatus { tamper: 0, power: 1 })));
}
