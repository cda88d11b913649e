use ground_control::data::{Sample, SeriesId};
use ground_control::frame::{Dialect, MessageSpec};
use ground_control::packet::{CompositeRecord, Header, Packet, Payload};
use ground_control::pipeline::Pipeline;
use ground_control::serial_connection::Status;

const GOOD: [u8; 34] = [
    0xFD, 0x16, 0x00, 0x00, 0x07, 0x01, 0xC8, 0x50, 0xC3, 0x00, 0xDC, 0x05, 0x00, 0x00, 0xE8,
    0x03, 0x0C, 0xFE, 0x00, 0x00, 0xC4, 0x09, 0x3C, 0xF6, 0x01, 0x00, 0x2C, 0x01, 0xD4, 0xFE,
    0xFF, 0x7F, 0xB0, 0xE6,
];

const NEXT: [u8; 34] = [
    0xFD, 0x16, 0x00, 0x00, 0x08, 0x01, 0xC8, 0x50, 0xC3, 0x00, 0xC4, 0x09, 0x00, 0x00, 0x18,
    0xFC, 0xF4, 0x01, 0x0A, 0x00, 0x00, 0x80, 0x14, 0x00, 0x1E, 0x00, 0x28, 0x00, 0x32, 0x00,
    0x3C, 0x00, 0x42, 0x23,
];

const PULSE: [u8; 21] = [
    0xFD, 0x09, 0x00, 0x00, 0x01, 0x01, 0x01, 0x00, 0x00, 0x00, 0x00, 0x00, 0x00, 0x00, 0x02,
    0x0C, 0x51, 0x04, 0x03, 0x0B, 0xFA,
];

const SERIES: [SeriesId; 9] = [
    SeriesId::XAcc,
    SeriesId::YAcc,
    SeriesId::ZAcc,
    SeriesId::XGyro,
    SeriesId::YGyro,
    SeriesId::ZGyro,
    SeriesId::XMag,
    SeriesId::YMag,
    SeriesId::ZMag,
];

fn pipeline() -> Pipeline {
    Pipeline::new(Dialect::new(
        MessageSpec { id: 50_000, crc_extra: 77 },
        vec![MessageSpec { id: 0, crc_extra: 50 }],
    ))
}

fn connected() -> Pipeline {
    let mut p = pipeline();
    assert!(p.serial.connect("COM1".to_string()).is_some());
    p.serial.complete(true);
    p
}

/// Drains `port` as a polling cycle does: until a read gives nothing.
fn drain(p: &mut Pipeline, port: &mut Vec<u8>) {
    loop {
        let polled = if port.is_empty() { None } else { Some(port.remove(0)) };
        if !p.poll_byte(polled) {
            break;
        }
    }
}

#[test]
fn new_pipeline_is_idle() {
    let p = pipeline();
    assert_eq!(p.serial.connection_status(), Status::Disconnected);
    assert_eq!(p.decoder.buffered(), 0);
    assert_eq!(p.decoder.packets_received(), 0);
    for id in SERIES {
        assert_eq!(p.data.series(id).len(), 0);
    }
}

#[test]
fn no_byte_is_taken_while_the_link_is_down() {
    let mut p = pipeline();
    assert!(!p.poll_byte(Some(0xFD)));
    assert!(!p.poll_byte(None));
    assert_eq!(p.decoder.buffered(), 0);
    assert_eq!(p.serial.bytes_read(), 0);
}

#[test]
fn polled_bytes_reach_the_buffer_in_order() {
    let mut p = connected();
    let mut port = GOOD.to_vec();
    drain(&mut p, &mut port);
    assert!(port.is_empty());
    assert_eq!(p.decoder.buffered(), 34);
    assert_eq!(p.serial.bytes_read(), 34);
    assert_eq!(p.decode_available(), 1);
    assert_eq!(p.decoder.buffered(), 0);
}

#[test]
fn cycle_turns_a_frame_into_nine_samples() {
    let mut p = connected();
    let mut port = GOOD.to_vec();
    drain(&mut p, &mut port);
    assert_eq!(p.decode_available(), 1);
    let wanted: [i64; 9] = [
        9_810_000,
        -4_905_000,
        0,
        2_500_000,
        -2_500_000,
        1_000,
        300_000_000,
        -300_000_000,
        32_767_000_000,
    ];
    for (i, id) in SERIES.iter().enumerate() {
        assert_eq!(
            p.data.series(*id).full_series(),
            &vec![Sample { t_ms: 1500, micro: wanted[i] }]
        );
    }
    assert_eq!(p.decoder.packets_received(), 1);
    assert_eq!(p.decoder.unhandled_packets(), 0);
    assert!((p.data.x_acc.last_value().unwrap().micro as f64 / 1e6 - 9.81).abs() < 1e-9);
    assert!((p.data.x_acc.last_value().unwrap().t_ms as f64 / 1000.0 - 1.5).abs() < 1e-9);
}

#[test]
fn several_frames_complete_in_one_cycle() {
    let mut p = connected();
    let mut port: Vec<u8> = Vec::new();
    port.extend_from_slice(&GOOD);
    port.extend_from_slice(&[0x00, 0x11, 0x22, 0x33, 0x44]);
    port.extend_from_slice(&PULSE);
    port.extend_from_slice(&NEXT);
    port.extend_from_slice(&GOOD[..7]);
    drain(&mut p, &mut port);
    assert_eq!(p.decode_available(), 3);
    assert_eq!(p.decoder.buffered(), 7);
    assert_eq!(p.decoder.packets_received(), 3);
    assert_eq!(p.decoder.unhandled_packets(), 1);
    assert_eq!(p.decoder.bytes_discarded(), 5);
    for id in SERIES {
        let s = p.data.series(id);
        assert_eq!(s.len(), 2);
        assert_eq!(s.full_series()[0].t_ms, 1500);
        assert_eq!(s.full_series()[1].t_ms, 2500);
    }
    assert_eq!(p.data.x_gyro.last_value(), Some(Sample { t_ms: 2500, micro: -32_768_000 }));
    assert_eq!(p.decode_available(), 0);
    assert_eq!(p.decoder.buffered(), 7);
    let mut rest = GOOD[7..].to_vec();
    drain(&mut p, &mut rest);
    assert_eq!(p.decode_available(), 1);
    assert_eq!(p.data.z_mag.len(), 3);
    assert_eq!(p.data.z_mag.regressions(), 1);
}

#[test]
fn cycle_without_data_changes_nothing() {
    let mut p = connected();
    let mut port: Vec<u8> = Vec::new();
    drain(&mut p, &mut port);
    assert_eq!(p.decode_available(), 0);
    assert_eq!(p.decoder.buffered(), 0);
    assert_eq!(p.serial.bytes_read(), 0);
    for id in SERIES {
        assert_eq!(p.data.series(id).len(), 0);
    }
}

#[test]
fn other_message_leaves_the_series_alone() {
    let mut p = connected();
    let mut port = PULSE.to_vec();
    drain(&mut p, &mut port);
    assert_eq!(p.decode_available(), 1);
    assert_eq!(p.decoder.unhandled_packets(), 1);
    for id in SERIES {
        assert_eq!(p.data.series(id).len(), 0);
    }
}

#[test]
fn handle_packet_takes_a_record_in() {
    let mut p = pipeline();
    let record = CompositeRecord {
        time_boot_ms: 10,
        xacc: 1,
        yacc: 2,
        zacc: 3,
        xgyro: 4,
        ygyro: 5,
        zgyro: 6,
        xmag: 7,
        ymag: 8,
        zmag: 9,
    };
    let header = Header { system_id: 1, component_id: 2, sequence: 3 };
    p.handle_packet(&Packet { header, payload: Payload::Other { message_id: 4 } });
    for id in SERIES {
        assert_eq!(p.data.series(id).len(), 0);
    }
    p.handle_packet(&Packet { header, payload: Payload::Composite(record) });
    assert_eq!(p.data.x_acc.last_value(), Some(Sample { t_ms: 10, micro: 9_810 }));
    assert_eq!(p.data.y_gyro.last_value(), Some(Sample { t_ms: 10, micro: 5_000 }));
    assert_eq!(p.data.z_mag.last_value(), Some(Sample { t_ms: 10, micro: 9_000_000 }));
    assert_eq!(p.decoder.packets_received(), 0);
}

#[test]
fn corrupt_frame_does_not_stop_the_cycle() {
    let mut broken = GOOD;
    broken[33] ^= 0xFF;
    let mut p = connected();
    let mut port: Vec<u8> = Vec::new();
    port.extend_from_slice(&broken);
    port.extend_from_slice(&NEXT);
    drain(&mut p, &mut port);
    assert_eq!(p.decode_available(), 1);
    assert_eq!(p.decoder.corrupt_frames(), 1);
    assert_eq!(p.data.x_acc.last_value(), Some(Sample { t_ms: 2500, micro: -9_810_000 }));
    assert_eq!(p.serial.connection_status(), Status::Connected);
}

#[test]
fn take_bytes_takes_everything_while_the_link_is_up() {
    let mut p = connected();
    assert_eq!(p.take_bytes(&GOOD[..10].to_vec()), 10);
    assert_eq!(p.take_bytes(&Vec::new()), 0);
    assert_eq!(p.take_bytes(&GOOD[10..].to_vec()), 24);
    assert_eq!(p.decoder.buffered(), 34);
    assert_eq!(p.serial.bytes_read(), 34);
    assert_eq!(p.decoder.packets_received(), 0);
    assert_eq!(p.decode_available(), 1);
    assert_eq!(p.data.x_acc.last_value(), Some(Sample { t_ms: 1500, micro: 9_810_000 }));
}

#[test]
fn take_bytes_takes_nothing_while_the_link_is_not_up() {
    let mut p = pipeline();
    assert_eq!(p.take_bytes(&GOOD.to_vec()), 0);
    assert!(p.serial.connect("COM1".to_string()).is_some());
    assert_eq!(p.take_bytes(&GOOD.to_vec()), 0);
    p.serial.complete(false);
    assert_eq!(p.take_bytes(&GOOD.to_vec()), 0);
    assert_eq!(p.decoder.buffered(), 0);
    assert_eq!(p.serial.bytes_read(), 0);
}

#[test]
fn poll_cycle_drains_and_decodes() {
    let mut p = connected();
    let mut arrived = GOOD.to_vec();
    arrived.extend_from_slice(&[0x00, 0x11, 0x22, 0x33, 0x44]);
    arrived.extend_from_slice(&NEXT);
    assert_eq!(p.poll_cycle(&arrived), 2);
    assert_eq!(p.serial.bytes_read(), 73);
    assert_eq!(p.decoder.buffered(), 0);
    assert_eq!(p.decoder.bytes_discarded(), 5);
    assert_eq!(p.data.y_acc.len(), 2);
    assert_eq!(p.data.y_acc.full_series()[0], Sample { t_ms: 1500, micro: -4_905_000 });
    assert_eq!(p.data.y_acc.full_series()[1], Sample { t_ms: 2500, micro: 4_905_000 });
    assert_eq!(p.poll_cycle(&Vec::new()), 0);
}

#[test]
fn poll_cycles_add_up_wherever_the_stream_is_cut() {
    let mut stream = GOOD.to_vec();
    stream.extend_from_slice(&[0xFD, 0x07]);
    stream.extend_from_slice(&PULSE);
    stream.extend_from_slice(&NEXT);
    let mut whole = connected();
    assert_eq!(whole.poll_cycle(&stream), 3);
    for cut in 0..=stream.len() {
        let mut p = connected();
        let sooner = p.poll_cycle(&stream[..cut].to_vec());
        let later = p.poll_cycle(&stream[cut..].to_vec());
        assert_eq!(sooner + later, 3);
        assert_eq!(p.decoder.buffered(), whole.decoder.buffered());
        for id in SERIES {
            assert_eq!(p.data.series(id).full_series(), whole.data.series(id).full_series());
        }
    }
}

#[test]
fn poll_cycle_while_down_ignores_the_bytes() {
    let mut p = pipeline();
    assert_eq!(p.poll_cycle(&GOOD.to_vec()), 0);
    assert_eq!(p.decoder.buffered(), 0);
    assert_eq!(p.serial.bytes_read(), 0);
    assert_eq!(p.data.x_acc.len(), 0);
}
