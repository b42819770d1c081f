use spi_transport::bus::PinAttempt;
use spi_transport::sensor::Sensor;
use spi_transport::sim::{BusRecord, SimBus, SimPin};
use spi_transport::transport::{Error, SpiInterface};

fn fresh() -> SpiInterface<SimBus, SimPin, SimPin> {
    SpiInterface::new(SimBus::new(), SimPin::new(), SimPin::new())
}

fn attempt(set_low: bool, ok: bool) -> PinAttempt {
    PinAttempt { set_low, ok }
}

fn scoped_ok() -> Vec<PinAttempt> {
    vec![attempt(true, true), attempt(false, true)]
}

fn write_record(r: &BusRecord) -> (&[u8], bool) {
    assert!(r.is_write);
    (&r.sent, r.ok)
}

fn transfer_record(r: &BusRecord) -> (&[u8], &[u8], bool) {
    assert!(!r.is_write);
    (&r.sent, &r.received, r.ok)
}

#[test]
fn write_register_accelerometer_records_scoped_write() {
    let mut iface = fresh();
    let r = iface.write_register(Sensor::Accelerometer, 0x20, 0x07);
    assert!(r.is_ok());
    let (bus, ag, m) = iface.into_parts();
    assert_eq!(ag.records, scoped_ok());
    assert!(m.records.is_empty());
    assert_eq!(bus.records.len(), 1);
    let (sent, ok) = write_record(&bus.records[0]);
    assert_eq!(sent, &[0x20, 0x07]);
    assert!(ok);
}

#[test]
fn write_register_keeps_every_bit_of_address_and_value() {
    let mut iface = fresh();
    let r = iface.write_register(Sensor::Gyro, 0xff, 0xab);
    assert!(r.is_ok());
    let (bus, _, _) = iface.into_parts();
    let (sent, _) = write_record(&bus.records[0]);
    assert_eq!(sent, &[0xff, 0xab]);
}

#[test]
fn gyro_shares_the_accelerometer_line() {
    let mut iface = fresh();
    let r = iface.write_register(Sensor::Gyro, 0x10, 0x01);
    assert!(r.is_ok());
    let (_, ag, m) = iface.into_parts();
    assert_eq!(ag.records, scoped_ok());
    assert!(m.records.is_empty());
}

#[test]
fn magnetometer_uses_its_own_line() {
    let mut iface = fresh();
    let r = iface.write_register(Sensor::Magnetometer, 0x10, 0x01);
    assert!(r.is_ok());
    let (_, ag, m) = iface.into_parts();
    assert!(ag.records.is_empty());
    assert_eq!(m.records, scoped_ok());
}

#[test]
fn read_register_magnetometer_returns_second_received_byte() {
    let mut bus = SimBus::new();
    bus.responses = vec![vec![0x00, 0x42]];
    let mut iface = SpiInterface::new(bus, SimPin::new(), SimPin::new());
    let r = iface.read_register(Sensor::Magnetometer, 0x03);
    assert_eq!(r.unwrap(), 0x42);
    let (bus, ag, m) = iface.into_parts();
    assert!(ag.records.is_empty());
    assert_eq!(m.records, scoped_ok());
    let (sent, received, ok) = transfer_record(&bus.records[0]);
    assert_eq!(sent, &[0x83, 0x00]);
    assert_eq!(received, &[0x00, 0x42]);
    assert!(ok);
}

#[test]
fn read_register_masks_the_top_two_address_bits() {
    let mut iface = fresh();
    let r = iface.read_register(Sensor::Accelerometer, 0xff);
    assert!(r.is_ok());
    let (bus, _, _) = iface.into_parts();
    let (sent, _, _) = transfer_record(&bus.records[0]);
    assert_eq!(sent[0], 0xbf);

    let mut iface = fresh();
    let r = iface.read_register(Sensor::Accelerometer, 0x05);
    assert!(r.is_ok());
    let (bus, _, _) = iface.into_parts();
    let (sent, _, _) = transfer_record(&bus.records[0]);
    assert_eq!(sent[0], 0x85);
}

#[test]
fn read_bytes_does_not_mask_the_address() {
    let mut iface = fresh();
    let mut buffer = vec![0u8; 3];
    let r = iface.read_bytes(Sensor::Accelerometer, 0xff, &mut buffer);
    assert!(r.is_ok());
    let (bus, _, _) = iface.into_parts();
    let (sent, _, _) = transfer_record(&bus.records[0]);
    assert_eq!(sent, &[0xff, 0x00, 0x00]);
}

#[test]
fn read_bytes_fills_the_buffer_in_place() {
    let mut bus = SimBus::new();
    bus.responses = vec![vec![0x11, 0x22, 0x33, 0x44]];
    let mut iface = SpiInterface::new(bus, SimPin::new(), SimPin::new());
    let mut buffer = vec![0x05, 0x99, 0x99, 0x99];
    let r = iface.read_bytes(Sensor::Gyro, 0x05, &mut buffer);
    assert!(r.is_ok());
    assert_eq!(buffer, vec![0x11, 0x22, 0x33, 0x44]);
    let (bus, ag, m) = iface.into_parts();
    assert_eq!(ag.records, scoped_ok());
    assert!(m.records.is_empty());
    let (sent, received, ok) = transfer_record(&bus.records[0]);
    assert_eq!(sent, &[0x85, 0x99, 0x99, 0x99]);
    assert_eq!(received, &[0x11, 0x22, 0x33, 0x44]);
    assert!(ok);
}

#[test]
fn read_bytes_answers_zeroes_without_a_scripted_response() {
    let mut iface = fresh();
    let mut buffer = vec![0xaa, 0xbb, 0xcc];
    let r = iface.read_bytes(Sensor::Magnetometer, 0x28, &mut buffer);
    assert!(r.is_ok());
    assert_eq!(buffer, vec![0x00, 0x00, 0x00]);
}

#[test]
fn failed_write_transfer_reports_comm_and_still_deasserts() {
    let mut bus = SimBus::new();
    bus.fail_writes = true;
    let mut iface = SpiInterface::new(bus, SimPin::new(), SimPin::new());
    let r = iface.write_register(Sensor::Accelerometer, 0x20, 0x07);
    assert!(matches!(r, Err(Error::Comm(_))));
    let (bus, ag, _) = iface.into_parts();
    let (sent, ok) = write_record(&bus.records[0]);
    assert_eq!(sent, &[0x20, 0x07]);
    assert!(!ok);
    assert_eq!(ag.records, scoped_ok());
}

#[test]
fn failed_read_transfer_reports_comm_even_when_deassertion_fails() {
    let mut bus = SimBus::new();
    bus.fail_transfers = true;
    let mut m = SimPin::new();
    m.fail_high = true;
    let mut iface = SpiInterface::new(bus, SimPin::new(), m);
    let r = iface.read_register(Sensor::Magnetometer, 0x03);
    assert!(matches!(r, Err(Error::Comm(_))));
    let (bus, _, m) = iface.into_parts();
    let (_, _, ok) = transfer_record(&bus.records[0]);
    assert!(!ok);
    assert_eq!(m.records, vec![attempt(true, true), attempt(false, false)]);
}

#[test]
fn failed_assertion_skips_the_transfer() {
    let mut ag = SimPin::new();
    ag.fail_low = true;
    let mut iface = SpiInterface::new(SimBus::new(), ag, SimPin::new());
    let r = iface.write_register(Sensor::Accelerometer, 0x20, 0x07);
    assert!(matches!(r, Err(Error::Pin(_))));
    let (bus, ag, m) = iface.into_parts();
    assert!(bus.records.is_empty());
    assert_eq!(ag.records, vec![attempt(true, false)]);
    assert!(m.records.is_empty());
}

#[test]
fn failed_assertion_skips_the_transfer_for_reads() {
    let mut m = SimPin::new();
    m.fail_low = true;
    let mut iface = SpiInterface::new(SimBus::new(), SimPin::new(), m);
    let r = iface.read_register(Sensor::Magnetometer, 0x03);
    assert!(matches!(r, Err(Error::Pin(_))));
    let (bus, _, m) = iface.into_parts();
    assert!(bus.records.is_empty());
    assert_eq!(m.records, vec![attempt(true, false)]);
}

#[test]
fn failed_assertion_still_stamps_the_block_read_command_byte() {
    let mut ag = SimPin::new();
    ag.fail_low = true;
    let mut iface = SpiInterface::new(SimBus::new(), ag, SimPin::new());
    let mut buffer = vec![0x01, 0x02, 0x03];
    let r = iface.read_bytes(Sensor::Gyro, 0xc1, &mut buffer);
    assert!(matches!(r, Err(Error::Pin(_))));
    assert_eq!(buffer, vec![0xc1 | 0x80, 0x02, 0x03]);
}

#[test]
fn failed_deassertion_after_a_good_transfer_reports_pin() {
    let mut ag = SimPin::new();
    ag.fail_high = true;
    let mut iface = SpiInterface::new(SimBus::new(), ag, SimPin::new());
    let r = iface.write_register(Sensor::Gyro, 0x1f, 0x80);
    assert!(matches!(r, Err(Error::Pin(_))));
    let (bus, ag, _) = iface.into_parts();
    let (sent, ok) = write_record(&bus.records[0]);
    assert_eq!(sent, &[0x1f, 0x80]);
    assert!(ok);
    assert_eq!(ag.records, vec![attempt(true, true), attempt(false, false)]);
}

#[test]
fn scripted_responses_are_consumed_in_order() {
    let mut bus = SimBus::new();
    bus.responses = vec![vec![0x00, 0x11], vec![0x00, 0x22]];
    let mut iface = SpiInterface::new(bus, SimPin::new(), SimPin::new());
    assert_eq!(iface.read_register(Sensor::Accelerometer, 0x01).unwrap(), 0x11);
    assert_eq!(iface.read_register(Sensor::Magnetometer, 0x01).unwrap(), 0x22);
    let (bus, _, _) = iface.into_parts();
    assert!(bus.responses.is_empty());
}

#[test]
fn successive_operations_append_to_the_histories() {
    let mut bus = SimBus::new();
    bus.responses = vec![vec![0x00, 0x10]];
    let mut iface = SpiInterface::new(bus, SimPin::new(), SimPin::new());
    assert!(iface.write_register(Sensor::Accelerometer, 0x20, 0x07).is_ok());
    assert_eq!(iface.read_register(Sensor::Accelerometer, 0x20).unwrap(), 0x10);
    let (bus, ag, m) = iface.into_parts();
    assert_eq!(bus.records.len(), 2);
    assert!(bus.records[0].is_write);
    assert!(!bus.records[1].is_write);
    assert_eq!(ag.records.len(), 4);
    assert!(m.records.is_empty());
}
