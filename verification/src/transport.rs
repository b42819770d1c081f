use vstd::prelude::*;

use crate::bus::bus_transfer;
use crate::bus::bus_write;
use crate::bus::op_ok;
use crate::bus::op_received;
use crate::bus::pin_attempt;
use crate::bus::BusOp;
use crate::bus::EnableLine;
use crate::bus::PinAttempt;
use crate::bus::SpiBus;
use crate::sensor::uses_ag_line;
use crate::sensor::Sensor;

verus! {

/// R/W bit: high in the first frame byte for a read operation.
const SPI_READ: u8 = 0x80;

/// A transport failure.  The originating cause from the bus or pin
/// capability is preserved unchanged; no failure is ever discarded in
/// favour of a summary code.
#[derive(Debug)]
pub enum Error<CommE, PinE> {
    /// Communication error: the bus reported a failed transfer.
    Comm(CommE),
    /// Pin setting error: an enable line could not be driven.
    Pin(PinE),
}

/// The two-byte frame a register write sends: the address, then the
/// value, with no bits altered and no read flag.
pub open spec fn write_frame(addr: u8, value: u8) -> Seq<u8> {
    seq![addr, value]
}

/// The command byte of a single-register read: the read flag over the low
/// six bits of the address.  Bits six and seven of the address are masked
/// off to respect the addressing width of the register map.
pub open spec fn read_command(addr: u8) -> u8 {
    0x80u8 | (addr & 0x3f)
}

/// The frame a single-register read sends: the masked command byte, then
/// one placeholder byte clocked out while the register value is clocked in.
pub open spec fn read_frame(addr: u8) -> Seq<u8> {
    seq![read_command(addr), 0u8]
}

/// The command byte of a block read: the read flag over the full address,
/// with no masking.  The asymmetry with `read_command` is deliberate and
/// must be preserved; callers are responsible for composing it with the
/// device's burst-read addressing convention.
pub open spec fn block_command(addr: u8) -> u8 {
    0x80u8 | addr
}

/// The enable line saw exactly one more attempt, a failed assertion: the
/// transaction was aborted before any bus activity.
pub open spec fn pins_aborted(pin0: Seq<PinAttempt>, pin1: Seq<PinAttempt>) -> bool {
    pin1 == pin0.push(pin_attempt(true, false))
}

/// The enable line saw exactly two more attempts around the transfer: a
/// successful assertion, then a deassertion whose outcome is `deassert_ok`.
pub open spec fn pins_scoped(
    pin0: Seq<PinAttempt>,
    pin1: Seq<PinAttempt>,
    deassert_ok: bool,
) -> bool {
    pin1 == pin0 + seq![pin_attempt(true, true), pin_attempt(false, deassert_ok)]
}

/// Everything a register write does to its enable line and to the bus,
/// for each of the four possible outcomes.  `pin0`/`pin1` are the before
/// and after histories of the selected enable line, `bus0`/`bus1` those of
/// the bus.  A failed transfer still attempts the deassertion, but its
/// outcome is discarded: the communication error is reported.
pub open spec fn scoped_write_post<CommE, PinE>(
    bus0: Seq<BusOp>,
    bus1: Seq<BusOp>,
    pin0: Seq<PinAttempt>,
    pin1: Seq<PinAttempt>,
    frame: Seq<u8>,
    r: Result<(), Error<CommE, PinE>>,
) -> bool {
    ||| (r matches Err(Error::Pin(_)) && bus1 == bus0 && pins_aborted(pin0, pin1))
    ||| (r matches Err(Error::Comm(_)) && bus1 == bus0.push(bus_write(frame, false))
        && pins_scoped(pin0, pin1, pin1.last().ok))
    ||| (r matches Err(Error::Pin(_)) && bus1 == bus0.push(bus_write(frame, true))
        && pins_scoped(pin0, pin1, false))
    ||| (r is Ok && bus1 == bus0.push(bus_write(frame, true)) && pins_scoped(pin0, pin1, true))
}

/// Everything a single-register read does to its enable line and to the
/// bus.  The frame sent is `read_frame(addr)`; on full success the value
/// returned is the second received byte.
pub open spec fn scoped_read_post<CommE, PinE>(
    bus0: Seq<BusOp>,
    bus1: Seq<BusOp>,
    pin0: Seq<PinAttempt>,
    pin1: Seq<PinAttempt>,
    addr: u8,
    r: Result<u8, Error<CommE, PinE>>,
) -> bool {
    let sent = read_frame(addr);
    let received = op_received(bus1.last());
    ||| (r matches Err(Error::Pin(_)) && bus1 == bus0 && pins_aborted(pin0, pin1))
    ||| (r matches Err(Error::Comm(_)) && bus1 == bus0.push(bus_transfer(sent, received, false))
        && received.len() == sent.len() && pins_scoped(pin0, pin1, pin1.last().ok))
    ||| (r matches Err(Error::Pin(_)) && bus1 == bus0.push(bus_transfer(sent, received, true))
        && received.len() == sent.len() && pins_scoped(pin0, pin1, false))
    ||| (r matches Ok(v) && bus1 == bus0.push(bus_transfer(sent, received, true))
        && received.len() == sent.len() && v == received[1] && pins_scoped(pin0, pin1, true))
}

/// Everything a block read does to its enable line, to the bus and to the
/// caller's buffer.  The first buffer byte is overwritten with the
/// unmasked command byte before any bus activity, so it is stamped even
/// when the enable line cannot be asserted; after a transfer the buffer
/// holds the received bytes in place.
pub open spec fn scoped_block_read_post<CommE, PinE>(
    bus0: Seq<BusOp>,
    bus1: Seq<BusOp>,
    pin0: Seq<PinAttempt>,
    pin1: Seq<PinAttempt>,
    buf0: Seq<u8>,
    buf1: Seq<u8>,
    addr: u8,
    r: Result<(), Error<CommE, PinE>>,
) -> bool {
    let sent = buf0.update(0, block_command(addr));
    ||| (r matches Err(Error::Pin(_)) && bus1 == bus0 && buf1 == sent
        && pins_aborted(pin0, pin1))
    ||| (r matches Err(Error::Comm(_)) && bus1 == bus0.push(bus_transfer(sent, buf1, false))
        && pins_scoped(pin0, pin1, pin1.last().ok))
    ||| (r matches Err(Error::Pin(_)) && bus1 == bus0.push(bus_transfer(sent, buf1, true))
        && pins_scoped(pin0, pin1, false))
    ||| (r is Ok && bus1 == bus0.push(bus_transfer(sent, buf1, true))
        && pins_scoped(pin0, pin1, true))
}

/// A register write touches only the enable line of the sensor's group:
/// the other line's history is unchanged.
pub open spec fn write_register_post<CommE, PinE>(
    bus0: Seq<BusOp>,
    bus1: Seq<BusOp>,
    ag0: Seq<PinAttempt>,
    ag1: Seq<PinAttempt>,
    m0: Seq<PinAttempt>,
    m1: Seq<PinAttempt>,
    sensor: Sensor,
    addr: u8,
    value: u8,
    r: Result<(), Error<CommE, PinE>>,
) -> bool {
    if uses_ag_line(sensor) {
        m1 == m0 && scoped_write_post(bus0, bus1, ag0, ag1, write_frame(addr, value), r)
    } else {
        ag1 == ag0 && scoped_write_post(bus0, bus1, m0, m1, write_frame(addr, value), r)
    }
}

/// A single-register read touches only the enable line of the sensor's
/// group: the other line's history is unchanged.
pub open spec fn read_register_post<CommE, PinE>(
    bus0: Seq<BusOp>,
    bus1: Seq<BusOp>,
    ag0: Seq<PinAttempt>,
    ag1: Seq<PinAttempt>,
    m0: Seq<PinAttempt>,
    m1: Seq<PinAttempt>,
    sensor: Sensor,
    addr: u8,
    r: Result<u8, Error<CommE, PinE>>,
) -> bool {
    if uses_ag_line(sensor) {
        m1 == m0 && scoped_read_post(bus0, bus1, ag0, ag1, addr, r)
    } else {
        ag1 == ag0 && scoped_read_post(bus0, bus1, m0, m1, addr, r)
    }
}

/// A block read touches only the enable line of the sensor's group: the
/// other line's history is unchanged.
pub open spec fn read_bytes_post<CommE, PinE>(
    bus0: Seq<BusOp>,
    bus1: Seq<BusOp>,
    ag0: Seq<PinAttempt>,
    ag1: Seq<PinAttempt>,
    m0: Seq<PinAttempt>,
    m1: Seq<PinAttempt>,
    sensor: Sensor,
    buf0: Seq<u8>,
    buf1: Seq<u8>,
    addr: u8,
    r: Result<(), Error<CommE, PinE>>,
) -> bool {
    if uses_ag_line(sensor) {
        m1 == m0 && scoped_block_read_post(bus0, bus1, ag0, ag1, buf0, buf1, addr, r)
    } else {
        ag1 == ag0 && scoped_block_read_post(bus0, bus1, m0, m1, buf0, buf1, addr, r)
    }
}

proof fn lemma_push2<A>(s: Seq<A>, a: A, b: A)
    ensures
        s.push(a).push(b) == s + seq![a, b],
{
    assert(s.push(a).push(b) =~= s + seq![a, b]);
}

/// A register write sends the address and the value exactly as given: a
/// two-byte frame `[addr, value]`, no bits altered, no read flag.
pub proof fn lemma_write_frame_exact(addr: u8, value: u8)
    ensures
        write_frame(addr, value).len() == 2,
        write_frame(addr, value)[0] == addr,
        write_frame(addr, value)[1] == value,
{
}

/// A single-register read command carries the read flag over only the low
/// six address bits: the top two bits of the address never reach the bus,
/// so every address maps to a command byte between `0x80` and `0xBF`.
pub proof fn lemma_read_command_masked(addr: u8)
    ensures
        read_command(addr) == read_command(addr & 0x3f),
        read_command(addr) & 0x80 == 0x80,
        read_command(addr) & 0x3f == addr & 0x3f,
        0x80 <= read_command(addr) <= 0xbf,
{
    assert((0x80u8 | (addr & 0x3f)) == (0x80u8 | ((addr & 0x3f) & 0x3f))) by (bit_vector);
    assert(((0x80u8 | (addr & 0x3f)) & 0x80) == 0x80u8) by (bit_vector);
    assert(((0x80u8 | (addr & 0x3f)) & 0x3f) == (addr & 0x3f)) by (bit_vector);
    assert(0x80u8 <= (0x80u8 | (addr & 0x3f)) <= 0xbfu8) by (bit_vector);
}

/// A block read keeps every address bit under the read flag — no masking.
/// It agrees with the masked single-register command exactly when bit six
/// of the address is clear; for any address with bit six set the two
/// framings diverge, and that divergence is part of the contract.
pub proof fn lemma_block_command_unmasked(addr: u8)
    ensures
        block_command(addr) & 0x7f == addr & 0x7f,
        block_command(addr) & 0x80 == 0x80,
        (block_command(addr) == read_command(addr)) <==> (addr & 0x40 == 0),
{
    assert(((0x80u8 | addr) & 0x7f) == (addr & 0x7f)) by (bit_vector);
    assert(((0x80u8 | addr) & 0x80) == 0x80u8) by (bit_vector);
    assert(((0x80u8 | addr) == (0x80u8 | (addr & 0x3f))) <==> ((addr & 0x40) == 0)) by (bit_vector);
}

/// No write drives both enable lines: the line of the group that `sensor`
/// does not belong to keeps its history untouched, so the two lines are
/// never asserted simultaneously.
pub proof fn lemma_write_drives_one_line<CommE, PinE>(
    bus0: Seq<BusOp>,
    bus1: Seq<BusOp>,
    ag0: Seq<PinAttempt>,
    ag1: Seq<PinAttempt>,
    m0: Seq<PinAttempt>,
    m1: Seq<PinAttempt>,
    sensor: Sensor,
    addr: u8,
    value: u8,
    r: Result<(), Error<CommE, PinE>>,
)
    requires
        write_register_post(bus0, bus1, ag0, ag1, m0, m1, sensor, addr, value, r),
    ensures
        uses_ag_line(sensor) ==> m1 == m0,
        !uses_ag_line(sensor) ==> ag1 == ag0,
{
}

/// `lemma_write_drives_one_line` for single-register reads.
pub proof fn lemma_read_drives_one_line<CommE, PinE>(
    bus0: Seq<BusOp>,
    bus1: Seq<BusOp>,
    ag0: Seq<PinAttempt>,
    ag1: Seq<PinAttempt>,
    m0: Seq<PinAttempt>,
    m1: Seq<PinAttempt>,
    sensor: Sensor,
    addr: u8,
    r: Result<u8, Error<CommE, PinE>>,
)
    requires
        read_register_post(bus0, bus1, ag0, ag1, m0, m1, sensor, addr, r),
    ensures
        uses_ag_line(sensor) ==> m1 == m0,
        !uses_ag_line(sensor) ==> ag1 == ag0,
{
}

/// `lemma_write_drives_one_line` for block reads.
pub proof fn lemma_block_read_drives_one_line<CommE, PinE>(
    bus0: Seq<BusOp>,
    bus1: Seq<BusOp>,
    ag0: Seq<PinAttempt>,
    ag1: Seq<PinAttempt>,
    m0: Seq<PinAttempt>,
    m1: Seq<PinAttempt>,
    sensor: Sensor,
    buf0: Seq<u8>,
    buf1: Seq<u8>,
    addr: u8,
    r: Result<(), Error<CommE, PinE>>,
)
    requires
        read_bytes_post(bus0, bus1, ag0, ag1, m0, m1, sensor, buf0, buf1, addr, r),
    ensures
        uses_ag_line(sensor) ==> m1 == m0,
        !uses_ag_line(sensor) ==> ag1 == ag0,
{
}

/// If asserting the enable line fails, nothing is sent on the bus and the
/// reported error is a pin error: the one recorded attempt on the line is
/// the failed assertion, and the bus history is unchanged.
pub proof fn lemma_write_aborted_without_transfer<CommE, PinE>(
    bus0: Seq<BusOp>,
    bus1: Seq<BusOp>,
    pin0: Seq<PinAttempt>,
    pin1: Seq<PinAttempt>,
    frame: Seq<u8>,
    r: Result<(), Error<CommE, PinE>>,
)
    requires
        scoped_write_post(bus0, bus1, pin0, pin1, frame, r),
        pins_aborted(pin0, pin1),
    ensures
        bus1 == bus0,
        r matches Err(Error::Pin(_)),
{
    let a = pin_attempt(true, true);
    assert((pin0 + seq![a, pin_attempt(false, pin1.last().ok)]).len() == pin0.len() + 2);
    assert((pin0 + seq![a, pin_attempt(false, false)]).len() == pin0.len() + 2);
    assert((pin0 + seq![a, pin_attempt(false, true)]).len() == pin0.len() + 2);
    assert(pin1.len() == pin0.len() + 1);
}

/// If the transfer of a write fails, the reported error is a communication
/// error — never the outcome of the cleanup — and deasserting the line was
/// still attempted: the line's history ends with a deassertion attempt
/// right after the successful assertion.
pub proof fn lemma_write_failure_reports_comm<CommE, PinE>(
    bus0: Seq<BusOp>,
    bus1: Seq<BusOp>,
    pin0: Seq<PinAttempt>,
    pin1: Seq<PinAttempt>,
    frame: Seq<u8>,
    r: Result<(), Error<CommE, PinE>>,
)
    requires
        scoped_write_post(bus0, bus1, pin0, pin1, frame, r),
        bus1 == bus0.push(bus_write(frame, false)),
    ensures
        r matches Err(Error::Comm(_)),
        pin1.len() == pin0.len() + 2,
        pin1[pin0.len() as int] == pin_attempt(true, true),
        !pin1.last().set_low,
{
    assert(op_ok(bus_write(frame, false)) == false);
    assert(bus1.last() == bus_write(frame, false));
    if pins_scoped(pin0, pin1, pin1.last().ok) {
        assert(pin1[pin0.len() as int] == pin_attempt(true, true));
        assert(pin1.last() == pin_attempt(false, pin1.last().ok));
    }
}

/// `lemma_write_aborted_without_transfer` for single-register reads.
pub proof fn lemma_read_aborted_without_transfer<CommE, PinE>(
    bus0: Seq<BusOp>,
    bus1: Seq<BusOp>,
    pin0: Seq<PinAttempt>,
    pin1: Seq<PinAttempt>,
    addr: u8,
    r: Result<u8, Error<CommE, PinE>>,
)
    requires
        scoped_read_post(bus0, bus1, pin0, pin1, addr, r),
        pins_aborted(pin0, pin1),
    ensures
        bus1 == bus0,
        r matches Err(Error::Pin(_)),
{
    let a = pin_attempt(true, true);
    assert((pin0 + seq![a, pin_attempt(false, pin1.last().ok)]).len() == pin0.len() + 2);
    assert((pin0 + seq![a, pin_attempt(false, false)]).len() == pin0.len() + 2);
    assert((pin0 + seq![a, pin_attempt(false, true)]).len() == pin0.len() + 2);
    assert(pin1.len() == pin0.len() + 1);
}

/// `lemma_write_failure_reports_comm` for single-register reads.
pub proof fn lemma_read_failure_reports_comm<CommE, PinE>(
    bus0: Seq<BusOp>,
    bus1: Seq<BusOp>,
    pin0: Seq<PinAttempt>,
    pin1: Seq<PinAttempt>,
    addr: u8,
    r: Result<u8, Error<CommE, PinE>>,
)
    requires
        scoped_read_post(bus0, bus1, pin0, pin1, addr, r),
        bus1.len() == bus0.len() + 1,
        !op_ok(bus1.last()),
    ensures
        r matches Err(Error::Comm(_)),
        pin1.len() == pin0.len() + 2,
        pin1[pin0.len() as int] == pin_attempt(true, true),
        !pin1.last().set_low,
{
    if pins_scoped(pin0, pin1, pin1.last().ok) {
        assert(pin1[pin0.len() as int] == pin_attempt(true, true));
        assert(pin1.last() == pin_attempt(false, pin1.last().ok));
    }
    if pins_scoped(pin0, pin1, false) {
        assert(pin1[pin0.len() as int] == pin_attempt(true, true));
        assert(pin1.last() == pin_attempt(false, false));
    }
}

/// `lemma_write_aborted_without_transfer` for block reads; in addition,
/// the caller's buffer already carries the unmasked command byte.
pub proof fn lemma_block_read_aborted_without_transfer<CommE, PinE>(
    bus0: Seq<BusOp>,
    bus1: Seq<BusOp>,
    pin0: Seq<PinAttempt>,
    pin1: Seq<PinAttempt>,
    buf0: Seq<u8>,
    buf1: Seq<u8>,
    addr: u8,
    r: Result<(), Error<CommE, PinE>>,
)
    requires
        scoped_block_read_post(bus0, bus1, pin0, pin1, buf0, buf1, addr, r),
        pins_aborted(pin0, pin1),
    ensures
        bus1 == bus0,
        buf1 == buf0.update(0, block_command(addr)),
        r matches Err(Error::Pin(_)),
{
    let a = pin_attempt(true, true);
    assert((pin0 + seq![a, pin_attempt(false, pin1.last().ok)]).len() == pin0.len() + 2);
    assert((pin0 + seq![a, pin_attempt(false, false)]).len() == pin0.len() + 2);
    assert((pin0 + seq![a, pin_attempt(false, true)]).len() == pin0.len() + 2);
    assert(pin1.len() == pin0.len() + 1);
}

/// `lemma_write_failure_reports_comm` for block reads.
pub proof fn lemma_block_read_failure_reports_comm<CommE, PinE>(
    bus0: Seq<BusOp>,
    bus1: Seq<BusOp>,
    pin0: Seq<PinAttempt>,
    pin1: Seq<PinAttempt>,
    buf0: Seq<u8>,
    buf1: Seq<u8>,
    addr: u8,
    r: Result<(), Error<CommE, PinE>>,
)
    requires
        scoped_block_read_post(bus0, bus1, pin0, pin1, buf0, buf1, addr, r),
        bus1.len() == bus0.len() + 1,
        !op_ok(bus1.last()),
    ensures
        r matches Err(Error::Comm(_)),
        pin1.len() == pin0.len() + 2,
        pin1[pin0.len() as int] == pin_attempt(true, true),
        !pin1.last().set_low,
{
    if pins_scoped(pin0, pin1, pin1.last().ok) {
        assert(pin1[pin0.len() as int] == pin_attempt(true, true));
        assert(pin1.last() == pin_attempt(false, pin1.last().ok));
    }
    if pins_scoped(pin0, pin1, false) {
        assert(pin1[pin0.len() as int] == pin_attempt(true, true));
        assert(pin1.last() == pin_attempt(false, false));
    }
}

/// The register transport: one serial bus and the two chip-enable lines,
/// one shared by the accelerometer and the gyroscope, one owned by the
/// magnetometer.  The transport owns all three for its lifetime; all
/// operations are synchronous and must be serialized by the caller.
pub struct SpiInterface<SPI, AG, M> {
    spi: SPI,
    ag_cs: AG,
    m_cs: M,
}

impl<SPI, AG, M, CommE, PinE> SpiInterface<SPI, AG, M> where
    SPI: SpiBus<CommError = CommE>,
    AG: EnableLine<PinError = PinE>,
    M: EnableLine<PinError = PinE>,
 {
    /// The history of operations performed on the bus.
    pub closed spec fn bus_log(&self) -> Seq<BusOp> {
        self.spi.log()
    }

    /// The history of attempts on the shared accelerometer/gyroscope line.
    pub closed spec fn ag_log(&self) -> Seq<PinAttempt> {
        self.ag_cs.log()
    }

    /// The history of attempts on the magnetometer line.
    pub closed spec fn m_log(&self) -> Seq<PinAttempt> {
        self.m_cs.log()
    }

    /// Takes exclusive ownership of the bus and both enable lines.
    pub fn new(spi: SPI, ag_cs: AG, m_cs: M) -> (r: Self)
        ensures
            r.bus_log() == spi.log(),
            r.ag_log() == ag_cs.log(),
            r.m_log() == m_cs.log(),
    {
        Self { spi, ag_cs, m_cs }
    }

    /// Releases the bus and the two enable lines, for example so that the
    /// histories a simulated bus recorded can be inspected.
    pub fn into_parts(self) -> (r: (SPI, AG, M))
        ensures
            r.0.log() == self.bus_log(),
            r.1.log() == self.ag_log(),
            r.2.log() == self.m_log(),
    {
        (self.spi, self.ag_cs, self.m_cs)
    }

    /// Writes `value` to the register at `addr` of `sensor`.  The frame
    /// sent is exactly `[addr, value]` as a write-only transfer, scoped by
    /// the sensor's enable line; the other line is never touched.  If
    /// asserting the line fails, no transfer is attempted.  If the
    /// transfer fails, deasserting the line is still attempted best-effort
    /// and the communication error is reported either way, so the line may
    /// be left asserted after a failure.
    pub fn write_register(&mut self, sensor: Sensor, addr: u8, value: u8) -> (r: Result<
        (),
        Error<CommE, PinE>,
    >)
        ensures
            write_register_post(
                old(self).bus_log(),
                final(self).bus_log(),
                old(self).ag_log(),
                final(self).ag_log(),
                old(self).m_log(),
                final(self).m_log(),
                sensor,
                addr,
                value,
                r,
            ),
    {
        let mut frame: Vec<u8> = Vec::new();
        frame.push(addr);
        frame.push(value);
        proof {
            assert(frame@ =~= write_frame(addr, value));
        }
        match sensor {
            Sensor::Accelerometer | Sensor::Gyro => {
                match self.ag_cs.set_low() {
                    Err(e) => {
                        return Err(Error::Pin(e));
                    },
                    Ok(()) => {},
                }
                match self.spi.write(frame.as_slice()) {
                    Err(e) => {
                        let _ = self.ag_cs.set_high();
                        proof {
                            lemma_push2(
                                old(self).ag_cs.log(),
                                pin_attempt(true, true),
                                self.ag_cs.log().last(),
                            );
                        }
                        return Err(Error::Comm(e));
                    },
                    Ok(()) => {},
                }
                match self.ag_cs.set_high() {
                    Err(e) => {
                        proof {
                            lemma_push2(
                                old(self).ag_cs.log(),
                                pin_attempt(true, true),
                                pin_attempt(false, false),
                            );
                        }
                        return Err(Error::Pin(e));
                    },
                    Ok(()) => {},
                }
                proof {
                    lemma_push2(
                        old(self).ag_cs.log(),
                        pin_attempt(true, true),
                        pin_attempt(false, true),
                    );
                }
                Ok(())
            },
            Sensor::Magnetometer => {
                match self.m_cs.set_low() {
                    Err(e) => {
                        return Err(Error::Pin(e));
                    },
                    Ok(()) => {},
                }
                match self.spi.write(frame.as_slice()) {
                    Err(e) => {
                        let _ = self.m_cs.set_high();
                        proof {
                            lemma_push2(
                                old(self).m_cs.log(),
                                pin_attempt(true, true),
                                self.m_cs.log().last(),
                            );
                        }
                        return Err(Error::Comm(e));
                    },
                    Ok(()) => {},
                }
                match self.m_cs.set_high() {
                    Err(e) => {
                        proof {
                            lemma_push2(
                                old(self).m_cs.log(),
                                pin_attempt(true, true),
                                pin_attempt(false, false),
                            );
                        }
                        return Err(Error::Pin(e));
                    },
                    Ok(()) => {},
                }
                proof {
                    lemma_push2(
                        old(self).m_cs.log(),
                        pin_attempt(true, true),
                        pin_attempt(false, true),
                    );
                }
                Ok(())
            },
        }
    }

    /// Reads the register at `addr` of `sensor`.  The command byte sent is
    /// `0x80 | (addr & 0x3F)`: the read flag over the masked address.  The
    /// two-byte frame is transferred full-duplex, scoped by the sensor's
    /// enable line exactly as in a write, and on full success the second
    /// received byte is the register value.
    pub fn read_register(&mut self, sensor: Sensor, addr: u8) -> (r: Result<
        u8,
        Error<CommE, PinE>,
    >)
        ensures
            read_register_post(
                old(self).bus_log(),
                final(self).bus_log(),
                old(self).ag_log(),
                final(self).ag_log(),
                old(self).m_log(),
                final(self).m_log(),
                sensor,
                addr,
                r,
            ),
    {
        let mut buffer: Vec<u8> = Vec::new();
        buffer.push(SPI_READ | (addr & 0x3f));
        buffer.push(0u8);
        proof {
            assert(buffer@ =~= read_frame(addr));
        }
        match sensor {
            Sensor::Accelerometer | Sensor::Gyro => {
                match self.ag_cs.set_low() {
                    Err(e) => {
                        return Err(Error::Pin(e));
                    },
                    Ok(()) => {},
                }
                match self.spi.transfer(&mut buffer) {
                    Err(e) => {
                        let _ = self.ag_cs.set_high();
                        proof {
                            lemma_push2(
                                old(self).ag_cs.log(),
                                pin_attempt(true, true),
                                self.ag_cs.log().last(),
                            );
                        }
                        return Err(Error::Comm(e));
                    },
                    Ok(()) => {},
                }
                match self.ag_cs.set_high() {
                    Err(e) => {
                        proof {
                            lemma_push2(
                                old(self).ag_cs.log(),
                                pin_attempt(true, true),
                                pin_attempt(false, false),
                            );
                        }
                        return Err(Error::Pin(e));
                    },
                    Ok(()) => {},
                }
                proof {
                    lemma_push2(
                        old(self).ag_cs.log(),
                        pin_attempt(true, true),
                        pin_attempt(false, true),
                    );
                }
                Ok(buffer[1])
            },
            Sensor::Magnetometer => {
                match self.m_cs.set_low() {
                    Err(e) => {
                        return Err(Error::Pin(e));
                    },
                    Ok(()) => {},
                }
                match self.spi.transfer(&mut buffer) {
                    Err(e) => {
                        let _ = self.m_cs.set_high();
                        proof {
                            lemma_push2(
                                old(self).m_cs.log(),
                                pin_attempt(true, true),
                                self.m_cs.log().last(),
                            );
                        }
                        return Err(Error::Comm(e));
                    },
                    Ok(()) => {},
                }
                match self.m_cs.set_high() {
                    Err(e) => {
                        proof {
                            lemma_push2(
                                old(self).m_cs.log(),
                                pin_attempt(true, true),
                                pin_attempt(false, false),
                            );
                        }
                        return Err(Error::Pin(e));
                    },
                    Ok(()) => {},
                }
                proof {
                    lemma_push2(
                        old(self).m_cs.log(),
                        pin_attempt(true, true),
                        pin_attempt(false, true),
                    );
                }
                Ok(buffer[1])
            },
        }
    }

    /// Reads a block of registers starting at `addr` of `sensor` into the
    /// caller's buffer.  The first buffer byte is overwritten with
    /// `0x80 | addr` — the full address under the read flag, with no
    /// masking, unlike `read_register` — and the whole buffer is then
    /// transferred full-duplex, scoped by the sensor's enable line.  On
    /// success the bytes after the first hold the received data in
    /// address-ascending order, assuming the device auto-increments.
    pub fn read_bytes(&mut self, sensor: Sensor, addr: u8, bytes: &mut Vec<u8>) -> (r: Result<
        (),
        Error<CommE, PinE>,
    >)
        requires
            old(bytes)@.len() >= 2,
        ensures
            final(bytes)@.len() == old(bytes)@.len(),
            read_bytes_post(
                old(self).bus_log(),
                final(self).bus_log(),
                old(self).ag_log(),
                final(self).ag_log(),
                old(self).m_log(),
                final(self).m_log(),
                sensor,
                old(bytes)@,
                final(bytes)@,
                addr,
                r,
            ),
    {
        bytes.set(0, SPI_READ | addr);
        match sensor {
            Sensor::Accelerometer | Sensor::Gyro => {
                match self.ag_cs.set_low() {
                    Err(e) => {
                        return Err(Error::Pin(e));
                    },
                    Ok(()) => {},
                }
                match self.spi.transfer(bytes) {
                    Err(e) => {
                        let _ = self.ag_cs.set_high();
                        proof {
                            lemma_push2(
                                old(self).ag_cs.log(),
                                pin_attempt(true, true),
                                self.ag_cs.log().last(),
                            );
                        }
                        return Err(Error::Comm(e));
                    },
                    Ok(()) => {},
                }
                match self.ag_cs.set_high() {
                    Err(e) => {
                        proof {
                            lemma_push2(
                                old(self).ag_cs.log(),
                                pin_attempt(true, true),
                                pin_attempt(false, false),
                            );
                        }
                        return Err(Error::Pin(e));
                    },
                    Ok(()) => {},
                }
                proof {
                    lemma_push2(
                        old(self).ag_cs.log(),
                        pin_attempt(true, true),
                        pin_attempt(false, true),
                    );
                }
                Ok(())
            },
            Sensor::Magnetometer => {
                match self.m_cs.set_low() {
                    Err(e) => {
                        return Err(Error::Pin(e));
                    },
                    Ok(()) => {},
                }
                match self.spi.transfer(bytes) {
                    Err(e) => {
                        let _ = self.m_cs.set_high();
                        proof {
                            lemma_push2(
                                old(self).m_cs.log(),
                                pin_attempt(true, true),
                                self.m_cs.log().last(),
                            );
                        }
                        return Err(Error::Comm(e));
                    },
                    Ok(()) => {},
                }
                match self.m_cs.set_high() {
                    Err(e) => {
                        proof {
                            lemma_push2(
                                old(self).m_cs.log(),
                                pin_attempt(true, true),
                                pin_attempt(false, false),
                            );
                        }
                        return Err(Error::Pin(e));
                    },
                    Ok(()) => {},
                }
                proof {
                    lemma_push2(
                        old(self).m_cs.log(),
                        pin_attempt(true, true),
                        pin_attempt(false, true),
                    );
                }
                Ok(())
            },
        }
    }
}

} // verus!
