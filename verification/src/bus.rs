use vstd::prelude::*;

verus! {

/// One attempt to drive an enable line: `set_low` asserts the line
/// (devices on this bus are enabled active-low), `set_high` deasserts it.
/// `ok` records whether the pin driver reported success.
#[derive(Clone, Copy, PartialEq, Eq, Structural, Debug)]
pub struct PinAttempt {
    pub set_low: bool,
    pub ok: bool,
}

/// Builds the record of one enable-line attempt.
pub open spec fn pin_attempt(set_low: bool, ok: bool) -> PinAttempt {
    PinAttempt { set_low, ok }
}

/// One operation performed on the serial bus: a write-only transfer of a
/// byte frame, or a full-duplex transfer that sends a frame and receives
/// the same number of bytes in its place.
pub enum BusOp {
    Write { sent: Seq<u8>, ok: bool },
    Transfer { sent: Seq<u8>, received: Seq<u8>, ok: bool },
}

/// Builds the record of a write-only bus transfer.
pub open spec fn bus_write(sent: Seq<u8>, ok: bool) -> BusOp {
    BusOp::Write { sent, ok }
}

/// Builds the record of a full-duplex bus transfer.
pub open spec fn bus_transfer(sent: Seq<u8>, received: Seq<u8>, ok: bool) -> BusOp {
    BusOp::Transfer { sent, received, ok }
}

/// The bytes a full-duplex transfer received; the empty sequence for a
/// write-only transfer, which receives nothing.
pub open spec fn op_received(op: BusOp) -> Seq<u8> {
    match op {
        BusOp::Write { .. } => Seq::empty(),
        BusOp::Transfer { received, .. } => received,
    }
}

/// Whether the bus reported success for an operation.
pub open spec fn op_ok(op: BusOp) -> bool {
    match op {
        BusOp::Write { ok, .. } => ok,
        BusOp::Transfer { ok, .. } => ok,
    }
}

/// A blocking bidirectional serial bus, supplied by the caller.  Every
/// implementation exposes the history of the operations performed on it,
/// so that a transport built on top can state exactly which frames were
/// sent on behalf of which request.
pub trait SpiBus {
    /// The bus implementation's own error type for failed transfers.
    type CommError;

    /// The history of operations performed on this bus, oldest first.
    /// An implementation that is never verified may leave the default,
    /// about which nothing is known.
    open spec fn log(&self) -> Seq<BusOp> {
        arbitrary()
    }

    /// Sends `data` without reading anything back.  The attempt is
    /// recorded whether or not it succeeds.
    fn write(&mut self, data: &[u8]) -> (r: Result<(), Self::CommError>)
        ensures
            final(self).log() == old(self).log().push(bus_write(data@, r is Ok)),
    ;

    /// Sends the bytes of `data` while simultaneously receiving the same
    /// number of bytes into `data` in place.  The attempt is recorded
    /// whether or not it succeeds, and the buffer keeps its length.
    fn transfer(&mut self, data: &mut Vec<u8>) -> (r: Result<(), Self::CommError>)
        ensures
            final(data)@.len() == old(data)@.len(),
            final(self).log() == old(self).log().push(
                bus_transfer(old(data)@, final(data)@, r is Ok),
            ),
    ;
}

/// One chip-enable control line, supplied by the caller.  Asserting the
/// line (driving it low) enables the device behind it for the duration of
/// a bus transaction; deasserting it (driving it high) releases the bus.
/// Every implementation exposes the history of attempts made on it,
/// including failed ones.
pub trait EnableLine {
    /// The pin implementation's own error type for failed pin changes.
    type PinError;

    /// The history of attempts to drive this line, oldest first.
    /// An implementation that is never verified may leave the default,
    /// about which nothing is known.
    open spec fn log(&self) -> Seq<PinAttempt> {
        arbitrary()
    }

    /// Drives the line low, asserting it.  The attempt is recorded
    /// whether or not it succeeds.
    fn set_low(&mut self) -> (r: Result<(), Self::PinError>)
        ensures
            final(self).log() == old(self).log().push(pin_attempt(true, r is Ok)),
    ;

    /// Drives the line high, deasserting it.  The attempt is recorded
    /// whether or not it succeeds.
    fn set_high(&mut self) -> (r: Result<(), Self::PinError>)
        ensures
            final(self).log() == old(self).log().push(pin_attempt(false, r is Ok)),
    ;
}

} // verus!
