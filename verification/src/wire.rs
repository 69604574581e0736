//! The Wire-style I2C bus and the millisecond delay that the sensor
//! drivers talk through.
use vstd::prelude::*;

verus! {

/// One operation on the I2C bus, with what it returned.
pub enum I2cOp {
    BeginTransmission(u8),
    Write(u8),
    WriteBytes(Seq<u8>),
    /// The end of a transmission and its status (0 on success).
    EndTransmission(u8),
    /// A request for bytes from a device: address, count, and the reply.
    RequestFrom(u8, u8, u8),
    Read(u8),
}

/// An I2C bus in the style of Arduino's Wire. `ops` is what was done on
/// it so far; `pending` is what `available` reports now.
pub trait I2CBus {
    spec fn ops(&self) -> Seq<I2cOp>;

    spec fn pending(&self) -> u8;

    fn begin_transmission(&mut self, address: u8)
        ensures
            final(self).ops() == old(self).ops().push(I2cOp::BeginTransmission(address)),
    ;

    fn write_byte(&mut self, data: u8)
        ensures
            final(self).ops() == old(self).ops().push(I2cOp::Write(data)),
    ;

    fn write_bytes(&mut self, data: &[u8])
        ensures
            final(self).ops() == old(self).ops().push(I2cOp::WriteBytes(data@)),
    ;

    fn end_transmission(&mut self) -> (r: u8)
        ensures
            final(self).ops() == old(self).ops().push(I2cOp::EndTransmission(r)),
    ;

    fn request_from(&mut self, address: u8, quantity: u8) -> (r: u8)
        ensures
            final(self).ops() == old(self).ops().push(I2cOp::RequestFrom(address, quantity, r)),
    ;

    fn read_byte(&mut self) -> (r: u8)
        ensures
            final(self).ops() == old(self).ops().push(I2cOp::Read(r)),
    ;

    fn available(&self) -> (r: u8)
        ensures
            r == self.pending(),
    ;
}

/// A delay provider; `waits` are the delays asked for so far, in ms.
pub trait DelayMs {
    spec fn waits(&self) -> Seq<u16>;

    fn delay_ms(&mut self, ms: u16)
        ensures
            final(self).waits() == old(self).waits().push(ms),
    ;
}

} // verus!
