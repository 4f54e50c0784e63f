//! The serial UART: a byte device with non-blocking reads and blocking
//! writes.  The port's FIFOs are modelled as explicit byte queues: the
//! receive queue holds what the wire delivered and has not been read,
//! the transmit log holds everything written out.  The modelled
//! transmitter drains instantly, so the ready bit of the line status is
//! always set.

use vstd::prelude::*;

verus! {

/// A serial port: its I/O address, the programmed divisor, and the
/// modelled receive queue and transmit log.
pub struct Com {
    /// Base I/O port address.
    pub port: u16,
    /// Programmed baud-rate divisor.
    pub divisor: u16,
    /// Bytes received on the wire and not yet read, oldest first.
    pub rx: Vec<u8>,
    /// Every byte written out, in order.
    pub tx: Vec<u8>,
}

impl Com {
    /// Programs the port with the given divisor; the queues start empty.
    pub fn new(port: u16, divisor: u16) -> (r: Com)
        ensures
            r.port == port,
            r.divisor == divisor,
            r.rx@.len() == 0,
            r.tx@.len() == 0,
    {
        Com { port, divisor, rx: Vec::new(), tx: Vec::new() }
    }

    /// The line status register: bit 0 is data-ready — set exactly when
    /// the receive queue holds a byte — and bit 5 is transmitter-empty,
    /// always set in the model.
    pub fn line_status(&self) -> (r: u8)
        ensures
            r == if self.rx@.len() > 0 {
                0x21u8
            } else {
                0x20u8
            },
            r & 0x1 == (if self.rx@.len() > 0 {
                1u8
            } else {
                0u8
            }),
            r & 0b100000 == 0b100000,
    {
        proof {
            assert(0x21u8 & 0x1 == 1 && 0x20u8 & 0x1 == 0 && 0x21u8 & 0b100000 == 0b100000
                && 0x20u8 & 0b100000 == 0b100000) by (bit_vector);
        }
        if self.rx.len() > 0 {
            0x21
        } else {
            0x20
        }
    }

    /// Writes one byte to the transmit holding register.
    pub fn write_byte(&mut self, byte: u8)
        ensures
            final(self).tx@ == old(self).tx@.push(byte),
            final(self).rx == old(self).rx,
            final(self).port == old(self).port,
            final(self).divisor == old(self).divisor,
    {
        self.tx.push(byte);
    }

    /// Reads the oldest byte from the receive queue.
    pub fn read_byte(&mut self) -> (r: u8)
        requires
            old(self).rx@.len() > 0,
        ensures
            r == old(self).rx@[0],
            final(self).rx@ == old(self).rx@.skip(1),
            final(self).tx == old(self).tx,
            final(self).port == old(self).port,
            final(self).divisor == old(self).divisor,
    {
        let b = self.rx.remove(0);
        proof {
            assert(final(self).rx@ =~= old(self).rx@.skip(1));
        }
        b
    }

    /// Reads what is available without blocking: fills the front of
    /// `buf` with the oldest received bytes, stopping at the end of the
    /// buffer or when the queue runs dry, and returns how many bytes
    /// were read.
    pub fn read(&mut self, buf: &mut Vec<u8>) -> (r: Result<usize, ()>)
        ensures
            ({
                let n = if old(buf)@.len() <= old(self).rx@.len() {
                    old(buf)@.len() as int
                } else {
                    old(self).rx@.len() as int
                };
                &&& r == Ok::<usize, ()>(n as usize)
                &&& final(buf)@ == old(self).rx@.take(n) + old(buf)@.skip(n)
                &&& final(self).rx@ == old(self).rx@.skip(n)
            }),
            final(self).tx == old(self).tx,
            final(self).port == old(self).port,
            final(self).divisor == old(self).divisor,
    {
        let mut len: usize = 0;
        while len < buf.len() && (self.line_status() & 0x1) == 1
            invariant
                len <= old(buf)@.len(),
                len <= old(self).rx@.len(),
                self.rx@ == old(self).rx@.skip(len as int),
                buf@.len() == old(buf)@.len(),
                buf@ == old(self).rx@.take(len as int) + old(buf)@.skip(len as int),
                self.tx == old(self).tx,
                self.port == old(self).port,
                self.divisor == old(self).divisor,
            decreases buf@.len() - len,
        {
            let b = self.read_byte();
            buf[len] = b;
            proof {
                let rx0 = old(self).rx@;
                let b0 = old(buf)@;
                assert(rx0.skip(len as int).skip(1) =~= rx0.skip(len as int + 1));
                assert(rx0.skip(len as int)[0] == rx0[len as int]);
                assert((rx0.take(len as int) + b0.skip(len as int)).update(len as int, b) =~= rx0.take(
                    len as int + 1,
                ) + b0.skip(len as int + 1));
            }
            len = len + 1;
        }
        Ok(len)
    }

    /// Writes every byte of `buf` to the port; the modelled transmitter
    /// is always ready, so nothing is dropped and the count written is
    /// the whole buffer.
    pub fn write(&mut self, buf: &Vec<u8>) -> (r: Result<usize, ()>)
        ensures
            r == Ok::<usize, ()>(buf@.len() as usize),
            final(self).tx@ == old(self).tx@ + buf@,
            final(self).rx == old(self).rx,
            final(self).port == old(self).port,
            final(self).divisor == old(self).divisor,
    {
        let mut len: usize = 0;
        while len < buf.len()
            invariant
                len <= buf@.len(),
                self.tx@ == old(self).tx@ + buf@.take(len as int),
                self.rx == old(self).rx,
                self.port == old(self).port,
                self.divisor == old(self).divisor,
            decreases buf@.len() - len,
        {
            // the modelled transmitter is always ready
            let _status = self.line_status();
            let b = buf[len];
            self.write_byte(b);
            proof {
                assert(old(self).tx@ + buf@.take(len as int + 1) =~= (old(self).tx@ + buf@.take(
                    len as int,
                )).push(buf@[len as int]));
            }
            len = len + 1;
        }
        proof {
            assert(buf@.take(buf@.len() as int) =~= buf@);
        }
        Ok(len)
    }

    /// Writes all of `buf`, blocking as needed; in the model a single
    /// pass of `write` takes everything.
    pub fn write_all(&mut self, buf: &Vec<u8>) -> (r: Result<(), ()>)
        ensures
            r == Ok::<(), ()>(()),
            final(self).tx@ == old(self).tx@ + buf@,
            final(self).rx == old(self).rx,
            final(self).port == old(self).port,
            final(self).divisor == old(self).divisor,
    {
        match self.write(buf) {
            Ok(_written) => Ok(()),
            Err(_) => Err(()),
        }
    }
}

} // verus!
