//! Serial transmitter: a character-oriented output path whose observable
//! behaviour is the ordered sequence of bytes handed to the hardware
//! transmit register. The port is modelled by its transmit log: every byte
//! ever sent, in send order, with no translation and no batching. The
//! busy-wait on the line-status register belongs to the hardware shell
//! around the library and changes no byte.

use vstd::prelude::*;

verus! {

/// A serial port, observed through its transmit log.
pub struct SerialPort {
    /// Every byte transmitted so far, oldest first.
    pub tx: Vec<u8>,
}

impl SerialPort {
    /// A port that has transmitted nothing yet.
    pub fn new() -> (p: SerialPort)
        ensures
            p.tx@ == Seq::<u8>::empty(),
    {
        SerialPort { tx: Vec::new() }
    }

    /// Transmits one byte: it is appended to the log unchanged.
    pub fn write_byte(&mut self, b: u8)
        ensures
            final(self).tx@ == old(self).tx@.push(b),
    {
        self.tx.push(b);
    }

    /// Transmits every byte of `s` in order, each unchanged: the log grows
    /// by exactly `s`.
    pub fn write_str(&mut self, s: &[u8])
        ensures
            final(self).tx@ == old(self).tx@ + s@,
    {
        let n = s.len();
        let mut i: usize = 0;
        proof {
            assert(self.tx@ + s@.take(0) =~= self.tx@);
        }
        while i < n
            invariant
                n == s@.len(),
                i <= n,
                self.tx@ == old(self).tx@ + s@.take(i as int),
            decreases n - i,
        {
            self.tx.push(s[i]);
            proof {
                assert(s@.take(i as int).push(s@[i as int]) =~= s@.take(i as int + 1));
            }
            i += 1;
        }
        proof {
            assert(old(self).tx@ + s@.take(n as int) =~= old(self).tx@ + s@);
        }
    }
}

} // verus!
