use vstd::prelude::*;
use vstd::string::*;

verus! {

/// The UART transmit channel, modelled as the ordered log of characters
/// handed to the transmitter. The register-level protocol is an external
/// collaborator: the code that programs the port and moves each byte out
/// lives outside this library and mirrors this log faithfully, since a
/// transmit failure is fatal and never reported back.
pub struct Serial {
    pub log: Vec<char>,
}

impl Serial {
    /// Brings up the transmitter; the port is programmed exactly once,
    /// so the fresh channel has transmitted nothing.
    pub fn init() -> (s: Serial)
        ensures
            s.log@ == Seq::<char>::empty(),
    {
        Serial { log: Vec::new() }
    }

    /// Transmits the text, character by character, in order.
    pub fn write_text(&mut self, s: &str)
        ensures
            final(self).log@ == old(self).log@ + s@,
    {
        let n = s.unicode_len();
        let mut i: usize = 0;
        while i < n
            invariant
                i <= n,
                n == s@.len(),
                self.log@ == old(self).log@ + s@.subrange(0, i as int),
            decreases n - i,
        {
            let c = s.get_char(i);
            self.log.push(c);
            i = i + 1;
            proof {
                assert(self.log@ =~= old(self).log@ + s@.subrange(0, i as int));
            }
        }
        proof {
            assert(s@.subrange(0, n as int) =~= s@);
        }
    }
}

} // verus!
