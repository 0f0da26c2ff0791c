use vstd::prelude::*;
use crate::text::chars_of;

verus! {

/// The serial line's output: the bytes that are still to be sent to the
/// port, in order.
pub struct SerialLine {
    pub pending: Vec<u8>,
}

/// The byte that the line sends for a character: its lowest eight bits.
pub open spec fn wire_byte(c: char) -> u8 {
    (c as u32 % 256) as u8
}

/// The bytes that the line sends for a text, one for each character.
pub open spec fn wire_bytes(text: Seq<char>) -> Seq<u8> {
    Seq::new(text.len(), |i: int| wire_byte(text[i]))
}

impl SerialLine {
    /// A line with nothing to send.
    pub fn new() -> (line: SerialLine)
        ensures
            line.pending@ == Seq::<u8>::empty(),
    {
        SerialLine { pending: Vec::new() }
    }

    /// Queues a text for sending, one byte for each character.
    pub fn write_str(&mut self, s: &str)
        ensures
            final(self).pending@ == old(self).pending@ + wire_bytes(s@),
    {
        let chars = chars_of(s);
        let mut i: usize = 0;
        while i < chars.len()
            invariant
                i <= chars@.len(),
                chars@ == s@,
                self.pending@ == old(self).pending@ + wire_bytes(s@.subrange(0, i as int)),
            decreases chars@.len() - i,
        {
            let byte: u32 = chars[i] as u32 % 256;
            self.pending.push(byte as u8);
            i += 1;
            assert(self.pending@ =~= old(self).pending@ + wire_bytes(s@.subrange(0, i as int)));
        }
        assert(s@.subrange(0, i as int) =~= s@);
    }

    /// Hands out the bytes that are to be sent, and forgets them.
    pub fn take(&mut self) -> (bytes: Vec<u8>)
        ensures
            bytes@ == old(self).pending@,
            final(self).pending@ == Seq::<u8>::empty(),
    {
        let mut bytes: Vec<u8> = Vec::new();
        std::mem::swap(&mut bytes, &mut self.pending);
        bytes
    }
}

/// Writes a diagnostic message and a line feed to the serial line.
pub fn _debug(serial: &mut SerialLine, message: &str)
    ensures
        final(serial).pending@ == old(serial).pending@ + wire_bytes(message@) + seq![10u8],
{
    serial.write_str(message);
    serial.write_str("\n");
    proof {
        reveal_strlit("\n");
        assert(wire_bytes("\n"@) =~= seq![10u8]);
    }
}

} // verus!
