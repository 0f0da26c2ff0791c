use vstd::prelude::*;

verus! {

/// The output channels that the print system call can address.
#[derive(Debug, Clone, Copy, PartialEq, Eq, Structural)]
pub enum IOChannel {
    Stdout,
    Serial,
}

impl IOChannel {
    /// The number that stands for a channel in the system call's register.
    pub open spec fn number(self) -> int {
        match self {
            IOChannel::Stdout => 1,
            IOChannel::Serial => 2,
        }
    }

    /// Decodes a channel number; every number but 1 and 2 names no channel.
    pub fn from_u32(num: u32) -> (channel: Option<IOChannel>)
        ensures
            num == 1 <==> channel == Some(IOChannel::Stdout),
            num == 2 <==> channel == Some(IOChannel::Serial),
            channel is Some ==> channel.unwrap().number() == num,
    {
        match num {
            1 => Some(IOChannel::Stdout),
            2 => Some(IOChannel::Serial),
            _ => None,
        }
    }
}

} // verus!
