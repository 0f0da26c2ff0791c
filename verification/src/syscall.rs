use vstd::prelude::*;
use vstd::string::StringSliceAdditionalSpecFns;
use vstd::utf8::{decode_utf8, valid_utf8};
use crate::io::IOChannel;

verus! {

/// Number of the system call that prints.
pub const SYSCALL_PRINT: u64 = 1;

/// A system call as it stands in the registers, with the bytes that its
/// address and length describe.
pub struct Syscall {
    /// The system call's number, for rax.
    pub number: u64,
    /// The length of the data, for rsi.
    pub length: u64,
    /// The channel's number, for rdx.
    pub channel: u64,
    /// The data that rdi points to.
    pub data: Vec<u8>,
}

/// Why a system call was refused.
#[derive(Copy, Clone, Debug, PartialEq, Eq, Structural)]
pub enum SyscallError {
    /// The channel's number names no channel.
    InvalidChannel,
    /// The data is not UTF-8.
    InvalidText,
}

/// Reads bytes as text with `core::str::from_utf8`: the text has exactly
/// these bytes, and there is none if and only if the bytes are not valid
/// UTF-8.
#[verifier::external_body]
fn utf8_text(bytes: &[u8]) -> (text: Option<&str>)
    ensures
        text is Some <==> valid_utf8(bytes@),
        text is Some ==> text.unwrap().spec_bytes() == bytes@,
{
    core::str::from_utf8(bytes).ok()
}

/// The request that prints a text on a channel.
pub fn print(channel: IOChannel, string: &str) -> (request: Syscall)
    ensures
        request.number == SYSCALL_PRINT,
        request.length == string.spec_bytes().len(),
        request.channel == channel.number(),
        request.data@ == string.spec_bytes(),
{
    let bytes = string.as_bytes();
    let data = vstd::slice::slice_to_vec(bytes);
    let channel: u64 = match channel {
        IOChannel::Stdout => 1,
        IOChannel::Serial => 2,
    };
    Syscall { number: SYSCALL_PRINT, length: data.len() as u64, channel, data }
}

/// What a system call asks for: nothing for a number that is not known,
/// else to print the text on the channel.
pub open spec fn decoded(number: u64, channel: u64, data: Seq<u8>) -> Result<
    Option<(IOChannel, Seq<char>)>,
    SyscallError,
> {
    if number != SYSCALL_PRINT {
        Ok(None)
    } else if channel % 0x1_0000_0000 == 1 {
        if valid_utf8(data) {
            Ok(Some((IOChannel::Stdout, decode_utf8(data))))
        } else {
            Err(SyscallError::InvalidText)
        }
    } else if channel % 0x1_0000_0000 == 2 {
        if valid_utf8(data) {
            Ok(Some((IOChannel::Serial, decode_utf8(data))))
        } else {
            Err(SyscallError::InvalidText)
        }
    } else {
        Err(SyscallError::InvalidChannel)
    }
}

/// Decodes a system call from its number, the channel register, of which
/// the lower half counts, and its data.
pub fn decode<'a>(number: u64, channel: u64, data: &'a [u8]) -> (request: Result<
    Option<(IOChannel, &'a str)>,
    SyscallError,
>)
    ensures
        match request {
            Ok(Some((to, text))) => decoded(number, channel, data@) == Ok::<
                Option<(IOChannel, Seq<char>)>,
                SyscallError,
            >(Some((to, text@))),
            Ok(None) => decoded(number, channel, data@) == Ok::<
                Option<(IOChannel, Seq<char>)>,
                SyscallError,
            >(None),
            Err(error) => decoded(number, channel, data@) == Err::<
                Option<(IOChannel, Seq<char>)>,
                SyscallError,
            >(error),
        },
{
    broadcast use vstd::utf8::encode_utf8_decode_utf8;

    if number != SYSCALL_PRINT {
        return Ok(None);
    }
    let to = match IOChannel::from_u32((channel % 0x1_0000_0000) as u32) {
        Some(to) => to,
        None => {
            return Err(SyscallError::InvalidChannel);
        },
    };
    match utf8_text(data) {
        Some(text) => Ok(Some((to, text))),
        None => Err(SyscallError::InvalidText),
    }
}

/// A print request decodes to its channel and its text.
pub proof fn law_print_decodes(channel: IOChannel, text: Seq<char>, request: Syscall)
    requires
        request.number == SYSCALL_PRINT,
        request.channel == channel.number(),
        request.data@ == vstd::utf8::encode_utf8(text),
    ensures
        decoded(request.number, request.channel, request.data@) == Ok::<
            Option<(IOChannel, Seq<char>)>,
            SyscallError,
        >(Some((channel, text))),
{
    broadcast use vstd::utf8::encode_utf8_decode_utf8, vstd::utf8::encode_utf8_valid_utf8;

}

} // verus!
