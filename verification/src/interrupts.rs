use vstd::prelude::*;
use std::collections::VecDeque;
use crate::cpu::{read_rax, read_rdx, Cpu};
use crate::events::SystemEvent;
use crate::io::IOChannel;
use crate::keyboard::{KeyEvent, KeyboardHandler};
use crate::console::printed_row;
use crate::scheduler::{Handoff, Scheduler};
use crate::serial::{wire_bytes, SerialLine};
use crate::shell::Shell;
use crate::syscall::{decode, decoded, SyscallError};
use crate::terminal::{rows_kept, Terminal};

verus! {

/// Vector of the first line of the first interrupt controller.
pub const PIC_1_OFFSET: u8 = 32;

/// Vector of the first line of the second interrupt controller.
pub const PIC_2_OFFSET: u8 = PIC_1_OFFSET + 8;

/// The interrupt vectors that the kernel handles itself.
#[derive(Debug, Clone, Copy, PartialEq, Eq, Structural)]
pub enum InterruptIndex {
    Timer,
    Keyboard,
    Syscall,
}

impl InterruptIndex {
    /// The vector's number: the timer and the keyboard on the first two
    /// lines of the first controller, the system call at 0x80.
    pub open spec fn vector(self) -> u8 {
        match self {
            InterruptIndex::Timer => 32,
            InterruptIndex::Keyboard => 33,
            InterruptIndex::Syscall => 0x80,
        }
    }

    /// The vector as the interrupt controller takes it.
    pub fn as_u8(self) -> (vector: u8)
        ensures
            vector == self.vector(),
    {
        match self {
            InterruptIndex::Timer => PIC_1_OFFSET,
            InterruptIndex::Keyboard => PIC_1_OFFSET + 1,
            InterruptIndex::Syscall => 0x80,
        }
    }

    /// The vector as an index into the descriptor table.
    pub fn as_usize(self) -> (vector: usize)
        ensures
            vector == self.vector(),
    {
        self.as_u8() as usize
    }
}

/// What the timer interrupt asks of the hardware.
#[derive(Debug, Clone, Copy, PartialEq, Eq, Structural)]
pub struct TimerAction {
    /// The vector to acknowledge at the interrupt controller, before any
    /// switch is made.
    pub end_of_interrupt: u8,
    /// The context switch to make after that, if any.
    pub handoff: Option<Handoff>,
}

/// Handles one timer interrupt: the interrupt is to be acknowledged in
/// every case, and the scheduler accounts for the tick.
pub fn timer_handler(scheduler: &mut Scheduler) -> (action: TimerAction)
    requires
        old(scheduler)@.wf(),
    ensures
        action.end_of_interrupt == InterruptIndex::Timer.vector(),
        action.handoff == old(scheduler)@.tick_handoff(),
        final(scheduler)@ == old(scheduler)@.tick(),
        final(scheduler)@.wf(),
{
    let end_of_interrupt = InterruptIndex::Timer.as_u8();
    let handoff = scheduler.tick();
    TimerAction { end_of_interrupt, handoff }
}

/// Handles one keyboard interrupt, given what the scancode decoded to: an
/// event goes to the back of the event queue, and a byte that completes no
/// event is dropped. The interrupt is to be acknowledged in either case;
/// the vector to acknowledge is returned.
pub fn keyboard_handler(queue: &mut VecDeque<SystemEvent>, event: Option<KeyEvent>) -> (vector: u8)
    ensures
        vector == InterruptIndex::Keyboard.vector(),
        final(queue)@ == match event {
            Some(event) => old(queue)@.push(SystemEvent::KeyboardEvent(event)),
            None => old(queue)@,
        },
{
    match event {
        Some(event) => {
            queue.push_back(SystemEvent::KeyboardEvent(event));
        },
        None => {},
    }
    InterruptIndex::Keyboard.as_u8()
}

/// Handles one system call, given the registers and the bytes that the
/// call's address and length describe. A print to the terminal goes into
/// the console at the cursor, one to the serial line is queued there, and
/// a call of an unknown number does nothing. Returns the channel that was
/// printed to.
pub fn syscall_handler<S: Shell>(
    cpu: &Cpu,
    data: &[u8],
    terminal: &mut Terminal<S>,
    serial: &mut SerialLine,
) -> (printed: Result<Option<IOChannel>, SyscallError>)
    requires
        old(terminal).wf(),
    ensures
        final(terminal).wf(),
        final(terminal).cursor == old(terminal).cursor,
        final(terminal).input_buffer == old(terminal).input_buffer,
        final(terminal).shell == old(terminal).shell,
        final(terminal).redraw == old(terminal).redraw,
        match decoded(cpu.rax, cpu.rdx, data@) {
            Ok(Some((IOChannel::Stdout, text))) => {
                &&& printed == Ok::<Option<IOChannel>, SyscallError>(Some(IOChannel::Stdout))
                &&& final(serial).pending@ == old(serial).pending@
                &&& rows_kept(
                    &old(terminal).console,
                    &final(terminal).console,
                    old(terminal).line(),
                    old(terminal).line(),
                )
                &&& final(terminal).console.row(old(terminal).line()) =~= printed_row(
                    old(terminal).console.row(old(terminal).line()),
                    text,
                    old(terminal).col(),
                )
            },
            Ok(Some((IOChannel::Serial, text))) => {
                &&& printed == Ok::<Option<IOChannel>, SyscallError>(Some(IOChannel::Serial))
                &&& final(serial).pending@ == old(serial).pending@ + wire_bytes(text)
                &&& final(terminal).console == old(terminal).console
            },
            Ok(None) => {
                &&& printed == Ok::<Option<IOChannel>, SyscallError>(None)
                &&& final(serial).pending@ == old(serial).pending@
                &&& final(terminal).console == old(terminal).console
            },
            Err(error) => {
                &&& printed == Err::<Option<IOChannel>, SyscallError>(error)
                &&& final(serial).pending@ == old(serial).pending@
                &&& final(terminal).console == old(terminal).console
            },
        },
{
    let syscall_number = read_rax(cpu);
    match decode(syscall_number, read_rdx(cpu), data) {
        Ok(Some((IOChannel::Stdout, text))) => {
            let cursor = terminal.cursor_position();
            terminal.console.print(text, cursor.column, cursor.row);
            Ok(Some(IOChannel::Stdout))
        },
        Ok(Some((IOChannel::Serial, text))) => {
            serial.write_str(text);
            Ok(Some(IOChannel::Serial))
        },
        Ok(None) => Ok(None),
        Err(error) => Err(error),
    }
}

} // verus!
