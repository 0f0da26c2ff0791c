use vstd::prelude::*;
use crate::memory::{canonical, virt_addr_add, virt_addr_valid, PAGE_SIZE};
use crate::scheduler::{Handoff, Scheduler};

verus! {

/// Number of 64-bit words on a thread's stack: one page.
pub const THREAD_STACK_SIZE: usize = 512;

/// Registers that the context switch saves and restores: rbx, rbp and r12
/// to r15.
pub const CALLEE_SAVED_REGISTERS: u64 = 6;

/// Words that the builder writes above the register slots: the flags, the
/// trampoline's address and the address of the invalid-return trap.
pub const STACK_FRAME_ELEMENTS: u64 = 3;

/// Flags word of a fresh thread: interrupts enabled, reserved bit 1 set.
pub const INITIAL_FLAGS: u64 = 0x202;

/// Bytes between a fresh thread's stack pointer and the top of its stack.
pub const INITIAL_FRAME_BYTES: u64 = 72;

/// Bytes that one suspension pushes, and one resumption pops: the callee
/// saved registers, the flags and the return address.
pub const SAVED_FRAME_BYTES: u64 = 64;

/// Addresses of the two functions that every fresh stack refers to.
#[derive(Clone, Copy, Debug)]
pub struct EntryPoints {
    /// The trampoline that a thread resumes into on its first run.
    pub trampoline: u64,
    /// The trap that the trampoline would return to if it ever returned.
    pub invalid_return: u64,
}

/// Why no thread could be built.
#[derive(Clone, Copy, Debug, PartialEq, Eq, Structural)]
pub enum BuildError {
    /// The memory manager had no page left.
    OutOfMemory,
    /// The page does not start on a page boundary at a canonical address, or
    /// it is the last page of the address space.
    InvalidPage,
}

/// A unit of execution: a one-page stack, the stack pointer saved while the
/// thread is not running, the handle of its entry closure, and a name.
#[derive(Debug)]
pub struct Thread {
    /// Address of the saved frame; meaningful while the thread is suspended.
    pub stack_pointer: u64,
    /// Handle of the boxed entry closure until the trampoline has taken it.
    pub entry: Option<u64>,
    /// The words of the stack page, lowest address first.
    pub stack: Vec<u64>,
    /// Address of the first word of the stack page.
    pub stack_base: u64,
    /// Name for diagnostics and for recognising the startup thread.
    pub name: String,
}

/// Whether a page that starts at `start` can serve as a stack: it starts on
/// a page boundary at a canonical address, and the address of its end still
/// fits a register.
pub open spec fn valid_stack_page(start: u64) -> bool {
    canonical(start) && start % 4096 == 0 && start + 4096 <= u64::MAX
}

/// Whether `pointer` addresses a word of the page at `base`, or its end,
/// with at least `room` bytes between the pointer and the end of the page.
pub open spec fn points_into(base: u64, pointer: u64, room: int) -> bool {
    &&& base <= pointer
    &&& pointer + room <= base + 4096
    &&& (pointer - base) % 8 == 0
}

/// Index of the stack word at address `pointer`.
pub open spec fn word_index(base: u64, pointer: u64) -> int {
    (pointer - base) / 8
}

/// The stack image that the builder lays out: zeroes, and at the top the
/// flags, the trampoline and the invalid-return trap.
pub open spec fn initial_stack(points: EntryPoints) -> Seq<u64> {
    Seq::new(
        512,
        |i: int|
            if i == 509 {
                INITIAL_FLAGS
            } else if i == 510 {
                points.trampoline
            } else if i == 511 {
                points.invalid_return
            } else {
                0u64
            },
    )
}

impl Thread {
    /// The stack is one page at a canonical, page-aligned address, and the
    /// saved stack pointer addresses a complete saved frame on it.
    pub open spec fn wf(&self) -> bool {
        &&& self.stack@.len() == 512
        &&& valid_stack_page(self.stack_base)
        &&& points_into(self.stack_base, self.stack_pointer, 64)
    }

    /// Whether this is the thread that `build` makes from these inputs.
    pub open spec fn is_initial(
        &self,
        name: Seq<char>,
        entry: u64,
        page: u64,
        points: EntryPoints,
    ) -> bool {
        &&& self.name@ == name
        &&& self.entry == Some(entry)
        &&& self.stack_base == page
        &&& self.stack@ == initial_stack(points)
        &&& self.stack_pointer == page + 4096 - 72
    }

    /// Address one past the highest word of the stack.
    pub open spec fn stack_top(&self) -> int {
        self.stack_base + 4096
    }

    /// Hands out the entry closure's handle, once: later calls find nothing.
    pub fn take_entry(&mut self) -> (entry: Option<u64>)
        ensures
            entry == old(self).entry,
            final(self).entry is None,
            final(self).stack_pointer == old(self).stack_pointer,
            final(self).stack == old(self).stack,
            final(self).stack_base == old(self).stack_base,
            final(self).name == old(self).name,
    {
        let entry = self.entry;
        self.entry = None;
        entry
    }

    /// The thread's name.
    pub fn name(&self) -> (name: &str)
        ensures
            name@ == self.name@,
    {
        self.name.as_str()
    }
}

/// Lays out the stack of a fresh thread: a zeroed page with the flags, the
/// trampoline and the invalid-return trap in its three highest words.
pub fn initialize_stack(points: EntryPoints) -> (stack: Vec<u64>)
    ensures
        stack@ == initial_stack(points),
{
    let mut stack: Vec<u64> = Vec::new();
    let mut i: usize = 0;
    while i < THREAD_STACK_SIZE
        invariant
            i <= THREAD_STACK_SIZE,
            stack@.len() == i,
            forall|j: int| 0 <= j < i ==> stack@[j] == 0,
        decreases THREAD_STACK_SIZE - i,
    {
        stack.push(0);
        i += 1;
    }
    stack[THREAD_STACK_SIZE - 3] = INITIAL_FLAGS;
    stack[THREAD_STACK_SIZE - 2] = points.trampoline;
    stack[THREAD_STACK_SIZE - 1] = points.invalid_return;
    assert(stack@ =~= initial_stack(points));
    stack
}

/// Builds a thread on a freshly allocated page. `page` is what the memory
/// manager returned: nothing when it is exhausted. The stack pointer lies
/// below the top of the stack by the callee saved registers and the frame
/// words, so that the first resumption pops the zeroed registers and the
/// flags and then enters the trampoline.
pub fn build(name: &str, entry: u64, page: Option<u64>, points: EntryPoints) -> (built: Result<
    Box<Thread>,
    BuildError,
>)
    ensures
        page is None ==> built == Err::<Box<Thread>, BuildError>(BuildError::OutOfMemory),
        page is Some && !valid_stack_page(page.unwrap()) ==> built == Err::<
            Box<Thread>,
            BuildError,
        >(BuildError::InvalidPage),
        page is Some && valid_stack_page(page.unwrap()) ==> built is Ok && built.unwrap().wf()
            && built.unwrap().is_initial(name@, entry, page.unwrap(), points),
{
    let start: u64 = match page {
        Some(start) => start,
        None => {
            return Err(BuildError::OutOfMemory);
        },
    };
    if !virt_addr_valid(start) || start % PAGE_SIZE != 0 || start > u64::MAX - PAGE_SIZE {
        return Err(BuildError::InvalidPage);
    }
    let frame_words: u64 = CALLEE_SAVED_REGISTERS + STACK_FRAME_ELEMENTS;
    let stack_pointer: u64 = virt_addr_add(start, PAGE_SIZE - frame_words * 8);
    let thread = Thread {
        stack_pointer,
        entry: Some(entry),
        stack: initialize_stack(points),
        stack_base: start,
        name: name.to_owned(),
    };
    Ok(Box::new(thread))
}

/// Builds a thread and appends it to the ready queue. When no thread can
/// be built the scheduler stays as it is.
pub fn spawn(
    scheduler: &mut Scheduler,
    name: &str,
    entry: u64,
    page: Option<u64>,
    points: EntryPoints,
) -> (spawned: Result<(), BuildError>)
    requires
        old(scheduler)@.wf(),
    ensures
        final(scheduler)@.wf(),
        page is None ==> spawned == Err::<(), BuildError>(BuildError::OutOfMemory),
        page is Some && !valid_stack_page(page.unwrap()) ==> spawned == Err::<(), BuildError>(
            BuildError::InvalidPage,
        ),
        spawned is Err ==> final(scheduler)@ == old(scheduler)@,
        page is Some && valid_stack_page(page.unwrap()) ==> {
            &&& spawned is Ok
            &&& final(scheduler)@.ready.len() == old(scheduler)@.ready.len() + 1
            &&& final(scheduler)@.ready.last().wf()
            &&& final(scheduler)@.ready.last().is_initial(name@, entry, page.unwrap(), points)
            &&& final(scheduler)@ == old(scheduler)@.add_task(final(scheduler)@.ready.last())
        },
{
    match build(name, entry, page, points) {
        Ok(task) => {
            scheduler.add_task(task);
            Ok(())
        },
        Err(error) => Err(error),
    }
}

/// The cleanup path of a thread whose closure has returned: the scheduler
/// switches away from it without rescheduling it.
pub fn cleanup_thread(scheduler: &mut Scheduler) -> (handoff: Option<Handoff>)
    requires
        old(scheduler)@.wf(),
    ensures
        final(scheduler)@ == old(scheduler)@.thank_you_next(),
        handoff == old(scheduler)@.handoff(false),
        final(scheduler)@.wf(),
{
    scheduler.thank_you_next()
}

} // verus!
