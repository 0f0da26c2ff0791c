use vstd::prelude::*;
use crate::threading::{points_into, word_index, EntryPoints, Thread, SAVED_FRAME_BYTES};

verus! {

/// The registers that the kernel's own code reads and writes: the stack
/// pointer, the instruction pointer, the flags, the six callee saved
/// registers, and the four registers that carry a system call.
#[derive(Clone, Copy, Debug, PartialEq, Eq, Structural)]
pub struct Cpu {
    pub rsp: u64,
    pub rip: u64,
    pub rflags: u64,
    pub rbx: u64,
    pub rbp: u64,
    pub r12: u64,
    pub r13: u64,
    pub r14: u64,
    pub r15: u64,
    pub rax: u64,
    pub rdi: u64,
    pub rsi: u64,
    pub rdx: u64,
}

/// The eight words of a saved frame, lowest address first: r15, r14, r13,
/// r12, rbp, rbx, the flags, and the address at which the thread resumes.
pub open spec fn saved_frame(cpu: Cpu) -> Seq<u64> {
    seq![cpu.r15, cpu.r14, cpu.r13, cpu.r12, cpu.rbp, cpu.rbx, cpu.rflags, cpu.rip]
}

/// The stack after a frame was written just below `rsp`.
pub open spec fn stack_with_frame(stack: Seq<u64>, base: u64, cpu: Cpu) -> Seq<u64> {
    let first = word_index(base, cpu.rsp) - 8;
    Seq::new(
        stack.len(),
        |i: int|
            if first <= i < first + 8 {
                saved_frame(cpu)[i - first]
            } else {
                stack[i]
            },
    )
}

/// The registers after the frame at the thread's saved stack pointer was
/// popped: the system call registers keep their values.
pub open spec fn resumed(thread: Thread, cpu: Cpu) -> Cpu {
    let first = word_index(thread.stack_base, thread.stack_pointer);
    Cpu {
        rsp: (thread.stack_pointer + 64) as u64,
        rip: thread.stack@[first + 7],
        rflags: thread.stack@[first + 6],
        rbx: thread.stack@[first + 5],
        rbp: thread.stack@[first + 4],
        r12: thread.stack@[first + 3],
        r13: thread.stack@[first + 2],
        r14: thread.stack@[first + 1],
        r15: thread.stack@[first],
        rax: cpu.rax,
        rdi: cpu.rdi,
        rsi: cpu.rsi,
        rdx: cpu.rdx,
    }
}

/// Whether the thread is what `suspend` leaves of `before` when it runs on
/// `cpu`: the frame lies below the old stack pointer, the saved stack
/// pointer addresses it, and nothing else has changed.
pub open spec fn suspended(before: Thread, cpu: Cpu, after: Thread) -> bool {
    &&& after.stack_pointer == cpu.rsp - 64
    &&& after.stack@ == stack_with_frame(before.stack@, before.stack_base, cpu)
    &&& after.stack_base == before.stack_base
    &&& after.entry == before.entry
    &&& after.name == before.name
}

/// Whether the stack pointer of a running thread leaves room for one more
/// saved frame on the thread's stack.
pub open spec fn can_suspend(thread: Thread, cpu: Cpu) -> bool {
    &&& thread.stack_base + 64 <= cpu.rsp
    &&& points_into(thread.stack_base, cpu.rsp, 0)
}

/// The system call number, as the handler finds it.
pub fn read_rax(cpu: &Cpu) -> (value: u64)
    ensures
        value == cpu.rax,
{
    cpu.rax
}

/// The first system call argument.
pub fn read_rdi(cpu: &Cpu) -> (value: u64)
    ensures
        value == cpu.rdi,
{
    cpu.rdi
}

/// The second system call argument.
pub fn read_rsi(cpu: &Cpu) -> (value: u64)
    ensures
        value == cpu.rsi,
{
    cpu.rsi
}

/// The third system call argument.
pub fn read_rdx(cpu: &Cpu) -> (value: u64)
    ensures
        value == cpu.rdx,
{
    cpu.rdx
}

/// Sets the register that carries a system call's number and result.
pub fn write_rax(cpu: &mut Cpu, rax_value: u64)
    ensures
        *final(cpu) == (Cpu { rax: rax_value, ..*old(cpu) }),
{
    cpu.rax = rax_value;
}

/// Saves the running thread: pushes the resume address, the flags and the
/// callee saved registers onto its stack and records the stack pointer.
pub fn suspend(thread: &mut Thread, cpu: &Cpu)
    requires
        old(thread).wf(),
        can_suspend(*old(thread), *cpu),
    ensures
        final(thread).wf(),
        suspended(*old(thread), *cpu, *final(thread)),
{
    let top: usize = ((cpu.rsp - thread.stack_base) / 8) as usize;
    thread.stack[top - 1] = cpu.rip;
    thread.stack[top - 2] = cpu.rflags;
    thread.stack[top - 3] = cpu.rbx;
    thread.stack[top - 4] = cpu.rbp;
    thread.stack[top - 5] = cpu.r12;
    thread.stack[top - 6] = cpu.r13;
    thread.stack[top - 7] = cpu.r14;
    thread.stack[top - 8] = cpu.r15;
    thread.stack_pointer = cpu.rsp - SAVED_FRAME_BYTES;
    assert(thread.stack@ =~= stack_with_frame(old(thread).stack@, old(thread).stack_base, *cpu));
}

/// Resumes a suspended thread: loads its stack pointer, pops the callee
/// saved registers and the flags, and continues at the address on top.
pub fn resume(thread: &Thread, cpu: &mut Cpu)
    requires
        thread.wf(),
    ensures
        *final(cpu) == resumed(*thread, *old(cpu)),
{
    let first: usize = ((thread.stack_pointer - thread.stack_base) / 8) as usize;
    cpu.r15 = thread.stack[first];
    cpu.r14 = thread.stack[first + 1];
    cpu.r13 = thread.stack[first + 2];
    cpu.r12 = thread.stack[first + 3];
    cpu.rbp = thread.stack[first + 4];
    cpu.rbx = thread.stack[first + 5];
    cpu.rflags = thread.stack[first + 6];
    cpu.rip = thread.stack[first + 7];
    cpu.rsp = thread.stack_pointer + SAVED_FRAME_BYTES;
}

/// Enters the first thread from the boot context, which is discarded: the
/// restoring half of a context switch.
pub fn init_switch(init_thread: &Thread, cpu: &mut Cpu)
    requires
        init_thread.wf(),
    ensures
        *final(cpu) == resumed(*init_thread, *old(cpu)),
{
    resume(init_thread, cpu);
}

/// Switches from the running thread to another: saves the first on its own
/// stack and resumes the second from the frame it was saved in.
pub fn switch_context(previous_thread: &mut Thread, next_thread: &Thread, cpu: &mut Cpu)
    requires
        old(previous_thread).wf(),
        next_thread.wf(),
        can_suspend(*old(previous_thread), *old(cpu)),
    ensures
        final(previous_thread).wf(),
        suspended(*old(previous_thread), *old(cpu), *final(previous_thread)),
        *final(cpu) == resumed(*next_thread, *old(cpu)),
{
    suspend(previous_thread, cpu);
    resume(next_thread, cpu);
}

/// A thread that was suspended resumes with the stack pointer, the
/// instruction pointer, the flags and the callee saved registers that it
/// was suspended with, whatever the registers held in between.
pub proof fn law_suspend_resume(before: Thread, cpu: Cpu, after: Thread, other: Cpu)
    requires
        before.wf(),
        can_suspend(before, cpu),
        suspended(before, cpu, after),
    ensures
        after.wf(),
        resumed(after, other) == (Cpu {
            rax: other.rax,
            rdi: other.rdi,
            rsi: other.rsi,
            rdx: other.rdx,
            ..cpu
        }),
{
}

/// Suspending a thread leaves every word at and above its stack pointer as
/// it was: what the thread keeps on its stack survives a preemption.
pub proof fn law_suspend_keeps_live_stack(before: Thread, cpu: Cpu, after: Thread, i: int)
    requires
        before.wf(),
        can_suspend(before, cpu),
        suspended(before, cpu, after),
        word_index(before.stack_base, cpu.rsp) <= i < 512,
    ensures
        after.stack@[i] == before.stack@[i],
{
}

/// A freshly built thread, resumed for the first time, starts in the
/// trampoline with zeroed callee saved registers and the initial flags; its
/// stack pointer addresses the invalid-return trap, where the trampoline
/// finds its return address, and its entry closure is still to be taken.
pub proof fn law_first_resume(
    thread: Thread,
    name: Seq<char>,
    entry: u64,
    page: u64,
    points: EntryPoints,
    cpu: Cpu,
)
    requires
        thread.wf(),
        thread.is_initial(name, entry, page, points),
    ensures
        resumed(thread, cpu).rip == points.trampoline,
        resumed(thread, cpu).rflags == crate::threading::INITIAL_FLAGS,
        resumed(thread, cpu).rbx == 0,
        resumed(thread, cpu).rbp == 0,
        resumed(thread, cpu).r12 == 0,
        resumed(thread, cpu).r13 == 0,
        resumed(thread, cpu).r14 == 0,
        resumed(thread, cpu).r15 == 0,
        resumed(thread, cpu).rsp == thread.stack_top() - 8,
        thread.stack@[word_index(thread.stack_base, resumed(thread, cpu).rsp)]
            == points.invalid_return,
        thread.entry == Some(entry),
{
}

} // verus!
