use bmos::cpu::{init_switch, read_rax, read_rdi, read_rdx, read_rsi, resume, suspend, switch_context, write_rax, Cpu};
use bmos::threading::{build, initialize_stack, BuildError, EntryPoints, CALLEE_SAVED_REGISTERS, INITIAL_FLAGS, INITIAL_FRAME_BYTES, SAVED_FRAME_BYTES, STACK_FRAME_ELEMENTS, THREAD_STACK_SIZE};

const POINTS: EntryPoints = EntryPoints { trampoline: 0xffff_8000_0010_0000, invalid_return: 0xffff_8000_0020_0000 };
const PAGE: u64 = 0x0000_5555_0000_3000;

fn blank_cpu() -> Cpu {
    Cpu { rsp: 0, rip: 0, rflags: 0, rbx: 0, rbp: 0, r12: 0, r13: 0, r14: 0, r15: 0, rax: 0, rdi: 0, rsi: 0, rdx: 0 }
}

#[test]
fn frame_constants_agree() {
    assert_eq!((CALLEE_SAVED_REGISTERS + STACK_FRAME_ELEMENTS) * 8, INITIAL_FRAME_BYTES);
    assert_eq!((CALLEE_SAVED_REGISTERS + 2) * 8, SAVED_FRAME_BYTES);
    assert_eq!(THREAD_STACK_SIZE * 8, 4096);
}

#[test]
fn initial_stack_has_three_words_at_the_top() {
    let stack = initialize_stack(POINTS);
    assert_eq!(stack.len(), 512);
    assert_eq!(stack[509], 0x202);
    assert_eq!(stack[510], POINTS.trampoline);
    assert_eq!(stack[511], POINTS.invalid_return);
    assert!(stack[..509].iter().all(|word| *word == 0));
}

#[test]
fn built_thread_points_nine_words_below_the_top() {
    let thread = build("worker", 0xdead_beef, Some(PAGE), POINTS).unwrap();
    assert_eq!(thread.stack_pointer, PAGE + 4096 - 72);
    assert_eq!(thread.stack_pointer, 0x0000_5555_0000_3fb8);
    assert_eq!(thread.stack_base, PAGE);
    assert_eq!(thread.entry, Some(0xdead_beef));
    assert_eq!(thread.name(), "worker");
    assert_eq!(thread.stack, initialize_stack(POINTS));
}

#[test]
fn build_without_page_fails() {
    assert_eq!(build("t", 1, None, POINTS).unwrap_err(), BuildError::OutOfMemory);
}

#[test]
fn build_rejects_unaligned_and_non_canonical_pages() {
    assert_eq!(build("t", 1, Some(PAGE + 8), POINTS).unwrap_err(), BuildError::InvalidPage);
    assert_eq!(build("t", 1, Some(0x0000_8000_0000_0000), POINTS).unwrap_err(), BuildError::InvalidPage);
    assert_eq!(build("t", 1, Some(0x8000_0000_0000_0000), POINTS).unwrap_err(), BuildError::InvalidPage);
    assert_eq!(build("t", 1, Some(0xffff_ffff_ffff_f000), POINTS).unwrap_err(), BuildError::InvalidPage);
    assert!(build("t", 1, Some(0x0000_7fff_ffff_f000), POINTS).is_ok());
    assert!(build("t", 1, Some(0xffff_8000_0000_0000), POINTS).is_ok());
    assert!(build("t", 1, Some(0), POINTS).is_ok());
}

#[test]
fn first_resume_enters_the_trampoline() {
    let thread = build("first", 42, Some(PAGE), POINTS).unwrap();
    let mut cpu = Cpu { rbx: 1, rbp: 2, r12: 3, r13: 4, r14: 5, r15: 6, rax: 7, rdi: 8, rsi: 9, rdx: 10, ..blank_cpu() };
    init_switch(&thread, &mut cpu);
    assert_eq!(cpu.rip, POINTS.trampoline);
    assert_eq!(cpu.rflags, INITIAL_FLAGS);
    assert_eq!((cpu.rbx, cpu.rbp, cpu.r12, cpu.r13, cpu.r14, cpu.r15), (0, 0, 0, 0, 0, 0));
    assert_eq!(cpu.rsp, PAGE + 4096 - 8);
    assert_eq!(thread.stack[((cpu.rsp - PAGE) / 8) as usize], POINTS.invalid_return);
    assert_eq!((cpu.rax, cpu.rdi, cpu.rsi, cpu.rdx), (7, 8, 9, 10));
}

#[test]
fn entry_is_taken_exactly_once() {
    let mut thread = build("once", 42, Some(PAGE), POINTS).unwrap();
    assert_eq!(thread.take_entry(), Some(42));
    assert_eq!(thread.take_entry(), None);
    assert_eq!(thread.take_entry(), None);
    assert_eq!(thread.stack_pointer, PAGE + 4096 - 72);
}

#[test]
fn suspend_writes_the_frame_below_the_stack_pointer() {
    let mut thread = build("s", 1, Some(PAGE), POINTS).unwrap();
    let cpu = Cpu { rsp: PAGE + 0x800, rip: 0x1111, rflags: 0x246, rbx: 0xb, rbp: 0xc, r12: 12, r13: 13, r14: 14, r15: 15, ..blank_cpu() };
    suspend(&mut thread, &cpu);
    assert_eq!(thread.stack_pointer, PAGE + 0x800 - 64);
    let first = (0x800 - 64) / 8;
    assert_eq!(&thread.stack[first..first + 8], &[15, 14, 13, 12, 0xc, 0xb, 0x246, 0x1111]);
    assert_eq!(thread.stack[509], 0x202);
    assert!(thread.stack[..first].iter().all(|word| *word == 0));
}

#[test]
fn preempted_thread_resumes_where_it_left_off() {
    let mut a = build("a", 1, Some(PAGE), POINTS).unwrap();
    let mut b = build("b", 2, Some(PAGE + 4096), POINTS).unwrap();
    let mut cpu = blank_cpu();
    init_switch(&a, &mut cpu);
    let mut counter = 0u64;
    for round in 0..5u64 {
        // thread a keeps its counter in r12 and on its stack
        counter += 1;
        cpu.r12 = counter;
        cpu.rip = 0x7000 + round;
        cpu.rsp -= 16;
        let slot = ((cpu.rsp - a.stack_base) / 8) as usize;
        a.stack[slot] = counter * 100;
        let before = cpu;
        switch_context(&mut a, &b, &mut cpu);
        // thread b runs and clobbers everything it may
        cpu.r12 = 0xffff;
        cpu.rbx = 0xeeee;
        cpu.rip = 0x9000;
        switch_context(&mut b, &a, &mut cpu);
        assert_eq!(cpu.rsp, before.rsp);
        assert_eq!(cpu.rip, before.rip);
        assert_eq!(cpu.r12, counter);
        assert_eq!(cpu.rbx, before.rbx);
        assert_eq!(cpu.rflags, before.rflags);
        assert_eq!(a.stack[slot], counter * 100);
        cpu.rsp += 16;
    }
    assert_eq!(counter, 5);
}

#[test]
fn resume_restores_what_suspend_saved() {
    let mut thread = build("r", 1, Some(PAGE), POINTS).unwrap();
    let saved = Cpu { rsp: PAGE + 4096, rip: 0xabc, rflags: 0x2, rbx: 1, rbp: 2, r12: 3, r13: 4, r14: 5, r15: 6, rax: 50, rdi: 51, rsi: 52, rdx: 53 };
    suspend(&mut thread, &saved);
    let mut cpu = Cpu { rax: 60, rdi: 61, rsi: 62, rdx: 63, ..blank_cpu() };
    resume(&thread, &mut cpu);
    assert_eq!(cpu, Cpu { rax: 60, rdi: 61, rsi: 62, rdx: 63, ..saved });
}

#[test]
fn syscall_registers_read_and_write() {
    let mut cpu = Cpu { rax: 1, rdi: 2, rsi: 3, rdx: 4, ..blank_cpu() };
    assert_eq!((read_rax(&cpu), read_rdi(&cpu), read_rsi(&cpu), read_rdx(&cpu)), (1, 2, 3, 4));
    write_rax(&mut cpu, 99);
    assert_eq!(cpu, Cpu { rax: 99, rdi: 2, rsi: 3, rdx: 4, ..blank_cpu() });
}
