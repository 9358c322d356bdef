//! The Cortex-M3 port's computations: the first stack frame of a task, the
//! MPU region settings, and the choice of the next stack on a context
//! switch. Writing the frame to memory and the settings to the MPU is done by
//! the caller.
use vstd::prelude::*;
use crate::kernel::Kernel;
use crate::kernel::scheduler::{Scheduler, sched_view, switch_view};
use crate::config::MAX_TASKS;
use crate::error::{Result, RtosError};
use crate::kernel::task::{Priority, Task, TaskState, Tcb, first_free, stack_top_of};

verus! {

broadcast use vstd::layout::layout_of_primitives;

/// Creates the idle task, as the Cortex-M3 port does whenever the scheduler
/// is initialised: a ready task named "idle" in the first free slot, as
/// `Task::new` makes it; `TaskSlotsFull` when no slot is free.
pub fn init_idle_task(k: &mut Kernel) -> (r: Result<Task>)
    requires
        old(k).wf(),
    ensures
        final(k).wf(),
        final(k).same_but_tasks(*old(k)),
        first_free(old(k).tasks@, MAX_TASKS as int) < 0 ==> r == Err::<Task, RtosError>(RtosError::TaskSlotsFull)
            && final(k).tasks@ == old(k).tasks@,
        first_free(old(k).tasks@, MAX_TASKS as int) >= 0 ==> r == Ok::<Task, RtosError>(
            Task(first_free(old(k).tasks@, MAX_TASKS as int) as usize),
        ) && final(k).tasks@ == old(k).tasks@.update(
            first_free(old(k).tasks@, MAX_TASKS as int),
            Tcb {
                stack_top: stack_top_of(first_free(old(k).tasks@, MAX_TASKS as int)) as usize,
                name: "idle",
                taskid: first_free(old(k).tasks@, MAX_TASKS as int) as usize,
                state: TaskState::Ready,
                priority: Priority::Normal,
            },
        ),
{
    Task::new(k, "idle")
}

/// The number of words in a task's first stack frame: the eight registers
/// the exception entry saves and the eight the context switch saves.
pub const FRAME_WORDS: usize = 16;

/// The program status word of a new task: Thumb state.
pub const INITIAL_XPSR: usize = 0x0100_0000;

/// `top` rounded down to a multiple of 8.
pub open spec fn align_down8(top: usize) -> int {
    top - top % 8
}

/// The first stack frame of a task, from the lowest address up: R4 to R11,
/// then R0 (the argument), R1 to R3 and R12, LR (the exit handler), PC (the
/// entry point with its Thumb bit cleared) and xPSR.
pub open spec fn initial_frame(entry: usize, exit: usize, arg: usize) -> Seq<usize> {
    seq![0, 0, 0, 0, 0, 0, 0, 0, arg, 0, 0, 0, 0, exit, entry & 0xffff_fffe, INITIAL_XPSR]
}

/// Lays out the first stack frame of a task whose stack ends at
/// `top_of_stack`: the top is aligned down to 8 bytes and the frame's 16
/// words go below it. Gives the new top, the frame's lowest address, and the
/// words to write there.
pub fn init_task_stack(top_of_stack: usize, entry: usize, exit: usize, arg: usize) -> (r: (usize, Vec<usize>))
    requires
        align_down8(top_of_stack) >= FRAME_WORDS * vstd::layout::size_of::<usize>(),
    ensures
        r.0 == align_down8(top_of_stack) - FRAME_WORDS * vstd::layout::size_of::<usize>(),
        r.1@ == initial_frame(entry, exit, arg),
{
    let aligned = top_of_stack & !7usize;
    assert(aligned == top_of_stack - top_of_stack % 8) by (bit_vector)
        requires
            aligned == top_of_stack & !7usize,
    ;
    let word = core::mem::size_of::<usize>();
    let frame = vec![0, 0, 0, 0, 0, 0, 0, 0, arg, 0, 0, 0, 0, exit, 0xffff_fffe & entry, INITIAL_XPSR];
    assert(0xffff_fffe & entry == entry & 0xffff_fffe) by (bit_vector);
    assert(frame@ =~= initial_frame(entry, exit, arg));
    (aligned - FRAME_WORDS * word, frame)
}

/// One MPU region setting: the region number, its base address and its
/// attribute and size register value.
#[derive(Debug, Clone, Copy, PartialEq, Eq, Structural)]
pub struct MpuRegion {
    pub number: u32,
    pub base: u32,
    pub rasr: u32,
}

/// The attribute and size register value of an enabled region: execute
/// never, access permissions, type extension, shareable, cacheable,
/// bufferable, and size field (the region spans `2^(size + 1)` bytes).
pub open spec fn rasr_value(xn: u32, ap: u32, tex: u32, s: u32, c: u32, b: u32, size: u32) -> u32 {
    (xn << 28u32) | (ap << 24u32) | (tex << 19u32) | (s << 18u32) | (c << 17u32) | (b << 16u32) | (size << 1u32) | 1u32
}

/// Encodes an enabled region's attributes; each field can be read back
/// from its bits.
pub fn rasr(xn: u32, ap: u32, tex: u32, s: u32, c: u32, b: u32, size: u32) -> (r: u32)
    requires
        xn < 2,
        ap < 8,
        tex < 8,
        s < 2,
        c < 2,
        b < 2,
        size < 32,
    ensures
        r == rasr_value(xn, ap, tex, s, c, b, size),
        r & 1 == 1,
        (r >> 1u32) & 0x1f == size,
        (r >> 16u32) & 1 == b,
        (r >> 17u32) & 1 == c,
        (r >> 18u32) & 1 == s,
        (r >> 19u32) & 7 == tex,
        (r >> 24u32) & 7 == ap,
        (r >> 28u32) & 1 == xn,
{
    let r = (xn << 28u32) | (ap << 24u32) | (tex << 19u32) | (s << 18u32) | (c << 17u32) | (b << 16u32) | (size << 1u32) | 1u32;
    assert(r & 1 == 1 && (r >> 1u32) & 0x1f == size && (r >> 16u32) & 1 == b && (r >> 17u32) & 1 == c && (r
        >> 18u32) & 1 == s && (r >> 19u32) & 7 == tex && (r >> 24u32) & 7 == ap && (r >> 28u32) & 1 == xn) by (bit_vector)
        requires
            xn < 2,
            ap < 8,
            tex < 8,
            s < 2,
            c < 2,
            b < 2,
            size < 32,
            r == (xn << 28u32) | (ap << 24u32) | (tex << 19u32) | (s << 18u32) | (c << 17u32) | (b << 16u32) | (size
                << 1u32) | 1u32,
    ;
    r
}

/// The MPU settings.
pub struct MpuConfig;

impl MpuConfig {
    /// The regions set at boot: region 1, 512 KiB of flash at 0x0800_0000,
    /// readable and executable; region 2, 128 KiB of SRAM at 0x2000_0000,
    /// read-write and never executed; region 3, 512 MiB of peripherals at
    /// 0x4000_0000, read-write and never executed.
    pub fn boot_regions() -> (r: Vec<MpuRegion>)
        ensures
            r@ == seq![
                MpuRegion { number: 1, base: 0x0800_0000, rasr: rasr_value(0, 0b011, 0, 0, 1, 0, 18) },
                MpuRegion { number: 2, base: 0x2000_0000, rasr: rasr_value(1, 0b011, 0, 1, 1, 0, 16) },
                MpuRegion { number: 3, base: 0x4000_0000, rasr: rasr_value(1, 0b011, 0, 1, 0, 1, 28) },
            ],
    {
        let flash = MpuRegion { number: 1, base: 0x0800_0000, rasr: rasr(0, 0b011, 0, 0, 1, 0, 18) };
        let sram = MpuRegion { number: 2, base: 0x2000_0000, rasr: rasr(1, 0b011, 0, 1, 1, 0, 16) };
        let peripherals = MpuRegion { number: 3, base: 0x4000_0000, rasr: rasr(1, 0b011, 0, 1, 0, 1, 28) };
        let r = vec![flash, sram, peripherals];
        assert(r@ =~= seq![flash, sram, peripherals]);
        r
    }

    /// The control register bits set at boot: enable, enable during fault
    /// handlers, and the default memory map for privileged code.
    pub fn boot_control(ctrl: u32) -> (r: u32)
        ensures
            r == ctrl | 0b111,
    {
        let r = ctrl | (1u32 << 2u32) | (1u32 << 1u32) | 1u32;
        assert(r == ctrl | 0b111) by (bit_vector)
            requires
                r == ctrl | (1u32 << 2u32) | (1u32 << 1u32) | 1u32,
        ;
        r
    }

    /// The guard region of a task's stack: region 4, the 32 bytes that
    /// contain `stack_bottom`, inaccessible and never executed.
    pub fn task_guard(stack_bottom: u32) -> (r: MpuRegion)
        ensures
            r.number == 4,
            r.base == stack_bottom & !0x1fu32,
            r.base % 32 == 0,
            r.base <= stack_bottom < r.base + 32,
            r.rasr == rasr_value(1, 0, 0, 1, 1, 0, 4),
    {
        let base = stack_bottom & !0x1fu32;
        assert(base % 32 == 0 && base <= stack_bottom && stack_bottom < base + 32) by (bit_vector)
            requires
                base == stack_bottom & !0x1fu32,
        ;
        MpuRegion { number: 4, base, rasr: rasr(1, 0, 0, 1, 1, 0, 4) }
    }
}

/// The context switch: unless this is the first switch, records `psp` as
/// the stack top of the task that stops; then switches tasks and gives the
/// stack top of the task that runs next.
pub fn task_switch_context(k: &mut Kernel, first_switch: bool, psp: usize) -> (r: usize)
    requires
        old(k).wf(),
    ensures
        final(k).wf(),
        final(k).same_but_sched_and_tasks(*old(k)),
        sched_view(*final(k)) == switch_view(
            old(k).sched_running,
            old(k).use_priority,
            (
                if first_switch {
                    old(k).tasks@
                } else {
                    old(k).tasks@.update(
                        old(k).current_task_id as int,
                        Tcb { stack_top: psp, ..old(k).tasks@[old(k).current_task_id as int] },
                    )
                },
                old(k).sched.queues(),
                old(k).sched.current_task,
                old(k).current_task_id,
            ),
        ),
        r == final(k).tasks@[final(k).current_task_id as int].stack_top,
{
    if !first_switch {
        let mut current = Scheduler::get_current_task(k);
        current.set_stack_top(k, psp);
    }
    Scheduler::task_switch(k);
    let current = Scheduler::get_current_task(k);
    current.get_stack_top(k)
}

} // verus!
