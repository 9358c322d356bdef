//! The RISC-V port's physical memory protection values. Writing them to the
//! control and status registers is done by the caller.
use vstd::prelude::*;
use crate::config::{MAX_TASKS, MAX_TIMERS, STACK_SIZE};
use crate::kernel::Kernel;
use crate::kernel::scheduler::{Scheduler, sched_view, switch_view};
use crate::kernel::task::Tcb;
use crate::kernel::time::systick::Systick;
use crate::kernel::time::timer::{Timer, fired_tcb, fired_timer, pending_events};

verus! {

/// The PMP settings.
pub struct PmpConfig;

/// The address register value of entry 0 at boot: the whole address space.
pub const PMP_BOOT_ADDR: usize = 0xFFFF_FFFF;

/// The configuration byte of entry 0 at boot: read, write and execute,
/// naturally aligned power-of-two range.
pub const PMP_BOOT_CFG: usize = 0x1F;

/// The configuration byte of a stack guard: locked, naturally aligned
/// power-of-two range, no access.
pub const PMP_GUARD_CFG: usize = 0x98;

impl PmpConfig {
    /// The address register value of a 32-byte guard at `stack_bottom`:
    /// the address in words with the two low bits set, which selects a
    /// 32-byte naturally aligned range.
    pub fn guard_addr(stack_bottom: usize) -> (r: usize)
        ensures
            r == (stack_bottom >> 2usize) | 0b011usize,
            r & 0b11 == 0b11,
            r >> 2usize == stack_bottom >> 4usize,
    {
        let r = (stack_bottom >> 2usize) | 0b011usize;
        assert(r & 0b11 == 0b11) by (bit_vector)
            requires
                r == (stack_bottom >> 2usize) | 0b011usize,
        ;
        assert(r >> 2usize == stack_bottom >> 4usize) by (bit_vector)
            requires
                r == (stack_bottom >> 2usize) | 0b011usize,
        ;
        r
    }

    /// The configuration register `current` with entry 1 set to the guard
    /// configuration: byte 1 replaced, bytes 0, 2 and 3 kept, the bits above
    /// 32 cleared.
    pub fn guard_cfg(current: usize) -> (r: usize)
        ensures
            r == (current & 0xFFFF_00FFusize) | (PMP_GUARD_CFG << 8usize),
            (r >> 8usize) & 0xFF == PMP_GUARD_CFG,
            r & 0xFFFF_00FFusize == current & 0xFFFF_00FFusize,
    {
        let r = (current & 0xFFFF_00FFusize) | (0x98usize << 8usize);
        assert((r >> 8usize) & 0xFF == 0x98 && r & 0xFFFF_00FFusize == current & 0xFFFF_00FFusize) by (bit_vector)
            requires
                r == (current & 0xFFFF_00FFusize) | (0x98usize << 8usize),
        ;
        r
    }
}

/// The cause code of the machine software interrupt, which requests a
/// context switch.
pub const MACHINE_SOFTWARE_INTERRUPT: usize = 3;

/// The cause code of the machine timer interrupt, the tick.
pub const MACHINE_TIMER_INTERRUPT: usize = 7;

/// Splits a trap cause: whether it is an interrupt (its top bit is set), and
/// its code (the cause with bit 31 cleared).
pub fn trap_cause(mcause: usize) -> (r: (bool, usize))
    ensures
        r.0 <==> mcause > isize::MAX,
        r.1 == mcause & !(1usize << 31usize),
{
    (mcause > isize::MAX as usize, mcause & !(1usize << 31usize))
}

/// What the trap handler leaves to the hardware: whether to acknowledge the
/// software interrupt, whether to arm the timer for the next tick, the stack
/// pointer to resume with, and the bottom of that task's stack to guard.
#[derive(Debug, Clone, Copy, PartialEq, Eq, Structural)]
pub struct TrapActions {
    pub clear_software_interrupt: bool,
    pub rearm_timer: bool,
    pub sp: usize,
    pub stack_bottom: usize,
}

/// The task table with the stack pointer `sp` recorded for task `cur`,
/// unless this is the first switch.
pub open spec fn recorded_sp(tasks: Seq<Tcb>, first_switch: bool, cur: int, sp: usize) -> Seq<Tcb> {
    if first_switch {
        tasks
    } else {
        tasks.update(cur, Tcb { stack_top: sp, ..tasks[cur] })
    }
}

/// Handles an interrupt with cause code `code`, taken while the task that
/// stops had stack pointer `sp`. Unless this is the first switch, records
/// `sp` for the current task. A software interrupt switches tasks; a timer
/// interrupt counts a tick, fires the expired timers and switches tasks;
/// any other interrupt changes nothing more. Gives the stack pointer of the
/// task that runs next and what the hardware must do.
pub fn handle_interrupt(k: &mut Kernel, first_switch: bool, code: usize, sp: usize) -> (r: TrapActions)
    requires
        old(k).wf(),
        code == MACHINE_TIMER_INTERRUPT ==> old(k).time < usize::MAX,
    ensures
        final(k).wf(),
        r.clear_software_interrupt == (code == MACHINE_SOFTWARE_INTERRUPT),
        r.rearm_timer == (code == MACHINE_TIMER_INTERRUPT),
        r.sp == final(k).tasks@[final(k).current_task_id as int].stack_top,
        r.stack_bottom == final(k).current_task_id * STACK_SIZE,
        final(k).use_priority == old(k).use_priority,
        final(k).sched_running == old(k).sched_running,
        final(k).mq_slots == old(k).mq_slots,
        ({
            let t1 = recorded_sp(old(k).tasks@, first_switch, old(k).current_task_id as int, sp);
            let v1 = (t1, old(k).sched.queues(), old(k).sched.current_task, old(k).current_task_id);
            if code == MACHINE_SOFTWARE_INTERRUPT {
                &&& sched_view(*final(k)) == switch_view(old(k).sched_running, old(k).use_priority, v1)
                &&& final(k).time == old(k).time
                &&& final(k).timers == old(k).timers
            } else if code == MACHINE_TIMER_INTERRUPT {
                let h = old(k).timers.heap@;
                let ts = old(k).timers.timers@;
                let now = (old(k).time + 1) as usize;
                let n = h.len() as int;
                let t2 = Seq::new(MAX_TASKS as nat, |j: int| fired_tcb(t1, ts, h, now, n, j));
                &&& final(k).time == now
                &&& final(k).timers.heap@ == pending_events(h, now, n)
                &&& final(k).timers.timers@ == Seq::new(MAX_TIMERS as nat, |i: int| fired_timer(ts, h, now, n, i))
                &&& sched_view(*final(k)) == switch_view(
                    old(k).sched_running,
                    old(k).use_priority,
                    (t2, old(k).sched.queues(), old(k).sched.current_task, old(k).current_task_id),
                )
            } else {
                &&& sched_view(*final(k)) == v1
                &&& final(k).time == old(k).time
                &&& final(k).timers == old(k).timers
            }
        }),
{
    if !first_switch {
        let mut current = Scheduler::get_current_task(k);
        current.set_stack_top(k, sp);
    }
    let mut clear = false;
    let mut rearm = false;
    if code == MACHINE_SOFTWARE_INTERRUPT {
        clear = true;
        Scheduler::task_switch(k);
    } else if code == MACHINE_TIMER_INTERRUPT {
        rearm = true;
        Systick::systick_inc(k);
        Timer::timer_check_and_send_event(k);
        Scheduler::task_switch(k);
    }
    let current = Scheduler::get_current_task(k);
    let top = current.get_stack_top(k);
    TrapActions { clear_software_interrupt: clear, rearm_timer: rearm, sp: top, stack_bottom: current.0 * STACK_SIZE }
}

} // verus!
