use neon_rtos2::config::STACK_SIZE;
use neon_rtos2::hal::cortex_m3::{init_idle_task, init_task_stack, rasr, task_switch_context, MpuConfig, INITIAL_XPSR};
use neon_rtos2::hal::riscv::{handle_interrupt, trap_cause, PmpConfig, MACHINE_SOFTWARE_INTERRUPT, MACHINE_TIMER_INTERRUPT};
use neon_rtos2::kernel::task::TaskState;
use neon_rtos2::kernel::time::timer::Delay;
use neon_rtos2::kernel::scheduler::Scheduler;
use neon_rtos2::kernel::task::Task;
use neon_rtos2::utils::kernel_init;

#[test]
fn the_first_frame_holds_entry_exit_and_argument() {
    let word = std::mem::size_of::<usize>();
    let (top, frame) = init_task_stack(0x2000_1007, 0x0800_0101, 0x0800_0200, 42);
    assert_eq!(top, 0x2000_1000 - 16 * word);
    assert_eq!(frame.len(), 16);
    assert_eq!(frame[8], 42);
    assert_eq!(frame[13], 0x0800_0200);
    assert_eq!(frame[14], 0x0800_0100);
    assert_eq!(frame[15], INITIAL_XPSR);
    assert!(frame[..8].iter().all(|w| *w == 0));
    assert!(frame[9..13].iter().all(|w| *w == 0));
}

#[test]
fn boot_regions_have_the_documented_attributes() {
    let regions = MpuConfig::boot_regions();
    assert_eq!(regions.len(), 3);
    assert_eq!((regions[0].number, regions[0].base, regions[0].rasr), (1, 0x0800_0000, 0x0302_0025));
    assert_eq!((regions[1].number, regions[1].base, regions[1].rasr), (2, 0x2000_0000, 0x1306_0021));
    assert_eq!((regions[2].number, regions[2].base, regions[2].rasr), (3, 0x4000_0000, 0x1305_0039));
    assert_eq!(MpuConfig::boot_control(0x10), 0x17);
}

#[test]
fn the_stack_guard_covers_the_bottom_32_bytes() {
    let g = MpuConfig::task_guard(0x2000_0413);
    assert_eq!(g.number, 4);
    assert_eq!(g.base, 0x2000_0400);
    assert_eq!(g.rasr, 0x1006_0009);
    assert_eq!(rasr(1, 0, 0, 1, 1, 0, 4), 0x1006_0009);
}

#[test]
fn pmp_guard_values() {
    assert_eq!(PmpConfig::guard_addr(0x8000_1000), 0x2000_0403);
    assert_eq!(PmpConfig::guard_cfg(0x1F1F_1F1F), 0x1F1F_981F);
}

#[test]
fn a_context_switch_saves_the_old_stack_and_gives_the_new_one() {
    let mut k = kernel_init();
    Task::new(&mut k, "a").unwrap();
    Task::new(&mut k, "b").unwrap();
    Scheduler::start(&mut k);
    let next = task_switch_context(&mut k, true, 0);
    assert_eq!(next, 2 * STACK_SIZE);
    assert_eq!(Scheduler::get_current_task(&k), Task(1));
    let back = task_switch_context(&mut k, false, 0x700);
    assert_eq!(back, STACK_SIZE);
    assert_eq!(Task(1).get_stack_top(&k), 0x700);
    assert_eq!(Scheduler::get_current_task(&k), Task(0));
}

#[test]
fn trap_causes_split_into_kind_and_code() {
    assert_eq!(trap_cause(7), (false, 7));
    assert_eq!(trap_cause(usize::MAX), (true, usize::MAX & !(1usize << 31)));
}

#[test]
fn a_timer_interrupt_ticks_fires_timers_and_switches() {
    let mut k = kernel_init();
    Task::new(&mut k, "a").unwrap();
    Task::new(&mut k, "b").unwrap();
    Scheduler::start(&mut k);
    let _timer = Delay::delay(&mut k, 1).unwrap();
    assert!(matches!(Task(0).get_state(&k), TaskState::Blocked(_)));
    let act = handle_interrupt(&mut k, true, MACHINE_TIMER_INTERRUPT, 0);
    assert!(act.rearm_timer);
    assert!(!act.clear_software_interrupt);
    assert_eq!(k.time, 1);
    assert_eq!(Task(0).get_state(&k), TaskState::Ready);
    assert_eq!(Scheduler::get_current_task(&k), Task(1));
    assert_eq!(act.sp, 2 * STACK_SIZE);
    assert_eq!(act.stack_bottom, STACK_SIZE);
    let act = handle_interrupt(&mut k, false, MACHINE_SOFTWARE_INTERRUPT, 0x900);
    assert!(act.clear_software_interrupt);
    assert_eq!(Task(1).get_stack_top(&k), 0x900);
    assert_eq!(Scheduler::get_current_task(&k), Task(0));
    assert_eq!(act.sp, STACK_SIZE);
    let act = handle_interrupt(&mut k, false, 11, 0x500);
    assert!(!act.clear_software_interrupt && !act.rearm_timer);
    assert_eq!(Scheduler::get_current_task(&k), Task(0));
    assert_eq!(act.sp, 0x500);
}

#[test]
fn the_cortex_m3_idle_task_takes_the_first_free_slot() {
    let mut k = kernel_init();
    let idle = init_idle_task(&mut k).unwrap();
    assert_eq!(idle, Task(0));
    assert_eq!(idle.get_name(&k), "idle");
    assert_eq!(idle.get_state(&k), TaskState::Ready);
    let next = Task::new(&mut k, "app").unwrap();
    assert_eq!(next, Task(1));
}
