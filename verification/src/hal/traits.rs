use vstd::prelude::*;

verus! {

/// Context switching, implemented by each architecture port.
pub trait ContextSwitch {
    /// Asks for a task switch.
    fn trigger_switch();

    /// Starts the first task.
    fn start_first_task();
}

/// The tick source, implemented by each architecture port.
pub trait SysTickTrait {
    /// Starts ticking at `frequency` Hz.
    fn init(frequency: u32);

    /// The ticks counted.
    fn get_current_time() -> usize;

    /// Advances the count by `ticks`.
    fn add_current_time(ticks: usize);

    /// Handles a tick interrupt.
    fn tick_handler();

    /// Stops ticking for `ticks` ticks.
    fn suspend(ticks: usize);

    /// Resumes ticking; returns the ticks slept.
    fn resume() -> usize;
}

/// The idle task, implemented by each architecture port.
pub trait IdleTaskTrait {
    /// Creates the idle task.
    fn init_idle_task();
}

/// Critical sections, implemented by each architecture port.
pub trait CriticalSectionTrait {
    /// What `enter` hands to `exit`.
    type Token;

    /// Enters a critical section.
    fn enter() -> Self::Token;

    /// Leaves a critical section.
    fn exit(token: Self::Token);
}

/// Interrupt control, implemented by each architecture port.
pub trait InterruptControl {
    fn disable_interrupts();

    fn enable_interrupts();

    fn is_interrupts_enabled() -> bool;

    fn set_priority(irq: u32, priority: u8);

    fn enable_irq(irq: u32);

    fn disable_irq(irq: u32);

    fn unregister_handler(irq: u32);
}

/// The direction of a DMA transfer.
#[derive(Debug, Clone, Copy, PartialEq, Eq, Structural)]
pub enum DmaDirection {
    MemoryToPeripheral,
    PeripheralToMemory,
    MemoryToMemory,
    PeripheralToPeripheral,
}

/// A DMA transfer.
#[derive(Debug, Clone)]
pub struct DmaConfig {
    pub src_addr: usize,
    pub dst_addr: usize,
    pub length: usize,
    pub direction: DmaDirection,
}

/// A DMA engine.
pub trait DmaController {
    /// The driver's error type.
    type Error;

    /// Stops the transfer on `channel`.
    fn stop_transfer(&mut self, channel: u8) -> Result<(), Self::Error>;

    /// The bytes left to transfer on `channel`.
    fn remaining_length(&self, channel: u8) -> usize;
}

/// Processor hints and barriers, implemented by each architecture port.
pub trait ProcessorControl {
    fn wait_for_interrupt();

    fn wait_for_event();

    fn send_event();

    fn data_sync_barrier();

    fn instruction_sync_barrier();

    fn data_memory_barrier();
}

/// Facts about the architecture.
pub trait ArchInfo {
    fn arch_name() -> &'static str;

    fn word_size() -> usize;

    fn stack_alignment() -> usize;
}

/// Board bring-up.
pub trait Platform {
    /// The board's error type.
    type Error;

    fn platform_name() -> &'static str;

    fn early_init() -> Result<(), Self::Error>;

    fn device_init() -> Result<(), Self::Error>;
}

} // verus!
