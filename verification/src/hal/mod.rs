pub mod cortex_m3;
pub mod riscv;
pub mod traits;

pub use traits::{
    ArchInfo, ContextSwitch, CriticalSectionTrait, DmaConfig, DmaController, DmaDirection,
    IdleTaskTrait, InterruptControl, Platform, ProcessorControl, SysTickTrait,
};
