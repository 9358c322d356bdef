pub mod bitfield;
pub mod stm32f1_uart_dma;
pub mod traits;

pub use traits::{
    AdcChannel, DataBits, Device, DeviceError, GpioPin, I2c, I2cConfig, InputPin, OutputPin,
    OutputType, OutputTypePin, Parity, PinMode, PullMode, PwmChannel, Read, ReadWrite, SerialConfig,
    Spi, SpiConfig, SpiMode, StopBits, TimerDevice, Uart, Write,
};
