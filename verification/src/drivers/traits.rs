use vstd::prelude::*;
use crate::error::RtosError;

verus! {

/// A device driver: every driver can be initialised and named.
pub trait Device {
    /// The driver's error type.
    type Error;

    /// Initialises the device; it must be called before any other use.
    fn init(&mut self) -> Result<(), Self::Error>;

    /// The device's name.
    fn name(&self) -> &'static str;

    /// Whether the device is ready; `true` unless the driver says otherwise.
    fn is_ready(&self) -> (r: bool)
        default_ensures
            r,
    {
        true
    }

    /// Puts the device back in its initial state; initialises it again
    /// unless the driver says otherwise.
    fn reset(&mut self) -> (r: Result<(), Self::Error>)
        where Self: Sized
        default_ensures
            exists|m: &mut Self|
                #[trigger] call_ensures(Self::init, (m,), r) && *m == *old(self) && *final(m) == *final(self),
    {
        self.init()
    }
}

/// A device that can be read.
pub trait Read: Device {
    /// Reads into `buf`; returns the number of bytes read.
    fn read(&mut self, buf: &mut [u8]) -> Result<usize, Self::Error>;

    /// Reads one byte: the first byte of a one-byte read.
    fn read_byte(&mut self) -> (r: Result<u8, Self::Error>)
        where Self: Sized
        default_ensures
            exists|m: &mut Self, b: &mut [u8], res: Result<usize, Self::Error>|
                #[trigger] call_ensures(Self::read, (m, b), res) && *m == *old(self) && *final(m) == *final(self)
                    && b@ == seq![0u8] && r == (match res {
                    Ok(_) => Ok::<u8, Self::Error>(if final(b)@.len() == 1 { final(b)@[0] } else { 0u8 }),
                    Err(e) => Err(e),
                }),
    {
        let mut buf: Vec<u8> = Vec::new();
        buf.push(0u8);
        self.read(buf.as_mut_slice())?;
        if buf.len() == 1 {
            Ok(buf[0])
        } else {
            Ok(0u8)
        }
    }
}

/// A device that can be written.
pub trait Write: Device {
    /// Writes from `buf`; returns the number of bytes written.
    fn write(&mut self, buf: &[u8]) -> Result<usize, Self::Error>;

    /// Sends everything that is buffered.
    fn flush(&mut self) -> Result<(), Self::Error>;

    /// Writes one byte.
    fn write_byte(&mut self, byte: u8) -> (r: Result<(), Self::Error>)
        where Self: Sized
        default_ensures
            exists|m: &mut Self, b: &[u8], res: Result<usize, Self::Error>|
                #[trigger] call_ensures(Self::write, (m, b), res) && *m == *old(self) && *final(m) == *final(self)
                    && b@ == seq![byte] && r == (match res {
                    Ok(_) => Ok::<(), Self::Error>(()),
                    Err(e) => Err(e),
                }),
    {
        let mut buf: Vec<u8> = Vec::new();
        buf.push(byte);
        self.write(buf.as_slice())?;
        Ok(())
    }
}

/// A device that can be read and written.
pub trait ReadWrite: Read + Write {}

impl<T: Read + Write> ReadWrite for T {}

/// The mode of a GPIO pin.
#[derive(Debug, Clone, Copy, PartialEq, Eq, Structural)]
pub enum PinMode {
    Input,
    Output,
    Alternate(u8),
    Analog,
}

/// The pull resistor of a GPIO pin.
#[derive(Debug, Clone, Copy, PartialEq, Eq, Structural)]
pub enum PullMode {
    NoPull,
    PullUp,
    PullDown,
}

/// The output stage of a GPIO pin.
#[derive(Debug, Clone, Copy, PartialEq, Eq, Structural)]
pub enum OutputType {
    PushPull,
    OpenDrain,
}

/// A GPIO pin.
pub trait GpioPin {
    /// The driver's error type.
    type Error;

    /// The pin's number.
    fn pin_number(&self) -> u8;

    /// Sets the pin's mode.
    fn set_mode(&mut self, mode: PinMode) -> Result<(), Self::Error>;

    /// The pin's mode.
    fn mode(&self) -> PinMode;

    /// Sets the pin's pull resistor.
    fn set_pull(&mut self, pull: PullMode) -> Result<(), Self::Error>;
}

/// A pin that can be read.
pub trait InputPin: GpioPin {
    /// Whether the pin reads high.
    fn is_high(&self) -> Result<bool, Self::Error>;

    /// Whether the pin reads low: the negation of `is_high`.
    fn is_low(&self) -> (r: Result<bool, Self::Error>)
        default_ensures
            exists|h: Result<bool, Self::Error>|
                #[trigger] call_ensures(Self::is_high, (self,), h) && r == (match h {
                    Ok(b) => Ok::<bool, Self::Error>(!b),
                    Err(e) => Err(e),
                }),
    {
        let high = self.is_high()?;
        Ok(!high)
    }
}

/// A pin that can be driven.
pub trait OutputPin: GpioPin {
    /// Drives the pin high.
    fn set_high(&mut self) -> Result<(), Self::Error>;

    /// Drives the pin low.
    fn set_low(&mut self) -> Result<(), Self::Error>;

    /// Inverts the pin's level.
    fn toggle(&mut self) -> Result<(), Self::Error>;

    /// Drives the pin high when `high` holds, low otherwise.
    fn set_state(&mut self, high: bool) -> (r: Result<(), Self::Error>)
        where Self: Sized
        default_ensures
            high ==> exists|m: &mut Self|
                #[trigger] call_ensures(Self::set_high, (m,), r) && *m == *old(self) && *final(m) == *final(self),
            !high ==> exists|m: &mut Self|
                #[trigger] call_ensures(Self::set_low, (m,), r) && *m == *old(self) && *final(m) == *final(self),
    {
        if high {
            self.set_high()
        } else {
            self.set_low()
        }
    }
}

/// A driven pin whose output stage can be chosen.
pub trait OutputTypePin: OutputPin {
    /// Sets the output stage.
    fn set_output_type(&mut self, output_type: OutputType) -> Result<(), Self::Error>;
}

/// The settings of a serial line.
#[derive(Debug, Clone, Copy)]
pub struct SerialConfig {
    pub baudrate: u32,
    pub data_bits: DataBits,
    pub stop_bits: StopBits,
    pub parity: Parity,
}

impl Default for SerialConfig {
    /// 115200 baud, eight data bits, one stop bit, no parity.
    fn default() -> (r: SerialConfig)
        ensures
            r.baudrate == 115200,
            r.data_bits == DataBits::Eight,
            r.stop_bits == StopBits::One,
            r.parity == Parity::NoParity,
    {
        SerialConfig {
            baudrate: 115200,
            data_bits: DataBits::Eight,
            stop_bits: StopBits::One,
            parity: Parity::NoParity,
        }
    }
}

/// The number of data bits per character.
#[derive(Debug, Clone, Copy, PartialEq, Eq, Structural)]
pub enum DataBits {
    Five,
    Six,
    Seven,
    Eight,
    Nine,
}

impl DataBits {
    /// The number of bits.
    pub fn bits(self) -> (r: u8)
        ensures
            r == match self {
                DataBits::Five => 5u8,
                DataBits::Six => 6u8,
                DataBits::Seven => 7u8,
                DataBits::Eight => 8u8,
                DataBits::Nine => 9u8,
            },
    {
        match self {
            DataBits::Five => 5,
            DataBits::Six => 6,
            DataBits::Seven => 7,
            DataBits::Eight => 8,
            DataBits::Nine => 9,
        }
    }
}

/// The number of stop bits.
#[derive(Debug, Clone, Copy, PartialEq, Eq, Structural)]
pub enum StopBits {
    One,
    OnePointFive,
    Two,
}

/// The parity bit.
#[derive(Debug, Clone, Copy, PartialEq, Eq, Structural)]
pub enum Parity {
    NoParity,
    Even,
    Odd,
}

/// A UART.
pub trait Uart: Read + Write {
    /// Applies the line settings.
    fn configure(&mut self, config: SerialConfig) -> Result<(), Self::Error>;

    /// Sets the baud rate.
    fn set_baudrate(&mut self, baudrate: u32) -> Result<(), Self::Error>;

    /// The baud rate.
    fn baudrate(&self) -> u32;

    /// Whether a byte can be read.
    fn is_rx_ready(&self) -> bool;

    /// Whether a byte can be written.
    fn is_tx_ready(&self) -> bool;
}

/// The clock polarity and phase of a SPI bus.
#[derive(Debug, Clone, Copy, PartialEq, Eq, Structural)]
pub enum SpiMode {
    Mode0,
    Mode1,
    Mode2,
    Mode3,
}

/// The settings of a SPI bus.
#[derive(Debug, Clone, Copy)]
pub struct SpiConfig {
    pub frequency: u32,
    pub mode: SpiMode,
    pub msb_first: bool,
}

impl Default for SpiConfig {
    /// 1 MHz, mode 0, most significant bit first.
    fn default() -> (r: SpiConfig)
        ensures
            r.frequency == 1_000_000,
            r.mode == SpiMode::Mode0,
            r.msb_first,
    {
        SpiConfig { frequency: 1_000_000, mode: SpiMode::Mode0, msb_first: true }
    }
}

/// A SPI bus.
pub trait Spi: Device {
    /// Applies the bus settings.
    fn configure(&mut self, config: SpiConfig) -> Result<(), Self::Error>;

    /// Writes `write` while reading into `read`; both have the same length.
    fn transfer(&mut self, read: &mut [u8], write: &[u8]) -> Result<(), Self::Error>;

    /// Writes `data`.
    fn write(&mut self, data: &[u8]) -> Result<(), Self::Error>;

    /// Reads into `data`.
    fn read(&mut self, data: &mut [u8]) -> Result<(), Self::Error>;

    /// Exchanges one byte: writes `byte` and returns the byte read meanwhile.
    fn transfer_byte(&mut self, byte: u8) -> (r: Result<u8, Self::Error>)
        where Self: Sized
        default_ensures
            exists|m: &mut Self, rd: &mut [u8], wr: &[u8], res: Result<(), Self::Error>|
                #[trigger] call_ensures(Self::transfer, (m, rd, wr), res) && *m == *old(self) && *final(m)
                    == *final(self) && rd@ == seq![0u8] && wr@ == seq![byte] && r == (match res {
                    Ok(_) => Ok::<u8, Self::Error>(if final(rd)@.len() == 1 { final(rd)@[0] } else { 0u8 }),
                    Err(e) => Err(e),
                }),
    {
        let mut read: Vec<u8> = Vec::new();
        read.push(0u8);
        let mut write: Vec<u8> = Vec::new();
        write.push(byte);
        self.transfer(read.as_mut_slice(), write.as_slice())?;
        if read.len() == 1 {
            Ok(read[0])
        } else {
            Ok(0u8)
        }
    }
}

/// The settings of an I2C bus.
#[derive(Debug, Clone, Copy)]
pub struct I2cConfig {
    pub frequency: u32,
}

impl Default for I2cConfig {
    /// The 100 kHz standard mode.
    fn default() -> (r: I2cConfig)
        ensures
            r.frequency == 100_000,
    {
        I2cConfig { frequency: 100_000 }
    }
}

/// An I2C bus.
pub trait I2c: Device {
    /// Applies the bus settings.
    fn configure(&mut self, config: I2cConfig) -> Result<(), Self::Error>;

    /// Writes `data` to the device at 7-bit address `addr`.
    fn write(&mut self, addr: u8, data: &[u8]) -> Result<(), Self::Error>;

    /// Reads into `data` from the device at 7-bit address `addr`.
    fn read(&mut self, addr: u8, data: &mut [u8]) -> Result<(), Self::Error>;

    /// Writes `write`, then reads into `read` without a stop in between.
    fn write_read(&mut self, addr: u8, write: &[u8], read: &mut [u8]) -> Result<(), Self::Error>;
}

/// A hardware timer.
pub trait TimerDevice: Device {
    /// Starts counting.
    fn start(&mut self) -> Result<(), Self::Error>;

    /// Stops counting.
    fn stop(&mut self) -> Result<(), Self::Error>;

    /// Sets the period in microseconds.
    fn set_period_us(&mut self, period: u32) -> Result<(), Self::Error>;

    /// Sets the period in milliseconds: `period * 1000` microseconds.
    fn set_period_ms(&mut self, period: u32) -> (r: Result<(), Self::Error>)
        where Self: Sized
        requires
            period <= u32::MAX / 1000,
        default_ensures
            exists|m: &mut Self|
                #[trigger] call_ensures(Self::set_period_us, (m, (period * 1000) as u32), r) && *m == *old(self)
                    && *final(m) == *final(self),
    {
        self.set_period_us(period * 1000)
    }

    /// The current count.
    fn count(&self) -> u32;

    /// Whether the timer counts.
    fn is_running(&self) -> bool;

    /// Sets the count to 0.
    fn clear(&mut self) -> Result<(), Self::Error>;
}

/// A PWM channel.
pub trait PwmChannel {
    /// The driver's error type.
    type Error;

    /// Sets the duty cycle, in percent.
    fn set_duty(&mut self, duty: u8) -> Result<(), Self::Error>;

    /// The duty cycle, in percent.
    fn duty(&self) -> u8;

    /// Sets the frequency in Hz.
    fn set_frequency(&mut self, freq: u32) -> Result<(), Self::Error>;

    /// The frequency in Hz.
    fn frequency(&self) -> u32;

    /// Starts the output.
    fn enable(&mut self) -> Result<(), Self::Error>;

    /// Stops the output.
    fn disable(&mut self) -> Result<(), Self::Error>;
}

/// An ADC channel.
pub trait AdcChannel {
    /// The driver's error type.
    type Error;

    /// A raw conversion.
    fn read_raw(&mut self) -> Result<u16, Self::Error>;

    /// A conversion in millivolts.
    fn read_mv(&mut self) -> Result<u32, Self::Error>;

    /// The resolution in bits.
    fn resolution(&self) -> u8;

    /// The reference voltage in millivolts.
    fn reference_mv(&self) -> u32;
}

/// Errors common to device drivers.
#[derive(Debug, Clone, Copy, PartialEq, Eq, Structural)]
pub enum DeviceError {
    NotInitialized,
    Busy,
    Timeout,
    InvalidParameter,
    CommunicationError,
    NotFound,
    BufferOverflow,
    Other,
}

impl From<DeviceError> for RtosError {
    /// Every device error becomes `InvalidHandle`.
    fn from(e: DeviceError) -> (r: RtosError) {
        RtosError::InvalidHandle
    }
}

impl vstd::std_specs::convert::FromSpecImpl<DeviceError> for RtosError {
    open spec fn obeys_from_spec() -> bool {
        true
    }

    open spec fn from_spec(v: DeviceError) -> RtosError {
        RtosError::InvalidHandle
    }
}

} // verus!
