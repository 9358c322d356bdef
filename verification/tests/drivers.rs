use neon_rtos2::drivers::bitfield::Bitfield32;
use neon_rtos2::drivers::traits::{
    DataBits, Device, DeviceError, I2cConfig, InputPin, GpioPin, OutputPin, Parity, PinMode,
    PullMode, Read, SerialConfig, Spi, SpiConfig, SpiMode, StopBits, Write,
};
use neon_rtos2::error::RtosError;

struct MockDevice {
    initialized: bool,
    data: [u8; 16],
    pos: usize,
}

impl MockDevice {
    fn new() -> Self {
        Self { initialized: false, data: [0; 16], pos: 0 }
    }
}

impl Device for MockDevice {
    type Error = DeviceError;

    fn init(&mut self) -> Result<(), Self::Error> {
        self.initialized = true;
        Ok(())
    }

    fn name(&self) -> &'static str {
        "MockDevice"
    }

    fn is_ready(&self) -> bool {
        self.initialized
    }
}

impl Read for MockDevice {
    fn read(&mut self, buf: &mut [u8]) -> Result<usize, Self::Error> {
        if !self.initialized {
            return Err(DeviceError::NotInitialized);
        }
        let len = buf.len().min(self.data.len() - self.pos);
        buf[..len].copy_from_slice(&self.data[self.pos..self.pos + len]);
        self.pos += len;
        Ok(len)
    }
}

impl Write for MockDevice {
    fn write(&mut self, buf: &[u8]) -> Result<usize, Self::Error> {
        if !self.initialized {
            return Err(DeviceError::NotInitialized);
        }
        let len = buf.len().min(self.data.len() - self.pos);
        self.data[self.pos..self.pos + len].copy_from_slice(&buf[..len]);
        self.pos += len;
        Ok(len)
    }

    fn flush(&mut self) -> Result<(), Self::Error> {
        Ok(())
    }
}

#[test]
fn test_device_init() {
    let mut device = MockDevice::new();
    assert!(!device.is_ready());
    device.init().unwrap();
    assert!(device.is_ready());
    assert_eq!(device.name(), "MockDevice");
}

#[test]
fn test_device_read_write() {
    let mut device = MockDevice::new();
    device.init().unwrap();
    let write_data = [1, 2, 3, 4];
    let written = device.write(&write_data).unwrap();
    assert_eq!(written, 4);
    device.pos = 0;
    let mut read_data = [0u8; 4];
    let read = device.read(&mut read_data).unwrap();
    assert_eq!(read, 4);
    assert_eq!(read_data, write_data);
}

#[test]
fn test_serial_config_default() {
    let config = SerialConfig::default();
    assert_eq!(config.baudrate, 115200);
    assert_eq!(config.data_bits, DataBits::Eight);
    assert_eq!(config.stop_bits, StopBits::One);
    assert_eq!(config.parity, Parity::NoParity);
}

#[test]
fn test_spi_config_default() {
    let config = SpiConfig::default();
    assert_eq!(config.frequency, 1_000_000);
    assert_eq!(config.mode, SpiMode::Mode0);
    assert!(config.msb_first);
}

#[test]
fn test_i2c_config_default() {
    let config = I2cConfig::default();
    assert_eq!(config.frequency, 100_000);
}

#[test]
fn default_methods_go_through_the_required_ones() {
    let mut device = MockDevice::new();
    assert_eq!(device.write_byte(9), Err(DeviceError::NotInitialized));
    device.reset().unwrap();
    device.write_byte(9).unwrap();
    device.write_byte(8).unwrap();
    device.pos = 0;
    assert_eq!(device.read_byte(), Ok(9));
    assert_eq!(device.read_byte(), Ok(8));
}

struct MockPin {
    high: bool,
    mode: PinMode,
}

impl GpioPin for MockPin {
    type Error = DeviceError;
    fn pin_number(&self) -> u8 {
        3
    }
    fn set_mode(&mut self, mode: PinMode) -> Result<(), Self::Error> {
        self.mode = mode;
        Ok(())
    }
    fn mode(&self) -> PinMode {
        self.mode
    }
    fn set_pull(&mut self, _pull: PullMode) -> Result<(), Self::Error> {
        Ok(())
    }
}

impl InputPin for MockPin {
    fn is_high(&self) -> Result<bool, Self::Error> {
        Ok(self.high)
    }
}

impl OutputPin for MockPin {
    fn set_high(&mut self) -> Result<(), Self::Error> {
        self.high = true;
        Ok(())
    }
    fn set_low(&mut self) -> Result<(), Self::Error> {
        self.high = false;
        Ok(())
    }
    fn toggle(&mut self) -> Result<(), Self::Error> {
        self.high = !self.high;
        Ok(())
    }
}

#[test]
fn pin_default_methods() {
    let mut pin = MockPin { high: false, mode: PinMode::Output };
    assert_eq!(pin.is_low(), Ok(true));
    pin.set_state(true).unwrap();
    assert_eq!(pin.is_low(), Ok(false));
    pin.set_state(false).unwrap();
    assert_eq!(pin.is_high(), Ok(false));
}

struct Loopback;

impl Device for Loopback {
    type Error = DeviceError;
    fn init(&mut self) -> Result<(), Self::Error> {
        Ok(())
    }
    fn name(&self) -> &'static str {
        "loop"
    }
}

impl Spi for Loopback {
    fn configure(&mut self, _config: SpiConfig) -> Result<(), Self::Error> {
        Ok(())
    }
    fn transfer(&mut self, read: &mut [u8], write: &[u8]) -> Result<(), Self::Error> {
        for (r, w) in read.iter_mut().zip(write.iter()) {
            *r = w.wrapping_add(1);
        }
        Ok(())
    }
    fn write(&mut self, _data: &[u8]) -> Result<(), Self::Error> {
        Ok(())
    }
    fn read(&mut self, _data: &mut [u8]) -> Result<(), Self::Error> {
        Ok(())
    }
}

#[test]
fn spi_transfer_byte_returns_the_byte_read() {
    let mut spi = Loopback;
    assert_eq!(spi.transfer_byte(41), Ok(42));
    assert!(spi.is_ready());
}

#[test]
fn device_error_converts_to_invalid_handle() {
    assert_eq!(RtosError::from(DeviceError::Busy), RtosError::InvalidHandle);
    assert_eq!(DataBits::Seven.bits(), 7);
}

#[test]
fn test_bitfield() {
    let status = Bitfield32::from_raw(0b1000_0011);
    assert!(status.bit(0));
    assert!(status.bit(1));
    assert!(status.bit(7));

    let mut status = Bitfield32::from_raw(0);
    status.set_bit(0, true);
    assert!(status.bit(0));
    assert_eq!(status.raw(), 1);
}

#[test]
fn test_bitfield_conversion() {
    let status: Bitfield32 = 0x55u32.into();
    let raw: u32 = status.into();
    assert_eq!(raw, 0x55);
}

#[test]
fn clearing_a_bit_keeps_the_others() {
    let mut status = Bitfield32::from_raw(0xFFFF_FFFF);
    status.set_bit(31, false);
    status.set_bit(4, false);
    assert_eq!(status.raw(), 0x7FFF_FFEF);
    assert!(!status.bit(31));
    assert!(status.bit(30));
}
