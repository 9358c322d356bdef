use neon_rtos2::drivers::stm32f1_uart_dma::Stm32UartDma;
use neon_rtos2::drivers::traits::{Device, DeviceError, SerialConfig};
use neon_rtos2::error::RtosError;
use neon_rtos2::hal::traits::{DmaConfig, DmaController, DmaDirection};

#[test]
fn a_new_driver_is_not_ready() {
    let mut uart = Stm32UartDma::new();
    assert_eq!(uart.baudrate(), 115200);
    assert!(!uart.is_ready());
    assert_eq!(uart.name(), "STM32F1_USART1_DMA");
    assert_eq!(uart.start_read(4).err(), Some(DeviceError::NotInitialized));
    assert_eq!(uart.start_write(4).err(), Some(DeviceError::NotInitialized));
    assert!(uart.init().is_ok());
    assert!(uart.is_ready());
}

#[test]
fn a_read_completes_after_the_rx_interrupt() {
    let mut uart = Stm32UartDma::new();
    uart.init().unwrap();
    let mut t = uart.start_read(8).unwrap();
    assert_eq!(uart.poll_read(&mut t), None);
    assert!(uart.rx_waiting);
    assert_eq!(uart.poll_read(&mut t), None);
    assert!(!uart.handle_dma_tx_interrupt());
    assert!(uart.handle_dma_rx_interrupt());
    assert!(!uart.handle_dma_rx_interrupt());
    assert_eq!(uart.poll_read(&mut t), Some(Ok(8)));
}

#[test]
fn a_write_completes_after_the_tx_interrupt() {
    let mut uart = Stm32UartDma::new();
    uart.init().unwrap();
    let mut t = uart.start_write(3).unwrap();
    assert_eq!(uart.poll_write(&mut t), None);
    assert!(uart.handle_dma_tx_interrupt());
    assert_eq!(uart.poll_write(&mut t), Some(Ok(3)));
    assert!(uart.flush().is_ok());
}

#[test]
fn dma_channels_above_seven_are_refused() {
    let mut uart = Stm32UartDma::new();
    let config = DmaConfig { src_addr: 0x2000_0000, dst_addr: 0x4001_3804, length: 16, direction: DmaDirection::MemoryToPeripheral };
    assert_eq!(uart.start_transfer(8, &config).err(), Some(DeviceError::InvalidParameter));
    let mut t = uart.start_transfer(7, &config).unwrap();
    assert_eq!(t.len, 16);
    assert_eq!(uart.poll_transfer(&mut t), None);
    assert!(uart.handle_dma_tx_interrupt());
    assert_eq!(uart.poll_transfer(&mut t), Some(Ok(())));
    assert!(uart.stop_transfer(7).is_ok());
    assert_eq!(uart.remaining_length(7), 0);
}

#[test]
fn baud_rate_changes_only_by_set_baudrate() {
    let mut uart = Stm32UartDma::new();
    assert!(uart.configure(SerialConfig::default()).is_ok());
    assert_eq!(uart.baudrate(), 115200);
    assert!(uart.set_baudrate(9600).is_ok());
    assert_eq!(uart.baudrate(), 9600);
}

#[test]
fn errors_have_messages() {
    assert_eq!(RtosError::TaskNotFound.as_str(), "Task not found");
    assert_eq!(RtosError::MutexNotOwned.as_str(), "Mutex not owned by current task");
    assert_eq!(RtosError::Timeout.as_str(), "Operation timed out");
}
