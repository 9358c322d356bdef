//! The USART1 driver of the STM32F1 with DMA transfers.
//!
//! A transfer is a small state machine. `start_read`, `start_write` and
//! `start_transfer` check that a transfer may begin; each `poll_*` call is
//! one poll of the transfer's future. The first poll starts the DMA and
//! registers the caller's waker; later polls complete once the DMA interrupt
//! has taken the registration. The wakers themselves are kept by the caller:
//! the driver records only whether one is registered, and an interrupt
//! handler reports whether the registered waker must be woken.
use vstd::prelude::*;
use crate::drivers::traits::{Device, DeviceError, SerialConfig};
use crate::hal::traits::{DmaConfig, DmaController};

verus! {

/// One DMA transfer of `len` bytes; `started` once its first poll ran.
pub struct DmaTransfer {
    pub len: usize,
    pub started: bool,
}

/// The driver's state.
pub struct Stm32UartDma {
    pub baudrate: u32,
    pub initialized: bool,
    /// Whether a task waits for the end of a transmission.
    pub tx_waiting: bool,
    /// Whether a task waits for the end of a reception.
    pub rx_waiting: bool,
}

/// One poll of a transfer whose completion is signalled by the waiter flag
/// `waiting`: the first poll starts it and registers a waiter; a later poll
/// completes it when the interrupt has taken the registration, and registers
/// again otherwise. Gives whether the transfer completed and the new flag.
pub open spec fn transfer_step(started: bool, waiting: bool) -> (bool, bool) {
    if !started {
        (false, true)
    } else if !waiting {
        (true, false)
    } else {
        (false, true)
    }
}

impl Stm32UartDma {
    /// A driver at 115200 baud, not initialised, with no waiter.
    pub fn new() -> (r: Self)
        ensures
            r.baudrate == 115200,
            !r.initialized,
            !r.tx_waiting,
            !r.rx_waiting,
    {
        Stm32UartDma { baudrate: 115200, initialized: false, tx_waiting: false, rx_waiting: false }
    }

    /// The transmit-complete interrupt: takes the transmit waiter's
    /// registration and says whether there was one to wake.
    pub fn handle_dma_tx_interrupt(&mut self) -> (wake: bool)
        ensures
            wake == old(self).tx_waiting,
            *final(self) == (Stm32UartDma { tx_waiting: false, ..*old(self) }),
    {
        let wake = self.tx_waiting;
        self.tx_waiting = false;
        wake
    }

    /// The receive-complete interrupt: takes the receive waiter's
    /// registration and says whether there was one to wake.
    pub fn handle_dma_rx_interrupt(&mut self) -> (wake: bool)
        ensures
            wake == old(self).rx_waiting,
            *final(self) == (Stm32UartDma { rx_waiting: false, ..*old(self) }),
    {
        let wake = self.rx_waiting;
        self.rx_waiting = false;
        wake
    }

    /// Begins a reception into a buffer of `len` bytes; `NotInitialized`
    /// before `init`.
    pub fn start_read(&self, len: usize) -> (r: Result<DmaTransfer, DeviceError>)
        ensures
            !self.initialized ==> r == Err::<DmaTransfer, DeviceError>(DeviceError::NotInitialized),
            self.initialized ==> (r matches Ok(t) && t.len == len && !t.started),
    {
        if !self.initialized {
            return Err(DeviceError::NotInitialized);
        }
        Ok(DmaTransfer { len, started: false })
    }

    /// One poll of a reception: `None` while pending, the number of bytes
    /// received once complete.
    pub fn poll_read(&mut self, transfer: &mut DmaTransfer) -> (r: Option<Result<usize, DeviceError>>)
        ensures
            final(transfer).len == old(transfer).len,
            final(transfer).started,
            transfer_step(old(transfer).started, old(self).rx_waiting).0 ==> r == Some(
                Ok::<usize, DeviceError>(old(transfer).len),
            ),
            !transfer_step(old(transfer).started, old(self).rx_waiting).0 ==> r is None,
            *final(self) == (Stm32UartDma {
                rx_waiting: transfer_step(old(transfer).started, old(self).rx_waiting).1,
                ..*old(self)
            }),
    {
        if !transfer.started {
            transfer.started = true;
            self.rx_waiting = true;
            None
        } else if !self.rx_waiting {
            Some(Ok(transfer.len))
        } else {
            self.rx_waiting = true;
            None
        }
    }

    /// Begins a transmission of a buffer of `len` bytes; `NotInitialized`
    /// before `init`.
    pub fn start_write(&self, len: usize) -> (r: Result<DmaTransfer, DeviceError>)
        ensures
            !self.initialized ==> r == Err::<DmaTransfer, DeviceError>(DeviceError::NotInitialized),
            self.initialized ==> (r matches Ok(t) && t.len == len && !t.started),
    {
        if !self.initialized {
            return Err(DeviceError::NotInitialized);
        }
        Ok(DmaTransfer { len, started: false })
    }

    /// One poll of a transmission: `None` while pending, the number of bytes
    /// sent once complete.
    pub fn poll_write(&mut self, transfer: &mut DmaTransfer) -> (r: Option<Result<usize, DeviceError>>)
        ensures
            final(transfer).len == old(transfer).len,
            final(transfer).started,
            transfer_step(old(transfer).started, old(self).tx_waiting).0 ==> r == Some(
                Ok::<usize, DeviceError>(old(transfer).len),
            ),
            !transfer_step(old(transfer).started, old(self).tx_waiting).0 ==> r is None,
            *final(self) == (Stm32UartDma {
                tx_waiting: transfer_step(old(transfer).started, old(self).tx_waiting).1,
                ..*old(self)
            }),
    {
        if !transfer.started {
            transfer.started = true;
            self.tx_waiting = true;
            None
        } else if !self.tx_waiting {
            Some(Ok(transfer.len))
        } else {
            self.tx_waiting = true;
            None
        }
    }

    /// Waits for the end of the current transmission; the transmission is
    /// complete when its poll completes, so there is nothing left to wait for.
    pub fn flush(&mut self) -> (r: Result<(), DeviceError>)
        ensures
            r is Ok,
            *final(self) == *old(self),
    {
        Ok(())
    }

    /// Begins a DMA transfer described by `config` on `channel`;
    /// `InvalidParameter` for a channel above 7.
    pub fn start_transfer(&self, channel: u8, config: &DmaConfig) -> (r: Result<DmaTransfer, DeviceError>)
        ensures
            channel > 7 ==> r == Err::<DmaTransfer, DeviceError>(DeviceError::InvalidParameter),
            channel <= 7 ==> (r matches Ok(t) && t.len == config.length && !t.started),
    {
        if channel > 7 {
            return Err(DeviceError::InvalidParameter);
        }
        Ok(DmaTransfer { len: config.length, started: false })
    }

    /// One poll of a DMA transfer, which completes through the transmit
    /// interrupt: `None` while pending.
    pub fn poll_transfer(&mut self, transfer: &mut DmaTransfer) -> (r: Option<Result<(), DeviceError>>)
        ensures
            final(transfer).len == old(transfer).len,
            final(transfer).started,
            transfer_step(old(transfer).started, old(self).tx_waiting).0 ==> r == Some(
                Ok::<(), DeviceError>(()),
            ),
            !transfer_step(old(transfer).started, old(self).tx_waiting).0 ==> r is None,
            *final(self) == (Stm32UartDma {
                tx_waiting: transfer_step(old(transfer).started, old(self).tx_waiting).1,
                ..*old(self)
            }),
    {
        match self.poll_write(transfer) {
            Some(_) => Some(Ok(())),
            None => None,
        }
    }

    /// Applies a serial configuration; the driver keeps its baud rate.
    pub fn configure(&mut self, config: SerialConfig) -> (r: Result<(), DeviceError>)
        ensures
            r is Ok,
            *final(self) == *old(self),
    {
        Ok(())
    }

    /// Sets the baud rate.
    pub fn set_baudrate(&mut self, baudrate: u32) -> (r: Result<(), DeviceError>)
        ensures
            r is Ok,
            *final(self) == (Stm32UartDma { baudrate, ..*old(self) }),
    {
        self.baudrate = baudrate;
        Ok(())
    }

    /// The baud rate.
    pub fn baudrate(&self) -> (r: u32)
        ensures
            r == self.baudrate,
    {
        self.baudrate
    }
}

impl Device for Stm32UartDma {
    type Error = DeviceError;

    /// Marks the driver initialised.
    fn init(&mut self) -> (r: Result<(), DeviceError>)
        ensures
            r is Ok,
            *final(self) == (Stm32UartDma { initialized: true, ..*old(self) }),
    {
        self.initialized = true;
        Ok(())
    }

    fn name(&self) -> (r: &'static str)
        ensures
            r@ == "STM32F1_USART1_DMA"@,
    {
        "STM32F1_USART1_DMA"
    }

    /// Ready once initialised.
    fn is_ready(&self) -> (r: bool)
        ensures
            r == self.initialized,
    {
        self.initialized
    }
}

impl DmaController for Stm32UartDma {
    type Error = DeviceError;

    /// Stops the channel; always succeeds.
    fn stop_transfer(&mut self, channel: u8) -> (r: Result<(), DeviceError>)
        ensures
            r is Ok,
            *final(self) == *old(self),
    {
        Ok(())
    }

    /// The driver does not count transferred bytes: reports 0.
    fn remaining_length(&self, channel: u8) -> (r: usize)
        ensures
            r == 0,
    {
        0
    }
}

} // verus!
