//! UART 16550 compatible device.

use vstd::prelude::*;
use std::collections::VecDeque;

verus! {

/// Receive Buffer Register (read) / Transmitter Holding Register (write).
pub const UART_RBR: u32 = 0;
pub const UART_THR: u32 = 0;
/// Interrupt Enable Register.
pub const UART_IER: u32 = 1;
/// Interrupt Identification Register (read) / FIFO Control Register (write).
pub const UART_IIR: u32 = 2;
pub const UART_FCR: u32 = 2;
/// Line Control Register.
pub const UART_LCR: u32 = 3;
/// Modem Control Register.
pub const UART_MCR: u32 = 4;
/// Line Status Register.
pub const UART_LSR: u32 = 5;
/// Modem Status Register.
pub const UART_MSR: u32 = 6;
/// Scratch Register.
pub const UART_SCR: u32 = 7;

/// LSR: data available.
pub const LSR_DATA_READY: u8 = 0x01;
/// LSR: transmit holding register empty.
pub const LSR_TX_EMPTY: u8 = 0x20;
/// LSR: transmitter empty and line idle.
pub const LSR_TRANSMITTER_EMPTY: u8 = 0x40;

/// IER: receive data available interrupt enable.
pub const IER_RX_AVAILABLE: u8 = 0x01;
/// IER: transmit holding register empty interrupt enable.
pub const IER_TX_EMPTY: u8 = 0x02;

/// IIR values.
pub const IIR_NO_INTERRUPT: u8 = 0x01;
pub const IIR_TX_EMPTY: u8 = 0x02;
pub const IIR_RX_AVAILABLE: u8 = 0x04;
pub const IIR_FIFO_ENABLED: u8 = 0xC0;

/// Receive FIFO capacity; the oldest byte is dropped on overflow.
pub const MAX_FIFO_SIZE: usize = 256;

/// The registers and buffers of a UART.
pub struct UartState {
    pub rx: Seq<u8>,
    pub tx: Seq<u8>,
    pub ier: u8,
    pub lcr: u8,
    pub mcr: u8,
    pub scr: u8,
    pub fifo_enabled: bool,
    pub divisor: u16,
    pub interrupt_flags: u8,
    pub interrupt_line: u32,
}

/// UART 16550 device.
pub struct Uart {
    /// Receive FIFO
    rx_fifo: VecDeque<u8>,
    /// Transmit buffer (output to host)
    tx_buffer: Vec<u8>,
    /// Interrupt Enable Register
    ier: u8,
    /// Line Control Register
    lcr: u8,
    /// Modem Control Register
    mcr: u8,
    /// Scratch Register
    scr: u8,
    /// FIFO Control (write-only; whether FIFOs are enabled)
    fifo_enabled: bool,
    /// Divisor latch (when DLAB set)
    divisor: u16,
    /// Pending interrupt sources: bit 2 receive data, bit 1 transmit holding register empty
    interrupt_flags: u8,
    /// Interrupt line number
    pub interrupt_line: u32,
}

impl View for Uart {
    type V = UartState;

    closed spec fn view(&self) -> UartState {
        UartState {
            rx: self.rx_fifo@,
            tx: self.tx_buffer@,
            ier: self.ier,
            lcr: self.lcr,
            mcr: self.mcr,
            scr: self.scr,
            fifo_enabled: self.fifo_enabled,
            divisor: self.divisor,
            interrupt_flags: self.interrupt_flags,
            interrupt_line: self.interrupt_line,
        }
    }
}

/// Receive-data interrupt is pending and enabled.
pub open spec fn rx_int(s: UartState) -> bool {
    s.interrupt_flags & IIR_RX_AVAILABLE != 0 && s.ier & IER_RX_AVAILABLE != 0
}

/// Transmit-empty interrupt is pending and enabled.
pub open spec fn tx_int(s: UartState) -> bool {
    s.interrupt_flags & IIR_TX_EMPTY != 0 && s.ier & IER_TX_EMPTY != 0
}

/// Divisor latch access bit.
pub open spec fn dlab(s: UartState) -> bool {
    s.lcr & 0x80 != 0
}

/// The Line Status Register.
pub open spec fn lsr(s: UartState) -> u8 {
    if s.rx.len() > 0 { LSR_TX_EMPTY | LSR_TRANSMITTER_EMPTY | LSR_DATA_READY } else { LSR_TX_EMPTY | LSR_TRANSMITTER_EMPTY }
}

/// The IIR value read in state `s`.
pub open spec fn iir(s: UartState) -> u8 {
    let fifo_bits: u8 = if s.fifo_enabled { IIR_FIFO_ENABLED } else { 0 };
    if rx_int(s) { fifo_bits | IIR_RX_AVAILABLE }
    else if tx_int(s) { fifo_bits | IIR_TX_EMPTY }
    else { fifo_bits | IIR_NO_INTERRUPT }
}

/// The state after reading the IIR: a reported transmit-empty interrupt is acknowledged.
pub open spec fn after_iir(s: UartState) -> UartState {
    if !rx_int(s) && tx_int(s) { UartState { interrupt_flags: s.interrupt_flags & !IIR_TX_EMPTY, ..s } } else { s }
}

/// The state after the receive buffer was read with DLAB clear.
pub open spec fn after_rbr(s: UartState) -> UartState {
    let rx = if s.rx.len() > 0 { s.rx.drop_first() } else { s.rx };
    let flags = if rx.len() == 0 { s.interrupt_flags & !IIR_RX_AVAILABLE } else { s.interrupt_flags };
    UartState { rx: rx, interrupt_flags: flags, ..s }
}

/// The byte a read of the receive buffer returns with DLAB clear.
pub open spec fn rbr(s: UartState) -> u8 {
    if s.rx.len() > 0 { s.rx[0] } else { 0 }
}

/// What a register read at `offset` returns.
pub open spec fn uart_read(s: UartState, offset: u32) -> u8 {
    if offset == UART_RBR { if dlab(s) { (s.divisor % 0x100) as u8 } else { rbr(s) } }
    else if offset == UART_IER { if dlab(s) { (s.divisor / 0x100) as u8 } else { s.ier } }
    else if offset == UART_IIR { iir(s) }
    else if offset == UART_LCR { s.lcr }
    else if offset == UART_MCR { s.mcr }
    else if offset == UART_LSR { lsr(s) }
    else if offset == UART_SCR { s.scr }
    else { 0 }
}

/// The state after a register read at `offset` (reads of RBR and IIR have side effects).
pub open spec fn uart_after_read(s: UartState, offset: u32) -> UartState {
    if offset == UART_RBR && !dlab(s) { after_rbr(s) }
    else if offset == UART_IIR { after_iir(s) }
    else { s }
}

/// The state after a register write of `value` at `offset`.
pub open spec fn uart_after_write(s: UartState, offset: u32, value: u8) -> UartState {
    if offset == UART_THR {
        if dlab(s) { UartState { divisor: (s.divisor - s.divisor % 0x100 + value) as u16, ..s } }
        else { UartState { tx: s.tx.push(value), interrupt_flags: s.interrupt_flags | IIR_TX_EMPTY, ..s } }
    } else if offset == UART_IER {
        if dlab(s) { UartState { divisor: (s.divisor % 0x100 + value * 0x100) as u16, ..s } }
        else { UartState { ier: value % 0x10, interrupt_flags: s.interrupt_flags & !IIR_TX_EMPTY, ..s } }
    } else if offset == UART_FCR {
        let s1 = UartState { fifo_enabled: value % 2 == 1, ..s };
        let s2 = if (value / 2) % 2 == 1 {
            UartState { rx: Seq::empty(), interrupt_flags: s1.interrupt_flags & !IIR_RX_AVAILABLE, ..s1 }
        } else { s1 };
        if (value / 4) % 2 == 1 {
            UartState { tx: Seq::empty(), interrupt_flags: s2.interrupt_flags & !IIR_TX_EMPTY, ..s2 }
        } else { s2 }
    } else if offset == UART_LCR { UartState { lcr: value, ..s } }
    else if offset == UART_MCR { UartState { mcr: value, ..s } }
    else if offset == UART_SCR { UartState { scr: value, ..s } }
    else { s }
}

/// The state after the host sends byte `c`.
pub open spec fn uart_after_receive(s: UartState, c: u8) -> UartState {
    let rx = if s.rx.len() >= MAX_FIFO_SIZE { s.rx.drop_first() } else { s.rx };
    UartState { rx: rx.push(c), interrupt_flags: s.interrupt_flags | IIR_RX_AVAILABLE, ..s }
}

/// A freshly reset UART on interrupt line `line`.
pub open spec fn uart_reset_state(line: u32) -> UartState {
    UartState {
        rx: Seq::empty(), tx: Seq::empty(), ier: 0, lcr: 0, mcr: 0, scr: 0, fifo_enabled: false,
        divisor: 0, interrupt_flags: 0, interrupt_line: line,
    }
}

impl Uart {
    pub fn new(interrupt_line: u32) -> (u: Uart)
        ensures
            u@ == uart_reset_state(interrupt_line),
    {
        Uart {
            rx_fifo: VecDeque::new(),
            tx_buffer: Vec::new(),
            ier: 0,
            lcr: 0,
            mcr: 0,
            scr: 0,
            fifo_enabled: false,
            divisor: 0,
            interrupt_flags: 0,
            interrupt_line,
        }
    }

    /// Receive a character from the host (keyboard input).
    pub fn receive_char(&mut self, c: u8)
        ensures
            final(self)@ == uart_after_receive(old(self)@, c),
    {
        if self.rx_fifo.len() >= MAX_FIFO_SIZE {
            self.rx_fifo.pop_front();
        }
        self.rx_fifo.push_back(c);
        self.interrupt_flags = self.interrupt_flags | IIR_RX_AVAILABLE;
    }

    /// Take the pending transmit output.
    pub fn get_output(&mut self) -> (r: Vec<u8>)
        ensures
            r@ == old(self)@.tx,
            final(self)@ == (UartState { tx: Seq::empty(), ..old(self)@ }),
    {
        let mut out: Vec<u8> = Vec::new();
        std::mem::swap(&mut out, &mut self.tx_buffer);
        out
    }

    /// Is an enabled interrupt pending?
    pub fn has_interrupt(&self) -> (r: bool)
        ensures
            r == (rx_int(self@) || tx_int(self@)),
    {
        if (self.interrupt_flags & IIR_RX_AVAILABLE) != 0 && (self.ier & IER_RX_AVAILABLE) != 0 {
            return true;
        }
        if (self.interrupt_flags & IIR_TX_EMPTY) != 0 && (self.ier & IER_TX_EMPTY) != 0 {
            return true;
        }
        false
    }

    /// Line Status Register value.
    fn get_lsr(&self) -> (r: u8)
        ensures
            r == lsr(self@),
    {
        if self.rx_fifo.len() > 0 {
            LSR_TX_EMPTY | LSR_TRANSMITTER_EMPTY | LSR_DATA_READY
        } else {
            LSR_TX_EMPTY | LSR_TRANSMITTER_EMPTY
        }
    }

    /// Interrupt Identification Register value (receive data before transmit empty).
    fn get_iir(&mut self) -> (r: u8)
        ensures
            r == iir(old(self)@),
            final(self)@ == after_iir(old(self)@),
    {
        let fifo_bits: u8 = if self.fifo_enabled { IIR_FIFO_ENABLED } else { 0 };
        if (self.interrupt_flags & IIR_RX_AVAILABLE) != 0 && (self.ier & IER_RX_AVAILABLE) != 0 {
            return fifo_bits | IIR_RX_AVAILABLE;
        }
        if (self.interrupt_flags & IIR_TX_EMPTY) != 0 && (self.ier & IER_TX_EMPTY) != 0 {
            self.interrupt_flags = self.interrupt_flags & !IIR_TX_EMPTY;
            return fifo_bits | IIR_TX_EMPTY;
        }
        fifo_bits | IIR_NO_INTERRUPT
    }

    /// Divisor Latch Access Bit.
    fn is_dlab_set(&self) -> (r: bool)
        ensures
            r == dlab(self@),
    {
        (self.lcr & 0x80) != 0
    }

    /// Read register.
    pub fn read8(&mut self, offset: u32) -> (r: u8)
        ensures
            r == uart_read(old(self)@, offset),
            final(self)@ == uart_after_read(old(self)@, offset),
    {
        if offset == UART_RBR {
            self.read_rbr()
        } else if offset == UART_IER {
            if self.is_dlab_set() { (self.divisor / 0x100) as u8 } else { self.ier }
        } else if offset == UART_IIR {
            self.get_iir()
        } else if offset == UART_LCR {
            self.lcr
        } else if offset == UART_MCR {
            self.mcr
        } else if offset == UART_LSR {
            self.get_lsr()
        } else if offset == UART_SCR {
            self.scr
        } else {
            0
        }
    }

    /// Write register.
    pub fn write8(&mut self, offset: u32, value: u8)
        ensures
            final(self)@ == uart_after_write(old(self)@, offset, value),
    {
        if offset == UART_THR {
            if self.is_dlab_set() {
                self.divisor = self.divisor - self.divisor % 0x100 + value as u16;
            } else {
                self.tx_buffer.push(value);
                self.interrupt_flags = self.interrupt_flags | IIR_TX_EMPTY;
            }
        } else if offset == UART_IER {
            if self.is_dlab_set() {
                self.divisor = self.divisor % 0x100 + (value as u16) * 0x100;
            } else {
                self.ier = value % 0x10;
                self.interrupt_flags = self.interrupt_flags & !IIR_TX_EMPTY;
            }
        } else if offset == UART_FCR {
            self.fifo_enabled = value % 2 == 1;
            if (value / 2) % 2 == 1 {
                self.rx_fifo.clear();
                self.interrupt_flags = self.interrupt_flags & !IIR_RX_AVAILABLE;
            }
            if (value / 4) % 2 == 1 {
                self.tx_buffer.clear();
                self.interrupt_flags = self.interrupt_flags & !IIR_TX_EMPTY;
            }
        } else if offset == UART_LCR {
            self.lcr = value;
        } else if offset == UART_MCR {
            self.mcr = value;
        } else if offset == UART_SCR {
            self.scr = value;
        }
    }

    pub fn read32(&mut self, offset: u32) -> (r: u32)
        ensures
            r == uart_read(old(self)@, offset) as u32,
            final(self)@ == uart_after_read(old(self)@, offset),
    {
        self.read8(offset) as u32
    }

    pub fn write32(&mut self, offset: u32, value: u32)
        ensures
            final(self)@ == uart_after_write(old(self)@, offset, (value % 0x100) as u8),
    {
        self.write8(offset, (value % 0x100) as u8);
    }

    /// Reset the device (the interrupt line is kept).
    pub fn reset(&mut self)
        ensures
            final(self)@ == uart_reset_state(old(self)@.interrupt_line),
    {
        self.rx_fifo.clear();
        self.tx_buffer.clear();
        self.ier = 0;
        self.lcr = 0;
        self.mcr = 0;
        self.scr = 0;
        self.fifo_enabled = false;
        self.divisor = 0;
        self.interrupt_flags = 0;
    }

    /// Read the receive buffer (the divisor low byte when DLAB is set).
    pub fn read_rbr(&mut self) -> (r: u8)
        ensures
            r == uart_read(old(self)@, UART_RBR),
            final(self)@ == uart_after_read(old(self)@, UART_RBR),
    {
        if self.is_dlab_set() {
            (self.divisor % 0x100) as u8
        } else {
            let c = match self.rx_fifo.pop_front() {
                Some(c) => c,
                None => 0,
            };
            if self.rx_fifo.len() == 0 {
                self.interrupt_flags = self.interrupt_flags & !IIR_RX_AVAILABLE;
            }
            c
        }
    }
}

/// Bytes written to the transmit register come out of `get_output` in order.
pub proof fn lemma_thr_appends(s: UartState, c: u8)
    requires
        !dlab(s),
    ensures
        uart_after_write(s, UART_THR, c).tx == s.tx.push(c),
{
}

/// A byte received from the host into a non-full FIFO is the next one read back
/// once the bytes before it are consumed, and reading it raises no change elsewhere.
pub proof fn lemma_receive_then_read(s: UartState, c: u8)
    requires
        !dlab(s),
        s.rx.len() == 0,
    ensures
        uart_read(uart_after_receive(s, c), UART_RBR) == c,
        uart_after_read(uart_after_receive(s, c), UART_RBR).rx.len() == 0,
{
    assert(uart_after_receive(s, c).rx =~= seq![c]);
}

/// The line-status values: with data waiting, bit 0 (data ready) and the two
/// transmitter-empty bits 5 and 6; without, only the transmitter bits.
proof fn lemma_lsr_values()
    by (bit_vector)
    ensures
        (0x20u8 | 0x40u8 | 0x01u8) & 0x01u8 == 0x01u8,
        (0x20u8 | 0x40u8 | 0x01u8) & 0x60u8 == 0x60u8,
        (0x20u8 | 0x40u8) & 0x01u8 == 0u8,
        (0x20u8 | 0x40u8) & 0x60u8 == 0x60u8,
{
}

/// Reading the line-status register (offset 5) shows bit 0 (data ready)
/// exactly when the receive FIFO holds a byte, bits 5 and 6 (transmitter
/// empty) always, and changes nothing.
pub proof fn lemma_lsr_data_ready(s: UartState)
    ensures
        (uart_read(s, 5) & 1u8 == 1u8) <==> s.rx.len() > 0,
        uart_read(s, 5) & 1u8 == 0u8 <==> s.rx.len() == 0,
        uart_read(s, 5) & 0x60u8 == 0x60u8,
        uart_after_read(s, 5) == s,
{
    lemma_lsr_values();
}

/// After a byte is received, the line-status register shows data ready.
pub proof fn lemma_receive_sets_data_ready(s: UartState, c: u8)
    ensures
        uart_read(uart_after_receive(s, c), 5) & 1u8 == 1u8,
{
    lemma_lsr_data_ready(uart_after_receive(s, c));
}

/// A received byte raises the receive interrupt when it is enabled.
pub proof fn lemma_receive_raises_interrupt(s: UartState, c: u8)
    requires
        s.ier & IER_RX_AVAILABLE != 0,
    ensures
        rx_int(uart_after_receive(s, c)),
{
    crate::bits::lemma_u8_flags();
}

} // verus!
