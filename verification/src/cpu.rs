//! Port, MSR and PCI configuration access for a caller.
//!
//! PCI configuration space is reached through two I/O ports: a double word
//! written to the address port selects a register of a device, and a read of
//! the data port then returns that register. Reading a configuration word is
//! therefore two exchanges in a row, which [`PciWordRead`] sequences.

use vstd::prelude::*;
use crate::channel::{Completion, CompletionView, Exchange, ExchangeView};
use crate::error::Error;
use crate::protocol::PortWidth;
use crate::win_ring::{
    empty_result, in_exchange, number_result, out_exchange, read_msr_exchange, write_msr_exchange,
    WinRing0,
};

verus! {

/// The port to which a configuration address is written.
pub const IO_PORT_PCI_CONFIG_ADDRESS: u16 = 0xcf8;

/// The port from which the selected configuration register is read.
pub const IO_PORT_PCI_CONFIG_DATA: u16 = 0xcfc;

/// The configuration address of the double word that holds `offset` in the
/// configuration space of a function of a device on a bus: the enable bit,
/// the bus from bit 16, the device from bit 11, the function from bit 8, and
/// the offset without its two low bits.
pub open spec fn pci_config_address(bus: u8, device: u8, function: u8, offset: u8) -> u32 {
    0x8000_0000u32 | ((bus as u32) << 16) | ((device as u32) << 11) | ((function as u32) << 8) | ((
    offset as u32) & 0xfc)
}

/// A configuration address whose last part is the offset multiplied by
/// `0xfc` instead of the offset without its two low bits. It departs from
/// [`pci_config_address`] on most offsets, reaching into the bits of the
/// function and the device, and is kept apart so that the two can be held
/// against each other.
pub open spec fn pci_config_address_scaled(bus: u8, device: u8, function: u8, offset: u8) -> u32 {
    0x8000_0000u32 | ((bus as u32) << 16) | ((device as u32) << 11) | ((function as u32) << 8) | ((
    offset as u32) * 0xfc) as u32
}

/// The word at `offset` within the configuration double word `data` that
/// holds it: the high word if bit 1 of the offset is set, else the low word.
pub open spec fn pci_word(data: u32, offset: u8) -> u16 {
    ((data >> (((offset as u32) & 2) * 8) as u32) & 0xffff) as u16
}

/// Computes [`pci_config_address`].
pub fn config_address(bus: u8, device: u8, function: u8, offset: u8) -> (address: u32)
    ensures
        address == pci_config_address(bus, device, function, offset),
{
    let bus: u32 = bus as u32;
    let device: u32 = device as u32;
    let function: u32 = function as u32;
    let offset: u32 = offset as u32;
    0x8000_0000u32 | (bus << 16) | (device << 11) | (function << 8) | (offset & 0xfc)
}

/// Computes [`pci_config_address_scaled`].
pub fn config_address_scaled(bus: u8, device: u8, function: u8, offset: u8) -> (address: u32)
    ensures
        address == pci_config_address_scaled(bus, device, function, offset),
{
    let bus: u32 = bus as u32;
    let device: u32 = device as u32;
    let function: u32 = function as u32;
    let offset: u32 = offset as u32;
    0x8000_0000u32 | (bus << 16) | (device << 11) | (function << 8) | (offset * 0xfc)
}

/// Computes [`pci_word`].
pub fn config_word(data: u32, offset: u8) -> (word: u16)
    ensures
        word == pci_word(data, offset),
{
    let offset: u32 = offset as u32;
    let bit: u32 = offset & 2;
    assert(bit == 0 || bit == 2) by (bit_vector)
        requires
            bit == offset & 2,
    ;
    let shift: u32 = bit * 8;
    let word: u32 = (data >> shift) & 0xffff;
    assert(word <= 0xffff) by (bit_vector)
        requires
            word == (data >> shift) & 0xffff,
    ;
    word as u16
}

/// For a device below 32 and a function below 8, the fields of a
/// configuration address do not overlap: the address is the sum of the
/// enable bit, the bus times 65536, the device times 2048, the function
/// times 256, and the offset rounded down to a multiple of 4.
pub proof fn lemma_config_address_fields(bus: u8, device: u8, function: u8, offset: u8)
    requires
        device < 32,
        function < 8,
    ensures
        pci_config_address(bus, device, function, offset) == 0x8000_0000 + bus * 0x1_0000 + device
            * 0x800 + function * 0x100 + (offset - offset % 4),
{
    let b = bus as u32;
    let d = device as u32;
    let f = function as u32;
    let o = offset as u32;
    assert(b < 256 && d < 32 && f < 8 && o < 256 ==> (0x8000_0000u32 | (b << 16) | (d << 11) | (f
        << 8) | (o & 0xfc)) == 0x8000_0000u32 + b * 0x1_0000 + d * 0x800 + f * 0x100 + (o - o % 4))
        by (bit_vector);
}

/// The two readings of the address agree on offset 0.
pub proof fn lemma_config_address_scaled_at_zero(bus: u8, device: u8, function: u8)
    ensures
        pci_config_address_scaled(bus, device, function, 0) == pci_config_address(
            bus,
            device,
            function,
            0,
        ),
{
    let high = 0x8000_0000u32 | ((bus as u32) << 16) | ((device as u32) << 11) | ((function as u32)
        << 8);
    assert((high | 0u32) == (high | (0u32 & 0xfc))) by (bit_vector);
}

/// The word of a configuration double word is its low half for an offset
/// whose bit 1 is clear, and its high half otherwise.
pub proof fn lemma_config_word_halves(data: u32, offset: u8)
    ensures
        pci_word(data, offset) == if offset % 4 < 2 {
            data % 0x1_0000
        } else {
            data / 0x1_0000
        },
{
    let o = offset as u32;
    assert(o < 256 ==> (((data >> (((o & 2) * 8) as u32)) & 0xffff) == if o % 4 < 2 {
        data % 0x1_0000
    } else {
        data / 0x1_0000
    })) by (bit_vector);
}

/// How far the reading of a configuration word has come.
#[derive(Clone, Copy, Debug, PartialEq, Eq, Structural)]
pub enum PciStage {
    /// The configuration address is to be written to the address port.
    Select,
    /// The data port is to be read.
    Fetch,
    /// The word has been read.
    Done(u16),
    /// An exchange failed.
    Failed(Error),
}

/// The reading of one configuration word: the address to select, the offset
/// of the word, and the stage reached.
#[derive(Clone, Copy, Debug, PartialEq, Eq, Structural)]
pub struct PciWordRead {
    pub address: u32,
    pub offset: u8,
    pub stage: PciStage,
}

impl PciWordRead {
    /// The reading of the word at `offset` in the configuration space of a
    /// function of a device on a bus, before its first exchange.
    pub open spec fn begin(bus: u8, device: u8, function: u8, offset: u8) -> PciWordRead {
        PciWordRead {
            address: pci_config_address(bus, device, function, offset),
            offset,
            stage: PciStage::Select,
        }
    }

    /// The exchange to perform now over the channel with the given handle,
    /// if one is left.
    pub open spec fn pending(self, handle: u64) -> Option<ExchangeView> {
        match self.stage {
            PciStage::Select => Some(
                out_exchange(handle, IO_PORT_PCI_CONFIG_ADDRESS, PortWidth::Dword, self.address),
            ),
            PciStage::Fetch => Some(in_exchange(handle, IO_PORT_PCI_CONFIG_DATA, PortWidth::Dword)),
            _ => None,
        }
    }

    /// The reading after the pending exchange completed: once the address
    /// is written the data port is read, and the double word that comes
    /// back gives the word. An exchange that fails ends the reading.
    pub open spec fn after(self, completion: CompletionView) -> PciWordRead {
        match self.stage {
            PciStage::Select => match empty_result(completion) {
                Ok(_) => PciWordRead { stage: PciStage::Fetch, ..self },
                Err(error) => PciWordRead { stage: PciStage::Failed(error), ..self },
            },
            PciStage::Fetch => match number_result(4, completion) {
                Ok(data) => PciWordRead {
                    stage: PciStage::Done(pci_word(data as u32, self.offset)),
                    ..self
                },
                Err(error) => PciWordRead { stage: PciStage::Failed(error), ..self },
            },
            _ => self,
        }
    }

    /// The word or the error that the reading ended with, once it has
    /// ended.
    pub open spec fn outcome(self) -> Option<Result<u16, Error>> {
        match self.stage {
            PciStage::Done(word) => Some(Ok(word)),
            PciStage::Failed(error) => Some(Err(error)),
            _ => None,
        }
    }

    /// The exchange to perform now, if one is left.
    pub fn exchange(&self, cpu: &CpuInterface) -> (exchange: Option<Exchange>)
        requires
            cpu.wr.is_ready(),
        ensures
            match exchange {
                Some(e) => self.pending(cpu.wr.spec_handle()) == Some(e@),
                None => self.pending(cpu.wr.spec_handle()) is None,
            },
    {
        match self.stage {
            PciStage::Select => Some(cpu.out32(IO_PORT_PCI_CONFIG_ADDRESS, self.address)),
            PciStage::Fetch => Some(cpu.in32(IO_PORT_PCI_CONFIG_DATA)),
            _ => None,
        }
    }

    /// Takes in what the pending exchange brought back.
    pub fn advance(&mut self, completion: &Completion)
        ensures
            *final(self) == old(self).after(completion@),
    {
        match self.stage {
            PciStage::Select => {
                match CpuInterface::out_reply(completion) {
                    Ok(_) => {
                        self.stage = PciStage::Fetch;
                    },
                    Err(error) => {
                        self.stage = PciStage::Failed(error);
                    },
                }
            },
            PciStage::Fetch => {
                match CpuInterface::in32_reply(completion) {
                    Ok(data) => {
                        self.stage = PciStage::Done(config_word(data, self.offset));
                    },
                    Err(error) => {
                        self.stage = PciStage::Failed(error);
                    },
                }
            },
            _ => {},
        }
    }

    /// The word or the error that the reading ended with, once it has
    /// ended.
    pub fn result(&self) -> (result: Option<Result<u16, Error>>)
        ensures
            result == self.outcome(),
    {
        match self.stage {
            PciStage::Done(word) => Some(Ok(word)),
            PciStage::Failed(error) => Some(Err(error)),
            _ => None,
        }
    }
}

/// A reading takes two exchanges: it first writes the configuration address
/// to the address port, then reads the data port, and when both succeed and
/// the second brings a double word, it ends with the word of that double
/// word that the offset selects. A failure of either exchange is the
/// reading's error, and after a failed first exchange no second one is
/// asked for.
pub proof fn lemma_pci_word_read(
    handle: u64,
    bus: u8,
    device: u8,
    function: u8,
    offset: u8,
    select: CompletionView,
    fetch: CompletionView,
)
    ensures
        ({
            let start = PciWordRead::begin(bus, device, function, offset);
            let address = pci_config_address(bus, device, function, offset);
            &&& start.pending(handle) == Some(
                out_exchange(handle, IO_PORT_PCI_CONFIG_ADDRESS, PortWidth::Dword, address),
            )
            &&& match empty_result(select) {
                Ok(_) => {
                    &&& start.after(select).pending(handle) == Some(
                        in_exchange(handle, IO_PORT_PCI_CONFIG_DATA, PortWidth::Dword),
                    )
                    &&& start.after(select).after(fetch).pending(handle) is None
                    &&& start.after(select).after(fetch).outcome() == Some(
                        match number_result(4, fetch) {
                            Ok(data) => Ok(pci_word(data as u32, offset)),
                            Err(error) => Err(error),
                        },
                    )
                },
                Err(error) => {
                    &&& start.after(select).pending(handle) is None
                    &&& start.after(select).outcome() == Some(Err::<u16, Error>(error))
                },
            }
        }),
{
}

/// The operations that a caller has on the hardware, over a session with the
/// driver.
pub struct CpuInterface {
    pub wr: WinRing0,
}

impl CpuInterface {
    /// An interface over a new session.
    pub fn new() -> (cpu: Self)
        ensures
            cpu.wr@ == crate::win_ring::SessionView::initial(),
    {
        let wr: WinRing0 = WinRing0::new();
        CpuInterface { wr }
    }

    /// The exchange that reads a byte from the port `address`.
    pub fn in8(&self, address: u16) -> (exchange: Exchange)
        requires
            self.wr.is_ready(),
        ensures
            exchange@ == in_exchange(self.wr.spec_handle(), address, PortWidth::Byte),
    {
        self.wr.in8(address)
    }

    /// The byte that a port read brought back.
    pub fn in8_reply(completion: &Completion) -> (result: Result<u8, Error>)
        ensures
            match result {
                Ok(value) => number_result(1, completion@) == Ok::<nat, Error>(value as nat),
                Err(error) => number_result(1, completion@) == Err::<nat, Error>(error),
            },
    {
        WinRing0::in8_reply(completion)
    }

    /// The exchange that reads a word from the port `address`.
    pub fn in16(&self, address: u16) -> (exchange: Exchange)
        requires
            self.wr.is_ready(),
        ensures
            exchange@ == in_exchange(self.wr.spec_handle(), address, PortWidth::Word),
    {
        self.wr.in16(address)
    }

    /// The word that a port read brought back.
    pub fn in16_reply(completion: &Completion) -> (result: Result<u16, Error>)
        ensures
            match result {
                Ok(value) => number_result(2, completion@) == Ok::<nat, Error>(value as nat),
                Err(error) => number_result(2, completion@) == Err::<nat, Error>(error),
            },
    {
        WinRing0::in16_reply(completion)
    }

    /// The exchange that reads a double word from the port `address`.
    pub fn in32(&self, address: u16) -> (exchange: Exchange)
        requires
            self.wr.is_ready(),
        ensures
            exchange@ == in_exchange(self.wr.spec_handle(), address, PortWidth::Dword),
    {
        self.wr.in32(address)
    }

    /// The double word that a port read brought back.
    pub fn in32_reply(completion: &Completion) -> (result: Result<u32, Error>)
        ensures
            match result {
                Ok(value) => number_result(4, completion@) == Ok::<nat, Error>(value as nat),
                Err(error) => number_result(4, completion@) == Err::<nat, Error>(error),
            },
    {
        WinRing0::in32_reply(completion)
    }

    /// The exchange that writes the byte `value` to the port `address`.
    pub fn out8(&self, address: u16, value: u8) -> (exchange: Exchange)
        requires
            self.wr.is_ready(),
        ensures
            exchange@ == out_exchange(
                self.wr.spec_handle(),
                address,
                PortWidth::Byte,
                value as u32,
            ),
    {
        self.wr.out8(address, value)
    }

    /// The exchange that writes the word `value` to the port `address`.
    pub fn out16(&self, address: u16, value: u16) -> (exchange: Exchange)
        requires
            self.wr.is_ready(),
        ensures
            exchange@ == out_exchange(
                self.wr.spec_handle(),
                address,
                PortWidth::Word,
                value as u32,
            ),
    {
        self.wr.out16(address, value)
    }

    /// The exchange that writes the double word `value` to the port
    /// `address`.
    pub fn out32(&self, address: u16, value: u32) -> (exchange: Exchange)
        requires
            self.wr.is_ready(),
        ensures
            exchange@ == out_exchange(self.wr.spec_handle(), address, PortWidth::Dword, value),
    {
        self.wr.out32(address, value)
    }

    /// Whether a port write went through.
    pub fn out_reply(completion: &Completion) -> (result: Result<(), Error>)
        ensures
            result == empty_result(completion@),
    {
        WinRing0::out_reply(completion)
    }

    /// The exchange that reads the model-specific register `address`.
    pub fn read_msr(&self, address: u32) -> (exchange: Exchange)
        requires
            self.wr.is_ready(),
        ensures
            exchange@ == read_msr_exchange(self.wr.spec_handle(), address),
    {
        self.wr.read_msr(address)
    }

    /// The value that an MSR read brought back.
    pub fn read_msr_reply(completion: &Completion) -> (result: Result<u64, Error>)
        ensures
            match result {
                Ok(value) => number_result(8, completion@) == Ok::<nat, Error>(value as nat),
                Err(error) => number_result(8, completion@) == Err::<nat, Error>(error),
            },
    {
        WinRing0::read_msr_reply(completion)
    }

    /// The exchange that writes `value` to the model-specific register
    /// `address`.
    pub fn write_msr(&self, address: u32, value: u64) -> (exchange: Exchange)
        requires
            self.wr.is_ready(),
        ensures
            exchange@ == write_msr_exchange(self.wr.spec_handle(), address, value),
    {
        self.wr.write_msr(address, value)
    }

    /// Whether an MSR write went through.
    pub fn write_msr_reply(completion: &Completion) -> (result: Result<(), Error>)
        ensures
            result == empty_result(completion@),
    {
        WinRing0::write_msr_reply(completion)
    }

    /// Begins the reading of the configuration word at `offset` of a
    /// function of a device on a bus. The exchanges to perform come from the
    /// reading that is returned.
    pub fn read_pci_word(&self, bus: u8, device: u8, function: u8, offset: u8) -> (reading:
        PciWordRead)
        ensures
            reading == PciWordRead::begin(bus, device, function, offset),
    {
        PciWordRead {
            address: config_address(bus, device, function, offset),
            offset,
            stage: PciStage::Select,
        }
    }
}

} // verus!
