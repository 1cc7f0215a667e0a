//! A driver in memory.
//!
//! [`SimulatedPeer`] answers exchanges as the driver would, on memory,
//! registers and ports of its own: it reads each request back from its
//! bytes, carries it out on its state and answers in the layout that the
//! operation calls for. It stands in for the driver wherever the real one
//! cannot be had, and it is the model against which the operations of a
//! session are shown to do what they are for.

use std::collections::HashMap;
use vstd::prelude::*;
use crate::channel::{Completion, CompletionView, Exchange, ExchangeView};
use crate::protocol::{
    MemoryRequest, MemoryRequestView, MsrRequest, Opcode, PortInRequest, PortOutRequest, PortWidth,
};
use crate::wire::{le_bytes, lemma_le_bytes_len, put_le};

verus! {

/// The address `index` bytes after `address`, in an address space that wraps
/// around at its end.
pub open spec fn nth_address(address: u64, index: int) -> u64 {
    ((address + index) % 0x1_0000_0000_0000_0000) as u64
}

/// How many bytes after `from` the address `to` lies, going around the end
/// of the address space if `to` is the smaller.
pub open spec fn distance(from: u64, to: u64) -> int {
    if to >= from {
        to - from
    } else {
        to - from + 0x1_0000_0000_0000_0000
    }
}

/// The state of a simulated driver, as contracts see it. A byte, register
/// or port that was never written holds 0.
pub struct PeerState {
    pub memory: Map<u64, u8>,
    pub msrs: Map<u32, u64>,
    pub ports: Map<u16, u32>,
    pub transfer_limit: u32,
}

impl PeerState {
    /// A driver on which nothing was written and which answers reads in
    /// full.
    pub open spec fn initial() -> PeerState {
        PeerState {
            memory: Map::empty(),
            msrs: Map::empty(),
            ports: Map::empty(),
            transfer_limit: u32::MAX,
        }
    }

    /// The byte at `address`.
    pub open spec fn byte(self, address: u64) -> u8 {
        if self.memory.contains_key(address) {
            self.memory[address]
        } else {
            0
        }
    }

    /// The value of the register `index`.
    pub open spec fn msr(self, index: u32) -> u64 {
        if self.msrs.contains_key(index) {
            self.msrs[index]
        } else {
            0
        }
    }

    /// The value last written to the port `address`.
    pub open spec fn port(self, address: u16) -> u32 {
        if self.ports.contains_key(address) {
            self.ports[address]
        } else {
            0
        }
    }

    /// The `count` bytes from `address` on.
    pub open spec fn bytes(self, address: u64, count: nat) -> Seq<u8> {
        Seq::new(count, |i: int| self.byte(nth_address(address, i)))
    }

    /// The memory after `data` was written from `address` on.
    pub open spec fn written(self, address: u64, data: Seq<u8>) -> Map<u64, u8> {
        Map::new(
            |a: u64| self.memory.contains_key(a) || distance(address, a) < data.len(),
            |a: u64|
                if distance(address, a) < data.len() {
                    data[distance(address, a)]
                } else {
                    self.memory[a]
                },
        )
    }

    /// How many bytes a read of `count` bytes transfers into a buffer of
    /// `capacity` bytes: as many as asked for, unless the buffer or the
    /// driver's limit is smaller.
    pub open spec fn transfer(self, count: u32, capacity: u32) -> u32 {
        if count <= capacity && count <= self.transfer_limit {
            count
        } else if capacity <= self.transfer_limit {
            capacity
        } else {
            self.transfer_limit
        }
    }

    /// The driver's state and answer after an exchange with the given
    /// control code, request and capacity.
    ///
    /// An unknown code, a request that is not in the layout of its
    /// operation, a memory request with elements other than bytes, a write
    /// whose payload is not as long as announced, and a register or port
    /// read into too small a buffer all fail and change nothing.
    pub open spec fn respond(self, code: u32, request: Seq<u8>, capacity: u32) -> (
        PeerState,
        CompletionView,
    ) {
        match Opcode::of_code(code) {
            None => (self, refusal()),
            Some(Opcode::ReadMemory) => match MemoryRequestView::parse(request) {
                Some(r) => if r.element_size == 1 && r.payload.len() == 0 {
                    let count = self.transfer(r.element_count, capacity);
                    (self, reply(self.bytes(r.address, count as nat)))
                } else {
                    (self, refusal())
                },
                None => (self, refusal()),
            },
            Some(Opcode::WriteMemory) => match MemoryRequestView::parse(request) {
                Some(r) => if r.element_size == 1 && r.payload.len() == r.element_count {
                    (
                        PeerState { memory: self.written(r.address, r.payload), ..self },
                        reply(Seq::empty()),
                    )
                } else {
                    (self, refusal())
                },
                None => (self, refusal()),
            },
            Some(Opcode::ReadMsr) => match MsrRequest::parse(request) {
                Some(r) => if capacity >= 8 {
                    (self, reply(le_bytes(self.msr(r.index) as nat, 8)))
                } else {
                    (self, refusal())
                },
                None => (self, refusal()),
            },
            Some(Opcode::WriteMsr) => match MsrRequest::parse(request) {
                Some(r) => (
                    PeerState { msrs: self.msrs.insert(r.index, r.value), ..self },
                    reply(Seq::empty()),
                ),
                None => (self, refusal()),
            },
            Some(Opcode::In8) => self.respond_in(PortWidth::Byte, request, capacity),
            Some(Opcode::In16) => self.respond_in(PortWidth::Word, request, capacity),
            Some(Opcode::In32) => self.respond_in(PortWidth::Dword, request, capacity),
            Some(Opcode::Out8) => self.respond_out(PortWidth::Byte, request),
            Some(Opcode::Out16) => self.respond_out(PortWidth::Word, request),
            Some(Opcode::Out32) => self.respond_out(PortWidth::Dword, request),
        }
    }

    /// The answer to a port read: the low bytes of the value last written
    /// to the port, as many as the width has.
    pub open spec fn respond_in(self, width: PortWidth, request: Seq<u8>, capacity: u32) -> (
        PeerState,
        CompletionView,
    ) {
        match PortInRequest::parse(request) {
            Some(r) => if capacity >= width.spec_bytes() {
                (self, reply(le_bytes(self.port(r.address) as nat, width.spec_bytes() as nat)))
            } else {
                (self, refusal())
            },
            None => (self, refusal()),
        }
    }

    /// The state after a port write: the port holds the value written.
    pub open spec fn respond_out(self, width: PortWidth, request: Seq<u8>) -> (
        PeerState,
        CompletionView,
    ) {
        match PortOutRequest::parse(width, request) {
            Some(r) => (
                PeerState { ports: self.ports.insert(r.address, r.value), ..self },
                reply(Seq::empty()),
            ),
            None => (self, refusal()),
        }
    }

    /// The driver's state and answer after `exchange`.
    pub open spec fn exchanged(self, exchange: ExchangeView) -> (PeerState, CompletionView) {
        self.respond(exchange.opcode.spec_code(), exchange.request, exchange.capacity)
    }
}

/// A failed exchange.
pub open spec fn refusal() -> CompletionView {
    CompletionView { succeeded: false, buffer: Seq::empty(), transferred: 0 }
}

/// A successful exchange that transferred `bytes`.
pub open spec fn reply(bytes: Seq<u8>) -> CompletionView {
    CompletionView { succeeded: true, buffer: bytes, transferred: bytes.len() as u32 }
}

/// A driver in memory.
pub struct SimulatedPeer {
    memory: HashMap<u64, u8>,
    msrs: HashMap<u32, u64>,
    ports: HashMap<u16, u32>,
    transfer_limit: u32,
}

impl View for SimulatedPeer {
    type V = PeerState;

    closed spec fn view(&self) -> PeerState {
        PeerState {
            memory: self.memory@,
            msrs: self.msrs@,
            ports: self.ports@,
            transfer_limit: self.transfer_limit,
        }
    }
}

fn refuse() -> (completion: Completion)
    ensures
        completion@ == refusal(),
{
    Completion { succeeded: false, buffer: Vec::new(), transferred: 0 }
}

fn answer_with(buffer: Vec<u8>) -> (completion: Completion)
    requires
        buffer@.len() <= u32::MAX,
    ensures
        completion@ == reply(buffer@),
{
    let transferred: u32 = buffer.len() as u32;
    Completion { succeeded: true, buffer, transferred }
}

/// Computes [`nth_address`].
pub fn address_after(address: u64, index: u32) -> (result: u64)
    ensures
        result == nth_address(address, index as int),
{
    let room: u64 = u64::MAX - address;
    if index as u64 <= room {
        address + index as u64
    } else {
        index as u64 - room - 1
    }
}

impl SimulatedPeer {
    /// A driver on which nothing was written and which answers reads in
    /// full.
    pub fn new() -> (peer: Self)
        ensures
            peer@ == PeerState::initial(),
    {
        SimulatedPeer {
            memory: HashMap::new(),
            msrs: HashMap::new(),
            ports: HashMap::new(),
            transfer_limit: u32::MAX,
        }
    }

    /// Makes the driver transfer at most `limit` bytes for a memory read.
    pub fn set_transfer_limit(&mut self, limit: u32)
        ensures
            final(self)@ == (PeerState { transfer_limit: limit, ..old(self)@ }),
    {
        self.transfer_limit = limit;
    }

    /// The byte at `address`.
    pub fn byte(&self, address: u64) -> (value: u8)
        ensures
            value == self@.byte(address),
    {
        match self.memory.get(&address) {
            Some(value) => *value,
            None => 0,
        }
    }

    /// The value of the register `index`.
    pub fn msr(&self, index: u32) -> (value: u64)
        ensures
            value == self@.msr(index),
    {
        match self.msrs.get(&index) {
            Some(value) => *value,
            None => 0,
        }
    }

    /// The value last written to the port `address`.
    pub fn port(&self, address: u16) -> (value: u32)
        ensures
            value == self@.port(address),
    {
        match self.ports.get(&address) {
            Some(value) => *value,
            None => 0,
        }
    }

    /// Carries out `exchange` and answers it.
    pub fn issue(&mut self, exchange: &Exchange) -> (completion: Completion)
        ensures
            (final(self)@, completion@) == old(self)@.exchanged(exchange@),
    {
        self.respond(exchange.opcode.code(), exchange.request.as_slice(), exchange.capacity)
    }

    /// Carries out the exchange with the given control code, request and
    /// capacity, and answers it.
    pub fn respond(&mut self, code: u32, request: &[u8], capacity: u32) -> (completion: Completion)
        ensures
            (final(self)@, completion@) == old(self)@.respond(code, request@, capacity),
    {
        match Opcode::from_code(code) {
            None => refuse(),
            Some(Opcode::ReadMemory) => self.read_memory(request, capacity),
            Some(Opcode::WriteMemory) => self.write_memory(request),
            Some(Opcode::ReadMsr) => {
                match MsrRequest::decode(request) {
                    Some(r) => {
                        if capacity >= 8 {
                            let mut buffer: Vec<u8> = Vec::new();
                            put_le(&mut buffer, self.msr(r.index), 8);
                            proof {
                                lemma_le_bytes_len(self@.msr(r.index) as nat, 8);
                                assert(buffer@ =~= le_bytes(self@.msr(r.index) as nat, 8));
                            }
                            answer_with(buffer)
                        } else {
                            refuse()
                        }
                    },
                    None => refuse(),
                }
            },
            Some(Opcode::WriteMsr) => {
                match MsrRequest::decode(request) {
                    Some(r) => {
                        self.msrs.insert(r.index, r.value);
                        answer_with(Vec::new())
                    },
                    None => refuse(),
                }
            },
            Some(Opcode::In8) => self.port_in(PortWidth::Byte, request, capacity),
            Some(Opcode::In16) => self.port_in(PortWidth::Word, request, capacity),
            Some(Opcode::In32) => self.port_in(PortWidth::Dword, request, capacity),
            Some(Opcode::Out8) => self.port_out(PortWidth::Byte, request),
            Some(Opcode::Out16) => self.port_out(PortWidth::Word, request),
            Some(Opcode::Out32) => self.port_out(PortWidth::Dword, request),
        }
    }

    fn read_memory(&self, request: &[u8], capacity: u32) -> (completion: Completion)
        ensures
            (self@, completion@) == self@.respond(Opcode::ReadMemory.spec_code(), request@, capacity),
    {
        match MemoryRequest::decode(request) {
            Some(r) => {
                if r.element_size != 1 || r.payload.len() != 0 {
                    return refuse();
                }
                let mut count: u32 = r.element_count;
                if capacity < count {
                    count = capacity;
                }
                if self.transfer_limit < count {
                    count = self.transfer_limit;
                }
                let mut buffer: Vec<u8> = Vec::new();
                let mut i: u32 = 0;
                while i < count
                    invariant
                        i <= count,
                        buffer@ == self@.bytes(r.address, i as nat),
                    decreases count - i,
                {
                    buffer.push(self.byte(address_after(r.address, i)));
                    i += 1;
                    proof {
                        assert(buffer@ =~= self@.bytes(r.address, i as nat));
                    }
                }
                answer_with(buffer)
            },
            None => refuse(),
        }
    }

    fn write_memory(&mut self, request: &[u8]) -> (completion: Completion)
        ensures
            (final(self)@, completion@) == old(self)@.respond(
                Opcode::WriteMemory.spec_code(),
                request@,
                0,
            ),
    {
        match MemoryRequest::decode(request) {
            Some(r) => {
                if r.element_size != 1 || r.payload.len() != r.element_count as usize {
                    return refuse();
                }
                let count: u32 = r.element_count;
                let mut i: u32 = 0;
                proof {
                    assert(self.memory@ =~= old(self)@.written(r.address, r.payload@.take(0)));
                }
                while i < count
                    invariant
                        i <= count == r.payload@.len(),
                        self.memory@ == old(self)@.written(r.address, r.payload@.take(i as int)),
                        self.msrs == old(self).msrs,
                        self.ports == old(self).ports,
                        self.transfer_limit == old(self).transfer_limit,
                    decreases count - i,
                {
                    self.memory.insert(address_after(r.address, i), r.payload[i as usize]);
                    i += 1;
                    proof {
                        assert(self.memory@ =~= old(self)@.written(
                            r.address,
                            r.payload@.take(i as int),
                        ));
                    }
                }
                proof {
                    assert(r.payload@.take(count as int) =~= r.payload@);
                }
                answer_with(Vec::new())
            },
            None => refuse(),
        }
    }

    fn port_in(&self, width: PortWidth, request: &[u8], capacity: u32) -> (completion: Completion)
        ensures
            (self@, completion@) == self@.respond_in(width, request@, capacity),
    {
        match PortInRequest::decode(request) {
            Some(r) => {
                if capacity as usize >= width.bytes() {
                    let mut buffer: Vec<u8> = Vec::new();
                    put_le(&mut buffer, self.port(r.address) as u64, width.bytes());
                    proof {
                        let bytes = le_bytes(
                            self@.port(r.address) as nat,
                            width.spec_bytes() as nat,
                        );
                        lemma_le_bytes_len(self@.port(r.address) as nat, width.spec_bytes() as nat);
                        assert(buffer@ =~= bytes);
                    }
                    answer_with(buffer)
                } else {
                    refuse()
                }
            },
            None => refuse(),
        }
    }

    fn port_out(&mut self, width: PortWidth, request: &[u8]) -> (completion: Completion)
        ensures
            (final(self)@, completion@) == old(self)@.respond_out(width, request@),
    {
        match PortOutRequest::decode(width, request) {
            Some(r) => {
                self.ports.insert(r.address, r.value);
                answer_with(Vec::new())
            },
            None => refuse(),
        }
    }
}

} // verus!
