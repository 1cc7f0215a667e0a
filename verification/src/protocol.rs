//! The requests that the driver understands and their layout on the wire.
//!
//! Every request is a packed sequence of little-endian fields: no padding
//! stands between them, whatever their widths. The layouts are given as
//! functions from a request to its bytes, and each has an inverse that reads
//! the fields back, so that a request and its bytes determine one another.

use vstd::prelude::*;
use crate::wire::{
    get_le, le_bytes, le_value, lemma_le_bytes_len, lemma_le_bytes_of_value, lemma_le_value_bound,
    lemma_le_value_of_bytes, lemma_pow256_widths, pow256, put_le,
};

verus! {

/// The operations of the driver.
#[derive(Clone, Copy, Debug, PartialEq, Eq, Structural)]
pub enum Opcode {
    /// Read physical memory.
    ReadMemory,
    /// Write physical memory.
    WriteMemory,
    /// Read a model-specific register.
    ReadMsr,
    /// Write a model-specific register.
    WriteMsr,
    /// Read a byte from an I/O port.
    In8,
    /// Read a word from an I/O port.
    In16,
    /// Read a double word from an I/O port.
    In32,
    /// Write a byte to an I/O port.
    Out8,
    /// Write a word to an I/O port.
    Out16,
    /// Write a double word to an I/O port.
    Out32,
}

impl Opcode {
    /// The control code that selects the operation.
    pub open spec fn spec_code(self) -> u32 {
        match self {
            Opcode::ReadMemory => 0x9C40_6104,
            Opcode::WriteMemory => 0x9C40_A108,
            Opcode::ReadMsr => 0x9C40_2084,
            Opcode::WriteMsr => 0x9C40_2088,
            Opcode::In8 => 0x9C40_60CC,
            Opcode::In16 => 0x9C40_60D0,
            Opcode::In32 => 0x9C40_60D4,
            Opcode::Out8 => 0x9C40_A0D8,
            Opcode::Out16 => 0x9C40_A0DC,
            Opcode::Out32 => 0x9C40_A0E0,
        }
    }

    /// The control code that selects the operation.
    #[verifier::when_used_as_spec(spec_code)]
    pub fn code(self) -> (code: u32)
        ensures
            code == self.spec_code(),
    {
        match self {
            Opcode::ReadMemory => 0x9C40_6104,
            Opcode::WriteMemory => 0x9C40_A108,
            Opcode::ReadMsr => 0x9C40_2084,
            Opcode::WriteMsr => 0x9C40_2088,
            Opcode::In8 => 0x9C40_60CC,
            Opcode::In16 => 0x9C40_60D0,
            Opcode::In32 => 0x9C40_60D4,
            Opcode::Out8 => 0x9C40_A0D8,
            Opcode::Out16 => 0x9C40_A0DC,
            Opcode::Out32 => 0x9C40_A0E0,
        }
    }

    /// The operation that `code` selects, if it selects one.
    pub open spec fn of_code(code: u32) -> Option<Opcode> {
        if code == 0x9C40_6104 {
            Some(Opcode::ReadMemory)
        } else if code == 0x9C40_A108 {
            Some(Opcode::WriteMemory)
        } else if code == 0x9C40_2084 {
            Some(Opcode::ReadMsr)
        } else if code == 0x9C40_2088 {
            Some(Opcode::WriteMsr)
        } else if code == 0x9C40_60CC {
            Some(Opcode::In8)
        } else if code == 0x9C40_60D0 {
            Some(Opcode::In16)
        } else if code == 0x9C40_60D4 {
            Some(Opcode::In32)
        } else if code == 0x9C40_A0D8 {
            Some(Opcode::Out8)
        } else if code == 0x9C40_A0DC {
            Some(Opcode::Out16)
        } else if code == 0x9C40_A0E0 {
            Some(Opcode::Out32)
        } else {
            None
        }
    }

    /// The operation that `code` selects, if it selects one.
    pub fn from_code(code: u32) -> (opcode: Option<Opcode>)
        ensures
            opcode == Opcode::of_code(code),
            match opcode {
                Some(op) => op.spec_code() == code,
                None => forall|op: Opcode| op.spec_code() != code,
            },
    {
        if code == 0x9C40_6104 {
            Some(Opcode::ReadMemory)
        } else if code == 0x9C40_A108 {
            Some(Opcode::WriteMemory)
        } else if code == 0x9C40_2084 {
            Some(Opcode::ReadMsr)
        } else if code == 0x9C40_2088 {
            Some(Opcode::WriteMsr)
        } else if code == 0x9C40_60CC {
            Some(Opcode::In8)
        } else if code == 0x9C40_60D0 {
            Some(Opcode::In16)
        } else if code == 0x9C40_60D4 {
            Some(Opcode::In32)
        } else if code == 0x9C40_A0D8 {
            Some(Opcode::Out8)
        } else if code == 0x9C40_A0DC {
            Some(Opcode::Out16)
        } else if code == 0x9C40_A0E0 {
            Some(Opcode::Out32)
        } else {
            None
        }
    }

    /// The operation that reads a port at the given width.
    pub open spec fn spec_port_in(width: PortWidth) -> Opcode {
        match width {
            PortWidth::Byte => Opcode::In8,
            PortWidth::Word => Opcode::In16,
            PortWidth::Dword => Opcode::In32,
        }
    }

    /// The operation that reads a port at the given width.
    #[verifier::when_used_as_spec(spec_port_in)]
    pub fn port_in(width: PortWidth) -> (opcode: Opcode)
        ensures
            opcode == Opcode::spec_port_in(width),
    {
        match width {
            PortWidth::Byte => Opcode::In8,
            PortWidth::Word => Opcode::In16,
            PortWidth::Dword => Opcode::In32,
        }
    }

    /// The operation that writes a port at the given width.
    pub open spec fn spec_port_out(width: PortWidth) -> Opcode {
        match width {
            PortWidth::Byte => Opcode::Out8,
            PortWidth::Word => Opcode::Out16,
            PortWidth::Dword => Opcode::Out32,
        }
    }

    /// The operation that writes a port at the given width.
    #[verifier::when_used_as_spec(spec_port_out)]
    pub fn port_out(width: PortWidth) -> (opcode: Opcode)
        ensures
            opcode == Opcode::spec_port_out(width),
    {
        match width {
            PortWidth::Byte => Opcode::Out8,
            PortWidth::Word => Opcode::Out16,
            PortWidth::Dword => Opcode::Out32,
        }
    }
}

/// No two operations share a control code.
pub proof fn lemma_codes_distinct(a: Opcode, b: Opcode)
    ensures
        a.spec_code() == b.spec_code() ==> a == b,
        Opcode::of_code(a.spec_code()) == Some(a),
{
}

/// The width of a port access.
#[derive(Clone, Copy, Debug, PartialEq, Eq, Structural)]
pub enum PortWidth {
    /// 8 bits.
    Byte,
    /// 16 bits.
    Word,
    /// 32 bits.
    Dword,
}

impl PortWidth {
    /// The width in bytes.
    pub open spec fn spec_bytes(self) -> usize {
        match self {
            PortWidth::Byte => 1,
            PortWidth::Word => 2,
            PortWidth::Dword => 4,
        }
    }

    /// The width in bytes.
    #[verifier::when_used_as_spec(spec_bytes)]
    pub fn bytes(self) -> (bytes: usize)
        ensures
            bytes == self.spec_bytes(),
    {
        match self {
            PortWidth::Byte => 1,
            PortWidth::Word => 2,
            PortWidth::Dword => 4,
        }
    }

    /// The largest value that the width can carry.
    pub open spec fn spec_max(self) -> u32 {
        match self {
            PortWidth::Byte => 0xFF,
            PortWidth::Word => 0xFFFF,
            PortWidth::Dword => 0xFFFF_FFFF,
        }
    }

    /// The largest value that the width can carry.
    #[verifier::when_used_as_spec(spec_max)]
    pub fn max(self) -> (max: u32)
        ensures
            max == self.spec_max(),
            max as nat + 1 == pow256(self.spec_bytes() as nat),
    {
        proof {
            lemma_pow256_widths();
        }
        match self {
            PortWidth::Byte => 0xFF,
            PortWidth::Word => 0xFFFF,
            PortWidth::Dword => 0xFFFF_FFFF,
        }
    }
}

/// The length of the fixed part of a memory request.
pub const MEMORY_HEADER_LEN: usize = 16;

/// The length of an MSR request.
pub const MSR_REQUEST_LEN: usize = 12;

/// The length of a port-read request.
pub const PORT_IN_REQUEST_LEN: usize = 4;

/// The most bytes that one memory write can carry: a request, header
/// included, is at most `u32::MAX` bytes long.
pub const MAX_WRITE_LEN: u32 = 0xFFFF_FFEF;

/// Appends `data` to `buf`.
pub fn put_bytes(buf: &mut Vec<u8>, data: &[u8])
    requires
        old(buf)@.len() + data@.len() <= usize::MAX,
    ensures
        final(buf)@ == old(buf)@ + data@,
{
    let len: usize = data.len();
    let mut i: usize = 0;
    while i < len
        invariant
            i <= len == data@.len(),
            buf@ == old(buf)@ + data@.take(i as int),
        decreases len - i,
    {
        buf.push(data[i]);
        i += 1;
        proof {
            assert(buf@ =~= old(buf)@ + data@.take(i as int));
        }
    }
    proof {
        assert(data@.take(len as int) =~= data@);
    }
}

/// A request to read or to write physical memory, as contracts see it.
pub struct MemoryRequestView {
    pub address: u64,
    pub element_size: u32,
    pub element_count: u32,
    pub payload: Seq<u8>,
}

impl MemoryRequestView {
    /// The request on the wire: the address in eight bytes, the element size
    /// and the element count in four bytes each, then the payload.
    pub open spec fn wire(self) -> Seq<u8> {
        le_bytes(self.address as nat, 8) + le_bytes(self.element_size as nat, 4) + le_bytes(
            self.element_count as nat,
            4,
        ) + self.payload
    }

    /// The request that `bytes` carry, if they are long enough to carry one:
    /// what follows the three fixed fields is the payload.
    pub open spec fn parse(bytes: Seq<u8>) -> Option<MemoryRequestView> {
        if bytes.len() >= 16 {
            Some(
                MemoryRequestView {
                    address: le_value(bytes.subrange(0, 8)) as u64,
                    element_size: le_value(bytes.subrange(8, 12)) as u32,
                    element_count: le_value(bytes.subrange(12, 16)) as u32,
                    payload: bytes.skip(16),
                },
            )
        } else {
            None
        }
    }

    /// A request to read `count` bytes from `address`.
    pub open spec fn read(address: u64, count: u32) -> MemoryRequestView {
        MemoryRequestView { address, element_size: 1, element_count: count, payload: Seq::empty() }
    }

    /// A request to write `data` at `address`.
    pub open spec fn write(address: u64, data: Seq<u8>) -> MemoryRequestView {
        MemoryRequestView {
            address,
            element_size: 1,
            element_count: data.len() as u32,
            payload: data,
        }
    }
}

/// A request to read or to write physical memory.
///
/// Memory is addressed by bytes: the element size is 1 in every request that
/// this library builds, and the element count is the number of bytes. A read
/// carries no payload; a write carries the bytes to write, as many as the
/// element count says.
#[derive(Debug)]
pub struct MemoryRequest {
    pub address: u64,
    pub element_size: u32,
    pub element_count: u32,
    pub payload: Vec<u8>,
}

impl View for MemoryRequest {
    type V = MemoryRequestView;

    open spec fn view(&self) -> MemoryRequestView {
        MemoryRequestView {
            address: self.address,
            element_size: self.element_size,
            element_count: self.element_count,
            payload: self.payload@,
        }
    }
}

impl MemoryRequest {
    /// A request to read `count` bytes from `address`.
    pub fn read(address: u64, count: u32) -> (request: Self)
        ensures
            request@ == MemoryRequestView::read(address, count),
    {
        MemoryRequest { address, element_size: 1, element_count: count, payload: Vec::new() }
    }

    /// A request to write `data` at `address`.
    pub fn write(address: u64, data: &[u8]) -> (request: Self)
        requires
            data@.len() <= MAX_WRITE_LEN,
        ensures
            request@ == MemoryRequestView::write(address, data@),
    {
        let mut payload: Vec<u8> = Vec::new();
        put_bytes(&mut payload, data);
        proof {
            assert(payload@ =~= data@);
        }
        MemoryRequest { address, element_size: 1, element_count: data.len() as u32, payload }
    }

    /// The request on the wire.
    pub fn encode(&self) -> (bytes: Vec<u8>)
        requires
            self@.payload.len() <= MAX_WRITE_LEN,
        ensures
            bytes@ == self@.wire(),
    {
        let mut bytes: Vec<u8> = Vec::new();
        put_le(&mut bytes, self.address, 8);
        put_le(&mut bytes, self.element_size as u64, 4);
        put_le(&mut bytes, self.element_count as u64, 4);
        proof {
            lemma_le_bytes_len(self.address as nat, 8);
            lemma_le_bytes_len(self.element_size as nat, 4);
            lemma_le_bytes_len(self.element_count as nat, 4);
        }
        put_bytes(&mut bytes, self.payload.as_slice());
        proof {
            assert(bytes@ =~= self@.wire());
        }
        bytes
    }

    /// Reads a request back from the wire.
    pub fn decode(bytes: &[u8]) -> (request: Option<Self>)
        ensures
            request.is_some() == (bytes@.len() >= 16),
            match request {
                Some(r) => MemoryRequestView::parse(bytes@) == Some(r@),
                None => MemoryRequestView::parse(bytes@) is None,
            },
    {
        let len: usize = bytes.len();
        if len < MEMORY_HEADER_LEN {
            return None;
        }
        proof {
            lemma_le_value_bound(bytes@.subrange(0, 8));
            lemma_le_value_bound(bytes@.subrange(8, 12));
            lemma_le_value_bound(bytes@.subrange(12, 16));
            lemma_pow256_widths();
        }
        let address: u64 = get_le(bytes, 0, 8);
        let element_size: u32 = get_le(bytes, 8, 4) as u32;
        let element_count: u32 = get_le(bytes, 12, 4) as u32;
        let mut payload: Vec<u8> = Vec::new();
        let mut i: usize = MEMORY_HEADER_LEN;
        while i < len
            invariant
                16 <= i <= len == bytes@.len(),
                payload@ == bytes@.subrange(16, i as int),
            decreases len - i,
        {
            payload.push(bytes[i]);
            i += 1;
            proof {
                assert(payload@ =~= bytes@.subrange(16, i as int));
            }
        }
        proof {
            assert(payload@ =~= bytes@.skip(16));
        }
        Some(MemoryRequest { address, element_size, element_count, payload })
    }
}

/// Reading a memory request back from its bytes gives the request, and the
/// bytes that carry a request are the request's bytes.
pub proof fn lemma_memory_request_round_trip(request: MemoryRequestView, bytes: Seq<u8>)
    ensures
        request.wire().len() == 16 + request.payload.len(),
        MemoryRequestView::parse(request.wire()) == Some(request),
        MemoryRequestView::parse(bytes) matches Some(r) ==> r.wire() == bytes,
{
    let a = le_bytes(request.address as nat, 8);
    let s = le_bytes(request.element_size as nat, 4);
    let c = le_bytes(request.element_count as nat, 4);
    lemma_le_bytes_len(request.address as nat, 8);
    lemma_le_bytes_len(request.element_size as nat, 4);
    lemma_le_bytes_len(request.element_count as nat, 4);
    lemma_pow256_widths();
    lemma_le_value_of_bytes(request.address as nat, 8);
    lemma_le_value_of_bytes(request.element_size as nat, 4);
    lemma_le_value_of_bytes(request.element_count as nat, 4);
    let w = request.wire();
    assert(w.subrange(0, 8) =~= a);
    assert(w.subrange(8, 12) =~= s);
    assert(w.subrange(12, 16) =~= c);
    assert(w.skip(16) =~= request.payload);
    if bytes.len() >= 16 {
        let r = MemoryRequestView::parse(bytes).unwrap();
        lemma_le_value_bound(bytes.subrange(0, 8));
        lemma_le_value_bound(bytes.subrange(8, 12));
        lemma_le_value_bound(bytes.subrange(12, 16));
        lemma_le_bytes_of_value(bytes.subrange(0, 8));
        lemma_le_bytes_of_value(bytes.subrange(8, 12));
        lemma_le_bytes_of_value(bytes.subrange(12, 16));
        assert(r.wire() =~= bytes);
    }
}

/// A request to read or to write a model-specific register. A read carries
/// the value 0.
#[derive(Clone, Copy, Debug, PartialEq, Eq, Structural)]
pub struct MsrRequest {
    pub index: u32,
    pub value: u64,
}

impl MsrRequest {
    /// The request on the wire: the index in four bytes, then the value in
    /// eight.
    pub open spec fn wire(self) -> Seq<u8> {
        le_bytes(self.index as nat, 4) + le_bytes(self.value as nat, 8)
    }

    /// The request that `bytes` carry, if they have the length of one.
    pub open spec fn parse(bytes: Seq<u8>) -> Option<MsrRequest> {
        if bytes.len() == 12 {
            Some(
                MsrRequest {
                    index: le_value(bytes.subrange(0, 4)) as u32,
                    value: le_value(bytes.subrange(4, 12)) as u64,
                },
            )
        } else {
            None
        }
    }

    /// The request on the wire.
    pub fn encode(&self) -> (bytes: Vec<u8>)
        ensures
            bytes@ == self.wire(),
    {
        let mut bytes: Vec<u8> = Vec::new();
        put_le(&mut bytes, self.index as u64, 4);
        put_le(&mut bytes, self.value, 8);
        proof {
            assert(bytes@ =~= self.wire());
        }
        bytes
    }

    /// Reads a request back from the wire.
    pub fn decode(bytes: &[u8]) -> (request: Option<Self>)
        ensures
            request == MsrRequest::parse(bytes@),
    {
        if bytes.len() != MSR_REQUEST_LEN {
            return None;
        }
        proof {
            lemma_le_value_bound(bytes@.subrange(0, 4));
            lemma_le_value_bound(bytes@.subrange(4, 12));
            lemma_pow256_widths();
        }
        let index: u32 = get_le(bytes, 0, 4) as u32;
        let value: u64 = get_le(bytes, 4, 8);
        Some(MsrRequest { index, value })
    }
}

/// Reading an MSR request back from its bytes gives the request, and the
/// bytes that carry a request are the request's bytes.
pub proof fn lemma_msr_request_round_trip(request: MsrRequest, bytes: Seq<u8>)
    ensures
        request.wire().len() == 12,
        MsrRequest::parse(request.wire()) == Some(request),
        MsrRequest::parse(bytes) matches Some(r) ==> r.wire() == bytes,
{
    let i = le_bytes(request.index as nat, 4);
    let v = le_bytes(request.value as nat, 8);
    lemma_le_bytes_len(request.index as nat, 4);
    lemma_le_bytes_len(request.value as nat, 8);
    lemma_pow256_widths();
    lemma_le_value_of_bytes(request.index as nat, 4);
    lemma_le_value_of_bytes(request.value as nat, 8);
    let w = request.wire();
    assert(w.subrange(0, 4) =~= i);
    assert(w.subrange(4, 12) =~= v);
    if bytes.len() == 12 {
        let r = MsrRequest::parse(bytes).unwrap();
        lemma_le_value_bound(bytes.subrange(0, 4));
        lemma_le_value_bound(bytes.subrange(4, 12));
        lemma_le_bytes_of_value(bytes.subrange(0, 4));
        lemma_le_bytes_of_value(bytes.subrange(4, 12));
        assert(r.wire() =~= bytes);
    }
}

/// A request to read an I/O port. The width of the access is part of the
/// operation, not of the request.
#[derive(Clone, Copy, Debug, PartialEq, Eq, Structural)]
pub struct PortInRequest {
    pub address: u16,
}

impl PortInRequest {
    /// The request on the wire: the port address widened to four bytes.
    pub open spec fn wire(self) -> Seq<u8> {
        le_bytes(self.address as nat, 4)
    }

    /// The request that `bytes` carry, if they have the length of one and
    /// name a port.
    pub open spec fn parse(bytes: Seq<u8>) -> Option<PortInRequest> {
        if bytes.len() == 4 && le_value(bytes) <= 0xFFFF {
            Some(PortInRequest { address: le_value(bytes) as u16 })
        } else {
            None
        }
    }

    /// The request on the wire.
    pub fn encode(&self) -> (bytes: Vec<u8>)
        ensures
            bytes@ == self.wire(),
    {
        let mut bytes: Vec<u8> = Vec::new();
        put_le(&mut bytes, self.address as u64, 4);
        proof {
            assert(bytes@ =~= self.wire());
        }
        bytes
    }

    /// Reads a request back from the wire.
    pub fn decode(bytes: &[u8]) -> (request: Option<Self>)
        ensures
            request == PortInRequest::parse(bytes@),
    {
        if bytes.len() != PORT_IN_REQUEST_LEN {
            return None;
        }
        proof {
            assert(bytes@.subrange(0, 4) =~= bytes@);
        }
        let address: u64 = get_le(bytes, 0, 4);
        if address > 0xFFFF {
            return None;
        }
        Some(PortInRequest { address: address as u16 })
    }
}

/// Reading a port-read request back from its bytes gives the request, and
/// the bytes that carry a request are the request's bytes.
pub proof fn lemma_port_in_request_round_trip(request: PortInRequest, bytes: Seq<u8>)
    ensures
        request.wire().len() == 4,
        PortInRequest::parse(request.wire()) == Some(request),
        PortInRequest::parse(bytes) matches Some(r) ==> r.wire() == bytes,
{
    lemma_le_bytes_len(request.address as nat, 4);
    lemma_pow256_widths();
    lemma_le_value_of_bytes(request.address as nat, 4);
    if bytes.len() == 4 {
        lemma_le_bytes_of_value(bytes);
    }
}

/// A request to write an I/O port.
#[derive(Clone, Copy, Debug, PartialEq, Eq, Structural)]
pub struct PortOutRequest {
    pub address: u16,
    pub width: PortWidth,
    pub value: u32,
}

impl PortOutRequest {
    /// The value fits the width.
    pub open spec fn wf(self) -> bool {
        self.value <= self.width.spec_max()
    }

    /// The request on the wire: the port address in two bytes, then the
    /// value in as many bytes as the width has.
    pub open spec fn wire(self) -> Seq<u8> {
        le_bytes(self.address as nat, 2) + le_bytes(self.value as nat, self.width.spec_bytes() as nat)
    }

    /// The request of the given width that `bytes` carry, if they have the
    /// length of one.
    pub open spec fn parse(width: PortWidth, bytes: Seq<u8>) -> Option<PortOutRequest> {
        if bytes.len() == 2 + width.spec_bytes() {
            Some(
                PortOutRequest {
                    address: le_value(bytes.subrange(0, 2)) as u16,
                    width,
                    value: le_value(bytes.skip(2)) as u32,
                },
            )
        } else {
            None
        }
    }

    /// The request on the wire.
    pub fn encode(&self) -> (bytes: Vec<u8>)
        ensures
            bytes@ == self.wire(),
    {
        let mut bytes: Vec<u8> = Vec::new();
        put_le(&mut bytes, self.address as u64, 2);
        put_le(&mut bytes, self.value as u64, self.width.bytes());
        proof {
            assert(bytes@ =~= self.wire());
        }
        bytes
    }

    /// Reads a request of the given width back from the wire.
    pub fn decode(width: PortWidth, bytes: &[u8]) -> (request: Option<Self>)
        ensures
            request == PortOutRequest::parse(width, bytes@),
            request matches Some(r) ==> r.wf(),
    {
        let size: usize = width.bytes();
        if bytes.len() != 2 + size {
            return None;
        }
        proof {
            lemma_le_value_bound(bytes@.subrange(0, 2));
            lemma_le_value_bound(bytes@.skip(2));
            lemma_pow256_widths();
            assert(bytes@.subrange(2, 2 + size) =~= bytes@.skip(2));
        }
        let address: u16 = get_le(bytes, 0, 2) as u16;
        let value: u32 = get_le(bytes, 2, size) as u32;
        Some(PortOutRequest { address, width, value })
    }
}

/// Reading a port-write request back from its bytes gives the request,
/// provided that its value fits its width, and the bytes that carry a
/// request are the request's bytes.
pub proof fn lemma_port_out_request_round_trip(
    request: PortOutRequest,
    width: PortWidth,
    bytes: Seq<u8>,
)
    ensures
        request.wire().len() == 2 + request.width.spec_bytes(),
        request.wf() ==> PortOutRequest::parse(request.width, request.wire()) == Some(request),
        PortOutRequest::parse(width, bytes) matches Some(r) ==> r.wire() == bytes && r.wf(),
{
    let size = request.width.spec_bytes() as nat;
    let a = le_bytes(request.address as nat, 2);
    let v = le_bytes(request.value as nat, size);
    lemma_le_bytes_len(request.address as nat, 2);
    lemma_le_bytes_len(request.value as nat, size);
    lemma_pow256_widths();
    lemma_le_value_of_bytes(request.address as nat, 2);
    let w = request.wire();
    assert(w.subrange(0, 2) =~= a);
    assert(w.skip(2) =~= v);
    if request.wf() {
        lemma_le_value_of_bytes(request.value as nat, size);
    }
    if bytes.len() == 2 + width.spec_bytes() {
        let r = PortOutRequest::parse(width, bytes).unwrap();
        lemma_le_value_bound(bytes.subrange(0, 2));
        lemma_le_value_bound(bytes.skip(2));
        lemma_le_bytes_of_value(bytes.subrange(0, 2));
        lemma_le_bytes_of_value(bytes.skip(2));
        assert(r.wire() =~= bytes);
    }
}

} // verus!
