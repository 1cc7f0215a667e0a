//! What the operations do to a driver.
//!
//! Each statement here runs the exchanges that a session builds against a
//! simulated driver in any state, and says what the session then reads out
//! of the driver's answers.

use vstd::prelude::*;
use crate::cpu::{
    pci_config_address, pci_word, PciWordRead, IO_PORT_PCI_CONFIG_ADDRESS, IO_PORT_PCI_CONFIG_DATA,
};
use crate::error::Error;
use crate::peer::{distance, nth_address, PeerState};
use crate::protocol::{
    lemma_memory_request_round_trip, lemma_msr_request_round_trip,
    lemma_port_in_request_round_trip, lemma_port_out_request_round_trip, MemoryRequestView,
    MsrRequest, PortInRequest, PortOutRequest, PortWidth, MAX_WRITE_LEN,
};
use crate::win_ring::{
    empty_result, in_exchange, number_result, out_exchange, read_exchange, read_msr_exchange,
    read_result, write_exchange, write_msr_exchange,
};
use crate::wire::{le_bytes, lemma_le_bytes_len, lemma_le_value_of_bytes, lemma_pow256_widths};

verus! {

/// What is written to memory is read back: after `data` is written at
/// `address`, a read of as many bytes from `address` returns `data`, and
/// leaves the driver as the write left it. The driver must not be limited
/// to shorter transfers than `data`.
pub proof fn lemma_memory_round_trip(peer: PeerState, handle: u64, address: u64, data: Seq<u8>)
    requires
        data.len() <= MAX_WRITE_LEN,
        data.len() <= peer.transfer_limit,
    ensures
        ({
            let (written, acknowledged) = peer.exchanged(write_exchange(handle, address, data));
            let (after, answered) = written.exchanged(
                read_exchange(handle, address, data.len() as u32),
            );
            &&& empty_result(acknowledged) == Ok::<(), Error>(())
            &&& read_result(data.len() as u32, answered) == Ok::<Seq<u8>, Error>(data)
            &&& after == written
        }),
{
    let count = data.len() as u32;
    let write = MemoryRequestView::write(address, data);
    let read = MemoryRequestView::read(address, count);
    lemma_memory_request_round_trip(write, Seq::empty());
    lemma_memory_request_round_trip(read, Seq::empty());
    let (written, acknowledged) = peer.exchanged(write_exchange(handle, address, data));
    assert(written.memory == peer.written(address, data));
    assert(acknowledged.buffer.take(0) =~= Seq::<u8>::empty());
    let (after, answered) = written.exchanged(read_exchange(handle, address, count));
    assert(written.transfer(count, count) == count);
    let bytes = written.bytes(address, count as nat);
    assert forall|i: int| 0 <= i < data.len() implies #[trigger] bytes[i] == data[i] by {
        assert(distance(address, nth_address(address, i)) == i);
    }
    assert(bytes =~= data);
    assert(answered.buffer.take(count as int) =~= data);
}

/// A read that the driver cuts short returns what the driver transferred:
/// when the driver transfers at most `k` bytes and `count` is larger, a read
/// of `count` bytes returns exactly the first `k` bytes from `address` on.
pub proof fn lemma_truncated_read(peer: PeerState, handle: u64, address: u64, count: u32)
    requires
        peer.transfer_limit < count,
    ensures
        ({
            let (after, answered) = peer.exchanged(read_exchange(handle, address, count));
            &&& read_result(count, answered) == Ok::<Seq<u8>, Error>(
                peer.bytes(address, peer.transfer_limit as nat),
            )
            &&& peer.bytes(address, peer.transfer_limit as nat).len() == peer.transfer_limit
            &&& after == peer
        }),
{
    let read = MemoryRequestView::read(address, count);
    lemma_memory_request_round_trip(read, Seq::empty());
    let (after, answered) = peer.exchanged(read_exchange(handle, address, count));
    let bytes = peer.bytes(address, peer.transfer_limit as nat);
    assert(answered.buffer.take(peer.transfer_limit as int) =~= bytes);
}

/// What is written to a model-specific register is read back.
pub proof fn lemma_msr_round_trip(peer: PeerState, handle: u64, index: u32, value: u64)
    ensures
        ({
            let (written, acknowledged) = peer.exchanged(write_msr_exchange(handle, index, value));
            let (after, answered) = written.exchanged(read_msr_exchange(handle, index));
            &&& empty_result(acknowledged) == Ok::<(), Error>(())
            &&& number_result(8, answered) == Ok::<nat, Error>(value as nat)
            &&& after == written
        }),
{
    lemma_msr_request_round_trip(MsrRequest { index, value }, Seq::empty());
    lemma_msr_request_round_trip(MsrRequest { index, value: 0 }, Seq::empty());
    let (written, acknowledged) = peer.exchanged(write_msr_exchange(handle, index, value));
    assert(acknowledged.buffer.take(0) =~= Seq::<u8>::empty());
    assert(written.msr(index) == value);
    let (after, answered) = written.exchanged(read_msr_exchange(handle, index));
    let bytes = le_bytes(value as nat, 8);
    lemma_le_bytes_len(value as nat, 8);
    lemma_pow256_widths();
    lemma_le_value_of_bytes(value as nat, 8);
    assert(answered.buffer.take(8) =~= bytes);
}

/// What is written to a port is read back at the same width, provided that
/// the value fits the width.
pub proof fn lemma_port_round_trip(
    peer: PeerState,
    handle: u64,
    address: u16,
    width: PortWidth,
    value: u32,
)
    requires
        value <= width.spec_max(),
    ensures
        ({
            let (written, acknowledged) = peer.exchanged(
                out_exchange(handle, address, width, value),
            );
            let (after, answered) = written.exchanged(in_exchange(handle, address, width));
            &&& empty_result(acknowledged) == Ok::<(), Error>(())
            &&& number_result(width.spec_bytes() as nat, answered) == Ok::<nat, Error>(value as nat)
            &&& written.port(address) == value
            &&& after == written
        }),
{
    let size = width.spec_bytes() as nat;
    lemma_port_out_request_round_trip(PortOutRequest { address, width, value }, width, Seq::empty());
    lemma_port_in_request_round_trip(PortInRequest { address }, Seq::empty());
    let (written, acknowledged) = peer.exchanged(out_exchange(handle, address, width, value));
    assert(acknowledged.buffer.take(0) =~= Seq::<u8>::empty());
    assert(written.port(address) == value);
    let (after, answered) = written.exchanged(in_exchange(handle, address, width));
    let bytes = le_bytes(value as nat, size);
    lemma_le_bytes_len(value as nat, size);
    lemma_pow256_widths();
    lemma_le_value_of_bytes(value as nat, size);
    assert(answered.buffer.take(size as int) =~= bytes);
}

/// Reading a configuration word selects the right register and returns the
/// right half of it: against a driver in any state, the reading writes the
/// configuration address of the word to the address port, and ends with the
/// word that the offset selects of what the data port holds.
pub proof fn lemma_pci_word_from_peer(
    peer: PeerState,
    handle: u64,
    bus: u8,
    device: u8,
    function: u8,
    offset: u8,
)
    ensures
        ({
            let start = PciWordRead::begin(bus, device, function, offset);
            let (selected, first) = peer.exchanged(start.pending(handle).unwrap());
            let fetching = start.after(first);
            let (after, second) = selected.exchanged(fetching.pending(handle).unwrap());
            &&& start.pending(handle) is Some
            &&& fetching.pending(handle) is Some
            &&& selected.port(IO_PORT_PCI_CONFIG_ADDRESS) == pci_config_address(
                bus,
                device,
                function,
                offset,
            )
            &&& fetching.after(second).outcome() == Some(
                Ok::<u16, Error>(pci_word(peer.port(IO_PORT_PCI_CONFIG_DATA), offset)),
            )
        }),
{
    let address = pci_config_address(bus, device, function, offset);
    let data = peer.port(IO_PORT_PCI_CONFIG_DATA);
    let width = PortWidth::Dword;
    lemma_port_out_request_round_trip(
        PortOutRequest { address: IO_PORT_PCI_CONFIG_ADDRESS, width, value: address },
        width,
        Seq::empty(),
    );
    lemma_port_in_request_round_trip(
        PortInRequest { address: IO_PORT_PCI_CONFIG_DATA },
        Seq::empty(),
    );
    let start = PciWordRead::begin(bus, device, function, offset);
    let (selected, first) = peer.exchanged(start.pending(handle).unwrap());
    assert(first.buffer.take(0) =~= Seq::<u8>::empty());
    assert(selected.port(IO_PORT_PCI_CONFIG_DATA) == data);
    let fetching = start.after(first);
    let (after, second) = selected.exchanged(fetching.pending(handle).unwrap());
    let bytes = le_bytes(data as nat, 4);
    lemma_le_bytes_len(data as nat, 4);
    lemma_pow256_widths();
    lemma_le_value_of_bytes(data as nat, 4);
    assert(second.buffer.take(4) =~= bytes);
}

} // verus!
