//! The shape of one transaction on the command bus.
//!
//! A transaction is an instruction byte, an optional address, a number of
//! dummy clock cycles and an optional data phase. The transport that performs
//! it lives outside this crate; what it reports comes back as a
//! `Result<Vec<u8>, BusError>`: the bytes of a read (none for a write), or the
//! reason why the transaction failed.

use vstd::prelude::*;

verus! {

/// The number of data lines a phase of a transaction uses.
#[derive(Debug, Copy, Clone, PartialEq, Eq, Structural)]
pub enum ChannelWidth {
    Single,
    Quad,
}

/// Why the transport could not perform a transaction.
#[derive(Debug, Copy, Clone, PartialEq, Eq, Structural)]
pub enum BusError {
    /// The bus itself is occupied. This is not the chip's busy flag.
    Busy,
    /// The transport rejected the address.
    AddressInvalid,
    /// The parameters of the command are malformed.
    ArgumentInvalid,
    /// A failure the transport could not classify.
    Unknown,
}

/// The data phase of a transaction.
#[derive(Debug, Clone, PartialEq, Eq)]
pub enum Data {
    /// Nothing follows the instruction and the address.
    Absent,
    /// `len` bytes are read from the chip.
    Read { len: usize, width: ChannelWidth },
    /// `bytes` are written to the chip.
    Write { bytes: Vec<u8>, width: ChannelWidth },
}

/// The mathematical content of [`Data`].
pub enum DataView {
    Absent,
    Read { len: nat, width: ChannelWidth },
    Write { bytes: Seq<u8>, width: ChannelWidth },
}

impl View for Data {
    type V = DataView;

    open spec fn view(&self) -> DataView {
        match *self {
            Data::Absent => DataView::Absent,
            Data::Read { len, width } => DataView::Read { len: len as nat, width },
            Data::Write { bytes, width } => DataView::Write { bytes: bytes@, width },
        }
    }
}

/// One transaction on the command bus. The instruction byte always travels on
/// a single line.
#[derive(Debug, Clone, PartialEq, Eq)]
pub struct Transaction {
    pub instruction: u8,
    pub address: Option<(u32, ChannelWidth)>,
    pub dummy_cycles: u8,
    pub data: Data,
}

/// The mathematical content of [`Transaction`].
pub struct TransactionView {
    pub instruction: u8,
    pub address: Option<(u32, ChannelWidth)>,
    pub dummy_cycles: u8,
    pub data: DataView,
}

impl View for Transaction {
    type V = TransactionView;

    open spec fn view(&self) -> TransactionView {
        TransactionView {
            instruction: self.instruction,
            address: self.address,
            dummy_cycles: self.dummy_cycles,
            data: self.data@,
        }
    }
}

/// How the bus is set up to show the flash as directly addressable memory.
#[derive(Debug, Copy, Clone, PartialEq, Eq, Structural)]
pub struct MemoryMappedConfig {
    pub instruction: u8,
    pub address_width: ChannelWidth,
    pub data_width: ChannelWidth,
    pub dummy_cycles: u8,
}

/// The mathematical content of what the transport reports for a transaction.
pub open spec fn reply_view(reply: Result<Vec<u8>, BusError>) -> Result<Seq<u8>, BusError> {
    match reply {
        Ok(bytes) => Ok(bytes@),
        Err(error) => Err(error),
    }
}

} // verus!
