//! The chip's address model and the driver.

use vstd::prelude::*;
use vstd::slice::slice_to_vec;
use vstd::std_specs::convert::FromSpecImpl;
use crate::bus::{reply_view, BusError, ChannelWidth, MemoryMappedConfig};
use crate::protocol::{
    next, Output, Stage, State, Step, StepView, QUAD_READ, QUAD_READ_DUMMY_CYCLES, STATUS_BUSY,
    STATUS_QUAD_ENABLE,
};

verus! {

/// The smallest region the chip can erase, in bytes.
pub const SECTOR_SIZE: u32 = 4096;

/// The largest region one program command can fill, in bytes.
pub const PAGE_SIZE: u32 = 256;

/// The byte the chip answers when it is released from power-down.
#[derive(Debug, Copy, Clone, PartialEq, Eq, Structural)]
pub struct DeviceId(pub u8);

/// The sector that holds `address`.
pub open spec fn sector_of(address: nat) -> nat {
    address / 4096
}

/// The first byte address of sector `index`.
pub open spec fn sector_start(index: nat) -> nat {
    index * 4096
}

/// The byte address of `offset` within page `page`.
pub open spec fn page_address(page: nat, offset: nat) -> nat {
    page * 256 + offset
}

/// The index of a 4096-byte sector.
#[derive(Debug, Copy, Clone)]
pub struct SectorAddress(u32);

impl View for SectorAddress {
    type V = nat;

    closed spec fn view(&self) -> nat {
        self.0 as nat
    }
}

impl SectorAddress {
    /// Every index comes from a 32-bit byte address, so the sector's first
    /// byte address fits in 32 bits again.
    #[verifier::type_invariant]
    spec fn in_range(self) -> bool {
        self.0 <= 0xF_FFFF
    }

    /// The sector that holds `address`. An address inside a sector is rounded
    /// down to the sector's start; nothing is rejected.
    pub fn from_address(address: u32) -> (sector: SectorAddress)
        ensures
            sector@ == sector_of(address as nat),
    {
        SectorAddress(address / SECTOR_SIZE)
    }

    /// The first byte address of the sector.
    pub fn to_address(&self) -> (address: u32)
        ensures
            address == sector_start(self@),
    {
        proof {
            use_type_invariant(self);
        }
        self.0 * SECTOR_SIZE
    }
}

/// A byte offset into the flash.
#[derive(Debug, Copy, Clone)]
pub struct Address(u32);

impl View for Address {
    type V = nat;

    closed spec fn view(&self) -> nat {
        self.0 as nat
    }
}

impl Address {
    /// The address of byte `offset` of page `page`.
    pub fn from_page_and_offset(page: u32, offset: u32) -> (address: Address)
        requires
            page_address(page as nat, offset as nat) <= u32::MAX,
        ensures
            address@ == page_address(page as nat, offset as nat),
    {
        Address(page * PAGE_SIZE + offset)
    }
}

impl From<u32> for Address {
    fn from(address: u32) -> (result: Address)
        ensures
            result@ == address,
    {
        Address(address)
    }
}

impl FromSpecImpl<u32> for Address {
    open spec fn obeys_from_spec() -> bool {
        true
    }

    closed spec fn from_spec(address: u32) -> Address {
        Address(address)
    }
}

impl From<Address> for u32 {
    fn from(address: Address) -> (result: u32)
        ensures
            result == address@,
    {
        address.0
    }
}

impl FromSpecImpl<Address> for u32 {
    open spec fn obeys_from_spec() -> bool {
        true
    }

    closed spec fn from_spec(address: Address) -> u32 {
        address.0
    }
}

/// Converting a byte address to its sector and back rounds it down to the
/// sector's first byte; only an aligned address comes back unchanged.
pub proof fn lemma_sector_round_trip(address: u32)
    ensures
        sector_start(sector_of(address as nat)) == address - address % 4096,
        sector_start(sector_of(address as nat)) == address <==> address % 4096 == 0,
{
}

/// Within a page the byte address is the page's start plus the offset, and
/// both parts can be read back from it.
pub proof fn lemma_page_and_offset(page: nat, offset: nat)
    requires
        offset < 256,
    ensures
        page_address(page, offset) == page * 256 + offset,
        page_address(page, offset) / 256 == page,
        page_address(page, offset) % 256 == offset,
{
}

/// The driver: the engine that takes the chip through its command protocol.
///
/// An operation is started by the method of its name, which hands out the
/// first bus transaction. The caller performs each transaction and passes what
/// the transport reported to `resume`, until that returns [`Step::Done`] or
/// [`Step::Failed`]. The driver never waits itself.
///
/// After an erase or a program the chip is busy for a while. Until a status
/// read has shown the busy flag clear, the driver accepts nothing but
/// [`W25Q::is_busy`] and [`W25Q::wait_on_busy`]; what else is started is
/// refused with [`BusError::Busy`], as is any operation started while a
/// transaction is outstanding.
pub struct W25Q {
    script: Vec<Stage>,
    page: Vec<u8>,
    unresolved: bool,
}

impl View for W25Q {
    type V = State;

    closed spec fn view(&self) -> State {
        State { script: self.script@, page: self.page@, unresolved: self.unresolved }
    }
}

/// An erase or program that the driver has been asked for.
///
/// The handle borrows the driver exclusively: while it lives, nothing else
/// can be started on the driver. The operation is taken through its
/// transactions with [`PendingOperation::resume`]. Once its command has gone
/// out, the handle is pending until a status read shows the chip ready, and
/// complete from then on. Polling it reads the status once; releasing it
/// reads the status until the chip is ready.
pub struct PendingOperation<'a> {
    pub w25q: &'a mut W25Q,
}

impl<'a> View for PendingOperation<'a> {
    type V = State;

    /// The state of the driver that the handle borrows.
    open spec fn view(&self) -> State {
        self.w25q@
    }
}

impl W25Q {
    fn proceed(&mut self, output: Output) -> (step: Step)
        ensures
            (final(self)@, step@) == old(self)@.proceed(output@),
    {
        if self.script.len() == 0 {
            Step::Done(output)
        } else {
            let stage = self.script[0];
            Step::Transfer(stage.issue(&mut self.page))
        }
    }

    pub(crate) fn begin(&mut self, may: bool, script: Vec<Stage>, page: Vec<u8>) -> (step: Step)
        ensures
            (final(self)@, step@) == old(self)@.begin(may, script@, page@),
    {
        if may {
            self.script = script;
            self.page = page;
            self.proceed(Output::Nothing)
        } else {
            Step::Failed(BusError::Busy)
        }
    }

    fn idle(&self) -> (idle: bool)
        ensures
            idle == self@.idle(),
    {
        self.script.len() == 0
    }

    pub(crate) fn at_rest(&self) -> (at_rest: bool)
        ensures
            at_rest == self@.at_rest(),
    {
        self.script.len() == 0 && !self.unresolved
    }

    /// A driver for a chip that was just powered, together with the first
    /// step of its initialisation: the chip is released from power-down, then
    /// quad mode is checked and, where it is off, switched on.
    pub fn new() -> (started: (W25Q, Step))
        ensures
            (started.0@, started.1@) == State::rest().begin(
                true,
                seq![Stage::ReleasePowerDown, Stage::CheckQuadEnable],
                Seq::empty(),
            ),
    {
        let mut chip = W25Q { script: Vec::new(), page: Vec::new(), unresolved: false };
        let script: Vec<Stage> = vec![Stage::ReleasePowerDown, Stage::CheckQuadEnable];
        let step = chip.begin(true, script, Vec::new());
        (chip, step)
    }

    /// Releases the chip from power-down; the operation reports the device id.
    pub fn release_from_power_down(&mut self) -> (step: Step)
        ensures
            (final(self)@, step@) == old(self)@.begin(
                old(self)@.at_rest(),
                seq![Stage::ReleasePowerDown],
                Seq::empty(),
            ),
    {
        let may = self.at_rest();
        let script: Vec<Stage> = vec![Stage::ReleasePowerDown];
        assert(script@ =~= seq![Stage::ReleasePowerDown]);
        self.begin(may, script, Vec::new())
    }

    /// Reads status register 1 once; the operation reports the busy flag. A
    /// flag that is clear resolves a pending erase or program.
    pub fn is_busy(&mut self) -> (step: Step)
        ensures
            (final(self)@, step@) == old(self)@.begin(
                old(self)@.idle(),
                seq![Stage::ReadStatus],
                Seq::empty(),
            ),
    {
        let may = self.idle();
        let script: Vec<Stage> = vec![Stage::ReadStatus];
        assert(script@ =~= seq![Stage::ReadStatus]);
        self.begin(may, script, Vec::new())
    }

    /// Reads status register 1 until the busy flag is clear, which resolves a
    /// pending erase or program.
    pub fn wait_on_busy(&mut self) -> (step: Step)
        ensures
            (final(self)@, step@) == old(self)@.begin(
                old(self)@.idle(),
                seq![Stage::AwaitReady],
                Seq::empty(),
            ),
    {
        let may = self.idle();
        let script: Vec<Stage> = vec![Stage::AwaitReady];
        assert(script@ =~= seq![Stage::AwaitReady]);
        self.begin(may, script, Vec::new())
    }

    /// Erases the whole chip: write-enable, a further wait for the busy flag,
    /// then the erase command, which leaves the erase pending. The handle
    /// that comes back holds the driver until it is let go.
    pub fn chip_erase(&mut self) -> (started: (PendingOperation<'_>, Step))
        ensures
            (started.0@, started.1@) == old(self)@.begin(
                old(self)@.at_rest(),
                seq![Stage::WriteEnable, Stage::AwaitReady, Stage::AwaitReady, Stage::ChipErase],
                Seq::empty(),
            ),
            final(self)@ == final(started.0.w25q)@,
    {
        let may = self.at_rest();
        let script: Vec<Stage> = vec![
            Stage::WriteEnable,
            Stage::AwaitReady,
            Stage::AwaitReady,
            Stage::ChipErase,
        ];
        let step = self.begin(may, script, Vec::new());
        (PendingOperation { w25q: self }, step)
    }

    /// Erases one sector: write-enable, a further wait for the busy flag, then
    /// the erase command with the sector's first byte address, which leaves
    /// the erase pending. The handle that comes back holds the driver until
    /// it is let go.
    pub fn erase_sector(&mut self, address: SectorAddress) -> (started: (
        PendingOperation<'_>,
        Step,
    ))
        ensures
            (started.0@, started.1@) == old(self)@.begin(
                old(self)@.at_rest(),
                seq![
                    Stage::WriteEnable,
                    Stage::AwaitReady,
                    Stage::AwaitReady,
                    Stage::SectorErase(sector_start(address@) as u32),
                ],
                Seq::empty(),
            ),
            final(self)@ == final(started.0.w25q)@,
    {
        let may = self.at_rest();
        let start: u32 = address.to_address();
        let script: Vec<Stage> = vec![
            Stage::WriteEnable,
            Stage::AwaitReady,
            Stage::AwaitReady,
            Stage::SectorErase(start),
        ];
        let step = self.begin(may, script, Vec::new());
        (PendingOperation { w25q: self }, step)
    }

    /// Sets the write-enable latch and waits until the chip is no longer busy.
    pub fn write_enable(&mut self) -> (step: Step)
        ensures
            (final(self)@, step@) == old(self)@.begin(
                old(self)@.at_rest(),
                seq![Stage::WriteEnable, Stage::AwaitReady],
                Seq::empty(),
            ),
    {
        let may = self.at_rest();
        let script: Vec<Stage> = vec![Stage::WriteEnable, Stage::AwaitReady];
        self.begin(may, script, Vec::new())
    }

    /// Reads status register 2 and, only where it shows quad mode off, sets
    /// the write-enable latch and writes the register back with the quad bit
    /// set.
    pub fn quad_enable(&mut self) -> (step: Step)
        ensures
            (final(self)@, step@) == old(self)@.begin(
                old(self)@.at_rest(),
                seq![Stage::CheckQuadEnable],
                Seq::empty(),
            ),
    {
        let may = self.at_rest();
        let script: Vec<Stage> = vec![Stage::CheckQuadEnable];
        assert(script@ =~= seq![Stage::CheckQuadEnable]);
        self.begin(may, script, Vec::new())
    }

    /// Programs `data` at `address`: write-enable, then one program command
    /// that carries all of `data`, which leaves the program pending. The
    /// handle that comes back holds the driver until it is let go.
    ///
    /// One command fills at most one page. Data longer than a page is refused
    /// with [`BusError::ArgumentInvalid`] before anything is issued. The
    /// driver neither splits data nor checks that it stays within the page
    /// that `address` lies in, and it does not erase.
    pub fn program_page(&mut self, address: Address, data: &[u8]) -> (started: (
        PendingOperation<'_>,
        Step,
    ))
        ensures
            data@.len() > 256 ==> started.0@ == old(self)@ && started.1@ == StepView::Failed(
                BusError::ArgumentInvalid,
            ),
            data@.len() <= 256 ==> (started.0@, started.1@) == old(self)@.begin(
                old(self)@.at_rest(),
                seq![
                    Stage::WriteEnable,
                    Stage::AwaitReady,
                    Stage::PageProgram(address@ as u32, data@.len() as usize),
                ],
                data@,
            ),
            final(self)@ == final(started.0.w25q)@,
    {
        if data.len() > PAGE_SIZE as usize {
            return (PendingOperation { w25q: self }, Step::Failed(BusError::ArgumentInvalid));
        }
        let may = self.at_rest();
        let start: u32 = address.into();
        let script: Vec<Stage> = vec![
            Stage::WriteEnable,
            Stage::AwaitReady,
            Stage::PageProgram(start, data.len()),
        ];
        let step = self.begin(may, script, slice_to_vec(data));
        (PendingOperation { w25q: self }, step)
    }

    /// Reads `len` bytes from `address` in one quad read; the operation
    /// reports the bytes the transport returned.
    pub fn read(&mut self, address: Address, len: usize) -> (step: Step)
        ensures
            (final(self)@, step@) == old(self)@.begin(
                old(self)@.at_rest(),
                seq![Stage::Read(address@ as u32, len)],
                Seq::empty(),
            ),
    {
        let may = self.at_rest();
        let start: u32 = address.into();
        let script: Vec<Stage> = vec![Stage::Read(start, len)];
        assert(script@ =~= seq![Stage::Read(start, len)]);
        self.begin(may, script, Vec::new())
    }

    /// How to set the bus up so that the flash appears as directly
    /// addressable read-only memory: the quad read, for the transport to
    /// repeat by itself. Refused with [`BusError::Busy`] while a transaction
    /// is outstanding or an erase or program is unresolved.
    pub fn memory_mapped(&self) -> (config: Result<MemoryMappedConfig, BusError>)
        ensures
            self@.at_rest() ==> config == Ok::<MemoryMappedConfig, BusError>(
                MemoryMappedConfig {
                    instruction: QUAD_READ,
                    address_width: ChannelWidth::Quad,
                    data_width: ChannelWidth::Quad,
                    dummy_cycles: QUAD_READ_DUMMY_CYCLES,
                },
            ),
            !self@.at_rest() ==> config == Err::<MemoryMappedConfig, BusError>(BusError::Busy),
    {
        if self.at_rest() {
            Ok(
                MemoryMappedConfig {
                    instruction: QUAD_READ,
                    address_width: ChannelWidth::Quad,
                    data_width: ChannelWidth::Quad,
                    dummy_cycles: QUAD_READ_DUMMY_CYCLES,
                },
            )
        } else {
            Err(BusError::Busy)
        }
    }

    /// Takes what the transport reported for the transaction on the bus and
    /// hands out the next step of the operation.
    pub fn resume(&mut self, reply: Result<Vec<u8>, BusError>) -> (step: Step)
        ensures
            (final(self)@, step@) == next(old(self)@, reply_view(reply)),
    {
        if self.script.len() == 0 {
            return Step::Failed(BusError::ArgumentInvalid);
        }
        let stage = self.script[0];
        match reply {
            Err(error) => {
                self.script = Vec::new();
                self.page = Vec::new();
                Step::Failed(error)
            },
            Ok(bytes) => {
                let status: u8 = if bytes.len() > 0 {
                    bytes[0]
                } else {
                    0
                };
                match stage {
                    Stage::AwaitReady => {
                        if status & STATUS_BUSY == STATUS_BUSY {
                            Step::Transfer(stage.issue(&mut self.page))
                        } else {
                            self.script.remove(0);
                            self.unresolved = false;
                            self.proceed(Output::Nothing)
                        }
                    },
                    Stage::ReadStatus => {
                        let busy = status & STATUS_BUSY == STATUS_BUSY;
                        self.script.remove(0);
                        self.unresolved = self.unresolved && busy;
                        self.proceed(Output::Busy(busy))
                    },
                    Stage::CheckQuadEnable => {
                        self.script.remove(0);
                        if status & STATUS_QUAD_ENABLE != STATUS_QUAD_ENABLE {
                            self.script.insert(0, Stage::WriteStatus2(status | STATUS_QUAD_ENABLE));
                            self.script.insert(0, Stage::AwaitReady);
                            self.script.insert(0, Stage::WriteEnable);
                            assert(self.script@ =~= seq![
                                Stage::WriteEnable,
                                Stage::AwaitReady,
                                Stage::WriteStatus2(status | 0x02),
                            ] + old(self).script@.skip(1));
                        }
                        self.proceed(Output::Nothing)
                    },
                    Stage::ReleasePowerDown => {
                        self.script.remove(0);
                        self.proceed(Output::DeviceId(DeviceId(status)))
                    },
                    Stage::Read(_, _) => {
                        self.script.remove(0);
                        self.proceed(Output::Data(bytes))
                    },
                    Stage::ChipErase | Stage::SectorErase(_) | Stage::PageProgram(_, _) => {
                        self.script.remove(0);
                        self.unresolved = true;
                        self.proceed(Output::Pending)
                    },
                    Stage::WriteEnable | Stage::WriteStatus2(_) => {
                        self.script.remove(0);
                        self.proceed(Output::Nothing)
                    },
                }
            },
        }
    }
}

impl<'a> PendingOperation<'a> {
    /// Whether nothing is left to wait for: no transaction is outstanding,
    /// and the chip has been seen ready since the command went out.
    pub fn is_complete(&self) -> (complete: bool)
        ensures
            complete == self@.at_rest(),
    {
        self.w25q.at_rest()
    }

    /// Starts a poll: one status read. It is done with `Output::Busy(false)`,
    /// which completes the handle, or with `Output::Busy(true)`, after which
    /// the caller polls again later.
    pub fn poll(&mut self) -> (step: Step)
        ensures
            (final(self)@, step@) == old(self)@.begin(
                old(self)@.idle(),
                seq![Stage::ReadStatus],
                Seq::empty(),
            ),
            final(final(self).w25q)@ == final(old(self).w25q)@,
    {
        self.w25q.is_busy()
    }

    /// Starts the release of the handle: status reads until the chip is ready,
    /// which completes the handle.
    pub fn release(&mut self) -> (step: Step)
        ensures
            (final(self)@, step@) == old(self)@.begin(
                old(self)@.idle(),
                seq![Stage::AwaitReady],
                Seq::empty(),
            ),
            final(final(self).w25q)@ == final(old(self).w25q)@,
    {
        self.w25q.wait_on_busy()
    }

    /// Takes what the transport reported for the transaction on the bus and
    /// hands out the next step.
    pub fn resume(&mut self, reply: Result<Vec<u8>, BusError>) -> (step: Step)
        ensures
            (final(self)@, step@) == next(old(self)@, reply_view(reply)),
            final(final(self).w25q)@ == final(old(self).w25q)@,
    {
        self.w25q.resume(reply)
    }
}

} // verus!
