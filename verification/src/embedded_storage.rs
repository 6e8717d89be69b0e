//! The driver as byte-addressable NOR flash: reads of any length, writes of
//! any length split at page boundaries, and erases of whole sectors.

use vstd::prelude::*;
use vstd::slice::slice_to_vec;
use crate::bus::{reply_view, BusError};
use crate::layout::{
    erased, lemma_erased_concat, lemma_page_after_concat, lemma_program_settled,
    lemma_programmed_concat, lemma_within_pages_concat, page_after, placed, programmed, span,
    within_pages,
};
use crate::protocol::{
    guarded, lemma_guarded_concat, next, program_settled, Stage, State, Step, StepView,
};
use crate::w25q::{Address, SectorAddress, W25Q};

verus! {

/// The smallest number of bytes that can be read.
pub const READ_SIZE: usize = 1;

/// The smallest number of bytes that can be written.
pub const WRITE_SIZE: usize = 1;

/// The smallest number of bytes that can be erased.
pub const ERASE_SIZE: usize = 4096;

/// The generic kinds that errors of a NOR flash fall into.
#[derive(Debug, Copy, Clone, PartialEq, Eq, Structural)]
pub enum ErrorKind {
    /// The arguments are not properly aligned.
    NotAligned,
    /// The arguments are out of bounds.
    OutOfBounds,
    /// An error specific to this flash.
    Other,
}

/// An error of the bus, as an error of the NOR flash.
#[derive(Debug, Copy, Clone, PartialEq, Eq, Structural)]
pub struct QspiErrorWrapper {
    pub qspi_error: BusError,
}

impl QspiErrorWrapper {
    /// The generic kind of the error: an address the bus rejected is out of
    /// bounds, every other error is specific to this flash.
    pub fn kind(&self) -> (kind: ErrorKind)
        ensures
            kind == if self.qspi_error == BusError::AddressInvalid {
                ErrorKind::OutOfBounds
            } else {
                ErrorKind::Other
            },
    {
        match self.qspi_error {
            BusError::Busy => ErrorKind::Other,
            BusError::AddressInvalid => ErrorKind::OutOfBounds,
            BusError::Unknown => ErrorKind::Other,
            BusError::ArgumentInvalid => ErrorKind::Other,
        }
    }
}

/// The stages that erase the sector at `address` and see the erase through:
/// the erase itself, then two waits for the busy flag.
pub open spec fn erase_settled(address: u32) -> Seq<Stage> {
    seq![
        Stage::WriteEnable,
        Stage::AwaitReady,
        Stage::AwaitReady,
        Stage::SectorErase(address),
        Stage::AwaitReady,
        Stage::AwaitReady,
    ]
}

/// The stages that erase `sectors` sectors in a row, the first of them at
/// `from`, lowest first, each seen through before the next begins.
pub open spec fn erase_script(from: nat, sectors: nat) -> Seq<Stage>
    recommends
        from + 4096 * sectors <= 0x1_0000_0000,
    decreases sectors,
{
    if sectors == 0 {
        Seq::empty()
    } else {
        erase_settled(from as u32) + erase_script(from + 4096, (sectors - 1) as nat)
    }
}

/// How many of `len` bytes to be written at `address` lie in the page of
/// `address`.
pub open spec fn first_chunk(address: nat, len: nat) -> nat {
    let room = (256 - address % 256) as nat;
    if len < room {
        len
    } else {
        room
    }
}

/// The stages that write `len` bytes at `address`: one program for the bytes
/// up to the end of the page that `address` lies in, then one for each page
/// that follows, each seen through before the next begins. Writing nothing is
/// still one program, of no bytes.
pub open spec fn write_script(address: nat, len: nat) -> Seq<Stage>
    recommends
        address + len <= 0x1_0000_0000,
    decreases len,
{
    let count = first_chunk(address, len);
    if count < len {
        program_settled(address as u32, count as usize) + write_script(
            address + count,
            (len - count) as nat,
        )
    } else {
        program_settled(address as u32, count as usize)
    }
}

/// The driver with the interface of a NOR flash of `CAPACITY` bytes.
pub struct W25QSequentialStorage<const CAPACITY: usize> {
    flash: W25Q,
}

impl<const CAPACITY: usize> View for W25QSequentialStorage<CAPACITY> {
    type V = State;

    closed spec fn view(&self) -> State {
        self.flash@
    }
}

impl<const CAPACITY: usize> W25QSequentialStorage<CAPACITY> {
    /// Puts the interface of a NOR flash on `flash`.
    pub fn new(flash: W25Q) -> (storage: Self)
        ensures
            storage@ == flash@,
    {
        W25QSequentialStorage { flash }
    }

    /// Hands the driver back.
    pub fn release(self) -> (flash: W25Q)
        ensures
            flash@ == self@,
    {
        self.flash
    }

    /// The size of the flash in bytes, as configured.
    pub fn capacity(&self) -> (capacity: usize)
        ensures
            capacity == CAPACITY,
    {
        CAPACITY
    }

    /// Reads `len` bytes from `offset` in one quad read.
    pub fn read(&mut self, offset: u32, len: usize) -> (step: Step)
        ensures
            (final(self)@, step@) == old(self)@.begin(
                old(self)@.at_rest(),
                seq![Stage::Read(offset, len)],
                Seq::empty(),
            ),
    {
        self.flash.read(Address::from(offset), len)
    }

    /// Erases the sectors from `from` up to, not including, `to`.
    ///
    /// Both bounds must be multiples of the sector size, and `from` must not
    /// lie above `to`; otherwise the call is refused with
    /// [`BusError::ArgumentInvalid`] and nothing is issued.
    pub fn erase(&mut self, from: u32, to: u32) -> (step: Step)
        ensures
            from % 4096 != 0 || to % 4096 != 0 || from > to ==> final(self)@ == old(self)@ && step@
                == StepView::Failed(BusError::ArgumentInvalid),
            from % 4096 == 0 && to % 4096 == 0 && from <= to ==> (final(self)@, step@) == old(
                self,
            )@.begin(
                old(self)@.at_rest(),
                erase_script(from as nat, ((to - from) / 4096) as nat),
                Seq::empty(),
            ),
    {
        if from % 4096 != 0 || to % 4096 != 0 || from > to {
            return Step::Failed(BusError::ArgumentInvalid);
        }
        let mut script: Vec<Stage> = Vec::new();
        let mut next_sector: u32 = from;
        while next_sector < to
            invariant
                from <= next_sector <= to,
                next_sector % 4096 == 0,
                to % 4096 == 0,
                script@ + erase_script(next_sector as nat, ((to - next_sector) / 4096) as nat)
                    == erase_script(from as nat, ((to - from) / 4096) as nat),
            decreases to - next_sector,
        {
            let start: u32 = SectorAddress::from_address(next_sector).to_address();
            assert(start == next_sector);
            let ghost before = script@;
            script.push(Stage::WriteEnable);
            script.push(Stage::AwaitReady);
            script.push(Stage::AwaitReady);
            script.push(Stage::SectorErase(start));
            script.push(Stage::AwaitReady);
            script.push(Stage::AwaitReady);
            let ghost left = ((to - next_sector) / 4096 - 1) as nat;
            assert(script@ + erase_script(next_sector as nat + 4096, left) =~= before + (
                erase_settled(next_sector) + erase_script(next_sector as nat + 4096, left)));
            next_sector = next_sector + 4096;
        }
        assert(script@ =~= script@ + Seq::<Stage>::empty());
        let may = self.flash.at_rest();
        self.flash.begin(may, script, Vec::new())
    }

    /// Writes `bytes` at `offset`, split where they cross into another page.
    /// What is written must end within the 32-bit address space.
    pub fn write(&mut self, offset: u32, bytes: &[u8]) -> (step: Step)
        requires
            offset + bytes@.len() <= 0x1_0000_0000,
        ensures
            (final(self)@, step@) == old(self)@.begin(
                old(self)@.at_rest(),
                write_script(offset as nat, bytes@.len()),
                bytes@,
            ),
    {
        let mut script: Vec<Stage> = Vec::new();
        let mut address: u32 = offset;
        let mut remaining: usize = bytes.len();
        loop
            invariant_except_break
                address + remaining <= 0x1_0000_0000,
                script@ + write_script(address as nat, remaining as nat) == write_script(
                    offset as nat,
                    bytes@.len(),
                ),
            ensures
                script@ == write_script(offset as nat, bytes@.len()),
            decreases remaining,
        {
            let room: usize = 256 - (address % 256) as usize;
            let count: usize = if remaining < room {
                remaining
            } else {
                room
            };
            let ghost before = script@;
            script.push(Stage::WriteEnable);
            script.push(Stage::AwaitReady);
            script.push(Stage::PageProgram(address, count));
            script.push(Stage::AwaitReady);
            script.push(Stage::AwaitReady);
            assert(script@ =~= before + program_settled(address, count));
            if count < remaining {
                assert(script@ + write_script(
                    address as nat + count as nat,
                    (remaining - count) as nat,
                ) =~= before + (program_settled(address, count) + write_script(
                    address as nat + count as nat,
                    (remaining - count) as nat,
                )));
                address = address + count as u32;
                remaining = remaining - count;
            } else {
                break;
            }
        }
        let may = self.flash.at_rest();
        self.flash.begin(may, script, slice_to_vec(bytes))
    }

    /// Takes what the transport reported for the transaction on the bus and
    /// hands out the next step of the operation.
    pub fn resume(&mut self, reply: Result<Vec<u8>, BusError>) -> (step: Step)
        ensures
            (final(self)@, step@) == next(old(self)@, reply_view(reply)),
    {
        self.flash.resume(reply)
    }
}

/// Erasing clears the range it is asked for, and no more: the sectors of an
/// erase from `from` to `to` cover exactly the bytes from `from` up to, not
/// including, `to`.
pub proof fn lemma_erase_clears_the_range(from: u32, to: u32)
    requires
        from % 4096 == 0,
        to % 4096 == 0,
        from <= to,
    ensures
        erased(erase_script(from as nat, ((to - from) / 4096) as nat)) == span(
            from as int,
            to as int,
        ),
    decreases to - from,
{
    let sectors = ((to - from) / 4096) as nat;
    let script = erase_script(from as nat, sectors);
    if from < to {
        let rest = erase_script(from as nat + 4096, (sectors - 1) as nat);
        lemma_erase_clears_the_range((from + 4096) as u32, to);
        lemma_erased_concat(erase_settled(from), rest);
        lemma_erase_settled(from);
        assert(erased(script) =~= span(from as int, to as int));
    } else {
        assert(erased(script) =~= span(from as int, to as int));
    }
}

/// A sector erase with the waits that see it through clears the sector of
/// its address.
proof fn lemma_erase_settled(address: u32)
    ensures
        erased(erase_settled(address)) == span(
            address - address % 4096,
            address - address % 4096 + 4096,
        ),
{
    let script = erase_settled(address);
    let after_enable = script.skip(1);
    let after_wait = after_enable.skip(1);
    let after_second_wait = after_wait.skip(1);
    let after_erase = after_second_wait.skip(1);
    let after_third_wait = after_erase.skip(1);
    let after_last_wait = after_third_wait.skip(1);
    assert(after_last_wait =~= Seq::<Stage>::empty());
    assert(erased(after_last_wait) == Set::<int>::empty());
    assert(erased(after_third_wait) == Set::<int>::empty());
    assert(erased(after_erase) == Set::<int>::empty());
    assert(erased(after_second_wait) =~= span(
        address - address % 4096,
        address - address % 4096 + 4096,
    ));
    assert(erased(after_wait) == erased(after_second_wait));
    assert(erased(after_enable) == erased(after_wait));
}

/// Writing puts every byte in its place: byte `i` of the data is programmed
/// at address `offset + i` and nothing else is programmed, all of the data
/// is used up, and no program reaches beyond the page it starts in.
pub proof fn lemma_write_places_every_byte(offset: nat, data: Seq<u8>)
    requires
        offset + data.len() <= 0x1_0000_0000,
    ensures
        programmed(write_script(offset, data.len()), data) == placed(offset as int, data),
        page_after(write_script(offset, data.len()), data).len() == 0,
        within_pages(write_script(offset, data.len())),
    decreases data.len(),
{
    let len = data.len();
    let count = first_chunk(offset, len);
    let head = program_settled(offset as u32, count as usize);
    lemma_program_settled(offset as u32, count as usize, data);
    assert(within_pages(head));
    if count < len {
        let left = data.subrange(count as int, len as int);
        let tail = write_script(offset + count, (len - count) as nat);
        lemma_write_places_every_byte(offset + count, left);
        lemma_programmed_concat(head, tail, data);
        lemma_page_after_concat(head, tail, data);
        lemma_within_pages_concat(head, tail);
        assert(programmed(head + tail, data) =~= placed(offset as int, data));
    } else {
        assert(data.subrange(0, count as int) =~= data);
    }
}

/// Every erase and every program that the storage asks of the chip is
/// guarded: it has its own write-enable and wait before it, and the chip is
/// waited for before anything follows.
pub proof fn lemma_scripts_are_guarded(address: nat, len: nat, sectors: nat)
    ensures
        guarded(write_script(address, len)),
        guarded(erase_script(address, sectors)),
    decreases len + sectors,
{
    let count = first_chunk(address, len);
    assert(guarded(program_settled(address as u32, count as usize)));
    if count < len {
        lemma_scripts_are_guarded(address + count, (len - count) as nat, 0);
        lemma_guarded_concat(
            program_settled(address as u32, count as usize),
            write_script(address + count, (len - count) as nat),
        );
    }
    if sectors > 0 {
        assert(guarded(erase_settled(address as u32)));
        lemma_scripts_are_guarded(address + 4096, 0, (sectors - 1) as nat);
        lemma_guarded_concat(
            erase_settled(address as u32),
            erase_script(address + 4096, (sectors - 1) as nat),
        );
    }
}

} // verus!
