//! The driver as block storage for a filesystem: reads and writes in units of
//! a page, erases in units of a sector.

use vstd::prelude::*;
use vstd::slice::{slice_subrange, slice_to_vec};
use crate::bus::{reply_view, BusError};
use crate::layout::{
    erased, lemma_erased_concat, lemma_page_after_concat, lemma_program_settled,
    lemma_programmed_concat, lemma_within_pages_concat, page_after, placed, programmed, span,
    within_pages,
};
use crate::protocol::{guarded, lemma_guarded_concat, next, program_settled, Stage, State, Step};
use crate::w25q::{sector_of, sector_start, Address, SectorAddress, W25Q};

verus! {

/// The smallest number of bytes that can be read.
pub const READ_SIZE: usize = 256;

/// The smallest number of bytes that can be written.
pub const WRITE_SIZE: usize = 256;

/// The size of an erasable block in bytes.
pub const BLOCK_SIZE: usize = 4096;

/// The stages that erase the sector at `address` and see the erase through:
/// the erase itself, then one wait for the busy flag.
pub open spec fn erase_settled(address: u32) -> Seq<Stage> {
    seq![
        Stage::WriteEnable,
        Stage::AwaitReady,
        Stage::AwaitReady,
        Stage::SectorErase(address),
        Stage::AwaitReady,
    ]
}

/// The first byte address of the sector that holds offset `off`, which is
/// taken as a 32-bit address.
pub open spec fn block_start(off: nat) -> u32 {
    sector_start(sector_of((off as u32) as nat)) as u32
}

/// The stages that erase `blocks` blocks in a row, the first of them the one
/// that holds offset `off`, each seen through before the next begins.
pub open spec fn erase_script(off: nat, blocks: nat) -> Seq<Stage>
    decreases blocks,
{
    if blocks == 0 {
        Seq::empty()
    } else {
        erase_settled(block_start(off)) + erase_script(off + 4096, (blocks - 1) as nat)
    }
}

/// The stages that program `pages` whole pages in a row, the first of them at
/// offset `off`, each seen through before the next begins. Offsets are taken
/// as 32-bit addresses.
pub open spec fn write_script(off: nat, pages: nat) -> Seq<Stage>
    decreases pages,
{
    if pages == 0 {
        Seq::empty()
    } else {
        program_settled(off as u32, 256) + write_script(off + 256, (pages - 1) as nat)
    }
}

/// The driver with the interface of block storage of `BLOCK_COUNT` blocks.
pub struct W25QWrapper<const BLOCK_COUNT: usize> {
    flash: W25Q,
}

impl<const BLOCK_COUNT: usize> View for W25QWrapper<BLOCK_COUNT> {
    type V = State;

    closed spec fn view(&self) -> State {
        self.flash@
    }
}

impl<const BLOCK_COUNT: usize> W25QWrapper<BLOCK_COUNT> {
    /// Puts the interface of block storage on `flash`.
    pub fn new(flash: W25Q) -> (storage: Self)
        ensures
            storage@ == flash@,
    {
        Self { flash }
    }

    /// The number of erasable blocks, as configured.
    pub fn block_count(&self) -> (count: usize)
        ensures
            count == BLOCK_COUNT,
    {
        BLOCK_COUNT
    }

    /// Reads `len` bytes from offset `off`, taken as a 32-bit address, in one
    /// quad read.
    pub fn read(&mut self, off: usize, len: usize) -> (step: Step)
        ensures
            (final(self)@, step@) == old(self)@.begin(
                old(self)@.at_rest(),
                seq![Stage::Read(off as u32, len)],
                Seq::empty(),
            ),
    {
        let address: u32 = #[verifier::truncate] (off as u32);
        self.flash.read(Address::from(address), len)
    }

    /// Writes the whole pages of `data` at offset `off`, one program for each.
    /// Bytes after the last whole page are left out. What is written must end
    /// within what a `usize` can address.
    pub fn write(&mut self, off: usize, data: &[u8]) -> (step: Step)
        requires
            off + data@.len() <= usize::MAX,
        ensures
            (final(self)@, step@) == old(self)@.begin(
                old(self)@.at_rest(),
                write_script(off as nat, data@.len() / 256),
                data@.subrange(0, (data@.len() / 256 * 256) as int),
            ),
    {
        let pages: usize = data.len() / 256;
        let mut script: Vec<Stage> = Vec::new();
        let mut done: usize = 0;
        while done < pages
            invariant
                done <= pages,
                pages == data@.len() / 256,
                off + data@.len() <= usize::MAX,
                script@ + write_script((off + done * 256) as nat, (pages - done) as nat)
                    == write_script(off as nat, pages as nat),
            decreases pages - done,
        {
            let address: u32 = #[verifier::truncate] ((off + done * 256) as u32);
            let ghost before = script@;
            script.push(Stage::WriteEnable);
            script.push(Stage::AwaitReady);
            script.push(Stage::PageProgram(address, 256));
            script.push(Stage::AwaitReady);
            script.push(Stage::AwaitReady);
            let ghost rest = write_script((off + done * 256 + 256) as nat, (pages - done - 1) as nat);
            assert(script@ + rest =~= before + (program_settled(address, 256) + rest));
            done = done + 1;
        }
        assert(script@ =~= script@ + Seq::<Stage>::empty());
        let whole = slice_subrange(data, 0, pages * 256);
        let may = self.flash.at_rest();
        self.flash.begin(may, script, slice_to_vec(whole))
    }

    /// Erases the whole blocks of the `len` bytes at offset `off`, one erase
    /// for each. An offset inside a block stands for the block's first byte.
    /// What is erased must end within what a `usize` can address.
    pub fn erase(&mut self, off: usize, len: usize) -> (step: Step)
        requires
            off + len <= usize::MAX,
        ensures
            (final(self)@, step@) == old(self)@.begin(
                old(self)@.at_rest(),
                erase_script(off as nat, len as nat / 4096),
                Seq::empty(),
            ),
    {
        let blocks: usize = len / 4096;
        let mut script: Vec<Stage> = Vec::new();
        let mut done: usize = 0;
        while done < blocks
            invariant
                done <= blocks,
                blocks == len / 4096,
                off + len <= usize::MAX,
                script@ + erase_script((off + done * 4096) as nat, (blocks - done) as nat)
                    == erase_script(off as nat, blocks as nat),
            decreases blocks - done,
        {
            let address: u32 = #[verifier::truncate] ((off + done * 4096) as u32);
            let start: u32 = SectorAddress::from_address(address).to_address();
            let ghost before = script@;
            script.push(Stage::WriteEnable);
            script.push(Stage::AwaitReady);
            script.push(Stage::AwaitReady);
            script.push(Stage::SectorErase(start));
            script.push(Stage::AwaitReady);
            let ghost rest = erase_script(
                (off + done * 4096 + 4096) as nat,
                (blocks - done - 1) as nat,
            );
            assert(script@ + rest =~= before + (erase_settled(start) + rest));
            done = done + 1;
        }
        assert(script@ =~= script@ + Seq::<Stage>::empty());
        let may = self.flash.at_rest();
        self.flash.begin(may, script, Vec::new())
    }

    /// Takes what the transport reported for the transaction on the bus and
    /// hands out the next step of the operation.
    pub fn resume(&mut self, reply: Result<Vec<u8>, BusError>) -> (step: Step)
        ensures
            (final(self)@, step@) == next(old(self)@, reply_view(reply)),
    {
        self.flash.resume(reply)
    }
}

/// Writing puts every page in its place: as long as the pages end within the
/// 32-bit address space, byte `i` of the data is programmed at address
/// `off + i` and nothing else is programmed, and all of the data is used up.
/// Where `off` is the start of a page, no program reaches beyond the page it
/// starts in.
pub proof fn lemma_write_places_every_page(off: nat, pages: nat, data: Seq<u8>)
    requires
        off + 256 * pages <= 0x1_0000_0000,
        data.len() == 256 * pages,
    ensures
        programmed(write_script(off, pages), data) == placed(off as int, data),
        page_after(write_script(off, pages), data).len() == 0,
        off % 256 == 0 ==> within_pages(write_script(off, pages)),
    decreases pages,
{
    if pages > 0 {
        let head = program_settled(off as u32, 256);
        let left = data.subrange(256, data.len() as int);
        let tail = write_script(off + 256, (pages - 1) as nat);
        lemma_program_settled(off as u32, 256, data);
        lemma_write_places_every_page(off + 256, (pages - 1) as nat, left);
        lemma_programmed_concat(head, tail, data);
        lemma_page_after_concat(head, tail, data);
        assert(programmed(head + tail, data) =~= placed(off as int, data));
        if off % 256 == 0 {
            assert(within_pages(head));
            lemma_within_pages_concat(head, tail);
        }
    } else {
        assert(programmed(write_script(off, pages), data) =~= placed(off as int, data));
    }
}

/// Erasing clears the blocks it is asked for, and no more: as long as they
/// end within the 32-bit address space, `blocks` blocks from offset `off`
/// cover exactly that many whole blocks, from the start of the block that
/// holds `off`.
pub proof fn lemma_erase_clears_the_blocks(off: nat, blocks: nat)
    requires
        off + 4096 * blocks <= 0x1_0000_0000,
    ensures
        erased(erase_script(off, blocks)) == span(
            block_start(off) as int,
            block_start(off) + 4096 * blocks,
        ),
    decreases blocks,
{
    let start = block_start(off);
    if blocks > 0 {
        let rest = erase_script(off + 4096, (blocks - 1) as nat);
        lemma_erase_clears_the_blocks(off + 4096, (blocks - 1) as nat);
        lemma_erased_concat(erase_settled(start), rest);
        lemma_erase_settled(start);
        if blocks > 1 {
            assert(block_start(off + 4096) == start + 4096);
        }
        assert(erased(erase_script(off, blocks)) =~= span(start as int, start + 4096 * blocks));
    } else {
        assert(erased(erase_script(off, blocks)) =~= span(start as int, start + 4096 * blocks));
    }
}

/// A sector erase with the wait that sees it through clears the sector of
/// its address.
proof fn lemma_erase_settled(address: u32)
    ensures
        erased(erase_settled(address)) == span(
            address - address % 4096,
            address - address % 4096 + 4096,
        ),
{
    let script = erase_settled(address);
    let after_enable = script.skip(1);
    let after_wait = after_enable.skip(1);
    let after_second_wait = after_wait.skip(1);
    let after_erase = after_second_wait.skip(1);
    let after_last_wait = after_erase.skip(1);
    assert(after_last_wait =~= Seq::<Stage>::empty());
    assert(erased(after_last_wait) == Set::<int>::empty());
    assert(erased(after_erase) == Set::<int>::empty());
    assert(erased(after_second_wait) =~= span(
        address - address % 4096,
        address - address % 4096 + 4096,
    ));
    assert(erased(after_wait) == erased(after_second_wait));
    assert(erased(after_enable) == erased(after_wait));
}

/// Every erase and every program that the storage asks of the chip is
/// guarded: it has its own write-enable and wait before it, and the chip is
/// waited for before anything follows.
pub proof fn lemma_scripts_are_guarded(off: nat, pages: nat, blocks: nat)
    ensures
        guarded(write_script(off, pages)),
        guarded(erase_script(off, blocks)),
    decreases pages + blocks,
{
    if pages > 0 {
        assert(guarded(program_settled(off as u32, 256)));
        lemma_scripts_are_guarded(off + 256, (pages - 1) as nat, 0);
        lemma_guarded_concat(
            program_settled(off as u32, 256),
            write_script(off + 256, (pages - 1) as nat),
        );
    }
    if blocks > 0 {
        assert(guarded(erase_settled(block_start(off))));
        lemma_scripts_are_guarded(off + 4096, 0, (blocks - 1) as nat);
        lemma_guarded_concat(
            erase_settled(block_start(off)),
            erase_script(off + 4096, (blocks - 1) as nat),
        );
    }
}

} // verus!
