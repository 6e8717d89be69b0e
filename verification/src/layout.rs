//! What the commands of a script do to the contents of the flash: which bytes
//! its page programs carry to which address, and which bytes its erases
//! clear.

use vstd::prelude::*;
use crate::protocol::{program_settled, Stage};

verus! {

/// The bytes one page program carries, by the address each is meant for: byte
/// `i` of `bytes` for address `address + i`.
pub open spec fn placed(address: int, bytes: Seq<u8>) -> Map<int, u8> {
    Map::new(
        |at: int| address <= at < address + bytes.len(),
        |at: int| bytes[at - address],
    )
}

/// The byte addresses from `start` up to, not including, `end`.
pub open spec fn span(start: int, end: int) -> Set<int> {
    Set::new(|at: int| start <= at < end)
}

/// The data the driver still holds once every stage of `script` has been on
/// the bus, when it held `page` before the first.
pub open spec fn page_after(script: Seq<Stage>, page: Seq<u8>) -> Seq<u8>
    decreases script.len(),
{
    if script.len() == 0 {
        page
    } else {
        page_after(script.skip(1), script[0].page_left(page))
    }
}

/// The bytes that the page programs of `script` carry, by the address each is
/// meant for, when the driver holds `page` before the first stage. Where two
/// programs name one address, the earlier one is given.
pub open spec fn programmed(script: Seq<Stage>, page: Seq<u8>) -> Map<int, u8>
    decreases script.len(),
{
    if script.len() == 0 {
        Map::empty()
    } else {
        let later = programmed(script.skip(1), script[0].page_left(page));
        match script[0] {
            Stage::PageProgram(address, _) => later.union_prefer_right(
                placed(address as int, page.subrange(0, script[0].taken(page))),
            ),
            _ => later,
        }
    }
}

/// The byte addresses that the sector erases of `script` clear: for each, the
/// whole sector that its address lies in.
pub open spec fn erased(script: Seq<Stage>) -> Set<int>
    decreases script.len(),
{
    if script.len() == 0 {
        Set::empty()
    } else {
        let later = erased(script.skip(1));
        match script[0] {
            Stage::SectorErase(address) => later.union(
                span(address - address % 4096, address - address % 4096 + 4096),
            ),
            _ => later,
        }
    }
}

/// Whether no page program of `script` reaches beyond the page it starts in.
pub open spec fn within_pages(script: Seq<Stage>) -> bool {
    forall|i: int|
        0 <= i < script.len() ==> (#[trigger] script[i] matches Stage::PageProgram(address, count)
            ==> address % 256 + count <= 256)
}

/// What two scripts in a row leave of the data is what the second leaves of
/// what the first left.
pub proof fn lemma_page_after_concat(first: Seq<Stage>, second: Seq<Stage>, page: Seq<u8>)
    ensures
        page_after(first + second, page) == page_after(second, page_after(first, page)),
    decreases first.len(),
{
    if first.len() == 0 {
        assert(first + second =~= second);
    } else {
        assert((first + second).skip(1) =~= first.skip(1) + second);
        lemma_page_after_concat(first.skip(1), second, first[0].page_left(page));
    }
}

/// Two scripts in a row program what the first programs and what the second
/// programs from the data that the first left.
pub proof fn lemma_programmed_concat(first: Seq<Stage>, second: Seq<Stage>, page: Seq<u8>)
    ensures
        programmed(first + second, page) == programmed(
            second,
            page_after(first, page),
        ).union_prefer_right(programmed(first, page)),
    decreases first.len(),
{
    let whole = programmed(first + second, page);
    let parts = programmed(second, page_after(first, page)).union_prefer_right(
        programmed(first, page),
    );
    if first.len() == 0 {
        assert(first + second =~= second);
    } else {
        assert((first + second).skip(1) =~= first.skip(1) + second);
        lemma_programmed_concat(first.skip(1), second, first[0].page_left(page));
    }
    assert(whole =~= parts);
}

/// Two scripts in a row erase what the first erases and what the second
/// erases.
pub proof fn lemma_erased_concat(first: Seq<Stage>, second: Seq<Stage>)
    ensures
        erased(first + second) == erased(first).union(erased(second)),
    decreases first.len(),
{
    if first.len() == 0 {
        assert(first + second =~= second);
    } else {
        assert((first + second).skip(1) =~= first.skip(1) + second);
        lemma_erased_concat(first.skip(1), second);
    }
    assert(erased(first + second) =~= erased(first).union(erased(second)));
}

/// A page program with the waits that see it through programs the first
/// `count` bytes of the data at `address`, keeps the rest of the data, and
/// erases nothing.
pub proof fn lemma_program_settled(address: u32, count: usize, page: Seq<u8>)
    requires
        count <= page.len(),
    ensures
        programmed(program_settled(address, count), page) == placed(
            address as int,
            page.subrange(0, count as int),
        ),
        page_after(program_settled(address, count), page) == page.subrange(
            count as int,
            page.len() as int,
        ),
        erased(program_settled(address, count)) == Set::<int>::empty(),
{
    let script = program_settled(address, count);
    let after_enable = script.skip(1);
    let after_wait = after_enable.skip(1);
    let after_program = after_wait.skip(1);
    let after_first = after_program.skip(1);
    let after_second = after_first.skip(1);
    let left = page.subrange(count as int, page.len() as int);
    assert(after_second =~= Seq::<Stage>::empty());
    assert(page_after(after_second, left) == left);
    assert(page_after(after_first, left) == left);
    assert(page_after(after_program, left) == left);
    assert(page_after(after_wait, page) == left);
    assert(page_after(after_enable, page) == left);
    assert(programmed(after_second, left) == Map::<int, u8>::empty());
    assert(programmed(after_first, left) == Map::<int, u8>::empty());
    assert(programmed(after_program, left) == Map::<int, u8>::empty());
    assert(programmed(after_wait, page) =~= placed(address as int, page.subrange(0, count as int)));
    assert(programmed(after_enable, page) == programmed(after_wait, page));
    assert(erased(after_second) == Set::<int>::empty());
    assert(erased(after_first) == Set::<int>::empty());
    assert(erased(after_program) == Set::<int>::empty());
    assert(erased(after_wait) == Set::<int>::empty());
    assert(erased(after_enable) == Set::<int>::empty());
}

/// Where neither of two scripts has a page program that leaves its page, the
/// two in a row have none.
pub proof fn lemma_within_pages_concat(first: Seq<Stage>, second: Seq<Stage>)
    requires
        within_pages(first),
        within_pages(second),
    ensures
        within_pages(first + second),
{
    assert forall|i: int| 0 <= i < (first + second).len() implies (#[trigger] (first + second)[i]
        matches Stage::PageProgram(address, count) ==> address % 256 + count <= 256) by {
        if i < first.len() {
            assert((first + second)[i] == first[i]);
        } else {
            assert((first + second)[i] == second[i - first.len()]);
        }
    }
}

} // verus!
