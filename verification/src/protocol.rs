//! The command protocol of the chip.
//!
//! An operation of the driver is a script: the stages it goes through, in
//! order. Each stage is one bus transaction, or, for [`Stage::AwaitReady`], the
//! same status read repeated until the chip reports that it is no longer busy.
//! The stage at the head of the script is the one whose transaction is on the
//! bus. [`next`] says how the script moves on when the transport reports back,
//! and [`run`] which transactions a sequence of such reports brings about.

use vstd::prelude::*;
use crate::bus::{BusError, ChannelWidth, Data, DataView, Transaction, TransactionView};
use crate::w25q::DeviceId;

verus! {

/// Instruction: leave power-down and report the device id.
pub const RELEASE_POWER_DOWN: u8 = 0xAB;

/// Instruction: read status register 1.
pub const READ_STATUS_1: u8 = 0x05;

/// Instruction: set the write-enable latch.
pub const WRITE_ENABLE: u8 = 0x06;

/// Instruction: read status register 2.
pub const READ_STATUS_2: u8 = 0x35;

/// Instruction: write status register 2.
pub const WRITE_STATUS_2: u8 = 0x31;

/// Instruction: erase one sector.
pub const SECTOR_ERASE: u8 = 0x20;

/// Instruction: erase the whole chip.
pub const CHIP_ERASE: u8 = 0x60;

/// Instruction: program one page, data on four lines.
pub const QUAD_PAGE_PROGRAM: u8 = 0x32;

/// Instruction: continuous read, address and data on four lines.
pub const QUAD_READ: u8 = 0xEB;

/// The dummy clock cycles between address and data of a quad read.
pub const QUAD_READ_DUMMY_CYCLES: u8 = 6;

/// Status register 1: an erase or program is still running in the chip.
pub const STATUS_BUSY: u8 = 0x01;

/// Status register 2: the chip accepts quad-line commands.
pub const STATUS_QUAD_ENABLE: u8 = 0x02;

/// Whether a byte of status register 1 shows the chip busy.
pub open spec fn busy_flag(status: u8) -> bool {
    status & 0x01 == 0x01
}

/// Whether a byte of status register 2 shows quad mode enabled.
pub open spec fn quad_enabled(status: u8) -> bool {
    status & 0x02 == 0x02
}

/// The first byte of what a read returned. A read is handed a zeroed buffer,
/// so a transport that returned nothing leaves a zero.
pub open spec fn first_byte(bytes: Seq<u8>) -> u8 {
    if bytes.len() > 0 {
        bytes[0]
    } else {
        0
    }
}

/// One stage of an operation.
#[derive(Debug, Copy, Clone, PartialEq, Eq, Structural)]
pub enum Stage {
    /// Release the chip from power-down; the reply is the device id.
    ReleasePowerDown,
    /// Read status register 1 once and report the busy flag.
    ReadStatus,
    /// Read status register 1 until the busy flag is clear.
    AwaitReady,
    /// Set the write-enable latch.
    WriteEnable,
    /// Read status register 2; where it shows quad mode off, switch it on.
    CheckQuadEnable,
    /// Write this byte to status register 2.
    WriteStatus2(u8),
    /// Erase the whole chip.
    ChipErase,
    /// Erase the sector that starts at this byte address.
    SectorErase(u32),
    /// Program the next so many bytes of the data the driver holds, starting
    /// at this byte address.
    PageProgram(u32, usize),
    /// Read this many bytes, starting at this byte address.
    Read(u32, usize),
}

/// A transaction that is an instruction byte and nothing else.
pub open spec fn bare_command(instruction: u8) -> TransactionView {
    TransactionView { instruction, address: None, dummy_cycles: 0, data: DataView::Absent }
}

/// A transaction that reads one register byte on a single line.
pub open spec fn register_read(instruction: u8, address: Option<(u32, ChannelWidth)>) -> TransactionView {
    TransactionView {
        instruction,
        address,
        dummy_cycles: 0,
        data: DataView::Read { len: 1, width: ChannelWidth::Single },
    }
}

/// The status read that the busy flag is taken from.
pub open spec fn status_read() -> TransactionView {
    register_read(READ_STATUS_1, None)
}

/// The command that sets the write-enable latch.
pub open spec fn write_enable() -> TransactionView {
    bare_command(WRITE_ENABLE)
}

impl Stage {
    /// Whether the stage starts a long-running erase or program in the chip.
    pub open spec fn is_trigger(self) -> bool {
        self is ChipErase || self is SectorErase || self is PageProgram
    }

    /// How many bytes of the data `page` that the driver holds go on the bus
    /// with the stage: those a page program names, as far as there are any.
    pub open spec fn taken(self, page: Seq<u8>) -> int {
        match self {
            Stage::PageProgram(_, len) => if len <= page.len() {
                len as int
            } else {
                page.len() as int
            },
            _ => 0,
        }
    }

    /// The transaction that puts the stage on the bus. `page` is the data the
    /// driver holds for the page programs still to come.
    pub open spec fn command(self, page: Seq<u8>) -> TransactionView {
        match self {
            Stage::ReleasePowerDown => register_read(
                RELEASE_POWER_DOWN,
                Some((0u32, ChannelWidth::Single)),
            ),
            Stage::ReadStatus => status_read(),
            Stage::AwaitReady => status_read(),
            Stage::WriteEnable => write_enable(),
            Stage::CheckQuadEnable => register_read(READ_STATUS_2, None),
            Stage::WriteStatus2(value) => TransactionView {
                instruction: WRITE_STATUS_2,
                address: Some((0u32, ChannelWidth::Single)),
                dummy_cycles: 0,
                data: DataView::Write { bytes: seq![value], width: ChannelWidth::Single },
            },
            Stage::ChipErase => bare_command(CHIP_ERASE),
            Stage::SectorErase(address) => TransactionView {
                instruction: SECTOR_ERASE,
                address: Some((address, ChannelWidth::Single)),
                dummy_cycles: 0,
                data: DataView::Absent,
            },
            Stage::PageProgram(address, _) => TransactionView {
                instruction: QUAD_PAGE_PROGRAM,
                address: Some((address, ChannelWidth::Single)),
                dummy_cycles: 0,
                data: DataView::Write {
                    bytes: page.subrange(0, self.taken(page)),
                    width: ChannelWidth::Quad,
                },
            },
            Stage::Read(address, len) => TransactionView {
                instruction: QUAD_READ,
                address: Some((address, ChannelWidth::Quad)),
                dummy_cycles: QUAD_READ_DUMMY_CYCLES,
                data: DataView::Read { len: len as nat, width: ChannelWidth::Quad },
            },
        }
    }

    /// The data the driver still holds once the stage is on the bus: what a
    /// page program did not take along.
    pub open spec fn page_left(self, page: Seq<u8>) -> Seq<u8> {
        if self is PageProgram {
            page.subrange(self.taken(page), page.len() as int)
        } else {
            page
        }
    }

    /// What the operation reports when this stage was its last and the
    /// transport returned `bytes` for it.
    pub open spec fn output(self, bytes: Seq<u8>) -> OutputView {
        match self {
            Stage::ReleasePowerDown => OutputView::DeviceId(DeviceId(first_byte(bytes))),
            Stage::ReadStatus => OutputView::Busy(busy_flag(first_byte(bytes))),
            Stage::Read(_, _) => OutputView::Data(bytes),
            Stage::ChipErase | Stage::SectorErase(_) | Stage::PageProgram(_, _) => OutputView::Pending,
            _ => OutputView::Nothing,
        }
    }

    /// Builds the transaction that puts the stage on the bus.
    pub(crate) fn issue(self, page: &mut Vec<u8>) -> (transaction: Transaction)
        ensures
            transaction@ == self.command(old(page)@),
            final(page)@ == self.page_left(old(page)@),
    {
        match self {
            Stage::ReleasePowerDown => Transaction {
                instruction: RELEASE_POWER_DOWN,
                address: Some((0u32, ChannelWidth::Single)),
                dummy_cycles: 0,
                data: Data::Read { len: 1, width: ChannelWidth::Single },
            },
            Stage::ReadStatus | Stage::AwaitReady => Transaction {
                instruction: READ_STATUS_1,
                address: None,
                dummy_cycles: 0,
                data: Data::Read { len: 1, width: ChannelWidth::Single },
            },
            Stage::WriteEnable => Transaction {
                instruction: WRITE_ENABLE,
                address: None,
                dummy_cycles: 0,
                data: Data::Absent,
            },
            Stage::CheckQuadEnable => Transaction {
                instruction: READ_STATUS_2,
                address: None,
                dummy_cycles: 0,
                data: Data::Read { len: 1, width: ChannelWidth::Single },
            },
            Stage::WriteStatus2(value) => {
                let mut bytes: Vec<u8> = Vec::new();
                bytes.push(value);
                assert(bytes@ =~= seq![value]);
                Transaction {
                    instruction: WRITE_STATUS_2,
                    address: Some((0u32, ChannelWidth::Single)),
                    dummy_cycles: 0,
                    data: Data::Write { bytes, width: ChannelWidth::Single },
                }
            },
            Stage::ChipErase => Transaction {
                instruction: CHIP_ERASE,
                address: None,
                dummy_cycles: 0,
                data: Data::Absent,
            },
            Stage::SectorErase(address) => Transaction {
                instruction: SECTOR_ERASE,
                address: Some((address, ChannelWidth::Single)),
                dummy_cycles: 0,
                data: Data::Absent,
            },
            Stage::PageProgram(address, len) => {
                let count: usize = if len <= page.len() {
                    len
                } else {
                    page.len()
                };
                let mut bytes: Vec<u8> = page.split_off(count);
                core::mem::swap(&mut bytes, page);
                Transaction {
                    instruction: QUAD_PAGE_PROGRAM,
                    address: Some((address, ChannelWidth::Single)),
                    dummy_cycles: 0,
                    data: Data::Write { bytes, width: ChannelWidth::Quad },
                }
            },
            Stage::Read(address, len) => Transaction {
                instruction: QUAD_READ,
                address: Some((address, ChannelWidth::Quad)),
                dummy_cycles: QUAD_READ_DUMMY_CYCLES,
                data: Data::Read { len, width: ChannelWidth::Quad },
            },
        }
    }
}

/// The stages that program `len` bytes at `address` and see the program
/// through: the program itself, then two waits for the busy flag.
pub open spec fn program_settled(address: u32, len: usize) -> Seq<Stage> {
    seq![
        Stage::WriteEnable,
        Stage::AwaitReady,
        Stage::PageProgram(address, len),
        Stage::AwaitReady,
        Stage::AwaitReady,
    ]
}

/// Whether every erase and program of `script` is guarded: the write-enable
/// command and one or two waits for the busy flag stand directly before it,
/// and a wait for the busy flag directly behind it.
pub open spec fn guarded(script: Seq<Stage>) -> bool {
    forall|i: int|
        0 <= i < script.len() && (#[trigger] script[i]).is_trigger() ==> {
            &&& i >= 2 && i + 1 < script.len()
            &&& script[i - 1] is AwaitReady
            &&& script[i - 2] is WriteEnable || (i >= 3 && script[i - 2] is AwaitReady && script[i
                - 3] is WriteEnable)
            &&& script[i + 1] is AwaitReady
        }
}

/// Two guarded scripts in a row are guarded.
pub proof fn lemma_guarded_concat(first: Seq<Stage>, second: Seq<Stage>)
    requires
        guarded(first),
        guarded(second),
    ensures
        guarded(first + second),
{
    let both = first + second;
    assert forall|i: int| 0 <= i < both.len() && (#[trigger] both[i]).is_trigger() implies {
        &&& i >= 2 && i + 1 < both.len()
        &&& both[i - 1] is AwaitReady
        &&& both[i - 2] is WriteEnable || (i >= 3 && both[i - 2] is AwaitReady && both[i - 3]
            is WriteEnable)
        &&& both[i + 1] is AwaitReady
    } by {
        if i < first.len() {
            assert(first[i].is_trigger());
        } else {
            assert(second[i - first.len()].is_trigger());
        }
    }
}

/// What a finished operation reports.
#[derive(Debug, Clone, PartialEq, Eq)]
pub enum Output {
    /// The operation reports nothing.
    Nothing,
    /// The device id the chip answered.
    DeviceId(DeviceId),
    /// Whether the chip reported itself busy.
    Busy(bool),
    /// The bytes that were read.
    Data(Vec<u8>),
    /// An erase or program was started; the chip is busy until a status read
    /// shows otherwise.
    Pending,
}

/// The mathematical content of [`Output`].
pub enum OutputView {
    Nothing,
    DeviceId(DeviceId),
    Busy(bool),
    Data(Seq<u8>),
    Pending,
}

impl View for Output {
    type V = OutputView;

    open spec fn view(&self) -> OutputView {
        match *self {
            Output::Nothing => OutputView::Nothing,
            Output::DeviceId(id) => OutputView::DeviceId(id),
            Output::Busy(busy) => OutputView::Busy(busy),
            Output::Data(bytes) => OutputView::Data(bytes@),
            Output::Pending => OutputView::Pending,
        }
    }
}

/// What the driver asks of its caller next.
#[derive(Debug, Clone, PartialEq, Eq)]
pub enum Step {
    /// Perform this transaction and hand what the transport reports to
    /// `resume`.
    Transfer(Transaction),
    /// The operation is complete.
    Done(Output),
    /// The operation ended with this error; nothing more is issued for it.
    Failed(BusError),
}

/// The mathematical content of [`Step`].
pub enum StepView {
    Transfer(TransactionView),
    Done(OutputView),
    Failed(BusError),
}

impl View for Step {
    type V = StepView;

    open spec fn view(&self) -> StepView {
        match *self {
            Step::Transfer(transaction) => StepView::Transfer(transaction@),
            Step::Done(output) => StepView::Done(output@),
            Step::Failed(error) => StepView::Failed(error),
        }
    }
}

/// The state of the driver.
pub struct State {
    /// The stages still to go through. The head is on the bus; an empty script
    /// means that no transaction is outstanding.
    pub script: Seq<Stage>,
    /// The data of the page programs that are not on the bus yet, in the
    /// order in which they take it.
    pub page: Seq<u8>,
    /// An erase or program was started and no status read has shown the busy
    /// flag clear since.
    pub unresolved: bool,
}

impl State {
    /// No transaction is outstanding.
    pub open spec fn idle(self) -> bool {
        self.script.len() == 0
    }

    /// No transaction is outstanding and no erase or program is unresolved:
    /// the driver accepts any operation.
    pub open spec fn at_rest(self) -> bool {
        self.idle() && !self.unresolved
    }

    /// The state in which nothing is outstanding and nothing unresolved.
    pub open spec fn rest() -> State {
        State { script: Seq::empty(), page: Seq::empty(), unresolved: false }
    }

    /// Puts the head of the script on the bus, or ends the operation with
    /// `output` where the script is used up.
    pub open spec fn proceed(self, output: OutputView) -> (State, StepView) {
        if self.script.len() == 0 {
            (self, StepView::Done(output))
        } else {
            (
                State { page: self.script[0].page_left(self.page), ..self },
                StepView::Transfer(self.script[0].command(self.page)),
            )
        }
    }

    /// Starts the operation `script` with the data `page` for its page
    /// programs, where the driver may: the first stage goes on the bus. Otherwise the driver refuses with
    /// [`BusError::Busy`] and stays as it is.
    pub open spec fn begin(self, may: bool, script: Seq<Stage>, page: Seq<u8>) -> (State, StepView) {
        if may {
            State { script, page, unresolved: self.unresolved }.proceed(OutputView::Nothing)
        } else {
            (self, StepView::Failed(BusError::Busy))
        }
    }
}

/// What the driver does when the transport reports `reply` for the
/// transaction on the bus.
///
/// An error ends the operation at once and is passed on unchanged. A status
/// read that shows the chip busy is repeated while the script waits for the
/// chip; one that shows it ready resolves a pending erase or program. A reply
/// that belongs to no transaction is refused as a malformed call.
pub open spec fn next(state: State, reply: Result<Seq<u8>, BusError>) -> (State, StepView) {
    if state.script.len() == 0 {
        (state, StepView::Failed(BusError::ArgumentInvalid))
    } else {
        let stage = state.script[0];
        let rest = state.script.skip(1);
        match reply {
            Err(error) => (
                State { script: Seq::empty(), page: Seq::empty(), unresolved: state.unresolved },
                StepView::Failed(error),
            ),
            Ok(bytes) => {
                let status = first_byte(bytes);
                match stage {
                    Stage::AwaitReady => if busy_flag(status) {
                        (state, StepView::Transfer(status_read()))
                    } else {
                        State { script: rest, unresolved: false, ..state }.proceed(
                            OutputView::Nothing,
                        )
                    },
                    Stage::ReadStatus => State {
                        script: rest,
                        unresolved: state.unresolved && busy_flag(status),
                        ..state
                    }.proceed(stage.output(bytes)),
                    Stage::CheckQuadEnable => if quad_enabled(status) {
                        State { script: rest, ..state }.proceed(OutputView::Nothing)
                    } else {
                        State {
                            script: seq![
                                Stage::WriteEnable,
                                Stage::AwaitReady,
                                Stage::WriteStatus2(status | 0x02),
                            ] + rest,
                            ..state
                        }.proceed(OutputView::Nothing)
                    },
                    _ => State {
                        script: rest,
                        unresolved: state.unresolved || stage.is_trigger(),
                        ..state
                    }.proceed(stage.output(bytes)),
                }
            },
        }
    }
}

/// The state the driver is in once the transport has reported `replies`, one
/// after the other, and the transactions the driver handed out in answer, in
/// order. The transaction that was on the bus before the first reply is not
/// among them.
pub open spec fn run(state: State, replies: Seq<Result<Seq<u8>, BusError>>) -> (
    State,
    Seq<TransactionView>,
)
    decreases replies.len(),
{
    if replies.len() == 0 {
        (state, Seq::empty())
    } else {
        let (before, issued) = run(state, replies.drop_last());
        let (after, step) = next(before, replies.last());
        (
            after,
            match step {
                StepView::Transfer(transaction) => issued.push(transaction),
                _ => issued,
            },
        )
    }
}

/// The step the driver answers the last of `replies` with.
pub open spec fn last_step(state: State, replies: Seq<Result<Seq<u8>, BusError>>) -> StepView
    recommends
        replies.len() > 0,
{
    next(run(state, replies.drop_last()).0, replies.last()).1
}

/// `count` status reads in a row.
pub open spec fn status_reads(count: nat) -> Seq<TransactionView> {
    Seq::new(count, |i: int| status_read())
}

/// A driver with no transaction outstanding hands out none, whatever is
/// reported to it, and stays as it is.
pub proof fn lemma_idle_issues_nothing(state: State, replies: Seq<Result<Seq<u8>, BusError>>)
    requires
        state.idle(),
    ensures
        run(state, replies) == (state, Seq::<TransactionView>::empty()),
    decreases replies.len(),
{
    if replies.len() > 0 {
        lemma_idle_issues_nothing(state, replies.drop_last());
    }
}

/// Whether `issued` is status reads only, then at most once `trigger`, and
/// nothing after it.
pub open spec fn status_reads_then_at_most(
    issued: Seq<TransactionView>,
    trigger: TransactionView,
) -> bool {
    issued == status_reads(issued.len()) || issued == status_reads(
        (issued.len() - 1) as nat,
    ).push(trigger)
}

/// An erase or a program is one write-enable and one triggering command.
///
/// `script` is the script of a page program, or that of a sector or chip
/// erase, which waits once more before `trigger`, its last stage. The
/// operation starts with the write-enable command. Whatever the transport
/// reports from then on, the driver hands out status reads only, until it
/// hands out the triggering command, with the data the operation was started
/// with; that command comes at most once, and nothing comes after it. It has
/// come, after at least one status read for each wait of the script, whenever
/// the operation leaves an erase or program unresolved.
pub proof fn lemma_write_enable_then_one_trigger(
    start: State,
    script: Seq<Stage>,
    trigger: Stage,
    page: Seq<u8>,
    replies: Seq<Result<Seq<u8>, BusError>>,
)
    requires
        start.at_rest(),
        trigger.is_trigger(),
        script == seq![Stage::WriteEnable, Stage::AwaitReady, trigger] || script == seq![
            Stage::WriteEnable,
            Stage::AwaitReady,
            Stage::AwaitReady,
            trigger,
        ],
    ensures
        ({
            let (armed, first) = start.begin(true, script, page);
            let (end, issued) = run(armed, replies);
            &&& first == StepView::Transfer(write_enable())
            &&& status_reads_then_at_most(issued, trigger.command(page))
            &&& end.unresolved ==> {
                &&& end.idle()
                &&& issued.len() >= script.len() - 1
                &&& issued.last() == trigger.command(page)
            }
        }),
{
    let armed = start.begin(true, script, page).0;
    lemma_armed_run(armed, script, trigger, page, replies);
    let issued = run(armed, replies).1;
    if issued.len() == 0 {
        assert(issued =~= status_reads(0));
    }
}

/// Where the script of an erase or a program stands after any sequence of
/// replies, and what has been handed out by then.
proof fn lemma_armed_run(
    armed: State,
    script: Seq<Stage>,
    trigger: Stage,
    page: Seq<u8>,
    replies: Seq<Result<Seq<u8>, BusError>>,
)
    requires
        trigger.is_trigger(),
        script == seq![Stage::WriteEnable, Stage::AwaitReady, Stage::AwaitReady, trigger]
            || script == seq![Stage::WriteEnable, Stage::AwaitReady, trigger],
        armed == (State { script, page, unresolved: false }),
    ensures
        ({
            let (end, issued) = run(armed, replies);
            let polls = status_reads((issued.len() - 1) as nat);
            let fired = issued.len() >= script.len() - 1 && issued == polls.push(
                trigger.command(page),
            );
            &&& issued.len() + end.script.len() >= script.len() || end.idle()
            &&& end.script == script ==> issued.len() == 0 && end == armed
            &&& end.script != script && end.script.len() >= 2 ==> {
                &&& issued == status_reads(issued.len())
                &&& end.page == page
                &&& !end.unresolved
                &&& end.script == seq![Stage::AwaitReady, trigger] || (script.len() == 4
                    && end.script == seq![Stage::AwaitReady, Stage::AwaitReady, trigger])
            }
            &&& end.script.len() == 1 ==> end.script == seq![trigger] && fired && !end.unresolved
            &&& end.idle() ==> issued == status_reads(issued.len()) || fired
            &&& end.unresolved ==> end.idle() && fired
        }),
    decreases replies.len(),
{
    if replies.len() > 0 {
        lemma_armed_run(armed, script, trigger, page, replies.drop_last());
        let (before, sent) = run(armed, replies.drop_last());
        let (end, issued) = run(armed, replies);
        let (after, step) = next(before, replies.last());
        assert(end == after);
        assert(status_reads(sent.len()).push(status_read()) =~= status_reads(sent.len() + 1));
        if before.script.len() > 0 {
            assert(before.script.skip(1).len() == before.script.len() - 1);
            if before.script == script {
                assert(script.skip(1) =~= if script.len() == 4 {
                    seq![Stage::AwaitReady, Stage::AwaitReady, trigger]
                } else {
                    seq![Stage::AwaitReady, trigger]
                });
                assert(sent =~= status_reads(0));
            } else if before.script.len() >= 2 {
                assert(seq![Stage::AwaitReady, Stage::AwaitReady, trigger].skip(1) =~= seq![
                    Stage::AwaitReady,
                    trigger,
                ]);
                assert(seq![Stage::AwaitReady, trigger].skip(1) =~= seq![trigger]);
            } else {
                assert(seq![trigger].skip(1) =~= Seq::<Stage>::empty());
            }
        }
    } else {
        assert(run(armed, replies).1 =~= status_reads(0));
    }
}

/// An erase or program is resolved by nothing but a status read that shows
/// the chip ready: where a reply takes the driver from unresolved to
/// resolved, the transaction on the bus was a status read, and the reply
/// carried a status with the busy flag clear.
pub proof fn lemma_only_a_ready_status_resolves(state: State, reply: Result<Seq<u8>, BusError>)
    requires
        state.unresolved,
        !next(state, reply).0.unresolved,
    ensures
        state.script.len() > 0,
        state.script[0] is AwaitReady || state.script[0] is ReadStatus,
        state.script[0].command(state.page) == status_read(),
        reply matches Ok(bytes) && !busy_flag(first_byte(bytes)),
{
}

/// No stage follows another before the transport has reported success for
/// the one on the bus: where a reply makes the driver hand out the
/// transaction of the next stage, that reply was no error, and where the
/// stage on the bus was a wait, it carried a status with the busy flag clear.
pub proof fn lemma_stages_follow_success(state: State, reply: Result<Seq<u8>, BusError>)
    requires
        state.script.len() > 0,
        next(state, reply).0.script != state.script,
        next(state, reply).1 is Transfer,
    ensures
        reply matches Ok(bytes) && (state.script[0] is AwaitReady ==> !busy_flag(
            first_byte(bytes),
        )),
{
}

/// Waiting on the busy flag hands out status reads and nothing else, and it
/// is done only when the last of them showed the flag clear; the driver is
/// then at rest, with nothing left unresolved.
pub proof fn lemma_wait_ends_ready(
    start: State,
    replies: Seq<Result<Seq<u8>, BusError>>,
)
    requires
        start.idle(),
        replies.len() > 0,
    ensures
        ({
            let (waiting, first) = start.begin(true, seq![Stage::AwaitReady], Seq::empty());
            let (end, issued) = run(waiting, replies);
            &&& first == StepView::Transfer(status_read())
            &&& issued == status_reads(issued.len())
            &&& last_step(waiting, replies) is Done ==> {
                &&& end.at_rest()
                &&& replies.last() matches Ok(bytes) && !busy_flag(first_byte(bytes))
            }
        }),
{
    let waiting = start.begin(true, seq![Stage::AwaitReady], Seq::empty()).0;
    lemma_wait_run(waiting, replies);
    lemma_wait_run(waiting, replies.drop_last());
}

/// While the driver waits on the busy flag it repeats the status read.
proof fn lemma_wait_run(waiting: State, replies: Seq<Result<Seq<u8>, BusError>>)
    requires
        waiting.script == seq![Stage::AwaitReady],
    ensures
        ({
            let (end, issued) = run(waiting, replies);
            &&& issued == status_reads(issued.len())
            &&& end == waiting || end.idle()
        }),
    decreases replies.len(),
{
    if replies.len() > 0 {
        lemma_wait_run(waiting, replies.drop_last());
        let (before, sent) = run(waiting, replies.drop_last());
        assert(status_reads(sent.len()).push(status_read()) =~= status_reads(sent.len() + 1));
        assert(seq![Stage::AwaitReady].skip(1) =~= Seq::<Stage>::empty());
    } else {
        assert(run(waiting, replies).1 =~= status_reads(0));
    }
}

/// Where status register 2 already shows quad mode enabled, enabling it
/// writes nothing: the operation is done with the status read it began with,
/// and no further transaction is handed out.
pub proof fn lemma_quad_enable_writes_nothing_when_set(
    start: State,
    replies: Seq<Result<Seq<u8>, BusError>>,
)
    requires
        start.at_rest(),
        replies.len() > 0,
        replies[0] matches Ok(bytes) && quad_enabled(first_byte(bytes)),
    ensures
        ({
            let (checking, first) = start.begin(true, seq![Stage::CheckQuadEnable], Seq::empty());
            &&& first == StepView::Transfer(register_read(READ_STATUS_2, None))
            &&& next(checking, replies[0]).1 == StepView::Done(OutputView::Nothing)
            &&& run(checking, replies).1 == Seq::<TransactionView>::empty()
            &&& run(checking, replies).0.at_rest()
        }),
    decreases replies.len(),
{
    let checking = start.begin(true, seq![Stage::CheckQuadEnable], Seq::empty()).0;
    assert(seq![Stage::CheckQuadEnable].skip(1) =~= Seq::<Stage>::empty());
    if replies.len() == 1 {
        assert(run(checking, replies.drop_last()) == (checking, Seq::<TransactionView>::empty()));
        assert(replies.last() == replies[0]);
    } else {
        assert(replies.drop_last()[0] == replies[0]);
        lemma_quad_enable_writes_nothing_when_set(start, replies.drop_last());
    }
}

} // verus!
