//! The mining cycle of one miner: fetch a template, mine it, submit the
//! block, wait, and begin again.
//!
//! The cycle is a state machine. Whoever drives it performs the action that
//! the machine asks for, which may be a request to the ledger or a pause, and
//! hands back what came of it as an event. The machine decides what follows
//! and keeps the count of the blocks that the ledger accepted.

use crate::block::is_hash_text;
use crate::block::lemma_mineable_searchable;
use crate::block::Block;
use crate::block::BlockInfo;
use crate::block::BlockInfoView;
use crate::block::BlockView;
use crate::block::MinerError;
use vstd::prelude::*;

verus! {

/// The pause between two rounds of the cycle, in seconds.
pub const WAIT_SECONDS: u64 = 1;

/// Where the cycle stands.
#[derive(Debug, Clone, Copy, PartialEq, Eq, Structural)]
pub enum Phase {
    /// A template has been asked of the ledger.
    Fetching,
    /// A template is being mined.
    Mining,
    /// A mined block has been sent to the ledger.
    Submitting,
    /// The pause before the next round.
    Waiting,
}

/// What came of the action that the cycle asked for.
#[derive(Debug)]
pub enum Event {
    /// The ledger gave a template.
    TemplateFetched(BlockInfo),
    /// The request for a template failed, or its answer was malformed.
    FetchFailed,
    /// The template was mined into this block.
    BlockMined(Block),
    /// The ledger took the block.
    SubmitAccepted,
    /// The ledger refused the block, or the request failed.
    SubmitFailed,
    /// The pause is over.
    WaitElapsed,
}

/// What the cycle asks its driver to do next.
#[derive(Debug)]
pub enum Action {
    /// Ask the ledger for the next template.
    Fetch,
    /// Mine this template.
    Mine(BlockInfo),
    /// Send this payload to the ledger.
    Submit(BlockInfo),
    /// Pause for this many seconds.
    Wait(u64),
}

/// The state of the cycle.
#[derive(Debug, Clone, Copy, PartialEq, Eq, Structural)]
pub struct MiningCycle {
    /// Where the cycle stands.
    pub phase: Phase,
    /// How many blocks the ledger has accepted so far.
    pub total_mined: u64,
}

/// The mathematical content of an [`Event`].
pub enum EventView {
    TemplateFetched(BlockInfoView),
    FetchFailed,
    BlockMined(BlockView),
    SubmitAccepted,
    SubmitFailed,
    WaitElapsed,
}

/// The mathematical content of an [`Action`].
pub enum ActionView {
    Fetch,
    Mine(BlockInfoView),
    Submit(BlockInfoView),
    Wait(nat),
}

/// The mathematical content of a [`MiningCycle`].
pub struct CycleView {
    pub phase: Phase,
    pub total_mined: nat,
}

impl View for Event {
    type V = EventView;

    open spec fn view(&self) -> EventView {
        match *self {
            Event::TemplateFetched(template) => EventView::TemplateFetched(template@),
            Event::FetchFailed => EventView::FetchFailed,
            Event::BlockMined(block) => EventView::BlockMined(block@),
            Event::SubmitAccepted => EventView::SubmitAccepted,
            Event::SubmitFailed => EventView::SubmitFailed,
            Event::WaitElapsed => EventView::WaitElapsed,
        }
    }
}

impl View for Action {
    type V = ActionView;

    open spec fn view(&self) -> ActionView {
        match *self {
            Action::Fetch => ActionView::Fetch,
            Action::Mine(template) => ActionView::Mine(template@),
            Action::Submit(payload) => ActionView::Submit(payload@),
            Action::Wait(seconds) => ActionView::Wait(seconds as nat),
        }
    }
}

impl View for MiningCycle {
    type V = CycleView;

    open spec fn view(&self) -> CycleView {
        CycleView { phase: self.phase, total_mined: self.total_mined as nat }
    }
}

impl CycleView {
    /// The cycle as it begins: fetching, with nothing mined yet.
    pub open spec fn initial() -> CycleView {
        CycleView { phase: Phase::Fetching, total_mined: 0 }
    }

    /// The same count in another phase.
    pub open spec fn at(self, phase: Phase) -> CycleView {
        CycleView { phase, total_mined: self.total_mined }
    }

    /// The cycle's answer to `event`: the state that follows and the action
    /// to perform, or nothing where the phase does not await such an event.
    ///
    /// A fetched template is mined; a mined block is submitted as its
    /// template-shaped projection; an accepted submission counts one block.
    /// A failed fetch and a failed submission lead straight to the pause:
    /// nothing is mined, nothing is sent again, nothing is counted.
    pub open spec fn next(self, event: EventView) -> Option<(CycleView, ActionView)> {
        match (self.phase, event) {
            (Phase::Fetching, EventView::TemplateFetched(template)) => Some(
                (self.at(Phase::Mining), ActionView::Mine(template)),
            ),
            (Phase::Fetching, EventView::FetchFailed) => Some(
                (self.at(Phase::Waiting), ActionView::Wait(WAIT_SECONDS as nat)),
            ),
            (Phase::Mining, EventView::BlockMined(block)) => Some(
                (self.at(Phase::Submitting), ActionView::Submit(block.template())),
            ),
            (Phase::Submitting, EventView::SubmitAccepted) => Some(
                (
                    CycleView { phase: Phase::Waiting, total_mined: self.total_mined + 1 },
                    ActionView::Wait(WAIT_SECONDS as nat),
                ),
            ),
            (Phase::Submitting, EventView::SubmitFailed) => Some(
                (self.at(Phase::Waiting), ActionView::Wait(WAIT_SECONDS as nat)),
            ),
            (Phase::Waiting, EventView::WaitElapsed) => Some(
                (self.at(Phase::Fetching), ActionView::Fetch),
            ),
            _ => None,
        }
    }
}

/// A failed fetch leads to the pause: nothing is mined and nothing counted.
/// A failed submission leads to the pause as well: the block is not sent
/// again and nothing is counted.
pub proof fn lemma_failure_isolation(cycle: CycleView)
    ensures
        cycle.phase == Phase::Fetching ==> cycle.next(EventView::FetchFailed) == Some(
            (cycle.at(Phase::Waiting), ActionView::Wait(WAIT_SECONDS as nat)),
        ),
        cycle.phase == Phase::Submitting ==> cycle.next(EventView::SubmitFailed) == Some(
            (cycle.at(Phase::Waiting), ActionView::Wait(WAIT_SECONDS as nat)),
        ),
{
}

/// In every step the count of mined blocks stays, but for an accepted
/// submission, which adds one. Mining is asked for only when a template was
/// fetched, and a submission only when a block was mined.
pub proof fn lemma_step_effects(cycle: CycleView, event: EventView)
    ensures
        match cycle.next(event) {
            Some((state, action)) => {
                &&& state.total_mined == cycle.total_mined + (if cycle.phase == Phase::Submitting
                    && event is SubmitAccepted {
                    1nat
                } else {
                    0nat
                })
                &&& action is Mine ==> cycle.phase == Phase::Fetching && event is TemplateFetched
                &&& action is Submit ==> cycle.phase == Phase::Mining && event is BlockMined
                &&& action is Fetch ==> cycle.phase == Phase::Waiting && event is WaitElapsed
            },
            None => true,
        },
{
}

/// One whole round through the cycle, from a fetched template to the next
/// fetch, counts one block when the ledger accepts the submission and none
/// when it does not.
pub proof fn lemma_round(
    cycle: CycleView,
    template: BlockInfoView,
    block: BlockView,
    accepted: bool,
)
    requires
        cycle.phase == Phase::Fetching,
    ensures
        ({
            let outcome = if accepted {
                EventView::SubmitAccepted
            } else {
                EventView::SubmitFailed
            };
            let (mining, _) = cycle.next(EventView::TemplateFetched(template)).unwrap();
            let (submitting, _) = mining.next(EventView::BlockMined(block)).unwrap();
            let (waiting, _) = submitting.next(outcome).unwrap();
            let (fetching, _) = waiting.next(EventView::WaitElapsed).unwrap();
            &&& fetching.phase == Phase::Fetching
            &&& fetching.total_mined == cycle.total_mined + (if accepted {
                1nat
            } else {
                0nat
            })
        }),
{
}

impl MiningCycle {
    /// Begins the cycle: nothing mined yet, and a template to fetch.
    pub fn begin() -> (started: (MiningCycle, Action))
        ensures
            started.0@ == CycleView::initial(),
            started.1@ == ActionView::Fetch,
    {
        (MiningCycle { phase: Phase::Fetching, total_mined: 0 }, Action::Fetch)
    }

    /// Takes `event` and answers with the action to perform next. Where the
    /// present phase does not await such an event, the cycle stays as it is
    /// and there is no action.
    pub fn step(&mut self, event: Event) -> (action: Option<Action>)
        requires
            old(self).phase == Phase::Submitting && event is SubmitAccepted ==> old(
                self,
            ).total_mined < u64::MAX,
        ensures
            match old(self)@.next(event@) {
                Some((state, todo)) => {
                    &&& final(self)@ == state
                    &&& action matches Some(given)
                    &&& given@ == todo
                },
                None => {
                    &&& final(self)@ == old(self)@
                    &&& action is None
                },
            },
    {
        match (self.phase, event) {
            (Phase::Fetching, Event::TemplateFetched(template)) => {
                self.phase = Phase::Mining;
                Some(Action::Mine(template))
            },
            (Phase::Fetching, Event::FetchFailed) => {
                self.phase = Phase::Waiting;
                Some(Action::Wait(WAIT_SECONDS))
            },
            (Phase::Mining, Event::BlockMined(block)) => {
                self.phase = Phase::Submitting;
                Some(Action::Submit(block.to_dict()))
            },
            (Phase::Submitting, Event::SubmitAccepted) => {
                self.phase = Phase::Waiting;
                self.total_mined = self.total_mined + 1;
                Some(Action::Wait(WAIT_SECONDS))
            },
            (Phase::Submitting, Event::SubmitFailed) => {
                self.phase = Phase::Waiting;
                Some(Action::Wait(WAIT_SECONDS))
            },
            (Phase::Waiting, Event::WaitElapsed) => {
                self.phase = Phase::Fetching;
                Some(Action::Fetch)
            },
            _ => None,
        }
    }
}

/// `block` is what mining `template` at `timestamp` with `marker` gives: the
/// template's fresh block with the marker appended to its data once, the
/// least nonce with which its hash meets the template's difficulty, and the
/// hash of these contents, 64 hexadecimal characters long.
pub open spec fn mined_from(
    template: BlockInfoView,
    timestamp: nat,
    marker: Seq<char>,
    block: BlockView,
) -> bool {
    let start = template.block_at(timestamp).with_marker(marker);
    &&& start.searched_to(block)
    &&& start.first_win(template.difficulty, 0, block.nonce)
    &&& block.mined_for(template.difficulty)
    &&& is_hash_text(block.hash)
}

/// The work of the mining phase at a given time: makes the block of
/// `block_info` with `timestamp` and mines it for the template's difficulty
/// with `public_key` as the miner's marker.
pub fn mine_block_at(block_info: BlockInfo, timestamp: u64, public_key: &str) -> (mined: Result<
    Block,
    MinerError,
>)
    requires
        block_info@.mineable(public_key@),
    ensures
        match mined {
            Ok(block) => mined_from(block_info@, timestamp as nat, public_key@, block@),
            Err(error) => {
                &&& error == MinerError::NonceExhausted
                &&& block_info@.block_at(timestamp as nat).with_marker(public_key@).no_win(
                    block_info@.difficulty,
                    0,
                )
            },
        },
        block_info.difficulty == 0 ==> (mined matches Ok(block) && block.nonce == 0),
{
    proof {
        lemma_mineable_searchable(block_info@, public_key@, timestamp);
    }
    let difficulty: u64 = block_info.difficulty;
    let mut block: Block = Block::with_timestamp(block_info, timestamp);
    match block.mine(difficulty, public_key) {
        Ok(()) => Ok(block),
        Err(error) => Err(error),
    }
}

/// The work of the mining phase: makes the block of `block_info` at the
/// present time of the system clock and mines it for the template's
/// difficulty with `public_key` as the miner's marker.
pub fn mine_block(block_info: BlockInfo, public_key: &str) -> (mined: Result<Block, MinerError>)
    requires
        block_info@.mineable(public_key@),
    ensures
        match mined {
            Ok(block) => mined_from(block_info@, block@.timestamp, public_key@, block@),
            Err(error) => error == MinerError::ClockUnavailable || error
                == MinerError::NonceExhausted,
        },
        block_info.difficulty == 0 ==> match mined {
            Ok(block) => block.nonce == 0,
            Err(error) => error == MinerError::ClockUnavailable,
        },
{
    proof {
        assert forall|timestamp: u64|
            (#[trigger] block_info@.block_at(timestamp as nat)).with_marker(
                public_key@,
            ).searchable() by {
            lemma_mineable_searchable(block_info@, public_key@, timestamp);
        }
    }
    let difficulty: u64 = block_info.difficulty;
    match Block::from_block_info(block_info) {
        Ok(block) => {
            let mut block: Block = block;
            match block.mine(difficulty, public_key) {
                Ok(()) => Ok(block),
                Err(error) => Err(error),
            }
        },
        Err(error) => Err(error),
    }
}

} // verus!
