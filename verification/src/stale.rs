//! Detection of an IMU board that keeps answering without refreshing its sample.
//!
//! The read succeeds but hands back the block it handed back last time, which feeds the
//! policy dead orientation data. Nothing else on the robot reports it, so every block is
//! compared with its predecessor and repeats are counted.

use vstd::prelude::*;
use crate::model::IMU_BLOCK_LEN;

verus! {

/// Run of consecutive stale reads at which the journal says something: half a second at
/// 50 Hz.
pub const STALE_RUN_WARN: u64 = 25;

/// Past the threshold, a still-frozen board is reported again every this many reads.
pub const STALE_RUN_REPEAT: u64 = 500;

/// Counters of blocks identical to their predecessor.
#[derive(Clone, Copy, Debug, PartialEq, Eq, Structural)]
pub struct ImuStale {
    /// Repeats ever seen: "how often has this happened".
    pub total: u64,
    /// Length of the current run of repeats: "how bad is it now".
    pub run: u64,
}

/// `x + 1`, held at the top of the range.
pub open spec fn saturating_inc(x: u64) -> u64 {
    if x == u64::MAX { x } else { (x + 1) as u64 }
}

/// The counters after one more block arrives, given the block that came before it.
pub open spec fn stale_after(previous: Option<Seq<u8>>, stale: ImuStale, block: Seq<u8>) -> ImuStale {
    if previous == Some(block) {
        ImuStale { total: saturating_inc(stale.total), run: saturating_inc(stale.run) }
    } else {
        ImuStale { total: stale.total, run: 0 }
    }
}

/// Remembers the last block and counts repeats of it.
pub struct StaleImuTracker {
    /// `None` until the first block: an all-zero initial value would score the first block of
    /// a board whose table is still empty as a repeat of a block that never existed.
    pub last: Option<[u8; IMU_BLOCK_LEN]>,
    pub stale: ImuStale,
}

impl StaleImuTracker {
    /// The block observed last, if any.
    pub open spec fn previous(&self) -> Option<Seq<u8>> {
        match self.last {
            Some(b) => Some(b@),
            None => None,
        }
    }

    /// Records one block and returns the length of the run it belongs to: 0 when the block
    /// is fresh.
    pub fn observe(&mut self, block: &[u8; IMU_BLOCK_LEN]) -> (run: u64)
        ensures
            final(self).previous() == Some(block@),
            final(self).stale == stale_after(old(self).previous(), old(self).stale, block@),
            run == final(self).stale.run,
    {
        let repeat = match &self.last {
            Some(prev) => same_block(prev, block),
            None => false,
        };
        self.last = Some(*block);
        if repeat {
            self.stale.total = self.stale.total.saturating_add(1);
            self.stale.run = self.stale.run.saturating_add(1);
        } else {
            self.stale.run = 0;
        }
        self.stale.run
    }
}

impl Default for StaleImuTracker {
    fn default() -> (t: Self)
        ensures
            t.previous() is None,
            t.stale == (ImuStale { total: 0, run: 0 }),
    {
        StaleImuTracker { last: None, stale: ImuStale { total: 0, run: 0 } }
    }
}

/// Whether two blocks hold the same bytes.
fn same_block(a: &[u8; IMU_BLOCK_LEN], b: &[u8; IMU_BLOCK_LEN]) -> (same: bool)
    ensures
        same == (a@ == b@),
{
    let mut i: usize = 0;
    while i < IMU_BLOCK_LEN
        invariant
            i <= IMU_BLOCK_LEN,
            a@.len() == IMU_BLOCK_LEN,
            b@.len() == IMU_BLOCK_LEN,
            forall|j: int| 0 <= j < i ==> a@[j] == b@[j],
        decreases IMU_BLOCK_LEN - i,
    {
        if a[i] != b[i] {
            assert(a@[i as int] != b@[i as int]);
            return false;
        }
        i = i + 1;
    }
    assert(a@ =~= b@);
    true
}

/// Whether a run of this length should be reported: once when it reaches the threshold,
/// then every `STALE_RUN_REPEAT` reads while it lasts.
pub fn stale_warning_due(run: u64) -> (due: bool)
    ensures
        due == (run == STALE_RUN_WARN || (run > STALE_RUN_WARN && run % STALE_RUN_REPEAT == 0)),
{
    run == STALE_RUN_WARN || (run > STALE_RUN_WARN && run % STALE_RUN_REPEAT == 0)
}

/// The counters after a sequence of blocks, starting from `previous` and `stale`.
pub open spec fn stale_after_all(previous: Option<Seq<u8>>, stale: ImuStale, blocks: Seq<Seq<u8>>) -> ImuStale
    decreases blocks.len(),
{
    if blocks.len() == 0 {
        stale
    } else {
        stale_after_all(Some(blocks[0]), stale_after(previous, stale, blocks[0]), blocks.drop_first())
    }
}

/// The first block has no predecessor, so it is never stale: it leaves the total alone and
/// the run at zero.
pub proof fn first_block_is_never_stale(stale: ImuStale, block: Seq<u8>)
    ensures
        stale_after(None, stale, block) == (ImuStale { total: stale.total, run: 0 }),
{
}

/// A block that differs from its predecessor ends the run and leaves the total as it was.
pub proof fn a_fresh_block_ends_the_run(previous: Option<Seq<u8>>, stale: ImuStale, block: Seq<u8>)
    requires
        previous != Some(block),
    ensures
        stale_after(previous, stale, block).run == 0,
        stale_after(previous, stale, block).total == stale.total,
{
}

/// The total never goes down, and a run is never longer than the total that contains it.
pub proof fn counters_stay_ordered(previous: Option<Seq<u8>>, stale: ImuStale, block: Seq<u8>)
    requires
        stale.run <= stale.total,
    ensures
        stale_after(previous, stale, block).total >= stale.total,
        stale_after(previous, stale, block).run <= stale_after(previous, stale, block).total,
{
}

/// A board that keeps repeating the block it last sent adds one to both the run and the total
/// for every repeat, so its run reaches any threshold.
pub proof fn a_frozen_board_runs_on(stale: ImuStale, block: Seq<u8>, n: nat)
    requires
        stale.total + n <= u64::MAX,
        stale.run + n <= u64::MAX,
    ensures
        stale_after_all(Some(block), stale, Seq::new(n, |i: int| block))
            == (ImuStale { total: (stale.total + n) as u64, run: (stale.run + n) as u64 }),
    decreases n,
{
    if n > 0 {
        let next = stale_after(Some(block), stale, block);
        assert(Seq::new(n, |i: int| block).drop_first() =~= Seq::new((n - 1) as nat, |i: int| block));
        a_frozen_board_runs_on(next, block, (n - 1) as nat);
    }
}

/// Repeats accumulate into the total across separate episodes: however the blocks go, the
/// total after them is the total before plus one for every block equal to its predecessor.
pub proof fn episodes_add_up(previous: Option<Seq<u8>>, stale: ImuStale, blocks: Seq<Seq<u8>>)
    requires
        stale.total + blocks.len() <= u64::MAX,
        stale.run + blocks.len() <= u64::MAX,
    ensures
        stale_after_all(previous, stale, blocks).total == stale.total + repeats_in(previous, blocks),
    decreases blocks.len(),
{
    if blocks.len() > 0 {
        let next = stale_after(previous, stale, blocks[0]);
        episodes_add_up(Some(blocks[0]), next, blocks.drop_first());
    }
}

/// Number of blocks equal to the one before them, the first compared with `previous`.
pub open spec fn repeats_in(previous: Option<Seq<u8>>, blocks: Seq<Seq<u8>>) -> nat
    decreases blocks.len(),
{
    if blocks.len() == 0 {
        0
    } else {
        (if previous == Some(blocks[0]) { 1nat } else { 0nat }) + repeats_in(Some(blocks[0]), blocks.drop_first())
    }
}

/// The block observed last after a sequence of blocks.
pub open spec fn last_after(previous: Option<Seq<u8>>, blocks: Seq<Seq<u8>>) -> Option<Seq<u8>> {
    if blocks.len() == 0 { previous } else { Some(blocks.last()) }
}

/// Length of the trailing run of repeats: how many blocks at the end of the sequence each equal
/// the block before them, the first compared with `previous`.
pub open spec fn trailing_repeats(previous: Option<Seq<u8>>, blocks: Seq<Seq<u8>>) -> nat
    decreases blocks.len(),
{
    if blocks.len() == 0 {
        0
    } else if last_after(previous, blocks.drop_last()) == Some(blocks.last()) {
        trailing_repeats(previous, blocks.drop_last()) + 1
    } else {
        0
    }
}

/// `x + n`, held at the top of the range.
pub open spec fn saturating_add_nat(x: u64, n: nat) -> u64 {
    if x + n > u64::MAX { u64::MAX } else { (x + n) as u64 }
}

proof fn stale_after_all_push(previous: Option<Seq<u8>>, stale: ImuStale, blocks: Seq<Seq<u8>>, b: Seq<u8>)
    ensures
        stale_after_all(previous, stale, blocks.push(b))
            == stale_after(last_after(previous, blocks), stale_after_all(previous, stale, blocks), b),
    decreases blocks.len(),
{
    if blocks.len() > 0 {
        assert(blocks.push(b).drop_first() =~= blocks.drop_first().push(b));
        assert(blocks.push(b)[0] == blocks[0]);
        stale_after_all_push(Some(blocks[0]), stale_after(previous, stale, blocks[0]), blocks.drop_first(), b);
        if blocks.len() > 1 {
            assert(blocks.drop_first().last() == blocks.last());
        } else {
            assert(blocks.drop_first() =~= Seq::<Seq<u8>>::empty());
            assert(last_after(Some(blocks[0]), blocks.drop_first()) == last_after(previous, blocks));
        }
    } else {
        assert(blocks.push(b).drop_first() =~= Seq::<Seq<u8>>::empty());
        assert(blocks.push(b)[0] == b);
        assert(stale_after_all(Some(b), stale_after(previous, stale, b), blocks.push(b).drop_first())
            == stale_after(previous, stale, b));
    }
}

/// The run always counts the current episode only: after any sequence of blocks it is the length
/// of the trailing run of blocks equal to their predecessor, held at the top of the range. Only
/// when every block repeats, back to the one observed before them, does the run carried in
/// continue.
pub proof fn the_run_is_the_trailing_episode(previous: Option<Seq<u8>>, stale: ImuStale, blocks: Seq<Seq<u8>>)
    ensures
        stale_after_all(previous, stale, blocks).run == (if trailing_repeats(previous, blocks) == blocks.len() {
            saturating_add_nat(stale.run, blocks.len())
        } else if trailing_repeats(previous, blocks) > u64::MAX {
            u64::MAX
        } else {
            trailing_repeats(previous, blocks) as u64
        }),
    decreases blocks.len(),
{
    if blocks.len() > 0 {
        let init = blocks.drop_last();
        assert(init.push(blocks.last()) =~= blocks);
        stale_after_all_push(previous, stale, init, blocks.last());
        the_run_is_the_trailing_episode(previous, stale, init);
    }
}

/// From a tracker that has seen no block, the run after any blocks is the length of their
/// trailing episode of repeats.
pub proof fn from_the_first_block_the_run_is_the_trailing_episode(stale: ImuStale, blocks: Seq<Seq<u8>>)
    requires
        blocks.len() > 0,
    ensures
        stale_after_all(None, stale, blocks).run == (if trailing_repeats(None, blocks) > u64::MAX {
            u64::MAX
        } else {
            trailing_repeats(None, blocks) as u64
        }),
{
    the_run_is_the_trailing_episode(None, stale, blocks);
    trailing_repeats_below_length(None, blocks);
}

proof fn trailing_repeats_below_length(previous: Option<Seq<u8>>, blocks: Seq<Seq<u8>>)
    ensures
        trailing_repeats(previous, blocks) <= blocks.len(),
        previous is None && blocks.len() > 0 ==> trailing_repeats(previous, blocks) < blocks.len(),
    decreases blocks.len(),
{
    if blocks.len() > 0 {
        trailing_repeats_below_length(previous, blocks.drop_last());
    }
}

} // verus!
