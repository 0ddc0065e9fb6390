//! The agent's block schedule: the configured periods parsed into times of
//! day, and the questions the agent asks of them.

use vstd::prelude::*;
use crate::clock::{chrono_parse_hm, local_now, parse_hm};
use crate::config::{BlockPeriod, ScheduleConfig};

verus! {

/// The seconds of a day.
pub const DAY: u32 = 86400;

/// A block period as seconds past midnight. A period whose end comes before
/// its start crosses midnight.
#[derive(Debug, Clone, Copy)]
pub struct ParsedBlock {
    start: u32,
    end: u32,
    crosses_midnight: bool,
}

/// A block period over plain values.
pub struct BlockView {
    pub start: u32,
    pub end: u32,
    pub crosses_midnight: bool,
}

impl View for ParsedBlock {
    type V = BlockView;

    closed spec fn view(&self) -> BlockView {
        BlockView { start: self.start, end: self.end, crosses_midnight: self.crosses_midnight }
    }
}

impl BlockView {
    /// Both ends are times of day, and the flag says whether the end comes
    /// first.
    pub open spec fn valid(self) -> bool {
        self.start < DAY && self.end < DAY && self.crosses_midnight == (self.end < self.start)
    }

    /// Whether the period covers the time `t`, both ends included.
    pub open spec fn covers(self, t: u32) -> bool {
        if self.crosses_midnight {
            t >= self.start || t <= self.end
        } else {
            self.start <= t <= self.end
        }
    }

    /// The seconds from `t`, which the period covers, to the period's end:
    /// through midnight where the period crosses it and `t` is in its first
    /// part.
    pub open spec fn remaining(self, t: u32) -> int {
        if self.crosses_midnight && t >= self.start {
            DAY - t + self.end
        } else {
            self.end - t
        }
    }
}

/// The block that a configured period stands for, where both of its times
/// parse.
pub open spec fn parsed_block(block: BlockPeriod) -> Option<BlockView> {
    match (chrono_parse_hm(block.start@), chrono_parse_hm(block.end@)) {
        (Some(start), Some(end)) => Some(BlockView { start, end, crosses_midnight: end < start }),
        _ => None,
    }
}

/// The block between two times of day.
pub open spec fn block_between(start: Option<u32>, end: Option<u32>) -> Option<BlockView> {
    match (start, end) {
        (Some(start), Some(end)) => Some(BlockView { start, end, crosses_midnight: end < start }),
        _ => None,
    }
}

/// The view of an optional block.
pub open spec fn opt_block_view(o: Option<ParsedBlock>) -> Option<BlockView> {
    match o {
        Some(b) => Some(b@),
        None => None,
    }
}

impl ParsedBlock {
    #[verifier::type_invariant]
    spec fn inv(&self) -> bool {
        self.start < DAY && self.end < DAY && self.crosses_midnight == (self.end < self.start)
    }

    /// The block between two parsed times, where both are there.
    pub fn between(start: Option<u32>, end: Option<u32>) -> (r: Option<ParsedBlock>)
        requires
            start matches Some(s) ==> s < DAY,
            end matches Some(e) ==> e < DAY,
        ensures
            opt_block_view(r) == block_between(start, end),
    {
        match (start, end) {
            (Some(start), Some(end)) => Some(ParsedBlock { start, end, crosses_midnight: end < start }),
            _ => None,
        }
    }

    /// Seconds past midnight at which the block starts. Every block is
    /// valid.
    pub fn start(&self) -> (r: u32)
        ensures
            r == self@.start,
            self@.valid(),
    {
        proof {
            use_type_invariant(self);
        }
        self.start
    }

    /// Seconds past midnight at which the block ends.
    pub fn end(&self) -> (r: u32)
        ensures
            r == self@.end,
    {
        self.end
    }

    /// Whether the block runs through midnight.
    pub fn crosses_midnight(&self) -> (r: bool)
        ensures
            r == self@.crosses_midnight,
    {
        self.crosses_midnight
    }

    /// Whether the block covers the time `t`.
    pub fn covers(&self, t: u32) -> (r: bool)
        ensures
            r == self@.covers(t),
    {
        if self.crosses_midnight {
            t >= self.start || t <= self.end
        } else {
            t >= self.start && t <= self.end
        }
    }

    /// The seconds from `t` to the end of the block.
    pub fn seconds_to_end(&self, t: u32) -> (r: u64)
        requires
            t < DAY,
            self@.covers(t),
        ensures
            r == self@.remaining(t),
            self@.valid(),
    {
        proof {
            use_type_invariant(self);
        }
        if self.crosses_midnight && t >= self.start {
            let to_midnight: u32 = DAY - t;
            (to_midnight + self.end) as u64
        } else {
            (self.end - t) as u64
        }
    }
}

/// The blocks of a list of blocks.
pub open spec fn block_views(blocks: Seq<ParsedBlock>) -> Seq<BlockView> {
    blocks.map_values(|b: ParsedBlock| b@)
}

/// The blocks of a schedule.
pub struct Schedule {
    pub blocks: Vec<ParsedBlock>,
}

impl View for Schedule {
    type V = Seq<BlockView>;

    open spec fn view(&self) -> Seq<BlockView> {
        block_views(self.blocks@)
    }
}

/// Whether some block covers the time `t`.
pub open spec fn blocked_at(blocks: Seq<BlockView>, t: u32) -> bool {
    exists|i: int| 0 <= i < blocks.len() && (#[trigger] blocks[i]).covers(t)
}

/// `m` is the least of the seconds that the blocks covering `t` have left.
pub open spec fn least_remaining(blocks: Seq<BlockView>, t: u32, m: int) -> bool {
    &&& exists|i: int|
        0 <= i < blocks.len() && (#[trigger] blocks[i]).covers(t) && blocks[i].remaining(t) == m
    &&& forall|i: int|
        0 <= i < blocks.len() && (#[trigger] blocks[i]).covers(t) ==> m <= blocks[i].remaining(t)
}

/// `r` is the time left at `t`: the least remaining time of the blocks that
/// cover `t`, or `None` where none does.
pub open spec fn time_left(blocks: Seq<BlockView>, t: u32, r: Option<u64>) -> bool {
    match r {
        Some(m) => least_remaining(blocks, t, m as int),
        None => !blocked_at(blocks, t),
    }
}

impl Schedule {
    /// The block that a configured period stands for. A period with a time
    /// that does not parse stands for none.
    pub fn parse_block(block: &BlockPeriod) -> (r: Option<ParsedBlock>)
        ensures
            opt_block_view(r) == parsed_block(*block),
    {
        let start = parse_hm(block.start.as_str());
        let end = parse_hm(block.end.as_str());
        ParsedBlock::between(start, end)
    }

    /// The schedule of a configuration: its periods in order, without those
    /// that do not parse.
    pub fn new(config: &ScheduleConfig) -> (r: Self)
        ensures
            r@ == config.blocks@.filter_map(|b: BlockPeriod| parsed_block(b)),
    {
        let ghost f = |b: BlockPeriod| parsed_block(b);
        let mut blocks: Vec<ParsedBlock> = Vec::new();
        let mut i: usize = 0;
        assert(config.blocks@.take(0).filter_map(f) =~= Seq::<BlockView>::empty());
        while i < config.blocks.len()
            invariant
                i <= config.blocks@.len(),
                f == (|b: BlockPeriod| parsed_block(b)),
                block_views(blocks@) == config.blocks@.take(i as int).filter_map(f),
            decreases config.blocks@.len() - i,
        {
            proof {
                config.blocks@.lemma_filter_map_take_succ(f, i as int);
            }
            match Schedule::parse_block(&config.blocks[i]) {
                Some(b) => {
                    assert(block_views(blocks@.push(b)) =~= block_views(blocks@) + seq![b@]);
                    blocks.push(b);
                },
                None => {
                    assert(block_views(blocks@) + Seq::<BlockView>::empty() =~= block_views(blocks@));
                },
            }
            i += 1;
        }
        assert(config.blocks@.take(config.blocks@.len() as int) == config.blocks@);
        Schedule { blocks }
    }

    /// Whether the time `t`, in seconds past midnight, lies in a block.
    pub fn is_blocked_at(&self, t: u32) -> (r: bool)
        ensures
            r == blocked_at(self@, t),
    {
        let mut i: usize = 0;
        while i < self.blocks.len()
            invariant
                i <= self.blocks@.len(),
                forall|j: int| 0 <= j < i ==> !(#[trigger] self@[j]).covers(t),
            decreases self.blocks@.len() - i,
        {
            if self.blocks[i].covers(t) {
                assert(self@[i as int].covers(t));
                return true;
            }
            i += 1;
        }
        false
    }

    /// The seconds from the time `t` until the block that covers it ends;
    /// the least of them where several blocks cover it; `None` where none
    /// does.
    pub fn seconds_until_unblock_at(&self, t: u32) -> (r: Option<u64>)
        requires
            t < DAY,
        ensures
            time_left(self@, t, r),
    {
        let mut least: Option<u64> = None;
        let mut i: usize = 0;
        while i < self.blocks.len()
            invariant
                i <= self.blocks@.len(),
                t < DAY,
                match least {
                    Some(m) => least_remaining(self@.take(i as int), t, m as int),
                    None => !blocked_at(self@.take(i as int), t),
                },
            decreases self.blocks@.len() - i,
        {
            let ghost seen = self@.take(i as int);
            let ghost next = self@.take(i + 1);
            let b = &self.blocks[i];
            proof {
                assert(next == seen.push(b@));
                assert(forall|j: int| 0 <= j < i ==> next[j] == seen[j]);
                assert(next[i as int] == b@);
            }
            if b.covers(t) {
                let s = b.seconds_to_end(t);
                match least {
                    Some(m) => {
                        if s < m {
                            proof {
                                assert(next[i as int].covers(t) && next[i as int].remaining(t) == s);
                            }
                            least = Some(s);
                        } else {
                            proof {
                                let w = choose|w: int|
                                    0 <= w < seen.len() && (#[trigger] seen[w]).covers(t)
                                        && seen[w].remaining(t) == m;
                                assert(next[w].covers(t) && next[w].remaining(t) == m);
                            }
                        }
                    },
                    None => {
                        proof {
                            assert(next[i as int].covers(t) && next[i as int].remaining(t) == s);
                            assert forall|j: int| 0 <= j < next.len() && (
                            #[trigger] next[j]).covers(t) implies s <= next[j].remaining(t) by {
                                if j < i {
                                    assert(seen[j].covers(t));
                                }
                            }
                        }
                        least = Some(s);
                    },
                }
            } else {
                proof {
                    match least {
                        Some(m) => {
                            let w = choose|w: int|
                                0 <= w < seen.len() && (#[trigger] seen[w]).covers(t)
                                    && seen[w].remaining(t) == m;
                            assert(next[w].covers(t) && next[w].remaining(t) == m);
                        },
                        None => {
                            assert forall|j: int| 0 <= j < next.len() implies !(
                            #[trigger] next[j]).covers(t) by {
                                if j < i {
                                    assert(!seen[j].covers(t));
                                }
                            }
                        },
                    }
                }
            }
            i += 1;
        }
        assert(self@.take(self.blocks@.len() as int) == self@);
        least
    }

    /// Returns true if we are currently in a block period: the answer of
    /// `is_blocked_at` for one reading of the local clock.
    pub fn is_blocked(&self) -> (r: bool)
        ensures
            exists|t: u32| t < DAY && r == #[trigger] blocked_at(self@, t),
    {
        let now = local_now();
        let r = self.is_blocked_at(now.seconds);
        assert(now.seconds < DAY && r == blocked_at(self@, now.seconds));
        r
    }

    /// Returns seconds until the current block ends, or None if not blocked:
    /// the answer of `seconds_until_unblock_at` for one reading of the local
    /// clock.
    pub fn seconds_until_unblock(&self) -> (r: Option<u64>)
        ensures
            exists|t: u32| t < DAY && #[trigger] time_left(self@, t, r),
    {
        let now = local_now();
        let r = self.seconds_until_unblock_at(now.seconds);
        assert(now.seconds < DAY && time_left(self@, now.seconds, r));
        r
    }
}

} // verus!
