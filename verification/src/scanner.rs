//! The round-driven height cursor and the reassembly of a round's results.
//!
//! The scanner works in rounds: it takes the next `width` heights from the
//! cursor, fetches them concurrently, and once all answers are in it emits
//! the successful ones strictly in ascending height order. A height that no
//! source could serve is skipped for good, leaving a gap; it is never
//! fetched again.

use vstd::prelude::*;

use crate::event::ArbEvent;
use crate::event::BlockEvent;
use crate::event::BlockEventView;

verus! {

/// The data source that answered a block fetch. Follow-up calls for that
/// block (its chunks, its outcomes) use the same source.
#[derive(Debug, Clone, Copy, PartialEq, Eq, Structural)]
pub enum Source {
    Primary,
    Fallback,
}

/// The failover rule for one height: the primary's answer wins; the
/// fallback's answer is used only when the primary failed; when both failed
/// the height is skipped.
pub fn select_block<T>(primary: Option<T>, fallback: Option<T>) -> (r: Option<(T, Source)>)
    ensures
        primary matches Some(b) ==> (r matches Some(p) && p.0 == b && p.1 == Source::Primary),
        primary is None ==> (fallback matches Some(b) ==> (r matches Some(p) && p.0 == b && p.1
            == Source::Fallback)),
        (primary is None && fallback is None) ==> r is None,
{
    match primary {
        Some(b) => Some((b, Source::Primary)),
        None => match fallback {
            Some(b) => Some((b, Source::Fallback)),
            None => None,
        },
    }
}

/// The heights of one round: `width` consecutive heights starting at
/// `start`.
pub open spec fn spec_round_heights(start: u64, width: nat) -> Seq<u64> {
    Seq::new(width, |i: int| (start + i) as u64)
}

/// The next height to fetch. It only ever advances, by exactly one per
/// attempted height, so no height is ever fetched twice.
#[derive(Debug, Clone, Copy)]
pub struct Cursor {
    pub next: u64,
}

impl Cursor {
    /// A cursor that starts at `start`.
    pub fn new(start: u64) -> (c: Cursor)
        ensures
            c.next == start,
    {
        Cursor { next: start }
    }

    /// Takes the next `width` heights for one round, advancing the cursor by
    /// exactly one per height handed out.
    pub fn take_round(&mut self, width: usize) -> (heights: Vec<u64>)
        requires
            old(self).next + width <= u64::MAX,
        ensures
            final(self).next == old(self).next + width,
            heights@ == spec_round_heights(old(self).next, width as nat),
    {
        let mut heights: Vec<u64> = Vec::new();
        let mut k: usize = 0;
        while k < width
            invariant
                0 <= k <= width,
                old(self).next + width <= u64::MAX,
                self.next == old(self).next + k,
                heights@ =~= spec_round_heights(old(self).next, k as nat),
            decreases width - k,
        {
            heights.push(self.next);
            proof {
                assert(heights@ =~= spec_round_heights(old(self).next, (k + 1) as nat));
            }
            self.next = self.next + 1;
            k = k + 1;
        }
        proof {
            assert(heights@ =~= spec_round_heights(old(self).next, width as nat));
        }
        heights
    }
}

/// Within one round no height repeats, and the cursor lands exactly one past
/// the round's highest height.
pub proof fn lemma_round_heights_distinct(start: u64, width: nat)
    requires
        start + width <= u64::MAX,
    ensures
        forall|i: int, j: int|
            0 <= i < j < width ==> #[trigger] spec_round_heights(start, width)[i]
                != #[trigger] spec_round_heights(start, width)[j],
        width > 0 ==> spec_round_heights(start, width).last() + 1 == start + width,
{
}

/// Two rounds share no height once the second starts where the first ended
/// (or later): a height handed out once is never handed out again. The
/// cursor advances by exactly the round's width, so every later round
/// satisfies this.
pub proof fn lemma_rounds_disjoint(
    first_start: u64,
    first_width: nat,
    second_start: u64,
    second_width: nat,
)
    requires
        first_start + first_width <= second_start,
        second_start + second_width <= u64::MAX,
    ensures
        forall|i: int, j: int|
            0 <= i < first_width && 0 <= j < second_width ==> #[trigger] spec_round_heights(
                first_start,
                first_width,
            )[i] != #[trigger] spec_round_heights(second_start, second_width)[j],
{
}

/// What one successful block fetch produced, before it is joined with its
/// height: the block's timestamp and its classified events.
#[derive(Debug, Clone)]
pub struct FetchedBlock {
    pub timestamp: u64,
    pub events: Vec<ArbEvent>,
}

/// The block events of one round, in height order: one per height that was
/// fetched successfully, and none for a skipped height.
pub open spec fn spec_assemble(heights: Seq<u64>, fetched: Seq<Option<FetchedBlock>>) -> Seq<
    BlockEventView,
>
    decreases heights.len(),
{
    if heights.len() == 0 || fetched.len() == 0 {
        Seq::empty()
    } else {
        spec_assemble(heights.drop_last(), fetched.drop_last()) + (match fetched.last() {
            Some(fb) => seq![
                BlockEventView {
                    block_height: heights.last(),
                    timestamp: fb.timestamp,
                    events: fb.events@.map_values(|e: ArbEvent| e@),
                },
            ],
            None => Seq::empty(),
        })
    }
}

/// The ordering guarantee of a round: when the heights of a round ascend
/// strictly, so do the heights of the block events assembled from it —
/// emission order is height order, with gaps only where a height was
/// skipped, and no duplicates.
pub proof fn lemma_assemble_ascending(heights: Seq<u64>, fetched: Seq<Option<FetchedBlock>>)
    requires
        heights.len() == fetched.len(),
        forall|i: int, j: int| 0 <= i < j < heights.len() ==> heights[i] < heights[j],
    ensures
        forall|i: int, j: int|
            0 <= i < j < spec_assemble(heights, fetched).len() ==> spec_assemble(
                heights,
                fetched,
            )[i].block_height < spec_assemble(heights, fetched)[j].block_height,
        spec_assemble(heights, fetched).len() > 0 ==> spec_assemble(
            heights,
            fetched,
        ).last().block_height <= heights.last(),
    decreases heights.len(),
{
    if heights.len() > 0 {
        lemma_assemble_ascending(heights.drop_last(), fetched.drop_last());
    }
}

/// Joins a round's heights with its fetch results, one result per height,
/// keeping height order and dropping skipped heights.
pub fn assemble_round(heights: &Vec<u64>, fetched: Vec<Option<FetchedBlock>>) -> (out: Vec<
    BlockEvent,
>)
    requires
        heights@.len() == fetched@.len(),
    ensures
        out@.map_values(|b: BlockEvent| b@) == spec_assemble(heights@, fetched@),
{
    let mut out: Vec<BlockEvent> = Vec::new();
    let mut rest = fetched;
    let mut i: usize = 0;
    while i < heights.len()
        invariant
            0 <= i <= heights@.len(),
            heights@.len() == fetched@.len(),
            rest@ =~= fetched@.subrange(i as int, fetched@.len() as int),
            out@.map_values(|b: BlockEvent| b@) =~= spec_assemble(
                heights@.subrange(0, i as int),
                fetched@.subrange(0, i as int),
            ),
        decreases heights@.len() - i,
    {
        proof {
            assert(heights@.subrange(0, i as int + 1).drop_last() =~= heights@.subrange(
                0,
                i as int,
            ));
            assert(fetched@.subrange(0, i as int + 1).drop_last() =~= fetched@.subrange(
                0,
                i as int,
            ));
            assert(heights@.subrange(0, i as int + 1).last() == heights@[i as int]);
            assert(fetched@.subrange(0, i as int + 1).last() == fetched@[i as int]);
            assert(rest@[0] == fetched@[i as int]);
        }
        let item = rest.remove(0);
        match item {
            Some(fb) => {
                let ghost pre = out@;
                let height = heights[i];
                out.push(BlockEvent { block_height: height, timestamp: fb.timestamp, events: fb.events });
                proof {
                    assert(out@.map_values(|b: BlockEvent| b@) =~= pre.map_values(
                        |b: BlockEvent| b@,
                    ).push(out@.last()@));
                }
            },
            None => {},
        }
        proof {
            assert(rest@ =~= fetched@.subrange(i as int + 1, fetched@.len() as int));
        }
        i = i + 1;
    }
    proof {
        assert(heights@.subrange(0, i as int) =~= heights@);
        assert(fetched@.subrange(0, i as int) =~= fetched@);
    }
    out
}

} // verus!
