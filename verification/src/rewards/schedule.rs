//! Which levels belong to a cycle, and which block a stake snapshot was taken at.
use crate::rewards::error::RewardsError;
use crate::text::{
    decimal, int32_of, int32_refusal, law_int32_text_read_back, lemma_decimal_chars,
    lemma_trim_end_run, parse_int32, trim_end, trim_end_char,
};
use vstd::prelude::*;

verus! {

/// For how many cycles the stake behind a cycle is settled in advance.
pub const PRESERVED_CYCLES: i32 = 3;

/// How many blocks lie between two stake snapshots.
pub const BLOCKS_PER_STAKE_SNAPSHOT: i32 = 256;

/// A run of cycles of equal length.
#[derive(Clone, Copy, Debug, PartialEq, Eq, Structural)]
pub struct CycleEra {
    pub first_cycle: i32,
    pub first_level: i32,
    pub blocks_per_cycle: i32,
}

/// The levels of a cycle, both ends included.
#[derive(Clone, Copy, Debug, PartialEq, Eq, Structural)]
pub struct CycleRange {
    pub start: i32,
    pub end: i32,
}

/// Whether a number fits 32 bits.
pub open spec fn fits(v: int) -> bool {
    i32::MIN <= v <= i32::MAX
}

/// The first level of a cycle.
pub open spec fn cycle_start(era: CycleEra, cycle_num: int) -> int {
    era.first_level + (cycle_num - era.first_cycle) * era.blocks_per_cycle
}

/// The last level of a cycle.
pub open spec fn cycle_end(era: CycleEra, cycle_num: int) -> int {
    cycle_start(era, cycle_num) + era.blocks_per_cycle - 1
}

/// Whether every step from an era to the levels of a cycle fits 32 bits.
pub open spec fn levels_fit(era: CycleEra, cycle_num: i32) -> bool {
    let offset = cycle_num - era.first_cycle;
    &&& fits(offset)
    &&& fits(offset * era.blocks_per_cycle)
    &&& fits(cycle_start(era, cycle_num as int))
    &&& fits(cycle_start(era, cycle_num as int) + era.blocks_per_cycle)
    &&& fits(cycle_end(era, cycle_num as int))
}

/// The first era in the list that began before a cycle.
pub open spec fn matching_era(eras: Seq<CycleEra>, cycle_num: i32) -> Option<CycleEra>
    decreases eras.len(),
{
    if eras.len() == 0 {
        None
    } else if eras[0].first_cycle < cycle_num {
        Some(eras[0])
    } else {
        matching_era(eras.skip(1), cycle_num)
    }
}

/// The era of a cycle among the saved ones, or why there is none.
pub open spec fn saved_era(eras: Option<Seq<CycleEra>>, cycle_num: i32) -> Result<
    CycleEra,
    RewardsError,
> {
    match eras {
        None => Err(RewardsError::NoSavedCycleEras),
        Some(eras) => match matching_era(eras, cycle_num) {
            Some(era) => Ok(era),
            None => Err(RewardsError::NoMatchingCycleEra),
        },
    }
}

/// The block at which a stake snapshot was taken.
pub open spec fn snapshot_block(start_block_level: int, snapshot_index: int) -> int {
    start_block_level + (snapshot_index + 1) * BLOCKS_PER_STAKE_SNAPSHOT - 1
}

/// Whether every step to the block of a snapshot fits 32 bits.
pub open spec fn snapshot_fits(start_block_level: i32, snapshot_index: i32) -> bool {
    &&& fits(snapshot_index + 1)
    &&& fits((snapshot_index + 1) * BLOCKS_PER_STAKE_SNAPSHOT)
    &&& fits(start_block_level + (snapshot_index + 1) * BLOCKS_PER_STAKE_SNAPSHOT)
    &&& fits(snapshot_block(start_block_level as int, snapshot_index as int))
}

/// The cycle at whose end the stake behind a cycle was settled.
pub open spec fn frozen_cycle(cycle_num: int) -> int {
    cycle_num - PRESERVED_CYCLES - 1
}

/// Whether every step from an era to the levels of a cycle fits 32 bits.
pub fn check_levels_fit(era: &CycleEra, cycle_num: i32) -> (r: bool)
    ensures
        r == levels_fit(*era, cycle_num),
        r <==> ({
            let passed = cycle_num - era.first_cycle;
            let start = era.first_level + passed * era.blocks_per_cycle;
            &&& -0x8000_0000 <= passed <= 0x7fff_ffff
            &&& -0x8000_0000 <= passed * era.blocks_per_cycle <= 0x7fff_ffff
            &&& -0x8000_0000 <= start <= 0x7fff_ffff
            &&& -0x8000_0000 < start + era.blocks_per_cycle <= 0x7fff_ffff
        }),
{
    let low: i128 = -2147483648;
    let high: i128 = 2147483647;
    let length: i128 = era.blocks_per_cycle as i128;
    let offset: i128 = cycle_num as i128 - era.first_cycle as i128;
    if offset < low || offset > high {
        return false;
    }
    assert(-0x1_0000_0000_0000_0000 <= offset * length <= 0x1_0000_0000_0000_0000)
        by (nonlinear_arith)
        requires
            -0x8000_0000 <= offset <= 0x7fff_ffff,
            -0x8000_0000 <= length <= 0x7fff_ffff,
    ;
    let span: i128 = offset * length;
    let start: i128 = era.first_level as i128 + span;
    let next: i128 = start + length;
    low <= span && span <= high && low <= start && start <= high && low <= next && next <= high
        && low <= next - 1
}

/// The levels of a cycle.
pub fn cycle_range(era: &CycleEra, cycle_num: i32) -> (r: CycleRange)
    requires
        levels_fit(*era, cycle_num),
    ensures
        r.start == cycle_start(*era, cycle_num as int),
        r.end == cycle_end(*era, cycle_num as int),
        r.start == era.first_level + (cycle_num - era.first_cycle) * era.blocks_per_cycle,
        r.end == r.start + era.blocks_per_cycle - 1,
{
    let cycle_offset: i32 = cycle_num - era.first_cycle;
    let start: i32 = era.first_level + cycle_offset * era.blocks_per_cycle;
    let end: i32 = start + era.blocks_per_cycle - 1;
    CycleRange { start, end }
}

/// The era of a cycle among the saved ones, or why there is none.
pub fn get_cycle_era(eras: &Option<Vec<CycleEra>>, cycle_num: i32) -> (r: Result<
    CycleEra,
    RewardsError,
>)
    ensures
        r == saved_era(saved_eras(*eras), cycle_num),
        eras is None ==> r == Err::<CycleEra, RewardsError>(RewardsError::NoSavedCycleEras),
        eras matches Some(list) ==> match r {
            Ok(era) => exists|i: int|
                0 <= i < list@.len() && #[trigger] list@[i] == era && era.first_cycle < cycle_num
                    && forall|j: int| 0 <= j < i ==> #[trigger] list@[j].first_cycle >= cycle_num,
            Err(e) => e == RewardsError::NoMatchingCycleEra && forall|j: int|
                0 <= j < list@.len() ==> #[trigger] list@[j].first_cycle >= cycle_num,
        },
{
    proof {
        if let Some(list) = eras {
            law_chosen_era(list@, cycle_num);
        }
    }
    match eras {
        None => Err(RewardsError::NoSavedCycleEras),
        Some(list) => {
            let count: usize = list.len();
            let mut i: usize = 0;
            assert(list@.skip(0) =~= list@);
            while i < count
                invariant
                    saved_eras(*eras) == Some(list@),
                    count == list@.len(),
                    i <= count,
                    matching_era(list@, cycle_num) == matching_era(
                        list@.skip(i as int),
                        cycle_num,
                    ),
                decreases count - i,
            {
                assert(list@.skip(i as int)[0] == list@[i as int]);
                if list[i].first_cycle < cycle_num {
                    proof {
                        law_chosen_era(list@, cycle_num);
                    }
                    return Ok(list[i]);
                }
                assert(list@.skip(i as int).skip(1) =~= list@.skip(i + 1));
                i = i + 1;
            }
            Err(RewardsError::NoMatchingCycleEra)
        },
    }
}

/// The saved eras as a sequence.
pub open spec fn saved_eras(eras: Option<Vec<CycleEra>>) -> Option<Seq<CycleEra>> {
    match eras {
        None => None,
        Some(eras) => Some(eras@),
    }
}

/// The number of a snapshot that a reply tells, if it tells one.
pub open spec fn snapshot_index(reply: Seq<char>) -> Option<i32> {
    int32_of(trim_end(reply, '\n'))
}

/// What is said of a reply that does not tell the number of a snapshot; nothing if it does.
pub open spec fn snapshot_refusal(reply: Seq<char>) -> Seq<char> {
    if snapshot_index(reply) is Some {
        ""@
    } else {
        int32_refusal(trim_end(reply, '\n'))
    }
}

/// The number of a snapshot that a reply tells, or what is said of a reply that tells none.
pub fn read_snapshot(reply: &str) -> (r: Result<i32, String>)
    ensures
        match snapshot_index(reply@) {
            Some(index) => r == Ok::<i32, String>(index),
            None => r is Err && r->Err_0@ == snapshot_refusal(reply@),
        },
        forall|i: i32|
            reply@ == #[trigger] decimal(i as int) || reply@ == decimal(i as int) + seq!['\n'] ==> r
                == Ok::<i32, String>(i),
{
    proof {
        assert forall|i: i32|
            reply@ == #[trigger] decimal(i as int) || reply@ == decimal(i as int) + seq![
                '\n',
            ] implies snapshot_index(reply@) == Some(i) by {
            lemma_decimal_chars(i as int);
            law_int32_text_read_back(i);
            lemma_trim_end_run(decimal(i as int), Seq::empty(), '\n');
            lemma_trim_end_run(decimal(i as int), seq!['\n'], '\n');
            assert(decimal(i as int) + Seq::<char>::empty() =~= decimal(i as int));
        }
    }
    parse_int32(trim_end_char(reply, '\n'))
}

/// Whether every step to the block of a snapshot fits 32 bits.
pub fn check_snapshot_fits(start_block_level: i32, snapshot_index: i32) -> (r: bool)
    ensures
        r == snapshot_fits(start_block_level, snapshot_index),
        r <==> ({
            let passed = (snapshot_index + 1) * 256;
            &&& snapshot_index + 1 <= 0x7fff_ffff
            &&& -0x8000_0000 <= passed <= 0x7fff_ffff
            &&& -0x8000_0000 < start_block_level + passed <= 0x7fff_ffff
        }),
{
    let low: i64 = -2147483648;
    let high: i64 = 2147483647;
    let next: i64 = snapshot_index as i64 + 1;
    let span: i64 = next * 256;
    let after: i64 = start_block_level as i64 + span;
    next <= high && low <= span && span <= high && low <= after && after <= high && low <= after
        - 1
}

/// The block at which a stake snapshot was taken.
pub fn get_snapshot_block(start_block_level: i32, snapshot_index: i32) -> (r: i32)
    requires
        snapshot_fits(start_block_level, snapshot_index),
    ensures
        r == snapshot_block(start_block_level as int, snapshot_index as int),
        r == start_block_level + (snapshot_index + 1) * 256 - 1,
{
    start_block_level + (snapshot_index + 1) * BLOCKS_PER_STAKE_SNAPSHOT - 1
}

/// The cycles of an era follow each other without a gap and without an overlap, each as long as
/// the era says, and the first of them begins at the first level of the era.
pub proof fn law_cycles_are_adjacent(era: CycleEra, cycle_num: int)
    ensures
        cycle_start(era, cycle_num + 1) == cycle_end(era, cycle_num) + 1,
        cycle_end(era, cycle_num) - cycle_start(era, cycle_num) + 1 == era.blocks_per_cycle,
        cycle_start(era, era.first_cycle as int) == era.first_level,
{
    assert((cycle_num + 1 - era.first_cycle) * era.blocks_per_cycle == (cycle_num
        - era.first_cycle) * era.blocks_per_cycle + era.blocks_per_cycle) by (nonlinear_arith);
}

/// The era that is chosen for a cycle is a saved one that began before the cycle, and every one
/// listed before it did not.
pub proof fn law_chosen_era(eras: Seq<CycleEra>, cycle_num: i32)
    ensures
        match matching_era(eras, cycle_num) {
            Some(era) => exists|i: int|
                0 <= i < eras.len() && #[trigger] eras[i] == era && era.first_cycle < cycle_num
                    && forall|j: int| 0 <= j < i ==> #[trigger] eras[j].first_cycle >= cycle_num,
            None => forall|j: int|
                0 <= j < eras.len() ==> #[trigger] eras[j].first_cycle >= cycle_num,
        },
    decreases eras.len(),
{
    if eras.len() > 0 {
        if eras[0].first_cycle < cycle_num {
            assert(eras[0] == matching_era(eras, cycle_num).unwrap());
        } else {
            let rest = eras.skip(1);
            law_chosen_era(rest, cycle_num);
            match matching_era(rest, cycle_num) {
                Some(era) => {
                    let i = choose|i: int|
                        0 <= i < rest.len() && #[trigger] rest[i] == era && era.first_cycle
                            < cycle_num && forall|j: int|
                            0 <= j < i ==> #[trigger] rest[j].first_cycle >= cycle_num;
                    assert(eras[i + 1] == era);
                    assert forall|j: int| 0 <= j < i + 1 implies #[trigger] eras[j].first_cycle
                        >= cycle_num by {
                        if j > 0 {
                            assert(rest[j - 1] == eras[j]);
                        }
                    }
                },
                None => {
                    assert forall|j: int| 0 <= j < eras.len() implies #[trigger] eras[j].first_cycle
                        >= cycle_num by {
                        if j > 0 {
                            assert(rest[j - 1] == eras[j]);
                        }
                    }
                },
            }
        }
    }
}

/// The snapshots of a cycle are taken at the last block of each of its stretches of
/// `BLOCKS_PER_STAKE_SNAPSHOT` blocks.
pub proof fn law_snapshots_are_evenly_spaced(start_block_level: int, snapshot_index: int)
    ensures
        snapshot_block(start_block_level, 0) == start_block_level + BLOCKS_PER_STAKE_SNAPSHOT - 1,
        snapshot_block(start_block_level, snapshot_index + 1) == snapshot_block(
            start_block_level,
            snapshot_index,
        ) + BLOCKS_PER_STAKE_SNAPSHOT,
{
}

/// A reply is read without its line ends, whether it tells a number or is refused.
pub proof fn law_snapshot_is_read_without_line_ends(body: Seq<char>, ends: Seq<char>)
    requires
        body.len() > 0 ==> body.last() != '\n',
        forall|i: int| 0 <= i < ends.len() ==> #[trigger] ends[i] == '\n',
    ensures
        snapshot_index(body + ends) == int32_of(body),
        int32_of(body) is None ==> snapshot_refusal(body + ends) == int32_refusal(body),
{
    lemma_trim_end_run(body, ends, '\n');
}

} // verus!
