//! What becomes of the blocks that are not in storage, and of those whose receipts cannot be had:
//! they count as blocks without any receipts.
use crate::rewards::credits::{after_steps, block_steps};
use crate::rewards::laws::{law_query_is_consistent, reached};
use crate::rewards::receipts::balance_update_texts;
use crate::rewards::run::{
    anonymous_in, block_skipped, survey_next, transition, FoundBlock, Reply, StageView, SurveyView,
};
use vstd::prelude::*;

verus! {

/// How far a query comes from a stage by some answers.
pub open spec fn follows(cycle_num: i32, stage: StageView, replies: Seq<Reply>) -> StageView
    decreases replies.len(),
{
    if replies.len() == 0 {
        stage
    } else {
        follows(cycle_num, transition(cycle_num, stage, replies[0]), replies.skip(1))
    }
}

/// Whether the receipt of the block at a level is asked for.
pub open spec fn is_turn_of(stage: StageView, level: i32) -> bool {
    stage matches StageView::Metadata { survey } && survey.found[survey.index as int].level == level
}

/// Whether answers about a block, from the moment its receipt is asked for, pass it over.
pub open spec fn adds_nothing(cycle_num: i32, block: FoundBlock, answers: Seq<Reply>) -> bool {
    forall|survey: SurveyView|
        survey.index < survey.found.len() && survey.found[survey.index as int] == block
            ==> #[trigger] follows(cycle_num, StageView::Metadata { survey }, answers)
            == block_skipped(survey)
}

/// The answers to a query from a stage on, with answers about the block at a level put in when its
/// turn comes.
pub open spec fn with_block(
    cycle_num: i32,
    stage: StageView,
    level: i32,
    answers: Seq<Reply>,
    replies: Seq<Reply>,
) -> Seq<Reply>
    decreases replies.len(),
{
    if is_turn_of(stage, level) {
        answers + replies
    } else if replies.len() == 0 {
        Seq::empty()
    } else {
        seq![replies[0]] + with_block(
            cycle_num,
            transition(cycle_num, stage, replies[0]),
            level,
            answers,
            replies.skip(1),
        )
    }
}

/// The answers to a query in which the block that is asked for is in storage and is answered for
/// like this when its turn comes.
pub open spec fn replies_with_block(
    cycle_num: i32,
    before: Seq<Reply>,
    passes: Vec<usize>,
    answers: Seq<Reply>,
    rest: Seq<Reply>,
) -> Seq<Reply> {
    let read = before.push(Reply::Block(Some(passes)));
    read + with_block(
        cycle_num,
        reached(cycle_num, read),
        reached(cycle_num, before)->Block_level,
        answers,
        rest,
    )
}

/// The answers to a query in which the block that is asked for is not in storage.
pub open spec fn replies_without_block(before: Seq<Reply>, rest: Seq<Reply>) -> Seq<Reply> {
    before.push(Reply::Block(None)) + rest
}

/// The blocks at other levels.
spec fn others(found: Seq<FoundBlock>, level: i32) -> Seq<FoundBlock>
    decreases found.len(),
{
    if found.len() == 0 {
        Seq::empty()
    } else if found.last().level == level {
        others(found.drop_last(), level)
    } else {
        others(found.drop_last(), level).push(found.last())
    }
}

/// The blocks and the rewards so far, as if there were no block at a level.
spec fn survey_without(survey: SurveyView, level: i32) -> SurveyView {
    SurveyView {
        found: others(survey.found, level),
        index: others(survey.found.take(survey.index as int), level).len(),
        ..survey
    }
}

/// The stage of the query that has no block at a level.
spec fn stage_without(stage: StageView, level: i32) -> StageView {
    match stage {
        StageView::Block { range, end_hash, level: next, found } => StageView::Block {
            range,
            end_hash,
            level: next,
            found: others(found, level),
        },
        StageView::Connect { survey } => StageView::Connect {
            survey: survey_without(survey, level),
        },
        StageView::Metadata { survey } => survey_next(survey_without(survey, level)),
        StageView::Operations { survey, receipt } => StageView::Operations {
            survey: survey_without(survey, level),
            receipt,
        },
        StageView::Decode { survey, updates, operations, short } => StageView::Decode {
            survey: survey_without(survey, level),
            updates,
            operations,
            short,
        },
        stage => stage,
    }
}

/// Whether the blocks stand at ascending levels, and the one at a level is this one.
spec fn holds_block(found: Seq<FoundBlock>, block: FoundBlock) -> bool {
    &&& forall|i: int, j: int|
        0 <= i < j < found.len() ==> (#[trigger] found[i]).level < (#[trigger] found[j]).level
    &&& forall|i: int|
        0 <= i < found.len() && (#[trigger] found[i]).level == block.level ==> found[i] == block
}

/// Whether no block at a level comes any more.
spec fn is_past(survey: SurveyView, level: i32) -> bool {
    forall|i: int|
        survey.index <= i < survey.found.len() ==> (#[trigger] survey.found[i]).level != level
}

/// Whether a query holds a block in a stage at which nothing is asked about it, unless its turn
/// comes, and whether its turn is over.
spec fn carries(stage: StageView, block: FoundBlock, over: bool) -> bool {
    match stage {
        StageView::Head => false,
        StageView::Eras => false,
        StageView::EndHash { .. } => false,
        StageView::Block { level, found, .. } => {
            &&& !over
            &&& level > block.level
            &&& holds_block(found, block)
            &&& forall|i: int| 0 <= i < found.len() ==> (#[trigger] found[i]).level < level
        },
        StageView::Connect { survey } => {
            &&& holds_block(survey.found, block)
            &&& survey.index <= survey.found.len()
            &&& over ==> is_past(survey, block.level)
        },
        StageView::Metadata { survey } => {
            &&& holds_block(survey.found, block)
            &&& survey.index < survey.found.len()
            &&& over ==> is_past(survey, block.level)
        },
        StageView::Operations { survey, .. } => {
            &&& holds_block(survey.found, block)
            &&& survey.index < survey.found.len()
            &&& survey.found[survey.index as int].level != block.level
            &&& over ==> is_past(survey, block.level)
        },
        StageView::Decode { survey, .. } => {
            &&& holds_block(survey.found, block)
            &&& survey.index < survey.found.len()
            &&& survey.found[survey.index as int].level != block.level
            &&& over ==> is_past(survey, block.level)
        },
        _ => true,
    }
}

/// The other blocks before an index come first among the other blocks.
proof fn lemma_others_prefix(found: Seq<FoundBlock>, level: i32, index: nat)
    requires
        index <= found.len(),
    ensures
        others(found.take(index as int), level).len() <= others(found, level).len(),
        index < found.len() && found[index as int].level != level ==> {
            let before = others(found.take(index as int), level);
            &&& before.len() < others(found, level).len()
            &&& others(found, level)[before.len() as int] == found[index as int]
            &&& others(found.take((index + 1) as int), level).len() == before.len() + 1
        },
        index < found.len() && found[index as int].level == level ==> others(
            found.take((index + 1) as int),
            level,
        ).len() == others(found.take(index as int), level).len(),
        index == found.len() ==> others(found.take(index as int), level) == others(found, level),
    decreases found.len(),
{
    if index == found.len() {
        assert(found.take(index as int) =~= found);
    } else {
        assert(found.take((index + 1) as int).drop_last() =~= found.take(index as int));
        let init = found.drop_last();
        if index < init.len() {
            lemma_others_prefix(init, level, index);
            assert(init.take(index as int) =~= found.take(index as int));
            assert(init.take((index + 1) as int) =~= found.take((index + 1) as int));
        } else {
            assert(found.take(index as int) =~= init);
            assert(found.take((index + 1) as int) =~= found);
        }
    }
}

/// Blocks at other levels are all other blocks.
proof fn lemma_others_all(found: Seq<FoundBlock>, level: i32)
    requires
        forall|i: int| 0 <= i < found.len() ==> (#[trigger] found[i]).level != level,
    ensures
        others(found, level) == found,
    decreases found.len(),
{
    if found.len() > 0 {
        let init = found.drop_last();
        assert forall|i: int| 0 <= i < init.len() implies (#[trigger] init[i]).level != level by {
            assert(init[i] == found[i]);
        }
        lemma_others_all(init, level);
        assert(found =~= init.push(found.last()));
    } else {
        assert(found =~= Seq::empty());
    }
}

/// The next block of a survey, with and without the block at a level.
proof fn lemma_next_without(survey: SurveyView, block: FoundBlock, over: bool)
    requires
        holds_block(survey.found, block),
        survey.index <= survey.found.len(),
        over ==> is_past(survey, block.level),
    ensures
        stage_without(survey_next(survey), block.level) == survey_next(
            survey_without(survey, block.level),
        ),
        carries(survey_next(survey), block, over),
{
    lemma_others_prefix(survey.found, block.level, survey.index);
}

/// Passing over another block, with and without the block at a level.
proof fn lemma_skip_other(survey: SurveyView, block: FoundBlock, over: bool)
    requires
        holds_block(survey.found, block),
        survey.index < survey.found.len(),
        survey.found[survey.index as int].level != block.level,
        over ==> is_past(survey, block.level),
    ensures
        survey_without(SurveyView { index: survey.index + 1, ..survey }, block.level) == (
        SurveyView {
            index: survey_without(survey, block.level).index + 1,
            ..survey_without(survey, block.level)
        }),
        over ==> is_past(SurveyView { index: survey.index + 1, ..survey }, block.level),
{
    lemma_others_prefix(survey.found, block.level, survey.index);
}

/// The same answer leads to the same stage, with and without the block at a level, as long as it is
/// not the turn of that block.
proof fn lemma_same_step(
    cycle_num: i32,
    stage: StageView,
    block: FoundBlock,
    over: bool,
    reply: Reply,
)
    requires
        carries(stage, block, over),
        !is_turn_of(stage, block.level),
    ensures
        carries(transition(cycle_num, stage, reply), block, over),
        stage_without(transition(cycle_num, stage, reply), block.level) == transition(
            cycle_num,
            stage_without(stage, block.level),
            reply,
        ),
{
    let level = block.level;
    match stage {
        StageView::Block { range, end_hash, level: next, found } => {
            if let Reply::Block(read) = reply {
                let all = match read {
                    Some(passes) => found.push(
                        FoundBlock { level: next, anonymous: anonymous_in(passes@) },
                    ),
                    None => found,
                };
                assert(read is Some ==> all.drop_last() =~= found);
                assert(all.take(0) =~= Seq::empty());
            }
        },
        StageView::Connect { survey } => {
            lemma_next_without(survey, block, over);
        },
        StageView::Metadata { survey } => {
            lemma_others_prefix(survey.found, level, survey.index);
            lemma_skip_other(survey, block, over);
            lemma_next_without(SurveyView { index: survey.index + 1, ..survey }, block, over);
        },
        StageView::Operations { survey, .. } => {
            lemma_skip_other(survey, block, over);
            lemma_next_without(SurveyView { index: survey.index + 1, ..survey }, block, over);
        },
        StageView::Decode { survey, .. } => {
            lemma_skip_other(survey, block, over);
            if let Reply::Decoded { updates, operations } = reply {
                let steps = block_steps(updates@, operations@);
                if let Ok(entries) = after_steps(survey.entries, steps) {
                    let next = SurveyView { index: survey.index + 1, entries, ..survey };
                    let skipped = SurveyView { index: survey.index + 1, ..survey };
                    assert(survey_without(next, level) == (SurveyView {
                        entries,
                        ..survey_without(skipped, level)
                    }));
                    lemma_next_without(next, block, over);
                }
            }
        },
        _ => {},
    }
}

/// Once the turn of a block is over, the same answers lead to the same stage with and without it.
proof fn lemma_same_after_turn(
    cycle_num: i32,
    stage: StageView,
    block: FoundBlock,
    replies: Seq<Reply>,
)
    requires
        carries(stage, block, true),
    ensures
        stage_without(follows(cycle_num, stage, replies), block.level) == follows(
            cycle_num,
            stage_without(stage, block.level),
            replies,
        ),
    decreases replies.len(),
{
    if replies.len() > 0 {
        lemma_same_step(cycle_num, stage, block, true, replies[0]);
        lemma_same_after_turn(
            cycle_num,
            transition(cycle_num, stage, replies[0]),
            block,
            replies.skip(1),
        );
    }
}

/// Some answers after others lead where all of them lead.
proof fn lemma_follows_on(cycle_num: i32, stage: StageView, first: Seq<Reply>, second: Seq<Reply>)
    ensures
        follows(cycle_num, stage, first + second) == follows(
            cycle_num,
            follows(cycle_num, stage, first),
            second,
        ),
    decreases first.len(),
{
    if first.len() == 0 {
        assert(first + second =~= second);
    } else {
        assert((first + second).skip(1) =~= first.skip(1) + second);
        lemma_follows_on(
            cycle_num,
            transition(cycle_num, stage, first[0]),
            first.skip(1),
            second,
        );
    }
}

/// A query that has come somewhere goes on from there.
proof fn lemma_reached_on(cycle_num: i32, first: Seq<Reply>, second: Seq<Reply>)
    ensures
        reached(cycle_num, first + second) == follows(
            cycle_num,
            reached(cycle_num, first),
            second,
        ),
    decreases second.len(),
{
    if second.len() == 0 {
        assert(first + second =~= first);
    } else {
        let longer = first.push(second[0]);
        assert(longer + second.skip(1) =~= first + second);
        assert(longer.drop_last() =~= first);
        lemma_reached_on(cycle_num, longer, second.skip(1));
    }
}

/// A query with a block that adds nothing comes where the query without the block comes.
proof fn lemma_same_with_block(
    cycle_num: i32,
    stage: StageView,
    block: FoundBlock,
    answers: Seq<Reply>,
    replies: Seq<Reply>,
)
    requires
        carries(stage, block, false),
        adds_nothing(cycle_num, block, answers),
    ensures
        stage_without(
            follows(
                cycle_num,
                stage,
                with_block(cycle_num, stage, block.level, answers, replies),
            ),
            block.level,
        ) == follows(cycle_num, stage_without(stage, block.level), replies),
    decreases replies.len(),
{
    if is_turn_of(stage, block.level) {
        let survey = stage->Metadata_survey;
        let next = SurveyView { index: survey.index + 1, ..survey };
        lemma_follows_on(cycle_num, stage, answers, replies);
        assert(follows(cycle_num, StageView::Metadata { survey }, answers) == block_skipped(
            survey,
        ));
        lemma_others_prefix(survey.found, block.level, survey.index);
        lemma_next_without(next, block, true);
        assert(survey_without(next, block.level) == survey_without(survey, block.level));
        lemma_same_after_turn(cycle_num, block_skipped(survey), block, replies);
    } else if replies.len() > 0 {
        let next = transition(cycle_num, stage, replies[0]);
        let tail = with_block(cycle_num, next, block.level, answers, replies.skip(1));
        lemma_same_step(cycle_num, stage, block, false, replies[0]);
        lemma_same_with_block(cycle_num, next, block, answers, replies.skip(1));
        assert((seq![replies[0]] + tail).skip(1) =~= tail);
    }
}

/// A block whose receipt cannot be had is passed over.
pub proof fn law_failed_receipt_adds_nothing(cycle_num: i32, block: FoundBlock, message: String)
    ensures
        adds_nothing(cycle_num, block, seq![Reply::Failed { message }]),
{
    reveal_with_fuel(follows, 2);
}

/// A block whose receipt can be had, but not the receipts of its operations, is passed over with
/// all its receipts.
pub proof fn law_failed_operations_add_nothing(
    cycle_num: i32,
    block: FoundBlock,
    receipt: String,
    message: String,
)
    requires
        block.anonymous == Some(true),
    ensures
        adds_nothing(
            cycle_num,
            block,
            seq![Reply::Metadata(receipt), Reply::Failed { message }],
        ),
{
    reveal_with_fuel(follows, 3);
    let answers = seq![Reply::Metadata(receipt), Reply::Failed { message }];
    assert(answers.skip(1) =~= seq![Reply::Failed { message }]);
}

/// A block without balance updates and without anonymous operations adds nothing.
pub proof fn law_empty_block_adds_nothing(
    cycle_num: i32,
    block: FoundBlock,
    receipt: String,
    decoded: Reply,
)
    requires
        block.anonymous == Some(false),
        balance_update_texts(receipt@) is Ok,
        decoded matches Reply::Decoded { updates, operations } && updates@.len() == 0
            && operations@.len() == 0,
    ensures
        adds_nothing(cycle_num, block, seq![Reply::Metadata(receipt), decoded]),
{
    reveal_with_fuel(follows, 3);
    let answers = seq![Reply::Metadata(receipt), decoded];
    assert(answers.skip(1) =~= seq![decoded]);
}

/// A block that is not in storage, or about which nothing can be had, leaves no trace in a query:
/// the query ends like one in which the block is there and adds nothing.
pub proof fn law_unread_block_adds_nothing(
    cycle_num: i32,
    before: Seq<Reply>,
    passes: Vec<usize>,
    answers: Seq<Reply>,
    rest: Seq<Reply>,
)
    requires
        reached(cycle_num, before) is Block,
        adds_nothing(
            cycle_num,
            FoundBlock {
                level: reached(cycle_num, before)->Block_level,
                anonymous: anonymous_in(passes@),
            },
            answers,
        ),
    ensures
        ({
            let without = reached(cycle_num, replies_without_block(before, rest));
            let with = reached(
                cycle_num,
                replies_with_block(cycle_num, before, passes, answers, rest),
            );
            &&& without is Done <==> with is Done
            &&& without is Done ==> with == without
        }),
{
    let stage = reached(cycle_num, before);
    let level = stage->Block_level;
    let found = stage->Block_found;
    let block = FoundBlock { level, anonymous: anonymous_in(passes@) };
    let read = before.push(Reply::Block(Some(passes)));
    let missed = before.push(Reply::Block(None));
    law_query_is_consistent(cycle_num, before);
    assert(read.drop_last() =~= before);
    assert(missed.drop_last() =~= before);
    let all = found.push(block);
    lemma_others_all(found, level);
    assert(all.drop_last() =~= found);
    assert(all.take(0) =~= Seq::empty());
    assert(found.take(0) =~= Seq::empty());
    assert(carries(reached(cycle_num, read), block, false));
    assert(stage_without(reached(cycle_num, read), level) == reached(cycle_num, missed));
    lemma_same_with_block(cycle_num, reached(cycle_num, read), block, answers, rest);
    lemma_reached_on(
        cycle_num,
        read,
        with_block(cycle_num, reached(cycle_num, read), level, answers, rest),
    );
    lemma_reached_on(cycle_num, missed, rest);
}

/// A query with a block whose receipts cannot be had ends like the query in which the block has no
/// receipts at all, and both end like the query in which the block is not in storage.
pub proof fn law_failed_block_counts_as_empty(
    cycle_num: i32,
    before: Seq<Reply>,
    passes: Vec<usize>,
    failed: Seq<Reply>,
    no_passes: Vec<usize>,
    empty: Seq<Reply>,
    rest: Seq<Reply>,
)
    requires
        reached(cycle_num, before) is Block,
        adds_nothing(
            cycle_num,
            FoundBlock {
                level: reached(cycle_num, before)->Block_level,
                anonymous: anonymous_in(passes@),
            },
            failed,
        ),
        adds_nothing(
            cycle_num,
            FoundBlock {
                level: reached(cycle_num, before)->Block_level,
                anonymous: anonymous_in(no_passes@),
            },
            empty,
        ),
    ensures
        ({
            let one = reached(
                cycle_num,
                replies_with_block(cycle_num, before, passes, failed, rest),
            );
            let other = reached(
                cycle_num,
                replies_with_block(cycle_num, before, no_passes, empty, rest),
            );
            &&& one is Done <==> other is Done
            &&& one is Done ==> one == other
        }),
{
    law_unread_block_adds_nothing(cycle_num, before, passes, failed, rest);
    law_unread_block_adds_nothing(cycle_num, before, no_passes, empty, rest);
}

} // verus!
