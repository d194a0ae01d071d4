//! What holds of every run of commands, initializations, reports and watches.
use vstd::prelude::*;

use crate::protocol::commands::{
    command_step, event_step, request_of, response_to, CommandReply, CommandStage, EventReply,
    EventStage, ProtocolOutcome,
};
use crate::protocol::errors::{IpcError, ProtocolError, ProtocolServiceErrorView};
use crate::protocol::exchange::{
    answer, call_of, conclusion, exchange_step, long_timeout, unset, Answer, Call, ExchangeReply,
    ExchangeView, IO_TIMEOUT,
};
use crate::protocol::initialization::{init_step, initialize, InitReply, InitView};
use crate::protocol::messages::{
    ContextAction, InitProtocolContextParamsView, NodeMessage, ProtocolFault, ProtocolMessage,
    ProtocolMessageView,
};
use crate::protocol::watchdog::{watch_step, WatchReply, WatchStage};

verus! {

/// A list contains its last item and all that it contained before.
proof fn lemma_contains_earlier<T>(list: Seq<T>)
    requires
        list.len() > 0,
    ensures
        list.contains(list.last()),
        forall|item: T| #[trigger] list.drop_last().contains(item) ==> list.contains(item),
{
    assert(list[list.len() - 1] == list.last());
    let earlier = list.drop_last();
    assert forall|item: T| #[trigger] earlier.contains(item) implies list.contains(item) by {
        let i = choose|i: int| 0 <= i < earlier.len() && earlier[i] == item;
        assert(list[i] == item);
    }
}

/// The stage of an exchange after these replies.
pub open spec fn exchange_run(
    call: Call,
    stage: ExchangeView,
    replies: Seq<ExchangeReply>,
) -> ExchangeView
    decreases replies.len(),
{
    if replies.len() == 0 {
        stage
    } else {
        exchange_step(call, exchange_run(call, stage, replies.drop_last()), replies.last())
    }
}

/// The stage at which an exchange of this command begins.
pub open spec fn begun(message: ProtocolMessageView) -> ExchangeView {
    ExchangeView::Send { message }
}

/// The read timeout of the socket after these replies, in seconds, where it was the default before
/// the command.
pub open spec fn read_timeout(message: ProtocolMessageView, replies: Seq<ExchangeReply>) -> u64
    decreases replies.len(),
{
    if replies.len() == 0 {
        IO_TIMEOUT
    } else {
        let earlier = replies.drop_last();
        match (exchange_run(call_of(message), begun(message), earlier), replies.last()) {
            (ExchangeView::Extend { seconds }, ExchangeReply::ReadTimeoutSet(Ok(_))) => seconds,
            (ExchangeView::Restore { .. }, ExchangeReply::ReadTimeoutSet(Ok(_))) => IO_TIMEOUT,
            _ => read_timeout(message, earlier),
        }
    }
}

/// Whether a reply is one to what a stage asks for.
pub open spec fn is_due(stage: ExchangeView, reply: ExchangeReply) -> bool {
    match stage {
        ExchangeView::Send { .. } => reply is Sent,
        ExchangeView::Extend { .. } => reply is ReadTimeoutSet,
        ExchangeView::Receive => reply is Received,
        ExchangeView::Restore { .. } => reply is ReadTimeoutSet,
        ExchangeView::Done { .. } => false,
    }
}

/// How many replies an exchange can still take.
pub open spec fn replies_left(stage: ExchangeView) -> nat {
    match stage {
        ExchangeView::Send { .. } => 4,
        ExchangeView::Extend { .. } => 3,
        ExchangeView::Receive => 2,
        ExchangeView::Restore { .. } => 1,
        ExchangeView::Done { .. } => 0,
    }
}

/// Every reply to what an exchange asks for brings it nearer to its end, so that it takes four
/// replies at most; once it is over, it stays as it is.
pub proof fn law_exchange_ends(call: Call, stage: ExchangeView, reply: ExchangeReply)
    ensures
        is_due(stage, reply) ==> replies_left(exchange_step(call, stage, reply)) < replies_left(
            stage,
        ),
        !is_due(stage, reply) ==> exchange_step(call, stage, reply) == stage,
        replies_left(stage) == 0 <==> stage is Done,
{
}

/// The answer to a command is awaited with the timeout that belongs to the command. When an
/// exchange is over, the read timeout is the default again, unless the socket refused to set it,
/// and then the refusal is the result.
pub proof fn law_timeout_is_restored(message: ProtocolMessageView, replies: Seq<ExchangeReply>)
    ensures
        match exchange_run(call_of(message), begun(message), replies) {
            ExchangeView::Receive => read_timeout(message, replies) == (match long_timeout(
                call_of(message),
            ) {
                Some(seconds) => seconds,
                None => IO_TIMEOUT,
            }),
            ExchangeView::Done { result } => read_timeout(message, replies) == IO_TIMEOUT || exists|
                reason: String,
            |
                result == #[trigger] unset(reason),
            ExchangeView::Extend { seconds } => long_timeout(call_of(message)) == Some(seconds)
                && read_timeout(message, replies) == IO_TIMEOUT,
            ExchangeView::Restore { .. } => long_timeout(call_of(message)) is Some,
            ExchangeView::Send { message: unsent } => unsent == message && read_timeout(
                message,
                replies,
            ) == IO_TIMEOUT,
        },
    decreases replies.len(),
{
    if replies.len() > 0 {
        let earlier = replies.drop_last();
        law_timeout_is_restored(message, earlier);
        let before = exchange_run(call_of(message), begun(message), earlier);
        if let ExchangeReply::ReadTimeoutSet(Err(reason)) = replies.last() {
            assert(before is Restore ==> exchange_run(call_of(message), begun(message), replies)
                == (ExchangeView::Done { result: unset(reason) }));
        }
    }
}

/// What an exchange received is what a reply brought.
proof fn lemma_received(message: ProtocolMessageView, replies: Seq<ExchangeReply>)
    ensures
        match exchange_run(call_of(message), begun(message), replies) {
            ExchangeView::Restore { received } => replies.contains(
                ExchangeReply::Received(received),
            ),
            ExchangeView::Done { result: Ok(success) } => exists|told: NodeMessage| #[trigger]
                answer(call_of(message), told) == Ok::<Answer, ProtocolServiceErrorView>(success)
                    && replies.contains(ExchangeReply::Received(Ok(told))),
            _ => true,
        },
    decreases replies.len(),
{
    if replies.len() > 0 {
        let earlier = replies.drop_last();
        lemma_received(message, earlier);
        lemma_contains_earlier(replies);
        match exchange_run(call_of(message), begun(message), earlier) {
            ExchangeView::Restore { received: Ok(told) } => {
                assert(answer(call_of(message), told) == conclusion(call_of(message), Ok(told)));
            },
            ExchangeView::Receive => {
                if let ExchangeReply::Received(Ok(told)) = replies.last() {
                    assert(answer(call_of(message), told) == conclusion(
                        call_of(message),
                        Ok(told),
                    ));
                }
            },
            _ => {},
        }
    }
}

/// A command succeeds only by a message that was received and that is its answer.
pub proof fn law_success_was_received(
    message: ProtocolMessageView,
    replies: Seq<ExchangeReply>,
    success: Answer,
)
    requires
        exchange_run(call_of(message), begun(message), replies) == (ExchangeView::Done {
            result: Ok(success),
        }),
    ensures
        exists|told: NodeMessage| #[trigger]
            answer(call_of(message), told) == Ok::<Answer, ProtocolServiceErrorView>(success)
                && replies.contains(ExchangeReply::Received(Ok(told))),
{
    lemma_received(message, replies);
}

/// If the channel does its part, what the runner sends for a command is what the command comes to.
pub proof fn law_undisturbed_exchange(message: ProtocolMessageView, told: NodeMessage)
    ensures
        ({
            let call = call_of(message);
            let sent = ExchangeReply::Sent(Ok(()));
            let set = ExchangeReply::ReadTimeoutSet(Ok(()));
            let received = ExchangeReply::Received(Ok(told));
            let replies = if long_timeout(call) is Some {
                seq![sent, set, received, set]
            } else {
                seq![sent, received]
            };
            exchange_run(call, begun(message), replies) == (ExchangeView::Done {
                result: answer(call, told),
            })
        }),
{
    let call = call_of(message);
    let sent = ExchangeReply::Sent(Ok(()));
    let set = ExchangeReply::ReadTimeoutSet(Ok(()));
    let received = ExchangeReply::Received(Ok(told));
    reveal_with_fuel(exchange_run, 5);
    if long_timeout(call) is Some {
        let replies = seq![sent, set, received, set];
        assert(replies.drop_last() =~= seq![sent, set, received]);
        assert(seq![sent, set, received].drop_last() =~= seq![sent, set]);
        assert(seq![sent, set].drop_last() =~= seq![sent]);
        assert(seq![sent].drop_last() =~= Seq::<ExchangeReply>::empty());
    } else {
        let replies = seq![sent, received];
        assert(replies.drop_last() =~= seq![sent]);
        assert(seq![sent].drop_last() =~= Seq::<ExchangeReply>::empty());
    }
}

/// What a refusal of the protocol is to the node.
pub open spec fn refusal(
    result: Result<Answer, ProtocolServiceErrorView>,
    fault: ProtocolFault,
) -> bool {
    result matches Err(ProtocolServiceErrorView::ProtocolError { reason }) && reason.fault()
        == fault
}

/// The runner and the node understand each other: what the runner sends for the outcome of a
/// command is to the node that outcome, a success or the protocol's own refusal, and never an
/// unexpected message.
pub proof fn law_runner_is_understood(
    message: ProtocolMessage,
    outcome: ProtocolOutcome,
    told: NodeMessage,
)
    requires
        request_of(message) is Some,
        response_to(request_of(message)->Some_0, outcome) == Some(told),
    ensures
        match outcome {
            ProtocolOutcome::Completed(Ok(_)) => answer(call_of(message@), told) == Ok::<
                Answer,
                ProtocolServiceErrorView,
            >(Answer::Completed),
            ProtocolOutcome::Completed(Err(fault)) => refusal(
                answer(call_of(message@), told),
                fault,
            ),
            ProtocolOutcome::Response(Ok(response)) => answer(call_of(message@), told) == Ok::<
                Answer,
                ProtocolServiceErrorView,
            >(Answer::Response(response)),
            ProtocolOutcome::Response(Err(fault)) => refusal(
                answer(call_of(message@), told),
                fault,
            ),
        },
{
}

/// A runner answers each command but the one to shut down with one message and awaits the next
/// command.
pub proof fn law_command_is_answered(
    message: ProtocolMessage,
    outcome: ProtocolOutcome,
    told: NodeMessage,
)
    requires
        request_of(message) is Some,
        response_to(request_of(message)->Some_0, outcome) == Some(told),
    ensures
        ({
            let asked = command_step(CommandStage::Receive, CommandReply::Received(Ok(message)));
            let replying = command_step(asked, CommandReply::Returned(outcome));
            &&& asked == (CommandStage::Call { request: request_of(message)->Some_0 })
            &&& replying == (CommandStage::Reply { message: told, last: false })
            &&& command_step(replying, CommandReply::Sent(Ok(()))) == CommandStage::Receive
        }),
{
}

/// Whether a runner has taken the command to shut down.
pub open spec fn is_leaving(stage: CommandStage) -> bool {
    match stage {
        CommandStage::Announce => true,
        CommandStage::Reply { message, last } => last && message is ShutdownResult,
        CommandStage::Done { .. } => true,
        _ => false,
    }
}

/// A runner that is told to shut down announces it, answers and is through: whatever comes, it
/// carries out no command any more. Its answer is to the node the success of the command.
pub proof fn law_shutdown_is_the_last_command(stage: CommandStage, reply: CommandReply)
    ensures
        command_step(
            CommandStage::Receive,
            CommandReply::Received(Ok(ProtocolMessage::ShutdownCall)),
        ) == CommandStage::Announce,
        is_leaving(stage) ==> is_leaving(command_step(stage, reply)),
        command_step(
            command_step(CommandStage::Announce, CommandReply::Announced),
            CommandReply::Sent(Ok(())),
        ) == (CommandStage::Done { result: Ok(()) }),
        command_step(CommandStage::Announce, CommandReply::Announced) matches CommandStage::Reply {
            message,
            ..
        } && answer(call_of(ProtocolMessage::ShutdownCall@), message) == Ok::<
            Answer,
            ProtocolServiceErrorView,
        >(Answer::Completed),
{
}

/// A runner fails only where the channel to the node fails: when it connects or when it answers.
/// Where no command can be received, the runner is through without a failure.
pub proof fn law_runner_failures(stage: CommandStage, reply: CommandReply, error: IpcError)
    requires
        !(stage is Done),
    ensures
        command_step(stage, reply) == (CommandStage::Done { result: Err(error) }) <==> {
            ||| stage is Connect && reply == CommandReply::Connected(Err(error))
            ||| stage is Reply && reply == CommandReply::Sent(Err(error))
        },
        command_step(CommandStage::Receive, CommandReply::Received(Err(error))) == (
        CommandStage::Done { result: Ok(()) }),
{
}

/// A report after these replies: its stage, the changes that it received, and those that it told
/// the node.
#[verifier::ext_equal]
pub struct Report {
    pub stage: EventStage,
    pub received: Seq<ContextAction>,
    pub sent: Seq<ContextAction>,
}

/// The report after these replies.
pub open spec fn report_run(replies: Seq<EventReply>) -> Report
    decreases replies.len(),
{
    if replies.len() == 0 {
        Report { stage: EventStage::Connect, received: seq![], sent: seq![] }
    } else {
        let before = report_run(replies.drop_last());
        let stage = event_step(before.stage, replies.last());
        match (before.stage, replies.last()) {
            (EventStage::Receive, EventReply::Received(Some(action))) => Report {
                stage,
                received: before.received.push(action),
                sent: before.sent,
            },
            (EventStage::Forward { action }, EventReply::Sent(Ok(_))) => Report {
                stage,
                received: before.received,
                sent: before.sent.push(action),
            },
            _ => Report { stage, received: before.received, sent: before.sent },
        }
    }
}

/// Every change of the context is told to the node, once and in the order in which it was
/// received, but for the last one while it is under way or if the channel failed on it. The report
/// ends with the change that says that no other follows.
pub proof fn law_changes_are_told_in_order(replies: Seq<EventReply>)
    ensures
        ({
            let report = report_run(replies);
            &&& forall|i: int|
                0 <= i < report.sent.len() && #[trigger] report.sent[i] is Shutdown ==> report.stage
                    == (EventStage::Done { result: Ok(()) }) && i == report.sent.len() - 1
            &&& match report.stage {
                EventStage::Connect => report.received.len() == 0 && report.sent.len() == 0,
                EventStage::Receive => report.sent == report.received,
                EventStage::Forward { action } => report.received == report.sent.push(action),
                EventStage::Done { result: Ok(_) } => report.sent == report.received,
                EventStage::Done { result: Err(_) } => report.sent == report.received || (
                report.received.len() > 0 && report.sent == report.received.drop_last()),
            }
        }),
    decreases replies.len(),
{
    if replies.len() > 0 {
        law_changes_are_told_in_order(replies.drop_last());
        let before = report_run(replies.drop_last());
        let report = report_run(replies);
        if let EventStage::Forward { action } = before.stage {
            assert(before.received.drop_last() =~= before.sent);
        }
        assert(report.stage is Connect ==> report.received.len() == 0);
    }
}

/// The stage of an initialization after these replies.
pub open spec fn init_run(stage: InitView, replies: Seq<InitReply>) -> InitView
    decreases replies.len(),
{
    if replies.len() == 0 {
        stage
    } else {
        init_step(init_run(stage, replies.drop_last()), replies.last())
    }
}

/// What the last look at the barrier before the initialization found, if there was one.
pub open spec fn last_look(stage: InitView, replies: Seq<InitReply>) -> Option<bool>
    decreases replies.len(),
{
    if replies.len() == 0 {
        None
    } else {
        let earlier = replies.drop_last();
        match (init_run(stage, earlier), replies.last()) {
            (InitView::Barrier { .. }, InitReply::BarrierLocked(Ok(open))) => Some(open),
            _ => last_look(stage, earlier),
        }
    }
}

/// A context is initialized for reading only by one whose last look found the barrier open; one
/// that found it closed waits, and looks again when it is woken. It never opens the barrier.
pub proof fn law_reader_waits_for_a_write(
    params: InitProtocolContextParamsView,
    replies: Seq<InitReply>,
)
    requires
        params.readonly,
    ensures
        match init_run(InitView::Barrier { params }, replies) {
            InitView::Barrier { params: p } => p == params,
            InitView::Wait { params: p } => p == params && last_look(
                InitView::Barrier { params },
                replies,
            ) == Some(false),
            InitView::Initialize { readonly, .. } => readonly && last_look(
                InitView::Barrier { params },
                replies,
            ) == Some(true),
            InitView::Done { result } => result is Ok ==> last_look(
                InitView::Barrier { params },
                replies,
            ) == Some(true),
            _ => false,
        },
        init_step(InitView::Wait { params }, InitReply::Woken) == (InitView::Barrier { params }),
    decreases replies.len(),
{
    if replies.len() > 0 {
        law_reader_waits_for_a_write(params, replies.drop_last());
    }
}

/// One that may write never waits at the barrier, and neither does anyone at an open one: the
/// context is initialized right after the look.
pub proof fn law_barrier_holds_readers_only(params: InitProtocolContextParamsView, open: bool)
    requires
        open || !params.readonly,
    ensures
        init_step(InitView::Barrier { params }, InitReply::BarrierLocked(Ok(open))) == initialize(
            params,
        ),
{
}

/// All initializations of a node with their barrier: how far each of them is, whether the barrier is
/// open, how often it was opened, and how many contexts were initialized for writing.
#[verifier::ext_equal]
pub struct Barrier {
    pub stages: Seq<InitView>,
    pub open: bool,
    pub times_opened: nat,
    pub writes: nat,
}

/// Something that happens to one of the initializations.
pub struct BarrierEvent {
    pub who: int,
    pub reply: InitReply,
}

/// Whether it can happen: who locks the barrier sees whether it is open, and nobody locks it while
/// another one has it locked in order to open it.
pub open spec fn can_happen(barrier: Barrier, event: BarrierEvent) -> bool {
    &&& 0 <= event.who < barrier.stages.len()
    &&& event.reply matches InitReply::BarrierLocked(Ok(open)) ==> {
        &&& open == barrier.open
        &&& forall|i: int| 0 <= i < barrier.stages.len() ==> !(#[trigger] barrier.stages[i] is Open)
    }
}

/// The barrier after it has happened.
pub open spec fn barrier_step(barrier: Barrier, event: BarrierEvent) -> Barrier {
    let before = barrier.stages[event.who];
    let stage = init_step(before, event.reply);
    let opens = before is Open && stage is Done;
    Barrier {
        stages: barrier.stages.update(event.who, stage),
        open: barrier.open || opens,
        times_opened: barrier.times_opened + if opens {
            1nat
        } else {
            0nat
        },
        writes: barrier.writes + if before is Initialize && stage is Record {
            1nat
        } else {
            0nat
        },
    }
}

/// The barrier after all this has happened.
pub open spec fn barrier_run(barrier: Barrier, events: Seq<BarrierEvent>) -> Barrier
    decreases events.len(),
{
    if events.len() == 0 {
        barrier
    } else {
        barrier_step(barrier_run(barrier, events.drop_last()), events.last())
    }
}

/// Whether all this can happen.
pub open spec fn can_run(barrier: Barrier, events: Seq<BarrierEvent>) -> bool
    decreases events.len(),
{
    events.len() > 0 ==> can_run(barrier, events.drop_last()) && can_happen(
        barrier_run(barrier, events.drop_last()),
        events.last(),
    )
}

/// A closed barrier with initializations that have only begun.
pub open spec fn is_new(barrier: Barrier) -> bool {
    &&& !barrier.open
    &&& barrier.times_opened == 0
    &&& barrier.writes == 0
    &&& forall|i: int|
        0 <= i < barrier.stages.len() ==> #[trigger] barrier.stages[i] is Configure
            || barrier.stages[i] is Barrier
}

/// What every barrier keeps to.
spec fn is_sound(barrier: Barrier) -> bool {
    &&& barrier.times_opened == if barrier.open {
        1nat
    } else {
        0nat
    }
    &&& barrier.open ==> barrier.writes > 0
    &&& forall|i: int|
        0 <= i < barrier.stages.len() && (#[trigger] barrier.stages[i] is Open) ==> !barrier.open
    &&& forall|i: int|
        0 <= i < barrier.stages.len() && (#[trigger] barrier.stages[i] is Open
            || barrier.stages[i] is Record) ==> barrier.writes > 0
    &&& forall|i: int, j: int|
        0 <= i < barrier.stages.len() && 0 <= j < barrier.stages.len()
            && #[trigger] barrier.stages[i] is Open && #[trigger] barrier.stages[j] is Open ==> i
            == j
}

/// Whatever happens to the initializations of a node, the barrier is opened at most once and stays
/// open, and it is open only if a context was initialized for writing.
pub proof fn law_barrier_opens_once(barrier: Barrier, events: Seq<BarrierEvent>)
    requires
        is_new(barrier),
        can_run(barrier, events),
    ensures
        ({
            let after = barrier_run(barrier, events);
            &&& after.times_opened <= 1
            &&& after.open <==> after.times_opened == 1
            &&& after.open ==> after.writes > 0
        }),
{
    lemma_barrier_is_sound(barrier, events);
}

proof fn lemma_barrier_is_sound(barrier: Barrier, events: Seq<BarrierEvent>)
    requires
        is_new(barrier),
        can_run(barrier, events),
    ensures
        is_sound(barrier_run(barrier, events)),
    decreases events.len(),
{
    if events.len() > 0 {
        let before = barrier_run(barrier, events.drop_last());
        lemma_barrier_is_sound(barrier, events.drop_last());
        let after = barrier_step(before, events.last());
        let who = events.last().who;
        assert(after.stages.len() == before.stages.len());
        assert forall|i: int|
            0 <= i < after.stages.len() && i != who implies #[trigger] after.stages[i]
            == before.stages[i] by {}
        assert(after.stages[who] == init_step(before.stages[who], events.last().reply));
    }
}

/// Whether an initialization that has not come further than the channel only reads.
pub open spec fn only_reads(stage: InitView) -> bool {
    match stage {
        InitView::Configure { request, .. } => request.readonly,
        InitView::Barrier { params } => params.readonly,
        InitView::Wait { params } => params.readonly,
        InitView::Initialize { readonly, .. } => readonly,
        _ => false,
    }
}

/// Whether an initialization may write.
pub open spec fn may_write(stage: InitView) -> bool {
    match stage {
        InitView::Configure { .. } => !only_reads(stage),
        InitView::Barrier { .. } => !only_reads(stage),
        InitView::Initialize { .. } => !only_reads(stage),
        InitView::Record { .. } => true,
        InitView::Open { .. } => true,
        _ => false,
    }
}

/// A context is initialized for reading only after one was initialized for writing, whatever
/// happens.
pub proof fn law_readers_come_after_a_write(barrier: Barrier, events: Seq<BarrierEvent>, who: int)
    requires
        is_new(barrier),
        can_run(barrier, events),
        0 <= who < barrier.stages.len(),
        only_reads(barrier.stages[who]),
    ensures
        ({
            let after = barrier_run(barrier, events);
            match after.stages[who] {
                InitView::Initialize { .. } => after.open && after.writes > 0,
                InitView::Done { result } => result is Ok ==> after.open && after.writes > 0,
                _ => true,
            }
        }),
        barrier_run(barrier, events).stages[who] is Done || only_reads(
            barrier_run(barrier, events).stages[who],
        ),
    decreases events.len(),
{
    lemma_barrier_is_sound(barrier, events);
    if events.len() > 0 {
        law_readers_come_after_a_write(barrier, events.drop_last(), who);
        lemma_barrier_keeps_its_size(barrier, events.drop_last());
    }
}

/// Once a context was initialized for writing with success, the barrier is open.
pub proof fn law_finished_write_leaves_the_barrier_open(
    barrier: Barrier,
    events: Seq<BarrierEvent>,
    who: int,
)
    requires
        is_new(barrier),
        can_run(barrier, events),
        0 <= who < barrier.stages.len(),
        may_write(barrier.stages[who]),
    ensures
        barrier_run(barrier, events).stages[who] matches InitView::Done { result: Ok(_) }
            ==> barrier_run(barrier, events).open,
        barrier_run(barrier, events).stages[who] is Done || may_write(
            barrier_run(barrier, events).stages[who],
        ),
    decreases events.len(),
{
    lemma_barrier_is_sound(barrier, events);
    if events.len() > 0 {
        law_finished_write_leaves_the_barrier_open(barrier, events.drop_last(), who);
        lemma_barrier_keeps_its_size(barrier, events.drop_last());
    }
}

proof fn lemma_barrier_keeps_its_size(barrier: Barrier, events: Seq<BarrierEvent>)
    requires
        can_run(barrier, events),
    ensures
        barrier_run(barrier, events).stages.len() == barrier.stages.len(),
    decreases events.len(),
{
    if events.len() > 0 {
        lemma_barrier_keeps_its_size(barrier, events.drop_last());
    }
}

/// Once open, the barrier stays open.
pub proof fn law_barrier_stays_open(barrier: Barrier, event: BarrierEvent)
    ensures
        barrier.open ==> barrier_step(barrier, event).open,
{
}

/// The stage of a watch after these replies.
pub open spec fn watch_run(stage: WatchStage, replies: Seq<WatchReply>) -> WatchStage
    decreases replies.len(),
{
    if replies.len() == 0 {
        stage
    } else {
        watch_step(watch_run(stage, replies.drop_last()), replies.last())
    }
}

/// Whether a watch is about to end.
pub open spec fn is_ending(stage: WatchStage) -> bool {
    stage is LastPoll || stage is Terminate || stage is Done
}

/// A watch goes on as long as it is not told to stop and every sub-process that it needs can be
/// spawned.
pub proof fn law_watch_goes_on(replies: Seq<WatchReply>)
    requires
        !replies.contains(WatchReply::Flag(false)),
        !replies.contains(WatchReply::Spawned(false)),
    ensures
        !is_ending(watch_run(WatchStage::Look, replies)),
    decreases replies.len(),
{
    if replies.len() > 0 {
        let earlier = replies.drop_last();
        lemma_contains_earlier(replies);
        law_watch_goes_on(earlier);
    }
}

/// A watch spawns a sub-process only after it has found the last one gone, terminates one only
/// after it has found it running, and is over only when the sub-process is gone or was terminated.
pub proof fn law_watch_has_one_process(stage: WatchStage, reply: WatchReply)
    requires
        watch_step(stage, reply) != stage,
    ensures
        watch_step(stage, reply) is Spawn ==> reply == WatchReply::Running(false),
        watch_step(stage, reply) is Terminate ==> reply == WatchReply::Running(true),
        watch_step(stage, reply) is Done ==> reply == WatchReply::Running(false) || (
        stage is Terminate && reply is Terminated),
{
}

/// A watch that is told to stop, or cannot spawn a sub-process, ends: it spawns no other one.
pub proof fn law_watch_ends(stage: WatchStage, reply: WatchReply)
    ensures
        is_ending(stage) ==> is_ending(watch_step(stage, reply)),
        stage is Look ==> is_ending(watch_step(stage, WatchReply::Flag(false))),
        stage is Spawn ==> is_ending(watch_step(stage, WatchReply::Spawned(false))),
{
}

} // verus!
