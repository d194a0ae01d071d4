//! One command of the node, from the moment it is sent to the runner's answer.
//!
//! An [`Exchange`] says what is to be done on the channel next, takes what came of it, and ends
//! with the answer. Commands that take long are awaited with a longer read timeout, which is taken
//! back as soon as something was received or nothing came.
use vstd::prelude::*;

use crate::protocol::errors::{
    IpcError, ProtocolError, ProtocolServiceError, ProtocolServiceErrorView,
};
use crate::protocol::messages::{
    NodeMessage, ProtocolFault, ProtocolMessage, ProtocolMessageView,
};

verus! {

/// How long the channel waits by default, in seconds.
pub const IO_TIMEOUT: u64 = 10;

/// How long a new identity is awaited, in seconds.
pub const GENERATE_IDENTITY_TIMEOUT: u64 = 600;

/// How long an applied block is awaited, in seconds.
pub const APPLY_BLOCK_TIMEOUT: u64 = 600;

/// How long an initialized context is awaited, in seconds.
pub const INIT_PROTOCOL_CONTEXT_TIMEOUT: u64 = 60;

/// How long a begun construction is awaited, in seconds.
pub const BEGIN_CONSTRUCTION_TIMEOUT: u64 = 120;

/// How long a validated operation is awaited, in seconds.
pub const VALIDATE_OPERATION_TIMEOUT: u64 = 120;

/// How long a remote call is awaited, in seconds.
pub const CALL_PROTOCOL_RPC_TIMEOUT: u64 = 30;

/// What a command asks for.
#[derive(Clone, Copy, Debug, PartialEq, Eq, Structural)]
pub enum Call {
    ApplyBlock,
    BeginConstruction,
    ValidateOperation,
    JsonRpc,
    ChangeRuntimeConfiguration,
    InitProtocolContext,
    GenesisResultData,
    GenerateIdentity,
    Shutdown,
}

/// What a call brought: nothing but success, or a response in its encoded form.
#[derive(Debug, PartialEq, Eq)]
pub enum Answer {
    Completed,
    Response(Vec<u8>),
}

/// How a result reads.
pub open spec fn result_view(result: Result<Answer, ProtocolServiceError>) -> Result<
    Answer,
    ProtocolServiceErrorView,
> {
    match result {
        Ok(answer) => Ok(answer),
        Err(error) => Err(error@),
    }
}

/// What the command asks for.
pub open spec fn call_of(message: ProtocolMessageView) -> Call {
    match message {
        ProtocolMessageView::ApplyBlockCall(_) => Call::ApplyBlock,
        ProtocolMessageView::BeginConstructionCall(_) => Call::BeginConstruction,
        ProtocolMessageView::ValidateOperationCall(_) => Call::ValidateOperation,
        ProtocolMessageView::ProtocolJsonRpcCall(_) => Call::JsonRpc,
        ProtocolMessageView::HelpersPreapplyOperationsCall(_) => Call::JsonRpc,
        ProtocolMessageView::HelpersPreapplyBlockCall(_) => Call::JsonRpc,
        ProtocolMessageView::ChangeRuntimeConfigurationCall(_) => Call::ChangeRuntimeConfiguration,
        ProtocolMessageView::InitProtocolContextCall(_) => Call::InitProtocolContext,
        ProtocolMessageView::GenesisResultDataCall(_) => Call::GenesisResultData,
        ProtocolMessageView::GenerateIdentity(_) => Call::GenerateIdentity,
        ProtocolMessageView::ShutdownCall => Call::Shutdown,
    }
}

/// How long the answer is awaited, in seconds, where it is not the default.
pub open spec fn long_timeout(call: Call) -> Option<u64> {
    match call {
        Call::ApplyBlock => Some(APPLY_BLOCK_TIMEOUT),
        Call::BeginConstruction => Some(BEGIN_CONSTRUCTION_TIMEOUT),
        Call::ValidateOperation => Some(VALIDATE_OPERATION_TIMEOUT),
        Call::JsonRpc => Some(CALL_PROTOCOL_RPC_TIMEOUT),
        Call::InitProtocolContext => Some(INIT_PROTOCOL_CONTEXT_TIMEOUT),
        Call::GenerateIdentity => Some(GENERATE_IDENTITY_TIMEOUT),
        _ => None,
    }
}

/// What an accepted or refused call comes to.
pub open spec fn told(
    outcome: Result<Vec<u8>, ProtocolFault>,
    error: spec_fn(ProtocolFault) -> ProtocolError,
) -> Result<Answer, ProtocolServiceErrorView> {
    match outcome {
        Ok(response) => Ok(Answer::Response(response)),
        Err(fault) => Err(ProtocolServiceErrorView::ProtocolError { reason: error(fault) }),
    }
}

/// What a received message means for the call: its answer, its refusal, or a message that does not
/// belong to it.
pub open spec fn answer(call: Call, message: NodeMessage) -> Result<
    Answer,
    ProtocolServiceErrorView,
> {
    match (call, message) {
        (Call::ApplyBlock, NodeMessage::ApplyBlockResult(outcome)) => told(
            outcome,
            |reason| ProtocolError::ApplyBlockError { reason },
        ),
        (Call::BeginConstruction, NodeMessage::BeginConstructionResult(outcome)) => told(
            outcome,
            |reason| ProtocolError::BeginConstructionError { reason },
        ),
        (Call::ValidateOperation, NodeMessage::ValidateOperationResponse(outcome)) => told(
            outcome,
            |reason| ProtocolError::ValidateOperationError { reason },
        ),
        (Call::JsonRpc, NodeMessage::JsonRpcResponse(outcome)) => told(
            outcome,
            |reason| ProtocolError::ProtocolRpcError { reason },
        ),
        (Call::ChangeRuntimeConfiguration, NodeMessage::ChangeRuntimeConfigurationResult(
            outcome,
        )) => match outcome {
            Ok(_) => Ok(Answer::Completed),
            Err(reason) => Err(
                ProtocolServiceErrorView::ProtocolError {
                    reason: ProtocolError::TezosRuntimeConfigurationError { reason },
                },
            ),
        },
        (Call::InitProtocolContext, NodeMessage::InitProtocolContextResult(outcome)) => told(
            outcome,
            |reason| ProtocolError::OcamlStorageInitError { reason },
        ),
        (Call::GenesisResultData, NodeMessage::CommitGenesisResultData(outcome)) => told(
            outcome,
            |reason| ProtocolError::GenesisResultDataError { reason },
        ),
        (Call::GenerateIdentity, NodeMessage::GenerateIdentityResult(outcome)) => told(
            outcome,
            |reason| ProtocolError::TezosGenerateIdentityError { reason },
        ),
        (Call::Shutdown, NodeMessage::ShutdownResult) => Ok(Answer::Completed),
        (_, message) => Err(
            ProtocolServiceErrorView::UnexpectedMessage { message: message.name_text() },
        ),
    }
}

/// What a call comes to, by what was received for it.
pub open spec fn conclusion(call: Call, received: Result<NodeMessage, IpcError>) -> Result<
    Answer,
    ProtocolServiceErrorView,
> {
    match received {
        Ok(message) => answer(call, message),
        Err(reason) => Err(ProtocolServiceErrorView::IpcError { reason }),
    }
}

/// The refusal of a socket to change its timeout.
pub open spec fn unset(reason: String) -> Result<Answer, ProtocolServiceErrorView> {
    Err(
        ProtocolServiceErrorView::IpcError {
            reason: IpcError::SocketConfigurationError { reason },
        },
    )
}

/// Whether a message is the answer to a call, be it a success or a refusal.
pub open spec fn belongs_to(message: NodeMessage, call: Call) -> bool {
    match message {
        NodeMessage::ApplyBlockResult(_) => call is ApplyBlock,
        NodeMessage::BeginConstructionResult(_) => call is BeginConstruction,
        NodeMessage::ValidateOperationResponse(_) => call is ValidateOperation,
        NodeMessage::JsonRpcResponse(_) => call is JsonRpc,
        NodeMessage::ChangeRuntimeConfigurationResult(_) => call is ChangeRuntimeConfiguration,
        NodeMessage::InitProtocolContextResult(_) => call is InitProtocolContext,
        NodeMessage::CommitGenesisResultData(_) => call is GenesisResultData,
        NodeMessage::GenerateIdentityResult(_) => call is GenerateIdentity,
        NodeMessage::ShutdownResult => call is Shutdown,
    }
}

/// Whether a message says that the protocol refused something.
pub open spec fn is_refusal(message: NodeMessage) -> bool {
    match message {
        NodeMessage::ApplyBlockResult(outcome) => outcome is Err,
        NodeMessage::BeginConstructionResult(outcome) => outcome is Err,
        NodeMessage::ValidateOperationResponse(outcome) => outcome is Err,
        NodeMessage::JsonRpcResponse(outcome) => outcome is Err,
        NodeMessage::ChangeRuntimeConfigurationResult(outcome) => outcome is Err,
        NodeMessage::InitProtocolContextResult(outcome) => outcome is Err,
        NodeMessage::CommitGenesisResultData(outcome) => outcome is Err,
        NodeMessage::GenerateIdentityResult(outcome) => outcome is Err,
        NodeMessage::ShutdownResult => false,
    }
}

/// A call succeeds by its own answer and by nothing else. A refusal is told as one, any other
/// message is unexpected.
pub proof fn law_answers_belong_to_their_calls(call: Call, message: NodeMessage)
    ensures
        answer(call, message) is Ok <==> belongs_to(message, call) && !is_refusal(message),
        answer(call, message) matches Err(ProtocolServiceErrorView::ProtocolError { .. })
            <==> belongs_to(message, call) && is_refusal(message),
        !belongs_to(message, call) ==> answer(call, message) == Err::<
            Answer,
            ProtocolServiceErrorView,
        >(ProtocolServiceErrorView::UnexpectedMessage { message: message.name_text() }),
{
}

/// Two messages that a call takes for its success bring the same answer only if they are the same;
/// a changed configuration has no response.
pub proof fn law_responses_are_passed_on(call: Call, a: NodeMessage, b: NodeMessage)
    requires
        !(call is ChangeRuntimeConfiguration),
        answer(call, a) is Ok,
        answer(call, a) == answer(call, b),
    ensures
        a == b,
{
}

/// What the command asks for.
pub fn call_for(message: &ProtocolMessage) -> (r: Call)
    ensures
        r == call_of(message@),
        *message is ApplyBlockCall ==> r == Call::ApplyBlock,
        *message is BeginConstructionCall ==> r == Call::BeginConstruction,
        *message is ValidateOperationCall ==> r == Call::ValidateOperation,
        *message is ProtocolJsonRpcCall ==> r == Call::JsonRpc,
        *message is HelpersPreapplyOperationsCall ==> r == Call::JsonRpc,
        *message is HelpersPreapplyBlockCall ==> r == Call::JsonRpc,
        *message is ChangeRuntimeConfigurationCall ==> r == Call::ChangeRuntimeConfiguration,
        *message is InitProtocolContextCall ==> r == Call::InitProtocolContext,
        *message is GenesisResultDataCall ==> r == Call::GenesisResultData,
        *message is GenerateIdentity ==> r == Call::GenerateIdentity,
        *message is ShutdownCall ==> r == Call::Shutdown,
{
    match message {
        ProtocolMessage::ApplyBlockCall(_) => Call::ApplyBlock,
        ProtocolMessage::BeginConstructionCall(_) => Call::BeginConstruction,
        ProtocolMessage::ValidateOperationCall(_) => Call::ValidateOperation,
        ProtocolMessage::ProtocolJsonRpcCall(_) => Call::JsonRpc,
        ProtocolMessage::HelpersPreapplyOperationsCall(_) => Call::JsonRpc,
        ProtocolMessage::HelpersPreapplyBlockCall(_) => Call::JsonRpc,
        ProtocolMessage::ChangeRuntimeConfigurationCall(_) => Call::ChangeRuntimeConfiguration,
        ProtocolMessage::InitProtocolContextCall(_) => Call::InitProtocolContext,
        ProtocolMessage::GenesisResultDataCall(_) => Call::GenesisResultData,
        ProtocolMessage::GenerateIdentity(_) => Call::GenerateIdentity,
        ProtocolMessage::ShutdownCall => Call::Shutdown,
    }
}

/// How long the answer is awaited, in seconds, where it is not the default.
pub fn timeout_for(call: Call) -> (r: Option<u64>)
    ensures
        r == long_timeout(call),
        call is ApplyBlock ==> r == Some(600u64),
        call is BeginConstruction ==> r == Some(120u64),
        call is ValidateOperation ==> r == Some(120u64),
        call is JsonRpc ==> r == Some(30u64),
        call is InitProtocolContext ==> r == Some(60u64),
        call is GenerateIdentity ==> r == Some(600u64),
        call is ChangeRuntimeConfiguration ==> r is None,
        call is GenesisResultData ==> r is None,
        call is Shutdown ==> r is None,
{
    match call {
        Call::ApplyBlock => Some(APPLY_BLOCK_TIMEOUT),
        Call::BeginConstruction => Some(BEGIN_CONSTRUCTION_TIMEOUT),
        Call::ValidateOperation => Some(VALIDATE_OPERATION_TIMEOUT),
        Call::JsonRpc => Some(CALL_PROTOCOL_RPC_TIMEOUT),
        Call::InitProtocolContext => Some(INIT_PROTOCOL_CONTEXT_TIMEOUT),
        Call::GenerateIdentity => Some(GENERATE_IDENTITY_TIMEOUT),
        _ => None,
    }
}

/// A call that the protocol refused.
fn refused(reason: ProtocolError) -> (r: Result<Answer, ProtocolServiceError>)
    ensures
        result_view(r) == Err::<Answer, ProtocolServiceErrorView>(
            ProtocolServiceErrorView::ProtocolError { reason },
        ),
{
    Err(ProtocolServiceError::from(reason))
}

/// What a received message means for the call.
pub fn read_answer(call: Call, message: NodeMessage) -> (r: Result<Answer, ProtocolServiceError>)
    ensures
        result_view(r) == answer(call, message),
        call is ApplyBlock ==> (message matches NodeMessage::ApplyBlockResult(Ok(response))
            ==> r == Ok::<Answer, ProtocolServiceError>(Answer::Response(response))),
        call is ApplyBlock ==> (message matches NodeMessage::ApplyBlockResult(Err(reason))
            ==> (r matches Err(ProtocolServiceError::ProtocolError { reason: said })
            && said == (ProtocolError::ApplyBlockError { reason }))),
        call is BeginConstruction ==> (message matches NodeMessage::BeginConstructionResult(Ok(response))
            ==> r == Ok::<Answer, ProtocolServiceError>(Answer::Response(response))),
        call is BeginConstruction ==> (message matches NodeMessage::BeginConstructionResult(Err(reason))
            ==> (r matches Err(ProtocolServiceError::ProtocolError { reason: said })
            && said == (ProtocolError::BeginConstructionError { reason }))),
        call is ValidateOperation ==> (message matches NodeMessage::ValidateOperationResponse(Ok(response))
            ==> r == Ok::<Answer, ProtocolServiceError>(Answer::Response(response))),
        call is ValidateOperation ==> (message matches NodeMessage::ValidateOperationResponse(Err(reason))
            ==> (r matches Err(ProtocolServiceError::ProtocolError { reason: said })
            && said == (ProtocolError::ValidateOperationError { reason }))),
        call is JsonRpc ==> (message matches NodeMessage::JsonRpcResponse(Ok(response))
            ==> r == Ok::<Answer, ProtocolServiceError>(Answer::Response(response))),
        call is JsonRpc ==> (message matches NodeMessage::JsonRpcResponse(Err(reason))
            ==> (r matches Err(ProtocolServiceError::ProtocolError { reason: said })
            && said == (ProtocolError::ProtocolRpcError { reason }))),
        call is InitProtocolContext ==> (message matches NodeMessage::InitProtocolContextResult(Ok(response))
            ==> r == Ok::<Answer, ProtocolServiceError>(Answer::Response(response))),
        call is InitProtocolContext ==> (message matches NodeMessage::InitProtocolContextResult(Err(reason))
            ==> (r matches Err(ProtocolServiceError::ProtocolError { reason: said })
            && said == (ProtocolError::OcamlStorageInitError { reason }))),
        call is GenesisResultData ==> (message matches NodeMessage::CommitGenesisResultData(Ok(response))
            ==> r == Ok::<Answer, ProtocolServiceError>(Answer::Response(response))),
        call is GenesisResultData ==> (message matches NodeMessage::CommitGenesisResultData(Err(reason))
            ==> (r matches Err(ProtocolServiceError::ProtocolError { reason: said })
            && said == (ProtocolError::GenesisResultDataError { reason }))),
        call is GenerateIdentity ==> (message matches NodeMessage::GenerateIdentityResult(Ok(response))
            ==> r == Ok::<Answer, ProtocolServiceError>(Answer::Response(response))),
        call is GenerateIdentity ==> (message matches NodeMessage::GenerateIdentityResult(Err(reason))
            ==> (r matches Err(ProtocolServiceError::ProtocolError { reason: said })
            && said == (ProtocolError::TezosGenerateIdentityError { reason }))),
        call is ChangeRuntimeConfiguration ==> (message
            matches NodeMessage::ChangeRuntimeConfigurationResult(Ok(_)) ==> r == Ok::<
            Answer,
            ProtocolServiceError,
        >(Answer::Completed)),
        call is ChangeRuntimeConfiguration ==> (message
            matches NodeMessage::ChangeRuntimeConfigurationResult(Err(reason)) ==> (r matches Err(
            ProtocolServiceError::ProtocolError { reason: said },
        ) && said == (ProtocolError::TezosRuntimeConfigurationError { reason }))),
        call is Shutdown && message is ShutdownResult ==> r == Ok::<Answer, ProtocolServiceError>(
            Answer::Completed,
        ),
        !belongs_to(message, call) ==> (r matches Err(
            ProtocolServiceError::UnexpectedMessage { message: said },
        ) && said@ == message.name_text()),
{
    match (call, message) {
        (Call::ApplyBlock, NodeMessage::ApplyBlockResult(outcome)) => match outcome {
            Ok(response) => Ok(Answer::Response(response)),
            Err(reason) => refused(ProtocolError::ApplyBlockError { reason }),
        },
        (Call::BeginConstruction, NodeMessage::BeginConstructionResult(outcome)) => match outcome {
            Ok(response) => Ok(Answer::Response(response)),
            Err(reason) => refused(ProtocolError::BeginConstructionError { reason }),
        },
        (
            Call::ValidateOperation,
            NodeMessage::ValidateOperationResponse(outcome),
        ) => match outcome {
            Ok(response) => Ok(Answer::Response(response)),
            Err(reason) => refused(ProtocolError::ValidateOperationError { reason }),
        },
        (Call::JsonRpc, NodeMessage::JsonRpcResponse(outcome)) => match outcome {
            Ok(response) => Ok(Answer::Response(response)),
            Err(reason) => refused(ProtocolError::ProtocolRpcError { reason }),
        },
        (
            Call::ChangeRuntimeConfiguration,
            NodeMessage::ChangeRuntimeConfigurationResult(outcome),
        ) => match outcome {
            Ok(_) => Ok(Answer::Completed),
            Err(reason) => refused(ProtocolError::TezosRuntimeConfigurationError { reason }),
        },
        (
            Call::InitProtocolContext,
            NodeMessage::InitProtocolContextResult(outcome),
        ) => match outcome {
            Ok(response) => Ok(Answer::Response(response)),
            Err(reason) => refused(ProtocolError::OcamlStorageInitError { reason }),
        },
        (Call::GenesisResultData, NodeMessage::CommitGenesisResultData(outcome)) => match outcome {
            Ok(response) => Ok(Answer::Response(response)),
            Err(reason) => refused(ProtocolError::GenesisResultDataError { reason }),
        },
        (Call::GenerateIdentity, NodeMessage::GenerateIdentityResult(outcome)) => match outcome {
            Ok(response) => Ok(Answer::Response(response)),
            Err(reason) => refused(ProtocolError::TezosGenerateIdentityError { reason }),
        },
        (Call::Shutdown, NodeMessage::ShutdownResult) => Ok(Answer::Completed),
        (_, message) => Err(ProtocolServiceError::UnexpectedMessage { message: message.name() }),
    }
}

/// Whether a received message is the success of the call.
pub fn is_success(call: Call, message: &NodeMessage) -> (r: bool)
    ensures
        r == (answer(call, *message) is Ok),
        r <==> belongs_to(*message, call) && !is_refusal(*message),
{
    match (call, message) {
        (Call::ApplyBlock, NodeMessage::ApplyBlockResult(outcome)) => outcome.is_ok(),
        (Call::BeginConstruction, NodeMessage::BeginConstructionResult(outcome)) => outcome.is_ok(),
        (
            Call::ValidateOperation,
            NodeMessage::ValidateOperationResponse(outcome),
        ) => outcome.is_ok(),
        (Call::JsonRpc, NodeMessage::JsonRpcResponse(outcome)) => outcome.is_ok(),
        (
            Call::ChangeRuntimeConfiguration,
            NodeMessage::ChangeRuntimeConfigurationResult(outcome),
        ) => outcome.is_ok(),
        (
            Call::InitProtocolContext,
            NodeMessage::InitProtocolContextResult(outcome),
        ) => outcome.is_ok(),
        (Call::GenesisResultData, NodeMessage::CommitGenesisResultData(outcome)) => outcome.is_ok(),
        (Call::GenerateIdentity, NodeMessage::GenerateIdentityResult(outcome)) => outcome.is_ok(),
        (Call::Shutdown, NodeMessage::ShutdownResult) => true,
        _ => false,
    }
}

/// How far an exchange has come.
#[derive(Debug)]
pub enum ExchangeStage {
    /// The command is still to be sent.
    Send { message: ProtocolMessage },
    /// The read timeout is to be made longer.
    Extend { seconds: u64 },
    /// The answer is awaited.
    Receive,
    /// The read timeout is to be made the default again.
    Restore { received: Result<NodeMessage, IpcError> },
    /// The exchange is over.
    Done { result: Result<Answer, ProtocolServiceError> },
}

/// What an `ExchangeStage` holds.
#[verifier::ext_equal]
pub enum ExchangeView {
    Send { message: ProtocolMessageView },
    Extend { seconds: u64 },
    Receive,
    Restore { received: Result<NodeMessage, IpcError> },
    Done { result: Result<Answer, ProtocolServiceErrorView> },
}

/// One command on its way to the runner and back.
#[derive(Debug)]
pub struct Exchange {
    pub call: Call,
    pub stage: ExchangeStage,
}

/// What is to be done on the channel.
#[derive(Debug)]
pub enum ExchangeAction<'a> {
    /// Send the command.
    Send { message: &'a ProtocolMessage },
    /// Set the read timeout to so many seconds.
    SetReadTimeout { seconds: u64 },
    /// Receive a message.
    Receive,
    /// Nothing: the exchange is over.
    Finish,
}

/// What came of it.
#[derive(Debug)]
pub enum ExchangeReply {
    Sent(Result<(), IpcError>),
    /// Whether the read timeout was set, or what the socket said.
    ReadTimeoutSet(Result<(), String>),
    Received(Result<NodeMessage, IpcError>),
}

impl View for ExchangeStage {
    type V = ExchangeView;

    open spec fn view(&self) -> ExchangeView {
        match *self {
            ExchangeStage::Send { message } => ExchangeView::Send { message: message@ },
            ExchangeStage::Extend { seconds } => ExchangeView::Extend { seconds },
            ExchangeStage::Receive => ExchangeView::Receive,
            ExchangeStage::Restore { received } => ExchangeView::Restore { received },
            ExchangeStage::Done { result } => ExchangeView::Done { result: result_view(result) },
        }
    }
}

/// The stage that a reply leads to. A reply that was not asked for changes nothing.
pub open spec fn exchange_step(
    call: Call,
    stage: ExchangeView,
    reply: ExchangeReply,
) -> ExchangeView {
    match (stage, reply) {
        (ExchangeView::Send { .. }, ExchangeReply::Sent(Ok(_))) => match long_timeout(call) {
            Some(seconds) => ExchangeView::Extend { seconds },
            None => ExchangeView::Receive,
        },
        (ExchangeView::Send { .. }, ExchangeReply::Sent(Err(reason))) => ExchangeView::Done {
            result: Err(ProtocolServiceErrorView::IpcError { reason }),
        },
        (ExchangeView::Extend { .. }, ExchangeReply::ReadTimeoutSet(Ok(_))) =>
            ExchangeView::Receive,
        (ExchangeView::Extend { .. }, ExchangeReply::ReadTimeoutSet(Err(reason))) =>
            ExchangeView::Done { result: unset(reason) },
        (ExchangeView::Receive, ExchangeReply::Received(received)) => if long_timeout(
            call,
        ) is Some {
            ExchangeView::Restore { received }
        } else {
            ExchangeView::Done { result: conclusion(call, received) }
        },
        (ExchangeView::Restore { received }, ExchangeReply::ReadTimeoutSet(Ok(_))) =>
            ExchangeView::Done { result: conclusion(call, received) },
        (ExchangeView::Restore { .. }, ExchangeReply::ReadTimeoutSet(Err(reason))) =>
            ExchangeView::Done { result: unset(reason) },
        (stage, _) => stage,
    }
}

/// What is to be done on the channel at a stage.
pub open spec fn asks(stage: ExchangeView, action: ExchangeAction) -> bool {
    match stage {
        ExchangeView::Send { message } => action matches ExchangeAction::Send { message: m } && m@
            == message,
        ExchangeView::Extend { seconds } => action == (ExchangeAction::SetReadTimeout { seconds }),
        ExchangeView::Receive => action == ExchangeAction::Receive,
        ExchangeView::Restore { .. } => action == (ExchangeAction::SetReadTimeout {
            seconds: IO_TIMEOUT,
        }),
        ExchangeView::Done { .. } => action == ExchangeAction::Finish,
    }
}

/// Whether an exchange is over because the channel failed.
pub open spec fn failed_by(stage: ExchangeStage, error: IpcError) -> bool {
    stage matches ExchangeStage::Done { result } && result matches Err(
        ProtocolServiceError::IpcError { reason },
    ) && reason == error
}

/// Whether an exchange is over with what was received: a success if it is the answer to the call
/// and no refusal, and the failure of the channel if nothing was received.
pub open spec fn concluded(
    call: Call,
    received: Result<NodeMessage, IpcError>,
    stage: ExchangeStage,
) -> bool {
    match received {
        Ok(message) => stage matches ExchangeStage::Done { result } && result_view(result)
            == answer(call, message) && (result is Ok <==> belongs_to(message, call) && !is_refusal(
            message,
        )),
        Err(error) => failed_by(stage, error),
    }
}

/// What a call comes to, by what was received for it.
fn conclude(call: Call, received: Result<NodeMessage, IpcError>) -> (r: Result<
    Answer,
    ProtocolServiceError,
>)
    ensures
        result_view(r) == conclusion(call, received),
        received matches Err(error) ==> (r matches Err(
            ProtocolServiceError::IpcError { reason },
        ) && reason == error),
        received matches Ok(message) ==> (r is Ok <==> belongs_to(message, call) && !is_refusal(
            message,
        )),
{
    match received {
        Ok(message) => read_answer(call, message),
        Err(reason) => Err(ProtocolServiceError::from(reason)),
    }
}

impl Exchange {
    /// An exchange that begins with this command.
    pub fn new(message: ProtocolMessage) -> (r: Self)
        ensures
            r.call == call_of(message@),
            r.stage@ == (ExchangeView::Send { message: message@ }),
            r.stage == (ExchangeStage::Send { message }),
    {
        Exchange { call: call_for(&message), stage: ExchangeStage::Send { message } }
    }

    /// What is to be done on the channel next.
    pub fn action(&self) -> (r: ExchangeAction<'_>)
        ensures
            asks(self.stage@, r),
            self.stage matches ExchangeStage::Send { message } ==> r == (ExchangeAction::Send {
                message: &message,
            }),
            self.stage matches ExchangeStage::Extend { seconds } ==> r == (
            ExchangeAction::SetReadTimeout { seconds }),
            self.stage is Receive ==> r is Receive,
            self.stage is Restore ==> r == (ExchangeAction::SetReadTimeout { seconds: 10 }),
            self.stage is Done ==> r is Finish,
    {
        match &self.stage {
            ExchangeStage::Send { message } => ExchangeAction::Send { message },
            ExchangeStage::Extend { seconds } => ExchangeAction::SetReadTimeout {
                seconds: *seconds,
            },
            ExchangeStage::Receive => ExchangeAction::Receive,
            ExchangeStage::Restore { .. } => ExchangeAction::SetReadTimeout { seconds: IO_TIMEOUT },
            ExchangeStage::Done { .. } => ExchangeAction::Finish,
        }
    }

    /// Whether the exchange is over and has succeeded after this reply.
    pub fn succeeds(&self, reply: &ExchangeReply) -> (r: bool)
        ensures
            r == (exchange_step(self.call, self.stage@, *reply) matches ExchangeView::Done {
                result: Ok(_),
            }),
    {
        match (&self.stage, reply) {
            (ExchangeStage::Receive, ExchangeReply::Received(Ok(message))) => timeout_for(
                self.call,
            ).is_none() && is_success(self.call, message),
            (
                ExchangeStage::Restore { received: Ok(message) },
                ExchangeReply::ReadTimeoutSet(Ok(_)),
            ) => is_success(self.call, message),
            (ExchangeStage::Done { result: Ok(_) }, _) => true,
            _ => false,
        }
    }

    /// The exchange after what came of it.
    pub fn advance(self, reply: ExchangeReply) -> (r: Self)
        ensures
            r.call == self.call,
            r.stage@ == exchange_step(self.call, self.stage@, reply),
            self.stage is Send ==> (reply matches ExchangeReply::Sent(Ok(_)) ==> r.stage == (
            match self.call {
                Call::ApplyBlock => ExchangeStage::Extend { seconds: 600 },
                Call::BeginConstruction => ExchangeStage::Extend { seconds: 120 },
                Call::ValidateOperation => ExchangeStage::Extend { seconds: 120 },
                Call::JsonRpc => ExchangeStage::Extend { seconds: 30 },
                Call::InitProtocolContext => ExchangeStage::Extend { seconds: 60 },
                Call::GenerateIdentity => ExchangeStage::Extend { seconds: 600 },
                Call::ChangeRuntimeConfiguration => ExchangeStage::Receive,
                Call::GenesisResultData => ExchangeStage::Receive,
                Call::Shutdown => ExchangeStage::Receive,
            })),
            self.stage is Send ==> (reply matches ExchangeReply::Sent(Err(error)) ==> failed_by(
                r.stage,
                error,
            )),
            self.stage is Extend ==> (reply matches ExchangeReply::ReadTimeoutSet(Ok(_))
                ==> r.stage == ExchangeStage::Receive),
            self.stage is Extend || self.stage is Restore ==> (reply
                matches ExchangeReply::ReadTimeoutSet(Err(said)) ==> failed_by(
                r.stage,
                IpcError::SocketConfigurationError { reason: said },
            )),
            self.stage is Receive && (self.call is ChangeRuntimeConfiguration
                || self.call is GenesisResultData || self.call is Shutdown) ==> (reply
                matches ExchangeReply::Received(received) ==> concluded(
                self.call,
                received,
                r.stage,
            )),
            self.stage is Receive && !(self.call is ChangeRuntimeConfiguration
                || self.call is GenesisResultData || self.call is Shutdown) ==> (reply
                matches ExchangeReply::Received(received) ==> r.stage == (ExchangeStage::Restore {
                received,
            })),
            self.stage matches ExchangeStage::Restore { received } ==> (reply
                matches ExchangeReply::ReadTimeoutSet(Ok(_)) ==> concluded(
                self.call,
                received,
                r.stage,
            )),
            self.stage is Done ==> r.stage == self.stage,
    {
        let call = self.call;
        let stage = match (self.stage, reply) {
            (ExchangeStage::Send { .. }, ExchangeReply::Sent(sent)) => match sent {
                Ok(_) => match timeout_for(call) {
                    Some(seconds) => ExchangeStage::Extend { seconds },
                    None => ExchangeStage::Receive,
                },
                Err(reason) => ExchangeStage::Done {
                    result: Err(ProtocolServiceError::from(reason)),
                },
            },
            (ExchangeStage::Extend { .. }, ExchangeReply::ReadTimeoutSet(set)) => match set {
                Ok(_) => ExchangeStage::Receive,
                Err(reason) => ExchangeStage::Done {
                    result: Err(
                        ProtocolServiceError::from(IpcError::SocketConfigurationError { reason }),
                    ),
                },
            },
            (ExchangeStage::Receive, ExchangeReply::Received(received)) => {
                if timeout_for(call).is_some() {
                    ExchangeStage::Restore { received }
                } else {
                    ExchangeStage::Done { result: conclude(call, received) }
                }
            },
            (ExchangeStage::Restore { received }, ExchangeReply::ReadTimeoutSet(set)) => match set {
                Ok(_) => ExchangeStage::Done { result: conclude(call, received) },
                Err(reason) => ExchangeStage::Done {
                    result: Err(
                        ProtocolServiceError::from(IpcError::SocketConfigurationError { reason }),
                    ),
                },
            },
            (stage, _) => stage,
        };
        Exchange { call, stage }
    }

    /// What came of the command, once the exchange is over.
    pub fn result(self) -> (r: Option<Result<Answer, ProtocolServiceError>>)
        ensures
            match self.stage@ {
                ExchangeView::Done { result } => r is Some && result_view(r->Some_0) == result,
                _ => r is None,
            },
            self.stage matches ExchangeStage::Done { result } ==> r == Some(result),
            r is Some <==> self.stage is Done,
    {
        match self.stage {
            ExchangeStage::Done { result } => Some(result),
            _ => None,
        }
    }
}

} // verus!
