//! The runner's side: the commands that it carries out, and the changes of the context that it
//! reports.
use vstd::prelude::*;

use crate::protocol::errors::IpcError;
use crate::protocol::messages::{
    ContextAction, GenerateIdentityParams, GenesisResultDataParams, NodeMessage, ProtocolFault,
    ProtocolMessage,
};

verus! {

/// What the protocol is asked to do.
#[derive(Debug, PartialEq, Eq)]
pub enum ProtocolRequest {
    ApplyBlock(Vec<u8>),
    BeginConstruction(Vec<u8>),
    ValidateOperation(Vec<u8>),
    CallProtocolJsonRpc(Vec<u8>),
    HelpersPreapplyOperations(Vec<u8>),
    HelpersPreapplyBlock(Vec<u8>),
    ChangeRuntimeConfiguration(Vec<u8>),
    InitProtocolContext {
        storage_data_dir: String,
        genesis: Vec<u8>,
        protocol_overrides: Vec<u8>,
        commit_genesis: bool,
        enable_testchain: bool,
        readonly: bool,
        patch_context: Option<Vec<u8>>,
    },
    GenesisResultData(GenesisResultDataParams),
    GenerateIdentity(GenerateIdentityParams),
}

/// What the protocol made of a request.
#[derive(Debug, PartialEq, Eq)]
pub enum ProtocolOutcome {
    /// The outcome of a request that has no response.
    Completed(Result<(), ProtocolFault>),
    /// The outcome of any other request.
    Response(Result<Vec<u8>, ProtocolFault>),
}

/// What the protocol is asked for a command. The command to shut down asks it nothing.
pub open spec fn request_of(message: ProtocolMessage) -> Option<ProtocolRequest> {
    match message {
        ProtocolMessage::ApplyBlockCall(request) => Some(ProtocolRequest::ApplyBlock(request)),
        ProtocolMessage::BeginConstructionCall(request) => Some(
            ProtocolRequest::BeginConstruction(request),
        ),
        ProtocolMessage::ValidateOperationCall(request) => Some(
            ProtocolRequest::ValidateOperation(request),
        ),
        ProtocolMessage::ProtocolJsonRpcCall(request) => Some(
            ProtocolRequest::CallProtocolJsonRpc(request),
        ),
        ProtocolMessage::HelpersPreapplyOperationsCall(request) => Some(
            ProtocolRequest::HelpersPreapplyOperations(request),
        ),
        ProtocolMessage::HelpersPreapplyBlockCall(request) => Some(
            ProtocolRequest::HelpersPreapplyBlock(request),
        ),
        ProtocolMessage::ChangeRuntimeConfigurationCall(settings) => Some(
            ProtocolRequest::ChangeRuntimeConfiguration(settings),
        ),
        ProtocolMessage::InitProtocolContextCall(params) => Some(
            ProtocolRequest::InitProtocolContext {
                storage_data_dir: params.storage_data_dir,
                genesis: params.genesis,
                protocol_overrides: params.protocol_overrides,
                commit_genesis: params.commit_genesis,
                enable_testchain: params.enable_testchain,
                readonly: params.readonly,
                patch_context: params.patch_context,
            },
        ),
        ProtocolMessage::GenesisResultDataCall(params) => Some(
            ProtocolRequest::GenesisResultData(params),
        ),
        ProtocolMessage::GenerateIdentity(params) => Some(
            ProtocolRequest::GenerateIdentity(params),
        ),
        ProtocolMessage::ShutdownCall => None,
    }
}

/// What the node is told of an outcome, if it is one that the request can have.
pub open spec fn response_to(request: ProtocolRequest, outcome: ProtocolOutcome) -> Option<
    NodeMessage,
> {
    match (request, outcome) {
        (ProtocolRequest::ChangeRuntimeConfiguration(_), ProtocolOutcome::Completed(result)) =>
            Some(NodeMessage::ChangeRuntimeConfigurationResult(result)),
        (ProtocolRequest::ChangeRuntimeConfiguration(_), _) => None,
        (_, ProtocolOutcome::Completed(_)) => None,
        (ProtocolRequest::ApplyBlock(_), ProtocolOutcome::Response(result)) => Some(
            NodeMessage::ApplyBlockResult(result),
        ),
        (ProtocolRequest::BeginConstruction(_), ProtocolOutcome::Response(result)) => Some(
            NodeMessage::BeginConstructionResult(result),
        ),
        (ProtocolRequest::ValidateOperation(_), ProtocolOutcome::Response(result)) => Some(
            NodeMessage::ValidateOperationResponse(result),
        ),
        (ProtocolRequest::CallProtocolJsonRpc(_), ProtocolOutcome::Response(result)) => Some(
            NodeMessage::JsonRpcResponse(result),
        ),
        (ProtocolRequest::HelpersPreapplyOperations(_), ProtocolOutcome::Response(result)) => Some(
            NodeMessage::JsonRpcResponse(result),
        ),
        (ProtocolRequest::HelpersPreapplyBlock(_), ProtocolOutcome::Response(result)) => Some(
            NodeMessage::JsonRpcResponse(result),
        ),
        (ProtocolRequest::InitProtocolContext { .. }, ProtocolOutcome::Response(result)) => Some(
            NodeMessage::InitProtocolContextResult(result),
        ),
        (ProtocolRequest::GenesisResultData(_), ProtocolOutcome::Response(result)) => Some(
            NodeMessage::CommitGenesisResultData(result),
        ),
        (ProtocolRequest::GenerateIdentity(_), ProtocolOutcome::Response(result)) => Some(
            NodeMessage::GenerateIdentityResult(result),
        ),
    }
}

/// Whether a message tells an outcome under the name that belongs to the request.
pub open spec fn answers(
    request: ProtocolRequest,
    outcome: ProtocolOutcome,
    message: NodeMessage,
) -> bool {
    match message {
        NodeMessage::ChangeRuntimeConfigurationResult(told) => {
            &&& request is ChangeRuntimeConfiguration
            &&& outcome == ProtocolOutcome::Completed(told)
        },
        NodeMessage::ApplyBlockResult(told) => request is ApplyBlock && outcome
            == ProtocolOutcome::Response(told),
        NodeMessage::BeginConstructionResult(told) => request is BeginConstruction && outcome
            == ProtocolOutcome::Response(told),
        NodeMessage::ValidateOperationResponse(told) => request is ValidateOperation && outcome
            == ProtocolOutcome::Response(told),
        NodeMessage::JsonRpcResponse(told) => (request is CallProtocolJsonRpc
            || request is HelpersPreapplyOperations || request is HelpersPreapplyBlock) && outcome
            == ProtocolOutcome::Response(told),
        NodeMessage::InitProtocolContextResult(told) => request is InitProtocolContext && outcome
            == ProtocolOutcome::Response(told),
        NodeMessage::CommitGenesisResultData(told) => request is GenesisResultData && outcome
            == ProtocolOutcome::Response(told),
        NodeMessage::GenerateIdentityResult(told) => request is GenerateIdentity && outcome
            == ProtocolOutcome::Response(told),
        _ => false,
    }
}

/// Different commands ask the protocol for different things: two commands that ask it the same
/// are of the same kind, and agree in all that the protocol is given.
pub proof fn law_commands_ask_for_different_things(a: ProtocolMessage, b: ProtocolMessage)
    requires
        !(a is ShutdownCall),
        request_of(a) == request_of(b),
    ensures
        match a {
            ProtocolMessage::InitProtocolContextCall(x) => {
                &&& b matches ProtocolMessage::InitProtocolContextCall(y)
                &&& x.storage_data_dir == y.storage_data_dir
                &&& x.genesis == y.genesis
                &&& x.protocol_overrides == y.protocol_overrides
                &&& x.commit_genesis == y.commit_genesis
                &&& x.enable_testchain == y.enable_testchain
                &&& x.readonly == y.readonly
                &&& x.patch_context == y.patch_context
            },
            _ => a == b,
        },
{
}

/// An outcome is told under the name that belongs to the request, and two outcomes of a request
/// are not told in the same words.
pub proof fn law_outcomes_are_told_as_they_are(
    request: ProtocolRequest,
    a: ProtocolOutcome,
    b: ProtocolOutcome,
)
    ensures
        response_to(request, a) matches Some(message) ==> answers(request, a, message),
        response_to(request, a) is Some <==> (request is ChangeRuntimeConfiguration
            == a is Completed),
        response_to(request, a) is Some && response_to(request, a) == response_to(request, b) ==> a
            == b,
{
}

/// What the protocol is asked for a command.
pub fn request_for(message: ProtocolMessage) -> (r: Option<ProtocolRequest>)
    ensures
        r == request_of(message),
        message matches ProtocolMessage::ApplyBlockCall(given) ==> r == Some(
            ProtocolRequest::ApplyBlock(given),
        ),
        message matches ProtocolMessage::BeginConstructionCall(given) ==> r == Some(
            ProtocolRequest::BeginConstruction(given),
        ),
        message matches ProtocolMessage::ValidateOperationCall(given) ==> r == Some(
            ProtocolRequest::ValidateOperation(given),
        ),
        message matches ProtocolMessage::ProtocolJsonRpcCall(given) ==> r == Some(
            ProtocolRequest::CallProtocolJsonRpc(given),
        ),
        message matches ProtocolMessage::HelpersPreapplyOperationsCall(given) ==> r == Some(
            ProtocolRequest::HelpersPreapplyOperations(given),
        ),
        message matches ProtocolMessage::HelpersPreapplyBlockCall(given) ==> r == Some(
            ProtocolRequest::HelpersPreapplyBlock(given),
        ),
        message matches ProtocolMessage::ChangeRuntimeConfigurationCall(given) ==> r == Some(
            ProtocolRequest::ChangeRuntimeConfiguration(given),
        ),
        message matches ProtocolMessage::GenesisResultDataCall(given) ==> r == Some(
            ProtocolRequest::GenesisResultData(given),
        ),
        message matches ProtocolMessage::GenerateIdentity(given) ==> r == Some(
            ProtocolRequest::GenerateIdentity(given),
        ),
        message matches ProtocolMessage::InitProtocolContextCall(params) ==> r == Some(
            (ProtocolRequest::InitProtocolContext {
                storage_data_dir: params.storage_data_dir,
                genesis: params.genesis,
                protocol_overrides: params.protocol_overrides,
                commit_genesis: params.commit_genesis,
                enable_testchain: params.enable_testchain,
                readonly: params.readonly,
                patch_context: params.patch_context,
            }),
        ),
        message is ShutdownCall <==> r is None,
{
    match message {
        ProtocolMessage::ApplyBlockCall(request) => Some(ProtocolRequest::ApplyBlock(request)),
        ProtocolMessage::BeginConstructionCall(request) => Some(
            ProtocolRequest::BeginConstruction(request),
        ),
        ProtocolMessage::ValidateOperationCall(request) => Some(
            ProtocolRequest::ValidateOperation(request),
        ),
        ProtocolMessage::ProtocolJsonRpcCall(request) => Some(
            ProtocolRequest::CallProtocolJsonRpc(request),
        ),
        ProtocolMessage::HelpersPreapplyOperationsCall(request) => Some(
            ProtocolRequest::HelpersPreapplyOperations(request),
        ),
        ProtocolMessage::HelpersPreapplyBlockCall(request) => Some(
            ProtocolRequest::HelpersPreapplyBlock(request),
        ),
        ProtocolMessage::ChangeRuntimeConfigurationCall(settings) => Some(
            ProtocolRequest::ChangeRuntimeConfiguration(settings),
        ),
        ProtocolMessage::InitProtocolContextCall(params) => Some(
            ProtocolRequest::InitProtocolContext {
                storage_data_dir: params.storage_data_dir,
                genesis: params.genesis,
                protocol_overrides: params.protocol_overrides,
                commit_genesis: params.commit_genesis,
                enable_testchain: params.enable_testchain,
                readonly: params.readonly,
                patch_context: params.patch_context,
            },
        ),
        ProtocolMessage::GenesisResultDataCall(params) => Some(
            ProtocolRequest::GenesisResultData(params),
        ),
        ProtocolMessage::GenerateIdentity(params) => Some(
            ProtocolRequest::GenerateIdentity(params),
        ),
        ProtocolMessage::ShutdownCall => None,
    }
}

/// What the node is told of an outcome, if it is one that the request can have.
pub fn respond(request: &ProtocolRequest, outcome: ProtocolOutcome) -> (r: Option<NodeMessage>)
    ensures
        r == response_to(*request, outcome),
        *request is ApplyBlock ==> (outcome matches ProtocolOutcome::Response(result)
            ==> r == Some(NodeMessage::ApplyBlockResult(result))),
        *request is BeginConstruction ==> (outcome matches ProtocolOutcome::Response(result)
            ==> r == Some(NodeMessage::BeginConstructionResult(result))),
        *request is ValidateOperation ==> (outcome matches ProtocolOutcome::Response(result)
            ==> r == Some(NodeMessage::ValidateOperationResponse(result))),
        *request is CallProtocolJsonRpc ==> (outcome matches ProtocolOutcome::Response(result)
            ==> r == Some(NodeMessage::JsonRpcResponse(result))),
        *request is HelpersPreapplyOperations ==> (outcome matches ProtocolOutcome::Response(result)
            ==> r == Some(NodeMessage::JsonRpcResponse(result))),
        *request is HelpersPreapplyBlock ==> (outcome matches ProtocolOutcome::Response(result)
            ==> r == Some(NodeMessage::JsonRpcResponse(result))),
        *request is InitProtocolContext ==> (outcome matches ProtocolOutcome::Response(result)
            ==> r == Some(NodeMessage::InitProtocolContextResult(result))),
        *request is GenesisResultData ==> (outcome matches ProtocolOutcome::Response(result)
            ==> r == Some(NodeMessage::CommitGenesisResultData(result))),
        *request is GenerateIdentity ==> (outcome matches ProtocolOutcome::Response(result)
            ==> r == Some(NodeMessage::GenerateIdentityResult(result))),
        *request is ChangeRuntimeConfiguration ==> (outcome matches ProtocolOutcome::Completed(
            result,
        ) ==> r == Some(NodeMessage::ChangeRuntimeConfigurationResult(result))),
        r is None <==> (*request is ChangeRuntimeConfiguration != outcome is Completed),
{
    match outcome {
        ProtocolOutcome::Completed(result) => match request {
            ProtocolRequest::ChangeRuntimeConfiguration(_) => Some(
                NodeMessage::ChangeRuntimeConfigurationResult(result),
            ),
            _ => None,
        },
        ProtocolOutcome::Response(result) => match request {
            ProtocolRequest::ApplyBlock(_) => Some(NodeMessage::ApplyBlockResult(result)),
            ProtocolRequest::BeginConstruction(_) => Some(
                NodeMessage::BeginConstructionResult(result),
            ),
            ProtocolRequest::ValidateOperation(_) => Some(
                NodeMessage::ValidateOperationResponse(result),
            ),
            ProtocolRequest::CallProtocolJsonRpc(_) => Some(NodeMessage::JsonRpcResponse(result)),
            ProtocolRequest::HelpersPreapplyOperations(_) => Some(
                NodeMessage::JsonRpcResponse(result),
            ),
            ProtocolRequest::HelpersPreapplyBlock(_) => Some(NodeMessage::JsonRpcResponse(result)),
            ProtocolRequest::ChangeRuntimeConfiguration(_) => None,
            ProtocolRequest::InitProtocolContext { .. } => Some(
                NodeMessage::InitProtocolContextResult(result),
            ),
            ProtocolRequest::GenesisResultData(_) => Some(
                NodeMessage::CommitGenesisResultData(result),
            ),
            ProtocolRequest::GenerateIdentity(_) => Some(
                NodeMessage::GenerateIdentityResult(result),
            ),
        },
    }
}

/// How far a runner is with its commands.
#[derive(Debug)]
pub enum CommandStage {
    /// The channel is to be connected.
    Connect,
    /// The next command is awaited.
    Receive,
    /// The protocol is to be asked.
    Call { request: ProtocolRequest },
    /// The end is to be announced to the one who reports changes of the context.
    Announce,
    /// The node is to be told, for the last time or not.
    Reply { message: NodeMessage, last: bool },
    /// The runner is through.
    Done { result: Result<(), IpcError> },
}

/// What the runner is to do.
#[derive(Debug)]
pub enum CommandAction<'a> {
    Connect,
    /// Receive a command.
    Receive,
    /// Ask the protocol.
    Call(&'a ProtocolRequest),
    /// Put [`ContextAction::Shutdown`] into the context channel.
    AnnounceShutdown,
    /// Send an answer.
    Send(&'a NodeMessage),
    /// Nothing: the runner is through.
    Finish,
}

/// What came of it.
#[derive(Debug)]
pub enum CommandReply {
    Connected(Result<(), IpcError>),
    Received(Result<ProtocolMessage, IpcError>),
    Returned(ProtocolOutcome),
    Announced,
    Sent(Result<(), IpcError>),
}

/// The stage that a reply leads to. A reply that was not asked for changes nothing.
pub open spec fn command_step(stage: CommandStage, reply: CommandReply) -> CommandStage {
    match (stage, reply) {
        (CommandStage::Connect, CommandReply::Connected(Ok(_))) => CommandStage::Receive,
        (CommandStage::Connect, CommandReply::Connected(Err(error))) => CommandStage::Done {
            result: Err(error),
        },
        (CommandStage::Receive, CommandReply::Received(Ok(message))) => match request_of(message) {
            Some(request) => CommandStage::Call { request },
            None => CommandStage::Announce,
        },
        (CommandStage::Receive, CommandReply::Received(Err(_))) => CommandStage::Done {
            result: Ok(()),
        },
        (CommandStage::Call { request }, CommandReply::Returned(outcome)) => match response_to(
            request,
            outcome,
        ) {
            Some(message) => CommandStage::Reply { message, last: false },
            None => CommandStage::Call { request },
        },
        (CommandStage::Announce, CommandReply::Announced) => CommandStage::Reply {
            message: NodeMessage::ShutdownResult,
            last: true,
        },
        (CommandStage::Reply { last, .. }, CommandReply::Sent(Ok(_))) => if last {
            CommandStage::Done { result: Ok(()) }
        } else {
            CommandStage::Receive
        },
        (CommandStage::Reply { .. }, CommandReply::Sent(Err(error))) => CommandStage::Done {
            result: Err(error),
        },
        (stage, _) => stage,
    }
}

/// What the runner is to do at a stage.
pub open spec fn command_asked(stage: CommandStage) -> CommandAction<'static> {
    match stage {
        CommandStage::Connect => CommandAction::Connect,
        CommandStage::Receive => CommandAction::Receive,
        CommandStage::Call { request } => CommandAction::Call(&request),
        CommandStage::Announce => CommandAction::AnnounceShutdown,
        CommandStage::Reply { message, .. } => CommandAction::Send(&message),
        CommandStage::Done { .. } => CommandAction::Finish,
    }
}

/// A runner that carries out commands of its node until it is told to shut down, or the channel
/// fails.
#[derive(Debug)]
pub struct CommandLoop {
    pub stage: CommandStage,
}

/// A runner that is about to connect and to carry out the commands of its node.
pub fn process_protocol_commands() -> (r: CommandLoop)
    ensures
        r.stage == CommandStage::Connect,
{
    CommandLoop { stage: CommandStage::Connect }
}

impl CommandLoop {
    /// What the runner is to do next.
    pub fn action(&self) -> (r: CommandAction<'_>)
        ensures
            r == command_asked(self.stage),
            self.stage is Connect ==> r is Connect,
            self.stage is Receive ==> r is Receive,
            self.stage matches CommandStage::Call { request } ==> r == CommandAction::Call(
                &request,
            ),
            self.stage is Announce ==> r is AnnounceShutdown,
            self.stage matches CommandStage::Reply { message, .. } ==> r == CommandAction::Send(
                &message,
            ),
            self.stage is Done ==> r is Finish,
    {
        match &self.stage {
            CommandStage::Connect => CommandAction::Connect,
            CommandStage::Receive => CommandAction::Receive,
            CommandStage::Call { request } => CommandAction::Call(request),
            CommandStage::Announce => CommandAction::AnnounceShutdown,
            CommandStage::Reply { message, .. } => CommandAction::Send(message),
            CommandStage::Done { .. } => CommandAction::Finish,
        }
    }

    /// The runner after what came of it.
    pub fn advance(self, reply: CommandReply) -> (r: Self)
        ensures
            r.stage == command_step(self.stage, reply),
            self.stage is Connect ==> (reply matches CommandReply::Connected(Ok(_)) ==> r.stage
                == CommandStage::Receive),
            self.stage is Connect ==> (reply matches CommandReply::Connected(Err(error))
                ==> r.stage == (CommandStage::Done { result: Err(error) })),
            self.stage is Receive ==> (reply matches CommandReply::Received(
                Ok(ProtocolMessage::ApplyBlockCall(given)),
            ) ==> r.stage == (CommandStage::Call {
                request: ProtocolRequest::ApplyBlock(given),
            })),
            self.stage is Receive ==> (reply matches CommandReply::Received(
                Ok(ProtocolMessage::BeginConstructionCall(given)),
            ) ==> r.stage == (CommandStage::Call {
                request: ProtocolRequest::BeginConstruction(given),
            })),
            self.stage is Receive ==> (reply matches CommandReply::Received(
                Ok(ProtocolMessage::ValidateOperationCall(given)),
            ) ==> r.stage == (CommandStage::Call {
                request: ProtocolRequest::ValidateOperation(given),
            })),
            self.stage is Receive ==> (reply matches CommandReply::Received(
                Ok(ProtocolMessage::ProtocolJsonRpcCall(given)),
            ) ==> r.stage == (CommandStage::Call {
                request: ProtocolRequest::CallProtocolJsonRpc(given),
            })),
            self.stage is Receive ==> (reply matches CommandReply::Received(
                Ok(ProtocolMessage::HelpersPreapplyOperationsCall(given)),
            ) ==> r.stage == (CommandStage::Call {
                request: ProtocolRequest::HelpersPreapplyOperations(given),
            })),
            self.stage is Receive ==> (reply matches CommandReply::Received(
                Ok(ProtocolMessage::HelpersPreapplyBlockCall(given)),
            ) ==> r.stage == (CommandStage::Call {
                request: ProtocolRequest::HelpersPreapplyBlock(given),
            })),
            self.stage is Receive ==> (reply matches CommandReply::Received(
                Ok(ProtocolMessage::ChangeRuntimeConfigurationCall(given)),
            ) ==> r.stage == (CommandStage::Call {
                request: ProtocolRequest::ChangeRuntimeConfiguration(given),
            })),
            self.stage is Receive ==> (reply matches CommandReply::Received(
                Ok(ProtocolMessage::GenesisResultDataCall(given)),
            ) ==> r.stage == (CommandStage::Call {
                request: ProtocolRequest::GenesisResultData(given),
            })),
            self.stage is Receive ==> (reply matches CommandReply::Received(
                Ok(ProtocolMessage::GenerateIdentity(given)),
            ) ==> r.stage == (CommandStage::Call {
                request: ProtocolRequest::GenerateIdentity(given),
            })),
            self.stage is Receive ==> (reply matches CommandReply::Received(
                Ok(ProtocolMessage::InitProtocolContextCall(params)),
            ) ==> r.stage == (CommandStage::Call {
                request: ProtocolRequest::InitProtocolContext {
                    storage_data_dir: params.storage_data_dir,
                    genesis: params.genesis,
                    protocol_overrides: params.protocol_overrides,
                    commit_genesis: params.commit_genesis,
                    enable_testchain: params.enable_testchain,
                    readonly: params.readonly,
                    patch_context: params.patch_context,
                },
            })),
            self.stage is Receive ==> (reply == CommandReply::Received(
                Ok(ProtocolMessage::ShutdownCall),
            ) ==> r.stage == CommandStage::Announce),
            self.stage is Receive ==> (reply matches CommandReply::Received(Err(_)) ==> r.stage
                == (CommandStage::Done { result: Ok(()) })),
            self.stage matches CommandStage::Call { request } ==> (reply
                matches CommandReply::Returned(outcome) ==> (r.stage
                matches CommandStage::Reply { message, last } && !last && answers(
                request,
                outcome,
                message,
            )) || (r.stage == self.stage && request is ChangeRuntimeConfiguration
                != outcome is Completed)),
            self.stage is Announce ==> (reply is Announced ==> r.stage == (CommandStage::Reply {
                message: NodeMessage::ShutdownResult,
                last: true,
            })),
            self.stage matches CommandStage::Reply { last, .. } ==> (reply
                matches CommandReply::Sent(Ok(_)) ==> r.stage == (if last {
                CommandStage::Done { result: Ok(()) }
            } else {
                CommandStage::Receive
            })),
            self.stage is Reply ==> (reply matches CommandReply::Sent(Err(error)) ==> r.stage == (
            CommandStage::Done { result: Err(error) })),
            self.stage is Done ==> r.stage == self.stage,
    {
        let stage = match (self.stage, reply) {
            (CommandStage::Connect, CommandReply::Connected(connected)) => match connected {
                Ok(_) => CommandStage::Receive,
                Err(error) => CommandStage::Done { result: Err(error) },
            },
            (CommandStage::Receive, CommandReply::Received(received)) => match received {
                Ok(message) => match request_for(message) {
                    Some(request) => CommandStage::Call { request },
                    None => CommandStage::Announce,
                },
                Err(_) => CommandStage::Done { result: Ok(()) },
            },
            (CommandStage::Call { request }, CommandReply::Returned(outcome)) => match respond(
                &request,
                outcome,
            ) {
                Some(message) => CommandStage::Reply { message, last: false },
                None => CommandStage::Call { request },
            },
            (CommandStage::Announce, CommandReply::Announced) => CommandStage::Reply {
                message: NodeMessage::ShutdownResult,
                last: true,
            },
            (CommandStage::Reply { last, .. }, CommandReply::Sent(Ok(_))) => if last {
                CommandStage::Done { result: Ok(()) }
            } else {
                CommandStage::Receive
            },
            (CommandStage::Reply { .. }, CommandReply::Sent(Err(error))) => CommandStage::Done {
                result: Err(error),
            },
            (stage, _) => stage,
        };
        CommandLoop { stage }
    }

    /// How the runner ended, once it is through.
    pub fn result(self) -> (r: Option<Result<(), IpcError>>)
        ensures
            r == match self.stage {
                CommandStage::Done { result } => Some(result),
                _ => None,
            },
    {
        match self.stage {
            CommandStage::Done { result } => Some(result),
            _ => None,
        }
    }
}

/// How far a runner is with its report.
#[derive(Debug)]
pub enum EventStage {
    /// The channel is to be connected.
    Connect,
    /// The next change of the context is awaited.
    Receive,
    /// The change is to be told to the node.
    Forward { action: ContextAction },
    /// The report is over.
    Done { result: Result<(), IpcError> },
}

/// What the runner is to do.
#[derive(Debug)]
pub enum EventAction<'a> {
    Connect,
    /// Receive a change from the context channel.
    Receive,
    /// Send a change to the node.
    Send(&'a ContextAction),
    /// Nothing: the report is over.
    Finish,
}

/// What came of it.
#[derive(Debug)]
pub enum EventReply {
    Connected(Result<(), IpcError>),
    /// The change, or nothing where the context channel failed.
    Received(Option<ContextAction>),
    Sent(Result<(), IpcError>),
}

/// The stage that a reply leads to. A reply that was not asked for changes nothing.
pub open spec fn event_step(stage: EventStage, reply: EventReply) -> EventStage {
    match (stage, reply) {
        (EventStage::Connect, EventReply::Connected(Ok(_))) => EventStage::Receive,
        (EventStage::Connect, EventReply::Connected(Err(error))) => EventStage::Done {
            result: Err(error),
        },
        (EventStage::Receive, EventReply::Received(Some(action))) => EventStage::Forward { action },
        (EventStage::Receive, EventReply::Received(None)) => EventStage::Done { result: Ok(()) },
        (EventStage::Forward { action }, EventReply::Sent(Ok(_))) => if action is Shutdown {
            EventStage::Done { result: Ok(()) }
        } else {
            EventStage::Receive
        },
        (EventStage::Forward { .. }, EventReply::Sent(Err(error))) => EventStage::Done {
            result: Err(error),
        },
        (stage, _) => stage,
    }
}

/// What the runner is to do at a stage.
pub open spec fn event_asked(stage: EventStage) -> EventAction<'static> {
    match stage {
        EventStage::Connect => EventAction::Connect,
        EventStage::Receive => EventAction::Receive,
        EventStage::Forward { action } => EventAction::Send(&action),
        EventStage::Done { .. } => EventAction::Finish,
    }
}

/// A runner that reports the changes of its context until it is told to shut down, or a channel
/// fails.
#[derive(Debug)]
pub struct EventLoop {
    pub stage: EventStage,
}

/// A runner that is about to connect and to report the changes of its context.
pub fn process_protocol_events() -> (r: EventLoop)
    ensures
        r.stage == EventStage::Connect,
{
    EventLoop { stage: EventStage::Connect }
}

impl EventLoop {
    /// What the runner is to do next.
    pub fn action(&self) -> (r: EventAction<'_>)
        ensures
            r == event_asked(self.stage),
            self.stage is Connect ==> r is Connect,
            self.stage is Receive ==> r is Receive,
            self.stage matches EventStage::Forward { action } ==> r == EventAction::Send(&action),
            self.stage is Done ==> r is Finish,
    {
        match &self.stage {
            EventStage::Connect => EventAction::Connect,
            EventStage::Receive => EventAction::Receive,
            EventStage::Forward { action } => EventAction::Send(action),
            EventStage::Done { .. } => EventAction::Finish,
        }
    }

    /// The runner after what came of it.
    pub fn advance(self, reply: EventReply) -> (r: Self)
        ensures
            r.stage == event_step(self.stage, reply),
            self.stage is Connect ==> (reply matches EventReply::Connected(Ok(_)) ==> r.stage
                == EventStage::Receive),
            self.stage is Connect ==> (reply matches EventReply::Connected(Err(error)) ==> r.stage
                == (EventStage::Done { result: Err(error) })),
            self.stage is Receive ==> (reply matches EventReply::Received(Some(action)) ==> r.stage
                == (EventStage::Forward { action })),
            self.stage is Receive ==> (reply matches EventReply::Received(None) ==> r.stage == (
            EventStage::Done { result: Ok(()) })),
            self.stage matches EventStage::Forward { action } ==> (reply matches EventReply::Sent(
                Ok(_),
            ) ==> r.stage == (if action is Shutdown {
                EventStage::Done { result: Ok(()) }
            } else {
                EventStage::Receive
            })),
            self.stage is Forward ==> (reply matches EventReply::Sent(Err(error)) ==> r.stage == (
            EventStage::Done { result: Err(error) })),
            self.stage is Done ==> r.stage == self.stage,
    {
        let stage = match (self.stage, reply) {
            (EventStage::Connect, EventReply::Connected(connected)) => match connected {
                Ok(_) => EventStage::Receive,
                Err(error) => EventStage::Done { result: Err(error) },
            },
            (EventStage::Receive, EventReply::Received(received)) => match received {
                Some(action) => EventStage::Forward { action },
                None => EventStage::Done { result: Ok(()) },
            },
            (EventStage::Forward { action }, EventReply::Sent(Ok(_))) => match action {
                ContextAction::Shutdown => EventStage::Done { result: Ok(()) },
                _ => EventStage::Receive,
            },
            (EventStage::Forward { .. }, EventReply::Sent(Err(error))) => EventStage::Done {
                result: Err(error),
            },
            (stage, _) => stage,
        };
        EventLoop { stage }
    }

    /// How the report ended, once it is over.
    pub fn result(self) -> (r: Option<Result<(), IpcError>>)
        ensures
            r == match self.stage {
                EventStage::Done { result } => Some(result),
                _ => None,
            },
    {
        match self.stage {
            EventStage::Done { result } => Some(result),
            _ => None,
        }
    }
}

} // verus!
