//! What a node and a protocol runner say to each other.
//!
//! Requests, responses and protocol failures travel in the encoded form that the sender gave them.
use vstd::prelude::*;

verus! {

/// What the protocol says of a call that it refused: the failure in its encoded form, and as text.
#[derive(Debug, PartialEq, Eq)]
pub struct ProtocolFault {
    pub encoded: Vec<u8>,
    pub text: String,
}

/// What a runner is to initialize its protocol context with.
#[derive(Debug, PartialEq, Eq)]
pub struct InitProtocolContextParams {
    pub storage_data_dir: String,
    pub genesis: Vec<u8>,
    pub genesis_max_operations_ttl: u16,
    pub protocol_overrides: Vec<u8>,
    pub commit_genesis: bool,
    pub enable_testchain: bool,
    pub readonly: bool,
    pub patch_context: Option<Vec<u8>>,
}

/// What the data for genesis is asked with.
#[derive(Debug, PartialEq, Eq)]
pub struct GenesisResultDataParams {
    pub genesis_context_hash: Vec<u8>,
    pub chain_id: Vec<u8>,
    pub genesis_protocol_hash: Vec<u8>,
    pub genesis_max_operations_ttl: u16,
}

/// How much work a new identity is to prove.
#[derive(Clone, Copy, Debug, PartialEq, Eq, Structural)]
pub struct GenerateIdentityParams {
    /// The bits of the IEEE 754 double that holds the difficulty.
    pub expected_pow_bits: u64,
}

/// This command message is generated by a node and is received by the protocol runner.
#[derive(Debug, PartialEq, Eq)]
pub enum ProtocolMessage {
    ApplyBlockCall(Vec<u8>),
    BeginConstructionCall(Vec<u8>),
    ValidateOperationCall(Vec<u8>),
    ProtocolJsonRpcCall(Vec<u8>),
    HelpersPreapplyOperationsCall(Vec<u8>),
    HelpersPreapplyBlockCall(Vec<u8>),
    ChangeRuntimeConfigurationCall(Vec<u8>),
    InitProtocolContextCall(InitProtocolContextParams),
    GenesisResultDataCall(GenesisResultDataParams),
    GenerateIdentity(GenerateIdentityParams),
    ShutdownCall,
}

/// This event message is generated as a response to the `ProtocolMessage` command.
#[derive(Debug, PartialEq, Eq)]
pub enum NodeMessage {
    ApplyBlockResult(Result<Vec<u8>, ProtocolFault>),
    BeginConstructionResult(Result<Vec<u8>, ProtocolFault>),
    ValidateOperationResponse(Result<Vec<u8>, ProtocolFault>),
    JsonRpcResponse(Result<Vec<u8>, ProtocolFault>),
    ChangeRuntimeConfigurationResult(Result<(), ProtocolFault>),
    InitProtocolContextResult(Result<Vec<u8>, ProtocolFault>),
    CommitGenesisResultData(Result<Vec<u8>, ProtocolFault>),
    GenerateIdentityResult(Result<Vec<u8>, ProtocolFault>),
    ShutdownResult,
}

/// A change of the context that a runner reports to its node.
#[derive(Debug, PartialEq, Eq)]
pub enum ContextAction {
    /// No change follows.
    Shutdown,
    /// Any other change, in its encoded form.
    Other(Vec<u8>),
}

/// What `InitProtocolContextParams` hold.
#[verifier::ext_equal]
pub struct InitProtocolContextParamsView {
    pub storage_data_dir: Seq<char>,
    pub genesis: Seq<u8>,
    pub genesis_max_operations_ttl: u16,
    pub protocol_overrides: Seq<u8>,
    pub commit_genesis: bool,
    pub enable_testchain: bool,
    pub readonly: bool,
    pub patch_context: Option<Seq<u8>>,
}

/// What `GenesisResultDataParams` hold.
#[verifier::ext_equal]
pub struct GenesisResultDataParamsView {
    pub genesis_context_hash: Seq<u8>,
    pub chain_id: Seq<u8>,
    pub genesis_protocol_hash: Seq<u8>,
    pub genesis_max_operations_ttl: u16,
}

/// What a `ProtocolMessage` says.
#[verifier::ext_equal]
pub enum ProtocolMessageView {
    ApplyBlockCall(Seq<u8>),
    BeginConstructionCall(Seq<u8>),
    ValidateOperationCall(Seq<u8>),
    ProtocolJsonRpcCall(Seq<u8>),
    HelpersPreapplyOperationsCall(Seq<u8>),
    HelpersPreapplyBlockCall(Seq<u8>),
    ChangeRuntimeConfigurationCall(Seq<u8>),
    InitProtocolContextCall(InitProtocolContextParamsView),
    GenesisResultDataCall(GenesisResultDataParamsView),
    GenerateIdentity(GenerateIdentityParams),
    ShutdownCall,
}

/// The bytes that are there, if any.
pub open spec fn optional_bytes(bytes: Option<Vec<u8>>) -> Option<Seq<u8>> {
    match bytes {
        Some(b) => Some(b@),
        None => None,
    }
}

impl View for InitProtocolContextParams {
    type V = InitProtocolContextParamsView;

    open spec fn view(&self) -> InitProtocolContextParamsView {
        InitProtocolContextParamsView {
            storage_data_dir: self.storage_data_dir@,
            genesis: self.genesis@,
            genesis_max_operations_ttl: self.genesis_max_operations_ttl,
            protocol_overrides: self.protocol_overrides@,
            commit_genesis: self.commit_genesis,
            enable_testchain: self.enable_testchain,
            readonly: self.readonly,
            patch_context: optional_bytes(self.patch_context),
        }
    }
}

impl View for GenesisResultDataParams {
    type V = GenesisResultDataParamsView;

    open spec fn view(&self) -> GenesisResultDataParamsView {
        GenesisResultDataParamsView {
            genesis_context_hash: self.genesis_context_hash@,
            chain_id: self.chain_id@,
            genesis_protocol_hash: self.genesis_protocol_hash@,
            genesis_max_operations_ttl: self.genesis_max_operations_ttl,
        }
    }
}

impl View for ProtocolMessage {
    type V = ProtocolMessageView;

    open spec fn view(&self) -> ProtocolMessageView {
        match *self {
            ProtocolMessage::ApplyBlockCall(request) => ProtocolMessageView::ApplyBlockCall(
                request@,
            ),
            ProtocolMessage::BeginConstructionCall(request) =>
                ProtocolMessageView::BeginConstructionCall(request@),
            ProtocolMessage::ValidateOperationCall(request) =>
                ProtocolMessageView::ValidateOperationCall(request@),
            ProtocolMessage::ProtocolJsonRpcCall(request) =>
                ProtocolMessageView::ProtocolJsonRpcCall(request@),
            ProtocolMessage::HelpersPreapplyOperationsCall(request) =>
                ProtocolMessageView::HelpersPreapplyOperationsCall(request@),
            ProtocolMessage::HelpersPreapplyBlockCall(request) =>
                ProtocolMessageView::HelpersPreapplyBlockCall(request@),
            ProtocolMessage::ChangeRuntimeConfigurationCall(settings) =>
                ProtocolMessageView::ChangeRuntimeConfigurationCall(settings@),
            ProtocolMessage::InitProtocolContextCall(params) =>
                ProtocolMessageView::InitProtocolContextCall(params@),
            ProtocolMessage::GenesisResultDataCall(params) =>
                ProtocolMessageView::GenesisResultDataCall(params@),
            ProtocolMessage::GenerateIdentity(params) => ProtocolMessageView::GenerateIdentity(
                params,
            ),
            ProtocolMessage::ShutdownCall => ProtocolMessageView::ShutdownCall,
        }
    }
}

impl NodeMessage {
    /// What the message is called.
    pub open spec fn name_text(&self) -> Seq<char> {
        match *self {
            NodeMessage::ApplyBlockResult(_) => "ApplyBlockResult"@,
            NodeMessage::BeginConstructionResult(_) => "BeginConstructionResult"@,
            NodeMessage::ValidateOperationResponse(_) => "ValidateOperationResponse"@,
            NodeMessage::JsonRpcResponse(_) => "JsonRpcResponse"@,
            NodeMessage::ChangeRuntimeConfigurationResult(_) => "ChangeRuntimeConfigurationResult"@,
            NodeMessage::InitProtocolContextResult(_) => "InitProtocolContextResult"@,
            NodeMessage::CommitGenesisResultData(_) => "CommitGenesisResultData"@,
            NodeMessage::GenerateIdentityResult(_) => "GenerateIdentityResult"@,
            NodeMessage::ShutdownResult => "ShutdownResult"@,
        }
    }

    /// What the message is called.
    pub fn name(&self) -> (r: &'static str)
        ensures
            r@ == self.name_text(),
            *self is ApplyBlockResult ==> r@ == "ApplyBlockResult"@,
            *self is BeginConstructionResult ==> r@ == "BeginConstructionResult"@,
            *self is ValidateOperationResponse ==> r@ == "ValidateOperationResponse"@,
            *self is JsonRpcResponse ==> r@ == "JsonRpcResponse"@,
            *self is ChangeRuntimeConfigurationResult ==> r@ == "ChangeRuntimeConfigurationResult"@,
            *self is InitProtocolContextResult ==> r@ == "InitProtocolContextResult"@,
            *self is CommitGenesisResultData ==> r@ == "CommitGenesisResultData"@,
            *self is GenerateIdentityResult ==> r@ == "GenerateIdentityResult"@,
            *self is ShutdownResult ==> r@ == "ShutdownResult"@,
    {
        match self {
            NodeMessage::ApplyBlockResult(_) => "ApplyBlockResult",
            NodeMessage::BeginConstructionResult(_) => "BeginConstructionResult",
            NodeMessage::ValidateOperationResponse(_) => "ValidateOperationResponse",
            NodeMessage::JsonRpcResponse(_) => "JsonRpcResponse",
            NodeMessage::ChangeRuntimeConfigurationResult(_) => "ChangeRuntimeConfigurationResult",
            NodeMessage::InitProtocolContextResult(_) => "InitProtocolContextResult",
            NodeMessage::CommitGenesisResultData(_) => "CommitGenesisResultData",
            NodeMessage::GenerateIdentityResult(_) => "GenerateIdentityResult",
            NodeMessage::ShutdownResult => "ShutdownResult",
        }
    }
}

/// A message tells all that it holds: two messages that say the same hold the same.
pub proof fn law_messages_tell_all_they_hold(a: ProtocolMessage, b: ProtocolMessage)
    requires
        a@ == b@,
    ensures
        match (a, b) {
            (ProtocolMessage::ApplyBlockCall(x), ProtocolMessage::ApplyBlockCall(y)) => x@ == y@,
            (
                ProtocolMessage::BeginConstructionCall(x),
                ProtocolMessage::BeginConstructionCall(y),
            ) => x@ == y@,
            (
                ProtocolMessage::ValidateOperationCall(x),
                ProtocolMessage::ValidateOperationCall(y),
            ) => x@ == y@,
            (ProtocolMessage::ProtocolJsonRpcCall(x), ProtocolMessage::ProtocolJsonRpcCall(y)) => x@
                == y@,
            (
                ProtocolMessage::HelpersPreapplyOperationsCall(x),
                ProtocolMessage::HelpersPreapplyOperationsCall(y),
            ) => x@ == y@,
            (
                ProtocolMessage::HelpersPreapplyBlockCall(x),
                ProtocolMessage::HelpersPreapplyBlockCall(y),
            ) => x@ == y@,
            (
                ProtocolMessage::ChangeRuntimeConfigurationCall(x),
                ProtocolMessage::ChangeRuntimeConfigurationCall(y),
            ) => x@ == y@,
            (
                ProtocolMessage::InitProtocolContextCall(x),
                ProtocolMessage::InitProtocolContextCall(y),
            ) => {
                &&& x.storage_data_dir@ == y.storage_data_dir@
                &&& x.genesis@ == y.genesis@
                &&& x.genesis_max_operations_ttl == y.genesis_max_operations_ttl
                &&& x.protocol_overrides@ == y.protocol_overrides@
                &&& x.commit_genesis == y.commit_genesis
                &&& x.enable_testchain == y.enable_testchain
                &&& x.readonly == y.readonly
                &&& x.patch_context is Some == y.patch_context is Some
                &&& x.patch_context is Some ==> x.patch_context.unwrap()@
                    == y.patch_context.unwrap()@
            },
            (
                ProtocolMessage::GenesisResultDataCall(x),
                ProtocolMessage::GenesisResultDataCall(y),
            ) => {
                &&& x.genesis_context_hash@ == y.genesis_context_hash@
                &&& x.chain_id@ == y.chain_id@
                &&& x.genesis_protocol_hash@ == y.genesis_protocol_hash@
                &&& x.genesis_max_operations_ttl == y.genesis_max_operations_ttl
            },
            (ProtocolMessage::GenerateIdentity(x), ProtocolMessage::GenerateIdentity(y)) => x == y,
            (ProtocolMessage::ShutdownCall, ProtocolMessage::ShutdownCall) => true,
            _ => false,
        },
{
}

} // verus!
