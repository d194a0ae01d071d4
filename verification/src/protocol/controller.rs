//! The node's side of the command channel.
use vstd::prelude::*;

use crate::protocol::configuration::{
    copy_bytes, copy_known, same_configuration, ProtocolEndpointConfiguration,
    TezosEnvironmentConfiguration, TezosEnvironmentConfigurationView,
};
use crate::protocol::errors::{IpcError, ProtocolServiceError, ProtocolServiceErrorView};
use crate::protocol::exchange::{call_of, Call, Exchange, ExchangeStage, ExchangeView};
use crate::protocol::initialization::{
    ContextRequest, ContextRequestView, InitStage, InitView, Initialization,
};
use crate::protocol::messages::{
    optional_bytes, GenerateIdentityParams, GenesisResultDataParams, GenesisResultDataParamsView,
    InitProtocolContextParams, InitProtocolContextParamsView, ProtocolMessage, ProtocolMessageView,
};

verus! {

/// Whether the two timeouts of a new channel were set, or what the socket said.
#[derive(Debug)]
pub struct TimeoutsSet {
    pub read: Result<(), String>,
    pub write: Result<(), String>,
}

/// IPC command server is listening for incoming IPC connections.
#[derive(Debug)]
pub struct IpcCmdServer {
    pub configuration: ProtocolEndpointConfiguration,
}

impl IpcCmdServer {
    /// A server for runners of this configuration.
    pub fn new(configuration: ProtocolEndpointConfiguration) -> (r: Self)
        ensures
            r.configuration == configuration,
    {
        IpcCmdServer { configuration }
    }

    /// The controller of a runner that has connected, with both timeouts set to [`IO_TIMEOUT`].
    ///
    /// If there is no connection, or a timeout was not set, the first failure is returned.
    ///
    /// [`IO_TIMEOUT`]: crate::protocol::exchange::IO_TIMEOUT
    pub fn accept(&self, connection: Result<TimeoutsSet, IpcError>) -> (r: Result<
        ProtocolController,
        IpcError,
    >)
        ensures
            match connection {
                Err(error) => r == Err::<ProtocolController, IpcError>(error),
                Ok(set) => match (set.read, set.write) {
                    (Err(reason), _) => r == Err::<ProtocolController, IpcError>(
                        IpcError::SocketConfigurationError { reason },
                    ),
                    (Ok(_), Err(reason)) => r == Err::<ProtocolController, IpcError>(
                        IpcError::SocketConfigurationError { reason },
                    ),
                    (Ok(_), Ok(_)) => r is Ok && r->Ok_0.configuration@ == self.configuration@,
                },
            },
            r matches Ok(controller) ==> same_configuration(
                controller.configuration,
                self.configuration,
            ),
    {
        match connection {
            Err(error) => Err(error),
            Ok(set) => match set.read {
                Err(reason) => Err(IpcError::SocketConfigurationError { reason }),
                Ok(_) => match set.write {
                    Err(reason) => Err(IpcError::SocketConfigurationError { reason }),
                    Ok(_) => Ok(ProtocolController { configuration: self.configuration.clone() }),
                },
            },
        }
    }
}

/// What the data for genesis is asked with, or why it cannot be asked: the first of the chain and
/// the protocol that is not known.
pub open spec fn genesis_question(
    environment: TezosEnvironmentConfigurationView,
    genesis_context_hash: Seq<u8>,
) -> Result<GenesisResultDataParamsView, Seq<char>> {
    match (environment.main_chain_id, environment.genesis_protocol) {
        (Err(message), _) => Err(message),
        (Ok(_), Err(message)) => Err(message),
        (Ok(chain_id), Ok(genesis_protocol_hash)) => Ok(
            GenesisResultDataParamsView {
                genesis_context_hash,
                chain_id,
                genesis_protocol_hash,
                genesis_max_operations_ttl: environment.genesis_max_operations_ttl,
            },
        ),
    }
}

/// The same bytes once more, if any.
fn copy_optional(bytes: &Option<Vec<u8>>) -> (r: Option<Vec<u8>>)
    ensures
        optional_bytes(r) == optional_bytes(*bytes),
        r is Some == bytes is Some,
        r is Some ==> r.unwrap()@ == bytes.unwrap()@,
{
    match bytes {
        Some(bytes) => Some(copy_bytes(bytes)),
        None => None,
    }
}

/// Encapsulate IPC communication.
#[derive(Debug)]
pub struct ProtocolController {
    pub configuration: ProtocolEndpointConfiguration,
}

/// Provides convenience methods for IPC communication.
///
/// Each method returns the exchange that it takes, which handles things such as timeouts and also
/// checks if the correct response type is received.
impl ProtocolController {
    /// An exchange that has just begun with this command.
    pub open spec fn begins(exchange: Exchange, message: ProtocolMessageView) -> bool {
        &&& exchange.call == call_of(message)
        &&& exchange.stage@ == (ExchangeView::Send { message })
    }

    /// What initializing asks of the runner, whether it may write or not.
    pub open spec fn context_request(
        &self,
        commit_genesis: bool,
        readonly: bool,
        patch_context: Option<Seq<u8>>,
    ) -> ContextRequestView {
        let configuration = self.configuration@;
        ContextRequestView {
            data_dir: configuration.data_dir,
            genesis: configuration.environment.genesis,
            genesis_max_operations_ttl: configuration.environment.genesis_max_operations_ttl,
            protocol_overrides: configuration.environment.protocol_overrides,
            commit_genesis,
            enable_testchain: configuration.enable_testchain,
            readonly,
            patch_context,
        }
    }

    /// An initialization that has just begun to configure the runtime.
    pub open spec fn configures(&self, stage: InitView, request: ContextRequestView) -> bool {
        stage == (InitView::Configure {
            call: Call::ChangeRuntimeConfiguration,
            exchange: ExchangeView::Send {
                message: ProtocolMessageView::ChangeRuntimeConfigurationCall(
                    self.configuration@.runtime_configuration,
                ),
            },
            request,
        })
    }

    /// Whether an initialization has just begun: the runtime is configured as the controller's
    /// configuration says, and then the context is initialized where and as it says.
    pub open spec fn sets_out(
        &self,
        stage: InitStage,
        commit_genesis: bool,
        readonly: bool,
        patch_context: Option<Vec<u8>>,
    ) -> bool {
        let environment = self.configuration.environment;
        &&& stage matches InitStage::Configure { exchange, request }
        &&& exchange.call == Call::ChangeRuntimeConfiguration
        &&& exchange.stage matches ExchangeStage::Send { message }
        &&& message matches ProtocolMessage::ChangeRuntimeConfigurationCall(settings)
        &&& settings@ == self.configuration.runtime_configuration@
        &&& request.data_dir@ == self.configuration.data_dir@
        &&& request.genesis@ == environment.genesis@
        &&& request.genesis_max_operations_ttl == environment.genesis_max_operations_ttl
        &&& request.protocol_overrides@ == environment.protocol_overrides@
        &&& request.commit_genesis == commit_genesis
        &&& request.enable_testchain == self.configuration.enable_testchain
        &&& request.readonly == readonly
        &&& request.patch_context is Some == patch_context is Some
        &&& patch_context is Some ==> request.patch_context.unwrap()@ == patch_context.unwrap()@
    }

    /// Apply block
    pub fn apply_block(&self, request: Vec<u8>) -> (r: Exchange)
        ensures
            Self::begins(r, ProtocolMessageView::ApplyBlockCall(request@)),
            r == (Exchange {
                call: Call::ApplyBlock,
                stage: ExchangeStage::Send {
                    message: ProtocolMessage::ApplyBlockCall(request),
                },
            }),
    {
        Exchange::new(ProtocolMessage::ApplyBlockCall(request))
    }

    /// Begin construction
    pub fn begin_construction(&self, request: Vec<u8>) -> (r: Exchange)
        ensures
            Self::begins(r, ProtocolMessageView::BeginConstructionCall(request@)),
            r == (Exchange {
                call: Call::BeginConstruction,
                stage: ExchangeStage::Send {
                    message: ProtocolMessage::BeginConstructionCall(request),
                },
            }),
    {
        Exchange::new(ProtocolMessage::BeginConstructionCall(request))
    }

    /// Validate operation
    pub fn validate_operation(&self, request: Vec<u8>) -> (r: Exchange)
        ensures
            Self::begins(r, ProtocolMessageView::ValidateOperationCall(request@)),
            r == (Exchange {
                call: Call::ValidateOperation,
                stage: ExchangeStage::Send {
                    message: ProtocolMessage::ValidateOperationCall(request),
                },
            }),
    {
        Exchange::new(ProtocolMessage::ValidateOperationCall(request))
    }

    /// Call protocol json rpc
    pub fn call_protocol_json_rpc(&self, request: Vec<u8>) -> (r: Exchange)
        ensures
            Self::begins(r, ProtocolMessageView::ProtocolJsonRpcCall(request@)),
            r == (Exchange {
                call: Call::JsonRpc,
                stage: ExchangeStage::Send {
                    message: ProtocolMessage::ProtocolJsonRpcCall(request),
                },
            }),
    {
        Exchange::new(ProtocolMessage::ProtocolJsonRpcCall(request))
    }

    /// Call helpers_preapply_operations shell service
    pub fn helpers_preapply_operations(&self, request: Vec<u8>) -> (r: Exchange)
        ensures
            Self::begins(r, ProtocolMessageView::HelpersPreapplyOperationsCall(request@)),
            r == (Exchange {
                call: Call::JsonRpc,
                stage: ExchangeStage::Send {
                    message: ProtocolMessage::HelpersPreapplyOperationsCall(request),
                },
            }),
    {
        Exchange::new(ProtocolMessage::HelpersPreapplyOperationsCall(request))
    }

    /// Call helpers_preapply_block shell service
    pub fn helpers_preapply_block(&self, request: Vec<u8>) -> (r: Exchange)
        ensures
            Self::begins(r, ProtocolMessageView::HelpersPreapplyBlockCall(request@)),
            r == (Exchange {
                call: Call::JsonRpc,
                stage: ExchangeStage::Send {
                    message: ProtocolMessage::HelpersPreapplyBlockCall(request),
                },
            }),
    {
        Exchange::new(ProtocolMessage::HelpersPreapplyBlockCall(request))
    }

    /// Change tezos runtime configuration
    pub fn change_runtime_configuration(&self, settings: Vec<u8>) -> (r: Exchange)
        ensures
            Self::begins(r, ProtocolMessageView::ChangeRuntimeConfigurationCall(settings@)),
            r == (Exchange {
                call: Call::ChangeRuntimeConfiguration,
                stage: ExchangeStage::Send {
                    message: ProtocolMessage::ChangeRuntimeConfigurationCall(settings),
                },
            }),
    {
        Exchange::new(ProtocolMessage::ChangeRuntimeConfigurationCall(settings))
    }

    /// Command the runner to initialize context and protocol.
    pub fn init_protocol_context(
        &self,
        storage_data_dir: String,
        tezos_environment: &TezosEnvironmentConfiguration,
        commit_genesis: bool,
        enable_testchain: bool,
        readonly: bool,
        patch_context: Option<Vec<u8>>,
    ) -> (r: Initialization)
        ensures
            r.stage@ == (InitView::Barrier {
                params: InitProtocolContextParamsView {
                    storage_data_dir: storage_data_dir@,
                    genesis: tezos_environment@.genesis,
                    genesis_max_operations_ttl: tezos_environment@.genesis_max_operations_ttl,
                    protocol_overrides: tezos_environment@.protocol_overrides,
                    commit_genesis,
                    enable_testchain,
                    readonly,
                    patch_context: optional_bytes(patch_context),
                },
            }),
            r.stage matches InitStage::Barrier { params } && {
                &&& params.storage_data_dir == storage_data_dir
                &&& params.genesis@ == tezos_environment.genesis@
                &&& params.genesis_max_operations_ttl
                    == tezos_environment.genesis_max_operations_ttl
                &&& params.protocol_overrides@ == tezos_environment.protocol_overrides@
                &&& params.commit_genesis == commit_genesis
                &&& params.enable_testchain == enable_testchain
                &&& params.readonly == readonly
                &&& params.patch_context == patch_context
            },
    {
        Initialization {
            stage: InitStage::Barrier {
                params: InitProtocolContextParams {
                    storage_data_dir,
                    genesis: copy_bytes(&tezos_environment.genesis),
                    genesis_max_operations_ttl: tezos_environment.genesis_max_operations_ttl,
                    protocol_overrides: copy_bytes(&tezos_environment.protocol_overrides),
                    commit_genesis,
                    enable_testchain,
                    readonly,
                    patch_context,
                },
            },
        }
    }

    /// Command the runner to generate a new identity.
    pub fn generate_identity(&self, expected_pow_bits: u64) -> (r: Exchange)
        ensures
            Self::begins(
                r,
                ProtocolMessageView::GenerateIdentity(
                    (GenerateIdentityParams { expected_pow_bits }),
                ),
            ),
            r == (Exchange {
                call: Call::GenerateIdentity,
                stage: ExchangeStage::Send {
                    message: ProtocolMessage::GenerateIdentity(
                        GenerateIdentityParams { expected_pow_bits },
                    ),
                },
            }),
    {
        Exchange::new(
            ProtocolMessage::GenerateIdentity(GenerateIdentityParams { expected_pow_bits }),
        )
    }

    /// Gracefully shutdown protocol runner
    pub fn shutdown(&self) -> (r: Exchange)
        ensures
            Self::begins(r, ProtocolMessageView::ShutdownCall),
            r == (Exchange {
                call: Call::Shutdown,
                stage: ExchangeStage::Send { message: ProtocolMessage::ShutdownCall },
            }),
    {
        Exchange::new(ProtocolMessage::ShutdownCall)
    }

    /// An initialization that begins with the configuration of the runtime.
    fn init_protocol(
        &self,
        commit_genesis: bool,
        readonly: bool,
        patch_context: Option<Vec<u8>>,
    ) -> (r: Initialization)
        ensures
            self.configures(
                r.stage@,
                self.context_request(commit_genesis, readonly, optional_bytes(patch_context)),
            ),
            self.sets_out(r.stage, commit_genesis, readonly, patch_context),
    {
        let environment = &self.configuration.environment;
        let exchange = self.change_runtime_configuration(
            copy_bytes(&self.configuration.runtime_configuration),
        );
        let request = ContextRequest {
            data_dir: copy_bytes(&self.configuration.data_dir),
            genesis: copy_bytes(&environment.genesis),
            genesis_max_operations_ttl: environment.genesis_max_operations_ttl,
            protocol_overrides: copy_bytes(&environment.protocol_overrides),
            commit_genesis,
            enable_testchain: self.configuration.enable_testchain,
            readonly,
            patch_context,
        };
        Initialization { stage: InitStage::Configure { exchange, request } }
    }

    /// Initialize protocol environment from default configuration (writeable).
    pub fn init_protocol_for_write(
        &self,
        commit_genesis: bool,
        patch_context: &Option<Vec<u8>>,
    ) -> (r: Initialization)
        ensures
            self.configures(
                r.stage@,
                self.context_request(commit_genesis, false, optional_bytes(*patch_context)),
            ),
            self.sets_out(r.stage, commit_genesis, false, *patch_context),
    {
        self.init_protocol(commit_genesis, false, copy_optional(patch_context))
    }

    /// Initialize protocol environment from default configuration (readonly).
    pub fn init_protocol_for_read(&self) -> (r: Initialization)
        ensures
            self.configures(r.stage@, self.context_request(false, true, None)),
            self.sets_out(r.stage, false, true, None),
    {
        self.init_protocol(false, true, None)
    }

    /// Gets data for genesis.
    pub fn genesis_result_data(&self, genesis_context_hash: &Vec<u8>) -> (r: Result<
        Exchange,
        ProtocolServiceError,
    >)
        ensures
            match genesis_question(self.configuration@.environment, genesis_context_hash@) {
                Err(message) => r is Err && r->Err_0@ == (
                ProtocolServiceErrorView::InvalidDataError { message }),
                Ok(params) => r is Ok && Self::begins(
                    r->Ok_0,
                    ProtocolMessageView::GenesisResultDataCall(params),
                ),
            },
            self.configuration.environment.main_chain_id matches Err(message) ==> (r matches Err(
                ProtocolServiceError::InvalidDataError { message: said },
            ) && said@ == message@),
            self.configuration.environment.main_chain_id is Ok ==> (
            self.configuration.environment.genesis_protocol matches Err(message) ==> (r
                matches Err(ProtocolServiceError::InvalidDataError { message: said }) && said@
                == message@)),
            self.configuration.environment.main_chain_id matches Ok(chain_id) ==> (
            self.configuration.environment.genesis_protocol matches Ok(protocol) ==> ({
                &&& r matches Ok(exchange)
                &&& exchange.call == Call::GenesisResultData
                &&& exchange.stage matches ExchangeStage::Send { message }
                &&& message matches ProtocolMessage::GenesisResultDataCall(params)
                &&& params.genesis_context_hash@ == genesis_context_hash@
                &&& params.chain_id@ == chain_id@
                &&& params.genesis_protocol_hash@ == protocol@
                &&& params.genesis_max_operations_ttl
                    == self.configuration.environment.genesis_max_operations_ttl
            })),
    {
        let environment = &self.configuration.environment;
        match (copy_known(&environment.main_chain_id), copy_known(&environment.genesis_protocol)) {
            (Err(message), _) => Err(ProtocolServiceError::InvalidDataError { message }),
            (Ok(_), Err(message)) => Err(ProtocolServiceError::InvalidDataError { message }),
            (Ok(chain_id), Ok(genesis_protocol_hash)) => {
                let params = GenesisResultDataParams {
                    genesis_context_hash: copy_bytes(genesis_context_hash),
                    chain_id,
                    genesis_protocol_hash,
                    genesis_max_operations_ttl: environment.genesis_max_operations_ttl,
                };
                Ok(Exchange::new(ProtocolMessage::GenesisResultDataCall(params)))
            },
        }
    }
}

} // verus!
