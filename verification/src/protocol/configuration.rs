//! How a protocol runner is set up.
use vstd::prelude::*;
use vstd::string::*;

verus! {

/// How much a protocol runner logs.
#[derive(Clone, Copy, Debug, PartialEq, Eq, Structural)]
pub enum LogLevel {
    Critical,
    Error,
    Warning,
    Info,
    Debug,
    Trace,
}

/// The network that a protocol runner works for. The genesis and the protocol overrides are in
/// their encoded form; what cannot be told is the text of the failure.
#[derive(Debug, PartialEq, Eq)]
pub struct TezosEnvironmentConfiguration {
    pub genesis: Vec<u8>,
    pub genesis_max_operations_ttl: u16,
    pub protocol_overrides: Vec<u8>,
    pub main_chain_id: Result<Vec<u8>, String>,
    pub genesis_protocol: Result<Vec<u8>, String>,
}

/// What a `TezosEnvironmentConfiguration` holds.
#[verifier::ext_equal]
pub struct TezosEnvironmentConfigurationView {
    pub genesis: Seq<u8>,
    pub genesis_max_operations_ttl: u16,
    pub protocol_overrides: Seq<u8>,
    pub main_chain_id: Result<Seq<u8>, Seq<char>>,
    pub genesis_protocol: Result<Seq<u8>, Seq<char>>,
}

/// Protocol configuration (transferred via IPC from the node to the protocol runner). The paths
/// are the bytes of their names.
#[derive(Debug, PartialEq, Eq)]
pub struct ProtocolEndpointConfiguration {
    pub runtime_configuration: Vec<u8>,
    pub environment: TezosEnvironmentConfiguration,
    pub enable_testchain: bool,
    pub data_dir: Vec<u8>,
    pub executable_path: Vec<u8>,
    pub log_level: LogLevel,
    pub need_event_server: bool,
}

/// What a `ProtocolEndpointConfiguration` holds.
#[verifier::ext_equal]
pub struct ProtocolEndpointConfigurationView {
    pub runtime_configuration: Seq<u8>,
    pub environment: TezosEnvironmentConfigurationView,
    pub enable_testchain: bool,
    pub data_dir: Seq<u8>,
    pub executable_path: Seq<u8>,
    pub log_level: LogLevel,
    pub need_event_server: bool,
}

/// What is known, or why it is not.
pub open spec fn known(value: Result<Vec<u8>, String>) -> Result<Seq<u8>, Seq<char>> {
    match value {
        Ok(bytes) => Ok(bytes@),
        Err(text) => Err(text@),
    }
}

impl View for TezosEnvironmentConfiguration {
    type V = TezosEnvironmentConfigurationView;

    open spec fn view(&self) -> TezosEnvironmentConfigurationView {
        TezosEnvironmentConfigurationView {
            genesis: self.genesis@,
            genesis_max_operations_ttl: self.genesis_max_operations_ttl,
            protocol_overrides: self.protocol_overrides@,
            main_chain_id: known(self.main_chain_id),
            genesis_protocol: known(self.genesis_protocol),
        }
    }
}

impl View for ProtocolEndpointConfiguration {
    type V = ProtocolEndpointConfigurationView;

    open spec fn view(&self) -> ProtocolEndpointConfigurationView {
        ProtocolEndpointConfigurationView {
            runtime_configuration: self.runtime_configuration@,
            environment: self.environment@,
            enable_testchain: self.enable_testchain,
            data_dir: self.data_dir@,
            executable_path: self.executable_path@,
            log_level: self.log_level,
            need_event_server: self.need_event_server,
        }
    }
}

/// The same bytes once more.
pub(crate) fn copy_bytes(bytes: &Vec<u8>) -> (r: Vec<u8>)
    ensures
        r@ == bytes@,
{
    let r = bytes.clone();
    assert(r@ =~= bytes@);
    r
}

/// The same value once more.
pub(crate) fn copy_known(value: &Result<Vec<u8>, String>) -> (r: Result<Vec<u8>, String>)
    ensures
        known(r) == known(*value),
        same_known(r, *value),
{
    match value {
        Ok(bytes) => Ok(copy_bytes(bytes)),
        Err(text) => Err(text.clone()),
    }
}

/// Whether two values are known to be the same, or unknown for the same reason.
pub open spec fn same_known(a: Result<Vec<u8>, String>, b: Result<Vec<u8>, String>) -> bool {
    match (a, b) {
        (Ok(x), Ok(y)) => x@ == y@,
        (Err(x), Err(y)) => x@ == y@,
        _ => false,
    }
}

/// Whether two networks agree in everything.
pub open spec fn same_environment(
    a: TezosEnvironmentConfiguration,
    b: TezosEnvironmentConfiguration,
) -> bool {
    &&& a.genesis@ == b.genesis@
    &&& a.genesis_max_operations_ttl == b.genesis_max_operations_ttl
    &&& a.protocol_overrides@ == b.protocol_overrides@
    &&& same_known(a.main_chain_id, b.main_chain_id)
    &&& same_known(a.genesis_protocol, b.genesis_protocol)
}

/// Whether two configurations agree in everything.
pub open spec fn same_configuration(
    a: ProtocolEndpointConfiguration,
    b: ProtocolEndpointConfiguration,
) -> bool {
    &&& a.runtime_configuration@ == b.runtime_configuration@
    &&& same_environment(a.environment, b.environment)
    &&& a.enable_testchain == b.enable_testchain
    &&& a.data_dir@ == b.data_dir@
    &&& a.executable_path@ == b.executable_path@
    &&& a.log_level == b.log_level
    &&& a.need_event_server == b.need_event_server
}

/// A configuration tells all that it holds: two that tell the same agree in everything.
pub proof fn law_configurations_tell_all_they_hold(
    a: ProtocolEndpointConfiguration,
    b: ProtocolEndpointConfiguration,
)
    ensures
        a@ == b@ <==> same_configuration(a, b),
{
    assert(same_configuration(a, b) ==> a@ =~= b@);
}

impl Clone for TezosEnvironmentConfiguration {
    fn clone(&self) -> (r: Self)
        ensures
            r@ == self@,
            same_environment(r, *self),
    {
        TezosEnvironmentConfiguration {
            genesis: copy_bytes(&self.genesis),
            genesis_max_operations_ttl: self.genesis_max_operations_ttl,
            protocol_overrides: copy_bytes(&self.protocol_overrides),
            main_chain_id: copy_known(&self.main_chain_id),
            genesis_protocol: copy_known(&self.genesis_protocol),
        }
    }
}

impl Clone for ProtocolEndpointConfiguration {
    fn clone(&self) -> (r: Self)
        ensures
            r@ == self@,
            same_configuration(r, *self),
    {
        ProtocolEndpointConfiguration {
            runtime_configuration: copy_bytes(&self.runtime_configuration),
            environment: self.environment.clone(),
            enable_testchain: self.enable_testchain,
            data_dir: copy_bytes(&self.data_dir),
            executable_path: copy_bytes(&self.executable_path),
            log_level: self.log_level,
            need_event_server: self.need_event_server,
        }
    }
}

impl ProtocolEndpointConfiguration {
    /// A configuration of these parts.
    pub fn new(
        runtime_configuration: Vec<u8>,
        environment: TezosEnvironmentConfiguration,
        enable_testchain: bool,
        data_dir: &Vec<u8>,
        executable_path: &Vec<u8>,
        log_level: LogLevel,
        need_event_server: bool,
    ) -> (r: Self)
        ensures
            r.runtime_configuration == runtime_configuration,
            r.environment == environment,
            r.enable_testchain == enable_testchain,
            r.data_dir@ == data_dir@,
            r.executable_path@ == executable_path@,
            r.log_level == log_level,
            r.need_event_server == need_event_server,
    {
        ProtocolEndpointConfiguration {
            runtime_configuration,
            environment,
            enable_testchain,
            data_dir: copy_bytes(data_dir),
            executable_path: copy_bytes(executable_path),
            log_level,
            need_event_server,
        }
    }

    /// How the runtime is set up.
    pub fn runtime_configuration(&self) -> (r: &Vec<u8>)
        ensures
            *r == self.runtime_configuration,
    {
        &self.runtime_configuration
    }

    /// The network that the runner works for.
    pub fn environment(&self) -> (r: &TezosEnvironmentConfiguration)
        ensures
            *r == self.environment,
    {
        &self.environment
    }

    /// Whether the test chain is enabled.
    pub fn enable_testchain(&self) -> (r: bool)
        ensures
            r == self.enable_testchain,
    {
        self.enable_testchain
    }

    /// Where the storage lies.
    pub fn data_dir(&self) -> (r: &Vec<u8>)
        ensures
            *r == self.data_dir,
    {
        &self.data_dir
    }

    /// Which program the runner is.
    pub fn executable_path(&self) -> (r: &Vec<u8>)
        ensures
            *r == self.executable_path,
    {
        &self.executable_path
    }

    /// How much the runner logs.
    pub fn log_level(&self) -> (r: &LogLevel)
        ensures
            *r == self.log_level,
    {
        &self.log_level
    }

    /// Whether the runner reports changes of the context.
    pub fn need_event_server(&self) -> (r: bool)
        ensures
            r == self.need_event_server,
    {
        self.need_event_server
    }
}

} // verus!
