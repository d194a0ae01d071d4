//! What can go wrong between a node and its protocol runners.
use vstd::prelude::*;
use vstd::string::*;

use crate::protocol::messages::ProtocolFault;

verus! {

/// Why a channel between processes failed.
#[derive(Debug, PartialEq, Eq)]
pub enum IpcError {
    /// A timeout of the socket could not be set.
    SocketConfigurationError { reason: String },
    /// Anything else that the channel reports.
    ChannelError { reason: String },
}

/// Error types generated by a tezos protocol.
#[derive(Debug, PartialEq, Eq)]
pub enum ProtocolError {
    /// Protocol rejected to apply a block.
    ApplyBlockError { reason: ProtocolFault },
    /// Protocol did not begin a construction.
    BeginConstructionError { reason: ProtocolFault },
    /// Protocol did not validate an operation.
    ValidateOperationError { reason: ProtocolFault },
    /// A remote call of the protocol failed.
    ProtocolRpcError { reason: ProtocolFault },
    /// Error in configuration.
    TezosRuntimeConfigurationError { reason: ProtocolFault },
    /// The tezos storage was not initialized.
    OcamlStorageInitError { reason: ProtocolFault },
    /// No identity was generated.
    TezosGenerateIdentityError { reason: ProtocolFault },
    /// The genesis data was not found.
    GenesisResultDataError { reason: ProtocolFault },
}

/// Errors generated by `protocol_runner`.
#[allow(inconsistent_fields)]
#[derive(Debug, PartialEq, Eq)]
pub enum ProtocolServiceError {
    /// Generic IPC communication error. See `reason` for more details.
    IpcError { reason: IpcError },
    /// Tezos protocol error.
    ProtocolError { reason: ProtocolError },
    /// Unexpected message was received from IPC channel
    UnexpectedMessage { message: &'static str },
    /// The node failed to spawn a new `protocol_runner` sub-process.
    SpawnError { reason: String },
    /// Invalid data error
    InvalidDataError { message: String },
    /// Lock error
    LockPoisonError { message: String },
}

/// What a `ProtocolServiceError` holds.
#[allow(inconsistent_fields)]
#[verifier::ext_equal]
pub enum ProtocolServiceErrorView {
    IpcError { reason: IpcError },
    ProtocolError { reason: ProtocolError },
    UnexpectedMessage { message: Seq<char> },
    SpawnError { reason: Seq<char> },
    InvalidDataError { message: Seq<char> },
    LockPoisonError { message: Seq<char> },
}

impl View for ProtocolServiceError {
    type V = ProtocolServiceErrorView;

    open spec fn view(&self) -> ProtocolServiceErrorView {
        match *self {
            ProtocolServiceError::IpcError { reason } => ProtocolServiceErrorView::IpcError {
                reason,
            },
            ProtocolServiceError::ProtocolError { reason } =>
                ProtocolServiceErrorView::ProtocolError { reason },
            ProtocolServiceError::UnexpectedMessage { message } =>
                ProtocolServiceErrorView::UnexpectedMessage { message: message@ },
            ProtocolServiceError::SpawnError { reason } => ProtocolServiceErrorView::SpawnError {
                reason: reason@,
            },
            ProtocolServiceError::InvalidDataError { message } =>
                ProtocolServiceErrorView::InvalidDataError { message: message@ },
            ProtocolServiceError::LockPoisonError { message } =>
                ProtocolServiceErrorView::LockPoisonError { message: message@ },
        }
    }
}

/// How `{:?}` shows a text: quoted, with what cannot be shown escaped.
pub uninterp spec fn quoted(text: Seq<char>) -> Seq<char>;

/// Shows a text by the `Debug` of `str`, which std puts between quotes with escapes. The contract
/// names the outcome and leaves open which characters are escaped, and how.
#[verifier::external_body]
fn quote(text: &str) -> (r: String)
    ensures
        r@ == quoted(text@),
{
    format!("{:?}", text)
}

impl IpcError {
    /// What the error says.
    pub open spec fn text(&self) -> Seq<char> {
        match *self {
            IpcError::SocketConfigurationError { reason } => "Socket configuration error: "@
                + reason@,
            IpcError::ChannelError { reason } => reason@,
        }
    }

    /// What the error says.
    pub fn message(&self) -> (r: String)
        ensures
            r@ == self.text(),
            *self matches IpcError::SocketConfigurationError { reason } ==> r@
                == "Socket configuration error: "@ + reason@,
            *self matches IpcError::ChannelError { reason } ==> r@ == reason@,
    {
        match self {
            IpcError::SocketConfigurationError { reason } =>
                "Socket configuration error: ".to_owned().concat(reason.as_str()),
            IpcError::ChannelError { reason } => reason.clone(),
        }
    }
}

impl ProtocolError {
    /// What the protocol said.
    pub open spec fn fault(&self) -> ProtocolFault {
        match *self {
            ProtocolError::ApplyBlockError { reason } => reason,
            ProtocolError::BeginConstructionError { reason } => reason,
            ProtocolError::ValidateOperationError { reason } => reason,
            ProtocolError::ProtocolRpcError { reason } => reason,
            ProtocolError::TezosRuntimeConfigurationError { reason } => reason,
            ProtocolError::OcamlStorageInitError { reason } => reason,
            ProtocolError::TezosGenerateIdentityError { reason } => reason,
            ProtocolError::GenesisResultDataError { reason } => reason,
        }
    }

    /// What failed, in words.
    pub open spec fn subject(&self) -> Seq<char> {
        match *self {
            ProtocolError::ApplyBlockError { .. } => "Apply block error: "@,
            ProtocolError::BeginConstructionError { .. } => "Begin construction error: "@,
            ProtocolError::ValidateOperationError { .. } => "Validate operation error: "@,
            ProtocolError::ProtocolRpcError { .. } => "Protocol rpc call error: "@,
            ProtocolError::TezosRuntimeConfigurationError { .. } =>
                "OCaml runtime configuration error: "@,
            ProtocolError::OcamlStorageInitError { .. } => "OCaml storage init error: "@,
            ProtocolError::TezosGenerateIdentityError { .. } =>
                "Failed to generate tezos identity: "@,
            ProtocolError::GenesisResultDataError { .. } => "Failed to get genesis data: "@,
        }
    }

    /// What the error says.
    pub open spec fn text(&self) -> Seq<char> {
        self.subject() + self.fault().text@
    }

    /// What the error says.
    pub fn message(&self) -> (r: String)
        ensures
            r@ == self.text(),
            *self matches ProtocolError::ApplyBlockError { reason } ==> r@
                == "Apply block error: "@ + reason.text@,
            *self matches ProtocolError::BeginConstructionError { reason } ==> r@
                == "Begin construction error: "@ + reason.text@,
            *self matches ProtocolError::ValidateOperationError { reason } ==> r@
                == "Validate operation error: "@ + reason.text@,
            *self matches ProtocolError::ProtocolRpcError { reason } ==> r@
                == "Protocol rpc call error: "@ + reason.text@,
            *self matches ProtocolError::TezosRuntimeConfigurationError { reason } ==> r@
                == "OCaml runtime configuration error: "@ + reason.text@,
            *self matches ProtocolError::OcamlStorageInitError { reason } ==> r@
                == "OCaml storage init error: "@ + reason.text@,
            *self matches ProtocolError::TezosGenerateIdentityError { reason } ==> r@
                == "Failed to generate tezos identity: "@ + reason.text@,
            *self matches ProtocolError::GenesisResultDataError { reason } ==> r@
                == "Failed to get genesis data: "@ + reason.text@,
    {
        let (subject, reason): (&str, &ProtocolFault) = match self {
            ProtocolError::ApplyBlockError { reason } => ("Apply block error: ", reason),
            ProtocolError::BeginConstructionError { reason } => (
                "Begin construction error: ",
                reason,
            ),
            ProtocolError::ValidateOperationError { reason } => (
                "Validate operation error: ",
                reason,
            ),
            ProtocolError::ProtocolRpcError { reason } => ("Protocol rpc call error: ", reason),
            ProtocolError::TezosRuntimeConfigurationError { reason } => (
                "OCaml runtime configuration error: ",
                reason,
            ),
            ProtocolError::OcamlStorageInitError { reason } => (
                "OCaml storage init error: ",
                reason,
            ),
            ProtocolError::TezosGenerateIdentityError { reason } => (
                "Failed to generate tezos identity: ",
                reason,
            ),
            ProtocolError::GenesisResultDataError { reason } => (
                "Failed to get genesis data: ",
                reason,
            ),
        };
        subject.to_owned().concat(reason.text.as_str())
    }
}

impl ProtocolServiceError {
    /// What the error says.
    pub open spec fn text(&self) -> Seq<char> {
        match *self {
            ProtocolServiceError::IpcError { reason } => "IPC error: "@ + reason.text(),
            ProtocolServiceError::ProtocolError { reason } => "Protocol error: "@ + reason.text(),
            ProtocolServiceError::UnexpectedMessage { message } => "Received unexpected message: "@
                + message@,
            ProtocolServiceError::SpawnError { reason } =>
                "Failed to spawn tezos protocol wrapper sub-process: "@ + reason@,
            ProtocolServiceError::InvalidDataError { message } => "Invalid data error: "@
                + message@,
            ProtocolServiceError::LockPoisonError { message } => "Lock error: "@ + quoted(message@),
        }
    }

    /// What the error says.
    pub fn message(&self) -> (r: String)
        ensures
            r@ == self.text(),
            *self matches ProtocolServiceError::IpcError { reason } ==> r@ == "IPC error: "@
                + reason.text(),
            *self matches ProtocolServiceError::ProtocolError { reason } ==> r@
                == "Protocol error: "@ + reason.text(),
            *self matches ProtocolServiceError::UnexpectedMessage { message } ==> r@
                == "Received unexpected message: "@ + message@,
            *self matches ProtocolServiceError::SpawnError { reason } ==> r@
                == "Failed to spawn tezos protocol wrapper sub-process: "@ + reason@,
            *self matches ProtocolServiceError::InvalidDataError { message } ==> r@
                == "Invalid data error: "@ + message@,
            *self matches ProtocolServiceError::LockPoisonError { message } ==> r@
                == "Lock error: "@ + quoted(message@),
    {
        match self {
            ProtocolServiceError::IpcError { reason } => "IPC error: ".to_owned().concat(
                reason.message().as_str(),
            ),
            ProtocolServiceError::ProtocolError { reason } => "Protocol error: ".to_owned().concat(
                reason.message().as_str(),
            ),
            ProtocolServiceError::UnexpectedMessage { message } =>
                "Received unexpected message: ".to_owned().concat(message),
            ProtocolServiceError::SpawnError { reason } =>
                "Failed to spawn tezos protocol wrapper sub-process: ".to_owned().concat(
                reason.as_str(),
            ),
            ProtocolServiceError::InvalidDataError { message } =>
                "Invalid data error: ".to_owned().concat(message.as_str()),
            ProtocolServiceError::LockPoisonError { message } => "Lock error: ".to_owned().concat(
                quote(message.as_str()).as_str(),
            ),
        }
    }
}

impl From<IpcError> for ProtocolServiceError {
    fn from(error: IpcError) -> (r: Self) {
        ProtocolServiceError::IpcError { reason: error }
    }
}

impl vstd::std_specs::convert::FromSpecImpl<IpcError> for ProtocolServiceError {
    open spec fn obeys_from_spec() -> bool {
        true
    }

    open spec fn from_spec(error: IpcError) -> Self {
        ProtocolServiceError::IpcError { reason: error }
    }
}

impl From<ProtocolError> for ProtocolServiceError {
    fn from(error: ProtocolError) -> (r: Self) {
        ProtocolServiceError::ProtocolError { reason: error }
    }
}

impl vstd::std_specs::convert::FromSpecImpl<ProtocolError> for ProtocolServiceError {
    open spec fn obeys_from_spec() -> bool {
        true
    }

    open spec fn from_spec(error: ProtocolError) -> Self {
        ProtocolServiceError::ProtocolError { reason: error }
    }
}

} // verus!
