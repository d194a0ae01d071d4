//! The initialization of a runner's protocol context.
//!
//! A context that is opened for reading only has to be there already. So all initializations of a
//! node share one barrier, a flag behind a lock: one that only reads waits at the barrier until some
//! other one, which may write, has succeeded; the first one that may write and succeeds opens the
//! barrier and wakes all who wait. Whoever is woken looks at the barrier again, since one may be
//! woken without a reason. The barrier never closes again.
use vstd::prelude::*;
use vstd::utf8::{decode_utf8, valid_utf8};

use crate::protocol::errors::{ProtocolServiceError, ProtocolServiceErrorView};
use crate::protocol::exchange::{
    asks, exchange_step, result_view, Answer, Call, Exchange, ExchangeAction, ExchangeReply,
    ExchangeStage, ExchangeView,
};
use crate::protocol::messages::{
    optional_bytes, InitProtocolContextParams, InitProtocolContextParamsView, ProtocolMessage,
    ProtocolMessageView,
};

verus! {

/// A context that is to be initialized where the bytes of a path say.
#[derive(Debug)]
pub struct ContextRequest {
    pub data_dir: Vec<u8>,
    pub genesis: Vec<u8>,
    pub genesis_max_operations_ttl: u16,
    pub protocol_overrides: Vec<u8>,
    pub commit_genesis: bool,
    pub enable_testchain: bool,
    pub readonly: bool,
    pub patch_context: Option<Vec<u8>>,
}

/// What a `ContextRequest` holds.
#[verifier::ext_equal]
pub struct ContextRequestView {
    pub data_dir: Seq<u8>,
    pub genesis: Seq<u8>,
    pub genesis_max_operations_ttl: u16,
    pub protocol_overrides: Seq<u8>,
    pub commit_genesis: bool,
    pub enable_testchain: bool,
    pub readonly: bool,
    pub patch_context: Option<Seq<u8>>,
}

impl View for ContextRequest {
    type V = ContextRequestView;

    open spec fn view(&self) -> ContextRequestView {
        ContextRequestView {
            data_dir: self.data_dir@,
            genesis: self.genesis@,
            genesis_max_operations_ttl: self.genesis_max_operations_ttl,
            protocol_overrides: self.protocol_overrides@,
            commit_genesis: self.commit_genesis,
            enable_testchain: self.enable_testchain,
            readonly: self.readonly,
            patch_context: optional_bytes(self.patch_context),
        }
    }
}

/// What the runner is told of a request: the same, with the path as text.
pub open spec fn params_of(request: ContextRequestView) -> InitProtocolContextParamsView {
    InitProtocolContextParamsView {
        storage_data_dir: decode_utf8(request.data_dir),
        genesis: request.genesis,
        genesis_max_operations_ttl: request.genesis_max_operations_ttl,
        protocol_overrides: request.protocol_overrides,
        commit_genesis: request.commit_genesis,
        enable_testchain: request.enable_testchain,
        readonly: request.readonly,
        patch_context: request.patch_context,
    }
}

/// Whether parameters are those of a request, with the path as text.
pub open spec fn told_of(request: ContextRequest, params: InitProtocolContextParams) -> bool {
    &&& params.storage_data_dir@ == decode_utf8(request.data_dir@)
    &&& params.genesis@ == request.genesis@
    &&& params.genesis_max_operations_ttl == request.genesis_max_operations_ttl
    &&& params.protocol_overrides@ == request.protocol_overrides@
    &&& params.commit_genesis == request.commit_genesis
    &&& params.enable_testchain == request.enable_testchain
    &&& params.readonly == request.readonly
    &&& params.patch_context is Some == request.patch_context is Some
    &&& params.patch_context is Some ==> params.patch_context.unwrap()@
        == request.patch_context.unwrap()@
}

/// Reads bytes as text by `std::str::from_utf8`, which succeeds on valid UTF-8 alone and then
/// returns the text that the bytes encode.
#[verifier::external_body]
fn utf8_text(bytes: &Vec<u8>) -> (r: Option<String>)
    ensures
        r is Some <==> valid_utf8(bytes@),
        r matches Some(text) ==> text@ == decode_utf8(bytes@),
{
    std::str::from_utf8(bytes).ok().map(|text| text.to_owned())
}

impl ContextRequest {
    /// What the runner is told of the request.
    pub fn params(self) -> (r: InitProtocolContextParams)
        requires
            valid_utf8(self@.data_dir),
        ensures
            r@ == params_of(self@),
            told_of(self, r),
    {
        let storage_data_dir = utf8_text(&self.data_dir).unwrap();
        InitProtocolContextParams {
            storage_data_dir,
            genesis: self.genesis,
            genesis_max_operations_ttl: self.genesis_max_operations_ttl,
            protocol_overrides: self.protocol_overrides,
            commit_genesis: self.commit_genesis,
            enable_testchain: self.enable_testchain,
            readonly: self.readonly,
            patch_context: self.patch_context,
        }
    }

    /// Whether the path is text.
    pub fn check_path(&self) -> (r: bool)
        ensures
            r == valid_utf8(self@.data_dir),
    {
        utf8_text(&self.data_dir).is_some()
    }
}

/// How far an initialization has come.
#[derive(Debug)]
pub enum InitStage {
    /// The runtime is configured first.
    Configure { exchange: Exchange, request: ContextRequest },
    /// The barrier is to be looked at.
    Barrier { params: InitProtocolContextParams },
    /// The barrier was not open to one that only reads: it is to be looked at again after a wait.
    Wait { params: InitProtocolContextParams },
    /// The context is initialized.
    Initialize { readonly: bool, exchange: Exchange },
    /// A context that may be written is there: the barrier is to be looked at again.
    Record { answer: Answer },
    /// It was the first: the barrier is to be opened.
    Open { answer: Answer },
    /// The initialization is over.
    Done { result: Result<Answer, ProtocolServiceError> },
}

/// What an `InitStage` holds.
#[verifier::ext_equal]
pub enum InitView {
    Configure { call: Call, exchange: ExchangeView, request: ContextRequestView },
    Barrier { params: InitProtocolContextParamsView },
    Wait { params: InitProtocolContextParamsView },
    Initialize { readonly: bool, call: Call, exchange: ExchangeView },
    Record { answer: Answer },
    Open { answer: Answer },
    Done { result: Result<Answer, ProtocolServiceErrorView> },
}

impl View for InitStage {
    type V = InitView;

    open spec fn view(&self) -> InitView {
        match *self {
            InitStage::Configure { exchange, request } => InitView::Configure {
                call: exchange.call,
                exchange: exchange.stage@,
                request: request@,
            },
            InitStage::Barrier { params } => InitView::Barrier { params: params@ },
            InitStage::Wait { params } => InitView::Wait { params: params@ },
            InitStage::Initialize { readonly, exchange } => InitView::Initialize {
                readonly,
                call: exchange.call,
                exchange: exchange.stage@,
            },
            InitStage::Record { answer } => InitView::Record { answer },
            InitStage::Open { answer } => InitView::Open { answer },
            InitStage::Done { result } => InitView::Done { result: result_view(result) },
        }
    }
}

/// An initialization of a runner's protocol context.
#[derive(Debug)]
pub struct Initialization {
    pub stage: InitStage,
}

/// What is to be done next.
#[derive(Debug)]
pub enum InitAction<'a> {
    /// Something on the channel.
    Exchange(ExchangeAction<'a>),
    /// Lock the barrier, and keep the lock until the next action is known.
    LockBarrier,
    /// Give the lock up, and wait to be woken.
    WaitForWrite,
    /// Open the barrier under the lock, and wake all who wait.
    OpenBarrier,
    /// Nothing: the initialization is over.
    Finish,
}

/// What came of it.
#[derive(Debug)]
pub enum InitReply {
    Exchange(ExchangeReply),
    /// Whether the barrier is open, or why the lock cannot be had.
    BarrierLocked(Result<bool, String>),
    Woken,
    BarrierOpened,
}

/// The context is initialized with these parameters next.
pub open spec fn initialize(params: InitProtocolContextParamsView) -> InitView {
    InitView::Initialize {
        readonly: params.readonly,
        call: Call::InitProtocolContext,
        exchange: ExchangeView::Send {
            message: ProtocolMessageView::InitProtocolContextCall(params),
        },
    }
}

/// The stage that a reply leads to. A reply that was not asked for changes nothing.
pub open spec fn init_step(stage: InitView, reply: InitReply) -> InitView {
    match (stage, reply) {
        (InitView::Configure { call, exchange, request }, InitReply::Exchange(reply)) => {
            match exchange_step(call, exchange, reply) {
                ExchangeView::Done { result: Ok(_) } => InitView::Barrier {
                    params: params_of(request),
                },
                ExchangeView::Done { result: Err(error) } => InitView::Done { result: Err(error) },
                exchange => InitView::Configure { call, exchange, request },
            }
        },
        (InitView::Barrier { params }, InitReply::BarrierLocked(Ok(open))) => if !open
            && params.readonly {
            InitView::Wait { params }
        } else {
            initialize(params)
        },
        (InitView::Barrier { .. }, InitReply::BarrierLocked(Err(message))) => InitView::Done {
            result: Err(ProtocolServiceErrorView::LockPoisonError { message: message@ }),
        },
        (InitView::Wait { params }, InitReply::Woken) => InitView::Barrier { params },
        (InitView::Initialize { readonly, call, exchange }, InitReply::Exchange(reply)) => {
            match exchange_step(call, exchange, reply) {
                ExchangeView::Done { result: Ok(answer) } => if readonly {
                    InitView::Done { result: Ok(answer) }
                } else {
                    InitView::Record { answer }
                },
                ExchangeView::Done { result: Err(error) } => InitView::Done { result: Err(error) },
                exchange => InitView::Initialize { readonly, call, exchange },
            }
        },
        (InitView::Record { answer }, InitReply::BarrierLocked(Ok(open))) => if open {
            InitView::Done { result: Ok(answer) }
        } else {
            InitView::Open { answer }
        },
        (InitView::Record { .. }, InitReply::BarrierLocked(Err(message))) => InitView::Done {
            result: Err(ProtocolServiceErrorView::LockPoisonError { message: message@ }),
        },
        (InitView::Open { answer }, InitReply::BarrierOpened) => InitView::Done {
            result: Ok(answer),
        },
        (stage, _) => stage,
    }
}

/// Whether the reply can be dealt with: the path has to be text once the runtime is configured.
pub open spec fn init_tolerates(stage: InitView, reply: InitReply) -> bool {
    match (stage, reply) {
        (InitView::Configure { call, exchange, request }, InitReply::Exchange(reply)) =>
            exchange_step(call, exchange, reply) matches ExchangeView::Done { result: Ok(_) }
            ==> valid_utf8(request.data_dir),
        _ => true,
    }
}

/// What is to be done at a stage.
pub open spec fn init_asks(stage: InitView, action: InitAction) -> bool {
    match stage {
        InitView::Configure { exchange, .. } => action matches InitAction::Exchange(a) && asks(
            exchange,
            a,
        ),
        InitView::Barrier { .. } => action == InitAction::LockBarrier,
        InitView::Wait { .. } => action == InitAction::WaitForWrite,
        InitView::Initialize { exchange, .. } => action matches InitAction::Exchange(a) && asks(
            exchange,
            a,
        ),
        InitView::Record { .. } => action == InitAction::LockBarrier,
        InitView::Open { .. } => action == InitAction::OpenBarrier,
        InitView::Done { .. } => action == InitAction::Finish,
    }
}

/// The context is initialized with these parameters next.
fn begin_initialize(params: InitProtocolContextParams) -> (r: InitStage)
    ensures
        r@ == initialize(params@),
        r matches InitStage::Initialize { readonly, exchange } && readonly == params.readonly
            && exchange == (Exchange {
            call: Call::InitProtocolContext,
            stage: ExchangeStage::Send {
                message: ProtocolMessage::InitProtocolContextCall(params),
            },
        }),
{
    let readonly = params.readonly;
    let exchange = Exchange::new(ProtocolMessage::InitProtocolContextCall(params));
    InitStage::Initialize { readonly, exchange }
}

impl Initialization {
    /// What is to be done next.
    pub fn action(&self) -> (r: InitAction<'_>)
        ensures
            init_asks(self.stage@, r),
            self.stage matches InitStage::Configure { exchange, .. } ==> (r
                matches InitAction::Exchange(a) && asks(exchange.stage@, a)),
            self.stage is Barrier ==> r is LockBarrier,
            self.stage is Wait ==> r is WaitForWrite,
            self.stage matches InitStage::Initialize { exchange, .. } ==> (r
                matches InitAction::Exchange(a) && asks(exchange.stage@, a)),
            self.stage is Record ==> r is LockBarrier,
            self.stage is Open ==> r is OpenBarrier,
            self.stage is Done ==> r is Finish,
    {
        match &self.stage {
            InitStage::Configure { exchange, .. } => InitAction::Exchange(exchange.action()),
            InitStage::Barrier { .. } => InitAction::LockBarrier,
            InitStage::Wait { .. } => InitAction::WaitForWrite,
            InitStage::Initialize { exchange, .. } => InitAction::Exchange(exchange.action()),
            InitStage::Record { .. } => InitAction::LockBarrier,
            InitStage::Open { .. } => InitAction::OpenBarrier,
            InitStage::Done { .. } => InitAction::Finish,
        }
    }

    /// Whether the reply can be dealt with.
    pub fn check_tolerates(&self, reply: &InitReply) -> (r: bool)
        ensures
            r == init_tolerates(self.stage@, *reply),
            !r <==> ({
                &&& self.stage matches InitStage::Configure { exchange, request }
                &&& *reply matches InitReply::Exchange(x)
                &&& exchange_step(exchange.call, exchange.stage@, x) matches ExchangeView::Done {
                    result: Ok(_),
                }
                &&& !valid_utf8(request.data_dir@)
            }),
    {
        match (&self.stage, reply) {
            (InitStage::Configure { exchange, request }, InitReply::Exchange(reply)) => {
                !exchange.succeeds(reply) || request.check_path()
            },
            _ => true,
        }
    }

    /// The initialization after what came of it.
    pub fn advance(self, reply: InitReply) -> (r: Self)
        requires
            init_tolerates(self.stage@, reply),
        ensures
            r.stage@ == init_step(self.stage@, reply),
            self.stage matches InitStage::Configure { exchange, request } ==> (reply
                matches InitReply::Exchange(x) ==> match exchange_step(
                exchange.call,
                exchange.stage@,
                x,
            ) {
                ExchangeView::Done { result: Ok(_) } => r.stage matches InitStage::Barrier { params }
                    && told_of(request, params),
                ExchangeView::Done { result: Err(error) } => r.stage matches InitStage::Done {
                    result: Err(said),
                } && said@ == error,
                next => r.stage matches InitStage::Configure { exchange: e, request: q } && e.call
                    == exchange.call && e.stage@ == next && q == request,
            }),
            self.stage matches InitStage::Barrier { params } ==> (reply
                matches InitReply::BarrierLocked(Ok(open)) ==> if params.readonly && !open {
                r.stage == (InitStage::Wait { params })
            } else {
                r.stage matches InitStage::Initialize { readonly, exchange } && readonly
                    == params.readonly && exchange == (Exchange {
                    call: Call::InitProtocolContext,
                    stage: ExchangeStage::Send {
                        message: ProtocolMessage::InitProtocolContextCall(params),
                    },
                })
            }),
            self.stage is Barrier || self.stage is Record ==> (reply
                matches InitReply::BarrierLocked(Err(message)) ==> r.stage == (InitStage::Done {
                result: Err(ProtocolServiceError::LockPoisonError { message }),
            })),
            self.stage matches InitStage::Wait { params } ==> (reply is Woken ==> r.stage == (
            InitStage::Barrier { params })),
            self.stage matches InitStage::Initialize { readonly, exchange } ==> (reply
                matches InitReply::Exchange(x) ==> match exchange_step(
                exchange.call,
                exchange.stage@,
                x,
            ) {
                ExchangeView::Done { result: Ok(answer) } => if readonly {
                    r.stage == (InitStage::Done { result: Ok(answer) })
                } else {
                    r.stage == (InitStage::Record { answer })
                },
                ExchangeView::Done { result: Err(error) } => r.stage matches InitStage::Done {
                    result: Err(said),
                } && said@ == error,
                next => r.stage matches InitStage::Initialize { readonly: w, exchange: e } && w
                    == readonly && e.call == exchange.call && e.stage@ == next,
            }),
            self.stage matches InitStage::Record { answer } ==> (reply
                matches InitReply::BarrierLocked(Ok(open)) ==> r.stage == (if open {
                InitStage::Done { result: Ok(answer) }
            } else {
                InitStage::Open { answer }
            })),
            self.stage matches InitStage::Open { answer } ==> (reply is BarrierOpened ==> r.stage
                == (InitStage::Done { result: Ok(answer) })),
            self.stage is Done ==> r.stage == self.stage,
    {
        let stage = match (self.stage, reply) {
            (InitStage::Configure { exchange, request }, InitReply::Exchange(reply)) => {
                let exchange = exchange.advance(reply);
                match exchange.stage {
                    ExchangeStage::Done { result } => match result {
                        Ok(_) => InitStage::Barrier { params: request.params() },
                        Err(error) => InitStage::Done { result: Err(error) },
                    },
                    stage => InitStage::Configure {
                        exchange: Exchange { call: exchange.call, stage },
                        request,
                    },
                }
            },
            (InitStage::Barrier { params }, InitReply::BarrierLocked(locked)) => match locked {
                Ok(open) => if !open && params.readonly {
                    InitStage::Wait { params }
                } else {
                    begin_initialize(params)
                },
                Err(message) => InitStage::Done {
                    result: Err(ProtocolServiceError::LockPoisonError { message }),
                },
            },
            (InitStage::Wait { params }, InitReply::Woken) => InitStage::Barrier { params },
            (InitStage::Initialize { readonly, exchange }, InitReply::Exchange(reply)) => {
                let exchange = exchange.advance(reply);
                match exchange.stage {
                    ExchangeStage::Done { result } => match result {
                        Ok(answer) => if readonly {
                            InitStage::Done { result: Ok(answer) }
                        } else {
                            InitStage::Record { answer }
                        },
                        Err(error) => InitStage::Done { result: Err(error) },
                    },
                    stage => InitStage::Initialize {
                        readonly,
                        exchange: Exchange { call: exchange.call, stage },
                    },
                }
            },
            (InitStage::Record { answer }, InitReply::BarrierLocked(locked)) => match locked {
                Ok(open) => if open {
                    InitStage::Done { result: Ok(answer) }
                } else {
                    InitStage::Open { answer }
                },
                Err(message) => InitStage::Done {
                    result: Err(ProtocolServiceError::LockPoisonError { message }),
                },
            },
            (InitStage::Open { answer }, InitReply::BarrierOpened) => InitStage::Done {
                result: Ok(answer),
            },
            (stage, _) => stage,
        };
        Initialization { stage }
    }

    /// What came of the initialization, once it is over.
    pub fn result(self) -> (r: Option<Result<Answer, ProtocolServiceError>>)
        ensures
            match self.stage@ {
                InitView::Done { result } => r is Some && result_view(r->Some_0) == result,
                _ => r is None,
            },
            self.stage matches InitStage::Done { result } ==> r == Some(result),
            r is Some <==> self.stage is Done,
    {
        match self.stage {
            InitStage::Done { result } => Some(result),
            _ => None,
        }
    }
}

} // verus!
