use tezedge::protocol::commands::{
    process_protocol_commands, process_protocol_events, request_for, respond, CommandAction,
    CommandLoop, CommandReply, EventAction, EventReply, ProtocolOutcome, ProtocolRequest,
};
use tezedge::protocol::configuration::{
    LogLevel, ProtocolEndpointConfiguration, TezosEnvironmentConfiguration,
};
use tezedge::protocol::controller::{IpcCmdServer, ProtocolController, TimeoutsSet};
use tezedge::protocol::errors::{IpcError, ProtocolError, ProtocolServiceError};
use tezedge::protocol::exchange::{
    call_for, is_success, read_answer, timeout_for, Answer, Call, Exchange, ExchangeAction,
    ExchangeReply, IO_TIMEOUT,
};
use tezedge::protocol::initialization::{InitAction, InitReply, Initialization};
use tezedge::protocol::messages::{
    ContextAction, GenerateIdentityParams, GenesisResultDataParams, InitProtocolContextParams,
    NodeMessage, ProtocolFault, ProtocolMessage,
};
use tezedge::protocol::runner::{
    log_level_text, Argument, ExecutableProtocolRunner, ProcessStatus, Termination,
    PROCESS_WAIT_TIMEOUT,
};
use tezedge::protocol::watchdog::{WatchAction, WatchReply, Watchdog};

fn fault(text: &str) -> ProtocolFault {
    ProtocolFault { encoded: vec![9], text: text.to_owned() }
}

fn environment() -> TezosEnvironmentConfiguration {
    TezosEnvironmentConfiguration {
        genesis: vec![1],
        genesis_max_operations_ttl: 60,
        protocol_overrides: vec![2],
        main_chain_id: Ok(vec![3]),
        genesis_protocol: Ok(vec![4]),
    }
}

fn configuration() -> ProtocolEndpointConfiguration {
    ProtocolEndpointConfiguration::new(
        vec![5],
        environment(),
        true,
        &b"/data".to_vec(),
        &b"/bin/runner".to_vec(),
        LogLevel::Info,
        false,
    )
}

fn controller() -> ProtocolController {
    IpcCmdServer::new(configuration())
        .accept(Ok(TimeoutsSet { read: Ok(()), write: Ok(()) }))
        .unwrap()
}

fn broken() -> IpcError {
    IpcError::ChannelError { reason: "broken".to_owned() }
}

fn unset() -> ProtocolServiceError {
    ProtocolServiceError::IpcError {
        reason: IpcError::SocketConfigurationError { reason: "unset".to_owned() },
    }
}

fn init_params(readonly: bool) -> InitProtocolContextParams {
    InitProtocolContextParams {
        storage_data_dir: "/data".to_owned(),
        genesis: vec![1],
        genesis_max_operations_ttl: 60,
        protocol_overrides: vec![2],
        commit_genesis: true,
        enable_testchain: true,
        readonly,
        patch_context: Some(vec![6]),
    }
}

/// All commands but the one to shut down, each with what it asks for.
fn commands() -> Vec<(ProtocolMessage, Call)> {
    vec![
        (ProtocolMessage::ApplyBlockCall(vec![1]), Call::ApplyBlock),
        (ProtocolMessage::BeginConstructionCall(vec![1]), Call::BeginConstruction),
        (ProtocolMessage::ValidateOperationCall(vec![1]), Call::ValidateOperation),
        (ProtocolMessage::ProtocolJsonRpcCall(vec![1]), Call::JsonRpc),
        (ProtocolMessage::HelpersPreapplyOperationsCall(vec![1]), Call::JsonRpc),
        (ProtocolMessage::HelpersPreapplyBlockCall(vec![1]), Call::JsonRpc),
        (
            ProtocolMessage::ChangeRuntimeConfigurationCall(vec![1]),
            Call::ChangeRuntimeConfiguration,
        ),
        (
            ProtocolMessage::InitProtocolContextCall(init_params(false)),
            Call::InitProtocolContext,
        ),
        (
            ProtocolMessage::GenesisResultDataCall(GenesisResultDataParams {
                genesis_context_hash: vec![1],
                chain_id: vec![2],
                genesis_protocol_hash: vec![3],
                genesis_max_operations_ttl: 4,
            }),
            Call::GenesisResultData,
        ),
        (
            ProtocolMessage::GenerateIdentity(GenerateIdentityParams { expected_pow_bits: 1 }),
            Call::GenerateIdentity,
        ),
    ]
}

fn outcome_of(call: Call, succeeds: bool) -> ProtocolOutcome {
    match (call, succeeds) {
        (Call::ChangeRuntimeConfiguration, true) => ProtocolOutcome::Completed(Ok(())),
        (Call::ChangeRuntimeConfiguration, false) => ProtocolOutcome::Completed(Err(fault("no"))),
        (_, true) => ProtocolOutcome::Response(Ok(vec![7])),
        (_, false) => ProtocolOutcome::Response(Err(fault("no"))),
    }
}

#[test]
fn an_exchange_takes_a_long_timeout_and_gives_it_back() {
    let exchange = controller().apply_block(vec![1, 2]);
    match exchange.action() {
        ExchangeAction::Send { message } => {
            assert_eq!(*message, ProtocolMessage::ApplyBlockCall(vec![1, 2]))
        }
        other => panic!("{:?}", other),
    }
    let exchange = exchange.advance(ExchangeReply::Sent(Ok(())));
    assert!(matches!(exchange.action(), ExchangeAction::SetReadTimeout { seconds: 600 }));
    let exchange = exchange.advance(ExchangeReply::ReadTimeoutSet(Ok(())));
    assert!(matches!(exchange.action(), ExchangeAction::Receive));
    let told = NodeMessage::ApplyBlockResult(Ok(vec![3]));
    let exchange = exchange.advance(ExchangeReply::Received(Ok(told)));
    assert!(matches!(exchange.action(), ExchangeAction::SetReadTimeout { seconds: 10 }));
    assert!(exchange.succeeds(&ExchangeReply::ReadTimeoutSet(Ok(()))));
    assert!(!exchange.succeeds(&ExchangeReply::ReadTimeoutSet(Err("unset".to_owned()))));
    let exchange = exchange.advance(ExchangeReply::ReadTimeoutSet(Ok(())));
    assert!(matches!(exchange.action(), ExchangeAction::Finish));
    assert_eq!(exchange.result().unwrap(), Ok(Answer::Response(vec![3])));
}

#[test]
fn an_exchange_of_short_commands_keeps_the_timeout() {
    let exchange = controller().shutdown().advance(ExchangeReply::Sent(Ok(())));
    assert!(matches!(exchange.action(), ExchangeAction::Receive));
    assert!(exchange.succeeds(&ExchangeReply::Received(Ok(NodeMessage::ShutdownResult))));
    let exchange = exchange.advance(ExchangeReply::Received(Ok(NodeMessage::ShutdownResult)));
    assert_eq!(exchange.result().unwrap(), Ok(Answer::Completed));
}

#[test]
fn a_channel_that_fails_ends_the_exchange() {
    let exchange = controller().apply_block(vec![]).advance(ExchangeReply::Sent(Err(broken())));
    assert_eq!(
        exchange.result().unwrap(),
        Err(ProtocolServiceError::IpcError { reason: broken() })
    );
    let exchange = controller()
        .apply_block(vec![])
        .advance(ExchangeReply::Sent(Ok(())))
        .advance(ExchangeReply::ReadTimeoutSet(Err("unset".to_owned())));
    assert_eq!(exchange.result().unwrap(), Err(unset()));
    let exchange = controller()
        .shutdown()
        .advance(ExchangeReply::Sent(Ok(())))
        .advance(ExchangeReply::Received(Err(broken())));
    assert_eq!(
        exchange.result().unwrap(),
        Err(ProtocolServiceError::IpcError { reason: broken() })
    );
}

#[test]
fn a_timeout_that_stays_long_is_reported_before_all_else() {
    for received in [Err(broken()), Ok(NodeMessage::ApplyBlockResult(Ok(vec![])))] {
        let exchange = controller()
            .apply_block(vec![])
            .advance(ExchangeReply::Sent(Ok(())))
            .advance(ExchangeReply::ReadTimeoutSet(Ok(())))
            .advance(ExchangeReply::Received(received))
            .advance(ExchangeReply::ReadTimeoutSet(Err("unset".to_owned())));
        assert_eq!(exchange.result().unwrap(), Err(unset()));
    }
}

#[test]
fn a_reply_that_was_not_asked_for_is_ignored() {
    let exchange = controller().shutdown().advance(ExchangeReply::ReadTimeoutSet(Ok(())));
    assert!(matches!(exchange.action(), ExchangeAction::Send { .. }));
    assert!(exchange.result().is_none());
}

#[test]
fn each_command_has_its_timeout() {
    assert_eq!(IO_TIMEOUT, 10);
    assert_eq!(timeout_for(Call::ApplyBlock), Some(600));
    assert_eq!(timeout_for(Call::GenerateIdentity), Some(600));
    assert_eq!(timeout_for(Call::InitProtocolContext), Some(60));
    assert_eq!(timeout_for(Call::BeginConstruction), Some(120));
    assert_eq!(timeout_for(Call::ValidateOperation), Some(120));
    assert_eq!(timeout_for(Call::JsonRpc), Some(30));
    assert_eq!(timeout_for(Call::ChangeRuntimeConfiguration), None);
    assert_eq!(timeout_for(Call::GenesisResultData), None);
    assert_eq!(timeout_for(Call::Shutdown), None);
}

#[test]
fn the_controller_sends_each_command() {
    let controller = controller();
    let exchanges: Vec<(Exchange, ProtocolMessage)> = vec![
        (
            controller.begin_construction(vec![1]),
            ProtocolMessage::BeginConstructionCall(vec![1]),
        ),
        (
            controller.validate_operation(vec![1]),
            ProtocolMessage::ValidateOperationCall(vec![1]),
        ),
        (
            controller.call_protocol_json_rpc(vec![1]),
            ProtocolMessage::ProtocolJsonRpcCall(vec![1]),
        ),
        (
            controller.helpers_preapply_operations(vec![1]),
            ProtocolMessage::HelpersPreapplyOperationsCall(vec![1]),
        ),
        (
            controller.helpers_preapply_block(vec![1]),
            ProtocolMessage::HelpersPreapplyBlockCall(vec![1]),
        ),
        (
            controller.change_runtime_configuration(vec![1]),
            ProtocolMessage::ChangeRuntimeConfigurationCall(vec![1]),
        ),
        (
            controller.generate_identity(26.0f64.to_bits()),
            ProtocolMessage::GenerateIdentity(GenerateIdentityParams {
                expected_pow_bits: 4628011567076605952,
            }),
        ),
        (
            controller.genesis_result_data(&vec![8]).unwrap(),
            ProtocolMessage::GenesisResultDataCall(GenesisResultDataParams {
                genesis_context_hash: vec![8],
                chain_id: vec![3],
                genesis_protocol_hash: vec![4],
                genesis_max_operations_ttl: 60,
            }),
        ),
    ];
    for (exchange, expected) in exchanges {
        match exchange.action() {
            ExchangeAction::Send { message } => assert_eq!(*message, expected),
            other => panic!("{:?}", other),
        }
    }
}

#[test]
fn genesis_needs_a_chain_and_a_protocol() {
    let mut controller = controller();
    controller.configuration.environment.genesis_protocol = Err("no protocol".to_owned());
    assert_eq!(
        controller.genesis_result_data(&vec![8]).unwrap_err(),
        ProtocolServiceError::InvalidDataError { message: "no protocol".to_owned() }
    );
    controller.configuration.environment.main_chain_id = Err("no chain".to_owned());
    assert_eq!(
        controller.genesis_result_data(&vec![8]).unwrap_err(),
        ProtocolServiceError::InvalidDataError { message: "no chain".to_owned() }
    );
}

#[test]
fn a_connection_needs_both_timeouts() {
    let server = IpcCmdServer::new(configuration());
    assert_eq!(server.accept(Err(broken())).unwrap_err(), broken());
    let first = IpcError::SocketConfigurationError { reason: "read".to_owned() };
    let second = IpcError::SocketConfigurationError { reason: "write".to_owned() };
    let both = TimeoutsSet { read: Err("read".to_owned()), write: Err("write".to_owned()) };
    assert_eq!(server.accept(Ok(both)).unwrap_err(), first);
    let one = TimeoutsSet { read: Ok(()), write: Err("write".to_owned()) };
    assert_eq!(server.accept(Ok(one)).unwrap_err(), second);
    let none = TimeoutsSet { read: Ok(()), write: Ok(()) };
    assert_eq!(server.accept(Ok(none)).unwrap().configuration, configuration());
}

#[test]
fn the_configuration_is_kept() {
    let configuration = configuration();
    assert_eq!(*configuration.runtime_configuration(), vec![5]);
    assert_eq!(*configuration.environment(), environment());
    assert!(configuration.enable_testchain());
    assert_eq!(*configuration.data_dir(), b"/data".to_vec());
    assert_eq!(*configuration.executable_path(), b"/bin/runner".to_vec());
    assert_eq!(*configuration.log_level(), LogLevel::Info);
    assert!(!configuration.need_event_server());
    assert_eq!(configuration.clone(), configuration);
}

#[test]
fn the_runner_and_the_node_understand_each_other() {
    for succeeds in [true, false] {
        for (message, call) in commands() {
            assert_eq!(call_for(&message), call);
            let request = request_for(message).unwrap();
            let told = respond(&request, outcome_of(call, succeeds)).unwrap();
            assert_eq!(is_success(call, &told), succeeds);
            match read_answer(call, told) {
                Ok(Answer::Completed) => assert_eq!(call, Call::ChangeRuntimeConfiguration),
                Ok(Answer::Response(response)) => assert_eq!(response, vec![7]),
                Err(ProtocolServiceError::ProtocolError { reason }) => {
                    assert!(!succeeds);
                    assert!(reason.message().ends_with(": no"));
                }
                Err(other) => panic!("{:?}", other),
            }
        }
    }
    assert!(request_for(ProtocolMessage::ShutdownCall).is_none());
    assert_eq!(
        read_answer(Call::Shutdown, NodeMessage::ShutdownResult),
        Ok(Answer::Completed)
    );
}

#[test]
fn an_outcome_has_to_fit_the_request() {
    let request = ProtocolRequest::ApplyBlock(vec![]);
    assert!(respond(&request, ProtocolOutcome::Completed(Ok(()))).is_none());
    let request = ProtocolRequest::ChangeRuntimeConfiguration(vec![]);
    assert!(respond(&request, ProtocolOutcome::Response(Ok(vec![]))).is_none());
}

#[test]
fn a_message_of_another_command_is_unexpected() {
    let messages: Vec<(NodeMessage, &str)> = vec![
        (NodeMessage::ApplyBlockResult(Ok(vec![])), "ApplyBlockResult"),
        (NodeMessage::BeginConstructionResult(Ok(vec![])), "BeginConstructionResult"),
        (NodeMessage::ValidateOperationResponse(Ok(vec![])), "ValidateOperationResponse"),
        (NodeMessage::JsonRpcResponse(Ok(vec![])), "JsonRpcResponse"),
        (
            NodeMessage::ChangeRuntimeConfigurationResult(Ok(())),
            "ChangeRuntimeConfigurationResult",
        ),
        (NodeMessage::InitProtocolContextResult(Ok(vec![])), "InitProtocolContextResult"),
        (NodeMessage::CommitGenesisResultData(Ok(vec![])), "CommitGenesisResultData"),
        (NodeMessage::GenerateIdentityResult(Ok(vec![])), "GenerateIdentityResult"),
    ];
    for (message, name) in messages {
        assert_eq!(message.name(), name);
        assert_eq!(
            read_answer(Call::Shutdown, message),
            Err(ProtocolServiceError::UnexpectedMessage { message: name })
        );
    }
    assert_eq!(
        read_answer(Call::ApplyBlock, NodeMessage::ShutdownResult),
        Err(ProtocolServiceError::UnexpectedMessage { message: "ShutdownResult" })
    );
}

#[test]
fn service_errors_say_what_is_wrong() {
    let reason = || fault("why");
    let protocol_errors: Vec<(ProtocolError, &str)> = vec![
        (ProtocolError::ApplyBlockError { reason: reason() }, "Apply block error: why"),
        (
            ProtocolError::BeginConstructionError { reason: reason() },
            "Begin construction error: why",
        ),
        (
            ProtocolError::ValidateOperationError { reason: reason() },
            "Validate operation error: why",
        ),
        (ProtocolError::ProtocolRpcError { reason: reason() }, "Protocol rpc call error: why"),
        (
            ProtocolError::TezosRuntimeConfigurationError { reason: reason() },
            "OCaml runtime configuration error: why",
        ),
        (
            ProtocolError::OcamlStorageInitError { reason: reason() },
            "OCaml storage init error: why",
        ),
        (
            ProtocolError::TezosGenerateIdentityError { reason: reason() },
            "Failed to generate tezos identity: why",
        ),
        (
            ProtocolError::GenesisResultDataError { reason: reason() },
            "Failed to get genesis data: why",
        ),
    ];
    for (error, text) in protocol_errors {
        assert_eq!(error.message(), text);
        assert_eq!(
            ProtocolServiceError::from(error).message(),
            format!("Protocol error: {}", text)
        );
    }
    assert_eq!(ProtocolServiceError::from(broken()).message(), "IPC error: broken");
    assert_eq!(unset().message(), "IPC error: Socket configuration error: unset");
    assert_eq!(
        ProtocolServiceError::UnexpectedMessage { message: "ShutdownResult" }.message(),
        "Received unexpected message: ShutdownResult"
    );
    assert_eq!(
        ProtocolServiceError::SpawnError { reason: "no file".to_owned() }.message(),
        "Failed to spawn tezos protocol wrapper sub-process: no file"
    );
    assert_eq!(
        ProtocolServiceError::InvalidDataError { message: "bad".to_owned() }.message(),
        "Invalid data error: bad"
    );
    assert_eq!(
        ProtocolServiceError::LockPoisonError { message: "a \"b\"\n".to_owned() }.message(),
        "Lock error: \"a \\\"b\\\"\\n\""
    );
}

/// Configures the runtime with success.
fn configured(run: Initialization) -> Initialization {
    match run.action() {
        InitAction::Exchange(ExchangeAction::Send { message }) => {
            assert_eq!(*message, ProtocolMessage::ChangeRuntimeConfigurationCall(vec![5]))
        }
        other => panic!("{:?}", other),
    }
    let run = run.advance(InitReply::Exchange(ExchangeReply::Sent(Ok(()))));
    let told = NodeMessage::ChangeRuntimeConfigurationResult(Ok(()));
    let reply = InitReply::Exchange(ExchangeReply::Received(Ok(told)));
    assert!(run.check_tolerates(&reply));
    run.advance(reply)
}

/// Initializes the context with this outcome.
fn initialized(run: Initialization, outcome: Result<Vec<u8>, ProtocolFault>) -> Initialization {
    let run = run.advance(InitReply::Exchange(ExchangeReply::Sent(Ok(()))));
    assert!(matches!(
        run.action(),
        InitAction::Exchange(ExchangeAction::SetReadTimeout { seconds: 60 })
    ));
    let told = NodeMessage::InitProtocolContextResult(outcome);
    run.advance(InitReply::Exchange(ExchangeReply::ReadTimeoutSet(Ok(()))))
        .advance(InitReply::Exchange(ExchangeReply::Received(Ok(told))))
        .advance(InitReply::Exchange(ExchangeReply::ReadTimeoutSet(Ok(()))))
}

fn assert_sends(run: &Initialization, params: InitProtocolContextParams) {
    match run.action() {
        InitAction::Exchange(ExchangeAction::Send { message }) => {
            assert_eq!(*message, ProtocolMessage::InitProtocolContextCall(params))
        }
        other => panic!("{:?}", other),
    }
}

#[test]
fn the_first_write_opens_the_barrier() {
    let run = configured(controller().init_protocol_for_write(true, &Some(vec![6])));
    assert!(matches!(run.action(), InitAction::LockBarrier));
    let run = run.advance(InitReply::BarrierLocked(Ok(false)));
    assert_sends(&run, init_params(false));
    let run = initialized(run, Ok(vec![7]));
    assert!(matches!(run.action(), InitAction::LockBarrier));
    let run = run.advance(InitReply::BarrierLocked(Ok(false)));
    assert!(matches!(run.action(), InitAction::OpenBarrier));
    let run = run.advance(InitReply::BarrierOpened);
    assert!(matches!(run.action(), InitAction::Finish));
    assert_eq!(run.result().unwrap(), Ok(Answer::Response(vec![7])));
}

#[test]
fn a_later_write_finds_the_barrier_open() {
    let run = configured(controller().init_protocol_for_write(true, &None));
    let run = run.advance(InitReply::BarrierLocked(Ok(true)));
    let run = initialized(run, Ok(vec![7])).advance(InitReply::BarrierLocked(Ok(true)));
    assert_eq!(run.result().unwrap(), Ok(Answer::Response(vec![7])));
}

#[test]
fn a_reader_waits_for_the_first_write() {
    let run = configured(controller().init_protocol_for_read());
    let run = run.advance(InitReply::BarrierLocked(Ok(false)));
    assert!(matches!(run.action(), InitAction::WaitForWrite));
    let run = run.advance(InitReply::Woken);
    assert!(matches!(run.action(), InitAction::LockBarrier));
    let run = run.advance(InitReply::BarrierLocked(Ok(false)));
    assert!(matches!(run.action(), InitAction::WaitForWrite));
    let run = run.advance(InitReply::Woken);
    let run = run.advance(InitReply::BarrierLocked(Ok(true)));
    let mut params = init_params(true);
    params.commit_genesis = false;
    params.patch_context = None;
    assert_sends(&run, params);
    let run = initialized(run, Ok(vec![7]));
    assert_eq!(run.result().unwrap(), Ok(Answer::Response(vec![7])));
}

#[test]
fn a_reader_passes_an_open_barrier() {
    let run = configured(controller().init_protocol_for_read());
    let run = run.advance(InitReply::BarrierLocked(Ok(true)));
    assert!(matches!(run.action(), InitAction::Exchange(ExchangeAction::Send { .. })));
}

#[test]
fn a_failed_write_leaves_the_barrier() {
    let run = configured(controller().init_protocol_for_write(true, &None));
    let run = run.advance(InitReply::BarrierLocked(Ok(false)));
    let run = initialized(run, Err(fault("no")));
    assert!(matches!(run.action(), InitAction::Finish));
    assert_eq!(
        run.result().unwrap(),
        Err(ProtocolServiceError::ProtocolError {
            reason: ProtocolError::OcamlStorageInitError { reason: fault("no") },
        })
    );
}

#[test]
fn a_barrier_that_cannot_be_locked_ends_the_initialization() {
    let poisoned =
        || Err(ProtocolServiceError::LockPoisonError { message: "poisoned".to_owned() });
    let locked = || InitReply::BarrierLocked(Err("poisoned".to_owned()));
    let run = configured(controller().init_protocol_for_read()).advance(locked());
    assert_eq!(run.result().unwrap(), poisoned());
    let run = configured(controller().init_protocol_for_write(false, &None))
        .advance(InitReply::BarrierLocked(Ok(false)));
    let run = initialized(run, Ok(vec![7])).advance(locked());
    assert_eq!(run.result().unwrap(), poisoned());
}

#[test]
fn a_refused_configuration_ends_the_initialization() {
    let run = controller()
        .init_protocol_for_read()
        .advance(InitReply::Exchange(ExchangeReply::Sent(Err(broken()))));
    assert_eq!(
        run.result().unwrap(),
        Err(ProtocolServiceError::IpcError { reason: broken() })
    );
}

#[test]
fn a_path_has_to_be_text() {
    let mut controller = controller();
    controller.configuration.data_dir = vec![0xff];
    let run = controller.init_protocol_for_read();
    let sent = InitReply::Exchange(ExchangeReply::Sent(Ok(())));
    assert!(run.check_tolerates(&sent));
    let run = run.advance(sent);
    let told = NodeMessage::ChangeRuntimeConfigurationResult(Ok(()));
    assert!(!run.check_tolerates(&InitReply::Exchange(ExchangeReply::Received(Ok(told)))));
    assert!(run.check_tolerates(&InitReply::Exchange(ExchangeReply::Received(Err(broken())))));
}

#[test]
fn a_path_may_hold_any_text() {
    let mut controller = controller();
    controller.configuration.data_dir = vec![0xc3, 0xa9];
    let run = configured(controller.init_protocol_for_write(true, &Some(vec![6])))
        .advance(InitReply::BarrierLocked(Ok(true)));
    let mut params = init_params(false);
    params.storage_data_dir = "\u{e9}".to_owned();
    assert_sends(&run, params);
}

#[test]
fn a_context_is_initialized_with_what_is_given() {
    let run = controller().init_protocol_context(
        "/other".to_owned(),
        &environment(),
        true,
        false,
        false,
        None,
    );
    assert!(matches!(run.action(), InitAction::LockBarrier));
    let run = run.advance(InitReply::BarrierLocked(Ok(false)));
    let mut params = init_params(false);
    params.storage_data_dir = "/other".to_owned();
    params.enable_testchain = false;
    params.patch_context = None;
    assert_sends(&run, params);
    assert!(run.result().is_none());
}

fn receiving() -> CommandLoop {
    let run = process_protocol_commands();
    assert!(matches!(run.action(), CommandAction::Connect));
    let run = run.advance(CommandReply::Connected(Ok(())));
    assert!(matches!(run.action(), CommandAction::Receive));
    run
}

#[test]
fn a_runner_answers_each_command() {
    let mut run = receiving();
    for (message, call) in commands() {
        run = run.advance(CommandReply::Received(Ok(message)));
        assert!(matches!(run.action(), CommandAction::Call(_)));
        run = run.advance(CommandReply::Returned(outcome_of(call, true)));
        assert!(matches!(run.action(), CommandAction::Send(_)));
        run = run.advance(CommandReply::Sent(Ok(())));
        assert!(matches!(run.action(), CommandAction::Receive));
    }
}

#[test]
fn a_runner_asks_the_protocol_with_what_was_sent() {
    let message = ProtocolMessage::InitProtocolContextCall(init_params(true));
    let run = receiving().advance(CommandReply::Received(Ok(message)));
    match run.action() {
        CommandAction::Call(request) => assert_eq!(
            *request,
            ProtocolRequest::InitProtocolContext {
                storage_data_dir: "/data".to_owned(),
                genesis: vec![1],
                protocol_overrides: vec![2],
                commit_genesis: true,
                enable_testchain: true,
                readonly: true,
                patch_context: Some(vec![6]),
            }
        ),
        other => panic!("{:?}", other),
    }
    let run = run.advance(CommandReply::Returned(ProtocolOutcome::Completed(Ok(()))));
    assert!(matches!(run.action(), CommandAction::Call(_)));
    let run = run.advance(CommandReply::Returned(ProtocolOutcome::Response(Ok(vec![7]))));
    match run.action() {
        CommandAction::Send(message) => {
            assert_eq!(*message, NodeMessage::InitProtocolContextResult(Ok(vec![7])))
        }
        other => panic!("{:?}", other),
    }
}

#[test]
fn a_runner_that_shuts_down_says_so_and_stops() {
    let run = receiving().advance(CommandReply::Received(Ok(ProtocolMessage::ShutdownCall)));
    assert!(matches!(run.action(), CommandAction::AnnounceShutdown));
    let run = run.advance(CommandReply::Announced);
    match run.action() {
        CommandAction::Send(message) => assert_eq!(*message, NodeMessage::ShutdownResult),
        other => panic!("{:?}", other),
    }
    let run = run.advance(CommandReply::Sent(Ok(())));
    assert!(matches!(run.action(), CommandAction::Finish));
    let run = run.advance(CommandReply::Received(Ok(ProtocolMessage::ShutdownCall)));
    assert_eq!(run.result().unwrap(), Ok(()));
}

#[test]
fn a_runner_fails_with_the_channel() {
    let run = process_protocol_commands().advance(CommandReply::Connected(Err(broken())));
    assert_eq!(run.result().unwrap(), Err(broken()));
    let run = receiving().advance(CommandReply::Received(Err(broken())));
    assert_eq!(run.result().unwrap(), Ok(()));
    let run = receiving()
        .advance(CommandReply::Received(Ok(ProtocolMessage::ApplyBlockCall(vec![]))))
        .advance(CommandReply::Returned(ProtocolOutcome::Response(Ok(vec![]))))
        .advance(CommandReply::Sent(Err(broken())));
    assert_eq!(run.result().unwrap(), Err(broken()));
    assert!(receiving().result().is_none());
}

#[test]
fn changes_of_the_context_are_told() {
    let run = process_protocol_events();
    assert!(matches!(run.action(), EventAction::Connect));
    let run = run.advance(EventReply::Connected(Ok(())));
    let run = run.advance(EventReply::Received(Some(ContextAction::Other(vec![1]))));
    match run.action() {
        EventAction::Send(action) => assert_eq!(*action, ContextAction::Other(vec![1])),
        other => panic!("{:?}", other),
    }
    let run = run.advance(EventReply::Sent(Ok(())));
    assert!(matches!(run.action(), EventAction::Receive));
    let run = run.advance(EventReply::Received(Some(ContextAction::Shutdown)));
    let run = run.advance(EventReply::Sent(Ok(())));
    assert!(matches!(run.action(), EventAction::Finish));
    assert_eq!(run.result().unwrap(), Ok(()));
}

#[test]
fn a_report_fails_with_the_channel() {
    let run = process_protocol_events().advance(EventReply::Connected(Err(broken())));
    assert_eq!(run.result().unwrap(), Err(broken()));
    let run = process_protocol_events()
        .advance(EventReply::Connected(Ok(())))
        .advance(EventReply::Received(None));
    assert_eq!(run.result().unwrap(), Ok(()));
    let run = process_protocol_events()
        .advance(EventReply::Connected(Ok(())))
        .advance(EventReply::Received(Some(ContextAction::Shutdown)))
        .advance(EventReply::Sent(Err(broken())));
    assert_eq!(run.result().unwrap(), Err(broken()));
    assert!(process_protocol_events().result().is_none());
}

fn text(text: &str) -> Argument {
    Argument::Text(text.to_owned())
}

#[test]
fn a_runner_is_started_with_its_sockets() {
    let runner = ExecutableProtocolRunner::new(
        configuration(),
        &b"/tmp/cmd".to_vec(),
        None,
        "main".to_owned(),
    );
    assert_eq!(runner.executable_path, b"/bin/runner".to_vec());
    assert_eq!(
        runner.arguments(),
        vec![
            text("--sock-cmd"),
            Argument::Path(b"/tmp/cmd".to_vec()),
            text("--endpoint"),
            text("main"),
            text("--log-level"),
            text("info"),
        ]
    );
    let mut runner = runner;
    runner.sock_evt_path = Some(b"/tmp/evt".to_vec());
    runner.log_level = LogLevel::Critical;
    assert_eq!(
        runner.clone().arguments(),
        vec![
            text("--sock-cmd"),
            Argument::Path(b"/tmp/cmd".to_vec()),
            text("--sock-evt"),
            Argument::Path(b"/tmp/evt".to_vec()),
            text("--endpoint"),
            text("main"),
            text("--log-level"),
            text("critical"),
        ]
    );
}

#[test]
fn log_levels_are_named_in_small_letters() {
    assert_eq!(log_level_text(LogLevel::Critical), "critical");
    assert_eq!(log_level_text(LogLevel::Error), "error");
    assert_eq!(log_level_text(LogLevel::Warning), "warning");
    assert_eq!(log_level_text(LogLevel::Info), "info");
    assert_eq!(log_level_text(LogLevel::Debug), "debug");
    assert_eq!(log_level_text(LogLevel::Trace), "trace");
}

#[test]
fn a_sub_process_that_stays_is_killed() {
    assert_eq!(PROCESS_WAIT_TIMEOUT, 4);
    assert_eq!(ExecutableProtocolRunner::terminate(true), Termination::Leave);
    assert_eq!(ExecutableProtocolRunner::terminate(false), Termination::Kill);
    assert!(ExecutableProtocolRunner::is_running(ProcessStatus::Running));
    assert!(!ExecutableProtocolRunner::is_running(ProcessStatus::Exited));
    assert!(!ExecutableProtocolRunner::is_running(ProcessStatus::Unknown));
}

#[test]
fn a_watch_starts_what_is_gone() {
    let watch = Watchdog::new();
    assert_eq!(watch.action(), WatchAction::ReadFlag);
    let watch = watch.advance(WatchReply::Flag(true));
    assert_eq!(watch.action(), WatchAction::Poll);
    let watch = watch.advance(WatchReply::Running(false));
    assert_eq!(watch.action(), WatchAction::Spawn);
    let watch = watch.advance(WatchReply::Spawned(true));
    assert_eq!(watch.action(), WatchAction::Sleep { seconds: 1 });
    let watch = watch.advance(WatchReply::Slept);
    assert_eq!(watch, Watchdog::new());
    let watch = watch.advance(WatchReply::Flag(true)).advance(WatchReply::Running(true));
    assert_eq!(watch.action(), WatchAction::Sleep { seconds: 1 });
}

#[test]
fn a_watch_ends_without_a_sub_process() {
    let watch = Watchdog::new().advance(WatchReply::Flag(false));
    assert_eq!(watch.action(), WatchAction::Poll);
    assert_eq!(watch.advance(WatchReply::Running(false)).action(), WatchAction::Finish);
    let watch = watch.advance(WatchReply::Running(true));
    assert_eq!(watch.action(), WatchAction::Terminate);
    assert_eq!(watch.advance(WatchReply::Terminated).action(), WatchAction::Finish);
    let watch = Watchdog::new()
        .advance(WatchReply::Flag(true))
        .advance(WatchReply::Running(false))
        .advance(WatchReply::Spawned(false))
        .advance(WatchReply::Running(false));
    assert_eq!(watch.action(), WatchAction::Finish);
}
