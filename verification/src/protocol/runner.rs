//! The sub-process that a protocol runner is.
use vstd::prelude::*;
use vstd::string::*;
use vstd::utf8::is_ascii_chars;

use crate::protocol::configuration::{copy_bytes, LogLevel, ProtocolEndpointConfiguration};

verus! {

/// How long the end of a sub-process is awaited, in seconds.
pub const PROCESS_WAIT_TIMEOUT: u64 = 4;

/// The small letter of a capital letter of ASCII; any other character itself.
pub open spec fn small_letter(c: char) -> char {
    if 'A' <= c && c <= 'Z' {
        (c as u32 + 32) as char
    } else {
        c
    }
}

/// The name of a log level, in capital letters.
pub open spec fn level_title(level: LogLevel) -> Seq<char> {
    match level {
        LogLevel::Critical => "CRITICAL"@,
        LogLevel::Error => "ERROR"@,
        LogLevel::Warning => "WARNING"@,
        LogLevel::Info => "INFO"@,
        LogLevel::Debug => "DEBUG"@,
        LogLevel::Trace => "TRACE"@,
    }
}

/// The name of a log level, in small letters.
pub open spec fn level_text(level: LogLevel) -> Seq<char> {
    match level {
        LogLevel::Critical => "critical"@,
        LogLevel::Error => "error"@,
        LogLevel::Warning => "warning"@,
        LogLevel::Info => "info"@,
        LogLevel::Debug => "debug"@,
        LogLevel::Trace => "trace"@,
    }
}

/// The name of a log level by `slog::Level::as_str`, which takes it from slog's list of names in
/// capital letters.
#[verifier::external_body]
fn level_name(level: LogLevel) -> (r: &'static str)
    ensures
        r@ == level_title(level),
{
    match level {
        LogLevel::Critical => slog::Level::Critical,
        LogLevel::Error => slog::Level::Error,
        LogLevel::Warning => slog::Level::Warning,
        LogLevel::Info => slog::Level::Info,
        LogLevel::Debug => slog::Level::Debug,
        LogLevel::Trace => slog::Level::Trace,
    }.as_str()
}

/// The text in small letters by `str::to_lowercase` of std, which maps each capital letter of an
/// ASCII text to its small letter and keeps the rest. Nothing is said of other texts.
#[verifier::external_body]
fn lowercase(text: &str) -> (r: String)
    ensures
        is_ascii_chars(text@) ==> r@ == text@.map_values(|c: char| small_letter(c)),
{
    text.to_lowercase()
}

/// The names in small letters are those in capital letters, letter by letter.
proof fn lemma_level_text(level: LogLevel)
    ensures
        is_ascii_chars(level_title(level)),
        level_text(level) == level_title(level).map_values(|c: char| small_letter(c)),
{
    reveal_strlit("CRITICAL");
    reveal_strlit("ERROR");
    reveal_strlit("WARNING");
    reveal_strlit("INFO");
    reveal_strlit("DEBUG");
    reveal_strlit("TRACE");
    reveal_strlit("critical");
    reveal_strlit("error");
    reveal_strlit("warning");
    reveal_strlit("info");
    reveal_strlit("debug");
    reveal_strlit("trace");
    assert(level_text(level) =~= level_title(level).map_values(|c: char| small_letter(c)));
}

/// The name of a log level, in small letters.
pub fn log_level_text(level: LogLevel) -> (r: String)
    ensures
        r@ == level_text(level),
        level == LogLevel::Critical ==> r@ == "critical"@,
        level == LogLevel::Error ==> r@ == "error"@,
        level == LogLevel::Warning ==> r@ == "warning"@,
        level == LogLevel::Info ==> r@ == "info"@,
        level == LogLevel::Debug ==> r@ == "debug"@,
        level == LogLevel::Trace ==> r@ == "trace"@,
{
    proof {
        lemma_level_text(level);
    }
    lowercase(level_name(level))
}

/// An argument of a program: a text, or a path by its bytes.
#[derive(Debug, PartialEq, Eq)]
pub enum Argument {
    Text(String),
    Path(Vec<u8>),
}

/// What an `Argument` holds.
#[verifier::ext_equal]
pub enum ArgumentView {
    Text(Seq<char>),
    Path(Seq<u8>),
}

impl View for Argument {
    type V = ArgumentView;

    open spec fn view(&self) -> ArgumentView {
        match *self {
            Argument::Text(text) => ArgumentView::Text(text@),
            Argument::Path(path) => ArgumentView::Path(path@),
        }
    }
}

/// What each argument holds.
pub open spec fn argument_views(arguments: Seq<Argument>) -> Seq<ArgumentView> {
    arguments.map_values(|a: Argument| a@)
}

/// Control protocol runner sub-process.
#[derive(Debug, PartialEq, Eq)]
pub struct ExecutableProtocolRunner {
    pub sock_cmd_path: Vec<u8>,
    pub sock_evt_path: Option<Vec<u8>>,
    pub executable_path: Vec<u8>,
    pub endpoint_name: String,
    pub log_level: LogLevel,
}

/// What came of looking whether a sub-process is still there.
#[derive(Clone, Copy, Debug, PartialEq, Eq, Structural)]
pub enum ProcessStatus {
    Running,
    Exited,
    /// It cannot be told.
    Unknown,
}

/// What ends a sub-process.
#[derive(Clone, Copy, Debug, PartialEq, Eq, Structural)]
pub enum Termination {
    /// It has ended by itself.
    Leave,
    Kill,
}

impl ExecutableProtocolRunner {
    /// What the sub-process is started with.
    pub open spec fn command_line(&self) -> Seq<ArgumentView> {
        let events = match self.sock_evt_path {
            Some(path) => seq![ArgumentView::Text("--sock-evt"@), ArgumentView::Path(path@)],
            None => seq![],
        };
        seq![ArgumentView::Text("--sock-cmd"@), ArgumentView::Path(self.sock_cmd_path@)] + events
            + seq![
            ArgumentView::Text("--endpoint"@),
            ArgumentView::Text(self.endpoint_name@),
            ArgumentView::Text("--log-level"@),
            ArgumentView::Text(level_text(self.log_level)),
        ]
    }

    /// A runner of this configuration, on these sockets.
    pub fn new(
        configuration: ProtocolEndpointConfiguration,
        sock_cmd_path: &Vec<u8>,
        sock_evt_path: Option<Vec<u8>>,
        endpoint_name: String,
    ) -> (r: Self)
        ensures
            r.sock_cmd_path@ == sock_cmd_path@,
            r.sock_evt_path == sock_evt_path,
            r.executable_path@ == configuration@.executable_path,
            r.endpoint_name == endpoint_name,
            r.log_level == configuration@.log_level,
    {
        ExecutableProtocolRunner {
            sock_cmd_path: copy_bytes(sock_cmd_path),
            sock_evt_path,
            executable_path: copy_bytes(&configuration.executable_path),
            endpoint_name,
            log_level: configuration.log_level,
        }
    }

    /// What the sub-process is started with.
    pub fn arguments(&self) -> (r: Vec<Argument>)
        ensures
            argument_views(r@) == self.command_line(),
            ({
                let shift = if self.sock_evt_path is Some {
                    2int
                } else {
                    0int
                };
                &&& r@.len() == 6 + shift
                &&& r@[0] matches Argument::Text(text) && text@ == "--sock-cmd"@
                &&& r@[1] matches Argument::Path(path) && path@ == self.sock_cmd_path@
                &&& self.sock_evt_path matches Some(events) ==> ({
                    &&& r@[2] matches Argument::Text(text) && text@ == "--sock-evt"@
                    &&& r@[3] matches Argument::Path(path) && path@ == events@
                })
                &&& r@[2 + shift] matches Argument::Text(text) && text@ == "--endpoint"@
                &&& r@[3 + shift] matches Argument::Text(text) && text@ == self.endpoint_name@
                &&& r@[4 + shift] matches Argument::Text(text) && text@ == "--log-level"@
                &&& r@[5 + shift] matches Argument::Text(text) && text@ == level_text(
                    self.log_level,
                )
            }),
    {
        let mut arguments: Vec<Argument> = Vec::new();
        arguments.push(Argument::Text("--sock-cmd".to_owned()));
        arguments.push(Argument::Path(copy_bytes(&self.sock_cmd_path)));
        if let Some(path) = &self.sock_evt_path {
            arguments.push(Argument::Text("--sock-evt".to_owned()));
            arguments.push(Argument::Path(copy_bytes(path)));
        }
        arguments.push(Argument::Text("--endpoint".to_owned()));
        arguments.push(Argument::Text(self.endpoint_name.clone()));
        arguments.push(Argument::Text("--log-level".to_owned()));
        arguments.push(Argument::Text(log_level_text(self.log_level)));
        assert(argument_views(arguments@) =~= self.command_line());
        arguments
    }

    /// What ends a sub-process after [`PROCESS_WAIT_TIMEOUT`], by whether it has exited meanwhile.
    pub fn terminate(exited: bool) -> (r: Termination)
        ensures
            r == if exited {
                Termination::Leave
            } else {
                Termination::Kill
            },
    {
        if exited {
            Termination::Leave
        } else {
            Termination::Kill
        }
    }

    /// Whether a sub-process counts as running: only one of which it is known.
    pub fn is_running(status: ProcessStatus) -> (r: bool)
        ensures
            r == (status == ProcessStatus::Running),
    {
        match status {
            ProcessStatus::Running => true,
            _ => false,
        }
    }
}

impl Clone for ExecutableProtocolRunner {
    fn clone(&self) -> (r: Self)
        ensures
            r.executable_path@ == self.executable_path@,
            r.command_line() == self.command_line(),
            r.sock_cmd_path@ == self.sock_cmd_path@,
            r.sock_evt_path is Some == self.sock_evt_path is Some,
            r.sock_evt_path is Some ==> r.sock_evt_path.unwrap()@ == self.sock_evt_path.unwrap()@,
            r.endpoint_name@ == self.endpoint_name@,
            r.log_level == self.log_level,
    {
        let sock_evt_path = match &self.sock_evt_path {
            Some(path) => Some(copy_bytes(path)),
            None => None,
        };
        ExecutableProtocolRunner {
            sock_cmd_path: copy_bytes(&self.sock_cmd_path),
            sock_evt_path,
            executable_path: copy_bytes(&self.executable_path),
            endpoint_name: self.endpoint_name.clone(),
            log_level: self.log_level,
        }
    }
}

} // verus!
