//! The fan-out logger: per-sink filtering and delivery planning.
//!
//! The logger owns no file handle and no socket. For each record it plans
//! one delivery per enabled sink whose minimum level the record reaches;
//! the caller performs the writes. One sink's failure is the caller's
//! local diagnostic and never touches another sink's delivery.

use crate::bytes::{is_printable, printable};
use crate::record::{LogRecord, RecordShape};
use crate::render::{plain_line, render, render_spec, NetworkFormat};
use crate::severity::{rank, should_emit, Severity};
use vstd::prelude::*;

verus! {

/// Configuration of the whole sink set plus the global dispatch flags.
/// Constructed once at startup, read-only afterwards; reconfiguration
/// means restarting.
pub struct LoggerSettings {
    pub terminal_logs: bool,
    pub terminal_log_lvl: Severity,
    pub file_logs: bool,
    pub file_log_lvl: Severity,
    pub log_file_path: Vec<u8>,
    pub network_logs: bool,
    pub network_log_lvl: Severity,
    pub network_endpoint_url: Vec<u8>,
    pub network_format: NetworkFormat,
    /// Extra verbosity for the sinks' own diagnostics; carried through,
    /// no bearing on which records are emitted.
    pub debug_extra: bool,
    /// When set, call sites hand records over without blocking on
    /// delivery; when clear, a call returns after every enabled sink has
    /// attempted delivery.
    pub async_logging: bool,
}

/// A network endpoint the caller can attempt delivery to: non-empty
/// printable text with an `http://` or `https://` scheme. (Whether it is
/// reachable is the caller's runtime concern.)
pub open spec fn endpoint_ok(u: Seq<u8>) -> bool {
    printable(u) && (crate::parse::strip(crate::bytes::bytes_of_str("http://"@), u) is Some
        || crate::parse::strip(crate::bytes::bytes_of_str("https://"@), u) is Some)
}

/// Checks `endpoint_ok`.
pub fn endpoint_check(u: &Vec<u8>) -> (r: bool)
    ensures
        r == endpoint_ok(u@),
{
    if !is_printable(u.as_slice()) {
        return false;
    }
    let h = "http://";
    proof {
        reveal_strlit("http://");
    }
    let hb = crate::bytes::ascii_bytes(h);
    let s = "https://";
    proof {
        reveal_strlit("https://");
    }
    let sb = crate::bytes::ascii_bytes(s);
    let r1 = crate::parse::expect_lit(u.as_slice(), 0, hb.as_slice());
    let r2 = crate::parse::expect_lit(u.as_slice(), 0, sb.as_slice());
    proof {
        assert(u@.skip(0) =~= u@);
    }
    r1.is_some() || r2.is_some()
}

/// Why the logger could not be brought up, or was already up.
#[derive(Clone, Copy, PartialEq, Eq, Structural, Debug)]
pub enum InitError {
    /// The logger is initialized once per process; a second call is
    /// rejected and changes nothing.
    AlreadyInitialized,
    /// The file sink is enabled but no log file path was given.
    EmptyFilePath,
    /// The network sink is enabled but its endpoint URL is not usable.
    InvalidNetworkEndpoint,
    /// The network sink is enabled but its wire format is ill-formed.
    InvalidNetworkFormat,
}

impl LoggerSettings {
    /// Well-formedness: each enabled sink has a usable destination.
    pub open spec fn wf(&self) -> bool {
        (self.file_logs ==> self.log_file_path@.len() > 0) && (self.network_logs ==> endpoint_ok(
            self.network_endpoint_url@,
        ) && self.network_format.wf())
    }

    /// The first fault in the settings, in the order the checks run.
    pub open spec fn validate_spec(&self) -> Result<(), InitError> {
        if self.file_logs && self.log_file_path@.len() == 0 {
            Err(InitError::EmptyFilePath)
        } else if self.network_logs && !endpoint_ok(self.network_endpoint_url@) {
            Err(InitError::InvalidNetworkEndpoint)
        } else if self.network_logs && !self.network_format.wf() {
            Err(InitError::InvalidNetworkFormat)
        } else {
            Ok(())
        }
    }

    /// Checks the settings, reporting the first fault.
    pub fn validate(&self) -> (r: Result<(), InitError>)
        ensures
            r == self.validate_spec(),
            r is Ok <==> self.wf(),
    {
        if self.file_logs && self.log_file_path.len() == 0 {
            Err(InitError::EmptyFilePath)
        } else if self.network_logs && !endpoint_check(&self.network_endpoint_url) {
            Err(InitError::InvalidNetworkEndpoint)
        } else if self.network_logs && !self.network_format.check() {
            Err(InitError::InvalidNetworkFormat)
        } else {
            Ok(())
        }
    }
}

/// The destination of one planned delivery.
#[derive(Clone, Copy, PartialEq, Eq, Structural, Debug)]
pub enum SinkKind {
    /// Standard output, or standard error for `Error`-level records.
    Terminal { stderr: bool },
    /// Append to the configured log file, one line per record.
    File,
    /// Best-effort delivery to the configured network endpoint.
    Network,
}

/// One planned delivery: where, and the exact bytes to hand over.
pub struct SinkAction {
    pub kind: SinkKind,
    pub payload: Vec<u8>,
}

/// The mathematical shape of a planned delivery.
pub open spec fn action_shapes(actions: Seq<SinkAction>) -> Seq<(SinkKind, Seq<u8>)> {
    actions.map_values(|a: SinkAction| (a.kind, a.payload@))
}

/// What the logger plans for a record: terminal first, then file, then
/// network, each present exactly when its sink is enabled and the record
/// reaches the sink's minimum level. Terminal and file carry the plain
/// line (the file copy newline-terminated); the network sink carries the
/// configured wire format and drops the record locally if the format
/// cannot carry it.
pub open spec fn dispatch_spec(s: LoggerSettings, r: RecordShape) -> Seq<(SinkKind, Seq<u8>)> {
    (if s.terminal_logs && rank(r.severity) >= rank(s.terminal_log_lvl) {
        seq![
            (
                SinkKind::Terminal { stderr: rank(r.severity) >= rank(Severity::Error) },
                plain_line(r),
            ),
        ]
    } else {
        Seq::empty()
    }) + (if s.file_logs && rank(r.severity) >= rank(s.file_log_lvl) {
        seq![(SinkKind::File, plain_line(r) + seq![0x0au8])]
    } else {
        Seq::empty()
    }) + (if s.network_logs && rank(r.severity) >= rank(s.network_log_lvl) {
        match render_spec(r, s.network_format) {
            Ok(b) => seq![(SinkKind::Network, b)],
            Err(_) => Seq::<(SinkKind, Seq<u8>)>::empty(),
        }
    } else {
        Seq::empty()
    })
}

/// A record's planned fan-out, plus how the caller is to dispatch it.
pub struct DispatchPlan {
    /// When set, the caller hands each action to its own delivery task
    /// and returns at once; when clear, it attempts them in order before
    /// returning. Either way the actions are independent: one failing or
    /// stalling must not hold back another.
    pub asynchronous: bool,
    pub actions: Vec<SinkAction>,
}

/// The process-wide logger: settings behind an initialize-once gate.
pub struct Logger {
    pub state: Option<LoggerSettings>,
}

impl Logger {
    /// Whether `init` has succeeded.
    pub open spec fn initialized(&self) -> bool {
        self.state is Some
    }

    /// The settings the logger runs with.
    pub open spec fn settings(&self) -> LoggerSettings
        recommends
            self.initialized(),
    {
        self.state->Some_0
    }

    /// A logger that is not yet initialized.
    pub fn new() -> (r: Logger)
        ensures
            !r.initialized(),
    {
        Logger { state: None }
    }

    /// Brings the logger up with `settings`, once per process. A second
    /// call is rejected with `AlreadyInitialized` and changes nothing;
    /// ill-formed settings are rejected with the first fault found.
    pub fn init(&mut self, settings: LoggerSettings) -> (r: Result<(), InitError>)
        ensures
            old(self).initialized() ==> r == Err::<(), InitError>(InitError::AlreadyInitialized)
                && *final(self) == *old(self),
            !old(self).initialized() ==> match settings.validate_spec() {
                Ok(()) => r is Ok && final(self).initialized() && final(self).settings()
                    == settings,
                Err(e) => r == Err::<(), InitError>(e) && !final(self).initialized(),
            },
    {
        if self.state.is_some() {
            return Err(InitError::AlreadyInitialized);
        }
        match settings.validate() {
            Ok(()) => {
                self.state = Some(settings);
                Ok(())
            },
            Err(e) => Err(e),
        }
    }

    /// Plans the fan-out for one record: one delivery per enabled sink
    /// the record's severity reaches, in the fixed terminal, file,
    /// network order.
    pub fn dispatch(&self, r: &LogRecord) -> (plan: DispatchPlan)
        requires
            self.initialized(),
            self.settings().wf(),
            r.wf(),
        ensures
            plan.asynchronous == self.settings().async_logging,
            action_shapes(plan.actions@) == dispatch_spec(self.settings(), r.shape()),
    {
        let settings = match &self.state {
            Some(s) => s,
            None => {
                proof {
                    assert(false);
                }
                unreached()
            },
        };
        let mut actions: Vec<SinkAction> = Vec::new();
        if settings.terminal_logs && should_emit(r.severity, settings.terminal_log_lvl) {
            let stderr = should_emit(r.severity, Severity::Error);
            let payload = crate::render::render_plain(r);
            actions.push(SinkAction { kind: SinkKind::Terminal { stderr }, payload });
        }
        if settings.file_logs && should_emit(r.severity, settings.file_log_lvl) {
            let mut payload = crate::render::render_plain(r);
            payload.push(0x0a);
            actions.push(SinkAction { kind: SinkKind::File, payload });
        }
        if settings.network_logs && should_emit(r.severity, settings.network_log_lvl) {
            match render(r, &settings.network_format) {
                Ok(payload) => {
                    actions.push(SinkAction { kind: SinkKind::Network, payload });
                },
                Err(_) => {},
            }
        }
        proof {
            assert(action_shapes(actions@) =~~= dispatch_spec(self.settings(), r.shape()));
        }
        DispatchPlan { asynchronous: settings.async_logging, actions }
    }
}

} // verus!
