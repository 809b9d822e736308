//! The severity scale and the per-sink emission filter.

use crate::bytes::{ascii_bytes, bytes_eq, bytes_of_str, printable};
use vstd::prelude::*;

verus! {

/// A log level. The scale is totally ordered:
/// `Trace < Debug < Info < Warn < Error`.
#[derive(Clone, Copy, PartialEq, Eq, Structural, Debug)]
pub enum Severity {
    Trace,
    Debug,
    Info,
    Warn,
    Error,
}

/// The numeric position of a severity on the fixed scale.
pub open spec fn rank(s: Severity) -> int {
    match s {
        Severity::Trace => 0,
        Severity::Debug => 1,
        Severity::Info => 2,
        Severity::Warn => 3,
        Severity::Error => 4,
    }
}

impl Severity {
    /// The position of this severity on the fixed scale, as a machine integer.
    pub fn level(self) -> (r: u8)
        ensures
            r as int == rank(self),
    {
        match self {
            Severity::Trace => 0,
            Severity::Debug => 1,
            Severity::Info => 2,
            Severity::Warn => 3,
            Severity::Error => 4,
        }
    }
}

/// Whether a record of severity `level` passes a sink whose configured
/// minimum is `min`: true exactly when `level` is at least `min` on the
/// fixed total order.
pub fn should_emit(level: Severity, min: Severity) -> (r: bool)
    ensures
        r == (rank(level) >= rank(min)),
{
    level.level() >= min.level()
}

/// The upper-case wire name of a severity.
pub open spec fn severity_name(s: Severity) -> Seq<u8> {
    match s {
        Severity::Trace => bytes_of_str("TRACE"@),
        Severity::Debug => bytes_of_str("DEBUG"@),
        Severity::Info => bytes_of_str("INFO"@),
        Severity::Warn => bytes_of_str("WARN"@),
        Severity::Error => bytes_of_str("ERROR"@),
    }
}

/// The severity named `n` on the wire, if `n` is one of the five names.
pub open spec fn severity_of_name(n: Seq<u8>) -> Option<Severity> {
    if n == severity_name(Severity::Trace) {
        Some(Severity::Trace)
    } else if n == severity_name(Severity::Debug) {
        Some(Severity::Debug)
    } else if n == severity_name(Severity::Info) {
        Some(Severity::Info)
    } else if n == severity_name(Severity::Warn) {
        Some(Severity::Warn)
    } else if n == severity_name(Severity::Error) {
        Some(Severity::Error)
    } else {
        None
    }
}

/// Naming a severity and looking the name up again is the identity.
pub proof fn lemma_severity_name_round_trip(s: Severity)
    ensures
        severity_of_name(severity_name(s)) == Some(s),
{
    reveal_strlit("TRACE");
    reveal_strlit("DEBUG");
    reveal_strlit("INFO");
    reveal_strlit("WARN");
    reveal_strlit("ERROR");
    match s {
        Severity::Trace => {},
        Severity::Debug => {
            assert(severity_name(Severity::Debug)[0] != severity_name(Severity::Trace)[0]);
        },
        Severity::Info => {
            assert(severity_name(Severity::Info)[0] != severity_name(Severity::Trace)[0]);
            assert(severity_name(Severity::Info)[0] != severity_name(Severity::Debug)[0]);
        },
        Severity::Warn => {
            assert(severity_name(Severity::Warn)[0] != severity_name(Severity::Trace)[0]);
            assert(severity_name(Severity::Warn)[0] != severity_name(Severity::Debug)[0]);
            assert(severity_name(Severity::Warn)[0] != severity_name(Severity::Info)[0]);
        },
        Severity::Error => {
            assert(severity_name(Severity::Error)[0] != severity_name(Severity::Trace)[0]);
            assert(severity_name(Severity::Error)[0] != severity_name(Severity::Debug)[0]);
            assert(severity_name(Severity::Error)[0] != severity_name(Severity::Info)[0]);
            assert(severity_name(Severity::Error)[0] != severity_name(Severity::Warn)[0]);
        },
    }
}

/// Every severity name is printable ASCII, non-empty, and free of the
/// `|` field separator.
pub proof fn lemma_severity_name_printable(s: Severity)
    ensures
        printable(severity_name(s)),
        severity_name(s).len() > 0,
        forall|i: int| 0 <= i < severity_name(s).len() ==> severity_name(s)[i] != 0x7c,
{
    reveal_strlit("TRACE");
    reveal_strlit("DEBUG");
    reveal_strlit("INFO");
    reveal_strlit("WARN");
    reveal_strlit("ERROR");
}

impl Severity {
    /// The upper-case wire name of this severity, as owned bytes.
    pub fn name_bytes(self) -> (r: Vec<u8>)
        ensures
            r@ == severity_name(self),
    {
        match self {
            Severity::Trace => {
                let s = "TRACE";
                proof {
                    reveal_strlit("TRACE");
                }
                ascii_bytes(s)
            },
            Severity::Debug => {
                let s = "DEBUG";
                proof {
                    reveal_strlit("DEBUG");
                }
                ascii_bytes(s)
            },
            Severity::Info => {
                let s = "INFO";
                proof {
                    reveal_strlit("INFO");
                }
                ascii_bytes(s)
            },
            Severity::Warn => {
                let s = "WARN";
                proof {
                    reveal_strlit("WARN");
                }
                ascii_bytes(s)
            },
            Severity::Error => {
                let s = "ERROR";
                proof {
                    reveal_strlit("ERROR");
                }
                ascii_bytes(s)
            },
        }
    }
}

/// Looks a wire name up on the severity scale.
pub fn severity_from_name(n: &Vec<u8>) -> (r: Option<Severity>)
    ensures
        r == severity_of_name(n@),
{
    let trace = Severity::Trace.name_bytes();
    if bytes_eq(n, &trace) {
        return Some(Severity::Trace);
    }
    let debug = Severity::Debug.name_bytes();
    if bytes_eq(n, &debug) {
        return Some(Severity::Debug);
    }
    let info = Severity::Info.name_bytes();
    if bytes_eq(n, &info) {
        return Some(Severity::Info);
    }
    let warn = Severity::Warn.name_bytes();
    if bytes_eq(n, &warn) {
        return Some(Severity::Warn);
    }
    let error = Severity::Error.name_bytes();
    if bytes_eq(n, &error) {
        return Some(Severity::Error);
    }
    None
}

/// The severity scale is a total order: `rank` is injective, spans
/// `Trace < Debug < Info < Warn < Error`, and any two severities compare.
pub proof fn lemma_severity_total_order()
    ensures
        rank(Severity::Trace) < rank(Severity::Debug) < rank(Severity::Info) < rank(Severity::Warn)
            < rank(Severity::Error),
        forall|a: Severity, b: Severity| rank(a) == rank(b) ==> a == b,
        forall|a: Severity, b: Severity| rank(a) <= rank(b) || rank(b) <= rank(a),
{
}

} // verus!
