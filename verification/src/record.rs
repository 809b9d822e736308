//! The log record and its well-formedness.

use crate::bytes::{find_byte, is_printable, printable};
use crate::severity::Severity;
use vstd::prelude::*;

verus! {

/// The mathematical shape of a log record: what the wire formats carry.
pub ghost struct RecordShape {
    pub timestamp: Seq<u8>,
    pub severity: Severity,
    pub machine: Seq<u8>,
    pub container: Seq<u8>,
    pub message: Seq<u8>,
}

/// A header field (timestamp, machine name, container name) as the wire
/// formats can carry it: printable ASCII, free of the `|` field separator.
pub open spec fn header_field_ok(s: Seq<u8>) -> bool {
    printable(s) && find_byte(s, 0x7c) is None
}

/// One log event, produced at a call site and consumed by every sink.
/// Immutable once constructed.
pub struct LogRecord {
    /// Wall-clock text, supplied by the caller (this crate reads no clock).
    pub timestamp: Vec<u8>,
    /// Position of the event on the severity scale.
    pub severity: Severity,
    /// The log message itself; arbitrary bytes.
    pub message: Vec<u8>,
    /// Name of the machine the event came from.
    pub machine_name: Vec<u8>,
    /// Name of the container the event came from.
    pub container_name: Vec<u8>,
}

impl LogRecord {
    /// The mathematical shape of this record.
    pub open spec fn shape(&self) -> RecordShape {
        RecordShape {
            timestamp: self.timestamp@,
            severity: self.severity,
            machine: self.machine_name@,
            container: self.container_name@,
            message: self.message@,
        }
    }

    /// Well-formedness: the header fields are wire-safe. The message may
    /// hold arbitrary bytes; formats that cannot carry it reject it locally.
    pub open spec fn wf(&self) -> bool {
        header_field_ok(self.timestamp@) && header_field_ok(self.machine_name@)
            && header_field_ok(self.container_name@)
    }

    /// Builds a record after checking that the header fields are wire-safe.
    pub fn new(
        timestamp: Vec<u8>,
        severity: Severity,
        message: Vec<u8>,
        machine_name: Vec<u8>,
        container_name: Vec<u8>,
    ) -> (r: Option<LogRecord>)
        ensures
            match r {
                Some(rec) => rec.wf() && rec.shape() == (RecordShape {
                    timestamp: timestamp@,
                    severity,
                    machine: machine_name@,
                    container: container_name@,
                    message: message@,
                }),
                None => !(header_field_ok(timestamp@) && header_field_ok(machine_name@)
                    && header_field_ok(container_name@)),
            },
    {
        if header_field_check(&timestamp) && header_field_check(&machine_name)
            && header_field_check(&container_name) {
            Some(
                LogRecord {
                    timestamp,
                    severity,
                    message,
                    machine_name,
                    container_name,
                },
            )
        } else {
            None
        }
    }
}

/// Checks that a header field is printable and separator-free.
pub fn header_field_check(s: &Vec<u8>) -> (r: bool)
    ensures
        r == header_field_ok(s@),
{
    if !is_printable(s.as_slice()) {
        return false;
    }
    let pipe = crate::bytes::find_byte_exec(s.as_slice(), 0x7c);
    pipe.is_none()
}

} // verus!
