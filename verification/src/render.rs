//! Wire-format rendering: one plain-text line, or one JSON object.

use crate::bytes::{append_bytes, ascii_bytes, bytes_of_str, is_printable, printable};
use crate::record::{LogRecord, RecordShape};
use crate::severity::{severity_name, Severity};
use vstd::prelude::*;

verus! {

/// How a record is put on the wire for a network destination.
///
/// `JsonText.field` is the JSON key the message is stored under; it is
/// non-empty, printable, and fixed at configuration time.
#[derive(Clone)]
pub enum NetworkFormat {
    PlainText,
    JsonText { field: Vec<u8> },
}

impl NetworkFormat {
    /// Well-formedness: a JSON message key is non-empty printable ASCII.
    pub open spec fn wf(&self) -> bool {
        match self {
            NetworkFormat::PlainText => true,
            NetworkFormat::JsonText { field } => field@.len() > 0 && printable(field@),
        }
    }

    /// Checks well-formedness.
    pub fn check(&self) -> (r: bool)
        ensures
            r == self.wf(),
    {
        match self {
            NetworkFormat::PlainText => true,
            NetworkFormat::JsonText { field } => field.len() > 0 && is_printable(field.as_slice()),
        }
    }
}

/// A record was dropped from one sink because its message cannot be
/// carried by that sink's encoding. Local to the one render attempt.
#[derive(Clone, Copy, PartialEq, Eq, Structural, Debug)]
pub enum EncodingError {
    UnrepresentableMessage,
}

/// The canonical plain-text line for a record:
/// `<timestamp> [<SEVERITY>] <machine> - <container>: <message>`.
pub open spec fn plain_line(r: RecordShape) -> Seq<u8> {
    r.timestamp + bytes_of_str(" ["@) + severity_name(r.severity) + bytes_of_str("] "@) + r.machine
        + bytes_of_str(" - "@) + r.container + bytes_of_str(": "@) + r.message
}

/// Renders the canonical plain-text line. Never fails: the line carries
/// the message bytes verbatim.
pub fn render_plain(r: &LogRecord) -> (out: Vec<u8>)
    ensures
        out@ == plain_line(r.shape()),
{
    let mut out: Vec<u8> = Vec::new();
    append_bytes(&mut out, r.timestamp.as_slice());
    let open = " [";
    proof {
        reveal_strlit(" [");
    }
    let open_b = ascii_bytes(open);
    append_bytes(&mut out, open_b.as_slice());
    let name = r.severity.name_bytes();
    append_bytes(&mut out, name.as_slice());
    let close = "] ";
    proof {
        reveal_strlit("] ");
    }
    let close_b = ascii_bytes(close);
    append_bytes(&mut out, close_b.as_slice());
    append_bytes(&mut out, r.machine_name.as_slice());
    let dash = " - ";
    proof {
        reveal_strlit(" - ");
    }
    let dash_b = ascii_bytes(dash);
    append_bytes(&mut out, dash_b.as_slice());
    append_bytes(&mut out, r.container_name.as_slice());
    let colon = ": ";
    proof {
        reveal_strlit(": ");
    }
    let colon_b = ascii_bytes(colon);
    append_bytes(&mut out, colon_b.as_slice());
    append_bytes(&mut out, r.message.as_slice());
    proof {
        assert(out@ =~= plain_line(r.shape()));
    }
    out
}

/// The JSON escape of one byte: `"` and `\` gain a backslash, every other
/// byte stands for itself.
pub open spec fn esc_byte(b: u8) -> Seq<u8> {
    if b == 0x22 {
        seq![0x5cu8, 0x22u8]
    } else if b == 0x5c {
        seq![0x5cu8, 0x5cu8]
    } else {
        seq![b]
    }
}

/// The JSON escape of a byte string.
pub open spec fn esc(s: Seq<u8>) -> Seq<u8>
    decreases s.len(),
{
    if s.len() == 0 {
        Seq::empty()
    } else {
        esc_byte(s[0]) + esc(s.skip(1))
    }
}

/// Escaping distributes over concatenation.
pub proof fn lemma_esc_append(a: Seq<u8>, b: Seq<u8>)
    ensures
        esc(a + b) == esc(a) + esc(b),
    decreases a.len(),
{
    if a.len() == 0 {
        assert(a + b =~= b);
        assert(esc(a) + esc(b) =~= esc(b));
    } else {
        lemma_esc_append(a.skip(1), b);
        assert((a + b).skip(1) =~= a.skip(1) + b);
        assert((a + b)[0] == a[0]);
        assert(esc_byte(a[0]) + (esc(a.skip(1)) + esc(b)) =~= (esc_byte(a[0]) + esc(a.skip(1)))
            + esc(b));
    }
}

/// Appends the JSON escape of `src` to `out`.
pub fn append_escaped(out: &mut Vec<u8>, src: &[u8])
    ensures
        final(out)@ == old(out)@ + esc(src@),
{
    let ghost start = out@;
    let mut i: usize = 0;
    while i < src.len()
        invariant
            i <= src@.len(),
            out@ == start + esc(src@.subrange(0, i as int)),
        decreases src@.len() - i,
    {
        let b: u8 = src[i];
        if b == 0x22 || b == 0x5c {
            out.push(0x5c);
            out.push(b);
        } else {
            out.push(b);
        }
        proof {
            let pre = src@.subrange(0, i as int);
            let one = seq![src@[i as int]];
            assert(pre + one =~= src@.subrange(0, i + 1));
            lemma_esc_append(pre, one);
            assert(one.skip(1) =~= Seq::<u8>::empty());
            assert(esc(Seq::<u8>::empty()) =~= Seq::<u8>::empty());
            assert(esc(one) =~= esc_byte(src@[i as int]));
        }
        i = i + 1;
    }
    proof {
        assert(src@.subrange(0, src@.len() as int) =~= src@);
    }
}

/// `esc(x)` followed by a closing quote.
pub open spec fn quoted(x: Seq<u8>) -> Seq<u8> {
    esc(x) + seq![0x22u8]
}

/// The canonical JSON object for a record, with the message under `field`:
/// `{"timestamp":"…","severity":"…","machine":"…","container":"…","<field>":"…"}`.
pub open spec fn json_object(r: RecordShape, field: Seq<u8>) -> Seq<u8> {
    bytes_of_str("{\"timestamp\":\""@) + quoted(r.timestamp) + bytes_of_str(",\"severity\":\""@)
        + quoted(severity_name(r.severity)) + bytes_of_str(",\"machine\":\""@) + quoted(r.machine)
        + bytes_of_str(",\"container\":\""@) + quoted(r.container) + bytes_of_str(",\""@) + quoted(
        field,
    ) + bytes_of_str(":\""@) + quoted(r.message) + bytes_of_str("}"@)
}

/// Renders the canonical JSON object. Fails exactly when the message is
/// not printable ASCII; the header fields are printable by `r.wf()`.
#[verifier::rlimit(60)]
pub fn render_json(r: &LogRecord, field: &Vec<u8>) -> (out: Result<Vec<u8>, EncodingError>)
    requires
        r.wf(),
    ensures
        match out {
            Ok(v) => printable(r.message@) && v@ == json_object(r.shape(), field@),
            Err(e) => !printable(r.message@) && e == EncodingError::UnrepresentableMessage,
        },
{
    if !is_printable(r.message.as_slice()) {
        return Err(EncodingError::UnrepresentableMessage);
    }
    let mut out: Vec<u8> = Vec::new();
    let l1 = "{\"timestamp\":\"";
    proof {
        reveal_strlit("{\"timestamp\":\"");
    }
    let l1b = ascii_bytes(l1);
    append_bytes(&mut out, l1b.as_slice());
    append_escaped(&mut out, r.timestamp.as_slice());
    push_quote(&mut out);
    let l2 = ",\"severity\":\"";
    proof {
        reveal_strlit(",\"severity\":\"");
    }
    let l2b = ascii_bytes(l2);
    append_bytes(&mut out, l2b.as_slice());
    let name = r.severity.name_bytes();
    append_escaped(&mut out, name.as_slice());
    push_quote(&mut out);
    let l3 = ",\"machine\":\"";
    proof {
        reveal_strlit(",\"machine\":\"");
    }
    let l3b = ascii_bytes(l3);
    append_bytes(&mut out, l3b.as_slice());
    append_escaped(&mut out, r.machine_name.as_slice());
    push_quote(&mut out);
    let l4 = ",\"container\":\"";
    proof {
        reveal_strlit(",\"container\":\"");
    }
    let l4b = ascii_bytes(l4);
    append_bytes(&mut out, l4b.as_slice());
    append_escaped(&mut out, r.container_name.as_slice());
    push_quote(&mut out);
    let l5 = ",\"";
    proof {
        reveal_strlit(",\"");
    }
    let l5b = ascii_bytes(l5);
    append_bytes(&mut out, l5b.as_slice());
    append_escaped(&mut out, field.as_slice());
    push_quote(&mut out);
    let l6 = ":\"";
    proof {
        reveal_strlit(":\"");
    }
    let l6b = ascii_bytes(l6);
    append_bytes(&mut out, l6b.as_slice());
    append_escaped(&mut out, r.message.as_slice());
    push_quote(&mut out);
    let l7 = "}";
    proof {
        reveal_strlit("}");
    }
    let l7b = ascii_bytes(l7);
    append_bytes(&mut out, l7b.as_slice());
    proof {
        assert(out@ =~= json_object(r.shape(), field@));
    }
    Ok(out)
}

/// Appends one `"` byte.
fn push_quote(out: &mut Vec<u8>)
    ensures
        final(out)@ == old(out)@ + seq![0x22u8],
{
    out.push(0x22);
}

/// What `render` produces for a record under a format: the plain line, the
/// JSON object, or an encoding rejection local to this one attempt.
pub open spec fn render_spec(r: RecordShape, f: NetworkFormat) -> Result<Seq<u8>, EncodingError> {
    match f {
        NetworkFormat::PlainText => Ok(plain_line(r)),
        NetworkFormat::JsonText { field } => if printable(r.message) {
            Ok(json_object(r, field@))
        } else {
            Err(EncodingError::UnrepresentableMessage)
        },
    }
}

/// Renders a record in the given wire format.
pub fn render(r: &LogRecord, f: &NetworkFormat) -> (out: Result<Vec<u8>, EncodingError>)
    requires
        r.wf(),
    ensures
        match (out, render_spec(r.shape(), *f)) {
            (Ok(v), Ok(s)) => v@ == s,
            (Err(e1), Err(e2)) => e1 == e2,
            _ => false,
        },
{
    match f {
        NetworkFormat::PlainText => Ok(render_plain(r)),
        NetworkFormat::JsonText { field } => render_json(r, field),
    }
}

} // verus!
