//! Parsing the canonical JSON object back into a record, and the proof
//! that parsing inverts rendering.

use crate::bytes::bytes_of_str;
use crate::record::{LogRecord, RecordShape};
use crate::render::{esc, esc_byte, json_object, quoted};
use crate::severity::{lemma_severity_name_round_trip, severity_from_name, severity_name,
    severity_of_name};
use vstd::prelude::*;

verus! {

/// Reads an escaped string up to its closing quote: the decoded bytes and
/// what follows the quote. `None` when no unescaped closing quote comes.
pub open spec fn unesc_prefix(s: Seq<u8>) -> Option<(Seq<u8>, Seq<u8>)>
    decreases s.len(),
{
    if s.len() == 0 {
        None
    } else if s[0] == 0x22 {
        Some((Seq::empty(), s.skip(1)))
    } else if s[0] == 0x5c {
        if s.len() >= 2 && (s[1] == 0x22 || s[1] == 0x5c) {
            match unesc_prefix(s.skip(2)) {
                Some(p) => Some((seq![s[1]] + p.0, p.1)),
                None => None,
            }
        } else {
            None
        }
    } else {
        match unesc_prefix(s.skip(1)) {
            Some(p) => Some((seq![s[0]] + p.0, p.1)),
            None => None,
        }
    }
}

/// Drops the literal `lit` from the front of `s`, if it stands there.
pub open spec fn strip(lit: Seq<u8>, s: Seq<u8>) -> Option<Seq<u8>> {
    if lit.len() <= s.len() && s.subrange(0, lit.len() as int) == lit {
        Some(s.skip(lit.len() as int))
    } else {
        None
    }
}

/// Stripping a literal off itself-plus-rest leaves the rest.
pub proof fn lemma_strip(lit: Seq<u8>, rest: Seq<u8>)
    ensures
        strip(lit, lit + rest) == Some(rest),
{
    let s = lit + rest;
    assert(s.subrange(0, lit.len() as int) =~= lit);
    assert(s.skip(lit.len() as int) =~= rest);
}

/// Unescaping inverts escaping: the decoded bytes are exactly `x` and the
/// input after the closing quote is handed back untouched.
pub proof fn lemma_unesc_esc(x: Seq<u8>, rest: Seq<u8>)
    ensures
        unesc_prefix(quoted(x) + rest) == Some((x, rest)),
    decreases x.len(),
{
    let s = quoted(x) + rest;
    if x.len() == 0 {
        assert(esc(x) =~= Seq::<u8>::empty());
        assert(s =~= seq![0x22u8] + rest);
        assert(s[0] == 0x22);
        assert(s.skip(1) =~= rest);
        assert(x =~= Seq::<u8>::empty());
    } else {
        let tail = x.skip(1);
        crate::render::lemma_esc_append(seq![x[0]], tail);
        assert(seq![x[0]] + tail =~= x);
        assert(seq![x[0]].skip(1) =~= Seq::<u8>::empty());
        assert(esc(Seq::<u8>::empty()) =~= Seq::<u8>::empty());
        assert(esc(seq![x[0]]) =~= esc_byte(x[0]));
        assert(esc(x) =~= esc_byte(x[0]) + esc(tail));
        lemma_unesc_esc(tail, rest);
        if x[0] == 0x22 || x[0] == 0x5c {
            assert(s =~= seq![0x5cu8, x[0]] + (quoted(tail) + rest));
            assert(s[0] == 0x5c);
            assert(s[1] == x[0]);
            assert(s.len() >= 2);
            assert(s.skip(2) =~= quoted(tail) + rest);
            assert(seq![s[1]] + tail =~= x);
        } else {
            assert(s =~= seq![x[0]] + (quoted(tail) + rest));
            assert(s[0] == x[0]);
            assert(s.skip(1) =~= quoted(tail) + rest);
            assert(seq![s[0]] + tail =~= x);
        }
    }
}

/// Parses the canonical JSON object: five quoted values behind fixed keys,
/// the message under the configured `field` key, nothing trailing.
pub open spec fn parse_json_spec(s: Seq<u8>, field: Seq<u8>) -> Option<RecordShape> {
    match strip(bytes_of_str("{\"timestamp\":\""@), s) {
        None => None,
        Some(s1) => match unesc_prefix(s1) {
            None => None,
            Some((timestamp, s2)) => match strip(bytes_of_str(",\"severity\":\""@), s2) {
                None => None,
                Some(s3) => match unesc_prefix(s3) {
                    None => None,
                    Some((name, s4)) => match severity_of_name(name) {
                        None => None,
                        Some(severity) => match strip(bytes_of_str(",\"machine\":\""@), s4) {
                            None => None,
                            Some(s5) => match unesc_prefix(s5) {
                                None => None,
                                Some((machine, s6)) => match strip(
                                    bytes_of_str(",\"container\":\""@),
                                    s6,
                                ) {
                                    None => None,
                                    Some(s7) => match unesc_prefix(s7) {
                                        None => None,
                                        Some((container, s8)) => match strip(
                                            bytes_of_str(",\""@),
                                            s8,
                                        ) {
                                            None => None,
                                            Some(s9) => match unesc_prefix(s9) {
                                                None => None,
                                                Some((key, s10)) => if key != field {
                                                    None
                                                } else {
                                                    match strip(bytes_of_str(":\""@), s10) {
                                                        None => None,
                                                        Some(s11) => match unesc_prefix(s11) {
                                                            None => None,
                                                            Some((message, s12)) => if s12
                                                                == bytes_of_str("}"@) {
                                                                Some(
                                                                    RecordShape {
                                                                        timestamp,
                                                                        severity,
                                                                        machine,
                                                                        container,
                                                                        message,
                                                                    },
                                                                )
                                                            } else {
                                                                None
                                                            },
                                                        },
                                                    }
                                                },
                                            },
                                        },
                                    },
                                },
                            },
                        },
                    },
                },
            },
        },
    }
}

/// Rendering a record as the canonical JSON object and parsing it back
/// yields the record, for every record and every message key.
#[verifier::rlimit(100)]
pub proof fn lemma_json_round_trip(r: RecordShape, field: Seq<u8>)
    ensures
        parse_json_spec(json_object(r, field), field) == Some(r),
{
    let l1 = bytes_of_str("{\"timestamp\":\""@);
    let l2 = bytes_of_str(",\"severity\":\""@);
    let l3 = bytes_of_str(",\"machine\":\""@);
    let l4 = bytes_of_str(",\"container\":\""@);
    let l5 = bytes_of_str(",\""@);
    let l6 = bytes_of_str(":\""@);
    let l7 = bytes_of_str("}"@);
    let name = severity_name(r.severity);
    let s = json_object(r, field);

    let r2 = l2 + quoted(name) + l3 + quoted(r.machine) + l4 + quoted(r.container) + l5 + quoted(
        field,
    ) + l6 + quoted(r.message) + l7;
    assert(s =~= l1 + (quoted(r.timestamp) + r2));
    lemma_strip(l1, quoted(r.timestamp) + r2);
    lemma_unesc_esc(r.timestamp, r2);

    let r3 = l3 + quoted(r.machine) + l4 + quoted(r.container) + l5 + quoted(field) + l6 + quoted(
        r.message,
    ) + l7;
    assert(r2 =~= l2 + (quoted(name) + r3));
    lemma_strip(l2, quoted(name) + r3);
    lemma_unesc_esc(name, r3);
    lemma_severity_name_round_trip(r.severity);

    let r4 = l4 + quoted(r.container) + l5 + quoted(field) + l6 + quoted(r.message) + l7;
    assert(r3 =~= l3 + (quoted(r.machine) + r4));
    lemma_strip(l3, quoted(r.machine) + r4);
    lemma_unesc_esc(r.machine, r4);

    let r5 = l5 + quoted(field) + l6 + quoted(r.message) + l7;
    assert(r4 =~= l4 + (quoted(r.container) + r5));
    lemma_strip(l4, quoted(r.container) + r5);
    lemma_unesc_esc(r.container, r5);

    let r6 = l6 + quoted(r.message) + l7;
    assert(r5 =~= l5 + (quoted(field) + r6));
    lemma_strip(l5, quoted(field) + r6);
    lemma_unesc_esc(field, r6);

    assert(r6 =~= l6 + (quoted(r.message) + l7));
    lemma_strip(l6, quoted(r.message) + l7);
    lemma_unesc_esc(r.message, l7);
}

/// Parses the canonical JSON object back into a record, expecting the
/// message under `field`. Mirrors `parse_json_spec` exactly.
pub fn parse_json(s: &[u8], field: &Vec<u8>) -> (r: Option<LogRecord>)
    ensures
        match r {
            Some(rec) => parse_json_spec(s@, field@) == Some(rec.shape()),
            None => parse_json_spec(s@, field@) is None,
        },
{
    proof {
        assert(s@.skip(0) =~= s@);
    }
    let l1 = "{\"timestamp\":\"";
    proof {
        reveal_strlit("{\"timestamp\":\"");
    }
    let l1b = crate::bytes::ascii_bytes(l1);
    let i1 = match expect_lit(s, 0, l1b.as_slice()) {
        Some(j) => j,
        None => {
            return None;
        },
    };
    let (timestamp, i2) = match unescape_prefix(s, i1) {
        Some(p) => p,
        None => {
            return None;
        },
    };
    let l2 = ",\"severity\":\"";
    proof {
        reveal_strlit(",\"severity\":\"");
    }
    let l2b = crate::bytes::ascii_bytes(l2);
    let i3 = match expect_lit(s, i2, l2b.as_slice()) {
        Some(j) => j,
        None => {
            return None;
        },
    };
    let (name, i4) = match unescape_prefix(s, i3) {
        Some(p) => p,
        None => {
            return None;
        },
    };
    let severity = match severity_from_name(&name) {
        Some(v) => v,
        None => {
            return None;
        },
    };
    let l3 = ",\"machine\":\"";
    proof {
        reveal_strlit(",\"machine\":\"");
    }
    let l3b = crate::bytes::ascii_bytes(l3);
    let i5 = match expect_lit(s, i4, l3b.as_slice()) {
        Some(j) => j,
        None => {
            return None;
        },
    };
    let (machine, i6) = match unescape_prefix(s, i5) {
        Some(p) => p,
        None => {
            return None;
        },
    };
    let l4 = ",\"container\":\"";
    proof {
        reveal_strlit(",\"container\":\"");
    }
    let l4b = crate::bytes::ascii_bytes(l4);
    let i7 = match expect_lit(s, i6, l4b.as_slice()) {
        Some(j) => j,
        None => {
            return None;
        },
    };
    let (container, i8) = match unescape_prefix(s, i7) {
        Some(p) => p,
        None => {
            return None;
        },
    };
    let l5 = ",\"";
    proof {
        reveal_strlit(",\"");
    }
    let l5b = crate::bytes::ascii_bytes(l5);
    let i9 = match expect_lit(s, i8, l5b.as_slice()) {
        Some(j) => j,
        None => {
            return None;
        },
    };
    let (key, i10) = match unescape_prefix(s, i9) {
        Some(p) => p,
        None => {
            return None;
        },
    };
    if !crate::bytes::bytes_eq(&key, field) {
        return None;
    }
    let l6 = ":\"";
    proof {
        reveal_strlit(":\"");
    }
    let l6b = crate::bytes::ascii_bytes(l6);
    let i11 = match expect_lit(s, i10, l6b.as_slice()) {
        Some(j) => j,
        None => {
            return None;
        },
    };
    let (message, i12) = match unescape_prefix(s, i11) {
        Some(p) => p,
        None => {
            return None;
        },
    };
    let l7 = "}";
    proof {
        reveal_strlit("}");
    }
    let l7b = crate::bytes::ascii_bytes(l7);
    if !(i12 == s.len() - 1 && s[i12] == 0x7d) {
        proof {
            let tail = s@.skip(i12 as int);
            if tail == bytes_of_str("}"@) {
                assert(tail.len() == 1);
                assert(tail[0] == 0x7d);
                assert(tail[0] == s@[i12 as int]);
                assert(false);
            }
        }
        return None;
    }
    proof {
        let tail = s@.skip(i12 as int);
        assert(tail =~= bytes_of_str("}"@));
    }
    Some(
        LogRecord {
            timestamp,
            severity,
            message,
            machine_name: machine,
            container_name: container,
        },
    )
}

/// Checks that the bytes of `lit` stand at position `i` of `s`; on success
/// hands back the position just past them.
pub fn expect_lit(s: &[u8], i: usize, lit: &[u8]) -> (r: Option<usize>)
    requires
        i <= s@.len(),
    ensures
        match r {
            Some(j) => i + lit@.len() == j && j <= s@.len() && strip(lit@, s@.skip(i as int))
                == Some(s@.skip(j as int)),
            None => strip(lit@, s@.skip(i as int)) is None,
        },
{
    let n = s.len();
    if n - i < lit.len() {
        return None;
    }
    let mut k: usize = 0;
    while k < lit.len()
        invariant
            n == s@.len(),
            i + lit@.len() <= s@.len(),
            k <= lit@.len(),
            forall|j: int| 0 <= j < k ==> s@[i + j] == lit@[j],
        decreases lit@.len() - k,
    {
        if s[i + k] != lit[k] {
            proof {
                let t = s@.skip(i as int);
                assert(t[k as int] == s@[i + k]);
                if lit@.len() <= t.len() && t.subrange(0, lit@.len() as int) == lit@ {
                    assert(t.subrange(0, lit@.len() as int)[k as int] == t[k as int]);
                    assert(false);
                }
            }
            return None;
        }
        k = k + 1;
    }
    proof {
        let t = s@.skip(i as int);
        assert(t.subrange(0, lit@.len() as int) =~= lit@);
        assert(t.skip(lit@.len() as int) =~= s@.skip(i + lit@.len()));
    }
    Some(i + lit.len())
}

/// Decodes an escaped string starting at position `i` of `s`, up to its
/// closing quote; on success hands back the position just past the quote.
pub fn unescape_prefix(s: &[u8], i: usize) -> (r: Option<(Vec<u8>, usize)>)
    requires
        i <= s@.len(),
    ensures
        match r {
            Some(p) => i <= p.1 <= s@.len() && unesc_prefix(s@.skip(i as int)) == Some(
                (p.0@, s@.skip(p.1 as int)),
            ),
            None => unesc_prefix(s@.skip(i as int)) is None,
        },
    decreases s@.len() - i,
{
    let ghost t = s@.skip(i as int);
    if i == s.len() {
        proof {
            assert(t.len() == 0);
        }
        return None;
    }
    let b: u8 = s[i];
    proof {
        assert(t[0] == s@[i as int]);
    }
    if b == 0x22 {
        proof {
            assert(t.skip(1) =~= s@.skip(i + 1));
            assert(unesc_prefix(t) == Some((Seq::<u8>::empty(), s@.skip(i + 1))));
        }
        let out: Vec<u8> = Vec::new();
        return Some((out, i + 1));
    }
    if b == 0x5c {
        if i + 1 < s.len() {
            let b2: u8 = s[i + 1];
            proof {
                assert(t.len() >= 2);
                assert(t[1] == s@[i + 1]);
            }
            if b2 == 0x22 || b2 == 0x5c {
                proof {
                    assert(t.skip(2) =~= s@.skip(i + 2));
                }
                match unescape_prefix(s, i + 2) {
                    Some(p) => {
                        let (v, j) = p;
                        let ghost v0 = v@;
                        let mut out: Vec<u8> = Vec::new();
                        out.push(b2);
                        let mut rest = v;
                        out.append(&mut rest);
                        proof {
                            assert(out@ =~= seq![t[1]] + v0);
                        }
                        return Some((out, j));
                    },
                    None => {
                        return None;
                    },
                }
            } else {
                return None;
            }
        } else {
            proof {
                assert(t.len() < 2);
            }
            return None;
        }
    }
    match unescape_prefix(s, i + 1) {
        Some(p) => {
            let (v, j) = p;
            let ghost v0 = v@;
            let mut out: Vec<u8> = Vec::new();
            out.push(b);
            let mut rest = v;
            out.append(&mut rest);
            proof {
                assert(t.skip(1) =~= s@.skip(i + 1));
                assert(out@ =~= seq![t[0]] + v0);
            }
            return Some((out, j));
        },
        None => {
            proof {
                assert(t.skip(1) =~= s@.skip(i + 1));
            }
            return None;
        },
    }
}

} // verus!
