//! The relay service: CORS policy, ingest parsing, outbound forwards,
//! lifecycle phases and the bounded worker pool.
//!
//! The relay owns no sockets. The caller binds the listener, reports the
//! outcome to `begin_listen`, hands every submission to `handle_ingest`,
//! sends the prepared forward bodies upstream, and brackets each forward
//! with `try_acquire` / `release` on the worker pool.

use crate::bytes::{bytes_eq, find_byte};
use crate::record::{header_field_ok, LogRecord, RecordShape};
use crate::render::{render, render_spec, NetworkFormat};
use crate::severity::severity_of_name;
use vstd::prelude::*;

verus! {

/// Configuration of one relay instance: where to listen, where to forward,
/// in which wire format, which cross-origin callers to admit, and how many
/// forwards may run at once. Read-only for the relay's whole run.
pub struct RelaySettings {
    pub listen_address: Vec<u8>,
    pub output_url: Vec<u8>,
    pub output_format: NetworkFormat,
    /// Ordered allow-list; empty means every cross-origin request is
    /// rejected.
    pub cors_allowed_origins: Vec<Vec<u8>>,
    /// Size of the worker pool; at least 1.
    pub workers: usize,
}

impl RelaySettings {
    /// Well-formedness: a listener to bind, a target to forward to, a
    /// well-formed wire format, and at least one worker.
    pub open spec fn wf(&self) -> bool {
        self.listen_address@.len() > 0 && self.output_url@.len() > 0 && self.output_format.wf()
            && self.workers >= 1
    }

    /// Checks well-formedness.
    pub fn check(&self) -> (r: bool)
        ensures
            r == self.wf(),
    {
        self.listen_address.len() > 0 && self.output_url.len() > 0 && self.output_format.check()
            && self.workers >= 1
    }
}

/// A condition fatal to the relay service (never to the process's logger).
#[derive(Clone, Copy, PartialEq, Eq, Structural, Debug)]
pub enum RelayError {
    /// The settings handed to `Relay::new` were not well-formed.
    InvalidSettings,
    /// The caller could not bind the listen address.
    BindFailed,
    /// The caller's accept loop hit an unrecoverable fault.
    ListenerFault,
}

/// The relay's lifecycle: `Starting -> Listening -> Stopped | Failed`.
#[derive(Clone, Copy, PartialEq, Eq, Structural, Debug)]
pub enum RelayPhase {
    Starting,
    Listening,
    Stopped,
    Failed,
}

/// The bounded pool that admits concurrent forwards: the only source of
/// backpressure. A denied acquire means "wait and ask again", never "drop".
pub struct WorkerPool {
    pub size: usize,
    pub busy: usize,
}

/// `p` after granting one worker, with whether one was free to grant.
pub open spec fn acquire_spec(p: WorkerPool) -> (WorkerPool, bool) {
    if p.busy < p.size {
        (WorkerPool { size: p.size, busy: (p.busy + 1) as usize }, true)
    } else {
        (p, false)
    }
}

/// `p` after one worker finished its forward.
pub open spec fn release_spec(p: WorkerPool) -> WorkerPool {
    WorkerPool { size: p.size, busy: (p.busy - 1) as usize }
}

impl WorkerPool {
    /// Well-formedness: at least one worker; never more busy than exist.
    pub open spec fn wf(&self) -> bool {
        1 <= self.size && self.busy <= self.size
    }

    /// Every worker is taken.
    pub open spec fn saturated(&self) -> bool {
        self.busy == self.size
    }

    /// An idle pool of `size` workers.
    pub fn new(size: usize) -> (p: WorkerPool)
        requires
            size >= 1,
        ensures
            p.wf(),
            p.size == size,
            p.busy == 0,
    {
        WorkerPool { size, busy: 0 }
    }

    /// Asks for a worker. Granted exactly when one is free; a denied
    /// request stays queued with the caller, nothing is dropped.
    pub fn try_acquire(&mut self) -> (granted: bool)
        requires
            old(self).wf(),
        ensures
            final(self).wf(),
            granted == acquire_spec(*old(self)).1,
            *final(self) == acquire_spec(*old(self)).0,
    {
        if self.busy < self.size {
            self.busy = self.busy + 1;
            true
        } else {
            false
        }
    }

    /// Hands a worker back after its forward completed or failed.
    pub fn release(&mut self)
        requires
            old(self).wf(),
            old(self).busy >= 1,
        ensures
            final(self).wf(),
            *final(self) == release_spec(*old(self)),
    {
        self.busy = self.busy - 1;
    }
}

/// Backpressure of the bounded pool: once all `size` workers are taken, a
/// further request is denied and the pool is left untouched (the request
/// waits; it is not dropped), and as soon as any one worker is released
/// the waiting request is granted.
pub proof fn lemma_pool_backpressure(p: WorkerPool)
    requires
        p.wf(),
        p.saturated(),
    ensures
        !acquire_spec(p).1,
        acquire_spec(p).0 == p,
        acquire_spec(release_spec(p)).1,
        acquire_spec(release_spec(p)).0.wf(),
        acquire_spec(release_spec(p)).0.saturated(),
{
}

/// While a worker is free, every request is granted at once: a pool of
/// `size` workers admits `size` concurrent forwards.
pub proof fn lemma_pool_admits(p: WorkerPool)
    requires
        p.wf(),
        !p.saturated(),
    ensures
        acquire_spec(p).1,
        acquire_spec(p).0.wf(),
        acquire_spec(p).0.busy == p.busy + 1,
{
}

/// The pool after `k` consecutive acquire requests.
pub open spec fn after_acquires(p: WorkerPool, k: nat) -> WorkerPool
    decreases k,
{
    if k == 0 {
        p
    } else {
        acquire_spec(after_acquires(p, (k - 1) as nat)).0
    }
}

/// Whether each of `k` consecutive acquire requests was granted.
pub open spec fn all_granted(p: WorkerPool, k: nat) -> bool
    decreases k,
{
    if k == 0 {
        true
    } else {
        all_granted(p, (k - 1) as nat) && acquire_spec(after_acquires(p, (k - 1) as nat)).1
    }
}

/// From an idle pool of `size` workers, `size` concurrent forwards are
/// all admitted at once, and only then is a further request made to wait
/// for a release: backpressure begins exactly at the pool bound.
pub proof fn lemma_pool_fills_to_size(p: WorkerPool, k: nat)
    requires
        p.wf(),
        p.busy == 0,
        k <= p.size,
    ensures
        all_granted(p, k),
        after_acquires(p, k).busy == k,
        after_acquires(p, k).size == p.size,
        after_acquires(p, k).wf(),
        k == p.size ==> !acquire_spec(after_acquires(p, k)).1,
    decreases k,
{
    if k > 0 {
        lemma_pool_fills_to_size(p, (k - 1) as nat);
    }
}

/// Whether `origin` is on the allow-list.
pub open spec fn origin_allowed(allowed: Seq<Seq<u8>>, origin: Seq<u8>) -> bool {
    exists|k: int| 0 <= k < allowed.len() && allowed[k] == origin
}

/// Checks the CORS allow-list. With an empty list every cross-origin
/// request is rejected.
pub fn cors_allows(allowed: &Vec<Vec<u8>>, origin: &Vec<u8>) -> (r: bool)
    ensures
        r == origin_allowed(allowed@.map_values(|v: Vec<u8>| v@), origin@),
{
    let ghost model = allowed@.map_values(|v: Vec<u8>| v@);
    let mut k: usize = 0;
    while k < allowed.len()
        invariant
            model == allowed@.map_values(|v: Vec<u8>| v@),
            model.len() == allowed@.len(),
            k <= allowed@.len(),
            forall|j: int| 0 <= j < k ==> model[j] != origin@,
        decreases allowed@.len() - k,
    {
        if bytes_eq(&allowed[k], origin) {
            proof {
                assert(model[k as int] == origin@);
            }
            return true;
        }
        k = k + 1;
    }
    false
}

/// Parses one ingest line, `timestamp|SEVERITY|machine|container|message`:
/// three wire-safe header fields, a severity name, and the message as the
/// rest of the line (which may itself contain `|`).
pub open spec fn parse_line_spec(line: Seq<u8>) -> Option<RecordShape> {
    match find_byte(line, 0x7c) {
        None => None,
        Some(p1) => {
            let ts = line.take(p1);
            let r1 = line.skip(p1 + 1);
            match find_byte(r1, 0x7c) {
                None => None,
                Some(p2) => {
                    let nm = r1.take(p2);
                    let r2 = r1.skip(p2 + 1);
                    match find_byte(r2, 0x7c) {
                        None => None,
                        Some(p3) => {
                            let mc = r2.take(p3);
                            let r3 = r2.skip(p3 + 1);
                            match find_byte(r3, 0x7c) {
                                None => None,
                                Some(p4) => {
                                    let ct = r3.take(p4);
                                    let msg = r3.skip(p4 + 1);
                                    match severity_of_name(nm) {
                                        None => None,
                                        Some(sev) => if header_field_ok(ts) && header_field_ok(mc)
                                            && header_field_ok(ct) {
                                            Some(
                                                RecordShape {
                                                    timestamp: ts,
                                                    severity: sev,
                                                    machine: mc,
                                                    container: ct,
                                                    message: msg,
                                                },
                                            )
                                        } else {
                                            None
                                        },
                                    }
                                },
                            }
                        },
                    }
                },
            }
        },
    }
}

/// Parses one ingest line into a record.
pub fn parse_line(line: &[u8]) -> (r: Option<LogRecord>)
    ensures
        match r {
            Some(rec) => parse_line_spec(line@) == Some(rec.shape()) && rec.wf(),
            None => parse_line_spec(line@) is None,
        },
{
    proof {
        crate::bytes::lemma_find_byte(line@, 0x7c);
    }
    let n = line.len();
    let p1 = match crate::bytes::find_byte_exec(line, 0x7c) {
        Some(p) => p,
        None => {
            return None;
        },
    };
    let ts = vstd::slice::slice_to_vec(vstd::slice::slice_subrange(line, 0, p1));
    let r1 = vstd::slice::slice_subrange(line, p1 + 1, n);
    proof {
        assert(ts@ =~= line@.take(p1 as int));
        assert(r1@ =~= line@.skip(p1 + 1));
        crate::bytes::lemma_find_byte(r1@, 0x7c);
    }
    let p2 = match crate::bytes::find_byte_exec(r1, 0x7c) {
        Some(p) => p,
        None => {
            return None;
        },
    };
    let nm = vstd::slice::slice_to_vec(vstd::slice::slice_subrange(r1, 0, p2));
    let r2 = vstd::slice::slice_subrange(r1, p2 + 1, r1.len());
    proof {
        assert(nm@ =~= r1@.take(p2 as int));
        assert(r2@ =~= r1@.skip(p2 + 1));
        crate::bytes::lemma_find_byte(r2@, 0x7c);
    }
    let p3 = match crate::bytes::find_byte_exec(r2, 0x7c) {
        Some(p) => p,
        None => {
            return None;
        },
    };
    let mc = vstd::slice::slice_to_vec(vstd::slice::slice_subrange(r2, 0, p3));
    let r3 = vstd::slice::slice_subrange(r2, p3 + 1, r2.len());
    proof {
        assert(mc@ =~= r2@.take(p3 as int));
        assert(r3@ =~= r2@.skip(p3 + 1));
        crate::bytes::lemma_find_byte(r3@, 0x7c);
    }
    let p4 = match crate::bytes::find_byte_exec(r3, 0x7c) {
        Some(p) => p,
        None => {
            return None;
        },
    };
    let ct = vstd::slice::slice_to_vec(vstd::slice::slice_subrange(r3, 0, p4));
    let msg = vstd::slice::slice_to_vec(vstd::slice::slice_subrange(r3, p4 + 1, r3.len()));
    proof {
        assert(ct@ =~= r3@.take(p4 as int));
        assert(msg@ =~= r3@.skip(p4 + 1));
    }
    let sev = match crate::severity::severity_from_name(&nm) {
        Some(v) => v,
        None => {
            return None;
        },
    };
    if crate::record::header_field_check(&ts) && crate::record::header_field_check(&mc)
        && crate::record::header_field_check(&ct) {
        Some(
            LogRecord {
                timestamp: ts,
                severity: sev,
                message: msg,
                machine_name: mc,
                container_name: ct,
            },
        )
    } else {
        None
    }
}

/// The canonical ingest line for a record.
pub open spec fn ingest_line(r: RecordShape) -> Seq<u8> {
    r.timestamp + seq![0x7cu8] + crate::severity::severity_name(r.severity) + seq![0x7cu8]
        + r.machine + seq![0x7cu8] + r.container + seq![0x7cu8] + r.message
}

/// Parsing inverts the canonical ingest line: every record with wire-safe
/// header fields comes back exactly, message bytes untouched (the message
/// may itself contain `|`).
pub proof fn lemma_ingest_line_round_trip(r: RecordShape)
    requires
        header_field_ok(r.timestamp),
        header_field_ok(r.machine),
        header_field_ok(r.container),
    ensures
        parse_line_spec(ingest_line(r)) == Some(r),
{
    let pipe: u8 = 0x7c;
    let name = crate::severity::severity_name(r.severity);
    crate::severity::lemma_severity_name_printable(r.severity);
    crate::severity::lemma_severity_name_round_trip(r.severity);
    let line = ingest_line(r);

    let rest0 = name + seq![pipe] + r.machine + seq![pipe] + r.container + seq![pipe] + r.message;
    crate::bytes::lemma_find_byte(r.timestamp, pipe);
    assert(line =~= r.timestamp + seq![pipe] + rest0);
    crate::bytes::lemma_find_byte_at_sep(r.timestamp, pipe, rest0);
    assert(find_byte(line, pipe) == Some(r.timestamp.len() as int));
    assert(line.take(r.timestamp.len() as int) =~= r.timestamp);
    assert(line.skip(r.timestamp.len() as int + 1) =~= rest0);

    let rest1 = r.machine + seq![pipe] + r.container + seq![pipe] + r.message;
    assert(rest0 =~= name + seq![pipe] + rest1);
    crate::bytes::lemma_find_byte_at_sep(name, pipe, rest1);
    assert(rest0.take(name.len() as int) =~= name);
    assert(rest0.skip(name.len() as int + 1) =~= rest1);

    let rest2 = r.container + seq![pipe] + r.message;
    assert(rest1 =~= r.machine + seq![pipe] + rest2);
    crate::bytes::lemma_find_byte(r.machine, pipe);
    crate::bytes::lemma_find_byte_at_sep(r.machine, pipe, rest2);
    assert(rest1.take(r.machine.len() as int) =~= r.machine);
    assert(rest1.skip(r.machine.len() as int + 1) =~= rest2);

    crate::bytes::lemma_find_byte(r.container, pipe);
    crate::bytes::lemma_find_byte_at_sep(r.container, pipe, r.message);
    assert(rest2.take(r.container.len() as int) =~= r.container);
    assert(rest2.skip(r.container.len() as int + 1) =~= r.message);
}

/// Parses a whole submission: newline-separated ingest lines, a single
/// line, or an empty body (zero records). `None` means malformed: some
/// line does not parse.
pub open spec fn parse_submission(body: Seq<u8>) -> Option<Seq<RecordShape>>
    decreases body.len(),
{
    if body.len() == 0 {
        Some(Seq::empty())
    } else {
        match find_byte(body, 0x0a) {
            None => match parse_line_spec(body) {
                Some(r) => Some(seq![r]),
                None => None,
            },
            Some(p) => if 0 <= p < body.len() {
                match parse_line_spec(body.take(p)) {
                    None => None,
                    Some(r) => match parse_submission(body.skip(p + 1)) {
                        Some(rs) => Some(seq![r] + rs),
                        None => None,
                    },
                }
            } else {
                None
            },
        }
    }
}

/// The shapes of a vector of records.
pub open spec fn shapes_of(v: Seq<LogRecord>) -> Seq<RecordShape> {
    v.map_values(|rec: LogRecord| rec.shape())
}

/// Parses a whole submission into records.
pub fn parse_submission_exec(body: &[u8]) -> (r: Option<Vec<LogRecord>>)
    ensures
        match r {
            Some(v) => parse_submission(body@) == Some(shapes_of(v@)) && forall|k: int|
                0 <= k < v@.len() ==> (#[trigger] v@[k]).wf(),
            None => parse_submission(body@) is None,
        },
    decreases body@.len(),
{
    let n = body.len();
    if n == 0 {
        let out: Vec<LogRecord> = Vec::new();
        proof {
            assert(shapes_of(out@) =~= Seq::<RecordShape>::empty());
        }
        return Some(out);
    }
    match crate::bytes::find_byte_exec(body, 0x0a) {
        None => {
            match parse_line(body) {
                Some(rec) => {
                    let ghost sh = rec.shape();
                    let mut out: Vec<LogRecord> = Vec::new();
                    out.push(rec);
                    proof {
                        assert(shapes_of(out@) =~= seq![sh]);
                    }
                    Some(out)
                },
                None => None,
            }
        },
        Some(p) => {
            proof {
                crate::bytes::lemma_find_byte(body@, 0x0a);
            }
            let first = vstd::slice::slice_subrange(body, 0, p);
            proof {
                assert(first@ =~= body@.take(p as int));
            }
            match parse_line(first) {
                None => None,
                Some(rec) => {
                    let rest = vstd::slice::slice_subrange(body, p + 1, n);
                    proof {
                        assert(rest@ =~= body@.skip(p + 1));
                    }
                    match parse_submission_exec(rest) {
                        None => None,
                        Some(v) => {
                            let ghost sh = rec.shape();
                            let ghost tail_shapes = shapes_of(v@);
                            let mut out: Vec<LogRecord> = Vec::new();
                            out.push(rec);
                            let mut tail = v;
                            out.append(&mut tail);
                            proof {
                                assert(shapes_of(out@) =~= seq![sh] + tail_shapes);
                            }
                            Some(out)
                        },
                    }
                },
            }
        },
    }
}

/// The forward bodies for a parsed submission: each record rendered in the
/// output format, records the format cannot carry dropped locally.
pub open spec fn forwards_for(rs: Seq<RecordShape>, f: NetworkFormat) -> Seq<Seq<u8>>
    decreases rs.len(),
{
    if rs.len() == 0 {
        Seq::empty()
    } else {
        (match render_spec(rs[0], f) {
            Ok(b) => seq![b],
            Err(_) => Seq::<Seq<u8>>::empty(),
        }) + forwards_for(rs.skip(1), f)
    }
}

/// `forwards_for` distributes over concatenation.
pub proof fn lemma_forwards_append(a: Seq<RecordShape>, b: Seq<RecordShape>, f: NetworkFormat)
    ensures
        forwards_for(a + b, f) == forwards_for(a, f) + forwards_for(b, f),
    decreases a.len(),
{
    if a.len() == 0 {
        assert(a + b =~= b);
        assert(forwards_for(a, f) + forwards_for(b, f) =~= forwards_for(b, f));
    } else {
        lemma_forwards_append(a.skip(1), b, f);
        assert((a + b).skip(1) =~= a.skip(1) + b);
        assert((a + b)[0] == a[0]);
        let head = match render_spec(a[0], f) {
            Ok(bb) => seq![bb],
            Err(_) => Seq::<Seq<u8>>::empty(),
        };
        assert(head + (forwards_for(a.skip(1), f) + forwards_for(b, f)) =~= (head + forwards_for(
            a.skip(1),
            f,
        )) + forwards_for(b, f));
    }
}

/// Renders each record in the output format, dropping the ones the format
/// cannot carry.
pub fn render_forwards(records: &Vec<LogRecord>, f: &NetworkFormat) -> (out: Vec<Vec<u8>>)
    requires
        forall|k: int| 0 <= k < records@.len() ==> (#[trigger] records@[k]).wf(),
    ensures
        out@.map_values(|b: Vec<u8>| b@) == forwards_for(shapes_of(records@), *f),
{
    let ghost all = shapes_of(records@);
    let mut out: Vec<Vec<u8>> = Vec::new();
    let mut i: usize = 0;
    proof {
        assert(all.take(0) =~= Seq::<RecordShape>::empty());
        assert(out@.map_values(|b: Vec<u8>| b@) =~= forwards_for(all.take(0), *f));
    }
    while i < records.len()
        invariant
            i <= records@.len(),
            all == shapes_of(records@),
            all.len() == records@.len(),
            forall|k: int| 0 <= k < records@.len() ==> (#[trigger] records@[k]).wf(),
            out@.map_values(|b: Vec<u8>| b@) == forwards_for(all.take(i as int), *f),
        decreases records@.len() - i,
    {
        let ghost pre = all.take(i as int);
        let ghost one = seq![all[i as int]];
        match render(&records[i], f) {
            Ok(b) => {
                out.push(b);
            },
            Err(_) => {},
        }
        proof {
            assert(pre + one =~= all.take(i + 1));
            lemma_forwards_append(pre, one, *f);
            assert(one.skip(1) =~= Seq::<RecordShape>::empty());
            assert(forwards_for(one.skip(1), *f) =~= Seq::<Seq<u8>>::empty());
            let head = match render_spec(one[0], *f) {
                Ok(bb) => seq![bb],
                Err(_) => Seq::<Seq<u8>>::empty(),
            };
            assert(forwards_for(one, *f) =~= head);
            assert(out@.map_values(|b: Vec<u8>| b@) =~= forwards_for(all.take(i + 1), *f));
        }
        i = i + 1;
    }
    proof {
        assert(all.take(all.len() as int) =~= all);
    }
    out
}

/// The relay's answer to one inbound submission.
pub enum IngestOutcome {
    /// Accepted for forwarding; these are the prepared forward bodies.
    /// Delivery upstream is best-effort, not guaranteed.
    Accepted(Vec<Vec<u8>>),
    /// Rejected: the request's origin is not on the CORS allow-list.
    CorsRejected,
    /// Rejected: the submission payload does not parse.
    Malformed,
}

/// A cross-origin request whose origin is off the allow-list is rejected.
pub open spec fn cors_rejects(allowed: Seq<Seq<u8>>, origin: Option<Seq<u8>>) -> bool {
    match origin {
        Some(o) => !origin_allowed(allowed, o),
        None => false,
    }
}

/// One relay instance: read-only settings, a lifecycle phase, and the
/// bounded worker pool for outbound forwards.
pub struct Relay {
    pub settings: RelaySettings,
    pub phase: RelayPhase,
    pub pool: WorkerPool,
}

impl Relay {
    /// Well-formedness: valid settings and a pool of exactly the
    /// configured size.
    pub open spec fn wf(&self) -> bool {
        self.settings.wf() && self.pool.wf() && self.pool.size == self.settings.workers
    }

    /// The allow-list as a sequence of byte strings.
    pub open spec fn allowed_model(&self) -> Seq<Seq<u8>> {
        self.settings.cors_allowed_origins@.map_values(|v: Vec<u8>| v@)
    }

    /// Builds a relay in its `Starting` phase. Rejects ill-formed
    /// settings immediately; it never runs without a valid configuration.
    pub fn new(settings: RelaySettings) -> (r: Result<Relay, RelayError>)
        ensures
            match r {
                Ok(rel) => settings.wf() && rel.wf() && rel.settings == settings && rel.phase
                    == RelayPhase::Starting && rel.pool.busy == 0,
                Err(e) => !settings.wf() && e == RelayError::InvalidSettings,
            },
    {
        if !settings.check() {
            return Err(RelayError::InvalidSettings);
        }
        let pool = WorkerPool::new(settings.workers);
        Ok(Relay { settings, phase: RelayPhase::Starting, pool })
    }

    /// Consumes the caller's report of binding the listen address. On
    /// success the relay is `Listening`; a bind failure is fatal and the
    /// relay never silently continues without a bound listener.
    pub fn begin_listen(&mut self, bound: bool) -> (r: Result<(), RelayError>)
        requires
            old(self).wf(),
            old(self).phase == RelayPhase::Starting,
        ensures
            final(self).wf(),
            final(self).settings == old(self).settings,
            final(self).pool == old(self).pool,
            bound ==> r is Ok && final(self).phase == RelayPhase::Listening,
            !bound ==> r == Err::<(), RelayError>(RelayError::BindFailed) && final(self).phase
                == RelayPhase::Failed,
    {
        if bound {
            self.phase = RelayPhase::Listening;
            Ok(())
        } else {
            self.phase = RelayPhase::Failed;
            Err(RelayError::BindFailed)
        }
    }

    /// Answers one inbound submission: CORS first, then parsing, then one
    /// prepared forward body per record the output format can carry.
    pub fn handle_ingest(&self, origin: &Option<Vec<u8>>, body: &[u8]) -> (r: IngestOutcome)
        requires
            self.wf(),
            self.phase == RelayPhase::Listening,
        ensures
            match r {
                IngestOutcome::CorsRejected => cors_rejects(
                    self.allowed_model(),
                    match origin {
                        Some(o) => Some(o@),
                        None => None,
                    },
                ),
                IngestOutcome::Malformed => !cors_rejects(
                    self.allowed_model(),
                    match origin {
                        Some(o) => Some(o@),
                        None => None,
                    },
                ) && parse_submission(body@) is None,
                IngestOutcome::Accepted(bodies) => !cors_rejects(
                    self.allowed_model(),
                    match origin {
                        Some(o) => Some(o@),
                        None => None,
                    },
                ) && match parse_submission(body@) {
                    Some(rs) => bodies@.map_values(|b: Vec<u8>| b@) == forwards_for(
                        rs,
                        self.settings.output_format,
                    ),
                    None => false,
                },
            },
    {
        match origin {
            Some(o) => {
                if !cors_allows(&self.settings.cors_allowed_origins, o) {
                    return IngestOutcome::CorsRejected;
                }
            },
            None => {},
        }
        match parse_submission_exec(body) {
            None => IngestOutcome::Malformed,
            Some(records) => {
                let bodies = render_forwards(&records, &self.settings.output_format);
                IngestOutcome::Accepted(bodies)
            },
        }
    }

    /// Consumes the terminal condition of the caller's accept loop: the
    /// relay ends `Stopped` on a clean stop and `Failed` on a fault, and
    /// the returned result is the sole signal the driver acts on.
    pub fn finish(&mut self, fault: Option<RelayError>) -> (r: Result<(), RelayError>)
        requires
            old(self).phase == RelayPhase::Listening,
        ensures
            final(self).settings == old(self).settings,
            final(self).pool == old(self).pool,
            match fault {
                None => final(self).phase == RelayPhase::Stopped && r is Ok,
                Some(e) => final(self).phase == RelayPhase::Failed && r == Err::<(), RelayError>(e),
            },
    {
        match fault {
            None => {
                self.phase = RelayPhase::Stopped;
                Ok(())
            },
            Some(e) => {
                self.phase = RelayPhase::Failed;
                Err(e)
            },
        }
    }
}

} // verus!
