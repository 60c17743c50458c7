use vstd::prelude::*;

use std::collections::HashMap;

use crate::builder::{
    builder_wf, spec_build, spec_fresh_builder, spec_record_str, spec_record_u64, BuilderModel,
    Span, SpanBuilder, SpanModel,
};
use crate::context::{spec_stack_current, ContextStack};
use crate::runtime::{generate_id, now_unix_ns};
use crate::span::{ServiceName, SpanMetaKey, SpanName, SpanType};
use crate::strutil::str_eq;

verus! {

broadcast use vstd::std_specs::hash::group_hash_axioms;

// ---------------------------------------------------------------------------
// The name -> (service, kind) mapping
// ---------------------------------------------------------------------------

/// The map denoted by a sequence of mapping entries, later entries winning.
pub open spec fn map_of_mapping_pairs(s: Seq<(SpanName, (ServiceName, SpanType))>) -> Map<
    Seq<char>,
    (Seq<char>, SpanType),
>
    decreases s.len(),
{
    if s.len() == 0 {
        Map::empty()
    } else {
        map_of_mapping_pairs(s.drop_last()).insert(
            s.last().0@,
            (s.last().1.0@, s.last().1.1),
        )
    }
}

proof fn lemma_mapping_pairs_last_match(
    s: Seq<(SpanName, (ServiceName, SpanType))>,
    k: Seq<char>,
    idx: int,
)
    requires
        0 <= idx < s.len(),
        s[idx].0@ == k,
        forall|j: int| idx < j < s.len() ==> s[j].0@ != k,
    ensures
        map_of_mapping_pairs(s).contains_key(k),
        map_of_mapping_pairs(s)[k] == (s[idx].1.0@, s[idx].1.1),
    decreases s.len(),
{
    if idx == s.len() - 1 {
    } else {
        assert(forall|j: int| idx < j < s.drop_last().len() ==> s.drop_last()[j].0@ != k);
        assert(s.drop_last()[idx] == s[idx]);
        lemma_mapping_pairs_last_match(s.drop_last(), k, idx);
        assert(s.last().0@ != k);
    }
}

proof fn lemma_mapping_pairs_no_match(s: Seq<(SpanName, (ServiceName, SpanType))>, k: Seq<char>)
    requires
        forall|j: int| 0 <= j < s.len() ==> s[j].0@ != k,
    ensures
        !map_of_mapping_pairs(s).contains_key(k),
    decreases s.len(),
{
    if s.len() > 0 {
        assert(forall|j: int| 0 <= j < s.drop_last().len() ==> s.drop_last()[j].0@ != k);
        lemma_mapping_pairs_no_match(s.drop_last(), k);
        assert(s.last().0@ != k);
    }
}

/// The immutable name -> (service, kind) table built at startup: the single
/// source of truth for whether a named instrumentation point is traced.
#[derive(Debug)]
pub struct TracingSubscriberDatadogConfig {
    pairs: Vec<(SpanName, (ServiceName, SpanType))>,
}

impl View for TracingSubscriberDatadogConfig {
    type V = Map<Seq<char>, (Seq<char>, SpanType)>;

    closed spec fn view(&self) -> Map<Seq<char>, (Seq<char>, SpanType)> {
        map_of_mapping_pairs(self.pairs@)
    }
}

impl TracingSubscriberDatadogConfig {
    pub fn new() -> (r: Self)
        ensures
            r@ == Map::<Seq<char>, (Seq<char>, SpanType)>::empty(),
    {
        TracingSubscriberDatadogConfig { pairs: Vec::new() }
    }

    pub fn add_mapping(self, key: SpanName, value: (ServiceName, SpanType)) -> (r: Self)
        ensures
            r@ == self@.insert(key@, (value.0@, value.1)),
    {
        let mut pairs = self.pairs;
        let ghost before = pairs@;
        pairs.push((key, value));
        proof {
            assert(pairs@.drop_last() =~= before);
        }
        TracingSubscriberDatadogConfig { pairs }
    }

    /// The (service, kind) registered for a name, if the name is enabled.
    pub fn lookup(&self, name: &str) -> (r: Option<(String, SpanType)>)
        ensures
            match r {
                Some(p) => self@.contains_key(name@) && self@[name@] == (p.0@, p.1),
                None => !self@.contains_key(name@),
            },
    {
        let mut i: usize = self.pairs.len();
        while i > 0
            invariant
                i <= self.pairs.len(),
                forall|j: int| i <= j < self.pairs@.len() ==> self.pairs@[j].0@ != name@,
            decreases i,
        {
            i = i - 1;
            if str_eq(self.pairs[i].0.0.as_str(), name) {
                proof {
                    lemma_mapping_pairs_last_match(self.pairs@, name@, i as int);
                }
                return Some((self.pairs[i].1.0.0.clone(), self.pairs[i].1.1));
            }
        }
        proof {
            lemma_mapping_pairs_no_match(self.pairs@, name@);
        }
        None
    }
}

impl Default for TracingSubscriberDatadogConfig {
    fn default() -> (r: Self)
        ensures
            r@ == Map::<Seq<char>, (Seq<char>, SpanType)>::empty(),
    {
        TracingSubscriberDatadogConfig::new()
    }
}

// ---------------------------------------------------------------------------
// The engine state, mathematically
// ---------------------------------------------------------------------------

/// The mathematical state of the lifecycle engine: the mapping, the span
/// table triple (builders, static names, reference counts, kept in
/// lock-step), the queue of finalized spans awaiting export, the three fixed
/// process tags, and a count of bookkeeping faults reported so far.
pub struct EngineState {
    pub mappings: Map<Seq<char>, (Seq<char>, SpanType)>,
    pub builders: Map<u64, BuilderModel>,
    pub metadata: Map<u64, Seq<char>>,
    pub ref_counts: Map<u64, u32>,
    pub exports: Seq<SpanModel>,
    pub env_tag: Seq<char>,
    pub service_tag: Seq<char>,
    pub version_tag: Seq<char>,
    pub faults: u64,
}

/// The span table keeps its three maps over one key space, every stored
/// builder has non-zero identifiers, and every reference count is at least 1.
pub open spec fn state_wf(s: EngineState) -> bool {
    &&& forall|id: u64| #[trigger] s.builders.contains_key(id) ==> builder_wf(s.builders[id])
    &&& s.builders.dom() == s.metadata.dom()
    &&& s.builders.dom() == s.ref_counts.dom()
    &&& forall|id: u64| #[trigger] s.ref_counts.contains_key(id) ==> s.ref_counts[id] >= 1
}

pub open spec fn spec_bump(f: u64) -> u64 {
    if f == u64::MAX {
        f
    } else {
        (f + 1) as u64
    }
}

pub open spec fn spec_bump32(c: u32) -> u32 {
    if c == u32::MAX {
        c
    } else {
        (c + 1) as u32
    }
}

/// The builder a `start` allocates: fresh identifiers and start instant, the
/// mapping's service and kind, the three fixed process tags, and — when a
/// span is active on the calling context — that span as parent, inheriting
/// its trace identifier when its builder is still in the table.
pub open spec fn spec_start_builder(
    s: EngineState,
    name: Seq<char>,
    current: Option<u64>,
    sid: u64,
    tid: u64,
    now: u64,
) -> BuilderModel
    recommends
        s.mappings.contains_key(name),
{
    let service = s.mappings[name].0;
    let ty = s.mappings[name].1;
    let b0 = BuilderModel {
        name: name,
        service: service,
        span_type: ty,
        meta: Map::empty().insert("service"@, s.service_tag).insert("env"@, s.env_tag).insert(
            "version"@,
            s.version_tag,
        ),
        ..spec_fresh_builder(sid, tid, now)
    };
    match current {
        None => b0,
        Some(pid) => {
            let b1 = BuilderModel { parent_id: Some(pid), ..b0 };
            if s.builders.contains_key(pid) {
                BuilderModel { trace_id: s.builders[pid].trace_id, ..b1 }
            } else {
                b1
            }
        },
    }
}

/// What `start` does to the engine: the one place a span identifier enters
/// the table, in all three maps at once, with a reference count of 1.
pub open spec fn spec_new_span(
    s: EngineState,
    name: Seq<char>,
    current: Option<u64>,
    sid: u64,
    tid: u64,
    now: u64,
) -> EngineState {
    EngineState {
        builders: s.builders.insert(sid, spec_start_builder(s, name, current, sid, tid, now)),
        metadata: s.metadata.insert(sid, name),
        ref_counts: s.ref_counts.insert(sid, 1),
        ..s
    }
}

/// Recording one string field on the span with the given identifier: absent
/// builders make it a no-op (the span may already be finalized — not an
/// error); a refused write is counted as a fault.
pub open spec fn spec_record_str_at(
    s: EngineState,
    id: u64,
    field: Seq<char>,
    value: Seq<char>,
) -> EngineState {
    if s.builders.contains_key(id) {
        let b2 = spec_record_str(s.builders[id], field, value).0;
        let fault = spec_record_str(s.builders[id], field, value).1;
        EngineState {
            builders: s.builders.insert(id, b2),
            faults: if fault {
                spec_bump(s.faults)
            } else {
                s.faults
            },
            ..s
        }
    } else {
        s
    }
}

/// Recording one unsigned-integer field, as `spec_record_str_at`.
pub open spec fn spec_record_u64_at(s: EngineState, id: u64, field: Seq<char>, value: u64) -> EngineState {
    if s.builders.contains_key(id) {
        let b2 = spec_record_u64(s.builders[id], field, value).0;
        let fault = spec_record_u64(s.builders[id], field, value).1;
        EngineState {
            builders: s.builders.insert(id, b2),
            faults: if fault {
                spec_bump(s.faults)
            } else {
                s.faults
            },
            ..s
        }
    } else {
        s
    }
}

/// What `clone_ref` does: one more logical owner of the identifier; a missing
/// entry is a fault, and the identifier is handed back unchanged either way.
pub open spec fn spec_clone_span(s: EngineState, id: u64) -> EngineState {
    if s.ref_counts.contains_key(id) {
        EngineState { ref_counts: s.ref_counts.insert(id, spec_bump32(s.ref_counts[id])), ..s }
    } else {
        EngineState { faults: spec_bump(s.faults), ..s }
    }
}

/// What `try_close` does at instant `now`. A missing entry or a count
/// already at zero is a fault and the span stays as it is. A count above one
/// is decremented. A count of exactly one is the finalizing close: the
/// builder leaves the table, is finalized at `now` and queued for export,
/// and the metadata and reference-count entries leave with it; only this
/// branch answers `true`, and it is the only producer of an exported span.
pub open spec fn spec_try_close(s: EngineState, id: u64, now: u64) -> (EngineState, bool) {
    if !s.ref_counts.contains_key(id) {
        (EngineState { faults: spec_bump(s.faults), ..s }, false)
    } else {
        let rc = s.ref_counts[id];
        if rc == 0 {
            (EngineState { faults: spec_bump(s.faults), ..s }, false)
        } else if rc == 1 {
            let s1 = if s.builders.contains_key(id) {
                EngineState {
                    exports: s.exports.push(spec_build(s.builders[id], now)),
                    builders: s.builders.remove(id),
                    ..s
                }
            } else {
                EngineState { faults: spec_bump(s.faults), ..s }
            };
            (
                EngineState {
                    metadata: s1.metadata.remove(id),
                    ref_counts: s1.ref_counts.remove(id),
                    ..s1
                },
                true,
            )
        } else {
            (EngineState { ref_counts: s.ref_counts.insert(id, (rc - 1) as u32), ..s }, false)
        }
    }
}

// ---------------------------------------------------------------------------
// View plumbing
// ---------------------------------------------------------------------------

pub open spec fn builders_model(m: Map<u64, SpanBuilder>) -> Map<u64, BuilderModel> {
    Map::new(|id: u64| m.contains_key(id), |id: u64| m[id]@)
}

pub open spec fn metadata_model(m: Map<u64, String>) -> Map<u64, Seq<char>> {
    Map::new(|id: u64| m.contains_key(id), |id: u64| m[id]@)
}

pub open spec fn exports_model(q: Seq<Span>) -> Seq<SpanModel> {
    Seq::new(q.len(), |i: int| q[i]@)
}

proof fn lemma_builders_model_insert(m: Map<u64, SpanBuilder>, k: u64, v: SpanBuilder)
    ensures
        builders_model(m.insert(k, v)) == builders_model(m).insert(k, v@),
{
    assert(builders_model(m.insert(k, v)) =~= builders_model(m).insert(k, v@));
}

proof fn lemma_builders_model_remove(m: Map<u64, SpanBuilder>, k: u64)
    ensures
        builders_model(m.remove(k)) == builders_model(m).remove(k),
{
    assert(builders_model(m.remove(k)) =~= builders_model(m).remove(k));
}

proof fn lemma_metadata_model_insert(m: Map<u64, String>, k: u64, v: String)
    ensures
        metadata_model(m.insert(k, v)) == metadata_model(m).insert(k, v@),
{
    assert(metadata_model(m.insert(k, v)) =~= metadata_model(m).insert(k, v@));
}

proof fn lemma_metadata_model_remove(m: Map<u64, String>, k: u64)
    ensures
        metadata_model(m.remove(k)) == metadata_model(m).remove(k),
{
    assert(metadata_model(m.remove(k)) =~= metadata_model(m).remove(k));
}

// ---------------------------------------------------------------------------
// The lifecycle engine
// ---------------------------------------------------------------------------

/// The span-lifecycle engine: tracks in-flight span builders, their static
/// names and their reference counts under one key space, finalizes each span
/// exactly once when its last owner releases it, and queues the finished
/// record for asynchronous export. Faults (mismatched exits, double closes,
/// unknown identifiers, refused field writes) are counted, never surfaced as
/// errors: telemetry must stay transparent to the instrumented application.
#[derive(Debug)]
pub struct TracingSubscriberDatadog {
    mappings: TracingSubscriberDatadogConfig,
    span_builders: HashMap<u64, SpanBuilder>,
    span_metadata: HashMap<u64, String>,
    span_ref_count: HashMap<u64, u32>,
    export_queue: Vec<Span>,
    dd_env: String,
    dd_service: String,
    dd_version: String,
    fault_count: u64,
}

impl View for TracingSubscriberDatadog {
    type V = EngineState;

    closed spec fn view(&self) -> EngineState {
        EngineState {
            mappings: self.mappings@,
            builders: builders_model(self.span_builders@),
            metadata: metadata_model(self.span_metadata@),
            ref_counts: self.span_ref_count@,
            exports: exports_model(self.export_queue@),
            env_tag: self.dd_env@,
            service_tag: self.dd_service@,
            version_tag: self.dd_version@,
            faults: self.fault_count,
        }
    }
}

impl TracingSubscriberDatadog {
    /// A fresh engine over the given mapping and process tags, with nothing
    /// in flight.
    pub fn new(
        config: TracingSubscriberDatadogConfig,
        dd_env: String,
        dd_service: String,
        dd_version: String,
    ) -> (r: Self)
        ensures
            r@ == (EngineState {
                mappings: config@,
                builders: Map::<u64, BuilderModel>::empty(),
                metadata: Map::<u64, Seq<char>>::empty(),
                ref_counts: Map::<u64, u32>::empty(),
                exports: Seq::<SpanModel>::empty(),
                env_tag: dd_env@,
                service_tag: dd_service@,
                version_tag: dd_version@,
                faults: 0,
            }),
            state_wf(r@),
    {
        let r = TracingSubscriberDatadog {
            mappings: config,
            span_builders: HashMap::new(),
            span_metadata: HashMap::new(),
            span_ref_count: HashMap::new(),
            export_queue: Vec::new(),
            dd_env: dd_env,
            dd_service: dd_service,
            dd_version: dd_version,
            fault_count: 0,
        };
        proof {
            assert(builders_model(r.span_builders@) =~= Map::<u64, BuilderModel>::empty());
            assert(metadata_model(r.span_metadata@) =~= Map::<u64, Seq<char>>::empty());
            assert(exports_model(r.export_queue@) =~= Seq::<SpanModel>::empty());
            assert(r@.builders.dom() =~= r@.metadata.dom());
            assert(r@.builders.dom() =~= r@.ref_counts.dom());
        }
        r
    }

    fn bump_fault(&mut self)
        ensures
            final(self)@ == (EngineState { faults: spec_bump(old(self)@.faults), ..old(self)@ }),
    {
        if self.fault_count < u64::MAX {
            self.fault_count = self.fault_count + 1;
        }
    }

    /// How many bookkeeping faults the engine has reported so far.
    pub fn fault_count(&self) -> (r: u64)
        ensures
            r == self@.faults,
    {
        self.fault_count
    }

    /// Whether the named instrumentation point is traced at all: the cheap
    /// pre-filter consulted before any bookkeeping is paid for.
    pub fn enabled(&self, name: &str) -> (r: bool)
        ensures
            r == self@.mappings.contains_key(name@),
    {
        match self.mappings.lookup(name) {
            Some(_) => true,
            None => false,
        }
    }

    /// Whether the identifier is registered in the span table.
    pub fn is_open(&self, id: u64) -> (r: bool)
        ensures
            r == self@.ref_counts.contains_key(id),
    {
        self.span_ref_count.contains_key(&id)
    }

    /// Starts a span deterministically from the given fresh identifiers and
    /// start instant; `new_span` draws them and delegates here.
    pub fn new_span_at(
        &mut self,
        ctx: &ContextStack,
        name: &str,
        sid: u64,
        tid: u64,
        now: u64,
    ) -> (r: u64)
        requires
            state_wf(old(self)@),
            old(self)@.mappings.contains_key(name@),
            ctx.wf(),
            sid != 0,
            tid != 0,
        ensures
            r == sid,
            final(self)@ == spec_new_span(
                old(self)@,
                name@,
                spec_stack_current(ctx@),
                sid,
                tid,
                now,
            ),
            state_wf(final(self)@),
    {
        let ghost pre = self@;
        let mut b = SpanBuilder::new_at(sid, tid, now);
        let looked = self.mappings.lookup(name);
        let (service, ty) = looked.unwrap();
        b.span_type(ty);
        b.service(ServiceName(service));
        b.name(SpanName(name.to_owned()));
        b.add_meta(SpanMetaKey::Service, self.dd_service.clone());
        b.add_meta(SpanMetaKey::Env, self.dd_env.clone());
        b.add_meta(SpanMetaKey::Version, self.dd_version.clone());
        match ctx.current_span_id() {
            Some(pid) => {
                proof {
                    assert(ctx@[ctx@.len() - 1] != 0);
                }
                match self.span_builders.get(&pid) {
                    Some(pb) => {
                        let ptid = pb.trace_id;
                        proof {
                            assert(pre.builders.contains_key(pid));
                            assert(builder_wf(pre.builders[pid]));
                        }
                        b.trace_id(ptid);
                    },
                    None => {},
                }
                b.parent_id(pid);
            },
            None => {},
        }
        proof {
            assert(b@ == spec_start_builder(pre, name@, spec_stack_current(ctx@), sid, tid, now));
        }
        let owned_name = name.to_owned();
        self.span_builders.insert(sid, b);
        self.span_metadata.insert(sid, owned_name);
        self.span_ref_count.insert(sid, 1);
        proof {
            lemma_builders_model_insert(old(self).span_builders@, sid, b);
            lemma_metadata_model_insert(old(self).span_metadata@, sid, owned_name);
            let post = spec_new_span(pre, name@, spec_stack_current(ctx@), sid, tid, now);
            assert(self@.builders =~= post.builders);
            assert(self@.metadata =~= post.metadata);
            assert(self@.ref_counts =~= post.ref_counts);
            assert(self@.builders.dom() =~= self@.metadata.dom());
            assert(self@.builders.dom() =~= self@.ref_counts.dom());
        }
        sid
    }

    /// Starts a span: allocates fresh random non-zero identifiers, stamps the
    /// current instant, and registers the builder. The returned identifier is
    /// never zero. Only to be called for enabled names.
    pub fn new_span(&mut self, ctx: &ContextStack, name: &str) -> (r: u64)
        requires
            state_wf(old(self)@),
            old(self)@.mappings.contains_key(name@),
            ctx.wf(),
        ensures
            r != 0,
            exists|sid: u64, tid: u64, now: u64|
                {
                    &&& sid != 0
                    &&& tid != 0
                    &&& r == sid
                    &&& final(self)@ == spec_new_span(
                        old(self)@,
                        name@,
                        spec_stack_current(ctx@),
                        sid,
                        tid,
                        now,
                    )
                },
            state_wf(final(self)@),
    {
        let sid = generate_id();
        let tid = generate_id();
        let now = now_unix_ns();
        self.new_span_at(ctx, name, sid, tid, now)
    }

    /// Records one string field on the identified span; a missing builder
    /// makes this a no-op.
    pub fn record_str(&mut self, id: u64, field: &str, value: &str)
        requires
            state_wf(old(self)@),
        ensures
            final(self)@ == spec_record_str_at(old(self)@, id, field@, value@),
            state_wf(final(self)@),
    {
        let ghost pre = self@;
        let b_opt = self.span_builders.remove(&id);
        match b_opt {
            None => {
                proof {
                    assert(old(self).span_builders@.remove(id) =~= old(self).span_builders@);
                }
            },
            Some(mut b) => {
                let fault = b.record_str(field, value);
                self.span_builders.insert(id, b);
                if fault {
                    self.bump_fault();
                }
                proof {
                    lemma_builders_model_remove(old(self).span_builders@, id);
                    lemma_builders_model_insert(old(self).span_builders@.remove(id), id, b);
                    let post = spec_record_str_at(pre, id, field@, value@);
                    assert(self@.builders =~= post.builders);
                    assert(self@.builders.dom() =~= pre.builders.dom());
                }
            },
        }
    }

    /// Records one unsigned-integer field on the identified span; a missing
    /// builder makes this a no-op.
    pub fn record_u64(&mut self, id: u64, field: &str, value: u64)
        requires
            state_wf(old(self)@),
        ensures
            final(self)@ == spec_record_u64_at(old(self)@, id, field@, value),
            state_wf(final(self)@),
    {
        let ghost pre = self@;
        let b_opt = self.span_builders.remove(&id);
        match b_opt {
            None => {
                proof {
                    assert(old(self).span_builders@.remove(id) =~= old(self).span_builders@);
                }
            },
            Some(mut b) => {
                let fault = b.record_u64(field, value);
                self.span_builders.insert(id, b);
                if fault {
                    self.bump_fault();
                }
                proof {
                    lemma_builders_model_remove(old(self).span_builders@, id);
                    lemma_builders_model_insert(old(self).span_builders@.remove(id), id, b);
                    let post = spec_record_u64_at(pre, id, field@, value);
                    assert(self@.builders =~= post.builders);
                    assert(self@.builders.dom() =~= pre.builders.dom());
                }
            },
        }
    }

    /// Records one string field of an event: onto the explicitly targeted
    /// span if one is given, otherwise onto the calling context's current
    /// span; with neither, the event is not attributable and is dropped.
    pub fn event_str(&mut self, ctx: &ContextStack, target: Option<u64>, field: &str, value: &str)
        requires
            state_wf(old(self)@),
        ensures
            final(self)@ == (match (target, spec_stack_current(ctx@)) {
                (Some(id), _) => spec_record_str_at(old(self)@, id, field@, value@),
                (None, Some(id)) => spec_record_str_at(old(self)@, id, field@, value@),
                (None, None) => old(self)@,
            }),
            state_wf(final(self)@),
    {
        match target {
            Some(id) => self.record_str(id, field, value),
            None => {
                match ctx.current_span_id() {
                    Some(id) => self.record_str(id, field, value),
                    None => {},
                }
            },
        }
    }

    /// Records one unsigned-integer field of an event, as `event_str`.
    pub fn event_u64(&mut self, ctx: &ContextStack, target: Option<u64>, field: &str, value: u64)
        requires
            state_wf(old(self)@),
        ensures
            final(self)@ == (match (target, spec_stack_current(ctx@)) {
                (Some(id), _) => spec_record_u64_at(old(self)@, id, field@, value),
                (None, Some(id)) => spec_record_u64_at(old(self)@, id, field@, value),
                (None, None) => old(self)@,
            }),
            state_wf(final(self)@),
    {
        match target {
            Some(id) => self.record_u64(id, field, value),
            None => {
                match ctx.current_span_id() {
                    Some(id) => self.record_u64(id, field, value),
                    None => {},
                }
            },
        }
    }

    /// Pushes the span onto the calling context's stack. Pure bookkeeping;
    /// the span table is untouched.
    pub fn enter(&self, ctx: &mut ContextStack, id: u64)
        requires
            id != 0,
        ensures
            final(ctx)@ == old(ctx)@.push(id),
            old(ctx).wf() ==> final(ctx).wf(),
    {
        ctx.push(id);
    }

    /// Pops the calling context's stack, counting a fault when the stack was
    /// empty or the popped identifier does not match.
    pub fn exit(&mut self, ctx: &mut ContextStack, id: u64)
        ensures
            final(ctx)@ == (if old(ctx)@.len() == 0 {
                old(ctx)@
            } else {
                old(ctx)@.drop_last()
            }),
            final(self)@ == (if old(ctx)@.len() != 0 && old(ctx)@.last() == id {
                old(self)@
            } else {
                EngineState { faults: spec_bump(old(self)@.faults), ..old(self)@ }
            }),
            old(ctx).wf() ==> final(ctx).wf(),
            state_wf(old(self)@) ==> state_wf(final(self)@),
    {
        let clean = ctx.pop(id);
        if !clean {
            self.bump_fault();
        }
    }

    /// One more logical owner of the identifier; hands the identifier back
    /// unchanged, counting a fault when it is not in the table.
    pub fn clone_span(&mut self, id: u64) -> (r: u64)
        requires
            state_wf(old(self)@),
        ensures
            r == id,
            final(self)@ == spec_clone_span(old(self)@, id),
            state_wf(final(self)@),
    {
        let rc_opt = match self.span_ref_count.get(&id) {
            Some(rc) => Some(*rc),
            None => None,
        };
        match rc_opt {
            Some(rc) => {
                let bumped: u32 = if rc < u32::MAX {
                    rc + 1
                } else {
                    rc
                };
                self.span_ref_count.insert(id, bumped);
                proof {
                    assert(self@.ref_counts.dom() =~= old(self)@.ref_counts.dom());
                }
            },
            None => {
                self.bump_fault();
            },
        }
        id
    }

    /// Releases one reference at instant `now`; `try_close` stamps the
    /// current instant and delegates here. Answers `true` only on the
    /// finalizing close, which queues the finished span for export and
    /// clears the identifier from all three maps.
    pub fn try_close_at(&mut self, id: u64, now: u64) -> (r: bool)
        requires
            state_wf(old(self)@),
        ensures
            (final(self)@, r) == spec_try_close(old(self)@, id, now),
            state_wf(final(self)@),
    {
        let ghost pre = self@;
        let rc_opt = match self.span_ref_count.get(&id) {
            Some(rc) => Some(*rc),
            None => None,
        };
        match rc_opt {
            None => {
                self.bump_fault();
                false
            },
            Some(rc) => {
                if rc == 0 {
                    self.bump_fault();
                    false
                } else if rc == 1 {
                    let b_opt = self.span_builders.remove(&id);
                    match b_opt {
                        Some(b) => {
                            let ghost qpre = self.export_queue@;
                            let span = b.build_at(now);
                            self.export_queue.push(span);
                            proof {
                                lemma_builders_model_remove(old(self).span_builders@, id);
                                assert(exports_model(self.export_queue@) =~= exports_model(qpre).push(span@));
                            }
                        },
                        None => {
                            proof {
                                assert(old(self).span_builders@.remove(id)
                                    =~= old(self).span_builders@);
                            }
                            self.bump_fault();
                        },
                    }
                    self.span_metadata.remove(&id);
                    self.span_ref_count.remove(&id);
                    proof {
                        lemma_metadata_model_remove(old(self).span_metadata@, id);
                        let post = spec_try_close(pre, id, now).0;
                        assert(self@.builders =~= post.builders);
                        assert(self@.metadata =~= post.metadata);
                        assert(self@.ref_counts =~= post.ref_counts);
                        assert(self@.builders.dom() =~= self@.metadata.dom());
                        assert(self@.builders.dom() =~= self@.ref_counts.dom());
                    }
                    true
                } else {
                    self.span_ref_count.insert(id, rc - 1);
                    proof {
                        assert(self@.ref_counts.dom() =~= pre.ref_counts.dom());
                    }
                    false
                }
            },
        }
    }

    /// Releases one reference at the current instant.
    pub fn try_close(&mut self, id: u64) -> (r: bool)
        requires
            state_wf(old(self)@),
        ensures
            exists|now: u64| (final(self)@, r) == spec_try_close(old(self)@, id, now),
            state_wf(final(self)@),
    {
        let now = now_unix_ns();
        self.try_close_at(id, now)
    }

    /// The calling context's current span together with its static name;
    /// nothing if the context has no active span or the name is no longer in
    /// the table.
    pub fn current_span(&self, ctx: &ContextStack) -> (r: Option<(u64, String)>)
        ensures
            match spec_stack_current(ctx@) {
                None => r is None,
                Some(id) => match r {
                    Some(p) => p.0 == id && self@.metadata.contains_key(id) && self@.metadata[id]
                        == p.1@,
                    None => !self@.metadata.contains_key(id),
                },
            },
    {
        match ctx.current_span_id() {
            None => None,
            Some(id) => match self.span_metadata.get(&id) {
                Some(name) => Some((id, name.clone())),
                None => None,
            },
        }
    }

    /// Hands the queued finished spans to the export dispatcher, oldest
    /// first, leaving the queue empty.
    pub fn take_exports(&mut self) -> (r: Vec<Span>)
        ensures
            exports_model(r@) == old(self)@.exports,
            final(self)@ == (EngineState { exports: Seq::<SpanModel>::empty(), ..old(self)@ }),
            state_wf(old(self)@) ==> state_wf(final(self)@),
    {
        let mut q: Vec<Span> = Vec::new();
        core::mem::swap(&mut q, &mut self.export_queue);
        proof {
            assert(exports_model(self.export_queue@) =~= Seq::<SpanModel>::empty());
        }
        q
    }
}

/// Wraps one finished span as a single-span trace inside a one-element batch,
/// the unit submitted to the sink.
pub fn make_traces(span: Span) -> (r: crate::builder::Traces)
    ensures
        r@.len() == 1,
        r@[0]@.len() == 1,
        r@[0]@[0] == span,
{
    let mut trace: Vec<Span> = Vec::new();
    trace.push(span);
    let mut traces: Vec<Vec<Span>> = Vec::new();
    traces.push(trace);
    traces
}

} // verus!
