use vstd::prelude::*;

use crate::runtime::{generate_id, now_unix_ns};
use crate::span::{
    spec_meta_key, MetaMap, MetricsMap, ServiceName, SpanMetaKey, SpanName, SpanType,
};
use crate::strutil::{parse_u64, spec_parse_u64, spec_u64_dec, str_eq, u64_to_dec_string};

verus! {

// ---------------------------------------------------------------------------
// Mathematical models of the record types
// ---------------------------------------------------------------------------

/// The mathematical content of an in-progress span.
pub struct BuilderModel {
    pub error: bool,
    pub meta: Map<Seq<char>, Seq<char>>,
    pub metrics: Map<Seq<char>, u64>,
    pub name: Seq<char>,
    pub parent_id: Option<u64>,
    pub resource: Seq<char>,
    pub service: Seq<char>,
    pub span_id: u64,
    pub start: u64,
    pub trace_id: u64,
    pub span_type: SpanType,
}

/// The mathematical content of a finalized span.
pub struct SpanModel {
    pub duration: u64,
    pub error: u32,
    pub meta: Map<Seq<char>, Seq<char>>,
    pub metrics: Map<Seq<char>, u64>,
    pub name: Seq<char>,
    pub parent_id: Option<u64>,
    pub resource: Seq<char>,
    pub service: Seq<char>,
    pub span_id: u64,
    pub start: u64,
    pub trace_id: u64,
    pub span_type: SpanType,
}

// ---------------------------------------------------------------------------
// The finalized span
// ---------------------------------------------------------------------------

/// An immutable, finalized span: one unit of work with its start time (ns
/// since the Unix epoch), its duration (ns), and its attached facts. Produced
/// exactly once per builder; `error` is carried as 0 or 1 on the wire.
#[derive(Debug)]
pub struct Span {
    pub duration: u64,
    pub error: u32,
    pub meta: MetaMap,
    pub metrics: MetricsMap,
    pub name: String,
    pub parent_id: Option<u64>,
    pub resource: String,
    pub service: String,
    pub span_id: u64,
    pub start: u64,
    pub trace_id: u64,
    pub span_type: SpanType,
}

impl View for Span {
    type V = SpanModel;

    open spec fn view(&self) -> SpanModel {
        SpanModel {
            duration: self.duration,
            error: self.error,
            meta: self.meta@,
            metrics: self.metrics@,
            name: self.name@,
            parent_id: self.parent_id,
            resource: self.resource@,
            service: self.service@,
            span_id: self.span_id,
            start: self.start,
            trace_id: self.trace_id,
            span_type: self.span_type,
        }
    }
}

/// A trace is an ordered run of spans sharing a trace identifier; here every
/// finalized span travels as a trace of its own.
pub type Trace = Vec<Span>;

/// The unit submitted to the agent sink: a batch of traces.
pub type Traces = Vec<Trace>;

// ---------------------------------------------------------------------------
// Field names recognized by the recording rules
// ---------------------------------------------------------------------------

/// The fixed vocabulary of recordable field names; anything else is refused
/// as a bookkeeping fault and ignored.
#[derive(Clone, Copy, Debug, PartialEq, Eq, Structural)]
pub enum FieldName {
    TraceId,
    ParentId,
    Resource,
    Start,
    HttpMethod,
    HttpUrl,
    HttpStatusCode,
    ErrorType,
    ErrorMsg,
    ErrorStack,
}

pub open spec fn spec_field_name(s: Seq<char>) -> Option<FieldName> {
    if s == "trace_id"@ {
        Some(FieldName::TraceId)
    } else if s == "parent_id"@ {
        Some(FieldName::ParentId)
    } else if s == "resource"@ {
        Some(FieldName::Resource)
    } else if s == "start"@ {
        Some(FieldName::Start)
    } else if s == "http_method"@ {
        Some(FieldName::HttpMethod)
    } else if s == "http_url"@ {
        Some(FieldName::HttpUrl)
    } else if s == "http_status_code"@ {
        Some(FieldName::HttpStatusCode)
    } else if s == "error_type"@ {
        Some(FieldName::ErrorType)
    } else if s == "error_msg"@ {
        Some(FieldName::ErrorMsg)
    } else if s == "error_stack"@ {
        Some(FieldName::ErrorStack)
    } else {
        None
    }
}

impl FieldName {
    pub fn from_str(s: &str) -> (r: Option<FieldName>)
        ensures
            r == spec_field_name(s@),
    {
        if str_eq(s, "trace_id") {
            Some(FieldName::TraceId)
        } else if str_eq(s, "parent_id") {
            Some(FieldName::ParentId)
        } else if str_eq(s, "resource") {
            Some(FieldName::Resource)
        } else if str_eq(s, "start") {
            Some(FieldName::Start)
        } else if str_eq(s, "http_method") {
            Some(FieldName::HttpMethod)
        } else if str_eq(s, "http_url") {
            Some(FieldName::HttpUrl)
        } else if str_eq(s, "http_status_code") {
            Some(FieldName::HttpStatusCode)
        } else if str_eq(s, "error_type") {
            Some(FieldName::ErrorType)
        } else if str_eq(s, "error_msg") {
            Some(FieldName::ErrorMsg)
        } else if str_eq(s, "error_stack") {
            Some(FieldName::ErrorStack)
        } else {
            None
        }
    }
}

// ---------------------------------------------------------------------------
// The builder
// ---------------------------------------------------------------------------

/// The mutable, in-progress representation of a span. Identifiers are always
/// non-zero; the start time is nanoseconds since the Unix epoch.
#[derive(Debug)]
pub struct SpanBuilder {
    pub error: bool,
    pub meta: MetaMap,
    pub metrics: MetricsMap,
    pub name: SpanName,
    pub parent_id: Option<u64>,
    pub resource: String,
    pub service: ServiceName,
    pub span_id: u64,
    pub start: u64,
    pub trace_id: u64,
    pub span_type: SpanType,
}

impl View for SpanBuilder {
    type V = BuilderModel;

    open spec fn view(&self) -> BuilderModel {
        BuilderModel {
            error: self.error,
            meta: self.meta@,
            metrics: self.metrics@,
            name: self.name@,
            parent_id: self.parent_id,
            resource: self.resource@,
            service: self.service@,
            span_id: self.span_id,
            start: self.start,
            trace_id: self.trace_id,
            span_type: self.span_type,
        }
    }
}

/// A builder is well formed when its identifiers are non-zero.
pub open spec fn builder_wf(b: BuilderModel) -> bool {
    &&& b.span_id != 0
    &&& b.trace_id != 0
    &&& b.parent_id != Some(0u64)
}

/// The model of a builder just allocated: empty but for its identifiers and
/// its start instant, and of kind `Custom`.
pub open spec fn spec_fresh_builder(span_id: u64, trace_id: u64, start: u64) -> BuilderModel {
    BuilderModel {
        error: false,
        meta: Map::empty(),
        metrics: Map::empty(),
        name: Seq::empty(),
        parent_id: None,
        resource: Seq::empty(),
        service: Seq::empty(),
        span_id: span_id,
        start: start,
        trace_id: trace_id,
        span_type: SpanType::Custom,
    }
}

// ---------------------------------------------------------------------------
// The field-recording rules
// ---------------------------------------------------------------------------

/// What recording an unsigned-integer field does to a builder, and whether it
/// is a bookkeeping fault: a zero identifier and an unrecognized name are
/// faults; names that only take string values are ignored without fault.
pub open spec fn spec_record_u64(b: BuilderModel, field: Seq<char>, value: u64) -> (BuilderModel,
    bool,
) {
    match spec_field_name(field) {
        None => (b, true),
        Some(f) => match f {
            FieldName::TraceId => if value != 0 {
                (BuilderModel { trace_id: value, ..b }, false)
            } else {
                (b, true)
            },
            FieldName::ParentId => if value != 0 {
                (BuilderModel { parent_id: Some(value), ..b }, false)
            } else {
                (b, true)
            },
            FieldName::HttpStatusCode => (
                BuilderModel {
                    meta: b.meta.insert("http.status_code"@, spec_u64_dec(value as int)),
                    ..b
                },
                false,
            ),
            FieldName::Start => (BuilderModel { start: value, ..b }, false),
            _ => (b, false),
        },
    }
}

/// What recording a string field does to a builder, and whether it is a
/// bookkeeping fault. Identifier fields accept a decimal rendering of a
/// non-zero 64-bit value and fault on anything else; the error fields raise
/// the error flag besides storing their text; the start field only takes an
/// integer and is ignored here.
pub open spec fn spec_record_str(b: BuilderModel, field: Seq<char>, value: Seq<char>) -> (
    BuilderModel,
    bool,
) {
    match spec_field_name(field) {
        None => (b, true),
        Some(f) => match f {
            FieldName::TraceId => match spec_parse_u64(value) {
                Some(v) => if v != 0 {
                    (BuilderModel { trace_id: v, ..b }, false)
                } else {
                    (b, true)
                },
                None => (b, true),
            },
            FieldName::ParentId => match spec_parse_u64(value) {
                Some(v) => if v != 0 {
                    (BuilderModel { parent_id: Some(v), ..b }, false)
                } else {
                    (b, true)
                },
                None => (b, true),
            },
            FieldName::Resource => (BuilderModel { resource: value, ..b }, false),
            FieldName::HttpMethod => (
                BuilderModel { meta: b.meta.insert("http.method"@, value), ..b },
                false,
            ),
            FieldName::HttpStatusCode => (
                BuilderModel { meta: b.meta.insert("http.status_code"@, value), ..b },
                false,
            ),
            FieldName::HttpUrl => (
                BuilderModel { meta: b.meta.insert("http.url"@, value), ..b },
                false,
            ),
            FieldName::ErrorType => (
                BuilderModel {
                    error: true,
                    meta: b.meta.insert("error.type"@, value),
                    ..b
                },
                false,
            ),
            FieldName::ErrorMsg => (
                BuilderModel {
                    error: true,
                    meta: b.meta.insert("error.msg"@, value),
                    ..b
                },
                false,
            ),
            FieldName::ErrorStack => (
                BuilderModel {
                    error: true,
                    meta: b.meta.insert("error.stack"@, value),
                    ..b
                },
                false,
            ),
            FieldName::Start => (b, false),
        },
    }
}

/// The finalized form of a builder at instant `now`: the duration is the time
/// elapsed since the recorded start, never negative; the error flag becomes
/// 0 or 1.
pub open spec fn spec_build(b: BuilderModel, now: u64) -> SpanModel {
    SpanModel {
        duration: if now >= b.start {
            (now - b.start) as u64
        } else {
            0
        },
        error: if b.error {
            1
        } else {
            0
        },
        meta: b.meta,
        metrics: b.metrics,
        name: b.name,
        parent_id: b.parent_id,
        resource: b.resource,
        service: b.service,
        span_id: b.span_id,
        start: b.start,
        trace_id: b.trace_id,
        span_type: b.span_type,
    }
}

impl SpanBuilder {
    /// A builder with the given identifiers and start instant and nothing
    /// else recorded.
    pub fn new_at(span_id: u64, trace_id: u64, start: u64) -> (r: Self)
        requires
            span_id != 0,
            trace_id != 0,
        ensures
            r@ == spec_fresh_builder(span_id, trace_id, start),
            builder_wf(r@),
    {
        let r = SpanBuilder {
            error: false,
            meta: MetaMap::new(),
            metrics: MetricsMap::new(),
            name: SpanName(String::new()),
            parent_id: None,
            resource: String::new(),
            service: ServiceName(String::new()),
            span_id: span_id,
            start: start,
            trace_id: trace_id,
            span_type: SpanType::Custom,
        };
        r
    }

    pub fn name(&mut self, name: SpanName)
        ensures
            final(self)@ == (BuilderModel { name: name@, ..old(self)@ }),
    {
        self.name = name;
    }

    pub fn service(&mut self, service: ServiceName)
        ensures
            final(self)@ == (BuilderModel { service: service@, ..old(self)@ }),
    {
        self.service = service;
    }

    pub fn resource(&mut self, resource: String)
        ensures
            final(self)@ == (BuilderModel { resource: resource@, ..old(self)@ }),
    {
        self.resource = resource;
    }

    pub fn span_type(&mut self, span_type: SpanType)
        ensures
            final(self)@ == (BuilderModel { span_type: span_type, ..old(self)@ }),
    {
        self.span_type = span_type;
    }

    pub fn trace_id(&mut self, trace_id: u64)
        requires
            trace_id != 0,
        ensures
            final(self)@ == (BuilderModel { trace_id: trace_id, ..old(self)@ }),
    {
        self.trace_id = trace_id;
    }

    pub fn start(&mut self, start: u64)
        ensures
            final(self)@ == (BuilderModel { start: start, ..old(self)@ }),
    {
        self.start = start;
    }

    pub fn error(&mut self, error: bool)
        ensures
            final(self)@ == (BuilderModel { error: error, ..old(self)@ }),
    {
        self.error = error;
    }

    pub fn add_meta(&mut self, key: SpanMetaKey, value: String)
        ensures
            final(self)@ == (BuilderModel {
                meta: old(self)@.meta.insert(spec_meta_key(key), value@),
                ..old(self)@
            }),
    {
        self.meta.insert(key.to_string(), value);
    }

    pub fn metrics(&mut self, metrics: MetricsMap)
        ensures
            final(self)@ == (BuilderModel { metrics: metrics@, ..old(self)@ }),
    {
        self.metrics = metrics;
    }

    pub fn parent_id(&mut self, parent_id: u64)
        requires
            parent_id != 0,
        ensures
            final(self)@ == (BuilderModel { parent_id: Some(parent_id), ..old(self)@ }),
    {
        self.parent_id = Some(parent_id);
    }

    /// Records one unsigned-integer field under the recording rules; reports
    /// whether the write was refused as a bookkeeping fault.
    pub fn record_u64(&mut self, field: &str, value: u64) -> (fault: bool)
        ensures
            (final(self)@, fault) == spec_record_u64(old(self)@, field@, value),
    {
        match FieldName::from_str(field) {
            None => true,
            Some(f) => match f {
                FieldName::TraceId => {
                    if value != 0 {
                        self.trace_id = value;
                        false
                    } else {
                        true
                    }
                },
                FieldName::ParentId => {
                    if value != 0 {
                        self.parent_id = Some(value);
                        false
                    } else {
                        true
                    }
                },
                FieldName::HttpStatusCode => {
                    self.meta.insert(
                        SpanMetaKey::HttpStatusCode.to_string(),
                        u64_to_dec_string(value),
                    );
                    false
                },
                FieldName::Start => {
                    self.start = value;
                    false
                },
                _ => false,
            },
        }
    }

    /// Records one string field under the recording rules; reports whether
    /// the write was refused as a bookkeeping fault.
    pub fn record_str(&mut self, field: &str, value: &str) -> (fault: bool)
        ensures
            (final(self)@, fault) == spec_record_str(old(self)@, field@, value@),
    {
        match FieldName::from_str(field) {
            None => true,
            Some(f) => match f {
                FieldName::TraceId => {
                    match parse_u64(value) {
                        Some(v) => {
                            if v != 0 {
                                self.trace_id = v;
                                false
                            } else {
                                true
                            }
                        },
                        None => true,
                    }
                },
                FieldName::ParentId => {
                    match parse_u64(value) {
                        Some(v) => {
                            if v != 0 {
                                self.parent_id = Some(v);
                                false
                            } else {
                                true
                            }
                        },
                        None => true,
                    }
                },
                FieldName::Resource => {
                    self.resource = value.to_owned();
                    false
                },
                FieldName::HttpMethod => {
                    self.meta.insert(SpanMetaKey::HttpMethod.to_string(), value.to_owned());
                    false
                },
                FieldName::HttpStatusCode => {
                    self.meta.insert(SpanMetaKey::HttpStatusCode.to_string(), value.to_owned());
                    false
                },
                FieldName::HttpUrl => {
                    self.meta.insert(SpanMetaKey::HttpUrl.to_string(), value.to_owned());
                    false
                },
                FieldName::ErrorType => {
                    self.error = true;
                    self.meta.insert(SpanMetaKey::ErrorType.to_string(), value.to_owned());
                    false
                },
                FieldName::ErrorMsg => {
                    self.error = true;
                    self.meta.insert(SpanMetaKey::ErrorMsg.to_string(), value.to_owned());
                    false
                },
                FieldName::ErrorStack => {
                    self.error = true;
                    self.meta.insert(SpanMetaKey::ErrorStack.to_string(), value.to_owned());
                    false
                },
                FieldName::Start => false,
            },
        }
    }

    /// Finalizes the builder into an immutable span at instant `now`.
    pub fn build_at(self, now: u64) -> (r: Span)
        ensures
            r@ == spec_build(self@, now),
    {
        let duration: u64 = if now >= self.start {
            now - self.start
        } else {
            0
        };
        Span {
            duration: duration,
            error: if self.error {
                1
            } else {
                0
            },
            meta: self.meta,
            metrics: self.metrics,
            name: self.name.0,
            parent_id: self.parent_id,
            resource: self.resource,
            service: self.service.0,
            span_id: self.span_id,
            start: self.start,
            trace_id: self.trace_id,
            span_type: self.span_type,
        }
    }

    /// Finalizes the builder at the current instant.
    pub fn build(self) -> (r: Span)
        ensures
            exists|now: u64| r@ == spec_build(self@, now),
    {
        let now = now_unix_ns();
        let ghost b = self@;
        let r = self.build_at(now);
        proof {
            assert(r@ == spec_build(b, now));
        }
        r
    }
}

impl Default for SpanBuilder {
    /// A builder with freshly drawn random non-zero identifiers, started at
    /// the current instant.
    fn default() -> (r: Self)
        ensures
            r@.span_id != 0,
            r@.trace_id != 0,
            builder_wf(r@),
            exists|sid: u64, tid: u64, now: u64|
                r@ == spec_fresh_builder(sid, tid, now),
            r@.error == false,
            r@.meta == Map::<Seq<char>, Seq<char>>::empty(),
            r@.metrics == Map::<Seq<char>, u64>::empty(),
            r@.name == Seq::<char>::empty(),
            r@.parent_id == Option::<u64>::None,
            r@.resource == Seq::<char>::empty(),
            r@.service == Seq::<char>::empty(),
            r@.span_type == SpanType::Custom,
    {
        let sid = generate_id();
        let tid = generate_id();
        let now = now_unix_ns();
        let r = SpanBuilder::new_at(sid, tid, now);
        proof {
            assert(r@ == spec_fresh_builder(sid, tid, now));
        }
        r
    }
}

} // verus!
