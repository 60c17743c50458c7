//! A span-lifecycle engine for shipping execution traces to a local telemetry
//! agent. The engine tracks a per-execution-context stack of active spans, a
//! shared table of in-flight span builders keyed by span identifier, and a
//! reference count per span; it finalizes each span into an immutable record
//! exactly once, when its last owner releases it, and queues the record for a
//! non-blocking export path. Every operation's effect on the engine state is
//! stated as a specification transition and proved; the wire encoding of a
//! finished batch is likewise verified. Only the identifier generator and the
//! clock are taken on trust, and the HTTP transport and the `tracing` adapter
//! live outside the verified core.

use vstd::prelude::*;

pub mod builder;
pub mod config;
pub mod context;
pub mod headers;
pub mod laws;
pub mod runtime;
pub mod span;
pub mod strutil;
pub mod subscriber;
pub mod wire;

pub use builder::{FieldName, Span, SpanBuilder, Trace, Traces};
pub use config::ClientConfig;
pub use context::ContextStack;
pub use headers::extract_trace_and_parent;
pub use runtime::generate_id;
pub use span::{MetaMap, MetricsMap, ServiceName, SpanMetaKey, SpanName, SpanType};
pub use subscriber::{
    make_traces, EngineState, TracingSubscriberDatadog, TracingSubscriberDatadogConfig,
};
pub use wire::encode_traces;

verus! {

} // verus!
