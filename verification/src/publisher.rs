//! Publishing with distributed-tracing headers derived from a trace context.
use vstd::prelude::*;

verus! {

use crate::comms::build_publish_url;
use crate::comms::publish_url;
use crate::comms::Headers;
use crate::comms::PreparedRequest;
use crate::textfmt::hex_digits;
use crate::textfmt::hex_string;

/// A snapshot of the current trace, as plain values: the 128-bit trace id,
/// the 64-bit span id, the sampling decision, and the opaque trace-state
/// string. Taken from the ambient tracing system by the caller; this layer
/// only consumes it.
pub struct TraceContext {
    pub trace_id: u128,
    pub span_id: u64,
    pub sampled: bool,
    pub trace_state: String,
}

/// The `traceparent` header value: the fixed version field `00`, the
/// 32-hex-digit trace id, the 16-hex-digit span id, and the 2-hex-digit
/// flags byte — `01` when the trace is sampled, `00` when it is not — joined
/// by dashes.
pub open spec fn traceparent(trace_id: int, span_id: int, sampled: bool) -> Seq<char> {
    "00-"@ + hex_digits(trace_id, 32) + "-"@ + hex_digits(span_id, 16) + "-"@ + (if sampled {
        "01"@
    } else {
        "00"@
    })
}

/// Renders the `traceparent` header value for a trace context.
pub fn create_traceparent_header(ctx: &TraceContext) -> (r: String)
    ensures
        r@ == traceparent(ctx.trace_id as int, ctx.span_id as int, ctx.sampled),
{
    let tid = hex_string(ctx.trace_id, 32);
    let sid = hex_string(ctx.span_id as u128, 16);
    let flags: &'static str = if ctx.sampled {
        "01"
    } else {
        "00"
    };
    String::from_str("00-").concat(tid.as_str()).concat("-").concat(sid.as_str()).concat(
        "-",
    ).concat(flags)
}

/// The configuration of a publisher that derives its headers from the trace
/// context: where the sidecar listens and which pub/sub component and topic
/// to publish to.
#[derive(Debug)]
pub struct Publisher {
    dapr_host: String,
    dapr_port: u16,
    pubsub: String,
    topic: String,
}

impl Publisher {
    pub closed spec fn host(self) -> Seq<char> {
        self.dapr_host@
    }

    pub closed spec fn port(self) -> int {
        self.dapr_port as int
    }

    pub closed spec fn pubsub(self) -> Seq<char> {
        self.pubsub@
    }

    pub closed spec fn topic(self) -> Seq<char> {
        self.topic@
    }

    pub fn new(dapr_host: String, dapr_port: u16, pubsub: String, topic: String) -> (r: Publisher)
        ensures
            r.host() == dapr_host@,
            r.port() == dapr_port as int,
            r.pubsub() == pubsub@,
            r.topic() == topic@,
    {
        Publisher { dapr_host, dapr_port, pubsub, topic }
    }

    /// Builds the publication request for a trace context: the publish URL
    /// and exactly two headers, `traceparent` computed from the context and
    /// `tracestate` carried through unchanged.
    pub fn prepare_publish(&self, ctx: &TraceContext) -> (r: PreparedRequest)
        ensures
            r.url@ == publish_url(self.host(), self.port(), self.pubsub(), self.topic()),
            r.headers.wf(),
            r.headers@ == map![
                "traceparent"@ => traceparent(ctx.trace_id as int, ctx.span_id as int, ctx.sampled),
                "tracestate"@ => ctx.trace_state@,
            ],
    {
        let url = build_publish_url(&self.dapr_host, self.dapr_port, &self.pubsub, &self.topic);
        let tp = create_traceparent_header(ctx);
        let mut hs = Headers::new(Vec::new());
        hs.add_header("traceparent", tp.as_str());
        hs.add_header("tracestate", ctx.trace_state.as_str());
        proof {
            assert(hs@ =~= map![
                "traceparent"@ => traceparent(ctx.trace_id as int, ctx.span_id as int, ctx.sampled),
                "tracestate"@ => ctx.trace_state@,
            ]);
        }
        PreparedRequest { url, headers: hs }
    }
}

} // verus!
