use vstd::prelude::*;

use crate::builder::{Span, Trace, Traces};
use crate::span::{spec_span_type_str, MetaMap, MetricsMap};
use crate::strutil::{spec_u64_dec, u64_to_dec_string};

verus! {

// ---------------------------------------------------------------------------
// The wire format: one flat JSON array of arrays of span objects
// ---------------------------------------------------------------------------

pub open spec fn spec_hex_char(d: int) -> char {
    if d == 0 {
        '0'
    } else if d == 1 {
        '1'
    } else if d == 2 {
        '2'
    } else if d == 3 {
        '3'
    } else if d == 4 {
        '4'
    } else if d == 5 {
        '5'
    } else if d == 6 {
        '6'
    } else if d == 7 {
        '7'
    } else if d == 8 {
        '8'
    } else if d == 9 {
        '9'
    } else if d == 10 {
        'a'
    } else if d == 11 {
        'b'
    } else if d == 12 {
        'c'
    } else if d == 13 {
        'd'
    } else if d == 14 {
        'e'
    } else {
        'f'
    }
}

fn hex_str(d: u32) -> (r: &'static str)
    requires
        d < 16,
    ensures
        r@ =~= seq![spec_hex_char(d as int)],
{
    proof {
        reveal_strlit("0");
        reveal_strlit("1");
        reveal_strlit("2");
        reveal_strlit("3");
        reveal_strlit("4");
        reveal_strlit("5");
        reveal_strlit("6");
        reveal_strlit("7");
        reveal_strlit("8");
        reveal_strlit("9");
        reveal_strlit("a");
        reveal_strlit("b");
        reveal_strlit("c");
        reveal_strlit("d");
        reveal_strlit("e");
        reveal_strlit("f");
    }
    if d == 0 {
        "0"
    } else if d == 1 {
        "1"
    } else if d == 2 {
        "2"
    } else if d == 3 {
        "3"
    } else if d == 4 {
        "4"
    } else if d == 5 {
        "5"
    } else if d == 6 {
        "6"
    } else if d == 7 {
        "7"
    } else if d == 8 {
        "8"
    } else if d == 9 {
        "9"
    } else if d == 10 {
        "a"
    } else if d == 11 {
        "b"
    } else if d == 12 {
        "c"
    } else if d == 13 {
        "d"
    } else if d == 14 {
        "e"
    } else {
        "f"
    }
}

/// How one character is written inside a JSON string: quote and backslash are
/// escaped, the common control characters by their short forms, the remaining
/// control characters as `\u00XX`, and everything else stands as itself.
pub open spec fn spec_escape_char(c: char) -> Seq<char> {
    if c == '"' {
        seq!['\\', '"']
    } else if c == '\\' {
        seq!['\\', '\\']
    } else if c == '\n' {
        seq!['\\', 'n']
    } else if c == '\r' {
        seq!['\\', 'r']
    } else if c == '\t' {
        seq!['\\', 't']
    } else if (c as u32) < 32 {
        seq!['\\', 'u', '0', '0', spec_hex_char((c as u32) as int / 16), spec_hex_char(
            (c as u32) as int % 16,
        )]
    } else {
        seq![c]
    }
}

pub open spec fn spec_escape(s: Seq<char>) -> Seq<char>
    decreases s.len(),
{
    if s.len() == 0 {
        Seq::empty()
    } else {
        spec_escape(s.drop_last()) + spec_escape_char(s.last())
    }
}

/// A JSON string: the escaped text between double quotes.
pub open spec fn spec_json_string(s: Seq<char>) -> Seq<char> {
    seq!['"'] + spec_escape(s) + seq!['"']
}

fn append_json_string(out: &mut String, s: &str)
    ensures
        final(out)@ == old(out)@ + spec_json_string(s@),
{
    proof {
        reveal_strlit("\"");
    }
    out.append("\"");
    let len: usize = s.unicode_len();
    let mut i: usize = 0;
    while i < len
        invariant
            i <= len,
            len == s@.len(),
            out@ == old(out)@ + seq!['"'] + spec_escape(s@.subrange(0, i as int)),
        decreases len - i,
    {
        let c = s.get_char(i);
        let ghost pre = s@.subrange(0, i as int);
        let ghost cur = s@.subrange(0, i + 1 as int);
        proof {
            assert(cur.drop_last() =~= pre);
        }
        if c == '"' {
            proof {
                reveal_strlit("\\\"");
            }
            out.append("\\\"");
            proof {
                assert("\\\""@ =~= spec_escape_char(c));
            }
        } else if c == '\\' {
            proof {
                reveal_strlit("\\\\");
            }
            out.append("\\\\");
            proof {
                assert("\\\\"@ =~= spec_escape_char(c));
            }
        } else if c == '\n' {
            proof {
                reveal_strlit("\\n");
            }
            out.append("\\n");
            proof {
                assert("\\n"@ =~= spec_escape_char(c));
            }
        } else if c == '\r' {
            proof {
                reveal_strlit("\\r");
            }
            out.append("\\r");
            proof {
                assert("\\r"@ =~= spec_escape_char(c));
            }
        } else if c == '\t' {
            proof {
                reveal_strlit("\\t");
            }
            out.append("\\t");
            proof {
                assert("\\t"@ =~= spec_escape_char(c));
            }
        } else if (c as u32) < 32 {
            let v: u32 = c as u32;
            proof {
                reveal_strlit("\\u00");
                assert(v / 16 < 16 && v % 16 < 16) by (nonlinear_arith)
                    requires
                        v < 32,
                ;
            }
            let ghost mark = out@;
            out.append("\\u00");
            out.append(hex_str(v / 16));
            out.append(hex_str(v % 16));
            proof {
                assert(out@ =~= mark + spec_escape_char(c));
            }
        } else {
            out.append(s.substring_char(i, i + 1));
            proof {
                assert(s@.subrange(i as int, i + 1 as int) =~= seq![s@[i as int]]);
            }
        }
        proof {
            assert(out@ =~= old(out)@ + seq!['"'] + spec_escape(cur));
        }
        i = i + 1;
    }
    proof {
        assert(s@.subrange(0, len as int) =~= s@);
        reveal_strlit("\"");
    }
    out.append("\"");
    proof {
        assert(final(out)@ =~= old(out)@ + spec_json_string(s@));
    }
}

fn append_dec(out: &mut String, v: u64)
    ensures
        final(out)@ == old(out)@ + spec_u64_dec(v as int),
{
    let d = u64_to_dec_string(v);
    out.append(d.as_str());
}

// ---------------------------------------------------------------------------
// Objects of string and counter facts
// ---------------------------------------------------------------------------

pub open spec fn spec_json_str_entry(p: (String, String)) -> Seq<char> {
    spec_json_string(p.0@) + seq![':'] + spec_json_string(p.1@)
}

pub open spec fn spec_json_str_members(s: Seq<(String, String)>) -> Seq<char>
    decreases s.len(),
{
    if s.len() == 0 {
        Seq::empty()
    } else if s.len() == 1 {
        spec_json_str_entry(s[0])
    } else {
        spec_json_str_members(s.drop_last()) + seq![','] + spec_json_str_entry(s.last())
    }
}

/// A JSON object of string facts, keys in their insertion order.
pub open spec fn spec_json_meta(m: MetaMap) -> Seq<char> {
    seq!['{'] + spec_json_str_members(m.entry_seq()) + seq!['}']
}

fn append_meta(out: &mut String, m: &MetaMap)
    ensures
        final(out)@ == old(out)@ + spec_json_meta(*m),
{
    proof {
        reveal_strlit("{");
        reveal_strlit("}");
        reveal_strlit(",");
        reveal_strlit(":");
    }
    out.append("{");
    let pairs = m.entries();
    let len: usize = pairs.len();
    let mut i: usize = 0;
    while i < len
        invariant
            i <= len,
            len == pairs@.len(),
            pairs@ == m.entry_seq(),
            out@ == old(out)@ + seq!['{'] + spec_json_str_members(pairs@.subrange(0, i as int)),
        decreases len - i,
    {
        proof {
            reveal_strlit(",");
            reveal_strlit(":");
            assert(pairs@.subrange(0, i + 1 as int).drop_last() =~= pairs@.subrange(0, i as int));
        }
        if i > 0 {
            out.append(",");
        }
        append_json_string(out, pairs[i].0.as_str());
        out.append(":");
        append_json_string(out, pairs[i].1.as_str());
        proof {
            assert(out@ =~= old(out)@ + seq!['{'] + spec_json_str_members(
                pairs@.subrange(0, i + 1 as int),
            ));
        }
        i = i + 1;
    }
    proof {
        assert(pairs@.subrange(0, len as int) =~= pairs@);
        reveal_strlit("}");
    }
    out.append("}");
    proof {
        assert(final(out)@ =~= old(out)@ + spec_json_meta(*m));
    }
}

pub open spec fn spec_json_u64_entry(p: (String, u64)) -> Seq<char> {
    spec_json_string(p.0@) + seq![':'] + spec_u64_dec(p.1 as int)
}

pub open spec fn spec_json_u64_members(s: Seq<(String, u64)>) -> Seq<char>
    decreases s.len(),
{
    if s.len() == 0 {
        Seq::empty()
    } else if s.len() == 1 {
        spec_json_u64_entry(s[0])
    } else {
        spec_json_u64_members(s.drop_last()) + seq![','] + spec_json_u64_entry(s.last())
    }
}

/// A JSON object of counters, keys in their insertion order.
pub open spec fn spec_json_metrics(m: MetricsMap) -> Seq<char> {
    seq!['{'] + spec_json_u64_members(m.entry_seq()) + seq!['}']
}

fn append_metrics(out: &mut String, m: &MetricsMap)
    ensures
        final(out)@ == old(out)@ + spec_json_metrics(*m),
{
    proof {
        reveal_strlit("{");
        reveal_strlit("}");
        reveal_strlit(",");
        reveal_strlit(":");
    }
    out.append("{");
    let pairs = m.entries();
    let len: usize = pairs.len();
    let mut i: usize = 0;
    while i < len
        invariant
            i <= len,
            len == pairs@.len(),
            pairs@ == m.entry_seq(),
            out@ == old(out)@ + seq!['{'] + spec_json_u64_members(pairs@.subrange(0, i as int)),
        decreases len - i,
    {
        proof {
            reveal_strlit(",");
            reveal_strlit(":");
            assert(pairs@.subrange(0, i + 1 as int).drop_last() =~= pairs@.subrange(0, i as int));
        }
        if i > 0 {
            out.append(",");
        }
        append_json_string(out, pairs[i].0.as_str());
        out.append(":");
        append_dec(out, pairs[i].1);
        proof {
            assert(out@ =~= old(out)@ + seq!['{'] + spec_json_u64_members(
                pairs@.subrange(0, i + 1 as int),
            ));
        }
        i = i + 1;
    }
    proof {
        assert(pairs@.subrange(0, len as int) =~= pairs@);
        reveal_strlit("}");
    }
    out.append("}");
    proof {
        assert(final(out)@ =~= old(out)@ + spec_json_metrics(*m));
    }
}

// ---------------------------------------------------------------------------
// The span object and the trace arrays
// ---------------------------------------------------------------------------

/// The front half of a span's wire object: the measured fields and the two
/// fact tables, and the parent identifier when the span has one.
pub open spec fn spec_json_span_head(s: Span) -> Seq<char> {
    "{\"duration\":"@ + spec_u64_dec(s.duration as int) + ",\"error\":"@ + spec_u64_dec(
        s.error as int,
    ) + ",\"meta\":"@ + spec_json_meta(s.meta) + ",\"metrics\":"@ + spec_json_metrics(s.metrics)
        + ",\"name\":"@ + spec_json_string(s.name@) + (match s.parent_id {
        Some(pid) => ",\"parent_id\":"@ + spec_u64_dec(pid as int),
        None => Seq::<char>::empty(),
    })
}

/// The back half of a span's wire object: the naming fields, the identifiers,
/// and the kind under the key `type`.
pub open spec fn spec_json_span_tail(s: Span) -> Seq<char> {
    ",\"resource\":"@ + spec_json_string(s.resource@) + ",\"service\":"@ + spec_json_string(
        s.service@,
    ) + ",\"span_id\":"@ + spec_u64_dec(s.span_id as int) + ",\"start\":"@ + spec_u64_dec(
        s.start as int,
    ) + ",\"trace_id\":"@ + spec_u64_dec(s.trace_id as int) + ",\"type\":"@ + spec_json_string(
        spec_span_type_str(s.span_type),
    ) + "}"@
}

/// One span as its wire object: the fixed fields in a fixed order, with
/// `parent_id` absent for a root span.
pub open spec fn spec_json_span(s: Span) -> Seq<char> {
    spec_json_span_head(s) + spec_json_span_tail(s)
}

#[verifier::rlimit(100)]
fn append_span_head(out: &mut String, s: &Span)
    ensures
        final(out)@ == old(out)@ + spec_json_span_head(*s),
{
    out.append("{\"duration\":");
    append_dec(out, s.duration);
    out.append(",\"error\":");
    append_dec(out, s.error as u64);
    out.append(",\"meta\":");
    append_meta(out, &s.meta);
    out.append(",\"metrics\":");
    append_metrics(out, &s.metrics);
    out.append(",\"name\":");
    append_json_string(out, s.name.as_str());
    match s.parent_id {
        Some(pid) => {
            out.append(",\"parent_id\":");
            append_dec(out, pid);
        },
        None => {},
    }
    proof {
        assert(final(out)@ =~= old(out)@ + spec_json_span_head(*s));
    }
}

#[verifier::rlimit(100)]
fn append_span_tail(out: &mut String, s: &Span)
    ensures
        final(out)@ == old(out)@ + spec_json_span_tail(*s),
{
    out.append(",\"resource\":");
    append_json_string(out, s.resource.as_str());
    out.append(",\"service\":");
    append_json_string(out, s.service.as_str());
    out.append(",\"span_id\":");
    append_dec(out, s.span_id);
    out.append(",\"start\":");
    append_dec(out, s.start);
    out.append(",\"trace_id\":");
    append_dec(out, s.trace_id);
    out.append(",\"type\":");
    append_json_string(out, s.span_type.as_str());
    out.append("}");
    proof {
        assert(final(out)@ =~= old(out)@ + spec_json_span_tail(*s));
    }
}

fn append_span(out: &mut String, s: &Span)
    ensures
        final(out)@ == old(out)@ + spec_json_span(*s),
{
    append_span_head(out, s);
    append_span_tail(out, s);
    proof {
        assert(final(out)@ =~= old(out)@ + spec_json_span(*s));
    }
}

pub open spec fn spec_json_spans(s: Seq<Span>) -> Seq<char>
    decreases s.len(),
{
    if s.len() == 0 {
        Seq::empty()
    } else if s.len() == 1 {
        spec_json_span(s[0])
    } else {
        spec_json_spans(s.drop_last()) + seq![','] + spec_json_span(s.last())
    }
}

/// One trace: the JSON array of its spans, in order.
pub open spec fn spec_json_trace(t: Trace) -> Seq<char> {
    seq!['['] + spec_json_spans(t@) + seq![']']
}

fn append_trace(out: &mut String, t: &Trace)
    ensures
        final(out)@ == old(out)@ + spec_json_trace(*t),
{
    proof {
        reveal_strlit("[");
        reveal_strlit("]");
        reveal_strlit(",");
    }
    out.append("[");
    let len: usize = t.len();
    let mut i: usize = 0;
    while i < len
        invariant
            i <= len,
            len == t@.len(),
            out@ == old(out)@ + seq!['['] + spec_json_spans(t@.subrange(0, i as int)),
        decreases len - i,
    {
        proof {
            reveal_strlit(",");
            assert(t@.subrange(0, i + 1 as int).drop_last() =~= t@.subrange(0, i as int));
        }
        if i > 0 {
            out.append(",");
        }
        append_span(out, &t[i]);
        proof {
            assert(out@ =~= old(out)@ + seq!['['] + spec_json_spans(t@.subrange(0, i + 1 as int)));
        }
        i = i + 1;
    }
    proof {
        assert(t@.subrange(0, len as int) =~= t@);
        reveal_strlit("]");
    }
    out.append("]");
    proof {
        assert(final(out)@ =~= old(out)@ + spec_json_trace(*t));
    }
}

pub open spec fn spec_json_trace_list(ts: Seq<Trace>) -> Seq<char>
    decreases ts.len(),
{
    if ts.len() == 0 {
        Seq::empty()
    } else if ts.len() == 1 {
        spec_json_trace(ts[0])
    } else {
        spec_json_trace_list(ts.drop_last()) + seq![','] + spec_json_trace(ts.last())
    }
}

/// A batch of traces as submitted to the agent: the JSON array of trace
/// arrays.
pub open spec fn spec_json_traces(ts: Seq<Trace>) -> Seq<char> {
    seq!['['] + spec_json_trace_list(ts) + seq![']']
}

/// Serializes a batch of traces to the wire format. Encoding cannot fail: a
/// span always has exactly this one rendering.
pub fn encode_traces(traces: &Traces) -> (r: String)
    ensures
        r@ == spec_json_traces(traces@),
{
    proof {
        reveal_strlit("[");
        reveal_strlit("]");
        reveal_strlit(",");
    }
    let mut out = String::new();
    out.append("[");
    let len: usize = traces.len();
    let mut i: usize = 0;
    while i < len
        invariant
            i <= len,
            len == traces@.len(),
            out@ == seq!['['] + spec_json_trace_list(traces@.subrange(0, i as int)),
        decreases len - i,
    {
        proof {
            reveal_strlit(",");
            assert(traces@.subrange(0, i + 1 as int).drop_last() =~= traces@.subrange(
                0,
                i as int,
            ));
        }
        if i > 0 {
            out.append(",");
        }
        append_trace(&mut out, &traces[i]);
        proof {
            assert(out@ =~= seq!['['] + spec_json_trace_list(traces@.subrange(0, i + 1 as int)));
        }
        i = i + 1;
    }
    proof {
        assert(traces@.subrange(0, len as int) =~= traces@);
        reveal_strlit("]");
    }
    out.append("]");
    proof {
        assert(out@ =~= spec_json_traces(traces@));
    }
    out
}

} // verus!
