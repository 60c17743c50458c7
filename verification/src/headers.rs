use vstd::prelude::*;

use crate::strutil::{
    eq_ignore_ascii_case, parse_u64, spec_lower_seq, spec_parse_u64, spec_trim, trim,
};

verus! {

// ---------------------------------------------------------------------------
// Distributed-trace header ingestion
// ---------------------------------------------------------------------------
//
// Recognized headers, matched with case-insensitive names: the trace /
// parent identifier pairs `x-datadog-trace-id` / `x-datadog-parent-id` and
// `x-b3-traceid` / `x-b3-spanid`, and the single header `b3`, whose value is
// `{trace}-{span}-{sampling}-{parent}` and contributes its first two
// dash-separated segments. The first match per logical value wins, in header
// order; a value that is not a decimal number is silently ignored.

/// The position of the first dash at or after `from`.
pub open spec fn spec_find_dash(s: Seq<char>, from: int) -> Option<int>
    decreases s.len() - from,
{
    if from < 0 || from >= s.len() {
        None
    } else if s[from] == '-' {
        Some(from)
    } else {
        spec_find_dash(s, from + 1)
    }
}

/// The first two dash-separated segments of a `b3` value, when the value has
/// at least two segments (that is, at least one dash).
pub open spec fn spec_b3_parts(s: Seq<char>) -> Option<(Seq<char>, Seq<char>)> {
    match spec_find_dash(s, 0) {
        None => None,
        Some(i) => {
            let j = match spec_find_dash(s, i + 1) {
                Some(j) => j,
                None => s.len() as int,
            };
            Some((s.subrange(0, i), s.subrange(i + 1, j)))
        },
    }
}

/// What one header contributes to the trace and parent candidates: the first
/// match per logical value wins.
pub open spec fn spec_header_step(
    tr: Option<Seq<char>>,
    pa: Option<Seq<char>>,
    key: Seq<char>,
    value: Seq<char>,
) -> (Option<Seq<char>>, Option<Seq<char>>) {
    let k = spec_lower_seq(spec_trim(key));
    if k == "x-datadog-trace-id"@ || k == "x-b3-traceid"@ {
        (if tr is None { Some(value) } else { tr }, pa)
    } else if k == "x-datadog-parent-id"@ || k == "x-b3-spanid"@ {
        (tr, if pa is None { Some(value) } else { pa })
    } else if k == "b3"@ {
        match spec_b3_parts(value) {
            None => (tr, pa),
            Some(parts) => (
                if tr is None { Some(parts.0) } else { tr },
                if pa is None { Some(parts.1) } else { pa },
            ),
        }
    } else {
        (tr, pa)
    }
}

pub open spec fn spec_scan_headers(
    hs: Seq<(String, String)>,
    i: int,
    tr: Option<Seq<char>>,
    pa: Option<Seq<char>>,
) -> (Option<Seq<char>>, Option<Seq<char>>)
    decreases hs.len() - i,
{
    if i < 0 || i >= hs.len() {
        (tr, pa)
    } else {
        let st = spec_header_step(tr, pa, hs[i].0@, hs[i].1@);
        spec_scan_headers(hs, i + 1, st.0, st.1)
    }
}

pub open spec fn spec_opt_parse(o: Option<Seq<char>>) -> Option<u64> {
    match o {
        None => None,
        Some(s) => spec_parse_u64(s),
    }
}

/// The distributed-trace identifiers carried by a request's headers: the
/// first recognized trace header and the first recognized parent header, in
/// header order, each parsed as a decimal 64-bit number.
pub open spec fn spec_extract_trace_and_parent(hs: Seq<(String, String)>) -> (
    Option<u64>,
    Option<u64>,
) {
    let cands = spec_scan_headers(hs, 0, None, None);
    (spec_opt_parse(cands.0), spec_opt_parse(cands.1))
}

pub open spec fn spec_opt_view(o: Option<String>) -> Option<Seq<char>> {
    match o {
        None => None,
        Some(s) => Some(s@),
    }
}

fn find_dash(s: &str, from: usize) -> (r: Option<usize>)
    requires
        from <= s@.len(),
    ensures
        match r {
            Some(i) => from <= i < s@.len() && spec_find_dash(s@, from as int) == Some(i as int),
            None => spec_find_dash(s@, from as int) is None,
        },
{
    let len: usize = s.unicode_len();
    let mut i: usize = from;
    while i < len
        invariant
            from <= i <= len,
            len == s@.len(),
            forall|j: int| from <= j < i ==> s@[j] != '-',
        decreases len - i,
    {
        if s.get_char(i) == '-' {
            proof {
                lemma_find_dash_hit(s@, from as int, i as int);
            }
            return Some(i);
        }
        i = i + 1;
    }
    proof {
        lemma_find_dash_miss(s@, from as int);
    }
    None
}

proof fn lemma_find_dash_hit(s: Seq<char>, from: int, i: int)
    requires
        0 <= from <= i < s.len(),
        s[i] == '-',
        forall|j: int| from <= j < i ==> s[j] != '-',
    ensures
        spec_find_dash(s, from) == Some(i),
    decreases i - from,
{
    if from < i {
        lemma_find_dash_hit(s, from + 1, i);
    }
}

proof fn lemma_find_dash_miss(s: Seq<char>, from: int)
    requires
        0 <= from <= s.len(),
        forall|j: int| from <= j < s.len() ==> s[j] != '-',
    ensures
        spec_find_dash(s, from) is None,
    decreases s.len() - from,
{
    if from < s.len() {
        lemma_find_dash_miss(s, from + 1);
    }
}

/// The first two dash-separated segments of a `b3` header value.
fn b3_parts(s: &str) -> (r: Option<(String, String)>)
    ensures
        match r {
            Some(p) => spec_b3_parts(s@) == Some((p.0@, p.1@)),
            None => spec_b3_parts(s@) is None,
        },
{
    match find_dash(s, 0) {
        None => None,
        Some(i) => {
            let len: usize = s.unicode_len();
            let j: usize = match find_dash(s, i + 1) {
                Some(j) => j,
                None => len,
            };
            let first = s.substring_char(0, i).to_owned();
            let second = s.substring_char(i + 1, j).to_owned();
            Some((first, second))
        },
    }
}

/// Reads the distributed-trace identifiers out of a request's header pairs.
pub fn extract_trace_and_parent(headers: &Vec<(String, String)>) -> (r: (Option<u64>, Option<u64>))
    ensures
        r == spec_extract_trace_and_parent(headers@),
{
    let mut tr: Option<String> = None;
    let mut pa: Option<String> = None;
    let mut i: usize = 0;
    while i < headers.len()
        invariant
            i <= headers@.len(),
            spec_scan_headers(headers@, 0, None, None) == spec_scan_headers(
                headers@,
                i as int,
                spec_opt_view(tr),
                spec_opt_view(pa),
            ),
        decreases headers@.len() - i,
    {
        let key = trim(headers[i].0.as_str());
        let value = &headers[i].1;
        let ghost tr0 = spec_opt_view(tr);
        let ghost pa0 = spec_opt_view(pa);
        proof {
            reveal_strlit("x-datadog-trace-id");
            reveal_strlit("x-datadog-parent-id");
            reveal_strlit("x-b3-traceid");
            reveal_strlit("x-b3-spanid");
            reveal_strlit("b3");
            assert(spec_lower_seq("x-datadog-trace-id"@) =~= "x-datadog-trace-id"@);
            assert(spec_lower_seq("x-datadog-parent-id"@) =~= "x-datadog-parent-id"@);
            assert(spec_lower_seq("x-b3-traceid"@) =~= "x-b3-traceid"@);
            assert(spec_lower_seq("x-b3-spanid"@) =~= "x-b3-spanid"@);
            assert(spec_lower_seq("b3"@) =~= "b3"@);
        }
        if eq_ignore_ascii_case(key, "x-datadog-trace-id") || eq_ignore_ascii_case(
            key,
            "x-b3-traceid",
        ) {
            if tr.is_none() {
                tr = Some(value.clone());
            }
        } else if eq_ignore_ascii_case(key, "x-datadog-parent-id") || eq_ignore_ascii_case(
            key,
            "x-b3-spanid",
        ) {
            if pa.is_none() {
                pa = Some(value.clone());
            }
        } else if eq_ignore_ascii_case(key, "b3") {
            match b3_parts(value.as_str()) {
                None => {},
                Some(parts) => {
                    if tr.is_none() {
                        tr = Some(parts.0);
                    }
                    if pa.is_none() {
                        pa = Some(parts.1);
                    }
                },
            }
        }
        proof {
            assert((spec_opt_view(tr), spec_opt_view(pa)) == spec_header_step(
                tr0,
                pa0,
                headers@[i as int].0@,
                headers@[i as int].1@,
            ));
        }
        i = i + 1;
    }
    let trace_id: Option<u64> = match tr {
        None => None,
        Some(s) => parse_u64(s.as_str()),
    };
    let parent_id: Option<u64> = match pa {
        None => None,
        Some(s) => parse_u64(s.as_str()),
    };
    (trace_id, parent_id)
}

} // verus!
