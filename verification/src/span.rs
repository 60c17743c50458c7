use vstd::prelude::*;

use crate::strutil::{eq_ignore_ascii_case, spec_lower_seq, spec_trim, str_eq, trim};
use vstd::pervasive::VecAdditionalExecFns;

verus! {

// ---------------------------------------------------------------------------
// Span kinds
// ---------------------------------------------------------------------------

/// The kind of work a span stands for, carried on the wire as one of the
/// fixed strings "web", "db", "cache" or "custom".
#[derive(Clone, Copy, Debug, PartialEq, Eq, Structural)]
pub enum SpanType {
    Web,
    Db,
    Cache,
    Custom,
}

pub open spec fn spec_span_type_str(t: SpanType) -> Seq<char> {
    match t {
        SpanType::Web => "web"@,
        SpanType::Db => "db"@,
        SpanType::Cache => "cache"@,
        SpanType::Custom => "custom"@,
    }
}

/// The kind named by a string; anything unrecognized is `Custom`.
pub open spec fn spec_span_type_of(t: Seq<char>) -> SpanType {
    if t == "web"@ {
        SpanType::Web
    } else if t == "db"@ {
        SpanType::Db
    } else if t == "cache"@ {
        SpanType::Cache
    } else {
        SpanType::Custom
    }
}

impl SpanType {
    pub fn as_str(&self) -> (r: &'static str)
        ensures
            r@ == spec_span_type_str(*self),
    {
        match *self {
            SpanType::Web => "web",
            SpanType::Db => "db",
            SpanType::Cache => "cache",
            SpanType::Custom => "custom",
        }
    }

    /// Reads a kind from text, ignoring surrounding ASCII whitespace and
    /// letter case; never fails, unknown names fall back to `Custom`.
    pub fn from_str(s: &str) -> (r: Result<SpanType, ()>)
        ensures
            r == Ok::<SpanType, ()>(spec_span_type_of(spec_lower_seq(spec_trim(s@)))),
    {
        let t = trim(s);
        proof {
            reveal_strlit("web");
            reveal_strlit("db");
            reveal_strlit("cache");
            reveal_strlit("custom");
            assert(spec_lower_seq("web"@) =~= "web"@);
            assert(spec_lower_seq("db"@) =~= "db"@);
            assert(spec_lower_seq("cache"@) =~= "cache"@);
        }
        if eq_ignore_ascii_case(t, "web") {
            Ok(SpanType::Web)
        } else if eq_ignore_ascii_case(t, "db") {
            Ok(SpanType::Db)
        } else if eq_ignore_ascii_case(t, "cache") {
            Ok(SpanType::Cache)
        } else {
            Ok(SpanType::Custom)
        }
    }
}

// ---------------------------------------------------------------------------
// Names
// ---------------------------------------------------------------------------

/// The service a span is billed to.
#[derive(Debug)]
pub struct ServiceName(pub String);

impl View for ServiceName {
    type V = Seq<char>;

    open spec fn view(&self) -> Seq<char> {
        self.0@
    }
}

/// The static instrumentation-point name of a span.
#[derive(Debug)]
pub struct SpanName(pub String);

impl View for SpanName {
    type V = Seq<char>;

    open spec fn view(&self) -> Seq<char> {
        self.0@
    }
}

// ---------------------------------------------------------------------------
// Fixed meta keys
// ---------------------------------------------------------------------------

/// The fixed keys under which facts are stored in a span's meta table.
#[derive(Clone, Copy, Debug)]
pub enum SpanMetaKey {
    Service,
    Env,
    Version,
    HttpMethod,
    HttpUrl,
    HttpStatusCode,
    ErrorType,
    ErrorMsg,
    ErrorStack,
}

pub open spec fn spec_meta_key(k: SpanMetaKey) -> Seq<char> {
    match k {
        SpanMetaKey::Service => "service"@,
        SpanMetaKey::Env => "env"@,
        SpanMetaKey::Version => "version"@,
        SpanMetaKey::HttpMethod => "http.method"@,
        SpanMetaKey::HttpUrl => "http.url"@,
        SpanMetaKey::HttpStatusCode => "http.status_code"@,
        SpanMetaKey::ErrorType => "error.type"@,
        SpanMetaKey::ErrorMsg => "error.msg"@,
        SpanMetaKey::ErrorStack => "error.stack"@,
    }
}

impl SpanMetaKey {
    /// The wire spelling of the key.
    pub fn to_string(&self) -> (r: String)
        ensures
            r@ == spec_meta_key(*self),
    {
        match *self {
            SpanMetaKey::Service => "service".to_owned(),
            SpanMetaKey::Env => "env".to_owned(),
            SpanMetaKey::Version => "version".to_owned(),
            SpanMetaKey::HttpMethod => "http.method".to_owned(),
            SpanMetaKey::HttpUrl => "http.url".to_owned(),
            SpanMetaKey::HttpStatusCode => "http.status_code".to_owned(),
            SpanMetaKey::ErrorType => "error.type".to_owned(),
            SpanMetaKey::ErrorMsg => "error.msg".to_owned(),
            SpanMetaKey::ErrorStack => "error.stack".to_owned(),
        }
    }
}

// ---------------------------------------------------------------------------
// String-keyed tables
// ---------------------------------------------------------------------------

/// The map denoted by a sequence of key/value pairs, later pairs winning.
pub open spec fn map_of_str_pairs(s: Seq<(String, String)>) -> Map<Seq<char>, Seq<char>>
    decreases s.len(),
{
    if s.len() == 0 {
        Map::empty()
    } else {
        map_of_str_pairs(s.drop_last()).insert(s.last().0@, s.last().1@)
    }
}

proof fn lemma_str_pairs_last_match(s: Seq<(String, String)>, k: Seq<char>, idx: int)
    requires
        0 <= idx < s.len(),
        s[idx].0@ == k,
        forall|j: int| idx < j < s.len() ==> s[j].0@ != k,
    ensures
        map_of_str_pairs(s).contains_key(k),
        map_of_str_pairs(s)[k] == s[idx].1@,
    decreases s.len(),
{
    if idx == s.len() - 1 {
    } else {
        assert(forall|j: int| idx < j < s.drop_last().len() ==> s.drop_last()[j].0@ != k);
        assert(s.drop_last()[idx] == s[idx]);
        lemma_str_pairs_last_match(s.drop_last(), k, idx);
        assert(s.last().0@ != k);
    }
}

proof fn lemma_str_pairs_no_match(s: Seq<(String, String)>, k: Seq<char>)
    requires
        forall|j: int| 0 <= j < s.len() ==> s[j].0@ != k,
    ensures
        !map_of_str_pairs(s).contains_key(k),
    decreases s.len(),
{
    if s.len() > 0 {
        assert(forall|j: int| 0 <= j < s.drop_last().len() ==> s.drop_last()[j].0@ != k);
        lemma_str_pairs_no_match(s.drop_last(), k);
        assert(s.last().0@ != k);
    }
}

pub open spec fn str_pairs_unique_keys(s: Seq<(String, String)>) -> bool {
    forall|i: int, j: int| 0 <= i < j < s.len() ==> s[i].0@ != s[j].0@
}

proof fn lemma_str_pairs_update(s: Seq<(String, String)>, i: int, p: (String, String))
    requires
        0 <= i < s.len(),
        s[i].0@ == p.0@,
        str_pairs_unique_keys(s),
    ensures
        map_of_str_pairs(s.update(i, p)) == map_of_str_pairs(s).insert(p.0@, p.1@),
    decreases s.len(),
{
    if i == s.len() - 1 {
        assert(s.update(i, p).drop_last() =~= s.drop_last());
        assert(map_of_str_pairs(s).insert(s.last().0@, s.last().1@).insert(p.0@, p.1@)
            =~= map_of_str_pairs(s.drop_last()).insert(p.0@, p.1@));
        assert(map_of_str_pairs(s.update(i, p)) =~= map_of_str_pairs(s).insert(p.0@, p.1@));
    } else {
        assert(s.update(i, p).drop_last() =~= s.drop_last().update(i, p));
        assert(s.drop_last()[i] == s[i]);
        assert(str_pairs_unique_keys(s.drop_last())) by {
            assert(forall|a: int, b: int|
                0 <= a < b < s.drop_last().len() ==> s.drop_last()[a] == s[a] && s.drop_last()[b]
                    == s[b]);
        }
        lemma_str_pairs_update(s.drop_last(), i, p);
        assert(s.last().0@ != p.0@);
        assert(map_of_str_pairs(s.drop_last()).insert(p.0@, p.1@).insert(
            s.last().0@,
            s.last().1@,
        ) =~= map_of_str_pairs(s.drop_last()).insert(s.last().0@, s.last().1@).insert(
            p.0@,
            p.1@,
        ));
    }
}

/// A table of string facts about a span, keyed by strings; each key is held
/// exactly once, a later write to a key replacing its value in place.
#[derive(Debug)]
pub struct MetaMap {
    pairs: Vec<(String, String)>,
}

impl View for MetaMap {
    type V = Map<Seq<char>, Seq<char>>;

    closed spec fn view(&self) -> Map<Seq<char>, Seq<char>> {
        map_of_str_pairs(self.pairs@)
    }
}

impl MetaMap {
    #[verifier::type_invariant]
    closed spec fn unique_keys(&self) -> bool {
        str_pairs_unique_keys(self.pairs@)
    }

    /// The key/value pairs, in insertion order of their keys.
    pub closed spec fn entry_seq(&self) -> Seq<(String, String)> {
        self.pairs@
    }

    pub fn new() -> (r: Self)
        ensures
            r@ == Map::<Seq<char>, Seq<char>>::empty(),
            r.entry_seq() == Seq::<(String, String)>::empty(),
    {
        MetaMap { pairs: Vec::new() }
    }

    pub fn insert(&mut self, k: String, v: String)
        ensures
            final(self)@ == old(self)@.insert(k@, v@),
    {
        proof {
            use_type_invariant(&*self);
        }
        let ghost before = self.pairs@;
        let mut pairs: Vec<(String, String)> = Vec::new();
        core::mem::swap(&mut pairs, &mut self.pairs);
        let len: usize = pairs.len();
        let mut found: usize = len;
        let mut i: usize = 0;
        while i < len
            invariant
                i <= len,
                len == pairs@.len(),
                pairs@ == before,
                found == len || (found < i && before[found as int].0@ == k@),
                found == len ==> forall|j: int| 0 <= j < i ==> before[j].0@ != k@,
            decreases len - i,
        {
            if found == len && str_eq(pairs[i].0.as_str(), k.as_str()) {
                found = i;
            }
            i = i + 1;
        }
        if found < len {
            pairs.set(found, (k, v));
            proof {
                lemma_str_pairs_update(before, found as int, (k, v));
                assert(str_pairs_unique_keys(pairs@)) by {
                    assert(forall|a: int| 0 <= a < pairs@.len() && a != found ==> pairs@[a]
                        == before[a]);
                }
            }
        } else {
            pairs.push((k, v));
            proof {
                assert(pairs@.drop_last() =~= before);
                assert(str_pairs_unique_keys(pairs@)) by {
                    assert(forall|a: int| 0 <= a < before.len() ==> pairs@[a] == before[a]);
                }
            }
        }
        core::mem::swap(&mut pairs, &mut self.pairs);
    }

    pub fn get(&self, k: &str) -> (r: Option<String>)
        ensures
            match r {
                Some(v) => self@.contains_key(k@) && self@[k@] == v@,
                None => !self@.contains_key(k@),
            },
    {
        let mut i: usize = self.pairs.len();
        while i > 0
            invariant
                i <= self.pairs.len(),
                forall|j: int| i <= j < self.pairs@.len() ==> self.pairs@[j].0@ != k@,
            decreases i,
        {
            i = i - 1;
            if str_eq(self.pairs[i].0.as_str(), k) {
                proof {
                    lemma_str_pairs_last_match(self.pairs@, k@, i as int);
                }
                return Some(self.pairs[i].1.clone());
            }
        }
        proof {
            lemma_str_pairs_no_match(self.pairs@, k@);
        }
        None
    }

    pub fn is_empty(&self) -> (r: bool)
        ensures
            r == (self@ == Map::<Seq<char>, Seq<char>>::empty()),
    {
        if self.pairs.len() == 0 {
            proof {
                assert(self@ =~= Map::<Seq<char>, Seq<char>>::empty());
            }
            true
        } else {
            proof {
                let s = self.pairs@;
                assert(self@.contains_key(s.last().0@));
            }
            false
        }
    }

    /// The raw pairs, for hand-off to an encoder: each key exactly once, in
    /// insertion order of the keys.
    pub fn entries(&self) -> (r: &Vec<(String, String)>)
        ensures
            r@ == self.entry_seq(),
            map_of_str_pairs(r@) == self@,
            str_pairs_unique_keys(r@),
    {
        proof {
            use_type_invariant(&*self);
        }
        &self.pairs
    }
}

/// The map denoted by a sequence of key/count pairs, later pairs winning.
pub open spec fn map_of_u64_pairs(s: Seq<(String, u64)>) -> Map<Seq<char>, u64>
    decreases s.len(),
{
    if s.len() == 0 {
        Map::empty()
    } else {
        map_of_u64_pairs(s.drop_last()).insert(s.last().0@, s.last().1)
    }
}

proof fn lemma_u64_pairs_last_match(s: Seq<(String, u64)>, k: Seq<char>, idx: int)
    requires
        0 <= idx < s.len(),
        s[idx].0@ == k,
        forall|j: int| idx < j < s.len() ==> s[j].0@ != k,
    ensures
        map_of_u64_pairs(s).contains_key(k),
        map_of_u64_pairs(s)[k] == s[idx].1,
    decreases s.len(),
{
    if idx == s.len() - 1 {
    } else {
        assert(forall|j: int| idx < j < s.drop_last().len() ==> s.drop_last()[j].0@ != k);
        assert(s.drop_last()[idx] == s[idx]);
        lemma_u64_pairs_last_match(s.drop_last(), k, idx);
        assert(s.last().0@ != k);
    }
}

proof fn lemma_u64_pairs_no_match(s: Seq<(String, u64)>, k: Seq<char>)
    requires
        forall|j: int| 0 <= j < s.len() ==> s[j].0@ != k,
    ensures
        !map_of_u64_pairs(s).contains_key(k),
    decreases s.len(),
{
    if s.len() > 0 {
        assert(forall|j: int| 0 <= j < s.drop_last().len() ==> s.drop_last()[j].0@ != k);
        lemma_u64_pairs_no_match(s.drop_last(), k);
        assert(s.last().0@ != k);
    }
}

pub open spec fn u64_pairs_unique_keys(s: Seq<(String, u64)>) -> bool {
    forall|i: int, j: int| 0 <= i < j < s.len() ==> s[i].0@ != s[j].0@
}

proof fn lemma_u64_pairs_update(s: Seq<(String, u64)>, i: int, p: (String, u64))
    requires
        0 <= i < s.len(),
        s[i].0@ == p.0@,
        u64_pairs_unique_keys(s),
    ensures
        map_of_u64_pairs(s.update(i, p)) == map_of_u64_pairs(s).insert(p.0@, p.1),
    decreases s.len(),
{
    if i == s.len() - 1 {
        assert(s.update(i, p).drop_last() =~= s.drop_last());
        assert(map_of_u64_pairs(s).insert(s.last().0@, s.last().1).insert(p.0@, p.1)
            =~= map_of_u64_pairs(s.drop_last()).insert(p.0@, p.1));
        assert(map_of_u64_pairs(s.update(i, p)) =~= map_of_u64_pairs(s).insert(p.0@, p.1));
    } else {
        assert(s.update(i, p).drop_last() =~= s.drop_last().update(i, p));
        assert(s.drop_last()[i] == s[i]);
        assert(u64_pairs_unique_keys(s.drop_last())) by {
            assert(forall|a: int, b: int|
                0 <= a < b < s.drop_last().len() ==> s.drop_last()[a] == s[a] && s.drop_last()[b]
                    == s[b]);
        }
        lemma_u64_pairs_update(s.drop_last(), i, p);
        assert(s.last().0@ != p.0@);
        assert(map_of_u64_pairs(s.drop_last()).insert(p.0@, p.1).insert(s.last().0@, s.last().1)
            =~= map_of_u64_pairs(s.drop_last()).insert(s.last().0@, s.last().1).insert(
            p.0@,
            p.1,
        ));
    }
}

/// A table of counters attached to a span, keyed by strings; each key is held
/// exactly once, a later write to a key replacing its value in place.
#[derive(Debug)]
pub struct MetricsMap {
    pairs: Vec<(String, u64)>,
}

impl View for MetricsMap {
    type V = Map<Seq<char>, u64>;

    closed spec fn view(&self) -> Map<Seq<char>, u64> {
        map_of_u64_pairs(self.pairs@)
    }
}

impl MetricsMap {
    #[verifier::type_invariant]
    closed spec fn unique_keys(&self) -> bool {
        u64_pairs_unique_keys(self.pairs@)
    }

    /// The key/value pairs, in insertion order of their keys.
    pub closed spec fn entry_seq(&self) -> Seq<(String, u64)> {
        self.pairs@
    }

    pub fn new() -> (r: Self)
        ensures
            r@ == Map::<Seq<char>, u64>::empty(),
            r.entry_seq() == Seq::<(String, u64)>::empty(),
    {
        MetricsMap { pairs: Vec::new() }
    }

    pub fn insert(&mut self, k: String, v: u64)
        ensures
            final(self)@ == old(self)@.insert(k@, v),
    {
        proof {
            use_type_invariant(&*self);
        }
        let ghost before = self.pairs@;
        let mut pairs: Vec<(String, u64)> = Vec::new();
        core::mem::swap(&mut pairs, &mut self.pairs);
        let len: usize = pairs.len();
        let mut found: usize = len;
        let mut i: usize = 0;
        while i < len
            invariant
                i <= len,
                len == pairs@.len(),
                pairs@ == before,
                found == len || (found < i && before[found as int].0@ == k@),
                found == len ==> forall|j: int| 0 <= j < i ==> before[j].0@ != k@,
            decreases len - i,
        {
            if found == len && str_eq(pairs[i].0.as_str(), k.as_str()) {
                found = i;
            }
            i = i + 1;
        }
        if found < len {
            pairs.set(found, (k, v));
            proof {
                lemma_u64_pairs_update(before, found as int, (k, v));
                assert(u64_pairs_unique_keys(pairs@)) by {
                    assert(forall|a: int| 0 <= a < pairs@.len() && a != found ==> pairs@[a]
                        == before[a]);
                }
            }
        } else {
            pairs.push((k, v));
            proof {
                assert(pairs@.drop_last() =~= before);
                assert(u64_pairs_unique_keys(pairs@)) by {
                    assert(forall|a: int| 0 <= a < before.len() ==> pairs@[a] == before[a]);
                }
            }
        }
        core::mem::swap(&mut pairs, &mut self.pairs);
    }

    pub fn get(&self, k: &str) -> (r: Option<u64>)
        ensures
            match r {
                Some(v) => self@.contains_key(k@) && self@[k@] == v,
                None => !self@.contains_key(k@),
            },
    {
        let mut i: usize = self.pairs.len();
        while i > 0
            invariant
                i <= self.pairs.len(),
                forall|j: int| i <= j < self.pairs@.len() ==> self.pairs@[j].0@ != k@,
            decreases i,
        {
            i = i - 1;
            if str_eq(self.pairs[i].0.as_str(), k) {
                proof {
                    lemma_u64_pairs_last_match(self.pairs@, k@, i as int);
                }
                return Some(self.pairs[i].1);
            }
        }
        proof {
            lemma_u64_pairs_no_match(self.pairs@, k@);
        }
        None
    }

    pub fn is_empty(&self) -> (r: bool)
        ensures
            r == (self@ == Map::<Seq<char>, u64>::empty()),
    {
        if self.pairs.len() == 0 {
            proof {
                assert(self@ =~= Map::<Seq<char>, u64>::empty());
            }
            true
        } else {
            proof {
                let s = self.pairs@;
                assert(self@.contains_key(s.last().0@));
            }
            false
        }
    }

    /// The raw pairs, for hand-off to an encoder: each key exactly once, in
    /// insertion order of the keys.
    pub fn entries(&self) -> (r: &Vec<(String, u64)>)
        ensures
            r@ == self.entry_seq(),
            map_of_u64_pairs(r@) == self@,
            u64_pairs_unique_keys(r@),
    {
        proof {
            use_type_invariant(&*self);
        }
        &self.pairs
    }
}

} // verus!
