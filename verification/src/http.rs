//! The parts of an HTTP request that the library decides: the method,
//! the headers, the URL and how the payload travels.

use vstd::prelude::*;
use vstd::string::StringExecFns;
use crate::text::{ascii_lower, lemma_ascii_lower_idempotent, to_ascii_lowercase};

verus! {

/// HTTP request methods.
#[allow(non_camel_case_types, clippy::upper_case_acronyms)]
#[derive(Clone, Copy, Debug, PartialEq, Eq, Structural)]
pub enum Method {
    GET,
    POST,
    PUT,
    DELETE,
    HEAD,
    OPTIONS,
    CONNECT,
    PATCH,
    TRACE,
    QUERY,
}

/// How the payload is attached to the request.
#[derive(Clone, Copy, Debug, PartialEq, Eq, Structural)]
pub enum BodyFormat {
    /// Serialized as the URL's query string.
    Query,
    /// Serialized as a JSON body.
    Json,
    /// Serialized as a `application/x-www-form-urlencoded` body.
    Form,
}

/// The body format a payload uses when it chooses none: GET sends its
/// payload in the query string, POST as a JSON body, and no other method
/// is supported (`None`).
pub open spec fn method_body_format(method: Method) -> Option<BodyFormat> {
    match method {
        Method::GET => Some(BodyFormat::Query),
        Method::POST => Some(BodyFormat::Json),
        _ => None,
    }
}

/// The body format a payload uses when it chooses none: GET sends its
/// payload in the query string, POST as a JSON body, and no other method
/// is supported (`None`).
pub fn default_body_format(method: Method) -> (r: Option<BodyFormat>)
    ensures
        r == method_body_format(method),
        method == Method::GET ==> r == Some(BodyFormat::Query),
        method == Method::POST ==> r == Some(BodyFormat::Json),
        method != Method::GET && method != Method::POST ==> r is None,
{
    match method {
        Method::GET => Some(BodyFormat::Query),
        Method::POST => Some(BodyFormat::Json),
        _ => None,
    }
}


/// The map that a list of (name, value) pairs denotes: a later pair for a
/// name replaces an earlier one.
pub open spec fn pairs_to_map(s: Seq<(Seq<char>, Seq<char>)>) -> Map<Seq<char>, Seq<char>>
    decreases s.len(),
{
    if s.len() == 0 {
        Map::empty()
    } else {
        pairs_to_map(s.drop_last()).insert(s.last().0, s.last().1)
    }
}

/// The pairs with their names made small (ASCII case).
pub open spec fn lower_pairs(s: Seq<(Seq<char>, Seq<char>)>) -> Seq<(Seq<char>, Seq<char>)> {
    s.map_values(|p: (Seq<char>, Seq<char>)| (ascii_lower(p.0), p.1))
}

/// Every name of the pairs is small (ASCII case).
pub open spec fn names_lower(s: Seq<(Seq<char>, Seq<char>)>) -> bool {
    forall|i: int| 0 <= i < s.len() ==> ascii_lower(#[trigger] s[i].0) == s[i].0
}

/// No name occurs twice in a list of pairs.
pub open spec fn names_unique(s: Seq<(Seq<char>, Seq<char>)>) -> bool {
    forall|i: int, j: int| 0 <= i < j < s.len() ==> #[trigger] s[i].0 != #[trigger] s[j].0
}

/// A name that occurs in no pair has no entry in the map.
proof fn lemma_absent_name(s: Seq<(Seq<char>, Seq<char>)>, k: Seq<char>)
    requires
        forall|i: int| 0 <= i < s.len() ==> #[trigger] s[i].0 != k,
    ensures
        !pairs_to_map(s).dom().contains(k),
    decreases s.len(),
{
    if s.len() > 0 {
        assert(s.last().0 != k);
        lemma_absent_name(s.drop_last(), k);
    }
}

/// With unique names, the map holds exactly the value of the pair.
proof fn lemma_pair_in_map(s: Seq<(Seq<char>, Seq<char>)>, i: int)
    requires
        names_unique(s),
        0 <= i < s.len(),
    ensures
        pairs_to_map(s).dom().contains(s[i].0),
        pairs_to_map(s)[s[i].0] == s[i].1,
    decreases s.len(),
{
    if i < s.len() - 1 {
        let t = s.drop_last();
        assert(t[i] == s[i]);
        assert(names_unique(t));
        assert(s[i].0 != s[s.len() - 1].0);
        lemma_pair_in_map(t, i);
    }
}

/// With unique names, replacing the value of one pair replaces it in the map.
proof fn lemma_update_value(s: Seq<(Seq<char>, Seq<char>)>, i: int, v: Seq<char>)
    requires
        names_unique(s),
        0 <= i < s.len(),
    ensures
        pairs_to_map(s.update(i, (s[i].0, v))) == pairs_to_map(s).insert(s[i].0, v),
        names_unique(s.update(i, (s[i].0, v))),
    decreases s.len(),
{
    let u = s.update(i, (s[i].0, v));
    assert(u.len() == s.len());
    assert forall|a: int, b: int| 0 <= a < b < u.len() implies #[trigger] u[a].0 != #[trigger] u[b].0 by {
        assert(u[a].0 == s[a].0);
        assert(u[b].0 == s[b].0);
    }
    if i == s.len() - 1 {
        assert(u.drop_last() =~= s.drop_last());
        assert(pairs_to_map(u) =~= pairs_to_map(s).insert(s[i].0, v));
    } else {
        let t = s.drop_last();
        assert(t[i] == s[i]);
        assert(names_unique(t));
        assert(u.drop_last() =~= t.update(i, (s[i].0, v)));
        lemma_update_value(t, i, v);
        assert(s.last().0 != s[i].0);
        assert(pairs_to_map(u) =~= pairs_to_map(s).insert(s[i].0, v));
    }
}

/// A set of HTTP headers: at most one value for each name. Names are
/// compared without regard to ASCII case and kept in small letters; the
/// client checks names and values when the request is sent.
#[derive(Debug)]
pub struct HeaderMap {
    entries: Vec<(String, String)>,
}

impl HeaderMap {
    /// The (name, value) pairs, in insertion order.
    pub closed spec fn pairs(&self) -> Seq<(Seq<char>, Seq<char>)> {
        self.entries@.map_values(|e: (String, String)| (e.0@, e.1@))
    }

    #[verifier::type_invariant]
    spec fn inv(&self) -> bool {
        names_unique(self.pairs()) && names_lower(self.pairs())
    }

    /// An empty header set.
    pub fn new() -> (r: HeaderMap)
        ensures
            r@ == Map::<Seq<char>, Seq<char>>::empty(),
    {
        let r = HeaderMap { entries: Vec::new() };
        assert(r.pairs() =~= Seq::<(Seq<char>, Seq<char>)>::empty());
        r
    }

    /// The number of names.
    pub fn len(&self) -> (n: usize)
        ensures
            n == self@.dom().len(),
    {
        proof {
            use_type_invariant(self);
            self.lemma_len();
        }
        self.entries.len()
    }

    proof fn lemma_len(&self)
        requires
            names_unique(self.pairs()),
        ensures
            self@.dom().len() == self.entries@.len(),
            self@.dom().finite(),
    {
        lemma_unique_len(self.pairs());
    }

    /// Whether a value is set for `name`.
    pub fn contains_key(&self, name: &str) -> (b: bool)
        ensures
            b == self@.dom().contains(ascii_lower(name@)),
    {
        proof {
            use_type_invariant(self);
        }
        let key = to_ascii_lowercase(name);
        let n = self.entries.len();
        let mut i: usize = 0;
        while i < n
            invariant
                n == self.entries@.len(),
                i <= n,
                key@ == ascii_lower(name@),
                names_unique(self.pairs()),
                forall|j: int| 0 <= j < i ==> #[trigger] self.pairs()[j].0 != ascii_lower(name@),
            decreases n - i,
        {
            if self.entries[i].0 == key {
                proof {
                    assert(self.pairs()[i as int].0 == ascii_lower(name@));
                    lemma_pair_in_map(self.pairs(), i as int);
                }
                return true;
            }
            i = i + 1;
        }
        proof {
            lemma_absent_name(self.pairs(), ascii_lower(name@));
        }
        false
    }

    /// The value set for `name` under any spelling of it, if any.
    pub open spec fn spec_get(&self, name: Seq<char>) -> Option<Seq<char>> {
        if self@.dom().contains(ascii_lower(name)) {
            Some(self@[ascii_lower(name)])
        } else {
            None
        }
    }

    /// The value set for `name`, if any.
    pub fn get(&self, name: &str) -> (r: Option<String>)
        ensures
            match r {
                Some(v) => self.spec_get(name@) == Some(v@),
                None => self.spec_get(name@) is None,
            },
            match r {
                Some(v) => self@.dom().contains(ascii_lower(name@)) && self@[ascii_lower(name@)] == v@,
                None => !self@.dom().contains(ascii_lower(name@)),
            },
    {
        proof {
            use_type_invariant(self);
        }
        let key = to_ascii_lowercase(name);
        let n = self.entries.len();
        let mut i: usize = 0;
        while i < n
            invariant
                n == self.entries@.len(),
                i <= n,
                key@ == ascii_lower(name@),
                names_unique(self.pairs()),
                forall|j: int| 0 <= j < i ==> #[trigger] self.pairs()[j].0 != ascii_lower(name@),
            decreases n - i,
        {
            if self.entries[i].0 == key {
                proof {
                    assert(self.pairs()[i as int].0 == ascii_lower(name@));
                    lemma_pair_in_map(self.pairs(), i as int);
                }
                return Some(self.entries[i].1.clone());
            }
            i = i + 1;
        }
        proof {
            lemma_absent_name(self.pairs(), ascii_lower(name@));
        }
        None
    }

    /// Sets `value` for `name` (in small letters), replacing the value it
    /// had under any spelling of the name.
    pub fn insert(&mut self, name: String, value: String)
        ensures
            final(self)@ == old(self)@.insert(ascii_lower(name@), value@),
    {
        let key = to_ascii_lowercase(name.as_str());
        proof {
            use_type_invariant(&*self);
            lemma_ascii_lower_idempotent(name@);
        }
        let n = self.entries.len();
        let mut i: usize = 0;
        while i < n
            invariant
                n == self.entries@.len(),
                i <= n,
                names_unique(self.pairs()),
                names_lower(self.pairs()),
                key@ == ascii_lower(name@),
                self.pairs() == old(self).pairs(),
                forall|j: int| 0 <= j < i ==> #[trigger] self.pairs()[j].0 != key@,
            decreases n - i,
        {
            if self.entries[i].0 == key {
                let ghost before = self.pairs();
                proof {
                    assert(before[i as int].0 == key@);
                    lemma_update_value(before, i as int, value@);
                }
                let mut entries: Vec<(String, String)> = Vec::new();
                std::mem::swap(&mut entries, &mut self.entries);
                entries.set(i, (key, value));
                let ghost updated = entries@.map_values(|e: (String, String)| (e.0@, e.1@));
                assert(updated =~= before.update(i as int, (before[i as int].0, value@)));
                assert forall|j: int| 0 <= j < updated.len() implies ascii_lower(#[trigger] updated[j].0) == updated[j].0 by {
                    assert(updated[j].0 == before[j].0);
                }
                self.entries = entries;
                assert(self.pairs() =~= updated);
                return;
            }
            i = i + 1;
        }
        let ghost before = self.pairs();
        proof {
            lemma_absent_name(before, key@);
        }
        let mut entries: Vec<(String, String)> = Vec::new();
        std::mem::swap(&mut entries, &mut self.entries);
        entries.push((key, value));
        let ghost updated = entries@.map_values(|e: (String, String)| (e.0@, e.1@));
        assert(updated =~= before.push((key@, value@)));
        assert forall|a: int, b: int| 0 <= a < b < updated.len() implies #[trigger] updated[a].0 != #[trigger] updated[b].0 by {
            if b < before.len() {
                assert(updated[a] == before[a]);
                assert(updated[b] == before[b]);
            } else {
                assert(updated[a] == before[a]);
            }
        }
        self.entries = entries;
        assert(self.pairs().drop_last() =~= before);
    }

    /// Sets every header of `other`, replacing the values of the names it
    /// shares with this map; the other names keep their values.
    pub fn extend(&mut self, other: HeaderMap)
        ensures
            final(self)@ == old(self)@.union_prefer_right(other@),
    {
        proof {
            use_type_invariant(&other);
        }
        let ghost given = other.pairs();
        let pairs = other.entries;
        let ghost src = pairs@.map_values(|e: (String, String)| (e.0@, e.1@));
        assert(src =~= given);
        let n = pairs.len();
        let mut i: usize = 0;
        assert(src.take(0) =~= Seq::<(Seq<char>, Seq<char>)>::empty());
        assert(old(self)@.union_prefer_right(pairs_to_map(src.take(0))) =~= old(self)@);
        while i < n
            invariant
                n == pairs@.len(),
                src == pairs@.map_values(|e: (String, String)| (e.0@, e.1@)),
                names_lower(src),
                i <= n,
                self@ == old(self)@.union_prefer_right(pairs_to_map(src.take(i as int))),
            decreases n - i,
        {
            let k = pairs[i].0.clone();
            let v = pairs[i].1.clone();
            let ghost prev = self@;
            assert(src[i as int] == (k@, v@));
            assert(ascii_lower(src[i as int].0) == src[i as int].0);
            self.insert(k, v);
            assert(src.take(i + 1).drop_last() =~= src.take(i as int));
            assert(src.take(i + 1).last() == src[i as int]);
            assert(self@ =~= old(self)@.union_prefer_right(pairs_to_map(src.take(i + 1))));
            i = i + 1;
        }
        assert(src.take(n as int) =~= src);
    }

    /// The headers of a list of pairs, set in order: a later value for a
    /// name, in any spelling, replaces an earlier one.
    pub fn from_pairs(pairs: Vec<(String, String)>) -> (r: HeaderMap)
        ensures
            r@ == pairs_to_map(lower_pairs(pairs@.map_values(|e: (String, String)| (e.0@, e.1@)))),
    {
        let ghost all = lower_pairs(pairs@.map_values(|e: (String, String)| (e.0@, e.1@)));
        let mut r = HeaderMap::new();
        let n = pairs.len();
        let mut i: usize = 0;
        assert(all.take(0) =~= Seq::<(Seq<char>, Seq<char>)>::empty());
        while i < n
            invariant
                n == pairs@.len(),
                all == lower_pairs(pairs@.map_values(|e: (String, String)| (e.0@, e.1@))),
                i <= n,
                r@ == pairs_to_map(all.take(i as int)),
            decreases n - i,
        {
            let k = pairs[i].0.clone();
            let v = pairs[i].1.clone();
            r.insert(k, v);
            assert(all[i as int] == (ascii_lower(k@), v@));
            assert(all.take(i + 1).drop_last() =~= all.take(i as int));
            assert(all.take(i + 1).last() == all[i as int]);
            i = i + 1;
        }
        assert(all.take(n as int) =~= all);
        r
    }

    /// The (name, value) pairs, each name once, in insertion order.
    pub fn to_vec(&self) -> (r: Vec<(String, String)>)
        ensures
            pairs_to_map(r@.map_values(|e: (String, String)| (e.0@, e.1@))) == self@,
            names_unique(r@.map_values(|e: (String, String)| (e.0@, e.1@))),
            names_lower(r@.map_values(|e: (String, String)| (e.0@, e.1@))),
    {
        proof {
            use_type_invariant(self);
        }
        let n = self.entries.len();
        let mut r: Vec<(String, String)> = Vec::new();
        let mut i: usize = 0;
        while i < n
            invariant
                n == self.entries@.len(),
                i <= n,
                r@.map_values(|e: (String, String)| (e.0@, e.1@)) =~= self.pairs().take(i as int),
            decreases n - i,
        {
            let k = self.entries[i].0.clone();
            let v = self.entries[i].1.clone();
            let ghost prev = r@.map_values(|e: (String, String)| (e.0@, e.1@));
            r.push((k, v));
            assert(self.pairs()[i as int] == (k@, v@));
            assert(self.pairs().take(i + 1) =~= self.pairs().take(i as int).push((k@, v@)));
            assert(r@.map_values(|e: (String, String)| (e.0@, e.1@)) =~= prev.push((k@, v@)));
            i = i + 1;
        }
        assert(self.pairs().take(n as int) =~= self.pairs());
        r
    }
}

/// With unique names, the map has one entry for each pair.
proof fn lemma_unique_len(s: Seq<(Seq<char>, Seq<char>)>)
    requires
        names_unique(s),
    ensures
        pairs_to_map(s).dom().len() == s.len(),
        pairs_to_map(s).dom().finite(),
    decreases s.len(),
{
    if s.len() > 0 {
        let t = s.drop_last();
        assert(names_unique(t));
        lemma_unique_len(t);
        assert forall|i: int| 0 <= i < t.len() implies #[trigger] t[i].0 != s.last().0 by {
            assert(t[i] == s[i]);
        }
        lemma_absent_name(t, s.last().0);
    }
}

impl Clone for HeaderMap {
    /// A map with the same headers.
    fn clone(&self) -> (r: HeaderMap)
        ensures
            r@ == self@,
    {
        let pairs = self.to_vec();
        let ghost s = pairs@.map_values(|e: (String, String)| (e.0@, e.1@));
        assert(lower_pairs(s) =~= s);
        HeaderMap::from_pairs(pairs)
    }
}

impl View for HeaderMap {
    type V = Map<Seq<char>, Seq<char>>;

    closed spec fn view(&self) -> Map<Seq<char>, Seq<char>> {
        pairs_to_map(self.pairs())
    }
}

/// A request as the library builds it before it is sent: the method, the
/// full URL, the headers that the payload adds and how the payload is
/// attached (`None`: not attached).
pub struct RequestSpec {
    pub method: Method,
    pub url: String,
    pub headers: HeaderMap,
    pub body: Option<BodyFormat>,
}

impl RequestSpec {
    /// A request with no headers and no body.
    pub fn new(method: Method, url: String) -> (r: RequestSpec)
        ensures
            r.method == method,
            r.url == url,
            r.headers@ == Map::<Seq<char>, Seq<char>>::empty(),
            r.body is None,
    {
        RequestSpec { method, url, headers: HeaderMap::new(), body: None }
    }

    /// Adds `headers`, replacing the values of the names already set.
    pub fn headers(self, headers: HeaderMap) -> (r: RequestSpec)
        ensures
            r.method == self.method,
            r.url == self.url,
            r.headers@ == self.headers@.union_prefer_right(headers@),
            r.body == self.body,
    {
        let mut r = self;
        r.headers.extend(headers);
        r
    }

    /// Attaches the payload in the given format.
    pub fn with_body(self, format: BodyFormat) -> (r: RequestSpec)
        ensures
            r.method == self.method,
            r.url == self.url,
            r.headers@ == self.headers@,
            r.body == Some(format),
    {
        let mut r = self;
        r.body = Some(format);
        r
    }

    /// Attaches the payload as the query string.
    pub fn query(self) -> (r: RequestSpec)
        ensures
            r.method == self.method,
            r.url == self.url,
            r.headers@ == self.headers@,
            r.body == Some(BodyFormat::Query),
    {
        self.with_body(BodyFormat::Query)
    }

    /// Attaches the payload as a JSON body.
    pub fn json(self) -> (r: RequestSpec)
        ensures
            r.method == self.method,
            r.url == self.url,
            r.headers@ == self.headers@,
            r.body == Some(BodyFormat::Json),
    {
        self.with_body(BodyFormat::Json)
    }

    /// Attaches the payload as a form body.
    pub fn form(self) -> (r: RequestSpec)
        ensures
            r.method == self.method,
            r.url == self.url,
            r.headers@ == self.headers@,
            r.body == Some(BodyFormat::Form),
    {
        self.with_body(BodyFormat::Form)
    }
}


/// A header is found under every spelling of its name: two names that
/// differ only in ASCII case read the same value.
pub proof fn law_get_ignores_case(m: HeaderMap, name: Seq<char>, other: Seq<char>)
    requires
        ascii_lower(name) == ascii_lower(other),
    ensures
        m.spec_get(name) == m.spec_get(other),
{
}

/// A header read after it is set gives the value that was set; setting a
/// name leaves every name that is not a spelling of it as it was.
pub proof fn law_get_after_insert(before: HeaderMap, after: HeaderMap, name: Seq<char>, value: Seq<char>, other: Seq<char>)
    requires
        after@ == before@.insert(ascii_lower(name), value),
        ascii_lower(other) != ascii_lower(name),
    ensures
        after.spec_get(name) == Some(value),
        after.spec_get(other) == before.spec_get(other),
{
}

/// Setting a header twice, under any two spellings of its name, is the same
/// as setting it once with the second value.
pub proof fn law_insert_twice(
    before: HeaderMap,
    between: HeaderMap,
    after: HeaderMap,
    name: Seq<char>,
    other: Seq<char>,
    v1: Seq<char>,
    v2: Seq<char>,
)
    requires
        ascii_lower(name) == ascii_lower(other),
        between@ == before@.insert(ascii_lower(name), v1),
        after@ == between@.insert(ascii_lower(other), v2),
    ensures
        after@ == before@.insert(ascii_lower(name), v2),
{
    assert(before@.insert(ascii_lower(name), v1).insert(ascii_lower(name), v2) =~= before@.insert(ascii_lower(name), v2));
}

/// Adding headers: every added name reads the added value, every other
/// name reads what it read before.
pub proof fn law_added_headers_win(base: HeaderMap, added: HeaderMap, result: HeaderMap, name: Seq<char>)
    requires
        result@ == base@.union_prefer_right(added@),
    ensures
        added.spec_get(name) is Some ==> result.spec_get(name) == added.spec_get(name),
        added.spec_get(name) is None ==> result.spec_get(name) == base.spec_get(name),
{
}

} // verus!
