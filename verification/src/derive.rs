//! What the two derives make of their `api_req(...)` attribute: the items of
//! the attribute, read by a Rust parser into plain values, become the parts
//! of the generated impl, or the error the derive reports.

use vstd::prelude::*;
use vstd::string::StringExecFns;
use crate::template::{format_source, spec_format_source};
use crate::http::BodyFormat;
use crate::text::{decimal, equals, to_decimal};

verus! {

/// An expression written in an attribute: its source text and, when it is
/// a string literal, the literal's value.
pub struct AttrExpr {
    pub source: String,
    pub str_value: Option<String>,
}

/// The value of a `key = value` item, read in each form a key may need:
/// as an expression (its source text), as a string literal (its value), as
/// an identifier, as an array `[..]` and as a tuple `(..)`, the elements of
/// both each read as a tuple. An `Err` holds the parser's message.
pub struct MetaValue {
    pub as_expr: Result<String, String>,
    pub as_str: Result<String, String>,
    pub as_ident: Result<String, String>,
    pub as_array: Result<Vec<Result<Vec<AttrExpr>, String>>, String>,
    pub as_tuple: Result<Vec<Result<Vec<AttrExpr>, String>>, String>,
}

/// A list value: the elements of an array `[..]` or of a tuple `(..)`; for
/// anything else, the message of reading it as an array.
pub open spec fn value_list(v: MetaValue) -> Result<Seq<Result<Vec<AttrExpr>, String>>, Seq<char>> {
    match v.as_array {
        Ok(elems) => Ok(elems@),
        Err(e) => match v.as_tuple {
            Ok(elems) => Ok(elems@),
            Err(_) => Err(e@),
        },
    }
}

/// The elements of a list value, an array or a tuple.
pub fn list_of(v: &MetaValue) -> (r: Result<&Vec<Result<Vec<AttrExpr>, String>>, String>)
    ensures
        match value_list(*v) {
            Ok(elems) => r matches Ok(x) && x@ == elems,
            Err(e) => r matches Err(t) && t@ == e,
        },
{
    match &v.as_array {
        Ok(elems) => Ok(elems),
        Err(e) => match &v.as_tuple {
            Ok(elems) => Ok(elems),
            Err(_) => Err(e.clone()),
        },
    }
}

/// One item of the attribute: its key and its value (`Err`: the item has
/// no `= value`).
pub struct MetaItem {
    pub key: String,
    pub value: Result<MetaValue, String>,
}

/// The items of an `api_req(...)` attribute, in order, and the parser's
/// message when the list breaks off after them.
pub struct AttrArgs {
    pub items: Vec<MetaItem>,
    pub rest_error: Option<String>,
}

/// An attribute of the item: its name and its items.
pub struct NamedAttr {
    pub name: String,
    pub args: AttrArgs,
}

/// The items of the first attribute named `a` or `b`, if there is one.
pub open spec fn first_named(attrs: Seq<NamedAttr>, a: Seq<char>, b: Seq<char>) -> Option<AttrArgs>
    decreases attrs.len(),
{
    if attrs.len() == 0 {
        None
    } else if attrs[0].name@ == a || attrs[0].name@ == b {
        Some(attrs[0].args)
    } else {
        first_named(attrs.drop_first(), a, b)
    }
}

/// The items of the first attribute named `a` or `b`, if there is one.
pub fn select_attr(attrs: Vec<NamedAttr>, a: &str, b: &str) -> (r: Option<AttrArgs>)
    ensures
        r == first_named(attrs@, a@, b@),
{
    let ghost orig = attrs@;
    let mut list = attrs;
    let n = list.len();
    let mut i: usize = 0;
    assert(list@.skip(0) =~= list@);
    while i < n
        invariant
            orig == list@,
            orig == attrs@,
            n == list@.len(),
            i <= n,
            first_named(list@, a@, b@) == first_named(list@.skip(i as int), a@, b@),
        decreases n - i,
    {
        assert(list@.skip(i as int)[0] == list@[i as int]);
        assert(list@.skip(i as int).drop_first() =~= list@.skip(i + 1));
        let name = list[i].name.as_str();
        if equals(name, a) || equals(name, b) {
            assert(first_named(list@.skip(i as int), a@, b@) == Some(list@[i as int].args));
            let found = list.remove(i);
            assert(found == orig[i as int]);
            let args = found.args;
            assert(first_named(orig, a@, b@) == Some(args));
            return Some(args);
        }
        i = i + 1;
    }
    assert(list@.skip(n as int) =~= Seq::<NamedAttr>::empty());
    None
}

/// Attribute `k` is the first named `a` or `b`.
pub open spec fn first_named_at(attrs: Seq<NamedAttr>, a: Seq<char>, b: Seq<char>, k: int) -> bool {
    &&& 0 <= k < attrs.len()
    &&& attrs[k].name@ == a || attrs[k].name@ == b
    &&& forall|j: int| 0 <= j < k ==> #[trigger] attrs[j].name@ != a && attrs[j].name@ != b
}

/// Where the first attribute named `a` or `b` stands, if there is one.
pub fn first_named_index(attrs: &Vec<NamedAttr>, a: &str, b: &str) -> (r: Option<usize>)
    ensures
        match r {
            Some(k) => first_named_at(attrs@, a@, b@, k as int)
                && first_named(attrs@, a@, b@) == Some(attrs@[k as int].args),
            None => first_named(attrs@, a@, b@) is None
                && forall|k: int| !#[trigger] first_named_at(attrs@, a@, b@, k),
        },
{
    let n = attrs.len();
    let mut i: usize = 0;
    assert(attrs@.skip(0) =~= attrs@);
    while i < n
        invariant
            n == attrs@.len(),
            i <= n,
            first_named(attrs@, a@, b@) == first_named(attrs@.skip(i as int), a@, b@),
            forall|j: int| 0 <= j < i ==> #[trigger] attrs@[j].name@ != a@ && attrs@[j].name@ != b@,
        decreases n - i,
    {
        assert(attrs@.skip(i as int)[0] == attrs@[i as int]);
        assert(attrs@.skip(i as int).drop_first() =~= attrs@.skip(i + 1));
        let name = attrs[i].name.as_str();
        if equals(name, a) || equals(name, b) {
            return Some(i);
        }
        i = i + 1;
    }
    assert(attrs@.skip(n as int) =~= Seq::<NamedAttr>::empty());
    assert forall|k: int| !#[trigger] first_named_at(attrs@, a@, b@, k) by {
        if first_named_at(attrs@, a@, b@, k) {
            assert(attrs@[k].name@ != a@ && attrs@[k].name@ != b@);
        }
    }
    None
}

/// The attribute `#[derive(Payload)]` reads: the first named `api_req` or
/// `payload`.
pub fn payload_attr(attrs: Vec<NamedAttr>) -> (r: Option<AttrArgs>)
    ensures
        r == first_named(attrs@, "api_req"@, "payload"@),
{
    select_attr(attrs, "api_req", "payload")
}

/// The attribute `#[derive(ApiCaller)]` reads: the first named `api_req`
/// or `api`.
pub fn caller_attr(attrs: Vec<NamedAttr>) -> (r: Option<AttrArgs>)
    ensures
        r == first_named(attrs@, "api_req"@, "api"@),
{
    select_attr(attrs, "api_req", "api")
}

/// The message for a pair that is not a pair.
pub open spec fn pair_error(what: Seq<char>, n: nat) -> Seq<char> {
    "("@ + what + ") expected, which contains 2 elems, but got "@ + decimal(n) + " elems"@
}

/// The message for a key the derive does not know.
pub open spec fn unsupported_meta() -> Seq<char> {
    "unsupported meta"@
}

fn pair_error_text(what: &str, n: usize) -> (r: String)
    ensures
        r@ == pair_error(what@, n as nat),
{
    String::from_str("(").concat(what).concat(") expected, which contains 2 elems, but got ").concat(
        to_decimal(n).as_str(),
    ).concat(" elems")
}

fn unsupported_meta_text() -> (r: String)
    ensures
        r@ == unsupported_meta(),
{
    String::from_str("unsupported meta")
}

/// A result of texts taken by its views.
pub open spec fn result_view(r: Result<String, String>) -> Result<Seq<char>, Seq<char>> {
    match r {
        Ok(v) => Ok(v@),
        Err(e) => Err(e@),
    }
}

/// A list of pairs of texts taken by its views.
pub open spec fn pairs_view(v: Seq<(String, String)>) -> Seq<(Seq<char>, Seq<char>)> {
    v.map_values(|p: (String, String)| (p.0@, p.1@))
}

fn clone_result(r: &Result<String, String>) -> (c: Result<String, String>)
    ensures
        result_view(c) == result_view(*r),
{
    match r {
        Ok(v) => Ok(v.clone()),
        Err(e) => Err(e.clone()),
    }
}

// ---------------------------------------------------------------------------
// `#[derive(Payload)]`

/// What `#[derive(Payload)]` generates, as source texts: the path
/// expression, the method expression, the header (key, value)
/// expressions, the `RequestBuilder` method that attaches the payload
/// (`None`: none named, so the method's default format is used: GET the
/// query string, POST JSON), and the optional step before deserializing
/// and deserializer.
pub struct PayloadDerive {
    pub path: String,
    pub method: String,
    pub headers: Vec<(String, String)>,
    pub req: Option<String>,
    pub before_deserialize: Option<String>,
    pub deserialize: Option<String>,
}

/// A `PayloadDerive` taken by its views.
pub struct PayloadDeriveView {
    pub path: Seq<char>,
    pub method: Seq<char>,
    pub headers: Seq<(Seq<char>, Seq<char>)>,
    pub req: Option<Seq<char>>,
    pub before_deserialize: Option<Seq<char>>,
    pub deserialize: Option<Seq<char>>,
}

/// An optional text taken by its view.
pub open spec fn opt_view(s: Option<String>) -> Option<Seq<char>> {
    match s {
        Some(v) => Some(v@),
        None => None,
    }
}

impl View for PayloadDerive {
    type V = PayloadDeriveView;

    open spec fn view(&self) -> PayloadDeriveView {
        PayloadDeriveView {
            path: self.path@,
            method: self.method@,
            headers: pairs_view(self.headers@),
            req: opt_view(self.req),
            before_deserialize: opt_view(self.before_deserialize),
            deserialize: opt_view(self.deserialize),
        }
    }
}

/// What the derive generates when the attribute says nothing: an empty
/// path, GET, no headers, the body format of the method (for GET the query
/// string), the body deserialized as it is with `serde_json`.
pub open spec fn default_payload_derive() -> PayloadDeriveView {
    PayloadDeriveView {
        path: "String::new()"@,
        method: "::api_req::Method::GET"@,
        headers: Seq::empty(),
        req: None,
        before_deserialize: None,
        deserialize: None,
    }
}

/// The source of a header value: a string literal becomes a `format!`
/// call filled from the fields; any other expression stays as it is.
pub open spec fn header_value_source(e: AttrExpr) -> Result<Seq<char>, Seq<char>> {
    match e.str_value {
        Some(v) => spec_format_source(v@),
        None => Ok(e.source@),
    }
}

/// One element of the `headers` list: a (key, value) tuple.
pub open spec fn spec_payload_header(elem: Result<Vec<AttrExpr>, String>) -> Result<(Seq<char>, Seq<char>), Seq<char>> {
    match elem {
        Err(e) => Err(e@),
        Ok(kv) => if kv@.len() != 2 {
            Err(pair_error("header_key, header_value"@, kv@.len()))
        } else {
            match header_value_source(kv@[1]) {
                Ok(v) => Ok((kv@[0].source@, v)),
                Err(e) => Err(e),
            }
        },
    }
}

/// The elements of the `headers` list, in order; the first bad one ends it.
pub open spec fn spec_payload_headers(elems: Seq<Result<Vec<AttrExpr>, String>>) -> Result<Seq<(Seq<char>, Seq<char>)>, Seq<char>>
    decreases elems.len(),
{
    if elems.len() == 0 {
        Ok(Seq::empty())
    } else {
        match spec_payload_headers(elems.drop_last()) {
            Err(e) => Err(e),
            Ok(hs) => match spec_payload_header(elems.last()) {
                Err(e) => Err(e),
                Ok(h) => Ok(hs.push(h)),
            },
        }
    }
}

/// One item of the attribute applied to what the derive has so far.
pub open spec fn spec_apply_payload_item(c: PayloadDeriveView, m: MetaItem) -> Result<PayloadDeriveView, Seq<char>> {
    let k = m.key@;
    if k != "path"@ && k != "method"@ && k != "headers"@ && k != "req"@ && k != "before_deserialize"@
        && k != "deserialize"@ {
        Err(unsupported_meta())
    } else {
        match m.value {
            Err(e) => Err(e@),
            Ok(v) => if k == "path"@ {
                match v.as_str {
                    Err(e) => Err(e@),
                    Ok(p) => match spec_format_source(p@) {
                        Ok(s) => Ok(PayloadDeriveView { path: s, ..c }),
                        Err(e) => Err(e),
                    },
                }
            } else if k == "method"@ {
                match v.as_expr {
                    Err(e) => Err(e@),
                    Ok(x) => Ok(PayloadDeriveView { method: x@, ..c }),
                }
            } else if k == "headers"@ {
                match value_list(v) {
                    Err(e) => Err(e),
                    Ok(elems) => match spec_payload_headers(elems) {
                        Err(e) => Err(e),
                        Ok(hs) => Ok(PayloadDeriveView { headers: c.headers + hs, ..c }),
                    },
                }
            } else if k == "req"@ {
                match v.as_ident {
                    Err(e) => Err(e@),
                    Ok(x) => Ok(PayloadDeriveView { req: Some(x@), ..c }),
                }
            } else if k == "before_deserialize"@ {
                match v.as_expr {
                    Err(e) => Err(e@),
                    Ok(x) => Ok(PayloadDeriveView { before_deserialize: Some(x@), ..c }),
                }
            } else {
                match v.as_expr {
                    Err(e) => Err(e@),
                    Ok(x) => Ok(PayloadDeriveView { deserialize: Some(x@), ..c }),
                }
            },
        }
    }
}

/// The items applied in order, from the defaults; the first error ends it.
pub open spec fn spec_payload_items(items: Seq<MetaItem>) -> Result<PayloadDeriveView, Seq<char>>
    decreases items.len(),
{
    if items.len() == 0 {
        Ok(default_payload_derive())
    } else {
        match spec_payload_items(items.drop_last()) {
            Err(e) => Err(e),
            Ok(c) => spec_apply_payload_item(c, items.last()),
        }
    }
}

/// What `#[derive(Payload)]` makes of its attribute (`None`: no `api_req`
/// attribute, so every default holds).
pub open spec fn spec_derive_payload(attr: Option<AttrArgs>) -> Result<PayloadDeriveView, Seq<char>> {
    match attr {
        None => Ok(default_payload_derive()),
        Some(a) => match spec_payload_items(a.items@) {
            Err(e) => Err(e),
            Ok(c) => match a.rest_error {
                Some(e) => Err(e@),
                None => Ok(c),
            },
        },
    }
}

/// The first error of a fold stays the result of every longer prefix.
proof fn lemma_payload_error_stays(items: Seq<MetaItem>, i: int)
    requires
        0 <= i <= items.len(),
        spec_payload_items(items.take(i)) is Err,
    ensures
        spec_payload_items(items) == spec_payload_items(items.take(i)),
    decreases items.len() - i,
{
    if i < items.len() {
        assert(items.take(i + 1).drop_last() =~= items.take(i));
        lemma_payload_error_stays(items, i + 1);
    } else {
        assert(items.take(i) =~= items);
    }
}

proof fn lemma_headers_error_stays(elems: Seq<Result<Vec<AttrExpr>, String>>, i: int)
    requires
        0 <= i <= elems.len(),
        spec_payload_headers(elems.take(i)) is Err,
    ensures
        spec_payload_headers(elems) == spec_payload_headers(elems.take(i)),
    decreases elems.len() - i,
{
    if i < elems.len() {
        assert(elems.take(i + 1).drop_last() =~= elems.take(i));
        lemma_headers_error_stays(elems, i + 1);
    } else {
        assert(elems.take(i) =~= elems);
    }
}

fn payload_header(elem: &Result<Vec<AttrExpr>, String>) -> (r: Result<(String, String), String>)
    ensures
        match spec_payload_header(*elem) {
            Ok(h) => r matches Ok(p) && (p.0@, p.1@) == h,
            Err(e) => r matches Err(t) && t@ == e,
        },
{
    match elem {
        Err(e) => Err(e.clone()),
        Ok(kv) => {
            if kv.len() != 2 {
                return Err(pair_error_text("header_key, header_value", kv.len()));
            }
            let key = kv[0].source.clone();
            let value = match &kv[1].str_value {
                Some(v) => format_source(v.as_str()),
                None => Ok(kv[1].source.clone()),
            };
            match value {
                Ok(v) => Ok((key, v)),
                Err(e) => Err(e),
            }
        },
    }
}

fn payload_headers(elems: &Vec<Result<Vec<AttrExpr>, String>>) -> (r: Result<Vec<(String, String)>, String>)
    ensures
        match spec_payload_headers(elems@) {
            Ok(hs) => r matches Ok(v) && pairs_view(v@) == hs,
            Err(e) => r matches Err(t) && t@ == e,
        },
{
    let mut out: Vec<(String, String)> = Vec::new();
    assert(pairs_view(out@) =~= Seq::<(Seq<char>, Seq<char>)>::empty());
    let n = elems.len();
    let mut i: usize = 0;
    assert(elems@.take(0) =~= Seq::<Result<Vec<AttrExpr>, String>>::empty());
    while i < n
        invariant
            n == elems@.len(),
            i <= n,
            spec_payload_headers(elems@.take(i as int)) == Ok::<Seq<(Seq<char>, Seq<char>)>, Seq<char>>(pairs_view(out@)),
        decreases n - i,
    {
        assert(elems@.take(i + 1).drop_last() =~= elems@.take(i as int));
        assert(elems@.take(i + 1).last() == elems@[i as int]);
        match payload_header(&elems[i]) {
            Ok(p) => {
                let ghost before = out@;
                out.push(p);
                assert(pairs_view(out@) =~= pairs_view(before).push((p.0@, p.1@)));
            },
            Err(e) => {
                proof {
                    lemma_headers_error_stays(elems@, i + 1);
                }
                return Err(e);
            },
        }
        i = i + 1;
    }
    assert(elems@.take(n as int) =~= elems@);
    Ok(out)
}

fn apply_payload_item(c: PayloadDerive, m: &MetaItem) -> (r: Result<PayloadDerive, String>)
    ensures
        match spec_apply_payload_item(c@, *m) {
            Ok(v) => r matches Ok(d) && d@ == v,
            Err(e) => r matches Err(t) && t@ == e,
        },
{
    let k = m.key.as_str();
    let is_path = equals(k, "path");
    let is_method = equals(k, "method");
    let is_headers = equals(k, "headers");
    let is_req = equals(k, "req");
    let is_before = equals(k, "before_deserialize");
    let is_deserialize = equals(k, "deserialize");
    if !(is_path || is_method || is_headers || is_req || is_before || is_deserialize) {
        return Err(unsupported_meta_text());
    }
    let v = match &m.value {
        Err(e) => {
            return Err(e.clone());
        },
        Ok(v) => v,
    };
    let mut c = c;
    if is_path {
        match &v.as_str {
            Err(e) => Err(e.clone()),
            Ok(p) => match format_source(p.as_str()) {
                Ok(s) => {
                    c.path = s;
                    Ok(c)
                },
                Err(e) => Err(e),
            },
        }
    } else if is_method {
        match clone_result(&v.as_expr) {
            Err(e) => Err(e),
            Ok(x) => {
                c.method = x;
                Ok(c)
            },
        }
    } else if is_headers {
        match list_of(v) {
            Err(e) => Err(e),
            Ok(elems) => match payload_headers(elems) {
                Err(e) => Err(e),
                Ok(hs) => {
                    let ghost before = c.headers@;
                    let ghost added = hs@;
                    let mut hs = hs;
                    c.headers.append(&mut hs);
                    assert(pairs_view(c.headers@) =~= pairs_view(before) + pairs_view(added));
                    Ok(c)
                },
            },
        }
    } else if is_req {
        match clone_result(&v.as_ident) {
            Err(e) => Err(e),
            Ok(x) => {
                c.req = Some(x);
                Ok(c)
            },
        }
    } else if is_before {
        match clone_result(&v.as_expr) {
            Err(e) => Err(e),
            Ok(x) => {
                c.before_deserialize = Some(x);
                Ok(c)
            },
        }
    } else {
        match clone_result(&v.as_expr) {
            Err(e) => Err(e),
            Ok(x) => {
                c.deserialize = Some(x);
                Ok(c)
            },
        }
    }
}

/// Reads the attribute of `#[derive(Payload)]` (see `payload_attr`;
/// `None`: the struct has none). Keys: `path` (a string literal whose `{field}`
/// placeholders are filled from the struct's fields), `method`, `headers`
/// (a list, tuple or array, of (key, value) tuples; a string-literal value is filled like
/// the path), `req` (`query`, `json` or `form`; without it, the format of the method), `before_deserialize` and
/// `deserialize`. Any other key is refused with `unsupported meta`.
pub fn derive_payload(attr: Option<AttrArgs>) -> (r: Result<PayloadDerive, String>)
    ensures
        match spec_derive_payload(attr) {
            Ok(v) => r matches Ok(d) && d@ == v,
            Err(e) => r matches Err(t) && t@ == e,
        },
{
    let args = match attr {
        None => {
            return Ok(default_payload());
        },
        Some(a) => a,
    };
    match payload_items(&args.items) {
        Err((_, e)) => Err(e),
        Ok(c) => match args.rest_error {
            Some(e) => Err(e),
            None => Ok(c),
        },
    }
}

fn default_payload() -> (d: PayloadDerive)
    ensures
        d@ == default_payload_derive(),
{
    let d = PayloadDerive {
        path: String::from_str("String::new()"),
        method: String::from_str("::api_req::Method::GET"),
        headers: Vec::new(),
        req: None,
        before_deserialize: None,
        deserialize: None,
    };
    assert(d@.headers =~= Seq::<(Seq<char>, Seq<char>)>::empty());
    d
}

/// Item `i` is where reading `items` stops with an error: every item before
/// it reads, and it does not.
pub open spec fn payload_fails_at(items: Seq<MetaItem>, i: int) -> bool {
    &&& 0 <= i < items.len()
    &&& spec_payload_items(items.take(i)) is Ok
    &&& spec_payload_items(items.take(i + 1)) is Err
}

/// The items of `#[derive(Payload)]`'s attribute read in order from the
/// defaults: what the derive has after all of them, or the item where the
/// first error stands, with its message.
pub fn payload_items(items: &Vec<MetaItem>) -> (r: Result<PayloadDerive, (usize, String)>)
    ensures
        match r {
            Ok(d) => spec_payload_items(items@) == Ok::<PayloadDeriveView, Seq<char>>(d@)
                && forall|i: int| !#[trigger] payload_fails_at(items@, i),
            Err((i, e)) => payload_fails_at(items@, i as int)
                && spec_payload_items(items@) == Err::<PayloadDeriveView, Seq<char>>(e@),
        },
{
    let mut c = default_payload();
    let n = items.len();
    let mut i: usize = 0;
    assert(items@.take(0) =~= Seq::<MetaItem>::empty());
    while i < n
        invariant
            n == items@.len(),
            i <= n,
            spec_payload_items(items@.take(i as int)) == Ok::<PayloadDeriveView, Seq<char>>(c@),
        decreases n - i,
    {
        assert(items@.take(i + 1).drop_last() =~= items@.take(i as int));
        assert(items@.take(i + 1).last() == items@[i as int]);
        let ghost prev = c@;
        match apply_payload_item(c, &items[i]) {
            Ok(d) => {
                c = d;
            },
            Err(e) => {
                assert(spec_payload_items(items@.take(i + 1)) == spec_apply_payload_item(prev, items@[i as int]));
                proof {
                    lemma_payload_error_stays(items@, i + 1);
                }
                return Err((i, e));
            },
        }
        i = i + 1;
    }
    assert(items@.take(n as int) =~= items@);
    proof {
        assert forall|j: int| !#[trigger] payload_fails_at(items@, j) by {
            if payload_fails_at(items@, j) {
                lemma_payload_error_stays(items@, j + 1);
            }
        }
    }
    Ok(c)
}

/// The body format the `req` key names: the `RequestBuilder` method
/// `query`, `json` or `form`; any other name is none of them.
pub fn body_format_of(req: &str) -> (r: Option<BodyFormat>)
    ensures
        req@ == "query"@ ==> r == Some(BodyFormat::Query),
        req@ == "json"@ ==> r == Some(BodyFormat::Json),
        req@ == "form"@ ==> r == Some(BodyFormat::Form),
        req@ != "query"@ && req@ != "json"@ && req@ != "form"@ ==> r is None,
{
    proof {
        reveal_strlit("query");
        reveal_strlit("json");
        reveal_strlit("form");
        assert("query"@.len() != "json"@.len());
        assert("query"@.len() != "form"@.len());
        assert("json"@[0] != "form"@[0]);
    }
    if equals(req, "query") {
        Some(BodyFormat::Query)
    } else if equals(req, "json") {
        Some(BodyFormat::Json)
    } else if equals(req, "form") {
        Some(BodyFormat::Form)
    } else {
        None
    }
}

// ---------------------------------------------------------------------------
// `#[derive(ApiCaller)]`

/// What `#[derive(ApiCaller)]` generates, as source texts: the base URL
/// expression; the default headers as (key, value) expressions; those whose
/// value is read from an environment variable (key, variable name), first
/// the ones that must be set, then the ones left out when unset; and the
/// redirect policy expression, if one is given.
pub struct CallerDerive {
    pub base_url: String,
    pub default_headers: Vec<(String, String)>,
    pub env_headers: Vec<(String, String)>,
    pub env_headers_or_omit: Vec<(String, String)>,
    pub redirect: Option<String>,
}

/// What the derive has read so far; the base URL may still be missing.
pub struct CallerItemsView {
    pub base_url: Option<Seq<char>>,
    pub default_headers: Seq<(Seq<char>, Seq<char>)>,
    pub env_headers: Seq<(Seq<char>, Seq<char>)>,
    pub env_headers_or_omit: Seq<(Seq<char>, Seq<char>)>,
    pub redirect: Option<Seq<char>>,
}

/// A `CallerDerive` taken by its views.
pub struct CallerDeriveView {
    pub base_url: Seq<char>,
    pub default_headers: Seq<(Seq<char>, Seq<char>)>,
    pub env_headers: Seq<(Seq<char>, Seq<char>)>,
    pub env_headers_or_omit: Seq<(Seq<char>, Seq<char>)>,
    pub redirect: Option<Seq<char>>,
}

impl View for CallerDerive {
    type V = CallerDeriveView;

    open spec fn view(&self) -> CallerDeriveView {
        CallerDeriveView {
            base_url: self.base_url@,
            default_headers: pairs_view(self.default_headers@),
            env_headers: pairs_view(self.env_headers@),
            env_headers_or_omit: pairs_view(self.env_headers_or_omit@),
            redirect: opt_view(self.redirect),
        }
    }
}

/// The message when the struct has no `api_req` attribute.
pub open spec fn attribute_needed() -> Seq<char> {
    "api_req attribute is needed"@
}

/// The message when the attribute gives no base URL.
pub open spec fn base_url_needed() -> Seq<char> {
    "base_url must be provided"@
}

/// Nothing read yet.
pub open spec fn empty_caller_items() -> CallerItemsView {
    CallerItemsView {
        base_url: None,
        default_headers: Seq::empty(),
        env_headers: Seq::empty(),
        env_headers_or_omit: Seq::empty(),
        redirect: None,
    }
}

/// One element of a pair list: a tuple of two expressions, kept as they
/// are; `what` names the two in the message for a tuple of another size.
pub open spec fn spec_caller_pair(elem: Result<Vec<AttrExpr>, String>, what: Seq<char>) -> Result<(Seq<char>, Seq<char>), Seq<char>> {
    match elem {
        Err(e) => Err(e@),
        Ok(kv) => if kv@.len() != 2 {
            Err(pair_error(what, kv@.len()))
        } else {
            Ok((kv@[0].source@, kv@[1].source@))
        },
    }
}

/// The elements of a pair list, in order; the first bad one ends it.
pub open spec fn spec_caller_pairs(elems: Seq<Result<Vec<AttrExpr>, String>>, what: Seq<char>) -> Result<Seq<(Seq<char>, Seq<char>)>, Seq<char>>
    decreases elems.len(),
{
    if elems.len() == 0 {
        Ok(Seq::empty())
    } else {
        match spec_caller_pairs(elems.drop_last(), what) {
            Err(e) => Err(e),
            Ok(ps) => match spec_caller_pair(elems.last(), what) {
                Err(e) => Err(e),
                Ok(p) => Ok(ps.push(p)),
            },
        }
    }
}

/// The keys `#[derive(ApiCaller)]` knows.
pub open spec fn is_caller_key(k: Seq<char>) -> bool {
    k == "base_url"@ || k == "default_headers"@ || k == "default_headers_env"@
        || k == "default_headers_env_or_default"@ || k == "redirect"@
}

/// The pair list of a key, an array or a tuple, read with the message that
/// names its pairs.
pub open spec fn spec_caller_array(v: MetaValue, what: Seq<char>) -> Result<Seq<(Seq<char>, Seq<char>)>, Seq<char>> {
    match value_list(v) {
        Err(e) => Err(e),
        Ok(elems) => spec_caller_pairs(elems, what),
    }
}

/// One item of the attribute applied to what the derive has read so far.
/// A `redirect` whose value is no expression is not covered: the derive
/// panics on it.
pub open spec fn spec_apply_caller_item(c: CallerItemsView, m: MetaItem) -> Result<CallerItemsView, Seq<char>> {
    let k = m.key@;
    if !is_caller_key(k) {
        Err(unsupported_meta())
    } else {
        match m.value {
            Err(e) => Err(e@),
            Ok(v) => if k == "base_url"@ {
                match v.as_expr {
                    Err(e) => Err(e@),
                    Ok(x) => Ok(CallerItemsView { base_url: Some(x@), ..c }),
                }
            } else if k == "default_headers"@ {
                match spec_caller_array(v, "header_key, header_value"@) {
                    Err(e) => Err(e),
                    Ok(ps) => Ok(CallerItemsView { default_headers: c.default_headers + ps, ..c }),
                }
            } else if k == "default_headers_env"@ {
                match spec_caller_array(v, "header_key, env_var"@) {
                    Err(e) => Err(e),
                    Ok(ps) => Ok(CallerItemsView { env_headers: c.env_headers + ps, ..c }),
                }
            } else if k == "default_headers_env_or_default"@ {
                match spec_caller_array(v, "header_key, env_var"@) {
                    Err(e) => Err(e),
                    Ok(ps) => Ok(CallerItemsView { env_headers_or_omit: c.env_headers_or_omit + ps, ..c }),
                }
            } else {
                match v.as_expr {
                    Err(e) => Err(e@),
                    Ok(x) => Ok(CallerItemsView { redirect: Some(x@), ..c }),
                }
            },
        }
    }
}

/// The items applied in order; the first error ends it.
pub open spec fn spec_caller_items(items: Seq<MetaItem>) -> Result<CallerItemsView, Seq<char>>
    decreases items.len(),
{
    if items.len() == 0 {
        Ok(empty_caller_items())
    } else {
        match spec_caller_items(items.drop_last()) {
            Err(e) => Err(e),
            Ok(c) => spec_apply_caller_item(c, items.last()),
        }
    }
}

/// Item `i` is a `redirect` with a value that is no expression.
pub open spec fn is_bad_redirect(m: MetaItem) -> bool {
    &&& m.key@ == "redirect"@
    &&& m.value matches Ok(v)
    &&& v.as_expr is Err
}

/// The derive reaches a `redirect` item whose value is no expression
/// (and panics there): every item before it was read without error.
pub open spec fn caller_reaches_bad_redirect(items: Seq<MetaItem>) -> bool {
    exists|i: int| 0 <= i < items.len() && #[trigger] is_bad_redirect(items[i]) && spec_caller_items(items.take(i)) is Ok
}

/// What `#[derive(ApiCaller)]` makes of its attribute.
pub open spec fn spec_derive_caller(attr: Option<AttrArgs>) -> Result<CallerDeriveView, Seq<char>> {
    match attr {
        None => Err(attribute_needed()),
        Some(a) => match spec_caller_items(a.items@) {
            Err(e) => Err(e),
            Ok(c) => match a.rest_error {
                Some(e) => Err(e@),
                None => match c.base_url {
                    None => Err(base_url_needed()),
                    Some(b) => Ok(CallerDeriveView {
                        base_url: b,
                        default_headers: c.default_headers,
                        env_headers: c.env_headers,
                        env_headers_or_omit: c.env_headers_or_omit,
                        redirect: c.redirect,
                    }),
                },
            },
        },
    }
}

proof fn lemma_caller_error_stays(items: Seq<MetaItem>, i: int)
    requires
        0 <= i <= items.len(),
        spec_caller_items(items.take(i)) is Err,
    ensures
        spec_caller_items(items) == spec_caller_items(items.take(i)),
    decreases items.len() - i,
{
    if i < items.len() {
        assert(items.take(i + 1).drop_last() =~= items.take(i));
        lemma_caller_error_stays(items, i + 1);
    } else {
        assert(items.take(i) =~= items);
    }
}

proof fn lemma_pairs_error_stays(elems: Seq<Result<Vec<AttrExpr>, String>>, what: Seq<char>, i: int)
    requires
        0 <= i <= elems.len(),
        spec_caller_pairs(elems.take(i), what) is Err,
    ensures
        spec_caller_pairs(elems, what) == spec_caller_pairs(elems.take(i), what),
    decreases elems.len() - i,
{
    if i < elems.len() {
        assert(elems.take(i + 1).drop_last() =~= elems.take(i));
        lemma_pairs_error_stays(elems, what, i + 1);
    } else {
        assert(elems.take(i) =~= elems);
    }
}

fn caller_pairs(elems: &Vec<Result<Vec<AttrExpr>, String>>, what: &str) -> (r: Result<Vec<(String, String)>, String>)
    ensures
        match spec_caller_pairs(elems@, what@) {
            Ok(ps) => r matches Ok(v) && pairs_view(v@) == ps,
            Err(e) => r matches Err(t) && t@ == e,
        },
{
    let mut out: Vec<(String, String)> = Vec::new();
    assert(pairs_view(out@) =~= Seq::<(Seq<char>, Seq<char>)>::empty());
    let n = elems.len();
    let mut i: usize = 0;
    assert(elems@.take(0) =~= Seq::<Result<Vec<AttrExpr>, String>>::empty());
    while i < n
        invariant
            n == elems@.len(),
            i <= n,
            spec_caller_pairs(elems@.take(i as int), what@) == Ok::<Seq<(Seq<char>, Seq<char>)>, Seq<char>>(pairs_view(out@)),
        decreases n - i,
    {
        assert(elems@.take(i + 1).drop_last() =~= elems@.take(i as int));
        assert(elems@.take(i + 1).last() == elems@[i as int]);
        match &elems[i] {
            Err(e) => {
                proof {
                    lemma_pairs_error_stays(elems@, what@, i + 1);
                }
                return Err(e.clone());
            },
            Ok(kv) => {
                if kv.len() != 2 {
                    proof {
                        lemma_pairs_error_stays(elems@, what@, i + 1);
                    }
                    return Err(pair_error_text(what, kv.len()));
                }
                let p = (kv[0].source.clone(), kv[1].source.clone());
                let ghost before = out@;
                out.push(p);
                assert(pairs_view(out@) =~= pairs_view(before).push((p.0@, p.1@)));
            },
        }
        i = i + 1;
    }
    assert(elems@.take(n as int) =~= elems@);
    Ok(out)
}

fn caller_array(v: &MetaValue, what: &str) -> (r: Result<Vec<(String, String)>, String>)
    ensures
        match spec_caller_array(*v, what@) {
            Ok(ps) => r matches Ok(x) && pairs_view(x@) == ps,
            Err(e) => r matches Err(t) && t@ == e,
        },
{
    match list_of(v) {
        Err(e) => Err(e),
        Ok(elems) => caller_pairs(elems, what),
    }
}

/// What the derive has read so far.
/// What `#[derive(ApiCaller)]` has read so far, as source texts.
pub struct CallerItems {
    pub base_url: Option<String>,
    pub default_headers: Vec<(String, String)>,
    pub env_headers: Vec<(String, String)>,
    pub env_headers_or_omit: Vec<(String, String)>,
    pub redirect: Option<String>,
}

impl View for CallerItems {
    type V = CallerItemsView;

    closed spec fn view(&self) -> CallerItemsView {
        CallerItemsView {
            base_url: opt_view(self.base_url),
            default_headers: pairs_view(self.default_headers@),
            env_headers: pairs_view(self.env_headers@),
            env_headers_or_omit: pairs_view(self.env_headers_or_omit@),
            redirect: opt_view(self.redirect),
        }
    }
}

fn append_pairs(dst: &mut Vec<(String, String)>, src: Vec<(String, String)>)
    ensures
        pairs_view(final(dst)@) == pairs_view(old(dst)@) + pairs_view(src@),
{
    let ghost before = dst@;
    let ghost added = src@;
    let mut src = src;
    dst.append(&mut src);
    assert(pairs_view(dst@) =~= pairs_view(before) + pairs_view(added));
}

fn apply_caller_item(c: CallerItems, m: &MetaItem) -> (r: Result<CallerItems, String>)
    requires
        !is_bad_redirect(*m),
    ensures
        match spec_apply_caller_item(c@, *m) {
            Ok(v) => r matches Ok(d) && d@ == v,
            Err(e) => r matches Err(t) && t@ == e,
        },
{
    let k = m.key.as_str();
    let is_base = equals(k, "base_url");
    let is_headers = equals(k, "default_headers");
    let is_env = equals(k, "default_headers_env");
    let is_env_or = equals(k, "default_headers_env_or_default");
    let is_redirect = equals(k, "redirect");
    if !(is_base || is_headers || is_env || is_env_or || is_redirect) {
        return Err(unsupported_meta_text());
    }
    let v = match &m.value {
        Err(e) => {
            return Err(e.clone());
        },
        Ok(v) => v,
    };
    let mut c = c;
    if is_base {
        match clone_result(&v.as_expr) {
            Err(e) => Err(e),
            Ok(x) => {
                c.base_url = Some(x);
                Ok(c)
            },
        }
    } else if is_headers {
        match caller_array(v, "header_key, header_value") {
            Err(e) => Err(e),
            Ok(ps) => {
                append_pairs(&mut c.default_headers, ps);
                Ok(c)
            },
        }
    } else if is_env {
        match caller_array(v, "header_key, env_var") {
            Err(e) => Err(e),
            Ok(ps) => {
                append_pairs(&mut c.env_headers, ps);
                Ok(c)
            },
        }
    } else if is_env_or {
        match caller_array(v, "header_key, env_var") {
            Err(e) => Err(e),
            Ok(ps) => {
                append_pairs(&mut c.env_headers_or_omit, ps);
                Ok(c)
            },
        }
    } else {
        match clone_result(&v.as_expr) {
            Err(e) => Err(e),
            Ok(x) => {
                c.redirect = Some(x);
                Ok(c)
            },
        }
    }
}

/// Whether an item is a `redirect` whose value is no expression.
fn bad_redirect(m: &MetaItem) -> (b: bool)
    ensures
        b == is_bad_redirect(*m),
{
    if !equals(m.key.as_str(), "redirect") {
        return false;
    }
    match &m.value {
        Ok(v) => v.as_expr.is_err(),
        Err(_) => false,
    }
}

proof fn lemma_caller_error_prefix(items: Seq<MetaItem>, i: int, j: int)
    requires
        0 <= i <= j <= items.len(),
        spec_caller_items(items.take(i)) is Err,
    ensures
        spec_caller_items(items.take(j)) is Err,
    decreases j - i,
{
    if i < j {
        lemma_caller_error_prefix(items, i, j - 1);
        assert(items.take(j).drop_last() =~= items.take(j - 1));
    }
}

/// Reads the attribute of `#[derive(ApiCaller)]` (see `caller_attr`;
/// `None`: the struct has none, which is refused). Keys: `base_url` (required),
/// `default_headers` (a list, tuple or array, of (key, value) tuples),
/// `default_headers_env` and `default_headers_env_or_default` (lists of
/// (key, environment variable) tuples) and `redirect`. Any other key is refused with
/// `unsupported meta`. The result is `None` where the derive gives up
/// without a message: at a `redirect` whose value is no expression, reached
/// with every item before it read.
pub fn derive_api_caller(attr: Option<AttrArgs>) -> (r: Option<Result<CallerDerive, String>>)
    ensures
        r is None <==> (attr matches Some(a) && caller_reaches_bad_redirect(a.items@)),
        r matches Some(res) ==> match spec_derive_caller(attr) {
            Ok(v) => res matches Ok(d) && d@ == v,
            Err(e) => res matches Err(t) && t@ == e,
        },
{
    let args = match attr {
        None => {
            return Some(Err(String::from_str("api_req attribute is needed")));
        },
        Some(a) => a,
    };
    let c = match caller_items(&args.items) {
        Err((_, None)) => {
            return None;
        },
        Err((_, Some(e))) => {
            return Some(Err(e));
        },
        Ok(c) => c,
    };
    if let Some(e) = args.rest_error {
        return Some(Err(e));
    }
    match c.base_url {
        None => Some(Err(String::from_str("base_url must be provided"))),
        Some(b) => Some(Ok(CallerDerive {
            base_url: b,
            default_headers: c.default_headers,
            env_headers: c.env_headers,
            env_headers_or_omit: c.env_headers_or_omit,
            redirect: c.redirect,
        })),
    }
}

/// Item `i` is where reading `items` stops with an error: every item before
/// it reads, and it does not.
pub open spec fn caller_fails_at(items: Seq<MetaItem>, i: int) -> bool {
    &&& 0 <= i < items.len()
    &&& spec_caller_items(items.take(i)) is Ok
    &&& spec_caller_items(items.take(i + 1)) is Err
}

/// The items of `#[derive(ApiCaller)]`'s attribute read in order: what
/// the derive has after all of them; or the item where the first error
/// stands, with its message; or, with no message, the item where the
/// derive gives up (a `redirect` whose value is no expression).
pub fn caller_items(items: &Vec<MetaItem>) -> (r: Result<CallerItems, (usize, Option<String>)>)
    ensures
        match r {
            Ok(c) => spec_caller_items(items@) == Ok::<CallerItemsView, Seq<char>>(c@)
                && !caller_reaches_bad_redirect(items@)
                && forall|i: int| !#[trigger] caller_fails_at(items@, i),
            Err((i, Some(e))) => caller_fails_at(items@, i as int)
                && spec_caller_items(items@) == Err::<CallerItemsView, Seq<char>>(e@)
                && !caller_reaches_bad_redirect(items@),
            Err((i, None)) => i < items@.len() && is_bad_redirect(items@[i as int])
                && spec_caller_items(items@.take(i as int)) is Ok,
        },
{
    let mut c = CallerItems {
        base_url: None,
        default_headers: Vec::new(),
        env_headers: Vec::new(),
        env_headers_or_omit: Vec::new(),
        redirect: None,
    };
    assert(pairs_view(c.default_headers@) =~= Seq::<(Seq<char>, Seq<char>)>::empty());
    assert(pairs_view(c.env_headers@) =~= Seq::<(Seq<char>, Seq<char>)>::empty());
    assert(pairs_view(c.env_headers_or_omit@) =~= Seq::<(Seq<char>, Seq<char>)>::empty());
    assert(c@ == empty_caller_items());
    let n = items.len();
    let mut i: usize = 0;
    assert(items@.take(0) =~= Seq::<MetaItem>::empty());
    while i < n
        invariant
            n == items@.len(),
            i <= n,
            forall|j: int| 0 <= j < i ==> !is_bad_redirect(#[trigger] items@[j]),
            spec_caller_items(items@.take(i as int)) == Ok::<CallerItemsView, Seq<char>>(c@),
        decreases n - i,
    {
        assert(items@.take(i + 1).drop_last() =~= items@.take(i as int));
        assert(items@.take(i + 1).last() == items@[i as int]);
        if bad_redirect(&items[i]) {
            assert(is_bad_redirect(items@[i as int]) && spec_caller_items(items@.take(i as int)) is Ok);
            return Err((i, None));
        }
        let ghost prev = c@;
        match apply_caller_item(c, &items[i]) {
            Ok(d) => {
                c = d;
            },
            Err(e) => {
                assert(spec_caller_items(items@.take(i + 1)) == spec_apply_caller_item(prev, items@[i as int]));
                proof {
                    lemma_caller_error_stays(items@, i + 1);
                    assert forall|j: int| 0 <= j < items@.len() && #[trigger] is_bad_redirect(items@[j])
                        implies !(spec_caller_items(items@.take(j)) is Ok) by {
                        if j > i {
                            lemma_caller_error_prefix(items@, i + 1, j);
                        }
                    }
                }
                return Err((i, Some(e)));
            },
        }
        i = i + 1;
    }
    assert(items@.take(n as int) =~= items@);
    proof {
        assert forall|j: int| !#[trigger] caller_fails_at(items@, j) by {
            if caller_fails_at(items@, j) {
                lemma_caller_error_stays(items@, j + 1);
            }
        }
    }
    Ok(c)
}

/// The derive's path is the `format!` call of the path literal exactly as
/// written: an attribute whose only item is `path = p` gives the defaults
/// with the path source of `p` itself (a relative path stays relative, so
/// it is joined under the base URL's own path).
pub proof fn law_derive_path_as_written(args: AttrArgs, p: String)
    requires
        args.items@.len() == 1,
        args.items@[0].key@ == "path"@,
        args.items@[0].value matches Ok(v) && v.as_str == Ok::<String, String>(p),
        args.rest_error is None,
    ensures
        match spec_format_source(p@) {
            Ok(src) => spec_derive_payload(Some(args))
                == Ok::<PayloadDeriveView, Seq<char>>(PayloadDeriveView { path: src, ..default_payload_derive() }),
            Err(e) => spec_derive_payload(Some(args)) == Err::<PayloadDeriveView, Seq<char>>(e),
        },
{
    let items = args.items@;
    assert(items.drop_last() =~= Seq::<MetaItem>::empty());
    assert(items.last() == items[0]);
    assert(spec_payload_items(items.drop_last()) == Ok::<PayloadDeriveView, Seq<char>>(default_payload_derive()));
    assert(spec_payload_items(items) == spec_apply_payload_item(default_payload_derive(), items[0]));
    let v = items[0].value->Ok_0;
    assert(v.as_str == Ok::<String, String>(p));
    match spec_format_source(p@) {
        Ok(src) => {
            assert(spec_apply_payload_item(default_payload_derive(), items[0])
                == Ok::<PayloadDeriveView, Seq<char>>(PayloadDeriveView { path: src, ..default_payload_derive() }));
        },
        Err(e) => {},
    }
}

/// `#[derive(Payload)]` refuses an attribute whose first key it does not
/// know, whatever follows.
pub proof fn law_payload_unknown_first_key(args: AttrArgs)
    requires
        args.items@.len() > 0,
        !(args.items@[0].key@ == "path"@ || args.items@[0].key@ == "method"@ || args.items@[0].key@ == "headers"@
            || args.items@[0].key@ == "req"@ || args.items@[0].key@ == "before_deserialize"@
            || args.items@[0].key@ == "deserialize"@),
    ensures
        spec_derive_payload(Some(args)) == Err::<PayloadDeriveView, Seq<char>>(unsupported_meta()),
{
    let items = args.items@;
    assert(items.take(1).drop_last() =~= items.take(0));
    assert(items.take(0) =~= Seq::<MetaItem>::empty());
    assert(items.take(1).last() == items[0]);
    assert(spec_payload_items(items.take(0)) == Ok::<PayloadDeriveView, Seq<char>>(default_payload_derive()));
    assert(spec_payload_items(items.take(1)) == spec_apply_payload_item(default_payload_derive(), items[0]));
    lemma_payload_error_stays(items, 1);
}

/// `#[derive(ApiCaller)]` refuses an attribute without a `base_url` item.
pub proof fn law_caller_needs_base_url(args: AttrArgs)
    requires
        forall|i: int| 0 <= i < args.items@.len() ==> (#[trigger] args.items@[i]).key@ != "base_url"@,
    ensures
        spec_derive_caller(Some(args)) is Err,
{
    lemma_no_base_url(args.items@);
}

proof fn lemma_no_base_url(items: Seq<MetaItem>)
    requires
        forall|i: int| 0 <= i < items.len() ==> (#[trigger] items[i]).key@ != "base_url"@,
    ensures
        spec_caller_items(items) matches Ok(c) ==> c.base_url is None,
    decreases items.len(),
{
    if items.len() > 0 {
        let t = items.drop_last();
        assert forall|i: int| 0 <= i < t.len() implies (#[trigger] t[i]).key@ != "base_url"@ by {
            assert(t[i] == items[i]);
        }
        lemma_no_base_url(t);
        assert(items.last().key@ != "base_url"@);
    }
}

} // verus!
