//! Reading the attributes of a derive's input: the item's tokens are
//! parsed with `syn`, each attribute's list is read as `key = value` items,
//! and each value is taken apart into the forms the derives ask for.

use vstd::prelude::*;
use vstd::string::StringExecFns;
use quote::ToTokens;
use syn::spanned::Spanned;
use crate::derive::{
    caller_attr, caller_fails_at, caller_items, caller_reaches_bad_redirect, derive_api_caller,
    derive_payload, first_named, first_named_at, first_named_index, opt_view, payload_attr,
    payload_fails_at, payload_items, spec_derive_caller, spec_derive_payload, AttrArgs, AttrExpr,
    CallerDerive, MetaItem, MetaValue, NamedAttr, PayloadDerive,
};

verus! {

/// An attribute of a parsed item.
#[verifier::external_type_specification]
#[verifier::external_body]
pub struct ExAttribute(syn::Attribute);

/// An item of an attribute's list: a path, a list or `path = value`.
#[verifier::external_type_specification]
#[verifier::external_body]
pub struct ExMeta(syn::Meta);

/// A Rust expression.
#[verifier::external_type_specification]
#[verifier::external_body]
pub struct ExExpr(syn::Expr);

/// A sequence of tokens: a derive's input.
#[verifier::external_type_specification]
#[verifier::external_body]
pub struct ExTokenStream(proc_macro2::TokenStream);

/// Where tokens stand in the source, for error messages.
#[verifier::external_type_specification]
#[verifier::external_body]
pub struct ExSpan(proc_macro2::Span);

/// An expression as read from the item: its source text (its tokens,
/// printed) and its form.
pub struct ExprText {
    pub source: String,
    pub shape: ExprShape,
}

/// The form of an expression, as far as the derives look at it.
pub enum ExprShape {
    /// A string literal, with its value.
    Str(String),
    /// A path; its identifier when it is a single one.
    Path(Option<String>),
    /// An array `[..]`, with its elements.
    Array(Vec<ExprText>),
    /// A tuple `(..)`, with its elements.
    Tuple(Vec<ExprText>),
    /// Anything else.
    Other,
}

/// An item of an attribute's list as read: its key (source text), where
/// the key stands and, when it is written `key = value`, the value.
pub struct RawItem {
    pub key: String,
    pub key_span: proc_macro2::Span,
    pub value: Option<ExprText>,
}

/// An attribute as read: its name (source text) and its items, or the
/// parser's message when its list does not read as items.
pub struct RawAttr {
    pub name: String,
    pub items: Result<Vec<RawItem>, String>,
}

/// Parses `input` with `syn::parse2::<syn::DeriveInput>` and gives the
/// item's outer attributes, or the parser's message. Nothing is claimed
/// of the outcome: the tokens are opaque here.
#[verifier::external_body]
fn parse_item_attrs(input: proc_macro2::TokenStream) -> Result<Vec<syn::Attribute>, String> {
    syn::parse2::<syn::DeriveInput>(input).map(|d| d.attrs).map_err(|e| e.to_string())
}

/// The path of an attribute as source text (`Attribute::path`).
#[verifier::external_body]
fn attr_name(a: &syn::Attribute) -> String {
    a.path().to_token_stream().to_string()
}

/// The list of an attribute read with `Attribute::parse_args_with` as items
/// separated by commas (`Punctuated::<Meta, Comma>::parse_terminated`), or
/// the parser's message.
#[verifier::external_body]
fn attr_metas(a: &syn::Attribute) -> Result<Vec<syn::Meta>, String> {
    a.parse_args_with(syn::punctuated::Punctuated::<syn::Meta, syn::token::Comma>::parse_terminated)
        .map(|p| p.into_iter().collect())
        .map_err(|e| e.to_string())
}

/// The key of an item as source text, where the key stands (`span()`),
/// and its value when it is written `key = value`.
#[verifier::external_body]
fn meta_parts(m: &syn::Meta) -> (String, proc_macro2::Span, Option<syn::Expr>) {
    match m {
        syn::Meta::Path(p) => (p.to_token_stream().to_string(), p.span(), None),
        syn::Meta::List(l) => (l.path.to_token_stream().to_string(), l.path.span(), None),
        syn::Meta::NameValue(nv) => (nv.path.to_token_stream().to_string(), nv.path.span(), Some(nv.value.clone())),
    }
}

/// An expression as the library keeps it: its tokens printed, and which
/// variant of `syn::Expr` (and of `syn::Lit`) it is, with the string
/// literal's value, the single identifier of a path, and the elements of
/// an array or a tuple, each kept the same way.
#[verifier::external_body]
fn expr_text(e: &syn::Expr) -> ExprText {
    let shape = match e {
        syn::Expr::Lit(l) => match &l.lit {
            syn::Lit::Str(s) => ExprShape::Str(s.value()),
            _ => ExprShape::Other,
        },
        syn::Expr::Path(p) => ExprShape::Path(p.path.get_ident().map(|i| i.to_string())),
        syn::Expr::Array(a) => ExprShape::Array(a.elems.iter().map(expr_text).collect()),
        syn::Expr::Tuple(t) => ExprShape::Tuple(t.elems.iter().map(expr_text).collect()),
        _ => ExprShape::Other,
    };
    ExprText { source: e.to_token_stream().to_string(), shape }
}

/// The tokens `input` did not parse as an item, and `e` is the parser's
/// message (an outcome of `parse_item_attrs`).
pub closed spec fn item_not_parsed(input: proc_macro2::TokenStream, e: String) -> bool {
    call_ensures(parse_item_attrs, (input,), Err::<Vec<syn::Attribute>, String>(e))
}

/// The tokens `input` parsed as an item whose outer attributes are `attrs`
/// (an outcome of `parse_item_attrs`).
pub closed spec fn item_attrs(input: proc_macro2::TokenStream, attrs: Seq<syn::Attribute>) -> bool {
    exists|v: Vec<syn::Attribute>| #[trigger] call_ensures(parse_item_attrs, (input,), Ok::<Vec<syn::Attribute>, String>(v))
        && v@ == attrs
}

/// The list of attribute `a` did not read as items, and `e` is the
/// parser's message (an outcome of `attr_metas`).
pub closed spec fn list_not_read(a: syn::Attribute, e: String) -> bool {
    call_ensures(attr_metas, (&a,), Err::<Vec<syn::Meta>, String>(e))
}

/// The list of attribute `a` read as `n` items (an outcome of `attr_metas`).
pub closed spec fn list_read_as(a: syn::Attribute, n: nat) -> bool {
    exists|metas: Vec<syn::Meta>| #[trigger] call_ensures(attr_metas, (&a,), Ok::<Vec<syn::Meta>, String>(metas))
        && metas@.len() == n
}

/// `r` is attribute `a` as read: its list's items, one for each item of the
/// list, or the message of a list that did not read as items.
pub open spec fn attr_as_read(a: syn::Attribute, r: RawAttr) -> bool {
    match r.items {
        Err(e) => list_not_read(a, e),
        Ok(items) => list_read_as(a, items@.len()),
    }
}

/// What the attribute reading gives, in the order of the item's tokens:
/// each attribute with its name and its items. The reading fails only
/// where the tokens are no item; an attribute whose list does not read as
/// items is kept with the parser's message, and the others are read. What
/// the parser gives is not claimed: the tokens are opaque here (see
/// `parse_item_attrs`).
pub fn read_input(input: proc_macro2::TokenStream) -> (r: Result<Vec<RawAttr>, String>)
    ensures
        match r {
            Err(e) => item_not_parsed(input, e),
            Ok(v) => exists|attrs: Seq<syn::Attribute>| #[trigger] item_attrs(input, attrs)
                && v@.len() == attrs.len()
                && forall|i: int| 0 <= i < v@.len() ==> #[trigger] attr_as_read(attrs[i], v@[i]),
        },
{
    let ghost given = input;
    let parsed = parse_item_attrs(input);
    let ghost outcome = parsed;
    let attrs = match parsed {
        Ok(a) => a,
        Err(e) => {
            proof {
                assert(item_not_parsed(given, e));
            }
            return Err(e);
        },
    };
    proof {
        assert(item_attrs(given, attrs@));
    }
    let mut out: Vec<RawAttr> = Vec::new();
    let n = attrs.len();
    let mut i: usize = 0;
    while i < n
        invariant
            n == attrs@.len(),
            i <= n,
            out@.len() == i,
            forall|j: int| 0 <= j < i ==> #[trigger] attr_as_read(attrs@[j], out@[j]),
        decreases n - i,
    {
        let listed = attr_metas(&attrs[i]);
        let ghost listed_outcome = listed;
        assert(call_ensures(attr_metas, (&attrs@[i as int],), listed_outcome));
        let items = match listed {
            Err(e) => Err(e),
            Ok(metas) => {
                let mut items: Vec<RawItem> = Vec::new();
                let m = metas.len();
                let mut j: usize = 0;
                while j < m
                    invariant
                        m == metas@.len(),
                        j <= m,
                        items@.len() == j,
                    decreases m - j,
                {
                    let (key, key_span, value) = meta_parts(&metas[j]);
                    let value = match value {
                        Some(e) => Some(expr_text(&e)),
                        None => None,
                    };
                    items.push(RawItem { key, key_span, value });
                    j = j + 1;
                }
                Ok(items)
            },
        };
        out.push(RawAttr { name: attr_name(&attrs[i]), items });
        i = i + 1;
    }
    Ok(out)
}

/// Reading a derive's input fails only where the tokens are no item: for
/// an item that parses, every attribute is kept, one for each, and an
/// attribute whose list does not read as items (such as a doc comment's
/// `#[doc = "..."]`) is kept with the parser's message instead of failing
/// the whole reading, so the attribute the derive picks is still read.
pub proof fn law_read_fails_only_when_no_item(input: proc_macro2::TokenStream, r: Result<Vec<RawAttr>, String>)
    requires
        call_ensures(read_input, (input,), r),
    ensures
        r matches Err(e) ==> item_not_parsed(input, e),
        r matches Ok(v) ==> exists|attrs: Seq<syn::Attribute>| #[trigger] item_attrs(input, attrs)
            && v@.len() == attrs.len()
            && forall|i: int| 0 <= i < v@.len() ==> (#[trigger] v@[i].items matches Err(e) ==> list_not_read(attrs[i], e)),
{
    if let Ok(v) = r {
        let attrs = choose|attrs: Seq<syn::Attribute>| #[trigger] item_attrs(input, attrs)
            && v@.len() == attrs.len()
            && forall|i: int| 0 <= i < v@.len() ==> #[trigger] attr_as_read(attrs[i], v@[i]);
        assert forall|i: int| 0 <= i < v@.len() implies (#[trigger] v@[i].items matches Err(e) ==> list_not_read(attrs[i], e)) by {
            assert(attr_as_read(attrs[i], v@[i]));
        }
    }
}

/// The value of a string literal, if the expression is one.
pub open spec fn str_of(shape: ExprShape) -> Option<Seq<char>> {
    match shape {
        ExprShape::Str(v) => Some(v@),
        _ => None,
    }
}

/// `a` keeps the expression `t`: its source and, for a string literal, its
/// value.
pub open spec fn part_read(t: ExprText, a: AttrExpr) -> bool {
    a.source@ == t.source@ && opt_view(a.str_value) == str_of(t.shape)
}

/// An element of a list read as a tuple: its parts kept, or, for anything
/// that is no tuple, `expected parentheses`.
pub open spec fn tuple_read(t: ExprText, r: Result<Vec<AttrExpr>, String>) -> bool {
    match t.shape {
        ExprShape::Tuple(parts) => r matches Ok(v) && v@.len() == parts@.len()
            && forall|i: int| 0 <= i < v@.len() ==> #[trigger] part_read(parts@[i], v@[i]),
        _ => r matches Err(e) && e@ == "expected parentheses"@,
    }
}

/// The elements of a list, each read as a tuple.
pub open spec fn list_read(elems: Seq<ExprText>, r: Seq<Result<Vec<AttrExpr>, String>>) -> bool {
    r.len() == elems.len() && forall|i: int| 0 <= i < r.len() ==> #[trigger] tuple_read(elems[i], r[i])
}

/// A `key = value` value read in each form a key may ask for: its source
/// as the expression; a string literal's value, or `expected string
/// literal`; a single identifier, or `expected identifier`; an array's
/// elements as tuples, or `expected square brackets`; a tuple's elements as
/// tuples, or `expected parentheses`.
pub open spec fn value_read(t: ExprText, v: MetaValue) -> bool {
    &&& v.as_expr matches Ok(s) && s@ == t.source@
    &&& match t.shape {
        ExprShape::Str(x) => v.as_str matches Ok(y) && y@ == x@,
        _ => v.as_str matches Err(m) && m@ == "expected string literal"@,
    }
    &&& match t.shape {
        ExprShape::Path(Some(x)) => v.as_ident matches Ok(y) && y@ == x@,
        _ => v.as_ident matches Err(m) && m@ == "expected identifier"@,
    }
    &&& match t.shape {
        ExprShape::Array(elems) => v.as_array matches Ok(l) && list_read(elems@, l@),
        _ => v.as_array matches Err(m) && m@ == "expected square brackets"@,
    }
    &&& match t.shape {
        ExprShape::Tuple(elems) => v.as_tuple matches Ok(l) && list_read(elems@, l@),
        _ => v.as_tuple matches Err(m) && m@ == "expected parentheses"@,
    }
}

/// An item read: its key, and its value read, or `expected `=`` for an
/// item that is not written `key = value`.
pub open spec fn item_read(r: RawItem, m: MetaItem) -> bool {
    &&& m.key@ == r.key@
    &&& match r.value {
        Some(t) => m.value matches Ok(v) && value_read(t, v),
        None => m.value matches Err(e) && e@ == "expected `=`"@,
    }
}

/// An attribute read: its name, and its items read in order; a list that
/// did not read as items gives no items and the parser's message.
pub open spec fn attr_read(r: RawAttr, a: NamedAttr) -> bool {
    &&& a.name@ == r.name@
    &&& match r.items {
        Ok(items) => {
            &&& a.args.rest_error is None
            &&& a.args.items@.len() == items@.len()
            &&& forall|i: int| 0 <= i < items@.len() ==> #[trigger] item_read(items@[i], a.args.items@[i])
        },
        Err(e) => a.args.items@.len() == 0 && (a.args.rest_error matches Some(x) && x@ == e@),
    }
}

/// The attributes read, one for each attribute as the reading gave it.
pub open spec fn attrs_read(raw: Seq<RawAttr>, attrs: Seq<NamedAttr>) -> bool {
    attrs.len() == raw.len() && forall|i: int| 0 <= i < raw.len() ==> #[trigger] attr_read(raw[i], attrs[i])
}

fn part_of(t: &ExprText) -> (a: AttrExpr)
    ensures
        part_read(*t, a),
{
    let str_value = match &t.shape {
        ExprShape::Str(v) => Some(v.clone()),
        _ => None,
    };
    AttrExpr { source: t.source.clone(), str_value }
}

fn tuple_of(t: &ExprText) -> (r: Result<Vec<AttrExpr>, String>)
    ensures
        tuple_read(*t, r),
{
    match &t.shape {
        ExprShape::Tuple(parts) => {
            let mut out: Vec<AttrExpr> = Vec::new();
            let n = parts.len();
            let mut i: usize = 0;
            while i < n
                invariant
                    n == parts@.len(),
                    i <= n,
                    out@.len() == i,
                    forall|j: int| 0 <= j < i ==> #[trigger] part_read(parts@[j], out@[j]),
                decreases n - i,
            {
                out.push(part_of(&parts[i]));
                i = i + 1;
            }
            Ok(out)
        },
        _ => Err(String::from_str("expected parentheses")),
    }
}

fn tuples_of(elems: &Vec<ExprText>) -> (r: Vec<Result<Vec<AttrExpr>, String>>)
    ensures
        list_read(elems@, r@),
{
    let mut out: Vec<Result<Vec<AttrExpr>, String>> = Vec::new();
    let n = elems.len();
    let mut i: usize = 0;
    while i < n
        invariant
            n == elems@.len(),
            i <= n,
            out@.len() == i,
            forall|j: int| 0 <= j < i ==> #[trigger] tuple_read(elems@[j], out@[j]),
        decreases n - i,
    {
        out.push(tuple_of(&elems[i]));
        i = i + 1;
    }
    out
}

/// A `key = value` value, read in each form a key may ask for (see
/// `value_read`).
pub fn meta_value_of(t: &ExprText) -> (v: MetaValue)
    ensures
        value_read(*t, v),
{
    let as_str = match &t.shape {
        ExprShape::Str(x) => Ok(x.clone()),
        _ => Err(String::from_str("expected string literal")),
    };
    let as_ident = match &t.shape {
        ExprShape::Path(Some(x)) => Ok(x.clone()),
        _ => Err(String::from_str("expected identifier")),
    };
    let as_array = match &t.shape {
        ExprShape::Array(elems) => Ok(tuples_of(elems)),
        _ => Err(String::from_str("expected square brackets")),
    };
    let as_tuple = match &t.shape {
        ExprShape::Tuple(elems) => Ok(tuples_of(elems)),
        _ => Err(String::from_str("expected parentheses")),
    };
    MetaValue { as_expr: Ok(t.source.clone()), as_str, as_ident, as_array, as_tuple }
}

/// An item of an attribute, read (see `item_read`).
pub fn item_of(r: &RawItem) -> (m: MetaItem)
    ensures
        item_read(*r, m),
{
    let value = match &r.value {
        Some(t) => Ok(meta_value_of(t)),
        None => Err(String::from_str("expected `=`")),
    };
    MetaItem { key: r.key.clone(), value }
}

fn attr_of(r: &RawAttr) -> (a: NamedAttr)
    ensures
        attr_read(*r, a),
{
    let args = match &r.items {
        Err(e) => AttrArgs { items: Vec::new(), rest_error: Some(e.clone()) },
        Ok(raw_items) => {
            let mut items: Vec<MetaItem> = Vec::new();
            let n = raw_items.len();
            let mut i: usize = 0;
            while i < n
                invariant
                    n == raw_items@.len(),
                    i <= n,
                    items@.len() == i,
                    forall|j: int| 0 <= j < i ==> #[trigger] item_read(raw_items@[j], items@[j]),
                decreases n - i,
            {
                items.push(item_of(&raw_items[i]));
                i = i + 1;
            }
            AttrArgs { items, rest_error: None }
        },
    };
    NamedAttr { name: r.name.clone(), args }
}

/// The attributes, each read from what the reading gave (see `attr_read`).
pub fn attrs_of(raw: &Vec<RawAttr>) -> (r: Vec<NamedAttr>)
    ensures
        attrs_read(raw@, r@),
{
    let mut out: Vec<NamedAttr> = Vec::new();
    let n = raw.len();
    let mut i: usize = 0;
    while i < n
        invariant
            n == raw@.len(),
            i <= n,
            out@.len() == i,
            forall|j: int| 0 <= j < i ==> #[trigger] attr_read(raw@[j], out@[j]),
        decreases n - i,
    {
        out.push(attr_of(&raw[i]));
        i = i + 1;
    }
    out
}

/// What a derive made of an item's tokens, beside what the reading of the
/// tokens gave and where the key of the item that the derive refused
/// stands, when it refused one.
pub struct FromSource<T> {
    pub read: Result<Vec<RawAttr>, String>,
    pub derived: T,
    pub at: Option<proc_macro2::Span>,
}

/// `r` is what `derive_payload` gives for the attribute of `attrs` that
/// `payload_attr` picks.
pub open spec fn payload_from(attrs: Seq<NamedAttr>, r: Result<PayloadDerive, String>) -> bool {
    match spec_derive_payload(first_named(attrs, "api_req"@, "payload"@)) {
        Ok(v) => r matches Ok(d) && d@ == v,
        Err(e) => r matches Err(t) && t@ == e,
    }
}

/// `at` is where the key of the item that `#[derive(Payload)]` refuses
/// stands (in the attribute it reads), or `None` when it refuses no item.
pub open spec fn payload_refused_at(raw: Seq<RawAttr>, attrs: Seq<NamedAttr>, at: Option<proc_macro2::Span>) -> bool {
    match at {
        Some(sp) => exists|k: int, i: int|
            #![trigger first_named_at(attrs, "api_req"@, "payload"@, k), payload_fails_at(attrs[k].args.items@, i)]
            first_named_at(attrs, "api_req"@, "payload"@, k) && payload_fails_at(attrs[k].args.items@, i)
                && (raw[k].items matches Ok(items) && items@[i].key_span == sp),
        None => forall|k: int, i: int|
            #![trigger first_named_at(attrs, "api_req"@, "payload"@, k), payload_fails_at(attrs[k].args.items@, i)]
            first_named_at(attrs, "api_req"@, "payload"@, k) ==> !payload_fails_at(attrs[k].args.items@, i),
    }
}

/// Two attributes that are both the first named `a` or `b` are one.
proof fn lemma_first_named_at_unique(attrs: Seq<NamedAttr>, a: Seq<char>, b: Seq<char>, k: int, l: int)
    requires
        first_named_at(attrs, a, b, k),
        first_named_at(attrs, a, b, l),
    ensures
        k == l,
{
    if k < l {
        assert(attrs[k].name@ != a && attrs[k].name@ != b);
    } else if l < k {
        assert(attrs[l].name@ != a && attrs[l].name@ != b);
    }
}

/// What `#[derive(Payload)]` makes of the item whose tokens are `input`:
/// the attributes are read (`read_input`), and the result is the reading's
/// error, or what `derive_payload` gives for the attribute that
/// `payload_attr` picks among the attributes read (`attrs_of`), with where
/// the key of the item it refuses stands.
pub fn derive_payload_source(input: proc_macro2::TokenStream) -> (r: FromSource<Result<PayloadDerive, String>>)
    ensures
        match r.read {
            Err(e) => r.derived matches Err(t) && t@ == e@ && r.at is None,
            Ok(raw) => exists|attrs: Seq<NamedAttr>| attrs_read(raw@, attrs) && #[trigger] payload_from(attrs, r.derived)
                && payload_refused_at(raw@, attrs, r.at),
        },
{
    match read_input(input) {
        Err(e) => FromSource { read: Err(e.clone()), derived: Err(e), at: None },
        Ok(raw) => {
            let attrs = attrs_of(&raw);
            let ghost read = attrs@;
            let at = match first_named_index(&attrs, "api_req", "payload") {
                None => None,
                Some(k) => match payload_items(&attrs[k].args.items) {
                    Ok(_) => {
                        proof {
                            assert forall|k2: int, i: int|
                                first_named_at(read, "api_req"@, "payload"@, k2)
                                implies !payload_fails_at(read[k2].args.items@, i) by {
                                lemma_first_named_at_unique(read, "api_req"@, "payload"@, k as int, k2);
                            }
                        }
                        None
                    },
                    Err((i, _)) => {
                        proof {
                            assert(attr_read(raw@[k as int], read[k as int]));
                        }
                        match &raw[k].items {
                            Ok(items) => {
                                let sp = items[i].key_span;
                                assert(payload_fails_at(read[k as int].args.items@, i as int));
                                Some(sp)
                            },
                            Err(_) => None,
                        }
                    },
                },
            };
            let derived = derive_payload(payload_attr(attrs));
            assert(payload_from(read, derived));
            FromSource { read: Ok(raw), derived, at }
        },
    }
}

/// `r` is what `derive_api_caller` gives for the attribute of `attrs` that
/// `caller_attr` picks.
pub open spec fn caller_from(attrs: Seq<NamedAttr>, r: Option<Result<CallerDerive, String>>) -> bool {
    let attr = first_named(attrs, "api_req"@, "api"@);
    &&& r is None <==> (attr matches Some(a) && caller_reaches_bad_redirect(a.items@))
    &&& r matches Some(res) ==> match spec_derive_caller(attr) {
        Ok(v) => res matches Ok(d) && d@ == v,
        Err(e) => res matches Err(t) && t@ == e,
    }
}

/// `at` is where the key of the item that `#[derive(ApiCaller)]` refuses
/// stands (in the attribute it reads), or `None` when it refuses no item
/// or gives up.
pub open spec fn caller_refused_at(raw: Seq<RawAttr>, attrs: Seq<NamedAttr>, at: Option<proc_macro2::Span>) -> bool {
    match at {
        Some(sp) => exists|k: int, i: int|
            #![trigger first_named_at(attrs, "api_req"@, "api"@, k), caller_fails_at(attrs[k].args.items@, i)]
            first_named_at(attrs, "api_req"@, "api"@, k) && caller_fails_at(attrs[k].args.items@, i)
                && (raw[k].items matches Ok(items) && items@[i].key_span == sp),
        None => forall|k: int, i: int|
            #![trigger first_named_at(attrs, "api_req"@, "api"@, k), caller_fails_at(attrs[k].args.items@, i)]
            first_named_at(attrs, "api_req"@, "api"@, k) && caller_fails_at(attrs[k].args.items@, i)
                ==> caller_reaches_bad_redirect(attrs[k].args.items@),
    }
}

/// What `#[derive(ApiCaller)]` makes of the item whose tokens are `input`:
/// the attributes are read (`read_input`), and the result is the reading's
/// error, or what `derive_api_caller` gives for the attribute that
/// `caller_attr` picks among the attributes read (`attrs_of`), with where
/// the key of the item it refuses stands.
pub fn derive_api_caller_source(input: proc_macro2::TokenStream) -> (r: FromSource<Option<Result<CallerDerive, String>>>)
    ensures
        match r.read {
            Err(e) => r.derived matches Some(Err(t)) && t@ == e@ && r.at is None,
            Ok(raw) => exists|attrs: Seq<NamedAttr>| attrs_read(raw@, attrs) && #[trigger] caller_from(attrs, r.derived)
                && caller_refused_at(raw@, attrs, r.at),
        },
{
    match read_input(input) {
        Err(e) => FromSource { read: Err(e.clone()), derived: Some(Err(e)), at: None },
        Ok(raw) => {
            let attrs = attrs_of(&raw);
            let ghost read = attrs@;
            let at = match first_named_index(&attrs, "api_req", "api") {
                None => None,
                Some(k) => match caller_items(&attrs[k].args.items) {
                    Err((i, Some(_))) => {
                        proof {
                            assert(attr_read(raw@[k as int], read[k as int]));
                        }
                        match &raw[k].items {
                            Ok(items) => {
                                let sp = items[i].key_span;
                                assert(caller_fails_at(read[k as int].args.items@, i as int));
                                Some(sp)
                            },
                            Err(_) => None,
                        }
                    },
                    Err((i, None)) => {
                        proof {
                            assert(crate::derive::is_bad_redirect(read[k as int].args.items@[i as int]));
                            assert forall|k2: int, j: int|
                                first_named_at(read, "api_req"@, "api"@, k2)
                                    && caller_fails_at(read[k2].args.items@, j)
                                implies caller_reaches_bad_redirect(read[k2].args.items@) by {
                                lemma_first_named_at_unique(read, "api_req"@, "api"@, k as int, k2);
                            }
                        }
                        None
                    },
                    Ok(_) => {
                        proof {
                            assert forall|k2: int, j: int|
                                first_named_at(read, "api_req"@, "api"@, k2) && caller_fails_at(read[k2].args.items@, j)
                                implies caller_reaches_bad_redirect(read[k2].args.items@) by {
                                lemma_first_named_at_unique(read, "api_req"@, "api"@, k as int, k2);
                            }
                        }
                        None
                    },
                },
            };
            let derived = derive_api_caller(caller_attr(attrs));
            assert(caller_from(read, derived));
            FromSource { read: Ok(raw), derived, at }
        },
    }
}

} // verus!
