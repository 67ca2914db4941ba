use api_req::api_caller::{derived_client, ApiCaller, ClientConfig, RedirectPolicy};
use api_req::attr_input::{
    attrs_of, derive_api_caller_source, derive_payload_source, item_of, meta_value_of, read_input,
    ExprShape, ExprText, RawItem,
};
use proc_macro2::TokenStream;
use api_req::derive::{
    body_format_of, caller_attr, derive_api_caller, derive_payload, list_of, payload_attr,
    select_attr, AttrArgs, AttrExpr, MetaItem, MetaValue, NamedAttr,
};
use api_req::error::{before_deserialize_failed, deserialized, ApiErr};
use api_req::http::{default_body_format, BodyFormat, HeaderMap, Method, RequestSpec};
use api_req::simple;
use api_req::macros::{Api, LoginPayload};
use api_req::payload::Payload;
use api_req::request::{Action, Event, Output, Request, Stage};
use api_req::template::{format_call_with, format_source, placeholders, unique};
use api_req::text::{equals, strip_prefix, to_decimal};
use api_req::url::{request_url, url_outcome};

fn s(x: &str) -> String {
    x.to_string()
}

fn login() -> LoginPayload {
    LoginPayload { id: s("42"), email: s("a@b.c"), password: s("secret") }
}

// ----------------------------------------------------------------- urls

#[test]
fn url_joins_path_onto_base() {
    let u = request_url("http://example.com", Some(s("/payments/cus_1"))).unwrap();
    assert_eq!(u, "http://example.com/payments/cus_1");
}

#[test]
fn url_without_path_is_the_base() {
    let u = request_url("https://api.service.com", None).unwrap();
    assert_eq!(u, "https://api.service.com/");
}

#[test]
fn url_base_with_trailing_slash_keeps_its_path() {
    let u = request_url("http://localhost:8080/api/", Some(s("v1/items"))).unwrap();
    assert_eq!(u, "http://localhost:8080/api/v1/items");
}

#[test]
fn url_base_without_trailing_slash_loses_last_segment() {
    let u = request_url("https://example.com/api", Some(s("v1"))).unwrap();
    assert_eq!(u, "https://example.com/v1");
}

#[test]
fn url_invalid_base_is_other_error() {
    match request_url("not a url", Some(s("/x"))) {
        Err(ApiErr::Other(m)) => assert_eq!(m, "relative URL without a base"),
        _ => panic!("expected an error"),
    }
}

#[test]
fn url_outcome_maps_error() {
    assert_eq!(url_outcome(Ok(s("http://a/"))).unwrap(), "http://a/");
    match url_outcome(Err(s("bad"))) {
        Err(ApiErr::Other(m)) => assert_eq!(m, "bad"),
        _ => panic!("expected Other"),
    }
}

// ----------------------------------------------------------------- http

#[test]
fn default_formats_by_method() {
    assert_eq!(default_body_format(Method::GET), Some(BodyFormat::Query));
    assert_eq!(default_body_format(Method::POST), Some(BodyFormat::Json));
    assert_eq!(default_body_format(Method::PUT), None);
    assert_eq!(default_body_format(Method::DELETE), None);
}

#[test]
fn header_map_insert_replaces() {
    let mut h = HeaderMap::new();
    h.insert(s("a"), s("1"));
    h.insert(s("b"), s("2"));
    h.insert(s("a"), s("3"));
    assert_eq!(h.len(), 2);
    assert_eq!(h.get("a"), Some(s("3")));
    assert_eq!(h.get("b"), Some(s("2")));
    assert_eq!(h.get("c"), None);
    assert!(h.contains_key("b"));
    assert!(h.contains_key("B"));
    assert!(!h.contains_key("c"));
    assert_eq!(h.to_vec(), vec![(s("a"), s("3")), (s("b"), s("2"))]);
}

#[test]
fn header_map_extend_prefers_new_values() {
    let mut h = HeaderMap::new();
    h.insert(s("user-agent"), s("x"));
    h.insert(s("accept"), s("*/*"));
    let mut other = HeaderMap::new();
    other.insert(s("user-agent"), s("y"));
    other.insert(s("authorization"), s("t"));
    h.extend(other);
    assert_eq!(h.len(), 3);
    assert_eq!(h.get("user-agent"), Some(s("y")));
    assert_eq!(h.get("accept"), Some(s("*/*")));
    assert_eq!(h.get("authorization"), Some(s("t")));
}

#[test]
fn request_spec_builders() {
    let mut h = HeaderMap::new();
    h.insert(s("k"), s("v"));
    let r = RequestSpec::new(Method::PATCH, s("http://x/")).headers(h).form();
    assert_eq!(r.method, Method::PATCH);
    assert_eq!(r.url, "http://x/");
    assert_eq!(r.headers.get("k"), Some(s("v")));
    assert_eq!(r.body, Some(BodyFormat::Form));
    assert_eq!(RequestSpec::new(Method::GET, s("u")).query().body, Some(BodyFormat::Query));
    assert_eq!(RequestSpec::new(Method::GET, s("u")).json().body, Some(BodyFormat::Json));
    assert_eq!(RequestSpec::new(Method::GET, s("u")).body, None);
}

// ----------------------------------------------------------------- errors

#[test]
fn error_messages() {
    assert_eq!(ApiErr::Serde(s("{}")).message(), "Serde error: {}");
    assert_eq!(ApiErr::Other(s("boom")).message(), "Other error: boom");
}

#[test]
fn deserialize_failure_holds_the_body() {
    assert_eq!(deserialized::<u32>(s("7"), Some(7)).unwrap(), 7);
    match deserialized::<u32>(s("not json"), None) {
        Err(ApiErr::Serde(body)) => assert_eq!(body, "not json"),
        _ => panic!("expected Serde"),
    }
}

// ----------------------------------------------------------------- payload and caller

#[test]
fn login_payload_parts() {
    let p = login();
    assert_eq!(LoginPayload::method(), Method::POST);
    assert_eq!(p.path(), Some(s("/v2/auth/42")));
    let h = p.headers().unwrap();
    assert_eq!(h.get("authorization"), Some(s("secret")));
    assert_eq!(h.len(), 1);
    assert_eq!(LoginPayload::body_format(), Some(BodyFormat::Form));
}

#[test]
fn login_req_option_adds_headers_and_form() {
    let p = login();
    let mut base = HeaderMap::new();
    base.insert(s("authorization"), s("old"));
    base.insert(s("x"), s("y"));
    let req = RequestSpec::new(Method::POST, s("http://h/")).headers(base);
    let r = p.req_option(req);
    assert_eq!(r.headers.get("authorization"), Some(s("secret")));
    assert_eq!(r.headers.get("x"), Some(s("y")));
    assert_eq!(r.body, Some(BodyFormat::Form));
    assert_eq!(r.url, "http://h/");
}

#[test]
fn login_before_deserialize_strips_marker() {
    assert_eq!(LoginPayload::before_deserialize(s("&&&START&&&a=1&b=2")).unwrap(), "a=1&b=2");
    assert_eq!(LoginPayload::before_deserialize(s("&&&START&&&")).unwrap(), "");
}

#[test]
fn login_before_deserialize_without_marker_fails() {
    match LoginPayload::before_deserialize(s("a=1")) {
        Err(ApiErr::Other(m)) => assert_eq!(m, "Before deserialize failed:\na=1"),
        _ => panic!("expected Other"),
    }
}

#[test]
fn api_caller_base_and_client() {
    assert_eq!(Api::base_url(), "https://api.micoapi.com");
    let c = Api::client();
    assert_eq!(c.redirect, RedirectPolicy::NoFollow);
    assert_eq!(c.default_headers.get("user-agent"), Some(s("Mozilla/5.0")));
    assert_eq!(c.default_headers.len(), 1);
}

#[test]
fn default_client_config() {
    let c = ClientConfig::new();
    assert_eq!(c.redirect, RedirectPolicy::NoFollow);
    assert_eq!(c.default_headers.len(), 0);
}

// ----------------------------------------------------------------- request steps

#[test]
fn request_runs_to_deserialize() {
    let mut r: Request<LoginPayload> = Api::request(login());
    assert_eq!(r.stage, Stage::Ready);
    assert_eq!(r.base_url, "https://api.micoapi.com");
    match r.step(Event::Poll) {
        Action::Send(req, p) => {
            assert_eq!(req.method, Method::POST);
            assert_eq!(req.url, "https://api.micoapi.com/v2/auth/42");
            assert_eq!(req.headers.get("authorization"), Some(s("secret")));
            assert_eq!(req.body, Some(BodyFormat::Form));
            assert_eq!(p.email, "a@b.c");
        }
        _ => panic!("expected Send"),
    }
    assert_eq!(r.stage, Stage::Sending);
    assert!(r.payload.is_none());
    assert_eq!(r.base_url, "");
    assert!(matches!(r.step(Event::Sent(Ok(()))), Action::ReadBody));
    assert_eq!(r.stage, Stage::Reading);
    match r.step(Event::Body(Ok(s("&&&START&&&token=abc")))) {
        Action::Deserialize(t) => assert_eq!(t, "token=abc"),
        _ => panic!("expected Deserialize"),
    }
    assert_eq!(r.stage, Stage::Done);
}

#[test]
fn request_body_without_marker_fails() {
    let mut r = Request::new(login(), s("https://api.micoapi.com"), ClientConfig::new());
    let _ = r.step(Event::Poll);
    let _ = r.step(Event::Sent(Ok(())));
    match r.step(Event::Body(Ok(s("plain")))) {
        Action::Fail(ApiErr::Other(m)) => assert_eq!(m, "Before deserialize failed:\nplain"),
        _ => panic!("expected Fail"),
    }
    assert_eq!(r.stage, Stage::Done);
}

#[test]
fn request_with_bad_base_url_fails() {
    let mut r = Request::new(login(), s("no scheme here"), ClientConfig::new());
    match r.step(Event::Poll) {
        Action::Fail(ApiErr::Other(m)) => assert_eq!(m, "relative URL without a base"),
        _ => panic!("expected Fail"),
    }
    assert_eq!(r.stage, Stage::Done);
    assert!(r.payload.is_none());
}

// ----------------------------------------------------------------- templates

#[test]
fn placeholders_in_order() {
    assert_eq!(placeholders("/v2/auth/{id}/x/{name}").unwrap(), vec![s("id"), s("name")]);
    assert_eq!(placeholders("/plain").unwrap(), Vec::<String>::new());
    assert_eq!(placeholders("{a-b}{c}").unwrap(), vec![s("c")]);
}

#[test]
fn format_source_of_path() {
    assert_eq!(format_source("/v2/auth/{id}").unwrap(), "format!(\"/v2/auth/{id}\", id=self.id)");
    assert_eq!(format_source("/plain").unwrap(), "format!(\"/plain\")");
    assert_eq!(
        format_call_with("{a}{b}", &vec![s("a"), s("b")]),
        "format!(\"{a}{b}\", a=self.a, b=self.b)"
    );
}

// ----------------------------------------------------------------- derives

fn expr(src: &str) -> AttrExpr {
    AttrExpr { source: s(src), str_value: None }
}

fn lit(v: &str) -> AttrExpr {
    AttrExpr { source: format!("\"{}\"", v), str_value: Some(s(v)) }
}

fn value_expr(src: &str) -> MetaValue {
    MetaValue {
        as_expr: Ok(s(src)),
        as_str: Err(s("expected string literal")),
        as_ident: Err(s("expected identifier")),
        as_array: Err(s("expected square brackets")),
        as_tuple: Err(s("expected parentheses")),
    }
}

fn value_str(v: &str) -> MetaValue {
    MetaValue {
        as_expr: Ok(format!("\"{}\"", v)),
        as_str: Ok(s(v)),
        as_ident: Err(s("expected identifier")),
        as_array: Err(s("expected square brackets")),
        as_tuple: Err(s("expected parentheses")),
    }
}

fn value_ident(v: &str) -> MetaValue {
    MetaValue {
        as_expr: Ok(s(v)),
        as_str: Err(s("expected string literal")),
        as_ident: Ok(s(v)),
        as_array: Err(s("expected square brackets")),
        as_tuple: Err(s("expected parentheses")),
    }
}

fn value_array(elems: Vec<Result<Vec<AttrExpr>, String>>) -> MetaValue {
    MetaValue {
        as_expr: Ok(s("[..]")),
        as_str: Err(s("expected string literal")),
        as_ident: Err(s("expected identifier")),
        as_array: Ok(elems),
        as_tuple: Err(s("expected parentheses")),
    }
}

fn value_tuple(elems: Vec<Result<Vec<AttrExpr>, String>>) -> MetaValue {
    MetaValue {
        as_expr: Ok(s("(..)")),
        as_str: Err(s("expected string literal")),
        as_ident: Err(s("expected identifier")),
        as_array: Err(s("expected square brackets")),
        as_tuple: Ok(elems),
    }
}

fn item(key: &str, v: MetaValue) -> MetaItem {
    MetaItem { key: s(key), value: Ok(v) }
}

fn args(items: Vec<MetaItem>) -> Option<AttrArgs> {
    Some(AttrArgs { items, rest_error: None })
}

#[test]
fn derive_payload_defaults_without_attribute() {
    let d = derive_payload(None).unwrap();
    assert_eq!(d.path, "String::new()");
    assert_eq!(d.method, "::api_req::Method::GET");
    assert!(d.headers.is_empty());
    assert_eq!(d.req, None);
    assert_eq!(d.before_deserialize, None);
    assert_eq!(d.deserialize, None);
}

#[test]
fn derive_payload_login_attribute() {
    let d = derive_payload(args(vec![
        item("path", value_str("/v2/auth/{id}")),
        item("method", value_expr("Method::POST")),
        item(
            "headers",
            value_array(vec![Ok(vec![expr("header::AUTHORIZATION"), lit("{password}")])]),
        ),
        item("req", value_ident("form")),
        item("before_deserialize", value_expr("|text: String| Ok(text)")),
        item("deserialize", value_expr("serde_urlencoded::from_str")),
    ]))
    .unwrap();
    assert_eq!(d.path, "format!(\"/v2/auth/{id}\", id=self.id)");
    assert_eq!(d.method, "Method::POST");
    assert_eq!(
        d.headers,
        vec![(s("header::AUTHORIZATION"), s("format!(\"{password}\", password=self.password)"))]
    );
    assert_eq!(d.req, Some(s("form")));
    assert_eq!(d.before_deserialize, Some(s("|text: String| Ok(text)")));
    assert_eq!(d.deserialize, Some(s("serde_urlencoded::from_str")));
}

#[test]
fn derive_payload_header_expression_kept() {
    let d = derive_payload(args(vec![item(
        "headers",
        value_array(vec![Ok(vec![lit("k1"), lit("v1")]), Ok(vec![expr("K"), expr("value()")])]),
    )]))
    .unwrap();
    assert_eq!(
        d.headers,
        vec![(s("\"k1\""), s("format!(\"v1\")")), (s("K"), s("value()"))]
    );
}

#[test]
fn derive_payload_rejects_unknown_key() {
    let e = derive_payload(args(vec![item("paht", value_str("/x"))])).err().unwrap();
    assert_eq!(e, "unsupported meta");
}

#[test]
fn derive_payload_rejects_bad_pair() {
    let e = derive_payload(args(vec![item(
        "headers",
        value_array(vec![Ok(vec![lit("a"), lit("b"), lit("c")])]),
    )]))
    .err()
    .unwrap();
    assert_eq!(e, "(header_key, header_value) expected, which contains 2 elems, but got 3 elems");
}

#[test]
fn derive_payload_first_error_wins() {
    let e = derive_payload(args(vec![
        item("path", value_expr("1 + 1")),
        item("nope", value_str("x")),
    ]))
    .err()
    .unwrap();
    assert_eq!(e, "expected string literal");
    let e = derive_payload(Some(AttrArgs {
        items: vec![item("req", value_ident("json"))],
        rest_error: Some(s("expected `,`")),
    }))
    .err()
    .unwrap();
    assert_eq!(e, "expected `,`");
    let e = derive_payload(args(vec![MetaItem { key: s("path"), value: Err(s("expected `=`")) }]))
        .err()
        .unwrap();
    assert_eq!(e, "expected `=`");
}

#[test]
fn derive_caller_api_attribute() {
    let d = derive_api_caller(args(vec![
        item("base_url", value_str("https://api.micoapi.com")),
        item(
            "default_headers",
            value_array(vec![Ok(vec![expr("header::USER_AGENT"), lit("Mozilla/5.0")])]),
        ),
        item("default_headers_env", value_array(vec![Ok(vec![lit("api-key"), lit("API_KEY")])])),
        item(
            "default_headers_env_or_default",
            value_array(vec![Ok(vec![lit("x-opt"), lit("OPT")])]),
        ),
        item("redirect", value_expr("RedirectPolicy::none()")),
    ]))
    .unwrap()
    .unwrap();
    assert_eq!(d.base_url, "\"https://api.micoapi.com\"");
    assert_eq!(d.default_headers, vec![(s("header::USER_AGENT"), s("\"Mozilla/5.0\""))]);
    assert_eq!(d.env_headers, vec![(s("\"api-key\""), s("\"API_KEY\""))]);
    assert_eq!(d.env_headers_or_omit, vec![(s("\"x-opt\""), s("\"OPT\""))]);
    assert_eq!(d.redirect, Some(s("RedirectPolicy::none()")));
}

#[test]
fn derive_caller_needs_attribute_and_base_url() {
    assert_eq!(derive_api_caller(None).unwrap().err().unwrap(), "api_req attribute is needed");
    assert_eq!(
        derive_api_caller(args(vec![item("redirect", value_expr("p()"))])).unwrap().err().unwrap(),
        "base_url must be provided"
    );
    assert_eq!(
        derive_api_caller(args(vec![item("base", value_expr("x"))])).unwrap().err().unwrap(),
        "unsupported meta"
    );
}

#[test]
fn derive_caller_env_pair_message() {
    let e = derive_api_caller(args(vec![
        item("base_url", value_str("http://x")),
        item("default_headers_env", value_array(vec![Ok(vec![lit("only")])])),
    ]))
    .unwrap()
    .err()
    .unwrap();
    assert_eq!(e, "(header_key, env_var) expected, which contains 2 elems, but got 1 elems");
}

#[test]
fn derive_caller_malformed_redirect_gives_up() {
    let bad = MetaValue {
        as_expr: Err(s("expected an expression")),
        as_str: Err(s("expected string literal")),
        as_ident: Err(s("expected identifier")),
        as_array: Err(s("expected square brackets")),
        as_tuple: Err(s("expected parentheses")),
    };
    assert!(derive_api_caller(args(vec![
        item("base_url", value_str("http://x")),
        item("redirect", bad),
    ]))
    .is_none());
    let bad = MetaValue {
        as_expr: Err(s("expected an expression")),
        as_str: Err(s("expected string literal")),
        as_ident: Err(s("expected identifier")),
        as_array: Err(s("expected square brackets")),
        as_tuple: Err(s("expected parentheses")),
    };
    let r = derive_api_caller(args(vec![item("nope", value_expr("x")), item("redirect", bad)]));
    assert_eq!(r.unwrap().err().unwrap(), "unsupported meta");
}

#[test]
fn derive_req_names_body_format() {
    assert_eq!(body_format_of("query"), Some(BodyFormat::Query));
    assert_eq!(body_format_of("json"), Some(BodyFormat::Json));
    assert_eq!(body_format_of("form"), Some(BodyFormat::Form));
    assert_eq!(body_format_of("body"), None);
}

// ----------------------------------------------------------------- text

#[test]
fn text_helpers() {
    assert_eq!(strip_prefix("&&&START&&&x", "&&&START&&&"), Some(s("x")));
    assert_eq!(strip_prefix("abc", "abcd"), None);
    assert!(equals("path", "path"));
    assert!(!equals("path", "pat"));
    assert_eq!(to_decimal(0), "0");
    assert_eq!(to_decimal(12), "12");
    assert_eq!(to_decimal(4096), "4096");
}

// ----------------------------------------------------------------- simple form

struct Payments {
    customer_id: String,
    method: &'static str,
}

impl simple::Payload for Payments {
    fn method() -> &'static str {
        "POST"
    }

    fn headers(&self) -> Option<HeaderMap> {
        None
    }

    fn path(&self) -> Option<String> {
        Some(format!("/payments/{}", self.customer_id))
    }
}

struct Search;

impl simple::Payload for Search {
    fn method() -> &'static str {
        "GET"
    }

    fn headers(&self) -> Option<HeaderMap> {
        let mut h = HeaderMap::new();
        h.insert(s("k1"), s("v1"));
        Some(h)
    }

    fn path(&self) -> Option<String> {
        Some(s("/search"))
    }
}

struct Deleting;

impl simple::Payload for Deleting {
    fn method() -> &'static str {
        "DELETE"
    }

    fn headers(&self) -> Option<HeaderMap> {
        None
    }

    fn path(&self) -> Option<String> {
        None
    }
}

struct Broken;

impl simple::Payload for Broken {
    fn method() -> &'static str {
        "GE T"
    }

    fn headers(&self) -> Option<HeaderMap> {
        None
    }

    fn path(&self) -> Option<String> {
        None
    }
}

struct Example;

impl simple::ApiCaller for Example {
    fn base_url() -> String {
        s("http://example.com")
    }
}

#[test]
fn first_form_post() {
    let p = Payments { customer_id: s("cus_1"), method: "POST" };
    assert_eq!(p.method, "POST");
    let mut r = <Example as simple::ApiCaller>::request(p);
    match r.step(simple::Event::Poll) {
        simple::Action::Send(req, Some(_)) => {
            assert_eq!(req.method, Method::POST);
            assert_eq!(req.url, "http://example.com/payments/cus_1");
            assert_eq!(req.body, Some(BodyFormat::Json));
            assert_eq!(req.headers.len(), 0);
        }
        _ => panic!("expected Send"),
    }
    assert_eq!(r.stage, simple::Stage::Sending);
    assert!(matches!(r.step(simple::Event::Sent(Ok(()))), simple::Action::ReadBody));
    match r.step(simple::Event::Body(Ok(s("{\"a\":1}")))) {
        simple::Action::Deserialize(t) => assert_eq!(t, "{\"a\":1}"),
        _ => panic!("expected Deserialize"),
    }
}

#[test]
fn first_form_get_adds_query() {
    let mut r = simple::Request::new(Search, s("http://example.com"), ClientConfig::new());
    assert!(matches!(r.step(simple::Event::Poll), simple::Action::EncodeQuery(_)));
    assert_eq!(r.stage, simple::Stage::Encoding);
    match r.step(simple::Event::Query(s("q=rust&page=2"))) {
        simple::Action::Send(req, None) => {
            assert_eq!(req.method, Method::GET);
            assert_eq!(req.url, "http://example.com/search?q=rust&page=2");
            assert_eq!(req.headers.get("k1"), Some(s("v1")));
            assert_eq!(req.body, None);
        }
        _ => panic!("expected Send"),
    }
}

#[test]
fn first_form_get_empty_query() {
    let mut r = simple::Request::new(Search, s("http://example.com"), ClientConfig::new());
    let _ = r.step(simple::Event::Poll);
    match r.step(simple::Event::Query(s(""))) {
        simple::Action::Send(req, None) => assert_eq!(req.url, "http://example.com/search"),
        _ => panic!("expected Send"),
    }
}

#[test]
fn first_form_unsupported_and_invalid_methods() {
    let mut r = simple::Request::new(Deleting, s("http://example.com"), ClientConfig::new());
    match r.step(simple::Event::Poll) {
        simple::Action::Fail(ApiErr::Other(m)) => assert_eq!(m, "Unsupported method: DELETE"),
        _ => panic!("expected Fail"),
    }
    let mut r = simple::Request::new(Broken, s("http://example.com"), ClientConfig::new());
    match r.step(simple::Event::Poll) {
        simple::Action::Fail(ApiErr::Other(m)) => assert_eq!(m, "Invalid method: GE T"),
        _ => panic!("expected Fail"),
    }
    assert_eq!(r.stage, simple::Stage::Done);
}

#[test]
fn first_form_default_client() {
    let c = <Example as simple::ApiCaller>::client();
    assert_eq!(c.redirect, RedirectPolicy::ClientDefault);
    assert_eq!(c.default_headers.len(), 0);
}

#[test]
fn stream_request_ends_after_send() {
    let mut r = Api::stream(login());
    assert_eq!(r.output, Output::Stream);
    assert!(matches!(r.poll_stream(), Some(Action::Send(_, _))));
    assert!(matches!(r.step(Event::Sent(Ok(()))), Action::Stream));
    assert_eq!(r.stage, Stage::Done);
}

#[test]
fn stream_request_with_bad_url_does_not_start() {
    let mut r = Request::new_stream(login(), s("::"), ClientConfig::new());
    assert!(r.poll_stream().is_none());
    assert_eq!(r.stage, Stage::Ready);
    assert!(r.payload.is_some());
    assert_eq!(r.base_url, "::");
}

#[test]
fn header_map_from_pairs_last_wins() {
    let h = HeaderMap::from_pairs(vec![(s("a"), s("1")), (s("b"), s("2")), (s("a"), s("3"))]);
    assert_eq!(h.len(), 2);
    assert_eq!(h.get("a"), Some(s("3")));
    assert_eq!(h.to_vec(), vec![(s("a"), s("3")), (s("b"), s("2"))]);
}

#[test]
fn derived_client_orders_headers() {
    let c = derived_client(
        Some(RedirectPolicy::none()),
        vec![(s("user-agent"), s("Mozilla/5.0")), (s("k"), s("fixed"))],
        vec![(s("api-key"), s("from-env")), (s("k"), s("env"))],
        vec![(s("x-set"), Some(s("on"))), (s("x-unset"), None)],
    );
    assert_eq!(c.redirect, RedirectPolicy::NoFollow);
    assert_eq!(c.default_headers.len(), 4);
    assert_eq!(c.default_headers.get("k"), Some(s("env")));
    assert_eq!(c.default_headers.get("api-key"), Some(s("from-env")));
    assert_eq!(c.default_headers.get("x-set"), Some(s("on")));
    assert_eq!(c.default_headers.get("x-unset"), None);
    let d = derived_client(None, vec![], vec![], vec![]);
    assert_eq!(d.redirect, RedirectPolicy::ClientDefault);
    assert_eq!(d.default_headers.len(), 0);
    assert_eq!(RedirectPolicy::limited(3), RedirectPolicy::Limited(3));
}

#[test]
fn before_deserialize_failure_message() {
    match before_deserialize_failed("bad prefix") {
        ApiErr::Other(m) => assert_eq!(m, "Before deserialize failed:\nbad prefix"),
        _ => panic!("expected Other"),
    }
}

// ----------------------------------------------------------------- header names ignore case

#[test]
fn header_names_ignore_case() {
    let mut h = HeaderMap::new();
    h.insert(s("User-Agent"), s("Mozilla/5.0"));
    assert_eq!(h.get("user-agent"), Some(s("Mozilla/5.0")));
    assert_eq!(h.get("USER-AGENT"), Some(s("Mozilla/5.0")));
    assert_eq!(h.to_vec(), vec![(s("user-agent"), s("Mozilla/5.0"))]);
    h.insert(s("user-agent"), s("curl"));
    assert_eq!(h.len(), 1);
    assert_eq!(h.get("User-Agent"), Some(s("curl")));
}

#[test]
fn header_map_clone_keeps_headers() {
    let h = HeaderMap::from_pairs(vec![(s("A"), s("1")), (s("b"), s("2"))]);
    let c = h.clone();
    assert_eq!(c.to_vec(), vec![(s("a"), s("1")), (s("b"), s("2"))]);
}

#[test]
fn derived_client_lowercases_names() {
    let c = derived_client(None, vec![(s("User-Agent"), s("x")), (s("user-agent"), s("y"))], vec![], vec![]);
    assert_eq!(c.default_headers.to_vec(), vec![(s("user-agent"), s("y"))]);
}

// ----------------------------------------------------------------- a payload that names GET only

struct Query {
    path: String,
}

impl Payload for Query {
    fn method() -> Method {
        Method::GET
    }

    fn path(&self) -> Option<String> {
        Some(self.path.clone())
    }
}

struct Replace;

impl Payload for Replace {
    fn method() -> Method {
        Method::PUT
    }
}

#[test]
fn get_payload_goes_in_the_query() {
    let mut r = Request::new(Query { path: s("/s") }, s("http://x.com"), ClientConfig::new());
    match r.step(Event::Poll) {
        Action::Send(req, p) => {
            assert_eq!(req.method, Method::GET);
            assert_eq!(req.url, "http://x.com/s");
            assert_eq!(req.body, Some(BodyFormat::Query));
            assert_eq!(req.headers.len(), 0);
            assert_eq!(p.path, "/s");
        }
        _ => panic!("expected Send"),
    }
    let r = Query { path: s("/s") }.req_option(RequestSpec::new(Method::GET, s("http://x.com/s")));
    assert_eq!(r.body, Some(BodyFormat::Query));
}

#[test]
fn other_methods_have_no_default_format() {
    assert_eq!(Replace::body_format(), None);
    assert_eq!(Replace.path(), None);
    assert!(Replace.headers().is_none());
    assert_eq!(Replace::before_deserialize(s("as it is")).unwrap(), "as it is");
    assert_eq!(Query::body_format(), Some(BodyFormat::Query));
}

// ----------------------------------------------------------------- attribute names, tuple lists, repeated fields

fn named(name: &str, key: &str) -> NamedAttr {
    NamedAttr { name: s(name), args: AttrArgs { items: vec![item(key, value_str("x"))], rest_error: None } }
}

#[test]
fn derive_attribute_names() {
    let p = payload_attr(vec![named("serde", "a"), named("payload", "b"), named("api_req", "c")]).unwrap();
    assert_eq!(p.items[0].key, "b");
    let c = caller_attr(vec![named("derive", "a"), named("api", "b")]).unwrap();
    assert_eq!(c.items[0].key, "b");
    let c = caller_attr(vec![named("api_req", "c"), named("api", "b")]).unwrap();
    assert_eq!(c.items[0].key, "c");
    assert!(payload_attr(vec![named("api", "b")]).is_none());
    assert!(caller_attr(vec![named("payload", "b")]).is_none());
    assert!(select_attr(vec![], "a", "b").is_none());
}

#[test]
fn derive_payload_tuple_headers() {
    let d = derive_payload(args(vec![
        item("path", value_str("/api/v1/{id}")),
        item("method", value_expr("Method::GET")),
        item(
            "headers",
            value_tuple(vec![Ok(vec![lit("k1"), lit("v1")]), Ok(vec![lit("k2"), lit("{x}")])]),
        ),
    ]))
    .unwrap();
    assert_eq!(d.path, "format!(\"/api/v1/{id}\", id=self.id)");
    assert_eq!(
        d.headers,
        vec![(s("\"k1\""), s("format!(\"v1\")")), (s("\"k2\""), s("format!(\"{x}\", x=self.x)"))]
    );
    assert_eq!(d.req, None);
}

#[test]
fn derive_caller_tuple_headers() {
    let d = derive_api_caller(args(vec![
        item("base_url", value_str("http://example.com")),
        item(
            "default_headers",
            value_tuple(vec![Ok(vec![lit("k1"), lit("v1")]), Ok(vec![expr("header::ORIGIN"), lit("v2")])]),
        ),
        item("default_headers_env", value_tuple(vec![Ok(vec![lit("k3"), lit("API_KEY")])])),
    ]))
    .unwrap()
    .unwrap();
    assert_eq!(d.base_url, "\"http://example.com\"");
    assert_eq!(
        d.default_headers,
        vec![(s("\"k1\""), s("\"v1\"")), (s("header::ORIGIN"), s("\"v2\""))]
    );
    assert_eq!(d.env_headers, vec![(s("\"k3\""), s("\"API_KEY\""))]);
}

#[test]
fn list_values_array_or_tuple() {
    assert_eq!(list_of(&value_tuple(vec![Ok(vec![lit("a"), lit("b")])])).unwrap().len(), 1);
    assert_eq!(list_of(&value_array(vec![])).unwrap().len(), 0);
    assert_eq!(list_of(&value_str("x")).err().unwrap(), "expected square brackets");
}

#[test]
fn repeated_placeholder_is_one_argument() {
    assert_eq!(format_source("/a/{id}/b/{id}").unwrap(), "format!(\"/a/{id}/b/{id}\", id=self.id)");
    assert_eq!(unique(&vec![s("a"), s("b"), s("a"), s("c"), s("b")]), vec![s("a"), s("b"), s("c")]);
    assert_eq!(unique(&vec![]), Vec::<String>::new());
}


// ----------------------------------------------------------------- derives read from the item's tokens

fn tokens(src: &str) -> TokenStream {
    src.parse().unwrap()
}

#[test]
fn derive_reads_payload_item() {
    let d = derive_payload_source(tokens(
        "#[derive(Payload, Serialize)] \
         #[api_req(path = \"/api/v1/{id}\", method = Method::GET, headers = ((\"k1\", \"v1\"), (\"k2\", \"{x}\")))] \
         struct Test { id: u32, x: String }",
    ))
    .derived
    .unwrap();
    assert_eq!(d.path, "format!(\"/api/v1/{id}\", id=self.id)");
    assert_eq!(d.method, "Method :: GET");
    assert_eq!(
        d.headers,
        vec![(s("\"k1\""), s("format!(\"v1\")")), (s("\"k2\""), s("format!(\"{x}\", x=self.x)"))]
    );
    assert_eq!(d.req, None);
}

#[test]
fn derive_reads_login_payload_item() {
    let d = derive_payload_source(tokens(
        "#[derive(Debug, Serialize, Payload)] \
         #[payload(path = \"/v2/auth/{id}\", method = Method::POST, \
             headers = ((header::AUTHORIZATION, \"{password}\"),), req = form, \
             before_deserialize = |text: String| text.strip_prefix(\"&&&START&&&\").map(ToOwned::to_owned).ok_or(text), \
             deserialize = serde_urlencoded::from_str,)] \
         pub struct LoginPayload { pub id: String, pub email: String, pub password: String }",
    ))
    .derived
    .unwrap();
    assert_eq!(d.path, "format!(\"/v2/auth/{id}\", id=self.id)");
    assert_eq!(d.method, "Method :: POST");
    assert_eq!(
        d.headers,
        vec![(s("header :: AUTHORIZATION"), s("format!(\"{password}\", password=self.password)"))]
    );
    assert_eq!(d.req, Some(s("form")));
    assert_eq!(d.deserialize, Some(s("serde_urlencoded :: from_str")));
    assert!(d.before_deserialize.is_some());
}

#[test]
fn derived_post_payload_defaults_to_json() {
    let d = derive_payload_source(tokens(
        "#[api_req(path = \"/payments/{customer_id}\", method = Method::POST)] struct ExamplePayload { customer_id: String, amount: usize }",
    ))
    .derived
    .unwrap();
    assert_eq!(d.req, None);
    assert_eq!(default_body_format(Method::POST), Some(BodyFormat::Json));
}

#[test]
fn derive_reads_caller_items() {
    let d = derive_api_caller_source(tokens(
        "#[derive(ApiCaller)] \
         #[api_req(base_url = \"http://example.com\", default_headers = ((\"k1\", \"v1\"), (header::ORIGIN, \"v2\")), \
             default_headers_env = ((\"k3\", \"API_KEY\"),))] \
         struct ExampleApi;",
    ))
    .derived
    .unwrap()
    .unwrap();
    assert_eq!(d.base_url, "\"http://example.com\"");
    assert_eq!(
        d.default_headers,
        vec![(s("\"k1\""), s("\"v1\"")), (s("header :: ORIGIN"), s("\"v2\""))]
    );
    assert_eq!(d.env_headers, vec![(s("\"k3\""), s("\"API_KEY\""))]);
    let api = derive_api_caller_source(tokens(
        "#[derive(Debug, ApiCaller)] \
         #[api(base_url = \"https://api.micoapi.com\", default_headers = ((header::USER_AGENT, \"Mozilla/5.0\"),), redirect = RedirectPolicy::none(),)] \
         pub struct Api {}",
    ))
    .derived
    .unwrap()
    .unwrap();
    assert_eq!(api.base_url, "\"https://api.micoapi.com\"");
    assert_eq!(api.redirect, Some(s("RedirectPolicy :: none ()")));
}

#[test]
fn derive_source_errors() {
    let r = derive_payload_source(tokens("not an item"));
    assert!(r.read.is_err() && r.derived.is_err() && r.at.is_none());
    let r = derive_payload_source(tokens("#[api_req(path = \"/x\", paht = \"/y\")] struct P;"));
    assert_eq!(r.derived.err().unwrap(), "unsupported meta");
    assert!(r.at.is_some());
    let r = derive_api_caller_source(tokens("#[api_req(base_url = \"http://x.com\", timeout = 5)] struct A;"));
    assert_eq!(r.derived.unwrap().err().unwrap(), "unsupported meta");
    assert!(r.at.is_some());
    let r = derive_api_caller_source(tokens("struct Api;"));
    assert_eq!(r.derived.unwrap().err().unwrap(), "api_req attribute is needed");
    assert!(r.at.is_none());
    let raw = read_input(tokens("#[serde(rename_all = \"camelCase\")] #[api_req(path)] struct P;")).unwrap();
    let attrs = attrs_of(&raw);
    assert_eq!(attrs.len(), 2);
    assert_eq!(attrs[0].name, "serde");
    assert_eq!(attrs[1].args.items[0].key, "path");
    assert_eq!(attrs[1].args.items[0].value.as_ref().err().unwrap(), "expected `=`");
}

fn text(source: &str, shape: ExprShape) -> ExprText {
    ExprText { source: s(source), shape }
}

#[test]
fn meta_values_are_read_in_each_form() {
    let v = meta_value_of(&text("\"a\"", ExprShape::Str(s("a"))));
    assert_eq!(v.as_expr.unwrap(), "\"a\"");
    assert_eq!(v.as_str.unwrap(), "a");
    assert_eq!(v.as_ident.err().unwrap(), "expected identifier");
    assert_eq!(v.as_array.err().unwrap(), "expected square brackets");
    assert_eq!(v.as_tuple.err().unwrap(), "expected parentheses");
    let v = meta_value_of(&text("PATH", ExprShape::Path(Some(s("PATH")))));
    assert_eq!(v.as_str.err().unwrap(), "expected string literal");
    assert_eq!(v.as_ident.unwrap(), "PATH");
    let pair = text("(\"k\" , v)", ExprShape::Tuple(vec![text("\"k\"", ExprShape::Str(s("k"))), text("v", ExprShape::Path(Some(s("v"))))]));
    let v = meta_value_of(&text("[..]", ExprShape::Array(vec![pair, text("1", ExprShape::Other)])));
    let list = v.as_array.unwrap();
    let first = list[0].as_ref().unwrap();
    assert_eq!(first.len(), 2);
    assert_eq!(first[0].source, "\"k\"");
    assert_eq!(first[0].str_value, Some(s("k")));
    assert_eq!(first[1].str_value, None);
    assert_eq!(list[1].as_ref().err().unwrap(), "expected parentheses");
    let m = item_of(&RawItem { key: s("req"), key_span: proc_macro2::Span::call_site(), value: None });
    assert_eq!(m.key, "req");
    assert_eq!(m.value.err().unwrap(), "expected `=`");
}
