use apitest::curl::curl_command;
use apitest::report::{reason_str, header_line, result_lines, suite_line, test_line};
use apitest::eval::{evaluate, FailReason, Outcome};
use apitest::json::{json_equal, Json, Number};
use apitest::model::{load_method, load_predicate, ExpectedResponse, LoadError, Method, Predicate, Request, Response, SchemaField, Test};
use apitest::resolve::resolve_variables;
use apitest::rule::{parse_rule, Op, Path};
use apitest::runner::{evaluate_test, exit_code, failed_test, resolve_request, summarize};
use apitest::text::eq_ignore_case;
use apitest::validate::{check_header, validate, BodyCheck, HeaderCheck};

fn s(x: &str) -> String {
    x.to_string()
}

fn pairs(items: &[(&str, &str)]) -> Vec<(String, String)> {
    items.iter().map(|(k, v)| (s(k), s(v))).collect()
}

fn num(v: u64) -> Json {
    Json::Num(Number::Pos(v))
}

fn obj(items: Vec<(&str, Json)>) -> Json {
    Json::Object(items.into_iter().map(|(k, v)| (s(k), v)).collect())
}

fn response(status: u16, headers: &[(&str, &str)], body: Option<Json>) -> Response {
    Response { status, headers: pairs(headers), body }
}

fn rule_predicate(rule: &str) -> Predicate {
    match load_predicate(0, 0, s("check"), rule, s("note")) {
        Ok(p) => p,
        Err(_) => panic!("rule should parse: {}", rule),
    }
}

fn simple_test(name: &str, status: u16, predicates: Vec<Predicate>) -> Test {
    Test {
        name: s(name),
        request: Request { method: Method::Get, url: s("/items"), headers: vec![], query: vec![], body: None },
        expected_response: ExpectedResponse { status_code: status, headers: None, body: None },
        predicates,
    }
}

#[test]
fn resolve_replaces_bound_tokens() {
    let vars = pairs(&[("id", "42"), ("token", "abc")]);
    assert_eq!(resolve_variables("/users/{{id}}?t={{token}}", &vars), "/users/42?t=abc");
}

#[test]
fn resolve_keeps_unbound_tokens_verbatim() {
    let vars = pairs(&[("id", "42")]);
    assert_eq!(resolve_variables("{{missing}}/{{id}}", &vars), "{{missing}}/42");
    assert_eq!(resolve_variables("plain text", &vars), "plain text");
    assert_eq!(resolve_variables("", &vars), "");
}

#[test]
fn resolve_first_binding_wins_and_is_idempotent() {
    let vars = pairs(&[("a", "one"), ("a", "two")]);
    let once = resolve_variables("x{{a}}y", &vars);
    assert_eq!(once, "xoney");
    assert_eq!(resolve_variables(&once, &vars), once);
}

#[test]
fn resolve_request_covers_url_headers_and_query() {
    let vars = pairs(&[("id", "7"), ("tok", "secret")]);
    let req = Request {
        method: Method::Post,
        url: s("/users/{{id}}"),
        headers: pairs(&[("Authorization", "Bearer {{tok}}")]),
        query: pairs(&[("user", "{{id}}"), ("other", "{{nope}}")]),
        body: Some(obj(vec![("name", Json::Str(s("{{id}}")))])),
    };
    let r = resolve_request(&req, "http://localhost:8080", &vars);
    assert_eq!(r.method, Method::Post);
    assert_eq!(r.url, "http://localhost:8080/users/7");
    assert_eq!(r.headers, pairs(&[("Authorization", "Bearer secret")]));
    assert_eq!(r.query, pairs(&[("user", "7"), ("other", "{{nope}}")]));
    assert_eq!(vars, pairs(&[("id", "7"), ("tok", "secret")]));
}

#[test]
fn header_names_compare_without_case() {
    assert!(eq_ignore_case("Content-Type", "content-type"));
    assert!(!eq_ignore_case("Content-Type", "content-typ"));
    let actual = pairs(&[("content-type", "application/json")]);
    assert!(matches!(check_header(&actual, &s("Content-Type"), &s("application/json")), HeaderCheck::Matched));
    match check_header(&actual, &s("Content-Type"), &s("text/plain")) {
        HeaderCheck::Mismatched(v) => assert_eq!(v, "application/json"),
        _ => panic!("expected a mismatch"),
    }
    assert!(matches!(check_header(&actual, &s("X-Id"), &s("1")), HeaderCheck::Missing));
}

#[test]
fn body_equality_ignores_key_order_only() {
    let a = obj(vec![("a", num(1)), ("b", num(2))]);
    let b = obj(vec![("b", num(2)), ("a", num(1))]);
    assert!(json_equal(&a, &b));
    let l = Json::Array(vec![num(1), num(2)]);
    let r = Json::Array(vec![num(2), num(1)]);
    assert!(!json_equal(&l, &r));
    assert!(!json_equal(&num(1), &Json::Str(s("1"))));
    assert!(!json_equal(&obj(vec![("a", num(1))]), &obj(vec![("a", num(1)), ("b", num(2))])));
}

#[test]
fn status_mismatch_fails_the_run() {
    let t = simple_test("status", 200, vec![]);
    let result = evaluate_test(&t, &response(404, &[], None));
    assert!(!result.status_match);
    assert!(!result.passed);
    let summary = summarize(&vec![result]);
    assert_eq!(summary.failed, 1);
    assert_ne!(exit_code(&summary), 0);
}

#[test]
fn predicate_on_body_field() {
    let p = rule_predicate("body.id == 5");
    assert_eq!(evaluate(&p.rule, &response(200, &[], Some(obj(vec![("id", num(5))])))), Outcome::Pass);
    assert_eq!(
        evaluate(&p.rule, &response(200, &[], Some(obj(vec![("id", num(6))])))),
        Outcome::Fail(FailReason::NotSatisfied)
    );
    assert_eq!(
        evaluate(&p.rule, &response(200, &[], Some(obj(vec![])))),
        Outcome::Fail(FailReason::PathNotFound)
    );
}

#[test]
fn predicate_operators() {
    let resp = response(
        201,
        &[("Content-Type", "application/json; charset=utf-8")],
        Some(obj(vec![
            ("name", Json::Str(s("alice"))),
            ("tags", Json::Array(vec![Json::Str(s("x")), Json::Str(s("y"))])),
            ("items", Json::Array(vec![obj(vec![("n", Json::Num(Number::Neg(-3)))])])),
        ])),
    );
    let eval = |rule: &str| evaluate(&rule_predicate(rule).rule, &resp);
    assert_eq!(eval("status == 201"), Outcome::Pass);
    assert_eq!(eval("status > 200"), Outcome::Pass);
    assert_eq!(eval("status < 200"), Outcome::Fail(FailReason::NotSatisfied));
    assert_eq!(eval("status != 404"), Outcome::Pass);
    assert_eq!(eval("headers.content-type contains \"json\""), Outcome::Pass);
    assert_eq!(eval("headers.x-missing exists"), Outcome::Fail(FailReason::PathNotFound));
    assert_eq!(eval("body.name == \"alice\""), Outcome::Pass);
    assert_eq!(eval("body.name contains \"lic\""), Outcome::Pass);
    assert_eq!(eval("body.name > 3"), Outcome::Fail(FailReason::InvalidComparison));
    assert_eq!(eval("body.tags contains \"y\""), Outcome::Pass);
    assert_eq!(eval("body.tags contains \"z\""), Outcome::Fail(FailReason::NotSatisfied));
    assert_eq!(eval("body.items.0.n < -2"), Outcome::Pass);
    assert_eq!(eval("body.items.1 exists"), Outcome::Fail(FailReason::PathNotFound));
    assert_eq!(eval("body exists"), Outcome::Pass);
    assert_eq!(eval("body.tags.1 == \"y\""), Outcome::Pass);
}

#[test]
fn rule_parsing() {
    let r = parse_rule("body.a.b != null").unwrap();
    assert_eq!(r.op, Op::Ne);
    match &r.path {
        Path::Body(segs) => assert_eq!(segs, &vec![s("a"), s("b")]),
        _ => panic!("expected a body path"),
    }
    assert!(matches!(r.literal, Some(Json::Null)));
    let h = parse_rule("headers.X-Id exists").unwrap();
    assert!(matches!(&h.path, Path::Header(n) if n == "X-Id"));
    assert!(h.literal.is_none());
    let n = parse_rule("status == -12").unwrap();
    assert!(matches!(n.literal, Some(Json::Num(Number::Neg(-12)))));
    let q = parse_rule("body.msg == \"a b\"").unwrap();
    assert!(matches!(&q.literal, Some(Json::Str(t)) if t == "a b"));
    assert!(parse_rule("status").is_none());
    assert!(parse_rule("status ==").is_none());
    assert!(parse_rule("status exists 5").is_none());
    assert!(parse_rule("status ~ 5").is_none());
    assert!(parse_rule("cookies.x == 1").is_none());
    assert!(parse_rule("status == five").is_none());
    assert!(parse_rule("status == 99999999999999999999").is_none());
}

#[test]
fn load_errors_name_the_field() {
    assert_eq!(load_method(0, "PATCH").ok(), Some(Method::Patch));
    match load_method(3, "get") {
        Err(LoadError::Schema { test, field, .. }) => {
            assert_eq!(test, 3);
            assert_eq!(field, SchemaField::Method);
        }
        _ => panic!("expected a schema error"),
    }
    match load_predicate(1, 2, s("d"), "body.x =", s("b")) {
        Err(LoadError::Schema { test, predicate, field }) => {
            assert_eq!((test, predicate, field), (1, 2, SchemaField::Rule));
        }
        _ => panic!("expected a schema error"),
    }
}

#[test]
fn body_check_reports_invalid_json() {
    let expected = ExpectedResponse { status_code: 200, headers: None, body: Some(obj(vec![("ok", Json::Bool(true))])) };
    let v = validate(&expected, &response(200, &[], None));
    assert_eq!(v.body, Some(BodyCheck::NotJson));
    let v = validate(&expected, &response(200, &[], Some(obj(vec![("ok", Json::Bool(true))]))));
    assert_eq!(v.body, Some(BodyCheck::Matched));
    let none = ExpectedResponse { status_code: 200, headers: None, body: None };
    assert_eq!(validate(&none, &response(200, &[], None)).body, None);
}

#[test]
fn two_tests_one_passed_one_failed() {
    let mut first = simple_test("first", 200, vec![rule_predicate("body.id == 5")]);
    first.expected_response.headers = Some(pairs(&[("Content-Type", "application/json")]));
    first.expected_response.body = Some(obj(vec![("id", num(5))]));
    let second = simple_test("second", 201, vec![]);
    let resp = response(200, &[("content-type", "application/json")], Some(obj(vec![("id", num(5))])));
    let r1 = evaluate_test(&first, &resp);
    let r2 = evaluate_test(&second, &resp);
    assert!(r1.status_match && r1.passed);
    assert!(matches!(r1.headers[0].1, HeaderCheck::Matched));
    assert_eq!(r1.body, Some(BodyCheck::Matched));
    assert_eq!(r1.predicates, vec![Outcome::Pass]);
    assert!(!r2.status_match && !r2.passed);
    assert_eq!(test_line(&first.name), "Running test: first");
    assert_eq!(test_line(&second.name), "Running test: second");
    assert_eq!(
        result_lines(&r1),
        vec![s("Status code match: true"), s("Header 'Content-Type' match: true"), s("Body match: true")]
    );
    assert_eq!(result_lines(&r2), vec![s("Status code match: false")]);
    let summary = summarize(&vec![r1, r2]);
    assert_eq!((summary.total, summary.passed, summary.failed), (2, 1, 1));
    assert_ne!(exit_code(&summary), 0);
}

#[test]
fn all_passing_run_exits_zero_and_transport_errors_fail() {
    let t = simple_test("ok", 200, vec![]);
    let ok = evaluate_test(&t, &response(200, &[], None));
    assert!(ok.passed);
    assert_eq!(exit_code(&summarize(&vec![ok])), 0);
    let bad = failed_test(&t, s("connection refused"));
    assert!(!bad.passed);
    assert_eq!(bad.error.as_deref(), Some("connection refused"));
    let summary = summarize(&vec![bad]);
    assert_eq!(summary.failed, 1);
    assert_eq!(exit_code(&summary), 1);
    assert_eq!(exit_code(&summarize(&vec![])), 0);
}

#[test]
fn curl_command_lists_flags_in_order() {
    let hs = pairs(&[("Accept", "application/json"), ("X-Id", "7")]);
    let qs = pairs(&[("a", "1"), ("b", "2")]);
    assert_eq!(
        curl_command("POST", "http://h/p", &hs, &qs, Some("{\"k\":1}")),
        "curl -X POST -H 'Accept:application/json' -H 'X-Id:7' 'http://h/p?a=1&b=2' -d '{\"k\":1}'"
    );
    assert_eq!(curl_command("GET", "http://h/p", &vec![], &vec![], None), "curl -X GET 'http://h/p' ");
}

#[test]
fn report_lines_have_the_documented_shape() {
    assert_eq!(suite_line("smoke"), "Running test suite: smoke");
    assert_eq!(reason_str(FailReason::PathNotFound), "path not found");
    assert_eq!(reason_str(FailReason::InvalidComparison), "invalid comparison");
    assert_eq!(header_line("X-Id", &HeaderCheck::Missing), "Header 'X-Id' is missing");
    assert_eq!(header_line("X-Id", &HeaderCheck::Mismatched(s("2"))), "Header 'X-Id' match: false");
    let t = simple_test("body", 200, vec![]);
    let mut t2 = t;
    t2.expected_response.body = Some(Json::Null);
    let r = evaluate_test(&t2, &response(200, &[], None));
    assert_eq!(result_lines(&r), vec![s("Status code match: true"), s("Body match: false")]);
}
