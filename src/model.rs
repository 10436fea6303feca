//! The suite model: suites, tests, requests, expectations and responses.
use vstd::prelude::*;
use crate::json::Json;
use crate::rule::{Rule, parse_rule, rule_valid, rule_matches};
use crate::text::chars_of;
use crate::rule::is_word_of;

verus! {

/// The supported request methods.
#[derive(PartialEq, Eq, Structural, Clone, Copy, Debug)]
pub enum Method {
    Get,
    Post,
    Put,
    Patch,
    Delete,
}

pub open spec fn method_of(s: Seq<char>) -> Option<Method> {
    if s == "GET"@ {
        Some(Method::Get)
    } else if s == "POST"@ {
        Some(Method::Post)
    } else if s == "PUT"@ {
        Some(Method::Put)
    } else if s == "PATCH"@ {
        Some(Method::Patch)
    } else if s == "DELETE"@ {
        Some(Method::Delete)
    } else {
        None
    }
}

impl Method {
    /// Reads a method name; only the five upper-case verbs are accepted.
    pub fn parse(s: &str) -> (r: Option<Method>)
        ensures
            r == method_of(s@),
    {
        let t = chars_of(s);
        if is_word_of(&t, "GET") {
            Some(Method::Get)
        } else if is_word_of(&t, "POST") {
            Some(Method::Post)
        } else if is_word_of(&t, "PUT") {
            Some(Method::Put)
        } else if is_word_of(&t, "PATCH") {
            Some(Method::Patch)
        } else if is_word_of(&t, "DELETE") {
            Some(Method::Delete)
        } else {
            None
        }
    }
}

/// A request as the suite file states it; header values, query values and the
/// URL may hold `{{name}}` tokens.
pub struct Request {
    pub method: Method,
    pub url: String,
    pub headers: Vec<(String, String)>,
    pub query: Vec<(String, String)>,
    pub body: Option<Json>,
}

/// What a response is expected to be; headers and body are checked only when
/// present.
pub struct ExpectedResponse {
    pub status_code: u16,
    pub headers: Option<Vec<(String, String)>>,
    pub body: Option<Json>,
}

/// A named rule; `behavior` is a note for readers and is never evaluated.
pub struct Predicate {
    pub description: String,
    pub rule: Rule,
    pub behavior: String,
}

pub struct Test {
    pub name: String,
    pub request: Request,
    pub expected_response: ExpectedResponse,
    pub predicates: Vec<Predicate>,
}

pub struct Suite {
    pub name: String,
    pub base_url: String,
    pub variables: Vec<(String, String)>,
    pub tests: Vec<Test>,
}

/// A response as received: status, headers in arrival order, and the body
/// parsed as JSON (`None` when it is not valid JSON).
pub struct Response {
    pub status: u16,
    pub headers: Vec<(String, String)>,
    pub body: Option<Json>,
}

/// The field of a suite file that failed the schema.
#[derive(PartialEq, Eq, Structural, Clone, Copy, Debug)]
pub enum SchemaField {
    Method,
    Rule,
}

/// Why a suite could not be loaded.
pub enum LoadError {
    Read(String),
    Parse(String),
    /// A required field is missing or has the wrong type; the message names it.
    Field(String),
    /// The test at `test` (counted from 0) has an invalid `field`; for a rule,
    /// `predicate` is its position among the test's predicates, and for a
    /// method it is 0.
    Schema { test: usize, predicate: usize, field: SchemaField },
}

/// Reads a request method during loading; test `test` is named in the error.
pub fn load_method(test: usize, s: &str) -> (r: Result<Method, LoadError>)
    ensures
        match method_of(s@) {
            Some(m) => r == Ok::<Method, LoadError>(m),
            None => r matches Err(LoadError::Schema { test: t, predicate: 0, field: SchemaField::Method }) && t == test,
        },
{
    match Method::parse(s) {
        Some(m) => Ok(m),
        None => Err(LoadError::Schema { test, predicate: 0, field: SchemaField::Method }),
    }
}

/// Builds a predicate during loading, parsing its rule once; a malformed rule
/// is a schema error naming its test and position.
pub fn load_predicate(
    test: usize,
    index: usize,
    description: String,
    rule: &str,
    behavior: String,
) -> (r: Result<Predicate, LoadError>)
    ensures
        r is Ok <==> rule_valid(rule@),
        r matches Ok(p) ==> rule_matches(p.rule, rule@) && p.description == description
            && p.behavior == behavior,
        r matches Err(e) ==> e matches LoadError::Schema { test: t, predicate: i, field: SchemaField::Rule }
            && t == test && i == index,
{
    match parse_rule(rule) {
        Some(parsed) => Ok(Predicate { description, rule: parsed, behavior }),
        None => Err(LoadError::Schema { test, predicate: index, field: SchemaField::Rule }),
    }
}

} // verus!
