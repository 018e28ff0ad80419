use vstd::prelude::*;
use crate::text::same_text;

verus! {

/// An HTTP request method.
#[derive(Debug, Clone, Copy, PartialEq, Eq, Structural)]
pub enum HttpVerb {
    GET,
    HEAD,
    POST,
    PUT,
    DELETE,
    TRACE,
    OPTIONS,
    CONNECT,
    PATCH,
}

/// The canonical upper-case name of a method.
pub open spec fn verb_name(v: HttpVerb) -> Seq<char> {
    match v {
        HttpVerb::GET => "GET"@,
        HttpVerb::HEAD => "HEAD"@,
        HttpVerb::POST => "POST"@,
        HttpVerb::PUT => "PUT"@,
        HttpVerb::DELETE => "DELETE"@,
        HttpVerb::TRACE => "TRACE"@,
        HttpVerb::OPTIONS => "OPTIONS"@,
        HttpVerb::CONNECT => "CONNECT"@,
        HttpVerb::PATCH => "PATCH"@,
    }
}

/// The lower-case name of a method, as used in generated function names.
pub open spec fn verb_lowercase_name(v: HttpVerb) -> Seq<char> {
    match v {
        HttpVerb::GET => "get"@,
        HttpVerb::HEAD => "head"@,
        HttpVerb::POST => "post"@,
        HttpVerb::PUT => "put"@,
        HttpVerb::DELETE => "delete"@,
        HttpVerb::TRACE => "trace"@,
        HttpVerb::OPTIONS => "options"@,
        HttpVerb::CONNECT => "connect"@,
        HttpVerb::PATCH => "patch"@,
    }
}

/// The method whose canonical name is `s`, if any.
pub open spec fn verb_named(s: Seq<char>) -> Option<HttpVerb> {
    if s == "GET"@ {
        Some(HttpVerb::GET)
    } else if s == "HEAD"@ {
        Some(HttpVerb::HEAD)
    } else if s == "POST"@ {
        Some(HttpVerb::POST)
    } else if s == "PUT"@ {
        Some(HttpVerb::PUT)
    } else if s == "DELETE"@ {
        Some(HttpVerb::DELETE)
    } else if s == "TRACE"@ {
        Some(HttpVerb::TRACE)
    } else if s == "OPTIONS"@ {
        Some(HttpVerb::OPTIONS)
    } else if s == "CONNECT"@ {
        Some(HttpVerb::CONNECT)
    } else if s == "PATCH"@ {
        Some(HttpVerb::PATCH)
    } else {
        None
    }
}

/// Whether requests with this method carry a body whose fields are documented
/// in an endpoint's parameter table.
pub open spec fn carries_body(v: HttpVerb) -> bool {
    v == HttpVerb::POST || v == HttpVerb::PUT || v == HttpVerb::PATCH
}

impl HttpVerb {
    /// The method named `string`, or `None` where it names no method.
    pub fn parse(string: &str) -> (r: Option<HttpVerb>)
        ensures
            r == verb_named(string@),
    {
        if same_text(string, "GET") {
            Some(HttpVerb::GET)
        } else if same_text(string, "HEAD") {
            Some(HttpVerb::HEAD)
        } else if same_text(string, "POST") {
            Some(HttpVerb::POST)
        } else if same_text(string, "PUT") {
            Some(HttpVerb::PUT)
        } else if same_text(string, "DELETE") {
            Some(HttpVerb::DELETE)
        } else if same_text(string, "TRACE") {
            Some(HttpVerb::TRACE)
        } else if same_text(string, "OPTIONS") {
            Some(HttpVerb::OPTIONS)
        } else if same_text(string, "CONNECT") {
            Some(HttpVerb::CONNECT)
        } else if same_text(string, "PATCH") {
            Some(HttpVerb::PATCH)
        } else {
            None
        }
    }

    /// The method named `string`, which must name one.
    pub fn from(string: &str) -> (r: HttpVerb)
        requires
            verb_named(string@) is Some,
        ensures
            verb_named(string@) == Some(r),
            verb_name(r) == string@,
    {
        proof {
            reveal_strlit("GET");
            reveal_strlit("HEAD");
            reveal_strlit("POST");
            reveal_strlit("PUT");
            reveal_strlit("DELETE");
            reveal_strlit("TRACE");
            reveal_strlit("OPTIONS");
            reveal_strlit("CONNECT");
            reveal_strlit("PATCH");
        }
        match HttpVerb::parse(string) {
            Some(v) => v,
            None => HttpVerb::GET,
        }
    }

    /// The canonical upper-case name of the method.
    pub fn as_str(&self) -> (r: &'static str)
        ensures
            r@ == verb_name(*self),
    {
        match self {
            HttpVerb::GET => "GET",
            HttpVerb::HEAD => "HEAD",
            HttpVerb::POST => "POST",
            HttpVerb::PUT => "PUT",
            HttpVerb::DELETE => "DELETE",
            HttpVerb::TRACE => "TRACE",
            HttpVerb::OPTIONS => "OPTIONS",
            HttpVerb::CONNECT => "CONNECT",
            HttpVerb::PATCH => "PATCH",
        }
    }

    /// The lower-case name of the method.
    pub fn lowercase_name(&self) -> (r: &'static str)
        ensures
            r@ == verb_lowercase_name(*self),
    {
        match self {
            HttpVerb::GET => "get",
            HttpVerb::HEAD => "head",
            HttpVerb::POST => "post",
            HttpVerb::PUT => "put",
            HttpVerb::DELETE => "delete",
            HttpVerb::TRACE => "trace",
            HttpVerb::OPTIONS => "options",
            HttpVerb::CONNECT => "connect",
            HttpVerb::PATCH => "patch",
        }
    }

    /// Whether the method's requests carry a documented body.
    pub fn carries_body(&self) -> (r: bool)
        ensures
            r == carries_body(*self),
    {
        match self {
            HttpVerb::POST | HttpVerb::PUT | HttpVerb::PATCH => true,
            _ => false,
        }
    }
}

} // verus!
