//! The HTTP-facing value types and the middleware's decisions: request
//! values, the health-check bypass, header filtering, and content-length
//! parsing.  The server itself, and every socket, lives outside.

use vstd::prelude::*;
use crate::strfmt::str_eq;
use vstd::string::StrSliceExecFns;
use vstd::string::StringExecFns;

verus! {

#[derive(Clone, Copy, PartialEq, Eq, Structural, Debug)]
pub enum HttpMethod {
    GET,
    POST,
    PUT,
    DELETE,
}

impl HttpMethod {
    pub open spec fn spec_name(self) -> Seq<char> {
        match self {
            HttpMethod::GET => "GET"@,
            HttpMethod::POST => "POST"@,
            HttpMethod::PUT => "PUT"@,
            HttpMethod::DELETE => "DELETE"@,
        }
    }

    pub fn name(&self) -> (r: String)
        ensures
            r@ == self.spec_name(),
    {
        match self {
            HttpMethod::GET => "GET".to_owned(),
            HttpMethod::POST => "POST".to_owned(),
            HttpMethod::PUT => "PUT".to_owned(),
            HttpMethod::DELETE => "DELETE".to_owned(),
        }
    }
}

/// One outgoing request: a method, a url, headers in insertion order, and an
/// optional body.
pub struct HttpRequest {
    pub method: HttpMethod,
    pub url: String,
    pub headers: Vec<(String, String)>,
    pub body: Option<String>,
}

impl HttpRequest {
    pub fn new(method: HttpMethod, url: String) -> (r: HttpRequest)
        ensures
            r.method == method,
            r.url == url,
            r.headers@.len() == 0,
            r.body is None,
    {
        HttpRequest { method, url, headers: Vec::new(), body: None }
    }

    /// Attaches a body and records its content type as a header.
    pub fn body(&mut self, body: String, content_type: String)
        ensures
            final(self).method == old(self).method,
            final(self).url == old(self).url,
            final(self).body == Some(body),
            final(self).headers@.len() == old(self).headers@.len() + 1,
            final(self).headers@.drop_last() == old(self).headers@,
            final(self).headers@.last().0@ == "content-type"@,
            final(self).headers@.last().1 == content_type,
    {
        self.body = Some(body);
        self.headers.push(("content-type".to_owned(), content_type));
    }

}

pub struct HttpResponse {
    pub status: u16,
    pub headers: Vec<(String, String)>,
    pub body: String,
}

pub struct HttpServerConfig {
    pub bind_address: String,
    pub max_forwarded_ips: usize,
}

impl Default for HttpServerConfig {
    /// Binds every interface on port 8080 and trusts at most two forwarded
    /// addresses.
    fn default() -> (r: HttpServerConfig)
        ensures
            r.bind_address@ == "0.0.0.0:8080"@,
            r.max_forwarded_ips == 2,
    {
        HttpServerConfig { bind_address: "0.0.0.0:8080".to_owned(), max_forwarded_ips: 2 }
    }
}

/// The one path that is served without an action: load-balancer health probes
/// are too frequent to log.
pub fn is_health_check(path: &str) -> (r: bool)
    ensures
        r == (path@ == "/health-check"@),
{
    str_eq(path, "/health-check")
}

/// Request headers are recorded in the action's trace except cookies, which
/// are traced per cookie instead.
pub fn should_log_header(name: &str) -> (r: bool)
    ensures
        r == (name@ != "cookie"@),
{
    !str_eq(name, "cookie")
}

pub open spec fn spec_is_digit(c: char) -> bool {
    '0' <= c && c <= '9'
}

pub open spec fn spec_digit_value(c: char) -> int {
    c as int - '0' as int
}

/// The value of a digit string, most significant digit first.
pub open spec fn spec_digits_value(s: Seq<char>) -> int
    decreases s.len(),
{
    if s.len() == 0 {
        0
    } else {
        spec_digits_value(s.drop_last()) * 10 + spec_digit_value(s.last())
    }
}

pub open spec fn spec_all_digits(s: Seq<char>) -> bool {
    forall|i: int| 0 <= i < s.len() ==> spec_is_digit(#[trigger] s[i])
}

/// Parses a decimal length, as a content-length header carries one: the value
/// of a non-empty, all-digit string that fits the platform's size type;
/// nothing otherwise.
pub fn parse_usize(s: &str) -> (r: Option<usize>)
    ensures
        r matches Some(v) ==> {
            &&& s@.len() > 0
            &&& spec_all_digits(s@)
            &&& v == spec_digits_value(s@)
        },
        r is None ==> (s@.len() == 0 || !spec_all_digits(s@) || spec_digits_value(s@) > usize::MAX),
{
    let n = s.unicode_len();
    if n == 0 {
        return None;
    }
    let mut acc: usize = 0;
    let mut i: usize = 0;
    proof {
        assert(s@.take(0) =~= Seq::<char>::empty());
    }
    while i < n
        invariant
            i <= n,
            n == s@.len(),
            spec_all_digits(s@.take(i as int)),
            acc == spec_digits_value(s@.take(i as int)),
        decreases n - i,
    {
        let c = s.get_char(i);
        if !(c >= '0' && c <= '9') {
            return None;
        }
        let d = (c as u32 - '0' as u32) as usize;
        if acc > (usize::MAX - d) / 10 {
            proof {
                assert(s@.take(i + 1).drop_last() =~= s@.take(i as int));
                assert(s@.take(i + 1).last() == s@[i as int]);
                if spec_all_digits(s@) {
                    lemma_digits_value_monotone(s@, i as int);
                }
            }
            return None;
        }
        acc = acc * 10 + d;
        proof {
            assert(s@.take(i + 1).drop_last() =~= s@.take(i as int));
            assert(s@.take(i + 1).last() == s@[i as int]);
        }
        i += 1;
    }
    proof {
        assert(s@.take(n as int) =~= s@);
    }
    Some(acc)
}

/// A digit string's value only grows as digits are appended.
proof fn lemma_digits_value_monotone(s: Seq<char>, i: int)
    requires
        0 <= i < s.len(),
        spec_all_digits(s),
    ensures
        spec_digits_value(s) >= spec_digits_value(s.take(i + 1)),
    decreases s.len() - i,
{
    if i + 1 < s.len() {
        lemma_digits_value_monotone(s, i + 1);
        assert(s.take(i + 2).drop_last() =~= s.take(i + 1));
        assert(spec_is_digit(s.take(i + 2).last()));
        lemma_digits_value_nonneg(s.take(i + 1));
    } else {
        assert(s.take(i + 1) =~= s);
    }
}

proof fn lemma_digits_value_nonneg(s: Seq<char>)
    requires
        spec_all_digits(s),
    ensures
        spec_digits_value(s) >= 0,
    decreases s.len(),
{
    if s.len() > 0 {
        assert forall|j: int| 0 <= j < s.drop_last().len() implies spec_is_digit(
            #[trigger] s.drop_last()[j],
        ) by {
            assert(s.drop_last()[j] == s[j]);
        }
        lemma_digits_value_nonneg(s.drop_last());
        assert(spec_is_digit(s.last()));
    }
}

/// The demo request: a greeting message of at most ten bytes.
pub struct HelloRequest {
    pub message: String,
}

impl HelloRequest {
    /// Accepts the request only when the message is short enough.
    pub fn validate(&self) -> (r: Result<(), crate::exception::Exception>)
        ensures
            r is Ok <==> self.message@.len() <= 10,
            r matches Err(e) ==> {
                &&& e.severity == crate::exception::Severity::Warn
                &&& e.code matches Some(c) && c@ == crate::exception::VALIDATION_ERROR@
                &&& e.message@ == "message len must less than 10"@
            },
    {
        if self.message.as_str().unicode_len() > 10 {
            return Err(
                crate::exception::Exception::validation_error(
                    "message len must less than 10".to_owned(),
                ),
            );
        }
        Ok(())
    }
}

} // verus!
