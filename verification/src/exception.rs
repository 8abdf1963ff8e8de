//! The failure value threaded through every fallible operation: a severity,
//! an optional short code, a message, an optional source location, and an
//! optional cause, itself an exception.  Rendering walks the cause chain and
//! numbers its links from zero.

use vstd::prelude::*;
use crate::strfmt::spec_dec_digits;
use crate::strfmt::u64_to_string;
use vstd::string::StringExecFns;

verus! {

/// Error code attached to failed input validation.
pub const VALIDATION_ERROR: &'static str = "VALIDATION_ERROR";

/// Error code attached to an unparseable request body.
pub const BAD_REQUEST: &'static str = "BAD_REQUEST";

/// Error code attached to a denied authorization.
pub const FORBIDDEN: &'static str = "FORBIDDEN";

#[derive(Clone, Copy, PartialEq, Eq, Structural, Debug)]
pub enum Severity {
    Warn,
    Error,
}

impl Severity {
    pub open spec fn spec_name(self) -> Seq<char> {
        match self {
            Severity::Warn => "WARN"@,
            Severity::Error => "ERROR"@,
        }
    }

    pub fn name(&self) -> (r: String)
        ensures
            r@ == self.spec_name(),
    {
        match self {
            Severity::Warn => "WARN".to_owned(),
            Severity::Error => "ERROR".to_owned(),
        }
    }
}

#[derive(Debug)]
pub struct Exception {
    pub severity: Severity,
    pub code: Option<String>,
    pub message: String,
    pub location: Option<String>,
    pub source: Option<Box<Exception>>,
}

impl Exception {
    /// Length of the cause chain below this exception.
    pub open spec fn depth(self) -> nat
        decreases self,
    {
        match self.source {
            None => 0nat,
            Some(s) => 1nat + s.depth(),
        }
    }

    /// The messages of the whole chain, outermost first.
    pub open spec fn chain_messages(self) -> Seq<Seq<char>>
        decreases self,
    {
        match self.source {
            None => seq![self.message@],
            Some(s) => seq![self.message@] + s.chain_messages(),
        }
    }

    /// Holds when every link of the chain is a bare upstream failure: severity
    /// `Error`, no code, no location.
    pub open spec fn chain_is_bare_error(self) -> bool
        decreases self,
    {
        &&& self.severity == Severity::Error
        &&& self.code is None
        &&& self.location is None
        &&& match self.source {
            None => true,
            Some(s) => s.chain_is_bare_error(),
        }
    }

    /// An exception with severity `Error` and no code, source or location.
    pub fn error(message: String) -> (r: Exception)
        ensures
            r.severity == Severity::Error,
            r.code is None,
            r.message == message,
            r.location is None,
            r.source is None,
    {
        Exception {
            severity: Severity::Error,
            code: None,
            message,
            location: None,
            source: None,
        }
    }

    /// A validation failure: severity `Warn` under the validation error code.
    pub fn validation_error(message: String) -> (r: Exception)
        ensures
            r.severity == Severity::Warn,
            r.code matches Some(c) && c@ == VALIDATION_ERROR@,
            r.message == message,
            r.location is None,
            r.source is None,
    {
        Exception {
            severity: Severity::Warn,
            code: Some(VALIDATION_ERROR.to_owned()),
            message,
            location: None,
            source: None,
        }
    }

    /// Renders the chain, one line per link, numbered from zero.
    pub fn describe(&self) -> (r: String)
        requires
            self.depth() < 1000000,
        ensures
            r@ == spec_describe(*self, 0),
    {
        self.describe_from(0)
    }

    fn describe_from(&self, index: u64) -> (r: String)
        requires
            index + self.depth() < u64::MAX,
        ensures
            r@ == spec_describe(*self, index as int),
        decreases self.depth(),
    {
        let mut s = u64_to_string(index);
        s.append(": ");
        let sev = self.severity.name();
        s.append(sev.as_str());
        s.append(" ");
        match &self.code {
            Some(code) => {
                s.append("[");
                s.append(code.as_str());
                s.append("] ");
            },
            None => {},
        }
        s.append(self.message.as_str());
        match &self.location {
            Some(location) => {
                s.append(" at ");
                s.append(location.as_str());
            },
            None => {},
        }
        proof {
            assert(s@ =~= spec_exception_line(*self, index as int));
        }
        match &self.source {
            Some(source) => {
                s.append("\n");
                let rest = source.describe_from(index + 1);
                s.append(rest.as_str());
                proof {
                    assert(s@ =~= spec_describe(*self, index as int));
                }
                s
            },
            None => s,
        }
    }
}

/// One line of the rendered chain: `{index}: {severity} [{code}] {message} at
/// {location}`, with the code and location parts only where present.
pub open spec fn spec_exception_line(e: Exception, index: int) -> Seq<char> {
    spec_dec_digits(index) + ": "@ + e.severity.spec_name() + " "@ + (match e.code {
        Some(c) => "["@ + c@ + "] "@,
        None => Seq::empty(),
    }) + e.message@ + (match e.location {
        Some(l) => " at "@ + l@,
        None => Seq::empty(),
    })
}

/// The rendered chain: one line per link, newline-separated, numbered from
/// `index`.
pub open spec fn spec_describe(e: Exception, index: int) -> Seq<char>
    decreases e,
{
    match e.source {
        None => spec_exception_line(e, index),
        Some(s) => spec_exception_line(e, index) + "\n"@ + spec_describe(*s, index + 1),
    }
}

/// The messages of an optional chain, outermost first.
pub open spec fn spec_opt_chain_messages(o: Option<Box<Exception>>) -> Seq<Seq<char>> {
    match o {
        None => Seq::empty(),
        Some(e) => e.chain_messages(),
    }
}

pub open spec fn spec_opt_chain_is_bare_error(o: Option<Box<Exception>>) -> bool {
    match o {
        None => true,
        Some(e) => e.chain_is_bare_error(),
    }
}

/// Builds a cause chain from the rendered messages of an upstream error and
/// its transitive causes, outermost first.  Every link carries severity
/// `Error` and no code or location.
pub fn source(messages: Vec<String>) -> (r: Option<Box<Exception>>)
    ensures
        spec_opt_chain_messages(r) == messages@.map_values(|m: String| m@),
        spec_opt_chain_is_bare_error(r),
        r is Some <==> messages@.len() > 0,
{
    let ghost orig = messages@.map_values(|m: String| m@);
    let mut rest = messages;
    let mut cur: Option<Box<Exception>> = None;
    proof {
        assert(orig.skip(rest@.len() as int) =~= Seq::empty());
    }
    while rest.len() > 0
        invariant
            rest@.len() <= orig.len(),
            orig == rest@.map_values(|m: String| m@) + spec_opt_chain_messages(cur),
            spec_opt_chain_is_bare_error(cur),
            cur is Some <==> rest@.len() < orig.len(),
        decreases rest.len(),
    {
        let m = rest.pop().unwrap();
        let next = Exception {
            severity: Severity::Error,
            code: None,
            message: m,
            location: None,
            source: cur,
        };
        proof {
            assert(rest@.map_values(|x: String| x@).push(m@) + spec_opt_chain_messages(cur)
                =~= rest@.map_values(|x: String| x@) + next.chain_messages());
        }
        cur = Some(Box::new(next));
    }
    proof {
        assert(rest@.map_values(|m: String| m@) =~= Seq::<Seq<char>>::empty());
        assert(orig =~= spec_opt_chain_messages(cur));
    }
    cur
}

} // verus!
