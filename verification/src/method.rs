//! HTTP methods: parsed case-insensitively, matched exactly.
use crate::text::{chars_of, push_char};
use vstd::prelude::*;

verus! {

/// One HTTP method.
#[derive(Debug, Clone, Copy, PartialEq, Eq, Structural)]
pub enum Method {
    GET,
    POST,
    PUT,
    DELETE,
    HEAD,
    OPTIONS,
    PATCH,
    CONNECT,
    TRACE,
}

/// An ASCII letter mapped to upper case; every other character stays.
pub open spec fn upper_char(c: char) -> char {
    if 'a' <= c && c <= 'z' {
        ((c as u8) - 32) as char
    } else {
        c
    }
}

/// A text with every ASCII letter mapped to upper case.
pub open spec fn upper_text(s: Seq<char>) -> Seq<char> {
    s.map_values(|c: char| upper_char(c))
}

/// Which method a token names, taken case-insensitively; `None` for an
/// unrecognized token.
pub open spec fn spec_parse_method(s: Seq<char>) -> Option<Method> {
    let u = upper_text(s);
    if u == "GET"@ {
        Some(Method::GET)
    } else if u == "POST"@ {
        Some(Method::POST)
    } else if u == "PUT"@ {
        Some(Method::PUT)
    } else if u == "DELETE"@ {
        Some(Method::DELETE)
    } else if u == "HEAD"@ {
        Some(Method::HEAD)
    } else if u == "OPTIONS"@ {
        Some(Method::OPTIONS)
    } else if u == "PATCH"@ {
        Some(Method::PATCH)
    } else if u == "CONNECT"@ {
        Some(Method::CONNECT)
    } else if u == "TRACE"@ {
        Some(Method::TRACE)
    } else {
        None
    }
}

/// The canonical text of a method.
pub open spec fn spec_method_text(m: Method) -> Seq<char> {
    match m {
        Method::GET => "GET"@,
        Method::POST => "POST"@,
        Method::PUT => "PUT"@,
        Method::DELETE => "DELETE"@,
        Method::HEAD => "HEAD"@,
        Method::OPTIONS => "OPTIONS"@,
        Method::PATCH => "PATCH"@,
        Method::CONNECT => "CONNECT"@,
        Method::TRACE => "TRACE"@,
    }
}

fn upper_char_exec(c: char) -> (r: char)
    ensures
        r == upper_char(c),
{
    if 'a' <= c && c <= 'z' {
        ((c as u8) - 32) as char
    } else {
        c
    }
}

impl Method {
    /// Parses a method token, case-insensitively.
    pub fn parse(s: &str) -> (r: Option<Method>)
        ensures
            r == spec_parse_method(s@),
    {
        let cs = chars_of(s);
        let mut u = String::new();
        let mut i: usize = 0;
        while i < cs.len()
            invariant
                i <= cs.len(),
                cs@ == s@,
                u@ == upper_text(s@.take(i as int)),
            decreases cs.len() - i,
        {
            push_char(&mut u, upper_char_exec(cs[i]));
            proof {
                assert(u@ =~= upper_text(s@.take(i + 1)));
            }
            i = i + 1;
        }
        proof {
            assert(s@.take(cs.len() as int) =~= s@);
        }
        if u == "GET".to_owned() {
            Some(Method::GET)
        } else if u == "POST".to_owned() {
            Some(Method::POST)
        } else if u == "PUT".to_owned() {
            Some(Method::PUT)
        } else if u == "DELETE".to_owned() {
            Some(Method::DELETE)
        } else if u == "HEAD".to_owned() {
            Some(Method::HEAD)
        } else if u == "OPTIONS".to_owned() {
            Some(Method::OPTIONS)
        } else if u == "PATCH".to_owned() {
            Some(Method::PATCH)
        } else if u == "CONNECT".to_owned() {
            Some(Method::CONNECT)
        } else if u == "TRACE".to_owned() {
            Some(Method::TRACE)
        } else {
            None
        }
    }

    /// The canonical text of this method.
    pub fn as_text(&self) -> (r: &'static str)
        ensures
            r@ == spec_method_text(*self),
    {
        match self {
            Method::GET => "GET",
            Method::POST => "POST",
            Method::PUT => "PUT",
            Method::DELETE => "DELETE",
            Method::HEAD => "HEAD",
            Method::OPTIONS => "OPTIONS",
            Method::PATCH => "PATCH",
            Method::CONNECT => "CONNECT",
            Method::TRACE => "TRACE",
        }
    }
}

} // verus!
