//! Route definitions, the route table, and the first-match lookup.
use crate::headers::{dedup_headers, header_lookup, unique_keys};
use crate::json::JsonValue;
use crate::method::{spec_parse_method, Method};
use crate::pattern::{regex_accepts, regex_is_match, regex_new, regex_source, regex_valid};
use vstd::prelude::*;

verus! {

/// The status of a route that does not declare one.
pub fn default_status() -> (r: u16)
    ensures
        r == 200,
{
    200
}

/// How a canned body is turned into the response payload.
#[derive(Debug, PartialEq)]
pub enum ContentType {
    JSON,
    FORM,
    RAW,
    /// An unrecognized label, kept as written for forward compatibility.
    Other(String),
}

impl Default for ContentType {
    /// The default encoding is JSON.
    fn default() -> (r: Self)
        ensures
            r == ContentType::JSON,
    {
        ContentType::JSON
    }
}

/// The view of an optional textual field.
pub open spec fn label_view(label: Option<String>) -> Option<Seq<char>> {
    match label {
        Option::None => Option::None,
        Option::Some(s) => Option::Some(s@),
    }
}

/// Which encoding a content-type declaration yields: absent defaults to
/// JSON, a recognized label maps to its variant, an unrecognized one is
/// carried as itself.
pub open spec fn content_type_matches(label: Option<Seq<char>>, ct: ContentType) -> bool {
    match label {
        Option::None => ct == ContentType::JSON,
        Option::Some(s) => if s == "json"@ {
            ct == ContentType::JSON
        } else if s == "form"@ {
            ct == ContentType::FORM
        } else if s == "raw"@ {
            ct == ContentType::RAW
        } else {
            ct matches ContentType::Other(t) && t@ == s
        },
    }
}

impl ContentType {
    /// Decodes a content-type label leniently.
    pub fn parse(label: Option<String>) -> (r: ContentType)
        ensures
            content_type_matches(label_view(label), r),
    {
        match label {
            Option::None => ContentType::JSON,
            Option::Some(s) => {
                if s == "json".to_owned() {
                    ContentType::JSON
                } else if s == "form".to_owned() {
                    ContentType::FORM
                } else if s == "raw".to_owned() {
                    ContentType::RAW
                } else {
                    ContentType::Other(s)
                }
            },
        }
    }
}

/// The raw fields of one route definition, as parsed from the
/// configuration source.
pub struct RawApi {
    pub path: String,
    pub method: Option<String>,
    pub content_type: Option<String>,
    pub status: Option<u16>,
    pub headers: Vec<(String, String)>,
    pub body: Option<JsonValue>,
}

/// Whether raw fields compile into a route definition: the path is
/// non-empty and a valid pattern, and the method token, if any, is known.
pub open spec fn raw_api_ok(raw: RawApi) -> bool {
    &&& raw.path@.len() > 0
    &&& regex_valid(raw.path@)
    &&& (raw.method matches Option::Some(m) ==> spec_parse_method(m@) is Some)
}

/// The error compiling raw fields reports: a bad path before a bad method.
pub open spec fn raw_api_err(raw: RawApi) -> CompileError {
    if raw.path@.len() == 0 || !regex_valid(raw.path@) {
        CompileError::InvalidPattern
    } else {
        CompileError::InvalidMethod
    }
}

/// The method a raw definition declares; absent defaults to GET.
pub open spec fn spec_raw_method(m: Option<String>) -> Option<Method> {
    match m {
        Option::None => Option::Some(Method::GET),
        Option::Some(s) => spec_parse_method(s@),
    }
}

/// The status a raw definition declares; absent defaults to 200.
pub open spec fn spec_raw_status(s: Option<u16>) -> u16 {
    match s {
        Option::None => 200,
        Option::Some(v) => v,
    }
}

/// Why compiling a raw definition failed.
#[derive(Debug, Clone, Copy, PartialEq, Eq, Structural)]
pub enum CompileError {
    /// The path is empty or not a valid pattern.
    InvalidPattern,
    /// The method token names no known HTTP method.
    InvalidMethod,
}

/// One compiled rule: path pattern, method, and a canned response template.
#[derive(Debug)]
pub struct API {
    pub path: String,
    /// Derived: compiled once at load time from `path`; `wf` ties the two.
    pub pattern: regex::Regex,
    pub method: Method,
    pub content_type: ContentType,
    pub status: u16,
    pub headers: Vec<(String, String)>,
    pub body: Option<JsonValue>,
}

/// What compiling raw fields yields: the path kept, the pattern compiled
/// from it, defaults filled in, headers collapsed to unique names.
pub open spec fn compiled_from(api: API, raw: RawApi) -> bool {
    &&& api.wf()
    &&& api.path == raw.path
    &&& Option::Some(api.method) == spec_raw_method(raw.method)
    &&& content_type_matches(label_view(raw.content_type), api.content_type)
    &&& api.status == spec_raw_status(raw.status)
    &&& (forall|name: Seq<char>|
        header_lookup(api.headers@, name) == header_lookup(raw.headers@, name))
    &&& api.body == raw.body
}

impl API {
    /// A definition that has completed loading: the path is non-empty and
    /// the pattern was compiled from exactly that path.
    pub open spec fn wf(&self) -> bool {
        &&& self.path@.len() > 0
        &&& regex_valid(self.path@)
        &&& regex_source(self.pattern) == self.path@
        &&& unique_keys(self.headers@)
    }

    /// Compiles raw fields into a route definition.
    pub fn compile(raw: RawApi) -> (r: Result<API, CompileError>)
        ensures
            r is Ok <==> raw_api_ok(raw),
            r matches Ok(api) ==> compiled_from(api, raw),
            r matches Err(e) ==> e == raw_api_err(raw),
    {
        if raw.path.as_str().is_empty() {
            return Err(CompileError::InvalidPattern);
        }
        let compiled = match regex_new(raw.path.as_str()) {
            Option::Some(p) => p,
            Option::None => {
                return Err(CompileError::InvalidPattern);
            },
        };
        let method = match &raw.method {
            Option::None => Method::GET,
            Option::Some(s) => match Method::parse(s.as_str()) {
                Option::Some(m) => m,
                Option::None => {
                    return Err(CompileError::InvalidMethod);
                },
            },
        };
        let status = match raw.status {
            Option::None => default_status(),
            Option::Some(v) => v,
        };
        let headers = dedup_headers(&raw.headers);
        Ok(
            API {
                path: raw.path,
                pattern: compiled,
                method,
                content_type: ContentType::parse(raw.content_type),
                status,
                headers,
                body: raw.body,
            },
        )
    }

    /// Whether the compiled pattern matches anywhere within the path.
    pub fn match_path(&self, path: &str) -> (b: bool)
        requires
            self.wf(),
        ensures
            b == regex_accepts(self.path@, path@),
    {
        regex_is_match(&self.pattern, path)
    }
}

/// Whether one definition applies to a request: its method equals the
/// request's, and its pattern matches within the path.
pub open spec fn api_applies(api: API, path: Seq<char>, method: Method) -> bool {
    api.method == method && regex_accepts(api.path@, path)
}

/// The first applicable definition stands at `i`: it applies, and no
/// earlier one does.
pub open spec fn first_match_at(apis: Seq<API>, path: Seq<char>, method: Method, i: int) -> bool {
    &&& 0 <= i < apis.len()
    &&& api_applies(apis[i], path, method)
    &&& (forall|j: int| 0 <= j < i ==> !api_applies(apis[j], path, method))
}

/// An element of the raw sequence is the first that does not compile.
pub open spec fn first_bad_raw(raws: Seq<RawApi>, i: int) -> bool {
    &&& 0 <= i < raws.len()
    &&& !raw_api_ok(raws[i])
    &&& (forall|j: int| 0 <= j < i ==> raw_api_ok(raws[j]))
}

/// Two positions both holding the first applicable definition are the
/// same position: for a fixed table, the matcher's answer is unique.
pub proof fn lemma_first_match_unique(
    apis: Seq<API>,
    path: Seq<char>,
    method: Method,
    i: int,
    j: int,
)
    requires
        first_match_at(apis, path, method, i),
        first_match_at(apis, path, method, j),
    ensures
        i == j,
{
}

/// The ordered route table, immutable after load.
pub struct Config {
    pub apis: Vec<API>,
}

impl Config {
    /// Every definition in the table has completed loading.
    pub open spec fn wf(&self) -> bool {
        forall|i: int| 0 <= i < self.apis@.len() ==> self.apis@[i].wf()
    }

    /// The empty table: no route configured, nothing ever matches.
    pub fn empty() -> (r: Config)
        ensures
            r.apis@.len() == 0,
            r.wf(),
    {
        Config { apis: Vec::new() }
    }

    /// Builds the table from raw definitions, atomically: if any element
    /// fails to compile, the whole table is rejected with the first error.
    pub fn from_raw(raws: Vec<RawApi>) -> (r: Result<Config, CompileError>)
        ensures
            r is Ok <==> (forall|i: int| 0 <= i < raws@.len() ==> raw_api_ok(raws@[i])),
            r matches Ok(c) ==> {
                &&& c.wf()
                &&& c.apis@.len() == raws@.len()
                &&& (forall|i: int|
                    0 <= i < raws@.len() ==> compiled_from(#[trigger] c.apis@[i], raws@[i]))
            },
            r matches Err(e) ==> exists|i: int|
                #[trigger] first_bad_raw(raws@, i) && e == raw_api_err(raws@[i]),
    {
        let ghost all = raws@;
        let mut rest = raws;
        let mut apis: Vec<API> = Vec::new();
        #[verifier::loop_isolation(false)]
        while rest.len() > 0
            invariant
                apis@.len() + rest@.len() == all.len(),
                rest@ =~= all.subrange(apis@.len() as int, all.len() as int),
                forall|i: int| 0 <= i < apis@.len() ==> raw_api_ok(all[i]),
                forall|i: int|
                    0 <= i < apis@.len() ==> compiled_from(#[trigger] apis@[i], all[i]),
            decreases rest@.len(),
        {
            let ghost k = apis@.len() as int;
            let raw = rest.remove(0);
            proof {
                assert(raw == all[k]);
                assert(rest@ =~= all.subrange(k + 1, all.len() as int));
            }
            match API::compile(raw) {
                Ok(api) => {
                    apis.push(api);
                },
                Err(e) => {
                    proof {
                        assert(first_bad_raw(all, k));
                    }
                    return Err(e);
                },
            }
        }
        Ok(Config { apis })
    }

    /// The first definition whose method equals the request's and whose
    /// pattern matches within the path; `None` when no rule applies.
    pub fn find_api(&self, path: &str, method: Method) -> (r: Option<&API>)
        requires
            self.wf(),
        ensures
            match r {
                Option::Some(api) => exists|i: int|
                    #[trigger] first_match_at(self.apis@, path@, method, i) && *api
                        == self.apis@[i],
                Option::None => forall|i: int|
                    0 <= i < self.apis@.len() ==> !api_applies(
                        self.apis@[i],
                        path@,
                        method,
                    ),
            },
    {
        let mut i: usize = 0;
        #[verifier::loop_isolation(false)]
        while i < self.apis.len()
            invariant
                i <= self.apis@.len(),
                forall|j: int| 0 <= j < i ==> !api_applies(self.apis@[j], path@, method),
            decreases self.apis@.len() - i,
        {
            let api = &self.apis[i];
            if api.method == method && api.match_path(path) {
                proof {
                    assert(first_match_at(self.apis@, path@, method, i as int));
                }
                return Some(api);
            }
            i = i + 1;
        }
        None
    }
}

} // verus!
