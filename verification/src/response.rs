//! Synthesizing the concrete response of a matched definition, and the
//! dispatcher's decision for one request.
use crate::config::{
    api_applies, first_match_at, lemma_first_match_unique, Config, ContentType, API,
};
use crate::form::{all_scalars, form_encodable, form_encode, form_pairs_text};
use crate::json::{json_text, JsonValue};
use crate::method::{spec_method_text, Method};
use vstd::prelude::*;
use vstd::string::StringExecFns;

verus! {

/// A concrete response: status code, headers, body text.
#[derive(Debug, PartialEq)]
pub struct ResponsePayload {
    pub status: u16,
    pub headers: Vec<(String, String)>,
    pub body: String,
}

/// Why synthesizing a response failed.
#[derive(Debug, Clone, Copy, PartialEq, Eq, Structural)]
pub enum SynthesisError {
    /// The status code lies outside the protocol's legal range.
    InvalidStatus,
    /// The body cannot be encoded in the declared content type.
    BodyNotEncodable,
}

/// The legal protocol range of a status code.
pub open spec fn status_ok(s: u16) -> bool {
    100 <= s && s < 1000
}

/// The body text a definition with a body synthesizes: its canonical JSON
/// text, unless the content type is FORM, which flattens an object into
/// form-urlencoded pairs. RAW emits the text representation verbatim, and
/// an unrecognized content type falls back to JSON.
pub open spec fn spec_body_text(ct: ContentType, body: JsonValue) -> Seq<char> {
    match ct {
        ContentType::RAW => json_text(body),
        ContentType::FORM => form_pairs_text(body->Object_0@),
        _ => json_text(body),
    }
}

/// Whether a definition's body fits its declared content type.
pub open spec fn body_encodable(ct: ContentType, body: Option<JsonValue>) -> bool {
    match body {
        Option::None => true,
        Option::Some(v) => ct == ContentType::FORM ==> form_encodable(v),
    }
}

/// The content-type header that synthesis itself applies, if any: none
/// without a body or for RAW, the form encoding's for FORM, JSON's else.
pub open spec fn forced_content_type(ct: ContentType, body: Option<JsonValue>) -> Option<
    Seq<char>,
> {
    match body {
        Option::None => Option::None,
        Option::Some(_) => match ct {
            ContentType::FORM => Option::Some("application/x-www-form-urlencoded"@),
            ContentType::RAW => Option::None,
            _ => Option::Some("application/json"@),
        },
    }
}

/// The payload a definition synthesizes when synthesis succeeds: its
/// status, its headers followed by the forced content-type entry if any,
/// and the encoded body (empty when the definition has none).
pub open spec fn synthesized_ok(p: ResponsePayload, api: API) -> bool {
    &&& p.status == api.status
    &&& p.body@ == (match api.body {
        Option::None => Seq::<char>::empty(),
        Option::Some(v) => spec_body_text(api.content_type, v),
    })
    &&& (match forced_content_type(api.content_type, api.body) {
        Option::None => p.headers@ == api.headers@,
        Option::Some(ctv) => {
            &&& p.headers@.len() == api.headers@.len() + 1
            &&& p.headers@.take(api.headers@.len() as int) == api.headers@
            &&& p.headers@.last().0@ == "Content-Type"@
            &&& p.headers@.last().1@ == ctv
        },
    })
}

fn clone_headers(src: &Vec<(String, String)>) -> (out: Vec<(String, String)>)
    ensures
        out@ == src@,
{
    let mut out: Vec<(String, String)> = Vec::new();
    let mut i: usize = 0;
    while i < src.len()
        invariant
            i <= src@.len(),
            out@ == src@.take(i as int),
        decreases src@.len() - i,
    {
        let k = src[i].0.clone();
        let v = src[i].1.clone();
        out.push((k, v));
        proof {
            assert(out@ =~= src@.take(i + 1));
        }
        i = i + 1;
    }
    proof {
        assert(src@.take(src@.len() as int) =~= src@);
    }
    out
}

impl API {
    /// Materializes the concrete response: the declared status, the
    /// declared headers, and the body encoded per the content type. A
    /// status outside the protocol range or a body that cannot be encoded
    /// is a synthesis failure, never a panic.
    pub fn synthesize(&self) -> (r: Result<ResponsePayload, SynthesisError>)
        ensures
            r is Ok <==> status_ok(self.status) && body_encodable(self.content_type, self.body),
            r matches Ok(p) ==> synthesized_ok(p, *self),
            r matches Err(e) ==> e == (if !status_ok(self.status) {
                SynthesisError::InvalidStatus
            } else {
                SynthesisError::BodyNotEncodable
            }),
    {
        if self.status < 100 || self.status >= 1000 {
            return Err(SynthesisError::InvalidStatus);
        }
        let mut headers = clone_headers(&self.headers);
        match &self.body {
            Option::None => Ok(
                ResponsePayload { status: self.status, headers, body: String::new() },
            ),
            Option::Some(v) => {
                match &self.content_type {
                    ContentType::RAW => Ok(
                        ResponsePayload { status: self.status, headers, body: v.to_text() },
                    ),
                    ContentType::FORM => match v {
                        JsonValue::Object(fields) => {
                            if all_scalars(fields) {
                                let body = form_encode(fields);
                                headers.push(
                                    (
                                        "Content-Type".to_owned(),
                                        "application/x-www-form-urlencoded".to_owned(),
                                    ),
                                );
                                proof {
                                    assert(headers@.take(self.headers@.len() as int)
                                        =~= self.headers@);
                                }
                                Ok(ResponsePayload { status: self.status, headers, body })
                            } else {
                                Err(SynthesisError::BodyNotEncodable)
                            }
                        },
                        _ => Err(SynthesisError::BodyNotEncodable),
                    },
                    _ => {
                        let body = v.to_text();
                        headers.push(
                            ("Content-Type".to_owned(), "application/json".to_owned()),
                        );
                        proof {
                            assert(headers@.take(self.headers@.len() as int) =~= self.headers@);
                        }
                        Ok(ResponsePayload { status: self.status, headers, body })
                    },
                }
            },
        }
    }
}

fn plain_text_headers() -> (h: Vec<(String, String)>)
    ensures
        h@.len() == 1,
        h@[0].0@ == "Content-Type"@,
        h@[0].1@ == "text/plain; charset=utf-8"@,
{
    let mut h: Vec<(String, String)> = Vec::new();
    h.push(("Content-Type".to_owned(), "text/plain; charset=utf-8".to_owned()));
    h
}

/// The not-found response: names the unmatched path and points the
/// operator at the configuration source.
pub open spec fn not_found_payload(p: ResponsePayload, path: Seq<char>) -> bool {
    &&& p.status == 404
    &&& p.body@ == path + " not found, pls check it in config.yaml"@
    &&& p.headers@.len() == 1
    &&& p.headers@[0].0@ == "Content-Type"@
    &&& p.headers@[0].1@ == "text/plain; charset=utf-8"@
}

/// The server-error response for a route whose synthesis failed: names the
/// offending route, never aborts the handling task.
pub open spec fn synthesis_error_payload(p: ResponsePayload, api: API) -> bool {
    &&& p.status == 500
    &&& p.body@ == "synthesis failed for route "@ + api.path@
    &&& p.headers@.len() == 1
    &&& p.headers@[0].0@ == "Content-Type"@
    &&& p.headers@[0].1@ == "text/plain; charset=utf-8"@
}

/// What the dispatcher returns for the definition that matched.
pub open spec fn dispatched_from(p: ResponsePayload, api: API) -> bool {
    if status_ok(api.status) && body_encodable(api.content_type, api.body) {
        synthesized_ok(p, api)
    } else {
        synthesis_error_payload(p, api)
    }
}

/// Decides one request: the synthesized response of the first matching
/// definition, a not-found response on a miss, and a server-error response
/// when the matched definition cannot be synthesized.
pub fn dispatch(conf: &Config, path: &str, method: Method) -> (r: ResponsePayload)
    requires
        conf.wf(),
    ensures
        forall|i: int|
            #[trigger] first_match_at(conf.apis@, path@, method, i) ==> dispatched_from(
                r,
                conf.apis@[i],
            ),
        (forall|i: int|
            0 <= i < conf.apis@.len() ==> !api_applies(
                conf.apis@[i],
                path@,
                method,
            )) ==> not_found_payload(r, path@),
{
    match conf.find_api(path, method) {
        Option::Some(api) => {
            let ghost i0 = choose|i: int|
                #[trigger] first_match_at(conf.apis@, path@, method, i) && *api == conf.apis@[i];
            let r = match api.synthesize() {
                Ok(p) => p,
                Err(_) => {
                    let mut b = String::from_str("synthesis failed for route ");
                    b.append(api.path.as_str());
                    ResponsePayload { status: 500, headers: plain_text_headers(), body: b }
                },
            };
            proof {
                assert(first_match_at(conf.apis@, path@, method, i0));
                assert(api_applies(conf.apis@[i0], path@, method));
                assert(dispatched_from(r, conf.apis@[i0]));
                assert forall|i: int|
                    #[trigger] first_match_at(conf.apis@, path@, method, i) implies dispatched_from(
                    r,
                    conf.apis@[i],
                ) by {
                    lemma_first_match_unique(conf.apis@, path@, method, i, i0);
                }
            }
            r
        },
        Option::None => {
            let mut b = String::from_str(path);
            b.append(" not found, pls check it in config.yaml");
            ResponsePayload { status: 404, headers: plain_text_headers(), body: b }
        },
    }
}

/// One line of the route listing: the method, a space, and the prefixed
/// path, ended by a newline.
pub open spec fn route_line(api: API) -> Seq<char> {
    spec_method_text(api.method) + " /mock"@ + api.path@ + "\n"@
}

/// The listing of the whole table, in declaration order.
pub open spec fn spec_route_list(apis: Seq<API>) -> Seq<char>
    decreases apis.len(),
{
    if apis.len() == 0 {
        Seq::empty()
    } else {
        spec_route_list(apis.drop_last()) + route_line(apis.last())
    }
}

/// Enumerates all loaded definitions as "METHOD /mock<path>" lines.
pub fn list_routes(conf: &Config) -> (r: String)
    ensures
        r@ == spec_route_list(conf.apis@),
{
    let mut out = String::new();
    let mut i: usize = 0;
    while i < conf.apis.len()
        invariant
            i <= conf.apis@.len(),
            out@ == spec_route_list(conf.apis@.take(i as int)),
        decreases conf.apis@.len() - i,
    {
        let api = &conf.apis[i];
        out.append(api.method.as_text());
        out.append(" /mock");
        out.append(api.path.as_str());
        out.append("\n");
        proof {
            assert(conf.apis@.take(i + 1).drop_last() =~= conf.apis@.take(i as int));
            assert(conf.apis@.take(i + 1).last() == conf.apis@[i as int]);
            assert(out@ =~= spec_route_list(conf.apis@.take(i + 1)));
        }
        i = i + 1;
    }
    proof {
        assert(conf.apis@.take(conf.apis@.len() as int) =~= conf.apis@);
    }
    out
}

} // verus!
