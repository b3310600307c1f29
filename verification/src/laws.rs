//! The laws the matcher and the synthesizer obey, stated and proved once.
use crate::config::{
    api_applies, compiled_from, first_match_at, lemma_first_match_unique, ContentType, RawApi, API,
};
use crate::json::{json_text, JsonValue};
use crate::method::Method;
use crate::response::{synthesized_ok, ResponsePayload};
use vstd::prelude::*;

verus! {

/// Determinism: for a fixed route table, the first applicable position for
/// a path and method is unique, so the same request always selects the
/// same definition.
pub proof fn lemma_find_deterministic(
    apis: Seq<API>,
    path: Seq<char>,
    method: Method,
    i: int,
    j: int,
)
    requires
        first_match_at(apis, path, method, i),
        first_match_at(apis, path, method, j),
    ensures
        i == j,
        apis[i] == apis[j],
{
    lemma_first_match_unique(apis, path, method, i, j);
}

/// First-match precedence: when a definition at `i` applies, the selected
/// position is never later than `i`; of two overlapping definitions the
/// earlier-declared one wins.
pub proof fn lemma_first_match_precedence(
    apis: Seq<API>,
    path: Seq<char>,
    method: Method,
    i: int,
    k: int,
)
    requires
        0 <= i < apis.len(),
        api_applies(apis[i], path, method),
        first_match_at(apis, path, method, k),
    ensures
        k <= i,
{
}

/// Method exactness: a definition for one method never applies to a
/// request carrying another, whatever the path.
pub proof fn lemma_method_exactness(api: API, path: Seq<char>, method: Method)
    requires
        api.method != method,
    ensures
        !api_applies(api, path, method),
{
}

/// Round-trip for RAW: the synthesized body of a RAW definition is exactly
/// the body tree's text representation.
pub proof fn lemma_raw_round_trip(p: ResponsePayload, api: API, v: JsonValue)
    requires
        api.content_type == ContentType::RAW,
        api.body == Option::Some(v),
        synthesized_ok(p, api),
    ensures
        p.body@ == json_text(v),
{
}

/// Default content type: a definition omitting the label compiles to JSON
/// and synthesizes its body as JSON text, with the JSON content-type
/// header applied.
pub proof fn lemma_default_content_type(raw: RawApi, api: API, p: ResponsePayload, v: JsonValue)
    requires
        raw.content_type is None,
        compiled_from(api, raw),
        api.body == Option::Some(v),
        synthesized_ok(p, api),
    ensures
        api.content_type == ContentType::JSON,
        p.body@ == json_text(v),
        p.headers@.last().0@ == "Content-Type"@,
        p.headers@.last().1@ == "application/json"@,
{
}

/// Miss handling: a table with zero definitions never matches any
/// request; no position ever holds a first match.
pub proof fn lemma_empty_table_misses(apis: Seq<API>, path: Seq<char>, method: Method)
    requires
        apis.len() == 0,
    ensures
        forall|i: int| 0 <= i < apis.len() ==> !api_applies(apis[i], path, method),
        !(exists|i: int| first_match_at(apis, path, method, i)),
{
}

} // verus!
