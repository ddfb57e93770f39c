//! Dispatch of (method, path) to a handler: a fixed table of read-only
//! routes, a health check, and a catch-all not-found response.

use vstd::prelude::*;

use crate::extract::extract;
use crate::extract::raw_view;
use crate::extract::spec_client_ip;
use crate::extract::spec_collect;
use crate::extract::spec_user_agent;
use crate::render::RenderedResponse;
use crate::render::json_str_lit;
use crate::render::quoted_pairs;
use crate::render::render_html;
use crate::render::render_json;
use crate::render::render_text;
use crate::render::spec_html_body;
use crate::render::spec_json_doc;
use crate::render::spec_text_body;

verus! {

broadcast use vstd::string::group_string_axioms;

fn str_is(a: &str, b: &str) -> (r: bool)
    ensures
        r == (a@ == b@),
{
    let sa = a.to_owned();
    let sb = b.to_owned();
    sa == sb
}

/// Serve the HTML page: a fresh extraction rendered as HTML.
pub fn serve_html(headers: &Vec<(String, Option<String>)>, peer_ip: &String) -> (r:
    RenderedResponse)
    ensures
        r.status_code == 200,
        r.content_type@ == "text/html; charset=utf-8"@,
        !r.cors_allow_all,
        r.body@ == spec_html_body(
            spec_client_ip(raw_view(headers@), peer_ip@),
            spec_user_agent(raw_view(headers@)),
            spec_collect(raw_view(headers@)),
        ),
{
    let info = extract(headers, peer_ip);
    let body = render_html(&info);
    RenderedResponse {
        status_code: 200,
        content_type: String::from_str("text/html; charset=utf-8"),
        cors_allow_all: false,
        body,
    }
}

/// Serve the JSON document: a fresh extraction rendered as JSON, with the
/// permissive cross-origin header set.
pub fn serve_json(headers: &Vec<(String, Option<String>)>, peer_ip: &String) -> (r:
    RenderedResponse)
    ensures
        r.status_code == 200,
        r.content_type@ == "application/json"@,
        r.cors_allow_all,
        r.body@ == spec_json_doc(
            json_str_lit(spec_client_ip(raw_view(headers@), peer_ip@)),
            json_str_lit(spec_user_agent(raw_view(headers@))),
            quoted_pairs(spec_collect(raw_view(headers@))),
        ),
{
    let info = extract(headers, peer_ip);
    let body = render_json(&info);
    RenderedResponse {
        status_code: 200,
        content_type: String::from_str("application/json"),
        cors_allow_all: true,
        body,
    }
}

/// Serve the plain-text report: a fresh extraction rendered as text.
pub fn serve_text(headers: &Vec<(String, Option<String>)>, peer_ip: &String) -> (r:
    RenderedResponse)
    ensures
        r.status_code == 200,
        r.content_type@ == "text/plain; charset=utf-8"@,
        !r.cors_allow_all,
        r.body@ == spec_text_body(
            spec_client_ip(raw_view(headers@), peer_ip@),
            spec_user_agent(raw_view(headers@)),
            spec_collect(raw_view(headers@)),
        ),
{
    let info = extract(headers, peer_ip);
    let body = render_text(&info);
    RenderedResponse {
        status_code: 200,
        content_type: String::from_str("text/plain; charset=utf-8"),
        cors_allow_all: false,
        body,
    }
}

/// Serve the health check: a fixed 200 response with body `OK`.
pub fn serve_health() -> (r: RenderedResponse)
    ensures
        r.status_code == 200,
        r.content_type@ == "text/plain"@,
        !r.cors_allow_all,
        r.body@ == "OK"@,
{
    RenderedResponse {
        status_code: 200,
        content_type: String::from_str("text/plain"),
        cors_allow_all: false,
        body: String::from_str("OK"),
    }
}

/// Serve the catch-all response for an unmatched route.
pub fn serve_404() -> (r: RenderedResponse)
    ensures
        r.status_code == 404,
        r.content_type@ == "text/plain"@,
        !r.cors_allow_all,
        r.body@ == "404 Not Found"@,
{
    RenderedResponse {
        status_code: 404,
        content_type: String::from_str("text/plain"),
        cors_allow_all: false,
        body: String::from_str("404 Not Found"),
    }
}

/// True when the request selects one of the five served routes.
pub open spec fn route_known(m: Seq<char>, p: Seq<char>) -> bool {
    m == "GET"@ && (p == "/"@ || p == "/json"@ || p == "/api"@ || p == "/text"@ || p
        == "/health"@)
}

/// Route one request: exact match on method and path selects the handler;
/// anything else is answered with the fixed 404 response. Total: every
/// request shape yields a response.
pub fn handle_request(
    method: &str,
    path: &str,
    headers: &Vec<(String, Option<String>)>,
    peer_ip: &String,
) -> (r: RenderedResponse)
    ensures
        method@ == "GET"@ && path@ == "/"@ ==> r.status_code == 200 && r.content_type@
            == "text/html; charset=utf-8"@ && !r.cors_allow_all && r.body@ == spec_html_body(
            spec_client_ip(raw_view(headers@), peer_ip@),
            spec_user_agent(raw_view(headers@)),
            spec_collect(raw_view(headers@)),
        ),
        method@ == "GET"@ && (path@ == "/json"@ || path@ == "/api"@) ==> r.status_code == 200
            && r.content_type@ == "application/json"@ && r.cors_allow_all && r.body@
            == spec_json_doc(
            json_str_lit(spec_client_ip(raw_view(headers@), peer_ip@)),
            json_str_lit(spec_user_agent(raw_view(headers@))),
            quoted_pairs(spec_collect(raw_view(headers@))),
        ),
        method@ == "GET"@ && path@ == "/text"@ ==> r.status_code == 200 && r.content_type@
            == "text/plain; charset=utf-8"@ && !r.cors_allow_all && r.body@ == spec_text_body(
            spec_client_ip(raw_view(headers@), peer_ip@),
            spec_user_agent(raw_view(headers@)),
            spec_collect(raw_view(headers@)),
        ),
        method@ == "GET"@ && path@ == "/health"@ ==> r.status_code == 200 && r.content_type@
            == "text/plain"@ && !r.cors_allow_all && r.body@ == "OK"@,
        !route_known(method@, path@) ==> r.status_code == 404 && r.content_type@ == "text/plain"@
            && !r.cors_allow_all && r.body@ == "404 Not Found"@,
{
    proof {
        reveal_strlit("GET");
        reveal_strlit("/");
        reveal_strlit("/json");
        reveal_strlit("/api");
        reveal_strlit("/text");
        reveal_strlit("/health");
        assert("/"@.len() == 1);
        assert("/json"@.len() == 5);
        assert("/api"@.len() == 4);
        assert("/text"@.len() == 5);
        assert("/health"@.len() == 7);
        assert("/json"@[1] == 'j');
        assert("/text"@[1] == 't');
    }
    if str_is(method, "GET") {
        if str_is(path, "/") {
            serve_html(headers, peer_ip)
        } else if str_is(path, "/json") {
            serve_json(headers, peer_ip)
        } else if str_is(path, "/api") {
            serve_json(headers, peer_ip)
        } else if str_is(path, "/text") {
            serve_text(headers, peer_ip)
        } else if str_is(path, "/health") {
            serve_health()
        } else {
            serve_404()
        }
    } else {
        serve_404()
    }
}

} // verus!
