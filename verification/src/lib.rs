//! A small HTTP "who am I" service core: it derives the client's IP address,
//! user agent and header set from an inbound request, and renders that
//! information as an HTML page, a JSON document or plain text.

use vstd::prelude::*;

mod config;
mod escape;
mod extract;
mod render;
mod router;

pub use config::DEFAULT_PORT;
pub use config::all_digits;
pub use config::digit_val;
pub use config::digits_val;
pub use config::get_port;
pub use config::is_digit;
pub use config::is_port_str;
pub use config::opt_text;
pub use config::parse_port;
pub use config::port_digits;
pub use config::spec_port;
pub use escape::html_escape;
pub use escape::html_escape_char;
pub use escape::html_escape_seq;
pub use extract::ClientInfo;
pub use extract::before_comma;
pub use extract::char_lower_matches;
pub use extract::collect_from;
pub use extract::collect_headers;
pub use extract::collect_step;
pub use extract::collected;
pub use extract::comma_pos;
pub use extract::extract;
pub use extract::extract_client_ip;
pub use extract::extract_user_agent;
pub use extract::is_space;
pub use extract::lemma_forwarded_ip_ignores_peer;
pub use extract::lemma_peer_ip_when_no_forwarding;
pub use extract::lookup_raw;
pub use extract::lower_eq;
pub use extract::pairs_map;
pub use extract::pairs_view;
pub use extract::raw_pair_view;
pub use extract::raw_view;
pub use extract::spec_client_ip;
pub use extract::spec_collect;
pub use extract::spec_trim;
pub use extract::spec_user_agent;
pub use extract::trim_back;
pub use extract::trim_front;
pub use extract::unique_keys;
pub use extract::upsert;
pub use render::HTML_DIV_MID;
pub use render::HTML_DIV_POST;
pub use render::HTML_DIV_PRE;
pub use render::HTML_MID_HEADERS;
pub use render::HTML_MID_UA;
pub use render::HTML_PRE_IP;
pub use render::HTML_SUFFIX;
pub use render::RenderedResponse;
pub use render::html_divs;
pub use render::json_headers_obj;
pub use render::json_members;
pub use render::json_str_lit;
pub use render::quoted_pairs;
pub use render::render_html;
pub use render::render_json;
pub use render::render_text;
pub use render::spec_html_body;
pub use render::spec_json_doc;
pub use render::spec_text_body;
pub use render::text_header_lines;
pub use router::handle_request;
pub use router::route_known;
pub use router::serve_404;
pub use router::serve_health;
pub use router::serve_html;
pub use router::serve_json;
pub use router::serve_text;

verus! {

} // verus!
