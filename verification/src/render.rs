//! Rendering of extracted client information as HTML, JSON or plain text.

use vstd::prelude::*;

use crate::escape::html_escape;
use crate::escape::html_escape_seq;
use crate::extract::ClientInfo;
use crate::extract::pairs_view;

verus! {

/// One rendered HTTP response: status code, content type, whether the
/// permissive cross-origin header is set, and the body text.
pub struct RenderedResponse {
    pub status_code: u16,
    pub content_type: String,
    pub cors_allow_all: bool,
    pub body: String,
}

/// The page up to the client IP insertion point.
pub const HTML_PRE_IP: &'static str = r#"<!DOCTYPE html>
<html lang="en">
<head>
    <meta charset="UTF-8">
    <meta name="viewport" content="width=device-width, initial-scale=1.0">
    <title>WhoAmI - Your Connection Info</title>
    <style>
        * {
            margin: 0;
            padding: 0;
            box-sizing: border-box;
        }
        body {
            font-family: 'Segoe UI', Tahoma, Geneva, Verdana, sans-serif;
            background: linear-gradient(135deg, #667eea 0%, #764ba2 100%);
            min-height: 100vh;
            display: flex;
            justify-content: center;
            align-items: center;
            padding: 20px;
        }
        .container {
            background: white;
            border-radius: 12px;
            box-shadow: 0 20px 60px rgba(0,0,0,0.3);
            max-width: 800px;
            width: 100%;
            padding: 40px;
        }
        h1 {
            color: #333;
            margin-bottom: 10px;
            font-size: 2.5em;
        }
        .subtitle {
            color: #666;
            margin-bottom: 30px;
            font-size: 1.1em;
        }
        .info-card {
            background: #f8f9fa;
            border-left: 4px solid #667eea;
            padding: 20px;
            margin-bottom: 20px;
            border-radius: 4px;
        }
        .info-label {
            color: #667eea;
            font-weight: bold;
            font-size: 0.9em;
            text-transform: uppercase;
            letter-spacing: 1px;
            margin-bottom: 8px;
        }
        .info-value {
            color: #333;
            font-size: 1.2em;
            word-break: break-all;
            font-family: 'Courier New', monospace;
        }
        .headers-section {
            margin-top: 30px;
        }
        .headers-title {
            color: #333;
            font-size: 1.5em;
            margin-bottom: 15px;
            padding-bottom: 10px;
            border-bottom: 2px solid #667eea;
        }
        .header-item {
            background: white;
            padding: 12px;
            margin-bottom: 8px;
            border-radius: 4px;
            border: 1px solid #e0e0e0;
            font-family: 'Courier New', monospace;
            font-size: 0.9em;
        }
        .header-name {
            color: #667eea;
            font-weight: bold;
        }
        .header-value {
            color: #333;
            margin-left: 10px;
        }
        .footer {
            margin-top: 30px;
            padding-top: 20px;
            border-top: 1px solid #e0e0e0;
            text-align: center;
            color: #999;
            font-size: 0.9em;
        }
        .api-links {
            display: flex;
            gap: 10px;
            margin-top: 20px;
            flex-wrap: wrap;
        }
        .api-link {
            background: #667eea;
            color: white;
            padding: 10px 20px;
            border-radius: 6px;
            text-decoration: none;
            font-weight: 500;
            transition: background 0.3s;
        }
        .api-link:hover {
            background: #764ba2;
        }
    </style>
</head>
<body>
    <div class="container">
        <h1>🔍 WhoAmI</h1>
        <p class="subtitle">Your connection information</p>

        <div class="info-card">
            <div class="info-label">IP Address</div>
            <div class="info-value">"#;

/// The page between the client IP and the user agent.
pub const HTML_MID_UA: &'static str = r#"</div>
        </div>

        <div class="info-card">
            <div class="info-label">User Agent</div>
            <div class="info-value">"#;

/// The page between the user agent and the header block.
pub const HTML_MID_HEADERS: &'static str = r#"</div>
        </div>

        <div class="headers-section">
            <h2 class="headers-title">Request Headers</h2>
            "#;

/// The page after the header block.
pub const HTML_SUFFIX: &'static str = r#"
        </div>

        <div class="api-links">
            <a href="/json" class="api-link">JSON API</a>
            <a href="/text" class="api-link">Plain Text</a>
        </div>

        <div class="footer">
            Powered by Rust + Hyper | Ultra-lightweight HTTP service
        </div>
    </div>
</body>
</html>"#;

/// The opening of one rendered header entry, up to its name.
pub const HTML_DIV_PRE: &'static str = r#"<div class="header-item"><span class="header-name">"#;

/// The middle of one rendered header entry, between name and value.
pub const HTML_DIV_MID: &'static str = r#"</span><span class="header-value">"#;

/// The close of one rendered header entry.
pub const HTML_DIV_POST: &'static str = r#"</span></div>"#;

/// The rendered header entries, one escaped `<div>` fragment per pair,
/// concatenated in order.
pub open spec fn html_divs(hs: Seq<(Seq<char>, Seq<char>)>) -> Seq<char>
    decreases hs.len(),
{
    if hs.len() == 0 {
        Seq::<char>::empty()
    } else {
        html_divs(hs.drop_last()) + HTML_DIV_PRE@ + html_escape_seq(hs.last().0) + HTML_DIV_MID@
            + html_escape_seq(hs.last().1) + HTML_DIV_POST@
    }
}

/// The full HTML page: the fixed template with the escaped IP, the escaped
/// user agent and the header block inserted at its three insertion points.
pub open spec fn spec_html_body(ip: Seq<char>, ua: Seq<char>, hs: Seq<(Seq<char>, Seq<char>)>) -> Seq<char> {
    HTML_PRE_IP@ + html_escape_seq(ip) + HTML_MID_UA@ + html_escape_seq(ua) + HTML_MID_HEADERS@
        + html_divs(hs) + HTML_SUFFIX@
}

/// Render the HTML page for `info`: every inserted value is HTML-escaped.
pub fn render_html(info: &ClientInfo) -> (r: String)
    ensures
        r@ == spec_html_body(info.ip@, info.user_agent@, pairs_view(info.headers@)),
{
    let pv = Ghost(pairs_view(info.headers@));
    let mut divs = String::new();
    let mut i: usize = 0;
    proof {
        assert(pv@.take(0) =~= Seq::<(Seq<char>, Seq<char>)>::empty());
    }
    while i < info.headers.len()
        invariant
            i <= info.headers@.len(),
            pv@ == pairs_view(info.headers@),
            divs@ == html_divs(pv@.take(i as int)),
        decreases info.headers@.len() - i,
    {
        divs.append(HTML_DIV_PRE);
        let name_esc = html_escape(info.headers[i].0.as_str());
        divs.append(name_esc.as_str());
        divs.append(HTML_DIV_MID);
        let value_esc = html_escape(info.headers[i].1.as_str());
        divs.append(value_esc.as_str());
        divs.append(HTML_DIV_POST);
        proof {
            assert(pv@.take(i as int + 1).drop_last() =~= pv@.take(i as int));
            assert(pv@.take(i as int + 1).last() == (info.headers@[i as int].0@, info.headers@[i as int].1@));
            assert(divs@ =~= html_divs(pv@.take(i as int + 1)));
        }
        i = i + 1;
    }
    proof {
        assert(pv@.take(info.headers@.len() as int) =~= pv@);
    }
    let mut out = String::new();
    out.append(HTML_PRE_IP);
    let ip_esc = html_escape(info.ip.as_str());
    out.append(ip_esc.as_str());
    out.append(HTML_MID_UA);
    let ua_esc = html_escape(info.user_agent.as_str());
    out.append(ua_esc.as_str());
    out.append(HTML_MID_HEADERS);
    out.append(divs.as_str());
    out.append(HTML_SUFFIX);
    proof {
        assert(out@ =~= spec_html_body(info.ip@, info.user_agent@, pairs_view(info.headers@)));
    }
    out
}

/// One header line of the plain-text body per pair, in order.
pub open spec fn text_header_lines(hs: Seq<(Seq<char>, Seq<char>)>) -> Seq<char>
    decreases hs.len(),
{
    if hs.len() == 0 {
        Seq::<char>::empty()
    } else {
        text_header_lines(hs.drop_last()) + "  "@ + hs.last().0 + ": "@ + hs.last().1 + "\n"@
    }
}

/// The plain-text body: the IP line, the user-agent line, a blank line, and
/// one indented line per collected header.
pub open spec fn spec_text_body(ip: Seq<char>, ua: Seq<char>, hs: Seq<(Seq<char>, Seq<char>)>) -> Seq<char> {
    "Client IP: "@ + ip + "\n"@ + "User-Agent: "@ + ua + "\n\nRequest Headers:\n"@
        + text_header_lines(hs)
}

/// Render the plain-text report for `info`.
pub fn render_text(info: &ClientInfo) -> (r: String)
    ensures
        r@ == spec_text_body(info.ip@, info.user_agent@, pairs_view(info.headers@)),
{
    let pv = Ghost(pairs_view(info.headers@));
    let mut out = String::new();
    out.append("Client IP: ");
    out.append(info.ip.as_str());
    out.append("\n");
    out.append("User-Agent: ");
    out.append(info.user_agent.as_str());
    out.append("\n\nRequest Headers:\n");
    let base = Ghost(out@);
    let mut i: usize = 0;
    proof {
        assert(pv@.take(0) =~= Seq::<(Seq<char>, Seq<char>)>::empty());
        assert(out@ =~= base@ + text_header_lines(pv@.take(0)));
    }
    while i < info.headers.len()
        invariant
            i <= info.headers@.len(),
            pv@ == pairs_view(info.headers@),
            out@ == base@ + text_header_lines(pv@.take(i as int)),
        decreases info.headers@.len() - i,
    {
        out.append("  ");
        out.append(info.headers[i].0.as_str());
        out.append(": ");
        out.append(info.headers[i].1.as_str());
        out.append("\n");
        proof {
            assert(pv@.take(i as int + 1).drop_last() =~= pv@.take(i as int));
            assert(pv@.take(i as int + 1).last() == (info.headers@[i as int].0@, info.headers@[i as int].1@));
            assert(out@ =~= base@ + text_header_lines(pv@.take(i as int + 1)));
        }
        i = i + 1;
    }
    proof {
        assert(pv@.take(info.headers@.len() as int) =~= pv@);
        assert(out@ =~= spec_text_body(info.ip@, info.user_agent@, pairs_view(info.headers@)));
    }
    out
}

/// The JSON string literal (quotes included) that encodes a text.
pub uninterp spec fn json_str_lit(s: Seq<char>) -> Seq<char>;

/// Relies on serde_json::to_string for `&str`: the returned text is the JSON
/// string literal encoding the argument, a function of the argument alone.
/// On a `&str` the call always succeeds: its only error paths are a failing
/// `Serialize` impl or a non-string map key, and it writes through `Vec`'s
/// infallible writer.
#[verifier::external_body]
fn json_quote(s: &str) -> (r: Option<String>)
    ensures
        r is Some,
        r matches Some(t) ==> t@ == json_str_lit(s@),
{
    serde_json::to_string(s).ok()
}

/// Each pair's name and value replaced by their JSON string literals.
pub open spec fn quoted_pairs(hs: Seq<(Seq<char>, Seq<char>)>) -> Seq<(Seq<char>, Seq<char>)> {
    hs.map_values(|p: (Seq<char>, Seq<char>)| (json_str_lit(p.0), json_str_lit(p.1)))
}

/// The members of the headers object, one `"name": "value"` per line,
/// indented, comma-separated. Names and values are JSON string literals.
pub open spec fn json_members(hs: Seq<(Seq<char>, Seq<char>)>) -> Seq<char>
    decreases hs.len(),
{
    if hs.len() == 0 {
        Seq::<char>::empty()
    } else if hs.len() == 1 {
        "    "@ + hs[0].0 + ": "@ + hs[0].1
    } else {
        json_members(hs.drop_last()) + ",\n    "@ + hs.last().0 + ": "@ + hs.last().1
    }
}

/// The headers object: `{}` when empty, else its members pretty-printed.
pub open spec fn json_headers_obj(hs: Seq<(Seq<char>, Seq<char>)>) -> Seq<char> {
    if hs.len() == 0 {
        "{}"@
    } else {
        "{\n"@ + json_members(hs) + "\n  }"@
    }
}

/// The pretty-printed JSON document with the exact keys `ip`, `userAgent`
/// and `headers`. `ip_lit`, `ua_lit` and the pairs are JSON string literals.
pub open spec fn spec_json_doc(ip_lit: Seq<char>, ua_lit: Seq<char>, hs: Seq<(Seq<char>, Seq<char>)>) -> Seq<char> {
    "{\n  \"ip\": "@ + ip_lit + ",\n  \"userAgent\": "@ + ua_lit + ",\n  \"headers\": "@
        + json_headers_obj(hs) + "\n}"@
}

/// Assemble the JSON document from already-quoted pieces.
fn json_document(ip_lit: &str, ua_lit: &str, pairs: &Vec<(String, String)>) -> (r: String)
    ensures
        r@ == spec_json_doc(ip_lit@, ua_lit@, pairs_view(pairs@)),
{
    let pv = Ghost(pairs_view(pairs@));
    let mut members = String::new();
    let mut i: usize = 0;
    proof {
        assert(pv@.take(0) =~= Seq::<(Seq<char>, Seq<char>)>::empty());
    }
    while i < pairs.len()
        invariant
            i <= pairs@.len(),
            pv@ == pairs_view(pairs@),
            members@ == json_members(pv@.take(i as int)),
        decreases pairs@.len() - i,
    {
        if i == 0 {
            members.append("    ");
        } else {
            members.append(",\n    ");
        }
        members.append(pairs[i].0.as_str());
        members.append(": ");
        members.append(pairs[i].1.as_str());
        proof {
            assert(pv@.take(i as int + 1).drop_last() =~= pv@.take(i as int));
            assert(pv@.take(i as int + 1).last() == (pairs@[i as int].0@, pairs@[i as int].1@));
            assert(pv@.take(i as int + 1)[0] == pv@[0]);
            assert(members@ =~= json_members(pv@.take(i as int + 1)));
        }
        i = i + 1;
    }
    proof {
        assert(pv@.take(pairs@.len() as int) =~= pv@);
    }
    let mut out = String::new();
    out.append("{\n  \"ip\": ");
    out.append(ip_lit);
    out.append(",\n  \"userAgent\": ");
    out.append(ua_lit);
    out.append(",\n  \"headers\": ");
    if pairs.len() == 0 {
        out.append("{}");
    } else {
        out.append("{\n");
        out.append(members.as_str());
        out.append("\n  }");
    }
    out.append("\n}");
    proof {
        assert(out@ =~= spec_json_doc(ip_lit@, ua_lit@, pairs_view(pairs@)));
    }
    out
}

/// Quote every collected name and value as a JSON string literal.
fn quote_pairs(pairs: &Vec<(String, String)>) -> (r: Option<Vec<(String, String)>>)
    ensures
        r is Some,
        r matches Some(q) ==> pairs_view(q@) == quoted_pairs(pairs_view(pairs@)),
{
    let mut out: Vec<(String, String)> = Vec::new();
    let mut i: usize = 0;
    proof {
        assert(pairs_view(out@) =~= quoted_pairs(pairs_view(pairs@)).take(0));
    }
    while i < pairs.len()
        invariant
            i <= pairs@.len(),
            pairs_view(out@) == quoted_pairs(pairs_view(pairs@)).take(i as int),
        decreases pairs@.len() - i,
    {
        let name_lit = match json_quote(pairs[i].0.as_str()) {
            Some(t) => t,
            None => {
                return None;
            },
        };
        let value_lit = match json_quote(pairs[i].1.as_str()) {
            Some(t) => t,
            None => {
                return None;
            },
        };
        let ghost old_out = out@;
        out.push((name_lit, value_lit));
        proof {
            assert(pairs_view(old_out).len() == i as int);
            assert(out@ == old_out.push((name_lit, value_lit)));
            assert(pairs_view(out@).len() == i as int + 1);
            assert(forall|j: int|
                0 <= j < old_out.len() ==> pairs_view(out@)[j] == pairs_view(old_out)[j]);
            assert(pairs_view(out@)[i as int] == (name_lit@, value_lit@));
            assert(pairs_view(pairs@)[i as int] == (pairs@[i as int].0@, pairs@[i as int].1@));
            assert(quoted_pairs(pairs_view(pairs@))[i as int] == (
                json_str_lit(pairs@[i as int].0@),
                json_str_lit(pairs@[i as int].1@),
            ));
            assert(pairs_view(out@) =~= quoted_pairs(pairs_view(pairs@)).take(i as int + 1));
        }
        i = i + 1;
    }
    proof {
        assert(quoted_pairs(pairs_view(pairs@)).take(pairs@.len() as int) =~= quoted_pairs(
            pairs_view(pairs@),
        ));
    }
    Some(out)
}

/// Render the JSON document for `info`: the exact keys `ip`, `userAgent` and
/// `headers`, every text encoded as a JSON string literal, pretty-printed.
/// Quoting a text always succeeds, so the stated degradation of a failed
/// serialization to the literal `{}` stays in code as an unreachable
/// fallback, and the contract promises the document.
pub fn render_json(info: &ClientInfo) -> (r: String)
    ensures
        r@ == spec_json_doc(
            json_str_lit(info.ip@),
            json_str_lit(info.user_agent@),
            quoted_pairs(pairs_view(info.headers@)),
        ),
{
    let ip_lit = match json_quote(info.ip.as_str()) {
        Some(t) => t,
        None => {
            return String::from_str("{}");
        },
    };
    let ua_lit = match json_quote(info.user_agent.as_str()) {
        Some(t) => t,
        None => {
            return String::from_str("{}");
        },
    };
    match quote_pairs(&info.headers) {
        Some(qp) => json_document(ip_lit.as_str(), ua_lit.as_str(), &qp),
        None => String::from_str("{}"),
    }
}

} // verus!
