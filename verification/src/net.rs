//! URL construction for the transfer engine's host: normalizing a
//! user-supplied server address into the HTTP base the requests go to, and
//! the websocket form of the same address.

use vstd::prelude::*;
use vstd::string::StrSliceExecFns;

use crate::text::{
    contains_char, has_prefix, skip_chars, starts_with_str, strip_leading, strip_leading_char,
    strip_trailing, strip_trailing_char, trim, trim_spec,
};

verus! {

/// Whether `url::Url::parse` accepts the string as an absolute URL.
pub uninterp spec fn url_parse_ok(base: Seq<char>) -> bool;

/// Whether resolving `path` against the URL parsed from `base` succeeds.
pub uninterp spec fn url_join_ok(base: Seq<char>, path: Seq<char>) -> bool;

/// The rendering of the URL that resolving `path` against `base` yields.
pub uninterp spec fn url_resolved(base: Seq<char>, path: Seq<char>) -> Seq<char>;

/// Relies on `url::Url::parse`: whether a string parses as an absolute URL
/// depends on the string alone.
#[verifier::external_body]
pub(crate) fn parse_ok(base: &str) -> (r: bool)
    ensures
        r == url_parse_ok(base@),
{
    url::Url::parse(base).is_ok()
}

/// Relies on `url::Url::parse`, `url::Url::join` and `Url`'s `Display`:
/// whether the join succeeds, and the rendered result, depend on the two
/// strings alone.
#[verifier::external_body]
pub(crate) fn resolve_against(base: &str, path: &str) -> (r: Option<String>)
    requires
        url_parse_ok(base@),
    ensures
        r is Some <==> url_join_ok(base@, path@),
        (r matches Some(u) ==> u@ == url_resolved(base@, path@)),
{
    match url::Url::parse(base) {
        Ok(b) => b.join(path).ok().map(|u| u.to_string()),
        Err(_) => None,
    }
}

/// A common broken scheme repaired: `http//` and `https//` become proper
/// scheme prefixes; anything else is left alone.
pub open spec fn fix_scheme_spec(s: Seq<char>) -> Seq<char> {
    if has_prefix(s, "http//"@) {
        "http://"@ + s.skip("http//"@.len() as int)
    } else if has_prefix(s, "https//"@) {
        "https://"@ + s.skip("https//"@.len() as int)
    } else {
        s
    }
}

/// See [`fix_scheme_spec`].
pub fn fix_scheme(s: &str) -> (r: String)
    ensures
        r@ == fix_scheme_spec(s@),
{
    proof {
        reveal_strlit("http//");
        reveal_strlit("https//");
    }
    if starts_with_str(s, "http//") {
        "http://".to_owned().concat(skip_chars(s, 6))
    } else if starts_with_str(s, "https//") {
        "https://".to_owned().concat(skip_chars(s, 7))
    } else {
        s.to_owned()
    }
}

/// Whether `s` carries an explicit HTTP scheme.
pub open spec fn has_scheme(s: Seq<char>) -> bool {
    has_prefix(s, "http://"@) || has_prefix(s, "https://"@)
}

/// The HTTP URL built for a server address, port and request path: the
/// address is trimmed and its scheme repaired; an address with an explicit
/// scheme is trusted as it is and the port ignored; one with an embedded
/// port gets `http`; a bare host gets `http` and the separate port, with 80
/// as the last resort.
pub open spec fn http_url_outcome(ip: Seq<char>, port: Seq<char>, path: Seq<char>) -> Result<
    Seq<char>,
    Seq<char>,
> {
    let path1 = strip_leading(path, '/');
    let ip1 = trim_spec(ip);
    if ip1.len() == 0 {
        Err("Server address is empty."@)
    } else {
        let ip2 = fix_scheme_spec(ip1);
        if has_scheme(ip2) {
            if !url_parse_ok(ip2) {
                Err("Invalid server URL: "@ + ip2)
            } else if !url_join_ok(ip2, path1) {
                Err("Failed to build request URL."@)
            } else {
                Ok(url_resolved(ip2, path1))
            }
        } else if exists|i: int| 0 <= i < ip2.len() && ip2[i] == ':' {
            let base = "http://"@ + ip2;
            if !url_parse_ok(base) {
                Err("Invalid server address: "@ + ip2)
            } else if !url_join_ok(base, path1) {
                Err("Failed to build request URL."@)
            } else {
                Ok(url_resolved(base, path1))
            }
        } else {
            let port1 = trim_spec(port);
            let portx = if port1.len() > 0 {
                port1
            } else {
                "80"@
            };
            let base = "http://"@ + ip2 + ":"@ + portx;
            if !url_parse_ok(base) {
                Err("Invalid server address."@)
            } else if !url_join_ok(base, path1) {
                Err("Failed to build request URL."@)
            } else {
                Ok(url_resolved(base, path1))
            }
        }
    }
}

/// See [`http_url_outcome`].
pub fn build_http_url_checked(server_ip: &str, server_port: &str, path: &str) -> (r: Result<
    String,
    String,
>)
    ensures
        match r {
            Ok(u) => http_url_outcome(server_ip@, server_port@, path@) == Ok::<
                Seq<char>,
                Seq<char>,
            >(u@),
            Err(e) => http_url_outcome(server_ip@, server_port@, path@) == Err::<
                Seq<char>,
                Seq<char>,
            >(e@),
        },
{
    let path1 = strip_leading_char(path, '/');
    let ip1 = trim(server_ip);
    if ip1.unicode_len() == 0 {
        return Err("Server address is empty.".to_owned());
    }
    let ip2 = fix_scheme(ip1);
    if starts_with_str(ip2.as_str(), "http://") || starts_with_str(ip2.as_str(), "https://") {
        if !parse_ok(ip2.as_str()) {
            return Err("Invalid server URL: ".to_owned().concat(ip2.as_str()));
        }
        match resolve_against(ip2.as_str(), path1) {
            Some(u) => Ok(u),
            None => Err("Failed to build request URL.".to_owned()),
        }
    } else if contains_char(ip2.as_str(), ':') {
        let base = "http://".to_owned().concat(ip2.as_str());
        if !parse_ok(base.as_str()) {
            return Err("Invalid server address: ".to_owned().concat(ip2.as_str()));
        }
        match resolve_against(base.as_str(), path1) {
            Some(u) => Ok(u),
            None => Err("Failed to build request URL.".to_owned()),
        }
    } else {
        let port1 = trim(server_port);
        let base = if port1.unicode_len() > 0 {
            "http://".to_owned().concat(ip2.as_str()).concat(":").concat(port1)
        } else {
            "http://".to_owned().concat(ip2.as_str()).concat(":").concat("80")
        };
        proof {
            reveal_strlit(":");
        }
        if !parse_ok(base.as_str()) {
            return Err("Invalid server address.".to_owned());
        }
        match resolve_against(base.as_str(), path1) {
            Some(u) => Ok(u),
            None => Err("Failed to build request URL.".to_owned()),
        }
    }
}

/// The HTTP URL for a server address, with a fixed local fallback when the
/// address cannot be used.
pub fn build_http_url(server_ip: &str, server_port: &str, path: &str) -> (r: String)
    ensures
        (http_url_outcome(server_ip@, server_port@, path@) matches Ok(u) ==> r@ == u),
        (http_url_outcome(server_ip@, server_port@, path@) matches Err(_) ==> r@
            == "http://localhost/"@),
{
    match build_http_url_checked(server_ip, server_port, path) {
        Ok(u) => u,
        Err(_) => "http://localhost/".to_owned(),
    }
}

/// The base URL a full address denotes: the trimmed address without its
/// trailing slashes, accepted only with an explicit HTTP scheme.
pub open spec fn normalize_base_spec(input: Seq<char>) -> Option<Seq<char>> {
    let t = trim_spec(input);
    if has_prefix(t, "http://"@) || has_prefix(t, "https://"@) {
        Some(strip_trailing(t, '/'))
    } else {
        None
    }
}

/// See [`normalize_base_spec`].
pub fn normalize_base_url(input: &str) -> (r: Option<String>)
    ensures
        match r {
            Some(b) => normalize_base_spec(input@) == Some(b@),
            None => normalize_base_spec(input@) is None,
        },
{
    let t = trim(input);
    if starts_with_str(t, "http://") || starts_with_str(t, "https://") {
        Some(strip_trailing_char(t, '/').to_owned())
    } else {
        None
    }
}

/// The websocket URL for a server address: a full HTTP address keeps its
/// host part under the matching websocket scheme; anything else is treated
/// as a bare host with the separate port, under `ws`.
pub open spec fn ws_url_spec(ip: Seq<char>, port: Seq<char>, path: Seq<char>) -> Seq<char> {
    let path1 = strip_leading(path, '/');
    match normalize_base_spec(ip) {
        Some(base) => {
            let rest = if has_prefix(base, "https://"@) {
                base.skip("https://"@.len() as int)
            } else if has_prefix(base, "http://"@) {
                base.skip("http://"@.len() as int)
            } else {
                base
            };
            if has_prefix(base, "https://"@) {
                "wss://"@ + rest + "/"@ + path1
            } else {
                "ws://"@ + rest + "/"@ + path1
            }
        },
        None => "ws://"@ + ip + ":"@ + port + "/"@ + path1,
    }
}

/// See [`ws_url_spec`].
pub fn build_ws_url(server_ip: &str, server_port: &str, path: &str) -> (r: String)
    ensures
        r@ == ws_url_spec(server_ip@, server_port@, path@),
{
    proof {
        reveal_strlit("https://");
        reveal_strlit("http://");
        reveal_strlit(":");
        reveal_strlit("/");
    }
    let path1 = strip_leading_char(path, '/');
    match normalize_base_url(server_ip) {
        Some(base) => {
            if starts_with_str(base.as_str(), "https://") {
                let rest = skip_chars(base.as_str(), 8);
                "wss://".to_owned().concat(rest).concat("/").concat(path1)
            } else if starts_with_str(base.as_str(), "http://") {
                let rest = skip_chars(base.as_str(), 7);
                "ws://".to_owned().concat(rest).concat("/").concat(path1)
            } else {
                "ws://".to_owned().concat(base.as_str()).concat("/").concat(path1)
            }
        },
        None => {
            "ws://".to_owned().concat(server_ip).concat(":").concat(server_port).concat(
                "/",
            ).concat(path1)
        },
    }
}

} // verus!
