//! URL construction as the browser-side client performs it: the same
//! address normalization as [`crate::net`], but a bare host defaults to the
//! secure scheme and the separate port is ignored.

use vstd::prelude::*;
use vstd::string::StrSliceExecFns;

use crate::net::{
    fix_scheme, fix_scheme_spec, has_scheme, parse_ok, resolve_against, url_join_ok, url_parse_ok,
    url_resolved,
};
use crate::text::{
    contains_char, has_prefix, starts_with_str, strip_leading, strip_leading_char,
    strip_prefix_all, strip_prefix_all_exec, trim, trim_spec,
};

verus! {

/// The HTTP URL the client builds: an address with an explicit scheme is
/// trusted as it is; one with an embedded port gets `http`; a bare host
/// gets `https`, and the separate port is ignored throughout.
pub open spec fn http_url_outcome(ip: Seq<char>, path: Seq<char>) -> Result<Seq<char>, Seq<char>> {
    let path1 = strip_leading(path, '/');
    let ip1 = trim_spec(ip);
    if ip1.len() == 0 {
        Err("Server address is empty."@)
    } else {
        let ip2 = fix_scheme_spec(ip1);
        if has_scheme(ip2) {
            if !url_parse_ok(ip2) {
                Err("Invalid server URL: "@ + ip2)
            } else if !url_join_ok(ip2, path1) {
                Err("Failed to build request URL."@)
            } else {
                Ok(url_resolved(ip2, path1))
            }
        } else if exists|i: int| 0 <= i < ip2.len() && ip2[i] == ':' {
            let base = "http://"@ + ip2;
            if !url_parse_ok(base) {
                Err("Invalid server address: "@ + ip2)
            } else if !url_join_ok(base, path1) {
                Err("Failed to build request URL."@)
            } else {
                Ok(url_resolved(base, path1))
            }
        } else {
            let base = "https://"@ + ip2;
            if !url_parse_ok(base) {
                Err("Invalid server address."@)
            } else if !url_join_ok(base, path1) {
                Err("Failed to build request URL."@)
            } else {
                Ok(url_resolved(base, path1))
            }
        }
    }
}

/// See [`http_url_outcome`].
pub fn build_http_url_checked(server_ip: &str, server_port: &str, path: &str) -> (r: Result<
    String,
    String,
>)
    ensures
        match r {
            Ok(u) => http_url_outcome(server_ip@, path@) == Ok::<Seq<char>, Seq<char>>(u@),
            Err(e) => http_url_outcome(server_ip@, path@) == Err::<Seq<char>, Seq<char>>(e@),
        },
{
    let path1 = strip_leading_char(path, '/');
    let ip1 = trim(server_ip);
    if ip1.unicode_len() == 0 {
        return Err("Server address is empty.".to_owned());
    }
    let ip2 = fix_scheme(ip1);
    if starts_with_str(ip2.as_str(), "http://") || starts_with_str(ip2.as_str(), "https://") {
        if !parse_ok(ip2.as_str()) {
            return Err("Invalid server URL: ".to_owned().concat(ip2.as_str()));
        }
        match resolve_against(ip2.as_str(), path1) {
            Some(u) => Ok(u),
            None => Err("Failed to build request URL.".to_owned()),
        }
    } else if contains_char(ip2.as_str(), ':') {
        let base = "http://".to_owned().concat(ip2.as_str());
        if !parse_ok(base.as_str()) {
            return Err("Invalid server address: ".to_owned().concat(ip2.as_str()));
        }
        match resolve_against(base.as_str(), path1) {
            Some(u) => Ok(u),
            None => Err("Failed to build request URL.".to_owned()),
        }
    } else {
        let base = "https://".to_owned().concat(ip2.as_str());
        if !parse_ok(base.as_str()) {
            return Err("Invalid server address.".to_owned());
        }
        match resolve_against(base.as_str(), path1) {
            Some(u) => Ok(u),
            None => Err("Failed to build request URL.".to_owned()),
        }
    }
}

/// The HTTP URL the client uses, with a fixed local fallback when the
/// address cannot be used.
pub fn build_http_url(server_ip: &str, server_port: &str, path: &str) -> (r: String)
    ensures
        (http_url_outcome(server_ip@, path@) matches Ok(u) ==> r@ == u),
        (http_url_outcome(server_ip@, path@) matches Err(_) ==> r@ == "http://localhost/"@),
{
    match build_http_url_checked(server_ip, server_port, path) {
        Ok(u) => u,
        Err(_) => "http://localhost/".to_owned(),
    }
}

/// The websocket URL the client builds: an explicit scheme maps to the
/// matching websocket scheme, an embedded port to `ws`, and a bare host to
/// `wss`; the separate port is ignored.
pub open spec fn ws_url_spec(ip: Seq<char>, path: Seq<char>) -> Seq<char> {
    let path1 = strip_leading(path, '/');
    let ip2 = fix_scheme_spec(trim_spec(ip));
    if has_prefix(ip2, "https://"@) {
        "wss://"@ + strip_prefix_all(ip2, "https://"@) + "/"@ + path1
    } else if has_prefix(ip2, "http://"@) {
        "ws://"@ + strip_prefix_all(ip2, "http://"@) + "/"@ + path1
    } else if exists|i: int| 0 <= i < ip2.len() && ip2[i] == ':' {
        "ws://"@ + ip2 + "/"@ + path1
    } else {
        "wss://"@ + ip2 + "/"@ + path1
    }
}

/// See [`ws_url_spec`].
pub fn build_ws_url(server_ip: &str, server_port: &str, path: &str) -> (r: String)
    ensures
        r@ == ws_url_spec(server_ip@, path@),
{
    proof {
        reveal_strlit("https://");
        reveal_strlit("http://");
        reveal_strlit("/");
    }
    let path1 = strip_leading_char(path, '/');
    let ip2 = fix_scheme(trim(server_ip));
    if starts_with_str(ip2.as_str(), "https://") {
        let rest = strip_prefix_all_exec(ip2.as_str(), "https://");
        "wss://".to_owned().concat(rest).concat("/").concat(path1)
    } else if starts_with_str(ip2.as_str(), "http://") {
        let rest = strip_prefix_all_exec(ip2.as_str(), "http://");
        "ws://".to_owned().concat(rest).concat("/").concat(path1)
    } else if contains_char(ip2.as_str(), ':') {
        "ws://".to_owned().concat(ip2.as_str()).concat("/").concat(path1)
    } else {
        "wss://".to_owned().concat(ip2.as_str()).concat("/").concat(path1)
    }
}

} // verus!
