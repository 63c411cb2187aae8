//! The headers of the backend's web requests.
use vstd::prelude::*;
use crate::downloader::string_views;

verus! {

broadcast use vstd::string::group_string_axioms;

/// User agent of the backend's web requests.
pub const C_USER_AGENT: &'static str = "hyper/yayd (github.com/0xpr03/yayd)";

/// Header type for get requests
#[derive(Debug, Clone, Copy, PartialEq, Eq)]
pub enum HeaderType {
    /// Html browser request
    Html,
    /// Ajax js request
    Ajax,
}

/// The `Accept` value of each request kind.
pub open spec fn accept_value(htype: HeaderType) -> Seq<char> {
    match htype {
        HeaderType::Html => "text/html,application/xhtml+xml,application/xml;q=0.9,*/*;q=0.8"@,
        HeaderType::Ajax => "application/json, text/javascript, */*; q=0.01"@,
    }
}

pub open spec fn pair_views(v: Seq<(String, String)>) -> Seq<(Seq<char>, Seq<char>)> {
    v.map_values(|p: (String, String)| (p.0@, p.1@))
}

fn pair(name: &str, value: &str) -> (r: (String, String))
    ensures
        r.0@ == name@,
        r.1@ == value@,
{
    (name.to_string(), value.to_string())
}

/// The request headers, as (name, value) pairs in the order they are set.
pub fn header(htype: HeaderType) -> (r: Vec<(String, String)>)
    ensures
        pair_views(r@) == seq![
            ("accept-encoding"@, "gzip, deflate, br"@),
            ("accept"@, accept_value(htype)),
            ("connection"@, "close"@),
            ("user-agent"@, C_USER_AGENT@),
        ],
{
    let mut v: Vec<(String, String)> = Vec::new();
    v.push(pair("accept-encoding", "gzip, deflate, br"));
    match htype {
        HeaderType::Html => {
            v.push(pair("accept", "text/html,application/xhtml+xml,application/xml;q=0.9,*/*;q=0.8"));
        },
        HeaderType::Ajax => {
            v.push(pair("accept", "application/json, text/javascript, */*; q=0.01"));
        },
    }
    v.push(pair("connection", "close"));
    v.push(pair("user-agent", C_USER_AGENT));
    assert(pair_views(v@) =~= seq![
        ("accept-encoding"@, "gzip, deflate, br"@),
        ("accept"@, accept_value(htype)),
        ("connection"@, "close"@),
        ("user-agent"@, C_USER_AGENT@),
    ]);
    v
}

} // verus!
