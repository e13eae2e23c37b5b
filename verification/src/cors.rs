//! The cross-origin policy: which headers a response carries and
//! when an unmatched preflight request is answered bare.

use vstd::prelude::*;

verus! {

/// The cross-origin policy of the service.  The decisions live here;
/// attaching them to responses is the HTTP layer's part.
pub struct CORS();

impl CORS {
    /// The headers a response gets: the full cross-origin set on a
    /// preflight request or a JSON response, nothing otherwise.  Any
    /// origin is allowed, with the four methods of the service, the
    /// Content-Type header, and credentials.
    pub fn response_headers(is_options: bool, is_json: bool) -> (r: Vec<(String, String)>)
        ensures
            (is_options || is_json) ==> {
                &&& r@.len() == 4
                &&& r@[0].0@ == "Access-Control-Allow-Origin"@ && r@[0].1@ == "*"@
                &&& r@[1].0@ == "Access-Control-Allow-Methods"@ && r@[1].1@
                    == "POST, GET, OPTIONS, PUT"@
                &&& r@[2].0@ == "Access-Control-Allow-Headers"@ && r@[2].1@ == "Content-Type"@
                &&& r@[3].0@ == "Access-Control-Allow-Credentials"@ && r@[3].1@ == "true"@
            },
            !(is_options || is_json) ==> r@.len() == 0,
    {
        let mut r: Vec<(String, String)> = Vec::new();
        if is_options || is_json {
            r.push(
                (String::from_str("Access-Control-Allow-Origin"), String::from_str("*")),
            );
            r.push(
                (
                    String::from_str("Access-Control-Allow-Methods"),
                    String::from_str("POST, GET, OPTIONS, PUT"),
                ),
            );
            r.push(
                (
                    String::from_str("Access-Control-Allow-Headers"),
                    String::from_str("Content-Type"),
                ),
            );
            r.push(
                (
                    String::from_str("Access-Control-Allow-Credentials"),
                    String::from_str("true"),
                ),
            );
        }
        r
    }

    /// Whether a request is answered with a bare 204 and no body: a
    /// preflight request that matched no route.
    pub fn bare_preflight(is_options: bool, routed: bool) -> (r: bool)
        ensures
            r == (is_options && !routed),
    {
        is_options && !routed
    }
}

} // verus!
