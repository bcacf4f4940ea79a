//! The text of a plain HTTP/1.1 request.
use vstd::prelude::*;

verus! {

/// A GET request for `path` on `host`, with no header but `Host`.
pub open spec fn get_request_spec(host: Seq<char>, path: Seq<char>) -> Seq<char> {
    "GET "@ + path + " HTTP/1.1\r\nHost: "@ + host + "\r\n\r\n"@
}

/// Writes the GET request for `path` on `host`.
pub fn get_request(host: &str, path: &str) -> (r: String)
    ensures
        r@ == get_request_spec(host@, path@),
{
    let mut s = String::from_str("GET ");
    s.append(path);
    s.append(" HTTP/1.1\r\nHost: ");
    s.append(host);
    s.append("\r\n\r\n");
    assert(s@ =~= get_request_spec(host@, path@));
    s
}

} // verus!
