//! The response builder: which file a request asks for, and the response
//! text once the file lookup has been made. Reading the file itself is the
//! caller's I/O; everything decided here is stated and proved.

use vstd::prelude::*;
use vstd::string::StrSliceExecFns;
use vstd::string::StringExecFns;

verus! {

/// Whether two pieces of text hold the same characters.
pub fn text_eq(a: &str, b: &str) -> (r: bool)
    ensures
        r == (a@ == b@),
{
    let alen = a.unicode_len();
    let blen = b.unicode_len();
    if alen != blen {
        return false;
    }
    let mut i: usize = 0;
    while i < alen
        invariant
            i <= alen,
            alen == a@.len(),
            alen == b@.len(),
            forall|j: int| 0 <= j < i ==> a@[j] == b@[j],
        decreases alen - i,
    {
        if a.get_char(i) != b.get_char(i) {
            return false;
        }
        i = i + 1;
    }
    proof {
        assert(a@ =~= b@);
    }
    true
}

/// The file a request asks for: the site's index page when the method is
/// `GET` and the path is the root, otherwise the path with its leading
/// slash removed. The path must be nonempty, as every parsed path is.
pub fn target_file(method: &str, path: &str) -> (r: String)
    requires
        path@.len() > 0,
    ensures
        (method@ == "GET"@ && path@ == "/"@) ==> r@ == "pages/index.html"@,
        !(method@ == "GET"@ && path@ == "/"@) ==> r@ == path@.drop_first(),
{
    if text_eq(method, "GET") && text_eq(path, "/") {
        String::from_str("pages/index.html")
    } else {
        let plen = path.unicode_len();
        let r = path.substring_char(1, plen).to_owned();
        proof {
            assert(path@.subrange(1, plen as int) =~= path@.drop_first());
        }
        r
    }
}

/// The full response text, given what the file lookup found: the success
/// status line followed by the file's contents when the file was there,
/// and the not-found status line with its short body when it was not.
pub fn build_response(contents: Option<String>) -> (r: String)
    ensures
        contents matches Some(c) ==> r@ == "HTTP/1.1 200 OK\r\n\r\n"@ + c@,
        contents is None ==> r@ == "HTTP/1.1 404 NOT FOUND\r\n\r\n404 Not Found"@,
{
    match contents {
        Some(c) => {
            let mut r = String::from_str("HTTP/1.1 200 OK\r\n\r\n");
            r.append(c.as_str());
            r
        }
        None => String::from_str("HTTP/1.1 404 NOT FOUND\r\n\r\n404 Not Found"),
    }
}

} // verus!
