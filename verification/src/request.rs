//! Serialization of the HTTP/1.1 request: request line, mandatory and
//! user-supplied headers, the body-length header, the blank-line
//! terminator, and the optional body.

use crate::digits::{dec_of_u128, dec_rep};
use crate::text::string_from_chars;
use vstd::prelude::*;
use vstd::string::StringExecFns;
use vstd::utf8::encode_utf8;

verus! {

/// One line break.
pub open spec fn crlf() -> Seq<char> {
    seq!['\r', '\n']
}

/// One serialized header line: name, separator, value, line break.
pub open spec fn header_line(name: Seq<char>, value: Seq<char>) -> Seq<char> {
    name + ": "@ + value + crlf()
}

/// The user-supplied headers, serialized in order; duplicates are kept.
pub open spec fn headers_text(hs: Seq<(Seq<char>, Seq<char>)>) -> Seq<char>
    decreases hs.len(),
{
    if hs.len() == 0 {
        Seq::empty()
    } else {
        headers_text(hs.drop_last()) + header_line(hs.last().0, hs.last().1)
    }
}

/// Request line, `Host`, `Connection: close`, then the user headers.
pub open spec fn request_head(
    method: Seq<char>,
    path: Seq<char>,
    host: Seq<char>,
    hs: Seq<(Seq<char>, Seq<char>)>,
) -> Seq<char> {
    method + " "@ + path + " HTTP/1.1"@ + crlf() + "Host: "@ + host + crlf()
        + "Connection: close"@ + crlf() + headers_text(hs)
}

/// The body-length header for a body of `len` bytes.
pub open spec fn content_length_line(len: nat) -> Seq<char> {
    "Content-Length: "@ + dec_rep(len) + crlf()
}

/// The full serialized request.  With a body, its byte length is declared
/// in a `Content-Length` header and the body follows the blank-line
/// terminator verbatim.
pub open spec fn request_text(
    method: Seq<char>,
    path: Seq<char>,
    host: Seq<char>,
    hs: Seq<(Seq<char>, Seq<char>)>,
    body: Option<Seq<char>>,
) -> Seq<char> {
    match body {
        None => request_head(method, path, host, hs) + crlf(),
        Some(b) => request_head(method, path, host, hs) + content_length_line(
            encode_utf8(b).len(),
        ) + crlf() + b,
    }
}

/// Serializes the request exactly as [`request_text`] describes it.
pub fn build_request(
    method: &str,
    path: &str,
    host: &str,
    headers: &Vec<(String, String)>,
    body: Option<&String>,
) -> (r: String)
    ensures
        r@ == request_text(
            method@,
            path@,
            host@,
            headers.deep_view(),
            match body {
                Some(b) => Some(b@),
                None => None,
            },
        ),
{
    proof {
        reveal_strlit("\r\n");
        assert("\r\n"@ =~= crlf());
    }
    let mut out = String::from_str(method);
    out.append(" ");
    out.append(path);
    out.append(" HTTP/1.1");
    out.append("\r\n");
    out.append("Host: ");
    out.append(host);
    out.append("\r\n");
    out.append("Connection: close");
    out.append("\r\n");
    let ghost dv = headers.deep_view();
    proof {
        assert(out@ + headers_text(dv.take(0)) =~= out@);
        assert(out@ =~= request_head(method@, path@, host@, dv.take(0)));
    }
    let n = headers.len();
    let mut i: usize = 0;
    while i < n
        invariant
            n == headers@.len(),
            dv == headers.deep_view(),
            dv.len() == headers@.len(),
            i <= n,
            out@ == request_head(method@, path@, host@, dv.take(i as int)),
        decreases n - i,
    {
        let pair = &headers[i];
        out.append(pair.0.as_str());
        out.append(": ");
        out.append(pair.1.as_str());
        out.append("\r\n");
        proof {
            reveal_strlit("\r\n");
            assert("\r\n"@ =~= crlf());
            assert(dv[i as int] == (headers@[i as int].0@, headers@[i as int].1@));
            assert(dv.take(i + 1).drop_last() =~= dv.take(i as int));
            assert(dv.take(i + 1).last() == dv[i as int]);
            assert(out@ =~= request_head(method@, path@, host@, dv.take(i + 1)));
        }
        i = i + 1;
    }
    proof {
        assert(dv.take(n as int) =~= dv);
    }
    match body {
        Some(b) => {
            let ghost head = request_head(method@, path@, host@, dv);
            out.append("Content-Length: ");
            let nbytes = b.as_str().as_bytes().len();
            proof {
                broadcast use vstd::slice::axiom_spec_len;

                assert(nbytes == encode_utf8(b@).len());
            }
            let digits = dec_of_u128(nbytes as u128);
            let ds = string_from_chars(&digits);
            out.append(ds.as_str());
            out.append("\r\n");
            proof {
                assert(ds@ == dec_rep(encode_utf8(b@).len()));
                assert(out@ =~= head + content_length_line(encode_utf8(b@).len()));
            }
            out.append("\r\n");
            out.append(b.as_str());
            proof {
                assert(out@ =~= (head + content_length_line(encode_utf8(b@).len())) + crlf()
                    + b@);
            }
        },
        None => {
            out.append("\r\n");
        },
    }
    out
}

/// What one run sends on every attempt: method, user headers in order,
/// and the optional body.  Owned by the probe loop, constant across
/// attempts.
pub struct RequestSpec {
    pub method: String,
    pub headers: Vec<(String, String)>,
    pub body: Option<String>,
}

impl RequestSpec {
    /// Serializes the request for the given target path and host.
    pub fn serialize(&self, path: &str, host: &str) -> (r: String)
        ensures
            r@ == request_text(
                self.method@,
                path@,
                host@,
                self.headers.deep_view(),
                match self.body {
                    Some(b) => Some(b@),
                    None => None,
                },
            ),
    {
        build_request(self.method.as_str(), path, host, &self.headers, self.body.as_ref())
    }
}

/// With a body of `L` bytes, the serialized request carries a
/// `Content-Length` header whose value is exactly `L`; the body bytes
/// stand unmodified at the very end, right after a blank line.
pub proof fn lemma_body_framing(
    method: Seq<char>,
    path: Seq<char>,
    host: Seq<char>,
    hs: Seq<(Seq<char>, Seq<char>)>,
    b: Seq<char>,
)
    ensures
        ({
            let r = request_text(method, path, host, hs, Some(b));
            let head = request_head(method, path, host, hs) + content_length_line(
                encode_utf8(b).len(),
            );
            &&& r == head + crlf() + b
            &&& r.len() == head.len() + 2 + b.len()
            &&& r.subrange(r.len() - b.len(), r.len() as int) == b
            &&& r.subrange(r.len() - b.len() - 4, r.len() - b.len()) == crlf() + crlf()
        }),
{
    let r = request_text(method, path, host, hs, Some(b));
    let head = request_head(method, path, host, hs) + content_length_line(encode_utf8(b).len());
    assert(r =~= head + crlf() + b);
    assert(r.subrange(r.len() - b.len(), r.len() as int) =~= b);
    assert(content_length_line(encode_utf8(b).len()).len() >= 2) by {
        reveal_strlit("Content-Length: ");
    }
    assert(r.subrange(r.len() - b.len() - 4, r.len() - b.len()) =~= crlf() + crlf()) by {
        let cl = content_length_line(encode_utf8(b).len());
        assert(cl.subrange(cl.len() - 2, cl.len() as int) =~= crlf());
    }
}

} // verus!
