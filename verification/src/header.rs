//! Parsing a `Name: Value` header argument from the command line.

use crate::text::{chars_of, find_char, find_first, string_from_chars, trim_range, trim_spec};
use vstd::prelude::*;
use vstd::string::StringExecFns;

verus! {

/// Splits a header argument at its first colon into a trimmed name and a
/// trimmed value; an argument without a colon is rejected with a message,
/// before any connection is attempted.
pub fn parse_header(s: &str) -> (r: Result<(String, String), String>)
    ensures
        find_first(s@, ':') < 0 ==> (r matches Err(e) && e@ == "Invalid header format: "@ + s@),
        find_first(s@, ':') >= 0 ==> (r matches Ok(p) && p.0@ == trim_spec(
            s@.subrange(0, find_first(s@, ':')),
        ) && p.1@ == trim_spec(s@.subrange(find_first(s@, ':') + 1, s@.len() as int))),
{
    let v = chars_of(s);
    let n = v.len();
    match find_char(&v, ':') {
        Some(i) => {
            let name_chars = trim_range(&v, 0, i);
            let value_chars = trim_range(&v, i + 1, n);
            Ok((string_from_chars(&name_chars), string_from_chars(&value_chars)))
        },
        None => Err(String::from_str("Invalid header format: ").concat(s)),
    }
}

} // verus!
