//! `xfin api`: a raw authenticated request to any Xfinity endpoint. It
//! round-trips JSON, so it always emits JSON.

use vstd::prelude::*;

use crate::error::AppError;
use crate::json::{json_of, parse_json, Json};
use crate::text::{push_str, trim, trimmed, upper_chars, upper_seq};

verus! {

broadcast use {vstd::std_specs::vec::group_vec_axioms, vstd::seq::group_seq_axioms};

/// RFC 7231 §4.2.1 "safe" methods, in any case and with surrounding
/// whitespace: `GET`, `HEAD`, `OPTIONS`.
pub open spec fn safe_method(method: Seq<char>) -> bool {
    let m = upper_seq(trim(method));
    m == "GET"@ || m == "HEAD"@ || m == "OPTIONS"@
}

/// Whether a request may be replayed on session recovery: only the safe
/// methods, which have no observable side effects on the server. Anything
/// else is treated as a mutation and goes out once.
pub fn method_is_safe(method: &str) -> (res: bool)
    ensures
        res == safe_method(method@),
{
    let t = trimmed(method);
    let u = upper_chars(&t);
    crate::text::is_text(&u, "GET") || crate::text::is_text(&u, "HEAD") || crate::text::is_text(
        &u,
        "OPTIONS",
    )
}

/// The request body of `xfin api`: none without `--data`, else the JSON the
/// `--data` text holds; text that holds none is a usage error with the
/// parser's complaint.
pub fn request_body(data: Option<&str>) -> (res: Result<Option<Json>, AppError>)
    ensures
        match data {
            None => res matches Ok(None),
            Some(t) => match json_of(vstd::utf8::encode_utf8(t@)) {
                Ok(v) => res matches Ok(Some(b)) && b@ == v,
                Err(why) => res matches Err(AppError::Usage(m)) && m@ == "--data is not valid JSON: "@
                    + why,
            },
        },
{
    match data {
        None => Ok(None),
        Some(t) => match parse_json(t.as_bytes()) {
            Ok(v) => Ok(Some(v)),
            Err(why) => {
                let mut m = String::new();
                push_str(&mut m, "--data is not valid JSON: ");
                push_str(&mut m, why.as_str());
                Err(AppError::Usage(m))
            },
        },
    }
}

} // verus!
