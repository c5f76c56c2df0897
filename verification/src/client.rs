//! The Xfinity account-experience client: request construction, response
//! classification, and the two-step statement-PDF download.
//!
//! The service lives at `https://www.xfinity.com/digital/service/api/*`; every
//! endpoint is a POST with a small JSON body, authorised by an
//! `Authorization: Bearer <token>` header captured from a logged-in browser.
//! Statement PDFs come from the self-care host in two requests: a JSON
//! envelope with a presigned URL, then the PDF itself. An expired session is
//! answered with a sign-in page rather than a 401, so nothing is accepted as a
//! PDF unless its bytes start with `%PDF`.

use vstd::prelude::*;

use crate::error::AppError;
use crate::json::{parse_json, parse_text, text_json, json_of, Json, JsonV};
use crate::text::{
    contains, debug_quoted, debug_str, decimal, has_prefix_str, includes_str, is_digit, is_ws,
    lower_chars, lower_seq, push_char, push_decimal, push_range, push_str, starts_with,
    string_from, string_of, tail_from, to_chars, trim, trim_bounds, trim_end, trim_start, trimmed,
    utf8_text,
};

verus! {

broadcast use {vstd::std_specs::vec::group_vec_axioms, vstd::seq::group_seq_axioms};

// ---------------------------------------------------------------------------
// Bearer tokens
// ---------------------------------------------------------------------------

/// The `Authorization` header value for a captured token: the trimmed token
/// as is when it already begins with `bearer ` (any case), else prefixed
/// with `Bearer `.
pub open spec fn bearer_header(raw: Seq<char>) -> Seq<char> {
    let t = trim(raw);
    if starts_with(lower_seq(t), "bearer "@) {
        t
    } else {
        "Bearer "@ + t
    }
}

/// Normalizes a captured token into a full `Authorization` header value.
/// Accepts either `Bearer <tok>` or a bare `<tok>`.
pub fn normalize_bearer(raw: &str) -> (res: String)
    ensures
        res@ == bearer_header(raw@),
{
    let t = trimmed(raw);
    let lt = lower_chars(&t);
    if has_prefix_str(&lt, "bearer ") {
        string_from(&t)
    } else {
        let mut r = String::new();
        push_str(&mut r, "Bearer ");
        push_range(&mut r, &t, 0, t.len());
        assert(t@.subrange(0, t@.len() as int) == t@);
        r
    }
}

// ---------------------------------------------------------------------------
// Dates for the statement service
// ---------------------------------------------------------------------------

/// `YYYY-MM-DD`: ten characters, digits but for dashes at 4 and 7.
pub open spec fn iso_shaped(t: Seq<char>) -> bool {
    &&& t.len() == 10
    &&& t[4] == '-'
    &&& t[7] == '-'
    &&& forall|i: int| 0 <= i < 10 && i != 4 && i != 7 ==> is_digit(#[trigger] t[i])
}

/// The `MM-DD-YYYY` form of a trimmed ISO date, if it is one.
pub open spec fn mmddyyyy(iso: Seq<char>) -> Option<Seq<char>> {
    let t = trim(iso);
    if iso_shaped(t) {
        Some(t.subrange(5, 7) + seq!['-'] + t.subrange(8, 10) + seq!['-'] + t.subrange(0, 4))
    } else {
        None
    }
}

/// Converts an ISO `YYYY-MM-DD` date to the `MM-DD-YYYY` form the statement
/// service expects; `None` for anything not of that shape (all-numeric
/// segments of widths 4, 2 and 2).
pub fn iso_to_mmddyyyy(iso: &str) -> (res: Option<String>)
    ensures
        match res {
            Some(s) => mmddyyyy(iso@) == Some(s@),
            None => mmddyyyy(iso@) is None,
        },
{
    let t = trimmed(iso);
    if t.len() != 10 || t[4] != '-' || t[7] != '-' {
        return None;
    }
    let mut i: usize = 0;
    while i < 10
        invariant
            i <= 10,
            t@.len() == 10,
            t@ == trim(iso@),
            forall|j: int| 0 <= j < i && j != 4 && j != 7 ==> is_digit(#[trigger] t@[j]),
        decreases 10 - i,
    {
        if i != 4 && i != 7 && !('0' <= t[i] && t[i] <= '9') {
            assert(!is_digit(t@[i as int]));
            assert(!iso_shaped(t@));
            return None;
        }
        i = i + 1;
    }
    let mut r = String::new();
    push_range(&mut r, &t, 5, 7);
    push_char(&mut r, '-');
    push_range(&mut r, &t, 8, 10);
    push_char(&mut r, '-');
    push_range(&mut r, &t, 0, 4);
    Some(r)
}

// ---------------------------------------------------------------------------
// Messages and URLs
// ---------------------------------------------------------------------------

/// The tail of every expired-token message.
pub const EXPIRED_TAIL: &'static str = " — the stored token is expired or invalid. Capture a fresh `Authorization: Bearer …` in your browser and re-run `xfin auth login --overwrite` (or configure `xfin auth refresh`).";

/// The message for a stale token: how it was detected, for which path.
pub open spec fn expired_msg(path: Seq<char>, why: Seq<char>) -> Seq<char> {
    why + " for "@ + path + EXPIRED_TAIL@
}

/// The one message the user can act on when the stored Bearer token has gone
/// stale. `why` names how it was detected.
pub fn expired_token_msg(path: &str, why: &str) -> (res: String)
    ensures
        res@ == expired_msg(path@, why@),
{
    let mut r = String::new();
    push_str(&mut r, why);
    push_str(&mut r, " for ");
    push_str(&mut r, path);
    push_str(&mut r, EXPIRED_TAIL);
    r
}

/// The part of a URL before its first `?` or `#`.
pub open spec fn before_query(s: Seq<char>) -> Seq<char>
    decreases s.len(),
{
    if s.len() == 0 {
        s
    } else if s[0] == '?' || s[0] == '#' {
        Seq::empty()
    } else {
        seq![s[0]] + before_query(s.drop_first())
    }
}

proof fn lemma_before_query_at(s: Seq<char>, k: int)
    requires
        0 <= k <= s.len(),
        forall|j: int| 0 <= j < k ==> (#[trigger] s[j]) != '?' && s[j] != '#',
        k == s.len() || s[k] == '?' || s[k] == '#',
    ensures
        before_query(s) == s.subrange(0, k),
    decreases k,
{
    if k > 0 {
        let t = s.drop_first();
        assert forall|j: int| 0 <= j < k - 1 implies (#[trigger] t[j]) != '?' && t[j] != '#' by {
            assert(t[j] == s[j + 1]);
        }
        lemma_before_query_at(t, k - 1);
        assert(seq![s[0]] + t.subrange(0, k - 1) == s.subrange(0, k));
    } else if s.len() > 0 {
        assert(s.subrange(0, 0) == Seq::<char>::empty());
    }
}

/// Strips the query and fragment off a URL before it lands in an error
/// message — a sign-in redirect often carries a whole `state` blob.
pub fn redacted_url(url: &str) -> (res: String)
    ensures
        res@ == before_query(url@),
{
    let u = to_chars(url);
    let mut k: usize = 0;
    while k < u.len() && u[k] != '?' && u[k] != '#'
        invariant
            k <= u@.len(),
            forall|j: int| 0 <= j < k ==> (#[trigger] u@[j]) != '?' && u@[j] != '#',
        decreases u@.len() - k,
    {
        k = k + 1;
    }
    proof {
        lemma_before_query_at(u@, k as int);
    }
    let mut r = String::new();
    push_range(&mut r, &u, 0, k);
    r
}

/// The URL (lower-cased) names a sign-in page: an identity host, or an
/// `/oauth/`, `/login`, `/signin` or `/sign-in` path segment.
pub open spec fn login_url(url: Seq<char>) -> bool {
    let u = lower_seq(url);
    ||| contains(u, "login.xfinity.com"@)
    ||| contains(u, "oauth.xfinity.com"@)
    ||| contains(u, "/oauth/"@)
    ||| contains(u, "/login"@)
    ||| contains(u, "/signin"@)
    ||| contains(u, "/sign-in"@)
}

/// Does this URL look like an identity provider's sign-in page rather than
/// the API that was asked for?
pub fn is_login_url(url: &str) -> (res: bool)
    ensures
        res == login_url(url@),
{
    let uc = to_chars(url);
    let u = lower_chars(&uc);
    includes_str(&u, "login.xfinity.com") || includes_str(&u, "oauth.xfinity.com")
        || includes_str(&u, "/oauth/") || includes_str(&u, "/login") || includes_str(
        &u,
        "/signin",
    ) || includes_str(&u, "/sign-in")
}

// ---------------------------------------------------------------------------
// Recognising HTML and PDF bodies
// ---------------------------------------------------------------------------

/// Bytes read as characters one for one (Latin-1).
pub open spec fn latin1(b: Seq<u8>) -> Seq<char> {
    b.map_values(|x: u8| x as char)
}

/// At most the first 512 bytes.
pub open spec fn head512(b: Seq<u8>) -> Seq<u8> {
    if b.len() <= 512 {
        b
    } else {
        b.subrange(0, 512)
    }
}

/// The body is an HTML document: the content type says so, or the first 512
/// bytes (lower-cased, leading whitespace dropped) open a document.
pub open spec fn html_body(bytes: Seq<u8>, content_type: Seq<char>) -> bool {
    ||| contains(lower_seq(content_type), "text/html"@)
    ||| {
        let head = trim_start(lower_seq(latin1(head512(bytes))));
        ||| starts_with(head, "<!doctype html"@)
        ||| starts_with(head, "<html"@)
        ||| (starts_with(head, "<?xml"@) && contains(head, "<html"@))
    }
}

/// Does this body look like an HTML document? An unauthenticated document
/// request is redirected to the sign-in page, so a dead session arrives as
/// HTTP 200 with an HTML body — this is the check that catches it.
pub fn looks_like_html(bytes: &[u8], content_type: &str) -> (res: bool)
    ensures
        res == html_body(bytes@, content_type@),
{
    let ctc = to_chars(content_type);
    let ct = lower_chars(&ctc);
    if includes_str(&ct, "text/html") {
        return true;
    }
    let n = if bytes.len() <= 512 {
        bytes.len()
    } else {
        512
    };
    let ghost hb = head512(bytes@);
    let mut raw: Vec<char> = Vec::new();
    let mut i: usize = 0;
    while i < n
        invariant
            i <= n <= bytes@.len(),
            n == hb.len(),
            hb == head512(bytes@),
            forall|j: int| 0 <= j < n ==> #[trigger] hb[j] == bytes@[j],
            raw@ == latin1(hb).subrange(0, i as int),
        decreases n - i,
    {
        raw.push(bytes[i] as char);
        assert(latin1(hb).subrange(0, i + 1) == latin1(hb).subrange(0, i as int).push(
            bytes@[i as int] as char,
        ));
        i = i + 1;
    }
    assert(latin1(hb).subrange(0, n as int) == latin1(hb));
    let low = lower_chars(&raw);
    let (a, _b) = trim_bounds(&low);
    let head = tail_from(&low, a);
    has_prefix_str(&head, "<!doctype html") || has_prefix_str(&head, "<html") || (has_prefix_str(
        &head,
        "<?xml",
    ) && includes_str(&head, "<html"))
}

/// The `%PDF` magic number opens the body.
pub open spec fn pdf_magic(b: Seq<u8>) -> bool {
    b.len() >= 4 && b[0] == 0x25 && b[1] == 0x50 && b[2] == 0x44 && b[3] == 0x46
}

/// How an HTML body in place of a PDF is reported.
pub const HTML_NOT_PDF: &'static str = "Xfinity returned an HTML page where a PDF was expected (an expired session is answered with the sign-in page, not a 401)";

/// The message for a body that is neither a PDF nor HTML.
pub open spec fn unrecognized_msg(path: Seq<char>, content_type: Seq<char>, len: nat) -> Seq<char> {
    path + ": unrecognized response (content-type "@ + debug_quoted(content_type) + ", "@
        + decimal(len) + " bytes; does not start with `%PDF`)"@
}

/// Accepts the presigned-URL response body as a PDF, rejects an HTML
/// sign-in page as an auth failure, and anything else as an upstream error.
/// The magic number is authoritative whatever `Content-Type` claims; nothing
/// reaches the caller unless it starts with `%PDF`.
pub fn decode_pdf(bytes: &[u8], content_type: &str, path: &str) -> (res: Result<Vec<u8>, AppError>)
    ensures
        res is Ok <==> pdf_magic(bytes@),
        res matches Ok(v) ==> v@ == bytes@,
        res matches Err(e) ==> (if html_body(bytes@, content_type@) {
            e is Auth && e.text() == expired_msg(path@, HTML_NOT_PDF@)
        } else {
            e is Upstream && e.text() == unrecognized_msg(path@, content_type@, bytes@.len())
        }),
{
    if bytes.len() >= 4 && bytes[0] == 0x25 && bytes[1] == 0x50 && bytes[2] == 0x44 && bytes[3]
        == 0x46 {
        let mut v: Vec<u8> = Vec::new();
        let mut i: usize = 0;
        while i < bytes.len()
            invariant
                i <= bytes@.len(),
                v@ == bytes@.subrange(0, i as int),
            decreases bytes@.len() - i,
        {
            v.push(bytes[i]);
            assert(bytes@.subrange(0, i + 1) == bytes@.subrange(0, i as int).push(bytes@[i as int]));
            i = i + 1;
        }
        assert(bytes@.subrange(0, bytes@.len() as int) == bytes@);
        return Ok(v);
    }
    if looks_like_html(bytes, content_type) {
        return Err(AppError::Auth(expired_token_msg(path, HTML_NOT_PDF)));
    }
    let mut m = String::new();
    push_str(&mut m, path);
    push_str(&mut m, ": unrecognized response (content-type ");
    let d = debug_str(content_type);
    push_str(&mut m, d.as_str());
    push_str(&mut m, ", ");
    push_decimal(&mut m, bytes.len() as u64);
    push_str(&mut m, " bytes; does not start with `%PDF`)");
    Err(AppError::Upstream(m))
}

// ---------------------------------------------------------------------------
// Error-body hints
// ---------------------------------------------------------------------------

/// The non-empty string member `key` of a document, if any.
pub open spec fn nonempty_member(v: JsonV, key: Seq<char>) -> Option<Seq<char>> {
    match v.get(key) {
        Some(x) => match x.as_str() {
            Some(m) => if m.len() > 0 {
                Some(m)
            } else {
                None
            },
            None => None,
        },
        None => None,
    }
}

/// The first non-empty message among the usual error members.
pub open spec fn error_message(parsed: Option<JsonV>) -> Option<Seq<char>> {
    match parsed {
        Some(v) => if nonempty_member(v, "message"@) is Some {
            nonempty_member(v, "message"@)
        } else if nonempty_member(v, "error"@) is Some {
            nonempty_member(v, "error"@)
        } else if nonempty_member(v, "errorMessage"@) is Some {
            nonempty_member(v, "errorMessage"@)
        } else {
            nonempty_member(v, "userMessage"@)
        },
        None => None,
    }
}

/// At most the first `n` characters.
pub open spec fn prefix_of(s: Seq<char>, n: nat) -> Seq<char> {
    if s.len() <= n {
        s
    } else {
        s.subrange(0, n as int)
    }
}

/// A short hint from an error response body; `parsed` is the JSON the
/// trimmed body holds, if it is JSON. Nothing for an empty or HTML body;
/// else the first non-empty `message`/`error`/`errorMessage`/`userMessage`,
/// else the first 120 characters.
pub open spec fn hint_of(text: Seq<char>, parsed: Option<JsonV>) -> Seq<char> {
    let t = trim(text);
    if t.len() == 0 || t[0] == '<' {
        Seq::empty()
    } else if error_message(parsed) is Some {
        " — "@ + error_message(parsed).unwrap()
    } else {
        " — "@ + prefix_of(t, 120)
    }
}

fn member_text(v: &Json, key: &str) -> (res: Option<String>)
    ensures
        match res {
            Some(m) => nonempty_member(v@, key@) == Some(m@),
            None => nonempty_member(v@, key@) is None,
        },
{
    match v.get(key) {
        Some(x) => match x.as_str() {
            Some(m) => {
                let mc = to_chars(m);
                if mc.len() > 0 {
                    Some(string_from(&mc))
                } else {
                    None
                }
            },
            None => None,
        },
        None => None,
    }
}

/// Pulls a short human hint out of an error response body. `parsed` is the
/// JSON document the trimmed body holds, when it holds one.
pub fn body_hint(text: &str, parsed: Option<&Json>) -> (res: String)
    ensures
        res@ == hint_of(text@, crate::json::opt_view(parsed)),
{
    let t = trimmed(text);
    if t.len() == 0 || t[0] == '<' {
        return String::new();
    }
    let found = match parsed {
        Some(v) => match member_text(v, "message") {
            Some(m) => Some(m),
            None => match member_text(v, "error") {
                Some(m) => Some(m),
                None => match member_text(v, "errorMessage") {
                    Some(m) => Some(m),
                    None => member_text(v, "userMessage"),
                },
            },
        },
        None => None,
    };
    let mut r = String::new();
    push_str(&mut r, " — ");
    match found {
        Some(m) => {
            push_str(&mut r, m.as_str());
        },
        None => {
            let n = if t.len() <= 120 {
                t.len()
            } else {
                120
            };
            push_range(&mut r, &t, 0, n);
            assert(t@.subrange(0, t@.len() as int) == t@);
        },
    }
    r
}

// ---------------------------------------------------------------------------
// Responses from the account-experience endpoints
// ---------------------------------------------------------------------------

/// A 2xx status.
pub open spec fn success(status: u16) -> bool {
    200 <= status <= 299
}

/// The tail of the message for a rejected token on the account endpoints.
pub const REJECTED_TAIL: &'static str = " — the stored token is expired or invalid. Capture a fresh `Authorization: Bearer …` in your browser and re-run `xfin auth login --overwrite`.";

/// The classification of an account-endpoint response: 401/403 is auth,
/// 404 not found, other non-2xx upstream (with a hint), an empty body null,
/// and otherwise the parsed JSON, or an error naming the first bytes.
pub open spec fn response_outcome(
    status: u16,
    text: Seq<char>,
    path: Seq<char>,
    body: Option<JsonV>,
    hint_body: Option<JsonV>,
) -> Result<JsonV, (i32, Seq<char>)> {
    if status == 401 || status == 403 {
        Err((3, "Xfinity returned "@ + decimal(status as nat) + " for "@ + path + REJECTED_TAIL@))
    } else if status == 404 {
        Err((4, path + " (HTTP 404)"@))
    } else if !success(status) {
        Err(
            (
                5,
                "Xfinity HTTP "@ + decimal(status as nat) + " for "@ + path + hint_of(text, hint_body),
            ),
        )
    } else if trim(text).len() == 0 {
        Ok(JsonV::Null)
    } else if body is Some {
        Ok(body.unwrap())
    } else {
        Err(
            (
                1,
                "Xfinity returned a non-JSON response for "@ + path + " (first bytes: "@
                    + debug_quoted(prefix_of(text, 60)) + ")"@,
            ),
        )
    }
}

/// An error as its kind (its exit code, with a network failure as 6) and
/// message; the two determine the error.
pub open spec fn err_view(e: AppError) -> (i32, Seq<char>) {
    (e.kind(), e.text())
}

/// A result with its error taken as exit code and message.
pub open spec fn outcome_view(r: Result<Json, AppError>) -> Result<JsonV, (i32, Seq<char>)> {
    match r {
        Ok(v) => Ok(v@),
        Err(e) => Err(err_view(e)),
    }
}

/// Classifies a response from an account-experience endpoint: its status
/// and text. The text is read as JSON on success, and its trimmed form for
/// a hint on failure.
pub fn handle_response(status: u16, text: &str, path: &str) -> (res: Result<Json, AppError>)
    ensures
        outcome_view(res) == response_outcome(
            status,
            text@,
            path@,
            text_json(text@),
            text_json(trim(text@)),
        ),
        res matches Err(e) ==> !(e is Usage) && !(e is Network),
{
    let body = parse_text(text);
    let t = string_from(&trimmed(text));
    let hint = parse_text(t.as_str());
    judge_response(status, text, path, body, hint.as_ref())
}

/// Classifies a response from an account-experience endpoint. `body` is the
/// JSON the response text holds and `hint_body` the JSON its trimmed text
/// holds, each when it holds one.
pub fn judge_response(
    status: u16,
    text: &str,
    path: &str,
    body: Option<Json>,
    hint_body: Option<&Json>,
) -> (res: Result<Json, AppError>)
    ensures
        outcome_view(res) == response_outcome(
            status,
            text@,
            path@,
            match body {
                Some(b) => Some(b@),
                None => None,
            },
            crate::json::opt_view(hint_body),
        ),
        res matches Err(e) ==> !(e is Usage) && !(e is Network),
{
    if status == 401 || status == 403 {
        let mut m = String::new();
        push_str(&mut m, "Xfinity returned ");
        push_decimal(&mut m, status as u64);
        push_str(&mut m, " for ");
        push_str(&mut m, path);
        push_str(&mut m, REJECTED_TAIL);
        return Err(AppError::Auth(m));
    }
    if status == 404 {
        let mut m = String::new();
        push_str(&mut m, path);
        push_str(&mut m, " (HTTP 404)");
        return Err(AppError::NotFound(m));
    }
    if !(200 <= status && status <= 299) {
        let mut m = String::new();
        push_str(&mut m, "Xfinity HTTP ");
        push_decimal(&mut m, status as u64);
        push_str(&mut m, " for ");
        push_str(&mut m, path);
        let h = body_hint(text, hint_body);
        push_str(&mut m, h.as_str());
        return Err(AppError::Upstream(m));
    }
    let t = trimmed(text);
    if t.len() == 0 {
        return Ok(Json::Null);
    }
    match body {
        Some(v) => Ok(v),
        None => {
            let cs = to_chars(text);
            let n = if cs.len() <= 60 {
                cs.len()
            } else {
                60
            };
            let first = string_of(&cs, 0, n);
            assert(cs@.subrange(0, cs@.len() as int) == cs@);
            let d = debug_str(first.as_str());
            let mut m = String::new();
            push_str(&mut m, "Xfinity returned a non-JSON response for ");
            push_str(&mut m, path);
            push_str(&mut m, " (first bytes: ");
            push_str(&mut m, d.as_str());
            push_str(&mut m, ")");
            Err(AppError::Other(m))
        },
    }
}

// ---------------------------------------------------------------------------
// The signed-URL envelope of the statement service
// ---------------------------------------------------------------------------

/// `[b0, b1, …]`: the Debug rendering of a byte list.
pub open spec fn byte_items(b: Seq<u8>) -> Seq<char>
    decreases b.len(),
{
    if b.len() == 0 {
        Seq::empty()
    } else if b.len() == 1 {
        decimal(b[0] as nat)
    } else {
        byte_items(b.drop_last()) + seq![',', ' '] + decimal(b.last() as nat)
    }
}

/// The Debug rendering of at most the first 60 bytes.
pub open spec fn first_bytes(b: Seq<u8>) -> Seq<char> {
    let h = if b.len() <= 60 {
        b
    } else {
        b.subrange(0, 60)
    };
    seq!['['] + byte_items(h) + seq![']']
}

fn push_first_bytes(out: &mut String, b: &[u8])
    ensures
        final(out)@ == old(out)@ + first_bytes(b@),
{
    let ghost start = out@;
    let n = if b.len() <= 60 {
        b.len()
    } else {
        60
    };
    let ghost h = if b@.len() <= 60 {
        b@
    } else {
        b@.subrange(0, 60)
    };
    push_char(out, '[');
    let mut i: usize = 0;
    while i < n
        invariant
            i <= n == h.len(),
            n <= b@.len(),
            forall|j: int| 0 <= j < n ==> #[trigger] h[j] == b@[j],
            out@ == start + seq!['['] + byte_items(h.subrange(0, i as int)),
        decreases n - i,
    {
        if i > 0 {
            push_char(out, ',');
            push_char(out, ' ');
        }
        push_decimal(out, b[i] as u64);
        proof {
            let t = h.subrange(0, i + 1);
            assert(t.drop_last() == h.subrange(0, i as int));
            assert(t.last() == b@[i as int]);
            if i == 0 {
                assert(t.len() == 1);
                assert(byte_items(h.subrange(0, 0)) == Seq::<char>::empty());
            }
        }
        i = i + 1;
    }
    assert(h.subrange(0, n as int) == h);
    push_char(out, ']');
    assert(out@ =~= start + first_bytes(b@));
}

/// The first candidate member that holds a string.
pub open spec fn first_url(v: JsonV) -> Option<Seq<char>> {
    if v.pointer("/cloudfront_url"@) is Some && v.pointer("/cloudfront_url"@).unwrap().as_str() is Some {
        v.pointer("/cloudfront_url"@).unwrap().as_str()
    } else if v.pointer("/cloudfrontUrl"@) is Some && v.pointer("/cloudfrontUrl"@).unwrap().as_str() is Some {
        v.pointer("/cloudfrontUrl"@).unwrap().as_str()
    } else if v.pointer("/url"@) is Some && v.pointer("/url"@).unwrap().as_str() is Some {
        v.pointer("/url"@).unwrap().as_str()
    } else if v.pointer("/pdfUrl"@) is Some && v.pointer("/pdfUrl"@).unwrap().as_str() is Some {
        v.pointer("/pdfUrl"@).unwrap().as_str()
    } else if v.pointer("/signedUrl"@) is Some && v.pointer("/signedUrl"@).unwrap().as_str() is Some {
        v.pointer("/signedUrl"@).unwrap().as_str()
    } else {
        None
    }
}

/// The candidate list as it is named in the error for a missing field.
pub const CANDIDATES_TEXT: &'static str = "[\"/cloudfront_url\", \"/cloudfrontUrl\", \"/url\", \"/pdfUrl\", \"/signedUrl\"]";

/// What the envelope yields: the first recognized string member when it is
/// an http(s) URL; an upstream error otherwise.
pub open spec fn signed_url_outcome(
    bytes: Seq<u8>,
    path: Seq<char>,
    parsed: Result<JsonV, Seq<char>>,
) -> Result<Seq<char>, Seq<char>> {
    match parsed {
        Err(e) => Err(
            path + " returned undecodable JSON: "@ + e + " (first bytes: "@ + first_bytes(bytes)
                + ")"@,
        ),
        Ok(v) => match first_url(v) {
            None => Err(
                path + " returned JSON without a recognized signed-URL field (tried "@
                    + CANDIDATES_TEXT@
                    + ") — inspect against a real request in the browser and add the field to `src/client.rs::extract_signed_url`"@,
            ),
            Some(u) => if starts_with(u, "https://"@) || starts_with(u, "http://"@) {
                Ok(u)
            } else {
                Err(path + " returned a non-http signed URL: "@ + debug_quoted(u))
            },
        },
    }
}

fn candidate_url(v: &Json, ptr: &str) -> (res: Option<String>)
    ensures
        match res {
            Some(u) => v@.pointer(ptr@) is Some && v@.pointer(ptr@).unwrap().as_str() == Some(u@),
            None => !(v@.pointer(ptr@) is Some && v@.pointer(ptr@).unwrap().as_str() is Some),
        },
{
    match v.pointer(ptr) {
        Some(x) => match x.as_str() {
            Some(u) => Some(u.to_owned()),
            None => None,
        },
        None => None,
    }
}

/// Extracts the presigned URL from the statement service's envelope
/// (`{"cloudfront_url": "https://…"}`), tolerating the nearby field names
/// `cloudfrontUrl`, `url`, `pdfUrl` and `signedUrl`. Only an http(s) URL is
/// accepted.
pub fn extract_signed_url(bytes: &[u8], path: &str) -> (res: Result<String, AppError>)
    ensures
        match res {
            Ok(u) => signed_url_outcome(bytes@, path@, json_of(bytes@)) == Ok::<
                Seq<char>,
                Seq<char>,
            >(u@),
            Err(e) => e is Upstream && signed_url_outcome(bytes@, path@, json_of(bytes@)) == Err::<
                Seq<char>,
                Seq<char>,
            >(e.text()),
        },
{
    let parsed = parse_json(bytes);
    signed_url_from(bytes, path, parsed)
}

/// [`extract_signed_url`] on the envelope already read: `parsed` is the
/// JSON the bytes hold, or the parser's message.
pub fn signed_url_from(bytes: &[u8], path: &str, parsed: Result<Json, String>) -> (res: Result<
    String,
    AppError,
>)
    ensures
        match res {
            Ok(u) => signed_url_outcome(
                bytes@,
                path@,
                match parsed {
                    Ok(v) => Ok(v@),
                    Err(e) => Err(e@),
                },
            ) == Ok::<Seq<char>, Seq<char>>(u@),
            Err(e) => e is Upstream && signed_url_outcome(
                bytes@,
                path@,
                match parsed {
                    Ok(v) => Ok(v@),
                    Err(e) => Err(e@),
                },
            ) == Err::<Seq<char>, Seq<char>>(e.text()),
        },
{
    let v = match parsed {
        Err(e) => {
            let mut m = String::new();
            push_str(&mut m, path);
            push_str(&mut m, " returned undecodable JSON: ");
            push_str(&mut m, e.as_str());
            push_str(&mut m, " (first bytes: ");
            push_first_bytes(&mut m, bytes);
            push_str(&mut m, ")");
            return Err(AppError::Upstream(m));
        },
        Ok(v) => v,
    };
    let found = match candidate_url(&v, "/cloudfront_url") {
        Some(u) => Some(u),
        None => match candidate_url(&v, "/cloudfrontUrl") {
            Some(u) => Some(u),
            None => match candidate_url(&v, "/url") {
                Some(u) => Some(u),
                None => match candidate_url(&v, "/pdfUrl") {
                    Some(u) => Some(u),
                    None => candidate_url(&v, "/signedUrl"),
                },
            },
        },
    };
    match found {
        None => {
            let mut m = String::new();
            push_str(&mut m, path);
            push_str(&mut m, " returned JSON without a recognized signed-URL field (tried ");
            push_str(&mut m, CANDIDATES_TEXT);
            push_str(
                &mut m,
                ") — inspect against a real request in the browser and add the field to `src/client.rs::extract_signed_url`",
            );
            Err(AppError::Upstream(m))
        },
        Some(u) => {
            let uc = to_chars(u.as_str());
            if has_prefix_str(&uc, "https://") || has_prefix_str(&uc, "http://") {
                Ok(u)
            } else {
                let mut m = String::new();
                push_str(&mut m, path);
                push_str(&mut m, " returned a non-http signed URL: ");
                let d = debug_str(u.as_str());
                push_str(&mut m, d.as_str());
                Err(AppError::Upstream(m))
            }
        },
    }
}

// ---------------------------------------------------------------------------
// Hosts
// ---------------------------------------------------------------------------

/// The account-experience host when no override is set.
pub const DEFAULT_API_HOST: &'static str = "https://www.xfinity.com";

/// The self-care (statement) host when no override is set.
pub const DEFAULT_SC_API_HOST: &'static str = "https://api.sc.xfinity.com";

/// A non-empty override, else the default.
pub open spec fn host_choice(env: Option<Seq<char>>, default: Seq<char>) -> Seq<char> {
    match env {
        Some(v) => if v.len() > 0 {
            v
        } else {
            default
        },
        None => default,
    }
}

/// The text of an optional string.
pub open spec fn opt_text(o: Option<&str>) -> Option<Seq<char>> {
    match o {
        Some(s) => Some(s@),
        None => None,
    }
}

fn choose_host(env: Option<&str>, default: &str) -> (res: String)
    ensures
        res@ == host_choice(opt_text(env), default@),
{
    match env {
        Some(v) => {
            let vc = to_chars(v);
            if vc.len() > 0 {
                v.to_owned()
            } else {
                default.to_owned()
            }
        },
        None => default.to_owned(),
    }
}

/// Account-experience API host: the value of `$XFINITY_API_HOST` when set
/// and non-empty, else `https://www.xfinity.com`.
pub fn api_host(env: Option<&str>) -> (res: String)
    ensures
        res@ == host_choice(opt_text(env), DEFAULT_API_HOST@),
{
    choose_host(env, DEFAULT_API_HOST)
}

/// Self-care (statement) API host: the value of `$XFINITY_SC_API_HOST` when
/// set and non-empty, else `https://api.sc.xfinity.com`.
pub fn sc_api_host(env: Option<&str>) -> (res: String)
    ensures
        res@ == host_choice(opt_text(env), DEFAULT_SC_API_HOST@),
{
    choose_host(env, DEFAULT_SC_API_HOST)
}

/// `s` without trailing `c` characters (`trim_end_matches`).
pub open spec fn strip_trailing(s: Seq<char>, c: char) -> Seq<char>
    decreases s.len(),
{
    if s.len() > 0 && s.last() == c {
        strip_trailing(s.drop_last(), c)
    } else {
        s
    }
}

/// `s` without leading `c` characters (`trim_start_matches`).
pub open spec fn strip_leading(s: Seq<char>, c: char) -> Seq<char>
    decreases s.len(),
{
    if s.len() > 0 && s[0] == c {
        strip_leading(s.drop_first(), c)
    } else {
        s
    }
}

pub proof fn lemma_strip_trailing_at(s: Seq<char>, c: char, k: int)
    requires
        0 <= k <= s.len(),
        forall|j: int| k <= j < s.len() ==> #[trigger] s[j] == c,
        k == 0 || s[k - 1] != c,
    ensures
        strip_trailing(s, c) == s.subrange(0, k),
    decreases s.len() - k,
{
    if k < s.len() {
        let t = s.drop_last();
        assert forall|j: int| k <= j < t.len() implies #[trigger] t[j] == c by {
            assert(t[j] == s[j]);
        }
        if k > 0 {
            assert(t[k - 1] == s[k - 1]);
        }
        lemma_strip_trailing_at(t, c, k);
        assert(t.subrange(0, k) == s.subrange(0, k));
    } else {
        assert(s.subrange(0, k) == s);
    }
}

proof fn lemma_strip_leading_at(s: Seq<char>, c: char, k: int)
    requires
        0 <= k <= s.len(),
        forall|j: int| 0 <= j < k ==> #[trigger] s[j] == c,
        k == s.len() || s[k] != c,
    ensures
        strip_leading(s, c) == s.subrange(k, s.len() as int),
    decreases k,
{
    if k > 0 {
        let t = s.drop_first();
        assert forall|j: int| 0 <= j < k - 1 implies #[trigger] t[j] == c by {
            assert(t[j] == s[j + 1]);
        }
        if k < s.len() {
            assert(t[k - 1] == s[k]);
        }
        lemma_strip_leading_at(t, c, k - 1);
        assert(t.subrange(k - 1, t.len() as int) == s.subrange(k, s.len() as int));
    } else {
        assert(s.subrange(0, s.len() as int) == s);
    }
}

fn without_trailing(s: &str, c: char) -> (res: String)
    ensures
        res@ == strip_trailing(s@, c),
{
    let cs = to_chars(s);
    let mut k = cs.len();
    while k > 0 && cs[k - 1] == c
        invariant
            k <= cs@.len(),
            forall|j: int| k <= j < cs@.len() ==> #[trigger] cs@[j] == c,
        decreases k,
    {
        k = k - 1;
    }
    proof {
        lemma_strip_trailing_at(cs@, c, k as int);
    }
    string_of(&cs, 0, k)
}

pub(crate) fn push_without_leading(out: &mut String, s: &str, c: char)
    ensures
        final(out)@ == old(out)@ + strip_leading(s@, c),
{
    let cs = to_chars(s);
    let mut k: usize = 0;
    while k < cs.len() && cs[k] == c
        invariant
            k <= cs@.len(),
            forall|j: int| 0 <= j < k ==> #[trigger] cs@[j] == c,
        decreases cs@.len() - k,
    {
        k = k + 1;
    }
    proof {
        lemma_strip_leading_at(cs@, c, k as int);
    }
    push_range(out, &cs, k, cs.len());
}

// ---------------------------------------------------------------------------
// Browser identity
// ---------------------------------------------------------------------------

/// Major Chrome version the client presents; the `User-Agent` and the
/// `Sec-CH-UA` client hint must agree on it.
pub const CHROME_MAJOR: &'static str = "126";

/// The `User-Agent` text.
pub open spec fn user_agent_text() -> Seq<char> {
    "Mozilla/5.0 (Macintosh; Intel Mac OS X 10_15_7) AppleWebKit/537.36 (KHTML, like Gecko) Chrome/"@
        + CHROME_MAJOR@ + ".0.0.0 Safari/537.36"@
}

/// The `Sec-CH-UA` text.
pub open spec fn sec_ch_ua_text() -> Seq<char> {
    "\"Chromium\";v=\""@ + CHROME_MAJOR@ + "\", \"Google Chrome\";v=\""@ + CHROME_MAJOR@
        + "\", \"Not?A_Brand\";v=\"24\""@
}

/// A desktop Chrome `User-Agent`.
pub fn user_agent() -> (res: String)
    ensures
        res@ == user_agent_text(),
{
    let mut r = String::new();
    push_str(
        &mut r,
        "Mozilla/5.0 (Macintosh; Intel Mac OS X 10_15_7) AppleWebKit/537.36 (KHTML, like Gecko) Chrome/",
    );
    push_str(&mut r, CHROME_MAJOR);
    push_str(&mut r, ".0.0.0 Safari/537.36");
    r
}

/// The `Sec-CH-UA` client hint matching [`user_agent`].
pub fn sec_ch_ua() -> (res: String)
    ensures
        res@ == sec_ch_ua_text(),
{
    let mut r = String::new();
    push_str(&mut r, "\"Chromium\";v=\"");
    push_str(&mut r, CHROME_MAJOR);
    push_str(&mut r, "\", \"Google Chrome\";v=\"");
    push_str(&mut r, CHROME_MAJOR);
    push_str(&mut r, "\", \"Not?A_Brand\";v=\"24\"");
    r
}

// ---------------------------------------------------------------------------
// Requests
// ---------------------------------------------------------------------------

/// Header or query pairs as text.
pub open spec fn pairs_view(h: Seq<(String, String)>) -> Seq<(Seq<char>, Seq<char>)> {
    h.map_values(|p: (String, String)| (p.0@, p.1@))
}

fn pair(a: &str, b: &str) -> (res: (String, String))
    ensures
        res.0@ == a@,
        res.1@ == b@,
{
    (a.to_owned(), b.to_owned())
}

/// A POST to an account-experience endpoint, ready to send.
#[derive(Debug)]
pub struct PostRequest {
    pub url: String,
    pub headers: Vec<(String, String)>,
    pub body: Json,
}

/// A GET, ready to send.
#[derive(Debug)]
pub struct GetRequest {
    pub url: String,
    pub query: Vec<(String, String)>,
    pub headers: Vec<(String, String)>,
}

/// `Accept` for the JSON endpoints.
pub const ACCEPT_JSON: &'static str = "application/json, text/plain, */*";

/// The headers of an account-experience POST.
pub open spec fn post_headers(bearer: Seq<char>, host: Seq<char>) -> Seq<(Seq<char>, Seq<char>)> {
    seq![
        ("Authorization"@, bearer),
        ("Content-Type"@, "application/json"@),
        ("Accept"@, ACCEPT_JSON@),
        ("Referer"@, host + "/account"@),
        ("Sec-Fetch-Dest"@, "empty"@),
        ("Sec-Fetch-Mode"@, "cors"@),
        ("Sec-Fetch-Site"@, "same-origin"@),
        ("Sec-CH-UA-Mobile"@, "?0"@),
        ("Sec-CH-UA-Platform"@, "\"macOS\""@),
        ("Sec-CH-UA"@, sec_ch_ua_text()),
    ]
}

/// The headers of the statement-service request.
pub open spec fn ssm_headers(bearer: Seq<char>) -> Seq<(Seq<char>, Seq<char>)> {
    seq![
        ("Authorization"@, bearer),
        ("Accept"@, ACCEPT_JSON@),
        ("Referer"@, "https://customer.xfinity.com/"@),
        ("Sec-Fetch-Dest"@, "empty"@),
        ("Sec-Fetch-Mode"@, "cors"@),
        ("Sec-Fetch-Site"@, "same-site"@),
        ("Sec-CH-UA-Mobile"@, "?0"@),
        ("Sec-CH-UA-Platform"@, "\"macOS\""@),
        ("Sec-CH-UA"@, sec_ch_ua_text()),
    ]
}

/// The headers of the presigned PDF request: no `Authorization`, since the
/// URL carries its own signature.
pub open spec fn pdf_headers() -> Seq<(Seq<char>, Seq<char>)> {
    seq![
        ("Accept"@, "application/pdf, */*"@),
        ("Referer"@, "https://customer.xfinity.com/"@),
        ("Sec-Fetch-Dest"@, "document"@),
        ("Sec-Fetch-Mode"@, "navigate"@),
        ("Sec-Fetch-Site"@, "cross-site"@),
        ("Sec-CH-UA-Mobile"@, "?0"@),
        ("Sec-CH-UA-Platform"@, "\"macOS\""@),
        ("Sec-CH-UA"@, sec_ch_ua_text()),
    ]
}

/// The body of the billing-summary request.
pub open spec fn billing_summary_body() -> JsonV {
    JsonV::Object(
        seq![
            ("requestTypes"@, JsonV::Array(seq![JsonV::Str("CORE"@), JsonV::Str("XM"@)])),
            ("metadata"@, JsonV::Object(seq![("source"@, JsonV::Str("web"@))])),
        ],
    )
}

/// The body of the account-context request.
pub open spec fn context_body() -> JsonV {
    JsonV::Object(
        seq![
            (
                "eventNames"@,
                JsonV::Array(
                    seq![
                        JsonV::Str("call.getContext.Account"@),
                        JsonV::Str("call.getContext.Subscription"@),
                        JsonV::Str("call.getContext.Device"@),
                        JsonV::Str("call.getContext.Outage"@),
                        JsonV::Str("call.getContext.Indicator"@),
                    ],
                ),
            ),
            (
                "data"@,
                JsonV::Object(
                    seq![("metadata"@, JsonV::Object(seq![("source"@, JsonV::Str("maw"@))]))],
                ),
            ),
        ],
    )
}

fn jstr(s: &str) -> (res: Json)
    ensures
        res@ == JsonV::Str(s@),
{
    Json::Str(s.to_owned())
}

fn jmember(key: &str, v: Json) -> (res: (String, Json))
    ensures
        res.0@ == key@,
        res.1@ == v@,
{
    (key.to_owned(), v)
}

fn jarray(items: Vec<Json>) -> (res: Json)
    ensures
        res@ == JsonV::Array(Seq::new(items@.len(), |i: int| items@[i]@)),
{
    proof {
        crate::json::lemma_view_items(items@);
        assert(crate::json::view_items(items@) =~= Seq::new(items@.len(), |i: int| items@[i]@));
    }
    Json::Array(items)
}

fn jobject(members: Vec<(String, Json)>) -> (res: Json)
    ensures
        res@ == JsonV::Object(Seq::new(members@.len(), |i: int| (members@[i].0@, members@[i].1@))),
{
    proof {
        crate::json::lemma_view_members(members@);
        assert(crate::json::view_members(members@) =~= Seq::new(
            members@.len(),
            |i: int| (members@[i].0@, members@[i].1@),
        ));
    }
    Json::Object(members)
}

/// The body of the billing-summary request.
pub fn billing_summary_request_body() -> (res: Json)
    ensures
        res@ == billing_summary_body(),
{
    let mut types: Vec<Json> = Vec::new();
    types.push(jstr("CORE"));
    types.push(jstr("XM"));
    let ghost tv = types@;
    let types = jarray(types);
    assert(Seq::new(tv.len(), |i: int| tv[i]@) =~= seq![JsonV::Str("CORE"@), JsonV::Str("XM"@)]);
    let mut meta: Vec<(String, Json)> = Vec::new();
    meta.push(jmember("source", jstr("web")));
    let ghost mv = meta@;
    let meta = jobject(meta);
    assert(Seq::new(mv.len(), |i: int| (mv[i].0@, mv[i].1@)) =~= seq![("source"@, JsonV::Str("web"@))]);
    let mut top: Vec<(String, Json)> = Vec::new();
    top.push(jmember("requestTypes", types));
    top.push(jmember("metadata", meta));
    let ghost topv = top@;
    let res = jobject(top);
    assert(Seq::new(topv.len(), |i: int| (topv[i].0@, topv[i].1@)) =~= seq![
        ("requestTypes"@, JsonV::Array(seq![JsonV::Str("CORE"@), JsonV::Str("XM"@)])),
        ("metadata"@, JsonV::Object(seq![("source"@, JsonV::Str("web"@))])),
    ]);
    res
}

/// The body of the account-context request.
pub fn context_request_body() -> (res: Json)
    ensures
        res@ == context_body(),
{
    let mut names: Vec<Json> = Vec::new();
    names.push(jstr("call.getContext.Account"));
    names.push(jstr("call.getContext.Subscription"));
    names.push(jstr("call.getContext.Device"));
    names.push(jstr("call.getContext.Outage"));
    names.push(jstr("call.getContext.Indicator"));
    let ghost nv = names@;
    let names = jarray(names);
    let ghost names_seq = seq![
        JsonV::Str("call.getContext.Account"@),
        JsonV::Str("call.getContext.Subscription"@),
        JsonV::Str("call.getContext.Device"@),
        JsonV::Str("call.getContext.Outage"@),
        JsonV::Str("call.getContext.Indicator"@),
    ];
    assert(Seq::new(nv.len(), |i: int| nv[i]@) =~= names_seq);
    let mut source: Vec<(String, Json)> = Vec::new();
    source.push(jmember("source", jstr("maw")));
    let ghost sv = source@;
    let source = jobject(source);
    assert(Seq::new(sv.len(), |i: int| (sv[i].0@, sv[i].1@)) =~= seq![("source"@, JsonV::Str("maw"@))]);
    let mut meta: Vec<(String, Json)> = Vec::new();
    meta.push(jmember("metadata", source));
    let ghost mv = meta@;
    let meta = jobject(meta);
    let ghost meta_seq = seq![("metadata"@, JsonV::Object(seq![("source"@, JsonV::Str("maw"@))]))];
    assert(Seq::new(mv.len(), |i: int| (mv[i].0@, mv[i].1@)) =~= meta_seq);
    let mut top: Vec<(String, Json)> = Vec::new();
    top.push(jmember("eventNames", names));
    top.push(jmember("data", meta));
    let ghost topv = top@;
    let res = jobject(top);
    assert(Seq::new(topv.len(), |i: int| (topv[i].0@, topv[i].1@)) =~= seq![
        ("eventNames"@, JsonV::Array(names_seq)),
        ("data"@, JsonV::Object(meta_seq)),
    ]);
    res
}

// ---------------------------------------------------------------------------
// The session
// ---------------------------------------------------------------------------

/// An authenticated account-experience session: the two hosts and the
/// `Authorization` header value.
#[derive(Debug)]
pub struct Xfinity {
    pub host: String,
    pub sc_host: String,
    pub bearer: String,
}

/// The message when no token is stored.
pub const NO_TOKEN: &'static str = "no Xfinity token stored — run `xfin auth login` (see `xfin auth login --help`)";

/// The URL for an endpoint path: a full URL as given, else under
/// `<host>/digital/service/api/` with leading slashes dropped.
pub open spec fn endpoint_url(host: Seq<char>, path: Seq<char>) -> Seq<char> {
    if starts_with(path, "http://"@) || starts_with(path, "https://"@) {
        path
    } else {
        host + "/digital/service/api/"@ + strip_leading(path, '/')
    }
}

/// The POST-only refusal for another method.
pub open spec fn post_only_msg(upper: Seq<char>) -> Seq<char> {
    "the account-experience API is POST-only; got "@ + debug_quoted(upper)
        + ". Example: xfin api POST BillingInfo/billingSummary --data '{\"requestTypes\":[\"CORE\"],\"metadata\":{\"source\":\"web\"}}'"@
}

/// The usage error for a statement date that is not ISO.
pub open spec fn bad_date_msg(date: Seq<char>) -> Seq<char> {
    "statement date "@ + debug_quoted(date)
        + " is not ISO YYYY-MM-DD; see `xfin billing statements` for valid handles"@
}

/// The endpoint path the statement download is reported under.
pub const SSM_PATH: &'static str = "ssm/bill/pdf";

/// How a missing statement endpoint is reported, with the recipe for
/// finding where it moved.
pub const SSM_NOT_FOUND: &'static str = "ssm/bill/pdf (HTTP 404) — the SSM statement-download endpoint may have moved. Sign in at https://customer.xfinity.com/billing/services/statement/history, open DevTools → Network, click \"Statement PDF\" on a statement, and check the request URL/query/response; then update `docs/api.md` and `Xfinity::download_statement` in `src/client.rs`.";

/// How an HTML page in place of the statement envelope is reported.
pub const SSM_HTML: &'static str = "SSM returned an HTML page where a JSON envelope was expected (an expired session is answered with the sign-in page, not a 401)";

/// The hint for an error body given as bytes: only when they are UTF-8.
pub open spec fn bytes_hint(bytes: Seq<u8>, hint_body: Option<JsonV>) -> Seq<char> {
    if vstd::utf8::valid_utf8(bytes) {
        hint_of(vstd::utf8::decode_utf8(bytes), hint_body)
    } else {
        Seq::empty()
    }
}

/// How the statement service's answer is judged: sign-in redirect, 401/403
/// and an HTML body are auth failures; 404 names the recipe; a failed read
/// or other non-2xx is upstream; else the envelope must yield a URL.
pub open spec fn ssm_outcome(
    status: u16,
    content_type: Seq<char>,
    final_url: Seq<char>,
    body: Result<Seq<u8>, Seq<char>>,
    hint_body: Option<JsonV>,
    envelope: Result<JsonV, Seq<char>>,
) -> Result<Seq<char>, (i32, Seq<char>)> {
    let path = SSM_PATH@;
    if login_url(final_url) {
        Err(
            (
                3,
                expired_msg(
                    path,
                    "the request was redirected to a sign-in page ("@ + before_query(final_url)
                        + ")"@,
                ),
            ),
        )
    } else if status == 401 || status == 403 {
        Err((3, expired_msg(path, "Xfinity returned "@ + decimal(status as nat))))
    } else if status == 404 {
        Err((4, SSM_NOT_FOUND@))
    } else {
        match body {
            Err(e) => Err((5, "reading "@ + path + " body: "@ + e)),
            Ok(bytes) => if !success(status) {
                Err(
                    (
                        5,
                        "Xfinity HTTP "@ + decimal(status as nat) + " for "@ + path + bytes_hint(
                            bytes,
                            hint_body,
                        ),
                    ),
                )
            } else if html_body(bytes, content_type) {
                Err((3, expired_msg(path, SSM_HTML@)))
            } else {
                match signed_url_outcome(bytes, path, envelope) {
                    Ok(u) => Ok(u),
                    Err(m) => Err((5, m)),
                }
            },
        }
    }
}

/// How the presigned URL's answer is judged: sign-in redirect is auth, a
/// failed read or non-2xx is upstream, else the body must be a PDF.
pub open spec fn pdf_outcome(
    status: u16,
    content_type: Seq<char>,
    final_url: Seq<char>,
    body: Result<Seq<u8>, Seq<char>>,
    hint_body: Option<JsonV>,
) -> Result<Seq<u8>, (i32, Seq<char>)> {
    let path = SSM_PATH@;
    if login_url(final_url) {
        Err(
            (
                3,
                expired_msg(
                    path,
                    "the presigned URL redirected to a sign-in page ("@ + before_query(final_url)
                        + ")"@,
                ),
            ),
        )
    } else {
        match body {
            Err(e) => Err((5, "reading presigned "@ + path + " body: "@ + e)),
            Ok(bytes) => if !success(status) {
                Err(
                    (
                        5,
                        "presigned URL for "@ + path + " returned HTTP "@ + decimal(status as nat)
                            + bytes_hint(bytes, hint_body),
                    ),
                )
            } else if pdf_magic(bytes) {
                Ok(bytes)
            } else if html_body(bytes, content_type) {
                Err((3, expired_msg(path, HTML_NOT_PDF@)))
            } else {
                Err((5, unrecognized_msg(path, content_type, bytes.len())))
            },
        }
    }
}

/// The text of a read body or its error.
pub open spec fn body_view(b: Result<Vec<u8>, String>) -> Result<Seq<u8>, Seq<char>> {
    match b {
        Ok(v) => Ok(v@),
        Err(e) => Err(e@),
    }
}

/// The document the trimmed text of a body holds, when the body is UTF-8
/// and its trimmed text holds one: what an error hint is read from.
pub open spec fn hint_json_of(bytes: Seq<u8>) -> Option<JsonV> {
    if vstd::utf8::valid_utf8(bytes) {
        text_json(trim(vstd::utf8::decode_utf8(bytes)))
    } else {
        None
    }
}

/// The hint document of a read body (none for a failed read).
pub open spec fn body_hint_json(body: Result<Seq<u8>, Seq<char>>) -> Option<JsonV> {
    match body {
        Ok(b) => hint_json_of(b),
        Err(_) => None,
    }
}

/// The envelope a read body holds, or why not (the read error itself for a
/// failed read).
pub open spec fn body_envelope(body: Result<Seq<u8>, Seq<char>>) -> Result<JsonV, Seq<char>> {
    match body {
        Ok(b) => json_of(b),
        Err(e) => Err(e),
    }
}

/// The document the trimmed text of `bytes` holds, for an error hint.
fn hint_json(bytes: &Vec<u8>) -> (res: Option<Json>)
    ensures
        match res {
            Some(v) => hint_json_of(bytes@) == Some(v@),
            None => hint_json_of(bytes@) is None,
        },
{
    match crate::text::utf8_text(bytes.as_slice()) {
        Some(t) => {
            let tr = string_from(&trimmed(t.as_str()));
            parse_text(tr.as_str())
        },
        None => None,
    }
}

/// The value of a parsed envelope or the parser's message.
pub open spec fn parsed_view(p: Result<Json, String>) -> Result<JsonV, Seq<char>> {
    match p {
        Ok(v) => Ok(v@),
        Err(e) => Err(e@),
    }
}

fn push_bytes_hint(out: &mut String, bytes: &Vec<u8>, hint_body: Option<&Json>)
    ensures
        final(out)@ == old(out)@ + bytes_hint(bytes@, crate::json::opt_view(hint_body)),
{
    match utf8_text(bytes.as_slice()) {
        Some(text) => {
            let h = body_hint(text.as_str(), hint_body);
            push_str(out, h.as_str());
        },
        None => {
            assert(old(out)@ + Seq::<char>::empty() == old(out)@);
        },
    }
}

impl Xfinity {
    /// Builds a session from a captured `Authorization: Bearer …` token and
    /// the two hosts (trailing slashes dropped). No network call — the token
    /// is checked lazily by the first request.
    pub fn from_session(session: &str, api_host: &str, sc_api_host: &str) -> (res: Result<
        Xfinity,
        AppError,
    >)
        ensures
            session@.len() == 0 ==> (res matches Err(e) && e is Auth && e.text() == NO_TOKEN@),
            session@.len() > 0 ==> (res matches Ok(x) && x.host@ == strip_trailing(api_host@, '/')
                && x.sc_host@ == strip_trailing(sc_api_host@, '/') && x.bearer@ == bearer_header(
                session@,
            )),
    {
        let sc = to_chars(session);
        if sc.len() == 0 {
            return Err(AppError::Auth(NO_TOKEN.to_owned()));
        }
        Ok(
            Xfinity {
                host: without_trailing(api_host, '/'),
                sc_host: without_trailing(sc_api_host, '/'),
                bearer: normalize_bearer(session),
            },
        )
    }

    /// The URL for an endpoint path (or a full URL, passed through).
    pub fn url_for(&self, path: &str) -> (res: String)
        ensures
            res@ == endpoint_url(self.host@, path@),
    {
        let pc = to_chars(path);
        if has_prefix_str(&pc, "http://") || has_prefix_str(&pc, "https://") {
            return path.to_owned();
        }
        let mut r = self.host.clone();
        push_str(&mut r, "/digital/service/api/");
        push_without_leading(&mut r, path, '/');
        r
    }

    /// A POST of `body` to an endpoint, with the account-experience headers.
    pub fn post(&self, path: &str, body: Json) -> (res: PostRequest)
        ensures
            res.url@ == endpoint_url(self.host@, path@),
            pairs_view(res.headers@) == post_headers(self.bearer@, self.host@),
            res.body@ == body@,
    {
        let mut referer = self.host.clone();
        push_str(&mut referer, "/account");
        let mut h: Vec<(String, String)> = Vec::new();
        h.push(pair("Authorization", self.bearer.as_str()));
        h.push(pair("Content-Type", "application/json"));
        h.push(pair("Accept", ACCEPT_JSON));
        h.push(pair("Referer", referer.as_str()));
        h.push(pair("Sec-Fetch-Dest", "empty"));
        h.push(pair("Sec-Fetch-Mode", "cors"));
        h.push(pair("Sec-Fetch-Site", "same-origin"));
        h.push(pair("Sec-CH-UA-Mobile", "?0"));
        h.push(pair("Sec-CH-UA-Platform", "\"macOS\""));
        let ua = sec_ch_ua();
        h.push(pair("Sec-CH-UA", ua.as_str()));
        assert(pairs_view(h@) =~= post_headers(self.bearer@, self.host@));
        PostRequest { url: self.url_for(path), headers: h, body }
    }

    /// The raw request behind `xfin api`: only POST is supported (compared
    /// after Unicode upper-casing); the body defaults to `{}`.
    pub fn request(&self, method: &str, path: &str, body: Option<Json>) -> (res: Result<
        PostRequest,
        AppError,
    >)
        ensures
            crate::text::unicode_upper(method@) == "POST"@ ==> (res matches Ok(r) && r.url@
                == endpoint_url(self.host@, path@) && pairs_view(r.headers@) == post_headers(
                self.bearer@,
                self.host@,
            ) && r.body@ == match body {
                Some(b) => b@,
                None => JsonV::Object(Seq::empty()),
            }),
            crate::text::unicode_upper(method@) != "POST"@ ==> (res matches Err(e) && e is Usage
                && e.text() == post_only_msg(crate::text::unicode_upper(method@))),
    {
        let upper = crate::text::to_uppercase(method);
        let uc = to_chars(upper.as_str());
        if crate::text::is_text(&uc, "POST") {
            let b = match body {
                Some(b) => b,
                None => {
                    let empty: Vec<(String, Json)> = Vec::new();
                    let o = jobject(empty);
                    assert(Seq::new(0, |i: int| (empty@[i].0@, empty@[i].1@)) =~= Seq::<
                        (Seq<char>, JsonV),
                    >::empty());
                    o
                },
            };
            Ok(self.post(path, b))
        } else {
            let mut m = String::new();
            push_str(&mut m, "the account-experience API is POST-only; got ");
            let d = debug_str(upper.as_str());
            push_str(&mut m, d.as_str());
            push_str(
                &mut m,
                ". Example: xfin api POST BillingInfo/billingSummary --data '{\"requestTypes\":[\"CORE\"],\"metadata\":{\"source\":\"web\"}}'",
            );
            Err(AppError::Usage(m))
        }
    }

    /// The billing-summary request: balance, due date, autopay, statements,
    /// scheduled payments, transaction history.
    pub fn billing_summary(&self) -> (res: PostRequest)
        ensures
            res.url@ == endpoint_url(self.host@, "BillingInfo/billingSummary"@),
            pairs_view(res.headers@) == post_headers(self.bearer@, self.host@),
            res.body@ == billing_summary_body(),
    {
        self.post("BillingInfo/billingSummary", billing_summary_request_body())
    }

    /// The account-context request: profile, users, devices, outages,
    /// subscription.
    pub fn context(&self) -> (res: PostRequest)
        ensures
            res.url@ == endpoint_url(self.host@, "BillingInfo/context"@),
            pairs_view(res.headers@) == post_headers(self.bearer@, self.host@),
            res.body@ == context_body(),
    {
        self.post("BillingInfo/context", context_request_body())
    }

    /// `responseData.data.<key>` of a context response, or null.
    pub fn context_section(context: &Json, key: &str) -> (res: Json)
        ensures
            res@ == match context@.pointer("/responseData/data/"@ + key@) {
                Some(v) => v,
                None => JsonV::Null,
            },
    {
        let mut p = String::new();
        push_str(&mut p, "/responseData/data/");
        push_str(&mut p, key);
        match context.pointer(p.as_str()) {
            Some(v) => v.copy(),
            None => Json::Null,
        }
    }

    /// The account profile section of a context response.
    pub fn account(context: &Json) -> (res: Json)
        ensures
            res@ == match context@.pointer("/responseData/data/accountContext"@) {
                Some(v) => v,
                None => JsonV::Null,
            },
    {
        proof {
            reveal_strlit("/responseData/data/");
            reveal_strlit("accountContext");
            reveal_strlit("/responseData/data/accountContext");
            assert("/responseData/data/"@ + "accountContext"@ =~= "/responseData/data/accountContext"@);
        }
        Self::context_section(context, "accountContext")
    }

    /// The device and equipment section of a context response.
    pub fn devices(context: &Json) -> (res: Json)
        ensures
            res@ == match context@.pointer("/responseData/data/deviceContext"@) {
                Some(v) => v,
                None => JsonV::Null,
            },
    {
        proof {
            reveal_strlit("/responseData/data/");
            reveal_strlit("deviceContext");
            reveal_strlit("/responseData/data/deviceContext");
            assert("/responseData/data/"@ + "deviceContext"@ =~= "/responseData/data/deviceContext"@);
        }
        Self::context_section(context, "deviceContext")
    }

    /// The outage section of a context response.
    pub fn outages(context: &Json) -> (res: Json)
        ensures
            res@ == match context@.pointer("/responseData/data/outageContext"@) {
                Some(v) => v,
                None => JsonV::Null,
            },
    {
        proof {
            reveal_strlit("/responseData/data/");
            reveal_strlit("outageContext");
            reveal_strlit("/responseData/data/outageContext");
            assert("/responseData/data/"@ + "outageContext"@ =~= "/responseData/data/outageContext"@);
        }
        Self::context_section(context, "outageContext")
    }

    /// The subscription section of a context response.
    pub fn subscription(context: &Json) -> (res: Json)
        ensures
            res@ == match context@.pointer("/responseData/data/subscriptionContext"@) {
                Some(v) => v,
                None => JsonV::Null,
            },
    {
        proof {
            reveal_strlit("/responseData/data/");
            reveal_strlit("subscriptionContext");
            reveal_strlit("/responseData/data/subscriptionContext");
            assert("/responseData/data/"@ + "subscriptionContext"@
                =~= "/responseData/data/subscriptionContext"@);
        }
        Self::context_section(context, "subscriptionContext")
    }

    /// The primary internet plan (`customerPlanInfo.internet[0]`) of a
    /// subscription section, or null when the account has no internet line.
    pub fn internet_plan(subscription: &Json) -> (res: Json)
        ensures
            res@ == match subscription@.pointer("/customerPlanInfo/internet/0"@) {
                Some(v) => v,
                None => JsonV::Null,
            },
    {
        match subscription.pointer("/customerPlanInfo/internet/0") {
            Some(v) => v.copy(),
            None => Json::Null,
        }
    }

    /// `responseData.data.BBDS` of a billing-summary response, or null.
    pub fn bbds(summary: &Json) -> (res: Json)
        ensures
            res@ == match summary@.pointer("/responseData/data/BBDS"@) {
                Some(v) => v,
                None => JsonV::Null,
            },
    {
        match summary.pointer("/responseData/data/BBDS") {
            Some(v) => v.copy(),
            None => Json::Null,
        }
    }

    /// Step one of a statement download: the request to the statement
    /// service for the presigned URL of the statement issued on the ISO date
    /// given (sent as `MM-DD-YYYY`). A date not of ISO shape is a usage
    /// error, before any request.
    pub fn download_statement(&self, statement_date: &str) -> (res: Result<GetRequest, AppError>)
        ensures
            mmddyyyy(statement_date@) is None ==> (res matches Err(e) && e is Usage && e.text()
                == bad_date_msg(statement_date@)),
            mmddyyyy(statement_date@) matches Some(d) ==> (res matches Ok(r) && r.url@
                == self.sc_host@ + "/session/ssm/bill/pdf"@ && pairs_view(r.query@) == seq![
                ("statementDate"@, d),
                ("signed"@, "true"@),
            ] && pairs_view(r.headers@) == ssm_headers(self.bearer@)),
    {
        let d = match iso_to_mmddyyyy(statement_date) {
            Some(d) => d,
            None => {
                let mut m = String::new();
                push_str(&mut m, "statement date ");
                let q = debug_str(statement_date);
                push_str(&mut m, q.as_str());
                push_str(
                    &mut m,
                    " is not ISO YYYY-MM-DD; see `xfin billing statements` for valid handles",
                );
                return Err(AppError::Usage(m));
            },
        };
        let mut url = self.sc_host.clone();
        push_str(&mut url, "/session/ssm/bill/pdf");
        let mut q: Vec<(String, String)> = Vec::new();
        q.push(pair("statementDate", d.as_str()));
        q.push(pair("signed", "true"));
        let mut h: Vec<(String, String)> = Vec::new();
        h.push(pair("Authorization", self.bearer.as_str()));
        h.push(pair("Accept", ACCEPT_JSON));
        h.push(pair("Referer", "https://customer.xfinity.com/"));
        h.push(pair("Sec-Fetch-Dest", "empty"));
        h.push(pair("Sec-Fetch-Mode", "cors"));
        h.push(pair("Sec-Fetch-Site", "same-site"));
        h.push(pair("Sec-CH-UA-Mobile", "?0"));
        h.push(pair("Sec-CH-UA-Platform", "\"macOS\""));
        let ua = sec_ch_ua();
        h.push(pair("Sec-CH-UA", ua.as_str()));
        assert(pairs_view(q@) =~= seq![("statementDate"@, d@), ("signed"@, "true"@)]);
        assert(pairs_view(h@) =~= ssm_headers(self.bearer@));
        Ok(GetRequest { url, query: q, headers: h })
    }

    /// Judges the statement service's answer to step one and yields the
    /// presigned URL for step two. `body` is the response body or the read
    /// error; the envelope is read from it as JSON, and on an error status
    /// its trimmed text for a hint.
    pub fn statement_url_from_response(
        status: u16,
        content_type: &str,
        final_url: &str,
        body: Result<Vec<u8>, String>,
    ) -> (res: Result<String, AppError>)
        ensures
            match res {
                Ok(u) => ssm_outcome(
                    status,
                    content_type@,
                    final_url@,
                    body_view(body),
                    body_hint_json(body_view(body)),
                    body_envelope(body_view(body)),
                ) == Ok::<Seq<char>, (i32, Seq<char>)>(u@),
                Err(e) => ssm_outcome(
                    status,
                    content_type@,
                    final_url@,
                    body_view(body),
                    body_hint_json(body_view(body)),
                    body_envelope(body_view(body)),
                ) == Err::<Seq<char>, (i32, Seq<char>)>(err_view(e)),
            },
    {
        if is_login_url(final_url) {
            let mut why = String::new();
            push_str(&mut why, "the request was redirected to a sign-in page (");
            let r = redacted_url(final_url);
            push_str(&mut why, r.as_str());
            push_str(&mut why, ")");
            return Err(AppError::Auth(expired_token_msg(SSM_PATH, why.as_str())));
        }
        if status == 401 || status == 403 {
            let mut why = String::new();
            push_str(&mut why, "Xfinity returned ");
            push_decimal(&mut why, status as u64);
            return Err(AppError::Auth(expired_token_msg(SSM_PATH, why.as_str())));
        }
        if status == 404 {
            return Err(AppError::NotFound(SSM_NOT_FOUND.to_owned()));
        }
        let bytes = match body {
            Err(e) => {
                let mut m = String::new();
                push_str(&mut m, "reading ");
                push_str(&mut m, SSM_PATH);
                push_str(&mut m, " body: ");
                push_str(&mut m, e.as_str());
                return Err(AppError::Upstream(m));
            },
            Ok(b) => b,
        };
        if !(200 <= status && status <= 299) {
            let mut m = String::new();
            push_str(&mut m, "Xfinity HTTP ");
            push_decimal(&mut m, status as u64);
            push_str(&mut m, " for ");
            push_str(&mut m, SSM_PATH);
            let hint = hint_json(&bytes);
            push_bytes_hint(&mut m, &bytes, hint.as_ref());
            return Err(AppError::Upstream(m));
        }
        if looks_like_html(bytes.as_slice(), content_type) {
            return Err(AppError::Auth(expired_token_msg(SSM_PATH, SSM_HTML)));
        }
        extract_signed_url(bytes.as_slice(), SSM_PATH)
    }

    /// Step two of a statement download: the request for the presigned URL,
    /// sent without an `Authorization` header.
    pub fn fetch_signed_pdf(&self, url: &str) -> (res: GetRequest)
        ensures
            res.url@ == url@,
            res.query@.len() == 0,
            pairs_view(res.headers@) == pdf_headers(),
    {
        let mut h: Vec<(String, String)> = Vec::new();
        h.push(pair("Accept", "application/pdf, */*"));
        h.push(pair("Referer", "https://customer.xfinity.com/"));
        h.push(pair("Sec-Fetch-Dest", "document"));
        h.push(pair("Sec-Fetch-Mode", "navigate"));
        h.push(pair("Sec-Fetch-Site", "cross-site"));
        h.push(pair("Sec-CH-UA-Mobile", "?0"));
        h.push(pair("Sec-CH-UA-Platform", "\"macOS\""));
        let ua = sec_ch_ua();
        h.push(pair("Sec-CH-UA", ua.as_str()));
        assert(pairs_view(h@) =~= pdf_headers());
        GetRequest { url: url.to_owned(), query: Vec::new(), headers: h }
    }

    /// Judges the presigned URL's answer: the PDF bytes, or why not. On an
    /// error status the trimmed body text is read as JSON for a hint.
    pub fn signed_pdf_from_response(
        status: u16,
        content_type: &str,
        final_url: &str,
        body: Result<Vec<u8>, String>,
    ) -> (res: Result<Vec<u8>, AppError>)
        ensures
            match res {
                Ok(b) => pdf_outcome(
                    status,
                    content_type@,
                    final_url@,
                    body_view(body),
                    body_hint_json(body_view(body)),
                ) == Ok::<Seq<u8>, (i32, Seq<char>)>(b@),
                Err(e) => pdf_outcome(
                    status,
                    content_type@,
                    final_url@,
                    body_view(body),
                    body_hint_json(body_view(body)),
                ) == Err::<Seq<u8>, (i32, Seq<char>)>(err_view(e)),
            },
            res matches Ok(b) ==> pdf_magic(b@),
    {
        if is_login_url(final_url) {
            let mut why = String::new();
            push_str(&mut why, "the presigned URL redirected to a sign-in page (");
            let r = redacted_url(final_url);
            push_str(&mut why, r.as_str());
            push_str(&mut why, ")");
            return Err(AppError::Auth(expired_token_msg(SSM_PATH, why.as_str())));
        }
        let bytes = match body {
            Err(e) => {
                let mut m = String::new();
                push_str(&mut m, "reading presigned ");
                push_str(&mut m, SSM_PATH);
                push_str(&mut m, " body: ");
                push_str(&mut m, e.as_str());
                return Err(AppError::Upstream(m));
            },
            Ok(b) => b,
        };
        if !(200 <= status && status <= 299) {
            let mut m = String::new();
            push_str(&mut m, "presigned URL for ");
            push_str(&mut m, SSM_PATH);
            push_str(&mut m, " returned HTTP ");
            push_decimal(&mut m, status as u64);
            let hint = hint_json(&bytes);
            push_bytes_hint(&mut m, &bytes, hint.as_ref());
            return Err(AppError::Upstream(m));
        }
        decode_pdf(bytes.as_slice(), content_type, SSM_PATH)
    }
}

// ---------------------------------------------------------------------------
// Laws
// ---------------------------------------------------------------------------

/// A redacted URL keeps no query and no fragment: it is the part of the
/// URL before the first `?` or `#`, and redacting it again changes nothing.
pub proof fn redaction_drops_query_and_fragment(url: Seq<char>)
    ensures
        forall|i: int|
            0 <= i < before_query(url).len() ==> (#[trigger] before_query(url)[i]) != '?'
                && before_query(url)[i] != '#',
        before_query(url).len() <= url.len(),
        before_query(url) == url.subrange(0, before_query(url).len() as int),
        before_query(before_query(url)) == before_query(url),
    decreases url.len(),
{
    if url.len() > 0 && url[0] != '?' && url[0] != '#' {
        let r = before_query(url.drop_first());
        redaction_drops_query_and_fragment(url.drop_first());
        assert forall|i: int| 0 <= i < before_query(url).len() implies (#[trigger] before_query(
            url,
        )[i]) != '?' && before_query(url)[i] != '#' by {
            if i > 0 {
                assert(before_query(url)[i] == r[i - 1]);
            }
        }
        assert(url.subrange(0, before_query(url).len() as int) =~= seq![url[0]]
            + url.drop_first().subrange(0, r.len() as int));
        let b = before_query(url);
        assert(b.drop_first() == r);
        assert(b[0] == url[0]);
    }
}

proof fn lemma_trim_start_first(s: Seq<char>)
    ensures
        trim_start(s).len() <= s.len(),
        trim_start(s).len() > 0 ==> !is_ws(trim_start(s)[0]),
        trim_start(s) == s.subrange(s.len() - trim_start(s).len(), s.len() as int),
    decreases s.len(),
{
    if s.len() > 0 && is_ws(s[0]) {
        lemma_trim_start_first(s.drop_first());
        assert(s.drop_first().subrange(
            s.drop_first().len() - trim_start(s).len(),
            s.drop_first().len() as int,
        ) == s.subrange(s.len() - trim_start(s).len(), s.len() as int));
    } else {
        assert(s.subrange(0, s.len() as int) == s);
    }
}

proof fn lemma_trim_end_last(s: Seq<char>)
    ensures
        trim_end(s).len() <= s.len(),
        trim_end(s).len() > 0 ==> !is_ws(trim_end(s).last()),
        trim_end(s) == s.subrange(0, trim_end(s).len() as int),
    decreases s.len(),
{
    if s.len() > 0 && is_ws(s.last()) {
        lemma_trim_end_last(s.drop_last());
        assert(s.drop_last().subrange(0, trim_end(s).len() as int) == s.subrange(
            0,
            trim_end(s).len() as int,
        ));
    } else {
        assert(s.subrange(0, s.len() as int) == s);
    }
}

/// Trimmed text is its own trim.
pub proof fn lemma_trim_settled(s: Seq<char>)
    requires
        s.len() > 0,
        !is_ws(s[0]),
        !is_ws(s.last()),
    ensures
        trim(s) == s,
{
}

/// The ends of non-empty trimmed text are not whitespace.
proof fn lemma_trim_ends(s: Seq<char>)
    requires
        trim(s).len() > 0,
    ensures
        !is_ws(trim(s)[0]),
        !is_ws(trim(s).last()),
{
    lemma_trim_start_first(s);
    lemma_trim_end_last(trim_start(s));
    assert(trim(s)[0] == trim_start(s)[0]);
}

/// Normalising a header value twice changes nothing: a non-blank token
/// becomes a `Bearer` header value once and stays one.
pub proof fn bearer_normalization_is_idempotent(raw: Seq<char>)
    requires
        trim(raw).len() > 0,
    ensures
        bearer_header(bearer_header(raw)) == bearer_header(raw),
{
    let t = trim(raw);
    lemma_trim_ends(raw);
    lemma_trim_settled(t);
    reveal_strlit("Bearer ");
    reveal_strlit("bearer ");
    if !starts_with(lower_seq(t), "bearer "@) {
        let out = "Bearer "@ + t;
        assert(out[0] == 'B');
        assert(out.last() == t.last());
        lemma_trim_settled(out);
        assert(lower_seq(out).subrange(0, 7) =~= "bearer "@);
    }
}

/// The statement service is asked for the day the user named: for a
/// trimmed ISO `YYYY-MM-DD` text the request date is its month, a dash, its
/// day, a dash and its year, character for character whatever the digits
/// are; for a calendar date those fields read as the same month, day and
/// year. Anything not of that shape is refused.
pub proof fn request_date_is_month_day_year(iso: Seq<char>)
    ensures
        mmddyyyy(iso) is Some <==> iso_shaped(trim(iso)),
        iso_shaped(trim(iso)) ==> ({
            let t = trim(iso);
            let r = mmddyyyy(iso).unwrap();
            &&& r.len() == 10
            &&& r[0] == t[5] && r[1] == t[6]
            &&& r[2] == '-'
            &&& r[3] == t[8] && r[4] == t[9]
            &&& r[5] == '-'
            &&& r[6] == t[0] && r[7] == t[1] && r[8] == t[2] && r[9] == t[3]
        }),
        crate::dates::iso_ymd(trim(iso)) matches Some((y, m, d)) ==> (mmddyyyy(iso) matches Some(r)
            && crate::text::digits_value(r.subrange(0, 2)) == m && crate::text::digits_value(
            r.subrange(3, 5),
        ) == d && crate::text::digits_value(r.subrange(6, 10)) == y),
{
    let t = trim(iso);
    if iso_shaped(t) {
        let r = mmddyyyy(iso).unwrap();
        assert(r.subrange(0, 2) =~= t.subrange(5, 7));
        assert(r.subrange(3, 5) =~= t.subrange(8, 10));
        assert(r.subrange(6, 10) =~= t.subrange(0, 4));
    }
    if let Some((y, m, d)) = crate::dates::iso_ymd(t) {
        assert forall|i: int| 0 <= i < 10 && i != 4 && i != 7 implies is_digit(#[trigger] t[i]) by {
            if i < 4 {
                assert(t.subrange(0, 4)[i] == t[i]);
            } else if i < 7 {
                assert(t.subrange(5, 7)[i - 5] == t[i]);
            } else {
                assert(t.subrange(8, 10)[i - 8] == t[i]);
            }
        }
        assert(iso_shaped(t));
    }
}

/// How an account endpoint's status decides a failure: 401 and 403, and
/// only they, are expired or rejected sessions (exit 3), naming the status
/// and the path; 404 is not found (exit 4); any other status outside 2xx
/// is an upstream failure (exit 5); a 2xx answer is never one of these.
pub proof fn rejected_sessions_are_auth_failures(
    status: u16,
    text: Seq<char>,
    path: Seq<char>,
    body: Option<JsonV>,
    hint_body: Option<JsonV>,
)
    ensures
        (status == 401 || status == 403) ==> response_outcome(status, text, path, body, hint_body)
            == Err::<JsonV, (i32, Seq<char>)>(
            (3, "Xfinity returned "@ + decimal(status as nat) + " for "@ + path + REJECTED_TAIL@),
        ),
        (response_outcome(status, text, path, body, hint_body) matches Err(e) && e.0 == 3) <==> (
        status == 401 || status == 403),
        status == 404 ==> response_outcome(status, text, path, body, hint_body) == Err::<
            JsonV,
            (i32, Seq<char>),
        >((4, path + " (HTTP 404)"@)),
        (!(200 <= status <= 299) && status != 401 && status != 403 && status != 404) ==> (
        response_outcome(status, text, path, body, hint_body) matches Err(e) && e.0 == 5),
        (200 <= status <= 299) ==> !(response_outcome(status, text, path, body, hint_body) matches Err(
            e,
        ) && e.0 != 1),
{
}

} // verus!
