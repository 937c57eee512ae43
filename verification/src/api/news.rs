//! Checks on the answer to a news detail request, and the error messages
//! that come of them.
use vstd::prelude::*;

use crate::text::{decimal, push_decimal};

verus! {

/// `s`, or its first `max_chars` characters followed by `…(total N chars)`.
pub open spec fn truncated_for_error(s: Seq<char>, max_chars: nat) -> Seq<char> {
    if s.len() <= max_chars {
        s
    } else {
        s.take(max_chars as int) + "…(total "@ + decimal(s.len()) + " chars)"@
    }
}

/// Shortens a response body for an error message: at most `max_chars`
/// characters, with the total count after a cut.
pub fn truncate_for_error(s: &str, max_chars: usize) -> (r: String)
    ensures
        r@ == truncated_for_error(s@, max_chars as nat),
{
    let total = s.unicode_len();
    if total <= max_chars {
        String::from_str(s)
    } else {
        let head = s.substring_char(0, max_chars);
        let mut r = String::from_str(head);
        r.append("…(total ");
        push_decimal(&mut r, total as u64);
        r.append(" chars)");
        r
    }
}

/// The number at key `key` of the JSON object `text`, when `text` is JSON,
/// the key is there and its value is a non-negative integer that fits in 64
/// bits (`serde_json::Value::get` then `as_u64`).
pub uninterp spec fn json_field_u64(text: Seq<char>, key: Seq<char>) -> Option<u64>;

/// Whether `text` is JSON whose value at key `key` is `null`
/// (`serde_json::Value::get` then `is_null`).
pub uninterp spec fn json_field_null(text: Seq<char>, key: Seq<char>) -> bool;

/// `serde_json::from_str::<Value>`, then the `u64` at `key`.
#[verifier::external_body]
fn json_u64_at(text: &str, key: &str) -> (r: Option<u64>)
    ensures
        r == json_field_u64(text@, key@),
{
    match serde_json::from_str::<serde_json::Value>(text) {
        Ok(v) => match v.get(key) {
            Some(x) => x.as_u64(),
            None => None,
        },
        Err(_) => None,
    }
}

/// `serde_json::from_str::<Value>`, then whether the value at `key` is `null`.
#[verifier::external_body]
fn json_null_at(text: &str, key: &str) -> (r: bool)
    ensures
        r == json_field_null(text@, key@),
{
    match serde_json::from_str::<serde_json::Value>(text) {
        Ok(v) => match v.get(key) {
            Some(x) => x.is_null(),
            None => false,
        },
        Err(_) => false,
    }
}

/// Why a news detail could not be had.
#[derive(Debug)]
pub enum DetailFetchError {
    /// The server answered with a status outside 200..=299.
    Http { id: u64, code: u16, body_preview: String },
    /// The server answered with the empty shell it gives for an unknown id.
    NotFound { id: u64 },
    /// The body is not a news detail.
    Parse { id: u64, code: u16, error: String, body_preview: String },
}

/// The message of each detail error.
pub open spec fn detail_error_text(e: DetailFetchError) -> Seq<char> {
    match e {
        DetailFetchError::Http { id, code, body_preview } => "获取新闻详情失败 (id="@ + decimal(
            id as nat,
        ) + ", HTTP "@ + decimal(code as nat) + "): "@ + body_preview@,
        DetailFetchError::NotFound { id } => "新闻不存在 (id="@ + decimal(id as nat) + ")"@,
        DetailFetchError::Parse { id, code, error, body_preview } => "解析新闻详情失败 (id="@
            + decimal(id as nat) + ", HTTP "@ + decimal(code as nat) + "): "@ + error@
            + "; body preview: "@ + body_preview@,
    }
}

impl DetailFetchError {
    /// The message shown for this error.
    pub fn message(&self) -> (r: String)
        ensures
            r@ == detail_error_text(*self),
    {
        match self {
            DetailFetchError::Http { id, code, body_preview } => {
                let mut r = String::from_str("获取新闻详情失败 (id=");
                push_decimal(&mut r, *id);
                r.append(", HTTP ");
                push_decimal(&mut r, *code as u64);
                r.append("): ");
                r.append(body_preview.as_str());
                r
            },
            DetailFetchError::NotFound { id } => {
                let mut r = String::from_str("新闻不存在 (id=");
                push_decimal(&mut r, *id);
                r.append(")");
                r
            },
            DetailFetchError::Parse { id, code, error, body_preview } => {
                let mut r = String::from_str("解析新闻详情失败 (id=");
                push_decimal(&mut r, *id);
                r.append(", HTTP ");
                push_decimal(&mut r, *code as u64);
                r.append("): ");
                r.append(error.as_str());
                r.append("; body preview: ");
                r.append(body_preview.as_str());
                r
            },
        }
    }
}

/// The body is the shell the server sends for an unknown news id:
/// `NewsId` is 0 and `Title` is null.
pub open spec fn is_missing_news_shell(body: Seq<char>) -> bool {
    json_field_u64(body, "NewsId"@) == Some(0u64) && json_field_null(body, "Title"@)
}

/// Checks the answer to a detail request before it is read as a detail: a
/// status outside 200..=299 is an error carrying the start of the body; the
/// empty shell of an unknown id is "not found".
pub fn check_detail_response(id: u64, status: u16, body: &str) -> (r: Result<(), DetailFetchError>)
    ensures
        !(200 <= status <= 299) ==> match r {
            Err(DetailFetchError::Http { id: i, code, body_preview }) => i == id && code == status
                && body_preview@ == truncated_for_error(body@, 200),
            _ => false,
        },
        200 <= status <= 299 && is_missing_news_shell(body@) ==> match r {
            Err(DetailFetchError::NotFound { id: i }) => i == id,
            _ => false,
        },
        200 <= status <= 299 && !is_missing_news_shell(body@) ==> r is Ok,
{
    if !(200 <= status && status <= 299) {
        return Err(
            DetailFetchError::Http { id, code: status, body_preview: truncate_for_error(body, 200) },
        );
    }
    let zero_id = json_u64_at(body, "NewsId") == Some(0u64);
    let null_title = json_null_at(body, "Title");
    if zero_id && null_title {
        return Err(DetailFetchError::NotFound { id });
    }
    Ok(())
}

/// The error for a body that could not be read as a detail: the reader's
/// message and the start of the body.
pub fn parse_failure(id: u64, status: u16, error: String, body: &str) -> (r: DetailFetchError)
    ensures
        match r {
            DetailFetchError::Parse { id: i, code, error: e, body_preview } => i == id && code
                == status && e == error && body_preview@ == truncated_for_error(body@, 200),
            _ => false,
        },
{
    DetailFetchError::Parse { id, code: status, error, body_preview: truncate_for_error(body, 200) }
}

} // verus!
