//! The public envelope: the stable fields that wrap every payload, and the
//! reply that is made of a status and a document.

use crate::json::{enveloped, merge_json, pretty_text, Json, JsonModel, JsonObject};
use crate::text::text_of;
use vstd::prelude::*;
use vstd::string::*;

verus! {

/// The one error of the envelope builder: a status that is none, or a
/// document that cannot be written.
#[derive(Debug, Clone, Copy, PartialEq, Eq, Structural)]
pub struct InternalServerError {}

/// The notices that every envelope carries.
#[derive(Debug, Clone, PartialEq, Eq)]
pub struct Notice {
    /// The notice on the API.
    pub api: String,
    /// The notice on the data.
    pub data: String,
    /// The notice on the migration.
    pub migration: String,
}

/// What the edge supplies to every envelope: the notices of the service and
/// the current time as text.
#[derive(Debug, Clone, PartialEq, Eq)]
pub struct Stamp {
    /// The notices of the service.
    pub notice: Notice,
    /// The current time.
    pub date: String,
}

/// What is sent to a public client.
#[derive(Debug, Clone, PartialEq, Eq)]
pub struct Reply {
    /// The HTTP status.
    pub status: u16,
    /// The value of `Content-Type`.
    pub content_type: String,
    /// The value of `Cache-Control`.
    pub cache_control: String,
    /// The body: a JSON document as indented text.
    pub body: String,
}

/// The reason phrase that `http::StatusCode::canonical_reason` gives for the
/// status with the number `code`; `None` where `code` is no status, or the
/// status has no phrase.
pub uninterp spec fn canonical_reason(code: u16) -> Option<Seq<char>>;

/// Whether `code` is an HTTP status.
///
/// Trusted: `http::StatusCode::from_u16` accepts the numbers from 100 to 999
/// and no others.
#[verifier::external_body]
fn status_is_valid(code: u16) -> (valid: bool)
    ensures
        valid == (100 <= code <= 999),
{
    http::StatusCode::from_u16(code).is_ok()
}

/// The reason phrase of the status with the number `code`.
///
/// Trusted: `http::StatusCode::canonical_reason`, applied to the status that
/// `http::StatusCode::from_u16` makes of `code`, with the phrase handed back
/// as a `String`. The contract gives the result the name `canonical_reason`.
#[verifier::external_body]
fn reason_phrase(code: u16) -> (phrase: Option<String>)
    ensures
        text_of(phrase) == canonical_reason(code),
{
    http::StatusCode::from_u16(code).ok().and_then(|status| status.canonical_reason()).map(
        String::from,
    )
}

/// The character of a decimal digit.
pub open spec fn digit_of(digit: int) -> char {
    if digit == 0 {
        '0'
    } else if digit == 1 {
        '1'
    } else if digit == 2 {
        '2'
    } else if digit == 3 {
        '3'
    } else if digit == 4 {
        '4'
    } else if digit == 5 {
        '5'
    } else if digit == 6 {
        '6'
    } else if digit == 7 {
        '7'
    } else if digit == 8 {
        '8'
    } else {
        '9'
    }
}

/// The three digits of a status.
pub open spec fn digits_of(code: u16) -> Seq<char> {
    seq![digit_of(code as int / 100), digit_of(code as int / 10 % 10), digit_of(code as int % 10)]
}

/// The status line: the number, a space, and the reason phrase, or `Unknown`
/// where the status has none.
pub open spec fn status_line_of(code: u16) -> Seq<char> {
    digits_of(code) + seq![' '] + match canonical_reason(code) {
        Some(phrase) => phrase,
        None => "Unknown"@,
    }
}

/// The notices as a document.
pub open spec fn notice_of(notice: Notice) -> JsonModel {
    JsonModel::Object(
        Map::empty().insert("api"@, JsonModel::Text(notice.api@)).insert(
            "data"@,
            JsonModel::Text(notice.data@),
        ).insert("migration"@, JsonModel::Text(notice.migration@)),
    )
}

/// The stable fields of an envelope: the notices, the status line and the
/// date.
pub open spec fn stable_of(code: u16, notice: Notice, date: Seq<char>) -> JsonModel {
    JsonModel::Object(
        Map::empty().insert("notice"@, notice_of(notice)).insert(
            "status"@,
            JsonModel::Text(status_line_of(code)),
        ).insert("date"@, JsonModel::Text(date)),
    )
}

/// The document that a reply carries: the body in the envelope where a stamp
/// is given, and the body as it is where none is.
pub open spec fn document_of(code: u16, body: JsonModel, stamp: Option<Stamp>) -> JsonModel {
    match stamp {
        Some(stamp) => enveloped(stable_of(code, stamp.notice, stamp.date@), body),
        None => body,
    }
}

/// The value of `Cache-Control`.
pub open spec fn cache_control_of(is_cached: bool) -> Seq<char> {
    if is_cached {
        "public, max-age=3600"@
    } else {
        "no-cache"@
    }
}

/// The text of one decimal digit.
fn digit_text(digit: u16) -> (text: &'static str)
    requires
        digit < 10,
    ensures
        text@ == seq![digit_of(digit as int)],
{
    proof {
        reveal_strlit("0");
        reveal_strlit("1");
        reveal_strlit("2");
        reveal_strlit("3");
        reveal_strlit("4");
        reveal_strlit("5");
        reveal_strlit("6");
        reveal_strlit("7");
        reveal_strlit("8");
        reveal_strlit("9");
    }
    let text = if digit == 0 {
        "0"
    } else if digit == 1 {
        "1"
    } else if digit == 2 {
        "2"
    } else if digit == 3 {
        "3"
    } else if digit == 4 {
        "4"
    } else if digit == 5 {
        "5"
    } else if digit == 6 {
        "6"
    } else if digit == 7 {
        "7"
    } else if digit == 8 {
        "8"
    } else {
        "9"
    };
    proof {
        assert(text@ =~= seq![digit_of(digit as int)]);
    }
    text
}

/// The status line of a status: `404 Not Found`.
pub fn status_line(code: u16) -> (line: String)
    requires
        100 <= code <= 999,
    ensures
        line@ == status_line_of(code),
{
    proof {
        reveal_strlit(" ");
    }
    let line = String::from_str(digit_text(code / 100)).concat(digit_text(code / 10 % 10)).concat(
        digit_text(code % 10),
    ).concat(" ");
    let line = match reason_phrase(code) {
        Some(phrase) => line.concat(phrase.as_str()),
        None => line.concat("Unknown"),
    };
    proof {
        assert(line@ =~= status_line_of(code));
    }
    line
}

/// The notices as a JSON object.
pub fn api_notice(notice: &Notice) -> (document: Json)
    ensures
        document@ == notice_of(*notice),
{
    Json::Object(
        JsonObject::new().with("api", Json::Text(notice.api.clone())).with(
            "data",
            Json::Text(notice.data.clone()),
        ).with("migration", Json::Text(notice.migration.clone())),
    )
}

/// The stable fields for a reply with the status `code` at the time `date`.
pub fn stable_fields(code: u16, notice: &Notice, date: &str) -> (document: Json)
    requires
        100 <= code <= 999,
    ensures
        document@ == stable_of(code, *notice, date@),
{
    Json::Object(
        JsonObject::new().with("notice", api_notice(notice)).with(
            "status",
            Json::Text(status_line(code)),
        ).with("date", Json::text(date)),
    )
}

/// The value of `Cache-Control` for a reply.
pub fn cache_control(is_cached: bool) -> (value: String)
    ensures
        value@ == cache_control_of(is_cached),
{
    if is_cached {
        String::from_str("public, max-age=3600")
    } else {
        String::from_str("no-cache")
    }
}

/// Makes the reply with the status `status_code` and the document `body`,
/// wrapped in the envelope where a stamp is given. It fails where
/// `status_code` is no HTTP status (100 to 999), and where the document
/// cannot be written.
fn respond(status_code: u16, body: Json, stamp: Option<&Stamp>, is_cached: bool) -> (result: Result<
    Reply,
    InternalServerError,
>)
    ensures
        match result {
            Ok(reply) => {
                &&& 100 <= status_code <= 999
                &&& reply.status == status_code
                &&& reply.content_type@ == "application/json"@
                &&& reply.cache_control@ == cache_control_of(is_cached)
                &&& Some(reply.body@) == pretty_text(
                    document_of(
                        status_code,
                        body@,
                        match stamp {
                            Some(stamp) => Some(*stamp),
                            None => None,
                        },
                    ),
                )
            },
            Err(_) => !(100 <= status_code <= 999) || pretty_text(
                document_of(
                    status_code,
                    body@,
                    match stamp {
                        Some(stamp) => Some(*stamp),
                        None => None,
                    },
                ),
            ).is_none(),
        },
{
    if !status_is_valid(status_code) {
        return Err(InternalServerError {  });
    }
    let document = match stamp {
        Some(stamp) => merge_json(
            stable_fields(status_code, &stamp.notice, stamp.date.as_str()),
            body,
        ),
        None => body,
    };
    match document.render() {
        Some(text) => Ok(
            Reply {
                status: status_code,
                content_type: String::from_str("application/json"),
                cache_control: cache_control(is_cached),
                body: text,
            },
        ),
        None => Err(InternalServerError {  }),
    }
}

/// The reply with the status `status_code` and the document `body` as it is,
/// not to be cached. It fails where `status_code` is no HTTP status (100 to
/// 999), and where the document cannot be written.
pub fn http_respond(status_code: u16, body: Json) -> (result: Result<Reply, InternalServerError>)
    ensures
        match result {
            Ok(reply) => {
                &&& 100 <= status_code <= 999
                &&& reply.status == status_code
                &&& reply.content_type@ == "application/json"@
                &&& reply.cache_control@ == cache_control_of(false)
                &&& Some(reply.body@) == pretty_text(body@)
            },
            Err(_) => !(100 <= status_code <= 999) || pretty_text(body@).is_none(),
        },
{
    respond(status_code, body, None, false)
}

/// The reply with the status `status_code` and the document `body` in the
/// envelope: the notices, the status line and the date stand beside what
/// `body` holds. It fails where `status_code` is no HTTP status (100 to
/// 999), and where the document cannot be written.
pub fn api_respond(status_code: u16, is_cached: bool, body: Json, stamp: &Stamp) -> (result: Result<
    Reply,
    InternalServerError,
>)
    ensures
        match result {
            Ok(reply) => {
                &&& 100 <= status_code <= 999
                &&& reply.status == status_code
                &&& reply.content_type@ == "application/json"@
                &&& reply.cache_control@ == cache_control_of(is_cached)
                &&& Some(reply.body@) == pretty_text(
                    enveloped(stable_of(status_code, stamp.notice, stamp.date@), body@),
                )
            },
            Err(_) => !(100 <= status_code <= 999) || pretty_text(
                enveloped(stable_of(status_code, stamp.notice, stamp.date@), body@),
            ).is_none(),
        },
{
    respond(status_code, body, Some(stamp), is_cached)
}

/// The document of an error: `message` under the key `error`.
pub open spec fn error_of(message: Seq<char>) -> JsonModel {
    JsonModel::Object(Map::empty().insert("error"@, JsonModel::Text(message)))
}

/// The reply with the status `status_code` and `message` as the error, in
/// the envelope and not to be cached. It fails where `status_code` is no HTTP
/// status (100 to 999), and where the document cannot be written.
pub fn error_respond(status_code: u16, message: &str, stamp: &Stamp) -> (result: Result<
    Reply,
    InternalServerError,
>)
    ensures
        match result {
            Ok(reply) => {
                &&& 100 <= status_code <= 999
                &&& reply.status == status_code
                &&& reply.content_type@ == "application/json"@
                &&& reply.cache_control@ == cache_control_of(false)
                &&& Some(reply.body@) == pretty_text(
                    enveloped(
                        stable_of(status_code, stamp.notice, stamp.date@),
                        error_of(message@),
                    ),
                )
            },
            Err(_) => !(100 <= status_code <= 999) || pretty_text(
                enveloped(stable_of(status_code, stamp.notice, stamp.date@), error_of(message@)),
            ).is_none(),
        },
{
    api_respond(
        status_code,
        false,
        Json::Object(JsonObject::new().with("error", Json::text(message))),
        stamp,
    )
}

impl InternalServerError {
    /// The status of the error: 500.
    pub fn status_code(&self) -> (status: u16)
        ensures
            status == 500,
    {
        500
    }

    /// The error in words.
    pub fn to_string(&self) -> (words: String)
        ensures
            words@ == "Internal Server Error"@,
    {
        String::from_str("Internal Server Error")
    }

    /// The document that is sent for the error: the reason phrase of the
    /// status, or `Unknown`, and the date.
    pub fn error_response(&self, date: &str) -> (document: Json)
        ensures
            document@ == JsonModel::Object(
                Map::empty().insert(
                    "message"@,
                    JsonModel::Text(
                        match canonical_reason(500) {
                            Some(phrase) => phrase,
                            None => "Unknown"@,
                        },
                    ),
                ).insert("date"@, JsonModel::Text(date@)),
            ),
    {
        let reason = match reason_phrase(self.status_code()) {
            Some(phrase) => phrase,
            None => String::from_str("Unknown"),
        };
        Json::Object(
            JsonObject::new().with("message", Json::Text(reason)).with("date", Json::text(date)),
        )
    }
}

} // verus!
