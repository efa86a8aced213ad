//! The checks and answers of the HTTP API that do not depend on the
//! transport: request validation and the errors it reports.

use vstd::prelude::*;
use crate::ingest::IngestError;
use chrono::Datelike;
use crate::model::{CalendarDate, CodingEvent, VoiceExampleRequest};
use crate::text::{str_eq, trim, trim_str, utf8_len, utf8_len_exceeds};

verus! {

/// An error answer of the API.
#[derive(Debug, Clone, PartialEq)]
pub enum ApiError {
    BadRequest(String),
    NotFound(String),
    Internal(String),
}

/// The text of an error answer.
pub open spec fn api_error_text(e: ApiError) -> Seq<char> {
    match e {
        ApiError::BadRequest(m) => m@,
        ApiError::NotFound(m) => m@,
        ApiError::Internal(m) => m@,
    }
}

impl ApiError {
    /// The HTTP status of the answer: 400, 404 or 500.
    pub fn status_code(&self) -> (r: u16)
        ensures
            r == match *self {
                ApiError::BadRequest(_) => 400u16,
                ApiError::NotFound(_) => 404u16,
                ApiError::Internal(_) => 500u16,
            },
    {
        match self {
            ApiError::BadRequest(_) => 400,
            ApiError::NotFound(_) => 404,
            ApiError::Internal(_) => 500,
        }
    }

    /// The text of the answer.
    pub fn message(&self) -> (r: &str)
        ensures
            r@ == api_error_text(*self),
    {
        match self {
            ApiError::BadRequest(m) => m.as_str(),
            ApiError::NotFound(m) => m.as_str(),
            ApiError::Internal(m) => m.as_str(),
        }
    }
}

/// An event is taken in only with a session id and an event type that are
/// not blank; the session id is checked first.
pub fn check_event_request(event: &CodingEvent) -> (r: Result<(), ApiError>)
    ensures
        trim(event.session_id@).len() == 0 ==> (r matches Err(ApiError::BadRequest(m)) && m@
            == "session_id e obrigatorio"@),
        trim(event.session_id@).len() > 0 && trim(event.event_type@).len() == 0 ==> (r matches Err(
            ApiError::BadRequest(m),
        ) && m@ == "event_type e obrigatorio"@),
        trim(event.session_id@).len() > 0 && trim(event.event_type@).len() > 0 ==> r is Ok,
{
    if trim_str(event.session_id.as_str()).as_str().is_empty() {
        return Err(ApiError::BadRequest(String::from_str("session_id e obrigatorio")));
    }
    if trim_str(event.event_type.as_str()).as_str().is_empty() {
        return Err(ApiError::BadRequest(String::from_str("event_type e obrigatorio")));
    }
    Ok(())
}

impl IngestError {
    /// The message reported when an event is refused.
    pub fn message(&self) -> (r: String)
        ensures
            r@ == match *self {
                IngestError::UnsupportedEventType(t) => "event_type nao suportado: "@ + t@,
                IngestError::MissingSessionId => "session_id e obrigatorio"@,
            },
    {
        match self {
            IngestError::UnsupportedEventType(t) => {
                let mut r = String::from_str("event_type nao suportado: ");
                r.append(t.as_str());
                r
            },
            IngestError::MissingSessionId => String::from_str("session_id e obrigatorio"),
        }
    }
}

/// A refused event is answered with 400 and the reason.
pub fn refused_event(e: IngestError) -> (r: ApiError)
    ensures
        r matches ApiError::BadRequest(m) && m@ == match e {
            IngestError::UnsupportedEventType(t) => "event_type nao suportado: "@ + t@,
            IngestError::MissingSessionId => "session_id e obrigatorio"@,
        },
{
    ApiError::BadRequest(e.message())
}

/// A voice example is kept only when its trimmed text is at least 20 bytes
/// long.
pub fn check_voice_example(request: &VoiceExampleRequest) -> (r: Result<(), ApiError>)
    ensures
        utf8_len(trim(request.text@)) < 20 ==> (r matches Err(ApiError::BadRequest(m)) && m@
            == "exemplo de voz deve ter pelo menos 20 caracteres"@),
        utf8_len(trim(request.text@)) >= 20 ==> r is Ok,
{
    let t = trim_str(request.text.as_str());
    if !utf8_len_exceeds(t.as_str(), 19) {
        return Err(
            ApiError::BadRequest(String::from_str("exemplo de voz deve ter pelo menos 20 caracteres")),
        );
    }
    Ok(())
}

/// The date `NaiveDate::parse_from_str` reads from a text in the format
/// `%Y-%m-%d`, if it accepts it.
pub uninterp spec fn ymd_date(text: Seq<char>) -> Option<CalendarDate>;

/// `NaiveDate::parse_from_str(text, "%Y-%m-%d")`, its error dropped, the
/// date given by its year, month and day. The contract names the result;
/// chrono's parsing rules are not restated.
#[verifier::external_body]
fn parse_ymd(text: &str) -> (r: Option<CalendarDate>)
    ensures
        r == ymd_date(text@),
{
    match chrono::NaiveDate::parse_from_str(text, "%Y-%m-%d") {
        Ok(d) => Some(CalendarDate { year: d.year(), month: d.month(), day: d.day() }),
        Err(_) => None,
    }
}

/// A date that was read, or the 400 answer for a text that is not a
/// `YYYY-MM-DD` date.
pub fn date_or_bad_request(parsed: Option<CalendarDate>) -> (r: Result<CalendarDate, ApiError>)
    ensures
        match parsed {
            Some(d) => r == Ok::<CalendarDate, ApiError>(d),
            None => r matches Err(ApiError::BadRequest(m)) && m@
                == "data deve estar no formato YYYY-MM-DD"@,
        },
{
    match parsed {
        Some(d) => Ok(d),
        None => Err(ApiError::BadRequest(String::from_str("data deve estar no formato YYYY-MM-DD"))),
    }
}

/// The date of a summary request: a `YYYY-MM-DD` date, or a 400 answer.
pub fn parse_session_date(text: &str) -> (r: Result<CalendarDate, ApiError>)
    ensures
        match ymd_date(text@) {
            Some(d) => r == Ok::<CalendarDate, ApiError>(d),
            None => r matches Err(ApiError::BadRequest(m)) && m@
                == "data deve estar no formato YYYY-MM-DD"@,
        },
{
    date_or_bad_request(parse_ymd(text))
}

/// Only a draft whose status is `approved` is published; any other is
/// answered with 400.
pub fn check_publishable(status: &str) -> (r: Result<(), ApiError>)
    ensures
        status@ == "approved"@ ==> r is Ok,
        status@ != "approved"@ ==> (r matches Err(ApiError::BadRequest(m)) && m@
            == "apenas rascunhos aprovados podem ser publicados"@),
{
    if str_eq(status, "approved") {
        Ok(())
    } else {
        Err(ApiError::BadRequest(String::from_str("apenas rascunhos aprovados podem ser publicados")))
    }
}

/// A draft that was found, or a 404 answer.
pub fn draft_or_not_found<T>(draft: Option<T>) -> (r: Result<T, ApiError>)
    ensures
        match draft {
            Some(d) => r == Ok::<T, ApiError>(d),
            None => r matches Err(ApiError::NotFound(m)) && m@ == "rascunho nao encontrado"@,
        },
{
    match draft {
        Some(d) => Ok(d),
        None => Err(ApiError::NotFound(String::from_str("rascunho nao encontrado"))),
    }
}

} // verus!
