//! Parsing of one raw message into a normalized summary.
//!
//! The MIME parsing itself is delegated to the `mail_parser` crate behind
//! trusted wrappers; everything the summary says about the reported fields
//! (placeholders, sender formatting, body fallback, preview truncation) is
//! verified here.

use std::borrow::Cow;

use mail_parser::{Address, MessageParser};
use vstd::prelude::*;

verus! {

// ----- plain-value models of what the logic reads -----

/// A parsed date header, as plain calendar fields.
#[derive(Clone, Copy, PartialEq, Eq, Structural, Debug)]
pub struct MailDate {
    pub year: u16,
    pub month: u8,
    pub day: u8,
    pub hour: u8,
    pub minute: u8,
    pub second: u8,
    pub tz_before_gmt: bool,
    pub tz_hour: u8,
    pub tz_minute: u8,
}

/// The first address of the From header: display name and address, each
/// possibly absent.
pub struct SenderParts {
    pub name: Option<String>,
    pub address: Option<String>,
}

/// What the MIME parser reported of one message, as plain values.
pub struct MessageFields {
    pub subject: Option<String>,
    pub sender: Option<SenderParts>,
    pub date: Option<MailDate>,
    pub body_text: Option<String>,
    pub body_html: Option<String>,
}

/// How parsing one fetched record can fail. Such a failure is recovered per
/// message: the record is skipped, never represented by a placeholder.
#[derive(Debug)]
pub enum ParseError {
    /// The fetched record carried no raw content.
    EmptyBody,
    /// The MIME parser could not interpret the bytes at all.
    UnparsableMessage,
}

/// A normalized summary of one successfully parsed message.
#[derive(Debug)]
pub struct ParsedEmail {
    pub subject: String,
    pub from: String,
    pub date: String,
    pub body: String,
}

// ----- trusted wrappers around the MIME parser -----

/// What the MIME parser reports for given raw bytes: `None` when it cannot
/// interpret them at all, otherwise the standard fields read out of the
/// parsed message. A function of the bytes alone.
pub uninterp spec fn fields_of(raw: Seq<u8>) -> Option<MessageFields>;

/// Relies on `mail_parser::MessageParser::parse`, which returns `None`
/// exactly when no message headers are found in the bytes, and, on the
/// parsed message, on `Message::subject`, `Message::from`,
/// `Address::first`, `Addr::name`, `Addr::address`, `Message::date`,
/// `Message::body_text` and `Message::body_html`: the reported fields are
/// moved out one for one, and depend on the raw bytes alone.
#[verifier::external_body]
fn parse_fields(raw: &[u8]) -> (r: Option<MessageFields>)
    ensures
        r == fields_of(raw@),
{
    let m = MessageParser::new().parse(raw)?;
    Some(MessageFields {
        subject: m.subject().map(str::to_owned),
        sender: m.from().and_then(Address::first).map(|a| SenderParts {
            name: a.name().map(str::to_owned),
            address: a.address().map(str::to_owned),
        }),
        date: m.date().map(|d| MailDate {
            year: d.year, month: d.month, day: d.day, hour: d.hour, minute: d.minute,
            second: d.second, tz_before_gmt: d.tz_before_gmt, tz_hour: d.tz_hour, tz_minute: d.tz_minute,
        }),
        body_text: m.body_text(0).map(Cow::into_owned),
        body_html: m.body_html(0).map(Cow::into_owned),
    })
}

/// The RFC822 text of a date: what `mail_parser::DateTime::to_rfc822`
/// returns, a function of the calendar fields alone.
pub uninterp spec fn rfc822_of(
    year: u16,
    month: u8,
    day: u8,
    hour: u8,
    minute: u8,
    second: u8,
    tz_before_gmt: bool,
    tz_hour: u8,
    tz_minute: u8,
) -> Seq<char>;

/// Relies on `mail_parser::DateTime::to_rfc822`: the fixed calendar-header
/// rendering of a date, depending on the calendar fields alone.
#[verifier::external_body]
fn date_rfc822(d: &MailDate) -> (r: String)
    ensures
        r@ == rfc822_of(
            d.year,
            d.month,
            d.day,
            d.hour,
            d.minute,
            d.second,
            d.tz_before_gmt,
            d.tz_hour,
            d.tz_minute,
        ),
{
    mail_parser::DateTime {
        year: d.year,
        month: d.month,
        day: d.day,
        hour: d.hour,
        minute: d.minute,
        second: d.second,
        tz_before_gmt: d.tz_before_gmt,
        tz_hour: d.tz_hour,
        tz_minute: d.tz_minute,
    }
    .to_rfc822()
}

// ----- the verified normalization -----

/// The text of an optional part, with the empty text for an absent part.
pub open spec fn opt_text(o: Option<String>) -> Seq<char> {
    match o {
        Option::Some(s) => s@,
        Option::None => Seq::empty(),
    }
}

/// The summary's subject line: the parsed subject, or its placeholder.
pub open spec fn subject_text(f: MessageFields) -> Seq<char> {
    match f.subject {
        Option::Some(s) => s@,
        Option::None => "(no subject)"@,
    }
}

/// The summary's sender line: display name and address as
/// `name <address>`, each empty when missing, or the placeholder when no
/// sender is present at all.
pub open spec fn sender_text(f: MessageFields) -> Seq<char> {
    match f.sender {
        Option::Some(p) => opt_text(p.name) + " <"@ + opt_text(p.address) + ">"@,
        Option::None => "(unknown sender)"@,
    }
}

/// The summary's date line: the RFC822 rendering of the parsed date, or its
/// placeholder.
pub open spec fn date_text(f: MessageFields) -> Seq<char> {
    match f.date {
        Option::Some(d) => rfc822_of(
            d.year,
            d.month,
            d.day,
            d.hour,
            d.minute,
            d.second,
            d.tz_before_gmt,
            d.tz_hour,
            d.tz_minute,
        ),
        Option::None => "(unknown date)"@,
    }
}

/// The summary's body: the first plain-text part if present, else the first
/// HTML part behind its marker, else the placeholder.
pub open spec fn body_text_of(f: MessageFields) -> Seq<char> {
    match f.body_text {
        Option::Some(t) => t@,
        Option::None => match f.body_html {
            Option::Some(h) => "[HTML content] "@ + h@,
            Option::None => "(no content)"@,
        },
    }
}

/// Bound, in characters (Unicode scalar units), of the body preview in the
/// display rendering.
pub const PREVIEW_LIMIT: usize = 200;

/// The preview of a body: the first `PREVIEW_LIMIT` characters followed by
/// an ellipsis marker when the body is longer, the whole body otherwise.
pub open spec fn preview_text(b: Seq<char>) -> Seq<char> {
    if b.len() > PREVIEW_LIMIT {
        b.subrange(0, PREVIEW_LIMIT as int) + "..."@
    } else {
        b
    }
}

/// The four-line human-readable rendering of a summary, with the bounded
/// body preview on the last line.
pub open spec fn render_text(e: ParsedEmail) -> Seq<char> {
    "Subject: "@ + e.subject@ + "\nFrom: "@ + e.from@ + "\nDate: "@ + e.date@ + "\nPreview: "@
        + preview_text(e.body@)
}

/// The display preview of a body: truncation happens only here, the stored
/// body stays whole.
pub fn preview(body: &String) -> (r: String)
    ensures
        r@ == preview_text(body@),
{
    let n = body.as_str().unicode_len();
    if n > PREVIEW_LIMIT {
        let head = body.as_str().substring_char(0, PREVIEW_LIMIT);
        let mut s = head.to_owned();
        s.append("...");
        s
    } else {
        body.clone()
    }
}

/// `e` is the normalized summary of the reported fields `f`: every line of
/// it equals the documented placeholder-and-format rule for `f`.
pub open spec fn is_summary_of(e: ParsedEmail, f: MessageFields) -> bool {
    &&& e.subject@ == subject_text(f)
    &&& e.from@ == sender_text(f)
    &&& e.date@ == date_text(f)
    &&& e.body@ == body_text_of(f)
}

impl ParsedEmail {
    /// Build the summary of one message from the fields the MIME parser
    /// reported, applying the documented placeholders and formats.
    pub fn from_fields(f: MessageFields) -> (r: ParsedEmail)
        ensures
            is_summary_of(r, f),
    {
        let subject = match f.subject {
            Option::Some(s) => s,
            Option::None => "(no subject)".to_owned(),
        };
        let from = match f.sender {
            Option::Some(p) => {
                let mut s = match p.name {
                    Option::Some(n) => n,
                    Option::None => String::new(),
                };
                s.append(" <");
                match p.address {
                    Option::Some(a) => s.append(a.as_str()),
                    Option::None => (),
                }
                s.append(">");
                proof {
                    assert(s@ =~= sender_text(f));
                }
                s
            },
            Option::None => "(unknown sender)".to_owned(),
        };
        let date = match f.date {
            Option::Some(d) => date_rfc822(&d),
            Option::None => "(unknown date)".to_owned(),
        };
        let body = match f.body_text {
            Option::Some(t) => t,
            Option::None => match f.body_html {
                Option::Some(h) => {
                    let mut s = "[HTML content] ".to_owned();
                    s.append(h.as_str());
                    s
                },
                Option::None => "(no content)".to_owned(),
            },
        };
        ParsedEmail { subject, from, date, body }
    }

    /// Parse one fetched record into a summary.
    ///
    /// Absent content is rejected as `EmptyBody`; present content the MIME
    /// parser reports nothing for is rejected as `UnparsableMessage`, and
    /// only that; for content the parser reports fields for, the result is
    /// `Ok` and the summary is the normalization of exactly those fields.
    pub fn parse(raw: Option<&[u8]>) -> (r: Result<ParsedEmail, ParseError>)
        ensures
            raw is None <==> r == Result::<ParsedEmail, ParseError>::Err(ParseError::EmptyBody),
            raw matches Option::Some(b) ==> ((fields_of(b@) is None) <==> r == Result::<
                ParsedEmail,
                ParseError,
            >::Err(ParseError::UnparsableMessage)),
            raw matches Option::Some(b) ==> (fields_of(b@) matches Option::Some(f) ==> (
            r matches Result::Ok(e) && is_summary_of(e, f))),
    {
        let bytes = match raw {
            Option::Some(b) => b,
            Option::None => {
                return Result::Err(ParseError::EmptyBody);
            },
        };
        let fields = match parse_fields(bytes) {
            Option::Some(f) => f,
            Option::None => {
                return Result::Err(ParseError::UnparsableMessage);
            },
        };
        Result::Ok(ParsedEmail::from_fields(fields))
    }

    /// The human-readable rendering: four lines, with the body truncated to
    /// the bounded preview.
    pub fn render(&self) -> (r: String)
        ensures
            r@ == render_text(*self),
    {
        let mut s = "Subject: ".to_owned();
        s.append(self.subject.as_str());
        s.append("\nFrom: ");
        s.append(self.from.as_str());
        s.append("\nDate: ");
        s.append(self.date.as_str());
        s.append("\nPreview: ");
        let p = preview(&self.body);
        s.append(p.as_str());
        proof {
            assert(s@ =~= render_text(*self));
        }
        s
    }
}

} // verus!
