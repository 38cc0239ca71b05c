use rmail::message::{preview, MailDate, MessageFields, ParseError, ParsedEmail, SenderParts};

fn no_fields() -> MessageFields {
    MessageFields {
        subject: None,
        sender: None,
        date: None,
        body_text: None,
        body_html: None,
    }
}

#[test]
fn placeholders_when_nothing_reported() {
    let e = ParsedEmail::from_fields(no_fields());
    assert_eq!(e.subject, "(no subject)");
    assert_eq!(e.from, "(unknown sender)");
    assert_eq!(e.date, "(unknown date)");
    assert_eq!(e.body, "(no content)");
}

#[test]
fn sender_with_name_and_address() {
    let mut f = no_fields();
    f.sender = Some(SenderParts {
        name: Some("Alice".to_string()),
        address: Some("alice@example.com".to_string()),
    });
    let e = ParsedEmail::from_fields(f);
    assert_eq!(e.from, "Alice <alice@example.com>");
}

#[test]
fn sender_with_missing_parts() {
    let mut f = no_fields();
    f.sender = Some(SenderParts {
        name: None,
        address: Some("a@b".to_string()),
    });
    let e = ParsedEmail::from_fields(f);
    assert_eq!(e.from, " <a@b>");

    let mut g = no_fields();
    g.sender = Some(SenderParts {
        name: Some("Carol".to_string()),
        address: None,
    });
    let e2 = ParsedEmail::from_fields(g);
    assert_eq!(e2.from, "Carol <>");
}

#[test]
fn html_body_fallback() {
    let mut f = no_fields();
    f.body_html = Some("<p>hello</p>".to_string());
    let e = ParsedEmail::from_fields(f);
    assert_eq!(e.body, "[HTML content] <p>hello</p>");
}

#[test]
fn text_body_preferred_over_html() {
    let mut f = no_fields();
    f.body_text = Some("plain".to_string());
    f.body_html = Some("<p>rich</p>".to_string());
    let e = ParsedEmail::from_fields(f);
    assert_eq!(e.body, "plain");
}

#[test]
fn date_is_rendered_rfc822() {
    let mut f = no_fields();
    f.date = Some(MailDate {
        year: 2024,
        month: 1,
        day: 2,
        hour: 15,
        minute: 4,
        second: 5,
        tz_before_gmt: false,
        tz_hour: 0,
        tz_minute: 0,
    });
    let e = ParsedEmail::from_fields(f);
    assert_eq!(e.date, "Tue, 2 Jan 2024 15:04:05 +0000");
}

#[test]
fn preview_truncates_long_body() {
    let body: String = std::iter::repeat('x').take(250).collect();
    let p = preview(&body);
    let expected: String = std::iter::repeat('x').take(200).collect::<String>() + "...";
    assert_eq!(p, expected);
    assert_eq!(p.chars().count(), 203);
}

#[test]
fn preview_counts_characters_not_bytes() {
    let body: String = std::iter::repeat('\u{4e2d}').take(250).collect();
    let p = preview(&body);
    let expected: String = std::iter::repeat('\u{4e2d}').take(200).collect::<String>() + "...";
    assert_eq!(p, expected);
    assert_eq!(p.chars().count(), 203);
}

#[test]
fn preview_keeps_short_body() {
    let body: String = std::iter::repeat('y').take(150).collect();
    let p = preview(&body);
    assert_eq!(p, body);
}

#[test]
fn preview_keeps_exact_limit_body() {
    let body: String = std::iter::repeat('z').take(200).collect();
    let p = preview(&body);
    assert_eq!(p, body);
}

#[test]
fn render_has_four_lines_with_preview() {
    let long_body: String = std::iter::repeat('b').take(250).collect();
    let e = ParsedEmail {
        subject: "Hi".to_string(),
        from: "Alice <alice@example.com>".to_string(),
        date: "Tue, 2 Jan 2024 15:04:05 +0000".to_string(),
        body: long_body.clone(),
    };
    let shown = e.render();
    let expected_preview: String =
        std::iter::repeat('b').take(200).collect::<String>() + "...";
    let expected = format!(
        "Subject: Hi\nFrom: Alice <alice@example.com>\nDate: Tue, 2 Jan 2024 15:04:05 +0000\nPreview: {}",
        expected_preview
    );
    assert_eq!(shown, expected);
    // the stored body stays whole: truncation is display-time only
    assert_eq!(e.body, long_body);
}

#[test]
fn parse_rejects_missing_content() {
    let r = ParsedEmail::parse(None);
    assert!(matches!(r, Err(ParseError::EmptyBody)));
}

#[test]
fn parse_rejects_unparsable_bytes() {
    let raw: &[u8] = b"";
    let r = ParsedEmail::parse(Some(raw));
    assert!(matches!(r, Err(ParseError::UnparsableMessage)));
}

#[test]
fn parse_full_message() {
    let raw: &[u8] = b"From: Alice <alice@example.com>\r\n\
To: Bob <bob@example.com>\r\n\
Subject: Hi\r\n\
Date: Tue, 2 Jan 2024 15:04:05 +0000\r\n\
Content-Type: text/plain\r\n\
\r\n\
Hello body";
    let e = ParsedEmail::parse(Some(raw)).unwrap();
    assert_eq!(e.subject, "Hi");
    assert_eq!(e.from, "Alice <alice@example.com>");
    assert_eq!(e.date, "Tue, 2 Jan 2024 15:04:05 +0000");
    assert_eq!(e.body, "Hello body");
}

#[test]
fn parse_applies_placeholders() {
    let raw: &[u8] = b"X-Header: nothing else\r\n\r\n";
    let e = ParsedEmail::parse(Some(raw)).unwrap();
    assert_eq!(e.subject, "(no subject)");
    assert_eq!(e.from, "(unknown sender)");
    assert_eq!(e.date, "(unknown date)");
}
