use axum::http::StatusCode;
use fire_alarm_website::mail::{code_text, finish_message, ContentType, LAST_DATE};
use fire_alarm_website::{send_outcome, Address, Error, Mailbox, MessageTemplate, Submission};

fn address(text: &str) -> Address {
    Address::parse(text).unwrap()
}

fn mailbox(name: Option<&str>) -> Option<Mailbox> {
    Mailbox::new(
        name.map(|name| name.to_string()),
        address("no-reply@fire-alarm.org"),
    )
}

fn template(name: Option<&str>) -> MessageTemplate {
    MessageTemplate::new(mailbox(name).unwrap())
}

fn submission(email: &str, code: u16) -> Submission {
    Submission {
        address: address(email),
        code,
    }
}

#[test]
fn codes_are_padded_to_six_digits() {
    for code in [0u16, 1, 9, 10, 99, 123, 1000, 9999, 10000, 65535] {
        assert_eq!(code_text(code), format!("{code:0>6}"));
    }
    assert_eq!(code_text(42), "000042");
}

#[test]
fn submissions_are_logged_with_their_code() {
    assert_eq!(submission("a@example.com", 7).log_line(), "a@example.com: 000007");
}

#[test]
fn the_message_carries_the_code() {
    let template = template(None);
    assert_eq!(template.content_type, ContentType::TextPlain);
    let message = template.message(&submission("a@example.com", 321), 784887151).unwrap();
    let text = String::from_utf8(message.formatted()).unwrap();
    assert!(text.contains("From: no-reply@fire-alarm.org\r\n"), "{text}");
    assert!(text.contains("To: a@example.com\r\n"), "{text}");
    assert!(text.contains("Subject: Fire-Alarm Verification Code\r\n"), "{text}");
    assert!(text.contains("Content-Type: text/plain; charset=utf-8\r\n"), "{text}");
    assert!(text.contains("Date: Tue, 15 Nov 1994 08:12:31 +0000\r\n"), "{text}");
    assert!(text.ends_with("\r\n\r\n000321"), "{text}");
    assert_eq!(message.envelope().to()[0].to_string(), "a@example.com");
    assert_eq!(message.envelope().from().unwrap().to_string(), "no-reply@fire-alarm.org");
}

#[test]
fn the_sender_may_have_a_name() {
    let message = template(Some("Fire Alarm"))
        .message(&submission("a@example.com", 1), LAST_DATE)
        .unwrap();
    let text = String::from_utf8(message.formatted()).unwrap();
    assert!(text.contains("From: \"Fire Alarm\" <no-reply@fire-alarm.org>\r\n"), "{text}");
    assert!(text.contains("Date: Fri, 31 Dec 9999 23:59:59 +0000\r\n"), "{text}");
}

#[test]
fn the_headers_stand_in_order() {
    let message = template(None).message(&submission("a@example.com", 1), 0).unwrap();
    let text = String::from_utf8(message.formatted()).unwrap();
    let names: Vec<&str> = text
        .lines()
        .map_while(|line| line.split_once(": ").map(|(name, _)| name))
        .collect();
    assert_eq!(
        names,
        vec!["From", "Subject", "Content-Type", "To", "Content-Transfer-Encoding", "Date"]
    );
    assert!(text.contains("Content-Transfer-Encoding: 7bit\r\n"), "{text}");
}

#[test]
fn a_sender_with_broken_lines_cannot_be_written() {
    for name in ["a\nb", "a\rb", "a\r\nb", " a \n b ", "a\n\u{3000}b\n", "\u{200b}\n."] {
        assert!(mailbox(Some(name)).is_none(), "{name:?}");
    }
    let blanks = "\u{9}\u{a}\u{b}\u{c}\u{d}\u{20}\u{85}\u{a0}\u{1680}\u{2000}\u{200a}\u{2028}\u{2029}\u{202f}\u{205f}\u{3000}";
    for name in ["", "\n", "a", "a b", "\na", "a\n", " \r\na b\n\u{3000}", "a\u{85}b", blanks] {
        let message = template(Some(name)).message(&submission("a@example.com", 1), 0);
        assert!(message.is_ok(), "{name:?}");
    }
    for code in 0..=0x10ffffu32 {
        if let Some(c) = char::from_u32(code) {
            let name = format!("a\n{c}");
            assert_eq!(mailbox(Some(&name)).is_some(), c.is_whitespace(), "{code:x}");
        }
    }
}

#[test]
fn a_message_to_a_domain_literal_cannot_be_built() {
    let result = template(None).message(&submission("a@[127.0.0.1]", 1), 0);
    assert!(matches!(
        result,
        Err(Error::EmailError(lettre::error::Error::MissingTo))
    ));
}

#[test]
fn the_builders_objection_is_handed_on() {
    let result = finish_message(Err(lettre::error::Error::TooManyFrom));
    assert!(matches!(
        result,
        Err(Error::EmailError(lettre::error::Error::TooManyFrom))
    ));
}

#[test]
fn the_transports_words_are_handed_on() {
    assert!(send_outcome(Ok(())).is_ok());
    assert!(matches!(
        send_outcome(Err("refused".to_string())),
        Err(Error::SendError(reason)) if reason == "refused"
    ));
}

#[test]
fn errors_are_answered_with_their_status() {
    let cases = vec![
        (
            Error::IoError(std::io::Error::from(std::io::ErrorKind::Other)),
            StatusCode::INTERNAL_SERVER_ERROR,
        ),
        (
            Error::DbError(sea_orm::DbErr::Custom("refused".to_string())),
            StatusCode::INTERNAL_SERVER_ERROR,
        ),
        (
            Error::AddressError(lettre::address::AddressError::MissingParts),
            StatusCode::BAD_REQUEST,
        ),
        (
            Error::EmailError(lettre::error::Error::MissingTo),
            StatusCode::INTERNAL_SERVER_ERROR,
        ),
        (Error::SendError("refused".to_string()), StatusCode::INTERNAL_SERVER_ERROR),
        (Error::EmailNotFound(address("a@example.com")), StatusCode::GONE),
        (Error::CodeDoesNotMatch(1), StatusCode::UNAUTHORIZED),
        (Error::ServerShutdown, StatusCode::SERVICE_UNAVAILABLE),
    ];
    for (error, status) in cases {
        assert_eq!(error.status_code(), status.as_u16(), "{error:?}");
    }
}
