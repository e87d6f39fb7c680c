use cypherpunk::format::{
    format_eml, format_helper, format_mailto, format_msg, FormatError, OutputFormat,
};

const ENVELOPE: &str = "\n::\nAnon-To: a@b.com\n\n::\nEncrypted: PGP\n\nHello World";

#[test]
fn mailto_of_the_sample_envelope() {
    let url = format_msg(&OutputFormat::Mailto, ENVELOPE.to_string());
    assert_eq!(url, Ok("mailto:a@b.com?body=Hello%20World".to_string()));
}

#[test]
fn eml_of_the_sample_envelope() {
    let eml = format_msg(&OutputFormat::EML, ENVELOPE.to_string());
    assert_eq!(
        eml,
        Ok("MIME-Version: 1.0\nContent-Type: text/plain; charset=utf-8\nTo: a@b.com\n\nHello World"
            .to_string())
    );
}

#[test]
fn cypherpunk_format_keeps_the_envelope() {
    let out = format_msg(&OutputFormat::Cypherpunk, ENVELOPE.to_string());
    assert_eq!(out, Ok(ENVELOPE.to_string()));
}

#[test]
fn helper_splits_address_and_body() {
    let parts = format_helper(ENVELOPE.to_string());
    assert_eq!(parts, Ok(("a@b.com".to_string(), "Hello World".to_string())));
}

#[test]
fn body_starts_behind_the_first_blank_line_after_the_address_line() {
    let text = "x\nAnon-To: r@x.org\nInflate: 3\n\n::\nEncrypted: PGP\n\ncipher";
    let parts = format_helper(text.to_string());
    assert_eq!(
        parts,
        Ok(("r@x.org".to_string(), "::\nEncrypted: PGP\n\ncipher".to_string()))
    );
}

#[test]
fn missing_marker_is_an_error_in_every_format() {
    for format in [OutputFormat::Cypherpunk, OutputFormat::Mailto, OutputFormat::EML] {
        let out = format_msg(&format, "no marker here\n\nbody".to_string());
        assert_eq!(out, Err(FormatError::MissingRecipient));
    }
}

#[test]
fn address_without_line_end_is_an_error() {
    assert_eq!(
        format_mailto("Anon-To: a@b.com".to_string()),
        Err(FormatError::UnterminatedRecipient)
    );
}

#[test]
fn missing_blank_line_is_an_error() {
    assert_eq!(
        format_eml("Anon-To: a@b.com\nX: y\nbody".to_string()),
        Err(FormatError::MissingBody)
    );
    assert_eq!(
        format_msg(&OutputFormat::Cypherpunk, "Anon-To: a@b.com\n".to_string()),
        Err(FormatError::MissingBody)
    );
}

#[test]
fn mailto_escapes_every_byte_that_is_no_letter_or_digit() {
    let url = format_mailto("Anon-To: a@b.com\n\n\naZ09 -_.~é\n".to_string());
    assert_eq!(
        url,
        Ok("mailto:a@b.com?body=aZ09%20%2D%5F%2E%7E%C3%A9%0A".to_string())
    );
}

#[test]
fn extensions_of_the_formats() {
    assert_eq!(OutputFormat::Cypherpunk.extension(), "txt");
    assert_eq!(OutputFormat::Mailto.extension(), "txt");
    assert_eq!(OutputFormat::EML.extension(), "eml");
}

#[test]
fn error_messages() {
    assert_eq!(
        FormatError::MissingRecipient.message(),
        "Invalid Cypherpunk message (Anon-To header missing)"
    );
    assert_eq!(
        FormatError::UnterminatedRecipient.message(),
        "Invalid Cypherpunk message (Anon-To header is the only line in message)"
    );
    assert_eq!(
        FormatError::MissingBody.message(),
        "Invalid Cypherpunk message (Body not found)"
    );
}
