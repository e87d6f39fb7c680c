//! Rendering of a finished envelope for the outside world.
//!
//! An envelope names its first recipient in an `Anon-To: ` line. The recipient's address runs
//! from that marker to the end of its line, and the body is what follows the first blank line
//! after the address line.

use percent_encoding::{utf8_percent_encode, NON_ALPHANUMERIC};
use vstd::prelude::*;
use vstd::string::*;

use crate::text::{chars_of, find, string_of};

verus! {

/// The representations an envelope can be rendered in.
#[derive(Clone, Copy, Debug, PartialEq, Eq, Structural)]
pub enum OutputFormat {
    /// The envelope as it is.
    Cypherpunk,
    /// A `mailto:` URL carrying the envelope's body.
    Mailto,
    /// A minimal e-mail file.
    EML,
}

/// Why a text is no envelope.
#[derive(Clone, Copy, Debug, PartialEq, Eq, Structural)]
pub enum FormatError {
    /// There is no `Anon-To: ` marker.
    MissingRecipient,
    /// The line of the `Anon-To: ` marker never ends.
    UnterminatedRecipient,
    /// No blank line follows the line of the `Anon-To: ` marker.
    MissingBody,
}

impl FormatError {
    /// A sentence for the operator.
    pub fn message(&self) -> (text: &'static str)
        ensures
            text@ == match *self {
                FormatError::MissingRecipient => "Invalid Cypherpunk message (Anon-To header missing)"@,
                FormatError::UnterminatedRecipient => "Invalid Cypherpunk message (Anon-To header is the only line in message)"@,
                FormatError::MissingBody => "Invalid Cypherpunk message (Body not found)"@,
            },
    {
        match self {
            FormatError::MissingRecipient => "Invalid Cypherpunk message (Anon-To header missing)",
            FormatError::UnterminatedRecipient => "Invalid Cypherpunk message (Anon-To header is the only line in message)",
            FormatError::MissingBody => "Invalid Cypherpunk message (Body not found)",
        }
    }
}

impl OutputFormat {
    /// The extension of a file that holds a message in this format.
    pub open spec fn spec_extension(self) -> Seq<char> {
        match self {
            OutputFormat::EML => "eml"@,
            _ => "txt"@,
        }
    }

    /// The extension of a file that holds a message in this format.
    pub fn extension(self) -> (ext: &'static str)
        ensures
            ext@ == self.spec_extension(),
    {
        match self {
            OutputFormat::EML => "eml",
            _ => "txt",
        }
    }
}

/// The recipient's address and the body of an envelope.
pub open spec fn envelope_parts(text: Seq<char>) -> Result<(Seq<char>, Seq<char>), FormatError> {
    match crate::text::find_from(text, "Anon-To: "@, 0) {
        None => Err(FormatError::MissingRecipient),
        Some(marker) => {
            let start = marker + "Anon-To: "@.len();
            match crate::text::find_from(text, "\n"@, start) {
                None => Err(FormatError::UnterminatedRecipient),
                Some(end) => match crate::text::find_from(text, "\n\n"@, end + 1) {
                    None => Err(FormatError::MissingBody),
                    Some(blank) => Ok(
                        (text.subrange(start, end), text.subrange(blank + 2, text.len() as int)),
                    ),
                },
            }
        },
    }
}

/// The digit of `n` in upper-case hexadecimal.
pub open spec fn hex_digit(n: int) -> char {
    seq!['0', '1', '2', '3', '4', '5', '6', '7', '8', '9', 'A', 'B', 'C', 'D', 'E', 'F'][n]
}

/// Whether `byte` is an ASCII letter or digit.
pub open spec fn is_alphanumeric(byte: u8) -> bool {
    ||| 0x30 <= byte <= 0x39
    ||| 0x41 <= byte <= 0x5a
    ||| 0x61 <= byte <= 0x7a
}

/// One byte as it stands in a URL: itself if it is an ASCII letter or digit, else `%` and its
/// two hexadecimal digits.
pub open spec fn escaped(byte: u8) -> Seq<char> {
    if is_alphanumeric(byte) {
        seq![byte as char]
    } else {
        seq!['%', hex_digit(byte as int / 16), hex_digit(byte as int % 16)]
    }
}

/// The bytes as they stand in a URL, each one escaped.
pub open spec fn percent_encoded(bytes: Seq<u8>) -> Seq<char>
    decreases bytes.len(),
{
    if bytes.len() == 0 {
        Seq::empty()
    } else {
        percent_encoded(bytes.drop_last()) + escaped(bytes.last())
    }
}

/// The `mailto:` URL for an address and a body.
pub open spec fn mailto_text(addr: Seq<char>, body: Seq<char>) -> Seq<char> {
    "mailto:"@ + addr + "?body="@ + percent_encoded(vstd::utf8::encode_utf8(body))
}

/// The e-mail file for an address and a body.
pub open spec fn eml_text(addr: Seq<char>, body: Seq<char>) -> Seq<char> {
    "MIME-Version: 1.0\nContent-Type: text/plain; charset=utf-8\nTo: "@ + addr + "\n\n"@ + body
}

/// What `format_msg` makes of a text in a format.
pub open spec fn formatted(format: OutputFormat, text: Seq<char>) -> Result<Seq<char>, FormatError> {
    match envelope_parts(text) {
        Err(e) => Err(e),
        Ok((addr, body)) => Ok(
            match format {
                OutputFormat::Cypherpunk => text,
                OutputFormat::Mailto => mailto_text(addr, body),
                OutputFormat::EML => eml_text(addr, body),
            },
        ),
    }
}

/// Calls `percent_encoding::utf8_percent_encode` with the set `NON_ALPHANUMERIC` and collects
/// what it yields. The crate walks the UTF-8 bytes of the text, keeps each ASCII letter and
/// digit and writes every other byte as `%` and two upper-case hexadecimal digits.
#[verifier::external_body]
fn percent_encode(text: &str) -> (encoded: String)
    ensures
        encoded@ == percent_encoded(vstd::utf8::encode_utf8(text@)),
{
    utf8_percent_encode(text, NON_ALPHANUMERIC).to_string()
}

/// Get from a given message, the message's recipient and the message's body.
pub fn format_helper(message: String) -> (parts: Result<(String, String), FormatError>)
    ensures
        match envelope_parts(message@) {
            Ok((addr, body)) => parts matches Ok((a, b)) && a@ == addr && b@ == body,
            Err(e) => parts == Err::<(String, String), FormatError>(e),
        },
{
    let text = chars_of(message.as_str());
    let total = text.len();
    let marker = chars_of("Anon-To: ");
    let line_end = chars_of("\n");
    let blank = chars_of("\n\n");
    proof {
        reveal_strlit("\n\n");
    }
    match find(&text, &marker, 0) {
        None => Err(FormatError::MissingRecipient),
        Some(at) => {
            proof {
                crate::text::lemma_find_from(text@, marker@, 0);
            }
            let start = at + marker.len();
            match find(&text, &line_end, start) {
                None => Err(FormatError::UnterminatedRecipient),
                Some(end) => {
                    proof {
                        crate::text::lemma_find_from(text@, line_end@, start as int);
                        reveal_strlit("\n");
                    }
                    match find(&text, &blank, end + 1) {
                        None => Err(FormatError::MissingBody),
                        Some(gap) => {
                            proof {
                                crate::text::lemma_find_from(text@, blank@, end + 1);
                            }
                            let addr = string_of(&text, start, end);
                            let body = string_of(&text, gap + 2, total);
                            Ok((addr, body))
                        },
                    }
                },
            }
        },
    }
}

/// Format a given message to an EML-formatted email.
pub fn format_eml(message: String) -> (eml: Result<String, FormatError>)
    ensures
        match envelope_parts(message@) {
            Ok((addr, body)) => eml matches Ok(text) && text@ == eml_text(addr, body),
            Err(e) => eml == Err::<String, FormatError>(e),
        },
{
    match format_helper(message) {
        Err(e) => Err(e),
        Ok((addr, body)) => {
            let mut text = String::from_str(
                "MIME-Version: 1.0\nContent-Type: text/plain; charset=utf-8\nTo: ",
            );
            text.append(addr.as_str());
            text.append("\n\n");
            text.append(body.as_str());
            Ok(text)
        },
    }
}

/// Format a given message to a mailto URL.
pub fn format_mailto(message: String) -> (url: Result<String, FormatError>)
    ensures
        match envelope_parts(message@) {
            Ok((addr, body)) => url matches Ok(text) && text@ == mailto_text(addr, body),
            Err(e) => url == Err::<String, FormatError>(e),
        },
{
    match format_helper(message) {
        Err(e) => Err(e),
        Ok((addr, body)) => {
            let encoded = percent_encode(body.as_str());
            let mut text = String::from_str("mailto:");
            text.append(addr.as_str());
            text.append("?body=");
            text.append(encoded.as_str());
            Ok(text)
        },
    }
}

/// Format a message for a particular `OutputFormat`. The text is checked to be an envelope
/// whatever the format.
pub fn format_msg(format: &OutputFormat, msg: String) -> (out: Result<String, FormatError>)
    ensures
        match formatted(*format, msg@) {
            Ok(text) => out matches Ok(s) && s@ == text,
            Err(e) => out == Err::<String, FormatError>(e),
        },
{
    match format {
        OutputFormat::Cypherpunk => {
            match format_helper(msg.clone()) {
                Err(e) => Err(e),
                Ok(_) => Ok(msg),
            }
        },
        OutputFormat::Mailto => format_mailto(msg),
        OutputFormat::EML => format_eml(msg),
    }
}

} // verus!
