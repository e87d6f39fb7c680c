//! One message, sent several times over.
//!
//! Remailers lose messages, so a message is wrapped more than once, each time for a chain of
//! its own. An attempt resolves the chain, wraps the message for it and renders the envelope.
//! An attempt that fails gives no envelope and leaves the other attempts alone.

use rand::rngs::ThreadRng;
use vstd::prelude::*;
use vstd::string::*;

use crate::chain::{make_chain, ChainResolutionError, Resolution};
use crate::config::RemailerMap;
use crate::format::{format_msg, FormatError, OutputFormat};
use crate::text::digits_of;
use crate::{Cypherpunk, EncryptionError};

verus! {

/// Why an attempt gave no envelope.
#[derive(Debug, PartialEq, Eq)]
pub enum AttemptError {
    /// No chain could be made.
    Resolution(ChainResolutionError),
    /// A layer could not be encrypted.
    Encryption(EncryptionError),
    /// The envelope is no text.
    Encoding,
    /// The envelope cannot be rendered.
    Format(FormatError),
}

/// What became of one attempt.
#[derive(Debug, PartialEq, Eq)]
pub struct Attempt {
    /// The chain that the attempt was made for, if one could be made.
    pub resolution: Option<Resolution>,
    /// The rendered envelope, or why there is none.
    pub outcome: Result<String, AttemptError>,
}

/// Whether `outcome` is what may come of wrapping `message` for `chain` and rendering the
/// envelope in `format`, with a back-end whose relation is `encrypts`. A text comes of a
/// complete envelope only.
pub open spec fn is_wrapping(
    encrypts: spec_fn(Seq<u8>, Seq<Seq<char>>, Result<Seq<u8>, Seq<char>>) -> bool,
    chain: Seq<Seq<char>>,
    headers: Seq<Seq<char>>,
    message: Seq<u8>,
    format: OutputFormat,
    outcome: Result<String, AttemptError>,
) -> bool {
    match outcome {
        Ok(text) => exists|envelope: Seq<u8>|
            {
                &&& #[trigger] crate::is_envelope(encrypts, chain, headers, message, envelope)
                &&& rendering(format, envelope) == Ok::<Seq<char>, AttemptError>(text@)
            },
        Err(AttemptError::Resolution(e)) => false,
        Err(AttemptError::Encryption(e)) => {
            &&& e.position < chain.len()
            &&& e.relay@ == chain[e.position as int]
            &&& crate::is_refusal(
                encrypts,
                chain,
                headers,
                message,
                e.position as int,
                e.cause.message@,
            )
        },
        Err(other) => exists|envelope: Seq<u8>|
            {
                &&& #[trigger] crate::is_envelope(encrypts, chain, headers, message, envelope)
                &&& rendering(format, envelope) == Err::<Seq<char>, AttemptError>(other)
            },
    }
}

/// What rendering an envelope in a format gives: the bytes must be UTF-8, and the text that
/// they encode must be an envelope.
pub open spec fn rendering(format: OutputFormat, envelope: Seq<u8>) -> Result<
    Seq<char>,
    AttemptError,
> {
    if !vstd::utf8::valid_utf8(envelope) {
        Err(AttemptError::Encoding)
    } else {
        match crate::format::formatted(format, vstd::utf8::decode_utf8(envelope)) {
            Ok(text) => Ok(text),
            Err(e) => Err(AttemptError::Format(e)),
        }
    }
}

/// Whether `attempt` is what may come of one attempt on the tokens `tokens`.
pub open spec fn is_attempt(
    encrypts: spec_fn(Seq<u8>, Seq<Seq<char>>, Result<Seq<u8>, Seq<char>>) -> bool,
    tokens: Seq<Seq<char>>,
    map: crate::config::RemailerMapView,
    headers: Seq<Seq<char>>,
    message: Seq<u8>,
    format: OutputFormat,
    attempt: Attempt,
) -> bool {
    match attempt.resolution {
        Some(resolution) => {
            &&& crate::chain::is_resolution(tokens, map, Ok(resolution@))
            &&& is_wrapping(encrypts, resolution@.chain, headers, message, format, attempt.outcome)
        },
        None => attempt.outcome matches Err(AttemptError::Resolution(e))
            && crate::chain::is_resolution(tokens, map, Err(e)),
    }
}

/// The number of attempts that gave an envelope.
pub open spec fn delivered(attempts: Seq<Attempt>) -> nat
    decreases attempts.len(),
{
    if attempts.len() == 0 {
        0
    } else if attempts.last().outcome is Ok {
        delivered(attempts.drop_last()) + 1
    } else {
        delivered(attempts.drop_last())
    }
}

/// The number of attempts that failed.
pub open spec fn failed(attempts: Seq<Attempt>) -> nat
    decreases attempts.len(),
{
    if attempts.len() == 0 {
        0
    } else if attempts.last().outcome is Err {
        failed(attempts.drop_last()) + 1
    } else {
        failed(attempts.drop_last())
    }
}

/// Every attempt either gives an envelope or is a reported failure: the two add up.
pub proof fn lemma_attempts_add_up(attempts: Seq<Attempt>)
    ensures
        delivered(attempts) + failed(attempts) == attempts.len(),
    decreases attempts.len(),
{
    if attempts.len() > 0 {
        lemma_attempts_add_up(attempts.drop_last());
    }
}

/// Calls `String::from_utf8`, which gives a string of the very bytes if they are UTF-8, and
/// fails if they are not.
#[verifier::external_body]
fn text_from_utf8(bytes: Vec<u8>) -> (text: Option<String>)
    ensures
        match text {
            Some(string) => vstd::utf8::valid_utf8(bytes@) && vstd::utf8::encode_utf8(string@)
                == bytes@,
            None => !vstd::utf8::valid_utf8(bytes@),
        },
{
    String::from_utf8(bytes).ok()
}

/// The list in reverse: the order in which the hops of a chain are wrapped is the reverse of
/// the order in which a message meets them.
pub fn reversed(chain: &Vec<String>) -> (back: Vec<String>)
    ensures
        back.deep_view() == chain.deep_view().reverse(),
{
    let mut back: Vec<String> = Vec::new();
    let mut left: usize = chain.len();
    while left > 0
        invariant
            left <= chain.len(),
            back.len() == chain.len() - left,
            forall|k: int| 0 <= k < back.len() ==> back[k]@ == chain[chain.len() - 1 - k]@,
        decreases left,
    {
        left -= 1;
        back.push(chain[left].clone());
    }
    assert(back.deep_view() =~= chain.deep_view().reverse());
    back
}

/// Renders what the core made of a message: an envelope that is text is formatted, a refusal
/// is passed on.
pub fn finish(format: &OutputFormat, sealed: Result<Vec<u8>, EncryptionError>) -> (outcome: Result<
    String,
    AttemptError,
>)
    ensures
        match sealed {
            Ok(envelope) => match rendering(*format, envelope@) {
                Ok(text) => outcome matches Ok(rendered) && rendered@ == text,
                Err(e) => outcome == Err::<String, AttemptError>(e),
            },
            Err(e) => outcome == Err::<String, AttemptError>(AttemptError::Encryption(e)),
        },
{
    match sealed {
        Err(e) => Err(AttemptError::Encryption(e)),
        Ok(envelope) => {
            let ghost bytes = envelope@;
            match text_from_utf8(envelope) {
                None => Err(AttemptError::Encoding),
                Some(text) => {
                    proof {
                        vstd::utf8::encode_utf8_decode_utf8(text@);
                    }
                    match format_msg(format, text) {
                        Ok(rendered) => Ok(rendered),
                        Err(e) => Err(AttemptError::Format(e)),
                    }
                },
            }
        },
    }
}

/// Wraps the message for a chain of addresses, the first address innermost, and renders the
/// envelope.
pub fn wrap<C: Cypherpunk>(
    core: &C,
    chain: &Vec<String>,
    headers: &Vec<String>,
    message: Vec<u8>,
    format: &OutputFormat,
) -> (outcome: Result<String, AttemptError>)
    ensures
        is_wrapping(
            core.encrypt_relation(),
            chain.deep_view(),
            headers.deep_view(),
            message@,
            *format,
            outcome,
        ),
{
    let sealed = core.encrypt_message(chain, headers, message);
    finish(format, sealed)
}

/// Makes one attempt: resolves the tokens, which name the hops from the last to the first,
/// wraps the message for the chain and renders the envelope.
pub fn attempt<C: Cypherpunk>(
    core: &C,
    tokens: &Vec<String>,
    remmap: &RemailerMap,
    headers: &Vec<String>,
    message: Vec<u8>,
    format: &OutputFormat,
    rng: &mut ThreadRng,
) -> (made: Attempt)
    ensures
        is_attempt(
            core.encrypt_relation(),
            tokens.deep_view(),
            remmap@,
            headers.deep_view(),
            message@,
            *format,
            made,
        ),
{
    match make_chain(tokens, remmap, rng) {
        Err(e) => Attempt { resolution: None, outcome: Err(AttemptError::Resolution(e)) },
        Ok(resolution) => {
            let outcome = wrap(core, &resolution.chain, headers, message, format);
            Attempt { resolution: Some(resolution), outcome }
        },
    }
}

/// Sends one message `redundancy` times over. `chain` names the hops in the order in which a
/// message meets them. Each attempt resolves the chain anew, and an attempt that fails does
/// not keep the others from being made.
pub fn attempts<C: Cypherpunk>(
    core: &C,
    chain: &Vec<String>,
    remmap: &RemailerMap,
    headers: &Vec<String>,
    message: &Vec<u8>,
    format: &OutputFormat,
    redundancy: u8,
    rng: &mut ThreadRng,
) -> (made: Vec<Attempt>)
    ensures
        made.len() == redundancy,
        delivered(made@) + failed(made@) == redundancy,
        forall|k: int|
            0 <= k < made.len() ==> is_attempt(
                core.encrypt_relation(),
                chain.deep_view().reverse(),
                remmap@,
                headers.deep_view(),
                message@,
                *format,
                #[trigger] made[k],
            ),
{
    let tokens = reversed(chain);
    let mut made: Vec<Attempt> = Vec::new();
    let mut count: u8 = 0;
    while count < redundancy
        invariant
            count <= redundancy,
            made.len() == count,
            tokens.deep_view() == chain.deep_view().reverse(),
            forall|k: int|
                0 <= k < made.len() ==> is_attempt(
                    core.encrypt_relation(),
                    tokens.deep_view(),
                    remmap@,
                    headers.deep_view(),
                    message@,
                    *format,
                    #[trigger] made[k],
                ),
        decreases redundancy - count,
    {
        let copy = message.clone();
        assert(copy@ =~= message@);
        let one = attempt(core, &tokens, remmap, headers, copy, format, rng);
        made.push(one);
        count += 1;
    }
    proof {
        lemma_attempts_add_up(made@);
    }
    made
}

/// The name of the file for the envelope of the attempt at `index`, counted from zero:
/// `redundancy_N.EXT`, with the attempts numbered from one.
pub fn output_name(index: u8, format: OutputFormat) -> (name: String)
    ensures
        name@ == "redundancy_"@ + crate::text::digits((index + 1) as nat) + "."@
            + format.spec_extension(),
{
    let mut name = String::from_str("redundancy_");
    name.append(digits_of(index as u64 + 1).as_str());
    name.append(".");
    name.append(format.extension());
    name
}

} // verus!
