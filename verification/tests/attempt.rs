use std::cell::Cell;

use cypherpunk::attempt::{
    attempt, attempts, finish, output_name, reversed, wrap, Attempt, AttemptError,
};
use cypherpunk::chain::{ChainResolutionError, Resolution};
use cypherpunk::config::{remailer_map, RemailerEntry, RemailerMap};
use cypherpunk::format::{FormatError, OutputFormat};
use cypherpunk::{CypherpunkCore, EncryptionError, PGPBackend, PgpError};

/// A back-end that writes the recipient and the input between brackets, refuses every call
/// whose number is in `refuse`, and answers with bytes that are no text for `raw@x.org`.
struct Scripted {
    calls: Cell<usize>,
    refuse: Vec<usize>,
}

impl Scripted {
    fn new(refuse: &[usize]) -> Self {
        Scripted { calls: Cell::new(0), refuse: refuse.to_vec() }
    }
}

impl PGPBackend for Scripted {
    fn import_key(&self, _key: Vec<u8>) -> Result<(), PgpError> {
        Ok(())
    }

    fn encrypt(&self, input: &Vec<u8>, recipients: Vec<String>) -> Result<Vec<u8>, PgpError> {
        let call = self.calls.get();
        self.calls.set(call + 1);
        if self.refuse.contains(&call) {
            return Err(PgpError { message: format!("call {} refused", call) });
        }
        if recipients[0] == "raw@x.org" {
            return Ok(vec![0xff, 0xfe]);
        }
        let mut out = format!("[{}|", recipients[0]).into_bytes();
        out.extend_from_slice(input);
        out.push(b']');
        Ok(out)
    }
}

fn strings(items: &[&str]) -> Vec<String> {
    items.iter().map(|s| s.to_string()).collect()
}

fn map() -> RemailerMap {
    let entry = |name: &str, email: &str| RemailerEntry {
        name: strings(&[name]),
        email: email.to_string(),
        enable: true,
        key: String::new(),
    };
    remailer_map(vec![entry("a", "a@x.org"), entry("b", "b@x.org"), entry("raw", "raw@x.org")])
}

const TWO_LAYERS: &str = "\n::\nAnon-To: a@x.org\n\n\n::\nEncrypted: PGP\n\n[a@x.org|\n::\nAnon-To: b@x.org\n\n\n::\nEncrypted: PGP\n\n[b@x.org|hi]]";

#[test]
fn reversed_turns_the_list_around() {
    assert_eq!(reversed(&strings(&["a", "b", "c"])), strings(&["c", "b", "a"]));
    assert_eq!(reversed(&vec![]), Vec::<String>::new());
}

#[test]
fn file_names_count_from_one() {
    assert_eq!(output_name(0, OutputFormat::Cypherpunk), "redundancy_1.txt");
    assert_eq!(output_name(9, OutputFormat::Mailto), "redundancy_10.txt");
    assert_eq!(output_name(255, OutputFormat::EML), "redundancy_256.eml");
}

#[test]
fn finish_for_every_answer() {
    let refusal = EncryptionError {
        position: 1,
        relay: "b@x.org".to_string(),
        cause: PgpError { message: "no".to_string() },
    };
    assert_eq!(
        finish(&OutputFormat::Cypherpunk, Err(refusal.clone())),
        Err(AttemptError::Encryption(refusal))
    );
    assert_eq!(finish(&OutputFormat::Cypherpunk, Ok(vec![0xc3, 0x28])), Err(AttemptError::Encoding));
    assert_eq!(
        finish(&OutputFormat::Mailto, Ok(b"hello".to_vec())),
        Err(AttemptError::Format(FormatError::MissingRecipient))
    );
    assert_eq!(
        finish(&OutputFormat::Mailto, Ok(b"Anon-To: a@x.org\n\n\nbody".to_vec())),
        Ok("mailto:a@x.org?body=body".to_string())
    );
}

#[test]
fn wrap_goes_from_the_first_relay_of_the_list_outwards() {
    let core = CypherpunkCore::new(Scripted::new(&[]));
    let text = wrap(
        &core,
        &strings(&["b@x.org", "a@x.org"]),
        &vec![],
        b"hi".to_vec(),
        &OutputFormat::Cypherpunk,
    );
    assert_eq!(text, Ok(TWO_LAYERS.to_string()));
}

#[test]
fn every_attempt_of_a_literal_chain_gives_the_same_envelope() {
    let core = CypherpunkCore::new(Scripted::new(&[]));
    let mut rng = rand::thread_rng();
    let made = attempts(
        &core,
        &strings(&["a", "nobody", "b"]),
        &map(),
        &vec![],
        &b"hi".to_vec(),
        &OutputFormat::Cypherpunk,
        3,
        &mut rng,
    );
    assert_eq!(made.len(), 3);
    for one in &made {
        assert_eq!(
            one,
            &Attempt {
                resolution: Some(Resolution {
                    chain: strings(&["b@x.org", "a@x.org"]),
                    dropped: strings(&["nobody"]),
                }),
                outcome: Ok(TWO_LAYERS.to_string()),
            }
        );
    }
}

#[test]
fn a_failed_attempt_leaves_the_others_alone() {
    // Two layers for each attempt: the calls 2 and 3 belong to the second attempt.
    let core = CypherpunkCore::new(Scripted::new(&[3]));
    let mut rng = rand::thread_rng();
    let made = attempts(
        &core,
        &strings(&["a", "b"]),
        &map(),
        &vec![],
        &b"hi".to_vec(),
        &OutputFormat::Cypherpunk,
        3,
        &mut rng,
    );
    assert_eq!(made.len(), 3);
    assert_eq!(made[0].outcome, Ok(TWO_LAYERS.to_string()));
    assert_eq!(
        made[1].outcome,
        Err(AttemptError::Encryption(EncryptionError {
            position: 1,
            relay: "a@x.org".to_string(),
            cause: PgpError { message: "call 3 refused".to_string() },
        }))
    );
    assert_eq!(made[2].outcome, Ok(TWO_LAYERS.to_string()));
    let delivered = made.iter().filter(|one| one.outcome.is_ok()).count();
    let failed = made.iter().filter(|one| one.outcome.is_err()).count();
    assert_eq!((delivered, failed), (2, 1));
}

#[test]
fn no_attempt_without_a_chain() {
    let core = CypherpunkCore::new(Scripted::new(&[]));
    let mut rng = rand::thread_rng();
    let made = attempts(
        &core,
        &strings(&["nobody"]),
        &map(),
        &vec![],
        &b"hi".to_vec(),
        &OutputFormat::EML,
        2,
        &mut rng,
    );
    let none = Attempt {
        resolution: None,
        outcome: Err(AttemptError::Resolution(ChainResolutionError::EmptyChain)),
    };
    assert_eq!(made, vec![none, Attempt {
        resolution: None,
        outcome: Err(AttemptError::Resolution(ChainResolutionError::EmptyChain)),
    }]);
    let zero = attempts(
        &core,
        &strings(&["a"]),
        &map(),
        &vec![],
        &b"hi".to_vec(),
        &OutputFormat::EML,
        0,
        &mut rng,
    );
    assert!(zero.is_empty());
}

#[test]
fn an_envelope_that_is_no_text_is_an_error() {
    let core = CypherpunkCore::new(Scripted::new(&[]));
    let mut rng = rand::thread_rng();
    let made = attempt(
        &core,
        &strings(&["raw"]),
        &map(),
        &vec![],
        b"hi".to_vec(),
        &OutputFormat::Mailto,
        &mut rng,
    );
    assert_eq!(made.resolution.unwrap().chain, strings(&["raw@x.org"]));
    assert_eq!(made.outcome, Err(AttemptError::Encoding));
}

#[test]
fn the_chain_is_wrapped_from_its_last_hop() {
    let core = CypherpunkCore::new(Scripted::new(&[]));
    let mut rng = rand::thread_rng();
    let made = attempts(
        &core,
        &strings(&["a", "b"]),
        &map(),
        &strings(&["Inflate: 1"]),
        &b"hi".to_vec(),
        &OutputFormat::Mailto,
        1,
        &mut rng,
    );
    assert_eq!(made[0].resolution.as_ref().unwrap().chain, strings(&["b@x.org", "a@x.org"]));
    let url = made[0].outcome.as_ref().unwrap();
    assert!(url.starts_with("mailto:a@x.org?body=%3A%3A%0AEncrypted%3A%20PGP%0A%0A%5Ba%40x%2Eorg%7C"));
}
