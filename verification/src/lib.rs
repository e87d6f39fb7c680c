//! Layered encryption of messages for chains of Cypherpunk remailers.
//!
//! A message travels through a chain of relays. It is encrypted once for each of them, the last
//! relay first, and every ciphertext is headed by the address of the relay that can open it, so
//! that each hop learns only where to send what it finds.

use vstd::prelude::*;

pub mod attempt;
pub mod chain;
pub mod config;
pub mod directory;
pub mod envelope;
pub mod format;
pub mod pgp;
pub mod registry;
pub mod remailer;
pub mod text;
pub mod utils;

verus! {

/// What a PGP back-end reports when it cannot do what it was asked.
#[derive(Debug, PartialEq, Eq)]
pub struct PgpError {
    /// The back-end's own words.
    pub message: String,
}

/// A key that the PGP back-end did not take.
#[derive(Debug, PartialEq, Eq)]
pub struct KeyImportError {
    /// The place of the key among the keys handed in.
    pub index: usize,
    /// What the back-end reported.
    pub cause: PgpError,
}

/// A layer that could not be encrypted. No envelope comes out of such an attempt.
#[derive(Debug, PartialEq, Eq)]
pub struct EncryptionError {
    /// The place in the chain of the relay that the layer was for.
    pub position: usize,
    /// The address of that relay.
    pub relay: String,
    /// What the back-end reported.
    pub cause: PgpError,
}

impl Clone for PgpError {
    fn clone(&self) -> (copy: Self)
        ensures
            copy == *self,
    {
        PgpError { message: self.message.clone() }
    }
}

impl Clone for KeyImportError {
    fn clone(&self) -> (copy: Self)
        ensures
            copy == *self,
    {
        KeyImportError { index: self.index, cause: self.cause.clone() }
    }
}

impl Clone for EncryptionError {
    fn clone(&self) -> (copy: Self)
        ensures
            copy == *self,
    {
        EncryptionError {
            position: self.position,
            relay: self.relay.clone(),
            cause: self.cause.clone(),
        }
    }
}

/// An answer of a back-end as the contracts see it: the bytes it gave, or its words.
pub open spec fn answer_view(answer: Result<Vec<u8>, PgpError>) -> Result<Seq<u8>, Seq<char>> {
    match answer {
        Ok(bytes) => Ok(bytes@),
        Err(e) => Err(e.message@),
    }
}

/// Representation of a PGP back-end usable by a Cypherpunk-capable core.
///
/// Encryption draws on chance and on a key ring that lives outside the program, so a back-end
/// is described by relations, not functions: `imports` and `encrypts` say which answers it may
/// give. Unless an implementation says more, any answer is possible.
pub trait PGPBackend {
    /// Whether the back-end may answer `accepted` when it is handed `key`.
    open spec fn imports(&self, key: Seq<u8>, accepted: bool) -> bool {
        true
    }

    /// Whether the back-end may give `answer` when asked to encrypt `input` for `recipients`.
    open spec fn encrypts(
        &self,
        input: Seq<u8>,
        recipients: Seq<Seq<char>>,
        answer: Result<Seq<u8>, Seq<char>>,
    ) -> bool {
        true
    }

    /// Import the given key in its keyring.
    fn import_key(&self, key: Vec<u8>) -> (outcome: Result<(), PgpError>)
        ensures
            self.imports(key@, outcome is Ok),
    ;

    /// Encrypt the input for the recipients.
    fn encrypt(&self, input: &Vec<u8>, recipients: Vec<String>) -> (answer: Result<
        Vec<u8>,
        PgpError,
    >)
        ensures
            self.encrypts(input@, recipients.deep_view(), answer_view(answer)),
    ;
}

/// The message under its first `count` layers, where `ciphertexts[k]` is the ciphertext of the
/// layer for the relay `chain[k]`. All but the outermost layer are inside that layer's
/// ciphertext.
pub open spec fn layered(
    chain: Seq<Seq<char>>,
    headers: Seq<Seq<char>>,
    message: Seq<u8>,
    ciphertexts: Seq<Seq<u8>>,
    count: int,
) -> Seq<u8> {
    if count <= 0 {
        message
    } else {
        crate::envelope::layer(chain[count - 1], headers, ciphertexts[count - 1])
    }
}

/// Whether each of the first `count` ciphertexts is one that a back-end with the relation
/// `encrypts` may give for the message under the layers before it, addressed to the one relay
/// whose turn it is.
pub open spec fn is_layering(
    encrypts: spec_fn(Seq<u8>, Seq<Seq<char>>, Result<Seq<u8>, Seq<char>>) -> bool,
    chain: Seq<Seq<char>>,
    headers: Seq<Seq<char>>,
    message: Seq<u8>,
    ciphertexts: Seq<Seq<u8>>,
    count: int,
) -> bool {
    &&& count <= chain.len()
    &&& count <= ciphertexts.len()
    &&& forall|k: int|
        0 <= k < count ==> encrypts(
            layered(chain, headers, message, ciphertexts, k),
            seq![chain[k]],
            Ok(#[trigger] ciphertexts[k]),
        )
}

/// Whether `envelope` is `message` wrapped for the relays of `chain`, the first relay of the
/// chain innermost.
pub open spec fn is_envelope(
    encrypts: spec_fn(Seq<u8>, Seq<Seq<char>>, Result<Seq<u8>, Seq<char>>) -> bool,
    chain: Seq<Seq<char>>,
    headers: Seq<Seq<char>>,
    message: Seq<u8>,
    envelope: Seq<u8>,
) -> bool {
    exists|ciphertexts: Seq<Seq<u8>>|
        {
            &&& #[trigger] is_layering(
                encrypts,
                chain,
                headers,
                message,
                ciphertexts,
                chain.len() as int,
            )
            &&& envelope == layered(chain, headers, message, ciphertexts, chain.len() as int)
        }
}

/// Whether a back-end with the relation `encrypts` may refuse, in the words `refusal`, the
/// layer for the relay at `position` after it has given every layer before that one.
pub open spec fn is_refusal(
    encrypts: spec_fn(Seq<u8>, Seq<Seq<char>>, Result<Seq<u8>, Seq<char>>) -> bool,
    chain: Seq<Seq<char>>,
    headers: Seq<Seq<char>>,
    message: Seq<u8>,
    position: int,
    refusal: Seq<char>,
) -> bool {
    &&& 0 <= position < chain.len()
    &&& exists|ciphertexts: Seq<Seq<u8>>|
        {
            &&& #[trigger] is_layering(encrypts, chain, headers, message, ciphertexts, position)
            &&& encrypts(
                layered(chain, headers, message, ciphertexts, position),
                seq![chain[position]],
                Err(refusal),
            )
        }
}

/// What is left of `envelope` once the relays `hops` have opened it, the first of them first.
/// Each relay finds the header block that names it, takes the ciphertext behind it and hands
/// what `decrypt` makes of it to the next. `None` where a relay finds another header.
pub open spec fn opened(
    decrypt: spec_fn(Seq<char>, Seq<u8>) -> Seq<u8>,
    hops: Seq<Seq<char>>,
    headers: Seq<Seq<char>>,
    envelope: Seq<u8>,
) -> Option<Seq<u8>>
    decreases hops.len(),
{
    if hops.len() == 0 {
        Some(envelope)
    } else {
        let block = vstd::utf8::encode_utf8(crate::envelope::layer_header(hops[0], headers));
        if block.is_prefix_of(envelope) {
            opened(
                decrypt,
                hops.drop_first(),
                headers,
                decrypt(hops[0], envelope.skip(block.len() as int)),
            )
        } else {
            None
        }
    }
}

/// The first `count` layers come off in the reverse of the order in which they were put on.
proof fn lemma_layers_open(
    encrypts: spec_fn(Seq<u8>, Seq<Seq<char>>, Result<Seq<u8>, Seq<char>>) -> bool,
    decrypt: spec_fn(Seq<char>, Seq<u8>) -> Seq<u8>,
    chain: Seq<Seq<char>>,
    headers: Seq<Seq<char>>,
    message: Seq<u8>,
    ciphertexts: Seq<Seq<u8>>,
    count: int,
)
    requires
        0 <= count,
        is_layering(encrypts, chain, headers, message, ciphertexts, count),
        forall|input: Seq<u8>, relay: Seq<char>, ciphertext: Seq<u8>| #[trigger]
            encrypts(input, seq![relay], Ok(ciphertext)) ==> decrypt(relay, ciphertext) == input,
    ensures
        opened(
            decrypt,
            chain.take(count).reverse(),
            headers,
            layered(chain, headers, message, ciphertexts, count),
        ) == Some(message),
    decreases count,
{
    let hops = chain.take(count).reverse();
    if count > 0 {
        let relay = chain[count - 1];
        let ciphertext = ciphertexts[count - 1];
        let block = vstd::utf8::encode_utf8(crate::envelope::layer_header(relay, headers));
        let outer = layered(chain, headers, message, ciphertexts, count);
        let inner = layered(chain, headers, message, ciphertexts, count - 1);
        assert(hops[0] == relay);
        assert(outer == block + ciphertext);
        assert(outer.skip(block.len() as int) =~= ciphertext);
        assert(encrypts(inner, seq![relay], Ok(ciphertext)));
        assert(hops.drop_first() =~= chain.take(count - 1).reverse());
        lemma_layers_open(encrypts, decrypt, chain, headers, message, ciphertexts, count - 1);
    }
}

/// An envelope opens hop by hop. Take any `decrypt` that gives back, for each relay, what the
/// back-end encrypted for that relay alone. Then the relays of the chain, taken in the order in
/// which the envelope reaches them (the last relay of the chain first), each find the header
/// block that names them, and behind the innermost layer lies the message, byte for byte.
pub proof fn lemma_envelope_opens(
    encrypts: spec_fn(Seq<u8>, Seq<Seq<char>>, Result<Seq<u8>, Seq<char>>) -> bool,
    decrypt: spec_fn(Seq<char>, Seq<u8>) -> Seq<u8>,
    chain: Seq<Seq<char>>,
    headers: Seq<Seq<char>>,
    message: Seq<u8>,
    envelope: Seq<u8>,
)
    requires
        is_envelope(encrypts, chain, headers, message, envelope),
        forall|input: Seq<u8>, relay: Seq<char>, ciphertext: Seq<u8>| #[trigger]
            encrypts(input, seq![relay], Ok(ciphertext)) ==> decrypt(relay, ciphertext) == input,
    ensures
        opened(decrypt, chain.reverse(), headers, envelope) == Some(message),
{
    let ciphertexts = choose|ciphertexts: Seq<Seq<u8>>|
        {
            &&& #[trigger] is_layering(
                encrypts,
                chain,
                headers,
                message,
                ciphertexts,
                chain.len() as int,
            )
            &&& envelope == layered(chain, headers, message, ciphertexts, chain.len() as int)
        };
    lemma_layers_open(
        encrypts,
        decrypt,
        chain,
        headers,
        message,
        ciphertexts,
        chain.len() as int,
    );
    assert(chain.take(chain.len() as int) =~= chain);
}

/// Whether one of `failures` is about the key at `index`.
pub open spec fn reports(failures: Seq<KeyImportError>, index: int) -> bool {
    exists|i: int| 0 <= i < failures.len() && (#[trigger] failures[i]).index == index
}

/// Whether `failures` is what a back-end with the relation `imports` may report when it is
/// handed `keys` one by one: the keys that were not taken, in order, each with its place.
pub open spec fn is_import_report(
    imports: spec_fn(Seq<u8>, bool) -> bool,
    keys: Seq<Seq<u8>>,
    failures: Seq<KeyImportError>,
) -> bool {
    &&& forall|i: int| 0 <= i < failures.len() ==> (#[trigger] failures[i]).index < keys.len()
    &&& forall|i: int, j: int|
        0 <= i < j < failures.len() ==> (#[trigger] failures[i]).index < (
        #[trigger] failures[j]).index
    &&& forall|k: int| 0 <= k < keys.len() ==> imports(#[trigger] keys[k], !reports(failures, k))
}

/// Representation of a capable Cypherpunk core.
pub trait Cypherpunk {
    /// The answers that the core's back-end may give when it is handed a key: see
    /// `PGPBackend::imports`. Unless an implementation says more, any.
    open spec fn import_relation(&self) -> spec_fn(Seq<u8>, bool) -> bool {
        |key: Seq<u8>, accepted: bool| true
    }

    /// The answers that the core's back-end may give when it is asked to encrypt: see
    /// `PGPBackend::encrypts`. Unless an implementation says more, any.
    open spec fn encrypt_relation(&self) -> spec_fn(
        Seq<u8>,
        Seq<Seq<char>>,
        Result<Seq<u8>, Seq<char>>,
    ) -> bool {
        |input: Seq<u8>, recipients: Seq<Seq<char>>, answer: Result<Seq<u8>, Seq<char>>| true
    }

    /// Import the keys given to the PGP backend. A key that is not taken does not stop the
    /// others: every key is handed over, and the failures come back.
    fn import_keys(&self, keys: Vec<Vec<u8>>) -> (failures: Vec<KeyImportError>)
        ensures
            is_import_report(self.import_relation(), keys.deep_view(), failures@),
            keys.len() == 0 ==> failures.len() == 0,
    ;

    /// Encrypt the given message for the given chain with additional headers. The chain is
    /// walked from its first relay to its last, so the first relay's layer is the innermost.
    /// Where the back-end refuses a layer, no envelope comes back: the error names the relay
    /// and its place, and the layers before it were complete.
    fn encrypt_message(&self, chain: &Vec<String>, headers: &Vec<String>, message: Vec<u8>) -> (sealed:
        Result<Vec<u8>, EncryptionError>)
        ensures
            chain.len() == 0 ==> (sealed matches Ok(envelope) && envelope@ == message@),
            match sealed {
                Ok(envelope) => is_envelope(
                    self.encrypt_relation(),
                    chain.deep_view(),
                    headers.deep_view(),
                    message@,
                    envelope@,
                ),
                Err(e) => {
                    &&& e.position < chain.len()
                    &&& e.relay@ == chain[e.position as int]@
                    &&& is_refusal(
                        self.encrypt_relation(),
                        chain.deep_view(),
                        headers.deep_view(),
                        message@,
                        e.position as int,
                        e.cause.message@,
                    )
                },
            },
    ;
}

/// The actual Cypherpunk core associated with a PGPBackend.
pub struct CypherpunkCore<P: PGPBackend> {
    pgp: P,
}

impl<P: PGPBackend> CypherpunkCore<P> {
    /// The back-end that the core works with.
    pub closed spec fn backend(&self) -> P {
        self.pgp
    }

    /// Return a CypherpunkCore with P as PGPBackend.
    pub fn new(pgp: P) -> (core: Self)
        ensures
            core.backend() == pgp,
    {
        Self { pgp }
    }
}

impl<P: PGPBackend + Default> Default for CypherpunkCore<P> {
    /// A core with the back-end that `P::default` gives.
    fn default() -> (core: Self)
        ensures
            call_ensures(P::default, (), core.backend()),
    {
        Self { pgp: P::default() }
    }
}

impl<P: PGPBackend> Cypherpunk for CypherpunkCore<P> {
    open spec fn import_relation(&self) -> spec_fn(Seq<u8>, bool) -> bool {
        |key: Seq<u8>, accepted: bool| self.backend().imports(key, accepted)
    }

    open spec fn encrypt_relation(&self) -> spec_fn(
        Seq<u8>,
        Seq<Seq<char>>,
        Result<Seq<u8>, Seq<char>>,
    ) -> bool {
        |input: Seq<u8>, recipients: Seq<Seq<char>>, answer: Result<Seq<u8>, Seq<char>>|
            self.backend().encrypts(input, recipients, answer)
    }

    fn import_keys(&self, keys: Vec<Vec<u8>>) -> (failures: Vec<KeyImportError>) {
        let mut failures: Vec<KeyImportError> = Vec::new();
        let mut index: usize = 0;
        while index < keys.len()
            invariant
                index <= keys.len(),
                forall|i: int| 0 <= i < failures.len() ==> (#[trigger] failures[i]).index < index,
                forall|i: int, j: int|
                    0 <= i < j < failures.len() ==> (#[trigger] failures[i]).index < (
                    #[trigger] failures[j]).index,
                forall|k: int|
                    0 <= k < index ==> (self.import_relation())(
                        #[trigger] keys.deep_view()[k],
                        !reports(failures@, k),
                    ),
            decreases keys.len() - index,
        {
            let key = keys[index].clone();
            assert(key@ =~= keys.deep_view()[index as int]);
            let ghost before = failures@;
            let outcome = self.pgp.import_key(key);
            match outcome {
                Ok(_) => {},
                Err(cause) => {
                    failures.push(KeyImportError { index, cause });
                    assert(failures@[before.len() as int].index == index);
                },
            }
            proof {
                assert forall|k: int| 0 <= k < index implies reports(failures@, k) == reports(
                    before,
                    k,
                ) by {
                    if reports(failures@, k) {
                        let i = choose|i: int|
                            0 <= i < failures.len() && (#[trigger] failures[i]).index == k;
                        assert(before[i].index == k);
                    }
                    if reports(before, k) {
                        let i = choose|i: int|
                            0 <= i < before.len() && (#[trigger] before[i]).index == k;
                        assert(failures@[i].index == k);
                    }
                }
                assert(reports(failures@, index as int) == (outcome is Err));
            }
            index += 1;
        }
        assert(failures.len() > 0 ==> failures[0].index < keys.len());
        failures
    }

    fn encrypt_message(&self, chain: &Vec<String>, headers: &Vec<String>, message: Vec<u8>) -> (sealed:
        Result<Vec<u8>, EncryptionError>) {
        let mut envelope = message;
        let mut position: usize = 0;
        let ghost relays = chain.deep_view();
        let ghost extra = headers.deep_view();
        let ghost mut ciphertexts: Seq<Seq<u8>> = Seq::empty();
        while position < chain.len()
            invariant
                position <= chain.len(),
                relays == chain.deep_view(),
                extra == headers.deep_view(),
                ciphertexts.len() == position,
                is_layering(self.encrypt_relation(), relays, extra, message@, ciphertexts, position as int),
                envelope@ == layered(relays, extra, message@, ciphertexts, position as int),
            decreases chain.len() - position,
        {
            let relay = &chain[position];
            let mut recipients: Vec<String> = Vec::new();
            recipients.push(relay.clone());
            assert(recipients.deep_view() =~= seq![relays[position as int]]);
            let answer = self.pgp.encrypt(&envelope, recipients);
            let ghost seen = answer_view(answer);
            match crate::envelope::seal_layer(relay, headers, position, answer) {
                Ok(bytes) => {
                    proof {
                        let earlier = ciphertexts;
                        ciphertexts = ciphertexts.push(seen->Ok_0);
                        assert forall|k: int| 0 <= k <= position implies layered(
                            relays,
                            extra,
                            message@,
                            ciphertexts,
                            k,
                        ) == layered(relays, extra, message@, earlier, k) by {}
                    }
                    envelope = bytes;
                },
                Err(e) => {
                    return Err(e);
                },
            }
            position += 1;
        }
        Ok(envelope)
    }
}

} // verus!
