//! The remailers that the user has configured, their keys and their names.

use vstd::hash_map::StringHashMap;
use vstd::prelude::*;
use vstd::string::*;

use crate::{Cypherpunk, KeyImportError};

verus! {

/// The number of characters in front of the key data of a configured key.
pub const KEY_PREFIX: usize = 7;

/// A representation for a remailer value in the JSON config needed.
#[derive(Debug, PartialEq, Eq)]
pub struct RemailerEntry {
    /// The names that the remailer goes by.
    pub name: Vec<String>,
    /// The address of the remailer.
    pub email: String,
    /// Whether the remailer is to be used.
    pub enable: bool,
    /// The key of the remailer: seven characters that are no key data, then the key in base64.
    pub key: String,
}

/// A representation for the JSON config needed.
#[derive(Debug, PartialEq, Eq)]
pub struct RemailerConfig {
    pub version: String,
    pub authors: Vec<String>,
    pub remailers: Vec<RemailerEntry>,
}

/// A configured remailer as the contracts see it.
pub struct RemailerEntryView {
    pub name: Seq<Seq<char>>,
    pub email: Seq<char>,
    pub enable: bool,
    pub key: Seq<char>,
}

impl View for RemailerEntry {
    type V = RemailerEntryView;

    open spec fn view(&self) -> RemailerEntryView {
        RemailerEntryView {
            name: self.name.deep_view(),
            email: self.email@,
            enable: self.enable,
            key: self.key@,
        }
    }
}

/// The configured remailers of a list as the contracts see them.
pub open spec fn entries_view(entries: Seq<RemailerEntry>) -> Seq<RemailerEntryView> {
    Seq::new(entries.len(), |i: int| entries[i]@)
}

/// Why a configured key cannot be had.
#[derive(Clone, Copy, Debug, PartialEq, Eq, Structural)]
pub enum ConfigError {
    /// The key is shorter than the characters that stand in front of the key data.
    ShortKey,
    /// What follows those characters is no base64.
    UndecodableKey,
}

impl ConfigError {
    /// A sentence for the operator.
    pub fn message(&self) -> (text: &'static str)
        ensures
            text@ == match *self {
                ConfigError::ShortKey => "The key is too short to hold any key data!"@,
                ConfigError::UndecodableKey => "Can't decode the base64-encoded key!"@,
            },
    {
        match self {
            ConfigError::ShortKey => "The key is too short to hold any key data!",
            ConfigError::UndecodableKey => "Can't decode the base64-encoded key!",
        }
    }
}

/// The bytes that `base64::decode` gives for a text, or `None` where it refuses the text.
pub uninterp spec fn base64_decoded(text: Seq<char>) -> Option<Seq<u8>>;

/// The error of `base64::decode`.
#[verifier::external_type_specification]
#[verifier::external_body]
pub struct ExDecodeError(base64::DecodeError);

/// Calls `base64::decode`, which reads the text in the crate's `STANDARD` configuration. What
/// it gives depends on the text alone, and `base64_decoded` is the name of it. The crate
/// panics only on a text within seven bytes of the largest `usize`, which no string in memory
/// is.
#[verifier::external_body]
fn decode_base64(text: &str) -> (decoded: Result<Vec<u8>, base64::DecodeError>)
    ensures
        match decoded {
            Ok(bytes) => base64_decoded(text@) == Some(bytes@),
            Err(_) => base64_decoded(text@) is None,
        },
{
    base64::decode(text)
}

/// The key that a configured text stands for: what `base64_decoded` makes of the text behind
/// its first seven characters.
pub open spec fn key_of(key: Seq<char>) -> Result<Seq<u8>, ConfigError> {
    if key.len() < KEY_PREFIX {
        Err(ConfigError::ShortKey)
    } else {
        match base64_decoded(key.skip(KEY_PREFIX as int)) {
            Some(bytes) => Ok(bytes),
            None => Err(ConfigError::UndecodableKey),
        }
    }
}

/// The keys of the remailers that are enabled and whose key can be had, in order.
pub open spec fn enabled_keys_of(entries: Seq<RemailerEntryView>) -> Seq<Seq<u8>>
    decreases entries.len(),
{
    if entries.len() == 0 {
        Seq::empty()
    } else {
        let before = enabled_keys_of(entries.drop_last());
        match key_of(entries.last().key) {
            Ok(bytes) => if entries.last().enable {
                before.push(bytes)
            } else {
                before
            },
            Err(_) => before,
        }
    }
}

/// What the decoder's answer means for a key: its bytes, or that the key cannot be decoded.
pub fn key_from(decoded: Result<Vec<u8>, base64::DecodeError>) -> (key: Result<Vec<u8>, ConfigError>)
    ensures
        match decoded {
            Ok(bytes) => key == Ok::<Vec<u8>, ConfigError>(bytes),
            Err(_) => key == Err::<Vec<u8>, ConfigError>(ConfigError::UndecodableKey),
        },
{
    match decoded {
        Ok(bytes) => Ok(bytes),
        Err(_) => Err(ConfigError::UndecodableKey),
    }
}

impl RemailerEntry {
    /// Return if this remailer is enable in the config.
    pub fn is_enabled(&self) -> (enabled: bool)
        ensures
            enabled == self@.enable,
    {
        self.enable
    }

    /// Return and decode the key of this remailer.
    pub fn into_key(&self) -> (key: Result<Vec<u8>, ConfigError>)
        ensures
            match key_of(self@.key) {
                Ok(bytes) => key matches Ok(k) && k@ == bytes,
                Err(e) => key == Err::<Vec<u8>, ConfigError>(e),
            },
    {
        let text = self.key.as_str();
        let length = text.unicode_len();
        if length < KEY_PREFIX {
            return Err(ConfigError::ShortKey);
        }
        let data = text.substring_char(KEY_PREFIX, length);
        assert(data@ =~= self.key@.skip(KEY_PREFIX as int));
        key_from(decode_base64(data))
    }
}

/// The keys of the remailers that are enabled and whose key can be had, in order.
pub fn enabled_keys(remailers: &Vec<RemailerEntry>) -> (keys: Vec<Vec<u8>>)
    ensures
        keys.deep_view() == enabled_keys_of(entries_view(remailers@)),
{
    let ghost all = entries_view(remailers@);
    let mut keys: Vec<Vec<u8>> = Vec::new();
    assert(keys.deep_view() =~= Seq::empty());
    let mut i: usize = 0;
    while i < remailers.len()
        invariant
            i <= remailers.len(),
            all == entries_view(remailers@),
            keys.deep_view() == enabled_keys_of(all.take(i as int)),
        decreases remailers.len() - i,
    {
        let ghost before = keys.deep_view();
        proof {
            assert(all.take(i + 1).drop_last() =~= all.take(i as int));
            assert(all.take(i + 1).last() == remailers[i as int]@);
        }
        let remailer = &remailers[i];
        if remailer.is_enabled() {
            match remailer.into_key() {
                Ok(key) => {
                    keys.push(key);
                    assert(keys.deep_view() =~~= before.push(key@));
                },
                Err(_) => {},
            }
        }
        i += 1;
    }
    assert(all.take(i as int) =~= all);
    keys
}

/// The names under which remailers can be asked for, and the remailers to draw from.
pub struct RemailerMap {
    names: StringHashMap<String>,
    enabled: Vec<String>,
}

/// A `RemailerMap` as the contracts see it.
pub struct RemailerMapView {
    /// The address for each name, alias or address that stands for an enabled remailer.
    pub names: Map<Seq<char>, Seq<char>>,
    /// The addresses of the enabled remailers, in the order of the config.
    pub enabled: Seq<Seq<char>>,
}

/// The names with the aliases of one remailer added: each alias stands for the address, and
/// a later alias replaces an earlier one of the same text.
pub open spec fn with_aliases(
    names: Map<Seq<char>, Seq<char>>,
    aliases: Seq<Seq<char>>,
    email: Seq<char>,
) -> Map<Seq<char>, Seq<char>>
    decreases aliases.len(),
{
    if aliases.len() == 0 {
        names
    } else {
        with_aliases(names, aliases.drop_last(), email).insert(aliases.last(), email)
    }
}

/// The names that the remailers of a config can be asked for by: for each enabled remailer its
/// address and its aliases, all standing for its address. Where two remailers share a name,
/// the later one has it.
pub open spec fn names_of(entries: Seq<RemailerEntryView>) -> Map<Seq<char>, Seq<char>>
    decreases entries.len(),
{
    if entries.len() == 0 {
        Map::empty()
    } else {
        let before = names_of(entries.drop_last());
        let entry = entries.last();
        if entry.enable {
            with_aliases(before.insert(entry.email, entry.email), entry.name, entry.email)
        } else {
            before
        }
    }
}

/// The addresses of the enabled remailers of a config, in order.
pub open spec fn enabled_of(entries: Seq<RemailerEntryView>) -> Seq<Seq<char>>
    decreases entries.len(),
{
    if entries.len() == 0 {
        Seq::empty()
    } else if entries.last().enable {
        enabled_of(entries.drop_last()).push(entries.last().email)
    } else {
        enabled_of(entries.drop_last())
    }
}

impl View for RemailerMap {
    type V = RemailerMapView;

    closed spec fn view(&self) -> RemailerMapView {
        RemailerMapView {
            names: self.names@.map_values(|email: String| email@),
            enabled: self.enabled.deep_view(),
        }
    }
}

impl RemailerMap {
    /// A map without names and without remailers.
    pub fn new() -> (map: Self)
        ensures
            map@.names == Map::<Seq<char>, Seq<char>>::empty(),
            map@.enabled == Seq::<Seq<char>>::empty(),
    {
        let map = RemailerMap { names: StringHashMap::new(), enabled: Vec::new() };
        assert(map@.names =~= Map::empty());
        assert(map@.enabled =~= Seq::empty());
        map
    }

    /// Lets `name` stand for the remailer at `email`.
    pub fn insert(&mut self, name: String, email: String)
        ensures
            final(self)@.names == old(self)@.names.insert(name@, email@),
            final(self)@.enabled == old(self)@.enabled,
    {
        let ghost before = self@.names;
        self.names.insert(name, email);
        assert(self@.names =~= before.insert(name@, email@));
    }

    /// Adds a remailer to draw from.
    pub fn enable(&mut self, email: String)
        ensures
            final(self)@.names == old(self)@.names,
            final(self)@.enabled == old(self)@.enabled.push(email@),
    {
        let ghost before = self@.enabled;
        self.enabled.push(email);
        assert(self@.enabled =~= before.push(email@));
    }

    /// The address of the remailer that `name` stands for.
    pub fn get(&self, name: &str) -> (email: Option<&String>)
        ensures
            match email {
                Some(found) => self@.names.contains_key(name@) && found@ == self@.names[name@],
                None => !self@.names.contains_key(name@),
            },
    {
        self.names.get(name)
    }

    /// The addresses of the remailers to draw from.
    pub fn enabled(&self) -> (enabled: &Vec<String>)
        ensures
            enabled.deep_view() == self@.enabled,
    {
        &self.enabled
    }
}

/// Make a map of name-to-remailer from a list of remailers: every enabled remailer can be
/// asked for by its address and by each of its aliases, and is one of those to draw from.
pub fn remailer_map(remailers: Vec<RemailerEntry>) -> (map: RemailerMap)
    ensures
        map@.names == names_of(entries_view(remailers@)),
        map@.enabled == enabled_of(entries_view(remailers@)),
{
    let ghost all = entries_view(remailers@);
    let mut map = RemailerMap::new();
    let mut i: usize = 0;
    while i < remailers.len()
        invariant
            i <= remailers.len(),
            all == entries_view(remailers@),
            map@.names == names_of(all.take(i as int)),
            map@.enabled == enabled_of(all.take(i as int)),
        decreases remailers.len() - i,
    {
        proof {
            assert(all.take(i + 1).drop_last() =~= all.take(i as int));
            assert(all.take(i + 1).last() == remailers[i as int]@);
        }
        let remailer = &remailers[i];
        if remailer.enable {
            map.enable(remailer.email.clone());
            map.insert(remailer.email.clone(), remailer.email.clone());
            let ghost start = map@.names;
            let ghost aliases = remailer.name.deep_view();
            let mut k: usize = 0;
            while k < remailer.name.len()
                invariant
                    k <= remailer.name.len(),
                    aliases == remailer.name.deep_view(),
                    map@.names == with_aliases(start, aliases.take(k as int), remailer.email@),
                    map@.enabled == enabled_of(all.take(i + 1)),
                decreases remailer.name.len() - k,
            {
                proof {
                    assert(aliases.take(k + 1).drop_last() =~= aliases.take(k as int));
                    assert(aliases.take(k + 1).last() == remailer.name[k as int]@);
                }
                map.insert(remailer.name[k].clone(), remailer.email.clone());
                k += 1;
            }
            assert(aliases.take(k as int) =~= aliases);
        }
        i += 1;
    }
    assert(all.take(i as int) =~= all);
    map
}

/// Import remailers' key in the Cypherpunk core from a vec of remailer. It will only import
/// enabled remailers, and passes over a key that cannot be decoded. What comes back are the
/// keys that the core's back-end did not take, each with its place among the keys handed over.
pub fn import_keys<C: Cypherpunk>(core: &C, remailers: &Vec<RemailerEntry>) -> (failures: Vec<
    KeyImportError,
>)
    ensures
        crate::is_import_report(
            core.import_relation(),
            enabled_keys_of(entries_view(remailers@)),
            failures@,
        ),
{
    let keys = enabled_keys(remailers);
    core.import_keys(keys)
}

} // verus!
