use cypherpunk::chain::{
    asks_for_any, make_chain, resolve, resolve_with, ChainResolutionError, Resolution,
};
use cypherpunk::config::{
    enabled_keys, import_keys, key_from, remailer_map, ConfigError, RemailerEntry, RemailerMap,
};
use cypherpunk::{CypherpunkCore, KeyImportError, PGPBackend, PgpError};

fn strings(items: &[&str]) -> Vec<String> {
    items.iter().map(|s| s.to_string()).collect()
}

fn entry(names: &[&str], email: &str, enable: bool, key: &str) -> RemailerEntry {
    RemailerEntry { name: strings(names), email: email.to_string(), enable, key: key.to_string() }
}

fn config() -> Vec<RemailerEntry> {
    vec![
        entry(&["paranoia", "para"], "mixmaster@paranoici.org", true, "base64:aGVsbG8="),
        entry(&["off"], "off@x.org", false, "base64:d29ybGQ="),
        entry(&["dizum"], "remailer@dizum.com", true, "base64:!!!"),
        entry(&["para"], "second@x.org", true, "short"),
    ]
}

/// A back-end that takes every key but `world`.
struct Picky;

impl PGPBackend for Picky {
    fn import_key(&self, key: Vec<u8>) -> Result<(), PgpError> {
        if key == b"world" {
            Err(PgpError { message: "not this one".to_string() })
        } else {
            Ok(())
        }
    }

    fn encrypt(&self, input: &Vec<u8>, _recipients: Vec<String>) -> Result<Vec<u8>, PgpError> {
        Ok(input.clone())
    }
}

#[test]
fn keys_lose_their_prefix_and_are_decoded() {
    assert_eq!(entry(&["a"], "a", true, "base64:aGVsbG8=").into_key(), Ok(b"hello".to_vec()));
    assert_eq!(entry(&["a"], "a", true, "1234567").into_key(), Ok(vec![]));
    assert_eq!(entry(&["a"], "a", true, "ééééééé/w==").into_key(), Ok(vec![0xff]));
}

#[test]
fn keys_that_cannot_be_had() {
    assert_eq!(entry(&["a"], "a", true, "123456").into_key(), Err(ConfigError::ShortKey));
    assert_eq!(entry(&["a"], "a", true, "").into_key(), Err(ConfigError::ShortKey));
    assert_eq!(
        entry(&["a"], "a", true, "base64:a").into_key(),
        Err(ConfigError::UndecodableKey)
    );
    assert_eq!(
        entry(&["a"], "a", true, "base64:aGVs bG8=").into_key(),
        Err(ConfigError::UndecodableKey)
    );
    assert_eq!(key_from(Err(base64::DecodeError::InvalidLength)), Err(ConfigError::UndecodableKey));
    assert_eq!(key_from(Ok(vec![1, 2])), Ok(vec![1, 2]));
    assert_eq!(ConfigError::ShortKey.message(), "The key is too short to hold any key data!");
    assert_eq!(ConfigError::UndecodableKey.message(), "Can't decode the base64-encoded key!");
}

#[test]
fn only_enabled_remailers_give_keys() {
    assert!(entry(&[], "a", true, "").is_enabled());
    assert!(!entry(&[], "a", false, "").is_enabled());
    assert_eq!(enabled_keys(&config()), vec![b"hello".to_vec()]);
    let mut all = config();
    all[1].enable = true;
    assert_eq!(enabled_keys(&all), vec![b"hello".to_vec(), b"world".to_vec()]);
    let core = CypherpunkCore::new(Picky);
    assert!(import_keys(&core, &config()).is_empty());
    assert_eq!(
        import_keys(&core, &all),
        vec![KeyImportError { index: 1, cause: PgpError { message: "not this one".to_string() } }]
    );
}

#[test]
fn the_map_knows_addresses_and_aliases_of_enabled_remailers() {
    let map = remailer_map(config());
    assert_eq!(map.get("paranoia"), Some(&"mixmaster@paranoici.org".to_string()));
    assert_eq!(map.get("mixmaster@paranoici.org"), Some(&"mixmaster@paranoici.org".to_string()));
    assert_eq!(map.get("dizum"), Some(&"remailer@dizum.com".to_string()));
    assert_eq!(map.get("para"), Some(&"second@x.org".to_string()));
    assert_eq!(map.get("off"), None);
    assert_eq!(map.get("off@x.org"), None);
    assert_eq!(
        map.enabled(),
        &strings(&["mixmaster@paranoici.org", "remailer@dizum.com", "second@x.org"])
    );
    let empty = remailer_map(vec![]);
    assert!(empty.enabled().is_empty());
    assert_eq!(empty.get("x"), None);
}

#[test]
fn a_map_made_by_hand() {
    let mut map = RemailerMap::new();
    map.insert("a".to_string(), "a@x.org".to_string());
    map.insert("a".to_string(), "b@x.org".to_string());
    map.enable("c@x.org".to_string());
    assert_eq!(map.get("a"), Some(&"b@x.org".to_string()));
    assert_eq!(map.enabled(), &strings(&["c@x.org"]));
}

#[test]
fn the_wildcard_is_the_star() {
    assert!(asks_for_any(&"*".to_string()));
    assert!(!asks_for_any(&"**".to_string()));
    assert!(!asks_for_any(&"".to_string()));
    assert!(!asks_for_any(&"dizum".to_string()));
}

#[test]
fn given_draws_decide_the_wildcards() {
    let map = remailer_map(config());
    let chain = strings(&["dizum", "*", "nobody", "*", "para", "nowhere"]);
    let outcome = resolve_with(&chain, &map, &vec![9, 2, 9, 0, 9, 9]);
    assert_eq!(
        outcome,
        Ok(Resolution {
            chain: strings(&[
                "remailer@dizum.com",
                "second@x.org",
                "mixmaster@paranoici.org",
                "second@x.org"
            ]),
            dropped: strings(&["nobody", "nowhere"]),
        })
    );
}

#[test]
fn a_chain_of_unknown_names_is_empty() {
    let map = remailer_map(config());
    let chain = strings(&["nobody", "off"]);
    assert_eq!(resolve_with(&chain, &map, &vec![0, 0]), Err(ChainResolutionError::EmptyChain));
    assert_eq!(resolve_with(&vec![], &map, &vec![]), Err(ChainResolutionError::EmptyChain));
    let mut rng = rand::thread_rng();
    assert_eq!(make_chain(&chain, &map, &mut rng), Err(ChainResolutionError::EmptyChain));
    assert_eq!(resolve(&chain, &map, 3, &mut rng), Err(ChainResolutionError::EmptyChain));
    assert_eq!(resolve(&chain, &map, 0, &mut rng), Ok(vec![]));
}

#[test]
fn wildcards_without_remailers_are_an_error() {
    let map = remailer_map(vec![entry(&["off"], "off@x.org", false, "")]);
    let mut rng = rand::thread_rng();
    let chain = strings(&["*", "*", "*"]);
    assert_eq!(
        make_chain(&chain, &map, &mut rng),
        Err(ChainResolutionError::NoCandidate { position: 0 })
    );
    assert_eq!(
        resolve_with(&chain, &map, &vec![0, 0, 0]),
        Err(ChainResolutionError::NoCandidate { position: 0 })
    );
    assert_eq!(
        make_chain(&strings(&["off", "*"]), &map, &mut rng),
        Err(ChainResolutionError::NoCandidate { position: 1 })
    );
    assert_eq!(
        resolve(&chain, &map, 2, &mut rng),
        Err(ChainResolutionError::NoCandidate { position: 0 })
    );
    assert_eq!(
        ChainResolutionError::NoCandidate { position: 0 }.message(),
        "Can't choose a remailer randomly..."
    );
    assert_eq!(ChainResolutionError::EmptyChain.message(), "No chain selected");
}

#[test]
fn drawn_remailers_are_enabled_ones() {
    let map = remailer_map(config());
    let mut rng = rand::thread_rng();
    let chain = strings(&["*", "dizum", "*", "nobody"]);
    let mut seen = std::collections::HashSet::new();
    for _ in 0..200 {
        let resolution = make_chain(&chain, &map, &mut rng).unwrap();
        assert_eq!(resolution.chain.len(), 3);
        assert_eq!(resolution.chain[1], "remailer@dizum.com");
        assert_eq!(resolution.dropped, strings(&["nobody"]));
        for k in [0, 2] {
            assert!(map.enabled().contains(&resolution.chain[k]));
            seen.insert(resolution.chain[k].clone());
        }
    }
    assert_eq!(seen.len(), 3);
}

#[test]
fn one_resolution_for_each_attempt() {
    let map = remailer_map(config());
    let mut rng = rand::thread_rng();
    let chains = resolve(&strings(&["*", "paranoia"]), &map, 5, &mut rng).unwrap();
    assert_eq!(chains.len(), 5);
    for resolution in &chains {
        assert_eq!(resolution.chain.len(), 2);
        assert_eq!(resolution.chain[1], "mixmaster@paranoici.org");
        assert!(resolution.dropped.is_empty());
    }
    let literal = resolve(&strings(&["dizum", "paranoia"]), &map, 2, &mut rng).unwrap();
    assert_eq!(literal[0], literal[1]);
    assert_eq!(literal[0].chain, strings(&["remailer@dizum.com", "mixmaster@paranoici.org"]));
}
