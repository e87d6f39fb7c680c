//! From the chain that the user asks for to the chain of addresses that a message takes.
//!
//! The user names each hop by a name that the config knows, or leaves the choice to chance
//! with the token `*`. A name that the config does not know is left out and reported, and a
//! chain in which nothing is left is an error.

use rand::rngs::ThreadRng;
use rand::seq::IteratorRandom;
use vstd::prelude::*;

use crate::config::RemailerMap;
use crate::text::str_equal;

verus! {

/// Why no chain of addresses could be made.
#[derive(Clone, Copy, Debug, PartialEq, Eq, Structural)]
pub enum ChainResolutionError {
    /// The token at `position` asks for a remailer drawn by chance, and there is none to draw.
    NoCandidate { position: usize },
    /// None of the tokens stands for a remailer.
    EmptyChain,
}

impl ChainResolutionError {
    /// A sentence for the operator.
    pub fn message(&self) -> (text: &'static str)
        ensures
            text@ == match *self {
                ChainResolutionError::NoCandidate { position } => "Can't choose a remailer randomly..."@,
                ChainResolutionError::EmptyChain => "No chain selected"@,
            },
    {
        match self {
            ChainResolutionError::NoCandidate { position } => "Can't choose a remailer randomly...",
            ChainResolutionError::EmptyChain => "No chain selected",
        }
    }
}

/// A chain of addresses, and the tokens that stood for no remailer.
#[derive(Debug, PartialEq, Eq)]
pub struct Resolution {
    /// The addresses, one for each token that stood for a remailer, in the order of the tokens.
    pub chain: Vec<String>,
    /// The tokens that were left out, in order.
    pub dropped: Vec<String>,
}

/// A resolution as the contracts see it.
pub struct ResolutionView {
    pub chain: Seq<Seq<char>>,
    pub dropped: Seq<Seq<char>>,
}

impl View for Resolution {
    type V = ResolutionView;

    open spec fn view(&self) -> ResolutionView {
        ResolutionView { chain: self.chain.deep_view(), dropped: self.dropped.deep_view() }
    }
}

/// The outcome of a resolution as the contracts see it.
pub open spec fn outcome_view(outcome: Result<Resolution, ChainResolutionError>) -> Result<
    ResolutionView,
    ChainResolutionError,
> {
    match outcome {
        Ok(resolution) => Ok(resolution@),
        Err(e) => Err(e),
    }
}

/// Whether the token leaves the choice of the remailer to chance.
pub open spec fn is_wildcard(token: Seq<char>) -> bool {
    token == "*"@
}

/// The place of the first wildcard among the tokens, if there is one.
pub open spec fn first_wildcard(tokens: Seq<Seq<char>>) -> Option<int>
    decreases tokens.len(),
{
    if tokens.len() == 0 {
        None
    } else {
        match first_wildcard(tokens.drop_last()) {
            Some(place) => Some(place),
            None => if is_wildcard(tokens.last()) {
                Some(tokens.len() - 1)
            } else {
                None
            },
        }
    }
}

/// Whether there is a draw for each token, and each draw for a wildcard picks one of the
/// remailers to draw from, if there is any.
pub open spec fn valid_draws(
    tokens: Seq<Seq<char>>,
    map: crate::config::RemailerMapView,
    draws: Seq<int>,
) -> bool {
    &&& draws.len() == tokens.len()
    &&& forall|i: int|
        0 <= i < tokens.len() && is_wildcard(#[trigger] tokens[i]) && map.enabled.len() > 0 ==> 0
            <= draws[i] < map.enabled.len()
}

/// The tokens taken one by one: a wildcard gives the remailer that its draw picks, a known
/// name gives its address, and any other token is left out and noted.
pub open spec fn walked(
    tokens: Seq<Seq<char>>,
    map: crate::config::RemailerMapView,
    draws: Seq<int>,
) -> ResolutionView
    decreases tokens.len(),
{
    if tokens.len() == 0 {
        ResolutionView { chain: Seq::empty(), dropped: Seq::empty() }
    } else {
        let before = walked(tokens.drop_last(), map, draws);
        let token = tokens.last();
        if is_wildcard(token) {
            ResolutionView {
                chain: before.chain.push(map.enabled[draws[tokens.len() - 1]]),
                ..before
            }
        } else if map.names.contains_key(token) {
            ResolutionView { chain: before.chain.push(map.names[token]), ..before }
        } else {
            ResolutionView { dropped: before.dropped.push(token), ..before }
        }
    }
}

/// What the tokens resolve to with the given draws. A wildcard with no remailer to draw from
/// is an error at the first such token, and so is a chain in which no address is left.
pub open spec fn resolved(
    tokens: Seq<Seq<char>>,
    map: crate::config::RemailerMapView,
    draws: Seq<int>,
) -> Result<ResolutionView, ChainResolutionError> {
    if map.enabled.len() == 0 && first_wildcard(tokens) is Some {
        Err(ChainResolutionError::NoCandidate { position: first_wildcard(tokens)->0 as usize })
    } else if walked(tokens, map, draws).chain.len() == 0 {
        Err(ChainResolutionError::EmptyChain)
    } else {
        Ok(walked(tokens, map, draws))
    }
}

/// Whether `outcome` is what the tokens resolve to with some draws.
pub open spec fn is_resolution(
    tokens: Seq<Seq<char>>,
    map: crate::config::RemailerMapView,
    outcome: Result<ResolutionView, ChainResolutionError>,
) -> bool {
    exists|draws: Seq<int>| #[trigger]
        valid_draws(tokens, map, draws) && outcome == resolved(tokens, map, draws)
}

/// `first_wildcard` gives the first place of a wildcard, and `None` only where there is none.
pub proof fn lemma_first_wildcard(tokens: Seq<Seq<char>>)
    ensures
        match first_wildcard(tokens) {
            Some(place) => {
                &&& 0 <= place < tokens.len()
                &&& is_wildcard(tokens[place])
                &&& forall|i: int| 0 <= i < place ==> !is_wildcard(#[trigger] tokens[i])
            },
            None => forall|i: int| 0 <= i < tokens.len() ==> !is_wildcard(#[trigger] tokens[i]),
        },
    decreases tokens.len(),
{
    if tokens.len() > 0 {
        lemma_first_wildcard(tokens.drop_last());
        assert(forall|i: int|
            0 <= i < tokens.len() - 1 ==> tokens.drop_last()[i] == #[trigger] tokens[i]);
    }
}

/// A chain that asks for a remailer by chance cannot be resolved where there is none to draw
/// from, whatever the draws: it is an error, never a shorter chain.
pub proof fn lemma_wildcard_needs_candidates(
    tokens: Seq<Seq<char>>,
    map: crate::config::RemailerMapView,
    draws: Seq<int>,
    place: int,
)
    requires
        0 <= place < tokens.len() <= usize::MAX,
        is_wildcard(tokens[place]),
        map.enabled.len() == 0,
    ensures
        resolved(tokens, map, draws) matches Err(ChainResolutionError::NoCandidate { position })
            && position <= place && is_wildcard(tokens[position as int]),
{
    lemma_first_wildcard(tokens);
}

/// The generator that `rand::thread_rng` hands out.
#[verifier::external_type_specification]
#[verifier::external_body]
pub struct ExThreadRng(ThreadRng);

/// Calls `rand::seq::IteratorRandom::choose` on the range `0..count`: one of the numbers below
/// `count`, drawn by chance, and `None` if and only if there is none.
#[verifier::external_body]
fn draw_index(rng: &mut ThreadRng, count: usize) -> (drawn: Option<usize>)
    ensures
        drawn is None <==> count == 0,
        drawn matches Some(index) ==> index < count,
{
    (0..count).choose(rng)
}

/// The draws as the contracts see them.
pub open spec fn draws_view(draws: Seq<usize>) -> Seq<int> {
    Seq::new(draws.len(), |i: int| draws[i] as int)
}

/// Whether the token leaves the choice of the remailer to chance.
pub fn asks_for_any(token: &String) -> (any: bool)
    ensures
        any == is_wildcard(token@),
{
    str_equal(token.as_str(), "*")
}

/// Resolves the tokens of a chain with draws that are given: `draws[i]` says which of the
/// remailers to draw from stands in for the token at `i`, if that token is a wildcard.
pub fn resolve_with(chain: &Vec<String>, remmap: &RemailerMap, draws: &Vec<usize>) -> (outcome:
    Result<Resolution, ChainResolutionError>)
    requires
        valid_draws(chain.deep_view(), remmap@, draws_view(draws@)),
    ensures
        outcome_view(outcome) == resolved(chain.deep_view(), remmap@, draws_view(draws@)),
{
    let ghost tokens = chain.deep_view();
    let ghost picks = draws_view(draws@);
    let enabled = remmap.enabled();
    let mut found: Vec<String> = Vec::new();
    let mut dropped: Vec<String> = Vec::new();
    assert(found.deep_view() =~= Seq::empty());
    assert(dropped.deep_view() =~= Seq::empty());
    let mut i: usize = 0;
    while i < chain.len()
        invariant
            i <= chain.len(),
            tokens == chain.deep_view(),
            picks == draws_view(draws@),
            valid_draws(tokens, remmap@, picks),
            enabled.deep_view() == remmap@.enabled,
            enabled.len() == 0 ==> first_wildcard(tokens.take(i as int)) is None,
            (ResolutionView { chain: found.deep_view(), dropped: dropped.deep_view() }) == walked(
                tokens.take(i as int),
                remmap@,
                picks,
            ),
        decreases chain.len() - i,
    {
        let token = &chain[i];
        let ghost chain_before = found.deep_view();
        let ghost dropped_before = dropped.deep_view();
        proof {
            assert(tokens.take(i + 1).drop_last() =~= tokens.take(i as int));
            assert(tokens.take(i + 1).last() == token@);
        }
        if asks_for_any(token) {
            if enabled.len() == 0 {
                proof {
                    lemma_first_wildcard(tokens);
                    lemma_first_wildcard(tokens.take(i as int));
                    assert(forall|j: int| 0 <= j < i ==> tokens.take(i as int)[j] == tokens[j]);
                    assert(is_wildcard(tokens[i as int]));
                }
                return Err(ChainResolutionError::NoCandidate { position: i });
            }
            assert(is_wildcard(tokens[i as int]));
            let pick = draws[i];
            found.push(enabled[pick].clone());
            assert(found.deep_view() =~= chain_before.push(remmap@.enabled[picks[i as int]]));
        } else {
            match remmap.get(token.as_str()) {
                Some(email) => {
                    found.push(email.clone());
                    assert(found.deep_view() =~= chain_before.push(remmap@.names[token@]));
                },
                None => {
                    dropped.push(token.clone());
                    assert(dropped.deep_view() =~= dropped_before.push(token@));
                },
            }
        }
        i += 1;
    }
    assert(tokens.take(i as int) =~= tokens);
    if found.len() == 0 {
        return Err(ChainResolutionError::EmptyChain);
    }
    Ok(Resolution { chain: found, dropped })
}

/// Make a chain of remailers with the given "user-defined" chain. Each wildcard is replaced by
/// a remailer drawn anew from those of the map, each known name by its address, and a name
/// that the map does not know is left out and listed among the dropped tokens.
pub fn make_chain(chain: &Vec<String>, remmap: &RemailerMap, rng: &mut ThreadRng) -> (outcome:
    Result<Resolution, ChainResolutionError>)
    ensures
        is_resolution(chain.deep_view(), remmap@, outcome_view(outcome)),
        first_wildcard(chain.deep_view()) is None ==> outcome_view(outcome) == resolved(
            chain.deep_view(),
            remmap@,
            Seq::new(chain.len() as nat, |i: int| 0int),
        ),
        first_wildcard(chain.deep_view()) is Some && remmap@.enabled.len() == 0 ==> outcome
            == Err::<Resolution, ChainResolutionError>(
            ChainResolutionError::NoCandidate {
                position: first_wildcard(chain.deep_view())->0 as usize,
            },
        ),
{
    let ghost tokens = chain.deep_view();
    let count = remmap.enabled().len();
    let mut draws: Vec<usize> = Vec::new();
    let mut i: usize = 0;
    while i < chain.len()
        invariant
            i <= chain.len(),
            tokens == chain.deep_view(),
            count == remmap@.enabled.len(),
            draws.len() == i,
            forall|j: int|
                0 <= j < i && is_wildcard(#[trigger] tokens[j]) && count > 0 ==> draws@[j] < count,
            forall|j: int| 0 <= j < i && !is_wildcard(#[trigger] tokens[j]) ==> draws@[j] == 0,
        decreases chain.len() - i,
    {
        let draw: usize = if asks_for_any(&chain[i]) {
            match draw_index(rng, count) {
                Some(index) => index,
                None => 0,
            }
        } else {
            0
        };
        draws.push(draw);
        i += 1;
    }
    let outcome = resolve_with(chain, remmap, &draws);
    proof {
        let picks = draws_view(draws@);
        assert(valid_draws(tokens, remmap@, picks));
        if first_wildcard(tokens) is None {
            lemma_first_wildcard(tokens);
            assert forall|j: int| 0 <= j < chain.len() implies picks[j] == 0 by {
                assert(!is_wildcard(tokens[j]));
            }
            assert(picks =~= Seq::new(chain.len() as nat, |i: int| 0int));
        }
    }
    outcome
}

/// Resolves the chain once for each of `redundancy` attempts, each with draws of its own. If
/// one attempt cannot be resolved, none is: the error of the first such attempt comes back.
pub fn resolve(chain: &Vec<String>, remmap: &RemailerMap, redundancy: u8, rng: &mut ThreadRng) -> (outcome:
    Result<Vec<Resolution>, ChainResolutionError>)
    ensures
        match outcome {
            Ok(chains) => {
                &&& chains.len() == redundancy
                &&& forall|k: int|
                    0 <= k < chains.len() ==> is_resolution(
                        chain.deep_view(),
                        remmap@,
                        Ok((#[trigger] chains[k])@),
                    )
            },
            Err(e) => redundancy > 0 && is_resolution(chain.deep_view(), remmap@, Err(e)),
        },
{
    let mut chains: Vec<Resolution> = Vec::new();
    let mut attempt: u8 = 0;
    while attempt < redundancy
        invariant
            attempt <= redundancy,
            chains.len() == attempt,
            forall|k: int|
                0 <= k < chains.len() ==> is_resolution(
                    chain.deep_view(),
                    remmap@,
                    Ok((#[trigger] chains[k])@),
                ),
        decreases redundancy - attempt,
    {
        match make_chain(chain, remmap, rng) {
            Ok(resolution) => {
                chains.push(resolution);
            },
            Err(e) => {
                return Err(e);
            },
        }
        attempt += 1;
    }
    Ok(chains)
}

} // verus!
