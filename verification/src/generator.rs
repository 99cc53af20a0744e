//! The derivation engine: from a seed, by rounds of hashing and
//! substitution, to a password that meets the policy.
//!
//! One round, a hop, replaces the working string by the substituted digest
//! text of itself. After the configured number of hops the engine goes on
//! hopping until a round's output is valid, and hands out its first
//! `length` characters. The number of such extra rounds is bounded.

use crate::digest::{
    digest, digest_bytes, digest_text, lemma_digest_text_len, max_digest_len, max_encoded_len,
};
use crate::encoding::{is_base64_char, lemma_encoded_alphabet};
use crate::substitution::{substitute, substituted};
use crate::text::{clipped, first_chars, trim, trimmed};
use crate::url_helper::{get_host, resolved_host};
use crate::validator::{
    all_kgpg_chars, all_password_chars, has_digit, has_lowercase, has_uppercase, is_kgpg_char,
    is_password_char, is_valid, meets_policy, MIN_PASSWORD_LEN,
};
use vstd::prelude::*;
use vstd::string::StringExecFns;
use vstd::utf8::encode_utf8;

pub use crate::config::{Config, GeneratorType, HashAlgorithm};
pub use crate::digest::{hash_md5, hash_sha512};
pub use crate::substitution::{apply_kgpg, apply_sgp};
pub use crate::validator::validate_password;

verus! {

/// The number of rounds that the engine adds at most, after the configured
/// hops, in search of a valid round.
pub const MAX_EXTRA_ROUNDS: u32 = 1000;

/// Why a derivation gave no password.
#[derive(Debug, Clone, Copy, PartialEq, Eq, Structural)]
pub enum DeriveError {
    /// The configured length exceeds what any digest text of the configured
    /// hash supplies.
    InvalidLength,
    /// No round within the bound gave a valid candidate.
    NoValidRound,
}

/// One hop: the substituted digest text of `current`.
pub open spec fn hop(current: Seq<char>, config: Config) -> Seq<char> {
    substituted(digest_text(current, config.hash_algorithm), config.generator_type)
}

/// The working string after `n` hops from `seed`.
pub open spec fn hops_applied(seed: Seq<char>, config: Config, n: nat) -> Seq<char>
    decreases n,
{
    if n == 0 {
        seed
    } else {
        hop(hops_applied(seed, config, (n - 1) as nat), config)
    }
}

/// The password that `current` settles to with `budget` more rounds at hand:
/// the first `length` characters of the first valid working string among
/// `current` and its next `budget` successors.
pub open spec fn settled(current: Seq<char>, config: Config, budget: nat) -> Result<
    Seq<char>,
    DeriveError,
>
    decreases budget,
{
    if is_valid(current, config) {
        Ok(current.take(config.length as int))
    } else if budget == 0 {
        Err(DeriveError::NoValidRound)
    } else {
        settled(hop(current, config), config, (budget - 1) as nat)
    }
}

/// The outcome of a derivation from `seed`.
///
/// Without hops the seed itself is handed out, cut to `length` characters
/// where it has more. With hops, a length beyond the digest text is refused
/// before anything is hashed; else the seed is hopped `hops` times and then
/// settled.
pub open spec fn derived(seed: Seq<char>, config: Config) -> Result<Seq<char>, DeriveError> {
    if config.hops == 0 {
        Ok(clipped(seed, config.length as nat))
    } else if config.length > max_encoded_len(config.hash_algorithm) {
        Err(DeriveError::InvalidLength)
    } else {
        settled(hops_applied(seed, config, config.hops as nat), config, MAX_EXTRA_ROUNDS as nat)
    }
}

/// The seed of a derivation: the trimmed master password, a colon, the
/// trimmed host.
pub open spec fn seed_of(master_password: Seq<char>, host: Seq<char>) -> Seq<char> {
    trimmed(master_password) + seq![':'] + trimmed(host)
}

/// The outcome of generating a password for `url`.
pub open spec fn generated(url: Seq<char>, master_password: Seq<char>, config: Config) -> Result<
    Seq<char>,
    DeriveError,
> {
    derived(seed_of(master_password, resolved_host(url, config.strip_subdomain)), config)
}

/// An outcome with its password as a sequence of characters.
pub open spec fn outcome_view(outcome: Result<String, DeriveError>) -> Result<
    Seq<char>,
    DeriveError,
> {
    match outcome {
        Ok(password) => Ok(password@),
        Err(e) => Err(e),
    }
}

/// A hop first or last makes no difference: `n` hops from the next working
/// string are `n + 1` hops from this one.
pub proof fn lemma_hops_shift(current: Seq<char>, config: Config, n: nat)
    ensures
        hops_applied(hop(current, config), config, n) == hops_applied(current, config, n + 1),
    decreases n,
{
    if n == 0 {
        assert(hops_applied(current, config, 0) == current);
        assert(hops_applied(current, config, 1) == hop(hops_applied(current, config, 0), config));
    } else {
        lemma_hops_shift(current, config, (n - 1) as nat);
        assert(hops_applied(current, config, n + 1) == hop(
            hops_applied(current, config, n),
            config,
        ));
    }
}

/// Hops add up: `n` hops after `m` hops are `m + n` hops.
pub proof fn lemma_hops_compose(seed: Seq<char>, config: Config, m: nat, n: nat)
    ensures
        hops_applied(hops_applied(seed, config, m), config, n) == hops_applied(seed, config, m + n),
    decreases n,
{
    if n > 0 {
        lemma_hops_compose(seed, config, m, (n - 1) as nat);
    }
}

/// Every hop yields exactly as many characters as a digest text has.
pub proof fn lemma_hop_len(current: Seq<char>, config: Config)
    ensures
        hop(current, config).len() == max_encoded_len(config.hash_algorithm),
{
    lemma_digest_text_len(current, config.hash_algorithm);
}

/// A hop leaves none of the reserved characters of base64: every character
/// of its output is a letter, a digit or one of `! # % @ $ &`, so that both
/// character sets of the policy admit it.
pub proof fn lemma_hop_alphabet(current: Seq<char>, config: Config)
    ensures
        all_password_chars(hop(current, config)),
        all_kgpg_chars(hop(current, config)),
{
    let text = digest_text(current, config.hash_algorithm);
    lemma_encoded_alphabet(digest_bytes(encode_utf8(current), config.hash_algorithm));
    let next = hop(current, config);
    assert forall|i: int| 0 <= i < next.len() implies is_password_char(#[trigger] next[i])
        && is_kgpg_char(next[i]) by {
        assert(is_base64_char(text[i]));
    }
}

/// Whether a hop's output is valid is a matter of the length and of the
/// three character classes alone.
pub proof fn lemma_hop_validity(current: Seq<char>, config: Config)
    ensures
        is_valid(hop(current, config), config) <==> {
            let password = hop(current, config).take(config.length as int);
            &&& MIN_PASSWORD_LEN <= config.length <= max_encoded_len(config.hash_algorithm)
            &&& has_lowercase(password)
            &&& has_uppercase(password)
            &&& has_digit(password)
        },
{
    lemma_hop_len(current, config);
    lemma_hop_alphabet(current, config);
    let next = hop(current, config);
    if config.length <= next.len() {
        let password = next.take(config.length as int);
        assert forall|i: int| 0 <= i < password.len() implies is_password_char(
            #[trigger] password[i],
        ) && is_kgpg_char(password[i]) by {
            assert(password[i] == next[i]);
        }
    }
}

/// Why a length beyond the digest text is refused at once: no hop could
/// ever give a valid candidate for it.
pub proof fn lemma_beyond_ceiling_never_valid(current: Seq<char>, config: Config)
    requires
        config.length > max_encoded_len(config.hash_algorithm),
    ensures
        !is_valid(hop(current, config), config),
{
    lemma_hop_len(current, config);
}

/// Settling hands out nothing but a password of exactly `length` characters
/// that meets the policy, and never complains of the length.
pub proof fn lemma_settled_sound(current: Seq<char>, config: Config, budget: nat)
    ensures
        settled(current, config, budget) matches Ok(password) ==> {
            &&& password.len() == config.length
            &&& meets_policy(password, config.generator_type)
        },
        settled(current, config, budget) matches Err(e) ==> e == DeriveError::NoValidRound,
    decreases budget,
{
    if !is_valid(current, config) && budget > 0 {
        lemma_settled_sound(hop(current, config), config, (budget - 1) as nat);
    }
}

/// Settling picks the first valid round: where the working string after `k`
/// more hops is valid, `k` is within the budget and no earlier one is
/// valid, the password is the first `length` characters of that string.
pub proof fn lemma_settled_first_valid(current: Seq<char>, config: Config, budget: nat, k: nat)
    requires
        k <= budget,
        is_valid(hops_applied(current, config, k), config),
        forall|j: nat| j < k ==> !is_valid(#[trigger] hops_applied(current, config, j), config),
    ensures
        settled(current, config, budget) == Ok::<Seq<char>, DeriveError>(
            hops_applied(current, config, k).take(config.length as int),
        ),
    decreases k,
{
    if k > 0 {
        assert(!is_valid(hops_applied(current, config, 0), config));
        let next = hop(current, config);
        lemma_hops_shift(current, config, (k - 1) as nat);
        assert forall|j: nat| j < k - 1 implies !is_valid(
            #[trigger] hops_applied(next, config, j),
            config,
        ) by {
            lemma_hops_shift(current, config, j);
            assert(!is_valid(hops_applied(current, config, j + 1), config));
        }
        lemma_settled_first_valid(next, config, (budget - 1) as nat, (k - 1) as nat);
    }
}

/// Settling gives up exactly where no round within the budget is valid.
pub proof fn lemma_settled_gives_up(current: Seq<char>, config: Config, budget: nat)
    requires
        forall|j: nat| j <= budget ==> !is_valid(#[trigger] hops_applied(current, config, j), config),
    ensures
        settled(current, config, budget) == Err::<Seq<char>, DeriveError>(
            DeriveError::NoValidRound,
        ),
    decreases budget,
{
    assert(!is_valid(hops_applied(current, config, 0), config));
    if budget > 0 {
        let next = hop(current, config);
        assert forall|j: nat| j <= budget - 1 implies !is_valid(
            #[trigger] hops_applied(next, config, j),
            config,
        ) by {
            lemma_hops_shift(current, config, j);
            assert(!is_valid(hops_applied(current, config, j + 1), config));
        }
        lemma_settled_gives_up(next, config, (budget - 1) as nat);
    }
}

/// With hops, a derivation that succeeds hands out exactly `length`
/// characters, and they meet the policy.
pub proof fn lemma_length_law(seed: Seq<char>, config: Config)
    requires
        config.hops > 0,
        derived(seed, config) is Ok,
    ensures
        derived(seed, config)->Ok_0.len() == config.length,
        meets_policy(derived(seed, config)->Ok_0, config.generator_type),
{
    lemma_settled_sound(
        hops_applied(seed, config, config.hops as nat),
        config,
        MAX_EXTRA_ROUNDS as nat,
    );
}

/// A derivation fails with `InvalidLength` exactly where it has hops to
/// make and the length exceeds the digest text of the hash: 24 characters
/// for MD5, 88 for SHA-512.
pub proof fn lemma_invalid_length(seed: Seq<char>, config: Config)
    ensures
        derived(seed, config) == Err::<Seq<char>, DeriveError>(DeriveError::InvalidLength) <==> {
            &&& config.hops > 0
            &&& config.length > max_encoded_len(config.hash_algorithm)
        },
        config.hops >= 1 && config.hash_algorithm == HashAlgorithm::MD5 && config.length > 24
            ==> derived(seed, config) == Err::<Seq<char>, DeriveError>(DeriveError::InvalidLength),
        config.hops >= 1 && config.hash_algorithm == HashAlgorithm::SHA512 && config.length > 88
            ==> derived(seed, config) == Err::<Seq<char>, DeriveError>(DeriveError::InvalidLength),
{
    lemma_settled_sound(
        hops_applied(seed, config, config.hops as nat),
        config,
        MAX_EXTRA_ROUNDS as nat,
    );
}

/// Without hops, a seed of no more than `length` characters comes back as
/// it is, and a longer one is cut to its first `length` characters; neither
/// is an error.
pub proof fn lemma_zero_hop_passthrough(seed: Seq<char>, config: Config)
    requires
        config.hops == 0,
    ensures
        config.length >= seed.len() ==> derived(seed, config) == Ok::<Seq<char>, DeriveError>(
            seed,
        ),
        config.length < seed.len() ==> derived(seed, config) == Ok::<Seq<char>, DeriveError>(
            seed.take(config.length as int),
        ),
{
}

/// With hops, the password is taken from the first valid round at or after
/// the last configured hop, as long as that round is within the bound.
pub proof fn lemma_derived_round(seed: Seq<char>, config: Config, k: nat)
    requires
        config.hops > 0,
        config.length <= max_encoded_len(config.hash_algorithm),
        k <= MAX_EXTRA_ROUNDS,
        is_valid(hops_applied(seed, config, config.hops as nat + k), config),
        forall|j: nat|
            j < k ==> !is_valid(#[trigger] hops_applied(seed, config, config.hops as nat + j), config),
    ensures
        derived(seed, config) == Ok::<Seq<char>, DeriveError>(
            hops_applied(seed, config, config.hops as nat + k).take(config.length as int),
        ),
{
    let start = hops_applied(seed, config, config.hops as nat);
    lemma_hops_compose(seed, config, config.hops as nat, k);
    assert forall|j: nat| j < k implies !is_valid(#[trigger] hops_applied(start, config, j), config) by {
        lemma_hops_compose(seed, config, config.hops as nat, j);
        assert(!is_valid(hops_applied(seed, config, config.hops as nat + j), config));
    }
    lemma_settled_first_valid(start, config, MAX_EXTRA_ROUNDS as nat, k);
}

/// A length under eight can never be met by hopping: with hops and such a
/// length the search for a valid round always runs out.
pub proof fn lemma_short_length_never_settles(seed: Seq<char>, config: Config)
    requires
        config.hops > 0,
        config.length < MIN_PASSWORD_LEN,
    ensures
        derived(seed, config) == Err::<Seq<char>, DeriveError>(DeriveError::NoValidRound),
{
    let start = hops_applied(seed, config, config.hops as nat);
    lemma_settled_gives_up(start, config, MAX_EXTRA_ROUNDS as nat);
}

/// The outcome is a function of the characters of the URL, the characters
/// of the master password and the configuration: whatever two calls of
/// `generate_password` on the same three return, it is the same.
pub proof fn lemma_generation_is_deterministic(
    url: Seq<char>,
    master_password: Seq<char>,
    config: Config,
    first: Result<String, DeriveError>,
    second: Result<String, DeriveError>,
)
    requires
        outcome_view(first) == generated(url, master_password, config),
        outcome_view(second) == generated(url, master_password, config),
    ensures
        outcome_view(first) == outcome_view(second),
        first is Ok <==> second is Ok,
        first matches Ok(p) ==> second matches Ok(q) && p@ == q@,
        first matches Err(e) ==> second == Err::<String, DeriveError>(e),
{
}

/// Performs one hop.
pub fn hop_once(current: &str, config: &Config) -> (next: String)
    ensures
        next@ == hop(current@, *config),
        next@.len() == max_encoded_len(config.hash_algorithm),
{
    let text = digest(current, config.hash_algorithm);
    substitute(text.as_str(), config.generator_type)
}

/// Hands out the first `length` characters of `candidate` if it is valid.
pub fn accept(candidate: &str, config: &Config) -> (password: Option<String>)
    ensures
        password is Some <==> is_valid(candidate@, *config),
        password matches Some(p) ==> p@ == candidate@.take(config.length as int),
{
    if validate_password(candidate, config) {
        Some(first_chars(candidate, config.length as usize))
    } else {
        None
    }
}

/// Hops on from `start` until a working string is valid, `start` itself
/// being the first to be tried, and hands out the first `length` characters
/// of that string. Gives up after `MAX_EXTRA_ROUNDS` hops.
pub fn settle(start: String, config: &Config) -> (outcome: Result<String, DeriveError>)
    ensures
        outcome_view(outcome) == settled(start@, *config, MAX_EXTRA_ROUNDS as nat),
{
    let mut current = start;
    let mut extra: u32 = 0;
    loop
        invariant
            extra <= MAX_EXTRA_ROUNDS,
            settled(start@, *config, MAX_EXTRA_ROUNDS as nat) == settled(
                current@,
                *config,
                (MAX_EXTRA_ROUNDS - extra) as nat,
            ),
        decreases MAX_EXTRA_ROUNDS - extra,
    {
        match accept(current.as_str(), config) {
            Some(password) => {
                return Ok(password);
            },
            None => {},
        }
        if extra == MAX_EXTRA_ROUNDS {
            return Err(DeriveError::NoValidRound);
        }
        current = hop_once(current.as_str(), config);
        extra += 1;
    }
}

/// Derives the password from the seed `password`.
///
/// Without hops nothing is hashed and the seed comes back, cut to `length`
/// characters where it has more. With hops, a length that no digest text of
/// the configured hash can supply is refused before anything is hashed.
/// Else the seed is hopped `hops` times, then further until a round is
/// valid, and the first `length` characters of that round are the password.
pub fn apply_password_hops(password: &str, config: &Config) -> (outcome: Result<
    String,
    DeriveError,
>)
    ensures
        outcome_view(outcome) == derived(password@, *config),
        outcome == Err::<String, DeriveError>(DeriveError::InvalidLength) <==> {
            &&& config.hops > 0
            &&& config.length > max_encoded_len(config.hash_algorithm)
        },
        config.hops == 0 ==> outcome is Ok,
        config.hops > 0 ==> (outcome matches Ok(p) ==> {
            &&& p@.len() == config.length
            &&& meets_policy(p@, config.generator_type)
        }),
{
    proof {
        lemma_invalid_length(password@, *config);
        if config.hops > 0 && derived(password@, *config) is Ok {
            lemma_length_law(password@, *config);
        }
    }
    if config.hops == 0 {
        return Ok(first_chars(password, config.length as usize));
    }
    if config.length > max_digest_len(config.hash_algorithm) {
        return Err(DeriveError::InvalidLength);
    }
    let mut current = password.to_owned();
    let mut round: u8 = 0;
    while round < config.hops
        invariant
            round <= config.hops,
            current@ == hops_applied(password@, *config, round as nat),
        decreases config.hops - round,
    {
        current = hop_once(current.as_str(), config);
        round += 1;
    }
    settle(current, config)
}

/// Builds the seed from a master password and a host.
pub fn make_seed(master_password: &str, host: &str) -> (seed: String)
    ensures
        seed@ == seed_of(master_password@, host@),
{
    let mut seed = trim(master_password);
    seed.push(':');
    let host = trim(host);
    seed.append(host.as_str());
    seed
}

/// Generates the password for the service at `url`.
///
/// The URL is resolved to its host, the seed is built from the trimmed
/// master password and the trimmed host, and the password is derived from
/// the seed. Nothing outside the three arguments is read.
pub fn generate_password(url: &str, master_password: &str, config: &Config) -> (outcome: Result<
    String,
    DeriveError,
>)
    ensures
        outcome_view(outcome) == generated(url@, master_password@, *config),
        outcome == Err::<String, DeriveError>(DeriveError::InvalidLength) <==> {
            &&& config.hops > 0
            &&& config.length > max_encoded_len(config.hash_algorithm)
        },
        config.hops == 0 ==> outcome is Ok,
        config.hops > 0 ==> (outcome matches Ok(p) ==> {
            &&& p@.len() == config.length
            &&& meets_policy(p@, config.generator_type)
        }),
{
    let host = get_host(url, &config.strip_subdomain);
    let seed = make_seed(master_password, host.as_str());
    apply_password_hops(seed.as_str(), config)
}

} // verus!
