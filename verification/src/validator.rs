//! The password policy: which candidates may be handed out as a password.
//!
//! Only the first `length` characters of a candidate are looked at. They must
//! hold a lowercase letter, an uppercase letter and a digit, consist of
//! admitted characters only and be at least eight. The KGPG variant admits
//! no punctuation but the targets of its own substitution table.

use crate::config::{Config, GeneratorType};
use vstd::prelude::*;

verus! {

/// The least number of characters of any valid password.
pub const MIN_PASSWORD_LEN: u8 = 8;

/// Whether `c` is one of `a` to `z`.
pub open spec fn is_lowercase(c: char) -> bool {
    'a' <= c <= 'z'
}

/// Whether `c` is one of `A` to `Z`.
pub open spec fn is_uppercase(c: char) -> bool {
    'A' <= c <= 'Z'
}

/// Whether `c` is one of `0` to `9`.
pub open spec fn is_digit(c: char) -> bool {
    '0' <= c <= '9'
}

/// The characters that any password may consist of: letters, digits and
/// `# ? ! @ $ % ^ & *`.
pub open spec fn is_password_char(c: char) -> bool {
    ||| is_lowercase(c)
    ||| is_uppercase(c)
    ||| is_digit(c)
    ||| c == '#'
    ||| c == '?'
    ||| c == '!'
    ||| c == '@'
    ||| c == '$'
    ||| c == '%'
    ||| c == '^'
    ||| c == '&'
    ||| c == '*'
}

/// The characters that a KGPG password may consist of: letters, digits and
/// `! # % @ $ &`.
pub open spec fn is_kgpg_char(c: char) -> bool {
    ||| is_lowercase(c)
    ||| is_uppercase(c)
    ||| is_digit(c)
    ||| c == '!'
    ||| c == '#'
    ||| c == '%'
    ||| c == '@'
    ||| c == '$'
    ||| c == '&'
}

/// Whether `s` holds a lowercase letter.
pub open spec fn has_lowercase(s: Seq<char>) -> bool {
    exists|i: int| 0 <= i < s.len() && is_lowercase(#[trigger] s[i])
}

/// Whether `s` holds an uppercase letter.
pub open spec fn has_uppercase(s: Seq<char>) -> bool {
    exists|i: int| 0 <= i < s.len() && is_uppercase(#[trigger] s[i])
}

/// Whether `s` holds a digit.
pub open spec fn has_digit(s: Seq<char>) -> bool {
    exists|i: int| 0 <= i < s.len() && is_digit(#[trigger] s[i])
}

/// Whether `s` consists of characters that any password may hold.
pub open spec fn all_password_chars(s: Seq<char>) -> bool {
    forall|i: int| 0 <= i < s.len() ==> is_password_char(#[trigger] s[i])
}

/// Whether `s` consists of characters that a KGPG password may hold.
pub open spec fn all_kgpg_chars(s: Seq<char>) -> bool {
    forall|i: int| 0 <= i < s.len() ==> is_kgpg_char(#[trigger] s[i])
}

/// Whether `password`, taken as a whole, meets the policy of `generator_type`.
pub open spec fn meets_policy(password: Seq<char>, generator_type: GeneratorType) -> bool {
    &&& password.len() >= MIN_PASSWORD_LEN
    &&& has_lowercase(password)
    &&& has_uppercase(password)
    &&& has_digit(password)
    &&& all_password_chars(password)
    &&& generator_type == GeneratorType::KGPG ==> all_kgpg_chars(password)
}

/// Whether `candidate` supplies `config.length` characters and its first
/// `config.length` characters meet the policy.
pub open spec fn is_valid(candidate: Seq<char>, config: Config) -> bool {
    &&& candidate.len() >= config.length
    &&& meets_policy(candidate.take(config.length as int), config.generator_type)
}

/// What one more character does to each predicate that the policy reads.
pub proof fn lemma_policy_push(s: Seq<char>, c: char)
    ensures
        has_lowercase(s.push(c)) == (has_lowercase(s) || is_lowercase(c)),
        has_uppercase(s.push(c)) == (has_uppercase(s) || is_uppercase(c)),
        has_digit(s.push(c)) == (has_digit(s) || is_digit(c)),
        all_password_chars(s.push(c)) == (all_password_chars(s) && is_password_char(c)),
        all_kgpg_chars(s.push(c)) == (all_kgpg_chars(s) && is_kgpg_char(c)),
{
    let t = s.push(c);
    let n = s.len() as int;
    assert(t[n] == c);
    assert(forall|i: int| 0 <= i < n ==> t[i] == s[i]);
    if has_lowercase(s) {
        let i = choose|i: int| 0 <= i < s.len() && is_lowercase(#[trigger] s[i]);
        assert(is_lowercase(t[i]));
    }
    if has_uppercase(s) {
        let i = choose|i: int| 0 <= i < s.len() && is_uppercase(#[trigger] s[i]);
        assert(is_uppercase(t[i]));
    }
    if has_digit(s) {
        let i = choose|i: int| 0 <= i < s.len() && is_digit(#[trigger] s[i]);
        assert(is_digit(t[i]));
    }
    if has_lowercase(t) && !is_lowercase(c) {
        let i = choose|i: int| 0 <= i < t.len() && is_lowercase(#[trigger] t[i]);
        assert(is_lowercase(s[i]));
    }
    if has_uppercase(t) && !is_uppercase(c) {
        let i = choose|i: int| 0 <= i < t.len() && is_uppercase(#[trigger] t[i]);
        assert(is_uppercase(s[i]));
    }
    if has_digit(t) && !is_digit(c) {
        let i = choose|i: int| 0 <= i < t.len() && is_digit(#[trigger] t[i]);
        assert(is_digit(s[i]));
    }
    if all_password_chars(t) {
        assert(is_password_char(t[n]));
        assert forall|i: int| 0 <= i < s.len() implies is_password_char(#[trigger] s[i]) by {
            assert(is_password_char(t[i]));
        }
    }
    if all_kgpg_chars(t) {
        assert(is_kgpg_char(t[n]));
        assert forall|i: int| 0 <= i < s.len() implies is_kgpg_char(#[trigger] s[i]) by {
            assert(is_kgpg_char(t[i]));
        }
    }
}

/// A candidate of exactly `config.length` characters, at least eight, that
/// holds a lowercase letter, an uppercase letter and a digit and consists of
/// admitted characters only is valid under the SGP policy.
pub proof fn lemma_sgp_accepts(candidate: Seq<char>, config: Config)
    requires
        config.generator_type == GeneratorType::SGP,
        config.length >= MIN_PASSWORD_LEN,
        candidate.len() == config.length,
        has_lowercase(candidate),
        has_uppercase(candidate),
        has_digit(candidate),
        all_password_chars(candidate),
    ensures
        is_valid(candidate, config),
{
    assert(candidate.take(config.length as int) =~= candidate);
}

/// Under the KGPG policy a candidate is invalid as soon as one of its first
/// `config.length` characters is neither a letter, a digit nor one of
/// `! # % @ $ &`, whatever else it holds.
pub proof fn lemma_kgpg_rejects(candidate: Seq<char>, config: Config, i: int)
    requires
        config.generator_type == GeneratorType::KGPG,
        0 <= i < config.length,
        i < candidate.len(),
        !is_kgpg_char(candidate[i]),
    ensures
        !is_valid(candidate, config),
{
    if candidate.len() >= config.length {
        assert(candidate.take(config.length as int)[i] == candidate[i]);
    }
}

/// A candidate that supplies fewer than `config.length` characters, or a
/// configured length under eight, is never valid.
pub proof fn lemma_short_is_invalid(candidate: Seq<char>, config: Config)
    requires
        candidate.len() < config.length || config.length < MIN_PASSWORD_LEN,
    ensures
        !is_valid(candidate, config),
{
}

/// Decides whether `password` may be handed out under `config`.
pub fn validate_password(password: &str, config: &Config) -> (valid: bool)
    ensures
        valid == is_valid(password@, *config),
{
    let n: usize = config.length as usize;
    let mut seen: usize = 0;
    let mut lower = false;
    let mut upper = false;
    let mut digit = false;
    let mut admitted = true;
    let mut kgpg = true;
    assert(password@.take(0) =~= Seq::<char>::empty());
    for c in it: password.chars()
        invariant
            it.seq() == password@,
            n == config.length,
            seen == if it.index() < n { it.index() } else { n as int },
            lower == has_lowercase(password@.take(seen as int)),
            upper == has_uppercase(password@.take(seen as int)),
            digit == has_digit(password@.take(seen as int)),
            admitted == all_password_chars(password@.take(seen as int)),
            kgpg == all_kgpg_chars(password@.take(seen as int)),
    {
        if seen < n {
            proof {
                lemma_policy_push(password@.take(seen as int), c);
                assert(password@.take(seen as int).push(c) =~= password@.take(seen as int + 1));
            }
            let is_lower = 'a' <= c && c <= 'z';
            let is_upper = 'A' <= c && c <= 'Z';
            let is_num = '0' <= c && c <= '9';
            let alnum = is_lower || is_upper || is_num;
            let shared = c == '!' || c == '#' || c == '%' || c == '@' || c == '$' || c == '&';
            lower = lower || is_lower;
            upper = upper || is_upper;
            digit = digit || is_num;
            admitted = admitted && (alnum || shared || c == '?' || c == '^' || c == '*');
            kgpg = kgpg && (alnum || shared);
            seen += 1;
        }
    }
    if seen < n {
        return false;
    }
    let strict = match config.generator_type {
        GeneratorType::KGPG => kgpg,
        GeneratorType::SGP => true,
    };
    config.length >= MIN_PASSWORD_LEN && lower && upper && digit && admitted && strict
}

} // verus!
