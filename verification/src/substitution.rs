//! The substitution cipher: it rewrites the reserved characters of base64
//! text into the character set of a generator variant, one character at a
//! time, and leaves every other character as it is.

use crate::config::GeneratorType;
use vstd::prelude::*;

verus! {

/// The KGPG table: `+ / = 0 8 9` become `! # % @ $ &`.
pub open spec fn kgpg_char(c: char) -> char {
    match c {
        '+' => '!',
        '/' => '#',
        '=' => '%',
        '0' => '@',
        '8' => '$',
        '9' => '&',
        _ => c,
    }
}

/// The SGP table: `+ / =` become `9 8 A`.
pub open spec fn sgp_char(c: char) -> char {
    match c {
        '+' => '9',
        '/' => '8',
        '=' => 'A',
        _ => c,
    }
}

/// What the table of `generator_type` makes of `c`.
pub open spec fn substitute_char(c: char, generator_type: GeneratorType) -> char {
    match generator_type {
        GeneratorType::KGPG => kgpg_char(c),
        GeneratorType::SGP => sgp_char(c),
    }
}

/// `text` with each character replaced by what the table makes of it.
pub open spec fn substituted(text: Seq<char>, generator_type: GeneratorType) -> Seq<char> {
    Seq::new(text.len(), |i: int| substitute_char(text[i], generator_type))
}

/// Looks `c` up in the table of `generator_type`.
pub fn map_char(c: char, generator_type: GeneratorType) -> (r: char)
    ensures
        r == substitute_char(c, generator_type),
{
    match generator_type {
        GeneratorType::KGPG => match c {
            '+' => '!',
            '/' => '#',
            '=' => '%',
            '0' => '@',
            '8' => '$',
            '9' => '&',
            _ => c,
        },
        GeneratorType::SGP => match c {
            '+' => '9',
            '/' => '8',
            '=' => 'A',
            _ => c,
        },
    }
}

/// Rewrites `text` by the table of `generator_type`.
pub fn substitute(text: &str, generator_type: GeneratorType) -> (r: String)
    ensures
        r@ == substituted(text@, generator_type),
{
    let mut r = String::new();
    for c in it: text.chars()
        invariant
            it.seq() == text@,
            r@ =~= substituted(text@.take(it.index()), generator_type),
    {
        r.push(map_char(c, generator_type));
    }
    assert(text@.take(text@.len() as int) =~= text@);
    r
}

/// Rewrites `password` by the KGPG table.
pub fn apply_kgpg(password: &str) -> (r: String)
    ensures
        r@ == substituted(password@, GeneratorType::KGPG),
{
    substitute(password, GeneratorType::KGPG)
}

/// Rewrites `password` by the SGP table.
pub fn apply_sgp(password: &str) -> (r: String)
    ensures
        r@ == substituted(password@, GeneratorType::SGP),
{
    substitute(password, GeneratorType::SGP)
}

} // verus!
