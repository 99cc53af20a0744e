//! The standard base64 text encoding of a byte string, with padding.
//!
//! Three bytes become four characters of the alphabet `A-Z a-z 0-9 + /`; a
//! last group of one or two bytes is filled up with zero bits and closed with
//! `=` signs, so that the text always has a multiple of four characters.

use vstd::prelude::*;

verus! {

/// The character that stands for the six-bit value `v`, for `0 <= v < 64`.
pub open spec fn sextet_char(v: int) -> char {
    if v < 26 {
        (65 + v) as char
    } else if v < 52 {
        (71 + v) as char
    } else if v < 62 {
        (v - 4) as char
    } else if v == 62 {
        '+'
    } else {
        '/'
    }
}

/// The four characters that encode the three bytes `b0 b1 b2`.
pub open spec fn quad(b0: u8, b1: u8, b2: u8) -> Seq<char> {
    seq![
        sextet_char(b0 as int / 4),
        sextet_char((b0 as int % 4) * 16 + b1 as int / 16),
        sextet_char((b1 as int % 16) * 4 + b2 as int / 64),
        sextet_char(b2 as int % 64),
    ]
}

/// The base64 text of `bytes`.
pub open spec fn encoded(bytes: Seq<u8>) -> Seq<char>
    decreases bytes.len(),
{
    if bytes.len() == 0 {
        Seq::empty()
    } else if bytes.len() == 1 {
        quad(bytes[0], 0, 0).take(2) + seq!['=', '=']
    } else if bytes.len() == 2 {
        quad(bytes[0], bytes[1], 0).take(3) + seq!['=']
    } else {
        quad(bytes[0], bytes[1], bytes[2]) + encoded(bytes.skip(3))
    }
}

/// The number of characters that encode `n` bytes.
pub open spec fn encoded_len(n: nat) -> nat {
    (4 * ((n + 2) / 3)) as nat
}

/// Whether `c` can occur in base64 text.
pub open spec fn is_base64_char(c: char) -> bool {
    ||| 'A' <= c <= 'Z'
    ||| 'a' <= c <= 'z'
    ||| '0' <= c <= '9'
    ||| c == '+'
    ||| c == '/'
    ||| c == '='
}

/// The text of `n` bytes has `4 * ceil(n / 3)` characters.
pub proof fn lemma_encoded_len(bytes: Seq<u8>)
    ensures
        encoded(bytes).len() == encoded_len(bytes.len()),
    decreases bytes.len(),
{
    if bytes.len() >= 3 {
        lemma_encoded_len(bytes.skip(3));
    }
}

/// Every six-bit value is written as a letter, a digit, `+` or `/`.
pub proof fn lemma_sextet_char(v: int)
    requires
        0 <= v < 64,
    ensures
        is_base64_char(sextet_char(v)),
        sextet_char(v) != '=',
{
}

/// The four characters of a group belong to the alphabet.
pub proof fn lemma_quad_alphabet(b0: u8, b1: u8, b2: u8)
    ensures
        quad(b0, b1, b2).len() == 4,
        forall|i: int| 0 <= i < 4 ==> is_base64_char(#[trigger] quad(b0, b1, b2)[i]),
{
    lemma_sextet_char(b0 as int / 4);
    lemma_sextet_char((b0 as int % 4) * 16 + b1 as int / 16);
    lemma_sextet_char((b1 as int % 16) * 4 + b2 as int / 64);
    lemma_sextet_char(b2 as int % 64);
}

/// Base64 text holds no character outside its alphabet and the padding sign.
pub proof fn lemma_encoded_alphabet(bytes: Seq<u8>)
    ensures
        forall|i: int|
            0 <= i < encoded(bytes).len() ==> is_base64_char(#[trigger] encoded(bytes)[i]),
    decreases bytes.len(),
{
    if bytes.len() == 1 {
        lemma_quad_alphabet(bytes[0], 0, 0);
    } else if bytes.len() == 2 {
        lemma_quad_alphabet(bytes[0], bytes[1], 0);
    } else if bytes.len() >= 3 {
        lemma_quad_alphabet(bytes[0], bytes[1], bytes[2]);
        lemma_encoded_alphabet(bytes.skip(3));
        let head = quad(bytes[0], bytes[1], bytes[2]);
        let tail = encoded(bytes.skip(3));
        assert forall|i: int| 0 <= i < encoded(bytes).len() implies is_base64_char(
            #[trigger] encoded(bytes)[i],
        ) by {
            if i >= 4 {
                assert(encoded(bytes)[i] == tail[i - 4]);
            } else {
                assert(encoded(bytes)[i] == head[i]);
            }
        }
    }
}

fn sextet_to_char(v: u8) -> (c: char)
    requires
        v < 64,
    ensures
        c == sextet_char(v as int),
{
    if v < 26 {
        (65u8 + v) as char
    } else if v < 52 {
        (71u8 + v) as char
    } else if v < 62 {
        (v - 4) as char
    } else if v == 62 {
        '+'
    } else {
        '/'
    }
}

/// Encodes `bytes` as base64 text.
pub fn encode(bytes: &[u8]) -> (text: String)
    ensures
        text@ == encoded(bytes@),
        text@.len() == encoded_len(bytes@.len()),
{
    let n = bytes.len();
    let mut text = String::new();
    let mut i: usize = 0;
    assert(bytes@.skip(0) =~= bytes@);
    while n - i >= 3
        invariant
            i <= n,
            n == bytes@.len(),
            encoded(bytes@) == text@ + encoded(bytes@.skip(i as int)),
        decreases n - i,
    {
        let b0 = bytes[i];
        let b1 = bytes[i + 1];
        let b2 = bytes[i + 2];
        let ghost before = text@;
        text.push(sextet_to_char(b0 / 4));
        text.push(sextet_to_char((b0 % 4) * 16 + b1 / 16));
        text.push(sextet_to_char((b1 % 16) * 4 + b2 / 64));
        text.push(sextet_to_char(b2 % 64));
        proof {
            let rest = bytes@.skip(i as int);
            assert(rest.skip(3) =~= bytes@.skip(i as int + 3));
            assert(text@ =~= before + quad(b0, b1, b2));
            assert(before + encoded(rest) =~= text@ + encoded(rest.skip(3)));
        }
        i += 3;
    }
    let ghost before = text@;
    let ghost rest = bytes@.skip(i as int);
    if n - i == 1 {
        let b0 = bytes[i];
        text.push(sextet_to_char(b0 / 4));
        text.push(sextet_to_char((b0 % 4) * 16));
        text.push('=');
        text.push('=');
        assert(text@ =~= before + encoded(rest));
    } else if n - i == 2 {
        let b0 = bytes[i];
        let b1 = bytes[i + 1];
        text.push(sextet_to_char(b0 / 4));
        text.push(sextet_to_char((b0 % 4) * 16 + b1 / 16));
        text.push(sextet_to_char((b1 % 16) * 4));
        text.push('=');
        assert(text@ =~= before + encoded(rest));
    } else {
        assert(text@ =~= before + encoded(rest));
    }
    proof {
        lemma_encoded_len(bytes@);
    }
    text
}

} // verus!
