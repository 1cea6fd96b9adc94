//! The challenge token that an info request carries: ASCII letters and digits.

use vstd::prelude::*;

verus! {

/// Length of the challenge sent with each info request.
pub const CHALLENGE_LEN: usize = 12;

/// Number of characters a challenge may hold.
pub const ALPHABET_LEN: u8 = 62;

/// The `i`-th of `A..=Z`, `a..=z`, `0..=9`.
pub open spec fn alphabet(i: int) -> u8 {
    if i < 26 {
        (0x41 + i) as u8
    } else if i < 52 {
        (0x61 + (i - 26)) as u8
    } else {
        (0x30 + (i - 52)) as u8
    }
}

/// Whether `b` is an ASCII letter or digit.
pub open spec fn is_alphanumeric(b: u8) -> bool {
    (0x41 <= b <= 0x5A) || (0x61 <= b <= 0x7A) || (0x30 <= b <= 0x39)
}

/// The challenge that the draws `d` give: each draw picks a character.
pub open spec fn challenge_of(d: Seq<u8>) -> Seq<u8> {
    d.map_values(|x: u8| alphabet(x as int % ALPHABET_LEN as int))
}

/// Relies on rand::thread_rng and Rng::gen_range: a value drawn from `0..bound`.
#[verifier::external_body]
fn random_below(bound: u8) -> (r: u8)
    requires
        bound > 0,
    ensures
        r < bound,
{
    rand::Rng::gen_range(&mut rand::thread_rng(), 0..bound)
}

/// The character that the draw `x` picks.
pub fn alphabet_char(x: u8) -> (c: u8)
    ensures
        c == alphabet(x as int % ALPHABET_LEN as int),
        is_alphanumeric(c),
{
    let i = x % ALPHABET_LEN;
    if i < 26 {
        0x41 + i
    } else if i < 52 {
        0x61 + (i - 26)
    } else {
        0x30 + (i - 52)
    }
}

/// The challenge that the given draws pick, one character per draw.
pub fn challenge_from_draws(draws: &[u8]) -> (r: Vec<u8>)
    ensures
        r@ == challenge_of(draws@),
{
    let mut r: Vec<u8> = Vec::new();
    let mut i: usize = 0;
    while i < draws.len()
        invariant
            i <= draws@.len(),
            r@ == challenge_of(draws@.take(i as int)),
        decreases draws@.len() - i,
    {
        let c = alphabet_char(draws[i]);
        r.push(c);
        i = i + 1;
        assert(r@ =~= challenge_of(draws@.take(i as int)));
    }
    assert(draws@.take(draws@.len() as int) == draws@);
    r
}

/// A fresh random challenge of `len` letters and digits.
pub fn generate_challenge(len: usize) -> (r: Vec<u8>)
    ensures
        r@.len() == len,
        forall|i: int| 0 <= i < len ==> is_alphanumeric(#[trigger] r@[i]),
{
    let mut draws: Vec<u8> = Vec::new();
    let mut i: usize = 0;
    while i < len
        invariant
            i <= len,
            draws@.len() == i,
        decreases len - i,
    {
        draws.push(random_below(ALPHABET_LEN));
        i = i + 1;
    }
    let r = challenge_from_draws(draws.as_slice());
    assert forall|i: int| 0 <= i < len implies is_alphanumeric(#[trigger] r@[i]) by {
        let x = draws@[i] as int % ALPHABET_LEN as int;
        assert(0 <= x < 62);
    }
    r
}

} // verus!
