//! Compilation: character classes, tokens, the tokenizer and its laws, and
//! the names of the C files that a build writes.

use vstd::prelude::*;
use vstd::arithmetic::power::{lemma_pow0, lemma_pow_increases, pow};
use crate::text::{chars_of, string_of};

pub mod charclass;
pub mod token;
pub mod tables;
pub mod grammar;
pub mod scan;
pub mod lex;
pub mod ast;
pub mod parser;
pub mod laws;
pub mod stream;

verus! {

/// The number of bytes that `c` takes in UTF-8.
pub open spec fn utf8_width(c: char) -> int {
    if '\u{80}' > c {
        1
    } else if '\u{800}' > c {
        2
    } else if '\u{10000}' > c {
        3
    } else {
        4
    }
}

/// The number of bytes that `s` takes in UTF-8.
pub open spec fn utf8_len(s: Seq<char>) -> int
    decreases s.len(),
{
    if s.len() == 0 {
        0
    } else {
        utf8_len(s.drop_last()) + utf8_width(s.last())
    }
}

/// `seed` divided `k` times by `base`.
pub open spec fn shifted(seed: int, base: int, k: nat) -> int
    decreases k,
{
    if k == 0 {
        seed
    } else {
        shifted(seed, base, (k - 1) as nat) / base
    }
}

/// The digit of `seed` at place `k`, counted from the lowest, when `seed` is
/// written in base `base`.
pub open spec fn digit(seed: int, base: int, k: nat) -> int {
    shifted(seed, base, k) % base
}

/// The stem of a file name after the first `steps` places of `seed` have
/// been written into it. It starts as ten zeros. Step `ci` takes the digit
/// of `seed` at place `ci - 1` in the base of the alphabet's length, and
/// writes the character of `alphabet` at that digit to the index that lies
/// `ci - 1` before the number of bytes of the stem; where the stem has no
/// such index, the step changes nothing.
pub open spec fn cfile_stem(alphabet: Seq<char>, seed: int, steps: nat) -> Seq<char>
    decreases steps,
{
    if steps == 0 {
        "0000000000"@
    } else {
        let stem = cfile_stem(alphabet, seed, (steps - 1) as nat);
        let index = utf8_len(stem) - steps + 1;
        let c = alphabet[digit(seed, alphabet.len() as int, (steps - 1) as nat)];
        if 0 <= index < stem.len() {
            stem.update(index, c)
        } else {
            stem
        }
    }
}

/// The name of the C file that belongs to `seed`: the stem after nine steps,
/// and `.c`.
pub open spec fn cfile_name(alphabet: Seq<char>, seed: int) -> Seq<char> {
    cfile_stem(alphabet, seed, 9) + ".c"@
}

/// Writes the C source for a source file into a directory. No C is
/// generated: the function does nothing.
pub fn build_c(rfxfile: std::string::String, outdir: std::string::String, cfile: std::string::String) {
}

/// Whether `seed` is below the tenth power of `base`.
pub fn seed_in_range(base: usize, seed: usize) -> (b: bool)
    ensures
        b == (seed < pow(base as int, 10)),
{
    let mut p: usize = 1;
    let mut k: usize = 0;
    proof {
        lemma_pow0(base as int);
    }
    while k < 10
        invariant
            k <= 10,
            p == pow(base as int, k as nat),
        decreases 10 - k,
    {
        assert(pow(base as int, (k + 1) as nat) == base * pow(base as int, k as nat)) by {
            reveal(pow);
        }
        assert(p * base == base * p) by (nonlinear_arith);
        match p.checked_mul(base) {
            Some(q) => {
                p = q;
                k += 1;
            },
            None => {
                proof {
                    assert(base > 0) by (nonlinear_arith)
                        requires
                            p * base > 0,
                    ;
                    lemma_pow_increases(base as nat, (k + 1) as nat, 10);
                }
                return true;
            },
        }
    }
    seed < p
}

/// The number of bytes that the characters of `name` take in UTF-8.
pub fn utf8_len_of(name: &Vec<char>) -> (n: usize)
    requires
        4 * name.len() <= usize::MAX,
    ensures
        n == utf8_len(name@),
        name.len() <= n <= 4 * name.len(),
{
    let mut n: usize = 0;
    let mut i: usize = 0;
    assert(name@.take(0) =~= Seq::<char>::empty());
    while i < name.len()
        invariant
            i <= name.len(),
            4 * name.len() <= usize::MAX,
            n == utf8_len(name@.take(i as int)),
            i <= n <= 4 * i,
        decreases name.len() - i,
    {
        let c = name[i];
        assert(name@.take(i + 1).drop_last() =~= name@.take(i as int));
        assert(name@.take(i + 1).last() == c);
        if '\u{80}' > c {
            n += 1;
        } else if '\u{800}' > c {
            n += 2;
        } else if '\u{10000}' > c {
            n += 3;
        } else {
            n += 4;
        }
        i += 1;
    }
    assert(name@.take(name.len() as int) =~= name@);
    n
}

/// The name of the C file to try for `seed`, made of the characters of
/// `alphabet`; or `None` where `seed` has reached the tenth power of the
/// alphabet's length, and no name is left to try.
///
/// A caller in search of a name that is free starts at seed 0 and goes on
/// to the next seed for as long as the name that it gets is taken.
pub fn random_cfile(alphabet: &Vec<char>, seed: usize) -> (r: Option<String>)
    ensures
        r is Some <==> seed < pow(alphabet.len() as int, 10),
        r matches Some(name) ==> name@ == cfile_name(alphabet@, seed as int),
{
    let base = alphabet.len();
    if !seed_in_range(base, seed) {
        return None;
    }
    proof {
        if base == 0 {
            assert(pow(0, 10) == 0) by {
                reveal(pow);
            }
        }
        reveal_strlit("0000000000");
        reveal_strlit(".c");
    }
    let mut name = chars_of("0000000000");
    let mut d: usize = seed;
    let mut ci: usize = 1;
    while ci < 10
        invariant
            1 <= ci <= 10,
            base == alphabet.len(),
            base > 0,
            name.len() == 10,
            d == shifted(seed as int, base as int, (ci - 1) as nat),
            name@ == cfile_stem(alphabet@, seed as int, (ci - 1) as nat),
        decreases 10 - ci,
    {
        let x = d % base;
        let replace = alphabet[x];
        let bytes = utf8_len_of(&name);
        let index = bytes - ci + 1;
        if index < name.len() {
            name.set(index, replace);
        }
        d = d / base;
        ci += 1;
    }
    name.push('.');
    name.push('c');
    assert(name@ =~= cfile_name(alphabet@, seed as int));
    Some(string_of(&name, 0, 12))
}

/// How the search for a free file name goes on.
#[derive(Clone, Copy, PartialEq, Eq, Structural, Debug)]
pub enum CfileSearch {
    /// The name of the seed is free: the search is over.
    Found,
    /// The name of the seed is taken: this seed is the next to try.
    Next(usize),
    /// The name of the seed is taken, and no seed is left to try.
    Full,
}

/// How the search goes on from `seed`, given whether the name of `seed`
/// is taken: a free name ends the search; from a taken one it goes to the
/// next seed, as long as that is below the tenth power of the alphabet's
/// length.
pub fn cfile_step(alphabet: &Vec<char>, seed: usize, taken: bool) -> (r: CfileSearch)
    ensures
        r == if !taken {
            CfileSearch::Found
        } else if seed + 1 <= usize::MAX && seed + 1 < pow(alphabet.len() as int, 10) {
            CfileSearch::Next((seed + 1) as usize)
        } else {
            CfileSearch::Full
        },
{
    if !taken {
        CfileSearch::Found
    } else if seed < usize::MAX && seed_in_range(alphabet.len(), seed + 1) {
        CfileSearch::Next(seed + 1)
    } else {
        CfileSearch::Full
    }
}

} // verus!
