//! The fuzzy-match score used to rank candidate packages against a search
//! term, backed by a trigram string-similarity function of an outside
//! crate. The similarity is reported as a binary32 value within
//! 0.0 ..= 1.0; it crosses into verified code as its IEEE 754 bit pattern,
//! and integer code scales it to the score range 0 ..= 100.
use vstd::arithmetic::div_mod::lemma_div_is_ordered_by_denominator;
use vstd::arithmetic::power2::lemma2_to64;
use vstd::arithmetic::power2::lemma_pow2_adds;
use vstd::arithmetic::power2::lemma_pow2_pos;
use vstd::arithmetic::power2::pow2;
use vstd::bits::lemma_u32_shr_is_div;
use vstd::bits::lemma_u64_shr_is_div;
use vstd::prelude::*;

verus! {

/// The IEEE 754 binary32 bit pattern of the similarity that the outside
/// search function assigns to a candidate `name` for a search `term`. The
/// similarity depends on the two strings alone.
pub uninterp spec fn fuzzy_bits_of(term: Seq<char>, name: Seq<char>) -> u32;

/// Relies on `rust_fuzzy_search::fuzzy_compare`: a pure function of the
/// two strings, whose result the crate itself crops to 0.0 ..= 1.0, so
/// its bit pattern is at most that of 1.0.
#[verifier::external_body]
fn fuzzy_bits(term: &str, name: &str) -> (r: u32)
    ensures
        r == fuzzy_bits_of(term@, name@),
        r <= 0x3F80_0000,
{
    rust_fuzzy_search::fuzzy_compare(term, name).to_bits()
}

/// The match score on the 0 ..= 100 scale held by a binary32 bit pattern:
/// 100 for 1.0 and anything above it, otherwise the value scaled by 100
/// and rounded down. A pattern `bits` below 1.0 encodes the value
/// (2^23 + frac) * 2^(exp - 150) where `exp` is its exponent byte and
/// `frac` its mantissa bits, or frac * 2^(-149) when `exp` is zero; that
/// subnormal case is far below 1/100 and scores 0.
pub open spec fn score_of_bits(bits: u32) -> int {
    if bits >= 0x3F80_0000 {
        100
    } else {
        let exp = bits / 0x80_0000;
        let frac = bits % 0x80_0000;
        if exp == 0 {
            0
        } else {
            100 * (0x80_0000 + frac) / pow2((150 - exp) as nat) as int
        }
    }
}

/// The integer match score, on a scale of 0 to 100, of a candidate `name`
/// for a search `term`.
pub open spec fn fuzzy_score_of(term: Seq<char>, name: Seq<char>) -> int {
    score_of_bits(fuzzy_bits_of(term, name))
}

/// Every bit pattern scores within the 0 ..= 100 scale.
pub proof fn lemma_score_of_bits_range(bits: u32)
    ensures
        0 <= score_of_bits(bits) <= 100,
{
    if bits < 0x3F80_0000 {
        let exp = bits / 0x80_0000;
        let frac = bits % 0x80_0000;
        if exp != 0 {
            assert(exp <= 126) by {
                assert(bits / 0x80_0000 <= 0x3F7F_FFFFu32 / 0x80_0000);
            }
            let m = 100 * (0x80_0000 + frac);
            lemma_pow2_pos((150 - exp) as nat);
            lemma_pow2_pos(24);
            lemma2_to64();
            assert(pow2(24) <= pow2((150 - exp) as nat)) by {
                if 24 < 150 - exp {
                    lemma_pow2_adds(24, (150 - exp - 24) as nat);
                    lemma_pow2_pos((150 - exp - 24) as nat);
                }
            }
            lemma_div_is_ordered_by_denominator(m, pow2(24) as int, pow2((150 - exp) as nat) as int);
            assert(m / pow2(24) as int <= 99) by {
                assert(frac < 0x80_0000);
            }
            assert(m / pow2((150 - exp) as nat) as int >= 0) by {
                assert(m >= 0);
            }
        }
    }
}

/// Scale a binary32 bit pattern of at most 1.0 to the 0 ..= 100 range.
fn score_from_bits(bits: u32) -> (r: i32)
    requires
        bits <= 0x3F80_0000,
    ensures
        r == score_of_bits(bits),
        0 <= r <= 100,
{
    proof {
        lemma_score_of_bits_range(bits);
    }
    if bits >= 0x3F80_0000 {
        100
    } else {
        let exp: u32 = bits >> 23u32;
        let frac: u32 = bits % 0x80_0000;
        proof {
            lemma_u32_shr_is_div(bits, 23);
            lemma2_to64();
        }
        if exp == 0 {
            0
        } else {
            assert(exp <= 126) by {
                assert(bits / 0x80_0000 <= 0x3F7F_FFFFu32 / 0x80_0000);
            }
            let m: u64 = 100 * (0x80_0000 + frac as u64);
            let shift: u32 = 150 - exp;
            if shift >= 64 {
                proof {
                    lemma_pow2_adds(31, (shift - 31) as nat);
                    lemma_pow2_pos((shift - 31) as nat);
                    lemma2_to64();
                    assert(m < pow2(shift as nat)) by {
                        assert(m < pow2(31));
                        assert(pow2(31) <= pow2(shift as nat));
                    }
                    vstd::arithmetic::div_mod::lemma_basic_div(
                        m as int,
                        pow2(shift as nat) as int,
                    );
                }
                0
            } else {
                proof {
                    lemma_u64_shr_is_div(m, shift as u64);
                }
                (m >> (shift as u64)) as i32
            }
        }
    }
}

/// The match score of `name` for `term`, on a scale of 0 to 100.
pub fn fuzzy_score(term: &str, name: &str) -> (r: i32)
    ensures
        r == fuzzy_score_of(term@, name@),
        0 <= r <= 100,
{
    let bits = fuzzy_bits(term, name);
    score_from_bits(bits)
}

} // verus!
