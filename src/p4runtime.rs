//! Wire-level helpers: 128-bit election ids and the pipeline-config response type.

use vstd::prelude::*;

verus! {

/// A 128-bit unsigned value as it travels on the wire: two 64-bit words.
#[derive(Clone, Copy, Debug, PartialEq, Eq, Structural)]
pub struct Uint128 {
    pub high: u64,
    pub low: u64,
}

/// 2^64, the weight of the high word.
pub open spec fn word_base() -> int {
    0x1_0000_0000_0000_0000
}

/// The integer that a two-word value stands for.
pub open spec fn value_of(v: Uint128) -> int {
    v.high as int * word_base() + v.low as int
}

/// The two-word form of an integer below 2^128.
pub open spec fn words_of(x: u128) -> Uint128 {
    Uint128 { high: (x as int / word_base()) as u64, low: (x as int % word_base()) as u64 }
}

/// Splits a 128-bit value into its high and low words.
pub fn as_uint128_from(value: u128) -> (r: Uint128)
    ensures
        r == words_of(value),
{
    let high = #[verifier::truncate] ((value >> 64u32) as u64);
    let low = #[verifier::truncate] (value as u64);
    proof {
        assert(high == (value / 0x1_0000_0000_0000_0000u128) as u64) by (bit_vector)
            requires
                high == #[verifier::truncate] ((value >> 64u32) as u64);
        assert(low == (value % 0x1_0000_0000_0000_0000u128) as u64) by (bit_vector)
            requires
                low == #[verifier::truncate] (value as u64);
    }
    Uint128 { high, low }
}

/// Joins the two words into one 128-bit value.
pub fn as_u128_from(value: &Uint128) -> (r: u128)
    ensures
        r as int == value_of(*value),
{
    let h = value.high;
    let l = value.low;
    let r = ((h as u128) << 64u32) | (l as u128);
    proof {
        assert(((h as u128) << 64u32) | (l as u128) == (h as u128) * 0x1_0000_0000_0000_0000u128
            + (l as u128)) by (bit_vector);
    }
    r
}

/// Joining the words of a value gives the value back, and splitting a joined pair
/// gives the pair back.
pub proof fn lemma_words_round_trip(x: u128, v: Uint128)
    ensures
        value_of(words_of(x)) == x as int,
        words_of(value_of(v) as u128) == v,
        0 <= value_of(v) < word_base() * word_base(),
{
    let q = x as int / word_base();
    let m = x as int % word_base();
    assert(0 <= q < word_base()) by (nonlinear_arith)
        requires
            0 <= x < word_base() * word_base(),
            q == x as int / word_base(),
            word_base() > 0;
    assert(x as int == q * word_base() + m) by (nonlinear_arith)
        requires
            q == x as int / word_base(),
            m == x as int % word_base(),
            word_base() > 0;
    let n = value_of(v);
    assert(0 <= n < word_base() * word_base()) by (nonlinear_arith)
        requires
            n == v.high as int * word_base() + v.low as int,
            0 <= v.high < word_base(),
            0 <= v.low < word_base();
    assert(n / word_base() == v.high as int && n % word_base() == v.low as int) by (nonlinear_arith)
        requires
            n == v.high as int * word_base() + v.low as int,
            0 <= v.low < word_base(),
            word_base() > 0;
}

/// What a client asks `GetForwardingPipelineConfig` to return.
#[derive(Clone, Copy, Debug, PartialEq, Eq, Structural)]
pub enum ResponseType {
    All,
    CookieOnly,
    P4infoAndCookie,
    DeviceConfigAndCookie,
}

/// The response type that a wire code names, if any.
pub open spec fn response_type_of(value: i32) -> Option<ResponseType> {
    if value == 0 {
        Some(ResponseType::All)
    } else if value == 1 {
        Some(ResponseType::CookieOnly)
    } else if value == 2 {
        Some(ResponseType::P4infoAndCookie)
    } else if value == 3 {
        Some(ResponseType::DeviceConfigAndCookie)
    } else {
        None
    }
}

/// Decodes the wire code of a response type.
pub fn as_response_type(value: i32) -> (r: Option<ResponseType>)
    ensures
        r == response_type_of(value),
{
    match value {
        0 => Some(ResponseType::All),
        1 => Some(ResponseType::CookieOnly),
        2 => Some(ResponseType::P4infoAndCookie),
        3 => Some(ResponseType::DeviceConfigAndCookie),
        _ => None,
    }
}

} // verus!
