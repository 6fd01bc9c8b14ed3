//! Numeric helpers: rounding up to a boundary and checking what the system
//! reports about itself.

use crate::expect::{ExpectNotZero, ExpectPositive, UnsafeNoPanic};
use crate::Error;
use vstd::arithmetic::power2::is_pow2;
use vstd::prelude::*;

verus! {

/// `n` rounded up to the next multiple of `bound`.
pub open spec fn round_up(n: int, bound: int) -> int {
    ((n + (bound - 1)) / bound) * bound
}

/// `round_up(n, bound)` is a multiple of `bound`, at least `n` and less than
/// `n + bound`.
pub proof fn lemma_round_up(n: int, bound: int)
    requires
        0 <= n,
        0 < bound,
    ensures
        round_up(n, bound) % bound == 0,
        n <= round_up(n, bound) < n + bound,
{
    let q = (n + (bound - 1)) / bound;
    vstd::arithmetic::div_mod::lemma_fundamental_div_mod(n + (bound - 1), bound);
    vstd::arithmetic::div_mod::lemma_mod_multiples_basic(q, bound);
    assert(q * bound == bound * q) by (nonlinear_arith);
}

/// Rounding a positive number up gives at least one whole `bound`.
pub proof fn lemma_round_up_positive(n: int, bound: int)
    requires
        0 < n,
        0 < bound,
    ensures
        bound <= round_up(n, bound),
{
    lemma_round_up(n, bound);
    let r = round_up(n, bound);
    vstd::arithmetic::div_mod::lemma_fundamental_div_mod(r, bound);
    let q = r / bound;
    assert(bound <= bound * q) by (nonlinear_arith)
        requires
            0 < bound,
            0 < bound * q,
    ;
}

/// No other multiple of `bound` lies in `[n, n + bound)`.
pub proof fn lemma_round_up_unique(n: int, bound: int, m: int)
    requires
        0 <= n,
        0 < bound,
        m % bound == 0,
        n <= m < n + bound,
    ensures
        m == round_up(n, bound),
{
    lemma_round_up(n, bound);
    let r = round_up(n, bound);
    vstd::arithmetic::div_mod::lemma_fundamental_div_mod(m, bound);
    vstd::arithmetic::div_mod::lemma_fundamental_div_mod(r, bound);
    let k = m / bound;
    let q = r / bound;
    assert(k == q) by (nonlinear_arith)
        requires
            0 < bound,
            -bound < bound * k - bound * q < bound,
    ;
}

/// Integers that can be rounded up to a boundary.
pub trait AlignUp: Sized {
    /// The value as a mathematical integer.
    spec fn value(v: Self) -> int;

    /// The largest value of the type.
    spec fn limit() -> int;

    /// Rounds `n` up to the next multiple of `bound`.
    fn align_up(n: Self, bound: Self) -> (r: Self)
        requires
            0 <= Self::value(n),
            0 < Self::value(bound),
            Self::value(n) + (Self::value(bound) - 1) <= Self::limit(),
        ensures
            Self::value(r) == round_up(Self::value(n), Self::value(bound)),
    ;
}

impl AlignUp for u32 {
    open spec fn value(v: Self) -> int {
        v as int
    }

    open spec fn limit() -> int {
        u32::MAX as int
    }

    fn align_up(n: Self, bound: Self) -> (r: Self) {
        proof {
            lemma_round_up(n as int, bound as int);
        }
        ((n + (bound - 1)) / bound) * bound
    }
}

impl AlignUp for usize {
    open spec fn value(v: Self) -> int {
        v as int
    }

    open spec fn limit() -> int {
        usize::MAX as int
    }

    fn align_up(n: Self, bound: Self) -> (r: Self) {
        proof {
            lemma_round_up(n as int, bound as int);
        }
        ((n + (bound - 1)) / bound) * bound
    }
}

proof fn lemma_lowest_bit_step(c: u64)
    by (bit_vector)
    requires
        c > 1,
    ensures
        ((c & ((c - 1) as u64)) == 0) == (c % 2 == 0 && ((c / 2) & ((c / 2 - 1) as u64)) == 0),
{
}

/// A positive number is a power of two exactly when it shares no bit with its
/// predecessor.
pub proof fn lemma_pow2_bits(c: u64)
    requires
        c > 0,
    ensures
        ((c & ((c - 1) as u64)) == 0) <==> is_pow2(c as int),
    decreases c,
{
    reveal(is_pow2);
    if c > 1 {
        lemma_lowest_bit_step(c);
        if c % 2 == 0 {
            lemma_pow2_bits(c / 2);
        }
    } else {
        assert(1u64 & 0u64 == 0) by (bit_vector);
    }
}

/// Whether `n` is a power of two.
pub fn is_power_of_two(n: usize) -> (r: bool)
    ensures
        r == is_pow2(n as int),
{
    if n == 0 {
        proof {
            reveal(is_pow2);
        }
        false
    } else {
        let c: u64 = n as u64;
        proof {
            lemma_pow2_bits(c);
        }
        c & (c - 1) == 0
    }
}

/// Whether the system's answer to the question for its page size is one: it
/// is positive and fits an address.
pub open spec fn page_size_valid(raw: i64) -> bool {
    0 < raw <= usize::MAX
}

/// The page size that the system reported as `raw`, the value of
/// `sysconf(_SC_PAGE_SIZE)`.
pub fn page_size(raw: i64) -> (r: Result<usize, Error>)
    ensures
        page_size_valid(raw) ==> r == Ok::<usize, Error>(raw as usize),
        !page_size_valid(raw) ==> r == Err::<usize, Error>(Error::PageSizeInvalid),
{
    let query = || -> (v: i64)
        ensures
            v == raw,
        { raw };
    match UnsafeNoPanic::new(query).expect(ExpectPositive, Error::PageSizeInvalid) {
        Ok(ok) => {
            if ok as u64 <= usize::MAX as u64 {
                Ok(ok as usize)
            } else {
                Err(Error::PageSizeInvalid)
            }
        },
        Err(e) => Err(e),
    }
}

/// The index of a network interface, where `index` is what the system
/// answered to the question for the interface's name, the value of
/// `if_nametoindex`: zero says that there is no such interface.
pub fn ifindex(index: u32) -> (r: Result<u32, Error>)
    ensures
        index != 0 ==> r == Ok::<u32, Error>(index),
        index == 0 ==> r == Err::<u32, Error>(Error::InterfaceInvalid),
{
    let query = || -> (v: u32)
        ensures
            v == index,
        { index };
    UnsafeNoPanic::new(query).expect(ExpectNotZero, Error::InterfaceInvalid)
}

/// `TryFrom<&[T]>` for arrays, as std has it for items that can be copied: the
/// array holds a copy of the slice when the slice has the array's length, and
/// there is no array when it has not.
#[verifier::external_body]
fn array_from_slice<T: Copy, const N: usize>(slice: &[T]) -> (r: Option<[T; N]>)
    ensures
        slice@.len() == N ==> r is Some && r->Some_0@ == slice@,
        slice@.len() != N ==> r is None,
{
    <[T; N]>::try_from(slice).ok()
}

/// Splits an array into its first `L` and its last `R` items.
pub fn split_array<T, const N: usize, const L: usize, const R: usize>(input: [T; N]) -> (r: (
    [T; L],
    [T; R],
)) where T: Copy
    requires
        L + R == N,
    ensures
        r.0@ == input@.subrange(0, L as int),
        r.1@ == input@.subrange(L as int, N as int),
{
    let (left, right) = input.as_slice().split_at(L);
    let first = array_from_slice::<T, L>(left);
    let second = array_from_slice::<T, R>(right);
    (first.unwrap(), second.unwrap())
}

/// The 32-bit number whose four bytes, lowest first, are `bytes`.
pub open spec fn le_u32(bytes: Seq<u8>) -> u32 {
    (bytes[0] as int + 0x100 * bytes[1] as int + 0x1_0000 * bytes[2] as int + 0x100_0000
        * bytes[3] as int) as u32
}

/// The 32-bit number whose four bytes, lowest first, are `bytes`.
pub fn u32_from_le(bytes: [u8; 4]) -> (r: u32)
    ensures
        r == le_u32(bytes@),
{
    let b0 = bytes[0] as u32;
    let b1 = bytes[1] as u32;
    let b2 = bytes[2] as u32;
    let b3 = bytes[3] as u32;
    b0 + 0x100 * b1 + 0x1_0000 * b2 + 0x100_0000 * b3
}

} // verus!
