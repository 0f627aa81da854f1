//! The persisted-counter logic of the identity store.
//!
//! The store keeps one 64-bit counter as decimal text in a file; every
//! generator invocation, under a cross-process lock held by the caller,
//! reads the text, reserves the next value and writes the new text back.
//! This module holds the whole read-modify-write computation between those
//! two I/O steps: lenient parsing of the stored text (absent or corrupt
//! content counts as zero), the overflow-checked increment, and the decimal
//! formatting of the value written back.

use crate::error::AllocError;
use vstd::arithmetic::div_mod::lemma_fundamental_div_mod;
use vstd::prelude::*;

verus! {

/// Whether a byte is ASCII whitespace, the kind stripped from the stored
/// text before parsing.
pub open spec fn is_ascii_ws(b: u8) -> bool {
    b == 9 || b == 10 || b == 11 || b == 12 || b == 13 || b == 32
}

/// Whether a byte is an ASCII decimal digit.
pub open spec fn is_digit(b: u8) -> bool {
    48 <= b && b <= 57
}

/// The numeric value of a digit byte; zero for any other byte.
pub open spec fn digit_val(b: u8) -> nat {
    if is_digit(b) {
        (b - 48) as nat
    } else {
        0
    }
}

/// Whether every byte of the sequence is a decimal digit.
pub open spec fn all_digits(s: Seq<u8>) -> bool {
    forall|i: int| 0 <= i < s.len() ==> is_digit(s[i])
}

/// The value spelled by a sequence of digit bytes, most significant first.
pub open spec fn digits_value(s: Seq<u8>) -> nat
    decreases s.len(),
{
    if s.len() == 0 {
        0
    } else {
        digits_value(s.drop_last()) * 10 + digit_val(s.last())
    }
}

/// The sequence with leading ASCII whitespace removed.
pub open spec fn ltrimmed(s: Seq<u8>) -> Seq<u8>
    decreases s.len(),
{
    if s.len() > 0 && is_ascii_ws(s.first()) {
        ltrimmed(s.drop_first())
    } else {
        s
    }
}

/// The sequence with trailing ASCII whitespace removed.
pub open spec fn rtrimmed(s: Seq<u8>) -> Seq<u8>
    decreases s.len(),
{
    if s.len() > 0 && is_ascii_ws(s.last()) {
        rtrimmed(s.drop_last())
    } else {
        s
    }
}

/// The sequence with both leading and trailing ASCII whitespace removed.
pub open spec fn trimmed(s: Seq<u8>) -> Seq<u8> {
    rtrimmed(ltrimmed(s))
}

/// The digit part of a trimmed counter text: an optional leading plus sign
/// is accepted, as the decimal grammar for unsigned integers has it.
pub open spec fn unsigned_digits(s: Seq<u8>) -> Seq<u8> {
    if s.len() > 0 && s.first() == 43 {
        s.drop_first()
    } else {
        s
    }
}

/// Whether a stored text spells a counter value: after trimming and an
/// optional plus sign, one or more digits whose value fits in 64 bits.
pub open spec fn is_valid_counter_text(s: Seq<u8>) -> bool {
    let d = unsigned_digits(trimmed(s));
    d.len() > 0 && all_digits(d) && digits_value(d) <= u64::MAX
}

/// The counter value a stored text denotes. Text that spells no 64-bit
/// value — absent, empty, non-numeric or out of range — counts as zero:
/// the file is advisory and rebuildable, so the store recovers rather than
/// fails.
pub open spec fn counter_of(s: Seq<u8>) -> u64 {
    if is_valid_counter_text(s) {
        digits_value(unsigned_digits(trimmed(s))) as u64
    } else {
        0
    }
}

/// The decimal text of a counter value, most significant digit first, no
/// sign, no leading zeros.
pub open spec fn decimal_of(v: u64) -> Seq<u8>
    decreases v,
{
    if v < 10 {
        seq![(48 + v) as u8]
    } else {
        decimal_of((v / 10) as u64).push((48 + v % 10) as u8)
    }
}

/// Whether a byte is ASCII whitespace.
fn byte_is_ws(b: u8) -> (r: bool)
    ensures
        r == is_ascii_ws(b),
{
    b == 9 || b == 10 || b == 11 || b == 12 || b == 13 || b == 32
}

/// The value of any prefix of a digit string never exceeds the value of the
/// whole string: appending digits multiplies by ten and adds a digit.
proof fn lemma_digits_value_prefix_le(s: Seq<u8>, k: int)
    requires
        0 <= k <= s.len(),
    ensures
        digits_value(s.take(k)) <= digits_value(s),
    decreases s.len() - k,
{
    if k == s.len() {
        assert(s.take(k) =~= s);
    } else {
        assert(s.take(k + 1).drop_last() =~= s.take(k));
        assert(s.take(k + 1).last() == s[k]);
        assert(digits_value(s.take(k + 1)) == digits_value(s.take(k)) * 10 + digit_val(s[k]));
        assert(digits_value(s.take(k)) * 10 >= digits_value(s.take(k)));
        lemma_digits_value_prefix_le(s, k + 1);
    }
}

/// Parses a counter file's content. Mirrors `counter_of` exactly: whatever
/// does not spell a 64-bit value yields zero.
pub fn parse_counter(text: &[u8]) -> (r: u64)
    ensures
        r == counter_of(text@),
{
    let n = text.len();
    proof {
        assert(text@.skip(0) =~= text@);
    }
    let mut i: usize = 0;
    while i < n && byte_is_ws(text[i])
        invariant
            0 <= i <= n,
            n == text@.len(),
            ltrimmed(text@) == ltrimmed(text@.skip(i as int)),
        decreases n - i,
    {
        proof {
            assert(text@.skip(i as int).drop_first() =~= text@.skip(i as int + 1));
        }
        i += 1;
    }
    if i == n {
        // nothing but whitespace: no digits, so the counter reads as zero
        proof {
            assert(text@.skip(i as int) =~= Seq::<u8>::empty());
        }
        return 0;
    }
    proof {
        assert(ltrimmed(text@) == text@.skip(i as int));
    }
    let mut j: usize = n;
    while j > i && byte_is_ws(text[j - 1])
        invariant
            i < j <= n,
            i < n,
            n == text@.len(),
            !is_ascii_ws(text@[i as int]),
            ltrimmed(text@) == text@.skip(i as int),
            rtrimmed(text@.skip(i as int)) == rtrimmed(text@.subrange(i as int, j as int)),
        decreases j,
    {
        proof {
            assert(text@.subrange(i as int, j as int).drop_last() =~= text@.subrange(
                i as int,
                j as int - 1,
            ));
        }
        j -= 1;
    }
    proof {
        assert(j > i);
        assert(trimmed(text@) == text@.subrange(i as int, j as int));
    }
    let di: usize = if text[i] == 43 {
        proof {
            assert(text@.subrange(i as int, j as int).drop_first() =~= text@.subrange(
                i as int + 1,
                j as int,
            ));
        }
        i + 1
    } else {
        i
    };
    proof {
        assert(unsigned_digits(trimmed(text@)) == text@.subrange(di as int, j as int));
    }
    if di == j {
        // a lone plus sign: no digits
        return 0;
    }
    let ghost d: Seq<u8> = text@.subrange(di as int, j as int);
    let mut v: u64 = 0;
    let mut k: usize = di;
    while k < j
        invariant
            di <= k <= j <= n,
            n == text@.len(),
            d == text@.subrange(di as int, j as int),
            unsigned_digits(trimmed(text@)) == d,
            d.len() == j - di,
            all_digits(d.take(k - di)),
            v as nat == digits_value(d.take(k - di)),
        decreases j - k,
    {
        let b = text[k];
        proof {
            assert(d[k - di] == text@[k as int]);
        }
        if b < 48 || b > 57 {
            // a non-digit corrupts the text; the store recovers with zero
            return 0;
        }
        let dv = (b - 48) as u64;
        proof {
            assert(d.take(k - di + 1).drop_last() =~= d.take(k - di));
            assert(d.take(k - di + 1).last() == d[k - di]);
            assert(digits_value(d.take(k - di + 1)) == digits_value(d.take(k - di)) * 10
                + digit_val(d[k - di]));
        }
        if v > u64::MAX / 10 || (v == u64::MAX / 10 && dv > u64::MAX % 10) {
            // the digits spell a value beyond 64 bits; the text is invalid
            proof {
                assert(u64::MAX == (u64::MAX / 10) * 10 + u64::MAX % 10);
                assert(digits_value(d.take(k - di + 1)) > u64::MAX);
                lemma_digits_value_prefix_le(d, k - di + 1);
                assert(!is_valid_counter_text(text@));
            }
            return 0;
        }
        proof {
            assert(u64::MAX == (u64::MAX / 10) * 10 + u64::MAX % 10);
            assert(v * 10 + dv <= u64::MAX);
            assert(all_digits(d.take(k - di + 1))) by {
                assert(forall|q: int|
                    0 <= q < k - di ==> #[trigger] d.take(k - di + 1)[q] == d.take(k - di)[q]);
            }
        }
        v = v * 10 + dv;
        k += 1;
    }
    proof {
        assert(d.take(k - di) =~= d);
        assert(is_valid_counter_text(text@));
    }
    v
}

/// Formats a counter value as the decimal text written back to the file.
pub fn format_counter(v: u64) -> (r: Vec<u8>)
    ensures
        r@ == decimal_of(v),
    decreases v,
{
    if v < 10 {
        let mut r: Vec<u8> = Vec::new();
        r.push((48 + v as u8));
        r
    } else {
        let mut r = format_counter(v / 10);
        r.push(48 + (v % 10) as u8);
        r
    }
}

/// One successful reservation: the base handed to the declaration and the
/// text that now stands in the counter file.
#[derive(Debug)]
pub struct Reservation {
    /// The value reserved for the caller, one past the stored counter.
    pub base: u64,
    /// The decimal text persisting the reserved value.
    pub stored_text: Vec<u8>,
}

/// The read-modify-write step of one reservation, between the read of the
/// counter file and the write-back, with the lock held by the caller.
///
/// The stored text is read leniently: whatever does not spell a 64-bit
/// value counts as zero. The reservation fails only when the counter has
/// exhausted the 64-bit range.
pub fn reserve_from_text(text: &[u8]) -> (r: Result<Reservation, AllocError>)
    ensures
        r is Ok <==> counter_of(text@) < u64::MAX,
        r matches Ok(res) ==> res.base == counter_of(text@) + 1 && res.stored_text@ == decimal_of(
            (counter_of(text@) + 1) as u64,
        ),
        r matches Err(e) ==> e == AllocError::CounterOverflow,
{
    let old_value = parse_counter(text);
    if old_value == u64::MAX {
        Err(AllocError::CounterOverflow)
    } else {
        let base = old_value + 1;
        let stored_text = format_counter(base);
        Ok(Reservation { base, stored_text })
    }
}

/// Every byte of a formatted counter is a decimal digit, and there is at
/// least one.
proof fn lemma_decimal_all_digits(v: u64)
    ensures
        decimal_of(v).len() > 0,
        all_digits(decimal_of(v)),
    decreases v,
{
    if v < 10 {
    } else {
        lemma_decimal_all_digits((v / 10) as u64);
        let s0 = decimal_of((v / 10) as u64);
        let b = (48 + v % 10) as u8;
        assert(is_digit(b));
        assert forall|i: int| 0 <= i < s0.push(b).len() implies is_digit(s0.push(b)[i]) by {
            if i < s0.len() {
                assert(s0.push(b)[i] == s0[i]);
            } else {
                assert(s0.push(b)[i] == b);
            }
        }
    }
}

/// The formatted text of a value spells exactly that value.
proof fn lemma_digits_value_decimal(v: u64)
    ensures
        digits_value(decimal_of(v)) == v,
    decreases v,
{
    if v < 10 {
        let s = decimal_of(v);
        assert(s.drop_last() =~= Seq::<u8>::empty());
        assert(digits_value(Seq::<u8>::empty()) == 0);
        assert(digit_val((48 + v) as u8) == v);
    } else {
        lemma_digits_value_decimal((v / 10) as u64);
        let s0 = decimal_of((v / 10) as u64);
        let b = (48 + v % 10) as u8;
        assert(s0.push(b).drop_last() =~= s0);
        assert(s0.push(b).last() == b);
        assert(digits_value(s0.push(b)) == digits_value(s0) * 10 + digit_val(b));
        assert(digit_val(b) == v % 10);
        lemma_fundamental_div_mod(v as int, 10);
    }
}

/// Persistence round trip: reading back the text written for a value yields
/// that value. This is what carries the counter from one invocation to the
/// next through the file.
pub proof fn lemma_decimal_roundtrip(v: u64)
    ensures
        counter_of(decimal_of(v)) == v,
{
    lemma_decimal_all_digits(v);
    lemma_digits_value_decimal(v);
    let s = decimal_of(v);
    assert(is_digit(s.first()));
    assert(is_digit(s.last()));
    assert(ltrimmed(s) == s);
    assert(rtrimmed(s) == s);
    assert(unsigned_digits(s) == s);
}

/// Corrupt-state recovery: any stored text that does not spell a 64-bit
/// value — non-numeric, empty, or out of range — reads as zero, so the next
/// reservation proceeds as though the counter were fresh. This leniency is
/// deliberate: the file is advisory and rebuildable.
pub proof fn lemma_corrupt_recovery(t: Seq<u8>)
    requires
        !is_valid_counter_text(t),
    ensures
        counter_of(t) == 0,
{
}

/// The counter text standing in the file after `n` successive reservations
/// that started from text `t`, each one writing back what the next reads.
pub open spec fn store_text_after(t: Seq<u8>, n: nat) -> Seq<u8>
    decreases n,
{
    if n == 0 {
        t
    } else {
        decimal_of((counter_of(store_text_after(t, (n - 1) as nat)) + 1) as u64)
    }
}

/// Monotonic reservation: starting from text `t`, the `i`-th of `n`
/// successive reservations sharing one directory reads counter
/// `counter_of(t) + i` and reserves base `counter_of(t) + i + 1`: the bases
/// are strictly increasing by exactly one, with no gaps and no repeats.
pub proof fn lemma_monotonic_reservation(t: Seq<u8>, n: nat)
    requires
        counter_of(t) + n <= u64::MAX,
    ensures
        counter_of(store_text_after(t, n)) == counter_of(t) + n,
    decreases n,
{
    if n > 0 {
        lemma_monotonic_reservation(t, (n - 1) as nat);
        lemma_decimal_roundtrip((counter_of(t) + n) as u64);
    }
}

} // verus!
