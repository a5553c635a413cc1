//! Time-ordered entry identifiers: a 48-bit millisecond timestamp and an
//! 80-bit random tie-break component, encoded as 26 Crockford base-32
//! characters. The encoding alphabet ascends with the character codes, so
//! the lexicographic order of two ids agrees with the numeric order of the
//! underlying values; ids double as opaque pagination cursors.

use vstd::prelude::*;
use vstd::arithmetic::div_mod::*;
use vstd::arithmetic::power::*;
use vstd::arithmetic::mul::*;
use vstd::string::*;

verus! {

/// Strict lexicographic order on character sequences, by code point; a
/// proper prefix sorts before every extension of it.
pub open spec fn seq_char_lt(a: Seq<char>, b: Seq<char>) -> bool
    decreases a.len(),
{
    if b.len() == 0 {
        false
    } else if a.len() == 0 {
        true
    } else if (a[0] as u32) < (b[0] as u32) {
        true
    } else if (b[0] as u32) < (a[0] as u32) {
        false
    } else {
        seq_char_lt(a.skip(1), b.skip(1))
    }
}

/// The lexicographic order is irreflexive.
pub proof fn lemma_seq_char_lt_irrefl(a: Seq<char>)
    ensures
        !seq_char_lt(a, a),
    decreases a.len(),
{
    if a.len() > 0 {
        lemma_seq_char_lt_irrefl(a.skip(1));
    }
}

/// Any two character sequences are ordered one way, the other way, or equal.
pub proof fn lemma_seq_char_lt_trichotomy(a: Seq<char>, b: Seq<char>)
    ensures
        seq_char_lt(a, b) || seq_char_lt(b, a) || a == b,
    decreases a.len(),
{
    if b.len() == 0 {
        if a.len() == 0 {
            assert(a =~= b);
        }
    } else if a.len() == 0 {
    } else {
        let x = a[0] as u32;
        let y = b[0] as u32;
        if x == y {
            lemma_seq_char_lt_trichotomy(a.skip(1), b.skip(1));
            if a.skip(1) == b.skip(1) {
                vstd::utf8::char_u32_cast(a[0], x);
                vstd::utf8::char_u32_cast(b[0], y);
                assert(a[0] == b[0]);
                assert(a.skip(1).len() == a.len() - 1);
                assert(b.skip(1).len() == b.len() - 1);
                assert(a.len() == b.len());
                assert forall|i: int| 0 <= i < a.len() implies a[i] == b[i] by {
                    if i > 0 {
                        assert(a.skip(1)[i - 1] == a[i]);
                        assert(b.skip(1)[i - 1] == b[i]);
                    }
                }
                assert(a =~= b);
            }
        }
    }
}

/// The lexicographic order is transitive.
pub proof fn lemma_seq_char_lt_trans(a: Seq<char>, b: Seq<char>, c: Seq<char>)
    requires
        seq_char_lt(a, b),
        seq_char_lt(b, c),
    ensures
        seq_char_lt(a, c),
    decreases a.len(),
{
    if a.len() > 0 && b.len() > 0 && c.len() > 0 {
        let x = a[0] as u32;
        let y = b[0] as u32;
        let z = c[0] as u32;
        if x == y && y == z {
            lemma_seq_char_lt_trans(a.skip(1), b.skip(1), c.skip(1));
        }
    }
}

/// 32 to the power `n`.
pub open spec fn pow32(n: nat) -> int {
    pow(32, n)
}

/// The Crockford base-32 alphabet, ascending: `crock_char(d)` is the digit
/// character for value `d`. The letters I, L, O and U are skipped, and the
/// character codes ascend with the digit values.
pub open spec fn crock_char(d: int) -> char {
    if d == 0 { '0' } else if d == 1 { '1' } else if d == 2 { '2' } else if d == 3 { '3' }
    else if d == 4 { '4' } else if d == 5 { '5' } else if d == 6 { '6' } else if d == 7 { '7' }
    else if d == 8 { '8' } else if d == 9 { '9' } else if d == 10 { 'A' } else if d == 11 { 'B' }
    else if d == 12 { 'C' } else if d == 13 { 'D' } else if d == 14 { 'E' } else if d == 15 { 'F' }
    else if d == 16 { 'G' } else if d == 17 { 'H' } else if d == 18 { 'J' } else if d == 19 { 'K' }
    else if d == 20 { 'M' } else if d == 21 { 'N' } else if d == 22 { 'P' } else if d == 23 { 'Q' }
    else if d == 24 { 'R' } else if d == 25 { 'S' } else if d == 26 { 'T' } else if d == 27 { 'V' }
    else if d == 28 { 'W' } else if d == 29 { 'X' } else if d == 30 { 'Y' } else { 'Z' }
}

/// The alphabet's character codes strictly ascend with the digit values.
pub proof fn lemma_crock_char_monotone(d1: int, d2: int)
    requires
        0 <= d1 < d2 < 32,
    ensures
        (crock_char(d1) as u32) < (crock_char(d2) as u32),
{
}

/// The `n` most significant base-32 digits of `v`, as characters, most
/// significant first.
pub open spec fn base32_chars(v: int, n: nat) -> Seq<char>
    decreases n,
{
    if n == 0 {
        Seq::empty()
    } else {
        seq![crock_char(v / pow32((n - 1) as nat))]
            + base32_chars(v % pow32((n - 1) as nat), (n - 1) as nat)
    }
}

/// The encoding always yields exactly `n` characters.
pub proof fn lemma_base32_chars_len(v: int, n: nat)
    ensures
        base32_chars(v, n).len() == n,
    decreases n,
{
    if n > 0 {
        lemma_base32_chars_len(v % pow32((n - 1) as nat), (n - 1) as nat);
    }
}

/// The encoding is strictly monotone: a numerically smaller value encodes to
/// a lexicographically smaller digit string of the same length.
pub proof fn lemma_base32_chars_monotone(v1: int, v2: int, n: nat)
    requires
        0 <= v1 < v2 < pow32(n),
    ensures
        seq_char_lt(base32_chars(v1, n), base32_chars(v2, n)),
    decreases n,
{
    if n == 0 {
        lemma_pow0(32);
        assert(false);
    } else {
        let m = (n - 1) as nat;
        let p = pow32(m);
        lemma_pow_positive(32, m);
        assert(pow32(n) == 32 * p) by {
            lemma_pow1(32);
            lemma_pow_adds(32, 1, m);
        }
        let h1 = v1 / p;
        let h2 = v2 / p;
        lemma_div_is_ordered(v1, v2, p);
        lemma_mul_is_commutative(32, p);
        lemma_multiply_divide_lt(v2, p, 32);
        lemma_div_pos_is_pos(v1, p);
        lemma_fundamental_div_mod(v1, p);
        lemma_fundamental_div_mod(v2, p);
        lemma_mod_bound(v1, p);
        lemma_mod_bound(v2, p);
        let s1 = base32_chars(v1, n);
        let s2 = base32_chars(v2, n);
        assert(s1 == seq![crock_char(h1)] + base32_chars(v1 % p, m));
        assert(s2 == seq![crock_char(h2)] + base32_chars(v2 % p, m));
        lemma_base32_chars_len(v1 % p, m);
        lemma_base32_chars_len(v2 % p, m);
        if h1 < h2 {
            lemma_crock_char_monotone(h1, h2);
            assert(seq_char_lt(s1, s2));
        } else {
            assert(h1 == h2);
            assert(v1 % p < v2 % p);
            lemma_base32_chars_monotone(v1 % p, v2 % p, m);
            assert(s1.skip(1) =~= base32_chars(v1 % p, m));
            assert(s2.skip(1) =~= base32_chars(v2 % p, m));
            assert(seq_char_lt(s1, s2));
        }
    }
}

/// One more than the largest valid 48-bit millisecond timestamp.
pub const TIME_MOD: u64 = 0x1_0000_0000_0000;

/// One more than the largest valid 80-bit random component; also `32^16`,
/// the weight of the timestamp inside the combined value.
pub const RAND_MOD: u128 = 0x1_0000_0000_0000_0000_0000;

/// `32^25`, the weight of an id's most significant digit.
pub const POW32_25: u128 = 0x2000_0000_0000_0000_0000_0000_0000_0000;

/// Closed forms of the powers of 32 the id layout is built from.
pub proof fn lemma_pow32_consts()
    ensures
        pow32(16) == RAND_MOD,
        pow32(25) == POW32_25,
        pow32(26) == 0x4_0000_0000_0000_0000_0000_0000_0000_0000,
{
    lemma_pow0(32);
    lemma_pow1(32);
    lemma_pow_adds(32, 1, 1);
    assert(pow32(2) == 1024);
    lemma_pow_adds(32, 2, 2);
    assert(pow32(4) == 0x10_0000);
    lemma_pow_adds(32, 4, 4);
    assert(pow32(8) == 0x100_0000_0000);
    lemma_pow_adds(32, 8, 8);
    assert(pow32(16) == 0x1_0000_0000_0000_0000_0000);
    lemma_pow_adds(32, 16, 8);
    assert(pow32(24) == 0x100_0000_0000_0000_0000_0000_0000_0000);
    lemma_pow_adds(32, 24, 1);
    assert(pow32(25) == POW32_25);
    lemma_pow_adds(32, 25, 1);
}

/// The 128-bit value an id encodes: the timestamp in the 48 most significant
/// bits, the random component in the 80 least significant.
pub open spec fn ulid_value(ts_ms: u64, random: u128) -> int {
    ts_ms * pow32(16) + random
}

/// The 26 characters of the id generated from the given parts.
pub open spec fn ulid_id_chars(ts_ms: u64, random: u128) -> Seq<char> {
    base32_chars(ulid_value(ts_ms, random), 26)
}

/// Ids are strictly time-ordered: entries created in distinct millisecond
/// buckets compare by creation time, whatever their random components.
pub proof fn lemma_ids_time_ordered(ts1: u64, r1: u128, ts2: u64, r2: u128)
    requires
        ts1 < ts2 < TIME_MOD,
        r1 < RAND_MOD,
        r2 < RAND_MOD,
    ensures
        seq_char_lt(ulid_id_chars(ts1, r1), ulid_id_chars(ts2, r2)),
{
    lemma_pow32_consts();
    let p = pow32(16);
    let v1 = ulid_value(ts1, r1);
    let v2 = ulid_value(ts2, r2);
    assert(ts1 * p + p == (ts1 + 1) * p) by {
        lemma_mul_is_distributive_add_other_way(p, ts1 as int, 1);
    }
    lemma_mul_inequality(ts1 + 1, ts2 as int, p);
    assert(v1 < v2);
    lemma_mul_inequality(ts2 as int, (TIME_MOD - 1) as int, p);
    assert(v2 < pow32(26));
    lemma_mul_is_commutative(ts1 as int, p);
    lemma_base32_chars_monotone(v1, v2, 26);
}

/// Whether id `a` sorts strictly before id `b`; the comparison that orders
/// audit log entries and bounds cursor pagination.
pub fn id_lt(a: &str, b: &str) -> (r: bool)
    ensures
        r == seq_char_lt(a@, b@),
{
    let alen = a.unicode_len();
    let blen = b.unicode_len();
    let mut i: usize = 0;
    proof {
        assert(a@.skip(0) =~= a@);
        assert(b@.skip(0) =~= b@);
    }
    while i < alen && i < blen
        invariant
            i <= alen,
            i <= blen,
            alen == a@.len(),
            blen == b@.len(),
            seq_char_lt(a@, b@) == seq_char_lt(a@.skip(i as int), b@.skip(i as int)),
        decreases alen - i,
    {
        let ca = a.get_char(i);
        let cb = b.get_char(i);
        proof {
            assert(a@.skip(i as int)[0] == a@[i as int]);
            assert(b@.skip(i as int)[0] == b@[i as int]);
        }
        if (ca as u32) < (cb as u32) {
            return true;
        }
        if (cb as u32) < (ca as u32) {
            return false;
        }
        proof {
            assert(a@.skip(i as int).skip(1) =~= a@.skip(i as int + 1));
            assert(b@.skip(i as int).skip(1) =~= b@.skip(i as int + 1));
        }
        i = i + 1;
    }
    proof {
        assert(a@.skip(i as int).len() == alen - i);
        assert(b@.skip(i as int).len() == blen - i);
    }
    alen < blen
}

/// Encode the given timestamp and random parts as a 26-character id.
pub fn encode_ulid(ts_ms: u64, random: u128) -> (r: String)
    requires
        ts_ms < TIME_MOD,
        random < RAND_MOD,
    ensures
        r@ == ulid_id_chars(ts_ms, random),
        r@.len() == 26,
{
    proof {
        lemma_pow32_consts();
        lemma_mul_inequality(ts_ms as int, (TIME_MOD - 1) as int, RAND_MOD as int);
    }
    let value: u128 = (ts_ms as u128) * RAND_MOD + random;
    let alpha = "0123456789ABCDEFGHJKMNPQRSTVWXYZ";
    proof {
        reveal_strlit("0123456789ABCDEFGHJKMNPQRSTVWXYZ");
        assert(alpha@.len() == 32);
        assert(forall|d: int| 0 <= d < 32 ==> alpha@[d] == crock_char(d));
        assert(alpha.is_ascii());
    }
    let mut s = String::new();
    let mut v: u128 = value;
    let mut pw: u128 = POW32_25;
    let mut i: usize = 0;
    proof {
        lemma_mul_is_commutative(ts_ms as int, RAND_MOD as int);
        assert(value as int == ulid_value(ts_ms, random));
        assert(value < pow32(26));
    }
    while i < 26
        invariant
            i <= 26,
            alpha@.len() == 32,
            forall|d: int| 0 <= d < 32 ==> alpha@[d] == crock_char(d),
            alpha.is_ascii(),
            i < 26 ==> pw as int == pow32((25 - i) as nat),
            (v as int) < pow32((26 - i) as nat),
            s@ + base32_chars(v as int, (26 - i) as nat) == base32_chars(
                value as int,
                26,
            ),
            base32_chars(value as int, 26) == ulid_id_chars(ts_ms, random),
        decreases 26 - i,
    {
        let ghost n = (26 - i) as nat;
        let ghost m = (25 - i) as nat;
        proof {
            lemma_pow_positive(32, m);
            assert(pow32(n) == 32 * pow32(m)) by {
                lemma_pow1(32);
                lemma_pow_adds(32, 1, m);
            }
            lemma_mul_is_commutative(32, pw as int);
            lemma_multiply_divide_lt(v as int, pw as int, 32);
            lemma_mod_bound(v as int, pw as int);
        }
        let d = v / pw;
        let ds = alpha.substring_ascii(d as usize, d as usize + 1);
        proof {
            assert(ds@ =~= seq![crock_char(d as int)]);
            assert(base32_chars(v as int, n) == seq![crock_char(v as int / pow32(m))]
                + base32_chars(v as int % pow32(m), m));
            assert((s@ + ds@) + base32_chars((v % pw) as int, m) =~= s@ + base32_chars(
                v as int,
                n,
            ));
        }
        s.append(ds);
        v = v % pw;
        proof {
            if i + 1 < 26 {
                assert(pow32(m) == 32 * pow32((24 - i) as nat)) by {
                    lemma_pow1(32);
                    lemma_pow_adds(32, 1, (24 - i) as nat);
                }
                lemma_pow_positive(32, (24 - i) as nat);
                lemma_div_multiples_vanish(pow32((24 - i) as nat), 32);
            }
        }
        pw = pw / 32;
        i = i + 1;
    }
    proof {
        assert(s@ =~= s@ + base32_chars(v as int, 0));
        lemma_base32_chars_len(value as int, 26);
    }
    s
}

} // verus!
