//! Canonical key text: lower-case hexadecimal rendering of 128-bit ids in
//! the usual hyphenated form, together with the injectivity facts that the
//! key scheme of the store rests on.

use vstd::prelude::*;

verus! {

/// ASCII code of the lower-case hexadecimal digit for a nibble.
pub open spec fn hex_digit(n: int) -> u8
    recommends
        0 <= n < 16,
{
    if n < 10 {
        (48 + n) as u8
    } else {
        (87 + n) as u8
    }
}

/// The last `count` base-16 digits of `n`, most significant first.
pub open spec fn hex_bytes(n: nat, count: nat) -> Seq<u8>
    decreases count,
{
    if count == 0 {
        Seq::empty()
    } else {
        hex_bytes(n / 16, (count - 1) as nat).push(hex_digit((n % 16) as int))
    }
}

pub proof fn lemma_hex_bytes_len(n: nat, count: nat)
    ensures
        hex_bytes(n, count).len() == count,
    decreases count,
{
    if count > 0 {
        lemma_hex_bytes_len(n / 16, (count - 1) as nat);
    }
}

/// Two numbers below `16^count` with the same digit sequence are equal.
pub proof fn lemma_hex_bytes_injective(a: nat, b: nat, count: nat)
    requires
        a < pow16(count),
        b < pow16(count),
        hex_bytes(a, count) == hex_bytes(b, count),
    ensures
        a == b,
    decreases count,
{
    if count == 0 {
        assert(pow16(0) == 1);
    } else {
        lemma_hex_bytes_len(a / 16, (count - 1) as nat);
        lemma_hex_bytes_len(b / 16, (count - 1) as nat);
        let sa = hex_bytes(a / 16, (count - 1) as nat);
        let sb = hex_bytes(b / 16, (count - 1) as nat);
        assert(sa.push(hex_digit((a % 16) as int)).drop_last() == sa);
        assert(sb.push(hex_digit((b % 16) as int)).drop_last() == sb);
        assert(sa == sb);
        assert(sa.push(hex_digit((a % 16) as int)).last() == hex_digit((a % 16) as int));
        assert(hex_digit((a % 16) as int) == hex_digit((b % 16) as int));
        assert(a % 16 == b % 16);
        assert(a / 16 < pow16((count - 1) as nat)) by {
            lemma_pow16_unfold(count);
        }
        assert(b / 16 < pow16((count - 1) as nat)) by {
            lemma_pow16_unfold(count);
        }
        lemma_hex_bytes_injective(a / 16, b / 16, (count - 1) as nat);
        assert(a == 16 * (a / 16) + a % 16);
        assert(b == 16 * (b / 16) + b % 16);
    }
}

/// `16^count`.
pub open spec fn pow16(count: nat) -> nat
    decreases count,
{
    if count == 0 {
        1
    } else {
        16 * pow16((count - 1) as nat)
    }
}

pub proof fn lemma_pow16_pos(count: nat)
    ensures
        pow16(count) > 0,
    decreases count,
{
    if count > 0 {
        lemma_pow16_pos((count - 1) as nat);
    }
}

proof fn lemma_pow16_unfold(count: nat)
    requires
        count > 0,
    ensures
        pow16(count) == 16 * pow16((count - 1) as nat),
{
}

/// The concrete powers of 16 that the hyphenated rendering uses.
pub proof fn lemma_pow16_values()
    ensures
        pow16(12) == 0x1000000000000,
        pow16(16) == 0x10000000000000000,
        pow16(20) == 0x100000000000000000000,
        pow16(24) == 0x1000000000000000000000000,
        pow16(32) == 0x100000000000000000000000000000000,
{
    reveal_with_fuel(pow16, 33);
}

/// Splitting a digit sequence: the `c1` high digits render `n / 16^c2`.
pub proof fn lemma_hex_bytes_split(n: nat, c1: nat, c2: nat)
    ensures
        hex_bytes(n, c1 + c2) == hex_bytes(n / pow16(c2), c1) + hex_bytes(n, c2),
    decreases c2,
{
    if c2 == 0 {
        assert(pow16(0) == 1);
        assert(n / 1 == n);
        assert(hex_bytes(n, c2) == Seq::<u8>::empty());
        assert(hex_bytes(n / pow16(c2), c1) + hex_bytes(n, c2) == hex_bytes(n, c1)) by {
            assert(hex_bytes(n, c1) + Seq::<u8>::empty() =~= hex_bytes(n, c1));
        }
    } else {
        lemma_hex_bytes_split(n / 16, c1, (c2 - 1) as nat);
        assert((n / 16) / pow16((c2 - 1) as nat) == n / pow16(c2)) by {
            lemma_pow16_pos((c2 - 1) as nat);
            vstd::arithmetic::div_mod::lemma_div_denominator(
                n as int,
                16,
                pow16((c2 - 1) as nat) as int,
            );
            assert(16 * pow16((c2 - 1) as nat) == pow16(c2));
        }
        assert(hex_bytes(n, (c1 + c2) as nat) == hex_bytes(n / 16, (c1 + c2 - 1) as nat).push(
            hex_digit((n % 16) as int),
        ));
        assert(hex_bytes(n / pow16(c2), c1) + hex_bytes(n / 16, (c2 - 1) as nat).push(
            hex_digit((n % 16) as int),
        ) =~= (hex_bytes(n / pow16(c2), c1) + hex_bytes(n / 16, (c2 - 1) as nat)).push(
            hex_digit((n % 16) as int),
        ));
    }
}

/// The hyphenated 8-4-4-4-12 hexadecimal rendering of a 128-bit id,
/// as ASCII bytes (36 of them).
pub open spec fn uuid_bytes(id: u128) -> Seq<u8> {
    hex_bytes((id as nat) / pow16(24), 8) + seq![45u8] + hex_bytes((id as nat) / pow16(20), 4)
        + seq![45u8] + hex_bytes((id as nat) / pow16(16), 4) + seq![45u8] + hex_bytes(
        (id as nat) / pow16(12),
        4,
    ) + seq![45u8] + hex_bytes(id as nat, 12)
}

pub proof fn lemma_uuid_bytes_len(id: u128)
    ensures
        uuid_bytes(id).len() == 36,
{
    lemma_hex_bytes_len((id as nat) / pow16(24), 8);
    lemma_hex_bytes_len((id as nat) / pow16(20), 4);
    lemma_hex_bytes_len((id as nat) / pow16(16), 4);
    lemma_hex_bytes_len((id as nat) / pow16(12), 4);
    lemma_hex_bytes_len(id as nat, 12);
}

/// Distinct ids render to distinct hyphenated strings.
pub proof fn lemma_uuid_bytes_injective(a: u128, b: u128)
    requires
        uuid_bytes(a) == uuid_bytes(b),
    ensures
        a == b,
{
    lemma_uuid_to_plain(a);
    lemma_uuid_to_plain(b);
    lemma_pow16_values();
    lemma_hex_bytes_injective(a as nat, b as nat, 32);
}

/// The hyphenated rendering determines the plain 32-digit rendering.
proof fn lemma_uuid_to_plain(id: u128)
    ensures
        hex_bytes(id as nat, 32) == uuid_bytes(id).subrange(0, 8) + uuid_bytes(id).subrange(9, 13)
            + uuid_bytes(id).subrange(14, 18) + uuid_bytes(id).subrange(19, 23) + uuid_bytes(
            id,
        ).subrange(24, 36),
{
    let n = id as nat;
    lemma_hex_bytes_len(n / pow16(24), 8);
    lemma_hex_bytes_len(n / pow16(20), 4);
    lemma_hex_bytes_len(n / pow16(16), 4);
    lemma_hex_bytes_len(n / pow16(12), 4);
    lemma_hex_bytes_len(n, 12);
    // Decompose hex_bytes(n, 32) stepwise into the five segments.
    lemma_hex_bytes_split(n, 20, 12);
    lemma_hex_bytes_split(n / pow16(12), 16, 4);
    lemma_hex_bytes_split(n / pow16(16), 12, 4);
    lemma_hex_bytes_split(n / pow16(20), 8, 4);
    assert((n / pow16(12)) / pow16(4) == n / pow16(16)) by {
        lemma_pow16_pos(12);
        lemma_pow16_pos(4);
        vstd::arithmetic::div_mod::lemma_div_denominator(n as int, pow16(12) as int, pow16(4) as int);
        lemma_pow16_add(12, 4);
    }
    assert((n / pow16(16)) / pow16(4) == n / pow16(20)) by {
        lemma_pow16_pos(16);
        lemma_pow16_pos(4);
        vstd::arithmetic::div_mod::lemma_div_denominator(n as int, pow16(16) as int, pow16(4) as int);
        lemma_pow16_add(16, 4);
    }
    assert((n / pow16(20)) / pow16(4) == n / pow16(24)) by {
        lemma_pow16_pos(20);
        lemma_pow16_pos(4);
        vstd::arithmetic::div_mod::lemma_div_denominator(n as int, pow16(20) as int, pow16(4) as int);
        lemma_pow16_add(20, 4);
    }
    assert(hex_bytes(n, 32) =~= hex_bytes(n / pow16(24), 8) + hex_bytes(n / pow16(20), 4)
        + hex_bytes(n / pow16(16), 4) + hex_bytes(n / pow16(12), 4) + hex_bytes(n, 12));
    lemma_uuid_bytes_len(id);
    assert(uuid_bytes(id).subrange(0, 8) =~= hex_bytes(n / pow16(24), 8));
    assert(uuid_bytes(id).subrange(9, 13) =~= hex_bytes(n / pow16(20), 4));
    assert(uuid_bytes(id).subrange(14, 18) =~= hex_bytes(n / pow16(16), 4));
    assert(uuid_bytes(id).subrange(19, 23) =~= hex_bytes(n / pow16(12), 4));
    assert(uuid_bytes(id).subrange(24, 36) =~= hex_bytes(n, 12));
}

proof fn lemma_pow16_add(c1: nat, c2: nat)
    ensures
        pow16(c1) * pow16(c2) == pow16(c1 + c2),
    decreases c2,
{
    if c2 == 0 {
        assert(pow16(c2) == 1);
        assert(pow16(c1) * 1 == pow16(c1)) by (nonlinear_arith);
    } else {
        lemma_pow16_add(c1, (c2 - 1) as nat);
        assert(pow16(c1) * pow16(c2) == 16 * (pow16(c1) * pow16((c2 - 1) as nat)))
            by (nonlinear_arith)
            requires
                pow16(c2) == 16 * pow16((c2 - 1) as nat),
        ;
        assert(pow16(c1) * pow16((c2 - 1) as nat) == pow16((c1 + c2 - 1) as nat));
        assert(pow16(c1 + c2) == 16 * pow16((c1 + c2 - 1) as nat));
    }
}

/// Digits of `n` below the given count, most significant first.
fn hex_vec(n: u128, count: usize) -> (r: Vec<u8>)
    requires
        count <= 32,
    ensures
        r@ == hex_bytes(n as nat, count as nat),
    decreases count,
{
    proof {
        lemma_hex_bytes_len(n as nat, count as nat);
    }
    if count == 0 {
        Vec::new()
    } else {
        let mut r = hex_vec(n / 16, count - 1);
        let nib = (n % 16) as u8;
        let digit: u8 = if nib < 10 {
            48 + nib
        } else {
            87 + nib
        };
        r.push(digit);
        r
    }
}

/// The hyphenated hexadecimal rendering of an id, as ASCII bytes.
pub fn uuid_text_bytes(id: u128) -> (r: Vec<u8>)
    ensures
        r@ == uuid_bytes(id),
        r@.len() == 36,
{
    proof {
        lemma_uuid_bytes_len(id);
    }
    let mut r = hex_vec(id / 0x1000000000000000000000000, 8);
    r.push(45);
    let mut s1 = hex_vec(id / 0x100000000000000000000, 4);
    r.append(&mut s1);
    r.push(45);
    let mut s2 = hex_vec(id / 0x10000000000000000, 4);
    r.append(&mut s2);
    r.push(45);
    let mut s3 = hex_vec(id / 0x1000000000000, 4);
    r.append(&mut s3);
    r.push(45);
    let mut s4 = hex_vec(id, 12);
    r.append(&mut s4);
    proof {
        lemma_pow16_values();
        assert(r@ =~= uuid_bytes(id));
    }
    r
}

} // verus!
