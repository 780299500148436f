//! Little-endian byte strings and the integers they stand for.

use vstd::prelude::*;

verus! {

/// 256 to the power `width`: the number of values that `width` bytes can hold.
pub open spec fn pow256(width: nat) -> nat
    decreases width,
{
    if width == 0 {
        1
    } else {
        256 * pow256((width - 1) as nat)
    }
}

/// The `width` low-order bytes of `value`, least significant first.
pub open spec fn le_bytes(value: nat, width: nat) -> Seq<u8>
    decreases width,
{
    if width == 0 {
        Seq::empty()
    } else {
        seq![(value % 256) as u8] + le_bytes(value / 256, (width - 1) as nat)
    }
}

/// The number that `bytes` spell, least significant byte first.
pub open spec fn le_value(bytes: Seq<u8>) -> nat
    decreases bytes.len(),
{
    if bytes.len() == 0 {
        0
    } else {
        bytes[0] as nat + 256 * le_value(bytes.drop_first())
    }
}

/// The unsigned number that stands for `value` in two's complement on `width` bytes.
pub open spec fn to_twos(value: int, width: nat) -> nat {
    if value >= 0 {
        value as nat
    } else {
        (value + pow256(width)) as nat
    }
}

/// The signed number for which `code` stands in two's complement on `width` bytes.
pub open spec fn from_twos(code: nat, width: nat) -> int {
    if 2 * code < pow256(width) {
        code as int
    } else {
        code - pow256(width)
    }
}

pub proof fn lemma_pow256_values()
    ensures
        pow256(0) == 1,
        pow256(1) == 0x100,
        pow256(2) == 0x1_0000,
        pow256(3) == 0x100_0000,
        pow256(4) == 0x1_0000_0000,
        pow256(8) == 0x1_0000_0000_0000_0000,
        pow256(16) == 0x1_0000_0000_0000_0000_0000_0000_0000_0000,
{
    reveal_with_fuel(pow256, 17);
}

/// `le_bytes` gives exactly `width` bytes.
pub proof fn lemma_le_bytes_len(value: nat, width: nat)
    ensures
        le_bytes(value, width).len() == width,
    decreases width,
{
    if width > 0 {
        lemma_le_bytes_len(value / 256, (width - 1) as nat);
    }
}

/// What `width` bytes spell is below `pow256(width)`.
pub proof fn lemma_le_value_bound(bytes: Seq<u8>)
    ensures
        le_value(bytes) < pow256(bytes.len()),
    decreases bytes.len(),
{
    if bytes.len() > 0 {
        lemma_le_value_bound(bytes.drop_first());
    }
}

/// Reading back the bytes of a number gives the number, reduced to the width.
pub proof fn lemma_le_value_of_bytes(value: nat, width: nat)
    ensures
        le_value(le_bytes(value, width)) == value % pow256(width),
    decreases width,
{
    if width > 0 {
        let rest = le_bytes(value / 256, (width - 1) as nat);
        let all = le_bytes(value, width);
        lemma_le_value_of_bytes(value / 256, (width - 1) as nat);
        assert(all.drop_first() =~= rest);
        let p = pow256((width - 1) as nat);
        assert(p > 0) by {
            lemma_pow256_positive((width - 1) as nat);
        }
        assert(value % (256 * p) == value % 256 + 256 * ((value / 256) % p)) by {
            lemma_mod_split(value, p);
        }
    }
}

/// Writing out what bytes spell gives the bytes back.
pub proof fn lemma_le_bytes_of_value(bytes: Seq<u8>)
    ensures
        le_bytes(le_value(bytes), bytes.len()) == bytes,
    decreases bytes.len(),
{
    if bytes.len() > 0 {
        let tail = bytes.drop_first();
        lemma_le_bytes_of_value(tail);
        let v = le_value(bytes);
        assert(v % 256 == bytes[0] as nat && v / 256 == le_value(tail)) by {
            lemma_div_mod_256(bytes[0] as nat, le_value(tail));
        }
        assert(le_bytes(v, bytes.len()) =~= bytes);
    } else {
        assert(le_bytes(0, 0) =~= bytes);
    }
}

/// The bytes of a number and those of its residue modulo `pow256(width)` are the same.
pub proof fn lemma_le_bytes_mod(value: nat, width: nat)
    ensures
        le_bytes(value % pow256(width), width) == le_bytes(value, width),
{
    lemma_le_value_of_bytes(value, width);
    lemma_le_bytes_len(value, width);
    lemma_le_bytes_of_value(le_bytes(value, width));
}

pub proof fn lemma_pow256_positive(width: nat)
    ensures
        pow256(width) > 0,
    decreases width,
{
    if width > 0 {
        lemma_pow256_positive((width - 1) as nat);
    }
}

proof fn lemma_mod_split(value: nat, p: nat)
    requires
        p > 0,
    ensures
        value % (256 * p) == value % 256 + 256 * ((value / 256) % p),
{
    let q = value / 256;
    let r = value % 256;
    let qq = q / p;
    let qr = q % p;
    assert(value == 256 * q + r);
    assert(q == p * qq + qr) by (nonlinear_arith)
        requires
            qq == q / p,
            qr == q % p,
            p > 0,
    ;
    assert(value == (256 * p) * qq + (256 * qr + r)) by (nonlinear_arith)
        requires
            value == 256 * q + r,
            q == p * qq + qr,
    ;
    assert(0 <= 256 * qr + r < 256 * p) by (nonlinear_arith)
        requires
            0 <= qr < p,
            0 <= r < 256,
    ;
    vstd::arithmetic::div_mod::lemma_fundamental_div_mod_converse(
        value as int,
        (256 * p) as int,
        qq as int,
        (256 * qr + r) as int,
    );
}

proof fn lemma_div_mod_256(low: nat, high: nat)
    requires
        low < 256,
    ensures
        (low + 256 * high) % 256 == low,
        (low + 256 * high) / 256 == high,
{
    vstd::arithmetic::div_mod::lemma_fundamental_div_mod_converse(
        (low + 256 * high) as int,
        256,
        high as int,
        low as int,
    );
}

/// Reads the number that `bytes` spell, least significant byte first.
pub fn get_le(bytes: &Vec<u8>) -> (value: u128)
    requires
        bytes@.len() <= 16,
    ensures
        value == le_value(bytes@),
{
    let mut value: u128 = 0;
    let mut i: usize = bytes.len();
    proof {
        assert(bytes@.subrange(i as int, bytes@.len() as int) =~= Seq::<u8>::empty());
        lemma_pow256_values();
    }
    while i > 0
        invariant
            i <= bytes@.len() <= 16,
            value == le_value(bytes@.subrange(i as int, bytes@.len() as int)),
        decreases i,
    {
        let ghost tail = bytes@.subrange(i as int, bytes@.len() as int);
        i = i - 1;
        let ghost all = bytes@.subrange(i as int, bytes@.len() as int);
        proof {
            assert(all.drop_first() =~= tail);
            assert(all[0] == bytes@[i as int]);
            lemma_le_value_bound(tail);
            lemma_le_value_bound(all);
            lemma_pow256_monotonic(all.len(), 16);
            lemma_pow256_values();
        }
        value = value * 256 + bytes[i] as u128;
    }
    proof {
        assert(bytes@.subrange(0, bytes@.len() as int) =~= bytes@);
    }
    value
}

/// Appends the `width` low-order bytes of `value` to `out`, least significant first.
pub fn put_le(out: &mut Vec<u8>, value: u128, width: usize)
    ensures
        final(out)@ == old(out)@ + le_bytes(value as nat, width as nat),
{
    let mut rest: u128 = value;
    let mut i: usize = 0;
    proof {
        assert(old(out)@ + le_bytes(value as nat, width as nat) =~= old(out)@ + le_bytes(
            value as nat,
            width as nat,
        ));
    }
    while i < width
        invariant
            i <= width,
            out@ + le_bytes(rest as nat, (width - i) as nat) == old(out)@ + le_bytes(
                value as nat,
                width as nat,
            ),
        decreases width - i,
    {
        let ghost before = out@;
        out.push((rest % 256) as u8);
        proof {
            let k = (width - i) as nat;
            assert(le_bytes(rest as nat, k) == seq![(rest as nat % 256) as u8] + le_bytes(
                rest as nat / 256,
                (k - 1) as nat,
            ));
            assert(before.push((rest % 256) as u8) + le_bytes(rest as nat / 256, (k - 1) as nat)
                =~= before + le_bytes(rest as nat, k));
        }
        rest = rest / 256;
        i = i + 1;
    }
    proof {
        assert(out@ + le_bytes(rest as nat, 0) =~= out@);
    }
}

/// The two's complement code of `value` on `width` bytes.
pub fn encode_twos(value: i128, width: usize) -> (code: u128)
    requires
        width == 1 || width == 2 || width == 4 || width == 8 || width == 16,
        -(pow256(width as nat) as int) <= 2 * value < pow256(width as nat),
    ensures
        code == to_twos(value as int, width as nat),
        code < pow256(width as nat),
{
    proof {
        lemma_pow256_values();
    }
    if value >= 0 {
        value as u128
    } else if width == 16 {
        (value - i128::MIN) as u128 + 0x8000_0000_0000_0000_0000_0000_0000_0000u128
    } else if width == 8 {
        (value + 0x1_0000_0000_0000_0000i128) as u128
    } else if width == 4 {
        (value + 0x1_0000_0000i128) as u128
    } else if width == 2 {
        (value + 0x1_0000i128) as u128
    } else {
        (value + 0x100i128) as u128
    }
}

/// The number for which `code` stands in two's complement on `width` bytes.
pub fn decode_twos(code: u128, width: usize) -> (value: i128)
    requires
        width == 1 || width == 2 || width == 4 || width == 8 || width == 16,
        code < pow256(width as nat),
    ensures
        value == from_twos(code as nat, width as nat),
        -(pow256(width as nat) as int) <= 2 * value < pow256(width as nat),
{
    proof {
        lemma_pow256_values();
    }
    if width == 16 {
        if code < 0x8000_0000_0000_0000_0000_0000_0000_0000u128 {
            code as i128
        } else {
            (code - 0x8000_0000_0000_0000_0000_0000_0000_0000u128) as i128 + i128::MIN
        }
    } else if width == 8 {
        if code < 0x8000_0000_0000_0000u128 {
            code as i128
        } else {
            code as i128 - 0x1_0000_0000_0000_0000i128
        }
    } else if width == 4 {
        if code < 0x8000_0000u128 {
            code as i128
        } else {
            code as i128 - 0x1_0000_0000i128
        }
    } else if width == 2 {
        if code < 0x8000u128 {
            code as i128
        } else {
            code as i128 - 0x1_0000i128
        }
    } else {
        if code < 0x80u128 {
            code as i128
        } else {
            code as i128 - 0x100i128
        }
    }
}

/// Two's complement on `width` bytes loses nothing of a number that fits.
pub proof fn lemma_twos_round_trip(value: int, width: nat)
    requires
        -(pow256(width) as int) <= 2 * value < pow256(width),
    ensures
        to_twos(value, width) < pow256(width),
        from_twos(to_twos(value, width), width) == value,
{
}

pub proof fn lemma_pow256_monotonic(a: nat, b: nat)
    requires
        a <= b,
    ensures
        pow256(a) <= pow256(b),
    decreases b,
{
    if a < b {
        lemma_pow256_monotonic(a, (b - 1) as nat);
        lemma_pow256_positive((b - 1) as nat);
    }
}

} // verus!
