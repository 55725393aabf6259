//! Fixed-width little-endian integers on the wire: the byte-level
//! specification, verified conversions, and the round-trip laws the
//! codec's proofs rest on.

use vstd::prelude::*;

verus! {

/// `256^n`: the number of values an `n`-byte field can carry.
pub open spec fn pow256(n: nat) -> nat
    decreases n,
{
    if n == 0 {
        1
    } else {
        256 * pow256((n - 1) as nat)
    }
}

/// The `n`-byte little-endian encoding of `v` (modulo `256^n`).
pub open spec fn spec_le_bytes(v: nat, n: nat) -> Seq<u8>
    decreases n,
{
    if n == 0 {
        Seq::empty()
    } else {
        seq![(v % 256) as u8].add(spec_le_bytes(v / 256, (n - 1) as nat))
    }
}

/// The value of a little-endian byte sequence.
pub open spec fn spec_le_val(bytes: Seq<u8>) -> nat
    decreases bytes.len(),
{
    if bytes.len() == 0 {
        0
    } else {
        (bytes[0] + 256 * spec_le_val(bytes.skip(1))) as nat
    }
}

/// The unsigned `n`-byte representation of a signed value in
/// `[-256^n/2, 256^n/2)`: two's complement.
pub open spec fn spec_to_unsigned(v: int, n: nat) -> nat {
    if v >= 0 {
        v as nat
    } else {
        (v + pow256(n)) as nat
    }
}

/// The signed reading of an unsigned `n`-byte value: two's complement.
pub open spec fn spec_to_signed(u: nat, n: nat) -> int {
    if u < pow256(n) / 2 {
        u as int
    } else {
        u - pow256(n)
    }
}

/// The byte width of each wire integer this library uses.
pub open spec fn spec_wire_width(n: nat) -> bool {
    n == 1 || n == 2 || n == 4 || n == 8 || n == 16
}

/// The values of `pow256` at the wire widths.
pub proof fn lemma_pow256_values()
    ensures
        pow256(0) == 1,
        pow256(1) == 0x100,
        pow256(2) == 0x10000,
        pow256(4) == 0x100000000,
        pow256(8) == 0x10000000000000000,
        pow256(16) == 0x100000000000000000000000000000000,
{
    assert(pow256(0) == 1);
    assert(pow256(1) == 0x100);
    assert(pow256(2) == 0x10000);
    assert(pow256(3) == 0x1000000);
    assert(pow256(4) == 0x100000000);
    assert(pow256(5) == 0x10000000000);
    assert(pow256(6) == 0x1000000000000);
    assert(pow256(7) == 0x100000000000000);
    assert(pow256(8) == 0x10000000000000000);
    assert(pow256(9) == 0x1000000000000000000);
    assert(pow256(10) == 0x100000000000000000000);
    assert(pow256(11) == 0x10000000000000000000000);
    assert(pow256(12) == 0x1000000000000000000000000);
    assert(pow256(13) == 0x100000000000000000000000000);
    assert(pow256(14) == 0x10000000000000000000000000000);
    assert(pow256(15) == 0x1000000000000000000000000000000);
    assert(pow256(16) == 0x100000000000000000000000000000000);
}

/// An encoding is `n` bytes long.
pub proof fn lemma_le_bytes_len(v: nat, n: nat)
    ensures
        spec_le_bytes(v, n).len() == n,
    decreases n,
{
    if n > 0 {
        lemma_le_bytes_len(v / 256, (n - 1) as nat);
    }
}

/// Decoding an encoding of a value below `256^n` yields the value.
pub proof fn lemma_le_bytes_val(v: nat, n: nat)
    requires
        v < pow256(n),
    ensures
        spec_le_val(spec_le_bytes(v, n)) == v,
    decreases n,
{
    if n > 0 {
        assert(v / 256 < pow256((n - 1) as nat)) by (nonlinear_arith)
            requires
                v < pow256(n),
                pow256(n) == 256 * pow256((n - 1) as nat),
                v >= 0,
        ;
        lemma_le_bytes_val(v / 256, (n - 1) as nat);
        let b = spec_le_bytes(v, n);
        assert(b.skip(1) =~= spec_le_bytes(v / 256, (n - 1) as nat));
        assert(v % 256 + 256 * (v / 256) == v) by (nonlinear_arith)
            requires
                v >= 0,
        ;
    }
}

/// A decoded value is below `256^n`.
pub proof fn lemma_le_val_bound(bytes: Seq<u8>)
    ensures
        spec_le_val(bytes) < pow256(bytes.len() as nat),
    decreases bytes.len(),
{
    if bytes.len() == 0 {
    } else {
        lemma_le_val_bound(bytes.skip(1));
        assert(bytes[0] + 256 * spec_le_val(bytes.skip(1)) < 256 * pow256(
            (bytes.len() - 1) as nat,
        )) by (nonlinear_arith)
            requires
                bytes[0] < 256,
                spec_le_val(bytes.skip(1)) < pow256((bytes.len() - 1) as nat),
        ;
    }
}

/// Encoding a decoded byte sequence yields the bytes back.
pub proof fn lemma_le_val_bytes(bytes: Seq<u8>)
    ensures
        spec_le_bytes(spec_le_val(bytes), bytes.len() as nat) == bytes,
    decreases bytes.len(),
{
    if bytes.len() > 0 {
        lemma_le_val_bytes(bytes.skip(1));
        let v = spec_le_val(bytes);
        let rest = spec_le_val(bytes.skip(1));
        assert(v == bytes[0] + 256 * rest);
        assert(v % 256 == bytes[0] && v / 256 == rest) by (nonlinear_arith)
            requires
                v == bytes[0] + 256 * rest,
                0 <= bytes[0] < 256,
                rest >= 0,
        ;
        assert(spec_le_bytes(v, bytes.len() as nat) =~= bytes);
    }
}

/// Signed round trip: reading back the two's-complement image of a
/// value in range yields the value.
pub proof fn lemma_signed_round_trip(v: int, n: nat)
    requires
        -(pow256(n) / 2) <= v < pow256(n) / 2,
        pow256(n) % 2 == 0,
    ensures
        spec_to_unsigned(v, n) < pow256(n),
        spec_to_signed(spec_to_unsigned(v, n) as nat, n) == v,
{
}

/// The largest value of an `n`-byte field, for the wire widths.
pub fn wire_max(n: usize) -> (r: u128)
    requires
        spec_wire_width(n as nat),
    ensures
        r as nat == pow256(n as nat) - 1,
{
    proof {
        lemma_pow256_values();
    }
    match n {
        1 => 0xff,
        2 => 0xffff,
        4 => 0xffffffff,
        8 => 0xffffffffffffffff,
        _ => 0xffffffffffffffffffffffffffffffff,
    }
}

/// Half the range of an `n`-byte field, for the wire widths.
pub fn wire_half(n: usize) -> (r: u128)
    requires
        spec_wire_width(n as nat),
    ensures
        r as nat == pow256(n as nat) / 2,
{
    proof {
        lemma_pow256_values();
    }
    match n {
        1 => 0x80,
        2 => 0x8000,
        4 => 0x80000000,
        8 => 0x8000000000000000,
        _ => 0x80000000000000000000000000000000,
    }
}

/// Appends the `n`-byte little-endian encoding of `v` to `data`.
pub fn write_le_bytes(data: &mut Vec<u8>, v: u128, n: usize)
    requires
        n <= 16,
        (v as nat) < pow256(n as nat),
    ensures
        final(data)@ == old(data)@ + spec_le_bytes(v as nat, n as nat),
        spec_le_bytes(v as nat, n as nat).len() == n,
{
    proof {
        lemma_le_bytes_len(v as nat, n as nat);
    }
    let mut cur: u128 = v;
    let mut i: usize = 0;
    let ghost prefix = data@;
    while i < n
        invariant
            0 <= i <= n,
            n <= 16,
            data@ == prefix + spec_le_bytes(v as nat, i as nat),
            spec_le_bytes(v as nat, n as nat) =~= spec_le_bytes(v as nat, i as nat)
                + spec_le_bytes(cur as nat, (n - i) as nat),
        decreases n - i,
    {
        let byte = (cur % 256) as u8;
        data.push(byte);
        cur = cur / 256;
        proof {
            assert(spec_le_bytes(v as nat, (i + 1) as nat) =~= spec_le_bytes(v as nat, i as nat)
                + seq![byte]) by {
                lemma_le_bytes_step(v as nat, i as nat, n as nat, cur as nat, byte);
            }
            assert(data@ =~= prefix + spec_le_bytes(v as nat, (i + 1) as nat));
            assert(spec_le_bytes(v as nat, n as nat) =~= spec_le_bytes(v as nat, (i + 1) as nat)
                + spec_le_bytes(cur as nat, (n - i - 1) as nat)) by {
                lemma_le_bytes_step(v as nat, i as nat, n as nat, cur as nat, byte);
            }
        }
        i += 1;
    }
    proof {
        assert(spec_le_bytes(cur as nat, 0nat) =~= Seq::<u8>::empty());
        assert(data@ =~= prefix + spec_le_bytes(v as nat, n as nat));
    }
}

/// A shorter encoding of the same value is a prefix of a longer one.
proof fn lemma_le_bytes_prefix(v: nat, m1: nat, m2: nat)
    requires
        m1 <= m2,
    ensures
        spec_le_bytes(v, m2).subrange(0, m1 as int) =~= spec_le_bytes(v, m1),
    decreases m1,
{
    lemma_le_bytes_len(v, m1);
    lemma_le_bytes_len(v, m2);
    if m1 > 0 {
        lemma_le_bytes_prefix(v / 256, (m1 - 1) as nat, (m2 - 1) as nat);
        lemma_le_bytes_len(v / 256, (m2 - 1) as nat);
        assert(spec_le_bytes(v, m2).subrange(0, m1 as int) =~= seq![(v % 256) as u8].add(
            spec_le_bytes(v / 256, (m2 - 1) as nat).subrange(0, m1 - 1),
        ));
    }
}

/// One step of the encoding loop: peeling the next byte extends the
/// prefix image by exactly that byte.
proof fn lemma_le_bytes_step(v: nat, i: nat, n: nat, cur_next: nat, byte: u8)
    requires
        i < n,
        spec_le_bytes(v, n) == spec_le_bytes(v, i) + spec_le_bytes(
            (cur_next * 256 + byte) as nat,
            (n - i) as nat,
        ),
        byte < 256,
        cur_next == ((cur_next * 256 + byte) as nat) / 256,
        byte == ((cur_next * 256 + byte) as nat) % 256,
    ensures
        spec_le_bytes(v, (i + 1) as nat) =~= spec_le_bytes(v, i) + seq![byte],
        spec_le_bytes(v, n) =~= spec_le_bytes(v, (i + 1) as nat) + spec_le_bytes(
            cur_next,
            (n - i - 1) as nat,
        ),
{
    let cur = (cur_next * 256 + byte) as nat;
    lemma_le_bytes_len(v, i);
    lemma_le_bytes_len(v, n);
    lemma_le_bytes_len(cur_next, (n - i - 1) as nat);
    assert(spec_le_bytes(cur, (n - i) as nat) =~= seq![byte].add(
        spec_le_bytes(cur_next, (n - i - 1) as nat),
    ));
    lemma_le_bytes_prefix(v, (i + 1) as nat, n);
    assert(spec_le_bytes(v, (i + 1) as nat) =~= spec_le_bytes(v, i) + seq![byte]);
    assert(spec_le_bytes(v, n) =~= spec_le_bytes(v, (i + 1) as nat) + spec_le_bytes(
        cur_next,
        (n - i - 1) as nat,
    ));
}

/// Reads the `n`-byte little-endian integer at `offset` in `bytes`.
pub fn read_le_bytes(bytes: &Vec<u8>, offset: usize, n: usize) -> (r: u128)
    requires
        n <= 16,
        offset + n <= bytes@.len(),
    ensures
        r as nat == spec_le_val(bytes@.subrange(offset as int, offset + n)),
        (r as nat) < pow256(n as nat),
{
    let ghost window = bytes@.subrange(offset as int, offset + n);
    let len = bytes.len();
    let mut v: u128 = 0;
    let mut i: usize = n;
    proof {
        assert(window.subrange(n as int, n as int) =~= Seq::<u8>::empty());
    }
    while i > 0
        invariant
            0 <= i <= n <= 16,
            offset + n <= len,
            len == bytes@.len(),
            window == bytes@.subrange(offset as int, offset + n),
            v as nat == spec_le_val(window.subrange(i as int, n as int)),
            (v as nat) < pow256((n - i) as nat),
        decreases i,
    {
        i = i - 1;
        let byte = bytes[offset + i];
        proof {
            let tail = window.subrange(i + 1, n as int);
            let cur = window.subrange(i as int, n as int);
            assert(cur[0] == window[i as int]);
            assert(cur.skip(1) =~= tail);
            assert(window[i as int] == bytes@[offset + i]);
            lemma_pow256_step((n - i - 1) as nat);
            assert(256 * (v as nat) + byte < 256 * pow256((n - i - 1) as nat)) by (
                nonlinear_arith
            )
                requires
                    (v as nat) < pow256((n - i - 1) as nat),
                    byte < 256,
            ;
            lemma_pow256_le((n - i) as nat, 16nat);
            lemma_pow256_values();
        }
        v = v * 256 + (byte as u128);
    }
    proof {
        assert(window.subrange(0int, n as int) =~= window);
    }
    v
}

/// `pow256` grows by a factor of 256 per byte.
proof fn lemma_pow256_step(n: nat)
    ensures
        pow256((n + 1) as nat) == 256 * pow256(n),
{
}

/// `pow256` is monotone.
pub proof fn lemma_pow256_le(a: nat, b: nat)
    requires
        a <= b,
    ensures
        pow256(a) <= pow256(b),
    decreases b,
{
    if a < b {
        lemma_pow256_le(a, (b - 1) as nat);
        assert(pow256(b) == 256 * pow256((b - 1) as nat));
        assert(pow256((b - 1) as nat) <= 256 * pow256((b - 1) as nat)) by (nonlinear_arith)
            requires
                pow256((b - 1) as nat) >= 0,
        ;
    }
}

} // verus!
