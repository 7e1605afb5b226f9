//! The canonical binary scheme shared with the ledger: little-endian
//! fixed-width integers and a self-describing compact length prefix.

use vstd::prelude::*;

verus! {

/// 256 raised to `n`: the number of values a little-endian buffer of `n`
/// bytes can hold.
pub open spec fn pow256(n: nat) -> nat
    decreases n,
{
    if n == 0 {
        1
    } else {
        256 * pow256((n - 1) as nat)
    }
}

/// The `width`-byte little-endian encoding of `v`.
pub open spec fn le_bytes(v: nat, width: nat) -> Seq<u8>
    decreases width,
{
    if width == 0 {
        Seq::empty()
    } else {
        seq![(v % 256) as u8] + le_bytes(v / 256, (width - 1) as nat)
    }
}

/// The value a little-endian buffer denotes.
pub open spec fn le_val(s: Seq<u8>) -> nat
    decreases s.len(),
{
    if s.len() == 0 {
        0nat
    } else {
        (s[0] + 256 * le_val(s.drop_first())) as nat
    }
}

pub proof fn lemma_pow256_values()
    ensures
        pow256(1) == 0x100,
        pow256(2) == 0x1_0000,
        pow256(4) == 0x1_0000_0000,
        pow256(8) == 0x1_0000_0000_0000_0000,
        pow256(16) == 0x1_0000_0000_0000_0000_0000_0000_0000_0000,
{
    reveal_with_fuel(pow256, 17);
}

pub proof fn lemma_le_bytes_len(v: nat, width: nat)
    ensures
        le_bytes(v, width).len() == width,
    decreases width,
{
    if width > 0 {
        lemma_le_bytes_len(v / 256, (width - 1) as nat);
    }
}

/// Writing `v` into `width` little-endian bytes and reading them back
/// recovers `v`, provided `v` fits.
pub proof fn lemma_le_round_trip(v: nat, width: nat)
    requires
        v < pow256(width),
    ensures
        le_val(le_bytes(v, width)) == v,
    decreases width,
{
    if width == 0 {
    } else {
        let tail = le_bytes(v / 256, (width - 1) as nat);
        lemma_le_bytes_len(v / 256, (width - 1) as nat);
        assert(le_bytes(v, width).drop_first() =~= tail);
        assert(v / 256 < pow256((width - 1) as nat)) by {
            assert(v < 256 * pow256((width - 1) as nat));
        };
        lemma_le_round_trip(v / 256, (width - 1) as nat);
    }
}

/// A little-endian buffer denotes a value below `256^len`.
pub proof fn lemma_le_val_bound(s: Seq<u8>)
    ensures
        le_val(s) < pow256(s.len()),
    decreases s.len(),
{
    if s.len() > 0 {
        lemma_le_val_bound(s.drop_first());
    }
}

/// Appends the `width`-byte little-endian encoding of `v` to `out`.
pub fn encode_le(v: u128, width: usize, out: &mut Vec<u8>)
    requires
        width <= 16,
        (v as nat) < pow256(width as nat),
    ensures
        final(out)@ == old(out)@ + le_bytes(v as nat, width as nat),
{
    let ghost complete = old(out)@ + le_bytes(v as nat, width as nat);
    let mut cur: u128 = v;
    let mut i: usize = 0;
    while i < width
        invariant
            i <= width,
            out@ + le_bytes(cur as nat, (width - i) as nat) == complete,
        decreases width - i,
    {
        let b: u8 = (cur % 256) as u8;
        proof {
            assert(le_bytes(cur as nat, (width - i) as nat) == seq![b] + le_bytes(
                cur as nat / 256,
                (width - i - 1) as nat,
            ));
            assert(out@ + seq![b] + le_bytes(cur as nat / 256, (width - i - 1) as nat)
                =~= out@ + (seq![b] + le_bytes(cur as nat / 256, (width - i - 1) as nat)));
        }
        out.push(b);
        cur = cur / 256;
        i = i + 1;
    }
    proof {
        assert(out@ + le_bytes(cur as nat, 0) =~= out@);
    }
}

/// Reads `width` little-endian bytes at `pos`; fails when the buffer is too
/// short.
pub fn decode_le(data: &Vec<u8>, pos: usize, width: usize) -> (r: Option<(u128, usize)>)
    requires
        width <= 16,
    ensures
        pos + width <= data@.len() ==> (r matches Some(p) && p.0 as nat == le_val(
            data@.subrange(pos as int, pos + width),
        ) && p.1 == pos + width),
        pos + width > data@.len() ==> r is None,
{
    if width > data.len() || pos > data.len() - width {
        return None;
    }
    let n: usize = data.len();
    let mut v: u128 = 0;
    let mut i: usize = width;
    while i > 0
        invariant
            i <= width <= 16,
            n == data@.len(),
            pos + width <= n,
            v as nat == le_val(data@.subrange(pos + i, pos + width)),
            (v as nat) < pow256((width - i) as nat),
        decreases i,
    {
        let b: u8 = data[pos + i - 1];
        proof {
            let s = data@.subrange(pos + i - 1, pos + width);
            assert(s.drop_first() =~= data@.subrange(pos + i, pos + width));
            assert(le_val(s) == b + 256 * (v as nat));
            lemma_pow256_values();
            assert(256 * (v as nat) + b < 256 * pow256((width - i) as nat));
            assert(pow256((width - i + 1) as nat) == 256 * pow256((width - i) as nat));
            assert(pow256((width - i + 1) as nat) <= pow256(16)) by {
                lemma_pow256_increases((width - i + 1) as nat, 16);
            };
        }
        v = v * 256 + (b as u128);
        i = i - 1;
    }
    proof {
        assert(data@.subrange(pos as int, pos + width) =~= data@.subrange(
            pos + 0,
            pos + width,
        ));
    }
    Some((v, pos + width))
}

pub proof fn lemma_pow256_increases(a: nat, b: nat)
    requires
        a <= b,
    ensures
        pow256(a) <= pow256(b),
    decreases b,
{
    if a < b {
        lemma_pow256_increases(a, (b - 1) as nat);
        assert(pow256(b) == 256 * pow256((b - 1) as nat));
        assert(pow256((b - 1) as nat) <= 256 * pow256((b - 1) as nat));
    }
}

/// The compact, self-describing encoding of a length `v`: the two low bits of
/// the first byte select among a one-, two-, four- or five-byte form.
pub open spec fn compact_bytes(v: nat) -> Seq<u8> {
    if v < 64 {
        seq![(4 * v) as u8]
    } else if v < 16384 {
        le_bytes(4 * v + 1, 2)
    } else if v < 0x4000_0000 {
        le_bytes(4 * v + 2, 4)
    } else {
        seq![3u8] + le_bytes(v, 4)
    }
}

/// Reads a compact length from the front of `s`: the decoded value and the
/// number of bytes consumed, or `None` when `s` holds no well-formed prefix.
pub open spec fn compact_decode(s: Seq<u8>) -> Option<(nat, int)> {
    if s.len() == 0 {
        None
    } else if s[0] % 4 == 0 {
        Some(((s[0] / 4) as nat, 1))
    } else if s[0] % 4 == 1 {
        if s.len() >= 2 {
            Some((le_val(s.subrange(0, 2)) / 4, 2))
        } else {
            None
        }
    } else if s[0] % 4 == 2 {
        if s.len() >= 4 {
            Some((le_val(s.subrange(0, 4)) / 4, 4))
        } else {
            None
        }
    } else {
        if s[0] == 3 && s.len() >= 5 {
            Some((le_val(s.subrange(1, 5)), 5))
        } else {
            None
        }
    }
}

/// A compact-encoded length decodes back to itself, whatever follows it.
pub proof fn lemma_compact_round_trip(v: nat, rest: Seq<u8>)
    requires
        v <= u32::MAX,
    ensures
        compact_decode(compact_bytes(v) + rest) == Some((v, compact_bytes(v).len() as int)),
{
    lemma_pow256_values();
    let s = compact_bytes(v) + rest;
    if v < 64 {
        assert(s[0] == 4 * v);
        assert((4 * v) % 4 == 0);
        assert(s[0] / 4 == v);
    } else if v < 16384 {
        let x = 4 * v + 1;
        lemma_le_bytes_len(x, 2);
        lemma_first_byte_mod(x, 2);
        assert(s[0] == x % 256);
        assert(x % 4 == 1);
        lemma_mod256_mod4(x);
        assert(s.subrange(0, 2) =~= le_bytes(x, 2));
        lemma_le_round_trip(x, 2);
        assert(x / 4 == v);
    } else if v < 0x4000_0000 {
        let x = 4 * v + 2;
        lemma_le_bytes_len(x, 4);
        lemma_first_byte_mod(x, 4);
        assert(x % 4 == 2);
        lemma_mod256_mod4(x);
        assert(s.subrange(0, 4) =~= le_bytes(x, 4));
        lemma_le_round_trip(x, 4);
        assert(x / 4 == v);
    } else {
        lemma_le_bytes_len(v, 4);
        assert(s[0] == 3);
        assert(s.subrange(1, 5) =~= le_bytes(v, 4));
        lemma_le_round_trip(v, 4);
    }
}

proof fn lemma_first_byte_mod(x: nat, width: nat)
    requires
        width > 0,
    ensures
        le_bytes(x, width)[0] == x % 256,
{
}

proof fn lemma_mod256_mod4(x: nat)
    ensures
        (x % 256) % 4 == x % 4,
{
    let k = x / 256;
    assert(x == 256 * k + x % 256);
    assert((256 * k + x % 256) % 4 == (x % 256) % 4) by (nonlinear_arith);
}

/// Appends the compact encoding of `v` to `out`.
pub fn encode_compact(v: u32, out: &mut Vec<u8>)
    ensures
        final(out)@ == old(out)@ + compact_bytes(v as nat),
{
    proof {
        lemma_pow256_values();
    }
    if v < 64 {
        out.push((v * 4) as u8);
        proof {
            assert(final(out)@ =~= old(out)@ + compact_bytes(v as nat));
        }
    } else if v < 16384 {
        encode_le((v as u128) * 4 + 1, 2, out);
    } else if v < 0x4000_0000 {
        encode_le((v as u128) * 4 + 2, 4, out);
    } else {
        out.push(3u8);
        encode_le(v as u128, 4, out);
        proof {
            assert(out@ =~= old(out)@ + compact_bytes(v as nat));
        }
    }
}

/// Reads a compact length at `pos`; fails exactly where the spec decoder
/// does.
pub fn decode_compact(data: &Vec<u8>, pos: usize) -> (r: Option<(u32, usize)>)
    requires
        pos <= data@.len(),
    ensures
        match compact_decode(data@.subrange(pos as int, data@.len() as int)) {
            Some(p) => r matches Some(q) && q.0 as nat == p.0 && q.1 == pos + p.1,
            None => r is None,
        },
{
    let ghost s = data@.subrange(pos as int, data@.len() as int);
    proof {
        lemma_pow256_values();
    }
    if pos >= data.len() {
        return None;
    }
    let first = data[pos];
    let tag = first % 4;
    if tag == 0 {
        Some(((first / 4) as u32, pos + 1))
    } else if tag == 1 {
        match decode_le(data, pos, 2) {
            Some((x, _)) => {
                proof {
                    assert(s.subrange(0, 2) =~= data@.subrange(pos as int, pos + 2));
                    lemma_le_val_bound(data@.subrange(pos as int, pos + 2));
                }
                Some(((x / 4) as u32, pos + 2))
            },
            None => None,
        }
    } else if tag == 2 {
        match decode_le(data, pos, 4) {
            Some((x, _)) => {
                proof {
                    assert(s.subrange(0, 4) =~= data@.subrange(pos as int, pos + 4));
                    lemma_le_val_bound(data@.subrange(pos as int, pos + 4));
                }
                Some(((x / 4) as u32, pos + 4))
            },
            None => None,
        }
    } else {
        if first != 3 {
            return None;
        }
        if data.len() - pos < 5 {
            proof {
                assert(s.len() < 5);
            }
            return None;
        }
        match decode_le(data, pos + 1, 4) {
            Some((x, _)) => {
                proof {
                    assert(s.subrange(1, 5) =~= data@.subrange(pos + 1, pos + 5));
                    lemma_le_val_bound(data@.subrange(pos + 1, pos + 5));
                }
                Some((x as u32, pos + 5))
            },
            None => None,
        }
    }
}

} // verus!
