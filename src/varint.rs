//! Base-128 variable-length integers, as used by the token's binary layout.
//!
//! Encoding goes through prost. Reading is written here against `varint_read`,
//! a statement of a few lines, so that reading back an encoding is proved to
//! give the value that was encoded.
use vstd::prelude::*;

verus! {

/// `128` raised to `m`.
pub open spec fn pow128(m: nat) -> nat
    decreases m,
{
    if m == 0 {
        1
    } else {
        128 * pow128((m - 1) as nat)
    }
}

/// The shortest encoding of `v`: seven bits per byte, low bits first, the top
/// bit set on every byte but the last.
pub open spec fn varint_bytes(v: nat) -> Seq<u8>
    decreases v,
{
    if v < 128 {
        seq![v as u8]
    } else {
        seq![(v % 128 + 128) as u8] + varint_bytes(v / 128)
    }
}

/// The value spelled by the bytes at the front of `s`, and how many bytes spell
/// it, when it ends within the `10 - k` bytes still allowed.
pub open spec fn varint_value(s: Seq<u8>, k: nat) -> Option<(int, nat)>
    decreases 10 - k,
{
    if k >= 10 || s.len() == 0 {
        None
    } else if s[0] < 128 {
        Some((s[0] as int, 1nat))
    } else {
        match varint_value(s.drop_first(), k + 1) {
            Some((v, n)) => Some(((s[0] - 128) + 128 * v, n + 1)),
            None => None,
        }
    }
}

/// A 64-bit value read from the front of `s`, with the number of bytes it took:
/// at most ten bytes, and nothing above `u64::MAX`.
pub open spec fn varint_read(s: Seq<u8>) -> Option<(u64, nat)> {
    match varint_value(s, 0) {
        Some((v, n)) => if v <= u64::MAX {
            Some((v as u64, n))
        } else {
            None
        },
        None => None,
    }
}

/// Relies on prost::encoding::encode_varint: it appends the shortest base-128
/// encoding of `v`, low bits first.
#[verifier::external_body]
pub(crate) fn put_varint(v: u64, buf: &mut Vec<u8>)
    ensures
        final(buf)@ == old(buf)@ + varint_bytes(v as nat),
{
    prost::encoding::encode_varint(v, buf)
}

pub proof fn lemma_varint_value_len(s: Seq<u8>, k: nat)
    ensures
        varint_value(s, k) matches Some((v, n)) ==> 1 <= n <= s.len() && n + k <= 10 && v >= 0,
    decreases 10 - k,
{
    if k < 10 && s.len() > 0 && s[0] >= 128 {
        lemma_varint_value_len(s.drop_first(), k + 1);
    }
}

pub proof fn lemma_varint_read_len(s: Seq<u8>)
    ensures
        varint_read(s) matches Some((v, n)) ==> 1 <= n <= s.len() && n <= 10,
{
    lemma_varint_value_len(s, 0);
}

proof fn lemma_varint_value_of_bytes(v: nat, rest: Seq<u8>, k: nat)
    requires
        k < 10,
        v < pow128((10 - k) as nat),
    ensures
        varint_value(varint_bytes(v) + rest, k) == Some((v as int, varint_bytes(v).len())),
    decreases v,
{
    let s = varint_bytes(v) + rest;
    if v < 128 {
        assert(s[0] == v as u8);
    } else {
        let p = pow128((10 - k - 1) as nat);
        assert(pow128((10 - k) as nat) == 128 * p);
        if k == 9 {
            assert(pow128(0) == 1);
        }
        assert(v / 128 < p) by (nonlinear_arith)
            requires v < 128 * p;
        assert(s.drop_first() =~= varint_bytes(v / 128) + rest);
        lemma_varint_value_of_bytes(v / 128, rest, k + 1);
        assert(v % 128 + 128 * (v / 128) == v) by (nonlinear_arith);
        assert(s[0] == (v % 128 + 128) as u8);
        assert(s[0] - 128 == v % 128);
        assert(varint_bytes(v).len() == 1 + varint_bytes(v / 128).len());
    }
}

/// Reading back the encoding of a 64-bit value, with anything after it, gives
/// that value and the encoding's length.
pub proof fn lemma_varint_round_trip(v: u64, rest: Seq<u8>)
    ensures
        varint_read(varint_bytes(v as nat) + rest) == Some((v, varint_bytes(v as nat).len())),
{
    reveal_with_fuel(pow128, 11);
    assert(pow128(10) == 1180591620717411303424nat);
    lemma_varint_value_of_bytes(v as nat, rest, 0);
}

/// Reads a value from `s` at `pos`, where `k` bytes of it were read already.
fn read_varint_from(s: &[u8], pos: usize, k: usize) -> (r: Option<(u64, usize)>)
    requires
        pos <= s@.len(),
        k <= 10,
    ensures
        match varint_value(s@.skip(pos as int), k as nat) {
            Some((v, n)) => if v <= u64::MAX {
                r == Some((v as u64, n as usize))
            } else {
                r is None
            },
            None => r is None,
        },
        r matches Some((v, n)) ==> 1 <= n <= s@.len() - pos,
    decreases 10 - k,
{
    proof {
        lemma_varint_value_len(s@.skip(pos as int), k as nat);
    }
    if k >= 10 || pos >= s.len() {
        return None;
    }
    let b = s[pos];
    if b < 128 {
        return Some((b as u64, 1));
    }
    proof {
        assert(s@.skip(pos as int).drop_first() =~= s@.skip(pos + 1));
        lemma_varint_value_len(s@.skip(pos + 1), (k + 1) as nat);
    }
    match read_varint_from(s, pos + 1, k + 1) {
        None => {
            proof {
                if let Some((w, n)) = varint_value(s@.skip(pos + 1), (k + 1) as nat) {
                    assert((b - 128) + 128 * w > u64::MAX) by (nonlinear_arith)
                        requires w > u64::MAX, b >= 128;
                }
            }
            None
        },
        Some((w, n)) => {
            let low: u64 = (b - 128) as u64;
            if w > (u64::MAX - low) / 128 {
                assert(low + 128 * w > u64::MAX) by (nonlinear_arith)
                    requires w > (u64::MAX - low) / 128, low < 128;
                None
            } else {
                assert(low + 128 * w <= u64::MAX) by (nonlinear_arith)
                    requires w <= (u64::MAX - low) / 128, low < 128;
                Some((low + 128 * w, n + 1))
            }
        },
    }
}

/// Reads a value from the front of `s[pos..]`: the value and the number of
/// bytes it took.
pub fn read_varint(s: &[u8], pos: usize) -> (r: Option<(u64, usize)>)
    requires
        pos <= s@.len(),
    ensures
        match varint_read(s@.skip(pos as int)) {
            Some((v, n)) => r == Some((v, n as usize)),
            None => r is None,
        },
        r matches Some((v, n)) ==> 1 <= n <= s@.len() - pos,
{
    proof {
        lemma_varint_value_len(s@.skip(pos as int), 0);
    }
    read_varint_from(s, pos, 0)
}

} // verus!
