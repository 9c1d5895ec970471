use crate::error::RaffError;
use crate::stream::{in_stream_data, in_stream_pos, stream_read_u8};
use flood_rs::prelude::InOctetStream;
use vstd::prelude::*;

verus! {

/// 128 raised to `k`: the weight of the `k`-th octet of a variable-length size.
pub open spec fn pow128(k: nat) -> int
    decreases k,
{
    if k == 0 {
        1
    } else {
        128 * pow128((k - 1) as nat)
    }
}

/// The variable-length encoding of `n`: seven value bits per octet, least
/// significant septet first, the high bit of an octet set iff more follow.
pub open spec fn varint_encode(n: nat) -> Seq<u8>
    decreases n,
{
    if n < 128 {
        seq![n as u8]
    } else {
        seq![(n % 128 + 128) as u8] + varint_encode(n / 128)
    }
}

/// The value carried by a sequence of variable-length octets: each octet
/// contributes its low seven bits at the next weight.
pub open spec fn varint_val(s: Seq<u8>) -> int
    decreases s.len(),
{
    if s.len() == 0 {
        0
    } else {
        (s[0] as int) % 128 + 128 * varint_val(s.subrange(1, s.len() as int))
    }
}

/// Whether `s` is a complete variable-length chain: every octet but the
/// last has its continuation bit set, and the last has it clear.
pub open spec fn varint_wf(s: Seq<u8>) -> bool {
    &&& 1 <= s.len()
    &&& s[s.len() - 1] < 128
    &&& forall|i: int| 0 <= i < s.len() - 1 ==> s[i] >= 128
}

/// Whether the `k` octets of `d` starting at `p` form a complete
/// variable-length size of at most five octets.
pub open spec fn is_varint_at(d: Seq<u8>, p: int, k: int) -> bool {
    &&& 0 <= p
    &&& 1 <= k <= 5
    &&& p + k <= d.len()
    &&& varint_wf(d.subrange(p, p + k))
}

/// Whether decoding at `p` runs past the five-octet bound: five octets are
/// present and every one of them asks for a continuation.
pub open spec fn varint_overlong_at(d: Seq<u8>, p: int) -> bool {
    &&& 0 <= p
    &&& p + 5 <= d.len()
    &&& forall|i: int| p <= i < p + 5 ==> d[i] >= 128
}

/// Whether decoding at `p` runs out of octets: fewer than five remain and
/// every one of them asks for a continuation.
pub open spec fn varint_truncated_at(d: Seq<u8>, p: int) -> bool {
    &&& d.len() < p + 5
    &&& forall|i: int| p <= i < d.len() ==> d[i] >= 128
}

proof fn lemma_pow128_values()
    ensures
        pow128(0) == 1,
        pow128(1) == 0x80,
        pow128(2) == 0x4000,
        pow128(3) == 0x20_0000,
        pow128(4) == 0x1000_0000,
        pow128(5) == 0x8_0000_0000,
{
    reveal_with_fuel(pow128, 6);
}

proof fn lemma_pow128_pos(k: nat)
    ensures
        pow128(k) >= 1,
    decreases k,
{
    if k > 0 {
        lemma_pow128_pos((k - 1) as nat);
    }
}

/// A chain of `k` octets carries a value below `128^k`.
proof fn lemma_varint_val_bound(s: Seq<u8>)
    ensures
        0 <= varint_val(s) < pow128(s.len()),
    decreases s.len(),
{
    if s.len() == 0 {
    } else {
        let rest = s.subrange(1, s.len() as int);
        lemma_varint_val_bound(rest);
        assert(varint_val(s) < pow128(s.len())) by (nonlinear_arith)
            requires
                varint_val(s) == (s[0] as int) % 128 + 128 * varint_val(rest),
                0 <= varint_val(rest) < pow128(rest.len()),
                pow128(s.len()) == 128 * pow128(rest.len()),
                0 <= (s[0] as int) % 128 < 128,
        {}
    }
}

/// Appending an octet to a chain adds its low septet at the next weight.
proof fn lemma_varint_val_snoc(s: Seq<u8>, x: u8)
    ensures
        varint_val(s.push(x)) == varint_val(s) + pow128(s.len()) * ((x as int) % 128),
    decreases s.len(),
{
    reveal_with_fuel(varint_val, 2);
    if s.len() == 0 {
        assert(s.push(x).subrange(1, 1) =~= Seq::<u8>::empty());
    } else {
        let t = s.push(x);
        let rest = s.subrange(1, s.len() as int);
        assert(t.subrange(1, t.len() as int) =~= rest.push(x));
        lemma_varint_val_snoc(rest, x);
        let a = varint_val(rest);
        let b = pow128(rest.len());
        let c = pow128(s.len());
        let m = (x as int) % 128;
        assert(c == 128 * b);
        assert(128 * (a + b * m) == 128 * a + c * m) by (nonlinear_arith)
            requires
                c == 128 * b,
        {}
        assert(t[0] == s[0]);
    }
}

/// The encoding of any value below `128^k` takes at most `k` octets.
proof fn lemma_varint_encode_len(n: nat, k: nat)
    requires
        k >= 1,
        n < pow128(k),
    ensures
        varint_encode(n).len() <= k,
    decreases k,
{
    if n >= 128 {
        assert(k >= 2) by {
            if k == 1 {
                assert(pow128(1) == 128);
            }
        };
        assert(n / 128 < pow128((k - 1) as nat)) by (nonlinear_arith)
            requires
                n < pow128(k),
                pow128(k) == 128 * pow128((k - 1) as nat),
                n >= 128,
        {}
        lemma_varint_encode_len(n / 128, (k - 1) as nat);
    }
}

/// The encoding of `n` is a complete chain that carries exactly `n`.
proof fn lemma_varint_encode_wf(n: nat)
    ensures
        varint_wf(varint_encode(n)),
        varint_val(varint_encode(n)) == n,
        varint_encode(n).len() >= 1,
    decreases n,
{
    reveal_with_fuel(varint_val, 2);
    if n < 128 {
        assert(varint_encode(n).subrange(1, 1) =~= Seq::<u8>::empty());
    } else {
        lemma_varint_encode_wf(n / 128);
        let e = varint_encode(n);
        let rest = varint_encode(n / 128);
        assert(e.subrange(1, e.len() as int) =~= rest);
        assert(e[0] == (n % 128 + 128) as u8);
        assert((e[0] as int) % 128 == n % 128);
        assert(varint_val(e) == n % 128 + 128 * varint_val(rest));
        vstd::arithmetic::div_mod::lemma_fundamental_div_mod(n as int, 128);
        assert(varint_wf(e)) by {
            assert(e[e.len() - 1] == rest[rest.len() - 1]);
            assert forall|i: int| 0 <= i < e.len() - 1 implies e[i] >= 128 by {
                if i >= 1 {
                    assert(e[i] == rest[i - 1]);
                }
            }
        }
    }
}

/// Law: encoding a 32-bit size always yields one to five octets, the chain
/// is complete, and decoding it gives back exactly the size.
pub proof fn lemma_size_round_trip(n: u32)
    ensures
        varint_wf(varint_encode(n as nat)),
        1 <= varint_encode(n as nat).len() <= 5,
        varint_val(varint_encode(n as nat)) == n,
{
    lemma_varint_encode_wf(n as nat);
    lemma_pow128_values();
    lemma_varint_encode_len(n as nat, 5);
}

/// A complete chain at a position has exactly one length: the octet with a
/// clear continuation bit ends it.
pub proof fn lemma_varint_at_unique(d: Seq<u8>, p: int, k1: int, k2: int)
    requires
        is_varint_at(d, p, k1),
        is_varint_at(d, p, k2),
    ensures
        k1 == k2,
{
    if k1 < k2 {
        assert(d.subrange(p, p + k1)[k1 - 1] == d[p + k1 - 1]);
        assert(d.subrange(p, p + k2)[k1 - 1] == d[p + k1 - 1]);
    } else if k2 < k1 {
        assert(d.subrange(p, p + k2)[k2 - 1] == d[p + k2 - 1]);
        assert(d.subrange(p, p + k1)[k2 - 1] == d[p + k2 - 1]);
    }
}

/// Encodes a 32-bit size in the compact variable-length format.
pub fn encode_size(size: u32) -> (r: Vec<u8>)
    ensures
        r@ == varint_encode(size as nat),
{
    let mut encoded: Vec<u8> = Vec::new();
    let mut current: u32 = size;
    proof {
        assert(Seq::<u8>::empty() + varint_encode(size as nat) =~= varint_encode(size as nat));
    }
    loop
        invariant_except_break
            varint_encode(size as nat) == encoded@ + varint_encode(current as nat),
        ensures
            encoded@ == varint_encode(size as nat),
        decreases current,
    {
        let ghost before = current;
        let octet: u8 = (current % 128) as u8;
        current = current / 128;
        if current > 0 {
            proof {
                assert(varint_encode(before as nat) =~= seq![((octet + 128) as u8)]
                    + varint_encode(current as nat));
                assert(encoded@ + varint_encode(before as nat) =~= encoded@.push(
                    ((octet + 128) as u8),
                ) + varint_encode(current as nat));
            }
            encoded.push(octet + 128);
        } else {
            proof {
                assert(varint_encode(before as nat) =~= seq![octet]);
                assert(encoded@ + varint_encode(before as nat) =~= encoded@.push(octet));
            }
            encoded.push(octet);
            break;
        }
    }
    encoded
}

/// Decodes a variable-length 32-bit size from the stream.  Succeeds exactly
/// when a complete chain of at most five octets starts at the read position;
/// a sixth-octet continuation is reported as `OutOfRange` after five octets,
/// and a chain cut short by the end of the stream as `IoError`.
pub fn decode_size(stream: &mut InOctetStream) -> (r: Result<u32, RaffError>)
    ensures
        in_stream_data(*final(stream)) == in_stream_data(*old(stream)),
        r is Ok <==> exists|k: int|
            is_varint_at(in_stream_data(*old(stream)), in_stream_pos(*old(stream)), k),
        forall|k: int|
            is_varint_at(in_stream_data(*old(stream)), in_stream_pos(*old(stream)), k) ==> (r is Ok
                && r->Ok_0 as int == varint_val(
                in_stream_data(*old(stream)).subrange(
                    in_stream_pos(*old(stream)),
                    in_stream_pos(*old(stream)) + k,
                ),
            ) % 0x1_0000_0000 && in_stream_pos(*final(stream)) == in_stream_pos(*old(stream)) + k),
        r == Err::<u32, RaffError>(RaffError::OutOfRange) <==> varint_overlong_at(
            in_stream_data(*old(stream)),
            in_stream_pos(*old(stream)),
        ),
        varint_overlong_at(in_stream_data(*old(stream)), in_stream_pos(*old(stream)))
            ==> in_stream_pos(*final(stream)) == in_stream_pos(*old(stream)) + 5,
        r == Err::<u32, RaffError>(RaffError::IoError) <==> varint_truncated_at(
            in_stream_data(*old(stream)),
            in_stream_pos(*old(stream)),
        ),
{
    let ghost d = in_stream_data(*stream);
    let ghost p = in_stream_pos(*stream);
    let mut size: u64 = 0;
    let mut mult: u64 = 1;
    let mut count: usize = 0;
    loop
        invariant
            in_stream_data(*old(stream)) == d,
            in_stream_pos(*old(stream)) == p,
            in_stream_data(*stream) == d,
            in_stream_pos(*stream) == p + count,
            0 <= count <= 4,
            count > 0 ==> p >= 0 && p + count <= d.len(),
            forall|i: int| p <= i < p + count ==> d[i] >= 128,
            count > 0 ==> size as int == varint_val(d.subrange(p, p + count as int)),
            count == 0 ==> size == 0,
            mult as int == pow128(count as nat),
        decreases 5 - count,
    {
        let ghost prefix = d.subrange(p, p + count as int);
        let octet = match stream_read_u8(stream) {
            Ok(o) => o,
            Err(e) => {
                proof {
                    assert(d.len() <= p + count);
                    assert(varint_truncated_at(d, p));
                    assert forall|k: int| !is_varint_at(d, p, k) by {
                        if is_varint_at(d, p, k) {
                            assert(d[p + k - 1] >= 128);
                            assert(d.subrange(p, p + k)[k - 1] == d[p + k - 1]);
                        }
                    }
                }
                return Err(e);
            },
        };
        proof {
            if count == 0 {
                assert(prefix =~= Seq::<u8>::empty());
            }
            assert(size as int == varint_val(prefix));
            lemma_varint_val_snoc(prefix, octet);
            lemma_varint_val_bound(prefix);
            lemma_pow128_pos(count as nat);
            lemma_pow128_values();
            assert(pow128(count as nat) <= pow128(4));
            assert(mult * ((octet as int) % 128) <= 0x1000_0000 * 128) by (nonlinear_arith)
                requires
                    0 <= mult <= 0x1000_0000,
                    0 <= (octet as int) % 128 < 128,
            {}
            assert(d.subrange(p, p + (count + 1) as int) =~= prefix.push(d[p + count as int]));
        }
        size = size + mult * (octet % 128) as u64;
        count = count + 1;
        if octet < 128 {
            proof {
                let whole = d.subrange(p, p + count as int);
                assert(varint_wf(whole)) by {
                    assert(whole[count - 1] == d[p + count - 1]);
                    assert forall|i: int| 0 <= i < count - 1 implies whole[i] >= 128 by {
                        assert(whole[i] == d[p + i]);
                    }
                }
                assert(is_varint_at(d, p, count as int));
                assert forall|k: int| is_varint_at(d, p, k) implies k == count as int by {
                    lemma_varint_at_unique(d, p, k, count as int);
                }
                lemma_varint_val_bound(whole);
                lemma_pow128_values();
                assert(pow128(whole.len()) <= pow128(5));
            }
            return Ok((size % 0x1_0000_0000) as u32);
        }
        if count == 5 {
            proof {
                assert(varint_overlong_at(d, p)) by {
                    assert(d[p + 4] == octet && octet >= 128);
                }
                assert forall|k: int| !is_varint_at(d, p, k) by {
                    if is_varint_at(d, p, k) {
                        assert(d[p + k - 1] >= 128);
                        assert(d.subrange(p, p + k)[k - 1] == d[p + k - 1]);
                    }
                }
            }
            return Err(RaffError::OutOfRange);
        }
        mult = mult * 128;
    }
}

} // verus!
