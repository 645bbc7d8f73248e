//! Variable-length integers: a `u32` written in base 128, most significant
//! group first, every byte but the last carrying the continuation bit.

use crate::command::PayloadPattern;
use vstd::prelude::*;

verus! {

/// A `u32` that travels as one to five bytes.
#[derive(Clone, Copy, Debug, PartialEq, Eq, Structural)]
pub struct VarInt(pub u32);

/// The continuation bytes that stand for `w`: its base-128 digits, most
/// significant first, each with the top bit set. Zero has none.
pub open spec fn continuation(w: nat) -> Seq<u8>
    decreases w,
{
    if w == 0 {
        Seq::empty()
    } else {
        continuation(w / 128).push((128 + w % 128) as u8)
    }
}

/// The bytes of `v` on the wire.
pub open spec fn encoding(v: u32) -> Seq<u8> {
    continuation(v as nat / 128).push((v % 128) as u8)
}

/// The number that the low seven bits of each byte spell in base 128.
pub open spec fn digits_value(bytes: Seq<u8>) -> nat
    decreases bytes.len(),
{
    if bytes.len() == 0 {
        0
    } else {
        digits_value(bytes.drop_last()) * 128 + (bytes.last() % 128) as nat
    }
}

/// How many bytes at the front of `bytes` carry the continuation bit.
pub open spec fn leading_continuations(bytes: Seq<u8>) -> nat
    decreases bytes.len(),
{
    if bytes.len() > 0 && bytes[0] >= 128 {
        1 + leading_continuations(bytes.skip(1))
    } else {
        0
    }
}

/// The integer at the front of `bytes` and the number of bytes it takes, or
/// `None` where no integer stands there: the bytes end inside it, its first
/// group is empty although others follow, or it does not fit in a `u32`.
pub open spec fn decoding(bytes: Seq<u8>) -> Option<(u32, nat)> {
    let n = leading_continuations(bytes) + 1;
    let value = digits_value(bytes.take(n as int));
    if n <= bytes.len() && (n == 1 || bytes[0] != 128) && value <= u32::MAX {
        Some((value as u32, n))
    } else {
        None
    }
}

/// The length of the encoding, by magnitude.
pub open spec fn encoded_len(v: u32) -> nat {
    if v < 0x80 {
        1
    } else if v < 0x4000 {
        2
    } else if v < 0x20_0000 {
        3
    } else if v < 0x1000_0000 {
        4
    } else {
        5
    }
}

proof fn lemma_continuation(w: nat)
    ensures
        digits_value(continuation(w)) == w,
        forall|i: int| 0 <= i < continuation(w).len() ==> #[trigger] continuation(w)[i] >= 128,
        w > 0 ==> continuation(w).len() > 0 && continuation(w)[0] != 128,
        w == 0 ==> continuation(w).len() == 0,
        0 < w < 0x80 ==> continuation(w).len() == 1,
        0x80 <= w < 0x4000 ==> continuation(w).len() == 2,
        0x4000 <= w < 0x20_0000 ==> continuation(w).len() == 3,
        0x20_0000 <= w < 0x1000_0000 ==> continuation(w).len() == 4,
    decreases w,
{
    if w > 0 {
        let head = continuation(w / 128);
        let last = (128 + w % 128) as u8;
        lemma_continuation(w / 128);
        assert(continuation(w) == head.push(last));
        assert(head.push(last).drop_last() =~= head);
        assert(last % 128 == w % 128);
        if w / 128 == 0 {
            assert(last != 128);
        }
    }
}

proof fn lemma_leading_run(bytes: Seq<u8>, k: nat)
    requires
        k <= bytes.len(),
        forall|i: int| 0 <= i < k ==> #[trigger] bytes[i] >= 128,
    ensures
        leading_continuations(bytes) == k + leading_continuations(bytes.skip(k as int)),
    decreases k,
{
    if k == 0 {
        assert(bytes.skip(0) =~= bytes);
    } else {
        let rest = bytes.skip(1);
        assert forall|i: int| 0 <= i < k - 1 implies #[trigger] rest[i] >= 128 by {
            assert(rest[i] == bytes[i + 1]);
        }
        lemma_leading_run(rest, (k - 1) as nat);
        assert(rest.skip(k - 1) =~= bytes.skip(k as int));
    }
}

proof fn lemma_digits_grow(bytes: Seq<u8>, k: int, n: int)
    requires
        0 <= k <= n <= bytes.len(),
    ensures
        digits_value(bytes.take(k)) <= digits_value(bytes.take(n)),
    decreases n - k,
{
    if k < n {
        lemma_digits_grow(bytes, k, n - 1);
        assert(bytes.take(n).drop_last() =~= bytes.take(n - 1));
    }
}

/// Decoding undoes encoding: the bytes of `v`, whatever follows them, read
/// back as `v`, and the reading ends where the encoding ends.
pub proof fn lemma_decode_encode(v: u32, rest: Seq<u8>)
    ensures
        decoding(encoding(v) + rest) == Some((v, encoding(v).len())),
{
    let head = continuation(v as nat / 128);
    let enc = encoding(v);
    let all = enc + rest;
    let k = head.len();
    lemma_continuation(v as nat / 128);
    assert(enc.len() == k + 1);
    assert forall|i: int| 0 <= i < k implies #[trigger] all[i] >= 128 by {
        assert(all[i] == head[i]);
    }
    lemma_leading_run(all, k);
    assert(all.skip(k as int)[0] == enc[k as int]);
    assert(enc[k as int] < 128);
    assert(leading_continuations(all.skip(k as int)) == 0);
    assert(all.take(k as int + 1) =~= enc);
    assert(enc.drop_last() =~= head);
    assert(digits_value(enc) == (v as nat / 128) * 128 + (v % 128) as nat);
    if k > 0 {
        assert(all[0] == head[0]);
    }
}

/// An encoding is as short as its value allows: one byte below 128, two
/// below 16384, and so on, five at most. Only its last byte lacks the
/// continuation bit, and its first group is never empty when others follow.
pub proof fn lemma_encoding_minimal(v: u32)
    ensures
        encoding(v).len() == encoded_len(v),
        1 <= encoding(v).len() <= 5,
        encoding(v).last() < 128,
        forall|i: int| 0 <= i < encoding(v).len() - 1 ==> #[trigger] encoding(v)[i] >= 128,
        encoding(v).len() > 1 ==> encoding(v)[0] != 128,
{
    let head = continuation(v as nat / 128);
    lemma_continuation(v as nat / 128);
    assert forall|i: int| 0 <= i < encoding(v).len() - 1 implies #[trigger] encoding(v)[i]
        >= 128 by {
        assert(encoding(v)[i] == head[i]);
    }
    if head.len() > 0 {
        assert(encoding(v)[0] == head[0]);
    }
}

impl VarInt {
    /// Reads the integer at the front of `bytes`.
    pub fn decode(bytes: &[u8]) -> (out: Option<(VarInt, usize)>)
        ensures
            match out {
                Some((value, used)) => decoding(bytes@) == Some((value.0, used as nat)),
                None => decoding(bytes@) is None,
            },
    {
        let len: usize = bytes.len();
        let mut acc: u64 = 0;
        let mut i: usize = 0;
        while i < len
            invariant
                len == bytes@.len(),
                0 <= i <= len,
                forall|j: int| 0 <= j < i ==> #[trigger] bytes@[j] >= 128,
                acc == digits_value(bytes@.take(i as int)),
                acc <= u32::MAX,
                i > 0 ==> bytes@[0] != 128,
            decreases len - i,
        {
            let b: u8 = bytes[i];
            let next: u64 = acc * 128 + (b % 128) as u64;
            proof {
                assert(bytes@.take(i + 1).drop_last() =~= bytes@.take(i as int));
                assert(next == digits_value(bytes@.take(i + 1)));
                lemma_leading_run(bytes@, i as nat);
            }
            if b < 128 {
                proof {
                    assert(bytes@.skip(i as int)[0] == b);
                    assert(leading_continuations(bytes@.skip(i as int)) == 0);
                }
                if next > 0xffff_ffff {
                    return None;
                }
                return Some((VarInt(next as u32), i + 1));
            }
            if (i == 0 && b == 128) || next > 0xffff_ffff {
                proof {
                    let n = leading_continuations(bytes@) + 1;
                    assert(bytes@.skip(i as int)[0] == b);
                    assert(n >= i + 2);
                    if n <= len {
                        lemma_digits_grow(bytes@, i + 1, n as int);
                    }
                }
                return None;
            }
            acc = next;
            i = i + 1;
        }
        proof {
            lemma_leading_run(bytes@, len as nat);
        }
        None
    }
}

impl PayloadPattern for VarInt {
    open spec fn encodable(&self) -> bool {
        true
    }

    open spec fn wire(&self) -> Seq<u8> {
        encoding(self.0)
    }

    fn is_encodable(&self) -> (ok: bool) {
        true
    }

    fn len(&self) -> (n: usize) {
        proof {
            lemma_encoding_minimal(self.0);
        }
        let v: u32 = self.0;
        if v < 0x80 {
            1
        } else if v < 0x4000 {
            2
        } else if v < 0x20_0000 {
            3
        } else if v < 0x1000_0000 {
            4
        } else {
            5
        }
    }

    fn bytes(&self) -> (out: Vec<u8>) {
        let v: u32 = self.0;
        let mut out: Vec<u8> = Vec::new();
        if v >= 0x1000_0000 {
            out.push((128 + v / 0x1000_0000) as u8);
        }
        if v >= 0x20_0000 {
            out.push((128 + (v / 0x20_0000) % 128) as u8);
        }
        if v >= 0x4000 {
            out.push((128 + (v / 0x4000) % 128) as u8);
        }
        if v >= 0x80 {
            out.push((128 + (v / 0x80) % 128) as u8);
        }
        out.push((v % 128) as u8);
        proof {
            let w = v as nat / 128;
            reveal_with_fuel(continuation, 6);
            assert(w / 128 == v as nat / 0x4000);
            assert(w / 128 / 128 == v as nat / 0x20_0000);
            assert(w / 128 / 128 / 128 == v as nat / 0x1000_0000);
            assert(w / 128 / 128 / 128 / 128 == 0);
            assert(out@ =~= encoding(v));
        }
        out
    }
}

} // verus!
