//! The wire protocol's variable-length unsigned integer: little-endian,
//! seven value bits per byte, high bit set on every byte but the last,
//! at most five bytes, and only values that fit in 32 bits are accepted.

use vstd::prelude::*;

verus! {

/// The encoding of a value: its low seven bits, with the continuation bit
/// set whenever more significant bits remain.
pub open spec fn varint_enc(v: nat) -> Seq<u8>
    decreases v,
{
    if v < 128 {
        seq![v as u8]
    } else {
        seq![(v % 128 + 128) as u8] + varint_enc(v / 128)
    }
}

/// The value carried by a byte sequence, reading seven bits per byte,
/// least significant group first. Continuation bits are ignored.
pub open spec fn varint_value(s: Seq<u8>) -> nat
    decreases s.len(),
{
    if s.len() == 0 {
        0
    } else {
        (s[0] % 128) as nat + 128 * varint_value(s.subrange(1, s.len() as int))
    }
}

/// A well-formed varint: nonempty, every byte but the last carries the
/// continuation bit, and the last does not.
pub open spec fn is_varint(s: Seq<u8>) -> bool {
    &&& s.len() >= 1
    &&& forall|j: int| 0 <= j < s.len() - 1 ==> #[trigger] s[j] >= 128
    &&& s[s.len() - 1] < 128
}

/// One past the index of the first byte at or after `start` without the
/// continuation bit, or `data.len()` if every remaining byte carries it.
pub open spec fn varint_end(data: Seq<u8>, start: int) -> int
    decreases data.len() - start,
{
    if start < 0 || start >= data.len() {
        data.len() as int
    } else if data[start] < 128 {
        start + 1
    } else {
        varint_end(data, start + 1)
    }
}

/// 128 raised to `n`: the weight of the `n`-th encoded byte.
pub open spec fn pow128(n: nat) -> nat
    decreases n,
{
    if n == 0 {
        1
    } else {
        128 * pow128((n - 1) as nat)
    }
}

/// What decoding a varint from a byte stream yields.
#[derive(Debug, Clone, Copy, PartialEq, Eq, Structural)]
pub enum VarintResult {
    /// A value terminated within the bounds; `end` is the index one past
    /// its last byte.
    Value { value: u32, end: usize },
    /// The stream ended before the encoding terminated; more bytes may
    /// complete it.
    Incomplete,
    /// The continuation bits do not terminate within five bytes, or the
    /// encoded value does not fit in 32 bits.
    Malformed,
}

/// The decoding of the bytes of `data` from `start` on, as the decoder
/// must report it.
pub open spec fn varint_parse(data: Seq<u8>, start: int) -> VarintResult
    recommends
        0 <= start <= data.len(),
{
    let e = varint_end(data, start);
    if e > start && e <= data.len() && data[e - 1] < 128 {
        if e - start > 5 {
            VarintResult::Malformed
        } else if varint_value(data.subrange(start, e)) < 0x1_0000_0000 {
            VarintResult::Value {
                value: varint_value(data.subrange(start, e)) as u32,
                end: e as usize,
            }
        } else {
            VarintResult::Malformed
        }
    } else {
        if data.len() - start >= 5 {
            VarintResult::Malformed
        } else {
            VarintResult::Incomplete
        }
    }
}

proof fn lemma_pow128_values()
    ensures
        pow128(0) == 1,
        pow128(1) == 128,
        pow128(2) == 0x4000,
        pow128(3) == 0x20_0000,
        pow128(4) == 0x1000_0000,
        pow128(5) == 0x8_0000_0000,
{
    assert(pow128(0) == 1);
    assert(pow128(1) == 128 * pow128(0));
    assert(pow128(2) == 128 * pow128(1));
    assert(pow128(3) == 128 * pow128(2));
    assert(pow128(4) == 128 * pow128(3));
    assert(pow128(5) == 128 * pow128(4));
}

proof fn lemma_varint_end_skip(data: Seq<u8>, start: int, i: int)
    requires
        0 <= start <= i <= data.len(),
        forall|j: int| start <= j < i ==> #[trigger] data[j] >= 128,
    ensures
        varint_end(data, start) == varint_end(data, i),
    decreases i - start,
{
    if start < i {
        assert(data[start] >= 128);
        lemma_varint_end_skip(data, start + 1, i);
    }
}

proof fn lemma_value_snoc(data: Seq<u8>, start: int, i: int)
    requires
        0 <= start <= i < data.len(),
    ensures
        varint_value(data.subrange(start, i + 1)) == varint_value(data.subrange(start, i)) + (
        data[i] % 128) as nat * pow128((i - start) as nat),
    decreases i - start,
{
    let s1 = data.subrange(start, i + 1);
    let s0 = data.subrange(start, i);
    if i == start {
        assert(s1 =~= seq![data[i]]);
        assert(s1.subrange(1, 1) =~= Seq::<u8>::empty());
        assert(varint_value(Seq::<u8>::empty()) == 0);
        assert(varint_value(s1) == (data[i] % 128) as nat);
        assert(pow128(0) == 1);
    } else {
        lemma_value_snoc(data, start + 1, i);
        assert(s1.subrange(1, s1.len() as int) =~= data.subrange(start + 1, i + 1));
        assert(s0.subrange(1, s0.len() as int) =~= data.subrange(start + 1, i));
        assert(pow128((i - start) as nat) == 128 * pow128((i - start - 1) as nat));
        let a = varint_value(data.subrange(start + 1, i));
        let w = pow128((i - start - 1) as nat);
        let m = (data[i] % 128) as nat;
        assert(varint_value(data.subrange(start + 1, i + 1)) == a + m * w);
        assert(s1[0] == data[start]);
        assert(s0[0] == data[start]);
        assert(varint_value(s1) == (s1[0] % 128) as nat + 128 * varint_value(
            s1.subrange(1, s1.len() as int),
        ));
        assert(varint_value(s0) == (s0[0] % 128) as nat + 128 * varint_value(
            s0.subrange(1, s0.len() as int),
        ));
        assert(varint_value(s1) == (data[start] % 128) as nat + 128 * (a + m * w));
        assert(128 * (a + m * w) == 128 * a + m * (128 * w)) by (nonlinear_arith);
        assert(varint_value(s1) == varint_value(s0) + m * pow128((i - start) as nat));
    }
}

/// Every encoding is well formed and carries the value it was made from.
pub proof fn lemma_varint_enc_value(v: nat)
    ensures
        is_varint(varint_enc(v)),
        varint_value(varint_enc(v)) == v,
    decreases v,
{
    if v < 128 {
        let s = varint_enc(v);
        assert(s =~= seq![v as u8]);
        assert(s.subrange(1, 1) =~= Seq::<u8>::empty());
        assert(varint_value(Seq::<u8>::empty()) == 0);
        assert((v as u8) % 128 == v);
        assert(varint_value(s) == (s[0] % 128) as nat + 128 * varint_value(s.subrange(1, 1)));
    } else {
        lemma_varint_enc_value(v / 128);
        let t = varint_enc(v / 128);
        let b: u8 = (v % 128 + 128) as u8;
        let s = varint_enc(v);
        assert(s =~= seq![b] + t);
        assert(s.subrange(1, s.len() as int) =~= t);
        assert(varint_value(s) == (b % 128) as nat + 128 * varint_value(t));
        assert((b % 128) as nat == v % 128);
        assert(v % 128 + 128 * (v / 128) == v);
        assert forall|j: int| 0 <= j < s.len() - 1 implies #[trigger] s[j] >= 128 by {
            if j > 0 {
                assert(s[j] == t[j - 1]);
            }
        }
        assert(s[s.len() - 1] == t[t.len() - 1]);
    }
}

/// A value below `pow128(n)` encodes in at most `n` bytes.
pub proof fn lemma_varint_enc_len(v: nat, n: nat)
    requires
        n >= 1,
        v < pow128(n),
    ensures
        varint_enc(v).len() <= n,
    decreases v,
{
    if v >= 128 {
        assert(pow128(n) == 128 * pow128((n - 1) as nat));
        assert(v / 128 < pow128((n - 1) as nat)) by (nonlinear_arith)
            requires
                v < 128 * pow128((n - 1) as nat),
        ;
        lemma_varint_enc_len(v / 128, (n - 1) as nat);
    }
}

/// Round trip: an encoding embedded in a longer stream decodes to the
/// value it was made from, consuming exactly its own bytes.
pub proof fn lemma_varint_round_trip(data: Seq<u8>, start: int, v: u32)
    requires
        0 <= start,
        data.len() <= usize::MAX,
        start + varint_enc(v as nat).len() <= data.len(),
        data.subrange(start, start + varint_enc(v as nat).len() as int) == varint_enc(v as nat),
    ensures
        varint_parse(data, start) == (VarintResult::Value {
            value: v,
            end: (start + varint_enc(v as nat).len()) as usize,
        }),
{
    lemma_varint_enc_value(v as nat);
    lemma_pow128_values();
    lemma_varint_enc_len(v as nat, 5);
    let enc = varint_enc(v as nat);
    let e = start + enc.len() as int;
    assert forall|j: int| start <= j < e - 1 implies #[trigger] data[j] >= 128 by {
        assert(data[j] == enc[j - start]);
    }
    lemma_varint_end_skip(data, start, e - 1);
    assert(data[e - 1] == enc[enc.len() - 1]);
    assert(varint_end(data, e - 1) == e);
    assert(data.subrange(start, e) =~= enc);
}

/// Five bytes that all carry the continuation bit can never open a valid
/// varint, whatever follows them.
pub proof fn lemma_varint_unterminated_malformed(data: Seq<u8>, start: int)
    requires
        0 <= start,
        start + 5 <= data.len(),
        forall|j: int| start <= j < start + 5 ==> #[trigger] data[j] >= 128,
    ensures
        varint_parse(data, start) == VarintResult::Malformed,
{
    let e = varint_end(data, start);
    if e > start && e <= data.len() && data[e - 1] < 128 {
        assert(e - 1 >= start + 5);
    }
}

/// Decodes one varint from `data` starting at `start`.
pub fn decode_varint32(data: &Vec<u8>, start: usize) -> (r: VarintResult)
    requires
        start <= data@.len(),
    ensures
        r == varint_parse(data@, start as int),
{
    let ghost d = data@;
    let mut i: usize = start;
    let mut acc: u64 = 0;
    let mut mult: u64 = 1;
    while i < data.len() && i - start < 5
        invariant
            start <= i <= data@.len(),
            i - start <= 5,
            data@ == d,
            forall|j: int| start <= j < i ==> #[trigger] d[j] >= 128,
            mult == pow128((i - start) as nat),
            acc == varint_value(d.subrange(start as int, i as int)),
            acc < mult,
        decreases data@.len() - i,
    {
        let b = data[i];
        proof {
            lemma_pow128_values();
            lemma_value_snoc(d, start as int, i as int);
            assert(mult <= 0x1000_0000);
            assert(((b % 128) as u64) * mult <= 127 * mult) by (nonlinear_arith)
                requires
                    (b % 128) < 128,
            ;
        }
        acc = acc + ((b % 128) as u64) * mult;
        if b < 128 {
            i = i + 1;
            proof {
                lemma_varint_end_skip(d, start as int, i - 1);
                assert(varint_end(d, i - 1) == i);
            }
            if acc <= 0xFFFF_FFFFu64 {
                return VarintResult::Value { value: acc as u32, end: i };
            } else {
                return VarintResult::Malformed;
            }
        }
        mult = mult * 128;
        i = i + 1;
        proof {
            assert(pow128((i - start) as nat) == 128 * pow128((i - 1 - start) as nat));
        }
    }
    proof {
        lemma_varint_end_skip(d, start as int, i as int);
    }
    if i - start == 5 {
        VarintResult::Malformed
    } else {
        VarintResult::Incomplete
    }
}

/// Encodes a value as a varint.
pub fn encode_varint32(v: u32) -> (r: Vec<u8>)
    ensures
        r@ == varint_enc(v as nat),
{
    let mut out: Vec<u8> = Vec::new();
    let mut x: u32 = v;
    while x >= 128
        invariant
            varint_enc(v as nat) == out@ + varint_enc(x as nat),
        decreases x,
    {
        proof {
            assert(varint_enc(x as nat) == seq![(x as nat % 128 + 128) as u8] + varint_enc(
                x as nat / 128,
            ));
        }
        out.push((x % 128 + 128) as u8);
        x = x / 128;
        proof {
            assert(varint_enc(v as nat) =~= out@ + varint_enc(x as nat));
        }
    }
    proof {
        assert(varint_enc(x as nat) =~= seq![x as u8]);
    }
    out.push(x as u8);
    proof {
        assert(out@ =~= varint_enc(v as nat));
    }
    out
}

} // verus!
