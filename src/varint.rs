//! The protocol's variable-length integers: 7 payload bits per byte, least
//! significant group first, bit 0x80 set on every byte but the last.
use vstd::prelude::*;

verus! {

/// The longest VarInt that a decoder accepts: 5 bytes carry 35 bits, more
/// than any 32-bit value needs.
pub const MAX_VARINT_LEN: usize = 5;

/// `128` raised to `n`.
pub open spec fn pow128(n: nat) -> nat
    decreases n,
{
    if n == 0 {
        1
    } else {
        128 * pow128((n - 1) as nat)
    }
}

/// The encoding of `v`.
pub open spec fn varint_spec(v: nat) -> Seq<u8>
    decreases v,
{
    if v < 128 {
        seq![v as u8]
    } else {
        seq![(v % 128 + 128) as u8] + varint_spec(v / 128)
    }
}

/// The number that the bytes of `s` carry, read as VarInt groups.
pub open spec fn varint_value(s: Seq<u8>) -> nat
    decreases s.len(),
{
    if s.len() == 0 {
        0
    } else {
        (s[0] % 128) as nat + 128 * varint_value(s.drop_first())
    }
}

/// The continuation bit of a VarInt byte.
pub open spec fn continues(b: u8) -> bool {
    b >= 0x80
}

/// `s` begins with a complete VarInt of `n` bytes that a decoder accepts.
pub open spec fn ends_at(s: Seq<u8>, n: int) -> bool {
    &&& 1 <= n <= MAX_VARINT_LEN
    &&& n <= s.len()
    &&& forall|j: int| 0 <= j < n - 1 ==> continues(#[trigger] s[j])
    &&& !continues(s[n - 1])
}

/// `s` begins with more VarInt bytes than a decoder accepts: it has read a
/// sixth byte after five that all had the continuation bit set.
pub open spec fn overlong(s: Seq<u8>) -> bool {
    &&& s.len() > MAX_VARINT_LEN
    &&& forall|j: int| 0 <= j < MAX_VARINT_LEN ==> continues(#[trigger] s[j])
}

/// `s` is a prefix of a VarInt that more bytes could still complete.
pub open spec fn unfinished(s: Seq<u8>) -> bool {
    &&& s.len() <= MAX_VARINT_LEN
    &&& forall|j: int| 0 <= j < s.len() ==> continues(#[trigger] s[j])
}

/// What a decoder makes of the bytes it has been given so far.
#[derive(Debug, Clone, Copy, PartialEq, Eq)]
pub enum VarIntRead {
    /// A complete VarInt of `len` bytes, holding `value` (its low 32 bits).
    Value { value: u32, len: usize },
    /// Every byte so far has the continuation bit set: more are needed.
    Incomplete,
    /// Five bytes with the continuation bit set, and a sixth: no valid VarInt.
    Malformed,
}

pub proof fn lemma_pow128_positive(n: nat)
    ensures
        pow128(n) >= 1,
    decreases n,
{
    if n > 0 {
        lemma_pow128_positive((n - 1) as nat);
    }
}

/// Appending a byte adds its 7 payload bits at the next group.
pub proof fn lemma_varint_value_push(s: Seq<u8>, b: u8)
    ensures
        varint_value(s.push(b)) == varint_value(s) + (b % 128) as nat * pow128(s.len()),
    decreases s.len(),
{
    if s.len() == 0 {
        assert(s.push(b).drop_first() =~= Seq::<u8>::empty());
        assert(varint_value(Seq::<u8>::empty()) == 0);
    } else {
        assert(s.push(b).drop_first() =~= s.drop_first().push(b));
        lemma_varint_value_push(s.drop_first(), b);
        assert(pow128(s.len()) == 128 * pow128(s.drop_first().len()));
        assert(128 * ((b % 128) as nat * pow128(s.drop_first().len())) == (b % 128) as nat
            * pow128(s.len())) by (nonlinear_arith)
            requires
                pow128(s.len()) == 128 * pow128(s.drop_first().len()),
        ;
    }
}

/// The value of `n` groups is below `128` raised to `n`.
pub proof fn lemma_varint_value_bound(s: Seq<u8>)
    ensures
        varint_value(s) < pow128(s.len()),
    decreases s.len(),
{
    if s.len() > 0 {
        lemma_varint_value_bound(s.drop_first());
        let rest = varint_value(s.drop_first());
        let p = pow128(s.drop_first().len());
        assert((s[0] % 128) as nat + 128 * rest < 128 * p) by (nonlinear_arith)
            requires
                rest < p,
                (s[0] % 128) < 128,
        ;
    }
}

/// The encoding of `v` takes at most `k` bytes exactly when `v` is below
/// `128` raised to `k`: one byte up to 127, two up to 16383, and so on.
pub proof fn lemma_varint_len(v: nat, k: nat)
    requires
        k >= 1,
    ensures
        (varint_spec(v).len() <= k) == (v < pow128(k)),
    decreases v,
{
    lemma_pow128_positive((k - 1) as nat);
    assert(pow128(k) == 128 * pow128((k - 1) as nat));
    if v >= 128 {
        if k == 1 {
            assert(pow128(1) == 128) by {
                assert(pow128(0) == 1);
            }
        } else {
            lemma_varint_len(v / 128, (k - 1) as nat);
            let p = pow128((k - 1) as nat);
            assert((v / 128 < p) == (v < 128 * p)) by (nonlinear_arith)
                requires
                    p >= 1,
            ;
        }
    }
}

/// Every encoding is a complete VarInt that gives its value back: each byte
/// but the last has the continuation bit set, and the groups add up to `v`.
pub proof fn lemma_varint_spec_shape(v: nat)
    ensures
        varint_spec(v).len() >= 1,
        forall|j: int|
            0 <= j < varint_spec(v).len() - 1 ==> continues(#[trigger] varint_spec(v)[j]),
        !continues(varint_spec(v).last()),
        varint_value(varint_spec(v)) == v,
    decreases v,
{
    if v < 128 {
        assert(varint_spec(v).drop_first() =~= Seq::<u8>::empty());
        assert(varint_value(Seq::<u8>::empty()) == 0);
    } else {
        let head = (v % 128 + 128) as u8;
        lemma_varint_spec_shape(v / 128);
        let rest = varint_spec(v / 128);
        assert(varint_spec(v).drop_first() =~= rest);
        assert forall|j: int| 0 <= j < varint_spec(v).len() - 1 implies continues(
            #[trigger] varint_spec(v)[j],
        ) by {
            if j > 0 {
                assert(varint_spec(v)[j] == rest[j - 1]);
            }
        }
        assert(varint_spec(v).last() == rest.last());
        assert(head % 128 == v % 128);
        assert(v == v % 128 + 128 * (v / 128));
    }
}

/// Decoding the encoding of a non-negative 32-bit integer gives it back: the
/// encoding is one complete VarInt, of all its bytes, whose value is `v`.
pub proof fn lemma_varint_round_trip(v: nat)
    requires
        v <= i32::MAX,
    ensures
        ends_at(varint_spec(v), varint_spec(v).len() as int),
        varint_value(varint_spec(v)) % 0x1_0000_0000 == v,
{
    lemma_varint_spec_shape(v);
    lemma_varint_len(v, 5);
    assert(pow128(0) == 1);
    assert(pow128(1) == 128);
    assert(pow128(2) == 0x4000);
    assert(pow128(3) == 0x20_0000);
    assert(pow128(4) == 0x1000_0000);
    assert(pow128(5) == 0x8_0000_0000);
}

/// What a decoder makes of `s` after it has looked at its first `i` bytes
/// and found each of them with the continuation bit set.
pub open spec fn read_from(s: Seq<u8>, i: nat) -> VarIntRead
    decreases MAX_VARINT_LEN - i,
{
    if i >= s.len() {
        VarIntRead::Incomplete
    } else if i >= MAX_VARINT_LEN {
        VarIntRead::Malformed
    } else if !continues(s[i as int]) {
        VarIntRead::Value {
            value: (varint_value(s.take((i + 1) as int)) % 0x1_0000_0000) as u32,
            len: (i + 1) as usize,
        }
    } else {
        read_from(s, i + 1)
    }
}

/// What a decoder makes of the VarInt at the start of `s`.
pub open spec fn varint_read(s: Seq<u8>) -> VarIntRead {
    read_from(s, 0)
}

/// Decodes the VarInt at the start of `bytes`.
///
/// The value is accumulated group by group; a VarInt of five bytes may carry
/// more than 32 bits, and only the low 32 are kept.
pub fn decode_varint(bytes: &[u8]) -> (r: VarIntRead)
    ensures
        r == varint_read(bytes@),
        (r is Incomplete) == unfinished(bytes@),
        (r is Malformed) == overlong(bytes@),
        r matches VarIntRead::Value { value, len } ==> {
            &&& ends_at(bytes@, len as int)
            &&& value == varint_value(bytes@.take(len as int)) % 0x1_0000_0000
        },
{
    let r = decode_varint_at(bytes, 0);
    assert(bytes@.skip(0) =~= bytes@);
    r
}

/// Decodes the VarInt that starts at `bytes[start]`.
pub fn decode_varint_at(bytes: &[u8], start: usize) -> (r: VarIntRead)
    requires
        start <= bytes@.len(),
    ensures
        r == varint_read(bytes@.skip(start as int)),
        (r is Incomplete) == unfinished(bytes@.skip(start as int)),
        (r is Malformed) == overlong(bytes@.skip(start as int)),
        r matches VarIntRead::Value { value, len } ==> {
            &&& ends_at(bytes@.skip(start as int), len as int)
            &&& value == varint_value(bytes@.skip(start as int).take(len as int)) % 0x1_0000_0000
        },
{
    let ghost s = bytes@.skip(start as int);
    let mut value: u64 = 0;
    let mut scale: u64 = 1;
    let mut i: usize = 0;
    while i < bytes.len() - start
        invariant
            start <= bytes@.len(),
            s == bytes@.skip(start as int),
            i <= MAX_VARINT_LEN,
            i <= s.len(),
            forall|j: int| 0 <= j < i ==> continues(#[trigger] s[j]),
            scale == pow128(i as nat),
            value == varint_value(s.take(i as int)),
            varint_read(s) == read_from(s, i as nat),
        decreases bytes.len() - start - i,
    {
        if i == MAX_VARINT_LEN {
            return VarIntRead::Malformed;
        }
        let b = bytes[start + i];
        assert(b == s[i as int]);
        proof {
            lemma_varint_value_bound(s.take(i as int));
            assert(s.take(i as int + 1) =~= s.take(i as int).push(b));
            lemma_varint_value_push(s.take(i as int), b);
            assert(pow128(0) == 1);
            assert(pow128(1) == 128);
            assert(pow128(2) == 0x4000);
            assert(pow128(3) == 0x20_0000);
            assert(pow128(4) == 0x1000_0000);
            assert(scale <= 0x1000_0000);
            assert((b % 128) as u64 * scale <= 127 * 0x1000_0000) by (nonlinear_arith)
                requires
                    scale <= 0x1000_0000,
            ;
        }
        value = value + (b % 128) as u64 * scale;
        if b < 0x80 {
            return VarIntRead::Value { value: (value % 0x1_0000_0000) as u32, len: i + 1 };
        }
        scale = scale * 128;
        i = i + 1;
    }
    VarIntRead::Incomplete
}

} // verus!
