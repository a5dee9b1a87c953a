use vstd::prelude::*;

verus! {

/// A 32-byte identifier (an account key or a content digest), held as its two
/// big-endian 128-bit halves.
#[derive(Clone, Copy, Debug, PartialEq, Eq, Structural, Hash)]
pub struct Key {
    pub hi: u128,
    pub lo: u128,
}

/// The number that bytes spell, most significant byte first.
pub open spec fn be_value(bytes: Seq<u8>) -> nat
    decreases bytes.len(),
{
    if bytes.len() == 0 {
        0
    } else {
        be_value(bytes.drop_last()) * 256 + bytes.last() as nat
    }
}

/// 256 to the power of `n`: the numbers that `n` bytes can spell.
pub open spec fn span(n: nat) -> nat
    decreases n,
{
    if n == 0 {
        1
    } else {
        256 * span((n - 1) as nat)
    }
}

/// The key that 32 bytes spell.
pub open spec fn key_of(bytes: Seq<u8>) -> Key {
    Key {
        hi: be_value(bytes.subrange(0, 16)) as u128,
        lo: be_value(bytes.subrange(16, 32)) as u128,
    }
}

/// `n` bytes spell a number under 256 to the power of `n`.
pub proof fn lemma_be_bound(bytes: Seq<u8>)
    ensures
        be_value(bytes) < span(bytes.len()),
    decreases bytes.len(),
{
    if bytes.len() > 0 {
        lemma_be_bound(bytes.drop_last());
    }
}

/// Sixteen bytes fit a `u128` exactly.
pub proof fn lemma_span_16()
    ensures
        span(16) == 0x1_0000_0000_0000_0000_0000_0000_0000_0000,
{
    reveal_with_fuel(span, 17);
}

/// Bytes of one length that spell the same number are the same bytes.
pub proof fn lemma_be_injective(a: Seq<u8>, b: Seq<u8>)
    requires
        a.len() == b.len(),
        be_value(a) == be_value(b),
    ensures
        a == b,
    decreases a.len(),
{
    if a.len() > 0 {
        lemma_be_injective(a.drop_last(), b.drop_last());
        assert(a =~= a.drop_last().push(a.last()));
        assert(b =~= b.drop_last().push(b.last()));
    }
}

/// Different identifiers have different keys.
pub proof fn lemma_key_injective(a: Seq<u8>, b: Seq<u8>)
    requires
        a.len() == 32,
        b.len() == 32,
        key_of(a) == key_of(b),
    ensures
        a == b,
{
    lemma_span_16();
    lemma_be_bound(a.subrange(0, 16));
    lemma_be_bound(a.subrange(16, 32));
    lemma_be_bound(b.subrange(0, 16));
    lemma_be_bound(b.subrange(16, 32));
    lemma_be_injective(a.subrange(0, 16), b.subrange(0, 16));
    lemma_be_injective(a.subrange(16, 32), b.subrange(16, 32));
    assert(a =~= a.subrange(0, 16) + a.subrange(16, 32));
    assert(b =~= b.subrange(0, 16) + b.subrange(16, 32));
}

/// The number that the sixteen bytes from `start` on spell.
fn half(bytes: &[u8], start: usize) -> (value: u128)
    requires
        bytes@.len() == 32,
        start <= 16,
    ensures
        value == be_value(bytes@.subrange(start as int, start + 16)),
{
    let mut value: u128 = 0;
    let mut i: usize = 0;
    while i < 16
        invariant
            i <= 16,
            start <= 16,
            bytes@.len() == 32,
            value == be_value(bytes@.subrange(start as int, start + i)),
        decreases 16 - i,
    {
        let ghost done = bytes@.subrange(start as int, start + i);
        let ghost more = bytes@.subrange(start as int, start + i + 1);
        proof {
            lemma_be_bound(done);
            lemma_span_16();
            lemma_span_grows(i as nat, 15);
            assert(more.drop_last() =~= done);
        }
        value = value * 256 + bytes[start + i] as u128;
        i = i + 1;
    }
    value
}

/// More bytes spell more numbers.
pub proof fn lemma_span_grows(m: nat, n: nat)
    requires
        m <= n,
    ensures
        span(m) <= span(n),
    decreases n,
{
    if m < n {
        lemma_span_grows(m, (n - 1) as nat);
    }
}

impl Key {
    /// The key of a 32-byte identifier; `None` for any other number of bytes.
    pub fn from_bytes(bytes: &[u8]) -> (key: Option<Key>)
        ensures
            key == if bytes@.len() == 32 {
                Some(key_of(bytes@))
            } else {
                None
            },
    {
        if bytes.len() != 32 {
            return None;
        }
        Some(Key { hi: half(bytes, 0), lo: half(bytes, 16) })
    }
}

} // verus!
