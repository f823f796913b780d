//! Gossip topics and the message identifiers that the gossip layer assigns.
use vstd::prelude::*;

verus! {

/// Topic on which nodes announce their free compute slots.
pub const TOPIC_SLOTS_ANNOUNCE: &'static str = "slots/announce";
/// Topic on which nodes publish their status.
pub const TOPIC_NODE_STATUS: &'static str = "node/status";
/// Topic carrying reputation scores.
pub const TOPIC_REPUTATION: &'static str = "reputation/score";
/// Topic carrying web-of-trust edges.
pub const TOPIC_TRUST_EDGE: &'static str = "trust/edge";
/// Topic carrying social posts.
pub const TOPIC_SOCIAL_POST: &'static str = "social/post";
/// Topic carrying profile updates.
pub const TOPIC_SOCIAL_PROFILE: &'static str = "social/profile";
/// Topic carrying follow events.
pub const TOPIC_SOCIAL_FOLLOW: &'static str = "social/follow";

/// Multiplier of the quick hash.
pub const HASH_PRIME: u64 = 0x9E3779B185EBCA87;

/// How many leading bytes of a message determine its identifier.
pub const MESSAGE_ID_PREFIX: usize = 64;

/// The little-endian value of up to eight bytes.
pub open spec fn le_word(bytes: Seq<u8>) -> nat
    decreases bytes.len(),
{
    if bytes.len() == 0 {
        0
    } else {
        bytes[0] as nat + 256 * le_word(bytes.drop_first())
    }
}

/// `256` to the power `n`.
pub open spec fn pow256(n: nat) -> nat
    decreases n,
{
    if n == 0 {
        1
    } else {
        256 * pow256((n - 1) as nat)
    }
}

/// One step of the hash: xor in a word, then multiply modulo 2^64.
pub open spec fn mix(h: u64, word: u64) -> u64 {
    ((((h ^ word) as nat) * (HASH_PRIME as nat)) % 0x1_0000_0000_0000_0000) as u64
}

/// The hash state after absorbing `data` eight bytes at a time, starting from `h`;
/// a short last chunk is read as if padded with zero bytes.
pub open spec fn absorb(h: u64, data: Seq<u8>) -> u64
    decreases data.len(),
{
    if data.len() == 0 {
        h
    } else if data.len() <= 8 {
        mix(h, le_word(data) as u64)
    } else {
        absorb(mix(h, le_word(data.take(8)) as u64), data.skip(8))
    }
}

/// The quick hash of `data`.
pub open spec fn spec_xxh3_64(data: Seq<u8>) -> u64 {
    absorb(0, data)
}

/// The `n` lowest bytes of `x`, least significant first.
pub open spec fn le_bytes_n(x: nat, n: nat) -> Seq<u8>
    decreases n,
{
    if n == 0 {
        Seq::empty()
    } else {
        seq![(x % 256) as u8] + le_bytes_n(x / 256, (n - 1) as nat)
    }
}

/// The eight little-endian bytes of `x`.
pub open spec fn le_bytes(x: u64) -> Seq<u8> {
    le_bytes_n(x as nat, 8)
}

/// The identifier of a gossip message: the little-endian bytes of the hash
/// of its first `MESSAGE_ID_PREFIX` bytes.
pub open spec fn spec_message_id(data: Seq<u8>) -> Seq<u8> {
    let n = if data.len() < MESSAGE_ID_PREFIX { data.len() as int } else { MESSAGE_ID_PREFIX as int };
    le_bytes(spec_xxh3_64(data.take(n)))
}

/// The little-endian value of `n` bytes is below `256^n`.
pub proof fn lemma_le_word_bound(bytes: Seq<u8>)
    ensures
        le_word(bytes) < pow256(bytes.len()),
    decreases bytes.len(),
{
    if bytes.len() > 0 {
        lemma_le_word_bound(bytes.drop_first());
        assert(pow256(bytes.len()) == 256 * pow256((bytes.len() - 1) as nat));
    }
}

proof fn lemma_pow256_8()
    ensures
        pow256(8) == 0x1_0000_0000_0000_0000,
{
    reveal_with_fuel(pow256, 9);
}

proof fn lemma_pow256_mono(a: nat, b: nat)
    requires
        a <= b,
    ensures
        pow256(a) <= pow256(b),
    decreases b,
{
    if a < b {
        lemma_pow256_mono(a, (b - 1) as nat);
    }
}

/// The little-endian value of `data[start..end]`, for at most eight bytes.
fn le_word_exec(data: &[u8], start: usize, end: usize) -> (w: u64)
    requires
        start <= end <= data@.len(),
        end - start <= 8,
    ensures
        w as nat == le_word(data@.subrange(start as int, end as int)),
{
    let mut w: u64 = 0;
    let mut j: usize = end;
    assert(data@.subrange(end as int, end as int) =~= Seq::<u8>::empty());
    while j > start
        invariant
            start <= j <= end <= data@.len(),
            end - start <= 8,
            w as nat == le_word(data@.subrange(j as int, end as int)),
        decreases j - start,
    {
        j = j - 1;
        proof {
            let s = data@.subrange(j as int, end as int);
            assert(s.drop_first() =~= data@.subrange(j + 1, end as int));
            lemma_le_word_bound(s);
            lemma_pow256_mono(s.len(), 8);
            lemma_pow256_8();
        }
        w = w * 256 + data[j] as u64;
    }
    w
}

/// Hash of the first `n` bytes of `data`.
fn hash_prefix(data: &[u8], n: usize) -> (h: u64)
    requires
        n <= data@.len(),
    ensures
        h == spec_xxh3_64(data@.take(n as int)),
{
    let ghost d = data@.take(n as int);
    let mut h: u64 = 0;
    let mut i: usize = 0;
    assert(d.skip(0) =~= d);
    while i < n
        invariant
            i <= n <= data@.len(),
            d == data@.take(n as int),
            absorb(h, d.skip(i as int)) == spec_xxh3_64(d),
        decreases n - i,
    {
        let end: usize = if n - i >= 8 { i + 8 } else { n };
        let w = le_word_exec(data, i, end);
        proof {
            let rest = d.skip(i as int);
            if rest.len() <= 8 {
                assert(rest =~= data@.subrange(i as int, end as int));
                assert(d.skip(end as int) =~= Seq::<u8>::empty());
            } else {
                assert(rest.take(8) =~= data@.subrange(i as int, end as int));
                assert(rest.skip(8) =~= d.skip(end as int));
            }
        }
        h = (h ^ w).wrapping_mul(HASH_PRIME);
        i = end;
    }
    h
}

/// Quick 64-bit hash: each 8-byte chunk, read little-endian and zero-padded,
/// is xored into the state, which is then multiplied by `HASH_PRIME` with wrap-around.
pub fn xxh3_64(data: &[u8]) -> (h: u64)
    ensures
        h == spec_xxh3_64(data@),
{
    assert(data@.take(data@.len() as int) =~= data@);
    hash_prefix(data, data.len())
}

/// The identifier that the gossip layer gives to a message with payload `data`.
pub fn message_id(data: &[u8]) -> (id: Vec<u8>)
    ensures
        id@ == spec_message_id(data@),
        id@.len() == 8,
{
    let n: usize = if data.len() < MESSAGE_ID_PREFIX { data.len() } else { MESSAGE_ID_PREFIX };
    let h = hash_prefix(data, n);
    let mut out: Vec<u8> = Vec::new();
    let mut v: u64 = h;
    let mut k: usize = 0;
    while k < 8
        invariant
            k <= 8,
            out@.len() == k,
            out@ + le_bytes_n(v as nat, (8 - k) as nat) == le_bytes(h),
        decreases 8 - k,
    {
        proof {
            assert(le_bytes_n(v as nat, (8 - k) as nat) == seq![(v % 256) as u8] + le_bytes_n(
                v as nat / 256,
                (8 - k - 1) as nat,
            ));
        }
        let ghost old_out = out@;
        out.push((v % 256) as u8);
        assert(out@ =~= old_out + seq![(v % 256) as u8]);
        v = v / 256;
        k = k + 1;
    }
    assert(le_bytes_n(v as nat, 0) =~= Seq::<u8>::empty());
    assert(out@ =~= le_bytes(h));
    out
}

proof fn lemma_pow256_pos(n: nat)
    ensures
        pow256(n) > 0,
    decreases n,
{
    if n > 0 {
        lemma_pow256_pos((n - 1) as nat);
    }
}

/// Reading back `n` little-endian bytes of `x` gives `x` modulo `256^n`.
pub proof fn lemma_le_word_of_le_bytes(x: nat, n: nat)
    ensures
        le_word(le_bytes_n(x, n)) == x % pow256(n),
    decreases n,
{
    if n == 0 {
        assert(x % 1 == 0) by (nonlinear_arith);
    } else {
        let rest = le_bytes_n(x / 256, (n - 1) as nat);
        assert((seq![(x % 256) as u8] + rest).drop_first() =~= rest);
        lemma_le_word_of_le_bytes(x / 256, (n - 1) as nat);
        lemma_pow256_pos((n - 1) as nat);
        vstd::arithmetic::div_mod::lemma_mod_breakdown(x as int, 256, pow256((n - 1) as nat) as int);
    }
}

/// Law: a message identifier is the eight-byte little-endian encoding of the hash of
/// the message's first `MESSAGE_ID_PREFIX` bytes; reading those bytes back gives the hash.
pub proof fn law_message_id_encodes_hash(data: Seq<u8>)
    ensures
        spec_message_id(data).len() == 8,
        le_word(spec_message_id(data)) == spec_xxh3_64(
            data.take(if data.len() < MESSAGE_ID_PREFIX { data.len() as int } else { MESSAGE_ID_PREFIX as int }),
        ),
{
    let n = if data.len() < MESSAGE_ID_PREFIX { data.len() as int } else { MESSAGE_ID_PREFIX as int };
    let h = spec_xxh3_64(data.take(n));
    lemma_le_word_of_le_bytes(h as nat, 8);
    lemma_pow256_8();
    vstd::arithmetic::div_mod::lemma_small_mod(h as nat, pow256(8));
    lemma_le_bytes_len(h as nat, 8);
}

proof fn lemma_le_bytes_len(x: nat, n: nat)
    ensures
        le_bytes_n(x, n).len() == n,
    decreases n,
{
    if n > 0 {
        lemma_le_bytes_len(x / 256, (n - 1) as nat);
    }
}

/// Law: two messages that agree on their first `MESSAGE_ID_PREFIX` bytes get the same
/// identifier, whatever follows.
pub proof fn law_message_id_ignores_tail(a: Seq<u8>, b: Seq<u8>)
    requires
        a.len() >= MESSAGE_ID_PREFIX,
        b.len() >= MESSAGE_ID_PREFIX,
        a.take(MESSAGE_ID_PREFIX as int) == b.take(MESSAGE_ID_PREFIX as int),
    ensures
        spec_message_id(a) == spec_message_id(b),
{
}

/// Law: the hash reads its input as a stream of 8-byte chunks, so hashing `a + b`,
/// where the length of `a` is a multiple of eight, continues from the state reached after `a`.
pub proof fn law_absorb_chunk_aligned(h: u64, a: Seq<u8>, b: Seq<u8>)
    requires
        a.len() % 8 == 0,
    ensures
        absorb(h, a + b) == absorb(absorb(h, a), b),
    decreases a.len(),
{
    if a.len() == 0 {
        assert(a + b =~= b);
    } else if b.len() == 0 {
        assert(a + b =~= a);
    } else {
        let ab = a + b;
        let h1 = mix(h, le_word(a.take(8)) as u64);
        assert(ab.take(8) =~= a.take(8));
        assert(ab.skip(8) =~= a.skip(8) + b);
        if a.len() == 8 {
            assert(a.take(8) =~= a);
            assert(a.skip(8) + b =~= b);
        } else {
            law_absorb_chunk_aligned(h1, a.skip(8), b);
        }
    }
}

/// `n` zero bytes.
pub open spec fn zero_bytes(n: nat) -> Seq<u8> {
    Seq::new(n, |i: int| 0u8)
}

proof fn lemma_le_word_zero_tail(a: Seq<u8>, k: nat)
    ensures
        le_word(a + zero_bytes(k)) == le_word(a),
    decreases a.len() + k,
{
    if a.len() == 0 {
        assert(a + zero_bytes(k) =~= zero_bytes(k));
        if k > 0 {
            assert(zero_bytes(k).drop_first() =~= zero_bytes((k - 1) as nat));
            lemma_le_word_zero_tail(a, (k - 1) as nat);
            assert(a + zero_bytes((k - 1) as nat) =~= zero_bytes((k - 1) as nat));
        }
    } else {
        assert((a + zero_bytes(k)).drop_first() =~= a.drop_first() + zero_bytes(k));
        lemma_le_word_zero_tail(a.drop_first(), k);
    }
}

proof fn lemma_mix_zero()
    ensures
        mix(0, 0) == 0,
{
    assert((0u64 ^ 0u64) == 0u64) by (bit_vector);
}

/// Law: bytes that complete the last, partial 8-byte chunk of a message with zeros do not
/// change its hash.
pub proof fn law_hash_ignores_zero_padding(data: Seq<u8>, k: nat)
    requires
        data.len() % 8 != 0,
        data.len() % 8 + k <= 8,
    ensures
        spec_xxh3_64(data + zero_bytes(k)) == spec_xxh3_64(data),
{
    lemma_absorb_zero_padding(0, data, k);
}

proof fn lemma_absorb_zero_padding(h: u64, data: Seq<u8>, k: nat)
    requires
        data.len() % 8 != 0,
        data.len() % 8 + k <= 8,
    ensures
        absorb(h, data + zero_bytes(k)) == absorb(h, data),
    decreases data.len(),
{
    let d = data + zero_bytes(k);
    if data.len() < 8 {
        lemma_le_word_zero_tail(data, k);
    } else {
        assert(d.take(8) =~= data.take(8));
        assert(d.skip(8) =~= data.skip(8) + zero_bytes(k));
        assert(data.skip(8).len() % 8 == data.len() % 8) by {
            assert(data.skip(8).len() == data.len() - 8);
        }
        lemma_absorb_zero_padding(mix(h, le_word(data.take(8)) as u64), data.skip(8), k);
    }
}

/// Law: a message made only of zero bytes hashes to 0.
pub proof fn law_zero_bytes_hash_to_zero(n: nat)
    ensures
        spec_xxh3_64(zero_bytes(n)) == 0,
{
    lemma_absorb_zeros(n);
}

proof fn lemma_absorb_zeros(n: nat)
    ensures
        absorb(0, zero_bytes(n)) == 0,
    decreases n,
{
    lemma_mix_zero();
    if n > 0 {
        if n <= 8 {
            lemma_le_word_zero_tail(Seq::empty(), n);
            assert(Seq::<u8>::empty() + zero_bytes(n) =~= zero_bytes(n));
        } else {
            lemma_le_word_zero_tail(Seq::empty(), 8);
            assert(Seq::<u8>::empty() + zero_bytes(8) =~= zero_bytes(n).take(8));
            assert(zero_bytes(n).skip(8) =~= zero_bytes((n - 8) as nat));
            lemma_absorb_zeros((n - 8) as nat);
        }
    }
}

} // verus!
