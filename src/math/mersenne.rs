use vstd::prelude::*;
use rand_mt::Mt19937GenRand32;
use crate::foreign::{mt_advanced, mt_output, mt_seeded};
use crate::math::endian::u32_le;

verus! {

/// The state of a generator that started in `s` after `n` more words.
pub open spec fn mt_skip(s: Mt19937GenRand32, n: nat) -> Mt19937GenRand32
    decreases n,
{
    if n == 0 {
        s
    } else {
        mt_advanced(mt_skip(s, (n - 1) as nat))
    }
}

/// The `i`-th word (counting from 0) that a generator in state `s` yields.
pub open spec fn mt_word(s: Mt19937GenRand32, i: nat) -> u32 {
    mt_output(mt_skip(s, i))
}

/// The first `n` keystream bytes drawn from state `s`: each word is shifted right by
/// one bit and laid out little-endian, and a trailing partial group takes the low
/// bytes of one more word.
pub open spec fn int31_stream(s: Mt19937GenRand32, n: nat) -> Seq<u8> {
    Seq::new(n, |i: int| u32_le(mt_word(s, (i / 4) as nat) >> 1)[i % 4])
}

/// How many words drawing `n` keystream bytes consumes.
pub open spec fn words_for(n: nat) -> nat {
    (n + 3) / 4
}

/// Advancing a skipped state once skips one word more, and its output is the
/// next word of the stream from `s`.
pub proof fn lemma_mt_skip_step(s: Mt19937GenRand32, n: nat)
    ensures
        mt_advanced(mt_skip(s, n)) == mt_skip(s, n + 1),
        mt_output(mt_skip(s, n)) == mt_word(s, n),
        mt_skip(s, 0) == s,
{
}

/// Two generators built from the same seed yield the same keystream: the same words
/// and the same bytes, however many are drawn.
pub proof fn lemma_same_seed_same_stream(a: MersenneTwister, b: MersenneTwister, seed: u32, n: nat)
    requires
        a@ == mt_seeded(seed),
        b@ == mt_seeded(seed),
    ensures
        forall|i: nat| mt_word(a@, i) == mt_word(b@, i),
        int31_stream(a@, n) == int31_stream(b@, n),
        mt_skip(a@, n) == mt_skip(b@, n),
{
}

/// Drawing fewer keystream bytes gives a prefix of drawing more: a name's
/// eight-byte key is the start of every longer keystream from the same seed.
pub proof fn lemma_stream_prefix(s: Mt19937GenRand32, m: nat, n: nat)
    requires
        m <= n,
    ensures
        int31_stream(s, n).subrange(0, m as int) == int31_stream(s, m),
{
    assert(int31_stream(s, n).subrange(0, m as int) =~= int31_stream(s, m));
}

/// A 32-bit Mersenne twister (MT19937) seeded from one word.
pub struct MersenneTwister {
    rng: Mt19937GenRand32,
}

impl View for MersenneTwister {
    type V = Mt19937GenRand32;

    closed spec fn view(&self) -> Mt19937GenRand32 {
        self.rng
    }
}

impl MersenneTwister {
    /// A generator seeded with `seed`.
    pub fn new(seed: u32) -> (r: Self)
        ensures
            r@ == mt_seeded(seed),
    {
        MersenneTwister { rng: Mt19937GenRand32::new(seed) }
    }

    /// The next word shifted right by one bit (a non-negative 31-bit value).
    pub fn next(&mut self) -> (r: u32)
        ensures
            r == mt_word(old(self)@, 0) >> 1,
            final(self)@ == mt_skip(old(self)@, 1),
    {
        let r = self.rng.next_u32();
        proof {
            lemma_mt_skip_step(old(self)@, 0);
        }
        r >> 1
    }

    /// The next raw word.
    pub fn next_u32(&mut self) -> (r: u32)
        ensures
            r == mt_word(old(self)@, 0),
            final(self)@ == mt_skip(old(self)@, 1),
    {
        let r = self.rng.next_u32();
        proof {
            lemma_mt_skip_step(old(self)@, 0);
        }
        r
    }

    /// Two raw words joined, the first one in the high half.
    pub fn next_u64(&mut self) -> (r: u64)
        ensures
            r == (mt_word(old(self)@, 0) as u64) * 0x1_0000_0000 + mt_word(old(self)@, 1) as u64,
            final(self)@ == mt_skip(old(self)@, 2),
    {
        let high = self.rng.next_u32() as u64;
        let low = self.rng.next_u32() as u64;
        proof {
            lemma_mt_skip_step(old(self)@, 1);
        }
        assert((high << 32) | low == high * 0x1_0000_0000 + low) by (bit_vector)
            requires
                high <= 0xffff_ffff,
                low <= 0xffff_ffff,
        ;
        (high << 32) | low
    }

    /// Fills `buf` with keystream bytes, four per word (see `int31_stream`).
    pub fn next_bytes(&mut self, buf: &mut [u8])
        ensures
            final(buf)@ == int31_stream(old(self)@, old(buf)@.len()),
            final(self)@ == mt_skip(old(self)@, words_for(old(buf)@.len())),
    {
        crate::table_encryption::next_bytes(&mut self.rng, buf);
    }
}

} // verus!
