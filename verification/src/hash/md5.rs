//! The MD5 message digest: padding, the 64-step compression of each
//! 64-byte block, and the digest bytes.

use vstd::prelude::*;
use crate::HashFunction;

verus! {

/// The rotation amounts, by round and by step within a group of four.
pub const S: [[u32; 4]; 4] = [[7, 12, 17, 22], [5, 9, 14, 20], [4, 11, 16, 23], [6, 10, 15, 21]];

/// The additive constants of the 64 steps.
pub const T: [u32; 64] = [
    0xd76aa478, 0xe8c7b756, 0x242070db, 0xc1bdceee,
    0xf57c0faf, 0x4787c62a, 0xa8304613, 0xfd469501,
    0x698098d8, 0x8b44f7af, 0xffff5bb1, 0x895cd7be,
    0x6b901122, 0xfd987193, 0xa679438e, 0x49b40821,
    0xf61e2562, 0xc040b340, 0x265e5a51, 0xe9b6c7aa,
    0xd62f105d, 0x02441453, 0xd8a1e681, 0xe7d3fbc8,
    0x21e1cde6, 0xc33707d6, 0xf4d50d87, 0x455a14ed,
    0xa9e3e905, 0xfcefa3f8, 0x676f02d9, 0x8d2a4c8a,
    0xfffa3942, 0x8771f681, 0x6d9d6122, 0xfde5380c,
    0xa4beea44, 0x4bdecfa9, 0xf6bb4b60, 0xbebfbc70,
    0x289b7ec6, 0xeaa127fa, 0xd4ef3085, 0x04881d05,
    0xd9d4d039, 0xe6db99e5, 0x1fa27cf8, 0xc4ac5665,
    0xf4292244, 0x432aff97, 0xab9423a7, 0xfc93a039,
    0x655b59c3, 0x8f0ccc92, 0xffeff47d, 0x85845dd1,
    0x6fa87e4f, 0xfe2ce6e0, 0xa3014314, 0x4e0811a1,
    0xf7537e82, 0xbd3af235, 0x2ad7d2bb, 0xeb86d391,
];

/// Which word of the block each step of each round reads.
pub const X: [[u32; 16]; 4] = [
    [0, 1, 2, 3, 4, 5, 6, 7, 8, 9, 10, 11, 12, 13, 14, 15],
    [1, 6, 11, 0, 5, 10, 15, 4, 9, 14, 3, 8, 13, 2, 7, 12],
    [5, 8, 11, 14, 1, 4, 7, 10, 13, 0, 3, 6, 9, 12, 15, 2],
    [0, 7, 14, 5, 12, 3, 10, 1, 8, 15, 6, 13, 4, 11, 2, 9],
];

/// The chaining value that the first block starts from.
pub open spec fn initial_state() -> (u32, u32, u32, u32) {
    (0x67452301u32, 0xefcdab89u32, 0x98badcfeu32, 0x10325476u32)
}

/// The auxiliary function of a round: a bitwise choice, a choice with the
/// roles swapped, a parity, and a fourth mixing function.
pub open spec fn aux(round: int, x: u32, y: u32, z: u32) -> u32 {
    if round == 0 {
        (x & y) | (!x & z)
    } else if round == 1 {
        (x & z) | (y & !z)
    } else if round == 2 {
        x ^ y ^ z
    } else {
        y ^ (x | !z)
    }
}

/// A 32-bit word rotated left by `s` bits, for `0 < s < 32`.
pub open spec fn rotl(v: u32, s: u32) -> u32 {
    (v << s) | (v >> ((32 - s) as u32))
}

/// What a step adds to `b`: the rotated sum of `a`, the auxiliary function of
/// the round, a message word and the step's constant.
pub open spec fn step_term(round: int, a: u32, b: u32, c: u32, d: u32, x: u32, i: int) -> u32 {
    rotl(a.wrapping_add(aux(round, b, c, d)).wrapping_add(x).wrapping_add(T[i]), S[round][i % 4])
}

/// The chaining value after step `i` of a block.
pub open spec fn step(st: (u32, u32, u32, u32), words: Seq<u32>, i: int) -> (u32, u32, u32, u32) {
    let round = i / 16;
    let x = words[X[round][i % 16] as int];
    (st.3, st.1.wrapping_add(step_term(round, st.0, st.1, st.2, st.3, x, i)), st.1, st.2)
}

/// The chaining value after the first `n` steps of a block.
pub open spec fn steps(st: (u32, u32, u32, u32), words: Seq<u32>, n: nat) -> (u32, u32, u32, u32)
    decreases n,
{
    if n == 0 {
        st
    } else {
        step(steps(st, words, (n - 1) as nat), words, n - 1)
    }
}

/// The chaining value after a whole block: 64 steps, then the value that the
/// block started from added in.
pub open spec fn compress(st: (u32, u32, u32, u32), words: Seq<u32>) -> (u32, u32, u32, u32) {
    let out = steps(st, words, 64);
    (
        out.0.wrapping_add(st.0),
        out.1.wrapping_add(st.1),
        out.2.wrapping_add(st.2),
        out.3.wrapping_add(st.3),
    )
}

/// The little-endian word of the four bytes at `at`.
pub open spec fn le_word(bytes: Seq<u8>, at: int) -> u32 {
    (bytes[at] as u32) | ((bytes[at + 1] as u32) << 8) | ((bytes[at + 2] as u32) << 16) | ((
    bytes[at + 3] as u32) << 24)
}

/// The sixteen words of the 64-byte block that starts at `at`.
pub open spec fn block_words(bytes: Seq<u8>, at: int) -> Seq<u32> {
    Seq::new(16, |j: int| le_word(bytes, at + 4 * j))
}

/// The chaining value after the first `n` blocks of `bytes`.
pub open spec fn process(bytes: Seq<u8>, n: nat) -> (u32, u32, u32, u32)
    decreases n,
{
    if n == 0 {
        initial_state()
    } else {
        compress(process(bytes, (n - 1) as nat), block_words(bytes, 64 * (n - 1)))
    }
}

/// How many zero bytes follow the 0x80 byte, so that the length field ends
/// a block.
pub open spec fn pad_zeros(len: nat) -> nat {
    ((119 - len % 64) % 64) as nat
}

/// Byte `k` of a 64-bit value, least significant first.
pub open spec fn le_byte(v: u64, k: int) -> u8 {
    ((v >> ((8 * k) as u64)) & 0xff) as u8
}

/// The length of the message in bits, modulo 2^64.
pub open spec fn bit_length(len: nat) -> u64 {
    ((len * 8) % 0x1_0000_0000_0000_0000) as u64
}

/// The message followed by its padding: 0x80, zeros, and the bit length in
/// eight little-endian bytes.
pub open spec fn padded(msg: Seq<u8>) -> Seq<u8> {
    msg + seq![0x80u8] + Seq::new(pad_zeros(msg.len()), |k: int| 0u8) + Seq::new(
        8,
        |k: int| le_byte(bit_length(msg.len()), k),
    )
}

/// Byte `k` of a 32-bit word, least significant first.
pub open spec fn word_byte(v: u32, k: int) -> u8 {
    ((v >> ((8 * k) as u32)) & 0xff) as u8
}

/// The sixteen bytes of a chaining value, each word least significant byte
/// first.
pub open spec fn state_bytes(st: (u32, u32, u32, u32)) -> Seq<u8> {
    Seq::new(
        16,
        |i: int|
            word_byte(
                if i / 4 == 0 {
                    st.0
                } else if i / 4 == 1 {
                    st.1
                } else if i / 4 == 2 {
                    st.2
                } else {
                    st.3
                },
                i % 4,
            ),
    )
}

/// The MD5 digest of a message.
pub open spec fn md5(msg: Seq<u8>) -> Seq<u8> {
    state_bytes(process(padded(msg), padded(msg).len() / 64))
}

/// The MD5 hash function. It holds no state between inputs.
#[derive(Clone, Copy, Debug, PartialEq, Eq, Structural)]
pub struct MessageDigestAlgorithm {}

impl MessageDigestAlgorithm {
    pub fn new() -> (md5: MessageDigestAlgorithm)
        ensures
            md5 == (MessageDigestAlgorithm {  }),
    {
        MessageDigestAlgorithm {  }
    }

    /// The auxiliary function of the first round: `y` where `x` is set, else `z`.
    pub fn f(x: u32, y: u32, z: u32) -> (r: u32)
        ensures
            r == aux(0, x, y, z),
    {
        (x & y) | (!x & z)
    }

    /// The auxiliary function of the second round: `x` where `z` is set, else
    /// `y`.
    pub fn g(x: u32, y: u32, z: u32) -> (r: u32)
        ensures
            r == aux(1, x, y, z),
    {
        (x & z) | (y & !z)
    }

    /// The auxiliary function of the third round: the parity of the three.
    pub fn h(x: u32, y: u32, z: u32) -> (r: u32)
        ensures
            r == aux(2, x, y, z),
    {
        x ^ y ^ z
    }

    /// The auxiliary function of the fourth round.
    pub fn i(x: u32, y: u32, z: u32) -> (r: u32)
        ensures
            r == aux(3, x, y, z),
    {
        y ^ (x | !z)
    }

    /// What a step of the first round adds to `b`.
    fn round1(a: u32, b: u32, c: u32, d: u32, x: u32, i: u32) -> (r: u32)
        requires
            i < 64,
        ensures
            r == step_term(0, a, b, c, d, x, i as int),
    {
        let t: u32 = T[i as usize];
        let s: u32 = S[0][(i % 4) as usize];
        rotate_left(a.wrapping_add(Self::f(b, c, d)).wrapping_add(x).wrapping_add(t), s)
    }

    /// What a step of the second round adds to `b`.
    fn round2(a: u32, b: u32, c: u32, d: u32, x: u32, i: u32) -> (r: u32)
        requires
            i < 64,
        ensures
            r == step_term(1, a, b, c, d, x, i as int),
    {
        let t: u32 = T[i as usize];
        let s: u32 = S[1][(i % 4) as usize];
        rotate_left(a.wrapping_add(Self::g(b, c, d)).wrapping_add(x).wrapping_add(t), s)
    }

    /// What a step of the third round adds to `b`.
    fn round3(a: u32, b: u32, c: u32, d: u32, x: u32, i: u32) -> (r: u32)
        requires
            i < 64,
        ensures
            r == step_term(2, a, b, c, d, x, i as int),
    {
        let t: u32 = T[i as usize];
        let s: u32 = S[2][(i % 4) as usize];
        rotate_left(a.wrapping_add(Self::h(b, c, d)).wrapping_add(x).wrapping_add(t), s)
    }

    /// What a step of the fourth round adds to `b`.
    fn round4(a: u32, b: u32, c: u32, d: u32, x: u32, i: u32) -> (r: u32)
        requires
            i < 64,
        ensures
            r == step_term(3, a, b, c, d, x, i as int),
    {
        let t: u32 = T[i as usize];
        let s: u32 = S[3][(i % 4) as usize];
        rotate_left(a.wrapping_add(Self::i(b, c, d)).wrapping_add(x).wrapping_add(t), s)
    }
}

impl Default for MessageDigestAlgorithm {
    fn default() -> (md5: Self)
        ensures
            md5 == (MessageDigestAlgorithm {  }),
    {
        Self::new()
    }
}

/// Rotates a word left by one of the amounts that the steps use.
fn rotate_left(v: u32, s: u32) -> (r: u32)
    requires
        0 < s < 32,
    ensures
        r == rotl(v, s),
{
    (v << s) | (v >> (32 - s))
}

/// Appends the four bytes of a word, least significant first.
fn push_word(out: &mut Vec<u8>, v: u32)
    ensures
        final(out)@ == old(out)@ + Seq::new(4, |k: int| word_byte(v, k)),
{
    out.push(#[verifier::truncate] ((v & 0xff) as u8));
    out.push(#[verifier::truncate] (((v >> 8) & 0xff) as u8));
    out.push(#[verifier::truncate] (((v >> 16) & 0xff) as u8));
    out.push(#[verifier::truncate] (((v >> 24) & 0xff) as u8));
    assert(v >> 0 == v) by (bit_vector);
}

/// Reads the little-endian word of the four bytes at `at`.
fn read_word(bytes: &Vec<u8>, at: usize) -> (w: u32)
    requires
        at + 4 <= bytes.len(),
    ensures
        w == le_word(bytes@, at as int),
{
    (bytes[at] as u32) | ((bytes[at + 1] as u32) << 8) | ((bytes[at + 2] as u32) << 16) | ((
    bytes[at + 3] as u32) << 24)
}

impl HashFunction for MessageDigestAlgorithm {
    open spec fn digest(&self, input: Seq<u8>) -> Seq<u8> {
        md5(input)
    }

    fn hash(&mut self, input: &[u8]) -> (output: Vec<u8>) {
        let mut input_vec: Vec<u8> = Vec::new();
        let mut n: usize = 0;
        while n < input.len()
            invariant
                n <= input@.len(),
                input_vec@ == input@.subrange(0, n as int),
            decreases input@.len() - n,
        {
            input_vec.push(input[n]);
            assert(input@.subrange(0, n + 1) =~= input@.subrange(0, n as int).push(
                input@[n as int],
            ));
            n += 1;
        }
        let length: u64 = (input_vec.len() as u64).wrapping_mul(8);
        input_vec.push(0x80);
        let ghost mut zeros: nat = 0;
        assert(input_vec@ =~= input@ + seq![0x80u8] + Seq::new(zeros, |k: int| 0u8));
        while input_vec.len() % 64 != 56
            invariant
                zeros <= pad_zeros(input@.len()),
                input_vec@ == input@ + seq![0x80u8] + Seq::new(zeros, |k: int| 0u8),
            decreases pad_zeros(input@.len()) - zeros,
        {
            input_vec.push(0x00);
            proof {
                zeros = zeros + 1;
            }
        }
        let ghost head = input_vec@;
        let mut k: u64 = 0;
        while k < 8
            invariant
                k <= 8,
                input_vec@ == head + Seq::new(k as nat, |j: int| le_byte(length, j)),
            decreases 8 - k,
        {
            input_vec.push(#[verifier::truncate] (((length >> (8 * k)) & 0xff) as u8));
            k += 1;
        }

        let mut a: u32 = 0x67452301u32;
        let mut b: u32 = 0xefcdab89u32;
        let mut c: u32 = 0x98badcfeu32;
        let mut d: u32 = 0x10325476u32;
        let mut i: usize = 0;
        while i < input_vec.len()
            invariant
                i <= input_vec@.len(),
                i % 64 == 0,
                input_vec@.len() % 64 == 0,
                (a, b, c, d) == process(input_vec@, (i / 64) as nat),
            decreases input_vec@.len() - i,
        {
            let aa: u32 = a;
            let bb: u32 = b;
            let cc: u32 = c;
            let dd: u32 = d;
            let mut x: [u32; 16] = [0u32; 16];
            let mut w: usize = 0;
            while w < 16
                invariant
                    w <= 16,
                    i + 64 <= input_vec.len(),
                    forall|m: int| 0 <= m < w ==> x[m] == le_word(input_vec@, i + 4 * m),
                decreases 16 - w,
            {
                x[w] = read_word(&input_vec, i + w * 4);
                w += 1;
            }
            assert(x@ =~= block_words(input_vec@, i as int));
            let mut step: u32 = 0;

            let mut j: usize = 0;
            while j < 16
                invariant
                    j <= 16,
                    step == 0 + j,
                    (a, b, c, d) == steps((aa, bb, cc, dd), x@, step as nat),
                decreases 16 - j,
            {
                let x_i: usize = X[0][j] as usize;
                let temp: u32 = Self::round1(a, b, c, d, x[x_i], step);
                a = d;
                d = c;
                c = b;
                b = b.wrapping_add(temp);
                step += 1;
                j += 1;
            }

            let mut j: usize = 0;
            while j < 16
                invariant
                    j <= 16,
                    step == 16 + j,
                    (a, b, c, d) == steps((aa, bb, cc, dd), x@, step as nat),
                decreases 16 - j,
            {
                let x_i: usize = X[1][j] as usize;
                let temp: u32 = Self::round2(a, b, c, d, x[x_i], step);
                a = d;
                d = c;
                c = b;
                b = b.wrapping_add(temp);
                step += 1;
                j += 1;
            }

            let mut j: usize = 0;
            while j < 16
                invariant
                    j <= 16,
                    step == 32 + j,
                    (a, b, c, d) == steps((aa, bb, cc, dd), x@, step as nat),
                decreases 16 - j,
            {
                let x_i: usize = X[2][j] as usize;
                let temp: u32 = Self::round3(a, b, c, d, x[x_i], step);
                a = d;
                d = c;
                c = b;
                b = b.wrapping_add(temp);
                step += 1;
                j += 1;
            }

            let mut j: usize = 0;
            while j < 16
                invariant
                    j <= 16,
                    step == 48 + j,
                    (a, b, c, d) == steps((aa, bb, cc, dd), x@, step as nat),
                decreases 16 - j,
            {
                let x_i: usize = X[3][j] as usize;
                let temp: u32 = Self::round4(a, b, c, d, x[x_i], step);
                a = d;
                d = c;
                c = b;
                b = b.wrapping_add(temp);
                step += 1;
                j += 1;
            }

            a = a.wrapping_add(aa);
            b = b.wrapping_add(bb);
            c = c.wrapping_add(cc);
            d = d.wrapping_add(dd);
            i += 64;
        }
        assert(i == input_vec@.len());

        let mut result: Vec<u8> = Vec::new();
        push_word(&mut result, a);
        push_word(&mut result, b);
        push_word(&mut result, c);
        push_word(&mut result, d);
        result
    }
}

} // verus!
