//! AES-128 on a single block, with the state held as four rows of four bytes.
//!
//! A 16-byte block is laid into the state row by row: the byte at offset
//! `4 * r + c` sits in row `r`, column `c`. The round transformations are
//! defined against that layout.

use vstd::prelude::*;
use crate::galois::gf_mul;
use crate::galois::lemma_gf_mul_distributes;
use crate::galois_multiplication;
use crate::AdvancedEncryptionStandard;
use crate::Cipher;
use crate::ContractViolation;

verus! {

/// The byte substitution table, indexed by the high and the low nibble.
pub const SBOX: [[u8; 16]; 16] = [
    [0x63, 0x7c, 0x77, 0x7b, 0xf2, 0x6b, 0x6f, 0xc5, 0x30, 0x01, 0x67, 0x2b, 0xfe, 0xd7, 0xab, 0x76],
    [0xca, 0x82, 0xc9, 0x7d, 0xfa, 0x59, 0x47, 0xf0, 0xad, 0xd4, 0xa2, 0xaf, 0x9c, 0xa4, 0x72, 0xc0],
    [0xb7, 0xfd, 0x93, 0x26, 0x36, 0x3f, 0xf7, 0xcc, 0x34, 0xa5, 0xe5, 0xf1, 0x71, 0xd8, 0x31, 0x15],
    [0x04, 0xc7, 0x23, 0xc3, 0x18, 0x96, 0x05, 0x9a, 0x07, 0x12, 0x80, 0xe2, 0xeb, 0x27, 0xb2, 0x75],
    [0x09, 0x83, 0x2c, 0x1a, 0x1b, 0x6e, 0x5a, 0xa0, 0x52, 0x3b, 0xd6, 0xb3, 0x29, 0xe3, 0x2f, 0x84],
    [0x53, 0xd1, 0x00, 0xed, 0x20, 0xfc, 0xb1, 0x5b, 0x6a, 0xcb, 0xbe, 0x39, 0x4a, 0x4c, 0x58, 0xcf],
    [0xd0, 0xef, 0xaa, 0xfb, 0x43, 0x4d, 0x33, 0x85, 0x45, 0xf9, 0x02, 0x7f, 0x50, 0x3c, 0x9f, 0xa8],
    [0x51, 0xa3, 0x40, 0x8f, 0x92, 0x9d, 0x38, 0xf5, 0xbc, 0xb6, 0xda, 0x21, 0x10, 0xff, 0xf3, 0xd2],
    [0xcd, 0x0c, 0x13, 0xec, 0x5f, 0x97, 0x44, 0x17, 0xc4, 0xa7, 0x7e, 0x3d, 0x64, 0x5d, 0x19, 0x73],
    [0x60, 0x81, 0x4f, 0xdc, 0x22, 0x2a, 0x90, 0x88, 0x46, 0xee, 0xb8, 0x14, 0xde, 0x5e, 0x0b, 0xdb],
    [0xe0, 0x32, 0x3a, 0x0a, 0x49, 0x06, 0x24, 0x5c, 0xc2, 0xd3, 0xac, 0x62, 0x91, 0x95, 0xe4, 0x79],
    [0xe7, 0xc8, 0x37, 0x6d, 0x8d, 0xd5, 0x4e, 0xa9, 0x6c, 0x56, 0xf4, 0xea, 0x65, 0x7a, 0xae, 0x08],
    [0xba, 0x78, 0x25, 0x2e, 0x1c, 0xa6, 0xb4, 0xc6, 0xe8, 0xdd, 0x74, 0x1f, 0x4b, 0xbd, 0x8b, 0x8a],
    [0x70, 0x3e, 0xb5, 0x66, 0x48, 0x03, 0xf6, 0x0e, 0x61, 0x35, 0x57, 0xb9, 0x86, 0xc1, 0x1d, 0x9e],
    [0xe1, 0xf8, 0x98, 0x11, 0x69, 0xd9, 0x8e, 0x94, 0x9b, 0x1e, 0x87, 0xe9, 0xce, 0x55, 0x28, 0xdf],
    [0x8c, 0xa1, 0x89, 0x0d, 0xbf, 0xe6, 0x42, 0x68, 0x41, 0x99, 0x2d, 0x0f, 0xb0, 0x54, 0xbb, 0x16],
];

/// The round constants of the key expansion: the powers of x in GF(2^8).
pub const RCON: [u8; 10] = [0x01, 0x02, 0x04, 0x08, 0x10, 0x20, 0x40, 0x80, 0x1B, 0x36];

/// The substitute of one byte.
pub open spec fn sbox(b: u8) -> u8 {
    SBOX[(b >> 4) as int][(b & 0x0F) as int]
}

/// An array of four-byte words as a sequence of sequences.
pub open spec fn words<const N: usize>(a: [[u8; 4]; N]) -> Seq<Seq<u8>> {
    Seq::new(N as nat, |i: int| a[i]@)
}

/// Every byte replaced by its substitute.
pub open spec fn sub_bytes_spec(s: Seq<Seq<u8>>) -> Seq<Seq<u8>> {
    Seq::new(4, |r: int| Seq::new(4, |c: int| sbox(s[r][c])))
}

/// Column `c` rotated upwards by `c` rows.
pub open spec fn shift_rows_spec(s: Seq<Seq<u8>>) -> Seq<Seq<u8>> {
    Seq::new(4, |r: int| Seq::new(4, |c: int| s[(r + c) % 4][c]))
}

/// One byte of a diffused group: the product of a row of the circulant matrix
/// with first row `2 3 1 1` and the group, over GF(2^8).
pub open spec fn mix_byte(g: Seq<u8>, k: int) -> u8 {
    if k == 0 {
        gf_mul(2, g[0]) ^ gf_mul(3, g[1]) ^ g[2] ^ g[3]
    } else if k == 1 {
        g[0] ^ gf_mul(2, g[1]) ^ gf_mul(3, g[2]) ^ g[3]
    } else if k == 2 {
        g[0] ^ g[1] ^ gf_mul(2, g[2]) ^ gf_mul(3, g[3])
    } else {
        gf_mul(3, g[0]) ^ g[1] ^ g[2] ^ gf_mul(2, g[3])
    }
}

/// Every four-byte group of the state diffused on its own.
pub open spec fn mix_columns_spec(s: Seq<Seq<u8>>) -> Seq<Seq<u8>> {
    Seq::new(4, |g: int| Seq::new(4, |k: int| mix_byte(s[g], k)))
}

/// The state XORed with the four words of round key `round`.
pub open spec fn add_round_key_spec(s: Seq<Seq<u8>>, table: Seq<Seq<u8>>, round: int) -> Seq<
    Seq<u8>,
> {
    Seq::new(4, |r: int| Seq::new(4, |c: int| s[r][c] ^ table[4 * round + r][c]))
}

/// A word rotated left by one byte.
pub open spec fn rot_word(w: Seq<u8>) -> Seq<u8> {
    Seq::new(4, |j: int| w[(j + 1) % 4])
}

/// A word with every byte substituted.
pub open spec fn sub_word(w: Seq<u8>) -> Seq<u8> {
    Seq::new(4, |j: int| sbox(w[j]))
}

/// The bytewise XOR of two words.
pub open spec fn xor_word(a: Seq<u8>, b: Seq<u8>) -> Seq<u8> {
    Seq::new(4, |j: int| a[j] ^ b[j])
}

/// A word with the round constant of expansion step `i` added to its first
/// byte.
pub open spec fn add_rcon(w: Seq<u8>, i: int) -> Seq<u8> {
    Seq::new(4, |j: int| if j == 0 { w[0] ^ RCON[i / 4 - 1] } else { w[j] })
}

/// What expansion step `i` makes of the previous word before it is XORed
/// with the word four places back.
pub open spec fn schedule_temp(prev: Seq<u8>, i: int) -> Seq<u8> {
    if i % 4 == 0 {
        add_rcon(sub_word(rot_word(prev)), i)
    } else {
        prev
    }
}

/// Word `i` of the schedule expanded from `key`.
pub open spec fn schedule_word(key: Seq<Seq<u8>>, i: nat) -> Seq<u8>
    decreases i,
{
    if i < 4 {
        key[i as int]
    } else {
        xor_word(
            schedule_word(key, (i - 4) as nat),
            schedule_temp(schedule_word(key, (i - 1) as nat), i as int),
        )
    }
}

/// The 44 words of the schedule expanded from a key of four words.
pub open spec fn key_schedule_spec(key: Seq<Seq<u8>>) -> Seq<Seq<u8>> {
    Seq::new(44, |i: int| schedule_word(key, i as nat))
}

/// Sixteen bytes laid into four rows of four, row by row.
pub open spec fn load_spec(block: Seq<u8>) -> Seq<Seq<u8>> {
    Seq::new(4, |r: int| Seq::new(4, |c: int| block[4 * r + c]))
}

/// The rows of a state written out one after the other.
pub open spec fn store_spec(s: Seq<Seq<u8>>) -> Seq<u8> {
    Seq::new(16, |i: int| s[i / 4][i % 4])
}

/// A full round: substitution, row permutation, diffusion, key mixing.
pub open spec fn full_round(s: Seq<Seq<u8>>, table: Seq<Seq<u8>>, round: int) -> Seq<Seq<u8>> {
    add_round_key_spec(mix_columns_spec(shift_rows_spec(sub_bytes_spec(s))), table, round)
}

/// The state after the initial key mixing and `n` full rounds, which use the
/// round keys 0 to `n` in that order.
pub open spec fn after_rounds(s: Seq<Seq<u8>>, table: Seq<Seq<u8>>, n: nat) -> Seq<Seq<u8>>
    decreases n,
{
    if n == 0 {
        add_round_key_spec(s, table, 0)
    } else {
        full_round(after_rounds(s, table, (n - 1) as nat), table, n as int)
    }
}

/// The last round, which has no diffusion step and uses round key 10.
pub open spec fn final_round(s: Seq<Seq<u8>>, table: Seq<Seq<u8>>) -> Seq<Seq<u8>> {
    add_round_key_spec(shift_rows_spec(sub_bytes_spec(s)), table, 10)
}

/// The cipher on a state: key mixing, nine full rounds, the last round.
pub open spec fn cipher_spec(s: Seq<Seq<u8>>, table: Seq<Seq<u8>>) -> Seq<Seq<u8>> {
    final_round(after_rounds(s, table, 9), table)
}

/// The ciphertext block of a 16-byte block under a table of round keys.
pub open spec fn encrypt_spec(table: Seq<Seq<u8>>, block: Seq<u8>) -> Seq<u8> {
    store_spec(cipher_spec(load_spec(block), table))
}

/// Looks a byte up in the substitution table.
pub fn substitute(b: u8) -> (r: u8)
    ensures
        r == sbox(b),
{
    assert((b >> 4) < 16 && (b & 0x0F) < 16) by (bit_vector);
    let row: usize = (b >> 4) as usize;
    let col: usize = (b & 0x0F) as usize;
    SBOX[row][col]
}

/// An AES-128 instance: the 44 words of round keys, which no operation
/// changes.
pub struct AdvancedEncryptionStandard128Bit {
    round_keys: [[u8; 4]; 44],
}

impl AdvancedEncryptionStandard128Bit {
    /// Expands a 16-byte key into the round keys of a cipher instance.
    pub fn new(key: &[u8]) -> (result: Result<Self, ContractViolation>)
        ensures
            key@.len() == 16 ==> (result matches Ok(cipher) && cipher.round_key_table()
                == key_schedule_spec(load_spec(key@))),
            key@.len() != 16 ==> result == Err::<Self, ContractViolation>(
                ContractViolation::KeyLength,
            ),
    {
        if key.len() != 16 {
            return Err(ContractViolation::KeyLength);
        }
        let words: [[u8; 4]; 4] = load(key);
        Ok(AdvancedEncryptionStandard128Bit { round_keys: Self::key_schedule(words) })
    }

    /// A cipher instance that holds the given round keys as they are.
    pub fn from_round_keys(round_keys: [[u8; 4]; 44]) -> (cipher: Self)
        ensures
            cipher.round_key_table() == words(round_keys),
    {
        AdvancedEncryptionStandard128Bit { round_keys }
    }

    /// The round keys that the instance holds.
    pub fn round_keys(&self) -> (round_keys: [[u8; 4]; 44])
        ensures
            words(round_keys) == self.round_key_table(),
    {
        self.round_keys
    }

    /// Runs the rounds of the cipher on a state and returns how many round
    /// keys were mixed in: each of the eleven once, in increasing order.
    pub fn cipher(&mut self, state: &mut [[u8; 4]; 4]) -> (rounds: usize)
        ensures
            rounds == 11,
            words(*final(state)) == cipher_spec(words(*old(state)), old(self).round_key_table()),
            *final(self) == *old(self),
    {
        let ghost start = words(*state);
        let ghost table = self.round_key_table();
        let mut round: usize = 0;
        self.add_round_key(state, &mut round);
        let mut n: usize = 0;
        while n < 9
            invariant
                n <= 9,
                round == n + 1,
                *self == *old(self),
                table == self.round_key_table(),
                words(*state) == after_rounds(start, table, n as nat),
            decreases 9 - n,
        {
            self.sub_bytes(state);
            self.shift_rows(state);
            self.mix_columns(state);
            self.add_round_key(state, &mut round);
            n += 1;
        }
        self.sub_bytes(state);
        self.shift_rows(state);
        self.add_round_key(state, &mut round);
        round
    }

    /// Encrypts one block, or reports that the input is not one block.
    pub fn encrypt_block(&mut self, block: &[u8]) -> (result: Result<Vec<u8>, ContractViolation>)
        ensures
            block@.len() == 16 ==> (result matches Ok(output) && output@ == encrypt_spec(
                old(self).round_key_table(),
                block@,
            )),
            block@.len() != 16 ==> result == Err::<Vec<u8>, ContractViolation>(
                ContractViolation::BlockLength,
            ),
            *final(self) == *old(self),
    {
        if block.len() != 16 {
            return Err(ContractViolation::BlockLength);
        }
        Ok(self.encrypt(block))
    }
}

/// Lays sixteen bytes into four rows of four.
fn load(block: &[u8]) -> (state: [[u8; 4]; 4])
    requires
        block@.len() == 16,
    ensures
        words(state) == load_spec(block@),
{
    let mut state: [[u8; 4]; 4] = [[0u8; 4]; 4];
    let mut i: usize = 0;
    while i < 4
        invariant
            i <= 4,
            block@.len() == 16,
            forall|r: int, c: int| 0 <= r < i && 0 <= c < 4 ==> state[r][c] == block@[4 * r + c],
        decreases 4 - i,
    {
        let mut ii: usize = 0;
        while ii < 4
            invariant
                i < 4,
                ii <= 4,
                block@.len() == 16,
                forall|r: int, c: int|
                    0 <= r < i && 0 <= c < 4 ==> state[r][c] == block@[4 * r + c],
                forall|c: int| 0 <= c < ii ==> state[i as int][c] == block@[4 * i + c],
            decreases 4 - ii,
        {
            state[i][ii] = block[i * 4 + ii];
            ii += 1;
        }
        i += 1;
    }
    assert(words(state) =~~= load_spec(block@));
    state
}

/// Writes the rows of a state out one after the other.
fn store(state: &[[u8; 4]; 4]) -> (block: Vec<u8>)
    ensures
        block@ == store_spec(words(*state)),
{
    let mut block: Vec<u8> = Vec::new();
    let mut i: usize = 0;
    while i < 4
        invariant
            i <= 4,
            block@.len() == 4 * i,
            forall|k: int| 0 <= k < 4 * i ==> block@[k] == state[k / 4][k % 4],
        decreases 4 - i,
    {
        let mut ii: usize = 0;
        while ii < 4
            invariant
                i < 4,
                ii <= 4,
                block@.len() == 4 * i + ii,
                forall|k: int| 0 <= k < 4 * i + ii ==> block@[k] == state[k / 4][k % 4],
            decreases 4 - ii,
        {
            block.push(state[i][ii]);
            ii += 1;
        }
        i += 1;
    }
    block
}

impl Cipher for AdvancedEncryptionStandard128Bit {
    /// Encryption takes one block of sixteen bytes.
    open spec fn encrypt_accepts(&self, input: Seq<u8>) -> bool {
        input.len() == 16
    }

    /// The ciphertext block under the round keys of the instance.
    open spec fn encrypted(&self, input: Seq<u8>) -> Seq<u8> {
        encrypt_spec(self.round_key_table(), input)
    }

    /// Decryption takes any input.
    open spec fn decrypt_accepts(&self, input: Seq<u8>) -> bool {
        true
    }

    /// Decryption is not the inverse cipher: it hands the input back.
    open spec fn decrypted(&self, input: Seq<u8>) -> Seq<u8> {
        input
    }

    fn encrypt(&mut self, input: &[u8]) -> (output: Vec<u8>) {
        let mut state: [[u8; 4]; 4] = load(input);
        let _rounds: usize = self.cipher(&mut state);
        store(&state)
    }

    fn decrypt(&mut self, input: &[u8]) -> (output: Vec<u8>) {
        let mut output: Vec<u8> = Vec::new();
        let mut i: usize = 0;
        while i < input.len()
            invariant
                i <= input@.len(),
                output@ == input@.subrange(0, i as int),
            decreases input@.len() - i,
        {
            output.push(input[i]);
            i += 1;
        }
        output
    }
}

impl AdvancedEncryptionStandard for AdvancedEncryptionStandard128Bit {
    closed spec fn round_key_table(&self) -> Seq<Seq<u8>> {
        words(self.round_keys)
    }

    fn key_schedule(key: [[u8; 4]; 4]) -> (round_keys: [[u8; 4]; 44]) {
        let mut round_keys: [[u8; 4]; 44] = [[0u8; 4]; 44];
        let mut i: usize = 0;
        while i < 4
            invariant
                i <= 4,
                forall|k: int| 0 <= k < i ==> round_keys[k] == key[k],
            decreases 4 - i,
        {
            round_keys[i] = key[i];
            i += 1;
        }
        while i < 44
            invariant
                4 <= i <= 44,
                forall|k: int|
                    0 <= k < i ==> round_keys[k]@ =~= #[trigger] schedule_word(
                        words(key),
                        k as nat,
                    ),
            decreases 44 - i,
        {
            let prev: [u8; 4] = round_keys[i - 1];
            let back: [u8; 4] = round_keys[i - 4];
            let mut temp: [u8; 4] = prev;
            assert(prev@ =~= schedule_word(words(key), (i - 1) as nat));
            assert(back@ =~= schedule_word(words(key), (i - 4) as nat));
            if i % 4 == 0 {
                temp = [prev[1], prev[2], prev[3], prev[0]];
                let mut j: usize = 0;
                while j < 4
                    invariant
                        j <= 4,
                        forall|k: int| 0 <= k < j ==> temp[k] == sbox(rot_word(prev@)[k]),
                        forall|k: int| j <= k < 4 ==> temp[k] == rot_word(prev@)[k],
                    decreases 4 - j,
                {
                    temp[j] = substitute(temp[j]);
                    j += 1;
                }
                temp[0] = temp[0] ^ RCON[i / 4 - 1];
            }
            let mut word: [u8; 4] = [0u8; 4];
            let mut j: usize = 0;
            while j < 4
                invariant
                    j <= 4,
                    forall|k: int| 0 <= k < j ==> word[k] == back[k] ^ temp[k],
                decreases 4 - j,
            {
                word[j] = back[j] ^ temp[j];
                j += 1;
            }
            round_keys[i] = word;
            i += 1;
        }
        round_keys
    }

    fn add_round_key(&mut self, state: &mut [[u8; 4]; 4], round: &mut usize) {
        let ghost before = *state;
        let base: usize = *round * 4;
        let mut i: usize = 0;
        while i < 4
            invariant
                i <= 4,
                base + 4 <= 44,
                *self == *old(self),
                forall|r: int, c: int|
                    0 <= r < i && 0 <= c < 4 ==> state[r][c] == before[r][c]
                        ^ self.round_keys[base + r][c],
                forall|r: int, c: int| i <= r < 4 && 0 <= c < 4 ==> state[r][c] == before[r][c],
            decreases 4 - i,
        {
            let mut ii: usize = 0;
            while ii < 4
                invariant
                    i < 4,
                    ii <= 4,
                    base + 4 <= 44,
                    *self == *old(self),
                    forall|r: int, c: int|
                        0 <= r < i && 0 <= c < 4 ==> state[r][c] == before[r][c]
                            ^ self.round_keys[base + r][c],
                    forall|r: int, c: int|
                        i < r < 4 && 0 <= c < 4 ==> state[r][c] == before[r][c],
                    forall|c: int|
                        0 <= c < ii ==> state[i as int][c] == before[i as int][c]
                            ^ self.round_keys[base + i][c],
                    forall|c: int| ii <= c < 4 ==> state[i as int][c] == before[i as int][c],
                decreases 4 - ii,
            {
                state[i][ii] = state[i][ii] ^ self.round_keys[base + i][ii];
                ii += 1;
            }
            i += 1;
        }
        assert(words(*state) =~~= add_round_key_spec(
            words(before),
            self.round_key_table(),
            *round as int,
        ));
        *round += 1;
    }

    fn mix_columns(&mut self, state: &mut [[u8; 4]; 4]) {
        let mut temp: [[u8; 4]; 4] = [[0u8; 4]; 4];
        let mut c: usize = 0;
        while c < 4
            invariant
                c <= 4,
                forall|g: int, k: int|
                    0 <= g < c && 0 <= k < 4 ==> temp[g][k] == mix_byte(state[g]@, k),
            decreases 4 - c,
        {
            let s: [u8; 4] = state[c];
            let t0: u8 = galois_multiplication(0x02, s[0]) ^ galois_multiplication(0x03, s[1])
                ^ s[2] ^ s[3];
            let t1: u8 = s[0] ^ galois_multiplication(0x02, s[1]) ^ galois_multiplication(
                0x03,
                s[2],
            ) ^ s[3];
            let t2: u8 = s[0] ^ s[1] ^ galois_multiplication(0x02, s[2]) ^ galois_multiplication(
                0x03,
                s[3],
            );
            let t3: u8 = galois_multiplication(0x03, s[0]) ^ s[1] ^ s[2] ^ galois_multiplication(
                0x02,
                s[3],
            );
            temp[c] = [t0, t1, t2, t3];
            c += 1;
        }
        assert(words(temp) =~~= mix_columns_spec(words(*state)));
        *state = temp;
    }

    fn shift_rows(&mut self, state: &mut [[u8; 4]; 4]) {
        let mut temp: [[u8; 4]; 4] = [[0u8; 4]; 4];
        let mut i: usize = 0;
        while i < 4
            invariant
                i <= 4,
                forall|r: int, c: int|
                    0 <= r < i && 0 <= c < 4 ==> temp[r][c] == state[(r + c) % 4][c],
            decreases 4 - i,
        {
            let mut ii: usize = 0;
            while ii < 4
                invariant
                    i < 4,
                    ii <= 4,
                    forall|r: int, c: int|
                        0 <= r < i && 0 <= c < 4 ==> temp[r][c] == state[(r + c) % 4][c],
                    forall|c: int| 0 <= c < ii ==> temp[i as int][c] == state[(i + c) % 4][c],
                decreases 4 - ii,
            {
                temp[i][ii] = state[(i + ii) % 4][ii];
                ii += 1;
            }
            i += 1;
        }
        assert(words(temp) =~~= shift_rows_spec(words(*state)));
        *state = temp;
    }

    fn sub_bytes(&mut self, state: &mut [[u8; 4]; 4]) {
        let ghost before = *state;
        let mut i: usize = 0;
        while i < 4
            invariant
                i <= 4,
                forall|r: int, c: int| 0 <= r < i && 0 <= c < 4 ==> state[r][c] == sbox(before[r][c]),
                forall|r: int, c: int| i <= r < 4 && 0 <= c < 4 ==> state[r][c] == before[r][c],
            decreases 4 - i,
        {
            let mut ii: usize = 0;
            while ii < 4
                invariant
                    i < 4,
                    ii <= 4,
                    forall|r: int, c: int|
                        0 <= r < i && 0 <= c < 4 ==> state[r][c] == sbox(before[r][c]),
                    forall|r: int, c: int|
                        i < r < 4 && 0 <= c < 4 ==> state[r][c] == before[r][c],
                    forall|c: int| 0 <= c < ii ==> state[i as int][c] == sbox(before[i as int][c]),
                    forall|c: int| ii <= c < 4 ==> state[i as int][c] == before[i as int][c],
                decreases 4 - ii,
            {
                let byte: u8 = state[i][ii];
                state[i][ii] = substitute(byte);
                ii += 1;
            }
            i += 1;
        }
        assert(words(*state) =~~= sub_bytes_spec(words(before)));
    }
}

/// Encryption is a function of the key and the block: two instances with
/// the round keys of one key turn one block into one ciphertext, of sixteen
/// bytes.
pub proof fn lemma_encrypt_deterministic(
    key: Seq<u8>,
    block: Seq<u8>,
    first: AdvancedEncryptionStandard128Bit,
    second: AdvancedEncryptionStandard128Bit,
)
    requires
        key.len() == 16,
        block.len() == 16,
        first.round_key_table() == key_schedule_spec(load_spec(key)),
        second.round_key_table() == key_schedule_spec(load_spec(key)),
    ensures
        first.encrypted(block) == second.encrypted(block),
        first.encrypted(block) == encrypt_spec(key_schedule_spec(load_spec(key)), block),
        first.encrypted(block).len() == 16,
{
}

/// The row permutation moves every byte and changes none: the byte at row
/// `r`, column `c` is found at row `(r - c) mod 4` of the same column.
pub proof fn lemma_shift_rows_keeps_every_byte(s: Seq<Seq<u8>>, r: int, c: int)
    requires
        0 <= r < 4,
        0 <= c < 4,
    ensures
        shift_rows_spec(s)[(r - c + 4) % 4][c] == s[r][c],
{
}

/// The schedule starts with the words of the key, and each later word is the
/// XOR of the word four places back and what the step makes of the word
/// before.
pub proof fn lemma_key_schedule_unfolds(key: Seq<Seq<u8>>, i: int)
    requires
        0 <= i < 44,
    ensures
        key_schedule_spec(key).len() == 44,
        i < 4 ==> key_schedule_spec(key)[i] == key[i],
        i >= 4 ==> key_schedule_spec(key)[i] == xor_word(
            key_schedule_spec(key)[i - 4],
            schedule_temp(key_schedule_spec(key)[i - 1], i),
        ),
{
}

/// Storing what was loaded gives the block back.
pub proof fn lemma_store_load(block: Seq<u8>)
    requires
        block.len() == 16,
    ensures
        store_spec(load_spec(block)) == block,
{
}

/// The diffusion step is linear: the diffusion of the XOR of two groups is
/// the XOR of their diffusions.
pub proof fn lemma_mix_byte_linear(g: Seq<u8>, h: Seq<u8>, k: int)
    requires
        g.len() == 4,
        h.len() == 4,
        0 <= k < 4,
    ensures
        mix_byte(xor_word(g, h), k) == mix_byte(g, k) ^ mix_byte(h, k),
{
    lemma_gf_mul_distributes(g[0], h[0], 2);
    lemma_gf_mul_distributes(g[1], h[1], 2);
    lemma_gf_mul_distributes(g[2], h[2], 2);
    lemma_gf_mul_distributes(g[3], h[3], 2);
    lemma_gf_mul_distributes(g[0], h[0], 3);
    lemma_gf_mul_distributes(g[1], h[1], 3);
    lemma_gf_mul_distributes(g[2], h[2], 3);
    lemma_gf_mul_distributes(g[3], h[3], 3);
    let x = xor_word(g, h);
    if k == 0 {
        lemma_xor_regroups(gf_mul(2, g[0]), gf_mul(3, g[1]), g[2], g[3], gf_mul(2, h[0]), gf_mul(3, h[1]), h[2], h[3]);
    } else if k == 1 {
        lemma_xor_regroups(g[0], gf_mul(2, g[1]), gf_mul(3, g[2]), g[3], h[0], gf_mul(2, h[1]), gf_mul(3, h[2]), h[3]);
    } else if k == 2 {
        lemma_xor_regroups(g[0], g[1], gf_mul(2, g[2]), gf_mul(3, g[3]), h[0], h[1], gf_mul(2, h[2]), gf_mul(3, h[3]));
    } else {
        lemma_xor_regroups(gf_mul(3, g[0]), g[1], g[2], gf_mul(2, g[3]), gf_mul(3, h[0]), h[1], h[2], gf_mul(2, h[3]));
    }
}

/// A XOR of four pairs is the XOR of the firsts with the XOR of the seconds.
proof fn lemma_xor_regroups(a0: u8, a1: u8, a2: u8, a3: u8, b0: u8, b1: u8, b2: u8, b3: u8)
    by (bit_vector)
    ensures
        (a0 ^ b0) ^ (a1 ^ b1) ^ (a2 ^ b2) ^ (a3 ^ b3) == (a0 ^ a1 ^ a2 ^ a3) ^ (b0 ^ b1 ^ b2 ^ b3),
{
}

} // verus!
