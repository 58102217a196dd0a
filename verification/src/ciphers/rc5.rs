//! The parameters of an RC5 cipher instance.

use vstd::prelude::*;
use vstd::pervasive::unreached;
use crate::Cipher;

verus! {

/// The key and the parameters of an RC5 cipher.
pub struct RC5 {
    key: Vec<u8>,
    rounds: usize,
    word_size: usize,
    number_of_rounds: usize,
    key_size: usize,
}

/// What an RC5 instance holds.
pub struct RC5View {
    pub key: Seq<u8>,
    pub rounds: nat,
    pub word_size: nat,
    pub number_of_rounds: nat,
    pub key_size: nat,
}

impl View for RC5 {
    type V = RC5View;

    closed spec fn view(&self) -> RC5View {
        RC5View {
            key: self.key@,
            rounds: self.rounds as nat,
            word_size: self.word_size as nat,
            number_of_rounds: self.number_of_rounds as nat,
            key_size: self.key_size as nat,
        }
    }
}

impl RC5 {
    /// An instance for a key, a number of rounds and a word size in bits that
    /// is a multiple of 16. It records `2 * rounds + 2` as the number of
    /// round-key words and the length of the key.
    pub fn new(key: Vec<u8>, rounds: usize, word_size: usize) -> (rc5: Self)
        requires
            word_size % 16 == 0,
            2 * rounds + 2 <= usize::MAX,
        ensures
            rc5@ == (RC5View {
                key: key@,
                rounds: rounds as nat,
                word_size: word_size as nat,
                number_of_rounds: (2 * rounds + 2) as nat,
                key_size: key@.len(),
            }),
    {
        let number_of_rounds: usize = 2 * rounds + 2;
        let key_size: usize = key.len();
        Self { key, rounds, word_size, number_of_rounds, key_size }
    }

    /// Wipes the instance: the key is emptied and every parameter set to zero.
    pub fn destroy(&mut self)
        ensures
            final(self)@ == (RC5View {
                key: Seq::empty(),
                rounds: 0,
                word_size: 0,
                number_of_rounds: 0,
                key_size: 0,
            }),
    {
        self.key.clear();
        self.rounds = 0;
        self.word_size = 0;
        self.number_of_rounds = 0;
        self.key_size = 0;
    }

    pub fn key(&self) -> (key: &Vec<u8>)
        ensures
            key@ == self@.key,
    {
        &self.key
    }

    pub fn rounds(&self) -> (rounds: usize)
        ensures
            rounds == self@.rounds,
    {
        self.rounds
    }

    pub fn word_size(&self) -> (word_size: usize)
        ensures
            word_size == self@.word_size,
    {
        self.word_size
    }

    pub fn number_of_rounds(&self) -> (number_of_rounds: usize)
        ensures
            number_of_rounds == self@.number_of_rounds,
    {
        self.number_of_rounds
    }

    pub fn key_size(&self) -> (key_size: usize)
        ensures
            key_size == self@.key_size,
    {
        self.key_size
    }
}

impl Cipher for RC5 {
    /// Encryption takes any input.
    open spec fn encrypt_accepts(&self, input: Seq<u8>) -> bool {
        true
    }

    /// Encryption is not implemented: it yields no bytes.
    open spec fn encrypted(&self, input: Seq<u8>) -> Seq<u8> {
        Seq::empty()
    }

    /// Decryption is not implemented: it takes no input.
    open spec fn decrypt_accepts(&self, input: Seq<u8>) -> bool {
        false
    }

    open spec fn decrypted(&self, input: Seq<u8>) -> Seq<u8> {
        Seq::empty()
    }

    fn encrypt(&mut self, input: &[u8]) -> (output: Vec<u8>) {
        Vec::new()
    }

    fn decrypt(&mut self, input: &[u8]) -> (output: Vec<u8>) {
        unreached()
    }
}

} // verus!
