//! Bytes that are read one by one, in the clear or encrypted with a key.
//! Encrypting consumes the clear data and decrypting consumes the encrypted
//! data, so that only one of the two can be read at any time.
use vstd::prelude::*;

verus! {

/// Bytes in the clear.
pub struct Data {
    bytes: Vec<u8>,
    position: usize,
}

/// Bytes behind a key: every byte is read XORed with the key.
pub struct EncryptedData {
    data: Data,
    key: u8,
}

/// `b` encrypted with `key`.
pub open spec fn encrypted(b: u8, key: u8) -> u8 {
    b ^ key
}

/// Encrypting twice with one key gives the byte back.
pub proof fn lemma_encrypt_twice(b: u8, key: u8)
    ensures
        encrypted(encrypted(b, key), key) == b,
{
    assert((b ^ key) ^ key == b) by (bit_vector);
}

impl Data {
    /// The bytes that were not read yet.
    pub closed spec fn unread(&self) -> Seq<u8> {
        self.bytes@.skip(self.position as int)
    }

    /// The invariant of the data.
    pub closed spec fn wf(&self) -> bool {
        self.position <= self.bytes@.len()
    }

    /// Data that holds `bytes`, none of them read.
    pub fn new(bytes: Vec<u8>) -> (d: Data)
        ensures
            d.wf(),
            d.unread() == bytes@,
    {
        assert(bytes@.skip(0) =~= bytes@);
        Data { bytes, position: 0 }
    }

    /// Reads the next byte; `None` when none is left.
    pub fn read(&mut self) -> (r: Option<u8>)
        requires
            old(self).wf(),
        ensures
            final(self).wf(),
            match r {
                Some(b) => old(self).unread().len() > 0 && b == old(self).unread()[0] && final(self).unread() == old(self).unread().drop_first(),
                None => old(self).unread().len() == 0 && final(self).unread() == old(self).unread(),
            },
    {
        if self.position < self.bytes.len() {
            let b = self.bytes[self.position];
            proof {
                assert(self.unread().drop_first() =~= self.bytes@.skip(self.position + 1));
            }
            self.position = self.position + 1;
            Some(b)
        } else {
            None
        }
    }

    /// Puts what is left of the data behind `key`.
    pub fn encrypt(self, key: u8) -> (e: EncryptedData)
        requires
            self.wf(),
        ensures
            e.wf(),
            e.key() == key,
            e.clear() == self.unread(),
    {
        EncryptedData { data: self, key }
    }
}

impl EncryptedData {
    /// The key.
    pub closed spec fn key(&self) -> u8 {
        self.key
    }

    /// The unread bytes as they are in the clear.
    pub closed spec fn clear(&self) -> Seq<u8> {
        self.data.unread()
    }

    /// The invariant of the data.
    pub closed spec fn wf(&self) -> bool {
        self.data.wf()
    }

    /// Reads the next byte, encrypted; `None` when none is left.
    pub fn read(&mut self) -> (r: Option<u8>)
        requires
            old(self).wf(),
        ensures
            final(self).wf(),
            final(self).key() == old(self).key(),
            match r {
                Some(b) => old(self).clear().len() > 0 && b == encrypted(
                    old(self).clear()[0],
                    old(self).key(),
                ) && final(self).clear() == old(self).clear().drop_first(),
                None => old(self).clear().len() == 0 && final(self).clear() == old(self).clear(),
            },
    {
        match self.data.read() {
            Some(b) => Some(b ^ self.key),
            None => None,
        }
    }

    /// Gives the clear data back for the right key, and the encrypted data
    /// itself, unchanged, for a wrong one.
    pub fn decrypt(self, key: u8) -> (r: Result<Data, EncryptedData>)
        requires
            self.wf(),
        ensures
            match r {
                Ok(d) => key == self.key() && d.wf() && d.unread() == self.clear(),
                Err(e) => key != self.key() && e.wf() && e.key() == self.key() && e.clear()
                    == self.clear(),
            },
    {
        if key == self.key {
            Ok(self.data)
        } else {
            Err(self)
        }
    }
}

} // verus!
