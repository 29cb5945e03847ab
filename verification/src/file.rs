//! Files that change their type when they are encrypted, so that a file
//! cannot be used in the clear after it was encrypted.
use vstd::prelude::*;

verus! {

/// A file that is open for use.
pub struct OpenedFile {
    pub fd: u32,
}

/// A file behind a key. It has to be turned back before it can be used.
pub struct EncryptedFile {
    file: OpenedFile,
    key: u32,
}

impl EncryptedFile {
    /// The descriptor of the file that was encrypted.
    pub closed spec fn fd(&self) -> u32 {
        self.file.fd
    }

    /// The key.
    pub closed spec fn key(&self) -> u32 {
        self.key
    }
}

/// Encrypts `file` with `key`; the open file is given up.
pub fn to_encrypted_file(file: OpenedFile, key: u32) -> (e: EncryptedFile)
    ensures
        e.fd() == file.fd,
        e.key() == key,
{
    EncryptedFile { file, key }
}

/// Gives back the open file that was encrypted.
pub fn to_file(file: EncryptedFile) -> (f: OpenedFile)
    ensures
        f.fd == file.fd(),
{
    file.file
}

} // verus!
