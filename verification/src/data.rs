//! The payload of a write request, and how fragments accumulate in it.

use vstd::prelude::*;

verus! {

/// What a [`WriteData`] stands for in contracts: its kind and its bytes.
pub struct Payload {
    /// `true` for an append payload, `false` for an override payload.
    pub append: bool,
    /// The bytes it carries.
    pub bytes: Seq<u8>,
}

impl Payload {
    /// The payload after it has taken in one more fragment: an append payload
    /// holds the old bytes followed by the new ones, an override payload holds
    /// the new ones alone.
    pub open spec fn absorb(self, bytes: Seq<u8>) -> Payload {
        Payload {
            append: self.append,
            bytes: if self.append {
                self.bytes + bytes
            } else {
                bytes
            },
        }
    }

    /// The payload with its bytes dropped.
    pub open spec fn emptied(self) -> Payload {
        Payload { append: self.append, bytes: Seq::empty() }
    }
}

/// Bytes bound for a local file, together with the way they are to reach it.
pub enum WriteData {
    /// Bytes to be added after whatever the file already holds.
    Append(Vec<u8>),
    /// Bytes that replace whatever the file held before.
    Override(Vec<u8>),
}

impl View for WriteData {
    type V = Payload;

    open spec fn view(&self) -> Payload {
        match self {
            WriteData::Append(local) => Payload { append: true, bytes: local@ },
            WriteData::Override(local) => Payload { append: false, bytes: local@ },
        }
    }
}

impl WriteData {
    /// Takes in one more fragment: an append payload grows by it, an override
    /// payload is replaced by it. The kind of `self` never changes.
    pub fn write(&mut self, data: Vec<u8>)
        ensures
            final(self)@ == old(self)@.absorb(data@),
    {
        match self {
            WriteData::Append(local) => {
                let mut data = data;
                local.append(&mut data);
            },
            WriteData::Override(local) => {
                *local = data;
            },
        }
    }

    /// Drops the bytes and keeps the kind.
    pub fn clear(&mut self)
        ensures
            final(self)@ == old(self)@.emptied(),
    {
        match self {
            WriteData::Append(local) => local.clear(),
            WriteData::Override(local) => local.clear(),
        }
    }

    /// Hands out the payload and leaves `self` empty, of the same kind.
    pub fn take(&mut self) -> (taken: WriteData)
        ensures
            taken@ == old(self)@,
            final(self)@ == old(self)@.emptied(),
    {
        match self {
            WriteData::Append(local) => {
                let mut bytes: Vec<u8> = Vec::new();
                core::mem::swap(local, &mut bytes);
                WriteData::Append(bytes)
            },
            WriteData::Override(local) => {
                let mut bytes: Vec<u8> = Vec::new();
                core::mem::swap(local, &mut bytes);
                WriteData::Override(bytes)
            },
        }
    }

    /// Gives up the bytes, whatever the kind.
    pub fn into_bytes(self) -> (bytes: Vec<u8>)
        ensures
            bytes@ == self@.bytes,
    {
        match self {
            WriteData::Append(local) => local,
            WriteData::Override(local) => local,
        }
    }

    /// The number of bytes held.
    pub fn len(&self) -> (n: usize)
        ensures
            n == self@.bytes.len(),
    {
        match self {
            WriteData::Append(local) => local.len(),
            WriteData::Override(local) => local.len(),
        }
    }

    /// Whether no bytes are held.
    pub fn is_empty(&self) -> (empty: bool)
        ensures
            empty == (self@.bytes.len() == 0),
    {
        match self {
            WriteData::Append(local) => local.is_empty(),
            WriteData::Override(local) => local.is_empty(),
        }
    }
}

} // verus!
