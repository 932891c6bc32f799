//! A datagram header that names its purpose.
use vstd::prelude::*;
use crate::numbers::{varint_encoded_len, varint_len};

verus! {

/// What a datagram is for.
#[derive(Clone, Copy, Debug, PartialEq, Eq, Structural)]
pub enum DatagramPurpose {
    /// A message on `channel`.
    Stardust { channel: u32 },
}

/// The header of a datagram.
#[derive(Clone, Copy, Debug, PartialEq, Eq, Structural)]
pub struct DatagramHeader {
    pub purpose: DatagramPurpose,
}

/// The number that identifies a purpose on the wire.
pub open spec fn purpose_code(p: DatagramPurpose) -> u32 {
    match p {
        DatagramPurpose::Stardust { .. } => 0,
    }
}

impl DatagramPurpose {
    /// The number that identifies this purpose on the wire.
    pub fn code(&self) -> (r: u32)
        ensures
            r == purpose_code(*self),
    {
        match self {
            DatagramPurpose::Stardust { channel: _ } => 0,
        }
    }
}

impl DatagramHeader {
    /// The encoded length of the header: the length of the purpose code as a
    /// variable-length integer, counted once for the code and once more for
    /// the purpose's field (which is measured by the code's value as well).
    pub fn encode_len(&self) -> (r: usize)
        ensures
            r == varint_len(purpose_code(self.purpose) as nat) + varint_len(
                purpose_code(self.purpose) as nat,
            ),
    {
        let mut len: usize = 0;
        len = len + varint_encoded_len(self.purpose.code()) as usize;
        match self.purpose {
            DatagramPurpose::Stardust { channel: _ } => {
                len = len + varint_encoded_len(self.purpose.code()) as usize;
            },
        }
        len
    }
}

} // verus!
